//! The instance registry, the building of per-instance targets, and the
//! turning of each instance's outcome into a uniform result.
use vstd::prelude::*;
use vstd::string::*;
use crate::json::{JsonValue, stamp_shard, stamped};
use std::time::Duration;

verus! {

/// The status given to an instance whose request failed in transport.
pub const INTERNAL_SERVER_ERROR: u16 = 500;

/// One backend service instance: a unique id, a label, and its base URL in
/// serialized form (scheme, host and an optional path prefix).
#[derive(Debug, PartialEq, Eq)]
pub struct Instance {
    pub id: String,
    pub title: String,
    pub url: String,
}

/// No two instances share an id.
pub open spec fn ids_unique(instances: Seq<Instance>) -> bool {
    forall|i: int, j: int|
        0 <= i < j < instances.len() ==> (#[trigger] instances[i]).id@ != (#[trigger] instances[j]).id@
}

/// The outcome of one instance: its payload, its status, and how long it
/// took, in seconds.
#[derive(Debug, PartialEq)]
pub struct InstanceResponse {
    pub data: Option<JsonValue>,
    pub status: u16,
    pub elapsed_secs: String,
}

/// The merged outcome of a fan-out: one entry per instance, keyed by its id,
/// in the order of the registry.
#[derive(Debug, PartialEq)]
pub struct Response(pub Vec<(String, InstanceResponse)>);

/// The entries of a response are keyed, one to one and in order, by the ids
/// of `instances`.
pub open spec fn keyed_by(entries: Seq<(String, InstanceResponse)>, instances: Seq<Instance>) -> bool {
    &&& entries.len() == instances.len()
    &&& forall|i: int| 0 <= i < entries.len() ==> (#[trigger] entries[i]).0@ == instances[i].id@
}

/// A status in the 2xx range.
pub open spec fn success_status(status: u16) -> bool {
    200 <= status < 300
}

/// `s` without the slashes it ends with.
pub open spec fn trim_trailing_slashes(s: Seq<char>) -> Seq<char>
    decreases s.len(),
{
    if s.len() > 0 && s.last() == '/' {
        trim_trailing_slashes(s.drop_last())
    } else {
        s
    }
}

/// The address that a request goes to: the base URL itself, or, with a path
/// and query, the base URL without its trailing slashes followed by them.
pub open spec fn target_of(base: Seq<char>, path_and_query: Option<Seq<char>>) -> Seq<char> {
    match path_and_query {
        None => base,
        Some(p) => trim_trailing_slashes(base) + p,
    }
}

/// The payload of a result, from its status and the parsed body: present
/// only for a 2xx status and a body that parsed, then stamped with the
/// instance's id.
pub open spec fn data_of(
    id: String,
    status: u16,
    parsed: Option<JsonValue>,
    data: Option<JsonValue>,
) -> bool {
    if success_status(status) {
        match parsed {
            None => data is None,
            Some(v) => data is Some && stamped(v, data->Some_0, id),
        }
    } else {
        data is None
    }
}

impl Instance {
    /// A copy of this instance.
    pub fn copy(&self) -> (r: Instance)
        ensures
            r == *self,
    {
        Instance { id: self.id.clone(), title: self.title.clone(), url: self.url.clone() }
    }
}

impl Response {
    /// The result of the instance with the given id.
    pub fn get(&self, id: &str) -> (r: Option<&InstanceResponse>)
        ensures
            r is None <==> forall|i: int|
                0 <= i < self.0@.len() ==> (#[trigger] self.0@[i]).0@ != id@,
            r is Some ==> exists|i: int|
                0 <= i < self.0@.len() && (#[trigger] self.0@[i]).0@ == id@ && self.0@[i].1
                    == *r->Some_0,
    {
        let n = self.0.len();
        let mut j: usize = 0;
        while j < n
            invariant
                n == self.0@.len(),
                0 <= j <= n,
                forall|i: int| 0 <= i < j ==> (#[trigger] self.0@[i]).0@ != id@,
            decreases n - j,
        {
            if str_equal(self.0[j].0.as_str(), id) {
                return Some(&self.0[j].1);
            }
            j += 1;
        }
        None
    }
}

/// Whether two strings hold the same characters.
pub fn str_equal(a: &str, b: &str) -> (r: bool)
    ensures
        r == (a@ == b@),
{
    let n = a.unicode_len();
    if n != b.unicode_len() {
        return false;
    }
    let mut j: usize = 0;
    while j < n
        invariant
            n == a@.len(),
            n == b@.len(),
            0 <= j <= n,
            forall|i: int| 0 <= i < j ==> a@[i] == b@[i],
        decreases n - j,
    {
        if a.get_char(j) != b.get_char(j) {
            return false;
        }
        j += 1;
    }
    assert(a@ =~= b@);
    true
}

/// Whether a status is in the 2xx range.
pub fn is_success(status: u16) -> (r: bool)
    ensures
        r == success_status(status),
{
    200 <= status && status < 300
}

/// The address of one instance's request: `base` itself, or, given a path and
/// query, `base` with its trailing slashes trimmed followed by them verbatim.
pub fn target_url(base: &str, path_and_query: Option<&str>) -> (r: String)
    ensures
        r@ == target_of(
            base@,
            match path_and_query {
                None => None,
                Some(p) => Some(p@),
            },
        ),
{
    match path_and_query {
        None => String::from_str(base),
        Some(p) => {
            let mut end = base.unicode_len();
            assert(base@.subrange(0, end as int) =~= base@);
            while end > 0 && base.get_char(end - 1) == '/'
                invariant
                    end <= base@.len(),
                    trim_trailing_slashes(base@) == trim_trailing_slashes(
                        base@.subrange(0, end as int),
                    ),
                decreases end,
            {
                assert(base@.subrange(0, end as int).drop_last() =~= base@.subrange(
                    0,
                    end - 1,
                ));
                end -= 1;
            }
            assert(trim_trailing_slashes(base@.subrange(0, end as int)) == base@.subrange(
                0,
                end as int,
            ));
            let mut r = String::from_str(base.substring_char(0, end));
            r.append(p);
            r
        },
    }
}

/// Folds the outcome of a transport into a body and a status: a response
/// keeps its own; a failure becomes its error text with the internal-error
/// status.
pub fn settle_transport(outcome: Result<(String, u16), String>) -> (r: (String, u16))
    ensures
        match outcome {
            Ok(received) => r == received,
            Err(text) => r == (text, INTERNAL_SERVER_ERROR),
        },
{
    match outcome {
        Ok(received) => received,
        Err(text) => (text, INTERNAL_SERVER_ERROR),
    }
}

/// The result of one instance, from its status, its body as parsed (`None`
/// where the body was not parsed or is not JSON) and the time it took. The
/// payload is kept only for a 2xx status, then stamped with the instance's
/// id.
pub fn normalize(
    instance_id: &String,
    status: u16,
    parsed: Option<JsonValue>,
    elapsed_secs: String,
) -> (r: InstanceResponse)
    ensures
        r.status == status,
        r.elapsed_secs == elapsed_secs,
        data_of(*instance_id, status, parsed, r.data),
{
    let data = if is_success(status) {
        match parsed {
            Some(v) => Some(stamp_shard(v, instance_id)),
            None => None,
        }
    } else {
        None
    };
    InstanceResponse { data, status, elapsed_secs }
}

/// A failed transport gives a result with the internal-error status and no
/// payload, whatever its error text and whatever was parsed.
pub proof fn lemma_transport_failure_has_no_data(
    id: String,
    parsed: Option<JsonValue>,
    data: Option<JsonValue>,
)
    requires
        data_of(id, INTERNAL_SERVER_ERROR, parsed, data),
    ensures
        data is None,
        !success_status(INTERNAL_SERVER_ERROR),
{
}

/// A status outside the 2xx range is kept and brings no payload, whatever the
/// body held.
pub proof fn lemma_error_status_has_no_data(
    id: String,
    status: u16,
    parsed: Option<JsonValue>,
    data: Option<JsonValue>,
)
    requires
        !success_status(status),
        data_of(id, status, parsed, data),
    ensures
        data is None,
{
}

/// A 2xx status with a body that parsed always brings a payload.
pub proof fn lemma_success_has_data(
    id: String,
    status: u16,
    v: JsonValue,
    data: Option<JsonValue>,
)
    requires
        success_status(status),
        data_of(id, status, Some(v), data),
    ensures
        data is Some,
        stamped(v, data->Some_0, id),
{
}

} // verus!
