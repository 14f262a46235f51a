//! A JSON value model and the stamping of array payloads with the shard they
//! came from.
use vstd::prelude::*;

verus! {

/// serde_json's number type, carried through unread: a JSON number keeps the
/// exact form that serde_json parsed.
#[verifier::external_type_specification]
#[verifier::external_body]
pub struct ExNumber(serde_json::Number);

/// A JSON document. Objects keep their fields in order, with at most one
/// field per name.
#[derive(Debug, PartialEq)]
pub enum JsonValue {
    Null,
    Bool(bool),
    Number(serde_json::Number),
    String(String),
    Array(Vec<JsonValue>),
    Object(Vec<(String, JsonValue)>),
}

/// The name of the field that marks an object with its originating shard.
pub open spec fn shard_key() -> Seq<char> {
    seq!['s', 'h', 'a', 'r', 'd', '_', 'i', 'd']
}

/// Some field of `entries` is named `k`.
pub open spec fn has_key(entries: Seq<(String, JsonValue)>, k: Seq<char>) -> bool {
    exists|i: int| 0 <= i < entries.len() && (#[trigger] entries[i]).0@ == k
}

/// `after` is `before` with field `k` set to `v`: every field named `k` has
/// its value replaced in place; where there is none, the field is appended.
pub open spec fn field_put(
    before: Seq<(String, JsonValue)>,
    after: Seq<(String, JsonValue)>,
    k: Seq<char>,
    v: JsonValue,
) -> bool {
    if has_key(before, k) {
        &&& after.len() == before.len()
        &&& forall|j: int|
            0 <= j < before.len() ==> #[trigger] after[j] == (if before[j].0@ == k {
                (before[j].0, v)
            } else {
                before[j]
            })
    } else {
        &&& after.len() == before.len() + 1
        &&& after.drop_last() == before
        &&& after.last().0@ == k
        &&& after.last().1 == v
    }
}

/// One element of an array after stamping: an object gets the shard field,
/// anything else is left as it is.
pub open spec fn element_stamped(before: JsonValue, after: JsonValue, id: String) -> bool {
    match before {
        JsonValue::Object(es) => match after {
            JsonValue::Object(os) => field_put(es@, os@, shard_key(), JsonValue::String(id)),
            _ => false,
        },
        _ => after == before,
    }
}

/// `after` is `before` stamped with shard `id`: each top-level object of an
/// array carries the shard field; a value that is not an array is unchanged.
pub open spec fn stamped(before: JsonValue, after: JsonValue, id: String) -> bool {
    match before {
        JsonValue::Array(items) => match after {
            JsonValue::Array(out) => {
                &&& out@.len() == items@.len()
                &&& forall|i: int|
                    #![trigger out@[i]]
                    0 <= i < items@.len() ==> element_stamped(items@[i], out@[i], id)
            },
            _ => false,
        },
        _ => after == before,
    }
}

/// The fields of an object carry shard `id`: some field is named `shard_id`,
/// and every field of that name holds the string `id`.
pub open spec fn carries_shard(entries: Seq<(String, JsonValue)>, id: String) -> bool {
    &&& has_key(entries, shard_key())
    &&& forall|j: int|
        0 <= j < entries.len() && (#[trigger] entries[j]).0@ == shard_key() ==> entries[j].1
            == JsonValue::String(id)
}

/// Stamping marks every object of an array with its shard: each object
/// element carries `id` under `shard_id`, whatever it held there before, and
/// keeps its other fields; an element that is not an object is unchanged; a
/// value that is not an array is unchanged.
pub proof fn lemma_stamped_objects_carry_shard(before: JsonValue, after: JsonValue, id: String)
    requires
        stamped(before, after, id),
    ensures
        !(before is Array) ==> after == before,
        before is Array ==> after is Array && after->Array_0@.len() == before->Array_0@.len(),
        before is Array ==> forall|i: int|
            #![trigger after->Array_0@[i]]
            0 <= i < before->Array_0@.len() ==> {
                let b = before->Array_0@[i];
                let a = after->Array_0@[i];
                &&& b is Object ==> a is Object && carries_shard(a->Object_0@, id)
                &&& b is Object ==> forall|j: int|
                    0 <= j < b->Object_0@.len() && (#[trigger] b->Object_0@[j]).0@ != shard_key()
                        ==> a->Object_0@[j] == b->Object_0@[j]
                &&& !(b is Object) ==> a == b
            },
{
    if before is Array {
        let items = before->Array_0@;
        let out = after->Array_0@;
        assert forall|i: int| #![trigger out[i]] 0 <= i < items.len() implies {
            let b = items[i];
            let a = out[i];
            &&& b is Object ==> a is Object && carries_shard(a->Object_0@, id)
            &&& b is Object ==> forall|j: int|
                0 <= j < b->Object_0@.len() && (#[trigger] b->Object_0@[j]).0@ != shard_key()
                    ==> a->Object_0@[j] == b->Object_0@[j]
            &&& !(b is Object) ==> a == b
        } by {
            assert(element_stamped(items[i], out[i], id));
            if items[i] is Object {
                let es = items[i]->Object_0@;
                let os = out[i]->Object_0@;
                if has_key(es, shard_key()) {
                    let k = choose|k: int| 0 <= k < es.len() && (#[trigger] es[k]).0@ == shard_key();
                    assert(os[k] == (es[k].0, JsonValue::String(id)));
                    assert(has_key(os, shard_key()));
                } else {
                    assert(os[os.len() - 1] == os.last());
                    assert(has_key(os, shard_key()));
                    assert forall|j: int| 0 <= j < es.len() implies os[j] == #[trigger] es[j] by {
                        assert(os.drop_last()[j] == os[j]);
                    }
                }
            }
        }
    }
}

/// Sets the field `key` of an object's fields to the string `text`.
pub fn put_text_field(entries: &mut Vec<(String, JsonValue)>, key: &String, text: &String)
    ensures
        field_put(old(entries)@, final(entries)@, key@, JsonValue::String(*text)),
{
    let ghost before = old(entries)@;
    let n = entries.len();
    let mut found = false;
    let mut j: usize = 0;
    while j < n
        invariant
            before == old(entries)@,
            n == before.len(),
            entries@.len() == n,
            0 <= j <= n,
            forall|m: int|
                0 <= m < j ==> #[trigger] entries@[m] == (if before[m].0@ == key@ {
                    (before[m].0, JsonValue::String(*text))
                } else {
                    before[m]
                }),
            forall|m: int| j <= m < n ==> #[trigger] entries@[m] == before[m],
            found == exists|m: int| 0 <= m < j && (#[trigger] before[m]).0@ == key@,
        decreases n - j,
    {
        if entries[j].0 == *key {
            let k = entries[j].0.clone();
            entries.set(j, (k, JsonValue::String(text.clone())));
            found = true;
        }
        j += 1;
    }
    if !found {
        entries.push((key.clone(), JsonValue::String(text.clone())));
        assert(entries@.drop_last() =~= before);
    }
}

/// Stamps a payload with the shard it came from: each object that stands at
/// the top level of an array gets the field `shard_id` set to `id`,
/// overwriting a field of that name. Other values pass through unchanged.
pub fn stamp_shard(value: JsonValue, id: &String) -> (r: JsonValue)
    ensures
        stamped(value, r, *id),
{
    match value {
        JsonValue::Array(items) => {
            let mut items = items;
            let ghost before = items@;
            let key = String::from_str("shard_id");
            proof {
                reveal_strlit("shard_id");
            }
            assert(key@ == shard_key());
            let n = items.len();
            let mut j: usize = 0;
            while j < n
                invariant
                    n == before.len(),
                    items@.len() == n,
                    key@ == shard_key(),
                    0 <= j <= n,
                    forall|m: int|
                        0 <= m < j ==> element_stamped(before[m], #[trigger] items@[m], *id),
                    forall|m: int| j <= m < n ==> #[trigger] items@[m] == before[m],
                decreases n - j,
            {
                let mut item = JsonValue::Null;
                items.set_and_swap(j, &mut item);
                let done = match item {
                    JsonValue::Object(es) => {
                        let mut es = es;
                        put_text_field(&mut es, &key, id);
                        JsonValue::Object(es)
                    },
                    other => other,
                };
                items.set(j, done);
                j += 1;
            }
            JsonValue::Array(items)
        },
        other => other,
    }
}

} // verus!
