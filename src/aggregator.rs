//! The registry of instances and the bounded fan-out over them.
//!
//! A fan-out is a state machine: it hands out one dispatch at a time, never
//! more than the configured number in flight, takes each instance's result
//! back as it completes, and merges them once all are in.
use vstd::prelude::*;
use crate::proxy::{Instance, InstanceResponse, Response, ids_unique, keyed_by, target_of, target_url};
use std::time::Duration;

verus! {

/// Replays requests against a fixed, ordered set of instances, with at most
/// `concurrent_requests` in flight and a timeout for each.
pub struct BlockscoutProxy {
    instances: Vec<Instance>,
    concurrent_requests: usize,
    request_timeout: Duration,
}

/// What a proxy holds.
pub struct ProxyView {
    pub instances: Seq<Instance>,
    pub concurrent_requests: nat,
    pub request_timeout: Duration,
}

impl View for BlockscoutProxy {
    type V = ProxyView;

    closed spec fn view(&self) -> ProxyView {
        ProxyView {
            instances: self.instances@,
            concurrent_requests: self.concurrent_requests as nat,
            request_timeout: self.request_timeout,
        }
    }
}

/// One request to send: the position of the instance in the registry, its
/// id and the address to send to.
pub struct Dispatch {
    pub index: usize,
    pub id: String,
    pub url: String,
}

/// A fan-out in progress. Instances are dispatched in registry order; the
/// results come back in any order.
pub struct FanOut {
    targets: Vec<(String, String)>,
    limit: usize,
    next: usize,
    in_flight: usize,
    results: Vec<Option<InstanceResponse>>,
}

/// What a fan-out holds: for each instance its id and address, the bound on
/// requests in flight, how many instances were dispatched, how many of those
/// are still in flight, and the results that came back.
pub struct FanOutView {
    pub targets: Seq<(Seq<char>, Seq<char>)>,
    pub limit: nat,
    pub next: nat,
    pub in_flight: nat,
    pub results: Seq<Option<InstanceResponse>>,
}

impl View for FanOut {
    type V = FanOutView;

    closed spec fn view(&self) -> FanOutView {
        FanOutView {
            targets: self.targets@.map_values(|t: (String, String)| (t.0@, t.1@)),
            limit: self.limit as nat,
            next: self.next as nat,
            in_flight: self.in_flight as nat,
            results: self.results@,
        }
    }
}

/// How many of the first `upto` results are still missing.
pub open spec fn pending_count(results: Seq<Option<InstanceResponse>>, upto: int) -> nat
    decreases upto,
{
    if upto <= 0 {
        0
    } else {
        pending_count(results, upto - 1) + if results[upto - 1] is None {
            1nat
        } else {
            0nat
        }
    }
}

/// The id and the address of each instance's request.
pub open spec fn targets_for(instances: Seq<Instance>, path_and_query: Option<Seq<char>>) -> Seq<
    (Seq<char>, Seq<char>),
> {
    instances.map_values(|i: Instance| (i.id@, target_of(i.url@, path_and_query)))
}

proof fn lemma_pending_same(a: Seq<Option<InstanceResponse>>, b: Seq<Option<InstanceResponse>>, upto: int)
    requires
        0 <= upto <= a.len(),
        upto <= b.len(),
        forall|j: int| 0 <= j < upto ==> a[j] == b[j],
    ensures
        pending_count(a, upto) == pending_count(b, upto),
    decreases upto,
{
    if upto > 0 {
        lemma_pending_same(a, b, upto - 1);
    }
}

proof fn lemma_pending_fill(
    results: Seq<Option<InstanceResponse>>,
    upto: int,
    i: int,
    r: InstanceResponse,
)
    requires
        0 <= i < upto <= results.len(),
        results[i] is None,
    ensures
        pending_count(results.update(i, Some(r)), upto) + 1 == pending_count(results, upto),
    decreases upto,
{
    if upto - 1 > i {
        lemma_pending_fill(results, upto - 1, i, r);
    } else {
        lemma_pending_same(results.update(i, Some(r)), results, upto - 1);
    }
}

proof fn lemma_pending_none(results: Seq<Option<InstanceResponse>>, upto: int)
    requires
        0 <= upto <= results.len(),
        pending_count(results, upto) == 0,
    ensures
        forall|j: int| 0 <= j < upto ==> (#[trigger] results[j]) is Some,
    decreases upto,
{
    if upto > 0 {
        lemma_pending_none(results, upto - 1);
    }
}

impl BlockscoutProxy {
    /// A proxy over `instances`, whose ids are unique, with at most
    /// `concurrent_requests` requests in flight and `request_timeout` for each.
    pub fn new(instances: Vec<Instance>, concurrent_requests: usize, request_timeout: Duration) -> (r:
        Self)
        requires
            ids_unique(instances@),
        ensures
            r@ == (ProxyView {
                instances: instances@,
                concurrent_requests: concurrent_requests as nat,
                request_timeout,
            }),
    {
        BlockscoutProxy { instances, concurrent_requests, request_timeout }
    }

    /// The instances, in registry order.
    pub fn instances(&self) -> (r: Vec<Instance>)
        ensures
            r@ == self@.instances,
    {
        let mut r: Vec<Instance> = Vec::new();
        let n = self.instances.len();
        let mut j: usize = 0;
        while j < n
            invariant
                n == self.instances@.len(),
                0 <= j <= n,
                r@ == self.instances@.subrange(0, j as int),
            decreases n - j,
        {
            r.push(self.instances[j].copy());
            j += 1;
        }
        assert(r@ =~= self.instances@);
        r
    }

    /// The bound on requests in flight.
    pub fn concurrent_requests(&self) -> (r: usize)
        ensures
            r == self@.concurrent_requests,
    {
        self.concurrent_requests
    }

    /// The timeout of each request.
    pub fn request_timeout(&self) -> (r: Duration)
        ensures
            r == self@.request_timeout,
    {
        self.request_timeout
    }

    /// Starts a fan-out of one request over every instance, each request
    /// addressed to the instance's base URL extended by `path_and_query`.
    pub fn fan_out(&self, path_and_query: Option<&str>) -> (f: FanOut)
        ensures
            f.wf(),
            f@.targets == targets_for(
                self@.instances,
                match path_and_query {
                    None => None,
                    Some(p) => Some(p@),
                },
            ),
            f@.limit == self@.concurrent_requests,
            f@.next == 0,
            f@.in_flight == 0,
            f@.results == Seq::new(self@.instances.len(), |i: int| None::<InstanceResponse>),
    {
        let ghost pq = match path_and_query {
            None => None,
            Some(p) => Some(p@),
        };
        let n = self.instances.len();
        let mut targets: Vec<(String, String)> = Vec::new();
        let mut results: Vec<Option<InstanceResponse>> = Vec::new();
        let mut j: usize = 0;
        while j < n
            invariant
                n == self.instances@.len(),
                pq == match path_and_query {
                    None => None,
                    Some(p) => Some(p@),
                },
                0 <= j <= n,
                targets@.len() == j,
                results@.len() == j,
                forall|m: int|
                    0 <= m < j ==> (#[trigger] targets@[m]).0@ == self.instances@[m].id@
                        && targets@[m].1@ == target_of(self.instances@[m].url@, pq),
                forall|m: int| 0 <= m < j ==> (#[trigger] results@[m]) is None,
            decreases n - j,
        {
            let inst = &self.instances[j];
            let url = target_url(inst.url.as_str(), path_and_query);
            targets.push((inst.id.clone(), url));
            results.push(None);
            j += 1;
        }
        let f = FanOut { targets, limit: self.concurrent_requests, next: 0, in_flight: 0, results };
        assert(f@.targets =~= targets_for(self@.instances, pq));
        assert(f@.results =~= Seq::new(n as nat, |i: int| None::<InstanceResponse>));
        f
    }
}

impl FanOut {
    /// The fan-out is consistent: one result slot per instance, the count in
    /// flight is that of dispatched instances without a result, it never
    /// exceeds the bound, and no instance has a result before it is dispatched.
    pub open spec fn wf(&self) -> bool {
        let v = self@;
        &&& v.results.len() == v.targets.len()
        &&& v.next <= v.targets.len()
        &&& v.in_flight == pending_count(v.results, v.next as int)
        &&& v.in_flight <= v.limit
        &&& forall|i: int| v.next <= i < v.results.len() ==> (#[trigger] v.results[i]) is None
    }

    /// The next request to send, if the bound allows one more in flight and
    /// an instance is still to be dispatched; it is then counted in flight.
    pub fn next_dispatch(&mut self) -> (d: Option<Dispatch>)
        requires
            old(self).wf(),
        ensures
            final(self).wf(),
            if old(self)@.in_flight < old(self)@.limit && old(self)@.next < old(self)@.targets.len() {
                &&& d is Some
                &&& d->Some_0.index == old(self)@.next
                &&& d->Some_0.id@ == old(self)@.targets[old(self)@.next as int].0
                &&& d->Some_0.url@ == old(self)@.targets[old(self)@.next as int].1
                &&& final(self)@ == (FanOutView {
                    next: old(self)@.next + 1,
                    in_flight: old(self)@.in_flight + 1,
                    ..old(self)@
                })
            } else {
                &&& d is None
                &&& final(self)@ == old(self)@
            },
    {
        if self.in_flight < self.limit && self.next < self.targets.len() {
            let index = self.next;
            let id = self.targets[index].0.clone();
            let url = self.targets[index].1.clone();
            self.next = index + 1;
            self.in_flight = self.in_flight + 1;
            Some(Dispatch { index, id, url })
        } else {
            None
        }
    }

    /// Whether the instance at `index` was dispatched and has no result yet.
    pub fn is_pending(&self, index: usize) -> (r: bool)
        requires
            self.wf(),
        ensures
            r == (index < self@.next && self@.results[index as int] is None),
    {
        index < self.next && self.results[index].is_none()
    }

    /// Whether every instance was dispatched and has its result.
    pub fn is_finished(&self) -> (r: bool)
        requires
            self.wf(),
        ensures
            r == (self@.next == self@.targets.len() && self@.in_flight == 0),
    {
        self.next == self.targets.len() && self.in_flight == 0
    }

    /// Records the result of the dispatched instance at `index`, which frees
    /// its place in flight. The other results are unchanged.
    pub fn complete(&mut self, index: usize, result: InstanceResponse)
        requires
            old(self).wf(),
            index < old(self)@.next,
            old(self)@.results[index as int] is None,
        ensures
            final(self).wf(),
            final(self)@ == (FanOutView {
                results: old(self)@.results.update(index as int, Some(result)),
                in_flight: (old(self)@.in_flight - 1) as nat,
                ..old(self)@
            }),
    {
        proof {
            lemma_pending_fill(self.results@, self.next as int, index as int, result);
        }
        self.results.set(index, Some(result));
        self.in_flight = self.in_flight - 1;
    }

    /// The merged response, once every instance has its result: one entry
    /// per instance, in registry order, keyed by its id.
    pub fn finish(self) -> (r: Response)
        requires
            self.wf(),
            self@.next == self@.targets.len(),
            self@.in_flight == 0,
        ensures
            r.0@.len() == self@.targets.len(),
            forall|i: int|
                0 <= i < r.0@.len() ==> (#[trigger] r.0@[i]).0@ == self@.targets[i].0
                    && self@.results[i] == Some(r.0@[i].1),
    {
        let ghost before = self@;
        proof {
            lemma_pending_none(self.results@, self.next as int);
        }
        let mut results = self.results;
        let n = self.targets.len();
        let mut out: Vec<(String, InstanceResponse)> = Vec::new();
        let mut j: usize = 0;
        while j < n
            invariant
                n == before.targets.len(),
                n == self.targets@.len(),
                results@.len() == n,
                0 <= j <= n,
                out@.len() == j,
                forall|m: int| j <= m < n ==> (#[trigger] results@[m]) == before.results[m],
                forall|m: int| 0 <= m < n ==> (#[trigger] before.results[m]) is Some,
                forall|m: int|
                    0 <= m < j ==> (#[trigger] out@[m]).0@ == before.targets[m].0
                        && before.results[m] == Some(out@[m].1),
                forall|m: int| 0 <= m < n ==> (#[trigger] self.targets@[m]).0@ == before.targets[m].0,
            decreases n - j,
        {
            let mut slot: Option<InstanceResponse> = None;
            results.set_and_swap(j, &mut slot);
            match slot {
                Some(r) => {
                    out.push((self.targets[j].0.clone(), r));
                },
                None => {
                    assert(false);
                },
            }
            j += 1;
        }
        Response(out)
    }

    /// The number of requests in flight never exceeds the configured bound.
    pub proof fn lemma_in_flight_bounded(&self)
        requires
            self.wf(),
        ensures
            self@.in_flight <= self@.limit,
    {
    }
}

/// A finished fan-out over a registry with unique ids answers each instance
/// exactly once: as many entries as instances, no key twice, and the keys
/// are exactly the instances' ids.
pub proof fn lemma_one_entry_per_instance(
    instances: Seq<Instance>,
    path_and_query: Option<Seq<char>>,
    entries: Seq<(String, InstanceResponse)>,
)
    requires
        ids_unique(instances),
        entries.len() == targets_for(instances, path_and_query).len(),
        forall|i: int|
            0 <= i < entries.len() ==> (#[trigger] entries[i]).0@ == targets_for(
                instances,
                path_and_query,
            )[i].0,
    ensures
        keyed_by(entries, instances),
        entries.len() == instances.len(),
        forall|i: int, j: int|
            0 <= i < j < entries.len() ==> (#[trigger] entries[i]).0@ != (#[trigger] entries[j]).0@,
        entries.map_values(|e: (String, InstanceResponse)| e.0@).to_set() == instances.map_values(
            |i: Instance| i.id@,
        ).to_set(),
{
    let keys = entries.map_values(|e: (String, InstanceResponse)| e.0@);
    let ids = instances.map_values(|i: Instance| i.id@);
    assert(keys =~= ids);
    assert forall|i: int, j: int| 0 <= i < j < entries.len() implies (#[trigger] entries[i]).0@
        != (#[trigger] entries[j]).0@ by {
        assert(instances[i].id@ != instances[j].id@);
    }
}

} // verus!
