//! The broadcast dispatcher: fan-out of one call to N endpoints, fan-in of
//! the N outcomes in registry order.
//!
//! Fan-out: [`dispatch_plan`] pairs each endpoint of the registry with its
//! position and with the call, yielding one independent dispatch unit per
//! endpoint. The caller's runtime executes the units concurrently; this crate
//! never waits on the network.
//!
//! Fan-in: a [`Collector`] holds one slot per endpoint. A slot is a two-state
//! process — in flight (empty) until its endpoint settles, then settled with
//! that endpoint's outcome, never touched again. The collector as a whole
//! goes from collecting to complete when every slot has settled; only then
//! does [`Collector::finish`] hand out the outcomes, index-aligned with the
//! registry, whatever order they arrived in. One endpoint's failure is just
//! that endpoint's outcome: it cannot delay, cancel or overwrite another
//! slot. [`fan_in`] packages the collection loop for a settled history.

use crate::call::{RpcCall, RpcCallView};
use crate::endpoints::Endpoints;
use vstd::prelude::*;
use vstd::set_lib::{lemma_int_range, lemma_len_subset, set_int_range};

verus! {

/// The mathematical value of a [`DispatchUnit`]: which slot it settles, which
/// address it targets, and the call it replays.
pub ghost struct DispatchUnitView {
    pub index: int,
    pub endpoint: Seq<char>,
    pub call: RpcCallView,
}

/// One independent unit of work of a broadcast: the call, bound to one
/// endpoint of the registry and to the slot its outcome belongs in.
pub struct DispatchUnit {
    index: usize,
    endpoint: String,
    call: RpcCall,
}

impl View for DispatchUnit {
    type V = DispatchUnitView;

    closed spec fn view(&self) -> DispatchUnitView {
        DispatchUnitView {
            index: self.index as int,
            endpoint: self.endpoint@,
            call: self.call@,
        }
    }
}

impl DispatchUnit {
    /// The registry position whose slot this unit's outcome fills.
    pub fn index(&self) -> (i: usize)
        ensures
            i as int == self@.index,
    {
        self.index
    }

    /// The address this unit targets.
    pub fn endpoint(&self) -> (url: &String)
        ensures
            url@ == self@.endpoint,
    {
        &self.endpoint
    }

    /// The call this unit replays, method and parameters untouched.
    pub fn call(&self) -> (c: &RpcCall)
        ensures
            c@ == self@.call,
    {
        &self.call
    }
}

/// What a correct fan-out plan states: one unit per endpoint, in registry
/// order, every unit carrying the same call.
pub open spec fn planned(
    endpoints: Seq<Seq<char>>,
    call: RpcCallView,
    units: Seq<DispatchUnitView>,
) -> bool {
    &&& units.len() == endpoints.len()
    &&& forall|i: int|
        0 <= i < units.len() ==> {
            &&& (#[trigger] units[i]).index == i
            &&& units[i].endpoint == endpoints[i]
            &&& units[i].call == call
        }
}

/// Fan-out: one dispatch unit per registered endpoint, in registry order,
/// each replaying the same call. The call itself is only read, never
/// consumed or re-encoded, so it can be planned again.
pub fn dispatch_plan(endpoints: &Endpoints, call: &RpcCall) -> (units: Vec<DispatchUnit>)
    ensures
        units@.len() == endpoints@.len(),
        forall|i: int|
            0 <= i < units@.len() ==> {
                &&& (#[trigger] units@[i])@.index == i
                &&& units@[i]@.endpoint == endpoints@[i]
                &&& units@[i]@.call == call@
            },
        planned(endpoints@, call@, units@.map_values(|u: DispatchUnit| u@)),
{
    let n = endpoints.len();
    let mut units: Vec<DispatchUnit> = Vec::new();
    let mut i: usize = 0;
    while i < n
        invariant
            n == endpoints@.len(),
            i <= n,
            units@.len() == i as int,
            forall|j: int|
                0 <= j < i as int ==> {
                    &&& (#[trigger] units@[j])@.index == j
                    &&& units@[j]@.endpoint == endpoints@[j]
                    &&& units@[j]@.call == call@
                },
        decreases n - i,
    {
        let unit = DispatchUnit { index: i, endpoint: endpoints.get(i).clone(), call: call.clone() };
        units.push(unit);
        i = i + 1;
    }
    proof {
        let mapped = units@.map_values(|u: DispatchUnit| u@);
        assert forall|i: int| 0 <= i < mapped.len() implies {
            &&& (#[trigger] mapped[i]).index == i
            &&& mapped[i].endpoint == endpoints@[i]
            &&& mapped[i].call == call@
        } by {
            assert(mapped[i] == units@[i]@);
        }
    }
    units
}

/// The fan-in side of a broadcast: one result slot per endpoint, filled
/// independently as endpoints settle. Its view is the sequence of slots,
/// `None` while the endpoint is still in flight.
pub struct Collector<T> {
    slots: Vec<Option<T>>,
}

impl<T> View for Collector<T> {
    type V = Seq<Option<T>>;

    closed spec fn view(&self) -> Seq<Option<T>> {
        self.slots@
    }
}

impl<T> Collector<T> {
    /// The collector is complete when every endpoint has settled.
    pub open spec fn complete(&self) -> bool {
        forall|k: int| 0 <= k < self@.len() ==> (#[trigger] self@[k]) is Some
    }

    /// A collector for a broadcast over `n` endpoints, all still in flight.
    pub fn new(n: usize) -> (c: Self)
        ensures
            c@.len() == n,
            forall|k: int| 0 <= k < n ==> (#[trigger] c@[k]) is None,
    {
        let mut slots: Vec<Option<T>> = Vec::new();
        let mut i: usize = 0;
        while i < n
            invariant
                i <= n,
                slots@.len() == i as int,
                forall|k: int| 0 <= k < i as int ==> (#[trigger] slots@[k]) is None,
            decreases n - i,
        {
            slots.push(None);
            i = i + 1;
        }
        Collector { slots }
    }

    /// How many endpoints the broadcast addresses.
    pub fn len(&self) -> (n: usize)
        ensures
            n == self@.len(),
    {
        self.slots.len()
    }

    /// Whether endpoint `i` has settled.
    pub fn is_settled(&self, i: usize) -> (r: bool)
        requires
            i < self@.len(),
        ensures
            r == (self@[i as int] is Some),
    {
        self.slots[i].is_some()
    }

    /// Record endpoint `i`'s outcome. A slot settles exactly once, and no
    /// other slot changes: whatever `outcome` is — success or failure — it is
    /// contained in slot `i`.
    pub fn settle(&mut self, i: usize, outcome: T)
        requires
            i < old(self)@.len(),
            old(self)@[i as int] is None,
        ensures
            final(self)@ == old(self)@.update(i as int, Some(outcome)),
    {
        self.slots.set(i, Some(outcome));
    }

    /// Whether every endpoint has settled.
    pub fn is_complete(&self) -> (r: bool)
        ensures
            r == self.complete(),
    {
        let n = self.slots.len();
        let mut i: usize = 0;
        while i < n
            invariant
                n == self@.len(),
                i <= n,
                forall|k: int| 0 <= k < i as int ==> (#[trigger] self@[k]) is Some,
            decreases n - i,
        {
            if self.slots[i].is_none() {
                return false;
            }
            i = i + 1;
        }
        true
    }

    /// Fan-in: once every endpoint has settled, the outcomes in registry
    /// order — the result at index `k` is exactly what was settled for
    /// endpoint `k`.
    pub fn finish(self) -> (results: Vec<T>)
        requires
            self.complete(),
        ensures
            results@.len() == self@.len(),
            forall|k: int| 0 <= k < self@.len() ==> self@[k] == Some(#[trigger] results@[k]),
    {
        let ghost all = self@;
        let mut slots = self.slots;
        let mut results: Vec<T> = Vec::new();
        while slots.len() > 0
            invariant
                all.len() == results@.len() + slots@.len(),
                slots@ == all.skip(results@.len() as int),
                forall|k: int| 0 <= k < all.len() ==> (#[trigger] all[k]) is Some,
                forall|k: int| 0 <= k < results@.len() ==> all[k] == Some(#[trigger] results@[k]),
            decreases slots@.len(),
        {
            let ghost done = results@.len() as int;
            let first = slots.remove(0);
            if let Some(v) = first {
                results.push(v);
            } else {
                proof {
                    assert(first == all[done]);
                    assert(false);
                }
            }
            proof {
                assert(slots@ =~= all.skip(results@.len() as int));
            }
        }
        results
    }
}

/// How one settled broadcast history reads: `arrivals` lists, in the order
/// the endpoints happened to settle, each endpoint's slot index paired with
/// its outcome — every index below `n`, each exactly once.
pub open spec fn valid_arrivals<T>(n: int, arrivals: Seq<(usize, T)>) -> bool {
    &&& arrivals.len() == n
    &&& forall|m: int| 0 <= m < arrivals.len() ==> (#[trigger] arrivals[m]).0 < n
    &&& forall|m1: int, m2: int|
        0 <= m1 < m2 < arrivals.len() ==> (#[trigger] arrivals[m1]).0 != (#[trigger] arrivals[m2]).0
}

/// What fan-in returns: exactly `n` results, and the result at an endpoint's
/// index is that endpoint's own outcome — nothing about the order in which
/// the arrivals came.
pub open spec fn collected<T>(n: int, arrivals: Seq<(usize, T)>, results: Seq<T>) -> bool {
    &&& results.len() == n
    &&& forall|m: int|
        0 <= m < arrivals.len() ==> results[(#[trigger] arrivals[m]).0 as int] == arrivals[m].1
}

/// In a settled history over `n` endpoints, every slot index below `n` is
/// some arrival's index: `n` distinct indices below `n` leave no slot out.
pub proof fn lemma_arrivals_cover<T>(n: int, arrivals: Seq<(usize, T)>, k: int)
    requires
        valid_arrivals(n, arrivals),
        0 <= k < n,
    ensures
        exists|m: int| 0 <= m < arrivals.len() && (#[trigger] arrivals[m]).0 == k,
{
    let idxs = arrivals.map_values(|p: (usize, T)| p.0 as int);
    assert(idxs.len() == n);
    assert(idxs.no_duplicates()) by {
        assert forall|m1: int, m2: int|
            0 <= m1 < idxs.len() && 0 <= m2 < idxs.len() && m1 != m2 implies idxs[m1]
            != idxs[m2] by {
            if m1 < m2 {
                assert(arrivals[m1].0 != arrivals[m2].0);
            } else {
                assert(arrivals[m2].0 != arrivals[m1].0);
            }
        }
    }
    if !(exists|m: int| 0 <= m < arrivals.len() && (#[trigger] arrivals[m]).0 == k) {
        let s = idxs.to_set();
        idxs.unique_seq_to_set();
        let r = set_int_range(0, n);
        lemma_int_range(0, n);
        assert(s.subset_of(r.remove(k))) by {
            assert forall|x: int| s.contains(x) implies r.remove(k).contains(x) by {
                let m = choose|m: int| 0 <= m < idxs.len() && idxs[m] == x;
                assert(arrivals[m].0 < n);
                assert(arrivals[m].0 != k);
            }
        }
        assert(r.contains(k));
        assert(r.remove(k).len() == n - 1);
        lemma_len_subset(s, r.remove(k));
        assert(false);
    }
}

/// Fan-in over a settled history: feed every arrival into a collector and
/// hand the outcomes back in registry order. Which result lands at which
/// index depends only on the pairing, never on the arrival order.
pub fn fan_in<T>(n: usize, arrivals: Vec<(usize, T)>) -> (results: Vec<T>)
    requires
        valid_arrivals(n as int, arrivals@),
    ensures
        collected(n as int, arrivals@, results@),
{
    let ghost all = arrivals@;
    let mut arrivals = arrivals;
    let mut collector: Collector<T> = Collector::new(n);
    proof {
        assert(arrivals@ =~= all.take(arrivals@.len() as int));
    }
    while arrivals.len() > 0
        invariant
            valid_arrivals(n as int, all),
            arrivals@.len() <= n,
            arrivals@ == all.take(arrivals@.len() as int),
            collector@.len() == n as int,
            forall|m: int|
                arrivals@.len() <= m < n ==> collector@[(#[trigger] all[m]).0 as int] == Some(
                    all[m].1,
                ),
            forall|k: int|
                0 <= k < n && (#[trigger] collector@[k]) is Some ==> exists|m: int|
                    arrivals@.len() <= m < n && (#[trigger] all[m]).0 == k,
        decreases arrivals@.len(),
    {
        let ghost len_before = arrivals@.len() as int;
        let popped = arrivals.pop();
        proof {
            assert(popped == Some(all[len_before - 1]));
            assert(arrivals@ =~= all.take(len_before - 1));
        }
        let (i, v) = popped.unwrap();
        proof {
            assert(i == all[len_before - 1].0);
            assert(v == all[len_before - 1].1);
            assert(collector@[i as int] is None) by {
                if collector@[i as int] is Some {
                    let m = choose|m: int|
                        len_before <= m < n && (#[trigger] all[m]).0 == i as int;
                    assert(all[len_before - 1].0 != all[m].0);
                }
            }
        }
        collector.settle(i, v);
        proof {
            assert forall|m: int|
                arrivals@.len() <= m < n implies collector@[(#[trigger] all[m]).0 as int] == Some(
                all[m].1,
            ) by {
                if m > len_before - 1 {
                    assert(all[len_before - 1].0 != all[m].0);
                }
            }
        }
    }
    proof {
        assert forall|k: int| 0 <= k < collector@.len() implies (#[trigger] collector@[k])
            is Some by {
            lemma_arrivals_cover(n as int, all, k);
        }
    }
    let results = collector.finish();
    proof {
        assert forall|m: int|
            0 <= m < all.len() implies results@[(#[trigger] all[m]).0 as int] == all[m].1 by {
            assert(collector@[all[m].0 as int] == Some(all[m].1));
        }
    }
    results
}

} // verus!
