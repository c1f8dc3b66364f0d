//! What holds of every broadcast, proved once and for all: a full,
//! index-aligned result set; failure contained to its own slot; results
//! independent of the order in which endpoints settled; and the request
//! template replayed unchanged to every endpoint.

use crate::call::RpcCallView;
use crate::dispatch::{collected, lemma_arrivals_cover, planned, valid_arrivals, DispatchUnitView};
use vstd::prelude::*;

verus! {

/// Index `k`'s result is the outcome of some arrival whose index is `k`.
pub open spec fn result_settled_by<T>(
    arrivals: Seq<(usize, T)>,
    results: Seq<T>,
    k: int,
) -> bool {
    exists|m: int|
        0 <= m < arrivals.len() && (#[trigger] arrivals[m]).0 == k && results[k] == arrivals[m].1
}

/// A broadcast over `n` endpoints yields exactly `n` results, and the result
/// at index `k` is precisely the outcome that endpoint `k` settled with — for
/// every registry size, the empty one included.
pub proof fn lemma_full_result_set<T>(n: int, arrivals: Seq<(usize, T)>, results: Seq<T>)
    requires
        valid_arrivals(n, arrivals),
        collected(n, arrivals, results),
    ensures
        results.len() == n,
        forall|k: int| 0 <= k < n ==> #[trigger] result_settled_by(arrivals, results, k),
{
    assert forall|k: int| 0 <= k < n implies #[trigger] result_settled_by(
        arrivals,
        results,
        k,
    ) by {
        lemma_arrivals_cover(n, arrivals, k);
        let m = choose|m: int| 0 <= m < arrivals.len() && (#[trigger] arrivals[m]).0 == k;
        assert(results[(arrivals[m].0) as int] == arrivals[m].1);
    }
}

/// An empty registry: the one settled history is empty, and the one result
/// sequence the contract admits is the empty one — no error, no result.
pub proof fn lemma_empty_registry<T>(arrivals: Seq<(usize, T)>, results: Seq<T>)
    requires
        valid_arrivals(0, arrivals),
        collected(0, arrivals, results),
    ensures
        arrivals == Seq::<(usize, T)>::empty(),
        results == Seq::<T>::empty(),
{
    assert(arrivals =~= Seq::<(usize, T)>::empty());
    assert(results =~= Seq::<T>::empty());
}

/// Failure isolation: if exactly endpoint `i`'s outcome is an error, then the
/// result at index `i` is that error and every other index holds a success —
/// wherever `i` sits in the registry and whenever it settled.
pub proof fn lemma_failure_isolated<R, E>(
    n: int,
    arrivals: Seq<(usize, Result<R, E>)>,
    results: Seq<Result<R, E>>,
    i: int,
)
    requires
        valid_arrivals(n, arrivals),
        collected(n, arrivals, results),
        0 <= i < n,
        forall|m: int|
            0 <= m < arrivals.len() ==> ((#[trigger] arrivals[m]).1 is Err <==> arrivals[m].0
                == i),
    ensures
        results[i] is Err,
        forall|k: int| 0 <= k < n && k != i ==> (#[trigger] results[k]) is Ok,
{
    assert forall|k: int| 0 <= k < n implies ((#[trigger] results[k]) is Err <==> k == i) by {
        lemma_arrivals_cover(n, arrivals, k);
        let m = choose|m: int| 0 <= m < arrivals.len() && (#[trigger] arrivals[m]).0 == k;
        assert(results[(arrivals[m].0) as int] == arrivals[m].1);
    }
}

/// Completion order does not matter: two settled histories made of the same
/// (index, outcome) pairs — shuffled however the endpoints happened to answer
/// — admit exactly the same result sequence.
pub proof fn lemma_order_independent<T>(
    n: int,
    a: Seq<(usize, T)>,
    b: Seq<(usize, T)>,
    ra: Seq<T>,
    rb: Seq<T>,
)
    requires
        valid_arrivals(n, a),
        valid_arrivals(n, b),
        forall|p: (usize, T)| a.contains(p) <==> b.contains(p),
        collected(n, a, ra),
        collected(n, b, rb),
    ensures
        ra == rb,
{
    assert forall|k: int| 0 <= k < n implies ra[k] == rb[k] by {
        lemma_arrivals_cover(n, a, k);
        let m = choose|m: int| 0 <= m < a.len() && (#[trigger] a[m]).0 == k;
        let p = a[m];
        assert(ra[(a[m].0) as int] == a[m].1);
        assert(a.contains(p));
        assert(b.contains(p));
        let m2 = choose|m2: int| 0 <= m2 < b.len() && b[m2] == p;
        assert(rb[(b[m2].0) as int] == b[m2].1);
    }
    assert(ra =~= rb);
}

/// The request template is replayed, not consumed: any two units of one plan
/// carry the very method and parameters of the call, and address distinct
/// result slots, so dispatching the same call to two endpoints yields two
/// independent outcomes of the same invocation.
pub proof fn lemma_template_replay(
    endpoints: Seq<Seq<char>>,
    call: RpcCallView,
    units: Seq<DispatchUnitView>,
    i: int,
    j: int,
)
    requires
        planned(endpoints, call, units),
        0 <= i < units.len(),
        0 <= j < units.len(),
        i != j,
    ensures
        units[i].call == call,
        units[j].call == call,
        units[i].index != units[j].index,
{
}

} // verus!
