//! Places in a list.
//!
//! What is taken from a list in order, each item that is of a kind and no other, is told by the places
//! of these items.

use vstd::prelude::*;

verus! {

/// The places, in order, of those of the first `n` items that are of a kind.
pub open spec fn are_places(places: Seq<int>, n: int, of_kind: spec_fn(int) -> bool) -> bool {
    &&& forall|k: int|
        0 <= k < places.len() ==> 0 <= #[trigger] places[k] < n && of_kind(places[k])
    &&& forall|j: int, k: int|
        0 <= j < k < places.len() ==> #[trigger] places[j] < #[trigger] places[k]
    &&& forall|i: int| #![trigger of_kind(i)] 0 <= i < n && of_kind(i) ==> places.contains(i)
}

/// One more item has its place behind the others, where it is of the kind.
pub proof fn one_more_place(places: Seq<int>, n: int, of_kind: spec_fn(int) -> bool)
    requires
        are_places(places, n, of_kind),
        0 <= n,
    ensures
        of_kind(n) ==> are_places(places.push(n), n + 1, of_kind),
        !of_kind(n) ==> are_places(places, n + 1, of_kind),
{
    let more = places.push(n);
    if of_kind(n) {
        assert forall|i: int| #![trigger of_kind(i)] 0 <= i < n + 1 && of_kind(i) implies
            more.contains(i) by {
            if i < n {
                assert(places.contains(i));
                let k = choose|k: int| 0 <= k < places.len() && places[k] == i;
                assert(more[k] == i);
            } else {
                assert(more[places.len() as int] == n);
            }
        }
    }
}

} // verus!
