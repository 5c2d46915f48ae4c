//! Fixed arrays of optional records.

use crate::counting::{count, count_bounds, count_take_next};
use vstd::prelude::*;

verus! {

/// The first empty slot.
pub open spec fn is_first_free<T>(slots: Seq<Option<T>>, i: int) -> bool {
    &&& 0 <= i < slots.len()
    &&& slots[i] is None
    &&& forall|j: int| 0 <= j < i ==> (#[trigger] slots[j]) is Some
}

/// Whether some slot is empty.
pub open spec fn has_free<T>(slots: Seq<Option<T>>) -> bool {
    exists|i: int| 0 <= i < slots.len() && (#[trigger] slots[i]) is None
}

/// Position of the first empty slot.
pub open spec fn first_free<T>(slots: Seq<Option<T>>) -> int {
    choose|i: int| is_first_free(slots, i)
}

/// Tells full slots from empty ones.
pub open spec fn is_full<T>() -> spec_fn(Option<T>) -> bool {
    |slot: Option<T>| slot is Some
}

/// Number of records held.
pub open spec fn occupied<T>(slots: Seq<Option<T>>) -> nat {
    count(slots, is_full())
}

/// There is a first empty slot exactly when there is an empty one, and it is
/// unique.
pub proof fn first_free_exists<T>(slots: Seq<Option<T>>)
    ensures
        has_free(slots) ==> is_first_free(slots, first_free(slots)),
        forall|i: int| #[trigger] is_first_free(slots, i) ==> i == first_free(slots),
        has_free(slots) <==> occupied(slots) < slots.len(),
        occupied(slots) <= slots.len(),
{
    count_bounds(slots, is_full());
    if has_free(slots) {
        let i = choose|i: int| 0 <= i < slots.len() && (#[trigger] slots[i]) is None;
        assert(!is_full()(slots[i]));
        descend(slots, i);
        let k = choose|k: int| is_first_free(slots, k);
        assert(is_first_free(slots, first_free(slots)));
    } else {
        assert forall|i: int| 0 <= i < slots.len() implies is_full()(#[trigger] slots[i]) by {
            assert(!(slots[i] is None));
        }
    }
    assert forall|i: int| #[trigger] is_first_free(slots, i) implies i == first_free(slots) by {
        let k = first_free(slots);
        assert(is_first_free(slots, k));
        if i < k {
            assert(slots[i] is Some);
        } else if k < i {
            assert(slots[k] is Some);
        }
    }
}

proof fn descend<T>(slots: Seq<Option<T>>, i: int)
    requires
        0 <= i < slots.len(),
        slots[i] is None,
    ensures
        exists|k: int| is_first_free(slots, k),
    decreases i,
{
    if forall|j: int| 0 <= j < i ==> (#[trigger] slots[j]) is Some {
        assert(is_first_free(slots, i));
    } else {
        let j = choose|j: int| 0 <= j < i && !((#[trigger] slots[j]) is Some);
        descend(slots, j);
    }
}

/// Finds the first empty slot.
pub fn find_free<T, const N: usize>(slots: &[Option<T>; N]) -> (result: Option<usize>)
    ensures
        match result {
            Some(i) => is_first_free(slots@, i as int) && i == first_free(slots@),
            None => !has_free(slots@),
        },
{
    let mut i: usize = 0;
    while i < N
        invariant
            i <= N,
            slots@.len() == N,
            forall|j: int| 0 <= j < i ==> (#[trigger] slots@[j]) is Some,
        decreases N - i,
    {
        if slots[i].is_none() {
            proof {
                assert(is_first_free(slots@, i as int));
                first_free_exists(slots@);
            }
            return Some(i);
        }
        i = i + 1;
    }
    None
}

/// Counts the records held.
pub fn count_occupied<T, const N: usize>(slots: &[Option<T>; N]) -> (result: usize)
    ensures
        result == occupied(slots@),
        result <= N,
{
    let mut i: usize = 0;
    let mut n: usize = 0;
    proof {
        assert(slots@.take(0).len() == 0);
    }
    while i < N
        invariant
            n <= i <= N,
            slots@.len() == N,
            n == count(slots@.take(i as int), is_full()),
        decreases N - i,
    {
        proof {
            count_take_next(slots@, i as int, is_full());
        }
        if slots[i].is_some() {
            n = n + 1;
        }
        i = i + 1;
    }
    proof {
        assert(slots@.take(N as int) =~= slots@);
    }
    n
}

} // verus!
