//! Checks made in order, of which the first failure decides.

use vstd::prelude::*;

verus! {

/// The first failure among the checks numbered below `n`.
pub open spec fn first_error<E>(check: spec_fn(int) -> Option<E>, n: int) -> Option<E>
    decreases n,
{
    if n <= 0 {
        None
    } else {
        match first_error(check, n - 1) {
            Some(error) => Some(error),
            None => check(n - 1),
        }
    }
}

/// Nothing fails exactly when every check passes.
pub proof fn first_error_none<E>(check: spec_fn(int) -> Option<E>, n: int)
    ensures
        first_error(check, n) is None <==> (forall|i: int|
            0 <= i < n ==> (#[trigger] check(i)) is None),
    decreases n,
{
    if n > 0 {
        first_error_none(check, n - 1);
        if first_error(check, n) is None {
            assert forall|i: int| 0 <= i < n implies (#[trigger] check(i)) is None by {
                if i == n - 1 {
                    assert(check(n - 1) is None);
                }
            }
        }
        if forall|i: int| 0 <= i < n ==> (#[trigger] check(i)) is None {
            assert(check(n - 1) is None);
        }
    }
}

/// A check that fails after all earlier ones passed decides.
pub proof fn first_error_stops<E>(check: spec_fn(int) -> Option<E>, i: int, n: int)
    requires
        0 <= i < n,
        first_error(check, i) is None,
        check(i) is Some,
    ensures
        first_error(check, n) == check(i),
    decreases n,
{
    if n > i + 1 {
        first_error_stops(check, i, n - 1);
    }
}

} // verus!
