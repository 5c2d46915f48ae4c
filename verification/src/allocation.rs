//! What the allocator answers when storage is reserved up front.

use std::collections::TryReserveError;
use vstd::prelude::*;

verus! {

/// Reserving room for `capacity` elements in an empty vector with
/// [`Vec::try_reserve`] may be refused.
pub open spec fn allocation_refused<T>(capacity: usize) -> bool {
    exists|storage: &mut Vec<T>, answer: Result<(), TryReserveError>|
        storage@.len() == 0 && answer is Err && #[trigger] call_ensures(
            Vec::<T>::try_reserve,
            (storage, capacity),
            answer,
        )
}

/// Reserving room for `capacity` elements in an empty vector with
/// [`Vec::try_reserve`] may be granted.
pub open spec fn allocation_granted<T>(capacity: usize) -> bool {
    exists|storage: &mut Vec<T>, answer: Result<(), TryReserveError>|
        storage@.len() == 0 && answer is Ok && #[trigger] call_ensures(
            Vec::<T>::try_reserve,
            (storage, capacity),
            answer,
        )
}

/// Reserves room for `capacity` elements.
pub(crate) fn reserved<T>(capacity: usize) -> (result: Option<Vec<T>>)
    ensures
        match result {
            Some(storage) => storage@ == Seq::<T>::empty() && allocation_granted::<T>(capacity),
            None => allocation_refused::<T>(capacity),
        },
{
    let mut storage: Vec<T> = Vec::new();
    match storage.try_reserve(capacity) {
        Ok(()) => Some(storage),
        Err(_) => None,
    }
}

} // verus!
