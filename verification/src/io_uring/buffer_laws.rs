//! What the table of registered buffers is for, stated of the calls themselves: what
//! was installed is what a lease holds, and nothing leaves while it is leased.

use crate::io_uring::error::IoUringError;
use crate::io_uring::buffer::{
    BufferInstallError, BufferLeaseRelease, BufferLeaseReleaseError, BufferSlot, BufferSlotState,
    BufferTableProgress, RegisteredBufferLease, RegisteredBufferTable, RegisteredBufferToken,
    RetiredBuffer,
};
use std::sync::Arc;
use vstd::prelude::*;

verus! {

/// A buffer that is installed and published is what a lease of its slot holds.
/// The lease is for the asked part, which lies inside the registered range; a
/// part that sticks out on either side is refused.
pub proof fn leases_hold_what_was_installed_of_buffers<F>(
    building: &mut RegisteredBufferTable<F>,
    slot: BufferSlot,
    address: u64,
    length: u64,
    owner: Arc<F>,
    token: Result<RegisteredBufferToken, BufferInstallError<F>>,
    built: &mut RegisteredBufferTable<F>,
    published: Result<BufferTableProgress, IoUringError>,
    table: &mut RegisteredBufferTable<F>,
    start: u64,
    bytes: u32,
    lease: Result<RegisteredBufferLease<F>, IoUringError>,
)
    requires
        old(building).wf(),
        call_ensures(RegisteredBufferTable::<F>::install, (building, slot, address, length, owner), token),
        token is Ok,
        *old(built) == *final(building),
        call_ensures(RegisteredBufferTable::<F>::publish, (built,), published),
        *old(table) == *final(built),
        call_ensures(RegisteredBufferTable::<F>::acquire, (table, slot, start, bytes), lease),
    ensures
        published is Ok,
        lease is Ok <==> address <= start && start + bytes <= address + length,
        lease matches Ok(held) ==> {
            &&& *held.owner() == owner
            &&& held.token() == token->Ok_0
            &&& held.range().address() == start
            &&& held.range().length() == bytes
        },
        lease matches Err(error) ==> error == IoUringError::InvalidBufferRange,
{
}

/// An owner is installed exactly in an empty usable slot of a table that is still
/// being built; it is handed back where it is not, and other slots are untouched.
pub proof fn owners_are_installed_or_handed_back_of_buffers<F>(
    table: &mut RegisteredBufferTable<F>,
    slot: BufferSlot,
    address: u64,
    length: u64,
    owner: Arc<F>,
    result: Result<RegisteredBufferToken, BufferInstallError<F>>,
    other: int,
)
    requires
        old(table).wf(),
        call_ensures(RegisteredBufferTable::<F>::install, (table, slot, address, length, owner), result),
        0 <= other < old(table)@.slots.len(),
    ensures
        result is Ok <==> old(table)@.lifecycle is Building && slot.get() < old(
            table,
        )@.slots.len() && old(table)@.slots[slot.get() as int].owner is None && old(
            table,
        )@.slots[slot.get() as int].generation is Some && 1 <= length && address
            + length < 0x1_0000_0000_0000_0000,
        result matches Ok(token) ==> token.slot() == slot && token.ring() == old(table)@.ring
            && token.table() == old(table)@.id && final(table)@.slots[slot.get() as int].owner
            == Some(owner),
        result matches Err(failure) ==> *failure.owner() == owner && final(table)@.slots == old(
            table,
        )@.slots,
        other != slot.get() ==> final(table)@.slots[other] == old(table)@.slots[other],
        final(table)@.leases == old(table)@.leases,
        final(table)@.lifecycle == old(table)@.lifecycle,
{
}

/// Leases are given by a published table only, and only as many as were agreed.
pub proof fn leases_are_given_by_published_tables_of_buffers<F>(
    table: &mut RegisteredBufferTable<F>,
    slot: BufferSlot,
    start: u64,
    bytes: u32,
    result: Result<RegisteredBufferLease<F>, IoUringError>,
    other: int,
)
    requires
        old(table).wf(),
        call_ensures(RegisteredBufferTable::<F>::acquire, (table, slot, start, bytes), result),
        0 <= other < old(table)@.slots.len(),
    ensures
        old(table)@.lifecycle is Building <==> result == Err::<RegisteredBufferLease<F>, IoUringError>(
            IoUringError::BufferTableNotPublished,
        ),
        old(table)@.lifecycle is Retiring <==> result == Err::<RegisteredBufferLease<F>, IoUringError>(
            IoUringError::Closing,
        ),
        old(table)@.lifecycle is Closed <==> result == Err::<RegisteredBufferLease<F>, IoUringError>(
            IoUringError::Closed,
        ),
        result matches Ok(lease) ==> {
            let at = slot.get() as int;
            &&& lease.token().slot() == slot
            &&& old(table)@.slots[at].owner == Some(*lease.owner())
            &&& old(table)@.slots[at].generation == Some(lease.token().generation())
            &&& old(table)@.leases < old(table)@.lease_capacity
            &&& final(table)@.leases == old(table)@.leases + 1
            &&& final(table)@.slots[at].leases == old(table)@.slots[at].leases + 1
            &&& final(table)@.slots[at].owner == old(table)@.slots[at].owner
            &&& other != at ==> final(table)@.slots[other] == old(table)@.slots[other]
        },
        result is Err ==> final(table)@.slots == old(table)@.slots && final(table)@.leases == old(
            table,
        )@.leases,
        old(table)@.lifecycle is Published && slot.get() < old(table)@.slots.len() && old(
            table,
        )@.slots[slot.get() as int].owner is Some && old(table)@.leases < old(
            table,
        )@.lease_capacity && old(table)@.slots[slot.get() as int].address <= start && start + bytes
            <= old(table)@.slots[slot.get() as int].address + old(
            table,
        )@.slots[slot.get() as int].length ==> result is Ok,
{
    if result is Ok {
        crate::counting::total_at_least(
            old(table)@.slots,
            slot.get() as int,
            |s: BufferSlotState<F>| s.leases as nat,
        );
    }
}

/// A token leases what it names as long as it is current, and no other token
/// does.
pub proof fn tokens_lease_what_they_name_of_buffers<F>(
    table: &mut RegisteredBufferTable<F>,
    token: RegisteredBufferToken,
    start: u64,
    bytes: u32,
    result: Result<RegisteredBufferLease<F>, IoUringError>,
)
    requires
        old(table).wf(),
        call_ensures(RegisteredBufferTable::<F>::acquire_token, (table, token, start, bytes), result),
    ensures
        result matches Ok(lease) ==> {
            let at = token.slot().get() as int;
            &&& lease.token() == token
            &&& old(table)@.lifecycle is Published
            &&& token.ring() == old(table)@.ring && token.table() == old(table)@.id
            &&& at < old(table)@.slots.len()
            &&& old(table)@.slots[at].generation == Some(token.generation())
            &&& old(table)@.slots[at].owner == Some(*lease.owner())
            &&& final(table)@.leases == old(table)@.leases + 1
        },
{
}

/// The token of a slot is current, and leases what is in the slot. A slot without
/// an owner, or of a table that is not published, has none.
pub proof fn slots_are_found_by_their_token_of_buffers<F>(
    table: RegisteredBufferTable<F>,
    slot: BufferSlot,
    result: Result<RegisteredBufferToken, IoUringError>,
    progress: Result<BufferTableProgress, IoUringError>,
    empty: bool,
)
    requires
        table.wf(),
        call_ensures(RegisteredBufferTable::<F>::token, (&table, slot), result),
        call_ensures(RegisteredBufferTable::<F>::progress, (&table,), progress),
        progress is Ok ==> call_ensures(BufferTableProgress::empty, (progress->Ok_0,), empty),
    ensures
        result is Ok <==> table@.lifecycle is Published && slot.get() < table@.slots.len()
            && table@.slots[slot.get() as int].owner is Some,
        result matches Ok(token) ==> token.slot() == slot && token.ring() == table@.ring
            && token.table() == table@.id && table@.slots[slot.get() as int].generation == Some(
            token.generation(),
        ),
        progress is Ok && progress->Ok_0.leases() == table@.leases && progress->Ok_0.lifecycle()
            == table@.lifecycle && progress->Ok_0.capacity() == table@.slots.len()
            && progress->Ok_0.lease_capacity() == table@.lease_capacity,
        slot.get() < table@.slots.len() && table@.slots[slot.get() as int].owner is Some
            ==> progress->Ok_0.installed() > 0,
        empty <==> progress->Ok_0.installed() == 0 && progress->Ok_0.leases() == 0,
{
    let owned = |s: BufferSlotState<F>| s.owner is Some;
    crate::counting::count_bounds(table@.slots, owned);
    if slot.get() < table@.slots.len() && table@.slots[slot.get() as int].owner is Some {
        assert(owned(table@.slots[slot.get() as int]));
    }
}

/// Giving a lease back undoes taking it, on a published table; on a retiring one
/// the last lease of a slot takes its owner out with it.
pub proof fn released_leases_are_undone_of_buffers<F>(
    table: &mut RegisteredBufferTable<F>,
    slot: BufferSlot,
    start: u64,
    bytes: u32,
    taken: Result<RegisteredBufferLease<F>, IoUringError>,
    later: &mut RegisteredBufferTable<F>,
    result: Result<BufferLeaseRelease<F>, BufferLeaseReleaseError<F>>,
)
    requires
        old(table).wf(),
        call_ensures(RegisteredBufferTable::<F>::acquire, (table, slot, start, bytes), taken),
        taken is Ok,
        *old(later) == *final(table),
        call_ensures(RegisteredBufferTable::<F>::release, (later, taken->Ok_0), result),
    ensures
        result is Ok && result->Ok_0 is Active,
        final(later)@.leases == old(table)@.leases,
        final(later)@.slots =~= old(table)@.slots,
        final(later)@.lifecycle == old(table)@.lifecycle,
{
    crate::counting::total_at_least(
        old(table)@.slots,
        slot.get() as int,
        |s: BufferSlotState<F>| s.leases as nat,
    );
    assert(final(later)@.slots[slot.get() as int] == old(table)@.slots[slot.get() as int]);
}

/// A release ends one lease of the slot it was taken from. The owner leaves with
/// the last lease of a retiring table, and stays otherwise.
pub proof fn owners_leave_with_the_last_lease_of_buffers<F>(
    table: &mut RegisteredBufferTable<F>,
    lease: RegisteredBufferLease<F>,
    result: Result<BufferLeaseRelease<F>, BufferLeaseReleaseError<F>>,
    other: int,
)
    requires
        old(table).wf(),
        call_ensures(RegisteredBufferTable::<F>::release, (table, lease), result),
        0 <= other < old(table)@.slots.len(),
    ensures
        ({
            let at = lease.token().slot().get() as int;
            &&& result is Ok ==> {
                &&& at < old(table)@.slots.len()
                &&& old(table)@.slots[at].leases >= 1
                &&& final(table)@.leases == old(table)@.leases - 1
                &&& final(table)@.slots[at].leases == old(table)@.slots[at].leases - 1
                &&& other != at ==> final(table)@.slots[other] == old(table)@.slots[other]
            }
            &&& result matches Ok(BufferLeaseRelease::Retired(retired)) ==> {
                &&& old(table)@.lifecycle is Retiring
                &&& final(table)@.slots[at].leases == 0
                &&& final(table)@.slots[at].owner is None
                &&& old(table)@.slots[at].owner == Some(*retired.owner())
                &&& retired.token() == lease.token()
            }
            &&& result matches Ok(BufferLeaseRelease::Active) ==> final(table)@.slots[at].owner == old(
                table,
            )@.slots[at].owner && (old(table)@.lifecycle is Retiring ==> final(table)@.slots[at].leases > 0)
            &&& result matches Err(failure) ==> failure.returned_lease() == lease && final(table)@.slots == old(table)@.slots
        }),
{
    if lease.token().slot().get() < old(table)@.slots.len() {
        crate::counting::total_at_least(
            old(table)@.slots,
            lease.token().slot().get() as int,
            |s: BufferSlotState<F>| s.leases as nat,
        );
    }
}

/// An owner is retired only from a retiring table and only without leases, and is
/// handed out once: its token is refused from then on.
pub proof fn retired_owners_are_not_leased_of_buffers<F>(
    table: &mut RegisteredBufferTable<F>,
    token: RegisteredBufferToken,
    result: Result<RetiredBuffer<F>, IoUringError>,
    later: &mut RegisteredBufferTable<F>,
    again: Result<RetiredBuffer<F>, IoUringError>,
    other: int,
)
    requires
        old(table).wf(),
        call_ensures(RegisteredBufferTable::<F>::retire, (table, token), result),
        *old(later) == *final(table),
        call_ensures(RegisteredBufferTable::<F>::retire, (later, token), again),
        0 <= other < old(table)@.slots.len(),
    ensures
        result matches Ok(retired) ==> {
            let at = token.slot().get() as int;
            &&& old(table)@.lifecycle is Retiring
            &&& old(table)@.slots[at].leases == 0
            &&& old(table)@.slots[at].owner == Some(*retired.owner())
            &&& old(table)@.slots[at].generation == Some(token.generation())
            &&& final(table)@.slots[at].owner is None
            &&& final(table)@.leases == old(table)@.leases
            &&& other != at ==> final(table)@.slots[other] == old(table)@.slots[other]
            &&& again is Err
        },
        old(table)@.lifecycle is Retiring && token.ring() == old(table)@.ring && token.table()
            == old(table)@.id && token.slot().get() < old(table)@.slots.len() && old(
            table,
        )@.slots[token.slot().get() as int].owner is Some && old(
            table,
        )@.slots[token.slot().get() as int].generation == Some(token.generation()) && old(
            table,
        )@.slots[token.slot().get() as int].leases == 0 ==> result is Ok,
        result is Err ==> final(table)@.slots == old(table)@.slots,
{
}

/// The retirement pass finds every owner without leases, in the order of slots.
pub proof fn the_retirement_pass_skips_only_what_is_held_of_buffers<F>(
    table: &mut RegisteredBufferTable<F>,
    result: Result<Option<RegisteredBufferToken>, IoUringError>,
    other: int,
)
    requires
        old(table).wf(),
        call_ensures(RegisteredBufferTable::<F>::next_retirable, (table,), result),
        old(table)@.cursor <= other < old(table)@.slots.len(),
    ensures
        result is Ok <==> old(table)@.lifecycle is Retiring,
        final(table)@.slots == old(table)@.slots,
        result matches Ok(Some(token)) ==> {
            let at = token.slot().get() as int;
            &&& old(table)@.slots[at].owner is Some
            &&& old(table)@.slots[at].leases == 0
            &&& old(table)@.slots[at].generation == Some(token.generation())
            &&& old(table)@.cursor <= at
            &&& final(table)@.cursor == at + 1
            &&& other < at ==> old(table)@.slots[other].owner is None || old(
                table,
            )@.slots[other].leases > 0
        },
        result matches Ok(None) ==> old(table)@.slots[other].owner is None || old(
            table,
        )@.slots[other].leases > 0,
{
    if result is Ok {
        if result->Ok_0 is None {
            assert(!old(table)@.retirable(other));
        } else if other < result->Ok_0->0.slot().get() {
            assert(!old(table)@.retirable(other));
        }
    }
}

/// Retirement stops lookups without touching an owner or a lease, and is finished
/// exactly when every owner has left.
pub proof fn retirement_ends_when_all_owners_left_of_buffers<F>(
    a: &mut RegisteredBufferTable<F>,
    begun: Result<BufferTableProgress, IoUringError>,
    b: &mut RegisteredBufferTable<F>,
    finished: Result<(), IoUringError>,
)
    requires
        old(a).wf(),
        old(b).wf(),
        call_ensures(RegisteredBufferTable::<F>::begin_retire, (a,), begun),
        call_ensures(RegisteredBufferTable::<F>::finish_retire, (b,), finished),
    ensures
        begun is Ok,
        final(a)@.slots == old(a)@.slots && final(a)@.leases == old(a)@.leases,
        final(a)@.lifecycle is Retiring || final(a)@.lifecycle is Closed,
        old(a)@.lifecycle is Closed <==> final(a)@.lifecycle is Closed,
        finished is Ok ==> final(b)@.lifecycle is Closed && forall|i: int|
            0 <= i < old(b)@.slots.len() ==> (#[trigger] old(b)@.slots[i]).owner is None,
        old(b)@.lifecycle is Retiring && (forall|i: int|
            0 <= i < old(b)@.slots.len() ==> (#[trigger] old(b)@.slots[i]).owner is None)
            ==> finished is Ok,
        finished is Err ==> final(b)@.lifecycle == old(b)@.lifecycle,
        old(b)@.lifecycle is Building || old(b)@.lifecycle is Published ==> finished is Err,
        final(b)@.slots == old(b)@.slots,
{
}

} // verus!
