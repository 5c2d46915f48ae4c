//! What the table of registered files is for, stated of the calls themselves: what
//! was installed is what a lease holds, and nothing leaves while it is leased.

use crate::io_uring::error::IoUringError;
use crate::io_uring::resource::{
    FileInstallError, FileSlot, FileTableProgress, LeaseRelease, LeaseReleaseError,
    RegisteredFileLease, RegisteredFileTable, RegisteredFileToken, ResourceSlot, RetiredFile,
};
use std::sync::Arc;
use vstd::prelude::*;

verus! {

/// A file that is installed and published is what a lease of its slot holds.
pub proof fn leases_hold_what_was_installed<F>(
    building: &mut RegisteredFileTable<F>,
    slot: FileSlot,
    owner: Arc<F>,
    token: Result<RegisteredFileToken, FileInstallError<F>>,
    built: &mut RegisteredFileTable<F>,
    published: Result<FileTableProgress, IoUringError>,
    table: &mut RegisteredFileTable<F>,
    lease: Result<RegisteredFileLease<F>, IoUringError>,
)
    requires
        old(building).wf(),
        call_ensures(RegisteredFileTable::<F>::install, (building, slot, owner), token),
        token is Ok,
        *old(built) == *final(building),
        call_ensures(RegisteredFileTable::<F>::publish, (built,), published),
        *old(table) == *final(built),
        call_ensures(RegisteredFileTable::<F>::acquire, (table, slot), lease),
    ensures
        published is Ok,
        lease matches Ok(held) && *held.owner() == owner && held.token() == token->Ok_0,
{
}

/// An owner is installed exactly in an empty usable slot of a table that is still
/// being built; it is handed back where it is not, and other slots are untouched.
pub proof fn owners_are_installed_or_handed_back<F>(
    table: &mut RegisteredFileTable<F>,
    slot: FileSlot,
    owner: Arc<F>,
    result: Result<RegisteredFileToken, FileInstallError<F>>,
    other: int,
)
    requires
        old(table).wf(),
        call_ensures(RegisteredFileTable::<F>::install, (table, slot, owner), result),
        0 <= other < old(table)@.slots.len(),
    ensures
        result is Ok <==> old(table)@.lifecycle is Building && slot.get() < old(
            table,
        )@.slots.len() && old(table)@.slots[slot.get() as int].owner is None && old(
            table,
        )@.slots[slot.get() as int].generation is Some,
        result matches Ok(token) ==> token.slot() == slot && token.ring() == old(table)@.ring
            && token.table() == old(table)@.id && final(table)@.slots[slot.get() as int].owner
            == Some(owner),
        result matches Err(failure) ==> *failure.owner() == owner && final(table)@.slots == old(
            table,
        )@.slots,
        other != slot.get() ==> final(table)@.slots[other] == old(table)@.slots[other],
        final(table)@.leases == old(table)@.leases,
        final(table)@.lifecycle == old(table)@.lifecycle,
{
}

/// Leases are given by a published table only, and only as many as were agreed.
pub proof fn leases_are_given_by_published_tables<F>(
    table: &mut RegisteredFileTable<F>,
    slot: FileSlot,
    result: Result<RegisteredFileLease<F>, IoUringError>,
    other: int,
)
    requires
        old(table).wf(),
        call_ensures(RegisteredFileTable::<F>::acquire, (table, slot), result),
        0 <= other < old(table)@.slots.len(),
    ensures
        old(table)@.lifecycle is Building <==> result == Err::<RegisteredFileLease<F>, IoUringError>(
            IoUringError::FileTableNotPublished,
        ),
        old(table)@.lifecycle is Retiring <==> result == Err::<RegisteredFileLease<F>, IoUringError>(
            IoUringError::Closing,
        ),
        old(table)@.lifecycle is Closed <==> result == Err::<RegisteredFileLease<F>, IoUringError>(
            IoUringError::Closed,
        ),
        result matches Ok(lease) ==> {
            let at = slot.get() as int;
            &&& lease.token().slot() == slot
            &&& old(table)@.slots[at].owner == Some(*lease.owner())
            &&& old(table)@.slots[at].generation == Some(lease.token().generation())
            &&& old(table)@.leases < old(table)@.lease_capacity
            &&& final(table)@.leases == old(table)@.leases + 1
            &&& final(table)@.slots[at].leases == old(table)@.slots[at].leases + 1
            &&& final(table)@.slots[at].owner == old(table)@.slots[at].owner
            &&& other != at ==> final(table)@.slots[other] == old(table)@.slots[other]
        },
        result is Err ==> final(table)@.slots == old(table)@.slots && final(table)@.leases == old(
            table,
        )@.leases,
        old(table)@.lifecycle is Published && slot.get() < old(table)@.slots.len() && old(
            table,
        )@.slots[slot.get() as int].owner is Some && old(table)@.leases < old(
            table,
        )@.lease_capacity ==> result is Ok,
{
    if result is Ok {
        crate::counting::total_at_least(
            old(table)@.slots,
            slot.get() as int,
            |s: ResourceSlot<F>| s.leases as nat,
        );
    }
}

/// A token leases what it names as long as it is current, and no other token
/// does.
pub proof fn tokens_lease_what_they_name<F>(
    table: &mut RegisteredFileTable<F>,
    token: RegisteredFileToken,
    result: Result<RegisteredFileLease<F>, IoUringError>,
)
    requires
        old(table).wf(),
        call_ensures(RegisteredFileTable::<F>::acquire_token, (table, token), result),
    ensures
        result matches Ok(lease) ==> {
            let at = token.slot().get() as int;
            &&& lease.token() == token
            &&& old(table)@.lifecycle is Published
            &&& token.ring() == old(table)@.ring && token.table() == old(table)@.id
            &&& at < old(table)@.slots.len()
            &&& old(table)@.slots[at].generation == Some(token.generation())
            &&& old(table)@.slots[at].owner == Some(*lease.owner())
            &&& final(table)@.leases == old(table)@.leases + 1
        },
{
}

/// The token of a slot is current, and leases what is in the slot. A slot without
/// an owner, or of a table that is not published, has none.
pub proof fn slots_are_found_by_their_token<F>(
    table: RegisteredFileTable<F>,
    slot: FileSlot,
    result: Result<RegisteredFileToken, IoUringError>,
    progress: Result<FileTableProgress, IoUringError>,
    empty: bool,
)
    requires
        table.wf(),
        call_ensures(RegisteredFileTable::<F>::token, (&table, slot), result),
        call_ensures(RegisteredFileTable::<F>::progress, (&table,), progress),
        progress is Ok ==> call_ensures(FileTableProgress::empty, (progress->Ok_0,), empty),
    ensures
        result is Ok <==> table@.lifecycle is Published && slot.get() < table@.slots.len()
            && table@.slots[slot.get() as int].owner is Some,
        result matches Ok(token) ==> token.slot() == slot && token.ring() == table@.ring
            && token.table() == table@.id && table@.slots[slot.get() as int].generation == Some(
            token.generation(),
        ),
        progress is Ok && progress->Ok_0.leases() == table@.leases && progress->Ok_0.lifecycle()
            == table@.lifecycle && progress->Ok_0.capacity() == table@.slots.len()
            && progress->Ok_0.lease_capacity() == table@.lease_capacity,
        slot.get() < table@.slots.len() && table@.slots[slot.get() as int].owner is Some
            ==> progress->Ok_0.installed() > 0,
        empty <==> progress->Ok_0.installed() == 0 && progress->Ok_0.leases() == 0,
{
    let owned = |s: ResourceSlot<F>| s.owner is Some;
    crate::counting::count_bounds(table@.slots, owned);
    if slot.get() < table@.slots.len() && table@.slots[slot.get() as int].owner is Some {
        assert(owned(table@.slots[slot.get() as int]));
    }
}

/// Giving a lease back undoes taking it, on a published table; on a retiring one
/// the last lease of a slot takes its owner out with it.
pub proof fn released_leases_are_undone<F>(
    table: &mut RegisteredFileTable<F>,
    slot: FileSlot,
    taken: Result<RegisteredFileLease<F>, IoUringError>,
    later: &mut RegisteredFileTable<F>,
    result: Result<LeaseRelease<F>, LeaseReleaseError<F>>,
)
    requires
        old(table).wf(),
        call_ensures(RegisteredFileTable::<F>::acquire, (table, slot), taken),
        taken is Ok,
        *old(later) == *final(table),
        call_ensures(RegisteredFileTable::<F>::release, (later, taken->Ok_0), result),
    ensures
        result is Ok && result->Ok_0 is Active,
        final(later)@.leases == old(table)@.leases,
        final(later)@.slots =~= old(table)@.slots,
        final(later)@.lifecycle == old(table)@.lifecycle,
{
    crate::counting::total_at_least(
        old(table)@.slots,
        slot.get() as int,
        |s: ResourceSlot<F>| s.leases as nat,
    );
    assert(final(later)@.slots[slot.get() as int] == old(table)@.slots[slot.get() as int]);
}

/// A release ends one lease of the slot it was taken from. The owner leaves with
/// the last lease of a retiring table, and stays otherwise.
pub proof fn owners_leave_with_the_last_lease<F>(
    table: &mut RegisteredFileTable<F>,
    lease: RegisteredFileLease<F>,
    result: Result<LeaseRelease<F>, LeaseReleaseError<F>>,
    other: int,
)
    requires
        old(table).wf(),
        call_ensures(RegisteredFileTable::<F>::release, (table, lease), result),
        0 <= other < old(table)@.slots.len(),
    ensures
        ({
            let at = lease.token().slot().get() as int;
            &&& result is Ok ==> {
                &&& at < old(table)@.slots.len()
                &&& old(table)@.slots[at].leases >= 1
                &&& final(table)@.leases == old(table)@.leases - 1
                &&& final(table)@.slots[at].leases == old(table)@.slots[at].leases - 1
                &&& other != at ==> final(table)@.slots[other] == old(table)@.slots[other]
            }
            &&& result matches Ok(LeaseRelease::Retired(retired)) ==> {
                &&& old(table)@.lifecycle is Retiring
                &&& final(table)@.slots[at].leases == 0
                &&& final(table)@.slots[at].owner is None
                &&& old(table)@.slots[at].owner == Some(*retired.owner())
                &&& retired.token() == lease.token()
            }
            &&& result matches Ok(LeaseRelease::Active) ==> final(table)@.slots[at].owner == old(
                table,
            )@.slots[at].owner && (old(table)@.lifecycle is Retiring ==> final(table)@.slots[at].leases > 0)
            &&& result matches Err(failure) ==> failure.returned_lease() == lease && final(table)@.slots == old(table)@.slots
        }),
{
    if lease.token().slot().get() < old(table)@.slots.len() {
        crate::counting::total_at_least(
            old(table)@.slots,
            lease.token().slot().get() as int,
            |s: ResourceSlot<F>| s.leases as nat,
        );
    }
}

/// An owner is retired only from a retiring table and only without leases, and is
/// handed out once: its token is refused from then on.
pub proof fn retired_owners_are_not_leased<F>(
    table: &mut RegisteredFileTable<F>,
    token: RegisteredFileToken,
    result: Result<RetiredFile<F>, IoUringError>,
    later: &mut RegisteredFileTable<F>,
    again: Result<RetiredFile<F>, IoUringError>,
    other: int,
)
    requires
        old(table).wf(),
        call_ensures(RegisteredFileTable::<F>::retire, (table, token), result),
        *old(later) == *final(table),
        call_ensures(RegisteredFileTable::<F>::retire, (later, token), again),
        0 <= other < old(table)@.slots.len(),
    ensures
        result matches Ok(retired) ==> {
            let at = token.slot().get() as int;
            &&& old(table)@.lifecycle is Retiring
            &&& old(table)@.slots[at].leases == 0
            &&& old(table)@.slots[at].owner == Some(*retired.owner())
            &&& old(table)@.slots[at].generation == Some(token.generation())
            &&& final(table)@.slots[at].owner is None
            &&& final(table)@.leases == old(table)@.leases
            &&& other != at ==> final(table)@.slots[other] == old(table)@.slots[other]
            &&& again is Err
        },
        old(table)@.lifecycle is Retiring && token.ring() == old(table)@.ring && token.table()
            == old(table)@.id && token.slot().get() < old(table)@.slots.len() && old(
            table,
        )@.slots[token.slot().get() as int].owner is Some && old(
            table,
        )@.slots[token.slot().get() as int].generation == Some(token.generation()) && old(
            table,
        )@.slots[token.slot().get() as int].leases == 0 ==> result is Ok,
        result is Err ==> final(table)@.slots == old(table)@.slots,
{
}

/// The retirement pass finds every owner without leases, in the order of slots.
pub proof fn the_retirement_pass_skips_only_what_is_held<F>(
    table: &mut RegisteredFileTable<F>,
    result: Result<Option<RegisteredFileToken>, IoUringError>,
    other: int,
)
    requires
        old(table).wf(),
        call_ensures(RegisteredFileTable::<F>::next_retirable, (table,), result),
        old(table)@.cursor <= other < old(table)@.slots.len(),
    ensures
        result is Ok <==> old(table)@.lifecycle is Retiring,
        final(table)@.slots == old(table)@.slots,
        result matches Ok(Some(token)) ==> {
            let at = token.slot().get() as int;
            &&& old(table)@.slots[at].owner is Some
            &&& old(table)@.slots[at].leases == 0
            &&& old(table)@.slots[at].generation == Some(token.generation())
            &&& old(table)@.cursor <= at
            &&& final(table)@.cursor == at + 1
            &&& other < at ==> old(table)@.slots[other].owner is None || old(
                table,
            )@.slots[other].leases > 0
        },
        result matches Ok(None) ==> old(table)@.slots[other].owner is None || old(
            table,
        )@.slots[other].leases > 0,
{
    if result is Ok {
        if result->Ok_0 is None {
            assert(!old(table)@.retirable(other));
        } else if other < result->Ok_0->0.slot().get() {
            assert(!old(table)@.retirable(other));
        }
    }
}

/// Retirement stops lookups without touching an owner or a lease, and is finished
/// exactly when every owner has left.
pub proof fn retirement_ends_when_all_owners_left<F>(
    a: &mut RegisteredFileTable<F>,
    begun: Result<FileTableProgress, IoUringError>,
    b: &mut RegisteredFileTable<F>,
    finished: Result<(), IoUringError>,
)
    requires
        old(a).wf(),
        old(b).wf(),
        call_ensures(RegisteredFileTable::<F>::begin_retire, (a,), begun),
        call_ensures(RegisteredFileTable::<F>::finish_retire, (b,), finished),
    ensures
        begun is Ok,
        final(a)@.slots == old(a)@.slots && final(a)@.leases == old(a)@.leases,
        final(a)@.lifecycle is Retiring || final(a)@.lifecycle is Closed,
        old(a)@.lifecycle is Closed <==> final(a)@.lifecycle is Closed,
        finished is Ok ==> final(b)@.lifecycle is Closed && forall|i: int|
            0 <= i < old(b)@.slots.len() ==> (#[trigger] old(b)@.slots[i]).owner is None,
        old(b)@.lifecycle is Retiring && (forall|i: int|
            0 <= i < old(b)@.slots.len() ==> (#[trigger] old(b)@.slots[i]).owner is None)
            ==> finished is Ok,
        finished is Err ==> final(b)@.lifecycle == old(b)@.lifecycle,
        old(b)@.lifecycle is Building || old(b)@.lifecycle is Published ==> finished is Err,
        final(b)@.slots == old(b)@.slots,
{
}

} // verus!
