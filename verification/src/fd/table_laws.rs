//! What the descriptor table is for, stated of the calls themselves: what a lookup
//! gives back of a publication, what duplicates and forks share, and what closing
//! removes.
//!
//! A lookup of a prepared slot answers by a flag that its publication may set at
//! any moment. A table without prepared slots is called settled.

use crate::fd::table::{
    observed, selected_entries, taken, vacated, CancelPreparedError, CloseBatch,
    CommittedCloseOnExec, DescriptorEntry, DescriptorToken, FdTable, FdTableError,
    PreparePublicationError, PreparedCloseOnExec, PreparedPublication, PublishError,
    ReservationToken, Selection, Slot,
};
use crate::fd::types::{DescriptorFlags, FdNumber, FdTableId};
use vstd::prelude::*;

verus! {

/// No slot of the table is prepared.
pub open spec fn settled<D, const N: usize>(table: FdTable<D, N>) -> bool {
    forall|i: int| 0 <= i < table@.slots.len() ==> !((#[trigger] table@.slots[i]) is Prepared)
}

/// Looking up `fd` answers `answer`.
pub open spec fn looks_up<D, const N: usize>(
    table: FdTable<D, N>,
    fd: FdNumber,
    answer: Result<&DescriptorEntry<D>, FdTableError>,
) -> bool {
    call_ensures(FdTable::<D, N>::get, (&table, fd), answer)
}

/// A lookup finds the entry of an occupied slot and nothing in an empty or
/// reserved one.
pub proof fn lookups_find_what_is_open<D, const N: usize>(
    table: FdTable<D, N>,
    fd: FdNumber,
    answer: Result<&DescriptorEntry<D>, FdTableError>,
)
    requires
        table.wf(),
        looks_up(table, fd, answer),
    ensures
        fd.get() >= N ==> answer is Err,
        answer matches Err(error) ==> error == FdTableError::BadDescriptor,
        fd.get() < N ==> match table@.slots[fd.get() as int] {
            Slot::Occupied { entry, .. } => answer is Ok && *answer->Ok_0 == entry,
            Slot::Prepared { entry, .. } => answer is Ok ==> *answer->Ok_0 == entry,
            _ => answer is Err,
        },
{
}

/// A reservation takes the lowest free number of its range, hides it from lookups
/// and touches no other number. It fails only where the range has no free number,
/// or where generations have run out.
pub proof fn reservations_take_the_lowest_number<D, const N: usize>(
    table: &mut FdTable<D, N>,
    minimum: usize,
    limit: usize,
    flags: DescriptorFlags,
    result: Result<ReservationToken, FdTableError>,
    other: int,
    fd: FdNumber,
    answer: Result<&DescriptorEntry<D>, FdTableError>,
)
    requires
        old(table).wf(),
        call_ensures(FdTable::<D, N>::reserve, (table, minimum, limit, flags), result),
        0 <= other < N,
        looks_up(*final(table), fd, answer),
    ensures
        result matches Ok(reservation) ==> {
            let number = reservation.fd().get() as int;
            &&& minimum <= number < limit && number < N
            &&& old(table)@.slots[number] is Vacant
            &&& minimum <= other < number ==> !(old(table)@.slots[other] is Vacant)
            &&& other != number ==> final(table)@.slots[other] == old(table)@.slots[other]
            &&& fd == reservation.fd() ==> answer is Err
        },
        result is Err ==> final(table)@ == old(table)@,
        result is Err && minimum <= other < limit && old(table)@.slots[other] is Vacant
            ==> result->Err_0 == FdTableError::GenerationExhausted && old(table)@.next_generation
            == 0xffff_ffff_ffff_ffffu64,
        result == Err::<ReservationToken, FdTableError>(FdTableError::TableFull) || result
            == Err::<ReservationToken, FdTableError>(FdTableError::GenerationExhausted) || result
            is Ok,
{
}

/// A descriptor that is reserved with flags and published with a description is
/// found under its number with that description and those flags.
pub proof fn published_descriptors_are_found<D, const N: usize>(
    table: &mut FdTable<D, N>,
    minimum: usize,
    limit: usize,
    flags: DescriptorFlags,
    reserved: Result<ReservationToken, FdTableError>,
    later: &mut FdTable<D, N>,
    description: D,
    published: Result<DescriptorToken, PublishError<D>>,
    answer: Result<&DescriptorEntry<D>, FdTableError>,
    named: Result<&DescriptorEntry<D>, FdTableError>,
)
    requires
        old(table).wf(),
        call_ensures(FdTable::<D, N>::reserve, (table, minimum, limit, flags), reserved),
        reserved is Ok,
        *old(later) == *final(table),
        call_ensures(FdTable::<D, N>::publish, (later, reserved->Ok_0, description), published),
        looks_up(*final(later), reserved->Ok_0.fd(), answer),
        published is Ok ==> call_ensures(
            FdTable::<D, N>::get_token,
            (final(later), published->Ok_0),
            named,
        ),
    ensures
        published is Ok,
        published->Ok_0.fd() == reserved->Ok_0.fd(),
        answer is Ok && *answer->Ok_0.description() == description && answer->Ok_0.flags() == flags,
        named is Ok && *named->Ok_0 == *answer->Ok_0,
{
}

/// A publication changes its own number only. What cannot be published is handed
/// back.
pub proof fn publications_touch_their_number_only<D, const N: usize>(
    table: &mut FdTable<D, N>,
    reservation: ReservationToken,
    description: D,
    result: Result<DescriptorToken, PublishError<D>>,
    other: int,
)
    requires
        old(table).wf(),
        call_ensures(FdTable::<D, N>::publish, (table, reservation, description), result),
        0 <= other < N,
    ensures
        result matches Ok(token) ==> {
            &&& token.fd() == reservation.fd() && token.table() == old(table)@.id
            &&& old(table)@.slots[token.fd().get() as int] matches Slot::Reserved {
                generation,
                flags,
            } && generation == token.generation() && (final(
                table)@.slots[token.fd().get() as int] matches Slot::Occupied {
                generation: kept,
                entry,
            } && kept == generation && *entry.description() == description && entry.flags()
                == flags)
            &&& other != token.fd().get() ==> final(table)@.slots[other] == old(table)@.slots[other]
        },
        result matches Err(failure) ==> failure.description == description && failure.error
            == FdTableError::StaleToken && final(table)@ == old(table)@,
{
}

/// Cancelling a reservation frees its number and nothing else; a reservation that
/// was used or cancelled is stale.
pub proof fn cancelled_reservations_free_their_number<D, const N: usize>(
    table: &mut FdTable<D, N>,
    reservation: ReservationToken,
    result: Result<(), FdTableError>,
    other: int,
)
    requires
        old(table).wf(),
        call_ensures(FdTable::<D, N>::cancel_reservation, (table, reservation), result),
        0 <= other < N,
    ensures
        result is Ok ==> old(table)@.slots[reservation.fd().get() as int] is Reserved && final(
            table)@.slots[reservation.fd().get() as int] is Vacant,
        result is Ok && other != reservation.fd().get() ==> final(table)@.slots[other] == old(
            table,
        )@.slots[other],
        result is Err ==> final(table)@ == old(table)@ && result->Err_0
            == FdTableError::StaleToken,
        reservation.table() == old(table)@.id && reservation.fd().get() < N && (old(
            table,
        )@.slots[reservation.fd().get() as int] matches Slot::Reserved { generation, .. }
            && generation == reservation.generation()) ==> result is Ok,
{
}

/// A prepared publication holds the description with the reserved flags, hidden
/// until it is committed; cancelling it gives exactly these back and frees the
/// number.
pub proof fn cancelled_publications_give_everything_back<D, const N: usize>(
    table: &mut FdTable<D, N>,
    reservation: ReservationToken,
    description: D,
    prepared: Result<PreparedPublication, PreparePublicationError<D>>,
    later: &mut FdTable<D, N>,
    cancelled: Result<DescriptorEntry<D>, CancelPreparedError>,
    other: int,
)
    requires
        old(table).wf(),
        call_ensures(
            FdTable::<D, N>::prepare_publication,
            (table, reservation, description),
            prepared,
        ),
        *old(later) == *final(table),
        prepared is Ok ==> call_ensures(
            FdTable::<D, N>::cancel_prepared,
            (later, prepared->Ok_0),
            cancelled,
        ),
        0 <= other < N,
    ensures
        prepared matches Ok(publication) ==> {
            let number = reservation.fd().get() as int;
            &&& publication.fd() == reservation.fd()
            &&& publication.state().starts_hidden()
            &&& old(table)@.slots[number] matches Slot::Reserved { flags, .. }
            &&& cancelled matches Ok(entry)
            &&& *entry.description() == description
            &&& entry.flags() == flags
            &&& final(table)@.slots[number].entry() == Some(entry)
            &&& final(later)@.slots[number] is Vacant
            &&& other != number ==> final(later)@.slots[other] == old(table)@.slots[other]
        },
        prepared matches Err(failure) ==> failure.description == description
            && failure.reservation == reservation && final(table)@ == old(table)@,
{
}

/// Committing a publication shows exactly the slot that was prepared for it.
pub proof fn commits_show_the_prepared_slot<D, const N: usize>(
    table: &mut FdTable<D, N>,
    reservation: ReservationToken,
    description: D,
    prepared: Result<PreparedPublication, PreparePublicationError<D>>,
    token: DescriptorToken,
)
    requires
        old(table).wf(),
        call_ensures(
            FdTable::<D, N>::prepare_publication,
            (table, reservation, description),
            prepared,
        ),
        prepared is Ok,
        call_ensures(PreparedPublication::commit, (prepared->Ok_0,), token),
    ensures
        token.fd() == reservation.fd(),
        token.table() == old(table)@.id,
        final(table)@.slots[token.fd().get() as int] matches Slot::Prepared {
            generation,
            entry,
            state,
        } && generation == token.generation() && *entry.description() == description
            && state.shown(),
{
}

/// Closing a number gives back what a lookup found there, makes the number free
/// and unknown, and leaves every other number as it was.
pub proof fn closed_numbers_are_free<D, const N: usize>(
    table: &mut FdTable<D, N>,
    fd: FdNumber,
    before: Result<&DescriptorEntry<D>, FdTableError>,
    result: Result<DescriptorEntry<D>, FdTableError>,
    after: Result<&DescriptorEntry<D>, FdTableError>,
    other: int,
)
    requires
        old(table).wf(),
        looks_up(*old(table), fd, before),
        call_ensures(FdTable::<D, N>::close, (table, fd), result),
        looks_up(*final(table), fd, after),
        0 <= other < N,
    ensures
        settled(*old(table)) ==> (before is Ok <==> result is Ok),
        result matches Ok(entry) ==> {
            &&& before is Ok ==> *before->Ok_0 == entry
            &&& after is Err
            &&& final(table)@.slots[fd.get() as int] is Vacant
            &&& other != fd.get() ==> final(table)@.slots[other] == old(table)@.slots[other]
        },
        result is Err ==> final(table)@ == old(table)@ && result->Err_0
            == FdTableError::BadDescriptor,
{
}

/// A token reaches the descriptor it was given for as long as that is open, and
/// never another one under the same number.
pub proof fn tokens_reach_their_own_descriptor<D, const N: usize>(
    table: FdTable<D, N>,
    fd: FdNumber,
    named: Result<DescriptorToken, FdTableError>,
    entry: Result<&DescriptorEntry<D>, FdTableError>,
    token: DescriptorToken,
    found: Result<&DescriptorEntry<D>, FdTableError>,
    closing: &mut FdTable<D, N>,
    closed: Result<DescriptorEntry<D>, FdTableError>,
)
    requires
        table.wf(),
        settled(table),
        call_ensures(FdTable::<D, N>::token, (&table, fd), named),
        looks_up(table, fd, entry),
        call_ensures(FdTable::<D, N>::get_token, (&table, token), found),
        *old(closing) == table,
        call_ensures(FdTable::<D, N>::close_token, (closing, token), closed),
    ensures
        named is Ok <==> entry is Ok,
        named matches Ok(current) ==> current.fd() == fd && current.table() == table@.id
            && table@.slots[fd.get() as int].generation() == Some(current.generation()),
        named == Ok::<DescriptorToken, FdTableError>(token) ==> found is Ok && *found->Ok_0
            == *entry->Ok_0,
        found is Ok ==> token.table() == table@.id && token.fd().get() < N
            && table@.slots[token.fd().get() as int].generation() == Some(token.generation()),
        found is Ok <==> closed is Ok,
        closed matches Ok(entry) ==> entry == *found->Ok_0 && final(
            closing)@.slots[token.fd().get() as int] is Vacant,
        closed is Err ==> final(closing)@ == table@,
{
    if fd.get() < N {
        assert(!(table@.slots[fd.get() as int] is Prepared));
    }
    if token.fd().get() < N {
        assert(!(table@.slots[token.fd().get() as int] is Prepared));
    }
}

/// Setting or clearing close-on-exec changes that one flag of that one number.
pub proof fn close_on_exec_is_set_alone<D, const N: usize>(
    table: &mut FdTable<D, N>,
    fd: FdNumber,
    enabled: bool,
    result: Result<(), FdTableError>,
    other: int,
)
    requires
        old(table).wf(),
        settled(*old(table)),
        call_ensures(FdTable::<D, N>::set_close_on_exec, (table, fd, enabled), result),
        0 <= other < N,
    ensures
        result is Ok <==> fd.get() < N && old(table)@.slots[fd.get() as int] is Occupied,
        result is Ok ==> {
            let at = fd.get() as int;
            &&& old(table)@.slots[at] matches Slot::Occupied { generation, entry }
            &&& final(table)@.slots[at] matches Slot::Occupied {
                generation: kept,
                entry: changed,
            }
            &&& kept == generation
            &&& *changed.description() == *entry.description()
            &&& enabled ==> changed.flags().bits() == entry.flags().bits() | 1u8
            &&& !enabled ==> changed.flags().bits() == entry.flags().bits() & !1u8
            &&& other != at ==> final(table)@.slots[other] == old(table)@.slots[other]
        },
        result is Err ==> final(table)@ == old(table)@,
{
    if fd.get() < N {
        assert(!(old(table)@.slots[fd.get() as int] is Prepared));
    }
}

/// Marking a range sets close-on-exec on the open numbers inside it, and changes
/// nothing else there or outside.
pub proof fn marking_a_range_sets_the_flag_inside<D, const N: usize>(
    table: &mut FdTable<D, N>,
    first: FdNumber,
    last: FdNumber,
    result: (),
    other: int,
)
    requires
        old(table).wf(),
        settled(*old(table)),
        call_ensures(FdTable::<D, N>::mark_close_on_exec_range, (table, first, last), result),
        0 <= other < N,
    ensures
        match old(table)@.slots[other] {
            Slot::Occupied { generation, entry } => {
                &&& final(table)@.slots[other] matches Slot::Occupied {
                    generation: kept,
                    entry: changed,
                }
                &&& kept == generation
                &&& *changed.description() == *entry.description()
                &&& changed.flags().bits() == if first.get() <= other <= last.get() {
                    entry.flags().bits() | 1u8
                } else {
                    entry.flags().bits()
                }
            },
            slot => final(table)@.slots[other] == slot,
        },
{
    assert(!(old(table)@.slots[other] is Prepared));
}

/// A duplicate has a clone of its source's description and the given flags, under
/// the lowest free number of the range. The source and all others stay as they
/// are.
pub proof fn duplicates_share_the_description<D: Clone, const N: usize>(
    table: &mut FdTable<D, N>,
    source: FdNumber,
    minimum: usize,
    limit: usize,
    flags: DescriptorFlags,
    original: Result<&DescriptorEntry<D>, FdTableError>,
    result: Result<DescriptorToken, FdTableError>,
    copy: Result<&DescriptorEntry<D>, FdTableError>,
    other: int,
)
    requires
        old(table).wf(),
        looks_up(*old(table), source, original),
        call_ensures(
            FdTable::<D, N>::duplicate,
            (table, source, minimum, limit, flags),
            result,
        ),
        result is Ok ==> looks_up(*final(table), result->Ok_0.fd(), copy),
        0 <= other < N,
    ensures
        result matches Ok(token) ==> {
            let number = token.fd().get() as int;
            &&& minimum <= number < limit
            &&& old(table)@.slots[number] is Vacant
            &&& minimum <= other < number ==> !(old(table)@.slots[other] is Vacant)
            &&& copy is Ok && copy->Ok_0.flags() == flags
            &&& original is Ok ==> cloned(
                *original->Ok_0.description(),
                *copy->Ok_0.description(),
            )
            &&& other != number ==> final(table)@.slots[other] == old(table)@.slots[other]
        },
        result is Err ==> final(table)@ == old(table)@,
        settled(*old(table)) && original is Err ==> result == Err::<DescriptorToken, FdTableError>(
            FdTableError::BadDescriptor,
        ),
        settled(*old(table)) && original is Ok && minimum <= other < limit && old(
            table,
        )@.slots[other] is Vacant && old(table)@.next_generation < 0xffff_ffff_ffff_ffffu64
            ==> result is Ok,
{
    if source.get() < N {
        assert(settled(*old(table)) ==> !(old(table)@.slots[source.get() as int] is Prepared));
    }
}

/// Duplicating onto a number puts a clone of the source's description there with
/// the given flags and hands back what was there. Onto itself nothing changes. A
/// number that is reserved is not taken.
pub proof fn replacing_duplicates_hand_back_what_was_there<D: Clone, const N: usize>(
    table: &mut FdTable<D, N>,
    source: FdNumber,
    target: FdNumber,
    flags: DescriptorFlags,
    original: Result<&DescriptorEntry<D>, FdTableError>,
    displaced: Result<&DescriptorEntry<D>, FdTableError>,
    result: Result<(DescriptorToken, Option<DescriptorEntry<D>>), FdTableError>,
    copy: Result<&DescriptorEntry<D>, FdTableError>,
    other: int,
)
    requires
        old(table).wf(),
        settled(*old(table)),
        looks_up(*old(table), source, original),
        looks_up(*old(table), target, displaced),
        call_ensures(FdTable::<D, N>::duplicate_replace, (table, source, target, flags), result),
        looks_up(*final(table), target, copy),
        0 <= other < N,
    ensures
        source == target ==> final(table)@ == old(table)@ && (result is Ok <==> original is Ok)
            && (result is Ok ==> result->Ok_0.1 is None),
        source != target ==> {
            &&& result matches Ok((token, removed)) ==> {
                &&& token.fd() == target
                &&& original is Ok
                &&& copy is Ok && copy->Ok_0.flags() == flags
                &&& cloned(*original->Ok_0.description(), *copy->Ok_0.description())
                &&& match removed {
                    Some(entry) => displaced is Ok && *displaced->Ok_0 == entry,
                    None => displaced is Err,
                }
                &&& other != target.get() ==> final(table)@.slots[other] == old(
                    table,
                )@.slots[other]
            }
            &&& target.get() < N && old(table)@.slots[target.get() as int] is Reserved ==> result
                == Err::<(DescriptorToken, Option<DescriptorEntry<D>>), FdTableError>(
                FdTableError::Busy,
            )
            &&& target.get() < N && !(old(table)@.slots[target.get() as int] is Reserved)
                && original is Ok && old(table)@.next_generation < 0xffff_ffff_ffff_ffffu64
                ==> result is Ok
        },
        result is Err ==> final(table)@ == old(table)@,
{
    if source.get() < N {
        assert(!(old(table)@.slots[source.get() as int] is Prepared));
    }
    if target.get() < N {
        assert(!(old(table)@.slots[target.get() as int] is Prepared));
    }
}

/// Looking a number up in a forked table gives what looking it up in the parent
/// gave: the same flags and a clone of the same description. A number that is not
/// open in the parent is not open in the child.
pub proof fn forks_inherit_flags_and_descriptions<D: Clone, const N: usize>(
    parent: FdTable<D, N>,
    id: FdTableId,
    forked: Result<FdTable<D, N>, FdTableError>,
    fd: FdNumber,
    original: Result<&DescriptorEntry<D>, FdTableError>,
    inherited: Result<&DescriptorEntry<D>, FdTableError>,
)
    requires
        parent.wf(),
        call_ensures(FdTable::<D, N>::fork_copy, (&parent, id), forked),
        forked is Ok,
        looks_up(parent, fd, original),
        looks_up(forked->Ok_0, fd, inherited),
    ensures
        forked->Ok_0@.id == id,
        settled(forked->Ok_0),
        settled(parent) ==> (original is Ok <==> inherited is Ok),
        original is Ok && inherited is Ok ==> {
            &&& inherited->Ok_0.flags() == original->Ok_0.flags()
            &&& cloned(*original->Ok_0.description(), *inherited->Ok_0.description())
        },
        inherited is Ok ==> parent@.slots[fd.get() as int].entry() is Some,
{
    let child = forked->Ok_0;
    let seen = choose|seen: Seq<bool>| #[trigger]
        observed(parent@.slots, seen) && child@.next_generation == 1 + crate::counting::count(
            seen,
            |visible: bool| visible,
        ) && forall|i: int|
            0 <= i < N ==> crate::fd::table::inherited(
                parent@.slots,
                seen,
                i,
                #[trigger] child@.slots[i],
            );
    assert forall|i: int| 0 <= i < child@.slots.len() implies !((#[trigger] child@.slots[i])
        is Prepared) by {
        assert(crate::fd::table::inherited(parent@.slots, seen, i, child@.slots[i]));
    }
    if fd.get() < N {
        let i = fd.get() as int;
        assert(crate::fd::table::inherited(parent@.slots, seen, i, child@.slots[i]));
        assert(parent@.slots[i].may_be(seen[i]));
        assert(settled(parent) ==> !(parent@.slots[i] is Prepared));
    }
}

/// The slot is open and the selection is for it: a number in the range, an entry
/// marked close-on-exec, or any.
pub open spec fn is_to_close<D>(slots: Seq<Slot<D>>, selection: Selection, i: int) -> bool {
    slots[i] matches Slot::Occupied { entry, .. } && match selection {
        Selection::Range { first, last } => first.get() <= i <= last.get(),
        Selection::CloseOnExec => entry.flags().bits() & 1u8 == 1u8,
        Selection::All => true,
    }
}

/// `numbers` are the numbers below `n` that are to be closed, in ascending order.
pub open spec fn lists<D>(
    slots: Seq<Slot<D>>,
    selection: Selection,
    n: int,
    numbers: Seq<int>,
) -> bool {
    &&& forall|k: int|
        0 <= k < numbers.len() ==> 0 <= #[trigger] numbers[k] < n && is_to_close(
            slots,
            selection,
            numbers[k],
        )
    &&& forall|k: int, m: int|
        #![trigger numbers[k], numbers[m]]
        0 <= k < m < numbers.len() ==> numbers[k] < numbers[m]
    &&& forall|i: int|
        0 <= i < n && #[trigger] is_to_close(slots, selection, i) ==> numbers.contains(i)
}

/// The entries taken from a settled table are those of the numbers to be closed.
proof fn taken_entries_are_listed<D>(
    slots: Seq<Slot<D>>,
    seen: Seq<bool>,
    selection: Selection,
    n: nat,
) -> (numbers: Seq<int>)
    requires
        observed(slots, seen),
        forall|i: int| 0 <= i < slots.len() ==> !((#[trigger] slots[i]) is Prepared),
        n <= slots.len(),
    ensures
        lists(slots, selection, n as int, numbers),
        selected_entries(slots, seen, selection, n).len() == numbers.len(),
        forall|k: int|
            0 <= k < numbers.len() ==> selected_entries(slots, seen, selection, n)[k]
                == slots[#[trigger] numbers[k]].entry()->0,
    decreases n,
{
    if n == 0 {
        Seq::empty()
    } else {
        let rest = taken_entries_are_listed(slots, seen, selection, (n - 1) as nat);
        let at = n - 1;
        assert(slots[at].may_be(seen[at]));
        assert(!(slots[at] is Prepared));
        assert(taken(slots, seen, selection, at) == is_to_close(slots, selection, at));
        let numbers = if is_to_close(slots, selection, at) {
            rest.push(at)
        } else {
            rest
        };
        assert forall|i: int|
            0 <= i < n && #[trigger] is_to_close(slots, selection, i) implies numbers.contains(
            i,
        ) by {
            if i < at {
                assert(rest.contains(i));
                let k = choose|k: int| 0 <= k < rest.len() && rest[k] == i;
                assert(numbers[k] == i);
            } else {
                assert(numbers[numbers.len() - 1] == i);
            }
        }
        numbers
    }
}

/// What a close of the selected numbers does to a settled table and to the batch:
/// all selected entries move into the batch, in ascending order of their numbers,
/// and every other number stays; or the batch is too small and nothing moves.
pub open spec fn closes<D>(
    before: Seq<Slot<D>>,
    after: Seq<Slot<D>>,
    batch: Seq<DescriptorEntry<D>>,
    filled: Seq<DescriptorEntry<D>>,
    room: int,
    selection: Selection,
    result: Result<(), FdTableError>,
) -> bool {
    exists|numbers: Seq<int>| #[trigger]
        lists(before, selection, before.len() as int, numbers) && {
            if numbers.len() <= room {
                &&& result is Ok
                &&& filled.len() == batch.len() + numbers.len()
                &&& batch.is_prefix_of(filled)
                &&& forall|k: int|
                    0 <= k < numbers.len() ==> filled[batch.len() + k]
                        == before[#[trigger] numbers[k]].entry()->0
                &&& after.len() == before.len()
                &&& forall|i: int|
                    0 <= i < before.len() ==> #[trigger] after[i] == if is_to_close(
                        before,
                        selection,
                        i,
                    ) {
                        Slot::Vacant
                    } else {
                        before[i]
                    }
            } else {
                &&& result == Err::<(), FdTableError>(FdTableError::InsufficientCloseStorage)
                &&& after == before
                &&& filled == batch
            }
        }
}

proof fn detaching_closes<D, const N: usize>(
    before: FdTable<D, N>,
    after: FdTable<D, N>,
    batch: CloseBatch<D>,
    filled: CloseBatch<D>,
    selection: Selection,
    result: Result<(), FdTableError>,
)
    requires
        before.wf(),
        settled(before),
        crate::fd::table::detaches(before, after, batch, filled, selection, result),
    ensures
        closes(
            before@.slots,
            after@.slots,
            batch@,
            filled@,
            batch.room(),
            selection,
            result,
        ),
{
    let slots = before@.slots;
    let seen = Seq::new(slots.len(), |i: int| slots[i] is Occupied);
    assert(observed(slots, seen));
    crate::fd::table::settled_closes_stay_within_the_batch(
        before,
        after,
        batch,
        filled,
        selection,
        result,
        seen,
    );
    let numbers = taken_entries_are_listed(slots, seen, selection, N as nat);
    assert(lists(slots, selection, slots.len() as int, numbers));
    if numbers.len() <= batch.room() {
        assert forall|i: int| 0 <= i < slots.len() implies #[trigger] after@.slots[i]
            == if is_to_close(slots, selection, i) {
            Slot::Vacant
        } else {
            slots[i]
        } by {
            assert(vacated(slots, seen, selection, N as nat)[i] == after@.slots[i]);
            assert(!(slots[i] is Prepared));
        }
    }
}

/// Closing a range of a settled table closes the open numbers from the first to
/// the last, both included, and no others. A range that ends before it begins is
/// refused.
pub proof fn close_range_closes_the_range<D, const N: usize>(
    table: &mut FdTable<D, N>,
    first: FdNumber,
    last: FdNumber,
    batch: &mut CloseBatch<D>,
    result: Result<(), FdTableError>,
)
    requires
        old(table).wf(),
        settled(*old(table)),
        call_ensures(FdTable::<D, N>::close_range, (table, first, last, batch), result),
    ensures
        last.get() < first.get() ==> result == Err::<(), FdTableError>(FdTableError::BadDescriptor)
            && final(table)@ == old(table)@ && final(batch)@ == old(batch)@,
        first.get() <= last.get() ==> closes(
            old(table)@.slots,
            final(table)@.slots,
            old(batch)@,
            final(batch)@,
            old(batch).room(),
            Selection::Range { first, last },
            result,
        ),
{
    if first.get() <= last.get() {
        detaching_closes(
            *old(table),
            *final(table),
            *old(batch),
            *final(batch),
            Selection::Range { first, last },
            result,
        );
    }
}

/// Close-on-exec closes the open numbers that are marked so, and no others.
pub proof fn close_on_exec_closes_the_marked<D, const N: usize>(
    table: &mut FdTable<D, N>,
    batch: &mut CloseBatch<D>,
    result: Result<(), FdTableError>,
)
    requires
        old(table).wf(),
        settled(*old(table)),
        call_ensures(FdTable::<D, N>::close_on_exec, (table, batch), result),
    ensures
        closes(
            old(table)@.slots,
            final(table)@.slots,
            old(batch)@,
            final(batch)@,
            old(batch).room(),
            Selection::CloseOnExec,
            result,
        ),
{
    detaching_closes(
        *old(table),
        *final(table),
        *old(batch),
        *final(batch),
        Selection::CloseOnExec,
        result,
    );
}

/// Closing all closes every open number.
pub proof fn close_all_closes_everything<D, const N: usize>(
    table: &mut FdTable<D, N>,
    batch: &mut CloseBatch<D>,
    result: Result<(), FdTableError>,
)
    requires
        old(table).wf(),
        settled(*old(table)),
        call_ensures(FdTable::<D, N>::close_all, (table, batch), result),
    ensures
        closes(
            old(table)@.slots,
            final(table)@.slots,
            old(batch)@,
            final(batch)@,
            old(batch).room(),
            Selection::All,
            result,
        ),
{
    detaching_closes(
        *old(table),
        *final(table),
        *old(batch),
        *final(batch),
        Selection::All,
        result,
    );
}

/// A prepared close-on-exec closes what an ordinary one closes, and always has
/// room for it.
pub proof fn committed_exec_closes_the_marked<D, const N: usize>(
    table: &mut FdTable<D, N>,
    prepared: PreparedCloseOnExec<D, N>,
    result: CommittedCloseOnExec<D>,
)
    requires
        old(table).wf(),
        settled(*old(table)),
        prepared.ready(),
        call_ensures(FdTable::<D, N>::commit_close_on_exec, (table, prepared), result),
    ensures
        closes(
            old(table)@.slots,
            final(table)@.slots,
            Seq::empty(),
            result@,
            N as int,
            Selection::CloseOnExec,
            Ok(()),
        ),
{
    let slots = old(table)@.slots;
    let seen = choose|seen: Seq<bool>| #[trigger]
        observed(slots, seen) && result@ == selected_entries(
            slots,
            seen,
            Selection::CloseOnExec,
            N as nat,
        ) && final(table)@.slots == vacated(slots, seen, Selection::CloseOnExec, N as nat);
    let numbers = taken_entries_are_listed(slots, seen, Selection::CloseOnExec, N as nat);
    assert(lists(slots, Selection::CloseOnExec, slots.len() as int, numbers));
    ascending_numbers_are_few(numbers, N as int);
    assert forall|i: int| 0 <= i < slots.len() implies #[trigger] final(table)@.slots[i]
        == if is_to_close(slots, Selection::CloseOnExec, i) {
        Slot::Vacant
    } else {
        slots[i]
    } by {
        assert(vacated(slots, seen, Selection::CloseOnExec, N as nat)[i] == final(
            table)@.slots[i]);
        assert(!(slots[i] is Prepared));
        assert(slots[i].may_be(seen[i]));
    }
}

proof fn ascending_numbers_are_few(numbers: Seq<int>, n: int)
    requires
        forall|k: int| 0 <= k < numbers.len() ==> 0 <= #[trigger] numbers[k] < n,
        forall|k: int, m: int|
            #![trigger numbers[k], numbers[m]]
            0 <= k < m < numbers.len() ==> numbers[k] < numbers[m],
        n >= 0,
    ensures
        numbers.len() <= n,
    decreases numbers.len(),
{
    if numbers.len() > 0 {
        let last = numbers.len() - 1;
        let rest = numbers.drop_last();
        assert forall|k: int| 0 <= k < rest.len() implies 0 <= #[trigger] rest[k] < numbers[last] by {
            assert(rest[k] == numbers[k]);
        }
        ascending_numbers_are_few(rest, numbers[last]);
    }
}

/// The numbers that close-on-exec removes from a child are those that it removes
/// from the parent.
pub proof fn exec_closes_the_same_in_parent_and_child<D: Clone, const N: usize>(
    parent: FdTable<D, N>,
    id: FdTableId,
    forked: Result<FdTable<D, N>, FdTableError>,
    i: int,
)
    requires
        parent.wf(),
        settled(parent),
        call_ensures(FdTable::<D, N>::fork_copy, (&parent, id), forked),
        forked is Ok,
        0 <= i < N,
    ensures
        is_to_close(forked->Ok_0@.slots, Selection::CloseOnExec, i) <==> is_to_close(
            parent@.slots,
            Selection::CloseOnExec,
            i,
        ),
{
    let child = forked->Ok_0;
    let seen = choose|seen: Seq<bool>| #[trigger]
        observed(parent@.slots, seen) && child@.next_generation == 1 + crate::counting::count(
            seen,
            |visible: bool| visible,
        ) && forall|i: int|
            0 <= i < N ==> crate::fd::table::inherited(
                parent@.slots,
                seen,
                i,
                #[trigger] child@.slots[i],
            );
    assert(crate::fd::table::inherited(parent@.slots, seen, i, child@.slots[i]));
    assert(parent@.slots[i].may_be(seen[i]));
    assert(!(parent@.slots[i] is Prepared));
}

/// What a lookup for change hands out is what a lookup finds, and what is made of
/// it is what is found afterwards; every other number stays.
pub proof fn changed_entries_are_found_changed<D, const N: usize>(
    table: &mut FdTable<D, N>,
    fd: FdNumber,
    before: Result<&DescriptorEntry<D>, FdTableError>,
    result: Result<&mut DescriptorEntry<D>, FdTableError>,
    other: int,
)
    requires
        old(table).wf(),
        settled(*old(table)),
        looks_up(*old(table), fd, before),
        call_ensures(FdTable::<D, N>::get_mut, (table, fd), result),
        0 <= other < N,
    ensures
        before is Ok <==> result is Ok,
        result is Ok ==> {
            &&& *result->Ok_0 == *before->Ok_0
            &&& final(table)@.slots[fd.get() as int].entry() == Some(*final(result->Ok_0))
            &&& other != fd.get() ==> final(table)@.slots[other] == old(table)@.slots[other]
        },
        result is Err ==> final(table)@ == old(table)@,
{
    if fd.get() < N {
        assert(!(old(table)@.slots[fd.get() as int] is Prepared));
    }
}

} // verus!
