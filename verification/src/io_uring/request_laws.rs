//! What the request table is for, stated of the calls themselves: how a request
//! moves from reservation to its published completion, and who may move it.
//!
//! The laws look at a registry through [`RequestRegistry::request`] and
//! [`RequestRegistry::progress`], as a caller does.

use crate::counting::{count, count_bounds, count_disjoint, count_update};
use crate::io_uring::error::IoUringError;
use crate::io_uring::request::{
    CancelSelector, CancellationMode, CompletionPublication, CompletionToken, EntryState,
    IssuedRequest, PreparedRequest, RequestDescriptor, RequestId, RequestIssueError,
    RequestProgress, RequestRegistry, RequestRegistryState, RequestReservation, RequestSlot,
    RequestState, TerminalCause, TerminalPermit,
};
use vstd::prelude::*;

verus! {

/// Looking up `id` answers `answer`.
pub open spec fn looks_up(
    registry: RequestRegistry,
    id: RequestId,
    answer: Result<(RequestDescriptor, RequestState), IoUringError>,
) -> bool {
    call_ensures(RequestRegistry::request, (&registry, id), answer)
}

/// A reserved request is found under its identity with the metadata it came with,
/// and every other request is as before. The identity was unknown until then.
pub proof fn reserving_adds_one_request(
    registry: &mut RequestRegistry,
    descriptor: RequestDescriptor,
    result: Result<RequestReservation, IoUringError>,
    other: RequestId,
    before: Result<(RequestDescriptor, RequestState), IoUringError>,
    after: Result<(RequestDescriptor, RequestState), IoUringError>,
)
    requires
        old(registry).wf(),
        call_ensures(RequestRegistry::reserve, (registry, descriptor), result),
        looks_up(*old(registry), other, before),
        looks_up(*final(registry), other, after),
    ensures
        result matches Ok(reservation) ==> {
            &&& reservation.descriptor() == descriptor
            &&& other == reservation.id() ==> before is Err && after == Ok::<
                (RequestDescriptor, RequestState),
                IoUringError,
            >((descriptor, RequestState::Reserved))
            &&& other != reservation.id() ==> after == before
        },
        result is Err ==> after == before,
{
    if result is Ok {
        let state = old(registry)@;
        assert(state.slots[state.free[state.free.len() - 1] as int].available());
    }
}

/// A reservation fails when the ring is not open, when every completion place is
/// spoken for, or when the table or its numbers are used up; an open ring with
/// places left, numbers left and a free slot takes the request.
pub proof fn reservations_fail_only_for_want_of_room(
    registry: &mut RequestRegistry,
    descriptor: RequestDescriptor,
    result: Result<RequestReservation, IoUringError>,
    progress: Result<RequestProgress, IoUringError>,
)
    requires
        old(registry).wf(),
        call_ensures(RequestRegistry::reserve, (registry, descriptor), result),
        call_ensures(RequestRegistry::progress, (old(registry),), progress),
    ensures
        progress is Ok,
        progress->Ok_0.lifecycle() is Closing <==> result == Err::<RequestReservation, IoUringError>(
            IoUringError::Closing,
        ),
        progress->Ok_0.lifecycle() is Draining <==> result == Err::<
            RequestReservation,
            IoUringError,
        >(IoUringError::Draining),
        progress->Ok_0.lifecycle() is Closed <==> result == Err::<RequestReservation, IoUringError>(
            IoUringError::Closed,
        ),
        progress->Ok_0.lifecycle() is Open && progress->Ok_0.terminal_credits() == old(
            registry,
        )@.cq_entries <==> result == Err::<RequestReservation, IoUringError>(
            IoUringError::CompletionQueueFull,
        ),
        progress->Ok_0.lifecycle() is Open && progress->Ok_0.terminal_credits() < old(
            registry,
        )@.cq_entries && old(registry)@.next_sequence is Some && (exists|i: int|
            0 <= i < old(registry)@.slots.len() && (#[trigger] old(registry)@.slots[i]).entry is None
                && old(registry)@.slots[i].generation is Some) ==> result is Ok,
{
    let state = old(registry)@;
    assert forall|i: int|
        0 <= i < state.slots.len() && (#[trigger] state.slots[i]).entry is None
            && state.slots[i].generation is Some implies state.free.len() > 0 by {
        assert(state.slots[i].available());
        assert(state.free.contains(i as u32));
    }
}

/// Every accepted request owns a place in the completion queue from its
/// reservation until its completion is reaped: the places in use are the live
/// requests and the completions not yet reaped, and never more than there are.
pub proof fn every_request_owns_a_completion_place(
    registry: RequestRegistry,
    result: Result<RequestProgress, IoUringError>,
)
    requires
        registry.wf(),
        call_ensures(RequestRegistry::progress, (&registry,), result),
    ensures
        result matches Ok(progress) && progress.terminal_credits() == progress.reserved()
            + progress.prepared() + progress.issued() + progress.terminal_claimed()
            + progress.completion_pending() + progress.publishing() + progress.published()
            && progress.terminal_credits() <= registry@.cq_entries
            && progress.uncancellable_issued() <= progress.issued(),
{
    let state = registry@;
    count_disjoint(
        state.slots,
        |slot: RequestSlot| slot.is_in(
            |s: EntryState| s == EntryState::Issued(CancellationMode::Uncancellable),
        ),
        |slot: RequestSlot| false,
        |slot: RequestSlot| slot.is_in(|s: EntryState| s is Issued),
    );
}

/// A reservation can be taken back or committed while it is one, and only once.
/// Taken back, it is unknown; committed, it is prepared with the same metadata.
/// Every other request is as before.
pub proof fn reservations_are_settled_once(
    registry: &mut RequestRegistry,
    reservation: RequestReservation,
    committed: Result<PreparedRequest, IoUringError>,
    other: RequestId,
    before: Result<(RequestDescriptor, RequestState), IoUringError>,
    after: Result<(RequestDescriptor, RequestState), IoUringError>,
)
    requires
        old(registry).wf(),
        call_ensures(RequestRegistry::commit, (registry, reservation), committed),
        looks_up(*old(registry), other, before),
        looks_up(*final(registry), other, after),
    ensures
        other != reservation.id() ==> after == before,
        other == reservation.id() ==> match before {
            Ok((descriptor, RequestState::Reserved)) => {
                &&& committed matches Ok(prepared) && prepared.id() == other
                    && prepared.descriptor() == descriptor
                &&& after == Ok::<(RequestDescriptor, RequestState), IoUringError>(
                    (descriptor, RequestState::Prepared),
                )
            },
            Ok(_) => committed == Err::<PreparedRequest, IoUringError>(
                IoUringError::InvalidRequestState,
            ) && after == before,
            Err(_) => committed == Err::<PreparedRequest, IoUringError>(
                IoUringError::UnknownRequest,
            ) && after == before,
        },
{
}

/// Taking a reservation back makes its identity unknown and frees its completion
/// place; every other request is as before.
pub proof fn rolled_back_reservations_are_gone(
    registry: &mut RequestRegistry,
    reservation: RequestReservation,
    result: Result<(), IoUringError>,
    other: RequestId,
    before: Result<(RequestDescriptor, RequestState), IoUringError>,
    after: Result<(RequestDescriptor, RequestState), IoUringError>,
)
    requires
        old(registry).wf(),
        call_ensures(RequestRegistry::rollback, (registry, reservation), result),
        looks_up(*old(registry), other, before),
        looks_up(*final(registry), other, after),
    ensures
        other != reservation.id() ==> after == before,
        other == reservation.id() ==> match before {
            Ok((_, RequestState::Reserved)) => {
                &&& result is Ok
                &&& after is Err
                &&& final(registry)@.terminal_credits + 1 == old(registry)@.terminal_credits
            },
            Ok(_) => result == Err::<(), IoUringError>(IoUringError::InvalidRequestState) && after
                == before,
            Err(_) => result == Err::<(), IoUringError>(IoUringError::UnknownRequest) && after
                == before,
        },
{
    let state = old(registry)@;
    let id = reservation.id();
    if state.knows(id) {
        let live = |slot: RequestSlot| slot.live();
        count_bounds(state.slots, live);
        assert(live(state.slots[id.slot() as int]));
    }
}

/// A prepared request is handed to execution once. Only a poll can be cancelled
/// from then on. Whoever comes too late gets the prepared request back.
pub proof fn prepared_requests_are_issued_once(
    registry: &mut RequestRegistry,
    prepared: PreparedRequest,
    result: Result<IssuedRequest, RequestIssueError>,
    other: RequestId,
    before: Result<(RequestDescriptor, RequestState), IoUringError>,
    after: Result<(RequestDescriptor, RequestState), IoUringError>,
)
    requires
        old(registry).wf(),
        call_ensures(RequestRegistry::issue, (registry, prepared), result),
        looks_up(*old(registry), other, before),
        looks_up(*final(registry), other, after),
    ensures
        other != prepared.id() ==> after == before,
        result matches Err(failure) ==> *failure.prepared() == prepared && after == before,
        other == prepared.id() ==> match before {
            Ok((descriptor, RequestState::Prepared)) => {
                &&& result matches Ok(issued) && issued.id() == other && issued.descriptor()
                    == descriptor && (issued.cancellation_mode() is Cancellable
                    <==> descriptor.operation() is PollAdd) && after == Ok::<
                    (RequestDescriptor, RequestState),
                    IoUringError,
                >((descriptor, RequestState::Issued(issued.cancellation_mode())))
            },
            Ok((_, state)) => {
                &&& result is Err
                &&& result->Err_0.error() == if state is Reserved || state is Issued {
                    IoUringError::InvalidRequestState
                } else {
                    IoUringError::TerminalAlreadyClaimed
                }
            },
            Err(_) => result is Err && result->Err_0.error() == IoUringError::UnknownRequest,
        },
{
}

/// The end of a request has one owner. A prepared or issued request can be
/// claimed, once; one whose execution cannot be cancelled only by its own
/// completion; a reservation not at all.
pub proof fn the_end_of_a_request_has_one_owner(
    registry: &mut RequestRegistry,
    id: RequestId,
    cause: TerminalCause,
    result: Result<TerminalPermit, IoUringError>,
    other: RequestId,
    before: Result<(RequestDescriptor, RequestState), IoUringError>,
    after: Result<(RequestDescriptor, RequestState), IoUringError>,
)
    requires
        old(registry).wf(),
        call_ensures(RequestRegistry::claim_terminal, (registry, id, cause), result),
        looks_up(*old(registry), other, before),
        looks_up(*final(registry), other, after),
    ensures
        other != id ==> after == before,
        result is Err ==> after == before,
        result matches Ok(permit) ==> permit.id() == id && permit.cause() == cause,
        other == id ==> match before {
            Ok((descriptor, state)) => {
                &&& result is Ok <==> state is Prepared || state == RequestState::Issued(
                    CancellationMode::Cancellable,
                ) || (state == RequestState::Issued(CancellationMode::Uncancellable) && cause
                    is Completed)
                &&& result is Ok ==> result->Ok_0.descriptor() == descriptor && after == Ok::<
                    (RequestDescriptor, RequestState),
                    IoUringError,
                >((descriptor, RequestState::TerminalClaimed))
                &&& result matches Err(error) ==> error == match state {
                    RequestState::Reserved => IoUringError::InvalidRequestState,
                    RequestState::Issued(_) => IoUringError::RequestUncancellable,
                    _ => IoUringError::TerminalAlreadyClaimed,
                }
            },
            Err(_) => result == Err::<TerminalPermit, IoUringError>(IoUringError::UnknownRequest),
        },
{
}

/// A cancellation takes a request that matches it, that is not the canceller
/// itself, and that can still be cancelled: a prepared one, or a poll under way.
pub proof fn cancellation_takes_a_cancellable_match(
    registry: &mut RequestRegistry,
    selector: CancelSelector,
    exclude: Option<RequestId>,
    result: Result<TerminalPermit, IoUringError>,
    other: RequestId,
    before: Result<(RequestDescriptor, RequestState), IoUringError>,
    after: Result<(RequestDescriptor, RequestState), IoUringError>,
)
    requires
        old(registry).wf(),
        call_ensures(RequestRegistry::claim_cancel, (registry, selector, exclude), result),
        looks_up(*old(registry), other, before),
        looks_up(*final(registry), other, after),
    ensures
        result matches Ok(permit) ==> {
            &&& permit.cause() is Cancelled
            &&& exclude != Some(permit.id())
            &&& selector matches CancelSelector::Request(target) ==> permit.id() == target
            &&& other != permit.id() ==> after == before
            &&& other == permit.id() ==> match before {
                Ok((descriptor, state)) => {
                    &&& state is Prepared || state == RequestState::Issued(
                        CancellationMode::Cancellable,
                    )
                    &&& permit.descriptor() == descriptor
                    &&& selector matches CancelSelector::UserData(wanted) ==> descriptor.user_data()
                        == wanted
                    &&& after == Ok::<(RequestDescriptor, RequestState), IoUringError>(
                        (descriptor, RequestState::TerminalClaimed),
                    )
                },
                Err(_) => false,
            }
        },
        result is Err ==> after == before && (before matches Ok((descriptor, state)) ==> {
            let matching = match selector {
                CancelSelector::Request(target) => target == other,
                CancelSelector::UserData(wanted) => wanted == descriptor.user_data(),
            };
            let cancellable = state is Prepared || state == RequestState::Issued(
                CancellationMode::Cancellable,
            );
            !(matching && cancellable && exclude != Some(other))
        }),
{
    let state = old(registry)@;
    if result is Err && selector is UserData && state.knows(other) {
        assert(state.id_at(other.slot() as int) == other);
        assert(!state.selectable(other.slot() as int, selector->UserData_0, exclude));
    }
}

/// Among the requests that match a user value, the one that was reserved first
/// is cancelled.
pub proof fn cancellation_takes_the_oldest(
    registry: &mut RequestRegistry,
    selector: CancelSelector,
    wanted: u64,
    exclude: Option<RequestId>,
    result: Result<TerminalPermit, IoUringError>,
    other: RequestId,
    before: Result<(RequestDescriptor, RequestState), IoUringError>,
)
    requires
        old(registry).wf(),
        selector == CancelSelector::UserData(wanted),
        call_ensures(RequestRegistry::claim_cancel, (registry, selector, exclude), result),
        looks_up(*old(registry), other, before),
        before matches Ok((descriptor, state)) && descriptor.user_data() == wanted && (state
            is Prepared || state == RequestState::Issued(CancellationMode::Cancellable)),
        exclude != Some(other),
    ensures
        result matches Ok(permit) && old(registry)@.entry(permit.id()).sequence <= old(
            registry,
        )@.entry(other).sequence,
{
    let state = old(registry)@;
    let at = other.slot() as int;
    assert(state.id_at(at) == other);
    assert(old(registry)@.selectable(at, wanted, exclude));
    if result is Err {
        assert(selector is UserData);
        assert(selector->UserData_0 == wanted);
        assert(!state.selectable(at, selector->UserData_0, exclude));
    }
}

/// Requests are numbered in the order in which they are reserved.
pub proof fn requests_are_numbered_in_order(
    registry: &mut RequestRegistry,
    descriptor: RequestDescriptor,
    result: Result<RequestReservation, IoUringError>,
    earlier: RequestId,
)
    requires
        old(registry).wf(),
        call_ensures(RequestRegistry::reserve, (registry, descriptor), result),
        result is Ok,
        old(registry)@.knows(earlier),
    ensures
        final(registry)@.knows(earlier),
        final(registry)@.entry(earlier).sequence == old(registry)@.entry(earlier).sequence,
        final(registry)@.entry(earlier).sequence < final(registry)@.entry(
            result->Ok_0.id(),
        ).sequence,
{
    let state = old(registry)@;
    assert(state.slots[state.free[state.free.len() - 1] as int].available());
    assert(state.slots[earlier.slot() as int].entry is Some);
}

/// A claimed request is finished by its owner, and by nobody else.
pub proof fn only_the_owner_finishes_a_request(
    registry: &mut RequestRegistry,
    permit: TerminalPermit,
    value: i32,
    flags: u32,
    result: Result<CompletionToken, IoUringError>,
    other: RequestId,
    before: Result<(RequestDescriptor, RequestState), IoUringError>,
    after: Result<(RequestDescriptor, RequestState), IoUringError>,
)
    requires
        old(registry).wf(),
        call_ensures(RequestRegistry::finish_terminal, (registry, permit, value, flags), result),
        looks_up(*old(registry), other, before),
        looks_up(*final(registry), other, after),
    ensures
        other != permit.id() ==> after == before,
        result is Err ==> after == before,
        result matches Ok(token) ==> token.id() == permit.id(),
        other == permit.id() && result is Ok ==> before is Ok && before->Ok_0.1 is TerminalClaimed
            && after == Ok::<(RequestDescriptor, RequestState), IoUringError>(
            (before->Ok_0.0, RequestState::CompletionPending),
        ),
        other == permit.id() && before is Ok && !(before->Ok_0.1 is TerminalClaimed) ==> result
            == Err::<CompletionToken, IoUringError>(IoUringError::InvalidRequestState),
        other == permit.id() && before is Err ==> result == Err::<CompletionToken, IoUringError>(
            IoUringError::UnknownRequest,
        ),
{
}

/// Claiming a request, finishing it and publishing it hands out the user value
/// of the request with the result and the flags it was finished with, for the
/// next place in the completion queue.
pub proof fn completions_carry_what_the_request_was_finished_with(
    first: &mut RequestRegistry,
    id: RequestId,
    cause: TerminalCause,
    permit: Result<TerminalPermit, IoUringError>,
    second: &mut RequestRegistry,
    value: i32,
    flags: u32,
    token: Result<CompletionToken, IoUringError>,
    third: &mut RequestRegistry,
    published: Result<CompletionPublication, IoUringError>,
)
    requires
        old(first).wf(),
        call_ensures(RequestRegistry::claim_terminal, (first, id, cause), permit),
        permit is Ok,
        *old(second) == *final(first),
        call_ensures(
            RequestRegistry::finish_terminal,
            (second, permit->Ok_0, value, flags),
            token,
        ),
        *old(third) == *final(second),
        token is Ok ==> call_ensures(RequestRegistry::publish, (third, &token->Ok_0), published),
    ensures
        token is Ok,
        published matches Ok(publication) ==> {
            &&& publication.completion().user_data() == permit->Ok_0.descriptor().user_data()
            &&& publication.completion().result() == value
            &&& publication.completion().flags() == flags
            &&& publication.slot() == old(first)@.cq_tail % old(first)@.cq_entries
            &&& publication.new_tail() == (old(first)@.cq_tail + 1) % 0x1_0000_0000
        },
        old(first)@.in_flight is None && (old(first)@.lifecycle is Open || old(first)@.lifecycle
            is Closing) ==> published is Ok,
{
}

/// Committing a publication moves the completion tail on by one and forgets the
/// request; rolling it back leaves the completion to be published again.
pub proof fn publications_are_committed_or_taken_back(
    a: &mut RequestRegistry,
    b: &mut RequestRegistry,
    publication: CompletionPublication,
    committed: Result<(), IoUringError>,
    undone: Result<CompletionToken, IoUringError>,
    lost: Result<(RequestDescriptor, RequestState), IoUringError>,
    kept: Result<(RequestDescriptor, RequestState), IoUringError>,
)
    requires
        old(a).wf(),
        old(b).wf(),
        call_ensures(RequestRegistry::commit_publication, (a, publication), committed),
        call_ensures(RequestRegistry::rollback_publication, (b, publication), undone),
        looks_up(*final(a), publication.id(), lost),
        looks_up(*final(b), publication.id(), kept),
    ensures
        committed is Ok ==> {
            &&& lost is Err
            &&& final(a)@.cq_tail == (old(a)@.cq_tail + 1) % 0x1_0000_0000
            &&& final(a)@.cq_head == old(a)@.cq_head
            &&& final(a)@.terminal_credits == old(a)@.terminal_credits
        },
        undone matches Ok(token) ==> {
            &&& token.id() == publication.id()
            &&& kept is Ok && kept->Ok_0.1 is CompletionPending
            &&& final(b)@.cq_tail == old(b)@.cq_tail
            &&& final(b)@.terminal_credits == old(b)@.terminal_credits
        },
{
}

/// Reaping completions up to a new head frees as many places as the head moved,
/// and a head past the tail is refused.
pub proof fn reaping_frees_completion_places(
    registry: &mut RequestRegistry,
    head: u32,
    result: Result<u32, IoUringError>,
)
    requires
        old(registry).wf(),
        call_ensures(RequestRegistry::observe_completion_head, (registry, head), result),
    ensures
        result matches Ok(reaped) ==> {
            &&& final(registry)@.cq_head == head
            &&& (old(registry)@.cq_head + reaped) % 0x1_0000_0000 == head
            &&& reaped <= (old(registry)@.cq_tail - old(registry)@.cq_head) % 0x1_0000_0000
            &&& final(registry)@.terminal_credits == old(registry)@.terminal_credits - reaped
            &&& final(registry)@.cq_tail == old(registry)@.cq_tail
            &&& final(registry)@.slots == old(registry)@.slots
        },
        result == Err::<u32, IoUringError>(IoUringError::CorruptCompletionHead) ==> (head - old(
            registry,
        )@.cq_head) % 0x1_0000_0000 > (old(registry)@.cq_tail - old(registry)@.cq_head)
            % 0x1_0000_0000,
        old(registry)@.in_flight is None && (head - old(registry)@.cq_head) % 0x1_0000_0000 <= (old(
            registry,
        )@.cq_tail - old(registry)@.cq_head) % 0x1_0000_0000 ==> result is Ok,
{
    let live = |slot: RequestSlot| slot.live();
    count_bounds(old(registry)@.slots, live);
}

/// A ring closes step by step: closing stops admission and nothing else, draining
/// waits until every request is complete, and the ring is closed when no place in
/// the completion queue is in use.
pub proof fn rings_close_step_by_step(
    a: &mut RequestRegistry,
    closing: Result<RequestProgress, IoUringError>,
    b: &mut RequestRegistry,
    draining: Result<RequestProgress, IoUringError>,
    before: Result<RequestProgress, IoUringError>,
    c: &mut RequestRegistry,
    closed: Result<(), IoUringError>,
)
    requires
        old(a).wf(),
        old(b).wf(),
        old(c).wf(),
        call_ensures(RequestRegistry::begin_close, (a,), closing),
        call_ensures(RequestRegistry::begin_draining, (b,), draining),
        call_ensures(RequestRegistry::progress, (old(b),), before),
        call_ensures(RequestRegistry::finish_close, (c,), closed),
    ensures
        closing is Ok && !(final(a)@.lifecycle is Open),
        old(a)@.lifecycle is Open ==> final(a)@.lifecycle is Closing,
        !(old(a)@.lifecycle is Open) ==> final(a)@.lifecycle == old(a)@.lifecycle,
        final(a)@.slots == old(a)@.slots && final(a)@.terminal_credits == old(a)@.terminal_credits,
        draining is Ok ==> final(b)@.lifecycle is Draining && (old(b)@.lifecycle is Closing || old(
            b,
        )@.lifecycle is Draining),
        draining is Ok ==> final(b)@.slots == old(b)@.slots,
        draining is Ok && old(b)@.lifecycle is Closing ==> forall|i: int|
            0 <= i < old(b)@.slots.len() && (#[trigger] old(b)@.slots[i]).entry is Some ==> old(
                b,
            )@.slots[i].entry->0.state is CompletionPending,
        draining is Err ==> final(b)@.lifecycle == old(b)@.lifecycle,
        closed is Ok <==> (old(c)@.lifecycle is Closed || (!(old(c)@.lifecycle is Open) && old(
            c,
        )@.terminal_credits == 0)),
        closed is Ok ==> final(c)@.lifecycle is Closed,
        closed is Err ==> final(c)@.lifecycle == old(c)@.lifecycle,
{
}

/// While a ring drains, completions are discarded one by one and the published
/// ones all at once; each frees its place, and nothing is discarded before.
pub proof fn draining_discards_completions(
    a: &mut RequestRegistry,
    token: CompletionToken,
    one: Result<(), IoUringError>,
    lost: Result<(RequestDescriptor, RequestState), IoUringError>,
    b: &mut RequestRegistry,
    all: Result<u32, IoUringError>,
)
    requires
        old(a).wf(),
        old(b).wf(),
        call_ensures(RequestRegistry::discard_completion, (a, token), one),
        looks_up(*final(a), token.id(), lost),
        call_ensures(RequestRegistry::discard_published, (b,), all),
    ensures
        one is Ok ==> {
            &&& old(a)@.lifecycle is Draining
            &&& lost is Err
            &&& final(a)@.terminal_credits + 1 == old(a)@.terminal_credits
        },
        old(a)@.lifecycle is Draining && old(a)@.knows(token.id()) ==> one is Ok,
        all is Ok <==> old(b)@.lifecycle is Draining,
        all matches Ok(discarded) ==> {
            &&& final(b)@.cq_head == final(b)@.cq_tail == old(b)@.cq_tail
            &&& discarded == (old(b)@.cq_tail - old(b)@.cq_head) % 0x1_0000_0000
            &&& final(b)@.terminal_credits == old(b)@.terminal_credits - discarded
            &&& final(b)@.slots == old(b)@.slots
        },
{
    let live = |slot: RequestSlot| slot.live();
    count_bounds(old(a)@.slots, live);
    count_bounds(old(b)@.slots, live);
    if old(a)@.knows(token.id()) {
        assert(live(old(a)@.slots[token.id().slot() as int]));
        assert(old(a)@.slots[token.id().slot() as int].entry is Some);
    }
}

/// How many requests are in a state after one of them moved to another.
proof fn moves_are_counted(
    slots: Seq<RequestSlot>,
    at: int,
    next: RequestSlot,
    p: spec_fn(EntryState) -> bool,
)
    requires
        0 <= at < slots.len(),
    ensures
        count(slots.update(at, next), |slot: RequestSlot| slot.is_in(p)) == count(
            slots,
            |slot: RequestSlot| slot.is_in(p),
        ) - if slots[at].is_in(p) {
            1int
        } else {
            0
        } + if next.is_in(p) {
            1int
        } else {
            0
        },
{
    count_update(slots, at, next, |slot: RequestSlot| slot.is_in(p));
}

/// Progress counts a committed reservation as prepared and no longer as reserved;
/// every other number stays.
pub proof fn commits_are_counted_as_prepared(
    registry: &mut RequestRegistry,
    reservation: RequestReservation,
    result: Result<PreparedRequest, IoUringError>,
    before: Result<RequestProgress, IoUringError>,
    after: Result<RequestProgress, IoUringError>,
)
    requires
        old(registry).wf(),
        call_ensures(RequestRegistry::progress, (old(registry),), before),
        call_ensures(RequestRegistry::commit, (registry, reservation), result),
        result is Ok,
        call_ensures(RequestRegistry::progress, (final(registry),), after),
    ensures
        before is Ok && after is Ok,
        after->Ok_0.reserved() + 1 == before->Ok_0.reserved(),
        after->Ok_0.prepared() == before->Ok_0.prepared() + 1,
        after->Ok_0.issued() == before->Ok_0.issued(),
        after->Ok_0.uncancellable_issued() == before->Ok_0.uncancellable_issued(),
        after->Ok_0.terminal_claimed() == before->Ok_0.terminal_claimed(),
        after->Ok_0.completion_pending() == before->Ok_0.completion_pending(),
        after->Ok_0.publishing() == before->Ok_0.publishing(),
        after->Ok_0.terminal_credits() == before->Ok_0.terminal_credits(),
        after->Ok_0.published() == before->Ok_0.published(),
        after->Ok_0.lifecycle() == before->Ok_0.lifecycle(),
{
    all_moves_are_counted(
        old(registry)@,
        final(registry)@,
        reservation.id().slot() as int,
    );
}

/// The requests in a state are those of before, less the one that moved if it was
/// in it, and with it if it is in it now.
spec fn recounted(
    before: RequestRegistryState,
    after: RequestRegistryState,
    at: int,
    p: spec_fn(EntryState) -> bool,
) -> bool {
    after.number_in(p) == before.number_in(p) - if before.slots[at].is_in(p) {
        1int
    } else {
        0
    } + if after.slots[at].is_in(p) {
        1int
    } else {
        0
    }
}

proof fn all_moves_are_counted(before: RequestRegistryState, after: RequestRegistryState, at: int)
    requires
        0 <= at < before.slots.len(),
        after.slots == before.slots.update(at, after.slots[at]),
    ensures
        recounted(before, after, at, |s: EntryState| s is Reserved),
        recounted(before, after, at, |s: EntryState| s is Prepared),
        recounted(before, after, at, |s: EntryState| s is Issued),
        recounted(before, after, at, |s: EntryState| s == EntryState::Issued(CancellationMode::Uncancellable)),
        recounted(before, after, at, |s: EntryState| s is TerminalClaimed),
        recounted(before, after, at, |s: EntryState| s is CompletionPending),
        recounted(before, after, at, |s: EntryState| s is Publishing),
{
    moves_are_counted(before.slots, at, after.slots[at], |s: EntryState| s is Reserved);
    moves_are_counted(before.slots, at, after.slots[at], |s: EntryState| s is Prepared);
    moves_are_counted(before.slots, at, after.slots[at], |s: EntryState| s is Issued);
    moves_are_counted(before.slots, at, after.slots[at], |s: EntryState| s == EntryState::Issued(CancellationMode::Uncancellable));
    moves_are_counted(before.slots, at, after.slots[at], |s: EntryState| s is TerminalClaimed);
    moves_are_counted(before.slots, at, after.slots[at], |s: EntryState| s is CompletionPending);
    moves_are_counted(before.slots, at, after.slots[at], |s: EntryState| s is Publishing);
}

/// Progress counts an issued request as issued, and as uncancellable unless it is
/// a poll.
pub proof fn issues_are_counted(
    registry: &mut RequestRegistry,
    prepared: PreparedRequest,
    result: Result<IssuedRequest, RequestIssueError>,
    before: Result<RequestProgress, IoUringError>,
    after: Result<RequestProgress, IoUringError>,
)
    requires
        old(registry).wf(),
        call_ensures(RequestRegistry::progress, (old(registry),), before),
        call_ensures(RequestRegistry::issue, (registry, prepared), result),
        result is Ok,
        call_ensures(RequestRegistry::progress, (final(registry),), after),
    ensures
        before is Ok && after is Ok,
        after->Ok_0.prepared() + 1 == before->Ok_0.prepared(),
        after->Ok_0.issued() == before->Ok_0.issued() + 1,
        after->Ok_0.uncancellable_issued() == before->Ok_0.uncancellable_issued()
            + if result->Ok_0.descriptor().operation() is PollAdd {
            0int
        } else {
            1
        },
        after->Ok_0.reserved() == before->Ok_0.reserved(),
        after->Ok_0.terminal_claimed() == before->Ok_0.terminal_claimed(),
        after->Ok_0.completion_pending() == before->Ok_0.completion_pending(),
        after->Ok_0.publishing() == before->Ok_0.publishing(),
        after->Ok_0.published() == before->Ok_0.published(),
{
    all_moves_are_counted(old(registry)@, final(registry)@, prepared.id().slot() as int);
}

/// Progress counts a finished request as pending completion, and a publication
/// that is under way as such.
pub proof fn completions_are_counted(
    a: &mut RequestRegistry,
    permit: TerminalPermit,
    value: i32,
    flags: u32,
    finished: Result<CompletionToken, IoUringError>,
    before: Result<RequestProgress, IoUringError>,
    between: Result<RequestProgress, IoUringError>,
    b: &mut RequestRegistry,
    published: Result<CompletionPublication, IoUringError>,
    after: Result<RequestProgress, IoUringError>,
)
    requires
        old(a).wf(),
        call_ensures(RequestRegistry::progress, (old(a),), before),
        call_ensures(RequestRegistry::finish_terminal, (a, permit, value, flags), finished),
        finished is Ok,
        call_ensures(RequestRegistry::progress, (final(a),), between),
        *old(b) == *final(a),
        call_ensures(RequestRegistry::publish, (b, &finished->Ok_0), published),
        published is Ok,
        call_ensures(RequestRegistry::progress, (final(b),), after),
    ensures
        between->Ok_0.terminal_claimed() + 1 == before->Ok_0.terminal_claimed(),
        between->Ok_0.completion_pending() == before->Ok_0.completion_pending() + 1,
        between->Ok_0.issued() == before->Ok_0.issued(),
        between->Ok_0.publishing() == before->Ok_0.publishing(),
        after->Ok_0.completion_pending() == before->Ok_0.completion_pending(),
        after->Ok_0.publishing() == before->Ok_0.publishing() + 1,
        after->Ok_0.terminal_credits() == before->Ok_0.terminal_credits(),
        after->Ok_0.published() == before->Ok_0.published(),
{
    let at = permit.id().slot() as int;
    all_moves_are_counted(old(a)@, final(a)@, at);
    all_moves_are_counted(old(b)@, final(b)@, at);
}

} // verus!
