//! What epoll delivery is for, stated of the calls themselves: which readiness is
//! handed out, to whom, and what is left to be handed out again.

use crate::fd::epoll::{
    DeliveryCommitError, DeliveryOutcome, DeliveryPreparation, DeliveryToken, EpollCore, EpollError,
    EpollInterest, EpollPublishError, EpollToken, Entry, NotifyOutcome, ReadyEvent, RescanProgress,
    RescanToken,
};
use crate::fd::types::{InterestMask, ReadyMask};
use vstd::prelude::*;

verus! {

/// Every bit of `a` is a bit of `b`.
pub open spec fn within(a: u32, b: u32) -> bool {
    a & !b == 0
}

/// The bits of `ready` that an interest asks for, or that are always reported:
/// errors, hangups and invalid descriptors.
pub open spec fn wanted(ready: ReadyMask, interest: InterestMask) -> u32 {
    ready.bits() & (interest.bits() | 0x0038u32)
}

proof fn masks(a: u32, b: u32, c: u32, d: u32)
    ensures
        within(a, a | b),
        within(b, a | b),
        within(a | b, a | b),
        within(a | b | c, a | b | c),
        within(c, a | b | c),
        within(a, a | b | c),
        within(b, a | b | c),
        within(a, a | (b | c)),
        within(b, a | (b | c)),
        within(c, a | (b | c)),
        within(a | (b | c), a | b | c),
        0u32 | 0u32 == 0,
        0u32 | 0u32 | a == a,
        0u32 | a == a,
        a | 0u32 == a,
        a | b == 0 <==> a == 0 && b == 0,
        a == 0 ==> a & d == 0,
        a | a == a,
{
    assert(a & !(a | b) == 0 && b & !(a | b) == 0 && (a | b) & !(a | b) == 0 && (a | b | c) & !(a | b
        | c) == 0 && c & !(a | b | c) == 0 && a & !(a | b | c) == 0 && b & !(a | b | c) == 0 && a & !(
    a | (b | c)) == 0 && b & !(a | (b | c)) == 0 && c & !(a | (b | c)) == 0 && (a | (b | c)) & !(a | b
        | c) == 0 && 0u32 | 0u32 == 0 && 0u32 | 0u32 | a == a && 0u32 | a == a && a | 0u32 == a && (a
        | b == 0 <==> a == 0 && b == 0) && (a == 0 ==> a & d == 0) && a | a == a) by (bit_vector);
}

/// What is left waiting after a copied delivery: what waited before, what arrived
/// while the event was being copied, and, for a level-triggered interest, what the
/// adapter still found ready and the interest asks for. Nothing of it is lost and
/// nothing is added. A one-shot interest is disabled, every other stays enabled.
pub proof fn copied_deliveries_leave_what_is_still_ready<U, S>(
    core: &mut EpollCore<U, S>,
    delivery: DeliveryToken,
    still_ready: ReadyMask,
    outcome: DeliveryOutcome,
    result: Result<(), EpollError>,
    before: Entry<U, S>,
    after: Entry<U, S>,
)
    requires
        old(core).wf(),
        outcome == (DeliveryOutcome::Copied { still_ready }),
        call_ensures(EpollCore::<U, S>::finish_delivery, (core, delivery, outcome), result),
        old(core)@.entries[delivery.interest().slot() as int] == Some(before),
        final(core)@.entries[delivery.interest().slot() as int] == Some(after),
        old(core)@.in_flight(delivery),
    ensures
        ({
            let level = !before.interest.mode().edge;
            let again = wanted(still_ready, before.interest.interest());
            &&& within(
                after.ready.bits(),
                before.ready.bits() | before.during_delivery.bits() | if level {
                    again
                } else {
                    0u32
                },
            )
            &&& within(before.ready.bits(), after.ready.bits())
            &&& within(before.during_delivery.bits(), after.ready.bits())
            &&& level ==> within(again, after.ready.bits())
            &&& after.enabled <==> !before.interest.mode().one_shot
            &&& after.in_delivery is None
            &&& after.during_delivery.bits() == 0
            &&& after.interest == before.interest
            &&& result is Ok ==> (after.queued <==> after.enabled && after.ready.bits() != 0)
        }),
{
    old(core).wf_of_the_model();
    let r = before.ready.bits();
    let d = before.during_delivery.bits();
    let n = wanted(still_ready, before.interest.interest());
    masks(r, d, n, n);
    masks(r, d, 0, n);
    masks(r | d, 0, 0, n);
}

/// A level-triggered event that was copied, with nothing ready any more and no
/// wake in between, is not reported again: its interest is not queued, and a core
/// with nothing else to report has no event.
pub proof fn drained_levels_are_not_reported_again<U: Copy, S>(
    core: &mut EpollCore<U, S>,
    delivery: DeliveryToken,
    still_ready: ReadyMask,
    outcome: DeliveryOutcome,
    result: Result<(), EpollError>,
    queued: Result<bool, EpollError>,
    later: &mut EpollCore<U, S>,
    event: Result<Option<ReadyEvent<U>>, EpollError>,
)
    requires
        old(core).wf(),
        old(core)@.coherent(),
        old(core)@.in_flight(delivery),
        old(core)@.entry(delivery.interest()).during_delivery.bits() == 0,
        still_ready.bits() == 0,
        outcome == (DeliveryOutcome::Copied { still_ready }),
        call_ensures(EpollCore::<U, S>::finish_delivery, (core, delivery, outcome), result),
        call_ensures(EpollCore::<U, S>::is_queued, (final(core), delivery.interest()), queued),
        old(core)@.ready.len() == 0,
        *old(later) == *final(core),
        call_ensures(EpollCore::<U, S>::begin_delivery, (later,), event),
    ensures
        result is Ok,
        queued == Ok::<bool, EpollError>(false),
        event == Ok::<Option<ReadyEvent<U>>, EpollError>(None),
{
    old(core).wf_of_the_model();
    let entry = old(core)@.entry(delivery.interest());
    assert(old(core)@.entries[delivery.interest().slot() as int] is Some);
    masks(0, 0, 0, entry.interest.interest().bits() | 0x0038u32);
}

/// A level-triggered event that was copied and is still ready is reported again,
/// with all the wanted bits that are still ready.
pub proof fn ready_levels_are_reported_again<U: Copy, S>(
    core: &mut EpollCore<U, S>,
    delivery: DeliveryToken,
    still_ready: ReadyMask,
    outcome: DeliveryOutcome,
    result: Result<(), EpollError>,
    later: &mut EpollCore<U, S>,
    event: Result<Option<ReadyEvent<U>>, EpollError>,
)
    requires
        old(core).wf(),
        old(core)@.coherent(),
        old(core)@.in_flight(delivery),
        !old(core)@.entry(delivery.interest()).interest.mode().edge,
        !old(core)@.entry(delivery.interest()).interest.mode().one_shot,
        wanted(still_ready, old(core)@.entry(delivery.interest()).interest.interest()) != 0,
        outcome == (DeliveryOutcome::Copied { still_ready }),
        call_ensures(EpollCore::<U, S>::finish_delivery, (core, delivery, outcome), result),
        old(core)@.ready.len() == 0,
        old(core)@.next_delivery < 0xffff_ffff_ffff_ffffu64,
        *old(later) == *final(core),
        call_ensures(EpollCore::<U, S>::begin_delivery, (later,), event),
    ensures
        result is Ok,
        event matches Ok(Some(handed)) && handed.delivery.interest() == delivery.interest()
            && within(
            wanted(still_ready, old(core)@.entry(delivery.interest()).interest.interest()),
            handed.events.bits(),
        ) && handed.user_data == *old(core)@.entry(delivery.interest()).interest.user_data(),
{
    old(core).wf_of_the_model();
    let token = delivery.interest();
    let entry = old(core)@.entry(token);
    assert(old(core)@.entries[token.slot() as int] is Some);
    let r = entry.ready.bits();
    let d = entry.during_delivery.bits();
    let n = wanted(still_ready, entry.interest.interest());
    masks(r, d, n, n);
    masks(r | d, n, n, n);
    assert(final(core)@.ready[0] == token);
    assert(final(core)@.backs(token));
}

/// What a faulted copy leaves: the whole event, whatever waited before and
/// whatever arrived meanwhile, and nothing else. The interest stays enabled, also
/// a one-shot one, and is queued again.
pub proof fn faulted_deliveries_lose_nothing<U, S>(
    core: &mut EpollCore<U, S>,
    delivery: DeliveryToken,
    outcome: DeliveryOutcome,
    result: Result<(), EpollError>,
    before: Entry<U, S>,
    after: Entry<U, S>,
)
    requires
        old(core).wf(),
        outcome is Fault,
        call_ensures(EpollCore::<U, S>::finish_delivery, (core, delivery, outcome), result),
        old(core)@.entries[delivery.interest().slot() as int] == Some(before),
        final(core)@.entries[delivery.interest().slot() as int] == Some(after),
        old(core)@.in_flight(delivery),
    ensures
        within(delivery.events().bits(), after.ready.bits()),
        within(before.ready.bits(), after.ready.bits()),
        within(before.during_delivery.bits(), after.ready.bits()),
        within(
            after.ready.bits(),
            before.ready.bits() | delivery.events().bits() | before.during_delivery.bits(),
        ),
        after.enabled,
        after.in_delivery is None,
        after.interest == before.interest,
        result is Ok && delivery.events().bits() != 0 ==> after.queued,
{
    old(core).wf_of_the_model();
    let r = before.ready.bits();
    let e = delivery.events().bits();
    let d = before.during_delivery.bits();
    masks(r, e, d, 0);
    masks(e, d, 0, 0);
    masks(r, e | d, 0, 0);
}

/// What a suppressed delivery leaves: what arrived meanwhile and nothing of the
/// stale event. The interest stays enabled, also a one-shot one.
pub proof fn suppressed_deliveries_keep_only_new_wakes<U, S>(
    core: &mut EpollCore<U, S>,
    delivery: DeliveryToken,
    outcome: DeliveryOutcome,
    result: Result<(), EpollError>,
    before: Entry<U, S>,
    after: Entry<U, S>,
)
    requires
        old(core).wf(),
        outcome is Suppressed,
        call_ensures(EpollCore::<U, S>::finish_delivery, (core, delivery, outcome), result),
        old(core)@.entries[delivery.interest().slot() as int] == Some(before),
        final(core)@.entries[delivery.interest().slot() as int] == Some(after),
        old(core)@.in_flight(delivery),
    ensures
        after.ready.bits() == before.during_delivery.bits(),
        after.enabled,
        after.in_delivery is None,
        after.interest == before.interest,
        result is Ok ==> (after.queued <==> after.ready.bits() != 0),
{
    old(core).wf_of_the_model();
    masks(before.during_delivery.bits(), 0, 0, 0);
}

/// A delivery is settled once: settling it again is refused.
pub proof fn deliveries_are_settled_once<U, S>(
    core: &mut EpollCore<U, S>,
    delivery: DeliveryToken,
    outcome: DeliveryOutcome,
    first: Result<(), EpollError>,
    later: &mut EpollCore<U, S>,
    other: DeliveryOutcome,
    second: Result<(), EpollError>,
)
    requires
        old(core).wf(),
        call_ensures(EpollCore::<U, S>::finish_delivery, (core, delivery, outcome), first),
        *old(later) == *final(core),
        call_ensures(EpollCore::<U, S>::finish_delivery, (later, delivery, other), second),
    ensures
        second == Err::<(), EpollError>(EpollError::StaleToken),
        final(later)@ == old(later)@,
{
    old(core).wf_of_the_model();
    if old(core)@.in_flight(delivery) {
        assert(old(core)@.entries[delivery.interest().slot() as int] is Some);
    }
}

/// Settling a delivery changes its own interest only, and queues nothing else.
pub proof fn settling_touches_its_interest_only<U, S>(
    core: &mut EpollCore<U, S>,
    delivery: DeliveryToken,
    outcome: DeliveryOutcome,
    result: Result<(), EpollError>,
    slot: int,
    record: EpollToken,
)
    requires
        old(core).wf(),
        call_ensures(EpollCore::<U, S>::finish_delivery, (core, delivery, outcome), result),
        0 <= slot < old(core)@.entries.len(),
    ensures
        slot != delivery.interest().slot() ==> final(core)@.entries[slot] == old(
            core,
        )@.entries[slot],
        final(core)@.ready.contains(record) && !old(core)@.ready.contains(record) ==> record
            == delivery.interest(),
        old(core)@.ready.is_prefix_of(final(core)@.ready),
{
    old(core).wf_of_the_model();
    if final(core)@.ready.contains(record) && !old(core)@.ready.contains(record) {
        let k = choose|k: int| 0 <= k < final(core)@.ready.len() && final(core)@.ready[k] == record;
        if k < old(core)@.ready.len() {
            assert(old(core)@.ready[k] == record);
        }
    }
}

/// A wake is taken in where the interest is enabled and asks for it, and ignored
/// otherwise. Taken in, it waits for the next event, or, while an event is being
/// copied, for the end of that copy; and an idle interest is queued.
pub proof fn wakes_are_taken_in_when_wanted<U, S>(
    core: &mut EpollCore<U, S>,
    token: EpollToken,
    ready: ReadyMask,
    result: Result<NotifyOutcome, EpollError>,
    before: Entry<U, S>,
    after: Entry<U, S>,
)
    requires
        old(core).wf(),
        call_ensures(EpollCore::<U, S>::notify, (core, token, ready), result),
        old(core)@.resolves(token),
        old(core)@.entries[token.slot() as int] == Some(before),
        final(core)@.entries[token.slot() as int] == Some(after),
    ensures
        ({
            let news = wanted(ready, before.interest.interest());
            let taken = before.enabled && news != 0;
            &&& result == Ok::<NotifyOutcome, EpollError>(NotifyOutcome::Ignored) <==> !taken
            &&& !taken ==> after == before
            &&& taken && before.in_delivery is None ==> {
                &&& after.ready.bits() == before.ready.bits() | news
                &&& after.ready.bits() != 0
                &&& result is Ok ==> after.queued
            }
            &&& taken && before.in_delivery is Some ==> {
                &&& after.during_delivery.bits() == before.during_delivery.bits() | news
                &&& after.ready == before.ready
                &&& after.in_delivery == before.in_delivery
                &&& !after.queued
            }
            &&& result == Ok::<NotifyOutcome, EpollError>(NotifyOutcome::Enqueued) ==> !before.queued
                && after.queued
            &&& result == Ok::<NotifyOutcome, EpollError>(NotifyOutcome::Coalesced)
                ==> before.queued || before.in_delivery is Some
            &&& after.interest == before.interest
            &&& after.enabled == before.enabled
            &&& old(core)@.coherent() ==> result is Ok
        }),
{
    old(core).wf_of_the_model();
    let news = wanted(ready, before.interest.interest());
    masks(before.ready.bits(), news, 0, 0);
    assert(before.consistent());
}

/// A wake changes the interest it is for and no other.
pub proof fn wakes_touch_their_interest_only<U, S>(
    core: &mut EpollCore<U, S>,
    token: EpollToken,
    ready: ReadyMask,
    result: Result<NotifyOutcome, EpollError>,
    slot: int,
)
    requires
        old(core).wf(),
        call_ensures(EpollCore::<U, S>::notify, (core, token, ready), result),
        0 <= slot < old(core)@.entries.len(),
    ensures
        slot != token.slot() ==> final(core)@.entries[slot] == old(core)@.entries[slot],
        !old(core)@.resolves(token) ==> result == Err::<NotifyOutcome, EpollError>(
            EpollError::StaleToken,
        ) && final(core)@ == old(core)@,
        old(core)@.ready.is_prefix_of(final(core)@.ready),
{
    old(core).wf_of_the_model();
}

/// The oldest queued interest is handed out first, with all the readiness that
/// waits for it and its user data; it is then being delivered and holds nothing.
pub proof fn the_oldest_event_is_handed_out<U: Copy, S>(
    core: &mut EpollCore<U, S>,
    result: Result<Option<ReadyEvent<U>>, EpollError>,
    before: Entry<U, S>,
    after: Entry<U, S>,
)
    requires
        old(core).wf(),
        old(core)@.coherent(),
        call_ensures(EpollCore::<U, S>::begin_delivery, (core,), result),
        old(core)@.ready.len() > 0,
        old(core)@.next_delivery < 0xffff_ffff_ffff_ffffu64,
        old(core)@.entries[old(core)@.ready[0].slot() as int] == Some(before),
        final(core)@.entries[old(core)@.ready[0].slot() as int] == Some(after),
    ensures
        result matches Ok(Some(event)) && event.delivery.interest() == old(core)@.ready[0]
            && event.events.bits() == before.ready.bits() && event.delivery.events() == event.events
            && event.events.bits() != 0 && event.user_data == *before.interest.user_data()
            && after.in_delivery == Some(event.delivery.serial()) && !after.queued
            && after.ready.bits() == 0,
        before.in_delivery is None,
        after.interest == before.interest,
        after.enabled == before.enabled,
        final(core)@.ready == old(core)@.ready.skip(1),
{
    old(core).wf_of_the_model();
    assert(old(core)@.backs(old(core)@.ready[0]));
    assert(before.consistent());
}

/// A core with nothing queued has no event, and a core with something queued has
/// one, unless delivery numbers have run out.
pub proof fn events_come_from_queued_interests<U: Copy, S>(
    core: &mut EpollCore<U, S>,
    result: Result<Option<ReadyEvent<U>>, EpollError>,
)
    requires
        old(core).wf(),
        old(core)@.coherent(),
        call_ensures(EpollCore::<U, S>::begin_delivery, (core,), result),
    ensures
        result == Ok::<Option<ReadyEvent<U>>, EpollError>(None) <==> old(core)@.ready.len() == 0,
        result is Err ==> old(core)@.next_delivery == 0xffff_ffff_ffff_ffffu64 && final(core)@
            == old(core)@,
        result matches Ok(Some(event)) ==> old(core)@.resolves(event.delivery.interest()) && old(
            core,
        )@.entry(event.delivery.interest()).queued,
{
    old(core).wf_of_the_model();
    if old(core)@.ready.len() > 0 {
        assert(old(core)@.backs(old(core)@.ready[0]));
    }
}

/// Delivering in two steps hands out the same event as delivering in one, with the
/// caller's own data, and gives the data back where the candidate went stale.
pub proof fn prepared_deliveries_hand_out_the_candidate<U, S, V>(
    core: &mut EpollCore<U, S>,
    candidate: DeliveryPreparation,
    data: V,
    result: Result<ReadyEvent<V>, DeliveryCommitError<V>>,
)
    requires
        old(core).wf(),
        call_ensures(EpollCore::<U, S>::commit_delivery::<V>, (core, candidate, data), result),
    ensures
        result matches Ok(event) ==> {
            let token = candidate.interest();
            &&& event.user_data == data
            &&& event.delivery.interest() == token
            &&& old(core)@.resolves(token) && old(core)@.entry(token).queued
            &&& event.events == old(core)@.entry(token).ready
            &&& event.events == event.delivery.events()
            &&& final(core)@.entries[token.slot() as int] matches Some(after)
                && after.in_delivery == Some(event.delivery.serial()) && after.ready.bits() == 0
                && !after.queued
        },
        result matches Err(failure) ==> failure.user_data == data && final(core)@ == old(core)@,
        old(core)@.coherent() && old(core)@.ready.len() > 0 && old(core)@.ready[0]
            == candidate.interest() && old(core)@.next_delivery < 0xffff_ffff_ffff_ffffu64 ==> result
            is Ok,
{
    old(core).wf_of_the_model();
    if old(core)@.coherent() && old(core)@.ready.len() > 0 {
        assert(old(core)@.backs(old(core)@.ready[0]));
    }
}

/// Preparing a delivery picks the oldest queued interest and changes nothing.
pub proof fn candidates_are_the_oldest_events<U, S>(
    core: &mut EpollCore<U, S>,
    result: Result<Option<DeliveryPreparation>, EpollError>,
)
    requires
        old(core).wf(),
        old(core)@.coherent(),
        call_ensures(EpollCore::<U, S>::prepare_delivery, (core,), result),
    ensures
        final(core)@ == old(core)@,
        result is Ok,
        result->Ok_0 is None <==> old(core)@.ready.len() == 0,
        result->Ok_0 matches Some(candidate) ==> candidate.interest() == old(core)@.ready[0],
{
    old(core).wf_of_the_model();
    if old(core)@.ready.len() > 0 {
        assert(old(core)@.backs(old(core)@.ready[0]));
    }
}

/// A wake that an idle interest of an otherwise quiet core asks for is the next
/// event: the wanted bits, the interest and its user data.
pub proof fn wakes_become_events<U: Copy, S>(
    core: &mut EpollCore<U, S>,
    token: EpollToken,
    ready: ReadyMask,
    notified: Result<NotifyOutcome, EpollError>,
    later: &mut EpollCore<U, S>,
    result: Result<Option<ReadyEvent<U>>, EpollError>,
)
    requires
        old(core).wf(),
        old(core)@.coherent(),
        old(core)@.ready.len() == 0,
        old(core)@.next_delivery < 0xffff_ffff_ffff_ffffu64,
        old(core)@.resolves(token),
        old(core)@.entry(token).enabled,
        old(core)@.entry(token).in_delivery is None,
        wanted(ready, old(core)@.entry(token).interest.interest()) != 0,
        call_ensures(EpollCore::<U, S>::notify, (core, token, ready), notified),
        *old(later) == *final(core),
        call_ensures(EpollCore::<U, S>::begin_delivery, (later,), result),
    ensures
        notified == Ok::<NotifyOutcome, EpollError>(NotifyOutcome::Enqueued),
        result matches Ok(Some(event)) && event.delivery.interest() == token && event.events.bits()
            == wanted(ready, old(core)@.entry(token).interest.interest()) && event.user_data
            == *old(core)@.entry(token).interest.user_data(),
{
    old(core).wf_of_the_model();
    let entry = old(core)@.entry(token);
    assert(old(core)@.entries[token.slot() as int] == Some(entry));
    assert(!entry.pending());
    if entry.queued {
        assert(old(core)@.ready.contains(old(core)@.token_at(token.slot() as int)));
    }
    let news = wanted(ready, entry.interest.interest());
    masks(news, 0, 0, 0);
    assert(final(core)@.ready[0] == token);
    assert(final(core)@.backs(token));
}

/// A one-shot interest that was reported is silent until it is modified: every
/// wake is ignored.
pub proof fn reported_one_shots_are_silent<U, S>(
    core: &mut EpollCore<U, S>,
    delivery: DeliveryToken,
    still_ready: ReadyMask,
    outcome: DeliveryOutcome,
    settled: Result<(), EpollError>,
    later: &mut EpollCore<U, S>,
    ready: ReadyMask,
    result: Result<NotifyOutcome, EpollError>,
)
    requires
        old(core).wf(),
        old(core)@.in_flight(delivery),
        old(core)@.entry(delivery.interest()).interest.mode().one_shot,
        outcome == (DeliveryOutcome::Copied { still_ready }),
        call_ensures(EpollCore::<U, S>::finish_delivery, (core, delivery, outcome), settled),
        *old(later) == *final(core),
        call_ensures(
            EpollCore::<U, S>::notify,
            (later, delivery.interest(), ready),
            result,
        ),
    ensures
        settled is Ok,
        result == Ok::<NotifyOutcome, EpollError>(NotifyOutcome::Ignored),
        final(later)@ == final(core)@,
        final(core)@.ready == old(core)@.ready,
{
    old(core).wf_of_the_model();
    assert(old(core)@.entries[delivery.interest().slot() as int] is Some);
}

/// A published interest starts enabled and silent, under a token that only it
/// has. A second interest for the same file and descriptor is refused, and so is
/// an exclusive one; what is refused is handed back.
pub proof fn added_interests_start_silent<U, S>(
    core: &mut EpollCore<U, S>,
    interest: EpollInterest<U, S>,
    result: Result<EpollToken, EpollPublishError<U, S>>,
    slot: int,
)
    requires
        old(core).wf(),
        call_ensures(EpollCore::<U, S>::add, (core, interest), result),
        0 <= slot < old(core)@.entries.len(),
    ensures
        result matches Ok(token) ==> {
            &&& old(core)@.entries[token.slot() as int] is None
            &&& final(core)@.entries[token.slot() as int] matches Some(after)
            &&& after.interest == interest
            &&& after.enabled && !after.queued && after.in_delivery is None
            &&& after.ready.bits() == 0 && after.during_delivery.bits() == 0
            &&& after.generation == token.generation()
            &&& token.epoll() == old(core)@.id
            &&& slot != token.slot() ==> final(core)@.entries[slot] == old(core)@.entries[slot]
            &&& final(core)@.ready == old(core)@.ready
        },
        result matches Err(failure) ==> failure.interest == interest && final(core)@ == old(core)@,
        (old(core)@.entries[slot] matches Some(entry) && entry.interest.key() == interest.key())
            && !interest.mode().exclusive ==> result is Err && result->Err_0.error
            == EpollError::Duplicate,
        interest.mode().exclusive ==> result is Err && result->Err_0.error
            == EpollError::UnsupportedMode,
        !interest.mode().exclusive && old(core)@.entries[slot] is None && (forall|i: int|
            0 <= i < old(core)@.entries.len() && (#[trigger] old(core)@.entries[i]) is Some ==> old(
                core,
            )@.entries[i]->0.interest.key() != interest.key()) && old(core)@.next_generation
            < 0xffff_ffff_ffff_ffffu64 ==> result is Ok,
{
    old(core).wf_of_the_model();
}

/// A modified interest starts over, enabled and silent, under a new token: the old
/// token, its queued record and its delivery are stale, and the old interest is
/// handed back.
pub proof fn modified_interests_start_over<U, S>(
    core: &mut EpollCore<U, S>,
    token: EpollToken,
    replacement: EpollInterest<U, S>,
    result: Result<(EpollToken, EpollInterest<U, S>), EpollPublishError<U, S>>,
    slot: int,
)
    requires
        old(core).wf(),
        call_ensures(EpollCore::<U, S>::modify, (core, token, replacement), result),
        0 <= slot < old(core)@.entries.len(),
    ensures
        result matches Ok((renewed, previous)) ==> {
            &&& old(core)@.entries[token.slot() as int] matches Some(before)
            &&& before.generation == token.generation()
            &&& previous == before.interest
            &&& previous.key() == replacement.key()
            &&& renewed != token && renewed.slot() == token.slot()
            &&& final(core)@.entries[token.slot() as int] matches Some(after)
            &&& after.interest == replacement
            &&& after.enabled && !after.queued && after.in_delivery is None
            &&& after.ready.bits() == 0 && after.during_delivery.bits() == 0
            &&& after.generation == renewed.generation()
            &&& renewed.generation() != token.generation()
            &&& slot != token.slot() ==> final(core)@.entries[slot] == old(core)@.entries[slot]
            &&& !final(core)@.ready.contains(token)
        },
        result matches Err(failure) ==> failure.interest == replacement && final(core)@ == old(
            core,
        )@,
        old(core)@.resolves(token) && old(core)@.entry(token).interest.key() == replacement.key()
            && !replacement.mode().exclusive && old(core)@.next_generation
            < 0xffff_ffff_ffff_ffffu64 ==> result is Ok,
{
    old(core).wf_of_the_model();
    if result is Ok {
        crate::fd::epoll::without_keeps_the_rest(old(core)@.ready, token);
    }
}

/// A removed interest is handed back whole, and its token is stale.
pub proof fn removed_interests_are_handed_back<U, S>(
    core: &mut EpollCore<U, S>,
    token: EpollToken,
    result: Result<EpollInterest<U, S>, EpollError>,
    slot: int,
)
    requires
        old(core).wf(),
        call_ensures(EpollCore::<U, S>::remove, (core, token), result),
        0 <= slot < old(core)@.entries.len(),
    ensures
        result matches Ok(interest) ==> {
            &&& old(core)@.entries[token.slot() as int] matches Some(before)
            &&& before.generation == token.generation() && token.epoll() == old(core)@.id
            &&& interest == before.interest
            &&& final(core)@.entries[token.slot() as int] is None
            &&& !final(core)@.ready.contains(token)
        },
        slot != token.slot() ==> final(core)@.entries[slot] == old(core)@.entries[slot],
        result is Err <==> !old(core)@.resolves(token),
        result is Err ==> final(core)@ == old(core)@,
{
    old(core).wf_of_the_model();
    if result is Ok {
        crate::fd::epoll::without_keeps_the_rest(old(core)@.ready, token);
    }
}

/// A rescan examines as many slots as it may and has left, and queues every
/// enabled, waiting, idle interest among them; it touches no other slot.
pub proof fn rescans_queue_what_waits<U, S>(
    core: &mut EpollCore<U, S>,
    token: RescanToken,
    budget: usize,
    result: Result<RescanProgress, EpollError>,
    slot: int,
    before: Entry<U, S>,
)
    requires
        old(core).wf(),
        call_ensures(EpollCore::<U, S>::rescan_ready, (core, token, budget), result),
        result is Ok,
        old(core)@.rescan is Some,
        0 <= slot < old(core)@.entries.len(),
        old(core)@.entries[slot] == Some(before),
    ensures
        ({
            let report = result->Ok_0;
            let from = old(core)@.rescan->0.cursor;
            let left = old(core)@.entries.len() - from;
            let examined = from <= slot < from + report.scanned;
            &&& report.scanned == if budget < left {
                budget as int
            } else {
                left
            }
            &&& report.complete <==> report.scanned == left
            &&& report.complete <==> final(core)@.rescan is None
            &&& final(core)@.entries[slot] matches Some(after)
            &&& !examined ==> after == before
            &&& examined && before.enabled && before.ready.bits() != 0 && before.in_delivery is None
                ==> after.queued
            &&& after.ready == before.ready && after.enabled == before.enabled
            &&& after.interest == before.interest && after.in_delivery == before.in_delivery
        }),
{
    old(core).wf_of_the_model();
}

} // verus!
