//! What flags, masks, file descriptions and subscriptions are for, stated of the
//! calls themselves.

use crate::fd::epoll::{Entry, EpollCore, EpollError, ReadyEvent, RescanToken};
use crate::fd::ofd::{OfdOffsetError, OpenFileDescriptionState};
use crate::fd::subscription::{
    admitted, aggregate_of, cancelled_by, keep_first, updated_by, AggregateError, ArmError,
    CommitSubscriptionError, PrepareSubscriptionError, PreparedSubscription, RetainedRegistration,
    Subscription, WatchAccount, WatchCharge, WatchChargeError,
};
use crate::fd::table::{
    listing, observed, CloseBatch, DescriptorEntry, FdTable, FdTableError, Slot,
};
use crate::fd::table_laws::settled;
use crate::fd::types::{
    DescriptorFlags, EpollGraphId, EpollId, FdNumber, FdTableId, InterestMask, InterestMode, OfdId,
    ReadyMask,
};
use core::task::Waker;
use vstd::prelude::*;

verus! {

/// The readiness and interest bits are those of Linux's `poll`.
pub proof fn masks_are_the_poll_bits()
    ensures
        InterestMask::IN().bits() == 0x1 && ReadyMask::IN().bits() == 0x1,
        InterestMask::PRI().bits() == 0x2 && ReadyMask::PRI().bits() == 0x2,
        InterestMask::OUT().bits() == 0x4 && ReadyMask::OUT().bits() == 0x4,
        ReadyMask::ERROR().bits() == 0x8,
        ReadyMask::HANGUP().bits() == 0x10,
        ReadyMask::INVALID().bits() == 0x20,
        InterestMask::READ_NORMAL().bits() == 0x40 && ReadyMask::READ_NORMAL().bits() == 0x40,
        InterestMask::READ_BAND().bits() == 0x80 && ReadyMask::READ_BAND().bits() == 0x80,
        InterestMask::WRITE_NORMAL().bits() == 0x100 && ReadyMask::WRITE_NORMAL().bits() == 0x100,
        InterestMask::WRITE_BAND().bits() == 0x200 && ReadyMask::WRITE_BAND().bits() == 0x200,
        InterestMask::READ_HANGUP().bits() == 0x2000 && ReadyMask::READ_HANGUP().bits() == 0x2000,
        ReadyMask::EMPTY().bits() == 0,
        DescriptorFlags::EMPTY().bits() == 0,
        DescriptorFlags::CLOSE_ON_EXEC().bits() == 1,
{
}

/// An interest mask holds the eight requestable bits and no others.
pub proof fn interests_are_requestable_bits(bits: u32, result: Option<InterestMask>)
    requires
        call_ensures(InterestMask::from_bits, (bits,), result),
    ensures
        result is Some <==> bits & 0xffff_dc38u32 == 0,
        result matches Some(mask) ==> mask.bits() == bits,
{
    assert(!0x23c7u32 == 0xffff_dc38u32) by (bit_vector);
}

/// Of what is ready, what was asked for is delivered, and errors, hangups and
/// invalid descriptors always are; nothing else is, and nothing that is not ready.
pub proof fn delivery_filters_by_interest(
    ready: ReadyMask,
    interest: InterestMask,
    result: ReadyMask,
    bit: u32,
)
    requires
        call_ensures(ReadyMask::deliverable, (ready, interest), result),
    ensures
        within_bits(result.bits(), ready.bits()),
        bit == 0x8 || bit == 0x10 || bit == 0x20 ==> (result.bits() & bit == ready.bits() & bit),
        interest.bits() & bit == bit ==> (result.bits() & bit == ready.bits() & bit),
        interest.bits() & bit == 0 && bit & 0x38u32 == 0 ==> result.bits() & bit == 0,
{
    let r = ready.bits();
    let i = interest.bits();
    let d = r & (i | 0x38u32);
    assert(d & !r == 0 && (bit == 0x8 || bit == 0x10 || bit == 0x20 ==> d & bit == r & bit) && (i
        & bit == bit ==> d & bit == r & bit) && (i & bit == 0 && bit & 0x38u32 == 0 ==> d & bit
        == 0)) by (bit_vector)
        requires
            d == r & (i | 0x38u32),
    ;
}

/// Every bit of `a` is a bit of `b`.
pub open spec fn within_bits(a: u32, b: u32) -> bool {
    a & !b == 0
}

/// A plain interest is level-triggered, reported again and again, and shared.
pub proof fn plain_interests_are_level_triggered(result: InterestMode)
    requires
        call_ensures(<InterestMode as Default>::default, (), result),
    ensures
        !result.edge && !result.one_shot && !result.exclusive,
{
}

/// Input and output move the shared offset on by what was transferred, if it is
/// still where they began; a late commit, or one past the last offset, changes
/// nothing.
pub proof fn transfers_move_the_offset<A>(
    state: &mut OpenFileDescriptionState<A>,
    start: u64,
    transferred: usize,
    result: Result<u64, OfdOffsetError>,
)
    requires
        call_ensures(
            OpenFileDescriptionState::<A>::commit_io,
            (state, start, transferred),
            result,
        ),
    ensures
        result is Ok <==> old(state).offset() == start && start + transferred
            < 0x1_0000_0000_0000_0000,
        result matches Ok(next) ==> next == start + transferred && final(state).offset() == next,
        result is Err ==> final(state).offset() == old(state).offset(),
        result == Err::<u64, OfdOffsetError>(OfdOffsetError::Overflow) ==> old(state).offset()
            == start,
        final(state).id() == old(state).id(),
        final(state).status_flags() == old(state).status_flags(),
{
}

/// Seeking and changing status flags change just that.
pub proof fn seeks_and_flags_are_independent<A>(
    a: &mut OpenFileDescriptionState<A>,
    offset: u64,
    sought: (),
    b: &mut OpenFileDescriptionState<A>,
    flags: u32,
    changed: (),
)
    requires
        call_ensures(OpenFileDescriptionState::<A>::commit_seek, (a, offset), sought),
        call_ensures(OpenFileDescriptionState::<A>::commit_status_flags, (b, flags), changed),
    ensures
        final(a).offset() == offset && final(a).status_flags() == old(a).status_flags(),
        final(b).status_flags() == flags && final(b).offset() == old(b).offset(),
        final(a).id() == old(a).id() && final(b).id() == old(b).id(),
{
}

/// A charge is admitted exactly while the total stays within the limit.
pub proof fn charges_stay_within_the_limit(
    used: usize,
    amount: usize,
    limit: usize,
    result: Option<usize>,
)
    requires
        call_ensures(admitted, (used, amount, limit), result),
    ensures
        result is Some <==> used + amount <= limit,
        result matches Some(total) ==> total == used + amount,
{
}

/// A charge is for what was asked, on the account that was asked, and a charge
/// beyond the limit is refused whatever is in use.
pub proof fn charges_are_for_what_was_asked<'a>(
    account: &'a WatchAccount,
    amount: usize,
    result: Result<WatchCharge<'a>, WatchChargeError>,
)
    requires
        call_ensures(WatchAccount::try_charge, (account, amount), result),
    ensures
        result matches Ok(charge) ==> charge.amount() == amount && charge.account() == account
            && amount <= account.limit(),
        amount > account.limit() ==> result is Err,
        result is Err ==> result->Err_0 == WatchChargeError::Limit,
{
}

/// A committed subscription keeps the armed sources, charged one credit each; the
/// credits of sources that were not armed are given back.
pub proof fn committed_subscriptions_keep_their_sources<'a, R: RetainedRegistration>(
    prepared: PreparedSubscription<'a, R>,
    result: Result<Subscription<'a, R>, CommitSubscriptionError>,
)
    requires
        prepared.wf(),
        call_ensures(PreparedSubscription::<'a, R>::commit, (prepared,), result),
    ensures
        result matches Ok(subscription) && subscription.sources() == prepared.sources()
            && subscription.charged() == prepared.sources().len() && subscription.account()
            == prepared.account(),
        prepared.account().refunded(
            (prepared.maximum_sources() - prepared.sources().len()) as usize,
        ),
{
}

/// What is reported of several sources is the first failure, with its place, and
/// success exactly when every source succeeded.
pub proof fn the_first_failure_is_reported<E>(
    outcomes: Seq<Result<(), E>>,
    result: Result<(), AggregateError<E>>,
    i: int,
)
    requires
        aggregate_of(outcomes, result),
        0 <= i < outcomes.len(),
    ensures
        result is Ok ==> outcomes[i] is Ok,
        result matches Err(failure) ==> {
            &&& failure.index < outcomes.len()
            &&& outcomes[failure.index as int] == Err::<(), E>(failure.error)
            &&& i < failure.index ==> outcomes[i] is Ok
        },
{
}

/// The first failure is kept and later ones are dropped.
pub proof fn first_failures_are_kept<E>(
    first: Option<AggregateError<E>>,
    index: usize,
    outcome: Result<(), E>,
    result: Option<AggregateError<E>>,
)
    requires
        call_ensures(keep_first::<E>, (first, index, outcome), result),
    ensures
        first is Some ==> result == first,
        first is None ==> (result is Some <==> outcome is Err),
        first is None && result is Some ==> result->0.index == index && outcome == Err::<(), E>(
            result->0.error,
        ),
{
}

/// Walking a settled table lists its open descriptors in ascending order, each
/// with its entry, and none twice; its length is how many there are.
pub proof fn walks_list_the_open_descriptors<'a, D, const N: usize>(
    table: &'a FdTable<D, N>,
    listed: Vec<(FdNumber, &'a DescriptorEntry<D>)>,
    len: usize,
    empty: bool,
    i: int,
    k: int,
    m: int,
)
    requires
        table.wf(),
        settled(*table),
        call_ensures(FdTable::<D, N>::iter, (table,), listed),
        call_ensures(FdTable::<D, N>::len, (table,), len),
        call_ensures(FdTable::<D, N>::is_empty, (table,), empty),
    ensures
        listed@.len() == len,
        empty <==> len == 0,
        0 <= k < m < listed@.len() ==> listed@[k].0.get() < listed@[m].0.get(),
        0 <= k < listed@.len() ==> listed@[k].0.get() < N && (
        table@.slots[listed@[k].0.get() as int] matches Slot::Occupied { entry, .. } && entry
            == *listed@[k].1),
        0 <= i < N && table@.slots[i] is Occupied ==> exists|j: int|
            0 <= j < listed@.len() && (#[trigger] listed@[j]).0.get() == i,
{
    let slots = table@.slots;
    let seen = Seq::new(slots.len(), |i: int| slots[i] is Occupied);
    assert(observed(slots, seen));
    assert forall|other: Seq<bool>| #[trigger] observed(slots, other) implies other == seen by {
        crate::fd::table::settled_slots_look_the_same(slots, other, seen);
    }
    let expected = listing(slots, seen, N as nat);
    listings_ascend(slots, seen, N as nat);
    assert forall|j: int| 0 <= j < expected.len() implies (#[trigger] listed@[j]).0
        == expected[j].0 && *listed@[j].1 == expected[j].1 by {}
    if 0 <= i < N && slots[i] is Occupied {
        let j = choose|j: int| 0 <= j < expected.len() && (#[trigger] expected[j]).0.get() == i;
        assert(listed@[j].0.get() == i);
    }
    if len > 0 {
        assert(expected.len() > 0);
        assert(seen[expected[0].0.get() as int]);
    }
    if !empty {
        let j = choose|j: int| 0 <= j < seen.len() && #[trigger] seen[j];
        assert(slots[j] is Occupied);
        assert(expected.len() > 0);
    }
}

proof fn listings_ascend<D>(slots: Seq<Slot<D>>, seen: Seq<bool>, n: nat)
    requires
        n <= slots.len() <= 0x1_0000_0000,
        seen.len() == slots.len(),
        forall|i: int| 0 <= i < slots.len() ==> (#[trigger] seen[i] <==> slots[i] is Occupied),
    ensures
        listing(slots, seen, n).len() == crate::counting::count(
            seen.take(n as int),
            |visible: bool| visible,
        ),
        forall|j: int|
            #![trigger listing(slots, seen, n)[j]]
            0 <= j < listing(slots, seen, n).len() ==> {
                let fd = listing(slots, seen, n)[j].0.get() as int;
                &&& 0 <= fd < n
                &&& slots[fd] is Occupied
                &&& slots[fd].entry() == Some(listing(slots, seen, n)[j].1)
            },
        forall|j: int, l: int|
            #![trigger listing(slots, seen, n)[j], listing(slots, seen, n)[l]]
            0 <= j < l < listing(slots, seen, n).len() ==> listing(slots, seen, n)[j].0.get()
                < listing(slots, seen, n)[l].0.get(),
        forall|i: int|
            0 <= i < n && #[trigger] slots[i] is Occupied ==> exists|j: int|
                0 <= j < listing(slots, seen, n).len() && (#[trigger] listing(
                    slots,
                    seen,
                    n,
                )[j]).0.get() == i,
        n == slots.len() ==> seen.take(n as int) == seen,
    decreases n,
{
    if n == slots.len() {
        assert(seen.take(n as int) =~= seen);
    }
    if n == 0 {
        assert(seen.take(0) =~= Seq::<bool>::empty());
    } else {
        let before = listing(slots, seen, (n - 1) as nat);
        listings_ascend(slots, seen, (n - 1) as nat);
        crate::counting::count_take_next(seen, n - 1, |visible: bool| visible);
        let now = listing(slots, seen, n);
        assert forall|i: int| 0 <= i < n && #[trigger] slots[i] is Occupied implies exists|j: int|
            0 <= j < now.len() && (#[trigger] now[j]).0.get() == i by {
            if i < n - 1 {
                let j = choose|j: int| 0 <= j < before.len() && (#[trigger] before[j]).0.get() == i;
                assert(now[j] == before[j]);
            } else {
                assert(seen[n - 1]);
                assert(now[now.len() - 1].0.get() == i);
            }
        }
    }
}

/// Descriptor numbers are the integers that are not negative, and identities the
/// ones that are not zero.
pub proof fn numbers_and_identities_are_their_values(
    raw: i32,
    number: Option<FdNumber>,
    id: u64,
    table: Option<FdTableId>,
    ofd: Option<OfdId>,
    epoll: Option<EpollId>,
    graph: Option<EpollGraphId>,
)
    requires
        call_ensures(FdNumber::from_i32, (raw,), number),
        call_ensures(FdTableId::new, (id,), table),
        call_ensures(OfdId::new, (id,), ofd),
        call_ensures(EpollId::new, (id,), epoll),
        call_ensures(EpollGraphId::new, (id,), graph),
    ensures
        number is Some <==> raw >= 0,
        number matches Some(fd) ==> fd.get() == raw && fd.index() == raw,
        table is Some <==> id != 0,
        ofd is Some <==> id != 0,
        epoll is Some <==> id != 0,
        graph is Some <==> id != 0,
        id != 0 ==> table->0.get() == id && ofd->0.get() == id && epoll->0.get() == id
            && graph->0.get() == id,
{
}

/// Setting a flag adds it, clearing it takes it away, and other flags stay; a set
/// holds another exactly when it has all of its flags.
pub proof fn flags_are_set_and_cleared(
    flags: &mut DescriptorFlags,
    flag: DescriptorFlags,
    enabled: bool,
    result: (),
    other: DescriptorFlags,
    held: bool,
)
    requires
        call_ensures(DescriptorFlags::set, (flags, flag, enabled), result),
        call_ensures(DescriptorFlags::contains, (*final(flags), other), held),
    ensures
        held <==> final(flags).bits() & other.bits() == other.bits(),
        enabled && other == flag ==> held,
        !enabled && other == flag && flag.bits() != 0 ==> !held,
        other.bits() & flag.bits() == 0 ==> (held <==> old(flags).bits() & other.bits()
            == other.bits()),
{
    let a = old(flags).bits();
    let f = flag.bits();
    let o = other.bits();
    assert((a | f) & f == f && (f != 0 ==> (a & !f) & f != f) && (o & f == 0 ==> (((a | f) & o == o)
        == (a & o == o)) && (((a & !f) & o == o) == (a & o == o)))) by (bit_vector);
}

/// A new table is empty: every lookup fails, every number is free, and its numbers
/// are those below its size.
pub proof fn new_tables_are_empty<D, const N: usize>(
    id: FdTableId,
    result: Result<FdTable<D, N>, FdTableError>,
    fd: FdNumber,
    answer: Result<&DescriptorEntry<D>, FdTableError>,
    capacity: usize,
)
    requires
        call_ensures(FdTable::<D, N>::try_new, (id,), result),
        result is Ok,
        call_ensures(FdTable::<D, N>::get, (&result->Ok_0, fd), answer),
        call_ensures(FdTable::<D, N>::capacity, (&result->Ok_0,), capacity),
    ensures
        answer is Err,
        capacity == N,
        result->Ok_0@.id == id,
        fd.get() < N ==> result->Ok_0@.slots[fd.get() as int] is Vacant,
        N <= 0x1_0000_0000,
{
}

/// A close batch starts empty with the room that was asked for.
pub proof fn new_batches_have_their_room<D>(
    capacity: usize,
    result: Result<CloseBatch<D>, FdTableError>,
)
    requires
        call_ensures(CloseBatch::<D>::try_with_capacity, (capacity,), result),
    ensures
        result matches Ok(batch) ==> batch@.len() == 0 && batch.room() == capacity,
        result == Err::<CloseBatch<D>, FdTableError>(FdTableError::Unbounded) <==> capacity
            == usize::MAX,
{
}

/// A new epoll instance has no interest, nothing queued and no event.
pub proof fn new_epolls_are_quiet<U: Copy, S>(
    id: EpollId,
    capacity: usize,
    result: Result<EpollCore<U, S>, EpollError>,
    len: usize,
    empty: bool,
    queued: usize,
    rescan: bool,
    core: &mut EpollCore<U, S>,
    event: Result<Option<ReadyEvent<U>>, EpollError>,
)
    requires
        call_ensures(EpollCore::<U, S>::try_new, (id, capacity), result),
        result is Ok,
        call_ensures(EpollCore::<U, S>::len, (&result->Ok_0,), len),
        call_ensures(EpollCore::<U, S>::is_empty, (&result->Ok_0,), empty),
        call_ensures(EpollCore::<U, S>::ready_len, (&result->Ok_0,), queued),
        call_ensures(EpollCore::<U, S>::needs_rescan, (&result->Ok_0,), rescan),
        *old(core) == result->Ok_0,
        call_ensures(EpollCore::<U, S>::begin_delivery, (core,), event),
    ensures
        len == 0 && empty && queued == 0 && !rescan,
        event == Ok::<Option<ReadyEvent<U>>, EpollError>(None),
        result->Ok_0@.entries.len() == capacity && result->Ok_0@.id == id,
{
    crate::counting::count_bounds(
        result->Ok_0@.entries,
        |entry: Option<Entry<U, S>>| entry is Some,
    );
    nothing_is_counted(result->Ok_0@.entries);
}

proof fn nothing_is_counted<T>(slots: Seq<Option<T>>)
    requires
        forall|i: int| 0 <= i < slots.len() ==> (#[trigger] slots[i]) is None,
    ensures
        crate::counting::count(slots, |slot: Option<T>| slot is Some) == 0,
    decreases slots.len(),
{
    if slots.len() > 0 {
        let rest = slots.drop_last();
        assert forall|i: int| 0 <= i < rest.len() implies (#[trigger] rest[i]) is None by {
            assert(rest[i] == slots[i]);
        }
        nothing_is_counted(rest);
        let last = slots.len() - 1;
        assert(slots[last] is None);
    }
}

/// A rescan is owed exactly when there is a token for one, and the token is of
/// this instance.
pub proof fn rescans_have_a_token<U, S>(
    core: EpollCore<U, S>,
    owed: bool,
    token: Option<RescanToken>,
)
    requires
        call_ensures(EpollCore::<U, S>::needs_rescan, (&core,), owed),
        call_ensures(EpollCore::<U, S>::rescan_token, (&core,), token),
    ensures
        owed <==> token is Some,
        token matches Some(current) ==> current.epoll() == core@.id && core@.rescan is Some
            && current.generation() == core@.rescan->0.generation,
{
}

/// A watch account has the limit it was made with and starts unused; a subscription
/// is prepared for as many sources as were asked for, within that limit.
pub proof fn accounts_bound_their_subscriptions<'a, R: RetainedRegistration>(
    limit: usize,
    made: Result<WatchAccount, WatchChargeError>,
    account: &'a WatchAccount,
    sources: usize,
    prepared: Result<PreparedSubscription<'a, R>, PrepareSubscriptionError>,
)
    requires
        call_ensures(WatchAccount::try_new, (limit,), made),
        call_ensures(PreparedSubscription::<'a, R>::try_new, (account, sources), prepared),
    ensures
        made is Ok <==> limit < usize::MAX,
        made matches Ok(fresh) ==> fresh.limit() == limit && fresh.starts_unused(),
        prepared matches Ok(ready) ==> {
            &&& ready.maximum_sources() == sources
            &&& ready.sources().len() == 0
            &&& ready.account() == account
            &&& sources <= account.limit()
        },
        sources > account.limit() ==> prepared is Err && prepared->Err_0
            == PrepareSubscriptionError::Quota,
{
}

/// Updating hands the waker to every source and keeps them all; cancelling cancels
/// every source and gives back their credits. Success is reported only where every
/// source succeeded.
pub proof fn subscriptions_reach_every_source<'a, R: RetainedRegistration>(
    subscription: &mut Subscription<'a, R>,
    waker: &Waker,
    updated: Result<(), AggregateError<R::UpdateError>>,
    ending: Subscription<'a, R>,
    cancelled: Result<(), AggregateError<R::CancelError>>,
    i: int,
)
    requires
        old(subscription).wf(),
        call_ensures(Subscription::<'a, R>::update_all, (subscription, waker), updated),
        call_ensures(Subscription::<'a, R>::cancel, (ending,), cancelled),
        0 <= i < old(subscription).sources().len(),
        0 <= i < ending.sources().len(),
    ensures
        final(subscription).sources().len() == old(subscription).sources().len(),
        final(subscription).account() == old(subscription).account(),
        exists|outcome: Result<(), R::UpdateError>| #[trigger]
            updated_by(old(subscription).sources()[i], waker, outcome) && (updated is Ok ==> outcome
                is Ok),
        updated matches Err(failure) ==> failure.index < old(subscription).sources().len()
            && updated_by(
            old(subscription).sources()[failure.index as int],
            waker,
            Err::<(), R::UpdateError>(failure.error),
        ),
        exists|outcome: Result<(), R::CancelError>| #[trigger]
            cancelled_by::<R>(ending.sources()[i], outcome) && (cancelled is Ok ==> outcome is Ok),
        cancelled matches Err(failure) ==> failure.index < ending.sources().len()
            && cancelled_by::<R>(
            ending.sources()[failure.index as int],
            Err::<(), R::CancelError>(failure.error),
        ),
        ending.account().refunded(ending.charged()),
{
    let outcomes = choose|outcomes: Seq<Result<(), R::UpdateError>>|
        outcomes.len() == old(subscription).sources().len() && #[trigger] aggregate_of(
            outcomes,
            updated,
        ) && forall|i: int|
            0 <= i < outcomes.len() ==> updated_by(
                old(subscription).sources()[i],
                waker,
                #[trigger] outcomes[i],
            );
    assert(updated_by(old(subscription).sources()[i], waker, outcomes[i]));
    if let Err(failure) = updated {
        assert(outcomes[failure.index as int] == Err::<(), R::UpdateError>(failure.error));
    }
    let ends = choose|ends: Seq<Result<(), R::CancelError>>|
        ends.len() == ending.sources().len() && #[trigger] aggregate_of(ends, cancelled) && forall|
            i: int,
        |
            0 <= i < ends.len() ==> cancelled_by::<R>(ending.sources()[i], #[trigger] ends[i]);
    assert(cancelled_by::<R>(ending.sources()[i], ends[i]));
    if let Err(failure) = cancelled {
        assert(ends[failure.index as int] == Err::<(), R::CancelError>(failure.error));
    }
}

/// Arming adds the source that was armed behind the others, and nothing where the
/// source fails; beyond the declared sources nothing is armed.
pub proof fn armed_sources_are_kept_in_order<'a, R: RetainedRegistration, E, F: FnOnce() -> Result<
    R,
    E,
>>(
    prepared: &mut PreparedSubscription<'a, R>,
    arm: F,
    result: Result<(), ArmError<E>>,
)
    requires
        old(prepared).wf(),
        call_ensures(PreparedSubscription::<'a, R>::arm_with::<E>, (prepared, arm), result),
    ensures
        result is Ok ==> {
            &&& final(prepared).sources().len() == old(prepared).sources().len() + 1
            &&& old(prepared).sources().is_prefix_of(final(prepared).sources())
            &&& call_ensures(arm, (), Ok::<R, E>(final(prepared).sources().last()))
            &&& old(prepared).sources().len() < old(prepared).maximum_sources()
        },
        result is Err ==> final(prepared).sources() == old(prepared).sources(),
        old(prepared).sources().len() >= old(prepared).maximum_sources() ==> result is Err
            && result->Err_0 is Capacity,
        result matches Err(ArmError::Source(failure)) ==> failure.index == old(
            prepared,
        ).sources().len() && call_ensures(arm, (), Err::<R, E>(failure.error)),
        final(prepared).maximum_sources() == old(prepared).maximum_sources(),
{
}

} // verus!
