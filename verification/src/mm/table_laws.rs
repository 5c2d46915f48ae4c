//! What the table of userfaultfd registrations is for, stated of the calls
//! themselves: who owns an address, what a batch publishes and removes, and what a
//! planned delta leads to.

use crate::checks::{first_error, first_error_none};
use crate::mm::delta::{
    planned_deltas_commit, ranges_meet, vma_check, vma_error, vmas_error,
};
use crate::mm::error::MmError;
use crate::mm::fault::FaultHandlerId;
use crate::mm::identity::{AddressSpaceId, MappingGeneration, MappingId};
use crate::mm::mapping::MappingSnapshot;
use crate::mm::pin_laws::{holds_address, share_an_address};
use crate::mm::range::PageRange;
use crate::mm::registration::{
    UffdRegistration, UffdRegistrationCommit, UffdRegistrationDeltaPlan, UffdRegistrationId,
    UffdRegistrationIntent, UffdRegistrationPlan, UffdRegistrationReplacement,
    UffdRegistrationRequest,
};
use crate::mm::table::{
    has_mapping, id_slots_are_unique, meets_range, of_mapping, ranges_overlap, selected, UffdRegistrationTable,
    UffdTableState,
};
use crate::mm::transaction::{
    batches_change_only_what_they_name, is_published, is_repeat, overlaps_earlier, publisher,
    publishers, publishes, replacement_requests,
};
use crate::mm::userfaultfd::UffdApiState;
use crate::slots::{first_free_exists, has_free, occupied};
use vstd::prelude::*;

verus! {

/// Looking up `id` answers `answer`.
pub open spec fn looks_up<const N: usize>(
    table: UffdRegistrationTable<N>,
    id: UffdRegistrationId,
    answer: Result<UffdRegistration, MmError>,
) -> bool {
    call_ensures(UffdRegistrationTable::<N>::get, (&table, id), answer)
}

proof fn overlapping_ranges_share(a: PageRange, b: PageRange)
    requires
        a.valid(),
        b.valid(),
    ensures
        ranges_overlap(a, b) <==> share_an_address(a, b),
{
    if ranges_overlap(a, b) {
        let low = if a.start() < b.start() {
            b.start() as int
        } else {
            a.start() as int
        };
        assert(holds_address(a, low) && holds_address(b, low));
    }
    if share_an_address(a, b) {
        let x = choose|x: int| #[trigger] holds_address(a, x) && holds_address(b, x);
    }
}

/// What a single registration is checked for.
proof fn one_request_is_checked(state: UffdTableState, request: UffdRegistrationRequest)
    requires
        state.wf(),
    ensures
        ({
            let none = Seq::<UffdRegistrationId>::empty();
            let refused = state.batch_error(none, seq![request], true);
            let conflict = first_error(
                state.slot_check(none, request),
                state.records.len() as int,
            );
            &&& conflict is Some ==> refused == conflict
            &&& conflict is None && is_published(state.records, request) ==> refused is None
            &&& conflict is None && !is_published(state.records, request) ==> refused == if occupied(
                state.records,
            ) >= state.records.len() {
                Some(MmError::CapacityExceeded)
            } else if state.next_id is None || state.revision == 0xffff_ffff_ffff_ffffu64 {
                Some(MmError::IdExhausted)
            } else {
                None
            }
        }),
{
    let none = Seq::<UffdRegistrationId>::empty();
    let batch = seq![request];
    assert(state.retained(none) =~= state.records);
    assert(batch[0] == request);
    assert(!is_repeat(batch, 0));
    assert(!overlaps_earlier(batch, 0));
    let checks = state.request_check(none, batch, true);
    assert(checks(0) == state.request_error(none, batch, true, 0));
    assert(state.batch_owner(none, batch) == batch[0].owner());
    reveal_with_fuel(first_error, 2);
    reveal_with_fuel(UffdTableState::fresh_count, 2);
    first_free_exists(state.records);
}

/// A registration that is granted is found under its identity, for exactly what
/// was asked, and every other registration is as before. Afterwards it alone owns
/// its addresses: no other live registration of the address space has one of them.
pub proof fn granted_registrations_own_their_addresses<const N: usize>(
    table: &mut UffdRegistrationTable<N>,
    api: &UffdApiState,
    request: UffdRegistrationRequest,
    result: Result<UffdRegistration, MmError>,
    found: Result<UffdRegistration, MmError>,
    other: UffdRegistrationId,
    before: Result<UffdRegistration, MmError>,
    after: Result<UffdRegistration, MmError>,
)
    requires
        old(table).wf(),
        request.valid(),
        call_ensures(UffdRegistrationTable::<N>::register, (table, api, request), result),
        result is Ok ==> looks_up(*final(table), result->Ok_0.id(), found),
        looks_up(*old(table), other, before),
        looks_up(*final(table), other, after),
    ensures
        result matches Ok(registration) ==> {
            &&& api.lifecycle() is Initialized
            &&& registration.request() == request
            &&& found == Ok::<UffdRegistration, MmError>(registration)
            &&& other != registration.id() ==> after == before
            &&& after is Ok && other != registration.id() && after->Ok_0.address_space()
                == request.address_space() ==> !share_an_address(
                after->Ok_0.range(),
                request.range(),
            )
        },
        result is Err ==> after == before,
{
    if result is Ok {
        let state = old(table)@;
        let next = final(table)@;
        let id = result->Ok_0.id();
        let i = next.slot_of(id);
        assert(next.id_at(id, i));
        if other != id {
            if state.is_live(other) {
                let k = state.slot_of(other);
                assert(state.id_at(other, k));
                if is_published(state.records, request) {
                } else {
                    first_free_exists(state.records);
                    assert(next.records[k] == state.records[k]);
                }
                assert(next.id_at(other, k));
                id_slots_are_unique(next, other, k);
            }
            if next.is_live(other) {
                let k = next.slot_of(other);
                assert(next.id_at(other, k));
                assert(state.id_at(other, k));
                id_slots_are_unique(state, other, k);
                assert(next.records[i] is Some && next.records[k] is Some);
                assert(next.records[k]->0.request().valid());
                overlapping_ranges_share(next.records[k]->0.range(), request.range());
            }
        }
    }
}

/// An interval that another handler owns, wholly or in part, is busy, and one that
/// the handler itself owns otherwise is an overlap. Registering the very same
/// again gives the registration that is there. A free interval is granted while
/// there is room, an identity and a revision left.
pub proof fn intervals_are_refused_for_their_owner<const N: usize>(
    table: &mut UffdRegistrationTable<N>,
    api: &UffdApiState,
    request: UffdRegistrationRequest,
    result: Result<UffdRegistration, MmError>,
    slot: int,
)
    requires
        old(table).wf(),
        request.valid(),
        call_ensures(UffdRegistrationTable::<N>::register, (table, api, request), result),
        0 <= slot < N,
    ensures
        !(api.lifecycle() is Initialized) ==> result == Err::<UffdRegistration, MmError>(
            MmError::UffdNotInitialized,
        ),
        result == Err::<UffdRegistration, MmError>(MmError::Busy) ==> exists|k: int|
            0 <= k < N && (#[trigger] old(table)@.records[k]) is Some && ({
                let live = old(table)@.records[k]->0;
                &&& live.address_space() == request.address_space()
                &&& live.handler() != request.handler()
                &&& share_an_address(live.range(), request.range())
            }),
        result == Err::<UffdRegistration, MmError>(MmError::UffdRegistrationOverlap) ==> exists|
            k: int,
        |
            0 <= k < N && (#[trigger] old(table)@.records[k]) is Some && ({
                let live = old(table)@.records[k]->0;
                &&& live.address_space() == request.address_space()
                &&& live.handler() == request.handler()
                &&& live.request() != request
                &&& share_an_address(live.range(), request.range())
            }),
        result is Ok ==> (old(table)@.records[slot] matches Some(live) ==> live.address_space()
            != request.address_space() || !share_an_address(live.range(), request.range())
            || live.request() == request),
        (old(table)@.records[slot] matches Some(live) && live.request() == request)
            && api.lifecycle() is Initialized ==> result == Ok::<UffdRegistration, MmError>(
            old(table)@.records[slot]->0,
        ) && final(table)@ == old(table)@,
        api.lifecycle() is Initialized && old(table)@.records[slot] is None && (forall|k: int|
            0 <= k < N && (#[trigger] old(table)@.records[k]) is Some ==> old(
                table,
            )@.records[k]->0.address_space() != request.address_space() || !share_an_address(
                old(table)@.records[k]->0.range(),
                request.range(),
            )) && old(table)@.next_id is Some && old(table)@.revision < 0xffff_ffff_ffff_ffffu64
            ==> result is Ok,
{
    let state = old(table)@;
    let none = Seq::<UffdRegistrationId>::empty();
    let check = state.slot_check(none, request);
    one_request_is_checked(state, request);
    first_error_none(check, N as int);
    first_free_exists(state.records);
    assert forall|k: int| 0 <= k < N && (#[trigger] state.records[k]) is Some implies (
    ranges_overlap(state.records[k]->0.range(), request.range()) <==> share_an_address(
        state.records[k]->0.range(),
        request.range(),
    )) && check(k) == state.slot_conflict(none, request, k) by {
        assert(state.records[k]->0.request().valid());
        overlapping_ranges_share(state.records[k]->0.range(), request.range());
    }
    if first_error(check, N as int) is Some {
        let k = failing_check(check, N as int);
        assert(check(k) == state.slot_conflict(none, request, k));
        assert(state.records[k] is Some);
    }
    if state.records[slot] is Some {
        assert(check(slot) == state.slot_conflict(none, request, slot));
        if state.records[slot]->0.request() == request {
            assert(publishes(state.records[slot], request));
            crate::mm::transaction::exact_registration_is_idempotent(state, request);
            let m = choose|i: int|
                0 <= i < state.records.len() && #[trigger] publishes(state.records[i], request);
            if m != slot {
                overlapping_ranges_share(request.range(), request.range());
                assert(holds_address(request.range(), request.range().start() as int));
                assert(ranges_overlap(request.range(), request.range()));
                if m < slot {
                    assert(crate::mm::table::are_disjoint(
                        state.records[m]->0,
                        state.records[slot]->0,
                    ));
                } else {
                    assert(crate::mm::table::are_disjoint(
                        state.records[slot]->0,
                        state.records[m]->0,
                    ));
                }
            }
        }
    } else {
        assert(has_free(state.records));
        assert forall|k: int| 0 <= k < N implies #[trigger] check(k) == state.slot_conflict(
            none,
            request,
            k,
        ) by {}
        if is_published(state.records, request) {
            let m = choose|i: int|
                0 <= i < state.records.len() && #[trigger] publishes(state.records[i], request);
            assert(state.records[m] is Some);
        }
    }
}

proof fn failing_check<E>(check: spec_fn(int) -> Option<E>, n: int) -> (k: int)
    requires
        first_error(check, n) is Some,
    ensures
        0 <= k < n,
        check(k) == first_error(check, n),
        check(k) is Some,
    decreases n,
{
    if first_error(check, n - 1) is Some {
        failing_check(check, n - 1)
    } else {
        n - 1
    }
}

/// Unregistering hands the registration back, makes its identity unknown, and
/// leaves every other registration alone.
pub proof fn unregistered_intervals_are_gone<const N: usize>(
    table: &mut UffdRegistrationTable<N>,
    id: UffdRegistrationId,
    result: Result<UffdRegistration, MmError>,
    other: UffdRegistrationId,
    before: Result<UffdRegistration, MmError>,
    after: Result<UffdRegistration, MmError>,
)
    requires
        old(table).wf(),
        call_ensures(UffdRegistrationTable::<N>::unregister, (table, id), result),
        looks_up(*old(table), other, before),
        looks_up(*final(table), other, after),
    ensures
        other == id ==> result == before && after is Err,
        other != id ==> after == before,
{
    let state = old(table)@;
    let next = final(table)@;
    if result is Ok {
        let slot = state.slot_of(id);
        assert(state.id_at(id, slot));
        if state.is_live(other) && other != id {
            let k = state.slot_of(other);
            assert(state.id_at(other, k));
            assert(next.id_at(other, k));
            id_slots_are_unique(next, other, k);
        }
        if next.is_live(other) {
            let k = next.slot_of(other);
            assert(next.id_at(other, k));
            assert(state.id_at(other, k));
            id_slots_are_unique(state, other, k);
        }
    }
}

/// Detaching a handler removes all it owns and nothing else.
pub proof fn detached_handlers_own_nothing<const N: usize>(
    table: &mut UffdRegistrationTable<N>,
    handler: FaultHandlerId,
    result: Result<usize, MmError>,
    i: int,
)
    requires
        old(table).wf(),
        call_ensures(UffdRegistrationTable::<N>::detach_handler, (table, handler), result),
        0 <= i < N,
    ensures
        result is Ok,
        match old(table)@.records[i] {
            Some(live) => final(table)@.records[i] == if live.handler() == handler {
                None
            } else {
                Some(live)
            },
            None => final(table)@.records[i] is None,
        },
        (old(table)@.records[i] matches Some(live) && live.handler() == handler) ==> result->Ok_0
            > 0,
{
    let owned = crate::mm::table::owned_by_handler(handler);
    crate::counting::count_bounds(old(table)@.records, owned);
    if owned(old(table)@.records[i]) {
        assert(crate::counting::count(old(table)@.records, owned) > 0);
    }
}

/// The registration that resolves a destination is the one of that address space
/// that holds all of it; there is none exactly when no registration does.
pub proof fn resolvers_find_the_holder<const N: usize>(
    table: UffdRegistrationTable<N>,
    space: AddressSpaceId,
    destination: PageRange,
    result: Result<UffdRegistration, MmError>,
    slot: int,
)
    requires
        table.wf(),
        call_ensures(
            UffdRegistrationTable::<N>::resolver_registration,
            (&table, space, destination),
            result,
        ),
        0 <= slot < N,
    ensures
        result matches Ok(holder) ==> {
            &&& holder.address_space() == space
            &&& holder.range().start() <= destination.start() && destination.end()
                <= holder.range().end()
            &&& table@.is_live(holder.id())
        },
        (table@.records[slot] matches Some(live) && live.address_space() == space
            && live.range().page_size() == destination.page_size() && live.range().start()
            <= destination.start() && destination.end() <= live.range().end()) ==> result
            == Ok::<UffdRegistration, MmError>(table@.records[slot]->0),
{
    if table@.records[slot] is Some {
        let live = table@.records[slot]->0;
        assert(table@.id_at(live.id(), slot));
        id_slots_are_unique(table@, live.id(), slot);
    }
}

/// The registrations that meet a range are those of the address space that have
/// one of its addresses, each once.
pub proof fn intersecting_registrations_are_listed<const N: usize>(
    table: UffdRegistrationTable<N>,
    space: AddressSpaceId,
    range: PageRange,
    listed: Vec<UffdRegistration>,
    slot: int,
    k: int,
)
    requires
        table.wf(),
        range.valid(),
        call_ensures(
            UffdRegistrationTable::<N>::intersecting,
            (&table, space, range),
            listed,
        ),
        0 <= slot < N,
    ensures
        (table@.records[slot] matches Some(live) && live.address_space() == space
            && share_an_address(live.range(), range)) ==> listed@.contains(
            table@.records[slot]->0,
        ),
        0 <= k < listed@.len() ==> listed@[k].address_space() == space && share_an_address(
            listed@[k].range(),
            range,
        ) && table@.is_live(listed@[k].id()),
{
    let p = meets_range(space, range);
    selections_hold_what_is_selected(table@.records, p);
    if table@.records[slot] is Some {
        let live = table@.records[slot]->0;
        assert(live.request().valid());
        overlapping_ranges_share(live.range(), range);
    }
    if 0 <= k < listed@.len() {
        let i = choose|i: int|
            0 <= i < table@.records.len() && (#[trigger] table@.records[i]) == Some(listed@[k])
                && p(table@.records[i]);
        assert(table@.records[i] is Some);
        assert(table@.records[i]->0.request().valid());
        overlapping_ranges_share(listed@[k].range(), range);
        assert(table@.id_at(listed@[k].id(), i));
    }
}

proof fn selections_hold_what_is_selected(
    records: Seq<Option<UffdRegistration>>,
    p: spec_fn(Option<UffdRegistration>) -> bool,
)
    ensures
        forall|i: int|
            0 <= i < records.len() && (#[trigger] records[i]) is Some && p(records[i]) ==> selected(
                records,
                p,
            ).contains(records[i]->0),
        forall|k: int|
            #![trigger selected(records, p)[k]]
            0 <= k < selected(records, p).len() ==> exists|i: int|
                0 <= i < records.len() && (#[trigger] records[i]) == Some(selected(records, p)[k])
                    && p(records[i]),
    decreases records.len(),
{
    if records.len() > 0 {
        let rest = records.drop_last();
        let last = records.len() - 1;
        selections_hold_what_is_selected(rest, p);
        let before = selected(rest, p);
        let now = selected(records, p);
        assert forall|i: int|
            0 <= i < records.len() && (#[trigger] records[i]) is Some && p(records[i]) implies now.contains(
        records[i]->0) by {
            if i < last {
                assert(rest[i] == records[i]);
                assert(before.contains(rest[i]->0));
                let k = choose|k: int| 0 <= k < before.len() && before[k] == records[i]->0;
                assert(now[k] == records[i]->0);
            } else {
                assert(now[now.len() - 1] == records[i]->0);
            }
        }
        assert forall|k: int| #![trigger now[k]] 0 <= k < now.len() implies exists|i: int|
            0 <= i < records.len() && (#[trigger] records[i]) == Some(now[k]) && p(records[i]) by {
            if k < before.len() {
                assert(now[k] == before[k]);
                let i = choose|i: int|
                    0 <= i < rest.len() && (#[trigger] rest[i]) == Some(before[k]) && p(rest[i]);
                assert(records[i] == Some(now[k]));
            } else {
                assert(records[last] == Some(now[k]));
            }
        }
    }
}

/// What a successful batch does: what it removes is gone, everything else stays,
/// every request is published, and what is handed out are live registrations of
/// the requests.
pub open spec fn batch_does<const N: usize>(
    before: UffdRegistrationTable<N>,
    after: UffdRegistrationTable<N>,
    removed: Seq<UffdRegistrationId>,
    requests: Seq<UffdRegistrationRequest>,
    visited: Seq<UffdRegistration>,
) -> bool {
    &&& forall|id: UffdRegistrationId| #[trigger] removed.contains(id) ==> !after@.is_live(id)
    &&& forall|id: UffdRegistrationId| #[trigger]
        before@.is_live(id) && !removed.contains(id) ==> after@.is_live(id)
            && after@.registration(id) == before@.registration(id)
    &&& forall|i: int|
        0 <= i < requests.len() ==> exists|k: int|
            0 <= k < after@.records.len() && (#[trigger] after@.records[k]) is Some
                && after@.records[k]->0.request() == #[trigger] requests[i]
    &&& forall|v: int|
        0 <= v < visited.len() ==> after@.is_live((#[trigger] visited[v]).id()) && requests.contains(
            visited[v].request(),
        )
}

proof fn committed_batches_do<const N: usize>(
    before: UffdRegistrationTable<N>,
    after: UffdRegistrationTable<N>,
    removed: Seq<UffdRegistrationId>,
    requests: Seq<UffdRegistrationRequest>,
    single_owner: bool,
)
    requires
        before.wf(),
        before@.batch_error(removed, requests, single_owner) is None,
        after@ == before@.committed(removed, requests),
        forall|i: int| 0 <= i < requests.len() ==> (#[trigger] requests[i]).valid(),
    ensures
        batch_does(
            before,
            after,
            removed,
            requests,
            publishers(after@.records, requests, requests.len() as int),
        ),
{
    assert forall|id: UffdRegistrationId|
        (#[trigger] removed.contains(id) ==> !after@.is_live(id)) by {
        batches_change_only_what_they_name(before@, removed, requests, single_owner, id);
    }
    assert forall|id: UffdRegistrationId| #[trigger]
        before@.is_live(id) && !removed.contains(id) implies after@.is_live(id)
        && after@.registration(id) == before@.registration(id) by {
        batches_change_only_what_they_name(before@, removed, requests, single_owner, id);
    }
    if requests.len() > 0 {
        let any = UffdRegistrationId(1);
        batches_change_only_what_they_name(before@, removed, requests, single_owner, any);
    }
    assert forall|i: int| 0 <= i < requests.len() implies exists|k: int|
        0 <= k < after@.records.len() && (#[trigger] after@.records[k]) is Some
            && after@.records[k]->0.request() == #[trigger] requests[i] by {
        assert(is_published(after@.records, requests[i]));
        let k = choose|k: int|
            0 <= k < after@.records.len() && #[trigger] publishes(after@.records[k], requests[i]);
        assert(after@.records[k] is Some);
    }
    visited_are_live(after@, requests, requests.len() as int);
}

proof fn visited_are_live(
    state: UffdTableState,
    requests: Seq<UffdRegistrationRequest>,
    n: int,
)
    requires
        0 <= n <= requests.len(),
        forall|i: int|
            0 <= i < requests.len() ==> is_published(state.records, #[trigger] requests[i]),
    ensures
        forall|v: int|
            0 <= v < publishers(state.records, requests, n).len() ==> state.is_live(
                (#[trigger] publishers(state.records, requests, n)[v]).id(),
            ) && requests.contains(publishers(state.records, requests, n)[v].request()),
    decreases n,
{
    if n > 0 {
        visited_are_live(state, requests, n - 1);
        let request = requests[n - 1];
        assert(is_published(state.records, request));
        let k = choose|i: int|
            0 <= i < state.records.len() && #[trigger] publishes(state.records[i], request);
        assert(publisher(state.records, request) == state.records[k]->0);
        assert(state.id_at(state.records[k]->0.id(), k));
        assert(requests.contains(request));
        let before = publishers(state.records, requests, n - 1);
        let now = publishers(state.records, requests, n);
        assert forall|v: int| 0 <= v < now.len() implies state.is_live((#[trigger] now[v]).id())
            && requests.contains(now[v].request()) by {
            if v < before.len() {
                assert(now[v] == before[v]);
            }
        }
    }
}

/// Registering a batch publishes every request and removes nothing.
pub proof fn registered_batches_are_published<const N: usize>(
    table: &mut UffdRegistrationTable<N>,
    api: &UffdApiState,
    requests: &[UffdRegistrationRequest],
    visit: &mut Vec<UffdRegistration>,
    result: Result<UffdRegistrationCommit, MmError>,
)
    requires
        old(table).wf(),
        old(visit)@.len() == 0,
        forall|i: int| 0 <= i < requests@.len() ==> (#[trigger] requests@[i]).valid(),
        call_ensures(
            UffdRegistrationTable::<N>::register_batch,
            (table, api, requests, visit),
            result,
        ),
    ensures
        result is Ok ==> api.lifecycle() is Initialized && batch_does(
            *old(table),
            *final(table),
            Seq::empty(),
            requests@,
            final(visit)@,
        ) && result->Ok_0.removed() == 0,
        result is Err ==> final(table)@ == old(table)@ && final(visit)@ == old(visit)@,
{
    if result is Ok {
        committed_batches_do(*old(table), *final(table), Seq::empty(), requests@, true);
        assert(final(visit)@ =~= publishers(
            final(table)@.records,
            requests@,
            requests@.len() as int,
        ));
    }
}

/// Replacing a batch removes what it names and publishes every replacement, and
/// nothing else changes.
pub proof fn replaced_batches_are_exchanged<const N: usize>(
    table: &mut UffdRegistrationTable<N>,
    api: &UffdApiState,
    removed: &[UffdRegistrationId],
    requests: &[UffdRegistrationRequest],
    visit: &mut Vec<UffdRegistration>,
    result: Result<UffdRegistrationCommit, MmError>,
)
    requires
        old(table).wf(),
        old(visit)@.len() == 0,
        forall|i: int| 0 <= i < requests@.len() ==> (#[trigger] requests@[i]).valid(),
        call_ensures(
            UffdRegistrationTable::<N>::replace_batch,
            (table, api, removed, requests, visit),
            result,
        ),
    ensures
        result is Ok ==> api.lifecycle() is Initialized && batch_does(
            *old(table),
            *final(table),
            removed@,
            requests@,
            final(visit)@,
        ) && result->Ok_0.removed() == removed@.len(),
        result is Err ==> final(table)@ == old(table)@ && final(visit)@ == old(visit)@,
{
    if result is Ok {
        committed_batches_do(*old(table), *final(table), removed@, requests@, true);
        assert(final(visit)@ =~= publishers(
            final(table)@.records,
            requests@,
            requests@.len() as int,
        ));
    }
}

/// A mapping change exchanges registrations in the same way, of whatever handlers,
/// and each replacement keeps the handler, address space and mode of what it
/// replaces.
pub proof fn mapping_changes_keep_their_handlers<const N: usize>(
    table: &mut UffdRegistrationTable<N>,
    removed: &[UffdRegistrationId],
    replacements: &[UffdRegistrationReplacement],
    visit: &mut Vec<UffdRegistration>,
    result: Result<UffdRegistrationCommit, MmError>,
    i: int,
)
    requires
        old(table).wf(),
        old(visit)@.len() == 0,
        forall|i: int| 0 <= i < replacements@.len() ==> (#[trigger] replacements@[i]).request().valid(),
        call_ensures(
            UffdRegistrationTable::<N>::mapping_replace_batch,
            (table, removed, replacements, visit),
            result,
        ),
        0 <= i < replacements@.len(),
    ensures
        result is Ok ==> {
            let source = old(table)@.registration(replacements@[i].source());
            &&& batch_does(
                *old(table),
                *final(table),
                removed@,
                replacement_requests(replacements@),
                final(visit)@,
            )
            &&& removed@.contains(replacements@[i].source())
            &&& source.handler() == replacements@[i].request().handler()
            &&& source.address_space() == replacements@[i].request().address_space()
            &&& source.mode() == replacements@[i].request().mode()
        },
        result is Err ==> final(table)@ == old(table)@ && final(visit)@ == old(visit)@,
{
    if result is Ok {
        let requests = replacement_requests(replacements@);
        assert forall|k: int| 0 <= k < requests.len() implies (#[trigger] requests[k]).valid() by {
            assert(requests[k] == replacements@[k].request());
        }
        committed_batches_do(*old(table), *final(table), removed@, requests, false);
        assert(final(visit)@ =~= publishers(
            final(table)@.records,
            requests,
            requests.len() as int,
        ));
        let check = old(table)@.inheritance_check(removed@, replacements@);
        first_error_none(check, replacements@.len() as int);
        assert(check(i) is None);
        assert(old(table)@.inheritance_error(removed@, replacements@, i) is None);
    }
}

/// What was planned is what is committed, as long as the table is as it was when
/// it was planned; on a table of another revision the plan is stale.
pub proof fn plans_commit_on_the_table_they_were_made_for<const N: usize>(
    table: &mut UffdRegistrationTable<N>,
    api: &UffdApiState,
    requests: &[UffdRegistrationRequest],
    planned: Result<UffdRegistrationPlan, MmError>,
    visit: &mut Vec<UffdRegistration>,
    committed: Result<UffdRegistrationCommit, MmError>,
    other: &mut UffdRegistrationTable<N>,
    unused: &mut Vec<UffdRegistration>,
    late: Result<UffdRegistrationCommit, MmError>,
)
    requires
        old(table).wf(),
        old(other).wf(),
        call_ensures(
            UffdRegistrationTable::<N>::preflight_register,
            (old(table), api, requests),
            planned,
        ),
        planned is Ok,
        call_ensures(
            UffdRegistrationTable::<N>::commit_register,
            (table, planned->Ok_0, requests, visit),
            committed,
        ),
        call_ensures(
            UffdRegistrationTable::<N>::commit_register,
            (other, planned->Ok_0, requests, unused),
            late,
        ),
    ensures
        api.lifecycle() is Initialized,
        committed is Ok,
        committed->Ok_0.published() == planned->Ok_0.published(),
        committed->Ok_0.reused() == planned->Ok_0.reused(),
        old(other)@.revision != old(table)@.revision ==> late == Err::<
            UffdRegistrationCommit,
            MmError,
        >(MmError::StaleGeneration) && final(other)@ == old(other)@,
{
}

/// A planned replacement commits on the table it was planned for.
pub proof fn planned_replacements_commit<const N: usize>(
    table: &mut UffdRegistrationTable<N>,
    api: &UffdApiState,
    removed: &[UffdRegistrationId],
    requests: &[UffdRegistrationRequest],
    planned: Result<UffdRegistrationPlan, MmError>,
    visit: &mut Vec<UffdRegistration>,
    committed: Result<UffdRegistrationCommit, MmError>,
)
    requires
        old(table).wf(),
        old(visit)@.len() == 0,
        forall|i: int| 0 <= i < requests@.len() ==> (#[trigger] requests@[i]).valid(),
        call_ensures(
            UffdRegistrationTable::<N>::preflight_replace,
            (old(table), api, removed, requests),
            planned,
        ),
        planned is Ok,
        call_ensures(
            UffdRegistrationTable::<N>::commit_replace,
            (table, planned->Ok_0, removed, requests, visit),
            committed,
        ),
    ensures
        removed@.len() > 0,
        committed is Ok,
        committed->Ok_0.removed() == removed@.len(),
        batch_does(*old(table), *final(table), removed@, requests@, final(visit)@),
{
    committed_batches_do(*old(table), *final(table), removed@, requests@, true);
    assert(final(visit)@ =~= publishers(
        final(table)@.records,
        requests@,
        requests@.len() as int,
    ));
}

/// A list of mappings is accepted exactly when it is not empty and its mappings
/// are anonymous private ones of one address space, in ascending order without
/// overlap, each with a part of the range.
pub proof fn accepted_mappings_are_in_order<const N: usize>(
    table: UffdRegistrationTable<N>,
    api: &UffdApiState,
    range: PageRange,
    vmas: &[MappingSnapshot],
    result: Result<AddressSpaceId, MmError>,
    i: int,
)
    requires
        range.valid(),
        forall|k: int| 0 <= k < vmas@.len() ==> (#[trigger] vmas@[k]).range().valid(),
        call_ensures(
            UffdRegistrationTable::<N>::validate_unregister_vmas,
            (&table, api, range, vmas),
            result,
        ),
    ensures
        result matches Ok(space) ==> {
            &&& api.lifecycle() is Initialized
            &&& vmas@.len() > 0
            &&& 0 <= i < vmas@.len() ==> {
                &&& vmas@[i].address_space() == space
                &&& vmas@[i].kind() is AnonymousPrivate
                &&& vmas@[i].range().page_size() == range.page_size()
                &&& share_an_address(vmas@[i].range(), range)
                &&& i > 0 ==> vmas@[i - 1].range().end() <= vmas@[i].range().start()
            }
        },
        api.lifecycle() is Initialized && vmas@.len() > 0 && (forall|k: int|
            0 <= k < vmas@.len() ==> {
                &&& (#[trigger] vmas@[k]).address_space() == vmas@[0].address_space()
                &&& vmas@[k].kind() is AnonymousPrivate
                &&& vmas@[k].range().page_size() == range.page_size()
                &&& share_an_address(vmas@[k].range(), range)
                &&& k > 0 ==> vmas@[k - 1].range().end() <= vmas@[k].range().start()
            }) ==> result is Ok,
{
    let n = vmas@.len() as int;
    let check = vma_check(range, vmas@);
    first_error_none(check, n);
    assert forall|k: int| 0 <= k < n implies (ranges_overlap(range, (#[trigger] vmas@[k]).range())
        <==> share_an_address(vmas@[k].range(), range)) && check(k) == vma_error(
        range,
        vmas@,
        k,
    ) by {
        overlapping_ranges_share(vmas@[k].range(), range);
    }
    if vmas_error(range, vmas@) is None && 0 <= i < n {
        assert(check(i) is None);
    }
    if vmas_error(range, vmas@) is Some && n > 0 {
        let k = failing_check(check, n);
        assert(vmas@[k].range().valid());
    }
}

/// A delta that was planned and replayed, and then committed as one exchange,
/// gives the handler every address of the range that lies in one of the mappings.
pub proof fn committed_deltas_own_the_range<const N: usize>(
    table: &mut UffdRegistrationTable<N>,
    api: &UffdApiState,
    intent: UffdRegistrationIntent,
    vmas: &[MappingSnapshot],
    plan: Result<UffdRegistrationDeltaPlan, MmError>,
    remove: &mut Vec<UffdRegistrationId>,
    replace: &mut Vec<UffdRegistrationRequest>,
    replayed: Result<(), MmError>,
    removed: &[UffdRegistrationId],
    requests: &[UffdRegistrationRequest],
    visit: &mut Vec<UffdRegistration>,
    result: Result<UffdRegistrationCommit, MmError>,
    v: int,
    address: int,
)
    requires
        old(table).wf(),
        intent.valid(),
        forall|k: int| 0 <= k < vmas@.len() ==> (#[trigger] vmas@[k]).range().valid(),
        call_ensures(
            UffdRegistrationTable::<N>::preflight_register_delta,
            (old(table), api, intent, vmas),
            plan,
        ),
        plan is Ok,
        old(remove)@.len() == 0,
        old(replace)@.len() == 0,
        call_ensures(
            UffdRegistrationTable::<N>::replay_register_delta,
            (old(table), plan->Ok_0, intent, vmas, remove, replace),
            replayed,
        ),
        removed@ == final(remove)@,
        requests@ == final(replace)@,
        removed@.len() > 0,
        call_ensures(
            UffdRegistrationTable::<N>::replace_batch,
            (table, api, removed, requests, visit),
            result,
        ),
        0 <= v < vmas@.len(),
        holds_address(vmas@[v].range(), address),
        holds_address(intent.range(), address),
    ensures
        replayed is Ok,
        plan->Ok_0.removed() == removed@.len(),
        plan->Ok_0.replacements() == requests@.len(),
        result is Ok,
        exists|k: int|
            0 <= k < N && (#[trigger] final(table)@.records[k]) is Some && final(
                table)@.records[k]->0.handler() == intent.handler() && final(
                table)@.records[k]->0.address_space() == vmas@[v].address_space() && holds_address(
                final(table)@.records[k]->0.range(),
                address,
            ),
{
    let state = old(table)@;
    let n = vmas@.len() as int;
    planned_deltas_commit(state, intent, vmas@);
    assert(removed@ =~= state.removed_ids(intent, vmas@, n));
    assert(requests@ =~= state.new_fragments(intent, vmas@, n));
    let deltas = state.delta_check(intent, vmas@);
    first_error_none(deltas, n);
    assert(deltas(v) is None);
    assert(state.delta(intent, vmas@[v]) is Ok);
    let delta = state.delta_of(intent, vmas@[v]);
    assert(is_published(final(table)@.records, delta.desired));
    let k = choose|k: int|
        0 <= k < final(table)@.records.len() && #[trigger] publishes(
            final(table)@.records[k],
            delta.desired,
        );
    let check = vma_check(intent.range(), vmas@);
    first_error_none(check, n);
    assert(check(v) is None);
    assert(ranges_meet(intent.range(), vmas@[v].range()));
    crate::mm::delta::intersections_and_hulls(intent.range(), vmas@[v].range(), address);
    assert(final(table)@.records[k] is Some);
}

/// A new table is empty, and finds nothing.
pub proof fn new_tables_are_empty<const N: usize>(
    first: u64,
    result: Result<UffdRegistrationTable<N>, MmError>,
    id: UffdRegistrationId,
    found: Result<UffdRegistration, MmError>,
)
    requires
        call_ensures(UffdRegistrationTable::<N>::new, (first,), result),
        result is Ok ==> looks_up(result->Ok_0, id, found),
    ensures
        result is Ok <==> first != 0,
        result is Ok ==> found == Err::<UffdRegistration, MmError>(
            MmError::UnknownUffdRegistration,
        ),
        result matches Ok(table) ==> table@.next_id == Some(first),
{
    if result is Ok {
        let state = result->Ok_0@;
        if state.is_live(id) {
            let i = state.slot_of(id);
            assert(state.id_at(id, i));
            assert(state.records[i] is None);
        }
    }
}

/// The registrations of one mapping have one generation, where they have any in
/// common; a mixture is reported as stale.
pub proof fn epochs_are_those_of_all_registrations<const N: usize>(
    table: UffdRegistrationTable<N>,
    space: AddressSpaceId,
    mapping: MappingId,
    result: Result<Option<MappingGeneration>, MmError>,
    slot: int,
    other: int,
)
    requires
        table.wf(),
        call_ensures(
            UffdRegistrationTable::<N>::epoch_for_mapping,
            (&table, space, mapping),
            result,
        ),
        0 <= slot < N,
        0 <= other < N,
    ensures
        ({
            let here = table@.records[slot] is Some && table@.records[slot]->0.address_space()
                == space && table@.records[slot]->0.mapping() == mapping;
            let there = table@.records[other] is Some && table@.records[other]->0.address_space()
                == space && table@.records[other]->0.mapping() == mapping;
            &&& here && result is Ok ==> result->Ok_0 == Some(
                table@.records[slot]->0.generation(),
            )
            &&& here && there && table@.records[slot]->0.generation()
                != table@.records[other]->0.generation() ==> result == Err::<
                Option<MappingGeneration>,
                MmError,
            >(MmError::StaleGeneration)
        }),
{
    if table@.records[slot] is Some && table@.records[slot]->0.address_space() == space
        && table@.records[slot]->0.mapping() == mapping {
        assert(of_mapping(table@.records[slot], space, mapping));
        assert(has_mapping(table@.records, space, mapping));
        if table@.records[other] is Some && table@.records[other]->0.address_space() == space
            && table@.records[other]->0.mapping() == mapping {
            assert(of_mapping(table@.records[other], space, mapping));
        }
    }
}

/// A planned mapping change commits on the table it was planned for, and removing
/// registrations with their mapping removes those and no others.
pub proof fn planned_mapping_changes_commit<const N: usize>(
    table: &mut UffdRegistrationTable<N>,
    removed: &[UffdRegistrationId],
    replacements: &[UffdRegistrationReplacement],
    planned: Result<UffdRegistrationPlan, MmError>,
    visit: &mut Vec<UffdRegistration>,
    committed: Result<UffdRegistrationCommit, MmError>,
)
    requires
        old(table).wf(),
        old(visit)@.len() == 0,
        forall|i: int| 0 <= i < replacements@.len() ==> (#[trigger] replacements@[i]).request().valid(),
        call_ensures(
            UffdRegistrationTable::<N>::preflight_mapping_replace,
            (old(table), removed, replacements),
            planned,
        ),
        planned is Ok,
        call_ensures(
            UffdRegistrationTable::<N>::commit_mapping_replace,
            (table, planned->Ok_0, removed, replacements, visit),
            committed,
        ),
    ensures
        committed is Ok,
        committed->Ok_0.removed() == removed@.len(),
        batch_does(
            *old(table),
            *final(table),
            removed@,
            replacement_requests(replacements@),
            final(visit)@,
        ),
{
    let requests = replacement_requests(replacements@);
    assert forall|k: int| 0 <= k < requests.len() implies (#[trigger] requests[k]).valid() by {
        assert(requests[k] == replacements@[k].request());
    }
    committed_batches_do(*old(table), *final(table), removed@, requests, false);
    assert(final(visit)@ =~= publishers(final(table)@.records, requests, requests.len() as int));
}

/// Removing registrations with their mapping removes those and no others.
pub proof fn planned_mapping_removals_commit<const N: usize>(
    table: &mut UffdRegistrationTable<N>,
    removed: &[UffdRegistrationId],
    planned: Result<UffdRegistrationPlan, MmError>,
    committed: Result<UffdRegistrationCommit, MmError>,
    slot: int,
)
    requires
        old(table).wf(),
        call_ensures(
            UffdRegistrationTable::<N>::preflight_mapping_remove,
            (old(table), removed),
            planned,
        ),
        planned is Ok,
        call_ensures(
            UffdRegistrationTable::<N>::commit_mapping_remove,
            (table, planned->Ok_0, removed),
            committed,
        ),
        0 <= slot < N,
    ensures
        committed is Ok && committed->Ok_0.removed() == removed@.len(),
        match old(table)@.records[slot] {
            Some(live) => final(table)@.records[slot] == if removed@.contains(live.id()) {
                None
            } else {
                Some(live)
            },
            None => final(table)@.records[slot] is None,
        },
{
}

/// A delta that needs no removal and was replayed is committed as a plain batch,
/// with the same effect: the handler owns every address of the range that lies in
/// one of the mappings.
pub proof fn registered_deltas_own_the_range<const N: usize>(
    table: &mut UffdRegistrationTable<N>,
    api: &UffdApiState,
    intent: UffdRegistrationIntent,
    vmas: &[MappingSnapshot],
    plan: Result<UffdRegistrationDeltaPlan, MmError>,
    remove: &mut Vec<UffdRegistrationId>,
    replace: &mut Vec<UffdRegistrationRequest>,
    replayed: Result<(), MmError>,
    requests: &[UffdRegistrationRequest],
    visit: &mut Vec<UffdRegistration>,
    result: Result<UffdRegistrationCommit, MmError>,
    v: int,
    address: int,
)
    requires
        old(table).wf(),
        intent.valid(),
        forall|k: int| 0 <= k < vmas@.len() ==> (#[trigger] vmas@[k]).range().valid(),
        call_ensures(
            UffdRegistrationTable::<N>::preflight_register_delta,
            (old(table), api, intent, vmas),
            plan,
        ),
        plan is Ok,
        old(remove)@.len() == 0,
        old(replace)@.len() == 0,
        call_ensures(
            UffdRegistrationTable::<N>::replay_register_delta,
            (old(table), plan->Ok_0, intent, vmas, remove, replace),
            replayed,
        ),
        final(remove)@.len() == 0,
        requests@ == final(replace)@,
        requests@.len() > 0,
        call_ensures(
            UffdRegistrationTable::<N>::register_batch,
            (table, api, requests, visit),
            result,
        ),
        0 <= v < vmas@.len(),
        holds_address(vmas@[v].range(), address),
        holds_address(intent.range(), address),
    ensures
        replayed is Ok,
        result is Ok,
        exists|k: int|
            0 <= k < N && (#[trigger] final(table)@.records[k]) is Some && final(
                table)@.records[k]->0.handler() == intent.handler() && final(
                table)@.records[k]->0.address_space() == vmas@[v].address_space() && holds_address(
                final(table)@.records[k]->0.range(),
                address,
            ),
{
    let state = old(table)@;
    let n = vmas@.len() as int;
    planned_deltas_commit(state, intent, vmas@);
    assert(Seq::<UffdRegistrationId>::empty() =~= state.removed_ids(intent, vmas@, n));
    assert(requests@ =~= state.new_fragments(intent, vmas@, n));
    let deltas = state.delta_check(intent, vmas@);
    first_error_none(deltas, n);
    assert(deltas(v) is None);
    assert(state.delta(intent, vmas@[v]) is Ok);
    let delta = state.delta_of(intent, vmas@[v]);
    assert(is_published(final(table)@.records, delta.desired));
    let k = choose|k: int|
        0 <= k < final(table)@.records.len() && #[trigger] publishes(
            final(table)@.records[k],
            delta.desired,
        );
    let check = vma_check(intent.range(), vmas@);
    first_error_none(check, n);
    assert(check(v) is None);
    assert(ranges_meet(intent.range(), vmas@[v].range()));
    crate::mm::delta::intersections_and_hulls(intent.range(), vmas@[v].range(), address);
    assert(final(table)@.records[k] is Some);
}

/// What a batch reports is what it did: afterwards there are as many registrations
/// as before, less the removed, with the published ones.
pub proof fn batches_report_what_they_did<const N: usize>(
    a: &mut UffdRegistrationTable<N>,
    api: &UffdApiState,
    requests: &[UffdRegistrationRequest],
    visit: &mut Vec<UffdRegistration>,
    registered: Result<UffdRegistrationCommit, MmError>,
    before: usize,
    after: usize,
    b: &mut UffdRegistrationTable<N>,
    removed: &[UffdRegistrationId],
    visit_too: &mut Vec<UffdRegistration>,
    replaced: Result<UffdRegistrationCommit, MmError>,
    full: usize,
    left: usize,
)
    requires
        old(a).wf(),
        old(b).wf(),
        forall|i: int| 0 <= i < requests@.len() ==> (#[trigger] requests@[i]).valid(),
        call_ensures(UffdRegistrationTable::<N>::len, (old(a),), before),
        call_ensures(
            UffdRegistrationTable::<N>::register_batch,
            (a, api, requests, visit),
            registered,
        ),
        call_ensures(UffdRegistrationTable::<N>::len, (final(a),), after),
        call_ensures(UffdRegistrationTable::<N>::len, (old(b),), full),
        call_ensures(
            UffdRegistrationTable::<N>::replace_batch,
            (b, api, removed, requests, visit_too),
            replaced,
        ),
        call_ensures(UffdRegistrationTable::<N>::len, (final(b),), left),
    ensures
        registered matches Ok(commit) ==> after == before + commit.published() && commit.removed()
            == 0,
        replaced matches Ok(commit) ==> left + commit.removed() == full + commit.published()
            && commit.removed() == removed@.len(),
{
    if registered is Ok {
        crate::mm::transaction::batches_are_counted(old(a)@, Seq::empty(), requests@, true);
    }
    if replaced is Ok {
        crate::mm::transaction::batches_are_counted(old(b)@, removed@, requests@, true);
    }
}

} // verus!
