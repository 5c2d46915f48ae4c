use crate::checks::{first_error, first_error_none, first_error_stops};
use crate::counting::count_update;
use crate::mm::error::MmError;
use crate::mm::pin::{advances, following, following_number, issued};
use crate::mm::registration::{
    UffdOwner, UffdRegistration, UffdRegistrationCommit, UffdRegistrationId, UffdRegistrationPlan,
    UffdRegistrationReplacement, UffdRegistrationRequest,
};
use crate::mm::table::{
    after_ids, are_disjoint, do_ranges_overlap, emptied, id_slots_are_unique, ids_left,
    ranges_overlap, UffdRegistrationTable, UffdTableState,
};
use crate::mm::userfaultfd::UffdApiState;
use crate::slots::{
    find_free, first_free, first_free_exists, has_free, is_first_free, is_full, occupied,
};
use vstd::prelude::*;

verus! {

/// The request repeats an earlier one of the batch.
pub open spec fn is_repeat(requests: Seq<UffdRegistrationRequest>, i: int) -> bool {
    exists|j: int| 0 <= j < i && #[trigger] requests[j] == requests[i]
}

/// The request overlaps a different earlier one of the batch.
pub open spec fn overlaps_earlier(requests: Seq<UffdRegistrationRequest>, i: int) -> bool {
    exists|j: int|
        0 <= j < i && #[trigger] requests[j] != requests[i] && ranges_overlap(
            requests[j].range(),
            requests[i].range(),
        )
}

/// A slot publishes the request.
pub open spec fn publishes(
    slot: Option<UffdRegistration>,
    request: UffdRegistrationRequest,
) -> bool {
    slot is Some && slot->0.request() == request
}

/// Some slot publishes the request.
pub open spec fn is_published(
    records: Seq<Option<UffdRegistration>>,
    request: UffdRegistrationRequest,
) -> bool {
    exists|i: int| 0 <= i < records.len() && #[trigger] publishes(records[i], request)
}

/// The registration that publishes the request.
pub open spec fn publisher(
    records: Seq<Option<UffdRegistration>>,
    request: UffdRegistrationRequest,
) -> UffdRegistration {
    records[choose|i: int| 0 <= i < records.len() && #[trigger] publishes(records[i], request)]->0
}

/// Tells the slots that a batch removes.
pub open spec fn is_removed(removed: Seq<UffdRegistrationId>) -> spec_fn(
    Option<UffdRegistration>,
) -> bool {
    |slot: Option<UffdRegistration>|
        slot matches Some(registration) && removed.contains(registration.id())
}

/// Slots and next identity after the first `n` requests were published: a
/// request that is repeated or already published changes nothing, every other
/// one takes the first free slot and the next identity.
pub open(crate) spec fn publication(
    records: Seq<Option<UffdRegistration>>,
    next: Option<u64>,
    requests: Seq<UffdRegistrationRequest>,
    n: int,
) -> (Seq<Option<UffdRegistration>>, Option<u64>)
    decreases n,
{
    if n <= 0 {
        (records, next)
    } else {
        let (slots, id) = publication(records, next, requests, n - 1);
        let request = requests[n - 1];
        if is_repeat(requests, n - 1) || is_published(slots, request) {
            (slots, id)
        } else {
            (
                slots.update(
                    first_free(slots),
                    Some(UffdRegistration { id: UffdRegistrationId(id->0), request }),
                ),
                following(id->0),
            )
        }
    }
}

/// The registrations of the first `n` requests, each distinct request once.
pub open spec fn publishers(
    records: Seq<Option<UffdRegistration>>,
    requests: Seq<UffdRegistrationRequest>,
    n: int,
) -> Seq<UffdRegistration>
    decreases n,
{
    if n <= 0 {
        Seq::empty()
    } else if is_repeat(requests, n - 1) {
        publishers(records, requests, n - 1)
    } else {
        publishers(records, requests, n - 1).push(publisher(records, requests[n - 1]))
    }
}

/// The requests of a batch of replacements.
pub open spec fn replacement_requests(replacements: Seq<UffdRegistrationReplacement>) -> Seq<
    UffdRegistrationRequest,
> {
    replacements.map_values(|r: UffdRegistrationReplacement| r.request())
}

impl UffdTableState {
    /// Why the `i`th removal of a batch is refused.
    pub open spec fn removal_error(
        self,
        removed: Seq<UffdRegistrationId>,
        single_owner: bool,
        i: int,
    ) -> Option<MmError> {
        if removed.take(i).contains(removed[i]) {
            Some(MmError::InvalidUffdRegistrationBatch)
        } else if !self.is_live(removed[i]) {
            Some(MmError::UnknownUffdRegistration)
        } else if single_owner && self.registration(removed[i]).request().owner()
            != self.registration(removed[0]).request().owner() {
            Some(MmError::InvalidUffdRegistrationBatch)
        } else {
            None
        }
    }

    /// The owner that a single-owner batch belongs to.
    pub open spec fn batch_owner(
        self,
        removed: Seq<UffdRegistrationId>,
        requests: Seq<UffdRegistrationRequest>,
    ) -> UffdOwner {
        if removed.len() > 0 {
            self.registration(removed[0]).request().owner()
        } else {
            requests[0].owner()
        }
    }

    /// Why the record in slot `k`, unless removed, excludes the request.
    pub open spec fn slot_conflict(
        self,
        removed: Seq<UffdRegistrationId>,
        request: UffdRegistrationRequest,
        k: int,
    ) -> Option<MmError> {
        match self.records[k] {
            None => None,
            Some(live) => if removed.contains(live.id()) || live.address_space()
                != request.address_space() || !ranges_overlap(live.range(), request.range()) {
                None
            } else if live.handler() != request.handler() {
                Some(MmError::Busy)
            } else if live.request() != request {
                Some(MmError::UffdRegistrationOverlap)
            } else {
                None
            },
        }
    }

    /// Checks one slot after the other.
    pub open spec fn slot_check(
        self,
        removed: Seq<UffdRegistrationId>,
        request: UffdRegistrationRequest,
    ) -> spec_fn(int) -> Option<MmError> {
        |k: int| self.slot_conflict(removed, request, k)
    }

    /// Why the `i`th request of a batch is refused.
    pub open spec fn request_error(
        self,
        removed: Seq<UffdRegistrationId>,
        requests: Seq<UffdRegistrationRequest>,
        single_owner: bool,
        i: int,
    ) -> Option<MmError> {
        if single_owner && requests[i].owner() != self.batch_owner(removed, requests) {
            Some(MmError::InvalidUffdRegistrationBatch)
        } else if overlaps_earlier(requests, i) {
            Some(MmError::InvalidUffdRegistrationBatch)
        } else if is_repeat(requests, i) {
            None
        } else {
            first_error(self.slot_check(removed, requests[i]), self.records.len() as int)
        }
    }

    /// Checks one removal after the other.
    pub open spec fn removal_check(
        self,
        removed: Seq<UffdRegistrationId>,
        single_owner: bool,
    ) -> spec_fn(int) -> Option<MmError> {
        |i: int| self.removal_error(removed, single_owner, i)
    }

    /// Checks one request after the other.
    pub open spec fn request_check(
        self,
        removed: Seq<UffdRegistrationId>,
        requests: Seq<UffdRegistrationRequest>,
        single_owner: bool,
    ) -> spec_fn(int) -> Option<MmError> {
        |i: int| self.request_error(removed, requests, single_owner, i)
    }

    /// The slots that a batch leaves before it publishes anything.
    pub open spec fn retained(self, removed: Seq<UffdRegistrationId>) -> Seq<
        Option<UffdRegistration>,
    > {
        emptied(self.records, is_removed(removed))
    }

    /// The `i`th request needs a new registration.
    pub open spec fn is_fresh(
        self,
        removed: Seq<UffdRegistrationId>,
        requests: Seq<UffdRegistrationRequest>,
        i: int,
    ) -> bool {
        !is_repeat(requests, i) && !is_published(self.retained(removed), requests[i])
    }

    /// Number of new registrations among the first `n` requests.
    pub open spec fn fresh_count(
        self,
        removed: Seq<UffdRegistrationId>,
        requests: Seq<UffdRegistrationRequest>,
        n: int,
    ) -> nat
        decreases n,
    {
        if n <= 0 {
            0
        } else {
            self.fresh_count(removed, requests, n - 1) + if self.is_fresh(
                removed,
                requests,
                n - 1,
            ) {
                1nat
            } else {
                0
            }
        }
    }

    /// Number of reused registrations among the first `n` requests.
    pub open spec fn reused_count(
        self,
        removed: Seq<UffdRegistrationId>,
        requests: Seq<UffdRegistrationRequest>,
        n: int,
    ) -> nat
        decreases n,
    {
        if n <= 0 {
            0
        } else {
            self.reused_count(removed, requests, n - 1) + if !is_repeat(requests, n - 1)
                && is_published(self.retained(removed), requests[n - 1]) {
                1nat
            } else {
                0
            }
        }
    }

    /// Why a batch is refused.
    pub open spec fn batch_error(
        self,
        removed: Seq<UffdRegistrationId>,
        requests: Seq<UffdRegistrationRequest>,
        single_owner: bool,
    ) -> Option<MmError> {
        let removal = first_error(self.removal_check(removed, single_owner), removed.len() as int);
        let request = first_error(
            self.request_check(removed, requests, single_owner),
            requests.len() as int,
        );
        let fresh = self.fresh_count(removed, requests, requests.len() as int);
        if removed.len() == 0 && requests.len() == 0 {
            Some(MmError::ZeroLength)
        } else if removal is Some {
            removal
        } else if request is Some {
            request
        } else if fresh + occupied(self.records) > self.records.len() + removed.len() {
            Some(MmError::CapacityExceeded)
        } else if !ids_left(self.next_id, fresh) || (fresh != 0 && self.revision == u64::MAX) {
            Some(MmError::IdExhausted)
        } else {
            None
        }
    }

    /// `plan` is what an accepted batch is planned as.
    pub open spec fn is_plan(
        self,
        removed: Seq<UffdRegistrationId>,
        requests: Seq<UffdRegistrationRequest>,
        plan: UffdRegistrationPlan,
    ) -> bool {
        let n = requests.len() as int;
        &&& plan.revision() == self.revision
        &&& plan.removed() == removed.len()
        &&& plan.published() == self.fresh_count(removed, requests, n)
        &&& plan.reused() == self.reused_count(removed, requests, n)
        &&& plan.next_id_after() == after_ids(
            self.next_id,
            self.fresh_count(removed, requests, n),
        )
    }

    /// Why a planned batch is not committed: the table moved on, the batch is
    /// refused now, or the plan was made for another batch.
    pub open spec fn commit_error(
        self,
        plan: UffdRegistrationPlan,
        removed: Seq<UffdRegistrationId>,
        requests: Seq<UffdRegistrationRequest>,
        single_owner: bool,
    ) -> Option<MmError> {
        if self.revision != plan.revision() {
            Some(MmError::StaleGeneration)
        } else if self.batch_error(removed, requests, single_owner) is Some {
            self.batch_error(removed, requests, single_owner)
        } else if !self.is_plan(removed, requests, plan) {
            Some(MmError::StaleGeneration)
        } else {
            None
        }
    }

    /// The table after a batch.
    pub open spec fn committed(
        self,
        removed: Seq<UffdRegistrationId>,
        requests: Seq<UffdRegistrationRequest>,
    ) -> Self {
        let n = requests.len() as int;
        let (records, next_id) = publication(self.retained(removed), self.next_id, requests, n);
        UffdTableState {
            records,
            next_id,
            revision: if removed.len() != 0 || self.fresh_count(removed, requests, n) != 0 {
                self.next_revision()
            } else {
                self.revision
            },
        }
    }

    /// Why the removal of the `i`th identity is no part of a change to one
    /// address space.
    pub open spec fn space_error(self, removed: Seq<UffdRegistrationId>, i: int) -> Option<
        MmError,
    > {
        if !self.is_live(removed[i]) {
            Some(MmError::UnknownUffdRegistration)
        } else if self.registration(removed[i]).address_space() != self.registration(
            removed[0],
        ).address_space() {
            Some(MmError::InvalidUffdRegistrationBatch)
        } else {
            None
        }
    }

    /// Why the `i`th replacement does not inherit from what is removed.
    pub open spec fn inheritance_error(
        self,
        removed: Seq<UffdRegistrationId>,
        replacements: Seq<UffdRegistrationReplacement>,
        i: int,
    ) -> Option<MmError> {
        if !removed.contains(replacements[i].source()) || self.registration(
            replacements[i].source(),
        ).request().owner() != replacements[i].request().owner() {
            Some(MmError::InvalidUffdRegistrationBatch)
        } else {
            None
        }
    }

    /// Checks one removal after the other.
    pub open spec fn space_check(self, removed: Seq<UffdRegistrationId>) -> spec_fn(int) -> Option<
        MmError,
    > {
        |i: int| self.space_error(removed, i)
    }

    /// Checks one replacement after the other.
    pub open spec fn inheritance_check(
        self,
        removed: Seq<UffdRegistrationId>,
        replacements: Seq<UffdRegistrationReplacement>,
    ) -> spec_fn(int) -> Option<MmError> {
        |i: int| self.inheritance_error(removed, replacements, i)
    }

    /// Why a mapping change is refused before its requests are looked at.
    pub open spec fn mapping_error(
        self,
        removed: Seq<UffdRegistrationId>,
        replacements: Seq<UffdRegistrationReplacement>,
    ) -> Option<MmError> {
        let space = first_error(self.space_check(removed), removed.len() as int);
        if removed.len() == 0 {
            Some(MmError::ZeroLength)
        } else if space is Some {
            space
        } else {
            first_error(self.inheritance_check(removed, replacements), replacements.len() as int)
        }
    }
}

/// Emptying the slots of distinct live identities frees one slot each.
proof fn retained_occupancy(state: UffdTableState, removed: Seq<UffdRegistrationId>)
    requires
        state.wf(),
        forall|i: int|
            0 <= i < removed.len() ==> state.is_live(#[trigger] removed[i]) && !removed.take(
                i,
            ).contains(removed[i]),
    ensures
        occupied(state.retained(removed)) + removed.len() == occupied(state.records),
    decreases removed.len(),
{
    if removed.len() == 0 {
        assert(state.retained(removed) =~= state.records);
    } else {
        let n = removed.len() - 1;
        let rest = removed.drop_last();
        assert forall|i: int| 0 <= i < rest.len() implies state.is_live(#[trigger] rest[i])
            && !rest.take(i).contains(rest[i]) by {
            assert(rest[i] == removed[i]);
            assert(rest.take(i) =~= removed.take(i));
        }
        retained_occupancy(state, rest);
        let id = removed[n];
        let slot = state.slot_of(id);
        assert(state.id_at(id, slot));
        assert(removed.take(n) =~= rest);
        let before = state.retained(rest);
        let after = state.retained(removed);
        assert forall|i: int| 0 <= i < before.len() implies after[i] == before.update(slot, None)[i]
            by {
            if state.records[i] is Some {
                let other = state.records[i]->0.id();
                if removed.contains(other) {
                    let k = choose|k: int| 0 <= k < removed.len() && removed[k] == other;
                    if k < n {
                        assert(rest[k] == other);
                    } else {
                        assert(state.id_at(id, i));
                        id_slots_are_unique(state, id, i);
                    }
                } else if i == slot {
                    assert(removed[n] == other);
                }
                if rest.contains(other) {
                    let k = choose|k: int| 0 <= k < rest.len() && rest[k] == other;
                    assert(removed[k] == other);
                }
            }
        }
        assert(after =~= before.update(slot, None));
        assert(before[slot] is Some);
        count_update(before, slot, None, is_full());
    }
}

/// A request without conflicts is either published by a retained record or
/// overlaps none of its address space.
proof fn no_conflict_means_free(
    state: UffdTableState,
    removed: Seq<UffdRegistrationId>,
    request: UffdRegistrationRequest,
    k: int,
)
    requires
        state.wf(),
        first_error(state.slot_check(removed, request), state.records.len() as int) is None,
        0 <= k < state.records.len(),
        state.retained(removed)[k] is Some,
        state.retained(removed)[k]->0.address_space() == request.address_space(),
        ranges_overlap(state.retained(removed)[k]->0.range(), request.range()),
    ensures
        publishes(state.retained(removed)[k], request),
{
    first_error_none(state.slot_check(removed, request), state.records.len() as int);
    assert(state.slot_check(removed, request)(k) is None);
    assert(state.slot_conflict(removed, request, k) is None);
}

/// How far publication has come: identities, occupied slots, and what each
/// slot holds.
spec fn published_so_far(
    state: UffdTableState,
    removed: Seq<UffdRegistrationId>,
    requests: Seq<UffdRegistrationRequest>,
    n: int,
) -> bool {
    let (slots, id) = publication(state.retained(removed), state.next_id, requests, n);
    let retained = state.retained(removed);
    let now = UffdTableState { records: slots, next_id: id, revision: state.revision };
    &&& slots.len() == state.records.len()
    &&& id == after_ids(state.next_id, state.fresh_count(removed, requests, n))
    &&& occupied(slots) == occupied(retained) + state.fresh_count(removed, requests, n)
    &&& now.wf()
    &&& advances(state.next_id, id)
    &&& forall|k: int|
        0 <= k < slots.len() && (#[trigger] retained[k]) is Some ==> slots[k] == retained[k]
    &&& forall|k: int|
        0 <= k < slots.len() && (#[trigger] slots[k]) is Some && retained[k] is None ==> {
            &&& !issued(state.next_id, slots[k]->0.id().get())
            &&& exists|j: int| 0 <= j < n && #[trigger] requests[j] == slots[k]->0.request()
        }
    &&& forall|j: int| 0 <= j < n ==> is_published(slots, #[trigger] requests[j])
}

/// Nothing has been published yet.
proof fn publication_starts(
    state: UffdTableState,
    removed: Seq<UffdRegistrationId>,
    requests: Seq<UffdRegistrationRequest>,
)
    requires
        state.wf(),
    ensures
        published_so_far(state, removed, requests, 0),
{
    let retained = state.retained(removed);
    let now = UffdTableState {
        records: retained,
        next_id: state.next_id,
        revision: state.revision,
    };
    assert forall|i: int|
        0 <= i < now.records.len() && (#[trigger] now.records[i]) is Some implies now.records[i]
        == state.records[i] by {}
    assert forall|i: int, j: int|
        0 <= i < j < now.records.len() && (#[trigger] now.records[i]) is Some && (
        #[trigger] now.records[j]) is Some implies {
        &&& now.records[i]->0.id() != now.records[j]->0.id()
        &&& are_disjoint(now.records[i]->0, now.records[j]->0)
    } by {
        assert(state.records[i] is Some && state.records[j] is Some);
    }
    assert forall|i: int|
        0 <= i < now.records.len() && (#[trigger] now.records[i]) is Some implies {
        &&& issued(now.next_id, now.records[i]->0.id().get())
        &&& now.records[i]->0.request().valid()
    } by {
        assert(state.records[i] is Some);
    }
}

/// Whether the `n`th request is published is known before the batch starts.
proof fn freshness_is_decided(
    state: UffdTableState,
    removed: Seq<UffdRegistrationId>,
    requests: Seq<UffdRegistrationRequest>,
    n: int,
)
    requires
        0 <= n < requests.len(),
        published_so_far(state, removed, requests, n),
    ensures
        ({
            let slots = publication(state.retained(removed), state.next_id, requests, n).0;
            (is_repeat(requests, n) || is_published(slots, requests[n])) == !state.is_fresh(
                removed,
                requests,
                n,
            )
        }),
{
    let retained = state.retained(removed);
    let slots = publication(retained, state.next_id, requests, n).0;
    let request = requests[n];
    if !is_repeat(requests, n) {
        if is_published(slots, request) {
            let k = choose|k: int| 0 <= k < slots.len() && #[trigger] publishes(slots[k], request);
            if retained[k] is None {
                let j = choose|j: int|
                    0 <= j < n && #[trigger] requests[j] == slots[k]->0.request();
                assert(requests[j] == requests[n]);
            } else {
                assert(publishes(retained[k], request));
            }
        }
        if is_published(retained, request) {
            let k = choose|k: int|
                0 <= k < retained.len() && #[trigger] publishes(retained[k], request);
            assert(publishes(slots[k], request));
        }
    }
}

/// One more request is published.
proof fn publication_continues(
    state: UffdTableState,
    removed: Seq<UffdRegistrationId>,
    requests: Seq<UffdRegistrationRequest>,
    single_owner: bool,
    n: int,
)
    requires
        state.wf(),
        0 <= n < requests.len(),
        requests[n].valid(),
        published_so_far(state, removed, requests, n),
        state.request_error(removed, requests, single_owner, n) is None,
        state.is_fresh(removed, requests, n) ==> {
            &&& ids_left(state.next_id, state.fresh_count(removed, requests, n + 1))
            &&& occupied(state.retained(removed)) + state.fresh_count(removed, requests, n + 1)
                <= state.records.len()
        },
    ensures
        published_so_far(state, removed, requests, n + 1),
        state.is_fresh(removed, requests, n) ==> {
            let (slots, id) = publication(state.retained(removed), state.next_id, requests, n);
            id is Some && id->0 != 0 && has_free(slots)
        },
{
    let retained = state.retained(removed);
    let (slots, id) = publication(retained, state.next_id, requests, n);
    let (after, next) = publication(retained, state.next_id, requests, n + 1);
    let request = requests[n];
    let fresh = state.fresh_count(removed, requests, n);
    freshness_is_decided(state, removed, requests, n);
    let now = UffdTableState { records: slots, next_id: id, revision: state.revision };
    let then = UffdTableState { records: after, next_id: next, revision: state.revision };
    assert(state.fresh_count(removed, requests, n + 1) == fresh + if state.is_fresh(
        removed,
        requests,
        n,
    ) {
        1nat
    } else {
        0
    });
    if !state.is_fresh(removed, requests, n) {
        assert(after == slots && next == id);
        assert(is_published(slots, request)) by {
            if is_repeat(requests, n) {
                let j = choose|j: int| 0 <= j < n && #[trigger] requests[j] == requests[n];
                assert(is_published(slots, requests[j]));
            }
        }
        assert forall|j: int| 0 <= j < n + 1 implies is_published(after, #[trigger] requests[j]) by {
            if j < n {
                assert(is_published(slots, requests[j]));
            }
        }
        assert forall|k: int|
            0 <= k < after.len() && (#[trigger] after[k]) is Some && retained[k] is None implies {
            &&& !issued(state.next_id, after[k]->0.id().get())
            &&& exists|j: int| 0 <= j < n + 1 && #[trigger] requests[j] == after[k]->0.request()
        } by {
            let j = choose|j: int| 0 <= j < n && #[trigger] requests[j] == slots[k]->0.request();
            assert(requests[j] == after[k]->0.request());
        }
    } else {
        first_free_exists(slots);
        let slot = first_free(slots);
        assert(is_first_free(slots, slot));
        let record = UffdRegistration { id: UffdRegistrationId(id->0), request };
        assert(after == slots.update(slot, Some(record)));
        assert(id is Some);
        assert(retained[slot] is None);
        count_update(slots, slot, Some(record), is_full());
        assert(record.id().get() == id->0);
        assert forall|k: int|
            0 <= k < slots.len() && (#[trigger] slots[k]) is Some implies are_disjoint(
            slots[k]->0,
            record,
        ) by {
            if slots[k]->0.address_space() == request.address_space() && ranges_overlap(
                slots[k]->0.range(),
                request.range(),
            ) {
                if retained[k] is Some {
                    no_conflict_means_free(state, removed, request, k);
                    assert(is_published(retained, request));
                } else {
                    let j = choose|j: int|
                        0 <= j < n && #[trigger] requests[j] == slots[k]->0.request();
                    assert(requests[j] != requests[n]);
                    assert(overlaps_earlier(requests, n));
                }
            }
        }
        assert forall|i: int|
            0 <= i < after.len() && (#[trigger] after[i]) is Some implies {
            &&& issued(next, after[i]->0.id().get())
            &&& after[i]->0.request().valid()
        } by {
            if i != slot {
                assert(now.records[i] is Some);
            }
        }
        assert forall|i: int, j: int|
            0 <= i < j < after.len() && (#[trigger] after[i]) is Some && (#[trigger] after[j])
                is Some implies {
            &&& after[i]->0.id() != after[j]->0.id()
            &&& are_disjoint(after[i]->0, after[j]->0)
        } by {
            if i == slot {
                assert(now.records[j] is Some);
                assert(issued(id, slots[j]->0.id().get()));
                assert(are_disjoint(slots[j]->0, record));
            } else if j == slot {
                assert(now.records[i] is Some);
                assert(issued(id, slots[i]->0.id().get()));
                assert(are_disjoint(slots[i]->0, record));
            } else {
                assert(now.records[i] is Some && now.records[j] is Some);
            }
        }
        assert(then.wf());
        assert forall|k: int|
            0 <= k < after.len() && (#[trigger] after[k]) is Some && retained[k] is None implies {
            &&& !issued(state.next_id, after[k]->0.id().get())
            &&& exists|j: int| 0 <= j < n + 1 && #[trigger] requests[j] == after[k]->0.request()
        } by {
            if k == slot {
                assert(requests[n] == after[k]->0.request());
            } else {
                assert(slots[k] is Some);
                let j = choose|j: int|
                    0 <= j < n && #[trigger] requests[j] == slots[k]->0.request();
                assert(requests[j] == after[k]->0.request());
            }
        }
        assert forall|j: int| 0 <= j < n + 1 implies is_published(after, #[trigger] requests[j]) by {
            if j < n {
                assert(is_published(slots, requests[j]));
                let k = choose|k: int|
                    0 <= k < slots.len() && #[trigger] publishes(slots[k], requests[j]);
                assert(publishes(after[k], requests[j]));
            } else {
                assert(publishes(after[slot], requests[n]));
            }
        }
        assert forall|k: int|
            0 <= k < after.len() && (#[trigger] retained[k]) is Some implies after[k]
            == retained[k] by {
            assert(slots[k] == retained[k]);
        }
    }
}

/// Fresh counts only grow.
proof fn fresh_counts_grow(
    state: UffdTableState,
    removed: Seq<UffdRegistrationId>,
    requests: Seq<UffdRegistrationRequest>,
    n: int,
    m: int,
)
    requires
        0 <= n <= m,
    ensures
        state.fresh_count(removed, requests, n) <= state.fresh_count(removed, requests, m),
    decreases m - n,
{
    if n < m {
        fresh_counts_grow(state, removed, requests, n, m - 1);
    }
}

/// At most one slot publishes a request.
proof fn publisher_is_unique(state: UffdTableState, request: UffdRegistrationRequest, i: int)
    requires
        state.wf(),
        0 <= i < state.records.len(),
        publishes(state.records[i], request),
    ensures
        publisher(state.records, request) == state.records[i]->0,
{
    let k = choose|k: int|
        0 <= k < state.records.len() && #[trigger] publishes(state.records[k], request);
    assert(publishes(state.records[k], request));
    assert(state.records[i]->0.request().valid());
    if k < i {
        assert(are_disjoint(state.records[k]->0, state.records[i]->0));
    } else if i < k {
        assert(are_disjoint(state.records[i]->0, state.records[k]->0));
    }
}

/// A committed batch follows the table it was committed to.
proof fn commit_follows(
    state: UffdTableState,
    removed: Seq<UffdRegistrationId>,
    requests: Seq<UffdRegistrationRequest>,
)
    requires
        state.wf(),
        published_so_far(state, removed, requests, requests.len() as int),
    ensures
        state.committed(removed, requests).wf(),
        state.may_become(state.committed(removed, requests)),
{
    let after = state.committed(removed, requests);
    let retained = state.retained(removed);
    let n = requests.len() as int;
    let (slots, id) = publication(retained, state.next_id, requests, n);
    let now = UffdTableState { records: slots, next_id: id, revision: state.revision };
    assert(now.wf());
    assert(after.records == now.records && after.next_id == now.next_id);
    assert(after.wf()) by {
        assert forall|i: int|
            0 <= i < after.records.len() && (#[trigger] after.records[i]) is Some implies {
            &&& issued(after.next_id, after.records[i]->0.id().get())
            &&& after.records[i]->0.request().valid()
        } by {
            assert(now.records[i] is Some);
        }
        assert forall|i: int, j: int|
            0 <= i < j < after.records.len() && (#[trigger] after.records[i]) is Some && (
            #[trigger] after.records[j]) is Some implies {
            &&& after.records[i]->0.id() != after.records[j]->0.id()
            &&& are_disjoint(after.records[i]->0, after.records[j]->0)
        } by {
            assert(now.records[i] is Some && now.records[j] is Some);
        }
    }
    assert forall|r: UffdRegistrationId| #[trigger] after.is_live(r) implies {
        ||| state.is_live(r) && state.registration(r) == after.registration(r)
        ||| !issued(state.next_id, r.get())
    } by {
        let i = after.slot_of(r);
        assert(after.id_at(r, i));
        assert(slots[i] is Some);
        if retained[i] is Some {
            assert(slots[i] == retained[i]);
            assert(state.id_at(r, i));
            id_slots_are_unique(state, r, i);
        }
    }
}

/// An accepted batch can be published request by request.
proof fn accepted_batches_publish(
    state: UffdTableState,
    removed: Seq<UffdRegistrationId>,
    requests: Seq<UffdRegistrationRequest>,
    single_owner: bool,
    n: int,
)
    requires
        state.wf(),
        state.batch_error(removed, requests, single_owner) is None,
        forall|i: int| 0 <= i < requests.len() ==> (#[trigger] requests[i]).valid(),
        0 <= n <= requests.len(),
    ensures
        published_so_far(state, removed, requests, n),
    decreases n,
{
    if n == 0 {
        publication_starts(state, removed, requests);
    } else {
        accepted_batches_publish(state, removed, requests, single_owner, n - 1);
        let checks = state.request_check(removed, requests, single_owner);
        let removal = state.removal_check(removed, single_owner);
        let count = requests.len() as int;
        first_error_none(checks, count);
        first_error_none(removal, removed.len() as int);
        assert forall|i: int| 0 <= i < removed.len() implies state.is_live(#[trigger] removed[i])
            && !removed.take(i).contains(removed[i]) by {
            assert(removal(i) is None);
            assert(state.removal_error(removed, single_owner, i) is None);
        }
        retained_occupancy(state, removed);
        assert(checks(n - 1) is None);
        assert(state.request_error(removed, requests, single_owner, n - 1) is None);
        fresh_counts_grow(state, removed, requests, n, count);
        fewer_ids_suffice(
            state.next_id,
            state.fresh_count(removed, requests, n),
            state.fresh_count(removed, requests, count),
        );
        publication_continues(state, removed, requests, single_owner, n - 1);
    }
}

/// An accepted batch changes what it names and nothing else: what it removes is
/// gone, every other registration stays as it is, and every request is
/// published.
pub proof fn batches_change_only_what_they_name(
    state: UffdTableState,
    removed: Seq<UffdRegistrationId>,
    requests: Seq<UffdRegistrationRequest>,
    single_owner: bool,
    id: UffdRegistrationId,
)
    requires
        state.wf(),
        state.batch_error(removed, requests, single_owner) is None,
        forall|i: int| 0 <= i < requests.len() ==> (#[trigger] requests[i]).valid(),
    ensures
        state.committed(removed, requests).wf(),
        state.may_become(state.committed(removed, requests)),
        removed.contains(id) ==> !state.committed(removed, requests).is_live(id),
        state.is_live(id) && !removed.contains(id) ==> {
            &&& state.committed(removed, requests).is_live(id)
            &&& state.committed(removed, requests).registration(id) == state.registration(id)
        },
        forall|i: int|
            0 <= i < requests.len() ==> is_published(
                state.committed(removed, requests).records,
                #[trigger] requests[i],
            ),
{
    let count = requests.len() as int;
    let after = state.committed(removed, requests);
    accepted_batches_publish(state, removed, requests, single_owner, count);
    commit_follows(state, removed, requests);
    let retained = state.retained(removed);
    if state.is_live(id) && !removed.contains(id) {
        let i = state.slot_of(id);
        assert(state.id_at(id, i));
        assert(retained[i] is Some);
        assert(after.records[i] == retained[i]);
        assert(after.id_at(id, i));
        id_slots_are_unique(after, id, i);
    }
    if removed.contains(id) && after.is_live(id) {
        let i = after.slot_of(id);
        assert(after.id_at(id, i));
        assert(after.records[i] is Some);
        let removal = state.removal_check(removed, single_owner);
        first_error_none(removal, removed.len() as int);
        let k = choose|k: int| 0 <= k < removed.len() && removed[k] == id;
        assert(removal(k) is None);
        assert(state.removal_error(removed, single_owner, k) is None);
        let m = state.slot_of(id);
        assert(state.id_at(id, m));
        assert(state.records[m] is Some);
        if retained[i] is Some {
            assert(after.records[i] == retained[i]);
        }
    }
}

/// An accepted batch leaves as many registrations as there were, less what it
/// removes, with what it publishes anew.
pub proof fn batches_are_counted(
    state: UffdTableState,
    removed: Seq<UffdRegistrationId>,
    requests: Seq<UffdRegistrationRequest>,
    single_owner: bool,
)
    requires
        state.wf(),
        state.batch_error(removed, requests, single_owner) is None,
        forall|i: int| 0 <= i < requests.len() ==> (#[trigger] requests[i]).valid(),
    ensures
        occupied(state.committed(removed, requests).records) + removed.len() == occupied(
            state.records,
        ) + state.fresh_count(removed, requests, requests.len() as int),
{
    let removal = state.removal_check(removed, single_owner);
    accepted_batches_publish(state, removed, requests, single_owner, requests.len() as int);
    first_error_none(removal, removed.len() as int);
    assert forall|i: int| 0 <= i < removed.len() implies state.is_live(#[trigger] removed[i])
        && !removed.take(i).contains(removed[i]) by {
        assert(removal(i) is None);
        assert(state.removal_error(removed, single_owner, i) is None);
    }
    retained_occupancy(state, removed);
}

/// Registering exactly what a handler already owns succeeds and changes
/// nothing, even where the table is full or out of identities.
pub proof fn exact_registration_is_idempotent(
    state: UffdTableState,
    request: UffdRegistrationRequest,
)
    requires
        state.wf(),
        is_published(state.records, request),
    ensures
        state.batch_error(Seq::empty(), seq![request], true) is None,
        state.committed(Seq::empty(), seq![request]) == state,
{
    let none = Seq::<UffdRegistrationId>::empty();
    let batch = seq![request];
    let slot = choose|i: int|
        0 <= i < state.records.len() && #[trigger] publishes(state.records[i], request);
    let check = state.slot_check(none, request);
    assert(state.retained(none) =~= state.records);
    assert forall|k: int| 0 <= k < state.records.len() implies (#[trigger] check(k)) is None by {
        if state.records[k] is Some && k < slot {
            assert(are_disjoint(state.records[k]->0, state.records[slot]->0));
        } else if state.records[k] is Some && slot < k {
            assert(are_disjoint(state.records[slot]->0, state.records[k]->0));
        }
        assert(state.slot_conflict(none, request, k) is None);
    }
    first_error_none(check, state.records.len() as int);
    assert(batch[0] == request);
    assert(!is_repeat(batch, 0));
    assert(!overlaps_earlier(batch, 0));
    let checks = state.request_check(none, batch, true);
    assert(checks(0) == state.request_error(none, batch, true, 0));
    assert(checks(0) is None);
    reveal_with_fuel(first_error, 2);
    reveal_with_fuel(UffdTableState::fresh_count, 2);
    reveal_with_fuel(publication, 2);
    first_free_exists(state.records);
    assert(state.committed(none, batch) =~= state);
}

/// Unregistering what was just registered gives the slots back as they were;
/// only identities and revisions have moved on.
pub proof fn unregister_undoes_register(
    before: UffdTableState,
    registered: UffdTableState,
    unregistered: UffdTableState,
    registration: UffdRegistration,
)
    requires
        registered.wf(),
        is_first_free(before.records, first_free(before.records)),
        registered == (UffdTableState {
            records: before.records.update(first_free(before.records), Some(registration)),
            next_id: following(registration.id().get()),
            revision: before.next_revision(),
        }),
        unregistered == (UffdTableState {
            records: registered.records.update(registered.slot_of(registration.id()), None),
            revision: registered.next_revision(),
            ..registered
        }),
    ensures
        unregistered.records == before.records,
        unregistered.next_id == following(registration.id().get()),
{
    let slot = first_free(before.records);
    assert(registered.id_at(registration.id(), slot));
    id_slots_are_unique(registered, registration.id(), slot);
    assert(unregistered.records =~= before.records);
}

/// A plan made for another revision of the table is refused.
pub proof fn stale_plans_are_refused(
    state: UffdTableState,
    plan: UffdRegistrationPlan,
    removed: Seq<UffdRegistrationId>,
    requests: Seq<UffdRegistrationRequest>,
    single_owner: bool,
)
    requires
        plan.revision() != state.revision,
    ensures
        state.commit_error(plan, removed, requests, single_owner) == Some(MmError::StaleGeneration),
{
}

/// A batch that leaves the revision as it was, below the last one, left the
/// table as it was.
pub proof fn an_unchanged_revision_means_an_unchanged_table(
    state: UffdTableState,
    removed: Seq<UffdRegistrationId>,
    requests: Seq<UffdRegistrationRequest>,
)
    requires
        state.revision < u64::MAX,
        state.committed(removed, requests).revision == state.revision,
    ensures
        state.committed(removed, requests) == state,
{
    assert(removed.len() == 0);
    assert(state.retained(removed) =~= state.records);
    nothing_fresh_nothing_published(state, removed, requests, requests.len() as int);
    assert(state.committed(removed, requests) =~= state);
}

proof fn nothing_fresh_nothing_published(
    state: UffdTableState,
    removed: Seq<UffdRegistrationId>,
    requests: Seq<UffdRegistrationRequest>,
    n: int,
)
    requires
        state.retained(removed) == state.records,
        state.fresh_count(removed, requests, n) == 0,
    ensures
        publication(state.records, state.next_id, requests, n) == (state.records, state.next_id),
    decreases n,
{
    if n > 0 {
        nothing_fresh_nothing_published(state, removed, requests, n - 1);
    }
}

fn contains_id(ids: &[UffdRegistrationId], upto: usize, id: UffdRegistrationId) -> (result: bool)
    requires
        upto <= ids@.len(),
    ensures
        result == ids@.take(upto as int).contains(id),
{
    let mut i: usize = 0;
    while i < upto
        invariant
            i <= upto <= ids@.len(),
            forall|j: int| 0 <= j < i ==> #[trigger] ids@[j] != id,
        decreases upto - i,
    {
        if ids[i] == id {
            proof {
                assert(ids@.take(upto as int)[i as int] == id);
            }
            return true;
        }
        i = i + 1;
    }
    proof {
        if ids@.take(upto as int).contains(id) {
            let k = choose|k: int|
                0 <= k < ids@.take(upto as int).len() && ids@.take(upto as int)[k] == id;
            assert(ids@[k] == id);
        }
    }
    false
}

fn lists_id(ids: &[UffdRegistrationId], id: UffdRegistrationId) -> (result: bool)
    ensures
        result == ids@.contains(id),
{
    proof {
        assert(ids@.take(ids@.len() as int) =~= ids@);
    }
    contains_id(ids, ids.len(), id)
}

/// The requests of a batch, as plain requests or as replacements.
#[derive(Clone, Copy)]
enum Batch<'a> {
    Plain(&'a [UffdRegistrationRequest]),
    Replacing(&'a [UffdRegistrationReplacement]),
}

impl<'a> View for Batch<'a> {
    type V = Seq<UffdRegistrationRequest>;

    closed spec fn view(&self) -> Seq<UffdRegistrationRequest> {
        match *self {
            Batch::Plain(requests) => requests@,
            Batch::Replacing(replacements) => replacement_requests(replacements@),
        }
    }
}

impl<'a> Batch<'a> {
    fn len(&self) -> (result: usize)
        ensures
            result == self@.len(),
    {
        match *self {
            Batch::Plain(requests) => requests.len(),
            Batch::Replacing(replacements) => replacements.len(),
        }
    }

    fn at(&self, i: usize) -> (result: UffdRegistrationRequest)
        requires
            i < self@.len(),
        ensures
            result == self@[i as int],
    {
        match *self {
            Batch::Plain(requests) => requests[i],
            Batch::Replacing(replacements) => replacements[i].request(),
        }
    }
}

fn repeats(requests: Batch<'_>, i: usize) -> (result: bool)
    requires
        i < requests@.len(),
    ensures
        result == is_repeat(requests@, i as int),
{
    let request = requests.at(i);
    let mut j: usize = 0;
    while j < i
        invariant
            j <= i < requests@.len(),
            request == requests@[i as int],
            forall|k: int| 0 <= k < j ==> #[trigger] requests@[k] != request,
        decreases i - j,
    {
        if requests.at(j) == request {
            return true;
        }
        j = j + 1;
    }
    false
}

fn overlaps_another(requests: Batch<'_>, i: usize) -> (result: bool)
    requires
        i < requests@.len(),
    ensures
        result == overlaps_earlier(requests@, i as int),
{
    let request = requests.at(i);
    let mut j: usize = 0;
    while j < i
        invariant
            j <= i < requests@.len(),
            request == requests@[i as int],
            forall|k: int|
                0 <= k < j ==> !(#[trigger] requests@[k] != request && ranges_overlap(
                    requests@[k].range(),
                    request.range(),
                )),
        decreases i - j,
    {
        let previous = requests.at(j);
        if previous != request && do_ranges_overlap(previous.range(), request.range()) {
            return true;
        }
        j = j + 1;
    }
    false
}

/// Hands out `count` identities.
pub fn advance_registration_ids(next: Option<u64>, count: usize) -> (result: Result<
    Option<u64>,
    MmError,
>)
    ensures
        match result {
            Ok(after) => ids_left(next, count as nat) && after == after_ids(next, count as nat),
            Err(error) => !ids_left(next, count as nat) && error == MmError::IdExhausted,
        },
{
    if count == 0 {
        return Ok(next);
    }
    match next {
        Some(first) => match first.checked_add((count - 1) as u64) {
            Some(last) => Ok(following_number(last)),
            None => Err(MmError::IdExhausted),
        },
        None => Err(MmError::IdExhausted),
    }
}

impl<const CAPACITY: usize> UffdRegistrationTable<CAPACITY> {
    /// Publishes one interval or returns the existing exact same-handler record.
    pub fn register(&mut self, api: &UffdApiState, request: UffdRegistrationRequest) -> (result:
        Result<UffdRegistration, MmError>)
        requires
            old(self).wf(),
        ensures
            final(self).wf(),
            old(self)@.may_become(final(self)@),
            ({
                let refused = old(self)@.batch_error(Seq::empty(), seq![request], true);
                match result {
                    Ok(registration) => {
                        &&& api.lifecycle() is Initialized
                        &&& refused is None
                        &&& registration.request() == request
                        &&& final(self)@.is_live(registration.id())
                        &&& final(self)@.registration(registration.id()) == registration
                        &&& if is_published(old(self)@.records, request) {
                            &&& final(self)@ == old(self)@
                            &&& registration == publisher(old(self)@.records, request)
                        } else {
                            let slot = first_free(old(self)@.records);
                            &&& is_first_free(old(self)@.records, slot)
                            &&& old(self)@.next_id == Some(registration.id().get())
                            &&& final(self)@ == (UffdTableState {
                                records: old(self)@.records.update(slot, Some(registration)),
                                next_id: following(registration.id().get()),
                                revision: old(self)@.next_revision(),
                            })
                        }
                    },
                    Err(error) => {
                        &&& final(self)@ == old(self)@
                        &&& if api.lifecycle() is Created {
                            error == MmError::UffdNotInitialized
                        } else {
                            refused == Some(error)
                        }
                    },
                }
            }),
    {
        let requests: [UffdRegistrationRequest; 1] = [request];
        let none: [UffdRegistrationId; 0] = [];
        let ghost batch: Seq<UffdRegistrationRequest> = seq![request];
        proof {
            assert(requests@ =~= batch);
            assert(none@ =~= Seq::<UffdRegistrationId>::empty());
        }
        let plan = match self.preflight_register(api, requests.as_slice()) {
            Ok(plan) => plan,
            Err(error) => return Err(error),
        };
        match self.apply_request_changes(
            plan,
            none.as_slice(),
            Batch::Plain(requests.as_slice()),
            true,
        ) {
            Ok(_) => {},
            Err(error) => return Err(error),
        }
        let found = self.find_publisher(request);
        proof {
            let before = old(self)@;
            let none = Seq::<UffdRegistrationId>::empty();
            assert(before.retained(none) =~= before.records);
            assert(!is_repeat(batch, 0));
            assert(publication(before.records, before.next_id, batch, 0) == (
                before.records,
                before.next_id,
            ));
            assert(before.fresh_count(none, batch, 0) == 0);
            assert(before.fresh_count(none, batch, 1) == if before.is_fresh(none, batch, 0) {
                1nat
            } else {
                0
            });
            reveal_with_fuel(publication, 2);
            assert(batch[0] == request);
            assert(is_published(self@.records, batch[0]));
            let registration = found->0;
            assert(registration == publisher(self@.records, request));
            if is_published(before.records, request) {
                let k = choose|k: int|
                    0 <= k < before.records.len() && #[trigger] publishes(
                        before.records[k],
                        request,
                    );
                publisher_is_unique(self@, request, k);
                assert(self@.id_at(registration.id(), k));
                id_slots_are_unique(self@, registration.id(), k);
                assert(self@ =~= before);
            } else {
                first_free_exists(before.records);
                let k = first_free(before.records);
                assert(ids_left(before.next_id, 1));
                assert(before.is_fresh(none, batch, 0));
                assert(has_free(before.records));
                assert(is_first_free(before.records, k));
                assert(publishes(self@.records[k], request));
                publisher_is_unique(self@, request, k);
                assert(self@.id_at(registration.id(), k));
                id_slots_are_unique(self@, registration.id(), k);
            }
        }
        match found {
            Some(registration) => Ok(registration),
            None => Err(MmError::InconsistentAccounting),
        }
    }

    /// Preflights every mapped fragment without changing the table.
    ///
    /// The adapter supplies one canonical post-operation UFFD-owned VMA
    /// fragment per request; gaps produce no request. It must not blindly pass
    /// `ioctl_range intersect pre_state_vma`: Linux treats a same-handler
    /// partial re-registration as a success and may split/merge adjacent UFFD
    /// VMAs. Use [`Self::preflight_register_delta`] to normalize that delta
    /// into exact retained records plus one all-or-none replacement
    /// transaction.
    pub fn preflight_register(&self, api: &UffdApiState, requests: &[UffdRegistrationRequest]) -> (result:
        Result<UffdRegistrationPlan, MmError>)
        requires
            self.wf(),
        ensures
            match result {
                Ok(plan) => {
                    &&& api.lifecycle() is Initialized
                    &&& self@.batch_error(Seq::empty(), requests@, true) is None
                    &&& self@.is_plan(Seq::empty(), requests@, plan)
                },
                Err(error) => if api.lifecycle() is Created {
                    error == MmError::UffdNotInitialized
                } else {
                    self@.batch_error(Seq::empty(), requests@, true) == Some(error)
                },
            },
    {
        match api.require_initialized() {
            Ok(()) => {},
            Err(error) => return Err(error),
        }
        let none: [UffdRegistrationId; 0] = [];
        proof {
            assert(none@ =~= Seq::<UffdRegistrationId>::empty());
        }
        self.plan_request_changes(none.as_slice(), Batch::Plain(requests), true)
    }

    /// Commits an unchanged preflight and appends each unique output record.
    ///
    /// Records are appended only after table mutation is complete, so the
    /// adapter can publish returned tokens without creating a partial table
    /// transaction. `visit` is the adapter's storage: it grows only where the
    /// adapter reserved too little.
    pub fn commit_register(
        &mut self,
        plan: UffdRegistrationPlan,
        requests: &[UffdRegistrationRequest],
        visit: &mut Vec<UffdRegistration>,
    ) -> (result: Result<UffdRegistrationCommit, MmError>)
        requires
            old(self).wf(),
        ensures
            final(self).wf(),
            old(self)@.may_become(final(self)@),
            match result {
                Ok(commit) => {
                    &&& old(self)@.commit_error(plan, Seq::empty(), requests@, true) is None
                    &&& final(self)@ == old(self)@.committed(Seq::empty(), requests@)
                    &&& final(visit)@ == old(visit)@ + publishers(
                        final(self)@.records,
                        requests@,
                        requests@.len() as int,
                    )
                    &&& commit.removed() == 0
                    &&& commit.published() == plan.published()
                    &&& commit.reused() == plan.reused()
                },
                Err(error) => {
                    &&& old(self)@.commit_error(plan, Seq::empty(), requests@, true) == Some(error)
                    &&& final(self)@ == old(self)@
                    &&& final(visit)@ == old(visit)@
                },
            },
    {
        let none: [UffdRegistrationId; 0] = [];
        proof {
            assert(none@ =~= Seq::<UffdRegistrationId>::empty());
        }
        self.commit_request_changes(plan, none.as_slice(), Batch::Plain(requests), true, visit)
    }

    /// Preflights and atomically registers all mapped fragments.
    ///
    /// Exact same-handler MISSING registrations are idempotent. Any overlap
    /// owned by a different handler returns [MmError::Busy], matching Linux's
    /// EBUSY distinction. A non-exact same-handler overlap is deliberately
    /// rejected as a non-canonical batch; callers use
    /// [`Self::preflight_register_delta`] before invoking this primitive.
    pub fn register_batch(
        &mut self,
        api: &UffdApiState,
        requests: &[UffdRegistrationRequest],
        visit: &mut Vec<UffdRegistration>,
    ) -> (result: Result<UffdRegistrationCommit, MmError>)
        requires
            old(self).wf(),
        ensures
            final(self).wf(),
            old(self)@.may_become(final(self)@),
            ({
                let n = requests@.len() as int;
                let none = Seq::<UffdRegistrationId>::empty();
                match result {
                    Ok(commit) => {
                        &&& api.lifecycle() is Initialized
                        &&& old(self)@.batch_error(none, requests@, true) is None
                        &&& final(self)@ == old(self)@.committed(none, requests@)
                        &&& final(visit)@ == old(visit)@ + publishers(
                            final(self)@.records,
                            requests@,
                            n,
                        )
                        &&& commit.removed() == 0
                        &&& commit.published() == old(self)@.fresh_count(none, requests@, n)
                        &&& commit.reused() == old(self)@.reused_count(none, requests@, n)
                    },
                    Err(error) => {
                        &&& final(self)@ == old(self)@
                        &&& final(visit)@ == old(visit)@
                        &&& if api.lifecycle() is Created {
                            error == MmError::UffdNotInitialized
                        } else {
                            old(self)@.batch_error(none, requests@, true) == Some(error)
                        }
                    },
                }
            }),
    {
        let plan = match self.preflight_register(api, requests) {
            Ok(plan) => plan,
            Err(error) => return Err(error),
        };
        self.commit_register(plan, requests, visit)
    }

    /// Preflights a mapping split, trim, grow, or generation refresh.
    ///
    /// Every removed token must share one handler/address-space/mode owner, and
    /// every replacement fragment must retain that owner. Old records remain
    /// visible until [Self::commit_replace] succeeds.
    pub fn preflight_replace(
        &self,
        api: &UffdApiState,
        removed: &[UffdRegistrationId],
        replacements: &[UffdRegistrationRequest],
    ) -> (result: Result<UffdRegistrationPlan, MmError>)
        requires
            self.wf(),
        ensures
            match result {
                Ok(plan) => {
                    &&& api.lifecycle() is Initialized
                    &&& removed@.len() > 0
                    &&& self@.batch_error(removed@, replacements@, true) is None
                    &&& self@.is_plan(removed@, replacements@, plan)
                },
                Err(error) => if api.lifecycle() is Created {
                    error == MmError::UffdNotInitialized
                } else if removed@.len() == 0 {
                    error == MmError::ZeroLength
                } else {
                    self@.batch_error(removed@, replacements@, true) == Some(error)
                },
            },
    {
        match api.require_initialized() {
            Ok(()) => {},
            Err(error) => return Err(error),
        }
        if removed.len() == 0 {
            return Err(MmError::ZeroLength);
        }
        self.plan_request_changes(removed, Batch::Plain(replacements), true)
    }

    /// Atomically removes old mapping fragments and publishes replacements.
    pub fn commit_replace(
        &mut self,
        plan: UffdRegistrationPlan,
        removed: &[UffdRegistrationId],
        replacements: &[UffdRegistrationRequest],
        visit: &mut Vec<UffdRegistration>,
    ) -> (result: Result<UffdRegistrationCommit, MmError>)
        requires
            old(self).wf(),
        ensures
            final(self).wf(),
            old(self)@.may_become(final(self)@),
            match result {
                Ok(commit) => {
                    &&& old(self)@.commit_error(plan, removed@, replacements@, true) is None
                    &&& final(self)@ == old(self)@.committed(removed@, replacements@)
                    &&& final(visit)@ == old(visit)@ + publishers(
                        final(self)@.records,
                        replacements@,
                        replacements@.len() as int,
                    )
                    &&& commit.removed() == plan.removed()
                    &&& commit.published() == plan.published()
                    &&& commit.reused() == plan.reused()
                },
                Err(error) => {
                    &&& old(self)@.commit_error(plan, removed@, replacements@, true) == Some(error)
                    &&& final(self)@ == old(self)@
                    &&& final(visit)@ == old(visit)@
                },
            },
    {
        self.commit_request_changes(plan, removed, Batch::Plain(replacements), true, visit)
    }

    /// Preflights and commits one mapping-fragment replacement transaction.
    pub fn replace_batch(
        &mut self,
        api: &UffdApiState,
        removed: &[UffdRegistrationId],
        replacements: &[UffdRegistrationRequest],
        visit: &mut Vec<UffdRegistration>,
    ) -> (result: Result<UffdRegistrationCommit, MmError>)
        requires
            old(self).wf(),
        ensures
            final(self).wf(),
            old(self)@.may_become(final(self)@),
            ({
                let n = replacements@.len() as int;
                match result {
                    Ok(commit) => {
                        &&& api.lifecycle() is Initialized
                        &&& removed@.len() > 0
                        &&& old(self)@.batch_error(removed@, replacements@, true) is None
                        &&& final(self)@ == old(self)@.committed(removed@, replacements@)
                        &&& final(visit)@ == old(visit)@ + publishers(
                            final(self)@.records,
                            replacements@,
                            n,
                        )
                        &&& commit.removed() == removed@.len()
                        &&& commit.published() == old(self)@.fresh_count(
                            removed@,
                            replacements@,
                            n,
                        )
                        &&& commit.reused() == old(self)@.reused_count(removed@, replacements@, n)
                    },
                    Err(error) => {
                        &&& final(self)@ == old(self)@
                        &&& final(visit)@ == old(visit)@
                        &&& if api.lifecycle() is Created {
                            error == MmError::UffdNotInitialized
                        } else if removed@.len() == 0 {
                            error == MmError::ZeroLength
                        } else {
                            old(self)@.batch_error(removed@, replacements@, true) == Some(error)
                        }
                    },
                }
            }),
    {
        let plan = match self.preflight_replace(api, removed, replacements) {
            Ok(plan) => plan,
            Err(error) => return Err(error),
        };
        self.commit_replace(plan, removed, replacements, visit)
    }

    /// Preflights one MM mutation that may cross several handler owners.
    ///
    /// Each replacement names the removed source registration whose
    /// handler/address-space/mode it inherits. A removed token may have zero,
    /// one, or several replacements, covering remove, refresh, trim, grow, and
    /// split transactions.
    pub fn preflight_mapping_replace(
        &self,
        removed: &[UffdRegistrationId],
        replacements: &[UffdRegistrationReplacement],
    ) -> (result: Result<UffdRegistrationPlan, MmError>)
        requires
            self.wf(),
        ensures
            ({
                let requests = replacement_requests(replacements@);
                match result {
                    Ok(plan) => {
                        &&& self@.mapping_error(removed@, replacements@) is None
                        &&& self@.batch_error(removed@, requests, false) is None
                        &&& self@.is_plan(removed@, requests, plan)
                    },
                    Err(error) => if self@.mapping_error(removed@, replacements@) is Some {
                        self@.mapping_error(removed@, replacements@) == Some(error)
                    } else {
                        self@.batch_error(removed@, requests, false) == Some(error)
                    },
                }
            }),
    {
        match self.validate_mapping_replacements(removed, replacements) {
            Ok(()) => {},
            Err(error) => return Err(error),
        }
        self.plan_request_changes(removed, Batch::Replacing(replacements), false)
    }

    /// Commits an unchanged mixed-owner MM replacement proof.
    pub fn commit_mapping_replace(
        &mut self,
        plan: UffdRegistrationPlan,
        removed: &[UffdRegistrationId],
        replacements: &[UffdRegistrationReplacement],
        visit: &mut Vec<UffdRegistration>,
    ) -> (result: Result<UffdRegistrationCommit, MmError>)
        requires
            old(self).wf(),
        ensures
            final(self).wf(),
            old(self)@.may_become(final(self)@),
            ({
                let requests = replacement_requests(replacements@);
                match result {
                    Ok(commit) => {
                        &&& old(self)@.mapping_error(removed@, replacements@) is None
                        &&& old(self)@.commit_error(plan, removed@, requests, false) is None
                        &&& final(self)@ == old(self)@.committed(removed@, requests)
                        &&& final(visit)@ == old(visit)@ + publishers(
                            final(self)@.records,
                            requests,
                            requests.len() as int,
                        )
                        &&& commit.removed() == plan.removed()
                        &&& commit.published() == plan.published()
                        &&& commit.reused() == plan.reused()
                    },
                    Err(error) => {
                        &&& final(self)@ == old(self)@
                        &&& final(visit)@ == old(visit)@
                        &&& if old(self)@.revision != plan.revision() {
                            error == MmError::StaleGeneration
                        } else if old(self)@.mapping_error(removed@, replacements@) is Some {
                            old(self)@.mapping_error(removed@, replacements@) == Some(error)
                        } else {
                            old(self)@.commit_error(plan, removed@, requests, false) == Some(error)
                        }
                    },
                }
            }),
    {
        if self.revision != plan.revision {
            return Err(MmError::StaleGeneration);
        }
        match self.validate_mapping_replacements(removed, replacements) {
            Ok(()) => {},
            Err(error) => return Err(error),
        }
        self.commit_request_changes(plan, removed, Batch::Replacing(replacements), false, visit)
    }

    /// Preflights and commits one mixed-owner MM replacement transaction.
    pub fn mapping_replace_batch(
        &mut self,
        removed: &[UffdRegistrationId],
        replacements: &[UffdRegistrationReplacement],
        visit: &mut Vec<UffdRegistration>,
    ) -> (result: Result<UffdRegistrationCommit, MmError>)
        requires
            old(self).wf(),
        ensures
            final(self).wf(),
            old(self)@.may_become(final(self)@),
            ({
                let requests = replacement_requests(replacements@);
                let n = requests.len() as int;
                match result {
                    Ok(commit) => {
                        &&& old(self)@.mapping_error(removed@, replacements@) is None
                        &&& old(self)@.batch_error(removed@, requests, false) is None
                        &&& final(self)@ == old(self)@.committed(removed@, requests)
                        &&& final(visit)@ == old(visit)@ + publishers(
                            final(self)@.records,
                            requests,
                            n,
                        )
                        &&& commit.removed() == removed@.len()
                        &&& commit.published() == old(self)@.fresh_count(removed@, requests, n)
                        &&& commit.reused() == old(self)@.reused_count(removed@, requests, n)
                    },
                    Err(error) => {
                        &&& final(self)@ == old(self)@
                        &&& final(visit)@ == old(visit)@
                        &&& if old(self)@.mapping_error(removed@, replacements@) is Some {
                            old(self)@.mapping_error(removed@, replacements@) == Some(error)
                        } else {
                            old(self)@.batch_error(removed@, requests, false) == Some(error)
                        }
                    },
                }
            }),
    {
        let plan = match self.preflight_mapping_replace(removed, replacements) {
            Ok(plan) => plan,
            Err(error) => return Err(error),
        };
        self.commit_mapping_replace(plan, removed, replacements, visit)
    }

    /// Preflights a pure multi-owner unmap/unregister removal.
    pub fn preflight_mapping_remove(&self, removed: &[UffdRegistrationId]) -> (result: Result<
        UffdRegistrationPlan,
        MmError,
    >)
        requires
            self.wf(),
        ensures
            match result {
                Ok(plan) => {
                    &&& self@.mapping_error(removed@, Seq::empty()) is None
                    &&& self@.batch_error(removed@, Seq::empty(), false) is None
                    &&& self@.is_plan(removed@, Seq::empty(), plan)
                },
                Err(error) => if self@.mapping_error(removed@, Seq::empty()) is Some {
                    self@.mapping_error(removed@, Seq::empty()) == Some(error)
                } else {
                    self@.batch_error(removed@, Seq::empty(), false) == Some(error)
                },
            },
    {
        let none: [UffdRegistrationReplacement; 0] = [];
        proof {
            assert(none@ =~= Seq::<UffdRegistrationReplacement>::empty());
            assert(replacement_requests(none@) =~= Seq::<UffdRegistrationRequest>::empty());
        }
        self.preflight_mapping_replace(removed, none.as_slice())
    }

    /// Commits a pure multi-owner unmap/unregister removal.
    pub fn commit_mapping_remove(
        &mut self,
        plan: UffdRegistrationPlan,
        removed: &[UffdRegistrationId],
    ) -> (result: Result<UffdRegistrationCommit, MmError>)
        requires
            old(self).wf(),
        ensures
            final(self).wf(),
            old(self)@.may_become(final(self)@),
            match result {
                Ok(commit) => {
                    &&& old(self)@.mapping_error(removed@, Seq::empty()) is None
                    &&& old(self)@.commit_error(plan, removed@, Seq::empty(), false) is None
                    &&& final(self)@ == (UffdTableState {
                        records: old(self)@.retained(removed@),
                        revision: old(self)@.next_revision(),
                        ..old(self)@
                    })
                    &&& commit.removed() == removed@.len()
                    &&& commit.published() == 0
                    &&& commit.reused() == 0
                },
                Err(error) => {
                    &&& final(self)@ == old(self)@
                    &&& if old(self)@.revision != plan.revision() {
                        error == MmError::StaleGeneration
                    } else if old(self)@.mapping_error(removed@, Seq::empty()) is Some {
                        old(self)@.mapping_error(removed@, Seq::empty()) == Some(error)
                    } else {
                        old(self)@.commit_error(plan, removed@, Seq::empty(), false) == Some(error)
                    }
                },
            },
    {
        let none: [UffdRegistrationReplacement; 0] = [];
        proof {
            assert(none@ =~= Seq::<UffdRegistrationReplacement>::empty());
            assert(replacement_requests(none@) =~= Seq::<UffdRegistrationRequest>::empty());
        }
        let mut visited: Vec<UffdRegistration> = Vec::new();
        self.commit_mapping_replace(plan, removed, none.as_slice(), &mut visited)
    }

    fn validate_mapping_replacements(
        &self,
        removed: &[UffdRegistrationId],
        replacements: &[UffdRegistrationReplacement],
    ) -> (result: Result<(), MmError>)
        requires
            self.wf(),
        ensures
            match result {
                Ok(()) => self@.mapping_error(removed@, replacements@) is None,
                Err(error) => self@.mapping_error(removed@, replacements@) == Some(error),
            },
    {
        if removed.len() == 0 {
            return Err(MmError::ZeroLength);
        }
        let ghost space = self@.space_check(removed@);
        let ghost inheritance = self@.inheritance_check(removed@, replacements@);
        let address_space = match self.get(removed[0]) {
            Ok(registration) => registration.address_space(),
            Err(error) => {
                proof {
                    assert(space(0) == Some(error));
                    first_error_stops(space, 0, removed@.len() as int);
                }
                return Err(error);
            },
        };
        let mut i: usize = 0;
        while i < removed.len()
            invariant
                self.wf(),
                space == self@.space_check(removed@),
                removed@.len() > 0,
                address_space == self@.registration(removed@[0]).address_space(),
                i <= removed@.len(),
                first_error(space, i as int) is None,
            decreases removed@.len() - i,
        {
            let id = removed[i];
            proof {
                assert(space(i as int) == self@.space_error(removed@, i as int));
            }
            match self.get(id) {
                Ok(registration) => {
                    if registration.address_space() != address_space {
                        proof {
                            first_error_stops(space, i as int, removed@.len() as int);
                        }
                        return Err(MmError::InvalidUffdRegistrationBatch);
                    }
                },
                Err(error) => {
                    proof {
                        first_error_stops(space, i as int, removed@.len() as int);
                    }
                    return Err(error);
                },
            }
            i = i + 1;
        }
        proof {
            first_error_none(space, removed@.len() as int);
        }
        let mut k: usize = 0;
        while k < replacements.len()
            invariant
                self.wf(),
                space == self@.space_check(removed@),
                inheritance == self@.inheritance_check(removed@, replacements@),
                removed@.len() > 0,
                first_error(space, removed@.len() as int) is None,
                forall|j: int| 0 <= j < removed@.len() ==> (#[trigger] space(j)) is None,
                k <= replacements@.len(),
                first_error(inheritance, k as int) is None,
            decreases replacements@.len() - k,
        {
            let replacement = replacements[k];
            proof {
                assert(inheritance(k as int) == self@.inheritance_error(
                    removed@,
                    replacements@,
                    k as int,
                ));
            }
            if !lists_id(removed, replacement.source) {
                proof {
                    first_error_stops(inheritance, k as int, replacements@.len() as int);
                }
                return Err(MmError::InvalidUffdRegistrationBatch);
            }
            let source = match self.get(replacement.source) {
                Ok(source) => source,
                Err(error) => {
                    proof {
                        let j = choose|j: int|
                            0 <= j < removed@.len() && removed@[j] == replacement.source;
                        assert(space(j) is None);
                    }
                    return Err(error);
                },
            };
            if source.request.owned_by() != replacement.request.owned_by() {
                proof {
                    first_error_stops(inheritance, k as int, replacements@.len() as int);
                }
                return Err(MmError::InvalidUffdRegistrationBatch);
            }
            k = k + 1;
        }
        Ok(())
    }

    /// Checks a request against every record that stays, and tells whether one
    /// of them publishes exactly it.
    fn find_conflict(&self, removed: &[UffdRegistrationId], request: UffdRegistrationRequest) -> (result:
        Result<bool, MmError>)
        requires
            self.wf(),
        ensures
            ({
                let conflict = first_error(
                    self@.slot_check(removed@, request),
                    self@.records.len() as int,
                );
                match result {
                    Ok(exact) => {
                        &&& conflict is None
                        &&& exact == is_published(self@.retained(removed@), request)
                    },
                    Err(error) => conflict == Some(error),
                }
            }),
    {
        let ghost check = self@.slot_check(removed@, request);
        let ghost retained = self@.retained(removed@);
        let mut exact = false;
        let mut i: usize = 0;
        proof {
            use_type_invariant(&request);
        }
        while i < CAPACITY
            invariant
                self.wf(),
                request.valid(),
                check == self@.slot_check(removed@, request),
                retained == self@.retained(removed@),
                i <= CAPACITY,
                first_error(check, i as int) is None,
                exact ==> is_published(retained, request),
                !exact ==> forall|k: int|
                    0 <= k < i ==> !#[trigger] publishes(retained[k], request),
            decreases CAPACITY - i,
        {
            proof {
                assert(check(i as int) == self@.slot_conflict(removed@, request, i as int));
            }
            if let Some(registered) = self.records[i] {
                if !lists_id(removed, registered.id) && registered.address_space()
                    == request.address_space() && do_ranges_overlap(
                    registered.range(),
                    request.range(),
                ) {
                    if registered.handler() != request.handler() {
                        proof {
                            first_error_stops(check, i as int, CAPACITY as int);
                        }
                        return Err(MmError::Busy);
                    }
                    if registered.request == request {
                        exact = true;
                        proof {
                            assert(publishes(retained[i as int], request));
                        }
                    } else {
                        proof {
                            first_error_stops(check, i as int, CAPACITY as int);
                        }
                        return Err(MmError::UffdRegistrationOverlap);
                    }
                }
            }
            i = i + 1;
        }
        Ok(exact)
    }

    fn plan_request_changes(
        &self,
        removed: &[UffdRegistrationId],
        requests: Batch<'_>,
        require_single_owner: bool,
    ) -> (result: Result<UffdRegistrationPlan, MmError>)
        requires
            self.wf(),
        ensures
            match result {
                Ok(plan) => {
                    &&& self@.batch_error(removed@, requests@, require_single_owner) is None
                    &&& self@.is_plan(removed@, requests@, plan)
                },
                Err(error) => self@.batch_error(removed@, requests@, require_single_owner) == Some(
                    error,
                ),
            },
    {
        if removed.len() == 0 && requests.len() == 0 {
            return Err(MmError::ZeroLength);
        }
        let ghost removal = self@.removal_check(removed@, require_single_owner);
        let ghost request_checks = self@.request_check(removed@, requests@, require_single_owner);
        let mut owner: Option<UffdOwner> = None;
        let mut index: usize = 0;
        while index < removed.len()
            invariant
                self.wf(),
                removal == self@.removal_check(removed@, require_single_owner),
                index <= removed@.len(),
                first_error(removal, index as int) is None,
                owner == if require_single_owner && index > 0 {
                    Some(self@.registration(removed@[0]).request().owner())
                } else {
                    None
                },
            decreases removed@.len() - index,
        {
            let id = removed[index];
            proof {
                assert(removal(index as int) == self@.removal_error(
                    removed@,
                    require_single_owner,
                    index as int,
                ));
            }
            if contains_id(removed, index, id) {
                proof {
                    first_error_stops(removal, index as int, removed@.len() as int);
                }
                return Err(MmError::InvalidUffdRegistrationBatch);
            }
            let registration = match self.get(id) {
                Ok(registration) => registration,
                Err(error) => {
                    proof {
                        first_error_stops(removal, index as int, removed@.len() as int);
                    }
                    return Err(error);
                },
            };
            if require_single_owner {
                let current = registration.request.owned_by();
                if let Some(expected) = owner {
                    if expected != current {
                        proof {
                            first_error_stops(removal, index as int, removed@.len() as int);
                        }
                        return Err(MmError::InvalidUffdRegistrationBatch);
                    }
                }
                owner = Some(current);
            }
            index = index + 1;
        }
        proof {
            first_error_none(removal, removed@.len() as int);
            assert forall|i: int| 0 <= i < removed@.len() implies self@.is_live(
                #[trigger] removed@[i],
            ) && !removed@.take(i).contains(removed@[i]) by {
                assert(removal(i) is None);
                assert(self@.removal_error(removed@, require_single_owner, i) is None);
            }
            retained_occupancy(self@, removed@);
        }
        let mut published: usize = 0;
        let mut reused: usize = 0;
        let mut next: usize = 0;
        while next < requests.len()
            invariant
                self.wf(),
                request_checks == self@.request_check(removed@, requests@, require_single_owner),
                removal == self@.removal_check(removed@, require_single_owner),
                first_error(removal, removed@.len() as int) is None,
                next <= requests@.len(),
                published + reused <= next,
                published == self@.fresh_count(removed@, requests@, next as int),
                reused == self@.reused_count(removed@, requests@, next as int),
                first_error(request_checks, next as int) is None,
                owner == if require_single_owner && (removed@.len() > 0 || next > 0) {
                    Some(self@.batch_owner(removed@, requests@))
                } else {
                    None
                },
            decreases requests@.len() - next,
        {
            let request = requests.at(next);
            proof {
                assert(request_checks(next as int) == self@.request_error(
                    removed@,
                    requests@,
                    require_single_owner,
                    next as int,
                ));
                if removed@.len() == 0 && next == 0 {
                    assert(self@.batch_owner(removed@, requests@) == request.owner());
                }
            }
            if require_single_owner {
                let current = request.owned_by();
                if let Some(expected) = owner {
                    if expected != current {
                        proof {
                            first_error_stops(request_checks, next as int, requests@.len() as int);
                        }
                        return Err(MmError::InvalidUffdRegistrationBatch);
                    }
                }
                owner = Some(current);
            }
            if overlaps_another(requests, next) {
                proof {
                    first_error_stops(request_checks, next as int, requests@.len() as int);
                }
                return Err(MmError::InvalidUffdRegistrationBatch);
            }
            if !repeats(requests, next) {
                match self.find_conflict(removed, request) {
                    Ok(exact) => {
                        if exact {
                            reused = reused + 1;
                        } else {
                            published = published + 1;
                        }
                    },
                    Err(error) => {
                        proof {
                            first_error_stops(request_checks, next as int, requests@.len() as int);
                        }
                        return Err(error);
                    },
                }
            }
            next = next + 1;
        }
        let live = self.len();
        let retained = match live.checked_sub(removed.len()) {
            Some(retained) => retained,
            None => return Err(MmError::InconsistentAccounting),
        };
        if published > CAPACITY - retained {
            return Err(MmError::CapacityExceeded);
        }
        let next_id_after = match advance_registration_ids(self.next_id, published) {
            Ok(next_id_after) => next_id_after,
            Err(error) => return Err(error),
        };
        if published != 0 && self.revision == u64::MAX {
            return Err(MmError::IdExhausted);
        }
        Ok(
            UffdRegistrationPlan {
                revision: self.revision,
                removed: removed.len(),
                published,
                reused,
                next_id_after,
            },
        )
    }

    /// Finds the record that publishes a request.
    fn find_publisher(&self, request: UffdRegistrationRequest) -> (result: Option<UffdRegistration>)
        requires
            self@.wf(),
            self@.records.len() == CAPACITY,
        ensures
            match result {
                Some(registration) => {
                    &&& is_published(self@.records, request)
                    &&& registration == publisher(self@.records, request)
                },
                None => !is_published(self@.records, request),
            },
    {
        let mut i: usize = 0;
        while i < CAPACITY
            invariant
                self@.wf(),
                self@.records.len() == CAPACITY,
                i <= CAPACITY,
                forall|k: int| 0 <= k < i ==> !#[trigger] publishes(self@.records[k], request),
            decreases CAPACITY - i,
        {
            if let Some(registration) = self.records[i] {
                if registration.request == request {
                    proof {
                        assert(publishes(self@.records[i as int], request));
                        publisher_is_unique(self@, request, i as int);
                    }
                    return Some(registration);
                }
            }
            i = i + 1;
        }
        None
    }

    /// Empties the slots of the listed identities.
    fn remove_listed(&mut self, removed: &[UffdRegistrationId])
        requires
            old(self)@.records.len() == CAPACITY,
        ensures
            final(self)@ == (UffdTableState {
                records: old(self)@.retained(removed@),
                ..old(self)@
            }),
    {
        let ghost before = self@;
        let mut i: usize = 0;
        while i < CAPACITY
            invariant
                before.records.len() == CAPACITY,
                self@.records.len() == CAPACITY,
                self@.next_id == before.next_id,
                self@.revision == before.revision,
                i <= CAPACITY,
                forall|k: int|
                    0 <= k < CAPACITY ==> #[trigger] self@.records[k] == if k < i {
                        before.retained(removed@)[k]
                    } else {
                        before.records[k]
                    },
            decreases CAPACITY - i,
        {
            if let Some(registration) = self.records[i] {
                if lists_id(removed, registration.id) {
                    self.records[i] = None;
                }
            }
            i = i + 1;
        }
        proof {
            assert(self@.records =~= before.retained(removed@));
        }
    }

    /// Changes the table as planned, without listing what came of it.
    fn apply_request_changes(
        &mut self,
        plan: UffdRegistrationPlan,
        removed: &[UffdRegistrationId],
        requests: Batch<'_>,
        require_single_owner: bool,
    ) -> (result: Result<UffdRegistrationCommit, MmError>)
        requires
            old(self).wf(),
        ensures
            final(self).wf(),
            old(self)@.may_become(final(self)@),
            match result {
                Ok(commit) => {
                    &&& old(self)@.commit_error(plan, removed@, requests@, require_single_owner)
                        is None
                    &&& final(self)@ == old(self)@.committed(removed@, requests@)
                    &&& forall|j: int|
                        0 <= j < requests@.len() ==> is_published(
                            final(self)@.records,
                            #[trigger] requests@[j],
                        )
                    &&& commit.removed() == plan.removed()
                    &&& commit.published() == plan.published()
                    &&& commit.reused() == plan.reused()
                },
                Err(error) => {
                    &&& old(self)@.commit_error(plan, removed@, requests@, require_single_owner)
                        == Some(error)
                    &&& final(self)@ == old(self)@
                },
            },
    {
        if self.revision != plan.revision {
            return Err(MmError::StaleGeneration);
        }
        let current = match self.plan_request_changes(removed, requests, require_single_owner) {
            Ok(current) => current,
            Err(error) => return Err(error),
        };
        if current != plan {
            return Err(MmError::StaleGeneration);
        }
        let ghost before = self@;
        let ghost checks = before.request_check(removed@, requests@, require_single_owner);
        let ghost removal = before.removal_check(removed@, require_single_owner);
        let ghost count = requests@.len() as int;
        proof {
            first_error_none(checks, count);
            first_error_none(removal, removed@.len() as int);
            assert forall|i: int| 0 <= i < removed@.len() implies before.is_live(
                #[trigger] removed@[i],
            ) && !removed@.take(i).contains(removed@[i]) by {
                assert(removal(i) is None);
                assert(before.removal_error(removed@, require_single_owner, i) is None);
            }
            retained_occupancy(before, removed@);
            publication_starts(before, removed@, requests@);
        }
        self.remove_listed(removed);
        let mut index: usize = 0;
        while index < requests.len()
            invariant
                before.wf(),
                before.records.len() == CAPACITY,
                checks == before.request_check(removed@, requests@, require_single_owner),
                count == requests@.len(),
                forall|i: int| 0 <= i < count ==> (#[trigger] checks(i)) is None,
                ids_left(before.next_id, before.fresh_count(removed@, requests@, count)),
                occupied(before.retained(removed@)) + before.fresh_count(
                    removed@,
                    requests@,
                    count,
                ) <= CAPACITY,
                index <= requests@.len(),
                published_so_far(before, removed@, requests@, index as int),
                self@.records == publication(
                    before.retained(removed@),
                    before.next_id,
                    requests@,
                    index as int,
                ).0,
                self@.next_id == publication(
                    before.retained(removed@),
                    before.next_id,
                    requests@,
                    index as int,
                ).1,
                self@.records.len() == CAPACITY,
                self@.revision == before.revision,
            decreases requests@.len() - index,
        {
            let request = requests.at(index);
            proof {
                use_type_invariant(&request);
                assert(checks(index as int) is None);
                assert(before.request_error(removed@, requests@, require_single_owner, index as int)
                    is None);
                fresh_counts_grow(before, removed@, requests@, index as int + 1, count);
                fewer_ids_suffice(
                    before.next_id,
                    before.fresh_count(removed@, requests@, index as int + 1),
                    before.fresh_count(removed@, requests@, count),
                );
                publication_continues(
                    before,
                    removed@,
                    requests@,
                    require_single_owner,
                    index as int,
                );
                freshness_is_decided(before, removed@, requests@, index as int);
                assert(self@.wf());
            }
            if !repeats(requests, index) && self.find_publisher(request).is_none() {
                if let (Some(raw), Some(slot)) = (self.next_id, find_free(&self.records)) {
                    self.next_id = following_number(raw);
                    self.records[slot] = Some(
                        UffdRegistration { id: UffdRegistrationId(raw), request },
                    );
                }
            }
            index = index + 1;
        }
        if plan.changes_table() && self.revision != u64::MAX {
            self.revision = self.revision + 1;
        }
        proof {
            commit_follows(before, removed@, requests@);
            assert(self@ =~= before.committed(removed@, requests@));
        }
        proof {
            use_type_invariant(&plan);
        }
        Ok(
            UffdRegistrationCommit {
                removed: plan.removed,
                published: plan.published,
                reused: plan.reused,
            },
        )
    }

    fn commit_request_changes(
        &mut self,
        plan: UffdRegistrationPlan,
        removed: &[UffdRegistrationId],
        requests: Batch<'_>,
        require_single_owner: bool,
        visit: &mut Vec<UffdRegistration>,
    ) -> (result: Result<UffdRegistrationCommit, MmError>)
        requires
            old(self).wf(),
        ensures
            final(self).wf(),
            old(self)@.may_become(final(self)@),
            match result {
                Ok(commit) => {
                    &&& old(self)@.commit_error(plan, removed@, requests@, require_single_owner)
                        is None
                    &&& final(self)@ == old(self)@.committed(removed@, requests@)
                    &&& final(visit)@ == old(visit)@ + publishers(
                        final(self)@.records,
                        requests@,
                        requests@.len() as int,
                    )
                    &&& commit.removed() == plan.removed()
                    &&& commit.published() == plan.published()
                    &&& commit.reused() == plan.reused()
                },
                Err(error) => {
                    &&& old(self)@.commit_error(plan, removed@, requests@, require_single_owner)
                        == Some(error)
                    &&& final(self)@ == old(self)@
                    &&& final(visit)@ == old(visit)@
                },
            },
    {
        let commit = match self.apply_request_changes(
            plan,
            removed,
            requests,
            require_single_owner,
        ) {
            Ok(commit) => commit,
            Err(error) => return Err(error),
        };
        let ghost visited = visit@;
        let mut output: usize = 0;
        proof {
            assert(visit@ =~= visited + publishers(self@.records, requests@, 0));
        }
        while output < requests.len()
            invariant
                self@.wf(),
                self@.records.len() == CAPACITY,
                output <= requests@.len(),
                forall|j: int|
                    0 <= j < requests@.len() ==> is_published(
                        self@.records,
                        #[trigger] requests@[j],
                    ),
                visit@ == visited + publishers(self@.records, requests@, output as int),
            decreases requests@.len() - output,
        {
            if !repeats(requests, output) {
                let request = requests.at(output);
                proof {
                    assert(is_published(self@.records, requests@[output as int]));
                }
                if let Some(registration) = self.find_publisher(request) {
                    visit.push(registration);
                }
                proof {
                    assert(visit@ =~= visited + publishers(
                        self@.records,
                        requests@,
                        output as int + 1,
                    ));
                }
            }
            output = output + 1;
        }
        Ok(commit)
    }
}

/// Where many identities are left, so are fewer.
proof fn fewer_ids_suffice(next: Option<u64>, fewer: nat, many: nat)
    requires
        fewer <= many,
        ids_left(next, many),
    ensures
        ids_left(next, fewer),
{
}

} // verus!
