use crate::checks::{first_error, first_error_none, first_error_stops};
use crate::counting::{count, count_agrees, count_bounds, count_disjoint, count_take_next};
use crate::mm::error::MmError;
use crate::mm::identity::AddressSpaceId;
use crate::mm::mapping::{MappingKind, MappingSnapshot};
use crate::mm::range::{alignment_is_additive, PageRange, PageSize, UserRange};
use crate::mm::registration::{
    requested, CanonicalRegistrationDelta, UffdOwner, UffdRegistration, UffdRegistrationDeltaPlan,
    UffdRegistrationId, UffdRegistrationIntent, UffdRegistrationRequest,
};
use crate::mm::table::{
    after_ids, are_disjoint, do_ranges_overlap, id_slots_are_unique, ids_left, ranges_overlap,
    UffdRegistrationTable, UffdTableState,
};
use crate::mm::transaction::{
    advance_registration_ids, batches_change_only_what_they_name, is_published, is_repeat,
    overlaps_earlier, publishes,
};
use crate::mm::userfaultfd::UffdApiState;
use crate::slots::{is_full, occupied};
use vstd::prelude::*;

verus! {

/// Two intervals with one page size overlap or are adjacent.
pub open spec fn ranges_touch(left: PageRange, right: PageRange) -> bool {
    left.page_size() == right.page_size() && left.start() <= right.end() && right.start()
        <= left.end()
}

fn do_ranges_touch(left: PageRange, right: PageRange) -> (result: bool)
    ensures
        result == ranges_touch(left, right),
{
    left.page_size() == right.page_size() && left.start() <= right.end() && right.start()
        <= left.end()
}

/// The interval from `start` to `end`.
pub open(crate) spec fn span(start: usize, end: usize, page_size: PageSize) -> PageRange {
    PageRange { range: UserRange { start, end }, page_size }
}

/// Two intervals with one page size share an address.
pub open spec fn ranges_meet(left: PageRange, right: PageRange) -> bool {
    left.page_size() == right.page_size() && ranges_overlap(left, right)
}

/// What two intervals that meet have in common.
pub open spec fn intersection(left: PageRange, right: PageRange) -> PageRange {
    span(
        if left.start() < right.start() {
            right.start()
        } else {
            left.start()
        },
        if left.end() < right.end() {
            left.end()
        } else {
            right.end()
        },
        left.page_size(),
    )
}

/// The smallest interval that holds both.
pub open spec fn hull(left: PageRange, right: PageRange) -> PageRange {
    span(
        if right.start() < left.start() {
            right.start()
        } else {
            left.start()
        },
        if left.end() < right.end() {
            right.end()
        } else {
            left.end()
        },
        left.page_size(),
    )
}

/// The intersection of two intervals that meet holds exactly their common
/// addresses, and their hull the addresses between the outermost.
pub proof fn intersections_and_hulls(left: PageRange, right: PageRange, address: int)
    requires
        ranges_meet(left, right),
    ensures
        ({
            let common = intersection(left, right);
            let both = hull(left, right);
            &&& common.page_size() == left.page_size()
            &&& both.page_size() == left.page_size()
            &&& common.start() <= address < common.end() <==> left.start() <= address < left.end()
                && right.start() <= address < right.end()
            &&& left.valid() && right.valid() ==> both.contains(left) && both.contains(right)
            &&& left.valid() && right.valid() ==> left.contains(common) && right.contains(common)
        }),
{
}

fn page_range_intersection(left: PageRange, right: PageRange) -> (result: Option<PageRange>)
    ensures
        match result {
            Some(common) => ranges_meet(left, right) && common == intersection(left, right),
            None => !ranges_meet(left, right),
        },
{
    if left.page_size() != right.page_size() {
        return None;
    }
    let left_start = left.start();
    let left_end = left.end();
    let right_start = right.start();
    let right_end = right.end();
    let start = if left_start < right_start {
        right_start
    } else {
        left_start
    };
    let end = if left_end < right_end {
        left_end
    } else {
        right_end
    };
    if start >= end {
        return None;
    }
    let page_size = left.page_size();
    proof {
        use_type_invariant(&page_size);
        alignment_is_additive(page_size, end, start);
    }
    match PageRange::with_page_size(start, end - start, page_size) {
        Ok(common) => Some(common),
        Err(_) => None,
    }
}

fn page_range_hull(left: PageRange, right: PageRange) -> (result: PageRange)
    requires
        left.page_size() == right.page_size(),
    ensures
        result == hull(left, right),
{
    let left_start = left.start();
    let left_end = left.end();
    let right_start = right.start();
    let right_end = right.end();
    let start = if right_start < left_start {
        right_start
    } else {
        left_start
    };
    let end = if left_end < right_end {
        right_end
    } else {
        left_end
    };
    let page_size = left.page_size();
    proof {
        use_type_invariant(&page_size);
        alignment_is_additive(page_size, end, start);
    }
    match PageRange::with_page_size(start, end - start, page_size) {
        Ok(both) => both,
        Err(_) => left,
    }
}

/// The slot holds a registration of the intent's handler in the VMA that
/// overlaps or is adjacent to `desired`.
pub open spec fn connects(
    intent: UffdRegistrationIntent,
    vma: MappingSnapshot,
    desired: PageRange,
    slot: Option<UffdRegistration>,
) -> bool {
    &&& slot is Some
    &&& slot->0.address_space() == vma.address_space()
    &&& slot->0.handler() == intent.handler()
    &&& slot->0.mode() == intent.mode()
    &&& ranges_touch(slot->0.range(), desired)
    &&& ranges_overlap(slot->0.range(), vma.range())
}

/// Tells the slots that connect.
pub open spec fn connected(
    intent: UffdRegistrationIntent,
    vma: MappingSnapshot,
    desired: PageRange,
) -> spec_fn(Option<UffdRegistration>) -> bool {
    |slot: Option<UffdRegistration>| connects(intent, vma, desired, slot)
}

/// `desired` after the first `n` slots were folded into it in turn. A
/// registration that connects but no longer matches its mapping is an error.
pub open spec fn grow(
    records: Seq<Option<UffdRegistration>>,
    intent: UffdRegistrationIntent,
    vma: MappingSnapshot,
    desired: PageRange,
    n: int,
) -> Result<PageRange, MmError>
    decreases n,
{
    if n <= 0 {
        Ok(desired)
    } else {
        match grow(records, intent, vma, desired, n - 1) {
            Err(error) => Err(error),
            Ok(grown) => if !connects(intent, vma, grown, records[n - 1]) {
                Ok(grown)
            } else {
                match records[n - 1]->0.revalidate(vma) {
                    Err(error) => Err(error),
                    Ok(_) => Ok(hull(grown, records[n - 1]->0.range())),
                }
            },
        }
    }
}

/// `desired` after slots were folded into it until nothing changes.
pub open spec fn settle(
    records: Seq<Option<UffdRegistration>>,
    intent: UffdRegistrationIntent,
    vma: MappingSnapshot,
    desired: PageRange,
) -> Result<PageRange, MmError>
    decreases
            (vma.range().end() - vma.range().start()) - (desired.end() - desired.start()),
{
    match grow(records, intent, vma, desired, records.len() as int) {
        Err(error) => Err(error),
        Ok(grown) => if grown.end() - grown.start() <= desired.end() - desired.start()
            || grown.end() - grown.start() > vma.range().end() - vma.range().start() {
            Ok(grown)
        } else {
            settle(records, intent, vma, grown)
        },
    }
}

impl UffdTableState {
    /// Why the record in slot `k` keeps the intent from owning its part of the
    /// VMA.
    pub open spec fn target_error(
        self,
        intent: UffdRegistrationIntent,
        vma: MappingSnapshot,
        k: int,
    ) -> Option<MmError> {
        let target = intersection(intent.range(), vma.range());
        match self.records[k] {
            None => None,
            Some(live) => if live.address_space() != vma.address_space() || !ranges_overlap(
                live.range(),
                target,
            ) {
                None
            } else {
                match live.revalidate(vma) {
                    Err(error) => Some(error),
                    Ok(_) => if live.handler() != intent.handler() {
                        Some(MmError::Busy)
                    } else {
                        None
                    },
                }
            },
        }
    }

    /// Checks one slot after the other.
    pub open spec fn target_check(
        self,
        intent: UffdRegistrationIntent,
        vma: MappingSnapshot,
    ) -> spec_fn(int) -> Option<MmError> {
        |k: int| self.target_error(intent, vma, k)
    }

    /// What one VMA contributes to the registration.
    pub open spec fn delta(self, intent: UffdRegistrationIntent, vma: MappingSnapshot) -> Result<
        CanonicalRegistrationDelta,
        MmError,
    > {
        match first_error(self.target_check(intent, vma), self.records.len() as int) {
            Some(error) => Err(error),
            None => match settle(
                self.records,
                intent,
                vma,
                intersection(intent.range(), vma.range()),
            ) {
                Err(error) => Err(error),
                Ok(range) => Ok(
                    CanonicalRegistrationDelta {
                        desired: requested(intent.handler(), vma, range),
                        no_op: count(self.records, connected(intent, vma, range)) == 1
                            && is_published(self.records, requested(intent.handler(), vma, range)),
                    },
                ),
            },
        }
    }

    /// Checks one VMA after the other.
    pub open spec fn delta_check(
        self,
        intent: UffdRegistrationIntent,
        vmas: Seq<MappingSnapshot>,
    ) -> spec_fn(int) -> Option<MmError> {
        |i: int|
            match self.delta(intent, vmas[i]) {
                Err(error) => Some(error),
                Ok(_) => None,
            }
    }

    /// The delta of a VMA that has one.
    pub open spec fn delta_of(
        self,
        intent: UffdRegistrationIntent,
        vma: MappingSnapshot,
    ) -> CanonicalRegistrationDelta {
        self.delta(intent, vma)->Ok_0
    }

    /// Tells the slots that a VMA's new fragment replaces.
    pub open spec fn folded(
        self,
        intent: UffdRegistrationIntent,
        vma: MappingSnapshot,
    ) -> spec_fn(Option<UffdRegistration>) -> bool {
        connected(intent, vma, self.delta_of(intent, vma).desired.range())
    }

    /// Number of registrations that the first `n` VMAs replace.
    pub open spec fn removed_total(
        self,
        intent: UffdRegistrationIntent,
        vmas: Seq<MappingSnapshot>,
        n: int,
    ) -> nat
        decreases n,
    {
        if n <= 0 {
            0
        } else {
            self.removed_total(intent, vmas, n - 1) + if self.delta_of(
                intent,
                vmas[n - 1],
            ).no_op {
                0nat
            } else {
                count(self.records, self.folded(intent, vmas[n - 1]))
            }
        }
    }

    /// Number of new fragments among the first `n` VMAs.
    pub open spec fn replaced_total(
        self,
        intent: UffdRegistrationIntent,
        vmas: Seq<MappingSnapshot>,
        n: int,
    ) -> nat
        decreases n,
    {
        if n <= 0 {
            0
        } else {
            self.replaced_total(intent, vmas, n - 1) + if self.delta_of(
                intent,
                vmas[n - 1],
            ).no_op {
                0nat
            } else {
                1
            }
        }
    }

    /// The identities that the first `n` VMAs replace, in slot order for each.
    pub open spec fn removed_ids(
        self,
        intent: UffdRegistrationIntent,
        vmas: Seq<MappingSnapshot>,
        n: int,
    ) -> Seq<UffdRegistrationId>
        decreases n,
    {
        if n <= 0 {
            Seq::empty()
        } else {
            let rest = self.removed_ids(intent, vmas, n - 1);
            if self.delta_of(intent, vmas[n - 1]).no_op {
                rest
            } else {
                rest + chosen_ids(self.records, self.folded(intent, vmas[n - 1]))
            }
        }
    }

    /// The new fragments of the first `n` VMAs.
    pub open spec fn new_fragments(
        self,
        intent: UffdRegistrationIntent,
        vmas: Seq<MappingSnapshot>,
        n: int,
    ) -> Seq<UffdRegistrationRequest>
        decreases n,
    {
        if n <= 0 {
            Seq::empty()
        } else {
            let rest = self.new_fragments(intent, vmas, n - 1);
            let delta = self.delta_of(intent, vmas[n - 1]);
            if delta.no_op {
                rest
            } else {
                rest.push(delta.desired)
            }
        }
    }

    /// Why a registration delta is refused.
    pub open spec fn delta_error(
        self,
        intent: UffdRegistrationIntent,
        vmas: Seq<MappingSnapshot>,
    ) -> Option<MmError> {
        let n = vmas.len() as int;
        let failed = first_error(self.delta_check(intent, vmas), n);
        let replaced = self.replaced_total(intent, vmas, n);
        if vmas_error(intent.range(), vmas) is Some {
            vmas_error(intent.range(), vmas)
        } else if failed is Some {
            failed
        } else if replaced + occupied(self.records) > self.records.len() + self.removed_total(
            intent,
            vmas,
            n,
        ) {
            Some(MmError::CapacityExceeded)
        } else if !ids_left(self.next_id, replaced) || (replaced != 0 && self.revision
            == u64::MAX) {
            Some(MmError::IdExhausted)
        } else {
            None
        }
    }

    /// `plan` is what an accepted delta is planned as.
    pub open spec fn is_delta_plan(
        self,
        intent: UffdRegistrationIntent,
        vmas: Seq<MappingSnapshot>,
        plan: UffdRegistrationDeltaPlan,
    ) -> bool {
        let n = vmas.len() as int;
        &&& plan.revision() == self.revision
        &&& plan.removed() == self.removed_total(intent, vmas, n)
        &&& plan.replacements() == self.replaced_total(intent, vmas, n)
        &&& plan.next_id_after() == after_ids(
            self.next_id,
            self.replaced_total(intent, vmas, n),
        )
    }
}

/// The identities of the slots that satisfy `p`, in slot order.
pub open spec fn chosen_ids(
    records: Seq<Option<UffdRegistration>>,
    p: spec_fn(Option<UffdRegistration>) -> bool,
) -> Seq<UffdRegistrationId>
    decreases records.len(),
{
    if records.len() == 0 {
        Seq::empty()
    } else {
        let rest = chosen_ids(records.drop_last(), p);
        if records.last() is Some && p(records.last()) {
            rest.push(records.last()->0.id())
        } else {
            rest
        }
    }
}

/// Why the `i`th VMA does not belong into the list: all are anonymous private
/// mappings of one address space with the range's page size, in increasing
/// order without overlap, and each meets the range.
pub open spec fn vma_error(range: PageRange, vmas: Seq<MappingSnapshot>, i: int) -> Option<
    MmError,
> {
    if vmas[i].address_space() != vmas[0].address_space() || !(vmas[i].kind() is AnonymousPrivate)
        || !ranges_meet(range, vmas[i].range()) || (i > 0 && vmas[i].range().start() < vmas[i
        - 1].range().end()) {
        Some(MmError::InvalidUffdRegistrationBatch)
    } else {
        None
    }
}

/// Checks one VMA after the other.
pub open spec fn vma_check(range: PageRange, vmas: Seq<MappingSnapshot>) -> spec_fn(
    int,
) -> Option<MmError> {
    |i: int| vma_error(range, vmas, i)
}

/// Why a list of VMAs is refused.
pub open spec fn vmas_error(range: PageRange, vmas: Seq<MappingSnapshot>) -> Option<MmError> {
    if vmas.len() == 0 {
        Some(MmError::RangeNotMapped)
    } else {
        first_error(vma_check(range, vmas), vmas.len() as int)
    }
}

/// How a growing interval came about: it holds the target, stays in the VMA,
/// consists of the target and the registrations that connect to it, and is part
/// of every interval that holds the target and all that connects to it.
pub open spec fn built(
    records: Seq<Option<UffdRegistration>>,
    intent: UffdRegistrationIntent,
    vma: MappingSnapshot,
    target: PageRange,
    range: PageRange,
) -> bool {
    &&& range.page_size() == vma.range().page_size()
    &&& range.start() < range.end()
    &&& range.contains(target)
    &&& vma.range().contains(range)
    &&& forall|address: int|
        range.start() <= address < range.end() ==> #[trigger] accounted(
            records,
            intent,
            vma,
            target,
            range,
            address,
        )
    &&& forall|other: PageRange|
        #![trigger closed_over(records, intent, vma, other)]
        closed_over(records, intent, vma, other) && other.contains(target) ==> other.contains(range)
}

/// The address lies in the target or in a registration that connects.
pub open spec fn accounted(
    records: Seq<Option<UffdRegistration>>,
    intent: UffdRegistrationIntent,
    vma: MappingSnapshot,
    target: PageRange,
    range: PageRange,
    address: int,
) -> bool {
    ||| target.start() <= address < target.end()
    ||| exists|k: int|
        0 <= k < records.len() && #[trigger] connects(intent, vma, range, records[k])
            && records[k]->0.range().start() <= address < records[k]->0.range().end()
}

/// Everything that connects to the interval lies in it.
pub open spec fn closed_over(
    records: Seq<Option<UffdRegistration>>,
    intent: UffdRegistrationIntent,
    vma: MappingSnapshot,
    range: PageRange,
) -> bool {
    forall|k: int|
        0 <= k < records.len() && #[trigger] connects(intent, vma, range, records[k])
            ==> range.contains(records[k]->0.range())
}

/// Growing keeps how the interval came about and never shrinks it.
proof fn growing_keeps_shape(
    state: UffdTableState,
    intent: UffdRegistrationIntent,
    vma: MappingSnapshot,
    target: PageRange,
    desired: PageRange,
    n: int,
)
    requires
        state.wf(),
        0 <= n <= state.records.len(),
        built(state.records, intent, vma, target, desired),
    ensures
        grow(state.records, intent, vma, desired, n) matches Ok(grown) ==> {
            &&& built(state.records, intent, vma, target, grown)
            &&& grown.contains(desired)
        },
    decreases n,
{
    if n > 0 {
        growing_keeps_shape(state, intent, vma, target, desired, n - 1);
        let records = state.records;
        if grow(records, intent, vma, desired, n) is Ok {
            let before = grow(records, intent, vma, desired, n - 1)->Ok_0;
            let after = grow(records, intent, vma, desired, n)->Ok_0;
            if connects(intent, vma, before, records[n - 1]) {
                let range = records[n - 1]->0.range();
                assert(after == hull(before, range));
                assert(records[n - 1]->0.request().valid());
                assert(vma.range().contains(range));
                assert(after.contains(before) && after.contains(range));
                assert forall|address: int|
                    after.start() <= address < after.end() implies #[trigger] accounted(
                    records,
                    intent,
                    vma,
                    target,
                    after,
                    address,
                ) by {
                    if before.start() <= address < before.end() {
                        assert(accounted(records, intent, vma, target, before, address));
                        if !(target.start() <= address < target.end()) {
                            let k = choose|k: int|
                                0 <= k < records.len() && #[trigger] connects(
                                    intent,
                                    vma,
                                    before,
                                    records[k],
                                ) && records[k]->0.range().start() <= address
                                    < records[k]->0.range().end();
                            assert(connects(intent, vma, after, records[k]));
                        }
                    } else {
                        assert(range.start() <= address < range.end());
                        assert(connects(intent, vma, after, records[n - 1]));
                    }
                }
                assert forall|other: PageRange|
                    #![trigger closed_over(records, intent, vma, other)]
                    closed_over(records, intent, vma, other) && other.contains(
                        target,
                    ) implies other.contains(after) by {
                    assert(other.contains(before));
                    assert(connects(intent, vma, other, records[n - 1]));
                }
            }
        }
    }
}

/// Where a whole pass changes nothing, everything that connects lies inside and
/// still matches its mapping.
proof fn settled_is_closed(
    state: UffdTableState,
    intent: UffdRegistrationIntent,
    vma: MappingSnapshot,
    target: PageRange,
    desired: PageRange,
    n: int,
)
    requires
        state.wf(),
        0 <= n <= state.records.len(),
        built(state.records, intent, vma, target, desired),
        grow(state.records, intent, vma, desired, n) == Ok::<PageRange, MmError>(desired),
    ensures
        forall|k: int|
            0 <= k < n && #[trigger] connects(intent, vma, desired, state.records[k]) ==> {
                &&& desired.contains(state.records[k]->0.range())
                &&& state.records[k]->0.revalidate(vma) is Ok
            },
    decreases n,
{
    if n > 0 {
        let records = state.records;
        let before = grow(records, intent, vma, desired, n - 1)->Ok_0;
        growing_keeps_shape(state, intent, vma, target, desired, n - 1);
        if connects(intent, vma, before, records[n - 1]) {
            let range = records[n - 1]->0.range();
            assert(desired == hull(before, range));
        }
        assert(before.start() == desired.start() && before.end() == desired.end());
        assert(before == desired);
        settled_is_closed(state, intent, vma, target, desired, n - 1);
    }
}

/// An error met early stays.
proof fn grow_errors_stay(
    records: Seq<Option<UffdRegistration>>,
    intent: UffdRegistrationIntent,
    vma: MappingSnapshot,
    desired: PageRange,
    i: int,
    n: int,
)
    requires
        0 <= i <= n,
        grow(records, intent, vma, desired, i) is Err,
    ensures
        grow(records, intent, vma, desired, n) == grow(records, intent, vma, desired, i),
    decreases n - i,
{
    if i < n {
        grow_errors_stay(records, intent, vma, desired, i, n - 1);
    }
}

/// Settling ends at an interval that a whole pass does not change.
proof fn settling_ends(
    state: UffdTableState,
    intent: UffdRegistrationIntent,
    vma: MappingSnapshot,
    target: PageRange,
    desired: PageRange,
)
    requires
        state.wf(),
        built(state.records, intent, vma, target, desired),
    ensures
        settle(state.records, intent, vma, desired) matches Ok(range) ==> {
            &&& built(state.records, intent, vma, target, range)
            &&& range.contains(desired)
            &&& grow(state.records, intent, vma, range, state.records.len() as int) == Ok::<
                PageRange,
                MmError,
            >(range)
        },
    decreases
            (vma.range().end() - vma.range().start()) - (desired.end() - desired.start()),
{
    let n = state.records.len() as int;
    growing_keeps_shape(state, intent, vma, target, desired, n);
    if let Ok(grown) = grow(state.records, intent, vma, desired, n) {
        if grown.end() - grown.start() <= desired.end() - desired.start() {
            assert(grown.start() == desired.start() && grown.end() == desired.end());
            assert(grown == desired);
        } else {
            settling_ends(state, intent, vma, target, grown);
        }
    }
}

/// The intersection of the range with a VMA is where growing starts.
proof fn target_is_built(
    records: Seq<Option<UffdRegistration>>,
    intent: UffdRegistrationIntent,
    vma: MappingSnapshot,
)
    requires
        intent.range().valid(),
        vma.range().valid(),
        ranges_meet(intent.range(), vma.range()),
    ensures
        ({
            let target = intersection(intent.range(), vma.range());
            built(records, intent, vma, target, target)
        }),
{
}

/// The new fragment of a VMA is the least interval that holds the asked-for part
/// of the VMA and is closed under overlap and adjacency with the handler's
/// registrations there. It has no gaps: each of its addresses was asked for or
/// already registered. All it replaces still matches the mapping.
pub proof fn fragments_are_transitive_unions(
    state: UffdTableState,
    intent: UffdRegistrationIntent,
    vma: MappingSnapshot,
)
    requires
        state.wf(),
        intent.valid(),
        vma.range().valid(),
        ranges_meet(intent.range(), vma.range()),
        state.delta(intent, vma) is Ok,
    ensures
        ({
            let target = intersection(intent.range(), vma.range());
            let range = state.delta_of(intent, vma).desired.range();
            &&& built(state.records, intent, vma, target, range)
            &&& closed_over(state.records, intent, vma, range)
            &&& forall|k: int|
                0 <= k < state.records.len() && #[trigger] connects(
                    intent,
                    vma,
                    range,
                    state.records[k],
                ) ==> state.records[k]->0.revalidate(vma) is Ok
        }),
{
    let target = intersection(intent.range(), vma.range());
    let range = state.delta_of(intent, vma).desired.range();
    target_is_built(state.records, intent, vma);
    settling_ends(state, intent, vma, target, target);
    settled_is_closed(state, intent, vma, target, range, state.records.len() as int);
}

/// VMAs in an accepted list lie in increasing order.
proof fn vmas_are_ordered(range: PageRange, vmas: Seq<MappingSnapshot>, i: int, j: int)
    requires
        vmas_error(range, vmas) is None,
        forall|k: int| 0 <= k < vmas.len() ==> (#[trigger] vmas[k]).range().valid(),
        0 <= i < j < vmas.len(),
    ensures
        vmas[i].range().end() <= vmas[j].range().start(),
    decreases j - i,
{
    first_error_none(vma_check(range, vmas), vmas.len() as int);
    assert(vma_check(range, vmas)(j) is None);
    assert(vma_error(range, vmas, j) is None);
    if i + 1 < j {
        vmas_are_ordered(range, vmas, i, j - 1);
        assert(vmas[j - 1].range().valid());
    }
}

/// Tells the slots that one of the first `n` VMAs replaces.
spec fn replaced_by_any(
    state: UffdTableState,
    intent: UffdRegistrationIntent,
    vmas: Seq<MappingSnapshot>,
    n: int,
) -> spec_fn(Option<UffdRegistration>) -> bool {
    |slot: Option<UffdRegistration>|
        exists|i: int|
            0 <= i < n && !#[trigger] state.delta_of(intent, vmas[i]).no_op && state.folded(
                intent,
                vmas[i],
            )(slot)
}

/// The preconditions under which a list of VMAs has a delta.
spec fn has_deltas(
    state: UffdTableState,
    intent: UffdRegistrationIntent,
    vmas: Seq<MappingSnapshot>,
    n: int,
) -> bool {
    &&& state.wf()
    &&& intent.valid()
    &&& 0 <= n <= vmas.len()
    &&& vmas_error(intent.range(), vmas) is None
    &&& forall|k: int| 0 <= k < vmas.len() ==> (#[trigger] vmas[k]).range().valid()
    &&& forall|k: int| 0 <= k < n ==> state.delta(intent, #[trigger] vmas[k]) is Ok
}

/// A slot that a VMA's fragment replaces lies in the VMA.
proof fn folded_lies_in_vma(
    state: UffdTableState,
    intent: UffdRegistrationIntent,
    vmas: Seq<MappingSnapshot>,
    n: int,
    i: int,
    k: int,
)
    requires
        has_deltas(state, intent, vmas, n),
        0 <= i < n,
        0 <= k < state.records.len(),
        state.folded(intent, vmas[i])(state.records[k]),
    ensures
        vmas[i].range().contains(state.records[k]->0.range()),
        state.records[k]->0.request().valid(),
        state.records[k]->0.revalidate(vmas[i]) is Ok,
{
    let check = vma_check(intent.range(), vmas);
    first_error_none(check, vmas.len() as int);
    assert(check(i) is None);
    assert(vma_error(intent.range(), vmas, i) is None);
    fragments_are_transitive_unions(state, intent, vmas[i]);
    assert(connects(
        intent,
        vmas[i],
        state.delta_of(intent, vmas[i]).desired.range(),
        state.records[k],
    ));
    assert(state.records[k] is Some);
}

/// No registration is replaced by two VMAs.
proof fn folded_once(
    state: UffdTableState,
    intent: UffdRegistrationIntent,
    vmas: Seq<MappingSnapshot>,
    n: int,
    i: int,
    j: int,
    k: int,
)
    requires
        has_deltas(state, intent, vmas, n),
        0 <= i < j < n,
        0 <= k < state.records.len(),
    ensures
        !(state.folded(intent, vmas[i])(state.records[k]) && state.folded(intent, vmas[j])(
            state.records[k],
        )),
{
    if state.folded(intent, vmas[i])(state.records[k]) && state.folded(intent, vmas[j])(
        state.records[k],
    ) {
        folded_lies_in_vma(state, intent, vmas, n, i, k);
        folded_lies_in_vma(state, intent, vmas, n, j, k);
        vmas_are_ordered(intent.range(), vmas, i, j);
    }
}

/// The VMAs replace no more registrations than there are.
proof fn removed_total_is_bounded(
    state: UffdTableState,
    intent: UffdRegistrationIntent,
    vmas: Seq<MappingSnapshot>,
    n: int,
)
    requires
        has_deltas(state, intent, vmas, n),
    ensures
        state.removed_total(intent, vmas, n) <= count(
            state.records,
            replaced_by_any(state, intent, vmas, n),
        ),
        state.removed_total(intent, vmas, n) <= occupied(state.records),
        state.replaced_total(intent, vmas, n) <= n,
    decreases n,
{
    let records = state.records;
    if n > 0 {
        removed_total_is_bounded(state, intent, vmas, n - 1);
        let before = replaced_by_any(state, intent, vmas, n - 1);
        let after = replaced_by_any(state, intent, vmas, n);
        let last = if state.delta_of(intent, vmas[n - 1]).no_op {
            |slot: Option<UffdRegistration>| false
        } else {
            state.folded(intent, vmas[n - 1])
        };
        if state.delta_of(intent, vmas[n - 1]).no_op {
            count_bounds(records, last);
        }
        assert forall|k: int| 0 <= k < records.len() implies !(before(#[trigger] records[k])
            && last(records[k])) by {
            if before(records[k]) && last(records[k]) {
                let i = choose|i: int|
                    0 <= i < n - 1 && !#[trigger] state.delta_of(intent, vmas[i]).no_op
                        && state.folded(intent, vmas[i])(records[k]);
                folded_once(state, intent, vmas, n, i, n - 1, k);
            }
        }
        assert forall|k: int|
            0 <= k < records.len() && (before(#[trigger] records[k]) || last(
                records[k],
            )) implies after(records[k]) by {
            if before(records[k]) {
                let i = choose|i: int|
                    0 <= i < n - 1 && !#[trigger] state.delta_of(intent, vmas[i]).no_op
                        && state.folded(intent, vmas[i])(records[k]);
                assert(!state.delta_of(intent, vmas[i]).no_op);
            } else {
                assert(!state.delta_of(intent, vmas[n - 1]).no_op);
            }
        }
        count_disjoint(records, before, last, after);
    }
    let any = replaced_by_any(state, intent, vmas, n);
    let never = |slot: Option<UffdRegistration>| false;
    assert forall|k: int| 0 <= k < records.len() && (any(#[trigger] records[k]) || never(
        records[k],
    )) implies is_full()(records[k]) by {
        let i = choose|i: int|
            0 <= i < n && !#[trigger] state.delta_of(intent, vmas[i]).no_op && state.folded(
                intent,
                vmas[i],
            )(records[k]);
        assert(state.folded(intent, vmas[i])(records[k]));
    }
    count_disjoint(records, any, never, is_full());
}

/// The identities chosen from one more slot.
proof fn chosen_ids_take_next(
    records: Seq<Option<UffdRegistration>>,
    p: spec_fn(Option<UffdRegistration>) -> bool,
    i: int,
)
    requires
        0 <= i < records.len(),
    ensures
        chosen_ids(records.take(i + 1), p) == if records[i] is Some && p(records[i]) {
            chosen_ids(records.take(i), p).push(records[i]->0.id())
        } else {
            chosen_ids(records.take(i), p)
        },
{
    assert(records.take(i + 1).drop_last() =~= records.take(i));
}

/// A settled fragment that is already registered is one of those that connect.
proof fn exact_fragment_connects(
    state: UffdTableState,
    intent: UffdRegistrationIntent,
    vma: MappingSnapshot,
    target: PageRange,
    range: PageRange,
    k: int,
)
    requires
        state.wf(),
        intent.valid(),
        built(state.records, intent, vma, target, range),
        0 <= k < state.records.len(),
        publishes(state.records[k], requested(intent.handler(), vma, range)),
    ensures
        connects(intent, vma, range, state.records[k]),
{
}

/// Identities are unique among the first slots too.
proof fn chosen_ids_are_the_ids(
    records: Seq<Option<UffdRegistration>>,
    p: spec_fn(Option<UffdRegistration>) -> bool,
)
    requires
        forall|k: int|
            0 <= k < records.len() && p(#[trigger] records[k]) ==> records[k] is Some,
        forall|i: int, j: int|
            0 <= i < j < records.len() && (#[trigger] records[i]) is Some && (#[trigger] records[j])
                is Some ==> records[i]->0.id() != records[j]->0.id(),
    ensures
        chosen_ids(records, p).len() == count(records, p),
        chosen_ids(records, p).no_duplicates(),
        forall|id: UffdRegistrationId| #[trigger]
            chosen_ids(records, p).contains(id) ==> exists|k: int|
                0 <= k < records.len() && p(#[trigger] records[k]) && records[k]->0.id() == id,
        forall|k: int|
            0 <= k < records.len() && p(#[trigger] records[k]) ==> chosen_ids(records, p).contains(
                records[k]->0.id(),
            ),
    decreases records.len(),
{
    if records.len() > 0 {
        let rest = records.drop_last();
        let n = records.len() - 1;
        assert forall|k: int| 0 <= k < rest.len() implies rest[k] == records[k] by {}
        chosen_ids_are_the_ids(rest, p);
        let before = chosen_ids(rest, p);
        let after = chosen_ids(records, p);
        assert(records[n] == records.last());
        if records.last() is Some && p(records.last()) {
            let last = records.last()->0.id();
            if before.contains(last) {
                let k = choose|k: int|
                    0 <= k < rest.len() && p(#[trigger] rest[k]) && rest[k]->0.id() == last;
                assert(records[k] is Some && records[n] is Some);
            }
            assert(after == before.push(last));
            assert forall|i: int, j: int|
                0 <= i < after.len() && 0 <= j < after.len() && i != j implies after[i]
                != after[j] by {
                if i == before.len() {
                    assert(before.contains(after[j]));
                } else if j == before.len() {
                    assert(before.contains(after[i]));
                }
            }
            assert forall|id: UffdRegistrationId| #[trigger] after.contains(id) implies exists|
                k: int,
            | 0 <= k < records.len() && p(#[trigger] records[k]) && records[k]->0.id() == id by {
                let i = choose|i: int| 0 <= i < after.len() && after[i] == id;
                if i < before.len() {
                    assert(before.contains(id));
                    let k = choose|k: int|
                        0 <= k < rest.len() && p(#[trigger] rest[k]) && rest[k]->0.id() == id;
                    assert(p(records[k]));
                } else {
                    assert(p(records[n]));
                }
            }
            assert forall|k: int|
                0 <= k < records.len() && p(#[trigger] records[k]) implies after.contains(
                records[k]->0.id(),
            ) by {
                if k < n {
                    assert(p(rest[k]));
                    assert(before.contains(rest[k]->0.id()));
                    let i = choose|i: int| 0 <= i < before.len() && before[i] == rest[k]->0.id();
                    assert(after[i] == rest[k]->0.id());
                } else {
                    assert(after[before.len() as int] == last);
                }
            }
        } else {
            assert forall|id: UffdRegistrationId| #[trigger] after.contains(id) implies exists|
                k: int,
            | 0 <= k < records.len() && p(#[trigger] records[k]) && records[k]->0.id() == id by {
                let k = choose|k: int|
                    0 <= k < rest.len() && p(#[trigger] rest[k]) && rest[k]->0.id() == id;
                assert(p(records[k]));
            }
            assert forall|k: int|
                0 <= k < records.len() && p(#[trigger] records[k]) implies after.contains(
                records[k]->0.id(),
            ) by {
                assert(k < n);
                assert(p(rest[k]));
            }
        }
    }
}

/// The record in slot `k` is replaced by the fragment of VMA `v`.
spec fn replaced_in(
    state: UffdTableState,
    intent: UffdRegistrationIntent,
    vmas: Seq<MappingSnapshot>,
    v: int,
    k: int,
) -> bool {
    &&& !state.delta_of(intent, vmas[v]).no_op
    &&& 0 <= k < state.records.len()
    &&& state.folded(intent, vmas[v])(state.records[k])
}

/// The identity belongs to a record that one of the first `n` VMAs replaces.
spec fn has_origin(
    state: UffdTableState,
    intent: UffdRegistrationIntent,
    vmas: Seq<MappingSnapshot>,
    n: int,
    id: UffdRegistrationId,
) -> bool {
    exists|v: int, k: int|
        0 <= v < n && #[trigger] replaced_in(state, intent, vmas, v, k) && state.records[k]->0.id()
            == id
}

/// What is removed are exactly the records that the fragments replace, each
/// once.
proof fn removed_ids_are_the_replaced(
    state: UffdTableState,
    intent: UffdRegistrationIntent,
    vmas: Seq<MappingSnapshot>,
    n: int,
)
    requires
        has_deltas(state, intent, vmas, n),
    ensures
        state.removed_ids(intent, vmas, n).len() == state.removed_total(intent, vmas, n),
        state.removed_ids(intent, vmas, n).no_duplicates(),
        forall|id: UffdRegistrationId| #[trigger]
            state.removed_ids(intent, vmas, n).contains(id) ==> has_origin(
                state,
                intent,
                vmas,
                n,
                id,
            ),
        forall|v: int, k: int|
            0 <= v < n && #[trigger] replaced_in(state, intent, vmas, v, k) ==> state.removed_ids(
                intent,
                vmas,
                n,
            ).contains(state.records[k]->0.id()),
    decreases n,
{
    if n > 0 {
        removed_ids_are_the_replaced(state, intent, vmas, n - 1);
        let p = state.folded(intent, vmas[n - 1]);
        let before = state.removed_ids(intent, vmas, n - 1);
        let after = state.removed_ids(intent, vmas, n);
        let chosen = chosen_ids(state.records, p);
        chosen_ids_are_the_ids(state.records, p);
        let no_op = state.delta_of(intent, vmas[n - 1]).no_op;
        assert forall|id: UffdRegistrationId| #[trigger] after.contains(id) implies has_origin(
            state,
            intent,
            vmas,
            n,
            id,
        ) by {
            let i = choose|i: int| 0 <= i < after.len() && after[i] == id;
            if no_op || i < before.len() {
                assert(before[i] == id);
                assert(before.contains(id));
                let (v, k) = choose|v: int, k: int|
                    0 <= v < n - 1 && #[trigger] replaced_in(state, intent, vmas, v, k)
                        && state.records[k]->0.id() == id;
                assert(replaced_in(state, intent, vmas, v, k));
            } else {
                assert(chosen[i - before.len()] == id);
                assert(chosen.contains(id));
                let k = choose|k: int|
                    0 <= k < state.records.len() && p(#[trigger] state.records[k])
                        && state.records[k]->0.id() == id;
                assert(replaced_in(state, intent, vmas, n - 1, k));
            }
        }
        assert forall|v: int, k: int|
            0 <= v < n && #[trigger] replaced_in(state, intent, vmas, v, k) implies after.contains(
            state.records[k]->0.id(),
        ) by {
            let id = state.records[k]->0.id();
            if v < n - 1 {
                assert(before.contains(id));
                let i = choose|i: int| 0 <= i < before.len() && before[i] == id;
                assert(after[i] == id);
            } else {
                assert(p(state.records[k]));
                assert(chosen.contains(id));
                let i = choose|i: int| 0 <= i < chosen.len() && chosen[i] == id;
                assert(after[before.len() + i] == id);
            }
        }
        if !no_op {
            assert forall|i: int, j: int|
                0 <= i < before.len() && 0 <= j < chosen.len() implies before[i] != chosen[j] by {
                if before[i] == chosen[j] {
                    assert(before.contains(before[i]));
                    assert(chosen.contains(chosen[j]));
                    let (v, k) = choose|v: int, k: int|
                        0 <= v < n - 1 && #[trigger] replaced_in(state, intent, vmas, v, k)
                            && state.records[k]->0.id() == before[i];
                    let m = choose|m: int|
                        0 <= m < state.records.len() && p(#[trigger] state.records[m])
                            && state.records[m]->0.id() == chosen[j];
                    assert(state.records[k] is Some && state.records[m] is Some);
                    if k < m {
                        assert(state.records[k]->0.id() != state.records[m]->0.id());
                    } else if m < k {
                        assert(state.records[m]->0.id() != state.records[k]->0.id());
                    }
                    folded_once(state, intent, vmas, n, v, n - 1, k);
                }
            }
            assert(after == before + chosen);
            assert forall|i: int, j: int|
                0 <= i < after.len() && 0 <= j < after.len() && i != j implies after[i]
                != after[j] by {
                let b = before.len() as int;
                if i < b && j < b {
                    assert(before[i] != before[j]);
                } else if i < b {
                    assert(before[i] != chosen[j - b]);
                } else if j < b {
                    assert(before[j] != chosen[i - b]);
                } else {
                    assert(chosen[i - b] != chosen[j - b]);
                }
            }
        }
    }
}

/// The fragment of an accepted VMA: its owner, its place in the VMA, and that
/// whatever overlaps it is replaced by it.
proof fn fragment_facts(
    state: UffdTableState,
    intent: UffdRegistrationIntent,
    vmas: Seq<MappingSnapshot>,
    n: int,
    v: int,
)
    requires
        has_deltas(state, intent, vmas, n),
        0 <= v < n,
    ensures
        ({
            let desired = state.delta_of(intent, vmas[v]).desired;
            &&& desired == requested(intent.handler(), vmas[v], desired.range())
            &&& desired.address_space() == vmas[0].address_space()
            &&& vmas[v].range().contains(desired.range())
            &&& desired.range().start() < desired.range().end()
            &&& forall|k: int|
                0 <= k < state.records.len() && (#[trigger] state.records[k]) is Some
                    && state.records[k]->0.address_space() == desired.address_space()
                    && ranges_overlap(state.records[k]->0.range(), desired.range())
                    ==> state.folded(intent, vmas[v])(state.records[k])
        }),
{
    let vma = vmas[v];
    let desired = state.delta_of(intent, vma).desired;
    let range = desired.range();
    let target = intersection(intent.range(), vma.range());
    let order = vma_check(intent.range(), vmas);
    first_error_none(order, vmas.len() as int);
    assert(order(v) is None);
    assert(vma_error(intent.range(), vmas, v) is None);
    fragments_are_transitive_unions(state, intent, vma);
    let check = state.target_check(intent, vma);
    first_error_none(check, state.records.len() as int);
    assert forall|k: int|
        0 <= k < state.records.len() && (#[trigger] state.records[k]) is Some
            && state.records[k]->0.address_space() == desired.address_space() && ranges_overlap(
            state.records[k]->0.range(),
            range,
        ) implies state.folded(intent, vma)(state.records[k]) by {
        let live = state.records[k]->0;
        assert(live.request().valid());
        let address: int = if live.range().start() < range.start() {
            range.start() as int
        } else {
            live.range().start() as int
        };
        assert(accounted(state.records, intent, vma, target, range, address));
        if target.start() <= address < target.end() {
            assert(check(k) is None);
            assert(state.target_error(intent, vma, k) is None);
        } else {
            let m = choose|m: int|
                0 <= m < state.records.len() && #[trigger] connects(
                    intent,
                    vma,
                    range,
                    state.records[m],
                ) && state.records[m]->0.range().start() <= address
                    < state.records[m]->0.range().end();
            if m < k {
                assert(are_disjoint(state.records[m]->0, live));
            } else if k < m {
                assert(are_disjoint(live, state.records[m]->0));
            }
        }
        assert(connects(intent, vma, range, state.records[k]));
    }
}

/// Each new fragment comes from a VMA that is not already satisfied.
proof fn fragment_origin(
    state: UffdTableState,
    intent: UffdRegistrationIntent,
    vmas: Seq<MappingSnapshot>,
    n: int,
    j: int,
) -> (v: int)
    requires
        0 <= j < state.new_fragments(intent, vmas, n).len(),
    ensures
        0 <= v < n,
        !state.delta_of(intent, vmas[v]).no_op,
        state.new_fragments(intent, vmas, n)[j] == state.delta_of(intent, vmas[v]).desired,
    decreases n,
{
    let rest = state.new_fragments(intent, vmas, n - 1);
    if state.delta_of(intent, vmas[n - 1]).no_op || j < rest.len() {
        fragment_origin(state, intent, vmas, n - 1, j)
    } else {
        n - 1
    }
}

/// New fragments come one per VMA that is not already satisfied, and share no
/// address.
proof fn fragments_share_nothing(
    state: UffdTableState,
    intent: UffdRegistrationIntent,
    vmas: Seq<MappingSnapshot>,
    n: int,
)
    requires
        has_deltas(state, intent, vmas, n),
    ensures
        state.new_fragments(intent, vmas, n).len() == state.replaced_total(intent, vmas, n),
        forall|i: int, j: int|
            0 <= i < j < state.new_fragments(intent, vmas, n).len() ==> !ranges_overlap(
                (#[trigger] state.new_fragments(intent, vmas, n)[i]).range(),
                (#[trigger] state.new_fragments(intent, vmas, n)[j]).range(),
            ),
        forall|v: int|
            0 <= v < n && !(#[trigger] state.delta_of(intent, vmas[v])).no_op
                ==> state.new_fragments(intent, vmas, n).contains(
                state.delta_of(intent, vmas[v]).desired,
            ),
    decreases n,
{
    if n > 0 {
        fragments_share_nothing(state, intent, vmas, n - 1);
        let before = state.new_fragments(intent, vmas, n - 1);
        let after = state.new_fragments(intent, vmas, n);
        assert forall|i: int, j: int| 0 <= i < j < after.len() implies !ranges_overlap(
            (#[trigger] after[i]).range(),
            (#[trigger] after[j]).range(),
        ) by {
            if j < before.len() {
                assert(after[i] == before[i] && after[j] == before[j]);
            } else {
                assert(after[i] == before[i]);
                let v = fragment_origin(state, intent, vmas, n - 1, i);
                fragment_facts(state, intent, vmas, n, v);
                fragment_facts(state, intent, vmas, n, n - 1);
                vmas_are_ordered(intent.range(), vmas, v, n - 1);
            }
        }
        assert forall|v: int|
            0 <= v < n && !(#[trigger] state.delta_of(intent, vmas[v])).no_op implies after.contains(
            state.delta_of(intent, vmas[v]).desired,
        ) by {
            let desired = state.delta_of(intent, vmas[v]).desired;
            if v < n - 1 {
                assert(before.contains(desired));
                let i = choose|i: int| 0 <= i < before.len() && before[i] == desired;
                assert(after[i] == desired);
            } else {
                assert(after[before.len() as int] == desired);
            }
        }
    }
}

/// Where every request is fresh, all are counted.
proof fn all_fresh(
    state: UffdTableState,
    removed: Seq<UffdRegistrationId>,
    requests: Seq<UffdRegistrationRequest>,
    n: int,
)
    requires
        0 <= n <= requests.len(),
        forall|i: int| 0 <= i < n ==> #[trigger] state.is_fresh(removed, requests, i),
    ensures
        state.fresh_count(removed, requests, n) == n,
    decreases n,
{
    if n > 0 {
        all_fresh(state, removed, requests, n - 1);
        assert(state.is_fresh(removed, requests, n - 1));
    }
}

/// A planned delta commits: submitted as one batch, what it removes and what it
/// asks for is accepted, and afterwards every VMA's part of the range belongs
/// to the handler under the VMA's one fragment.
pub proof fn planned_deltas_commit(
    state: UffdTableState,
    intent: UffdRegistrationIntent,
    vmas: Seq<MappingSnapshot>,
)
    requires
        state.wf(),
        intent.valid(),
        forall|k: int| 0 <= k < vmas.len() ==> (#[trigger] vmas[k]).range().valid(),
        state.delta_error(intent, vmas) is None,
    ensures
        ({
            let n = vmas.len() as int;
            let removed = state.removed_ids(intent, vmas, n);
            let requests = state.new_fragments(intent, vmas, n);
            let after = state.committed(removed, requests);
            &&& removed.len() == state.removed_total(intent, vmas, n)
            &&& requests.len() == state.replaced_total(intent, vmas, n)
            &&& removed.len() + requests.len() > 0 ==> state.batch_error(removed, requests, true)
                is None
            &&& removed.len() + requests.len() == 0 ==> after == state
            &&& after.wf()
            &&& state.may_become(after)
            &&& forall|v: int|
                0 <= v < n ==> is_published(
                    after.records,
                    (#[trigger] state.delta_of(intent, vmas[v])).desired,
                )
            &&& forall|v: int|
                0 <= v < n ==> (#[trigger] state.delta_of(
                    intent,
                    vmas[v],
                )).desired.range().contains(intersection(intent.range(), vmas[v].range()))
        }),
{
    let n = vmas.len() as int;
    let removed = state.removed_ids(intent, vmas, n);
    let requests = state.new_fragments(intent, vmas, n);
    let after = state.committed(removed, requests);
    let records = state.records;
    let deltas = state.delta_check(intent, vmas);
    first_error_none(deltas, n);
    assert forall|k: int| 0 <= k < n implies state.delta(intent, #[trigger] vmas[k]) is Ok by {
        assert(deltas(k) is None);
    }
    assert(has_deltas(state, intent, vmas, n));
    removed_ids_are_the_replaced(state, intent, vmas, n);
    fragments_share_nothing(state, intent, vmas, n);
    let owner = UffdOwner {
        handler: intent.handler(),
        address_space: vmas[0].address_space(),
        mode: intent.mode(),
    };
    let order = vma_check(intent.range(), vmas);
    first_error_none(order, n);
    // Every removal is live, single, and of the intent's owner.
    let removal = state.removal_check(removed, true);
    assert forall|i: int| 0 <= i < removed.len() implies state.is_live(#[trigger] removed[i])
        && state.registration(removed[i]).request().owner() == owner && !removed.take(i).contains(
        removed[i],
    ) by {
        assert(removed.contains(removed[i]));
        let (v, k) = choose|v: int, k: int|
            0 <= v < n && #[trigger] replaced_in(state, intent, vmas, v, k)
                && records[k]->0.id() == removed[i];
        assert(state.id_at(removed[i], k));
        id_slots_are_unique(state, removed[i], k);
        assert(order(v) is None);
        assert(vma_error(intent.range(), vmas, v) is None);
        if removed.take(i).contains(removed[i]) {
            let j = choose|j: int|
                0 <= j < removed.take(i).len() && removed.take(i)[j] == removed[i];
            assert(removed[j] == removed[i]);
        }
    }
    assert forall|i: int| 0 <= i < removed.len() implies (#[trigger] removal(i)) is None by {
        assert(state.is_live(removed[i]) && state.is_live(removed[0]));
        assert(state.removal_error(removed, true, i) is None);
    }
    first_error_none(removal, removed.len() as int);
    // Every request is of the same owner, overlaps no other, and whatever it
    // overlaps in the table is removed.
    let checks = state.request_check(removed, requests, true);
    assert forall|i: int| 0 <= i < requests.len() implies {
        &&& (#[trigger] checks(i)) is None
        &&& state.is_fresh(removed, requests, i)
        &&& requests[i].valid()
    } by {
        let v = fragment_origin(state, intent, vmas, n, i);
        fragment_facts(state, intent, vmas, n, v);
        fragments_are_transitive_unions_valid(state, intent, vmas, n, v);
        let request = requests[i];
        assert(request.owner() == owner);
        assert(state.batch_owner(removed, requests) == owner) by {
            if removed.len() > 0 {
                assert(state.is_live(removed[0]));
            } else {
                let first = fragment_origin(state, intent, vmas, n, 0);
                fragment_facts(state, intent, vmas, n, first);
            }
        }
        assert forall|j: int| 0 <= j < i implies #[trigger] requests[j] != requests[i]
            && !ranges_overlap(requests[j].range(), requests[i].range()) by {
            assert(!ranges_overlap(requests[j].range(), requests[i].range()));
        }
        assert(!overlaps_earlier(requests, i));
        assert(!is_repeat(requests, i));
        let slots = state.slot_check(removed, request);
        assert forall|k: int| 0 <= k < records.len() implies (#[trigger] slots(k)) is None by {
            if records[k] is Some && records[k]->0.address_space() == request.address_space()
                && ranges_overlap(records[k]->0.range(), request.range()) {
                assert(state.folded(intent, vmas[v])(records[k]));
                assert(replaced_in(state, intent, vmas, v, k));
                assert(removed.contains(records[k]->0.id()));
            }
            assert(state.slot_conflict(removed, request, k) is None);
        }
        first_error_none(slots, records.len() as int);
        assert(state.request_error(removed, requests, true, i) is None);
        let retained = state.retained(removed);
        if is_published(retained, request) {
            let k = choose|k: int|
                0 <= k < retained.len() && #[trigger] publishes(retained[k], request);
            assert(records[k] is Some);
            assert(state.folded(intent, vmas[v])(records[k]));
            assert(replaced_in(state, intent, vmas, v, k));
            assert(removed.contains(records[k]->0.id()));
        }
    }
    first_error_none(checks, requests.len() as int);
    assert forall|i: int| 0 <= i < requests.len() implies #[trigger] state.is_fresh(
        removed,
        requests,
        i,
    ) by {
        assert(checks(i) is None);
    }
    all_fresh(state, removed, requests, requests.len() as int);
    assert forall|i: int| 0 <= i < requests.len() implies (#[trigger] requests[i]).valid() by {
        assert(checks(i) is None);
    }
    if removed.len() + requests.len() == 0 {
        assert(state.retained(removed) =~= records);
        assert(after =~= state);
    } else {
        assert(state.batch_error(removed, requests, true) is None);
        batches_change_only_what_they_name(
            state,
            removed,
            requests,
            true,
            UffdRegistrationId(1),
        );
    }
    assert forall|v: int| 0 <= v < n implies is_published(
        after.records,
        (#[trigger] state.delta_of(intent, vmas[v])).desired,
    ) && state.delta_of(intent, vmas[v]).desired.range().contains(
        intersection(intent.range(), vmas[v].range()),
    ) by {
        let desired = state.delta_of(intent, vmas[v]).desired;
        assert(order(v) is None);
        assert(vma_error(intent.range(), vmas, v) is None);
        fragments_are_transitive_unions(state, intent, vmas[v]);
        if !state.delta_of(intent, vmas[v]).no_op {
            assert(requests.contains(desired));
            let i = choose|i: int| 0 <= i < requests.len() && requests[i] == desired;
            assert(is_published(after.records, requests[i]));
        } else {
            let k = choose|k: int| 0 <= k < records.len() && #[trigger] publishes(
                records[k],
                desired,
            );
            let id = records[k]->0.id();
            exact_fragment_connects(
                state,
                intent,
                vmas[v],
                intersection(intent.range(), vmas[v].range()),
                desired.range(),
                k,
            );
            assert(state.folded(intent, vmas[v])(records[k]));
            assert(state.id_at(id, k));
            id_slots_are_unique(state, id, k);
            if removed.contains(id) {
                let (w, m) = choose|w: int, m: int|
                    0 <= w < n && #[trigger] replaced_in(state, intent, vmas, w, m)
                        && records[m]->0.id() == id;
                assert(state.id_at(id, m));
                id_slots_are_unique(state, id, m);
                if w < v {
                    folded_once(state, intent, vmas, n, w, v, k);
                } else {
                    folded_once(state, intent, vmas, n, v, w, k);
                }
            }
            if removed.len() + requests.len() > 0 {
                batches_change_only_what_they_name(state, removed, requests, true, id);
                let i = after.slot_of(id);
                assert(after.id_at(id, i));
                assert(publishes(after.records[i], desired));
            } else {
                assert(publishes(after.records[k], desired));
            }
        }
    }
}

/// A fragment's bounds are page aligned, because the bounds of what it was
/// built from are.
proof fn fragments_are_transitive_unions_valid(
    state: UffdTableState,
    intent: UffdRegistrationIntent,
    vmas: Seq<MappingSnapshot>,
    n: int,
    v: int,
)
    requires
        has_deltas(state, intent, vmas, n),
        0 <= v < n,
    ensures
        state.delta_of(intent, vmas[v]).desired.valid(),
{
    let vma = vmas[v];
    let order = vma_check(intent.range(), vmas);
    first_error_none(order, vmas.len() as int);
    assert(order(v) is None);
    assert(vma_error(intent.range(), vmas, v) is None);
    let target = intersection(intent.range(), vma.range());
    target_is_built(state.records, intent, vma);
    settled_is_aligned(state, intent, vma, target, target);
}

proof fn grown_is_aligned(
    state: UffdTableState,
    intent: UffdRegistrationIntent,
    vma: MappingSnapshot,
    desired: PageRange,
    n: int,
)
    requires
        state.wf(),
        desired.valid(),
        0 <= n <= state.records.len(),
    ensures
        grow(state.records, intent, vma, desired, n) matches Ok(grown) ==> grown.valid(),
    decreases n,
{
    if n > 0 {
        grown_is_aligned(state, intent, vma, desired, n - 1);
        if state.records[n - 1] is Some {
            assert(state.records[n - 1]->0.request().valid());
        }
    }
}

proof fn settled_is_aligned(
    state: UffdTableState,
    intent: UffdRegistrationIntent,
    vma: MappingSnapshot,
    target: PageRange,
    desired: PageRange,
)
    requires
        state.wf(),
        desired.valid(),
        built(state.records, intent, vma, target, desired),
    ensures
        settle(state.records, intent, vma, desired) matches Ok(range) ==> range.valid(),
    decreases
            (vma.range().end() - vma.range().start()) - (desired.end() - desired.start()),
{
    let n = state.records.len() as int;
    grown_is_aligned(state, intent, vma, desired, n);
    growing_keeps_shape(state, intent, vma, target, desired, n);
    if let Ok(grown) = grow(state.records, intent, vma, desired, n) {
        if grown.end() - grown.start() > desired.end() - desired.start() {
            settled_is_aligned(state, intent, vma, target, grown);
        }
    }
}

/// The slot holds a registration that overlaps or abuts `range`.
pub open spec fn touches(slot: Option<UffdRegistration>, range: PageRange) -> bool {
    slot is Some && ranges_touch(slot->0.range(), range)
}

/// Tells the slots that overlap or abut `range`.
pub open spec fn touching(range: PageRange) -> spec_fn(Option<UffdRegistration>) -> bool {
    |slot: Option<UffdRegistration>| touches(slot, range)
}

/// The interval holds every registration that it overlaps or abuts.
pub open spec fn takes_in(records: Seq<Option<UffdRegistration>>, range: PageRange) -> bool {
    forall|k: int|
        0 <= k < records.len() && #[trigger] touches(records[k], range) ==> range.contains(
            records[k]->0.range(),
        )
}

/// `union` is the least interval that holds `target` and takes in every
/// registration that it overlaps or abuts.
pub open spec fn interval_union(
    records: Seq<Option<UffdRegistration>>,
    target: PageRange,
    union: PageRange,
) -> bool {
    &&& union.contains(target)
    &&& takes_in(records, union)
    &&& forall|other: PageRange|
        #![trigger takes_in(records, other)]
        takes_in(records, other) && other.contains(target) ==> other.contains(union)
}

/// There is only one interval union.
pub proof fn interval_unions_are_unique(
    records: Seq<Option<UffdRegistration>>,
    target: PageRange,
    a: PageRange,
    b: PageRange,
)
    requires
        interval_union(records, target, a),
        interval_union(records, target, b),
    ensures
        a == b,
{
    assert(a.contains(b) && b.contains(a));
}

/// The registration is the handler's, of this mapping generation, and lies in
/// the mapping.
pub open spec fn belongs(
    intent: UffdRegistrationIntent,
    vma: MappingSnapshot,
    registration: UffdRegistration,
) -> bool {
    &&& registration.handler() == intent.handler()
    &&& registration.address_space() == vma.address_space()
    &&& registration.mapping() == vma.mapping()
    &&& registration.generation() == vma.generation()
    &&& vma.range().contains(registration.range())
}

/// Where two predicates agree on every slot they choose the same identities.
proof fn chosen_ids_agree(
    records: Seq<Option<UffdRegistration>>,
    p: spec_fn(Option<UffdRegistration>) -> bool,
    q: spec_fn(Option<UffdRegistration>) -> bool,
)
    requires
        forall|k: int| 0 <= k < records.len() ==> p(#[trigger] records[k]) == q(records[k]),
    ensures
        chosen_ids(records, p) == chosen_ids(records, q),
    decreases records.len(),
{
    if records.len() > 0 {
        let rest = records.drop_last();
        assert forall|k: int| 0 <= k < rest.len() implies p(#[trigger] rest[k]) == q(rest[k]) by {
            assert(rest[k] == records[k]);
        }
        chosen_ids_agree(rest, p, q);
        let n = records.len() - 1;
        assert(records[n] == records.last());
    }
}

/// Registering part of one mapping whose registrations are all the handler's is
/// taking the interval union: where one registration alone touches the union and
/// is it already, nothing is removed and nothing asked for. Otherwise every
/// registration that overlaps or abuts the union is removed, once each and in
/// table order, and one fragment over the union is asked for.
pub proof fn the_delta_of_one_mapping_is_the_interval_union(
    state: UffdTableState,
    intent: UffdRegistrationIntent,
    vma: MappingSnapshot,
    union: PageRange,
)
    requires
        state.wf(),
        intent.valid(),
        vma.range().valid(),
        forall|k: int|
            0 <= k < state.records.len() && (#[trigger] state.records[k]) is Some ==> belongs(
                intent,
                vma,
                state.records[k]->0,
            ),
        state.delta_error(intent, seq![vma]) is None,
        union == state.delta_of(intent, vma).desired.range(),
    ensures
        interval_union(state.records, intersection(intent.range(), vma.range()), union),
        ({
            let vmas = seq![vma];
            let alone = count(state.records, touching(union)) == 1 && exists|k: int|
                0 <= k < state.records.len() && #[trigger] touches(state.records[k], union)
                    && state.records[k]->0.range() == union;
            let removed = state.removed_ids(intent, vmas, 1);
            let fragments = state.new_fragments(intent, vmas, 1);
            &&& removed == if alone {
                Seq::<UffdRegistrationId>::empty()
            } else {
                chosen_ids(state.records, touching(union))
            }
            &&& fragments == if alone {
                Seq::<UffdRegistrationRequest>::empty()
            } else {
                seq![requested(intent.handler(), vma, union)]
            }
            &&& removed.len() == state.removed_total(intent, vmas, 1)
            &&& fragments.len() == state.replaced_total(intent, vmas, 1)
        }),
{
    let vmas = seq![vma];
    let records = state.records;
    let target = intersection(intent.range(), vma.range());
    assert(vmas[0] == vma);
    let order = vma_check(intent.range(), vmas);
    first_error_none(order, 1);
    assert(order(0) is None);
    assert(vma_error(intent.range(), vmas, 0) is None);
    let deltas = state.delta_check(intent, vmas);
    first_error_none(deltas, 1);
    assert(deltas(0) is None);
    assert(has_deltas(state, intent, vmas, 1));
    fragments_are_transitive_unions(state, intent, vma);
    // What connects is what touches, because every registration belongs.
    assert forall|k: int, range: PageRange|
        0 <= k < records.len() implies #[trigger] connects(intent, vma, range, records[k])
        == touches(records[k], range) by {
        if records[k] is Some {
            assert(belongs(intent, vma, records[k]->0));
            assert(records[k]->0.request().valid());
        }
    }
    assert(takes_in(records, union)) by {
        assert forall|k: int|
            0 <= k < records.len() && #[trigger] touches(records[k], union) implies union.contains(
            records[k]->0.range(),
        ) by {
            assert(connects(intent, vma, union, records[k]));
        }
    }
    assert forall|other: PageRange|
        #![trigger takes_in(records, other)]
        takes_in(records, other) && other.contains(target) implies other.contains(union) by {
        assert(closed_over(records, intent, vma, other)) by {
            assert forall|k: int|
                0 <= k < records.len() && #[trigger] connects(
                    intent,
                    vma,
                    other,
                    records[k],
                ) implies other.contains(records[k]->0.range()) by {
                assert(touches(records[k], other));
            }
        }
    }
    let p = connected(intent, vma, union);
    let q = touching(union);
    assert forall|k: int| 0 <= k < records.len() implies p(#[trigger] records[k]) == q(
        records[k],
    ) by {
        assert(connects(intent, vma, union, records[k]) == touches(records[k], union));
    }
    count_agrees(records, records, p, q);
    chosen_ids_agree(records, p, q);
    let desired = requested(intent.handler(), vma, union);
    let published = is_published(records, desired);
    let alike = exists|k: int|
        0 <= k < records.len() && #[trigger] touches(records[k], union)
            && records[k]->0.range() == union;
    if published {
        let k = choose|k: int| 0 <= k < records.len() && #[trigger] publishes(records[k], desired);
        exact_fragment_connects(state, intent, vma, target, union, k);
        assert(touches(records[k], union));
    }
    if alike {
        let k = choose|k: int|
            0 <= k < records.len() && #[trigger] touches(records[k], union)
                && records[k]->0.range() == union;
        assert(belongs(intent, vma, records[k]->0));
        assert(records[k]->0.request().valid());
        assert(publishes(records[k], desired));
    }
    removed_ids_are_the_replaced(state, intent, vmas, 1);
    fragments_share_nothing(state, intent, vmas, 1);
    reveal_with_fuel(UffdTableState::removed_ids, 2);
    reveal_with_fuel(UffdTableState::new_fragments, 2);
    assert(state.removed_ids(intent, vmas, 0) == Seq::<UffdRegistrationId>::empty());
    assert(state.removed_ids(intent, vmas, 1) =~= if published && count(records, q) == 1 {
        Seq::<UffdRegistrationId>::empty()
    } else {
        chosen_ids(records, q)
    });
    assert(state.new_fragments(intent, vmas, 1) =~= if published && count(records, q) == 1 {
        Seq::<UffdRegistrationRequest>::empty()
    } else {
        seq![desired]
    });
}

fn validate_vmas(range: PageRange, vmas: &[MappingSnapshot]) -> (result: Result<
    AddressSpaceId,
    MmError,
>)
    ensures
        match result {
            Ok(address_space) => {
                &&& vmas_error(range, vmas@) is None
                &&& address_space == vmas@[0].address_space()
                &&& forall|k: int| 0 <= k < vmas@.len() ==> (#[trigger] vmas@[k]).range().valid()
            },
            Err(error) => vmas_error(range, vmas@) == Some(error),
        },
{
    if vmas.len() == 0 {
        return Err(MmError::RangeNotMapped);
    }
    let address_space = vmas[0].address_space();
    let ghost check = vma_check(range, vmas@);
    let mut i: usize = 0;
    while i < vmas.len()
        invariant
            vmas@.len() > 0,
            address_space == vmas@[0].address_space(),
            check == vma_check(range, vmas@),
            i <= vmas@.len(),
            first_error(check, i as int) is None,
            forall|k: int| 0 <= k < i ==> (#[trigger] vmas@[k]).range().valid(),
        decreases vmas@.len() - i,
    {
        let snapshot = vmas[i];
        proof {
            use_type_invariant(&snapshot.range);
            assert(check(i as int) == vma_error(range, vmas@, i as int));
        }
        if snapshot.address_space() != address_space || snapshot.kind()
            != MappingKind::AnonymousPrivate || snapshot.range().page_size() != range.page_size()
            || (i > 0 && snapshot.range().start() < vmas[i - 1].range().end())
            || page_range_intersection(range, snapshot.range()).is_none() {
            proof {
                first_error_stops(check, i as int, vmas@.len() as int);
            }
            return Err(MmError::InvalidUffdRegistrationBatch);
        }
        i = i + 1;
    }
    Ok(address_space)
}

impl<const CAPACITY: usize> UffdRegistrationTable<CAPACITY> {
    /// Plans Linux's same-handler partial UFFDIO_REGISTER interval law.
    ///
    /// The vmas slice contains every compatible current VMA snapshot
    /// intersecting the requested range, in strictly increasing
    /// non-overlapping order. Gaps are allowed and remain gaps. The planner
    /// computes transitive same-handler interval union inside each supplied
    /// VMA, detects foreign ownership, revalidates every folded
    /// mapping/generation lineage, and preflights table capacity, identity
    /// exhaustion, and sealed revision before emitting any delta. A stale
    /// sidecar must first use the explicit mapping-replacement transaction.
    pub fn preflight_register_delta(
        &self,
        api: &UffdApiState,
        intent: UffdRegistrationIntent,
        vmas: &[MappingSnapshot],
    ) -> (result: Result<UffdRegistrationDeltaPlan, MmError>)
        requires
            self.wf(),
        ensures
            match result {
                Ok(plan) => {
                    &&& api.lifecycle() is Initialized
                    &&& self@.delta_error(intent, vmas@) is None
                    &&& self@.is_delta_plan(intent, vmas@, plan)
                },
                Err(error) => if api.lifecycle() is Created {
                    error == MmError::UffdNotInitialized
                } else {
                    self@.delta_error(intent, vmas@) == Some(error)
                },
            },
    {
        match api.require_initialized() {
            Ok(()) => {},
            Err(error) => return Err(error),
        }
        self.plan_register_delta(intent, vmas)
    }

    /// Replays a preflighted canonical delta into caller-owned bounded storage.
    ///
    /// The adapter first checks its storage against
    /// [UffdRegistrationDeltaPlan::removed] and
    /// [UffdRegistrationDeltaPlan::replacements]. If no IDs are removed it
    /// atomically submits the requests through [Self::register_batch];
    /// otherwise it submits both slices through [Self::replace_batch].
    pub fn replay_register_delta(
        &self,
        plan: UffdRegistrationDeltaPlan,
        intent: UffdRegistrationIntent,
        vmas: &[MappingSnapshot],
        remove: &mut Vec<UffdRegistrationId>,
        replace: &mut Vec<UffdRegistrationRequest>,
    ) -> (result: Result<(), MmError>)
        requires
            self.wf(),
        ensures
            ({
                let n = vmas@.len() as int;
                match result {
                    Ok(()) => {
                        &&& self@.delta_error(intent, vmas@) is None
                        &&& self@.is_delta_plan(intent, vmas@, plan)
                        &&& final(remove)@ == old(remove)@ + self@.removed_ids(intent, vmas@, n)
                        &&& final(replace)@ == old(replace)@ + self@.new_fragments(
                            intent,
                            vmas@,
                            n,
                        )
                    },
                    Err(error) => {
                        &&& final(remove)@ == old(remove)@
                        &&& final(replace)@ == old(replace)@
                        &&& if self@.revision != plan.revision() {
                            error == MmError::StaleGeneration
                        } else if self@.delta_error(intent, vmas@) is Some {
                            self@.delta_error(intent, vmas@) == Some(error)
                        } else {
                            &&& !self@.is_delta_plan(intent, vmas@, plan)
                            &&& error == MmError::StaleGeneration
                        }
                    },
                }
            }),
    {
        if self.revision != plan.revision {
            return Err(MmError::StaleGeneration);
        }
        let current = match self.plan_register_delta(intent, vmas) {
            Ok(current) => current,
            Err(error) => return Err(error),
        };
        if current != plan {
            return Err(MmError::StaleGeneration);
        }
        proof {
            use_type_invariant(&intent);
            first_error_none(self@.delta_check(intent, vmas@), vmas@.len() as int);
            first_error_none(vma_check(intent.range(), vmas@), vmas@.len() as int);
            assert forall|k: int| 0 <= k < vmas@.len() implies self@.delta(
                intent,
                #[trigger] vmas@[k],
            ) is Ok by {
                assert(self@.delta_check(intent, vmas@)(k) is None);
            }
            assert forall|k: int| 0 <= k < vmas@.len() implies ranges_meet(
                intent.range(),
                (#[trigger] vmas@[k]).range(),
            ) && vmas@[k].kind() is AnonymousPrivate by {
                assert(vma_check(intent.range(), vmas@)(k) is None);
                assert(vma_error(intent.range(), vmas@, k) is None);
            }
        }
        let ghost removed_before = remove@;
        let ghost replaced_before = replace@;
        proof {
            assert(remove@ =~= removed_before + self@.removed_ids(intent, vmas@, 0));
            assert(replace@ =~= replaced_before + self@.new_fragments(intent, vmas@, 0));
        }
        let mut i: usize = 0;
        while i < vmas.len()
            invariant
                self.wf(),
                intent.valid(),
                i <= vmas@.len(),
                forall|k: int|
                    0 <= k < vmas@.len() ==> self@.delta(intent, #[trigger] vmas@[k]) is Ok,
                forall|k: int|
                    0 <= k < vmas@.len() ==> ranges_meet(
                        intent.range(),
                        (#[trigger] vmas@[k]).range(),
                    ) && vmas@[k].kind() is AnonymousPrivate,
                remove@ == removed_before + self@.removed_ids(intent, vmas@, i as int),
                replace@ == replaced_before + self@.new_fragments(intent, vmas@, i as int),
            decreases vmas@.len() - i,
        {
            let snapshot = vmas[i];
            if let Ok(delta) = self.canonical_register_delta(intent, snapshot) {
                if !delta.no_op {
                    let ghost listed = remove@;
                    self.list_folded(intent, snapshot, delta.desired.range(), remove);
                    replace.push(delta.desired);
                    proof {
                        assert(remove@ =~= removed_before + self@.removed_ids(
                            intent,
                            vmas@,
                            i as int + 1,
                        ));
                        assert(replace@ =~= replaced_before + self@.new_fragments(
                            intent,
                            vmas@,
                            i as int + 1,
                        ));
                    }
                }
            }
            i = i + 1;
        }
        Ok(())
    }

    /// Checks the VMAs of an UFFDIO_UNREGISTER range and returns their address
    /// space.
    pub fn validate_unregister_vmas(
        &self,
        api: &UffdApiState,
        range: PageRange,
        vmas: &[MappingSnapshot],
    ) -> (result: Result<AddressSpaceId, MmError>)
        ensures
            match result {
                Ok(address_space) => {
                    &&& api.lifecycle() is Initialized
                    &&& vmas_error(range, vmas@) is None
                    &&& address_space == vmas@[0].address_space()
                },
                Err(error) => if api.lifecycle() is Created {
                    error == MmError::UffdNotInitialized
                } else {
                    vmas_error(range, vmas@) == Some(error)
                },
            },
    {
        match api.require_initialized() {
            Ok(()) => {},
            Err(error) => return Err(error),
        }
        validate_vmas(range, vmas)
    }

    fn plan_register_delta(&self, intent: UffdRegistrationIntent, vmas: &[MappingSnapshot]) -> (result:
        Result<UffdRegistrationDeltaPlan, MmError>)
        requires
            self.wf(),
        ensures
            match result {
                Ok(plan) => {
                    &&& self@.delta_error(intent, vmas@) is None
                    &&& self@.is_delta_plan(intent, vmas@, plan)
                },
                Err(error) => self@.delta_error(intent, vmas@) == Some(error),
            },
    {
        match validate_vmas(intent.range(), vmas) {
            Ok(_) => {},
            Err(error) => return Err(error),
        }
        let ghost check = self@.delta_check(intent, vmas@);
        let ghost order = vma_check(intent.range(), vmas@);
        let mut removed: usize = 0;
        let mut replacements: usize = 0;
        let mut i: usize = 0;
        proof {
            use_type_invariant(&intent);
            first_error_none(order, vmas@.len() as int);
        }
        while i < vmas.len()
            invariant
                self.wf(),
                intent.valid(),
                check == self@.delta_check(intent, vmas@),
                order == vma_check(intent.range(), vmas@),
                vmas@.len() > 0,
                vmas_error(intent.range(), vmas@) is None,
                forall|k: int| 0 <= k < vmas@.len() ==> (#[trigger] order(k)) is None,
                has_deltas(self@, intent, vmas@, i as int),
                i <= vmas@.len(),
                first_error(check, i as int) is None,
                removed == self@.removed_total(intent, vmas@, i as int),
                replacements == self@.replaced_total(intent, vmas@, i as int),
                replacements <= i,
            decreases vmas@.len() - i,
        {
            let snapshot = vmas[i];
            proof {
                assert(order(i as int) is None);
                assert(vma_error(intent.range(), vmas@, i as int) is None);
                assert(check(i as int) == match self@.delta(intent, snapshot) {
                    Err(error) => Some(error),
                    Ok(_) => None,
                });
            }
            let delta = match self.canonical_register_delta(intent, snapshot) {
                Ok(delta) => delta,
                Err(error) => {
                    proof {
                        first_error_stops(check, i as int, vmas@.len() as int);
                    }
                    return Err(error);
                },
            };
            proof {
                assert(has_deltas(self@, intent, vmas@, i as int + 1));
                removed_total_is_bounded(self@, intent, vmas@, i as int + 1);
                count_bounds(self@.records, is_full());
            }
            if !delta.no_op {
                replacements = replacements + 1;
                removed = removed + self.count_folded(intent, snapshot, delta.desired.range());
            }
            i = i + 1;
        }
        proof {
            removed_total_is_bounded(self@, intent, vmas@, i as int);
        }
        let retained = match self.len().checked_sub(removed) {
            Some(retained) => retained,
            None => return Err(MmError::InconsistentAccounting),
        };
        if replacements > CAPACITY - retained {
            return Err(MmError::CapacityExceeded);
        }
        let next_id_after = match advance_registration_ids(self.next_id, replacements) {
            Ok(next_id_after) => next_id_after,
            Err(error) => return Err(error),
        };
        if replacements != 0 && self.revision == u64::MAX {
            return Err(MmError::IdExhausted);
        }
        Ok(
            UffdRegistrationDeltaPlan {
                revision: self.revision,
                removed,
                replacements,
                next_id_after,
            },
        )
    }

    /// Number of registrations that connect to the settled fragment.
    fn count_folded(
        &self,
        intent: UffdRegistrationIntent,
        snapshot: MappingSnapshot,
        desired: PageRange,
    ) -> (result: usize)
        requires
            self.wf(),
        ensures
            result == count(self@.records, connected(intent, snapshot, desired)),
            result <= CAPACITY,
    {
        let ghost p = connected(intent, snapshot, desired);
        let mut total: usize = 0;
        let mut i: usize = 0;
        proof {
            assert(self.records@.take(0).len() == 0);
        }
        while i < CAPACITY
            invariant
                self.records@.len() == CAPACITY,
                p == connected(intent, snapshot, desired),
                total <= i <= CAPACITY,
                total == count(self.records@.take(i as int), p),
            decreases CAPACITY - i,
        {
            proof {
                count_take_next(self.records@, i as int, p);
            }
            if self.slot_connects(intent, snapshot, desired, i) {
                total = total + 1;
            }
            i = i + 1;
        }
        proof {
            assert(self.records@.take(CAPACITY as int) =~= self.records@);
        }
        total
    }

    /// Appends the identities that connect to the settled fragment.
    fn list_folded(
        &self,
        intent: UffdRegistrationIntent,
        snapshot: MappingSnapshot,
        desired: PageRange,
        remove: &mut Vec<UffdRegistrationId>,
    )
        requires
            self.wf(),
        ensures
            final(remove)@ == old(remove)@ + chosen_ids(
                self@.records,
                connected(intent, snapshot, desired),
            ),
    {
        let ghost p = connected(intent, snapshot, desired);
        let ghost before = remove@;
        let mut i: usize = 0;
        proof {
            assert(self.records@.take(0).len() == 0);
            assert(remove@ =~= before + chosen_ids(self.records@.take(0), p));
        }
        while i < CAPACITY
            invariant
                self.records@.len() == CAPACITY,
                p == connected(intent, snapshot, desired),
                i <= CAPACITY,
                remove@ == before + chosen_ids(self.records@.take(i as int), p),
            decreases CAPACITY - i,
        {
            proof {
                chosen_ids_take_next(self.records@, p, i as int);
            }
            if let Some(registration) = self.records[i] {
                if self.slot_connects(intent, snapshot, desired, i) {
                    remove.push(registration.id);
                    proof {
                        assert(remove@ =~= before + chosen_ids(self.records@.take(i + 1), p));
                    }
                }
            }
            i = i + 1;
        }
        proof {
            assert(self.records@.take(CAPACITY as int) =~= self.records@);
        }
    }

    fn slot_connects(
        &self,
        intent: UffdRegistrationIntent,
        snapshot: MappingSnapshot,
        desired: PageRange,
        i: usize,
    ) -> (result: bool)
        requires
            i < CAPACITY,
            self@.records.len() == CAPACITY,
        ensures
            result == connects(intent, snapshot, desired, self@.records[i as int]),
    {
        match self.records[i] {
            Some(registration) => {
                registration.address_space() == snapshot.address_space() && registration.handler()
                    == intent.handler() && registration.mode() == intent.mode() && do_ranges_touch(
                    registration.range(),
                    desired,
                ) && do_ranges_overlap(registration.range(), snapshot.range())
            },
            None => false,
        }
    }

    /// Folds every connected registration into `desired` once, in slot order.
    fn grow_once(
        &self,
        intent: UffdRegistrationIntent,
        snapshot: MappingSnapshot,
        desired: PageRange,
    ) -> (result: Result<PageRange, MmError>)
        requires
            self.wf(),
        ensures
            result == grow(
                self@.records,
                intent,
                snapshot,
                desired,
                self@.records.len() as int,
            ),
    {
        let mut grown = desired;
        let mut i: usize = 0;
        while i < CAPACITY
            invariant
                self.wf(),
                i <= CAPACITY,
                grow(self@.records, intent, snapshot, desired, i as int) == Ok::<
                    PageRange,
                    MmError,
                >(grown),
            decreases CAPACITY - i,
        {
            if self.slot_connects(intent, snapshot, grown, i) {
                if let Some(registration) = self.records[i] {
                    match registration.revalidate(snapshot) {
                        Ok(()) => {
                            grown = page_range_hull(grown, registration.range());
                        },
                        Err(error) => {
                            proof {
                                assert(grow(
                                    self@.records,
                                    intent,
                                    snapshot,
                                    desired,
                                    i as int + 1,
                                ) == Err::<PageRange, MmError>(error));
                                grow_errors_stay(
                                    self@.records,
                                    intent,
                                    snapshot,
                                    desired,
                                    i as int + 1,
                                    CAPACITY as int,
                                );
                            }
                            return Err(error);
                        },
                    }
                }
            }
            i = i + 1;
        }
        Ok(grown)
    }

    fn canonical_register_delta(
        &self,
        intent: UffdRegistrationIntent,
        snapshot: MappingSnapshot,
    ) -> (result: Result<CanonicalRegistrationDelta, MmError>)
        requires
            self.wf(),
            snapshot.kind() is AnonymousPrivate,
            ranges_meet(intent.range(), snapshot.range()),
        ensures
            result == self@.delta(intent, snapshot),
    {
        let target = match page_range_intersection(intent.range(), snapshot.range()) {
            Some(target) => target,
            None => return Err(MmError::RangeNotMapped),
        };
        let ghost check = self@.target_check(intent, snapshot);
        let mut i: usize = 0;
        while i < CAPACITY
            invariant
                self.wf(),
                target == intersection(intent.range(), snapshot.range()),
                check == self@.target_check(intent, snapshot),
                i <= CAPACITY,
                first_error(check, i as int) is None,
            decreases CAPACITY - i,
        {
            proof {
                assert(check(i as int) == self@.target_error(intent, snapshot, i as int));
            }
            if let Some(registration) = self.records[i] {
                if registration.address_space() == snapshot.address_space() && do_ranges_overlap(
                    registration.range(),
                    target,
                ) {
                    match registration.revalidate(snapshot) {
                        Ok(()) => {},
                        Err(error) => {
                            proof {
                                first_error_stops(check, i as int, CAPACITY as int);
                            }
                            return Err(error);
                        },
                    }
                    if registration.handler() != intent.handler() {
                        proof {
                            first_error_stops(check, i as int, CAPACITY as int);
                        }
                        return Err(MmError::Busy);
                    }
                }
            }
            i = i + 1;
        }
        let mut desired = target;
        proof {
            use_type_invariant(&intent);
            use_type_invariant(&snapshot.range);
            target_is_built(self@.records, intent, snapshot);
            growing_keeps_shape(
                self@,
                intent,
                snapshot,
                target,
                desired,
                self@.records.len() as int,
            );
        }
        let mut next = match self.grow_once(intent, snapshot, desired) {
            Ok(next) => next,
            Err(error) => return Err(error),
        };
        while next != desired
            invariant
                self.wf(),
                first_error(check, self@.records.len() as int) is None,
                check == self@.target_check(intent, snapshot),
                target == intersection(intent.range(), snapshot.range()),
                built(self@.records, intent, snapshot, target, desired),
                built(self@.records, intent, snapshot, target, next),
                next.contains(desired),
                grow(
                    self@.records,
                    intent,
                    snapshot,
                    desired,
                    self@.records.len() as int,
                ) == Ok::<PageRange, MmError>(next),
                settle(self@.records, intent, snapshot, desired) == settle(
                    self@.records,
                    intent,
                    snapshot,
                    target,
                ),
            decreases
                    (snapshot.range().end() - snapshot.range().start()) - (desired.end()
                        - desired.start()),
        {
            proof {
                if next.end() - next.start() <= desired.end() - desired.start() {
                    assert(next.start() == desired.start() && next.end() == desired.end());
                    assert(next == desired);
                }
                growing_keeps_shape(
                    self@,
                    intent,
                    snapshot,
                    target,
                    next,
                    self@.records.len() as int,
                );
            }
            desired = next;
            next = match self.grow_once(intent, snapshot, desired) {
                Ok(next) => next,
                Err(error) => return Err(error),
            };
        }
        let desired_request = match UffdRegistrationRequest::new(
            intent.handler(),
            snapshot,
            desired,
            intent.mode(),
        ) {
            Ok(request) => request,
            Err(error) => return Err(error),
        };
        let connections = self.count_folded(intent, snapshot, desired);
        let exact = self.publishes_exactly(desired_request);
        Ok(CanonicalRegistrationDelta { desired: desired_request, no_op: connections == 1 && exact })
    }

    fn publishes_exactly(&self, request: UffdRegistrationRequest) -> (result: bool)
        requires
            self.wf(),
        ensures
            result == is_published(self@.records, request),
    {
        let mut i: usize = 0;
        while i < CAPACITY
            invariant
                self.wf(),
                i <= CAPACITY,
                forall|k: int| 0 <= k < i ==> !#[trigger] publishes(self@.records[k], request),
            decreases CAPACITY - i,
        {
            if let Some(registration) = self.records[i] {
                if registration.request == request {
                    assert(publishes(self@.records[i as int], request));
                    return true;
                }
            }
            i = i + 1;
        }
        false
    }
}

} // verus!
