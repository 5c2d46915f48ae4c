use crate::counting::{
    count, count_agrees, count_bounds, count_take_next, total, total_at_least, total_update,
};
use crate::mm::error::MmError;
use crate::mm::identity::{AddressSpaceId, PinOwner};
use crate::mm::mapping::{ExpectedMapping, InvalidationRange, MappingKind, MappingSnapshot};
use crate::mm::pin::{
    advances, following, following_number, is_sum, issued, sum_admitted, sum_fits,
    LifecycleProgress, MutationBlocker, OwnerAccount, PinAccess, PinAccounting, PinDuration,
    PinLeaseView, PinQuota, PinRecord, PinRegistryState, PinRequest, PinReservation, PinSnapshot,
    PinToken, PinUse, RecordState, TeardownReport,
};
use crate::mm::range::{covers, PageRange, PageSize};
use crate::powers::power_of_two;
use crate::slots::{find_free, first_free, has_free, is_first_free, is_full, occupied};
use vstd::prelude::*;

verus! {

/// Pages charged by a slot, to one owner or to any.
pub open spec fn pages_charged(owner: Option<PinOwner>) -> spec_fn(Option<PinRecord>) -> nat {
    |slot: Option<PinRecord>|
        match slot {
            Some(record) => if owner is None || record.request.owner() == owner->0 {
                record.charge.pages() as nat
            } else {
                0
            },
            None => 0,
        }
}

/// Bytes charged by a slot, to one owner or to any.
pub open spec fn bytes_charged(owner: Option<PinOwner>) -> spec_fn(Option<PinRecord>) -> nat {
    |slot: Option<PinRecord>|
        match slot {
            Some(record) => if owner is None || record.request.owner() == owner->0 {
                record.charge.bytes() as nat
            } else {
                0
            },
            None => 0,
        }
}

/// Tokens charged by a slot, to one owner or to any.
pub open spec fn tokens_charged(owner: Option<PinOwner>) -> spec_fn(Option<PinRecord>) -> nat {
    |slot: Option<PinRecord>|
        match slot {
            Some(record) => if owner is None || record.request.owner() == owner->0 {
                record.charge.tokens() as nat
            } else {
                0
            },
            None => 0,
        }
}

/// Tells published pins from other slots.
pub open spec fn is_active_slot() -> spec_fn(Option<PinRecord>) -> bool {
    |slot: Option<PinRecord>| slot matches Some(record) && record.state is Active
}

/// Tells unpublished reservations from other slots.
pub open spec fn is_reserved_slot() -> spec_fn(Option<PinRecord>) -> bool {
    |slot: Option<PinRecord>| slot matches Some(record) && record.state is Reserved
}

/// `usage` is what the live records charge, to one owner or to any.
pub open spec fn accounts_for(
    usage: PinAccounting,
    records: Seq<Option<PinRecord>>,
    owner: Option<PinOwner>,
) -> bool {
    &&& usage.pages() == total(records, pages_charged(owner))
    &&& usage.bytes() == total(records, bytes_charged(owner))
    &&& usage.tokens() == total(records, tokens_charged(owner))
}

/// Two pins of which one may write, in one address space, over common pages.
pub open spec fn conflicts(
    record: PinRecord,
    access: PinAccess,
    range: PageRange,
    address_space: AddressSpaceId,
) -> bool {
    &&& record.snapshot.address_space() == address_space
    &&& record.range.overlaps(range)
    &&& record.request.access() is Write || access is Write
}

/// The record protects pages that the invalidation would change.
pub open spec fn blocks(slot: Option<PinRecord>, invalidation: InvalidationRange) -> bool {
    &&& slot is Some
    &&& slot->0.snapshot.address_space() == invalidation.expected().address_space()
    &&& slot->0.range.overlaps(invalidation.range())
}

/// Why a mapping does not support a pin over `range`.
pub open spec fn mapping_refusal(
    page_size: PageSize,
    request: PinRequest,
    range: PageRange,
    snapshot: MappingSnapshot,
) -> Option<MmError> {
    let long_term = request.duration() is LongTerm;
    if snapshot.range().page_size() != page_size || !snapshot.range().contains(range) {
        Some(MmError::RangeNotMapped)
    } else if (request.access() is Read && !snapshot.access().readable()) || (request.access()
        is Write && !snapshot.access().writable()) {
        Some(MmError::AccessDenied)
    } else if (long_term && !snapshot.long_term_pinnable()) || (request.use_kind() is Dma
        && !long_term) || (long_term && request.access() is Write && snapshot.kind() is FileShared
        && !snapshot.writable_file_pin_supported()) || (long_term && (snapshot.kind() is Device
        || snapshot.kind() is Special)) {
        Some(MmError::UnsupportedPin)
    } else {
        None
    }
}

/// Why a segment does not extend the revalidated prefix of a reservation.
pub open spec fn coverage_refusal(
    page_size: PageSize,
    record: PinRecord,
    expected: ExpectedMapping,
    current: MappingSnapshot,
    covered: PageRange,
) -> Option<MmError> {
    if covered.page_size() != page_size || covered.start() != record.validated_until
        || !record.range.contains(covered) {
        Some(MmError::NonContiguousCoverage)
    } else if expected.address_space() != record.snapshot.address_space() {
        Some(MmError::StaleGeneration)
    } else {
        match expected.revalidate_range(current, covered) {
            Err(error) => Some(error),
            Ok(_) => mapping_refusal(page_size, record.request, covered, current),
        }
    }
}

/// `after` is the same reservation or pin as `before`: what was asked for, the
/// pages, the charge and the frozen address space are unchanged, and only its
/// coverage and its publication have moved forward.
pub open spec fn carries_on(before: PinRecord, after: PinRecord) -> bool {
    &&& after.token == before.token
    &&& after.request == before.request
    &&& after.range == before.range
    &&& after.snapshot == before.snapshot
    &&& after.charge == before.charge
    &&& before.validated_until <= after.validated_until
    &&& before.validated_mappings <= after.validated_mappings
    &&& before.state is Active ==> after.state is Active
}

/// Position of a lifecycle state on the way from open to closed.
pub open spec fn lifecycle_rank(state: PinRegistryState) -> int {
    match state {
        PinRegistryState::Open => 0,
        PinRegistryState::Closing => 1,
        PinRegistryState::TearingDown => 2,
        PinRegistryState::Closed => 3,
    }
}

/// What a registry holds.
#[verifier::ext_equal]
pub struct PinLedger {
    /// Page size used to cover requests.
    pub page_size: PageSize,
    /// Quota over all owners.
    pub global_quota: PinQuota,
    /// Live charges over all owners.
    pub global_usage: PinAccounting,
    /// Configured owners by slot.
    pub owners: Seq<Option<OwnerAccount>>,
    /// Live reservations and pins by slot.
    pub records: Seq<Option<PinRecord>>,
    /// Next token, if one is left.
    pub next_token: Option<u64>,
    /// Admission lifecycle.
    pub state: PinRegistryState,
}

impl PinLedger {
    /// `owner` is configured in slot `i`.
    pub open spec fn owner_at(self, owner: PinOwner, i: int) -> bool {
        0 <= i < self.owners.len() && self.owners[i] is Some && self.owners[i]->0.owner == owner
    }

    /// `owner` is configured.
    pub open spec fn has_owner(self, owner: PinOwner) -> bool {
        exists|i: int| #[trigger] self.owner_at(owner, i)
    }

    /// The slot of a configured owner.
    pub open spec fn owner_slot(self, owner: PinOwner) -> int {
        choose|i: int| #[trigger] self.owner_at(owner, i)
    }

    /// The account of a configured owner.
    pub open spec fn account(self, owner: PinOwner) -> OwnerAccount {
        self.owners[self.owner_slot(owner)]->0
    }

    /// `token` is live in slot `i`.
    pub open spec fn token_at(self, token: PinToken, i: int) -> bool {
        0 <= i < self.records.len() && self.records[i] is Some && self.records[i]->0.token == token
    }

    /// `token` is live.
    pub open spec fn is_live(self, token: PinToken) -> bool {
        exists|i: int| #[trigger] self.token_at(token, i)
    }

    /// The slot of a live token.
    pub open spec fn slot_of(self, token: PinToken) -> int {
        choose|i: int| #[trigger] self.token_at(token, i)
    }

    /// The record of a live token.
    pub open spec fn record_of(self, token: PinToken) -> PinRecord {
        self.records[self.slot_of(token)]->0
    }

    /// Number of published pins.
    pub open spec fn active(self) -> nat {
        count(self.records, is_active_slot())
    }

    /// Number of unpublished reservations.
    pub open spec fn reserved(self) -> nat {
        count(self.records, is_reserved_slot())
    }

    /// Why new work is refused by the lifecycle.
    pub open spec fn admission_error(self) -> Option<MmError> {
        match self.state {
            PinRegistryState::Open => None,
            PinRegistryState::Closing => Some(MmError::Closing),
            PinRegistryState::TearingDown => Some(MmError::TearingDown),
            PinRegistryState::Closed => Some(MmError::Closed),
        }
    }

    /// Why a token cannot be used as a record in `state`.
    pub open spec fn token_error(self, token: PinToken, state: RecordState) -> Option<MmError> {
        if !self.is_live(token) {
            Some(MmError::UnknownToken)
        } else if self.record_of(token).state != state {
            Some(MmError::InvalidTokenState)
        } else {
            None
        }
    }

    /// Some live pin over `range` excludes a pin with `access`.
    pub open spec fn has_conflict(
        self,
        access: PinAccess,
        range: PageRange,
        address_space: AddressSpaceId,
    ) -> bool {
        exists|i: int|
            0 <= i < self.records.len() && (#[trigger] self.records[i]) is Some && conflicts(
                self.records[i]->0,
                access,
                range,
                address_space,
            )
    }

    /// Why a reservation over `pages` is refused, once the lifecycle admits it.
    pub open spec fn reserve_error(
        self,
        request: PinRequest,
        address_space: AddressSpaceId,
        pages: PageRange,
    ) -> Option<MmError> {
        let charge = PinAccounting::spec_for_range(pages);
        let account = self.account(request.owner());
        if self.has_conflict(request.access(), pages, address_space) {
            Some(MmError::PinOverlap)
        } else if !self.has_owner(request.owner()) {
            Some(MmError::OwnerNotConfigured)
        } else if !has_free(self.records) {
            Some(MmError::CapacityExceeded)
        } else if !sum_fits(account.usage, charge) || !sum_fits(self.global_usage, charge) {
            Some(MmError::Overflow)
        } else if !sum_admitted(account.quota, account.usage, charge) || !sum_admitted(
            self.global_quota,
            self.global_usage,
            charge,
        ) {
            Some(MmError::QuotaExceeded)
        } else if self.next_token is None {
            Some(MmError::IdExhausted)
        } else {
            None
        }
    }

    /// A live record was issued here, is charged to a configured owner for
    /// exactly its pages, and is published only when all of them were
    /// revalidated.
    pub open spec fn record_ok(self, record: PinRecord) -> bool {
        &&& issued(self.next_token, record.token.get())
        &&& self.has_owner(record.request.owner())
        &&& record.range.valid()
        &&& covers(record.range, record.request.range(), self.page_size)
        &&& record.snapshot.range() == record.range
        &&& record.charge == PinAccounting::spec_for_range(record.range)
        &&& record.range.start() <= record.validated_until <= record.range.end()
        &&& record.validated_mappings <= record.validated_until - record.range.start()
        &&& record.validated_mappings == 0 <==> record.validated_until == record.range.start()
        &&& record.state is Active ==> record.validated_until == record.range.end()
        &&& record.state is Reserved ==> self.state is Open || self.state is Closing
        &&& !(self.state is Closed)
    }

    /// The ledger is consistent: charges add up and stay within every quota,
    /// owners and tokens are unique, and a writing pin shares no page.
    pub open spec fn wf(self) -> bool {
        &&& self.page_size.valid()
        &&& self.next_token matches Some(raw) ==> raw != 0
        &&& self.global_quota.admits(self.global_usage)
        &&& accounts_for(self.global_usage, self.records, None)
        &&& forall|i: int|
            0 <= i < self.owners.len() && (#[trigger] self.owners[i]) is Some ==> {
                &&& self.owners[i]->0.quota.admits(self.owners[i]->0.usage)
                &&& accounts_for(
                    self.owners[i]->0.usage,
                    self.records,
                    Some(self.owners[i]->0.owner),
                )
            }
        &&& forall|i: int, j: int|
            0 <= i < j < self.owners.len() && (#[trigger] self.owners[i]) is Some && (
            #[trigger] self.owners[j]) is Some ==> self.owners[i]->0.owner
                != self.owners[j]->0.owner
        &&& forall|i: int|
            0 <= i < self.records.len() && (#[trigger] self.records[i]) is Some ==> self.record_ok(
                self.records[i]->0,
            )
        &&& forall|i: int, j: int|
            0 <= i < j < self.records.len() && (#[trigger] self.records[i]) is Some && (
            #[trigger] self.records[j]) is Some ==> {
                &&& self.records[i]->0.token != self.records[j]->0.token
                &&& !conflicts(
                    self.records[i]->0,
                    self.records[j]->0.request.access(),
                    self.records[j]->0.range,
                    self.records[j]->0.snapshot.address_space(),
                )
            }
    }

    /// `after` may follow this state: tokens and lifecycle only move forward,
    /// and whatever is live then was live before, on the same terms, or is newly
    /// issued.
    pub open spec fn may_become(self, after: Self) -> bool {
        &&& after.page_size == self.page_size
        &&& after.global_quota == self.global_quota
        &&& advances(self.next_token, after.next_token)
        &&& lifecycle_rank(self.state) <= lifecycle_rank(after.state)
        &&& after.records.len() == self.records.len()
        &&& forall|i: int|
            0 <= i < after.records.len() && (#[trigger] after.records[i]) is Some ==> {
                ||| self.records[i] is Some && carries_on(self.records[i]->0, after.records[i]->0)
                ||| !issued(self.next_token, after.records[i]->0.token.get())
            }
    }

    /// The same ledger with one account's usage replaced.
    pub open spec fn owners_with_usage(self, owner: PinOwner, usage: PinAccounting) -> Seq<
        Option<OwnerAccount>,
    > {
        self.owners.update(
            self.owner_slot(owner),
            Some(OwnerAccount { usage, ..self.account(owner) }),
        )
    }

    /// `after` is this ledger without the record of a live `token`, its charge
    /// refunded to the owner and globally.
    pub open spec fn refunds(self, token: PinToken, after: Self) -> bool {
        let record = self.record_of(token);
        let owner = record.request.owner();
        &&& is_sum(after.global_usage, record.charge, self.global_usage)
        &&& is_sum(after.account(owner).usage, record.charge, self.account(owner).usage)
        &&& after == (PinLedger {
            global_usage: after.global_usage,
            owners: self.owners_with_usage(owner, after.account(owner).usage),
            records: self.records.update(self.slot_of(token), None),
            ..self
        })
    }
}

/// An owner has one slot.
pub(crate) proof fn owner_slots_are_unique(ledger: PinLedger, owner: PinOwner, i: int)
    requires
        ledger.wf(),
        ledger.owner_at(owner, i),
    ensures
        ledger.has_owner(owner),
        ledger.owner_slot(owner) == i,
{
    let k = ledger.owner_slot(owner);
    assert(ledger.owner_at(owner, k));
    if k < i {
        assert(ledger.owners[k]->0.owner != ledger.owners[i]->0.owner);
    } else if i < k {
        assert(ledger.owners[i]->0.owner != ledger.owners[k]->0.owner);
    }
}

/// A token has one slot.
pub(crate) proof fn token_slots_are_unique(ledger: PinLedger, token: PinToken, i: int)
    requires
        ledger.wf(),
        ledger.token_at(token, i),
    ensures
        ledger.is_live(token),
        ledger.slot_of(token) == i,
{
    let k = ledger.slot_of(token);
    assert(ledger.token_at(token, k));
    if k < i {
        assert(ledger.records[k]->0.token != ledger.records[i]->0.token);
    } else if i < k {
        assert(ledger.records[i]->0.token != ledger.records[k]->0.token);
    }
}

/// How replacing one slot changes what is charged to one owner or to any.
proof fn charges_update(
    records: Seq<Option<PinRecord>>,
    i: int,
    slot: Option<PinRecord>,
    owner: Option<PinOwner>,
)
    requires
        0 <= i < records.len(),
    ensures
        total(records.update(i, slot), pages_charged(owner)) == total(
            records,
            pages_charged(owner),
        ) - pages_charged(owner)(records[i]) + pages_charged(owner)(slot),
        total(records.update(i, slot), bytes_charged(owner)) == total(
            records,
            bytes_charged(owner),
        ) - bytes_charged(owner)(records[i]) + bytes_charged(owner)(slot),
        total(records.update(i, slot), tokens_charged(owner)) == total(
            records,
            tokens_charged(owner),
        ) - tokens_charged(owner)(records[i]) + tokens_charged(owner)(slot),
        pages_charged(owner)(records[i]) <= total(records, pages_charged(owner)),
        bytes_charged(owner)(records[i]) <= total(records, bytes_charged(owner)),
        tokens_charged(owner)(records[i]) <= total(records, tokens_charged(owner)),
{
    total_update(records, i, slot, pages_charged(owner));
    total_update(records, i, slot, bytes_charged(owner));
    total_update(records, i, slot, tokens_charged(owner));
    total_at_least(records, i, pages_charged(owner));
    total_at_least(records, i, bytes_charged(owner));
    total_at_least(records, i, tokens_charged(owner));
}

/// Nothing is charged where no slot charges the owner.
proof fn nothing_charged(records: Seq<Option<PinRecord>>, owner: Option<PinOwner>)
    requires
        forall|i: int|
            0 <= i < records.len() && (#[trigger] records[i]) is Some && owner is Some
                ==> records[i]->0.request.owner() != owner->0,
        owner is None ==> forall|i: int|
            0 <= i < records.len() ==> (#[trigger] records[i]) is None,
    ensures
        total(records, pages_charged(owner)) == 0,
        total(records, bytes_charged(owner)) == 0,
        total(records, tokens_charged(owner)) == 0,
    decreases records.len(),
{
    if records.len() > 0 {
        let rest = records.drop_last();
        assert forall|i: int| 0 <= i < rest.len() implies rest[i] == records[i] by {}
        nothing_charged(rest, owner);
        let n = records.len() - 1;
        assert(records[n] == records.last());
    }
}

/// Published pins and reservations are together the occupied slots.
pub proof fn active_and_reserved_partition_the_slots(records: Seq<Option<PinRecord>>)
    ensures
        count(records, is_active_slot()) + count(records, is_reserved_slot()) == occupied(records),
        occupied(records) <= records.len(),
    decreases records.len(),
{
    count_bounds(records, is_full());
    if records.len() > 0 {
        active_and_reserved_partition_the_slots(records.drop_last());
    }
}

/// A token that was released, or refused, never becomes live again: whatever
/// follows, an issued token that is not live stays not live.
pub proof fn released_tokens_stay_released(before: PinLedger, after: PinLedger, token: PinToken)
    requires
        before.may_become(after),
        issued(before.next_token, token.get()),
        !before.is_live(token),
    ensures
        !after.is_live(token),
        issued(after.next_token, token.get()),
{
    if after.is_live(token) {
        let i = after.slot_of(token);
        assert(after.token_at(token, i));
        assert(before.token_at(token, i));
    }
}

/// As long as a token stays live, it keeps its slot, its request, its pages,
/// its charge and its frozen address space, whatever else happens in between.
pub proof fn live_tokens_keep_their_terms(before: PinLedger, after: PinLedger, token: PinToken)
    requires
        before.wf(),
        after.wf(),
        before.may_become(after),
        before.is_live(token),
        after.is_live(token),
    ensures
        after.slot_of(token) == before.slot_of(token),
        carries_on(before.record_of(token), after.record_of(token)),
{
    let k = before.slot_of(token);
    assert(before.token_at(token, k));
    assert(before.record_ok(before.records[k]->0));
    let i = after.slot_of(token);
    assert(after.token_at(token, i));
    assert(before.token_at(token, i));
    token_slots_are_unique(before, token, i);
}

/// Following is transitive, so what holds of one call holds of any number.
pub proof fn registry_history_composes(a: PinLedger, b: PinLedger, c: PinLedger)
    requires
        a.may_become(b),
        b.may_become(c),
    ensures
        a.may_become(c),
{
    assert forall|i: int| 0 <= i < c.records.len() && (#[trigger] c.records[i]) is Some implies {
        ||| a.records[i] is Some && carries_on(a.records[i]->0, c.records[i]->0)
        ||| !issued(a.next_token, c.records[i]->0.token.get())
    } by {
        if b.records[i] is Some && carries_on(b.records[i]->0, c.records[i]->0) {
            assert(b.records[i]->0.token == c.records[i]->0.token);
        }
    }
}

/// A closed registry holds nothing and stays closed.
pub proof fn closed_registries_stay_closed(before: PinLedger, after: PinLedger)
    requires
        before.wf(),
        after.wf(),
        before.state is Closed,
        before.may_become(after),
    ensures
        after.state is Closed,
        forall|token: PinToken| !#[trigger] before.is_live(token),
        forall|token: PinToken| !#[trigger] after.is_live(token),
{
    assert forall|token: PinToken| !#[trigger] before.is_live(token) by {
        if before.is_live(token) {
            let i = before.slot_of(token);
            assert(before.token_at(token, i));
            assert(before.record_ok(before.records[i]->0));
        }
    }
    assert forall|token: PinToken| !#[trigger] after.is_live(token) by {
        if after.is_live(token) {
            let i = after.slot_of(token);
            assert(after.token_at(token, i));
            assert(after.record_ok(after.records[i]->0));
        }
    }
}

/// Two live pins over a common page of one address space only read.
pub proof fn writing_pins_are_exclusive(ledger: PinLedger, a: PinToken, b: PinToken)
    requires
        ledger.wf(),
        ledger.is_live(a),
        ledger.is_live(b),
        a != b,
        ledger.record_of(a).snapshot.address_space() == ledger.record_of(
            b,
        ).snapshot.address_space(),
        ledger.record_of(a).range.overlaps(ledger.record_of(b).range),
    ensures
        ledger.record_of(a).request.access() is Read,
        ledger.record_of(b).request.access() is Read,
{
    let i = ledger.slot_of(a);
    let j = ledger.slot_of(b);
    assert(ledger.token_at(a, i) && ledger.token_at(b, j));
    if i < j {
        assert(ledger.records[i]->0.token != ledger.records[j]->0.token);
    } else {
        assert(ledger.records[j]->0.token != ledger.records[i]->0.token);
    }
}

/// A published pin was revalidated over every page that it charges, and those
/// pages hold every byte that was asked for.
pub proof fn published_pins_are_covered(ledger: PinLedger, token: PinToken)
    requires
        ledger.wf(),
        ledger.is_live(token),
        ledger.record_of(token).state is Active,
    ensures
        ledger.record_of(token).validated_until == ledger.record_of(token).range.end(),
        ledger.record_of(token).validated_mappings > 0,
        ledger.record_of(token).range.user_range().contains(
            ledger.record_of(token).request.range(),
        ),
{
    let i = ledger.slot_of(token);
    assert(ledger.token_at(token, i));
    assert(ledger.record_ok(ledger.records[i]->0));
}

/// Every live charge is counted once to its owner and once globally, within
/// both quotas.
pub proof fn charges_stay_within_quotas(ledger: PinLedger, owner: PinOwner)
    requires
        ledger.wf(),
        ledger.has_owner(owner),
    ensures
        total(ledger.records, pages_charged(Some(owner))) <= ledger.account(
            owner,
        ).quota.max_pages(),
        total(ledger.records, bytes_charged(Some(owner))) <= ledger.account(
            owner,
        ).quota.max_bytes(),
        total(ledger.records, tokens_charged(Some(owner))) <= ledger.account(
            owner,
        ).quota.max_tokens(),
        total(ledger.records, pages_charged(None)) <= ledger.global_quota.max_pages(),
        total(ledger.records, bytes_charged(None)) <= ledger.global_quota.max_bytes(),
        total(ledger.records, tokens_charged(None)) <= ledger.global_quota.max_tokens(),
{
    let i = ledger.owner_slot(owner);
    assert(ledger.owner_at(owner, i));
}

/// The record of a fresh reservation.
pub open spec fn is_reservation(
    record: PinRecord,
    token: PinToken,
    request: PinRequest,
    address_space: AddressSpaceId,
) -> bool {
    &&& record.token == token
    &&& record.request == request
    &&& record.snapshot.address_space() == address_space
    &&& record.snapshot.range() == record.range
    &&& record.validated_until == record.range.start()
    &&& record.validated_mappings == 0
    &&& record.charge == PinAccounting::spec_for_range(record.range)
    &&& record.state is Reserved
}

/// Nothing is charged.
pub open spec fn is_unused(usage: PinAccounting) -> bool {
    usage.pages() == 0 && usage.bytes() == 0 && usage.tokens() == 0
}

/// The slot after every reservation was rolled back.
pub open spec fn without_reservation(slot: Option<PinRecord>) -> Option<PinRecord> {
    if is_reserved_slot()(slot) {
        None
    } else {
        slot
    }
}

/// The slots after every reservation was rolled back.
pub open spec fn without_reservations(records: Seq<Option<PinRecord>>) -> Seq<Option<PinRecord>> {
    Seq::new(records.len(), |i: int| without_reservation(records[i]))
}

/// The same owners in the same slots with the same quotas.
pub open spec fn same_owner_quotas(
    before: Seq<Option<OwnerAccount>>,
    after: Seq<Option<OwnerAccount>>,
) -> bool {
    &&& before.len() == after.len()
    &&& forall|i: int|
        0 <= i < before.len() ==> match (#[trigger] before[i], after[i]) {
            (Some(a), Some(b)) => a.owner == b.owner && a.quota == b.quota,
            (None, None) => true,
            _ => false,
        }
}

proof fn teardown_keeps_active(records: Seq<Option<PinRecord>>)
    ensures
        count(without_reservations(records), is_active_slot()) == count(records, is_active_slot()),
{
    count_agrees(without_reservations(records), records, is_active_slot(), is_active_slot());
}

proof fn same_owners_same_names(before: PinLedger, after: PinLedger)
    requires
        before.owners == after.owners,
    ensures
        forall|o: PinOwner| #[trigger] before.has_owner(o) ==> after.has_owner(o),
{
    assert forall|o: PinOwner| #[trigger] before.has_owner(o) implies after.has_owner(o) by {
        let i = before.owner_slot(o);
        assert(before.owner_at(o, i));
        assert(after.owner_at(o, i));
    }
}

/// Records stay in order while owners are added or the registry starts to close.
proof fn records_carry_over(before: PinLedger, after: PinLedger)
    requires
        before.wf(),
        before.records == after.records,
        before.page_size == after.page_size,
        before.next_token == after.next_token,
        after.state == before.state || (before.state is Open && after.state is Closing),
        forall|o: PinOwner| #[trigger] before.has_owner(o) ==> after.has_owner(o),
    ensures
        forall|i: int|
            0 <= i < after.records.len() && (#[trigger] after.records[i]) is Some
                ==> after.record_ok(after.records[i]->0),
{
    assert forall|i: int|
        0 <= i < after.records.len() && (#[trigger] after.records[i]) is Some implies after.record_ok(
        after.records[i]->0,
    ) by {
        assert(before.record_ok(before.records[i]->0));
    }
}

/// Replacing one owner's usage keeps every owner in its slot.
proof fn owners_keep_their_slots(before: PinLedger, after: PinLedger, owner: PinOwner, usage: PinAccounting)
    requires
        before.wf(),
        before.has_owner(owner),
        after.owners == before.owners_with_usage(owner, usage),
    ensures
        before.owner_at(owner, before.owner_slot(owner)),
        forall|o: PinOwner, i: int| #[trigger] after.owner_at(o, i) == before.owner_at(o, i),
        forall|o: PinOwner| #[trigger] after.has_owner(o) == before.has_owner(o),
        after.owner_slot(owner) == before.owner_slot(owner),
        after.account(owner) == (OwnerAccount { usage, ..before.account(owner) }),
{
    let k = before.owner_slot(owner);
    assert(before.owner_at(owner, k));
    assert forall|o: PinOwner, i: int| #[trigger]
        after.owner_at(o, i) == before.owner_at(o, i) by {}
    assert forall|o: PinOwner| #[trigger] after.has_owner(o) == before.has_owner(o) by {
        if after.has_owner(o) {
            let i = after.owner_slot(o);
            assert(after.owner_at(o, i));
            assert(before.owner_at(o, i));
        }
        if before.has_owner(o) {
            let i = before.owner_slot(o);
            assert(before.owner_at(o, i));
            assert(after.owner_at(o, i));
        }
    }
    assert(after.owner_at(owner, k));
    let m = after.owner_slot(owner);
    assert(after.owner_at(owner, m));
    assert(before.owner_at(owner, m));
    owner_slots_are_unique(before, owner, m);
}

/// Moving one slot's charge in or out of the accounts keeps them exact.
proof fn accounts_follow_the_slot(
    before: PinLedger,
    after: PinLedger,
    slot: int,
    owner: PinOwner,
    usage: PinAccounting,
)
    requires
        before.wf(),
        before.has_owner(owner),
        0 <= slot < before.records.len(),
        after.records == before.records.update(slot, after.records[slot]),
        after.owners == before.owners_with_usage(owner, usage),
        before.records[slot] matches Some(record) ==> record.request.owner() == owner,
        after.records[slot] matches Some(record) ==> record.request.owner() == owner,
        ({
            let gone = before.records[slot];
            let come = after.records[slot];
            &&& usage.pages() == before.account(owner).usage.pages() - pages_charged(None)(gone)
                + pages_charged(None)(come)
            &&& usage.bytes() == before.account(owner).usage.bytes() - bytes_charged(None)(gone)
                + bytes_charged(None)(come)
            &&& usage.tokens() == before.account(owner).usage.tokens() - tokens_charged(None)(gone)
                + tokens_charged(None)(come)
            &&& after.global_usage.pages() == before.global_usage.pages() - pages_charged(None)(
                gone,
            ) + pages_charged(None)(come)
            &&& after.global_usage.bytes() == before.global_usage.bytes() - bytes_charged(None)(
                gone,
            ) + bytes_charged(None)(come)
            &&& after.global_usage.tokens() == before.global_usage.tokens() - tokens_charged(None)(
                gone,
            ) + tokens_charged(None)(come)
        }),
    ensures
        accounts_for(after.global_usage, after.records, None),
        forall|i: int|
            0 <= i < after.owners.len() && (#[trigger] after.owners[i]) is Some ==> accounts_for(
                after.owners[i]->0.usage,
                after.records,
                Some(after.owners[i]->0.owner),
            ),
{
    owners_keep_their_slots(before, after, owner, usage);
    let come = after.records[slot];
    charges_update(before.records, slot, come, None);
    assert forall|i: int|
        0 <= i < after.owners.len() && (#[trigger] after.owners[i]) is Some implies accounts_for(
        after.owners[i]->0.usage,
        after.records,
        Some(after.owners[i]->0.owner),
    ) by {
        let o = after.owners[i]->0.owner;
        charges_update(before.records, slot, come, Some(o));
        let k = before.owner_slot(owner);
        assert(before.owners[i] is Some);
        if i != k {
            assert(before.owner_at(o, i));
            if o == owner {
                owner_slots_are_unique(before, owner, i);
            }
        }
    }
}

/// Dropping a live record keeps the ledger consistent.
proof fn refund_keeps_consistency(before: PinLedger, after: PinLedger, token: PinToken)
    requires
        before.wf(),
        before.is_live(token),
        before.refunds(token, after),
    ensures
        after.wf(),
        before.may_become(after),
        !after.is_live(token),
{
    let slot = before.slot_of(token);
    assert(before.token_at(token, slot));
    let record = before.records[slot]->0;
    let owner = record.request.owner();
    assert(before.record_ok(record));
    let usage = after.account(owner).usage;
    owners_keep_their_slots(before, after, owner, usage);
    accounts_follow_the_slot(before, after, slot, owner, usage);
    assert forall|i: int|
        0 <= i < after.records.len() && (#[trigger] after.records[i]) is Some implies after.record_ok(
        after.records[i]->0,
    ) by {
        assert(before.records[i] is Some);
        assert(before.record_ok(before.records[i]->0));
    }
    assert forall|i: int, j: int|
        0 <= i < j < after.records.len() && (#[trigger] after.records[i]) is Some && (
        #[trigger] after.records[j]) is Some implies {
        &&& after.records[i]->0.token != after.records[j]->0.token
        &&& !conflicts(
            after.records[i]->0,
            after.records[j]->0.request.access(),
            after.records[j]->0.range,
            after.records[j]->0.snapshot.address_space(),
        )
    } by {
        assert(before.records[i] is Some && before.records[j] is Some);
    }
    assert forall|i: int, j: int|
        0 <= i < j < after.owners.len() && (#[trigger] after.owners[i]) is Some && (
        #[trigger] after.owners[j]) is Some implies after.owners[i]->0.owner
        != after.owners[j]->0.owner by {
        assert(before.owners[i] is Some && before.owners[j] is Some);
    }
    assert forall|i: int| 0 <= i < after.owners.len() && (#[trigger] after.owners[i]) is Some
        implies after.owners[i]->0.quota.admits(after.owners[i]->0.usage) by {
        assert(before.owners[i] is Some);
    }
    if after.is_live(token) {
        let i = after.slot_of(token);
        assert(after.token_at(token, i));
        assert(before.token_at(token, i));
        token_slots_are_unique(before, token, i);
    }
}

/// Changing a live record's progress or state keeps the ledger consistent.
proof fn progress_keeps_consistency(before: PinLedger, after: PinLedger, token: PinToken)
    requires
        before.wf(),
        before.is_live(token),
        ({
            let slot = before.slot_of(token);
            let old_record = before.records[slot]->0;
            let new_record = after.records[slot]->0;
            &&& after == (PinLedger {
                records: before.records.update(slot, Some(new_record)),
                ..before
            })
            &&& new_record == (PinRecord {
                validated_until: new_record.validated_until,
                validated_mappings: new_record.validated_mappings,
                state: new_record.state,
                ..old_record
            })
            &&& after.record_ok(new_record)
            &&& carries_on(old_record, new_record)
        }),
    ensures
        after.wf(),
        before.may_become(after),
        after.is_live(token),
        after.slot_of(token) == before.slot_of(token),
{
    let slot = before.slot_of(token);
    assert(before.token_at(token, slot));
    let new_record = after.records[slot]->0;
    charges_update(before.records, slot, Some(new_record), None);
    assert forall|i: int|
        0 <= i < after.owners.len() && (#[trigger] after.owners[i]) is Some implies accounts_for(
        after.owners[i]->0.usage,
        after.records,
        Some(after.owners[i]->0.owner),
    ) by {
        charges_update(before.records, slot, Some(new_record), Some(after.owners[i]->0.owner));
    }
    assert forall|o: PinOwner| #[trigger] before.has_owner(o) implies after.has_owner(o) by {
        let i = before.owner_slot(o);
        assert(before.owner_at(o, i));
        assert(after.owner_at(o, i));
    }
    assert forall|i: int|
        0 <= i < after.records.len() && (#[trigger] after.records[i]) is Some implies after.record_ok(
        after.records[i]->0,
    ) by {
        if i != slot {
            assert(before.records[i] is Some);
            assert(before.record_ok(before.records[i]->0));
        }
    }
    assert forall|i: int, j: int|
        0 <= i < j < after.records.len() && (#[trigger] after.records[i]) is Some && (
        #[trigger] after.records[j]) is Some implies {
        &&& after.records[i]->0.token != after.records[j]->0.token
        &&& !conflicts(
            after.records[i]->0,
            after.records[j]->0.request.access(),
            after.records[j]->0.range,
            after.records[j]->0.snapshot.address_space(),
        )
    } by {
        assert(before.records[i] is Some && before.records[j] is Some);
    }
    assert(after.token_at(token, slot));
    token_slots_are_unique(after, token, slot);
}

/// Adding a fresh record keeps the ledger consistent.
proof fn reservation_keeps_consistency(before: PinLedger, after: PinLedger, slot: int)
    requires
        before.wf(),
        before.state is Open,
        is_first_free(before.records, slot),
        after.records[slot] is Some,
        ({
            let record = after.records[slot]->0;
            let owner = record.request.owner();
            &&& before.has_owner(owner)
            &&& before.next_token == Some(record.token.get())
            &&& after == (PinLedger {
                global_usage: after.global_usage,
                owners: before.owners_with_usage(owner, after.account(owner).usage),
                records: before.records.update(slot, Some(record)),
                next_token: following(record.token.get()),
                ..before
            })
            &&& is_sum(before.global_usage, record.charge, after.global_usage)
            &&& is_sum(before.account(owner).usage, record.charge, after.account(owner).usage)
            &&& before.global_quota.admits(after.global_usage)
            &&& before.account(owner).quota.admits(after.account(owner).usage)
            &&& record.range.valid()
            &&& covers(record.range, record.request.range(), before.page_size)
            &&& record.snapshot.range() == record.range
            &&& record.charge == PinAccounting::spec_for_range(record.range)
            &&& record.validated_until == record.range.start()
            &&& record.validated_mappings == 0
            &&& record.state is Reserved
            &&& !before.has_conflict(
                record.request.access(),
                record.range,
                record.snapshot.address_space(),
            )
        }),
    ensures
        after.wf(),
        before.may_become(after),
        after.token_at(after.records[slot]->0.token, slot),
{
    let record = after.records[slot]->0;
    let owner = record.request.owner();
    let usage = after.account(owner).usage;
    owners_keep_their_slots(before, after, owner, usage);
    accounts_follow_the_slot(before, after, slot, owner, usage);
    assert forall|i: int|
        0 <= i < after.records.len() && (#[trigger] after.records[i]) is Some implies after.record_ok(
        after.records[i]->0,
    ) by {
        if i != slot {
            assert(before.records[i] is Some);
            assert(before.record_ok(before.records[i]->0));
        }
    }
    assert forall|i: int, j: int|
        0 <= i < j < after.records.len() && (#[trigger] after.records[i]) is Some && (
        #[trigger] after.records[j]) is Some implies {
        &&& after.records[i]->0.token != after.records[j]->0.token
        &&& !conflicts(
            after.records[i]->0,
            after.records[j]->0.request.access(),
            after.records[j]->0.range,
            after.records[j]->0.snapshot.address_space(),
        )
    } by {
        if i != slot {
            assert(before.records[i] is Some);
            assert(before.record_ok(before.records[i]->0));
        }
        if j != slot {
            assert(before.records[j] is Some);
            assert(before.record_ok(before.records[j]->0));
        }
    }
    assert forall|i: int, j: int|
        0 <= i < j < after.owners.len() && (#[trigger] after.owners[i]) is Some && (
        #[trigger] after.owners[j]) is Some implies after.owners[i]->0.owner
        != after.owners[j]->0.owner by {
        assert(before.owners[i] is Some && before.owners[j] is Some);
    }
    assert forall|i: int| 0 <= i < after.owners.len() && (#[trigger] after.owners[i]) is Some
        implies after.owners[i]->0.quota.admits(after.owners[i]->0.usage) by {
        assert(before.owners[i] is Some);
    }
}

/// Dropping a reservation right after it was made restores owners, charges and
/// slots; only the token sequence has moved on.
pub proof fn cancel_undoes_reserve(
    before: PinLedger,
    reserved: PinLedger,
    cancelled: PinLedger,
    record: PinRecord,
)
    requires
        before.wf(),
        reserved.wf(),
        is_first_free(before.records, first_free(before.records)),
        before.has_owner(record.request.owner()),
        is_sum(before.global_usage, record.charge, reserved.global_usage),
        is_sum(
            before.account(record.request.owner()).usage,
            record.charge,
            reserved.account(record.request.owner()).usage,
        ),
        reserved == (PinLedger {
            global_usage: reserved.global_usage,
            owners: before.owners_with_usage(
                record.request.owner(),
                reserved.account(record.request.owner()).usage,
            ),
            records: before.records.update(first_free(before.records), Some(record)),
            next_token: following(record.token.get()),
            ..before
        }),
        reserved.refunds(record.token, cancelled),
    ensures
        cancelled == (PinLedger { next_token: following(record.token.get()), ..before }),
{
    let slot = first_free(before.records);
    let owner = record.request.owner();
    let k = before.owner_slot(owner);
    owners_keep_their_slots(before, reserved, owner, reserved.account(owner).usage);
    assert(reserved.token_at(record.token, slot));
    token_slots_are_unique(reserved, record.token, slot);
    owners_keep_their_slots(reserved, cancelled, owner, cancelled.account(owner).usage);
    assert(cancelled.records =~= before.records);
    assert(cancelled.owners =~= before.owners);
}

/// A live reservation or pin fences its pages: an invalidation of them finds it.
pub proof fn live_pins_fence_their_pages(
    ledger: PinLedger,
    token: PinToken,
    invalidation: InvalidationRange,
)
    requires
        ledger.wf(),
        ledger.is_live(token),
        ledger.record_of(token).snapshot.address_space()
            == invalidation.expected().address_space(),
        ledger.record_of(token).range.overlaps(invalidation.range()),
    ensures
        exists|i: int|
            0 <= i < ledger.records.len() && #[trigger] blocks(ledger.records[i], invalidation),
{
    let i = ledger.slot_of(token);
    assert(ledger.token_at(token, i));
    assert(blocks(ledger.records[i], invalidation));
}

/// From the moment a range is reserved, and as long as its token stays live, no
/// invalidation of the reserved pages gets through, whatever happens in between.
pub proof fn pages_stay_fenced_while_the_token_is_live(
    before: PinLedger,
    after: PinLedger,
    token: PinToken,
    invalidation: InvalidationRange,
)
    requires
        before.wf(),
        after.wf(),
        before.may_become(after),
        before.is_live(token),
        after.is_live(token),
        before.record_of(token).snapshot.address_space()
            == invalidation.expected().address_space(),
        before.record_of(token).range.overlaps(invalidation.range()),
    ensures
        exists|i: int|
            0 <= i < after.records.len() && #[trigger] blocks(after.records[i], invalidation),
{
    live_tokens_keep_their_terms(before, after, token);
    live_pins_fence_their_pages(after, token, invalidation);
}

/// `after` comes from `before` by a call that does not end `token`: the records
/// are as they were, a record is added, some record moves forward, the record of
/// another token is refunded, or reservations are torn down and `token` is
/// published.
pub open spec fn spares(before: PinLedger, after: PinLedger, token: PinToken) -> bool {
    ||| after.records == before.records
    ||| exists|i: int, record: PinRecord|
        0 <= i < before.records.len() && (before.records[i] is None || carries_on(
            before.records[i]->0,
            record,
        )) && after.records == #[trigger] before.records.update(i, Some(record))
    ||| exists|other: PinToken| #[trigger]
        before.is_live(other) && other != token && before.refunds(other, after)
    ||| before.record_of(token).state is Active && after.records == without_reservations(
        before.records,
    )
}

/// A live token stays live, on its terms, through every call that does not
/// cancel it, release it, roll it back or tear it down.
pub proof fn tokens_end_only_when_they_are_ended(
    before: PinLedger,
    after: PinLedger,
    token: PinToken,
)
    requires
        before.wf(),
        after.wf(),
        before.is_live(token),
        spares(before, after, token),
    ensures
        after.is_live(token),
        after.slot_of(token) == before.slot_of(token),
        carries_on(before.record_of(token), after.record_of(token)),
{
    let slot = before.slot_of(token);
    assert(before.token_at(token, slot));
    assert forall|other: PinToken| #[trigger]
        before.is_live(other) && other != token && before.refunds(other, after) implies after.records[slot]
        == before.records[slot] by {
        assert(before.token_at(other, before.slot_of(other)));
    }
    assert(after.token_at(token, slot));
    token_slots_are_unique(after, token, slot);
}

/// Caller-owned, fixed-capacity pin accounting and lifecycle core.
///
/// `OWNER_CAPACITY` bounds distinct configured owners and `TOKEN_CAPACITY`
/// bounds reserved plus active pins. The registry performs no allocation and
/// invokes no callbacks. A consumer must explicitly cancel every abandoned
/// reservation; forced teardown cancels all such reservations automatically.
pub struct PinRegistry<const OWNER_CAPACITY: usize, const TOKEN_CAPACITY: usize> {
    pub(crate) page_size: PageSize,
    pub(crate) global_quota: PinQuota,
    pub(crate) global_usage: PinAccounting,
    pub(crate) owners: [Option<OwnerAccount>; OWNER_CAPACITY],
    pub(crate) records: [Option<PinRecord>; TOKEN_CAPACITY],
    pub(crate) next_token: Option<u64>,
    pub(crate) state: PinRegistryState,
}

impl<const OWNER_CAPACITY: usize, const TOKEN_CAPACITY: usize> PinRegistry<
    OWNER_CAPACITY,
    TOKEN_CAPACITY,
> {
    /// What the registry holds.
    pub open(crate) spec fn ledger(&self) -> PinLedger {
        PinLedger {
            page_size: self.page_size,
            global_quota: self.global_quota,
            global_usage: self.global_usage,
            owners: self.owners@,
            records: self.records@,
            next_token: self.next_token,
            state: self.state,
        }
    }

    /// The ledger is consistent and the arrays have their fixed sizes.
    pub open spec fn wf(&self) -> bool {
        &&& self.ledger().wf()
        &&& self.ledger().owners.len() == OWNER_CAPACITY
        &&& self.ledger().records.len() == TOKEN_CAPACITY
    }

    /// Builds an empty registry with a consumer-selected nonzero token seed.
    pub fn new(page_size: usize, global_quota: PinQuota, first_token: u64) -> (result: Result<
        Self,
        MmError,
    >)
        ensures
            match result {
                Ok(registry) => {
                    &&& page_size != 0 && power_of_two(page_size as int)
                    &&& first_token != 0
                    &&& registry.wf()
                    &&& registry.ledger().page_size.bytes() == page_size
                    &&& registry.ledger().global_quota == global_quota
                    &&& registry.ledger().global_usage.pages() == 0
                    &&& registry.ledger().global_usage.bytes() == 0
                    &&& registry.ledger().global_usage.tokens() == 0
                    &&& registry.ledger().next_token == Some(first_token)
                    &&& registry.ledger().state is Open
                    &&& forall|i: int|
                        0 <= i < OWNER_CAPACITY ==> (#[trigger] registry.ledger().owners[i]) is None
                    &&& forall|i: int|
                        0 <= i < TOKEN_CAPACITY ==> (#[trigger] registry.ledger().records[i]) is None
                },
                Err(error) => if page_size == 0 {
                    error == MmError::ZeroLength
                } else if !power_of_two(page_size as int) {
                    error == MmError::InvalidPageSize
                } else {
                    first_token == 0 && error == MmError::InvalidIdentity
                },
            },
    {
        let page_size = match PageSize::new(page_size) {
            Ok(page_size) => page_size,
            Err(error) => return Err(error),
        };
        if first_token == 0 {
            return Err(MmError::InvalidIdentity);
        }
        let owners: [Option<OwnerAccount>; OWNER_CAPACITY] = [None;OWNER_CAPACITY];
        let records: [Option<PinRecord>; TOKEN_CAPACITY] = [None;TOKEN_CAPACITY];
        proof {
            use_type_invariant(&page_size);
            nothing_charged(records@, None);
        }
        Ok(
            Self {
                page_size,
                global_quota,
                global_usage: PinAccounting::default(),
                owners,
                records,
                next_token: Some(first_token),
                state: PinRegistryState::Open,
            },
        )
    }

    /// Current lifecycle state.
    pub fn state(&self) -> (result: PinRegistryState)
        ensures
            result == self.ledger().state,
    {
        self.state
    }

    /// Registry page size.
    pub fn page_size(&self) -> (result: PageSize)
        ensures
            result == self.ledger().page_size,
    {
        self.page_size
    }

    /// Global finite quota.
    pub fn global_quota(&self) -> (result: PinQuota)
        ensures
            result == self.ledger().global_quota,
    {
        self.global_quota
    }

    /// Current global accounting, with reservations counted.
    pub fn global_accounting(&self) -> (result: PinAccounting)
        ensures
            result == self.ledger().global_usage,
    {
        self.global_usage
    }

    /// Current accounting for one configured owner.
    pub fn owner_accounting(&self, owner: PinOwner) -> (result: Result<PinAccounting, MmError>)
        requires
            self.wf(),
        ensures
            match result {
                Ok(usage) => self.ledger().has_owner(owner) && usage == self.ledger().account(owner).usage,
                Err(error) => !self.ledger().has_owner(owner) && error == MmError::OwnerNotConfigured,
            },
    {
        match self.owner_index(owner) {
            Some(index) => match self.owners[index] {
                Some(account) => Ok(account.usage),
                None => Err(MmError::OwnerNotConfigured),
            },
            None => Err(MmError::OwnerNotConfigured),
        }
    }

    /// Adds or updates one owner quota without dropping existing charges.
    pub fn configure_owner(&mut self, owner: PinOwner, quota: PinQuota) -> (result: Result<
        (),
        MmError,
    >)
        requires
            old(self).wf(),
        ensures
            final(self).wf(),
            old(self).ledger().may_become(final(self).ledger()),
            match result {
                Ok(()) => {
                    &&& old(self).ledger().admission_error() is None
                    &&& if old(self).ledger().has_owner(owner) {
                        let account = old(self).ledger().account(owner);
                        &&& quota.admits(account.usage)
                        &&& final(self).ledger() == (PinLedger {
                            owners: old(self).ledger().owners.update(
                                old(self).ledger().owner_slot(owner),
                                Some(OwnerAccount { quota, ..account }),
                            ),
                            ..old(self).ledger()
                        })
                    } else {
                        let slot = first_free(old(self).ledger().owners);
                        let account = final(self).ledger().owners[slot]->0;
                        &&& is_first_free(old(self).ledger().owners, slot)
                        &&& account.owner == owner
                        &&& account.quota == quota
                        &&& account.usage.pages() == 0
                        &&& account.usage.bytes() == 0
                        &&& account.usage.tokens() == 0
                        &&& final(self).ledger() == (PinLedger {
                            owners: old(self).ledger().owners.update(slot, Some(account)),
                            ..old(self).ledger()
                        })
                    }
                },
                Err(error) => {
                    &&& final(self).ledger() == old(self).ledger()
                    &&& if old(self).ledger().admission_error() is Some {
                        old(self).ledger().admission_error() == Some(error)
                    } else if old(self).ledger().has_owner(owner) {
                        &&& !quota.admits(old(self).ledger().account(owner).usage)
                        &&& error == MmError::OwnerBusy
                    } else {
                        !has_free(old(self).ledger().owners) && error == MmError::CapacityExceeded
                    }
                },
            },
    {
        match self.ensure_open() {
            Ok(()) => {},
            Err(error) => return Err(error),
        }
        if let Some(index) = self.owner_index(owner) {
            let account = match self.owners[index] {
                Some(account) => account,
                None => return Err(MmError::OwnerNotConfigured),
            };
            if !quota.admits(account.usage) {
                return Err(MmError::OwnerBusy);
            }
            self.owners[index] = Some(OwnerAccount { quota, ..account });
            proof {
                let before = old(self).ledger();
                let after = self.ledger();
                assert forall|o: PinOwner| #[trigger]
                    before.has_owner(o) implies after.has_owner(o) by {
                    let i = before.owner_slot(o);
                    assert(before.owner_at(o, i));
                    assert(after.owner_at(o, i));
                }
                assert forall|i: int|
                    0 <= i < after.owners.len() && (#[trigger] after.owners[i]) is Some implies {
                    &&& after.owners[i]->0.quota.admits(after.owners[i]->0.usage)
                    &&& accounts_for(
                        after.owners[i]->0.usage,
                        after.records,
                        Some(after.owners[i]->0.owner),
                    )
                } by {
                    assert(before.owners[i] is Some);
                }
                assert forall|i: int, j: int|
                    0 <= i < j < after.owners.len() && (#[trigger] after.owners[i]) is Some && (
                    #[trigger] after.owners[j]) is Some implies after.owners[i]->0.owner
                    != after.owners[j]->0.owner by {
                    assert(before.owners[i] is Some && before.owners[j] is Some);
                }
                records_carry_over(before, after);
            }
            return Ok(());
        }
        let slot = match find_free(&self.owners) {
            Some(slot) => slot,
            None => return Err(MmError::CapacityExceeded),
        };
        let account = OwnerAccount { owner, quota, usage: PinAccounting::default() };
        self.owners[slot] = Some(account);
        proof {
            let before = old(self).ledger();
            let after = self.ledger();
            assert forall|o: PinOwner| #[trigger]
                before.has_owner(o) implies after.has_owner(o) by {
                let i = before.owner_slot(o);
                assert(before.owner_at(o, i));
                assert(after.owner_at(o, i));
            }
            assert forall|i: int|
                0 <= i < before.records.len() && (#[trigger] before.records[i])
                    is Some implies before.records[i]->0.request.owner() != owner by {
                assert(before.record_ok(before.records[i]->0));
            }
            nothing_charged(before.records, Some(owner));
            assert forall|i: int, j: int|
                0 <= i < j < after.owners.len() && (#[trigger] after.owners[i]) is Some && (
                #[trigger] after.owners[j]) is Some implies after.owners[i]->0.owner
                != after.owners[j]->0.owner by {
                if i == slot {
                    assert(before.owners[j] is Some);
                    assert(!before.owner_at(owner, j));
                } else if j == slot {
                    assert(before.owners[i] is Some);
                    assert(!before.owner_at(owner, i));
                } else {
                    assert(before.owners[i] is Some && before.owners[j] is Some);
                }
            }
            assert forall|i: int|
                0 <= i < after.owners.len() && (#[trigger] after.owners[i]) is Some implies {
                &&& after.owners[i]->0.quota.admits(after.owners[i]->0.usage)
                &&& accounts_for(
                    after.owners[i]->0.usage,
                    after.records,
                    Some(after.owners[i]->0.owner),
                )
            } by {
                if i != slot {
                    assert(before.owners[i] is Some);
                }
            }
            records_carry_over(before, after);
        }
        Ok(())
    }

    /// Removes an unused owner quota.
    pub fn remove_owner(&mut self, owner: PinOwner) -> (result: Result<(), MmError>)
        requires
            old(self).wf(),
        ensures
            final(self).wf(),
            old(self).ledger().may_become(final(self).ledger()),
            match result {
                Ok(()) => {
                    &&& old(self).ledger().admission_error() is None
                    &&& old(self).ledger().has_owner(owner)
                    &&& is_unused(old(self).ledger().account(owner).usage)
                    &&& !final(self).ledger().has_owner(owner)
                    &&& final(self).ledger() == (PinLedger {
                        owners: old(self).ledger().owners.update(
                            old(self).ledger().owner_slot(owner),
                            None,
                        ),
                        ..old(self).ledger()
                    })
                },
                Err(error) => {
                    &&& final(self).ledger() == old(self).ledger()
                    &&& if old(self).ledger().admission_error() is Some {
                        old(self).ledger().admission_error() == Some(error)
                    } else if !old(self).ledger().has_owner(owner) {
                        error == MmError::OwnerNotConfigured
                    } else {
                        &&& !is_unused(old(self).ledger().account(owner).usage)
                        &&& error == MmError::OwnerBusy
                    }
                },
            },
    {
        match self.ensure_open() {
            Ok(()) => {},
            Err(error) => return Err(error),
        }
        let index = match self.owner_index(owner) {
            Some(index) => index,
            None => return Err(MmError::OwnerNotConfigured),
        };
        let account = match self.owners[index] {
            Some(account) => account,
            None => return Err(MmError::OwnerNotConfigured),
        };
        if account.usage.pages() != 0 || account.usage.bytes() != 0 || account.usage.tokens() != 0 {
            return Err(MmError::OwnerBusy);
        }
        self.owners[index] = None;
        proof {
            let before = old(self).ledger();
            let after = self.ledger();
            assert forall|i: int|
                0 <= i < after.records.len() && (#[trigger] after.records[i])
                    is Some implies after.record_ok(after.records[i]->0) by {
                let record = before.records[i]->0;
                assert(before.record_ok(record));
                let o = record.request.owner();
                let k = before.owner_slot(o);
                assert(before.owner_at(o, k));
                if k == index {
                    total_at_least(before.records, i, tokens_charged(Some(owner)));
                }
                assert(after.owner_at(o, k));
            }
            assert forall|i: int, j: int|
                0 <= i < j < after.owners.len() && (#[trigger] after.owners[i]) is Some && (
                #[trigger] after.owners[j]) is Some implies after.owners[i]->0.owner
                != after.owners[j]->0.owner by {
                assert(before.owners[i] is Some && before.owners[j] is Some);
            }
            assert forall|i: int|
                0 <= i < after.owners.len() && (#[trigger] after.owners[i]) is Some implies {
                &&& after.owners[i]->0.quota.admits(after.owners[i]->0.usage)
                &&& accounts_for(
                    after.owners[i]->0.usage,
                    after.records,
                    Some(after.owners[i]->0.owner),
                )
            } by {
                assert(before.owners[i] is Some);
            }
            if after.has_owner(owner) {
                let k = after.owner_slot(owner);
                assert(after.owner_at(owner, k));
                assert(before.owner_at(owner, k));
                owner_slots_are_unique(before, owner, k);
            }
        }
        Ok(())
    }

    /// Reserves quota and one token before blocking fault/pin work begins.
    ///
    /// Every failure is mutation-free. After success, callers must invoke
    /// `commit`, `cancel_reservation`, or `begin_teardown`.
    ///
    /// A live reservation is also an address-range mutation fence: it is
    /// returned by [`Self::first_mutation_blocker`] and rejected by
    /// [`Self::admit_mutation`] just like an active pin. Consumers that route
    /// every overlapping mapping mutation through this registry may therefore
    /// revalidate a large request in bounded publication-lock windows. The
    /// reservation must remain live between windows, and each lower-level pin
    /// owner must be acquired before its corresponding window is revalidated.
    pub fn reserve(&mut self, request: PinRequest, address_space: AddressSpaceId) -> (result:
        Result<PinReservation, MmError>)
        requires
            old(self).wf(),
        ensures
            final(self).wf(),
            old(self).ledger().may_become(final(self).ledger()),
            match result {
                Ok(reservation) => {
                    let slot = first_free(old(self).ledger().records);
                    let record = final(self).ledger().records[slot]->0;
                    let owner = request.owner();
                    &&& old(self).ledger().admission_error() is None
                    &&& old(self).ledger().reserve_error(request, address_space, record.range) is None
                    &&& is_first_free(old(self).ledger().records, slot)
                    &&& old(self).ledger().next_token == Some(reservation.token().get())
                    &&& covers(record.range, request.range(), old(self).ledger().page_size)
                    &&& is_reservation(record, reservation.token(), request, address_space)
                    &&& is_sum(
                        old(self).ledger().global_usage,
                        record.charge,
                        final(self).ledger().global_usage,
                    )
                    &&& is_sum(
                        old(self).ledger().account(owner).usage,
                        record.charge,
                        final(self).ledger().account(owner).usage,
                    )
                    &&& final(self).ledger() == (PinLedger {
                        global_usage: final(self).ledger().global_usage,
                        owners: old(self).ledger().owners_with_usage(
                            owner,
                            final(self).ledger().account(owner).usage,
                        ),
                        records: old(self).ledger().records.update(slot, Some(record)),
                        next_token: following(reservation.token().get()),
                        ..old(self).ledger()
                    })
                },
                Err(error) => {
                    &&& final(self).ledger() == old(self).ledger()
                    &&& if old(self).ledger().admission_error() is Some {
                        old(self).ledger().admission_error() == Some(error)
                    } else if request.range().end() + old(self).ledger().page_size.bytes() - 1
                        > usize::MAX {
                        error == MmError::Overflow
                    } else {
                        exists|pages: PageRange| #[trigger]
                            covers(pages, request.range(), old(self).ledger().page_size) && old(
                                self,
                            ).ledger().reserve_error(request, address_space, pages) == Some(error)
                    }
                },
            },
    {
        match self.ensure_open() {
            Ok(()) => {},
            Err(error) => return Err(error),
        }
        let range = match PageRange::covering(request.range(), self.page_size) {
            Ok(range) => range,
            Err(error) => return Err(error),
        };
        assert(covers(range, request.range(), old(self).ledger().page_size));
        match self.validate_overlap(request, range, address_space) {
            Ok(()) => {},
            Err(error) => return Err(error),
        }
        let owner_index = match self.owner_index(request.owner()) {
            Some(owner_index) => owner_index,
            None => return Err(MmError::OwnerNotConfigured),
        };
        let slot = match find_free(&self.records) {
            Some(slot) => slot,
            None => return Err(MmError::CapacityExceeded),
        };
        let charge = PinAccounting::for_range(range);
        let account = match self.owners[owner_index] {
            Some(account) => account,
            None => return Err(MmError::OwnerNotConfigured),
        };
        let new_owner_usage = match account.usage.checked_add(charge) {
            Ok(new_owner_usage) => new_owner_usage,
            Err(error) => return Err(error),
        };
        let new_global_usage = match self.global_usage.checked_add(charge) {
            Ok(new_global_usage) => new_global_usage,
            Err(error) => return Err(error),
        };
        if !account.quota.admits(new_owner_usage) || !self.global_quota.admits(new_global_usage) {
            return Err(MmError::QuotaExceeded);
        }
        let token = match self.allocate_token() {
            Ok(token) => token,
            Err(error) => return Err(error),
        };
        let record = PinRecord {
            token,
            request,
            range,
            snapshot: PinSnapshot { address_space, range },
            validated_until: range.start(),
            validated_mappings: 0,
            charge,
            state: RecordState::Reserved,
        };
        self.owners[owner_index] = Some(OwnerAccount { usage: new_owner_usage, ..account });
        self.global_usage = new_global_usage;
        self.records[slot] = Some(record);
        proof {
            use_type_invariant(&range);
            let before = old(self).ledger();
            let owner = request.owner();
            assert(self.ledger().owners =~= before.owners_with_usage(owner, new_owner_usage));
            owners_keep_their_slots(before, self.ledger(), owner, new_owner_usage);
            reservation_keeps_consistency(before, self.ledger(), slot as int);
        }
        Ok(PinReservation { token })
    }

    /// Revalidates the next contiguous mapping segment covering a reservation.
    ///
    /// Consumers call this once for each covered VMA segment after faulting and
    /// pinning its mechanism pages. Segments must arrive in ascending order
    /// with no gaps or overlap. Revalidation may use either one continuous
    /// topology-publication critical section, or multiple bounded sections
    /// while the live reservation is the mutation fence. The latter is sound
    /// only when every overlapping mapping mutation is admitted through this
    /// registry; unrelated ranges may continue to mutate between windows.
    ///
    /// The consumer must drop any lower partial pins if this method fails. Any
    /// stale/access failure automatically rolls back the policy reservation
    /// and its accounting, which also removes the mutation fence.
    pub fn revalidate_next(
        &mut self,
        reservation: PinReservation,
        expected: ExpectedMapping,
        current: MappingSnapshot,
        covered: PageRange,
    ) -> (result: Result<(), MmError>)
        requires
            old(self).wf(),
        ensures
            final(self).wf(),
            old(self).ledger().may_become(final(self).ledger()),
            ({
                let token = reservation.token();
                let record = old(self).ledger().record_of(token);
                let refused = coverage_refusal(
                    old(self).ledger().page_size,
                    record,
                    expected,
                    current,
                    covered,
                );
                match result {
                    Ok(()) => {
                        &&& old(self).ledger().token_error(token, RecordState::Reserved) is None
                        &&& refused is None
                        &&& final(self).ledger() == (PinLedger {
                            records: old(self).ledger().records.update(
                                old(self).ledger().slot_of(token),
                                Some(
                                    PinRecord {
                                        validated_until: covered.end(),
                                        validated_mappings: (record.validated_mappings
                                            + 1) as usize,
                                        ..record
                                    },
                                ),
                            ),
                            ..old(self).ledger()
                        })
                        &&& record.validated_mappings < usize::MAX
                    },
                    Err(error) => if old(self).ledger().token_error(token, RecordState::Reserved)
                        is Some {
                        &&& old(self).ledger().token_error(token, RecordState::Reserved) == Some(error)
                        &&& final(self).ledger() == old(self).ledger()
                    } else {
                        &&& refused == Some(error)
                        &&& old(self).ledger().refunds(token, final(self).ledger())
                        &&& !final(self).ledger().is_live(token)
                    },
                }
            }),
    {
        let index = match self.record_index(reservation.token) {
            Some(index) => index,
            None => return Err(MmError::UnknownToken),
        };
        let record = match self.records[index] {
            Some(record) => record,
            None => return Err(MmError::UnknownToken),
        };
        if record.state != RecordState::Reserved {
            return Err(MmError::InvalidTokenState);
        }
        let validation = self.validate_coverage(record, expected, current, covered);
        if let Err(error) = validation {
            self.remove_record(index);
            return Err(error);
        }
        proof {
            use_type_invariant(&covered);
            assert(self.ledger().record_ok(record));
        }
        let updated = PinRecord {
            validated_until: covered.end(),
            validated_mappings: record.validated_mappings + 1,
            ..record
        };
        self.records[index] = Some(updated);
        proof {
            same_owners_same_names(old(self).ledger(), self.ledger());
            progress_keeps_consistency(old(self).ledger(), self.ledger(), reservation.token);
        }
        Ok(())
    }

    fn validate_coverage(
        &self,
        record: PinRecord,
        expected: ExpectedMapping,
        current: MappingSnapshot,
        covered: PageRange,
    ) -> (result: Result<(), MmError>)
        ensures
            match result {
                Ok(()) => coverage_refusal(self.ledger().page_size, record, expected, current, covered)
                    is None,
                Err(error) => coverage_refusal(
                    self.ledger().page_size,
                    record,
                    expected,
                    current,
                    covered,
                ) == Some(error),
            },
    {
        if covered.page_size() != self.page_size || covered.start() != record.validated_until
            || !record.range.contains(covered) {
            return Err(MmError::NonContiguousCoverage);
        }
        if expected.address_space() != record.snapshot.address_space {
            return Err(MmError::StaleGeneration);
        }
        match expected.revalidate_range(current, covered) {
            Ok(()) => {},
            Err(error) => return Err(error),
        }
        self.validate_mapping(record.request, covered, current)
    }

    /// Publishes a pin only after mapping revalidation covers its full range.
    ///
    /// This is a constant-time state transition; all per-mapping work belongs
    /// in bounded [`Self::revalidate_next`] calls.
    pub fn commit(&mut self, reservation: PinReservation) -> (result: Result<PinToken, MmError>)
        requires
            old(self).wf(),
        ensures
            final(self).wf(),
            old(self).ledger().may_become(final(self).ledger()),
            ({
                let token = reservation.token();
                let record = old(self).ledger().record_of(token);
                match result {
                    Ok(published) => {
                        &&& published == token
                        &&& old(self).ledger().token_error(token, RecordState::Reserved) is None
                        &&& record.validated_until == record.range.end()
                        &&& final(self).ledger() == (PinLedger {
                            records: old(self).ledger().records.update(
                                old(self).ledger().slot_of(token),
                                Some(PinRecord { state: RecordState::Active, ..record }),
                            ),
                            ..old(self).ledger()
                        })
                    },
                    Err(error) => {
                        &&& final(self).ledger() == old(self).ledger()
                        &&& if old(self).ledger().token_error(token, RecordState::Reserved) is Some {
                            old(self).ledger().token_error(token, RecordState::Reserved) == Some(error)
                        } else {
                            &&& record.validated_until != record.range.end()
                            &&& error == MmError::IncompleteRevalidation
                        }
                    },
                }
            }),
    {
        let index = match self.record_index(reservation.token) {
            Some(index) => index,
            None => return Err(MmError::UnknownToken),
        };
        let record = match self.records[index] {
            Some(record) => record,
            None => return Err(MmError::UnknownToken),
        };
        if record.state != RecordState::Reserved {
            return Err(MmError::InvalidTokenState);
        }
        proof {
            assert(self.ledger().record_ok(record));
        }
        if record.validated_until != record.range.end() || record.validated_mappings == 0 {
            return Err(MmError::IncompleteRevalidation);
        }
        self.records[index] = Some(PinRecord { state: RecordState::Active, ..record });
        proof {
            same_owners_same_names(old(self).ledger(), self.ledger());
            progress_keeps_consistency(old(self).ledger(), self.ledger(), reservation.token);
        }
        Ok(record.token)
    }

    /// Explicitly rolls back an unpublished reservation.
    pub fn cancel_reservation(&mut self, reservation: PinReservation) -> (result: Result<
        (),
        MmError,
    >)
        requires
            old(self).wf(),
        ensures
            final(self).wf(),
            old(self).ledger().may_become(final(self).ledger()),
            match result {
                Ok(()) => {
                    &&& old(self).ledger().token_error(reservation.token(), RecordState::Reserved) is None
                    &&& old(self).ledger().refunds(reservation.token(), final(self).ledger())
                    &&& !final(self).ledger().is_live(reservation.token())
                },
                Err(error) => {
                    &&& final(self).ledger() == old(self).ledger()
                    &&& old(self).ledger().token_error(reservation.token(), RecordState::Reserved) == Some(
                        error,
                    )
                },
            },
    {
        self.remove_in_state(reservation.token, RecordState::Reserved)
    }

    /// Releases one active pin and refunds owner/global accounting.
    pub fn release(&mut self, token: PinToken) -> (result: Result<(), MmError>)
        requires
            old(self).wf(),
        ensures
            final(self).wf(),
            old(self).ledger().may_become(final(self).ledger()),
            match result {
                Ok(()) => {
                    &&& old(self).ledger().token_error(token, RecordState::Active) is None
                    &&& old(self).ledger().refunds(token, final(self).ledger())
                    &&& !final(self).ledger().is_live(token)
                },
                Err(error) => {
                    &&& final(self).ledger() == old(self).ledger()
                    &&& old(self).ledger().token_error(token, RecordState::Active) == Some(error)
                },
            },
    {
        self.remove_in_state(token, RecordState::Active)
    }

    fn remove_in_state(&mut self, token: PinToken, state: RecordState) -> (result: Result<
        (),
        MmError,
    >)
        requires
            old(self).wf(),
        ensures
            final(self).wf(),
            old(self).ledger().may_become(final(self).ledger()),
            match result {
                Ok(()) => {
                    &&& old(self).ledger().token_error(token, state) is None
                    &&& old(self).ledger().refunds(token, final(self).ledger())
                    &&& !final(self).ledger().is_live(token)
                },
                Err(error) => {
                    &&& final(self).ledger() == old(self).ledger()
                    &&& old(self).ledger().token_error(token, state) == Some(error)
                },
            },
    {
        let index = match self.record_index(token) {
            Some(index) => index,
            None => return Err(MmError::UnknownToken),
        };
        let record = match self.records[index] {
            Some(record) => record,
            None => return Err(MmError::UnknownToken),
        };
        if record.state != state {
            return Err(MmError::InvalidTokenState);
        }
        self.remove_record(index);
        Ok(())
    }

    /// Looks up immutable request/range/snapshot facts for a live token.
    pub fn view(&self, token: PinToken) -> (result: Result<PinLeaseView, MmError>)
        requires
            self.wf(),
        ensures
            match result {
                Ok(lease) => {
                    &&& self.ledger().is_live(token)
                    &&& lease.record() == self.ledger().record_of(token)
                },
                Err(error) => !self.ledger().is_live(token) && error == MmError::UnknownToken,
            },
    {
        match self.record_index(token) {
            Some(index) => match self.records[index] {
                Some(record) => Ok(PinLeaseView(record)),
                None => Err(MmError::UnknownToken),
            },
            None => Err(MmError::UnknownToken),
        }
    }

    /// Number of active published pins.
    pub fn active_count(&self) -> (result: usize)
        ensures
            result == self.ledger().active(),
            result <= TOKEN_CAPACITY,
    {
        let mut i: usize = 0;
        let mut n: usize = 0;
        proof {
            assert(self.records@.take(0).len() == 0);
        }
        while i < TOKEN_CAPACITY
            invariant
                n <= i <= TOKEN_CAPACITY,
                self.records@.len() == TOKEN_CAPACITY,
                n == count(self.records@.take(i as int), is_active_slot()),
            decreases TOKEN_CAPACITY - i,
        {
            proof {
                count_take_next(self.records@, i as int, is_active_slot());
            }
            if let Some(record) = self.records[i] {
                if record.state == RecordState::Active {
                    n = n + 1;
                }
            }
            i = i + 1;
        }
        proof {
            assert(self.records@.take(TOKEN_CAPACITY as int) =~= self.records@);
        }
        n
    }

    /// Number of pre-publication reservations.
    pub fn reserved_count(&self) -> (result: usize)
        ensures
            result == self.ledger().reserved(),
            result <= TOKEN_CAPACITY,
    {
        let mut i: usize = 0;
        let mut n: usize = 0;
        proof {
            assert(self.records@.take(0).len() == 0);
        }
        while i < TOKEN_CAPACITY
            invariant
                n <= i <= TOKEN_CAPACITY,
                self.records@.len() == TOKEN_CAPACITY,
                n == count(self.records@.take(i as int), is_reserved_slot()),
            decreases TOKEN_CAPACITY - i,
        {
            proof {
                count_take_next(self.records@, i as int, is_reserved_slot());
            }
            if let Some(record) = self.records[i] {
                if record.state == RecordState::Reserved {
                    n = n + 1;
                }
            }
            i = i + 1;
        }
        proof {
            assert(self.records@.take(TOKEN_CAPACITY as int) =~= self.records@);
        }
        n
    }

    /// Current active/reserved work counts.
    pub fn progress(&self) -> (result: LifecycleProgress)
        ensures
            result.active() == self.ledger().active(),
            result.reserved() == self.ledger().reserved(),
    {
        let active = self.active_count();
        let reserved = self.reserved_count();
        proof {
            active_and_reserved_partition_the_slots(self.records@);
        }
        LifecycleProgress { active, reserved }
    }

    /// Finds the first reservation or active pin overlapping an invalidation.
    pub fn first_mutation_blocker(&self, invalidation: InvalidationRange) -> (result: Option<
        MutationBlocker,
    >)
        ensures
            match result {
                Some(blocker) => exists|i: int|
                    0 <= i < self.ledger().records.len() && #[trigger] blocks(
                        self.ledger().records[i],
                        invalidation,
                    ) && blocker.record() == self.ledger().records[i]->0 && forall|j: int|
                        0 <= j < i ==> !#[trigger] blocks(self.ledger().records[j], invalidation),
                None => forall|i: int|
                    0 <= i < self.ledger().records.len() ==> !#[trigger] blocks(
                        self.ledger().records[i],
                        invalidation,
                    ),
            },
    {
        let mut i: usize = 0;
        while i < TOKEN_CAPACITY
            invariant
                i <= TOKEN_CAPACITY,
                self.records@.len() == TOKEN_CAPACITY,
                forall|j: int| 0 <= j < i ==> !#[trigger] blocks(self.ledger().records[j], invalidation),
            decreases TOKEN_CAPACITY - i,
        {
            if let Some(record) = self.records[i] {
                let expected = invalidation.expected();
                if record.snapshot.address_space == expected.address_space()
                    && record.range.overlaps(invalidation.range()) {
                    assert(blocks(self.ledger().records[i as int], invalidation));
                    return Some(MutationBlocker(PinLeaseView(record)));
                }
            }
            i = i + 1;
        }
        None
    }

    /// Admits a mapping mutation only when no live pin overlaps it.
    pub fn admit_mutation(&self, invalidation: InvalidationRange) -> (result: Result<(), MmError>)
        ensures
            match result {
                Ok(()) => forall|i: int|
                    0 <= i < self.ledger().records.len() ==> !#[trigger] blocks(
                        self.ledger().records[i],
                        invalidation,
                    ),
                Err(error) => error == MmError::MappingPinned && exists|i: int|
                    0 <= i < self.ledger().records.len() && #[trigger] blocks(
                        self.ledger().records[i],
                        invalidation,
                    ),
            },
    {
        if self.first_mutation_blocker(invalidation).is_some() {
            return Err(MmError::MappingPinned);
        }
        Ok(())
    }

    /// Stops admitting new reservations and lets current work drain.
    pub fn begin_close(&mut self) -> (result: Result<LifecycleProgress, MmError>)
        requires
            old(self).wf(),
        ensures
            final(self).wf(),
            old(self).ledger().may_become(final(self).ledger()),
            match result {
                Ok(progress) => {
                    &&& old(self).ledger().state is Open || old(self).ledger().state is Closing
                    &&& final(self).ledger() == (PinLedger {
                        state: PinRegistryState::Closing,
                        ..old(self).ledger()
                    })
                    &&& progress.active() == old(self).ledger().active()
                    &&& progress.reserved() == old(self).ledger().reserved()
                },
                Err(error) => {
                    &&& final(self).ledger() == old(self).ledger()
                    &&& if old(self).ledger().state is TearingDown {
                        error == MmError::TearingDown
                    } else {
                        old(self).ledger().state is Closed && error == MmError::Closed
                    }
                },
            },
    {
        match self.state {
            PinRegistryState::Open => {
                self.state = PinRegistryState::Closing;
            },
            PinRegistryState::Closing => {},
            PinRegistryState::TearingDown => return Err(MmError::TearingDown),
            PinRegistryState::Closed => return Err(MmError::Closed),
        }
        proof {
            same_owners_same_names(old(self).ledger(), self.ledger());
            records_carry_over(old(self).ledger(), self.ledger());
        }
        Ok(self.progress())
    }

    /// Begins forced teardown and rolls back every unpublished reservation.
    pub fn begin_teardown(&mut self) -> (result: Result<TeardownReport, MmError>)
        requires
            old(self).wf(),
        ensures
            final(self).wf(),
            old(self).ledger().may_become(final(self).ledger()),
            match result {
                Ok(report) => {
                    &&& !(old(self).ledger().state is Closed)
                    &&& final(self).ledger().state is TearingDown
                    &&& final(self).ledger().records == without_reservations(old(self).ledger().records)
                    &&& final(self).ledger().next_token == old(self).ledger().next_token
                    &&& same_owner_quotas(old(self).ledger().owners, final(self).ledger().owners)
                    &&& report.cancelled_reservations() == old(self).ledger().reserved()
                    &&& report.active_remaining() == old(self).ledger().active()
                },
                Err(error) => {
                    &&& old(self).ledger().state is Closed
                    &&& final(self).ledger() == old(self).ledger()
                    &&& error == MmError::Closed
                },
            },
    {
        if self.state == PinRegistryState::Closed {
            return Err(MmError::Closed);
        }
        let mut cancelled: usize = 0;
        let mut index: usize = 0;
        let ghost before = self.ledger();
        proof {
            assert(before.records.take(0).len() == 0);
        }
        while index < TOKEN_CAPACITY
            invariant
                before.wf(),
                before.records.len() == TOKEN_CAPACITY,
                self.wf(),
                before.may_become(self.ledger()),
                self.ledger().state == before.state,
                self.ledger().next_token == before.next_token,
                same_owner_quotas(before.owners, self.ledger().owners),
                cancelled <= index <= TOKEN_CAPACITY,
                cancelled == count(before.records.take(index as int), is_reserved_slot()),
                forall|i: int|
                    0 <= i < TOKEN_CAPACITY ==> (#[trigger] self.ledger().records[i]) == if i < index {
                        without_reservation(before.records[i])
                    } else {
                        before.records[i]
                    },
            decreases TOKEN_CAPACITY - index,
        {
            proof {
                count_take_next(before.records, index as int, is_reserved_slot());
            }
            if let Some(record) = self.records[index] {
                if record.state == RecordState::Reserved {
                    let ghost between = self.ledger();
                    proof {
                        assert(between.token_at(record.token, index as int));
                        token_slots_are_unique(between, record.token, index as int);
                        assert(between.record_ok(record));
                        assert(between.owner_at(
                            record.request.owner(),
                            between.owner_slot(record.request.owner()),
                        ));
                    }
                    self.remove_record(index);
                    proof {
                        registry_history_composes(before, between, self.ledger());
                    }
                    cancelled = cancelled + 1;
                }
            }
            index = index + 1;
        }
        proof {
            assert(before.records.take(TOKEN_CAPACITY as int) =~= before.records);
            assert(self.ledger().records =~= without_reservations(before.records));
        }
        let ghost drained = self.ledger();
        self.state = PinRegistryState::TearingDown;
        proof {
            same_owners_same_names(drained, self.ledger());
            assert forall|i: int|
                0 <= i < self.ledger().records.len() && (#[trigger] self.ledger().records[i])
                    is Some implies self.ledger().record_ok(self.ledger().records[i]->0) by {
                assert(drained.records[i] is Some);
                assert(drained.record_ok(drained.records[i]->0));
            }
            teardown_keeps_active(before.records);
        }
        Ok(
            TeardownReport {
                cancelled_reservations: cancelled,
                active_remaining: self.active_count(),
            },
        )
    }

    /// Finalizes close/teardown only after every token has been released.
    pub fn finish_teardown(&mut self) -> (result: Result<(), MmError>)
        requires
            old(self).wf(),
        ensures
            final(self).wf(),
            old(self).ledger().may_become(final(self).ledger()),
            match result {
                Ok(()) => {
                    &&& !(old(self).ledger().state is Open)
                    &&& occupied(old(self).ledger().records) == 0
                    &&& final(self).ledger() == (PinLedger {
                        state: PinRegistryState::Closed,
                        ..old(self).ledger()
                    })
                },
                Err(error) => {
                    &&& final(self).ledger() == old(self).ledger()
                    &&& error == MmError::Busy
                    &&& old(self).ledger().state is Open || occupied(old(self).ledger().records) > 0
                },
            },
    {
        proof {
            active_and_reserved_partition_the_slots(self.ledger().records);
            count_bounds(self.ledger().records, is_full());
            if self.state is Closed {
                assert forall|i: int| 0 <= i < self.ledger().records.len() implies !is_full()(
                    #[trigger] self.ledger().records[i],
                ) by {
                    if self.ledger().records[i] is Some {
                        assert(self.ledger().record_ok(self.ledger().records[i]->0));
                    }
                }
            }
        }
        match self.state {
            PinRegistryState::Open => return Err(MmError::Busy),
            PinRegistryState::Closing | PinRegistryState::TearingDown => {},
            PinRegistryState::Closed => return Ok(()),
        }
        if self.progress().total() != 0 {
            return Err(MmError::Busy);
        }
        self.state = PinRegistryState::Closed;
        proof {
            same_owners_same_names(old(self).ledger(), self.ledger());
            assert forall|i: int| 0 <= i < self.ledger().records.len() implies (
            #[trigger] self.ledger().records[i])
                is None by {
                assert(!is_full()(old(self).ledger().records[i]));
            }
        }
        Ok(())
    }

    fn ensure_open(&self) -> (result: Result<(), MmError>)
        ensures
            match result {
                Ok(()) => self.ledger().admission_error() is None,
                Err(error) => self.ledger().admission_error() == Some(error),
            },
    {
        match self.state {
            PinRegistryState::Open => Ok(()),
            PinRegistryState::Closing => Err(MmError::Closing),
            PinRegistryState::TearingDown => Err(MmError::TearingDown),
            PinRegistryState::Closed => Err(MmError::Closed),
        }
    }

    fn owner_index(&self, owner: PinOwner) -> (result: Option<usize>)
        requires
            self.wf(),
        ensures
            match result {
                Some(index) => {
                    &&& self.ledger().owner_at(owner, index as int)
                    &&& self.ledger().has_owner(owner)
                    &&& index == self.ledger().owner_slot(owner)
                },
                None => !self.ledger().has_owner(owner),
            },
    {
        let mut i: usize = 0;
        while i < OWNER_CAPACITY
            invariant
                self.wf(),
                i <= OWNER_CAPACITY,
                forall|j: int| 0 <= j < i ==> !#[trigger] self.ledger().owner_at(owner, j),
            decreases OWNER_CAPACITY - i,
        {
            if let Some(account) = self.owners[i] {
                if account.owner == owner {
                    proof {
                        owner_slots_are_unique(self.ledger(), owner, i as int);
                    }
                    return Some(i);
                }
            }
            i = i + 1;
        }
        None
    }

    fn record_index(&self, token: PinToken) -> (result: Option<usize>)
        requires
            self.wf(),
        ensures
            match result {
                Some(index) => {
                    &&& self.ledger().token_at(token, index as int)
                    &&& self.ledger().is_live(token)
                    &&& index == self.ledger().slot_of(token)
                },
                None => !self.ledger().is_live(token),
            },
    {
        let mut i: usize = 0;
        while i < TOKEN_CAPACITY
            invariant
                self.wf(),
                i <= TOKEN_CAPACITY,
                forall|j: int| 0 <= j < i ==> !#[trigger] self.ledger().token_at(token, j),
            decreases TOKEN_CAPACITY - i,
        {
            if let Some(record) = self.records[i] {
                if record.token == token {
                    proof {
                        token_slots_are_unique(self.ledger(), token, i as int);
                    }
                    return Some(i);
                }
            }
            i = i + 1;
        }
        None
    }

    fn allocate_token(&mut self) -> (result: Result<PinToken, MmError>)
        requires
            old(self).wf(),
        ensures
            match result {
                Ok(token) => {
                    &&& old(self).ledger().next_token == Some(token.get())
                    &&& final(self).ledger() == (PinLedger {
                        next_token: following(token.get()),
                        ..old(self).ledger()
                    })
                },
                Err(error) => {
                    &&& old(self).ledger().next_token is None
                    &&& final(self).ledger() == old(self).ledger()
                    &&& error == MmError::IdExhausted
                },
            },
    {
        match self.next_token {
            Some(raw) => {
                self.next_token = following_number(raw);
                Ok(PinToken(raw))
            },
            None => Err(MmError::IdExhausted),
        }
    }

    fn validate_mapping(
        &self,
        request: PinRequest,
        range: PageRange,
        snapshot: MappingSnapshot,
    ) -> (result: Result<(), MmError>)
        ensures
            match result {
                Ok(()) => mapping_refusal(self.ledger().page_size, request, range, snapshot) is None,
                Err(error) => mapping_refusal(self.ledger().page_size, request, range, snapshot) == Some(
                    error,
                ),
            },
    {
        if snapshot.range().page_size() != self.page_size || !snapshot.range().contains(range) {
            return Err(MmError::RangeNotMapped);
        }
        match request.access {
            PinAccess::Read => {
                if !snapshot.access().readable() {
                    return Err(MmError::AccessDenied);
                }
            },
            PinAccess::Write => {
                if !snapshot.access().writable() {
                    return Err(MmError::AccessDenied);
                }
            },
        }
        if request.duration == PinDuration::LongTerm && !snapshot.long_term_pinnable() {
            return Err(MmError::UnsupportedPin);
        }
        if request.use_kind == PinUse::Dma && request.duration != PinDuration::LongTerm {
            return Err(MmError::UnsupportedPin);
        }
        if request.duration == PinDuration::LongTerm && request.access == PinAccess::Write
            && snapshot.kind() == MappingKind::FileShared
            && !snapshot.writable_file_pin_supported() {
            return Err(MmError::UnsupportedPin);
        }
        if matches!(snapshot.kind(), MappingKind::Device | MappingKind::Special) && request.duration
            == PinDuration::LongTerm {
            return Err(MmError::UnsupportedPin);
        }
        Ok(())
    }

    fn validate_overlap(
        &self,
        request: PinRequest,
        range: PageRange,
        address_space: AddressSpaceId,
    ) -> (result: Result<(), MmError>)
        ensures
            match result {
                Ok(()) => !self.ledger().has_conflict(request.access(), range, address_space),
                Err(error) => {
                    &&& self.ledger().has_conflict(request.access(), range, address_space)
                    &&& error == MmError::PinOverlap
                },
            },
    {
        let mut i: usize = 0;
        while i < TOKEN_CAPACITY
            invariant
                i <= TOKEN_CAPACITY,
                self.records@.len() == TOKEN_CAPACITY,
                forall|j: int|
                    0 <= j < i && (#[trigger] self.ledger().records[j]) is Some ==> !conflicts(
                        self.ledger().records[j]->0,
                        request.access(),
                        range,
                        address_space,
                    ),
            decreases TOKEN_CAPACITY - i,
        {
            if let Some(record) = self.records[i] {
                if record.snapshot.address_space == address_space && record.range.overlaps(range)
                    && (record.request.access == PinAccess::Write || request.access
                    == PinAccess::Write) {
                    assert(self.ledger().records[i as int] is Some);
                    return Err(MmError::PinOverlap);
                }
            }
            i = i + 1;
        }
        Ok(())
    }

    fn remove_record(&mut self, index: usize)
        requires
            old(self).wf(),
            index < TOKEN_CAPACITY,
            old(self).ledger().records[index as int] is Some,
        ensures
            final(self).wf(),
            ({
                let token = old(self).ledger().records[index as int]->0.token;
                &&& old(self).ledger().is_live(token)
                &&& old(self).ledger().slot_of(token) == index
                &&& old(self).ledger().refunds(token, final(self).ledger())
                &&& !final(self).ledger().is_live(token)
            }),
            old(self).ledger().may_become(final(self).ledger()),
    {
        let record = match self.records[index] {
            Some(record) => record,
            None => return,
        };
        proof {
            assert(self.ledger().token_at(record.token, index as int));
            token_slots_are_unique(self.ledger(), record.token, index as int);
            assert(self.ledger().record_ok(record));
        }
        let owner_index = match self.owner_index(record.request.owner) {
            Some(owner_index) => owner_index,
            None => return,
        };
        let account = match self.owners[owner_index] {
            Some(account) => account,
            None => return,
        };
        proof {
            charges_update(self.ledger().records, index as int, None, None);
            charges_update(self.ledger().records, index as int, None, Some(record.request.owner));
        }
        let owner_usage = match account.usage.checked_sub(record.charge) {
            Ok(owner_usage) => owner_usage,
            Err(_) => return,
        };
        let global_usage = match self.global_usage.checked_sub(record.charge) {
            Ok(global_usage) => global_usage,
            Err(_) => return,
        };
        self.records[index] = None;
        self.owners[owner_index] = Some(OwnerAccount { usage: owner_usage, ..account });
        self.global_usage = global_usage;
        proof {
            let before = old(self).ledger();
            let owner = record.request.owner;
            assert(self.ledger().owners =~= before.owners_with_usage(owner, owner_usage));
            owners_keep_their_slots(before, self.ledger(), owner, owner_usage);
            refund_keeps_consistency(before, self.ledger(), record.token);
        }
    }
}

} // verus!
