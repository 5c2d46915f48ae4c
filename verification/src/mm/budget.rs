use crate::counting::{total, total_at_least, total_update};
use crate::mm::error::MmError;
use crate::mm::pin::{
    advances, following, following_number, is_sum, issued, sum_admitted, sum_fits, PinAccounting,
    PinQuota, PinRequest,
};
use crate::mm::range::{covers, PageRange, PageSize};
use crate::powers::power_of_two;
use crate::slots::{
    count_occupied, find_free, first_free, has_free, is_first_free, occupied,
};
use vstd::prelude::*;

verus! {

/// Calls [`Box::leak`], which keeps the byte allocated for the rest of the
/// program and gives a reference to it.
#[verifier::external_body]
fn permanent_mark(byte: Box<u8>) -> (result: &'static u8)
    ensures
        *result == *byte,
{
    Box::leak(byte)
}

/// Calls [`core::ptr::from_ref`] and gives the address as a number. No two bytes
/// that are allocated at one time have one address, so no two permanent marks
/// have; that relates one call to another and is not claimed here. An address of
/// a reference is not zero.
#[verifier::external_body]
fn address_of(mark: &'static u8) -> (result: usize)
    ensures
        result != 0,
{
    core::ptr::from_ref(mark) as usize
}

/// Identity of one budget: its source and its number there.
#[derive(Clone, Copy, Debug, Eq, Hash, Ord, PartialEq, PartialOrd, Structural)]
pub struct PinBudgetIdentity {
    pub(crate) source: usize,
    pub(crate) number: u64,
}

impl PinBudgetIdentity {
    /// The source that handed the identity out.
    pub open(crate) spec fn source(self) -> usize {
        self.source
    }

    /// The number of the identity among those of its source.
    pub open(crate) spec fn number(self) -> u64 {
        self.number
    }
}

/// Source of budget identities. Each number is handed out once; the source runs
/// dry rather than wrap.
///
/// A source is told from every other by the address of a byte that it keeps
/// allocated for good, so that a charge is refused by every budget but its own,
/// whichever sources the two budgets come from.
#[derive(Debug, PartialEq, Eq)]
pub struct PinBudgetIdentities {
    pub(crate) source: usize,
    pub(crate) next: Option<u64>,
}

/// `source` is the address of a permanent mark.
pub closed spec fn is_mark(source: usize) -> bool {
    exists|byte: Box<u8>, mark: &'static u8| #[trigger]
        call_ensures(permanent_mark, (byte,), mark) && #[trigger] call_ensures(
            address_of,
            (mark,),
            source,
        )
}

impl PinBudgetIdentities {
    /// The mark of this source.
    pub open(crate) spec fn source(&self) -> usize {
        self.source
    }

    /// The number handed out next, if one is left.
    pub open(crate) spec fn next(&self) -> Option<u64> {
        self.next
    }

    /// The source has a mark, and zero is never handed out.
    pub open spec fn wf(&self) -> bool {
        &&& self.source() != 0
        &&& self.next() matches Some(raw) ==> raw != 0
    }

    /// A source that has handed out nothing.
    pub fn new() -> (result: Self)
        ensures
            result.wf(),
            is_mark(result.source()),
            result.next() == Some(1u64),
    {
        Self::marked(1)
    }

    /// A source that has handed out every number before `first`.
    pub fn starting_at(first: u64) -> (result: Result<Self, MmError>)
        ensures
            match result {
                Ok(source) => {
                    &&& first != 0
                    &&& source.wf()
                    &&& is_mark(source.source())
                    &&& source.next() == Some(first)
                },
                Err(error) => first == 0 && error == MmError::InvalidIdentity,
            },
    {
        if first == 0 {
            return Err(MmError::InvalidIdentity);
        }
        Ok(Self::marked(first))
    }

    fn marked(first: u64) -> (result: Self)
        requires
            first != 0,
        ensures
            result.wf(),
            is_mark(result.source()),
            result.next() == Some(first),
    {
        let mark = permanent_mark(Box::new(0));
        let source = address_of(mark);
        assert(is_mark(source));
        Self { source, next: Some(first) }
    }

    /// Hands out one identity.
    fn allocate(&mut self) -> (result: Result<PinBudgetIdentity, MmError>)
        requires
            old(self).wf(),
        ensures
            final(self).wf(),
            final(self).source() == old(self).source(),
            match result {
                Ok(identity) => {
                    &&& identity.source() == old(self).source()
                    &&& old(self).next() == Some(identity.number())
                    &&& final(self).next() == following(identity.number())
                },
                Err(error) => {
                    &&& old(self).next() is None
                    &&& *final(self) == *old(self)
                    &&& error == MmError::IdExhausted
                },
            },
    {
        match self.next {
            Some(number) => {
                self.next = following_number(number);
                Ok(PinBudgetIdentity { source: self.source, number })
            },
            None => Err(MmError::IdExhausted),
        }
    }
}

/// An identity that was handed out is never handed out again, so a charge of one
/// budget is never taken for a charge of another: identities of one source
/// differ in their numbers, and identities of two sources in their marks.
pub proof fn budget_identities_are_fresh(next: PinBudgetIdentity, earlier: PinBudgetIdentity)
    requires
        next.source() != earlier.source() || issued(Some(next.number()), earlier.number()),
        next.number() != 0,
    ensures
        next != earlier,
        issued(Some(next.number()), earlier.number()) ==> issued(
            following(next.number()),
            earlier.number(),
        ),
        issued(following(next.number()), next.number()),
{
}

/// A budget refuses every charge of a budget with another identity, and changes
/// nothing.
pub proof fn foreign_charges_are_refused(state: PinBudgetState, charge: PinBudgetCharge)
    requires
        charge.budget() != state.identity,
    ensures
        state.lookup_error(charge) == Some(MmError::BudgetMismatch),
{
}

/// Opaque token for one live system-wide pin-budget charge.
///
/// The budget identity prevents a token from one system domain from refunding
/// an unrelated domain that happens to use the same local token sequence.
#[derive(Clone, Copy, Debug, Eq, Hash, Ord, PartialEq, PartialOrd, Structural)]
#[must_use]
pub struct PinBudgetCharge {
    pub(crate) budget: PinBudgetIdentity,
    pub(crate) token: u64,
}

impl PinBudgetCharge {
    /// Consumer-visible opaque token value for diagnostics.
    #[verifier::when_used_as_spec(spec_get)]
    pub fn get(self) -> (result: u64)
        ensures
            result == self.spec_get(),
    {
        self.token
    }

    /// Specification counterpart of [`Self::get`].
    pub open(crate) spec fn spec_get(self) -> u64 {
        self.token
    }

    /// Identity of the budget that issued the charge.
    #[verifier::when_used_as_spec(spec_budget)]
    pub fn budget(self) -> (result: PinBudgetIdentity)
        ensures
            result == self.spec_budget(),
    {
        self.budget
    }

    /// Specification counterpart of [`Self::budget`].
    pub open(crate) spec fn spec_budget(self) -> PinBudgetIdentity {
        self.budget
    }
}

/// One live charge.
#[derive(Clone, Copy, Debug, Eq, PartialEq, Structural)]
pub struct PinBudgetRecord {
    /// The token that releases the charge.
    pub charge: PinBudgetCharge,
    /// Page-covering range of the request.
    pub range: PageRange,
    /// What was charged for it.
    pub accounting: PinAccounting,
}

/// Pages charged by a slot.
pub open spec fn slot_pages() -> spec_fn(Option<PinBudgetRecord>) -> nat {
    |slot: Option<PinBudgetRecord>|
        match slot {
            Some(record) => record.accounting.pages() as nat,
            None => 0,
        }
}

/// Bytes charged by a slot.
pub open spec fn slot_bytes() -> spec_fn(Option<PinBudgetRecord>) -> nat {
    |slot: Option<PinBudgetRecord>|
        match slot {
            Some(record) => record.accounting.bytes() as nat,
            None => 0,
        }
}

/// Tokens charged by a slot.
pub open spec fn slot_tokens() -> spec_fn(Option<PinBudgetRecord>) -> nat {
    |slot: Option<PinBudgetRecord>|
        match slot {
            Some(record) => record.accounting.tokens() as nat,
            None => 0,
        }
}

/// What a budget holds.
#[verifier::ext_equal]
pub struct PinBudgetState {
    /// Identity carried by every charge.
    pub identity: PinBudgetIdentity,
    /// Page size used to cover requests.
    pub page_size: PageSize,
    /// Aggregate quota.
    pub quota: PinQuota,
    /// Aggregate live charges.
    pub usage: PinAccounting,
    /// Live charges by slot.
    pub records: Seq<Option<PinBudgetRecord>>,
    /// Token of the next charge, if one is left.
    pub next_charge: Option<u64>,
}

impl PinBudgetState {
    /// `charge` is live in slot `i`.
    pub open spec fn holds(self, charge: PinBudgetCharge, i: int) -> bool {
        0 <= i < self.records.len() && self.records[i] is Some && self.records[i]->0.charge
            == charge
    }

    /// `charge` is live.
    pub open spec fn is_live(self, charge: PinBudgetCharge) -> bool {
        exists|i: int| #[trigger] self.holds(charge, i)
    }

    /// The slot of a live charge.
    pub open spec fn slot_of(self, charge: PinBudgetCharge) -> int {
        choose|i: int| #[trigger] self.holds(charge, i)
    }

    /// The record of a live charge.
    pub open spec fn record_of(self, charge: PinBudgetCharge) -> PinBudgetRecord {
        self.records[self.slot_of(charge)]->0
    }

    /// Why a charge is refused: another budget issued it, or it is not live.
    pub open spec fn lookup_error(self, charge: PinBudgetCharge) -> Option<MmError> {
        if charge.budget() != self.identity {
            Some(MmError::BudgetMismatch)
        } else if !self.is_live(charge) {
            Some(MmError::UnknownToken)
        } else {
            None
        }
    }

    /// A live record belongs to this budget, was issued by it, and is charged
    /// for exactly its range.
    pub open spec fn record_ok(self, record: PinBudgetRecord) -> bool {
        &&& record.charge.budget() == self.identity
        &&& issued(self.next_charge, record.charge.get())
        &&& record.range.valid()
        &&& record.range.page_size() == self.page_size
        &&& record.accounting == PinAccounting::spec_for_range(record.range)
    }

    /// The live charges add up to the usage, the usage is within the quota, and
    /// no token is live twice.
    pub open spec fn wf(self) -> bool {
        &&& self.page_size.valid()
        &&& self.quota.admits(self.usage)
        &&& self.next_charge matches Some(raw) ==> raw != 0
        &&& self.usage.pages() == total(self.records, slot_pages())
        &&& self.usage.bytes() == total(self.records, slot_bytes())
        &&& self.usage.tokens() == total(self.records, slot_tokens())
        &&& forall|i: int|
            0 <= i < self.records.len() && (#[trigger] self.records[i]) is Some ==> self.record_ok(
                self.records[i]->0,
            )
        &&& forall|i: int, j: int|
            0 <= i < j < self.records.len() && (#[trigger] self.records[i]) is Some && (
            #[trigger] self.records[j]) is Some ==> self.records[i]->0.charge
                != self.records[j]->0.charge
    }

    /// `after` may follow this state: the same budget, its tokens only move
    /// forward, and whatever is live then was live before, unchanged, or is newly
    /// issued.
    pub open spec fn may_become(self, after: Self) -> bool {
        &&& after.identity == self.identity
        &&& after.page_size == self.page_size
        &&& after.quota == self.quota
        &&& advances(self.next_charge, after.next_charge)
        &&& after.records.len() == self.records.len()
        &&& forall|i: int|
            0 <= i < after.records.len() && (#[trigger] after.records[i]) is Some ==> {
                ||| after.records[i] == self.records[i]
                ||| !issued(self.next_charge, after.records[i]->0.charge.get())
            }
    }
}

/// A live charge has one slot.
pub(crate) proof fn live_slots_are_unique(state: PinBudgetState, charge: PinBudgetCharge, i: int)
    requires
        state.wf(),
        state.holds(charge, i),
    ensures
        state.is_live(charge),
        state.slot_of(charge) == i,
{
    let k = state.slot_of(charge);
    assert(state.holds(charge, k));
    if k < i {
        assert(state.records[k]->0.charge != state.records[i]->0.charge);
    } else if i < k {
        assert(state.records[i]->0.charge != state.records[k]->0.charge);
    }
}

/// A charge that was released, or never issued by the budget's past, does not
/// become live again: whatever follows, an issued charge that is not live stays
/// not live.
pub proof fn released_charges_stay_released(
    before: PinBudgetState,
    after: PinBudgetState,
    charge: PinBudgetCharge,
)
    requires
        before.may_become(after),
        issued(before.next_charge, charge.get()),
        !before.is_live(charge),
    ensures
        !after.is_live(charge),
        issued(after.next_charge, charge.get()),
{
    if after.is_live(charge) {
        let i = after.slot_of(charge);
        assert(after.holds(charge, i));
        assert(before.holds(charge, i));
    }
}

/// As long as a charge stays live, it keeps its slot, its pages and what is
/// accounted for it, whatever else happens in between.
pub proof fn live_charges_keep_their_records(
    before: PinBudgetState,
    after: PinBudgetState,
    charge: PinBudgetCharge,
)
    requires
        before.wf(),
        after.wf(),
        before.may_become(after),
        before.is_live(charge),
        after.is_live(charge),
    ensures
        after.slot_of(charge) == before.slot_of(charge),
        after.record_of(charge) == before.record_of(charge),
{
    let k = before.slot_of(charge);
    assert(before.holds(charge, k));
    assert(before.record_ok(before.records[k]->0));
    let i = after.slot_of(charge);
    assert(after.holds(charge, i));
    assert(before.holds(charge, i));
    live_slots_are_unique(before, charge, i);
}

/// Following is transitive, so what holds of one call holds of any number.
pub proof fn budget_history_composes(a: PinBudgetState, b: PinBudgetState, c: PinBudgetState)
    requires
        a.may_become(b),
        b.may_become(c),
    ensures
        a.may_become(c),
{
    assert forall|i: int| 0 <= i < c.records.len() && (#[trigger] c.records[i]) is Some implies {
        ||| c.records[i] == a.records[i]
        ||| !issued(a.next_charge, c.records[i]->0.charge.get())
    } by {
        if c.records[i] == b.records[i] {
            assert(b.records[i] is Some);
        }
    }
}

/// Aggregate charges never exceed the quota.
pub proof fn budget_bounds_live_charges(state: PinBudgetState)
    requires
        state.wf(),
    ensures
        total(state.records, slot_pages()) <= state.quota.max_pages(),
        total(state.records, slot_bytes()) <= state.quota.max_bytes(),
        total(state.records, slot_tokens()) <= state.quota.max_tokens(),
{
}

/// Fixed-capacity system-wide pin accounting shared by address spaces.
///
/// This type performs no allocation and owns no lock. A kernel places one
/// instance behind its system accounting lock, reserves a charge before any
/// lower pin mechanism work, and holds the opaque charge until that work has
/// been cancelled or completed. Per-address-space registry accounting remains
/// responsible for mapping mutation and owner policy; this budget supplies the
/// aggregate bound those independent registries cannot enforce.
pub struct PinBudget<const CHARGE_CAPACITY: usize> {
    pub(crate) identity: PinBudgetIdentity,
    pub(crate) page_size: PageSize,
    pub(crate) quota: PinQuota,
    pub(crate) usage: PinAccounting,
    pub(crate) records: [Option<PinBudgetRecord>; CHARGE_CAPACITY],
    pub(crate) next_charge: Option<u64>,
}

impl<const CHARGE_CAPACITY: usize> View for PinBudget<CHARGE_CAPACITY> {
    type V = PinBudgetState;

    open(crate) spec fn view(&self) -> PinBudgetState {
        PinBudgetState {
            identity: self.identity,
            page_size: self.page_size,
            quota: self.quota,
            usage: self.usage,
            records: self.records@,
            next_charge: self.next_charge,
        }
    }
}

impl<const CHARGE_CAPACITY: usize> PinBudget<CHARGE_CAPACITY> {
    /// The charges are in order and the array has its fixed size.
    pub open spec fn wf(&self) -> bool {
        self@.wf() && self@.records.len() == CHARGE_CAPACITY
    }

    /// Builds an empty uniquely identified budget with a consumer-selected
    /// nonzero first charge token. Budget identities and charge tokens never
    /// wrap or get reused.
    pub fn new(
        identities: &mut PinBudgetIdentities,
        page_size: usize,
        quota: PinQuota,
        first_charge: u64,
    ) -> (result: Result<Self, MmError>)
        requires
            old(identities).wf(),
        ensures
            final(identities).wf(),
            final(identities).source() == old(identities).source(),
            match result {
                Ok(budget) => {
                    &&& page_size != 0 && power_of_two(page_size as int)
                    &&& first_charge != 0
                    &&& budget.wf()
                    &&& budget@.identity.source() == old(identities).source()
                    &&& old(identities).next() == Some(budget@.identity.number())
                    &&& final(identities).next() == following(budget@.identity.number())
                    &&& budget@.page_size.bytes() == page_size
                    &&& budget@.quota == quota
                    &&& budget@.usage.pages() == 0
                    &&& budget@.usage.bytes() == 0
                    &&& budget@.usage.tokens() == 0
                    &&& budget@.next_charge == Some(first_charge)
                    &&& occupied(budget@.records) == 0
                    &&& forall|i: int|
                        0 <= i < CHARGE_CAPACITY ==> (#[trigger] budget@.records[i]) is None
                },
                Err(error) => {
                    &&& *final(identities) == *old(identities)
                    &&& if page_size == 0 {
                        error == MmError::ZeroLength
                    } else if !power_of_two(page_size as int) {
                        error == MmError::InvalidPageSize
                    } else if first_charge == 0 {
                        error == MmError::InvalidIdentity
                    } else {
                        old(identities).next() is None && error == MmError::IdExhausted
                    }
                },
            },
    {
        let page_size = match PageSize::new(page_size) {
            Ok(page_size) => page_size,
            Err(error) => return Err(error),
        };
        if first_charge == 0 {
            return Err(MmError::InvalidIdentity);
        }
        let identity = match identities.allocate() {
            Ok(identity) => identity,
            Err(error) => return Err(error),
        };
        let records: [Option<PinBudgetRecord>; CHARGE_CAPACITY] = [None;CHARGE_CAPACITY];
        let budget = Self {
            identity,
            page_size,
            quota,
            usage: PinAccounting::default(),
            records,
            next_charge: Some(first_charge),
        };
        proof {
            use_type_invariant(&page_size);
            totals_of_nothing(records@);
        }
        Ok(budget)
    }

    /// Page size used to cover byte requests before accounting.
    pub fn page_size(&self) -> (result: PageSize)
        ensures
            result == self@.page_size,
    {
        self.page_size
    }

    /// Aggregate finite quota.
    pub fn quota(&self) -> (result: PinQuota)
        ensures
            result == self@.quota,
    {
        self.quota
    }

    /// Aggregate live accounting, with pre-publication work counted.
    pub fn accounting(&self) -> (result: PinAccounting)
        ensures
            result == self@.usage,
    {
        self.usage
    }

    /// Number of live system charges.
    pub fn live_charges(&self) -> (result: usize)
        ensures
            result == occupied(self@.records),
    {
        count_occupied(&self.records)
    }

    /// Reserves aggregate quota before any lower pin mechanism is acquired.
    /// Every failure is mutation-free.
    pub fn reserve(&mut self, request: PinRequest) -> (result: Result<PinBudgetCharge, MmError>)
        requires
            old(self).wf(),
        ensures
            final(self).wf(),
            old(self)@.may_become(final(self)@),
            match result {
                Ok(charge) => {
                    let slot = first_free(old(self)@.records);
                    let record = final(self)@.records[slot]->0;
                    &&& is_first_free(old(self)@.records, slot)
                    &&& old(self)@.next_charge == Some(charge.get())
                    &&& charge.budget() == old(self)@.identity
                    &&& record.charge == charge
                    &&& covers(record.range, request.range(), old(self)@.page_size)
                    &&& record.accounting == PinAccounting::spec_for_range(record.range)
                    &&& is_sum(old(self)@.usage, record.accounting, final(self)@.usage)
                    &&& final(self)@ == (PinBudgetState {
                        usage: final(self)@.usage,
                        records: old(self)@.records.update(slot, Some(record)),
                        next_charge: following(charge.get()),
                        ..old(self)@
                    })
                },
                Err(error) => {
                    &&& final(self)@ == old(self)@
                    &&& if request.range().end() + old(self)@.page_size.bytes() - 1 > usize::MAX {
                        error == MmError::Overflow
                    } else if !has_free(old(self)@.records) {
                        error == MmError::CapacityExceeded
                    } else {
                        exists|pages: PageRange| #[trigger]
                            covers(pages, request.range(), old(self)@.page_size) && ({
                                let charge = PinAccounting::spec_for_range(pages);
                                if !sum_fits(old(self)@.usage, charge) {
                                    error == MmError::Overflow
                                } else if !sum_admitted(
                                    old(self)@.quota,
                                    old(self)@.usage,
                                    charge,
                                ) {
                                    error == MmError::QuotaExceeded
                                } else {
                                    &&& old(self)@.next_charge is None
                                    &&& error == MmError::IdExhausted
                                }
                            })
                    }
                },
            },
    {
        let range = match PageRange::covering(request.range(), self.page_size) {
            Ok(range) => range,
            Err(error) => return Err(error),
        };
        let slot = match find_free(&self.records) {
            Some(slot) => slot,
            None => return Err(MmError::CapacityExceeded),
        };
        let accounting = PinAccounting::for_range(range);
        let new_usage = match self.usage.checked_add(accounting) {
            Ok(new_usage) => new_usage,
            Err(error) => {
                assert(covers(range, request.range(), old(self)@.page_size));
                return Err(error);
            },
        };
        if !self.quota.admits(new_usage) {
            assert(covers(range, request.range(), old(self)@.page_size));
            return Err(MmError::QuotaExceeded);
        }
        let token = match self.next_charge {
            Some(token) => token,
            None => {
                assert(covers(range, request.range(), old(self)@.page_size));
                return Err(MmError::IdExhausted);
            },
        };
        let charge = PinBudgetCharge { budget: self.identity, token };
        let record = PinBudgetRecord { charge, range, accounting };
        self.next_charge = following_number(token);
        self.usage = new_usage;
        self.records[slot] = Some(record);
        proof {
            use_type_invariant(&range);
            let before = old(self)@;
            total_update(before.records, slot as int, Some(record), slot_pages());
            total_update(before.records, slot as int, Some(record), slot_bytes());
            total_update(before.records, slot as int, Some(record), slot_tokens());
        }
        Ok(charge)
    }

    /// Exact page-covering range owned by a live charge.
    pub fn range(&self, charge: PinBudgetCharge) -> (result: Result<PageRange, MmError>)
        requires
            self.wf(),
        ensures
            match result {
                Ok(range) => {
                    &&& self@.lookup_error(charge) is None
                    &&& range == self@.record_of(charge).range
                },
                Err(error) => self@.lookup_error(charge) == Some(error),
            },
    {
        match self.record(charge) {
            Ok(record) => Ok(record.range),
            Err(error) => Err(error),
        }
    }

    /// Exact aggregate accounting owned by a live charge.
    pub fn charge_accounting(&self, charge: PinBudgetCharge) -> (result: Result<
        PinAccounting,
        MmError,
    >)
        requires
            self.wf(),
        ensures
            match result {
                Ok(accounting) => {
                    &&& self@.lookup_error(charge) is None
                    &&& accounting == self@.record_of(charge).accounting
                },
                Err(error) => self@.lookup_error(charge) == Some(error),
            },
    {
        match self.record(charge) {
            Ok(record) => Ok(record.accounting),
            Err(error) => Err(error),
        }
    }

    /// Releases one charge after all lower pin ownership has ended.
    pub fn release(&mut self, charge: PinBudgetCharge) -> (result: Result<(), MmError>)
        requires
            old(self).wf(),
        ensures
            final(self).wf(),
            old(self)@.may_become(final(self)@),
            match result {
                Ok(()) => {
                    &&& old(self)@.lookup_error(charge) is None
                    &&& !final(self)@.is_live(charge)
                    &&& is_sum(
                        final(self)@.usage,
                        old(self)@.record_of(charge).accounting,
                        old(self)@.usage,
                    )
                    &&& final(self)@ == (PinBudgetState {
                        usage: final(self)@.usage,
                        records: old(self)@.records.update(old(self)@.slot_of(charge), None),
                        ..old(self)@
                    })
                },
                Err(error) => {
                    &&& old(self)@.lookup_error(charge) == Some(error)
                    &&& final(self)@ == old(self)@
                },
            },
    {
        let index = match self.record_index(charge) {
            Ok(index) => index,
            Err(error) => return Err(error),
        };
        let record = match self.records[index] {
            Some(record) => record,
            None => return Err(MmError::UnknownToken),
        };
        proof {
            total_at_least(self@.records, index as int, slot_pages());
            total_at_least(self@.records, index as int, slot_bytes());
            total_at_least(self@.records, index as int, slot_tokens());
        }
        let new_usage = match self.usage.checked_sub(record.accounting) {
            Ok(new_usage) => new_usage,
            Err(error) => return Err(error),
        };
        self.records[index] = None;
        self.usage = new_usage;
        proof {
            let before = old(self)@;
            total_update(before.records, index as int, None, slot_pages());
            total_update(before.records, index as int, None, slot_bytes());
            total_update(before.records, index as int, None, slot_tokens());
            if self@.is_live(charge) {
                let i = choose|i: int| #[trigger] self@.holds(charge, i);
                assert(before.holds(charge, i));
                live_slots_are_unique(before, charge, i);
            }
        }
        Ok(())
    }

    fn record(&self, charge: PinBudgetCharge) -> (result: Result<PinBudgetRecord, MmError>)
        requires
            self.wf(),
        ensures
            match result {
                Ok(record) => {
                    &&& self@.lookup_error(charge) is None
                    &&& record == self@.record_of(charge)
                },
                Err(error) => self@.lookup_error(charge) == Some(error),
            },
    {
        let index = match self.record_index(charge) {
            Ok(index) => index,
            Err(error) => return Err(error),
        };
        match self.records[index] {
            Some(record) => Ok(record),
            None => Err(MmError::UnknownToken),
        }
    }

    fn record_index(&self, charge: PinBudgetCharge) -> (result: Result<usize, MmError>)
        requires
            self.wf(),
        ensures
            match result {
                Ok(index) => {
                    &&& self@.lookup_error(charge) is None
                    &&& self@.holds(charge, index as int)
                    &&& index == self@.slot_of(charge)
                },
                Err(error) => self@.lookup_error(charge) == Some(error),
            },
    {
        if charge.budget != self.identity {
            return Err(MmError::BudgetMismatch);
        }
        let mut i: usize = 0;
        while i < CHARGE_CAPACITY
            invariant
                self.wf(),
                charge.budget() == self@.identity,
                i <= CHARGE_CAPACITY,
                forall|j: int| 0 <= j < i ==> !#[trigger] self@.holds(charge, j),
            decreases CHARGE_CAPACITY - i,
        {
            if let Some(record) = self.records[i] {
                if record.charge == charge {
                    proof {
                        live_slots_are_unique(self@, charge, i as int);
                    }
                    return Ok(i);
                }
            }
            i = i + 1;
        }
        Err(MmError::UnknownToken)
    }
}

proof fn totals_of_nothing(records: Seq<Option<PinBudgetRecord>>)
    requires
        forall|i: int| 0 <= i < records.len() ==> (#[trigger] records[i]) is None,
    ensures
        total(records, slot_pages()) == 0,
        total(records, slot_bytes()) == 0,
        total(records, slot_tokens()) == 0,
        occupied(records) == 0,
    decreases records.len(),
{
    if records.len() > 0 {
        let rest = records.drop_last();
        assert forall|i: int| 0 <= i < rest.len() implies (#[trigger] rest[i]) is None by {
            assert(rest[i] == records[i]);
        }
        totals_of_nothing(rest);
        assert(records.last() is None);
    }
}

/// Releasing a charge right after it was reserved restores the usage and the
/// slots; only the token sequence has moved on.
pub proof fn release_undoes_reserve_of_charge(
    before: PinBudgetState,
    reserved: PinBudgetState,
    released: PinBudgetState,
    charge: PinBudgetCharge,
    record: PinBudgetRecord,
)
    requires
        before.wf(),
        reserved.wf(),
        is_first_free(before.records, first_free(before.records)),
        record.charge == charge,
        is_sum(before.usage, record.accounting, reserved.usage),
        reserved == (PinBudgetState {
            usage: reserved.usage,
            records: before.records.update(first_free(before.records), Some(record)),
            next_charge: following(charge.get()),
            ..before
        }),
        is_sum(released.usage, reserved.record_of(charge).accounting, reserved.usage),
        released == (PinBudgetState {
            usage: released.usage,
            records: reserved.records.update(reserved.slot_of(charge), None),
            ..reserved
        }),
    ensures
        released == (PinBudgetState { next_charge: following(charge.get()), ..before }),
{
    let slot = first_free(before.records);
    assert(reserved.holds(charge, slot));
    live_slots_are_unique(reserved, charge, slot);
    assert(released.records =~= before.records);
}

} // verus!
