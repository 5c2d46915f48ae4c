use crate::counting::{count, count_bounds, count_take_next};
use crate::mm::error::MmError;
use crate::mm::fault::FaultHandlerId;
use crate::mm::identity::{AddressSpaceId, MappingGeneration, MappingId};
use crate::mm::pin::{advances, issued};
use crate::mm::range::PageRange;
use crate::mm::registration::{UffdRegistration, UffdRegistrationId};
use crate::slots::{count_occupied, is_full, occupied};
use vstd::prelude::*;

verus! {

/// Two intervals share an address, whatever their page sizes.
pub open spec fn ranges_overlap(left: PageRange, right: PageRange) -> bool {
    left.start() < right.end() && right.start() < left.end()
}

pub(crate) fn do_ranges_overlap(left: PageRange, right: PageRange) -> (result: bool)
    ensures
        result == ranges_overlap(left, right),
{
    left.start() < right.end() && right.start() < left.end()
}

/// Two live records of one address space share no address.
pub open spec fn are_disjoint(a: UffdRegistration, b: UffdRegistration) -> bool {
    a.address_space() == b.address_space() ==> !ranges_overlap(a.range(), b.range())
}

/// Tells the slots that a handler owns.
pub open spec fn owned_by_handler(handler: FaultHandlerId) -> spec_fn(
    Option<UffdRegistration>,
) -> bool {
    |slot: Option<UffdRegistration>|
        slot matches Some(registration) && registration.handler() == handler
}

/// Tells the slots that hold part of an address-space range.
pub open spec fn meets_range(address_space: AddressSpaceId, range: PageRange) -> spec_fn(
    Option<UffdRegistration>,
) -> bool {
    |slot: Option<UffdRegistration>|
        slot matches Some(registration) && registration.address_space() == address_space
            && ranges_overlap(registration.range(), range)
}

/// The records of the slots that satisfy `p`, in slot order.
pub open spec fn selected(
    records: Seq<Option<UffdRegistration>>,
    p: spec_fn(Option<UffdRegistration>) -> bool,
) -> Seq<UffdRegistration>
    decreases records.len(),
{
    if records.len() == 0 {
        Seq::empty()
    } else {
        let rest = selected(records.drop_last(), p);
        if records.last() is Some && p(records.last()) {
            rest.push(records.last()->0)
        } else {
            rest
        }
    }
}

/// The slots after those that satisfy `p` were emptied.
pub open spec fn emptied(
    records: Seq<Option<UffdRegistration>>,
    p: spec_fn(Option<UffdRegistration>) -> bool,
) -> Seq<Option<UffdRegistration>> {
    Seq::new(
        records.len(),
        |i: int|
            if p(records[i]) {
                None
            } else {
                records[i]
            },
    )
}

/// The number of identities left in a sequence suffices.
pub open spec fn ids_left(next: Option<u64>, n: nat) -> bool {
    n == 0 || (next is Some && next->0 + n - 1 <= u64::MAX)
}

/// The next identity after `n` were handed out.
pub open spec fn after_ids(next: Option<u64>, n: nat) -> Option<u64> {
    if n == 0 {
        next
    } else if next is Some && next->0 + n <= u64::MAX {
        Some((next->0 + n) as u64)
    } else {
        None
    }
}

/// What a registration table holds.
#[verifier::ext_equal]
pub struct UffdTableState {
    /// Live registrations by slot.
    pub records: Seq<Option<UffdRegistration>>,
    /// Identity of the next registration, if one is left.
    pub next_id: Option<u64>,
    /// Stamp of the current contents, used to recognize stale plans.
    pub revision: u64,
}

impl UffdTableState {
    /// `id` is live in slot `i`.
    pub open spec fn id_at(self, id: UffdRegistrationId, i: int) -> bool {
        0 <= i < self.records.len() && self.records[i] is Some && self.records[i]->0.id() == id
    }

    /// `id` is live.
    pub open spec fn is_live(self, id: UffdRegistrationId) -> bool {
        exists|i: int| #[trigger] self.id_at(id, i)
    }

    /// The slot of a live identity.
    pub open spec fn slot_of(self, id: UffdRegistrationId) -> int {
        choose|i: int| #[trigger] self.id_at(id, i)
    }

    /// The registration of a live identity.
    pub open spec fn registration(self, id: UffdRegistrationId) -> UffdRegistration {
        self.records[self.slot_of(id)]->0
    }

    /// The table is consistent: identities are issued once, and no address of
    /// an address space has two registrations.
    pub open spec fn wf(self) -> bool {
        &&& self.next_id matches Some(raw) ==> raw != 0
        &&& forall|i: int|
            0 <= i < self.records.len() && (#[trigger] self.records[i]) is Some ==> {
                &&& issued(self.next_id, self.records[i]->0.id().get())
                &&& self.records[i]->0.request().valid()
            }
        &&& forall|i: int, j: int|
            0 <= i < j < self.records.len() && (#[trigger] self.records[i]) is Some && (
            #[trigger] self.records[j]) is Some ==> {
                &&& self.records[i]->0.id() != self.records[j]->0.id()
                &&& are_disjoint(self.records[i]->0, self.records[j]->0)
            }
    }

    /// `after` may follow this state: identities and revisions only move
    /// forward, and whatever is live then was live before, unchanged, or is
    /// newly issued.
    pub open spec fn may_become(self, after: Self) -> bool {
        &&& advances(self.next_id, after.next_id)
        &&& self.revision <= after.revision
        &&& forall|id: UffdRegistrationId| #[trigger]
            after.is_live(id) ==> {
                ||| self.is_live(id) && self.registration(id) == after.registration(id)
                ||| !issued(self.next_id, id.get())
            }
    }

    /// The revision after a change; it stays where it cannot grow.
    pub open spec fn next_revision(self) -> u64 {
        if self.revision == u64::MAX {
            u64::MAX
        } else {
            (self.revision + 1) as u64
        }
    }
}

/// An identity has one slot.
pub(crate) proof fn id_slots_are_unique(state: UffdTableState, id: UffdRegistrationId, i: int)
    requires
        state.wf(),
        state.id_at(id, i),
    ensures
        state.is_live(id),
        state.slot_of(id) == i,
{
    let k = state.slot_of(id);
    assert(state.id_at(id, k));
    if k < i {
        assert(state.records[k]->0.id() != state.records[i]->0.id());
    } else if i < k {
        assert(state.records[i]->0.id() != state.records[k]->0.id());
    }
}

/// Emptying slots keeps the table consistent.
proof fn emptying_keeps_consistency(before: UffdTableState, after: UffdTableState)
    requires
        before.wf(),
        after.next_id == before.next_id,
        before.revision <= after.revision,
        after.records.len() == before.records.len(),
        forall|i: int|
            0 <= i < before.records.len() && (#[trigger] after.records[i]) is Some
                ==> after.records[i] == before.records[i],
    ensures
        after.wf(),
        before.may_become(after),
{
    assert forall|i: int|
        0 <= i < after.records.len() && (#[trigger] after.records[i]) is Some implies {
        &&& issued(after.next_id, after.records[i]->0.id().get())
        &&& after.records[i]->0.request().valid()
    } by {
        assert(before.records[i] is Some);
    }
    assert forall|i: int, j: int|
        0 <= i < j < after.records.len() && (#[trigger] after.records[i]) is Some && (
        #[trigger] after.records[j]) is Some implies {
        &&& after.records[i]->0.id() != after.records[j]->0.id()
        &&& are_disjoint(after.records[i]->0, after.records[j]->0)
    } by {
        assert(before.records[i] is Some && before.records[j] is Some);
    }
    assert forall|id: UffdRegistrationId| #[trigger] after.is_live(id) implies before.is_live(id)
        && before.registration(id) == after.registration(id) by {
        let i = after.slot_of(id);
        assert(after.id_at(id, i));
        assert(before.id_at(id, i));
        id_slots_are_unique(before, id, i);
    }
}

/// A registration that was removed never comes back under its identity, and a
/// live identity never changes what it names.
pub proof fn registration_ids_are_never_reused(
    before: UffdTableState,
    after: UffdTableState,
    id: UffdRegistrationId,
)
    requires
        before.may_become(after),
        issued(before.next_id, id.get()),
    ensures
        !before.is_live(id) ==> !after.is_live(id),
        before.is_live(id) && after.is_live(id) ==> before.registration(id) == after.registration(
            id,
        ),
        issued(after.next_id, id.get()),
{
}

/// Following is transitive, so what holds of one call holds of any number.
pub proof fn table_history_composes(a: UffdTableState, b: UffdTableState, c: UffdTableState)
    requires
        a.may_become(b),
        b.may_become(c),
    ensures
        a.may_become(c),
{
    assert forall|id: UffdRegistrationId| #[trigger] c.is_live(id) implies {
        ||| a.is_live(id) && a.registration(id) == c.registration(id)
        ||| !issued(a.next_id, id.get())
    } by {
        if !b.is_live(id) {
            assert(!issued(b.next_id, id.get()));
        }
    }
}

/// Every address of an address space is owned by at most one registration, so
/// by at most one handler.
pub proof fn addresses_have_one_owner(
    state: UffdTableState,
    a: UffdRegistrationId,
    b: UffdRegistrationId,
    address: usize,
)
    requires
        state.wf(),
        state.is_live(a),
        state.is_live(b),
        state.registration(a).address_space() == state.registration(b).address_space(),
        state.registration(a).range().user_range().contains_address(address),
        state.registration(b).range().user_range().contains_address(address),
    ensures
        a == b,
        state.registration(a).handler() == state.registration(b).handler(),
{
    let i = state.slot_of(a);
    let j = state.slot_of(b);
    assert(state.id_at(a, i) && state.id_at(b, j));
    if i < j {
        assert(are_disjoint(state.records[i]->0, state.records[j]->0));
    } else if j < i {
        assert(are_disjoint(state.records[j]->0, state.records[i]->0));
    }
}

/// Fixed-capacity interval ownership table.
///
/// Registration, replacement, removal and their planning allocate nothing. Only
/// [`Self::iter`] and [`Self::intersecting`] build a list.
pub struct UffdRegistrationTable<const CAPACITY: usize> {
    pub(crate) records: [Option<UffdRegistration>; CAPACITY],
    pub(crate) next_id: Option<u64>,
    pub(crate) revision: u64,
}

impl<const CAPACITY: usize> View for UffdRegistrationTable<CAPACITY> {
    type V = UffdTableState;

    open(crate) spec fn view(&self) -> UffdTableState {
        UffdTableState {
            records: self.records@,
            next_id: self.next_id,
            revision: self.revision,
        }
    }
}

impl<const CAPACITY: usize> UffdRegistrationTable<CAPACITY> {
    /// The table is consistent and has its fixed size.
    pub open spec fn wf(&self) -> bool {
        self@.wf() && self@.records.len() == CAPACITY
    }

    /// Builds an empty table with a nonzero first identity.
    pub fn new(first_id: u64) -> (result: Result<Self, MmError>)
        ensures
            match result {
                Ok(table) => {
                    &&& first_id != 0
                    &&& table.wf()
                    &&& table@.next_id == Some(first_id)
                    &&& table@.revision == 1
                    &&& forall|i: int|
                        0 <= i < CAPACITY ==> (#[trigger] table@.records[i]) is None
                },
                Err(error) => first_id == 0 && error == MmError::InvalidIdentity,
            },
    {
        if first_id == 0 {
            return Err(MmError::InvalidIdentity);
        }
        Ok(Self { records: [None;CAPACITY], next_id: Some(first_id), revision: 1 })
    }

    /// Stamp of the current contents.
    pub fn revision(&self) -> (result: u64)
        ensures
            result == self@.revision,
    {
        self.revision
    }

    /// Spends every revision before `revision`; an earlier or equal one
    /// changes nothing.
    pub fn skip_revisions_to(&mut self, revision: u64)
        requires
            old(self).wf(),
        ensures
            final(self).wf(),
            old(self)@.may_become(final(self)@),
            final(self)@ == (UffdTableState {
                revision: if revision > old(self)@.revision {
                    revision
                } else {
                    old(self)@.revision
                },
                ..old(self)@
            }),
    {
        if revision > self.revision {
            self.revision = revision;
        }
        proof {
            emptying_keeps_consistency(old(self)@, self@);
        }
    }

    /// Every live registration in table-slot order.
    pub fn iter(&self) -> (result: Vec<UffdRegistration>)
        ensures
            result@ == selected(self@.records, is_full()),
    {
        let mut out: Vec<UffdRegistration> = Vec::new();
        let mut i: usize = 0;
        proof {
            assert(self.records@.take(0).len() == 0);
        }
        while i < CAPACITY
            invariant
                i <= CAPACITY,
                self.records@.len() == CAPACITY,
                out@ == selected(self.records@.take(i as int), is_full()),
            decreases CAPACITY - i,
        {
            proof {
                assert(self.records@.take(i + 1).drop_last() =~= self.records@.take(i as int));
            }
            if let Some(registration) = self.records[i] {
                out.push(registration);
            }
            i = i + 1;
        }
        proof {
            assert(self.records@.take(CAPACITY as int) =~= self.records@);
        }
        out
    }

    /// Live registrations intersecting one address-space range, in table-slot
    /// order.
    ///
    /// The adapter collects their IDs before constructing an all-or-none
    /// mapping replacement/removal transaction.
    pub fn intersecting(&self, address_space: AddressSpaceId, range: PageRange) -> (result: Vec<
        UffdRegistration,
    >)
        ensures
            result@ == selected(self@.records, meets_range(address_space, range)),
    {
        let mut out: Vec<UffdRegistration> = Vec::new();
        let mut i: usize = 0;
        proof {
            assert(self.records@.take(0).len() == 0);
        }
        while i < CAPACITY
            invariant
                i <= CAPACITY,
                self.records@.len() == CAPACITY,
                out@ == selected(
                    self.records@.take(i as int),
                    meets_range(address_space, range),
                ),
            decreases CAPACITY - i,
        {
            proof {
                assert(self.records@.take(i + 1).drop_last() =~= self.records@.take(i as int));
            }
            if let Some(registration) = self.records[i] {
                if registration.address_space() == address_space && do_ranges_overlap(
                    registration.range(),
                    range,
                ) {
                    out.push(registration);
                }
            }
            i = i + 1;
        }
        proof {
            assert(self.records@.take(CAPACITY as int) =~= self.records@);
        }
        out
    }

    /// Looks one registration up by its identity.
    pub fn get(&self, id: UffdRegistrationId) -> (result: Result<UffdRegistration, MmError>)
        requires
            self.wf(),
        ensures
            match result {
                Ok(registration) => {
                    &&& self@.is_live(id)
                    &&& registration == self@.registration(id)
                    &&& registration.id() == id
                },
                Err(error) => {
                    &&& !self@.is_live(id)
                    &&& error == MmError::UnknownUffdRegistration
                },
            },
    {
        match self.find(id) {
            Some(slot) => match self.records[slot] {
                Some(registration) => Ok(registration),
                None => Err(MmError::UnknownUffdRegistration),
            },
            None => Err(MmError::UnknownUffdRegistration),
        }
    }

    fn find(&self, id: UffdRegistrationId) -> (result: Option<usize>)
        requires
            self.wf(),
        ensures
            match result {
                Some(slot) => {
                    &&& self@.id_at(id, slot as int)
                    &&& self@.is_live(id)
                    &&& slot == self@.slot_of(id)
                },
                None => !self@.is_live(id),
            },
    {
        let mut i: usize = 0;
        while i < CAPACITY
            invariant
                self.wf(),
                i <= CAPACITY,
                forall|j: int| 0 <= j < i ==> !#[trigger] self@.id_at(id, j),
            decreases CAPACITY - i,
        {
            if let Some(registration) = self.records[i] {
                if registration.id == id {
                    proof {
                        id_slots_are_unique(self@, id, i as int);
                    }
                    return Some(i);
                }
            }
            i = i + 1;
        }
        None
    }

    /// Finds one registration covering a resolver destination.
    ///
    /// No handler is supplied or compared. Linux COPY/ZEROPAGE are
    /// capabilities bound to the address space, not restricted to VMAs owned
    /// by the invoking userfaultfd context.
    pub fn resolver_registration(&self, address_space: AddressSpaceId, destination: PageRange) -> (result:
        Result<UffdRegistration, MmError>)
        requires
            self.wf(),
        ensures
            match result {
                Ok(registration) => {
                    &&& self@.is_live(registration.id())
                    &&& registration == self@.registration(registration.id())
                    &&& registration.address_space() == address_space
                    &&& registration.range().contains(destination)
                    &&& forall|id: UffdRegistrationId| #[trigger]
                        self@.is_live(id) && self@.registration(id).address_space()
                            == address_space && self@.registration(id).range().contains(
                            destination,
                        ) ==> id == registration.id()
                },
                Err(error) => {
                    &&& error == MmError::UnknownUffdRegistration
                    &&& forall|id: UffdRegistrationId| #[trigger]
                        self@.is_live(id) ==> !(self@.registration(id).address_space()
                            == address_space && self@.registration(id).range().contains(
                            destination,
                        ))
                },
            },
    {
        let mut i: usize = 0;
        while i < CAPACITY
            invariant
                self.wf(),
                i <= CAPACITY,
                forall|j: int|
                    0 <= j < i && (#[trigger] self@.records[j]) is Some ==> !(
                    self@.records[j]->0.address_space() == address_space
                        && self@.records[j]->0.range().contains(destination)),
            decreases CAPACITY - i,
        {
            if let Some(registration) = self.records[i] {
                if registration.address_space() == address_space && registration.range().contains(
                    destination,
                ) {
                    proof {
                        use_type_invariant(&destination);
                        assert(self@.id_at(registration.id(), i as int));
                        id_slots_are_unique(self@, registration.id(), i as int);
                        assert forall|id: UffdRegistrationId| #[trigger]
                            self@.is_live(id) && self@.registration(id).address_space()
                                == address_space && self@.registration(id).range().contains(
                                destination,
                            ) implies id == registration.id() by {
                            assert(self@.id_at(id, self@.slot_of(id)));
                            addresses_have_one_owner(
                                self@,
                                id,
                                registration.id(),
                                destination.start(),
                            );
                        }
                    }
                    return Ok(registration);
                }
            }
            i = i + 1;
        }
        proof {
            assert forall|id: UffdRegistrationId| #[trigger] self@.is_live(id) implies !(
            self@.registration(id).address_space() == address_space && self@.registration(
                id,
            ).range().contains(destination)) by {
                let k = self@.slot_of(id);
                assert(self@.id_at(id, k));
                assert(self@.records[k] is Some);
            }
        }
        Err(MmError::UnknownUffdRegistration)
    }

    /// The generation under which faults on a mapping are delegated, where the
    /// mapping has registrations and they agree on it.
    pub fn epoch_for_mapping(&self, address_space: AddressSpaceId, mapping: MappingId) -> (result:
        Result<Option<MappingGeneration>, MmError>)
        ensures
            result is Ok && result->Ok_0 is None ==> !has_mapping(
                self@.records,
                address_space,
                mapping,
            ),
            match result {
                Ok(None) => forall|i: int|
                    0 <= i < self@.records.len() ==> !#[trigger] of_mapping(
                        self@.records[i],
                        address_space,
                        mapping,
                    ),
                Ok(Some(generation)) => {
                    &&& exists|i: int|
                        0 <= i < self@.records.len() && #[trigger] of_mapping(
                            self@.records[i],
                            address_space,
                            mapping,
                        )
                    &&& forall|i: int|
                        0 <= i < self@.records.len() && #[trigger] of_mapping(
                            self@.records[i],
                            address_space,
                            mapping,
                        ) ==> self@.records[i]->0.generation() == generation
                },
                Err(error) => {
                    &&& error == MmError::StaleGeneration
                    &&& exists|i: int, j: int|
                        0 <= i < self@.records.len() && 0 <= j < self@.records.len()
                            && #[trigger] of_mapping(self@.records[i], address_space, mapping)
                            && #[trigger] of_mapping(self@.records[j], address_space, mapping)
                            && self@.records[i]->0.generation()
                            != self@.records[j]->0.generation()
                },
            },
    {
        let mut epoch: Option<MappingGeneration> = None;
        let mut i: usize = 0;
        while i < CAPACITY
            invariant
                i <= CAPACITY,
                self.records@.len() == CAPACITY,
                epoch is None ==> forall|j: int|
                    0 <= j < i ==> !#[trigger] of_mapping(
                        self@.records[j],
                        address_space,
                        mapping,
                    ),
                epoch matches Some(generation) ==> {
                    &&& exists|j: int|
                        0 <= j < i && #[trigger] of_mapping(
                            self@.records[j],
                            address_space,
                            mapping,
                        )
                    &&& forall|j: int|
                        0 <= j < i && #[trigger] of_mapping(
                            self@.records[j],
                            address_space,
                            mapping,
                        ) ==> self@.records[j]->0.generation() == generation
                },
            decreases CAPACITY - i,
        {
            if let Some(registration) = self.records[i] {
                if registration.address_space() == address_space && registration.mapping()
                    == mapping {
                    assert(of_mapping(self@.records[i as int], address_space, mapping));
                    match epoch {
                        Some(generation) => {
                            if registration.generation() != generation {
                                return Err(MmError::StaleGeneration);
                            }
                        },
                        None => {
                            epoch = Some(registration.generation());
                        },
                    }
                }
            }
            i = i + 1;
        }
        Ok(epoch)
    }

    /// Removes one exact registration token.
    ///
    /// The caller's handler identity is intentionally absent: Linux permits a
    /// userfaultfd bound to the same address space to unregister another
    /// userfaultfd context's VMA registration.
    pub fn unregister(&mut self, id: UffdRegistrationId) -> (result: Result<
        UffdRegistration,
        MmError,
    >)
        requires
            old(self).wf(),
        ensures
            final(self).wf(),
            old(self)@.may_become(final(self)@),
            match result {
                Ok(registration) => {
                    &&& old(self)@.is_live(id)
                    &&& registration == old(self)@.registration(id)
                    &&& !final(self)@.is_live(id)
                    &&& final(self)@ == (UffdTableState {
                        records: old(self)@.records.update(old(self)@.slot_of(id), None),
                        revision: old(self)@.next_revision(),
                        ..old(self)@
                    })
                },
                Err(error) => {
                    &&& !old(self)@.is_live(id)
                    &&& final(self)@ == old(self)@
                    &&& error == MmError::UnknownUffdRegistration
                },
            },
    {
        let slot = match self.find(id) {
            Some(slot) => slot,
            None => return Err(MmError::UnknownUffdRegistration),
        };
        let registration = match self.records[slot] {
            Some(registration) => registration,
            None => return Err(MmError::UnknownUffdRegistration),
        };
        self.records[slot] = None;
        self.revision = self.revision.saturating_add(1);
        proof {
            emptying_keeps_consistency(old(self)@, self@);
            if self@.is_live(id) {
                let i = self@.slot_of(id);
                assert(self@.id_at(id, i));
                assert(old(self)@.id_at(id, i));
                id_slots_are_unique(old(self)@, id, i);
            }
        }
        Ok(registration)
    }

    /// Detaches every interval owned by one closing handler.
    pub fn detach_handler(&mut self, handler: FaultHandlerId) -> (result: Result<usize, MmError>)
        requires
            old(self).wf(),
        ensures
            final(self).wf(),
            old(self)@.may_become(final(self)@),
            ({
                let owned = count(old(self)@.records, owned_by_handler(handler));
                &&& result == Ok::<usize, MmError>(owned as usize)
                &&& final(self)@ == if owned == 0 {
                    old(self)@
                } else {
                    UffdTableState {
                        records: emptied(old(self)@.records, owned_by_handler(handler)),
                        revision: old(self)@.next_revision(),
                        ..old(self)@
                    }
                }
            }),
            count(final(self)@.records, owned_by_handler(handler)) == 0,
    {
        let mut removed: usize = 0;
        let mut i: usize = 0;
        let ghost before = self@;
        proof {
            assert(before.records.take(0).len() == 0);
            count_bounds(before.records, owned_by_handler(handler));
        }
        while i < CAPACITY
            invariant
                before == old(self)@,
                before.records.len() == CAPACITY,
                self@.records.len() == CAPACITY,
                self.next_id == before.next_id,
                self.revision == before.revision,
                removed <= i <= CAPACITY,
                removed == count(before.records.take(i as int), owned_by_handler(handler)),
                forall|j: int|
                    0 <= j < CAPACITY ==> #[trigger] self@.records[j] == if j < i
                        && owned_by_handler(handler)(before.records[j]) {
                        None
                    } else {
                        before.records[j]
                    },
            decreases CAPACITY - i,
        {
            proof {
                count_take_next(before.records, i as int, owned_by_handler(handler));
            }
            if let Some(registration) = self.records[i] {
                if registration.handler() == handler {
                    self.records[i] = None;
                    removed = removed + 1;
                }
            }
            i = i + 1;
        }
        proof {
            assert(before.records.take(CAPACITY as int) =~= before.records);
            assert(self@.records =~= emptied(before.records, owned_by_handler(handler)));
            count_bounds(self@.records, owned_by_handler(handler));
        }
        if removed == 0 {
            proof {
                assert forall|j: int| 0 <= j < CAPACITY implies self@.records[j]
                    == before.records[j] by {
                    assert(!owned_by_handler(handler)(before.records[j]));
                }
                assert(self@.records =~= before.records);
                emptying_keeps_consistency(before, self@);
            }
            return Ok(0);
        }
        self.revision = self.revision.saturating_add(1);
        proof {
            emptying_keeps_consistency(before, self@);
        }
        Ok(removed)
    }

    /// Number of live registrations.
    pub fn len(&self) -> (result: usize)
        ensures
            result == occupied(self@.records),
            result <= CAPACITY,
    {
        count_occupied(&self.records)
    }

    /// Whether no registration is live.
    pub fn is_empty(&self) -> (result: bool)
        ensures
            result == (occupied(self@.records) == 0),
    {
        let mut i: usize = 0;
        proof {
            count_bounds(self.records@, is_full());
        }
        while i < CAPACITY
            invariant
                i <= CAPACITY,
                self.records@.len() == CAPACITY,
                forall|j: int| 0 <= j < i ==> (#[trigger] self.records@[j]) is None,
                occupied(self@.records) == 0 <==> (forall|j: int|
                    0 <= j < self.records@.len() ==> !is_full()(#[trigger] self.records@[j])),
            decreases CAPACITY - i,
        {
            if self.records[i].is_some() {
                proof {
                    assert(is_full()(self.records@[i as int]));
                }
                return false;
            }
            i = i + 1;
        }
        true
    }
}

/// The slot holds a registration of the mapping.
pub open spec fn of_mapping(
    slot: Option<UffdRegistration>,
    address_space: AddressSpaceId,
    mapping: MappingId,
) -> bool {
    slot is Some && slot->0.address_space() == address_space && slot->0.mapping() == mapping
}

/// Some slot registers part of the mapping.
pub open spec fn has_mapping(
    records: Seq<Option<UffdRegistration>>,
    address_space: AddressSpaceId,
    mapping: MappingId,
) -> bool {
    exists|i: int|
        0 <= i < records.len() && #[trigger] of_mapping(records[i], address_space, mapping)
}

} // verus!
