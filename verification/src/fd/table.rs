use crate::allocation::{allocation_granted, allocation_refused, reserved};
use crate::counting::{count, count_bounds};
use crate::sharing::share;
use crate::fd::types::{DescriptorFlags, FdNumber, FdTableId};
use core::sync::atomic::{AtomicBool, Ordering};
use std::sync::Arc;
use vstd::prelude::*;

verus! {

/// Opaque generation-tagged identity for one published descriptor slot.
#[derive(Debug, Clone, Copy, PartialEq, Eq, Hash, Structural)]
pub struct DescriptorToken {
    pub(crate) table: FdTableId,
    pub(crate) fd: FdNumber,
    pub(crate) generation: u64,
}

impl DescriptorToken {
    /// Returns the owning table identity.
    #[verifier::when_used_as_spec(spec_table)]
    pub fn table(self) -> (result: FdTableId)
        ensures
            result == self.spec_table(),
    {
        self.table
    }

    /// Specification counterpart of [`Self::table`].
    pub open(crate) spec fn spec_table(self) -> FdTableId {
        self.table
    }

    /// Returns the numeric descriptor.
    #[verifier::when_used_as_spec(spec_fd)]
    pub fn fd(self) -> (result: FdNumber)
        ensures
            result == self.spec_fd(),
    {
        self.fd
    }

    /// Specification counterpart of [`Self::fd`].
    pub open(crate) spec fn spec_fd(self) -> FdNumber {
        self.fd
    }

    /// Returns the opaque generation for diagnostics and adapter indexes.
    #[verifier::when_used_as_spec(spec_generation)]
    pub fn generation(self) -> (result: u64)
        ensures
            result == self.spec_generation(),
    {
        self.generation
    }

    /// Specification counterpart of [`Self::generation`].
    pub open(crate) spec fn spec_generation(self) -> u64 {
        self.generation
    }
}

/// Opaque unpublished reservation for one numeric descriptor.
#[derive(Debug, PartialEq, Eq)]
#[must_use]
pub struct ReservationToken {
    pub(crate) table: FdTableId,
    pub(crate) fd: FdNumber,
    pub(crate) generation: u64,
}

impl ReservationToken {
    /// Returns the reserved number, which remains invisible to lookup.
    #[verifier::when_used_as_spec(spec_fd)]
    pub fn fd(&self) -> (result: FdNumber)
        ensures
            result == self.spec_fd(),
    {
        self.fd
    }

    /// Specification counterpart of [`Self::fd`].
    pub open(crate) spec fn spec_fd(&self) -> FdNumber {
        self.fd
    }

    /// Returns the owning table identity.
    #[verifier::when_used_as_spec(spec_table)]
    pub fn table(&self) -> (result: FdTableId)
        ensures
            result == self.spec_table(),
    {
        self.table
    }

    /// Specification counterpart of [`Self::table`].
    pub open(crate) spec fn spec_table(&self) -> FdTableId {
        self.table
    }

    /// Generation that the published descriptor will carry.
    pub open(crate) spec fn generation(&self) -> u64 {
        self.generation
    }
}

/// Publication phase shared by a prepared slot and its publication token.
#[derive(Debug)]
pub struct PublicationState {
    visible: AtomicBool,
}

impl PublicationState {
    /// The phase was made hidden: its flag is what [`AtomicBool::new`] gives for
    /// `false`.
    pub closed spec fn starts_hidden(&self) -> bool {
        call_ensures(AtomicBool::new, (false,), self.visible)
    }

    /// Reading the phase's flag with [`AtomicBool::load`] may answer `visible`.
    pub closed spec fn may_read(&self, visible: bool) -> bool {
        call_ensures(AtomicBool::load, (&self.visible, Ordering::Acquire), visible)
    }

    /// The phase's flag was set with [`AtomicBool::store`].
    pub closed spec fn shown(&self) -> bool {
        call_ensures(AtomicBool::store, (&self.visible, true, Ordering::Release), ())
    }

    fn pending() -> (result: Self)
        ensures
            result.starts_hidden(),
    {
        Self { visible: AtomicBool::new(false) }
    }

    fn is_visible(&self) -> (result: bool)
        ensures
            self.may_read(result),
    {
        self.visible.load(Ordering::Acquire)
    }

    fn make_visible(&self)
        ensures
            self.shown(),
    {
        self.visible.store(true, Ordering::Release)
    }
}

/// Calls [`Arc::ptr_eq`], which tells whether two pointers lead to the same
/// allocation. A phase holds an atomic cell, whose value in specifications is
/// the cell itself and not what it currently stores, so two phases are equal
/// exactly when they are one allocation.
#[verifier::external_body]
fn same_publication(a: &Arc<PublicationState>, b: &Arc<PublicationState>) -> (result: bool)
    ensures
        result == (*a == *b),
{
    Arc::ptr_eq(a, b)
}

/// Exact unpublished descriptor whose fallible table preparation is complete.
///
/// The token is branded by shared state installed in one table slot. Committing
/// it does not receive a table, allocate, validate a caller-selected target, or
/// return an error: it only makes that exact prepared slot visible. Dropping an
/// uncommitted token leaves the slot invisible for good; adapters should
/// normally call [`FdTable::cancel_prepared`] first so the invisible entry is
/// detached too.
#[derive(Debug)]
#[must_use]
pub struct PreparedPublication {
    pub(crate) table: FdTableId,
    pub(crate) fd: FdNumber,
    pub(crate) generation: u64,
    pub(crate) state: Arc<PublicationState>,
}

impl PreparedPublication {
    /// Returns the exact prepared descriptor number.
    #[verifier::when_used_as_spec(spec_fd)]
    pub fn fd(&self) -> (result: FdNumber)
        ensures
            result == self.spec_fd(),
    {
        self.fd
    }

    /// Specification counterpart of [`Self::fd`].
    pub open(crate) spec fn spec_fd(&self) -> FdNumber {
        self.fd
    }

    /// Returns the exact owning table identity.
    #[verifier::when_used_as_spec(spec_table)]
    pub fn table(&self) -> (result: FdTableId)
        ensures
            result == self.spec_table(),
    {
        self.table
    }

    /// Specification counterpart of [`Self::table`].
    pub open(crate) spec fn spec_table(&self) -> FdTableId {
        self.table
    }

    /// Generation that the published descriptor will carry.
    pub open(crate) spec fn generation(&self) -> u64 {
        self.generation
    }

    /// Shared phase that brands the prepared slot.
    pub open(crate) spec fn state(&self) -> Arc<PublicationState> {
        self.state
    }

    /// Makes the already prepared descriptor visible without allocation or a
    /// fallible table operation.
    ///
    /// The switch happens in memory shared with the table slot. When a lookup
    /// observes it is not part of the contracts, which say that the flag of the
    /// slot's own phase is set here and read by every lookup.
    pub fn commit(self) -> (result: DescriptorToken)
        ensures
            self.state().shown(),
            result.table() == self.table(),
            result.fd() == self.fd(),
            result.generation() == self.generation(),
    {
        self.state.make_visible();
        DescriptorToken { table: self.table, fd: self.fd, generation: self.generation }
    }
}

/// One descriptor-local entry pointing at a shared OFD handle.
#[derive(Debug, Clone, PartialEq, Eq)]
pub struct DescriptorEntry<D> {
    pub(crate) description: D,
    pub(crate) flags: DescriptorFlags,
}

impl<D> DescriptorEntry<D> {
    /// Creates descriptor-local state around a shared OFD handle.
    pub fn new(description: D, flags: DescriptorFlags) -> (result: Self)
        ensures
            *result.description() == description,
            result.flags() == flags,
            result == Self::pair(description, flags),
    {
        Self { description, flags }
    }

    /// The entry made of a handle and flags.
    pub open(crate) spec fn pair(description: D, flags: DescriptorFlags) -> Self {
        DescriptorEntry { description, flags }
    }

    /// Returns the shared OFD handle.
    #[verifier::when_used_as_spec(spec_description)]
    pub fn description(&self) -> (result: &D)
        ensures
            result == self.spec_description(),
    {
        &self.description
    }

    /// Specification counterpart of [`Self::description`].
    pub open(crate) spec fn spec_description(&self) -> &D {
        &self.description
    }

    /// Returns descriptor-local flags.
    #[verifier::when_used_as_spec(spec_flags)]
    pub fn flags(&self) -> (result: DescriptorFlags)
        ensures
            result == self.spec_flags(),
    {
        self.flags
    }

    /// Specification counterpart of [`Self::flags`].
    pub open(crate) spec fn spec_flags(&self) -> DescriptorFlags {
        self.flags
    }

    /// Mutates descriptor-local flags without changing OFD state.
    pub fn set_flags(&mut self, flags: DescriptorFlags)
        ensures
            final(self).flags() == flags,
            *final(self).description() == *old(self).description(),
    {
        self.flags = flags;
    }

    /// Decomposes the entry for lock-external destruction or handoff.
    pub fn into_parts(self) -> (result: (D, DescriptorFlags))
        ensures
            result == (*self.description(), self.flags()),
    {
        (self.description, self.flags)
    }
}

/// One descriptor slot.
pub enum Slot<D> {
    /// Free for reservation.
    Vacant,
    /// Claimed by an unpublished reservation.
    Reserved {
        /// Generation of the reservation.
        generation: u64,
        /// Flags the published descriptor will have.
        flags: DescriptorFlags,
    },
    /// Holds an entry that becomes visible when its publication commits.
    Prepared {
        /// Generation of the reservation.
        generation: u64,
        /// The entry awaiting publication.
        entry: DescriptorEntry<D>,
        /// Phase shared with the publication token.
        state: Arc<PublicationState>,
    },
    /// Holds a visible descriptor.
    Occupied {
        /// Generation of the descriptor.
        generation: u64,
        /// The visible entry.
        entry: DescriptorEntry<D>,
    },
}

impl<D> Slot<D> {
    /// Generation of whatever holds the slot.
    pub open spec fn generation(self) -> Option<u64> {
        match self {
            Slot::Vacant => None,
            Slot::Reserved { generation, .. } => Some(generation),
            Slot::Prepared { generation, .. } => Some(generation),
            Slot::Occupied { generation, .. } => Some(generation),
        }
    }

    /// Entry held by the slot, visible or prepared.
    pub open spec fn entry(self) -> Option<DescriptorEntry<D>> {
        match self {
            Slot::Prepared { entry, .. } => Some(entry),
            Slot::Occupied { entry, .. } => Some(entry),
            _ => None,
        }
    }

    /// The slot with its entry replaced.
    pub open spec fn with_entry(self, entry: DescriptorEntry<D>) -> Self {
        match self {
            Slot::Prepared { generation, state, .. } => Slot::Prepared { generation, entry, state },
            Slot::Occupied { generation, .. } => Slot::Occupied { generation, entry },
            other => other,
        }
    }

    /// A lookup may find the slot's visibility to be `visible`: an occupied
    /// slot is visible, a vacant or reserved one is not, and a prepared one is
    /// either, depending on whether its publication committed.
    pub open spec fn may_be(self, visible: bool) -> bool {
        match self {
            Slot::Vacant => !visible,
            Slot::Reserved { .. } => !visible,
            Slot::Prepared { state, .. } => state.may_read(visible),
            Slot::Occupied { .. } => visible,
        }
    }

    fn is_visible(&self) -> (result: bool)
        ensures
            self.may_be(result),
    {
        match self {
            Slot::Occupied { .. } => true,
            Slot::Prepared { state, .. } => state.is_visible(),
            _ => false,
        }
    }
}

/// What one pass over the slots saw: `seen[i]` tells whether slot `i` was
/// visible.
pub open spec fn observed<D>(slots: Seq<Slot<D>>, seen: Seq<bool>) -> bool {
    &&& seen.len() == slots.len()
    &&& forall|i: int| 0 <= i < slots.len() ==> (#[trigger] slots[i]).may_be(seen[i])
}

/// Which visible descriptors an operation removes.
#[derive(Clone, Copy)]
pub enum Selection {
    /// The inclusive numeric range.
    Range {
        /// Lowest descriptor.
        first: FdNumber,
        /// Highest descriptor.
        last: FdNumber,
    },
    /// Descriptors marked close-on-exec.
    CloseOnExec,
    /// Every descriptor.
    All,
}

impl Selection {
    /// The descriptor `fd` with this entry is selected.
    pub open spec fn covers<D>(self, fd: int, entry: DescriptorEntry<D>) -> bool {
        match self {
            Selection::Range { first, last } => first.get() <= fd <= last.get(),
            Selection::CloseOnExec => entry.flags().contains(DescriptorFlags::CLOSE_ON_EXEC()),
            Selection::All => true,
        }
    }

    fn selects<D>(self, fd: usize, entry: &DescriptorEntry<D>) -> (result: bool)
        ensures
            result == self.covers(fd as int, *entry),
    {
        match self {
            Selection::Range { first, last } => fd >= first.index() && fd <= last.index(),
            Selection::CloseOnExec => entry.flags.contains(DescriptorFlags::CLOSE_ON_EXEC()),
            Selection::All => true,
        }
    }
}

/// Slot `i` is visible and selected.
pub open spec fn taken<D>(slots: Seq<Slot<D>>, seen: Seq<bool>, selection: Selection, i: int) -> bool {
    seen[i] && slots[i].entry() is Some && selection.covers(i, slots[i].entry()->0)
}

/// Visible selected entries of the first `n` slots, in ascending order.
pub open spec fn selected_entries<D>(
    slots: Seq<Slot<D>>,
    seen: Seq<bool>,
    selection: Selection,
    n: nat,
) -> Seq<DescriptorEntry<D>>
    decreases n,
{
    if n == 0 {
        Seq::empty()
    } else {
        let before = selected_entries(slots, seen, selection, (n - 1) as nat);
        if taken(slots, seen, selection, n - 1) {
            before.push(slots[n - 1].entry()->0)
        } else {
            before
        }
    }
}

/// The slots with every visible selected entry of the first `n` removed.
pub open spec fn vacated<D>(
    slots: Seq<Slot<D>>,
    seen: Seq<bool>,
    selection: Selection,
    n: nat,
) -> Seq<Slot<D>> {
    Seq::new(
        slots.len(),
        |i: int|
            if i < n && taken(slots, seen, selection, i) {
                Slot::Vacant
            } else {
                slots[i]
            },
    )
}

/// The visible descriptors of the first `n` slots with their entries, in
/// ascending order.
pub open(crate) spec fn listing<D>(slots: Seq<Slot<D>>, seen: Seq<bool>, n: nat) -> Seq<
    (FdNumber, DescriptorEntry<D>),
>
    decreases n,
{
    if n == 0 {
        Seq::empty()
    } else {
        let before = listing(slots, seen, (n - 1) as nat);
        if seen[n - 1] && slots[n - 1].entry() is Some {
            before.push((FdNumber((n - 1) as u32), slots[n - 1].entry()->0))
        } else {
            before
        }
    }
}

/// Mathematical model of an [`FdTable`].
#[verifier::ext_equal]
pub struct FdTableState<D> {
    /// Table identity.
    pub id: FdTableId,
    /// Next generation for a reservation or replacement.
    pub next_generation: u64,
    /// Descriptor slots, indexed by number.
    pub slots: Seq<Slot<D>>,
}

impl<D> FdTableState<D> {
    /// The state of a table without descriptors.
    pub open spec fn empty(id: FdTableId, capacity: nat) -> Self {
        FdTableState {
            id,
            next_generation: 1,
            slots: Seq::new(capacity, |i: int| Slot::Vacant),
        }
    }

    /// Slot `fd` is held under this generation.
    pub open spec fn holds(self, fd: FdNumber, generation: u64) -> bool {
        fd.get() < self.slots.len() && self.slots[fd.get() as int].generation() == Some(generation)
    }

    /// The reservation is current for this table.
    pub open spec fn reserved_by(self, reservation: ReservationToken) -> bool {
        &&& reservation.table() == self.id
        &&& self.holds(reservation.fd(), reservation.generation())
        &&& self.slots[reservation.fd().get() as int] is Reserved
    }

    /// Flags recorded for a current reservation.
    pub open spec fn reserved_flags(self, reservation: ReservationToken) -> DescriptorFlags {
        match self.slots[reservation.fd().get() as int] {
            Slot::Reserved { flags, .. } => flags,
            _ => DescriptorFlags::EMPTY(),
        }
    }

    /// The publication is current for this table.
    pub open spec fn prepared_by(self, publication: PreparedPublication) -> bool {
        &&& publication.table() == self.id
        &&& publication.fd().get() < self.slots.len()
        &&& self.slots[publication.fd().get() as int] matches Slot::Prepared { generation, state, .. }
        &&& generation == publication.generation()
        &&& state == publication.state()
    }

    /// The token names this table and the generation that holds its slot.
    pub open spec fn names(self, token: DescriptorToken) -> bool {
        &&& token.table() == self.id
        &&& self.holds(token.fd(), token.generation())
        &&& self.slots[token.fd().get() as int].entry() is Some
    }

    /// `fd` is the lowest vacant number in `[minimum, limit)`.
    pub open spec fn lowest_vacant(self, minimum: int, limit: int, fd: int) -> bool {
        &&& minimum <= fd < limit
        &&& fd < self.slots.len()
        &&& self.slots[fd] is Vacant
        &&& forall|i: int| minimum <= i < fd ==> !((#[trigger] self.slots[i]) is Vacant)
    }

    /// No number in `[minimum, limit)` is vacant.
    pub open spec fn none_vacant(self, minimum: int, limit: int) -> bool {
        forall|i: int|
            minimum <= i < limit && i < self.slots.len() ==> !((#[trigger] self.slots[i]) is Vacant)
    }

    /// The state with one slot replaced.
    pub open spec fn with_slot(self, fd: FdNumber, slot: Slot<D>) -> Self {
        FdTableState { slots: self.slots.update(fd.get() as int, slot), ..self }
    }

    /// What holds of every table: numbers fit a descriptor, and each held slot
    /// has an issued generation that no other slot has.
    pub open spec fn wf(self) -> bool {
        &&& self.slots.len() <= u32::MAX + 1
        &&& 1 <= self.next_generation
        &&& forall|i: int|
            0 <= i < self.slots.len() && (#[trigger] self.slots[i]).generation() is Some
                ==> self.slots[i].generation()->0 < self.next_generation
        &&& forall|i: int, j: int|
            #![trigger self.slots[i], self.slots[j]]
            0 <= i < j < self.slots.len() && self.slots[i].generation() is Some
                ==> self.slots[i].generation() != self.slots[j].generation()
    }

    /// No (descriptor, generation) pair that was not held before is held after
    /// unless its generation is new: a closed, cancelled, or replaced
    /// generation never comes back.
    pub open spec fn retires_into(self, next: Self) -> bool {
        &&& next.id == self.id
        &&& next.slots.len() == self.slots.len()
        &&& self.next_generation <= next.next_generation
        &&& forall|fd: FdNumber, generation: u64| #[trigger]
            next.holds(fd, generation) && generation < self.next_generation ==> self.holds(
                fd,
                generation,
            )
    }
}

/// A generation that left its slot never returns, however many operations
/// follow, so a stale token cannot reach a reused number.
pub proof fn retired_generations_stay_retired<D>(
    first: FdTableState<D>,
    second: FdTableState<D>,
    third: FdTableState<D>,
    fd: FdNumber,
    generation: u64,
)
    requires
        first.retires_into(second),
        second.retires_into(third),
        generation < first.next_generation,
        !first.holds(fd, generation),
    ensures
        !second.holds(fd, generation),
        !third.holds(fd, generation),
        first.retires_into(third),
{
    assert forall|f: FdNumber, g: u64| #[trigger]
        third.holds(f, g) && g < first.next_generation implies first.holds(f, g) by {
        assert(second.holds(f, g));
    }
}

/// Replacing a slot by one of an older or the same generation, or a new one,
/// keeps the table well formed and revives nothing.
proof fn replacing_a_slot<D>(state: FdTableState<D>, fd: FdNumber, slot: Slot<D>, next_generation: u64)
    requires
        state.wf(),
        fd.get() < state.slots.len(),
        state.next_generation <= next_generation,
        slot.generation() is None || slot.generation() == state.slots[fd.get() as int].generation()
            || (slot.generation() == Some(state.next_generation) && state.next_generation
            < next_generation),
    ensures
        (FdTableState { next_generation, ..state.with_slot(fd, slot) }).wf(),
        state.retires_into(FdTableState { next_generation, ..state.with_slot(fd, slot) }),
{
    let next = FdTableState { next_generation, ..state.with_slot(fd, slot) };
    assert forall|i: int, j: int|
        #![trigger next.slots[i], next.slots[j]]
        0 <= i < j < next.slots.len() && next.slots[i].generation() is Some implies next.slots[i].generation()
        != next.slots[j].generation() by {
        assert(state.slots[i].generation() is Some ==> state.slots[i].generation()->0
            < state.next_generation);
        assert(state.slots[j].generation() is Some ==> state.slots[j].generation()->0
            < state.next_generation);
    }
    assert forall|f: FdNumber, g: u64| #[trigger]
        next.holds(f, g) && g < state.next_generation implies state.holds(f, g) by {
        assert(state.slots[f.get() as int].generation() is Some
            || state.slots[f.get() as int].generation() is None);
    }
}

/// Changing entries or vacating slots keeps the table well formed and revives
/// nothing.
proof fn keeping_generations<D>(state: FdTableState<D>, slots: Seq<Slot<D>>)
    requires
        state.wf(),
        slots.len() == state.slots.len(),
        forall|i: int|
            0 <= i < slots.len() && (#[trigger] slots[i]).generation() is Some
                ==> slots[i].generation() == state.slots[i].generation(),
    ensures
        (FdTableState { slots, ..state }).wf(),
        state.retires_into(FdTableState { slots, ..state }),
{
    let next = FdTableState { slots, ..state };
    assert forall|i: int, j: int|
        #![trigger next.slots[i], next.slots[j]]
        0 <= i < j < next.slots.len() && next.slots[i].generation() is Some implies next.slots[i].generation()
        != next.slots[j].generation() by {
        assert(state.slots[i].generation() is Some);
        assert(next.slots[j].generation() is Some ==> state.slots[j].generation() is Some);
    }
    assert forall|f: FdNumber, g: u64| #[trigger] next.holds(f, g) implies state.holds(f, g) by {
        assert(slots[f.get() as int].generation() is Some);
    }
}

/// Descriptor-table operation failure before errno mapping.
#[derive(Debug, Clone, Copy, PartialEq, Eq, Structural)]
#[non_exhaustive]
pub enum FdTableError {
    /// The numeric descriptor is absent or outside this table.
    BadDescriptor,
    /// No slot exists in the requested bounded range.
    TableFull,
    /// A dup/replace target is reserved by another publication transaction.
    Busy,
    /// The token belongs to another table or an older slot generation.
    StaleToken,
    /// No future unique generation can be allocated.
    GenerationExhausted,
    /// Caller-provided close storage cannot hold the whole transaction.
    InsufficientCloseStorage,
    /// Fallible owned storage could not be reserved.
    NoMemory,
    /// The requested capacity was effectively unbounded or could not be
    /// represented by the crate's Linux descriptor-number type.
    Unbounded,
}

/// Publication failure which returns ownership of the unpublished OFD handle.
#[derive(Debug)]
pub struct PublishError<D> {
    /// Typed table error.
    pub error: FdTableError,
    /// Description handle that was never published.
    pub description: D,
}

/// Preparation failure which preserves both reservation authority and OFD
/// ownership so the caller can roll back the exact original table.
#[derive(Debug)]
pub struct PreparePublicationError<D> {
    /// Typed table error.
    pub error: FdTableError,
    /// Reservation that was not consumed by preparation.
    pub reservation: ReservationToken,
    /// Description handle that was never installed in a prepared slot.
    pub description: D,
}

/// Cancellation failure which returns the still-active exact publication
/// authority so it can be retried against its owning table.
#[derive(Debug)]
pub struct CancelPreparedError {
    /// Typed table error.
    pub error: FdTableError,
    /// Prepared publication that was not detached.
    pub publication: PreparedPublication,
}

/// Bounded caller-owned Linux files-table state.
///
/// The consumer supplies external synchronization and chooses `N`. Every
/// user-visible mutation uses `&mut self`; callbacks, destructors, and
/// allocation therefore never run under a crate-owned hidden lock.
pub struct FdTable<D, const N: usize> {
    id: FdTableId,
    next_generation: u64,
    slots: Vec<Slot<D>>,
}

impl<D, const N: usize> View for FdTable<D, N> {
    type V = FdTableState<D>;

    closed spec fn view(&self) -> FdTableState<D> {
        FdTableState {
            id: self.id,
            next_generation: self.next_generation,
            slots: self.slots@,
        }
    }
}

impl<D, const N: usize> FdTable<D, N> {
    /// Representation invariant of the table.
    pub open spec fn wf(&self) -> bool {
        self@.slots.len() == N && self@.wf()
    }

    /// Fallibly creates an empty table with an explicit stable identity.
    ///
    /// The complete slot array is reserved and initialized directly in
    /// heap-backed storage. The table value itself therefore stays small even
    /// for a kernel-sized descriptor ceiling. No later table mutation grows
    /// this storage, and the call fails for want of memory only where the
    /// allocator refuses it.
    pub fn try_new(id: FdTableId) -> (result: Result<Self, FdTableError>)
        ensures
            match result {
                Ok(table) => {
                    &&& N < usize::MAX && N <= u32::MAX + 1
                    &&& table.wf()
                    &&& table@ == FdTableState::<D>::empty(id, N as nat)
                    &&& allocation_granted::<Slot<D>>(N)
                },
                Err(FdTableError::Unbounded) => N == usize::MAX || N > u32::MAX + 1,
                Err(error) => {
                    &&& error == FdTableError::NoMemory
                    &&& N < usize::MAX && N <= u32::MAX + 1
                    &&& allocation_refused::<Slot<D>>(N)
                },
            },
    {
        if N == usize::MAX || N as u64 > u32::MAX as u64 + 1 {
            return Err(FdTableError::Unbounded);
        }
        let mut slots: Vec<Slot<D>> = match reserved(N) {
            Some(slots) => slots,
            None => return Err(FdTableError::NoMemory),
        };
        let mut filled: usize = 0;
        while filled < N
            invariant
                filled <= N,
                slots.len() == filled,
                forall|i: int| 0 <= i < filled ==> (#[trigger] slots@[i]) is Vacant,
            decreases N - filled,
        {
            slots.push(Slot::Vacant);
            filled = filled + 1;
        }
        let table = Self { id, next_generation: 1, slots };
        assert(table@ =~= FdTableState::<D>::empty(id, N as nat));
        Ok(table)
    }

    /// Returns the table identity used in every token.
    pub fn id(&self) -> (result: FdTableId)
        ensures
            result == self@.id,
    {
        self.id
    }

    /// Returns the compile-time descriptor ceiling.
    pub fn capacity(&self) -> (result: usize)
        ensures
            result == N,
    {
        N
    }

    /// Returns the number of visible published descriptors.
    pub fn len(&self) -> (result: usize)
        requires
            self.wf(),
        ensures
            exists|seen: Seq<bool>| #[trigger]
                observed(self@.slots, seen) && result == count(seen, |visible: bool| visible),
    {
        let ghost visible = |visible: bool| visible;
        let ghost mut seen: Seq<bool> = Seq::empty();
        let mut found: usize = 0;
        let mut i: usize = 0;
        while i < self.slots.len()
            invariant
                i <= self.slots.len(),
                self@.slots == self.slots@,
                found <= i,
                seen.len() == i,
                found == count(seen, visible),
                visible == (|visible: bool| visible),
                forall|j: int| 0 <= j < i ==> (#[trigger] self@.slots[j]).may_be(seen[j]),
            decreases self.slots.len() - i,
        {
            let shown = self.slots[i].is_visible();
            proof {
                crate::counting::count_push(seen, shown, visible);
                seen = seen.push(shown);
            }
            if shown {
                found = found + 1;
            }
            i = i + 1;
        }
        assert(observed(self@.slots, seen));
        found
    }

    /// Returns whether no descriptor is visible.
    pub fn is_empty(&self) -> (result: bool)
        requires
            self.wf(),
        ensures
            exists|seen: Seq<bool>| #[trigger]
                observed(self@.slots, seen) && (result <==> forall|i: int|
                    0 <= i < seen.len() ==> !(#[trigger] seen[i])),
    {
        let len = self.len();
        proof {
            let seen = choose|seen: Seq<bool>| #[trigger]
                observed(self@.slots, seen) && len == count(seen, |visible: bool| visible);
            count_bounds(seen, |visible: bool| visible);
            assert(observed(self@.slots, seen));
        }
        len == 0
    }

    /// Lists visible descriptors in ascending numeric order.
    ///
    /// Reserved slots remain unpublished and are intentionally skipped. The
    /// result borrows the table, so the embedding kernel retains its chosen
    /// external read lock for the duration.
    pub fn iter(&self) -> (result: Vec<(FdNumber, &DescriptorEntry<D>)>)
        requires
            self.wf(),
        ensures
            exists|seen: Seq<bool>| #[trigger]
                observed(self@.slots, seen) && ({
                    let expected = listing(self@.slots, seen, N as nat);
                    result@.len() == expected.len() && forall|i: int|
                        0 <= i < expected.len() ==> (#[trigger] result@[i]).0 == expected[i].0
                            && *result@[i].1 == expected[i].1
                }),
    {
        let ghost mut seen: Seq<bool> = Seq::empty();
        let mut result: Vec<(FdNumber, &DescriptorEntry<D>)> = Vec::new();
        let mut i: usize = 0;
        while i < N
            invariant
                self.wf(),
                self@.slots == self.slots@,
                i <= N,
                seen.len() == i,
                forall|j: int| 0 <= j < i ==> (#[trigger] self@.slots[j]).may_be(seen[j]),
                result@.len() == listing(self@.slots, seen, i as nat).len(),
                forall|k: int|
                    0 <= k < result@.len() ==> (#[trigger] result@[k]).0 == listing(
                        self@.slots,
                        seen,
                        i as nat,
                    )[k].0 && *result@[k].1 == listing(self@.slots, seen, i as nat)[k].1,
            decreases N - i,
        {
            let shown = self.slots[i].is_visible();
            proof {
                let next = seen.push(shown);
                listing_looks_back(self@.slots, seen, next, i as nat);
                seen = next;
            }
            if shown {
                match &self.slots[i] {
                    Slot::Occupied { entry, .. } => {
                        result.push((FdNumber::new(i as u32), entry));
                    },
                    Slot::Prepared { entry, .. } => {
                        result.push((FdNumber::new(i as u32), entry));
                    },
                    _ => {},
                }
            }
            i = i + 1;
        }
        assert(observed(self@.slots, seen));
        result
    }

    /// Reserves the lowest free number in `[minimum, limit)`.
    ///
    /// Reserved slots are excluded from concurrent allocation but invisible to
    /// lookup. The caller must publish or cancel the returned token on every
    /// path; adapters normally wrap it in an RAII rollback owner.
    pub fn reserve(&mut self, minimum: usize, limit: usize, flags: DescriptorFlags) -> (result:
        Result<ReservationToken, FdTableError>)
        requires
            old(self).wf(),
        ensures
            final(self).wf(),
            old(self)@.retires_into(final(self)@),
            match result {
                Ok(reservation) => {
                    let fd = reservation.fd();
                    &&& reservation.table() == old(self)@.id
                    &&& old(self)@.lowest_vacant(minimum as int, limit as int, fd.get() as int)
                    &&& old(self)@.next_generation < u64::MAX
                    &&& reservation.generation() == old(self)@.next_generation
                    &&& final(self)@ == FdTableState {
                        next_generation: (old(self)@.next_generation + 1) as u64,
                        ..old(self)@.with_slot(
                            fd,
                            Slot::Reserved { generation: reservation.generation(), flags },
                        )
                    }
                    &&& final(self)@.reserved_by(reservation)
                    &&& final(self)@.reserved_flags(reservation) == flags
                },
                Err(error) => {
                    &&& final(self)@ == old(self)@
                    &&& error == if old(self)@.none_vacant(minimum as int, limit as int) {
                        FdTableError::TableFull
                    } else {
                        FdTableError::GenerationExhausted
                    }
                    &&& error == FdTableError::GenerationExhausted ==> old(self)@.next_generation
                        == u64::MAX
                },
            },
    {
        let end: usize = if limit < N {
            limit
        } else {
            N
        };
        let mut fd: usize = minimum;
        let mut found = false;
        while fd < end && !found
            invariant
                self@ == old(self)@,
                self.wf(),
                end <= N,
                end == if limit < N {
                    limit
                } else {
                    N
                },
                minimum <= fd,
                found ==> fd < end && self@.slots[fd as int] is Vacant,
                forall|i: int|
                    minimum <= i < fd && i < end ==> !((#[trigger] self@.slots[i]) is Vacant),
            decreases (end - fd) + if found { 0int } else { 1int },
        {
            assert(self.slots@[fd as int] == self@.slots[fd as int]);
            if matches!(self.slots[fd], Slot::Vacant) {
                found = true;
            } else {
                fd = fd + 1;
            }
        }
        if !found {
            return Err(FdTableError::TableFull);
        }
        assert(self@.slots[fd as int] is Vacant);
        let generation = self.next_generation;
        if generation == u64::MAX {
            return Err(FdTableError::GenerationExhausted);
        }
        let number = FdNumber::new(fd as u32);
        let ghost before = self@;
        proof {
            replacing_a_slot(
                before,
                number,
                Slot::Reserved { generation, flags },
                (generation + 1) as u64,
            );
        }
        self.next_generation = generation + 1;
        self.slots[fd] = Slot::Reserved { generation, flags };
        assert(self@ == FdTableState {
            next_generation: (generation + 1) as u64,
            ..before.with_slot(number, Slot::Reserved { generation, flags })
        });
        Ok(ReservationToken { table: self.id, fd: number, generation })
    }

    /// Cancels the exact unpublished reservation.
    pub fn cancel_reservation(&mut self, reservation: ReservationToken) -> (result: Result<
        (),
        FdTableError,
    >)
        requires
            old(self).wf(),
        ensures
            final(self).wf(),
            old(self)@.retires_into(final(self)@),
            result == if old(self)@.reserved_by(reservation) {
                Ok::<(), FdTableError>(())
            } else {
                Err(FdTableError::StaleToken)
            },
            final(self)@ == if result is Ok {
                old(self)@.with_slot(reservation.fd(), Slot::Vacant)
            } else {
                old(self)@
            },
    {
        let fd = self.validate_reservation(&reservation)?;
        proof {
            replacing_a_slot(self@, reservation.fd, Slot::Vacant, self@.next_generation);
        }
        self.slots[fd] = Slot::Vacant;
        Ok(())
    }

    fn validate_reservation(&self, reservation: &ReservationToken) -> (result: Result<
        usize,
        FdTableError,
    >)
        requires
            self.wf(),
        ensures
            result == if self@.reserved_by(*reservation) {
                Ok::<usize, FdTableError>(reservation.fd().index())
            } else {
                Err(FdTableError::StaleToken)
            },
            result matches Ok(fd) ==> fd < N && fd == reservation.fd().get(),
    {
        if reservation.table != self.id || reservation.fd.index() >= N {
            return Err(FdTableError::StaleToken);
        }
        let fd = reservation.fd.index();
        match &self.slots[fd] {
            Slot::Reserved { generation, .. } => if *generation == reservation.generation {
                Ok(fd)
            } else {
                Err(FdTableError::StaleToken)
            },
            _ => Err(FdTableError::StaleToken),
        }
    }

    /// Publishes a completely constructed OFD handle into its reserved slot.
    pub fn publish(&mut self, reservation: ReservationToken, description: D) -> (result: Result<
        DescriptorToken,
        PublishError<D>,
    >)
        requires
            old(self).wf(),
        ensures
            final(self).wf(),
            old(self)@.retires_into(final(self)@),
            match result {
                Ok(token) => {
                    &&& old(self)@.reserved_by(reservation)
                    &&& token.table() == old(self)@.id
                    &&& token.fd() == reservation.fd()
                    &&& token.generation() == reservation.generation()
                    &&& final(self)@ == old(self)@.with_slot(
                        token.fd(),
                        Slot::Occupied {
                            generation: token.generation(),
                            entry: DescriptorEntry::pair(
                                description,
                                old(self)@.reserved_flags(reservation),
                            ),
                        },
                    )
                    &&& final(self)@.names(token)
                },
                Err(failure) => {
                    &&& !old(self)@.reserved_by(reservation)
                    &&& failure.error == FdTableError::StaleToken
                    &&& failure.description == description
                    &&& final(self)@ == old(self)@
                },
            },
    {
        let fd = match self.validate_reservation(&reservation) {
            Ok(fd) => fd,
            Err(error) => return Err(PublishError { error, description }),
        };
        let flags = match &self.slots[fd] {
            Slot::Reserved { flags, .. } => *flags,
            _ => return Err(PublishError { error: FdTableError::StaleToken, description }),
        };
        let token = DescriptorToken {
            table: self.id,
            fd: reservation.fd,
            generation: reservation.generation,
        };
        proof {
            replacing_a_slot(
                self@,
                reservation.fd,
                Slot::Occupied {
                    generation: reservation.generation,
                    entry: DescriptorEntry::pair(description, flags),
                },
                self@.next_generation,
            );
        }
        self.slots[fd] = Slot::Occupied {
            generation: reservation.generation,
            entry: DescriptorEntry::new(description, flags),
        };
        Ok(token)
    }

    /// Completes every fallible table-side step for a later infallible
    /// publication.
    ///
    /// The prepared entry remains invisible and keeps the numeric slot busy.
    /// [`PreparedPublication::commit`] is the sole operation that can make this
    /// exact generation visible, and it does not need the table again.
    pub fn prepare_publication(&mut self, reservation: ReservationToken, description: D) -> (result:
        Result<PreparedPublication, PreparePublicationError<D>>)
        requires
            old(self).wf(),
        ensures
            final(self).wf(),
            old(self)@.retires_into(final(self)@),
            match result {
                Ok(publication) => {
                    &&& old(self)@.reserved_by(reservation)
                    &&& publication.table() == old(self)@.id
                    &&& publication.fd() == reservation.fd()
                    &&& publication.generation() == reservation.generation()
                    &&& publication.state().starts_hidden()
                    &&& final(self)@ == old(self)@.with_slot(
                        publication.fd(),
                        Slot::Prepared {
                            generation: publication.generation(),
                            entry: DescriptorEntry::pair(
                                description,
                                old(self)@.reserved_flags(reservation),
                            ),
                            state: publication.state(),
                        },
                    )
                    &&& final(self)@.prepared_by(publication)
                },
                Err(failure) => {
                    &&& !old(self)@.reserved_by(reservation)
                    &&& failure.error == FdTableError::StaleToken
                    &&& failure.reservation == reservation
                    &&& failure.description == description
                    &&& final(self)@ == old(self)@
                },
            },
    {
        let fd = match self.validate_reservation(&reservation) {
            Ok(fd) => fd,
            Err(error) => return Err(PreparePublicationError { error, reservation, description }),
        };
        let flags = match &self.slots[fd] {
            Slot::Reserved { flags, .. } => *flags,
            _ => return Err(
                PreparePublicationError {
                    error: FdTableError::StaleToken,
                    reservation,
                    description,
                },
            ),
        };
        let state = Arc::new(PublicationState::pending());
        let publication = PreparedPublication {
            table: self.id,
            fd: reservation.fd,
            generation: reservation.generation,
            state: share(&state),
        };
        proof {
            replacing_a_slot(
                self@,
                reservation.fd,
                Slot::Prepared {
                    generation: reservation.generation,
                    entry: DescriptorEntry::pair(description, flags),
                    state,
                },
                self@.next_generation,
            );
        }
        self.slots[fd] = Slot::Prepared {
            generation: reservation.generation,
            entry: DescriptorEntry::new(description, flags),
            state,
        };
        Ok(publication)
    }

    /// Aborts and detaches the exact still-pending prepared publication.
    ///
    /// On a foreign or stale token the authority is returned unchanged so the
    /// caller cannot accidentally lose ownership of the real prepared slot. A
    /// committed publication cannot be cancelled: committing consumes it.
    pub fn cancel_prepared(&mut self, publication: PreparedPublication) -> (result: Result<
        DescriptorEntry<D>,
        CancelPreparedError,
    >)
        requires
            old(self).wf(),
        ensures
            final(self).wf(),
            old(self)@.retires_into(final(self)@),
            match result {
                Ok(entry) => {
                    &&& old(self)@.prepared_by(publication)
                    &&& Some(entry) == old(self)@.slots[publication.fd().get() as int].entry()
                    &&& final(self)@ == old(self)@.with_slot(publication.fd(), Slot::Vacant)
                },
                Err(failure) => {
                    &&& !old(self)@.prepared_by(publication)
                    &&& failure.error == FdTableError::StaleToken
                    &&& failure.publication == publication
                    &&& final(self)@ == old(self)@
                },
            },
    {
        if publication.table != self.id || publication.fd.index() >= N {
            return Err(CancelPreparedError { error: FdTableError::StaleToken, publication });
        }
        let fd = publication.fd.index();
        let current = match &self.slots[fd] {
            Slot::Prepared { generation, state, .. } => *generation == publication.generation
                && same_publication(state, &publication.state),
            _ => false,
        };
        if !current {
            return Err(CancelPreparedError { error: FdTableError::StaleToken, publication });
        }
        proof {
            replacing_a_slot(self@, publication.fd, Slot::Vacant, self@.next_generation);
        }
        let mut previous = Slot::Vacant;
        core::mem::swap(&mut self.slots[fd], &mut previous);
        match previous {
            Slot::Prepared { entry, .. } => Ok(entry),
            _ => Err(CancelPreparedError { error: FdTableError::StaleToken, publication }),
        }
    }

    /// Looks up a visible descriptor by number.
    pub fn get(&self, fd: FdNumber) -> (result: Result<&DescriptorEntry<D>, FdTableError>)
        requires
            self.wf(),
        ensures
            match result {
                Ok(entry) => {
                    &&& fd.get() < N
                    &&& self@.slots[fd.get() as int].may_be(true)
                    &&& Some(*entry) == self@.slots[fd.get() as int].entry()
                },
                Err(error) => {
                    &&& error == FdTableError::BadDescriptor
                    &&& fd.get() < N ==> self@.slots[fd.get() as int].may_be(false)
                },
            },
    {
        if fd.index() >= N {
            return Err(FdTableError::BadDescriptor);
        }
        let slot = &self.slots[fd.index()];
        if !slot.is_visible() {
            return Err(FdTableError::BadDescriptor);
        }
        match slot {
            Slot::Occupied { entry, .. } => Ok(entry),
            Slot::Prepared { entry, .. } => Ok(entry),
            _ => Err(FdTableError::BadDescriptor),
        }
    }

    /// Mutably looks up descriptor-local state.
    pub fn get_mut(&mut self, fd: FdNumber) -> (result: Result<&mut DescriptorEntry<D>, FdTableError>)
        requires
            old(self).wf(),
        ensures
            final(self).wf(),
            old(self)@.retires_into(final(self)@),
            match result {
                Ok(entry) => {
                    &&& fd.get() < N
                    &&& old(self)@.slots[fd.get() as int].may_be(true)
                    &&& Some(*entry) == old(self)@.slots[fd.get() as int].entry()
                    &&& final(self)@ == old(self)@.with_slot(
                        fd,
                        old(self)@.slots[fd.get() as int].with_entry(*final(entry)),
                    )
                },
                Err(error) => {
                    &&& error == FdTableError::BadDescriptor
                    &&& fd.get() < N ==> old(self)@.slots[fd.get() as int].may_be(false)
                    &&& final(self)@ == old(self)@
                },
            },
    {
        if fd.index() >= N {
            return Err(FdTableError::BadDescriptor);
        }
        if !self.slots[fd.index()].is_visible() {
            return Err(FdTableError::BadDescriptor);
        }
        proof {
            let before = self@;
            let slot = before.slots[fd.get() as int];
            assert forall|entry: DescriptorEntry<D>|
                (#[trigger] before.with_slot(fd, slot.with_entry(entry))).wf() && before.retires_into(
                    before.with_slot(fd, slot.with_entry(entry)),
                ) by {
                replacing_a_slot(before, fd, slot.with_entry(entry), before.next_generation);
                assert(before.with_slot(fd, slot.with_entry(entry)) == FdTableState {
                    next_generation: before.next_generation,
                    ..before.with_slot(fd, slot.with_entry(entry))
                });
            }
        }
        match &mut self.slots[fd.index()] {
            Slot::Occupied { entry, .. } => Ok(entry),
            Slot::Prepared { entry, .. } => Ok(entry),
            _ => Err(FdTableError::BadDescriptor),
        }
    }

    /// Returns a generation token for the currently visible descriptor.
    pub fn token(&self, fd: FdNumber) -> (result: Result<DescriptorToken, FdTableError>)
        requires
            self.wf(),
        ensures
            match result {
                Ok(token) => {
                    &&& token.fd() == fd
                    &&& self@.names(token)
                    &&& self@.slots[fd.get() as int].may_be(true)
                },
                Err(error) => {
                    &&& error == FdTableError::BadDescriptor
                    &&& fd.get() < N ==> self@.slots[fd.get() as int].may_be(false)
                },
            },
    {
        if fd.index() >= N {
            return Err(FdTableError::BadDescriptor);
        }
        let slot = &self.slots[fd.index()];
        if !slot.is_visible() {
            return Err(FdTableError::BadDescriptor);
        }
        match slot {
            Slot::Occupied { generation, .. } => Ok(
                DescriptorToken { table: self.id, fd, generation: *generation },
            ),
            Slot::Prepared { generation, .. } => Ok(
                DescriptorToken { table: self.id, fd, generation: *generation },
            ),
            _ => Err(FdTableError::BadDescriptor),
        }
    }

    /// Revalidates a previously observed descriptor without returning a newer
    /// object that reused the same number.
    pub fn get_token(&self, token: DescriptorToken) -> (result: Result<
        &DescriptorEntry<D>,
        FdTableError,
    >)
        requires
            self.wf(),
        ensures
            match result {
                Ok(entry) => {
                    &&& self@.names(token)
                    &&& self@.slots[token.fd().get() as int].may_be(true)
                    &&& Some(*entry) == self@.slots[token.fd().get() as int].entry()
                },
                Err(error) => {
                    &&& error == FdTableError::StaleToken
                    &&& self@.names(token) ==> self@.slots[token.fd().get() as int].may_be(false)
                },
            },
    {
        if token.table != self.id {
            return Err(FdTableError::StaleToken);
        }
        match self.token(token.fd) {
            Ok(current) => if current.generation != token.generation {
                return Err(FdTableError::StaleToken);
            },
            Err(_) => return Err(FdTableError::StaleToken),
        }
        match &self.slots[token.fd.index()] {
            Slot::Occupied { entry, .. } => Ok(entry),
            Slot::Prepared { entry, .. } => Ok(entry),
            _ => Err(FdTableError::StaleToken),
        }
    }

    /// Removes a visible descriptor and returns it for lock-external cleanup.
    pub fn close(&mut self, fd: FdNumber) -> (result: Result<DescriptorEntry<D>, FdTableError>)
        requires
            old(self).wf(),
        ensures
            final(self).wf(),
            old(self)@.retires_into(final(self)@),
            match result {
                Ok(entry) => {
                    &&& fd.get() < N
                    &&& old(self)@.slots[fd.get() as int].may_be(true)
                    &&& Some(entry) == old(self)@.slots[fd.get() as int].entry()
                    &&& final(self)@ == old(self)@.with_slot(fd, Slot::Vacant)
                },
                Err(error) => {
                    &&& error == FdTableError::BadDescriptor
                    &&& fd.get() < N ==> old(self)@.slots[fd.get() as int].may_be(false)
                    &&& final(self)@ == old(self)@
                },
            },
    {
        if fd.index() >= N {
            return Err(FdTableError::BadDescriptor);
        }
        if !self.slots[fd.index()].is_visible() {
            return Err(FdTableError::BadDescriptor);
        }
        Ok(self.take_entry(fd))
    }

    /// Vacates a slot that holds an entry.
    fn take_entry(&mut self, fd: FdNumber) -> (result: DescriptorEntry<D>)
        requires
            old(self).wf(),
            fd.get() < N,
            old(self)@.slots[fd.get() as int].entry() is Some,
        ensures
            final(self).wf(),
            old(self)@.retires_into(final(self)@),
            Some(result) == old(self)@.slots[fd.get() as int].entry(),
            final(self)@ == old(self)@.with_slot(fd, Slot::Vacant),
    {
        proof {
            replacing_a_slot(self@, fd, Slot::Vacant, self@.next_generation);
        }
        let mut previous = Slot::Vacant;
        core::mem::swap(&mut self.slots[fd.index()], &mut previous);
        let taken = match previous {
            Slot::Occupied { entry, .. } => Some(entry),
            Slot::Prepared { entry, .. } => Some(entry),
            _ => None,
        };
        taken.unwrap()
    }

    /// Closes only the exact generation previously observed.
    pub fn close_token(&mut self, token: DescriptorToken) -> (result: Result<
        DescriptorEntry<D>,
        FdTableError,
    >)
        requires
            old(self).wf(),
        ensures
            final(self).wf(),
            old(self)@.retires_into(final(self)@),
            match result {
                Ok(entry) => {
                    &&& old(self)@.names(token)
                    &&& old(self)@.slots[token.fd().get() as int].may_be(true)
                    &&& Some(entry) == old(self)@.slots[token.fd().get() as int].entry()
                    &&& final(self)@ == old(self)@.with_slot(token.fd(), Slot::Vacant)
                    &&& !final(self)@.names(token)
                },
                Err(error) => {
                    &&& error == FdTableError::StaleToken
                    &&& old(self)@.names(token) ==> old(
                        self,
                    )@.slots[token.fd().get() as int].may_be(false)
                    &&& final(self)@ == old(self)@
                },
            },
    {
        if let Err(error) = self.get_token(token) {
            return Err(error);
        }
        Ok(self.take_entry(token.fd))
    }

    /// Sets descriptor-local close-on-exec state.
    pub fn set_close_on_exec(&mut self, fd: FdNumber, enabled: bool) -> (result: Result<
        (),
        FdTableError,
    >)
        requires
            old(self).wf(),
        ensures
            final(self).wf(),
            old(self)@.retires_into(final(self)@),
            match result {
                Ok(_) => {
                    let slot = old(self)@.slots[fd.get() as int];
                    &&& fd.get() < N
                    &&& slot.may_be(true)
                    &&& slot.entry() matches Some(entry)
                    &&& final(self)@ == old(self)@.with_slot(
                        fd,
                        slot.with_entry(
                            DescriptorEntry::pair(
                                *entry.description(),
                                entry.flags().with(DescriptorFlags::CLOSE_ON_EXEC(), enabled),
                            ),
                        ),
                    )
                },
                Err(error) => {
                    &&& error == FdTableError::BadDescriptor
                    &&& fd.get() < N ==> old(self)@.slots[fd.get() as int].may_be(false)
                    &&& final(self)@ == old(self)@
                },
            },
    {
        match self.get_mut(fd) {
            Ok(entry) => {
                entry.flags.set(DescriptorFlags::CLOSE_ON_EXEC(), enabled);
                Ok(())
            },
            Err(error) => Err(error),
        }
    }

    /// Marks every visible descriptor in an inclusive range close-on-exec.
    pub fn mark_close_on_exec_range(&mut self, first: FdNumber, last: FdNumber)
        requires
            old(self).wf(),
        ensures
            final(self).wf(),
            old(self)@.retires_into(final(self)@),
            exists|seen: Seq<bool>| #[trigger]
                observed(old(self)@.slots, seen) && final(self)@ == (FdTableState {
                    slots: marked(old(self)@.slots, seen, first, last, N as int),
                    ..old(self)@
                }),
    {
        let ghost before = self@;
        let ghost mut seen: Seq<bool> = Seq::empty();
        let mut fd: usize = 0;
        assert(marked(before.slots, seen, first, last, 0) =~= before.slots);
        while fd < N
            invariant
                self.wf(),
                before.slots.len() == N,
                fd <= N,
                seen.len() == fd,
                forall|j: int| 0 <= j < fd ==> (#[trigger] before.slots[j]).may_be(seen[j]),
                self@ == (FdTableState {
                    slots: marked(before.slots, seen, first, last, fd as int),
                    ..before
                }),
                before.retires_into(self@),
                before == old(self)@,
            decreases N - fd,
        {
            let ghost here = self@;
            let shown = self.slots[fd].is_visible();
            proof {
                assert(here.slots[fd as int] == before.slots[fd as int]);
                seen = seen.push(shown);
            }
            if shown && first.index() <= fd && fd <= last.index() {
                let _ = self.flag_entry(fd);
            }
            proof {
                assert(self@.slots =~= marked(before.slots, seen, first, last, fd + 1));
                assert forall|f: FdNumber, g: u64| #[trigger]
                    self@.holds(f, g) && g < before.next_generation implies before.holds(f, g) by {
                    assert(here.holds(f, g));
                }
            }
            fd = fd + 1;
        }
        assert(observed(before.slots, seen));
    }

    /// Marks the entry of a slot close-on-exec.
    fn flag_entry(&mut self, fd: usize)
        requires
            old(self).wf(),
            fd < N,
            old(self)@.slots[fd as int].entry() is Some,
        ensures
            final(self).wf(),
            old(self)@.retires_into(final(self)@),
            final(self)@ == (FdTableState {
                slots: old(self)@.slots.update(
                    fd as int,
                    old(self)@.slots[fd as int].with_entry(
                        flagged(old(self)@.slots[fd as int].entry()->0),
                    ),
                ),
                ..old(self)@
            }),
    {
        let ghost before = self@;
        match &mut self.slots[fd] {
            Slot::Occupied { entry, .. } => {
                entry.flags.set(DescriptorFlags::CLOSE_ON_EXEC(), true);
            },
            Slot::Prepared { entry, .. } => {
                entry.flags.set(DescriptorFlags::CLOSE_ON_EXEC(), true);
            },
            _ => {},
        }
        proof {
            keeping_generations(before, self@.slots);
        }
    }
}

/// The entry with close-on-exec set.
pub open spec fn flagged<D>(entry: DescriptorEntry<D>) -> DescriptorEntry<D> {
    DescriptorEntry::pair(
        *entry.description(),
        entry.flags().with(DescriptorFlags::CLOSE_ON_EXEC(), true),
    )
}

/// The slots with close-on-exec set on every visible entry in `first..=last`
/// among the first `n`.
pub open spec fn marked<D>(
    slots: Seq<Slot<D>>,
    seen: Seq<bool>,
    first: FdNumber,
    last: FdNumber,
    n: int,
) -> Seq<Slot<D>> {
    Seq::new(
        slots.len(),
        |i: int|
            if i < n && seen[i] && first.get() <= i <= last.get() && slots[i].entry() is Some {
                slots[i].with_entry(flagged(slots[i].entry()->0))
            } else {
                slots[i]
            },
    )
}

proof fn listing_looks_back<D>(slots: Seq<Slot<D>>, a: Seq<bool>, b: Seq<bool>, n: nat)
    requires
        n <= a.len(),
        n <= b.len(),
        forall|i: int| 0 <= i < n ==> a[i] == b[i],
    ensures
        listing(slots, a, n) == listing(slots, b, n),
    decreases n,
{
    if n > 0 {
        listing_looks_back(slots, a, b, (n - 1) as nat);
    }
}

impl<D: Clone, const N: usize> FdTable<D, N> {
    /// Duplicates a descriptor into the lowest free number in a bounded range.
    pub fn duplicate(
        &mut self,
        source: FdNumber,
        minimum: usize,
        limit: usize,
        flags: DescriptorFlags,
    ) -> (result: Result<DescriptorToken, FdTableError>)
        requires
            old(self).wf(),
        ensures
            final(self).wf(),
            old(self)@.retires_into(final(self)@),
            match result {
                Ok(token) => {
                    &&& source.get() < N
                    &&& old(self)@.slots[source.get() as int].may_be(true)
                    &&& old(self)@.slots[source.get() as int].entry() matches Some(original)
                    &&& old(self)@.lowest_vacant(
                        minimum as int,
                        limit as int,
                        token.fd().get() as int,
                    )
                    &&& old(self)@.next_generation < u64::MAX
                    &&& token.table() == old(self)@.id
                    &&& token.generation() == old(self)@.next_generation
                    &&& exists|description: D| #[trigger]
                        cloned(*original.description(), description) && final(self)@
                            == (FdTableState {
                            next_generation: (old(self)@.next_generation + 1) as u64,
                            ..old(self)@.with_slot(
                                token.fd(),
                                Slot::Occupied {
                                    generation: token.generation(),
                                    entry: DescriptorEntry::pair(description, flags),
                                },
                            )
                        })
                },
                Err(error) => {
                    &&& final(self)@ == old(self)@
                    &&& match error {
                        FdTableError::BadDescriptor => source.get() < N ==> old(
                            self,
                        )@.slots[source.get() as int].may_be(false),
                        FdTableError::TableFull => old(self)@.none_vacant(
                            minimum as int,
                            limit as int,
                        ) && source.get() < N && old(self)@.slots[source.get() as int].may_be(true),
                        FdTableError::GenerationExhausted => old(self)@.next_generation == u64::MAX
                            && !old(self)@.none_vacant(minimum as int, limit as int) && source.get()
                            < N && old(self)@.slots[source.get() as int].may_be(true),
                        _ => false,
                    }
                },
            },
    {
        let ghost before = self@;
        let description = match self.get(source) {
            Ok(entry) => entry.description.clone(),
            Err(error) => return Err(error),
        };
        let ghost original = before.slots[source.get() as int].entry()->0;
        assert(cloned(*original.description(), description));
        let reservation = self.reserve(minimum, limit, flags)?;
        let ghost reserved = self@;
        match self.publish(reservation, description) {
            Ok(token) => {
                proof {
                    assert(self@ =~= FdTableState {
                        next_generation: (before.next_generation + 1) as u64,
                        ..before.with_slot(
                            token.fd,
                            Slot::Occupied {
                                generation: token.generation,
                                entry: DescriptorEntry::pair(description, flags),
                            },
                        )
                    });
                    assert forall|f: FdNumber, g: u64| #[trigger]
                        self@.holds(f, g) && g < before.next_generation implies before.holds(
                        f,
                        g,
                    ) by {
                        assert(reserved.holds(f, g));
                    }
                }
                Ok(token)
            },
            Err(failure) => Err(failure.error),
        }
    }

    /// Atomically implements the table part of `dup2`/`dup3` replacement.
    ///
    /// The adapter handles the `old == new` difference between the two
    /// syscalls. A reserved target reports `Busy` and is never stolen.
    pub fn duplicate_replace(
        &mut self,
        source: FdNumber,
        target: FdNumber,
        flags: DescriptorFlags,
    ) -> (result: Result<(DescriptorToken, Option<DescriptorEntry<D>>), FdTableError>)
        requires
            old(self).wf(),
        ensures
            final(self).wf(),
            old(self)@.retires_into(final(self)@),
            source == target ==> final(self)@ == old(self)@ && match result {
                Ok((token, removed)) => {
                    &&& removed is None
                    &&& token.fd() == source
                    &&& old(self)@.names(token)
                    &&& old(self)@.slots[source.get() as int].may_be(true)
                },
                Err(error) => error == FdTableError::BadDescriptor && (source.get() < N ==> old(
                    self,
                )@.slots[source.get() as int].may_be(false)),
            },
            source != target ==> match result {
                Ok((token, removed)) => {
                    let replaced = old(self)@.slots[target.get() as int];
                    &&& target.get() < N
                    &&& replaced is Vacant || replaced.may_be(true)
                    &&& removed == replaced.entry()
                    &&& source.get() < N
                    &&& old(self)@.slots[source.get() as int].may_be(true)
                    &&& old(self)@.slots[source.get() as int].entry() matches Some(original)
                    &&& old(self)@.next_generation < u64::MAX
                    &&& token.table() == old(self)@.id
                    &&& token.fd() == target
                    &&& token.generation() == old(self)@.next_generation
                    &&& exists|description: D| #[trigger]
                        cloned(*original.description(), description) && final(self)@
                            == (FdTableState {
                            next_generation: (old(self)@.next_generation + 1) as u64,
                            ..old(self)@.with_slot(
                                target,
                                Slot::Occupied {
                                    generation: token.generation(),
                                    entry: DescriptorEntry::pair(description, flags),
                                },
                            )
                        })
                },
                Err(error) => {
                    &&& final(self)@ == old(self)@
                    &&& match error {
                        FdTableError::Busy => target.get() < N && !(old(
                            self,
                        )@.slots[target.get() as int] is Vacant) && old(
                            self,
                        )@.slots[target.get() as int].may_be(false),
                        FdTableError::BadDescriptor => target.get() >= N || source.get() >= N || old(
                            self,
                        )@.slots[source.get() as int].may_be(false),
                        FdTableError::GenerationExhausted => old(self)@.next_generation == u64::MAX
                            && target.get() < N && source.get() < N && old(
                            self,
                        )@.slots[source.get() as int].may_be(true) && !(old(
                            self,
                        )@.slots[target.get() as int] is Reserved),
                        _ => false,
                    }
                    &&& target.get() < N && old(self)@.slots[target.get() as int] is Reserved
                        ==> error == FdTableError::Busy
                },
            },
    {
        if source == target {
            return match self.token(source) {
                Ok(token) => Ok((token, None)),
                Err(error) => Err(error),
            };
        }
        if target.index() >= N {
            return Err(FdTableError::BadDescriptor);
        }
        let ghost before = self@;
        let vacant = matches!(self.slots[target.index()], Slot::Vacant);
        if !vacant && !self.slots[target.index()].is_visible() {
            return Err(FdTableError::Busy);
        }
        let description = match self.get(source) {
            Ok(entry) => entry.description.clone(),
            Err(error) => return Err(error),
        };
        let ghost original = before.slots[source.get() as int].entry()->0;
        assert(cloned(*original.description(), description));
        let generation = self.next_generation;
        if generation == u64::MAX {
            return Err(FdTableError::GenerationExhausted);
        }
        let ghost replacement = Slot::Occupied {
            generation,
            entry: DescriptorEntry::pair(description, flags),
        };
        proof {
            replacing_a_slot(before, target, replacement, (generation + 1) as u64);
        }
        self.next_generation = generation + 1;
        let mut slot = Slot::Occupied {
            generation,
            entry: DescriptorEntry::new(description, flags),
        };
        core::mem::swap(&mut self.slots[target.index()], &mut slot);
        assert(self@ == FdTableState {
            next_generation: (generation + 1) as u64,
            ..before.with_slot(target, replacement)
        });
        let removed = match slot {
            Slot::Occupied { entry, .. } => Some(entry),
            Slot::Prepared { entry, .. } => Some(entry),
            _ => None,
        };
        Ok((DescriptorToken { table: self.id, fd: target, generation }, removed))
    }

    /// Copies visible descriptor entries for fork while sharing every OFD
    /// handle. Unpublished reservations are intentionally not inherited.
    pub fn fork_copy(&self, new_id: FdTableId) -> (result: Result<Self, FdTableError>)
        requires
            self.wf(),
        ensures
            match result {
                Ok(copy) => {
                    &&& copy.wf()
                    &&& copy@.id == new_id
                    &&& exists|seen: Seq<bool>| #[trigger]
                        observed(self@.slots, seen) && copy@.next_generation == 1 + count(
                            seen,
                            |visible: bool| visible,
                        ) && forall|i: int|
                            0 <= i < N ==> inherited(self@.slots, seen, i, #[trigger] copy@.slots[i])
                },
                Err(FdTableError::Unbounded) => N == usize::MAX || N > u32::MAX + 1,
                Err(error) => error == FdTableError::NoMemory && allocation_refused::<Slot<D>>(N),
            },
    {
        let mut copy = Self::try_new(new_id)?;
        let ghost visible = |visible: bool| visible;
        let ghost mut seen: Seq<bool> = Seq::empty();
        let mut fd: usize = 0;
        while fd < N
            invariant
                self.wf(),
                copy.wf(),
                copy@.id == new_id,
                fd <= N,
                seen.len() == fd,
                visible == (|visible: bool| visible),
                forall|j: int| 0 <= j < fd ==> (#[trigger] self@.slots[j]).may_be(seen[j]),
                copy@.next_generation == 1 + count(seen, visible),
                forall|i: int|
                    0 <= i < fd ==> inherited(self@.slots, seen, i, #[trigger] copy@.slots[i]),
                forall|i: int| fd <= i < N ==> (#[trigger] copy@.slots[i]) is Vacant,
            decreases N - fd,
        {
            let shown = self.slots[fd].is_visible();
            let ghost before = copy@;
            let ghost earlier = seen;
            proof {
                count_bounds(seen, visible);
                crate::counting::count_push(seen, shown, visible);
                seen = seen.push(shown);
                assert(seen.take(fd as int) =~= earlier);
                assert forall|i: int| 0 <= i < fd implies inherited(
                    self@.slots,
                    seen,
                    i,
                    #[trigger] before.slots[i],
                ) by {
                    assert(inherited(self@.slots, earlier, i, before.slots[i]));
                    assert(seen.take(i) =~= earlier.take(i));
                }
            }
            if shown {
                let (description, flags) = match &self.slots[fd] {
                    Slot::Occupied { entry, .. } => (
                        Some(entry.description.clone()),
                        entry.flags,
                    ),
                    Slot::Prepared { entry, .. } => (
                        Some(entry.description.clone()),
                        entry.flags,
                    ),
                    _ => (None, DescriptorFlags::EMPTY()),
                };
                let description = description.unwrap();
                let generation = copy.next_generation;
                proof {
                    replacing_a_slot(
                        before,
                        FdNumber(fd as u32),
                        Slot::Occupied {
                            generation,
                            entry: DescriptorEntry::pair(description, flags),
                        },
                        (generation + 1) as u64,
                    );
                }
                copy.next_generation = generation + 1;
                copy.slots[fd] = Slot::Occupied {
                    generation,
                    entry: DescriptorEntry::new(description, flags),
                };
                assert(copy@ == FdTableState {
                    next_generation: (generation + 1) as u64,
                    ..before.with_slot(
                        FdNumber(fd as u32),
                        Slot::Occupied {
                            generation,
                            entry: DescriptorEntry::pair(description, flags),
                        },
                    )
                });
            }
            assert(inherited(self@.slots, seen, fd as int, copy@.slots[fd as int]));
            fd = fd + 1;
        }
        assert(observed(self@.slots, seen));
        Ok(copy)
    }
}

/// `slot` is what a fork makes of slot `i`: a visible entry with its handle
/// cloned, its flags copied, and the next generation of the new table; anything
/// else leaves the number vacant.
pub open spec fn inherited<D: Clone>(
    slots: Seq<Slot<D>>,
    seen: Seq<bool>,
    i: int,
    slot: Slot<D>,
) -> bool {
    if seen[i] {
        &&& slot matches Slot::Occupied { generation, entry }
        &&& generation == 1 + count(seen.take(i), |visible: bool| visible)
        &&& slots[i].entry() matches Some(original)
        &&& entry.flags() == original.flags()
        &&& cloned(*original.description(), *entry.description())
    } else {
        slot is Vacant
    }
}

/// Preallocated owner for descriptors detached by one range/exec transaction.
pub struct CloseBatch<D> {
    entries: Vec<DescriptorEntry<D>>,
    limit: usize,
}

impl<D> View for CloseBatch<D> {
    type V = Seq<DescriptorEntry<D>>;

    closed spec fn view(&self) -> Seq<DescriptorEntry<D>> {
        self.entries@
    }
}

impl<D> CloseBatch<D> {
    /// Most entries the batch may hold.
    pub closed spec fn limit(&self) -> usize {
        self.limit
    }

    /// The batch is within its limit.
    pub open spec fn wf(&self) -> bool {
        self@.len() <= self.limit()
    }

    /// Entries that the batch still has room for.
    pub open spec fn room(&self) -> int {
        if self@.len() <= self.limit() {
            self.limit() - self@.len()
        } else {
            0
        }
    }

    /// Fallibly reserves exact transaction storage before table mutation.
    ///
    /// It fails for want of memory only where the allocator refuses it.
    pub fn try_with_capacity(capacity: usize) -> (result: Result<Self, FdTableError>)
        ensures
            match result {
                Ok(batch) => capacity < usize::MAX && batch@ == Seq::<DescriptorEntry<D>>::empty()
                    && batch.limit() == capacity && allocation_granted::<DescriptorEntry<D>>(
                    capacity,
                ),
                Err(FdTableError::Unbounded) => capacity == usize::MAX,
                Err(error) => {
                    &&& error == FdTableError::NoMemory && capacity < usize::MAX
                    &&& allocation_refused::<DescriptorEntry<D>>(capacity)
                },
            },
    {
        if capacity == usize::MAX {
            return Err(FdTableError::Unbounded);
        }
        let mut entries: Vec<DescriptorEntry<D>> = match reserved(capacity) {
            Some(entries) => entries,
            None => return Err(FdTableError::NoMemory),
        };
        Ok(Self { entries, limit: capacity })
    }

    /// Returns detached descriptors for cleanup after releasing table locks.
    pub fn entries(&self) -> (result: &[DescriptorEntry<D>])
        ensures
            result@ == self@,
    {
        self.entries.as_slice()
    }

    /// Consumes the batch and returns all detached ownership.
    pub fn into_entries(self) -> (result: Vec<DescriptorEntry<D>>)
        ensures
            result@ == self@,
    {
        self.entries
    }

    fn remaining(&self) -> (result: usize)
        ensures
            result == self.room(),
    {
        self.limit.saturating_sub(self.entries.len())
    }

    fn push(&mut self, entry: DescriptorEntry<D>)
        ensures
            final(self)@ == old(self)@.push(entry),
            final(self).limit() == old(self).limit(),
    {
        self.entries.push(entry);
    }
}

/// Full-capacity ownership prepared for one allocation-free close-on-exec
/// transaction on an `N`-slot table.
#[must_use]
pub struct PreparedCloseOnExec<D, const N: usize> {
    batch: CloseBatch<D>,
}

impl<D, const N: usize> PreparedCloseOnExec<D, N> {
    /// Nothing is detached yet, and every slot of the table has room.
    pub closed spec fn ready(&self) -> bool {
        self.batch@.len() == 0 && self.batch.limit() == N
    }
}

/// Descriptors detached by an infallible full-capacity close-on-exec commit.
pub struct CommittedCloseOnExec<D> {
    batch: CloseBatch<D>,
}

impl<D> View for CommittedCloseOnExec<D> {
    type V = Seq<DescriptorEntry<D>>;

    closed spec fn view(&self) -> Seq<DescriptorEntry<D>> {
        self.batch@
    }
}

impl<D> CommittedCloseOnExec<D> {
    /// Returns every detached descriptor in ascending table order.
    pub fn entries(&self) -> (result: &[DescriptorEntry<D>])
        ensures
            result@ == self@,
    {
        self.batch.entries()
    }

    /// Consumes the transaction and returns detached descriptor ownership.
    pub fn into_entries(self) -> (result: Vec<DescriptorEntry<D>>)
        ensures
            result@ == self@,
    {
        self.batch.into_entries()
    }
}

/// What was taken from the first slots depends on what was seen of them alone.
proof fn selected_look_back<D>(
    slots: Seq<Slot<D>>,
    a: Seq<bool>,
    b: Seq<bool>,
    selection: Selection,
    n: nat,
)
    requires
        n <= a.len(),
        n <= b.len(),
        forall|i: int| 0 <= i < n ==> a[i] == b[i],
    ensures
        selected_entries(slots, a, selection, n) == selected_entries(slots, b, selection, n),
    decreases n,
{
    if n > 0 {
        selected_look_back(slots, a, b, selection, (n - 1) as nat);
    }
}

impl<D, const N: usize> FdTable<D, N> {
    /// Preallocates the complete descriptor ownership required by a later
    /// close-on-exec commit, independent of how flags change before commit.
    pub fn prepare_close_on_exec(&self) -> (result: Result<PreparedCloseOnExec<D, N>, FdTableError>)
        ensures
            match result {
                Ok(prepared) => {
                    &&& N < usize::MAX
                    &&& prepared.ready()
                    &&& allocation_granted::<DescriptorEntry<D>>(N)
                },
                Err(FdTableError::Unbounded) => N == usize::MAX,
                Err(error) => {
                    &&& error == FdTableError::NoMemory && N < usize::MAX
                    &&& allocation_refused::<DescriptorEntry<D>>(N)
                },
            },
    {
        let batch = CloseBatch::try_with_capacity(N)?;
        Ok(PreparedCloseOnExec { batch })
    }

    /// Detaches all descriptors currently marked close-on-exec using the
    /// full-capacity ownership prepared earlier. This operation allocates
    /// nothing and has no capacity failure.
    pub fn commit_close_on_exec(&mut self, prepared: PreparedCloseOnExec<D, N>) -> (result:
        CommittedCloseOnExec<D>)
        requires
            old(self).wf(),
            prepared.ready(),
        ensures
            final(self).wf(),
            old(self)@.retires_into(final(self)@),
            exists|seen: Seq<bool>| #[trigger]
                observed(old(self)@.slots, seen) && result@ == selected_entries(
                    old(self)@.slots,
                    seen,
                    Selection::CloseOnExec,
                    N as nat,
                ) && final(self)@ == (FdTableState {
                    slots: vacated(old(self)@.slots, seen, Selection::CloseOnExec, N as nat),
                    ..old(self)@
                }),
    {
        let mut batch = prepared.batch;
        self.detach(&mut batch, Selection::CloseOnExec);
        proof {
            let seen = choose|seen: Seq<bool>| #[trigger]
                observed(old(self)@.slots, seen) && batch@ == prepared.batch@ + selected_entries(
                    old(self)@.slots,
                    seen,
                    Selection::CloseOnExec,
                    N as nat,
                ) && self@ == (FdTableState {
                    slots: vacated(old(self)@.slots, seen, Selection::CloseOnExec, N as nat),
                    ..old(self)@
                });
            assert(observed(old(self)@.slots, seen));
            assert(batch@ =~= selected_entries(
                old(self)@.slots,
                seen,
                Selection::CloseOnExec,
                N as nat,
            ));
        }
        CommittedCloseOnExec { batch }
    }

    /// Counts the visible selected entries.
    fn count_matching(&self, selection: Selection) -> (result: usize)
        requires
            self.wf(),
        ensures
            exists|seen: Seq<bool>| #[trigger]
                observed(self@.slots, seen) && result == selected_entries(
                    self@.slots,
                    seen,
                    selection,
                    N as nat,
                ).len(),
    {
        let ghost mut seen: Seq<bool> = Seq::empty();
        let mut found: usize = 0;
        let mut fd: usize = 0;
        while fd < N
            invariant
                self.wf(),
                fd <= N,
                found <= fd,
                seen.len() == fd,
                forall|j: int| 0 <= j < fd ==> (#[trigger] self@.slots[j]).may_be(seen[j]),
                found == selected_entries(self@.slots, seen, selection, fd as nat).len(),
            decreases N - fd,
        {
            let ghost known = seen;
            let shown = self.slots[fd].is_visible();
            proof {
                seen = seen.push(shown);
                selected_look_back(self@.slots, known, seen, selection, fd as nat);
            }
            if shown && self.is_selected(fd, selection) {
                found = found + 1;
            }
            fd = fd + 1;
        }
        assert(observed(self@.slots, seen));
        found
    }

    /// Whether the slot has a selected entry, visible or not.
    fn is_selected(&self, fd: usize, selection: Selection) -> (result: bool)
        requires
            self.wf(),
            fd < N,
        ensures
            result == (self@.slots[fd as int].entry() is Some && selection.covers(
                fd as int,
                self@.slots[fd as int].entry()->0,
            )),
    {
        match &self.slots[fd] {
            Slot::Occupied { entry, .. } => selection.selects(fd, entry),
            Slot::Prepared { entry, .. } => selection.selects(fd, entry),
            _ => false,
        }
    }

    /// Moves every visible selected entry into the batch.
    fn detach(&mut self, batch: &mut CloseBatch<D>, selection: Selection)
        requires
            old(self).wf(),
        ensures
            final(self).wf(),
            old(self)@.retires_into(final(self)@),
            final(batch).limit() == old(batch).limit(),
            exists|seen: Seq<bool>| #[trigger]
                observed(old(self)@.slots, seen) && final(batch)@ == old(batch)@ + selected_entries(
                    old(self)@.slots,
                    seen,
                    selection,
                    N as nat,
                ) && final(self)@ == (FdTableState {
                    slots: vacated(old(self)@.slots, seen, selection, N as nat),
                    ..old(self)@
                }),
    {
        let ghost before = self@;
        let ghost mut seen: Seq<bool> = Seq::empty();
        let mut fd: usize = 0;
        assert(vacated(before.slots, seen, selection, 0) =~= before.slots);
        assert(batch@ =~= old(batch)@ + selected_entries(before.slots, seen, selection, 0));
        while fd < N
            invariant
                self.wf(),
                before == old(self)@,
                before.wf(),
                before.slots.len() == N,
                fd <= N,
                seen.len() == fd,
                forall|j: int| 0 <= j < fd ==> (#[trigger] before.slots[j]).may_be(seen[j]),
                before.retires_into(self@),
                batch.limit() == old(batch).limit(),
                batch@ == old(batch)@ + selected_entries(before.slots, seen, selection, fd as nat),
                self@ == (FdTableState {
                    slots: vacated(before.slots, seen, selection, fd as nat),
                    ..before
                }),
            decreases N - fd,
        {
            let ghost here = self@;
            let ghost known = seen;
            let shown = self.slots[fd].is_visible();
            proof {
                assert(here.slots[fd as int] == before.slots[fd as int]);
                seen = seen.push(shown);
                selected_look_back(before.slots, known, seen, selection, fd as nat);
            }
            if shown && self.is_selected(fd, selection) {
                let entry = self.take_entry(FdNumber::new(fd as u32));
                batch.push(entry);
            }
            proof {
                assert(batch@ =~= old(batch)@ + selected_entries(
                    before.slots,
                    seen,
                    selection,
                    (fd + 1) as nat,
                ));
                assert(self@.slots =~= vacated(before.slots, seen, selection, (fd + 1) as nat));
                assert forall|f: FdNumber, g: u64| #[trigger]
                    self@.holds(f, g) && g < before.next_generation implies before.holds(f, g) by {
                    assert(here.holds(f, g));
                }
            }
            fd = fd + 1;
        }
        assert(observed(before.slots, seen));
    }

    fn detach_matching(&mut self, batch: &mut CloseBatch<D>, selection: Selection) -> (result: Result<
        (),
        FdTableError,
    >)
        requires
            old(self).wf(),
        ensures
            final(self).wf(),
            old(self)@.retires_into(final(self)@),
            detaches(*old(self), *final(self), *old(batch), *final(batch), selection, result),
    {
        if self.count_matching(selection) > batch.remaining() {
            return Err(FdTableError::InsufficientCloseStorage);
        }
        self.detach(batch, selection);
        Ok(())
    }

    /// Detaches an inclusive numeric range after proving batch capacity.
    pub fn close_range(&mut self, first: FdNumber, last: FdNumber, batch: &mut CloseBatch<D>) -> (result:
        Result<(), FdTableError>)
        requires
            old(self).wf(),
        ensures
            final(self).wf(),
            old(self)@.retires_into(final(self)@),
            last.get() < first.get() ==> result == Err::<(), FdTableError>(
                FdTableError::BadDescriptor,
            ) && final(self)@ == old(self)@ && *final(batch) == *old(batch),
            last.get() >= first.get() ==> detaches(
                *old(self),
                *final(self),
                *old(batch),
                *final(batch),
                Selection::Range { first, last },
                result,
            ),
    {
        if last.get() < first.get() {
            return Err(FdTableError::BadDescriptor);
        }
        self.detach_matching(batch, Selection::Range { first, last })
    }

    /// Transactionally detaches every close-on-exec descriptor.
    pub fn close_on_exec(&mut self, batch: &mut CloseBatch<D>) -> (result: Result<(), FdTableError>)
        requires
            old(self).wf(),
        ensures
            final(self).wf(),
            old(self)@.retires_into(final(self)@),
            detaches(
                *old(self),
                *final(self),
                *old(batch),
                *final(batch),
                Selection::CloseOnExec,
                result,
            ),
    {
        self.detach_matching(batch, Selection::CloseOnExec)
    }

    /// Transactionally detaches every visible descriptor.
    pub fn close_all(&mut self, batch: &mut CloseBatch<D>) -> (result: Result<(), FdTableError>)
        requires
            old(self).wf(),
        ensures
            final(self).wf(),
            old(self)@.retires_into(final(self)@),
            detaches(
                *old(self),
                *final(self),
                *old(batch),
                *final(batch),
                Selection::All,
                result,
            ),
    {
        self.detach_matching(batch, Selection::All)
    }
}

/// One close transaction: it counts the visible selected entries, and either the
/// batch has no room for them and nothing changes, or every entry that is visible
/// and selected when its slot is reached moves into the batch in ascending order.
/// `counted` and `seen` are what the two passes saw; they differ only in slots
/// whose publication was committed in between.
pub open spec fn detaches<D, const N: usize>(
    before: FdTable<D, N>,
    after: FdTable<D, N>,
    batch: CloseBatch<D>,
    filled: CloseBatch<D>,
    selection: Selection,
    result: Result<(), FdTableError>,
) -> bool {
    &&& filled.limit() == batch.limit()
    &&& exists|counted: Seq<bool>, seen: Seq<bool>| #[trigger]
        observed(before@.slots, counted) && #[trigger] observed(before@.slots, seen) && (if
        selected_entries(before@.slots, counted, selection, N as nat).len() > batch.room() {
            &&& result == Err::<(), FdTableError>(FdTableError::InsufficientCloseStorage)
            &&& after@ == before@
            &&& filled@ == batch@
        } else {
            &&& result == Ok::<(), FdTableError>(())
            &&& filled@ == batch@ + selected_entries(before@.slots, seen, selection, N as nat)
            &&& after@ == (FdTableState {
                slots: vacated(before@.slots, seen, selection, N as nat),
                ..before@
            })
        })
}

/// Without a prepared publication every pass over the slots sees the same.
pub proof fn settled_slots_look_the_same<D>(slots: Seq<Slot<D>>, a: Seq<bool>, b: Seq<bool>)
    requires
        forall|i: int| 0 <= i < slots.len() ==> !((#[trigger] slots[i]) is Prepared),
        observed(slots, a),
        observed(slots, b),
    ensures
        a == b,
        forall|i: int| 0 <= i < slots.len() ==> (#[trigger] a[i] <==> slots[i] is Occupied),
{
    assert forall|i: int| 0 <= i < slots.len() implies (#[trigger] a[i] <==> slots[i] is Occupied)
        && a[i] == b[i] by {
        assert(slots[i].may_be(a[i]) && slots[i].may_be(b[i]));
    }
    assert(a =~= b);
}

/// Without a prepared publication a close transaction is all or nothing: it
/// stays within the room of the batch, and fails only where that is too small
/// for what it would detach.
pub proof fn settled_closes_stay_within_the_batch<D, const N: usize>(
    before: FdTable<D, N>,
    after: FdTable<D, N>,
    batch: CloseBatch<D>,
    filled: CloseBatch<D>,
    selection: Selection,
    result: Result<(), FdTableError>,
    seen: Seq<bool>,
)
    requires
        before.wf(),
        forall|i: int| 0 <= i < N ==> !((#[trigger] before@.slots[i]) is Prepared),
        detaches(before, after, batch, filled, selection, result),
        observed(before@.slots, seen),
    ensures
        batch.wf() ==> filled.wf(),
        ({
            let moved = selected_entries(before@.slots, seen, selection, N as nat);
            if moved.len() > batch.room() {
                &&& result == Err::<(), FdTableError>(FdTableError::InsufficientCloseStorage)
                &&& after@ == before@
                &&& filled@ == batch@
            } else {
                &&& result == Ok::<(), FdTableError>(())
                &&& filled@ == batch@ + moved
                &&& after@.slots == vacated(before@.slots, seen, selection, N as nat)
            }
        }),
{
    assert forall|other: Seq<bool>| #[trigger] observed(before@.slots, other) implies other
        == seen by {
        settled_slots_look_the_same(before@.slots, other, seen);
    }
}

} // verus!
