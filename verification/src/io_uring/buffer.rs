use crate::allocation::{allocation_granted, allocation_refused, reserved};
use crate::counting::{
    count, count_bounds, count_take_next, total, total_at_least, total_push, total_update,
};
use crate::io_uring::error::IoUringError;
use crate::io_uring::request::{next_generation, not_before, successor};
use crate::io_uring::setup::{RingId, IORING_MAX_CQ_ENTRIES};
use crate::io_uring::registration::IORING_MAX_REGISTERED_BUFFERS;
use crate::sharing::share;
use std::sync::Arc;
use vstd::prelude::*;

verus! {

/// Caller-allocated nonzero identity for one registered-buffer table epoch.
///
/// A ring must allocate a fresh identity after every unregister/register pair;
/// this keeps an old request lease from becoming valid for a rebuilt slot.
#[derive(Clone, Copy, Debug, Eq, Hash, Ord, PartialEq, PartialOrd, Structural)]
pub struct BufferTableId(pub(crate) u64);

impl BufferTableId {
    #[verifier::type_invariant]
    pub(crate) open spec fn nonzero(self) -> bool {
        self.0 != 0
    }

    /// Builds a registration-epoch identity, rejecting zero.
    pub fn new(raw: u64) -> (result: Result<Self, IoUringError>)
        ensures
            match result {
                Ok(id) => raw != 0 && id.get() == raw,
                Err(error) => raw == 0 && error == IoUringError::InvalidIdentity,
            },
    {
        if raw != 0 {
            Ok(Self(raw))
        } else {
            Err(IoUringError::InvalidIdentity)
        }
    }

    /// Raw consumer identity value.
    #[verifier::when_used_as_spec(spec_get)]
    pub fn get(self) -> (result: u64)
        ensures
            result == self.spec_get(),
            result != 0,
    {
        proof {
            use_type_invariant(&self);
        }
        self.0
    }

    /// Specification counterpart of [`Self::get`].
    pub open(crate) spec fn spec_get(self) -> u64 {
        self.0
    }
}

/// Bounded registered-buffer slot index copied from an SQE.
#[derive(Clone, Copy, Debug, Eq, Hash, Ord, PartialEq, PartialOrd, Structural)]
pub struct BufferSlot(pub(crate) u32);

impl BufferSlot {
    /// Builds a slot value; lookup performs table-capacity validation.
    pub fn new(raw: u32) -> (result: Self)
        ensures
            result.get() == raw,
    {
        Self(raw)
    }

    /// Raw Linux fixed-buffer index.
    #[verifier::when_used_as_spec(spec_get)]
    pub fn get(self) -> (result: u32)
        ensures
            result == self.spec_get(),
    {
        self.0
    }

    /// Specification counterpart of [`Self::get`].
    pub open(crate) spec fn spec_get(self) -> u32 {
        self.0
    }
}

/// Generation-safe identity for one registered-buffer slot.
#[derive(Clone, Copy, Debug, Eq, Hash, Ord, PartialEq, PartialOrd, Structural)]
pub struct RegisteredBufferToken {
    pub(crate) ring: RingId,
    pub(crate) table: BufferTableId,
    pub(crate) slot: BufferSlot,
    pub(crate) generation: u64,
}

impl RegisteredBufferToken {
    /// Ring which owns this identity.
    #[verifier::when_used_as_spec(spec_ring)]
    pub fn ring(self) -> (result: RingId)
        ensures
            result == self.spec_ring(),
    {
        self.ring
    }

    /// Specification counterpart of [`Self::ring`].
    pub open(crate) spec fn spec_ring(self) -> RingId {
        self.ring
    }

    /// Registration epoch which owns this slot.
    #[verifier::when_used_as_spec(spec_table)]
    pub fn table(self) -> (result: BufferTableId)
        ensures
            result == self.spec_table(),
    {
        self.table
    }

    /// Specification counterpart of [`Self::table`].
    pub open(crate) spec fn spec_table(self) -> BufferTableId {
        self.table
    }

    /// Fixed-buffer slot.
    #[verifier::when_used_as_spec(spec_slot)]
    pub fn slot(self) -> (result: BufferSlot)
        ensures
            result == self.spec_slot(),
    {
        self.slot
    }

    /// Specification counterpart of [`Self::slot`].
    pub open(crate) spec fn spec_slot(self) -> BufferSlot {
        self.slot
    }

    /// Nonzero slot generation.
    #[verifier::when_used_as_spec(spec_generation)]
    pub fn generation(self) -> (result: u64)
        ensures
            result == self.spec_generation(),
    {
        self.generation
    }

    /// Specification counterpart of [`Self::generation`].
    pub open(crate) spec fn spec_generation(self) -> u64 {
        self.generation
    }
}

/// Exact virtual subrange selected by one fixed-buffer request.
#[derive(Clone, Copy, Debug, Eq, PartialEq, Structural)]
pub struct RegisteredBufferRange {
    pub(crate) address: u64,
    pub(crate) length: u32,
}

impl RegisteredBufferRange {
    /// The range does not wrap the address space.
    #[verifier::type_invariant]
    pub(crate) open spec fn in_address_space(self) -> bool {
        self.address + self.length <= u64::MAX
    }

    /// Checked range constructor.
    pub fn new(address: u64, length: u32) -> (result: Result<Self, IoUringError>)
        ensures
            match result {
                Ok(range) => {
                    &&& address + length <= u64::MAX
                    &&& range.address() == address
                    &&& range.length() == length
                },
                Err(error) => address + length > u64::MAX && error
                    == IoUringError::InvalidBufferRange,
            },
    {
        if address.checked_add(length as u64).is_none() {
            return Err(IoUringError::InvalidBufferRange);
        }
        Ok(Self { address, length })
    }

    /// Selected userspace address.
    #[verifier::when_used_as_spec(spec_address)]
    pub fn address(self) -> (result: u64)
        ensures
            result == self.spec_address(),
    {
        self.address
    }

    /// Specification counterpart of [`Self::address`].
    pub open(crate) spec fn spec_address(self) -> u64 {
        self.address
    }

    /// Selected byte length.
    #[verifier::when_used_as_spec(spec_length)]
    pub fn length(self) -> (result: u32)
        ensures
            result == self.spec_length(),
    {
        self.length
    }

    /// Specification counterpart of [`Self::length`].
    pub open(crate) spec fn spec_length(self) -> u32 {
        self.length
    }

    /// Exclusive selected address.
    pub fn end(self) -> (result: u64)
        ensures
            result == self.address() + self.length(),
    {
        proof {
            use_type_invariant(&self);
        }
        self.address + self.length as u64
    }
}

/// Table publication and retirement phase.
#[derive(Clone, Copy, Debug, Eq, PartialEq, Structural)]
pub enum BufferTableLifecycle {
    /// Slots may be populated but are not lookup-visible.
    Building,
    /// Installed slots are visible to fixed-buffer SQEs.
    Published,
    /// Lookups are stopped while outstanding leases release.
    Retiring,
    /// Every owner and lease has left the table.
    Closed,
}

/// Finite table snapshot for registration and close progress.
#[derive(Clone, Copy, Debug, Eq, PartialEq, Structural)]
pub struct BufferTableProgress {
    pub(crate) lifecycle: BufferTableLifecycle,
    pub(crate) capacity: u32,
    pub(crate) installed: u32,
    pub(crate) leases: u32,
    pub(crate) lease_capacity: u32,
}

impl BufferTableProgress {
    /// Current publication/retirement phase.
    #[verifier::when_used_as_spec(spec_lifecycle)]
    pub fn lifecycle(self) -> (result: BufferTableLifecycle)
        ensures
            result == self.spec_lifecycle(),
    {
        self.lifecycle
    }

    /// Specification counterpart of [`Self::lifecycle`].
    pub open(crate) spec fn spec_lifecycle(self) -> BufferTableLifecycle {
        self.lifecycle
    }

    /// Fixed-buffer slot capacity.
    #[verifier::when_used_as_spec(spec_capacity)]
    pub fn capacity(self) -> (result: u32)
        ensures
            result == self.spec_capacity(),
    {
        self.capacity
    }

    /// Specification counterpart of [`Self::capacity`].
    pub open(crate) spec fn spec_capacity(self) -> u32 {
        self.capacity
    }

    /// Owners still retained by slots, including retiring owners.
    #[verifier::when_used_as_spec(spec_installed)]
    pub fn installed(self) -> (result: u32)
        ensures
            result == self.spec_installed(),
    {
        self.installed
    }

    /// Specification counterpart of [`Self::installed`].
    pub open(crate) spec fn spec_installed(self) -> u32 {
        self.installed
    }

    /// Outstanding execution leases.
    #[verifier::when_used_as_spec(spec_leases)]
    pub fn leases(self) -> (result: u32)
        ensures
            result == self.spec_leases(),
    {
        self.leases
    }

    /// Specification counterpart of [`Self::leases`].
    pub open(crate) spec fn spec_leases(self) -> u32 {
        self.leases
    }

    /// Maximum simultaneous request-owned leases.
    #[verifier::when_used_as_spec(spec_lease_capacity)]
    pub fn lease_capacity(self) -> (result: u32)
        ensures
            result == self.spec_lease_capacity(),
    {
        self.lease_capacity
    }

    /// Specification counterpart of [`Self::lease_capacity`].
    pub open(crate) spec fn spec_lease_capacity(self) -> u32 {
        self.lease_capacity
    }

    /// No slot owner or external lease remains.
    pub fn empty(self) -> (result: bool)
        ensures
            result == (self.installed() == 0 && self.leases() == 0),
    {
        self.installed == 0 && self.leases == 0
    }
}

/// Exact registered-buffer ownership retained by one accepted request.
#[derive(Debug)]
#[must_use]
pub struct RegisteredBufferLease<F> {
    pub(crate) token: RegisteredBufferToken,
    pub(crate) range: RegisteredBufferRange,
    pub(crate) owner: Arc<F>,
}

impl<F> RegisteredBufferLease<F> {
    /// Generation-safe installed resource identity.
    #[verifier::when_used_as_spec(spec_token)]
    pub fn token(&self) -> (result: RegisteredBufferToken)
        ensures
            result == self.spec_token(),
    {
        self.token
    }

    /// Specification counterpart of [`Self::token`].
    pub open(crate) spec fn spec_token(&self) -> RegisteredBufferToken {
        self.token
    }

    /// Exact subrange validated against the registered iovec.
    #[verifier::when_used_as_spec(spec_range)]
    pub fn range(&self) -> (result: RegisteredBufferRange)
        ensures
            result == self.spec_range(),
    {
        self.range
    }

    /// Specification counterpart of [`Self::range`].
    pub open(crate) spec fn spec_range(&self) -> RegisteredBufferRange {
        self.range
    }

    /// Exact retained pin/resource owner.
    #[verifier::when_used_as_spec(spec_owner)]
    pub fn owner(&self) -> (result: &Arc<F>)
        ensures
            result == self.spec_owner(),
    {
        &self.owner
    }

    /// Specification counterpart of [`Self::owner`].
    pub open(crate) spec fn spec_owner(&self) -> &Arc<F> {
        &self.owner
    }
}

/// Buffer owner removed from lookup and proven free of request leases.
#[derive(Debug)]
#[must_use]
pub struct RetiredBuffer<F> {
    pub(crate) token: RegisteredBufferToken,
    pub(crate) owner: Arc<F>,
}

impl<F> RetiredBuffer<F> {
    /// Exact retired slot generation.
    #[verifier::when_used_as_spec(spec_token)]
    pub fn token(&self) -> (result: RegisteredBufferToken)
        ensures
            result == self.spec_token(),
    {
        self.token
    }

    /// Specification counterpart of [`Self::token`].
    pub open(crate) spec fn spec_token(&self) -> RegisteredBufferToken {
        self.token
    }

    /// Retained pin/resource owner.
    #[verifier::when_used_as_spec(spec_owner)]
    pub fn owner(&self) -> (result: &Arc<F>)
        ensures
            result == self.spec_owner(),
    {
        &self.owner
    }

    /// Specification counterpart of [`Self::owner`].
    pub open(crate) spec fn spec_owner(&self) -> &Arc<F> {
        &self.owner
    }

    /// Transfers the final table owner for lock-external destruction.
    pub fn into_owner(self) -> (result: Arc<F>)
        ensures
            result == *self.owner(),
    {
        self.owner
    }
}

/// Failed slot installation with ownership returned for rollback.
#[derive(Debug)]
pub struct BufferInstallError<F> {
    pub(crate) error: IoUringError,
    pub(crate) owner: Arc<F>,
}

impl<F> BufferInstallError<F> {
    /// Typed policy failure.
    #[verifier::when_used_as_spec(spec_error)]
    pub fn error(&self) -> (result: IoUringError)
        ensures
            result == self.spec_error(),
    {
        self.error
    }

    /// Specification counterpart of [`Self::error`].
    pub open(crate) spec fn spec_error(&self) -> IoUringError {
        self.error
    }

    /// Owner which was not installed.
    #[verifier::when_used_as_spec(spec_owner)]
    pub fn owner(&self) -> (result: &Arc<F>)
        ensures
            result == self.spec_owner(),
    {
        &self.owner
    }

    /// Specification counterpart of [`Self::owner`].
    pub open(crate) spec fn spec_owner(&self) -> &Arc<F> {
        &self.owner
    }

    /// Recovers ownership for destruction or rollback.
    pub fn into_owner(self) -> (result: Arc<F>)
        ensures
            result == *self.owner(),
    {
        self.owner
    }
}

/// Result of releasing one registered-buffer execution lease.
#[derive(Debug)]
pub enum BufferLeaseRelease<F> {
    /// The published slot still retains its owner.
    Active,
    /// Retirement was waiting for this last lease and returned the owner.
    Retired(RetiredBuffer<F>),
}

/// Failed lease release with the exact lease returned to its caller.
#[derive(Debug)]
pub struct BufferLeaseReleaseError<F> {
    pub(crate) error: IoUringError,
    pub(crate) lease: RegisteredBufferLease<F>,
}

impl<F> BufferLeaseReleaseError<F> {
    /// Typed policy failure.
    #[verifier::when_used_as_spec(spec_error)]
    pub fn error(&self) -> (result: IoUringError)
        ensures
            result == self.spec_error(),
    {
        self.error
    }

    /// Specification counterpart of [`Self::error`].
    pub open(crate) spec fn spec_error(&self) -> IoUringError {
        self.error
    }

    /// Recovers the lease for retry against its originating table.
    pub fn into_lease(self) -> (result: RegisteredBufferLease<F>)
        ensures
            result == self.returned_lease(),
    {
        self.lease
    }

    /// The lease that was not consumed.
    pub open(crate) spec fn returned_lease(self) -> RegisteredBufferLease<F> {
        self.lease
    }
}

/// One table slot. Without a generation it is exhausted for good.
#[derive(Debug)]
pub struct BufferSlotState<F> {
    /// Generation of the installed owner, or of the next one.
    pub generation: Option<u64>,
    /// Start of the registered range.
    pub address: u64,
    /// Length of the registered range.
    pub length: u64,
    /// Installed owner.
    pub owner: Option<Arc<F>>,
    /// Outstanding leases of the installed owner.
    pub leases: u32,
}

/// Mathematical model of a [`RegisteredBufferTable`].
#[verifier::ext_equal]
pub struct BufferTableState<F> {
    /// Ring scope of every token.
    pub ring: RingId,
    /// Registration epoch.
    pub id: BufferTableId,
    /// Publication and retirement phase.
    pub lifecycle: BufferTableLifecycle,
    /// Slots.
    pub slots: Seq<BufferSlotState<F>>,
    /// Next slot the retirement pass examines.
    pub cursor: usize,
    /// Maximum simultaneous leases.
    pub lease_capacity: u32,
    /// Outstanding leases.
    pub leases: u32,
}

impl<F> BufferTableState<F> {
    /// The state of a table without owners.
    pub open spec fn empty(ring: RingId, id: BufferTableId, capacity: u32, lease_capacity: u32) -> Self {
        BufferTableState {
            ring,
            id,
            lifecycle: BufferTableLifecycle::Building,
            slots: Seq::new(
                capacity as nat,
                |i: int| BufferSlotState {
                    generation: Some(1),
                    address: 0,
                    length: 0,
                    owner: None,
                    leases: 0,
                },
            ),
            cursor: 0,
            lease_capacity,
            leases: 0,
        }
    }

    /// The token names a currently installed owner.
    pub open spec fn names(self, token: RegisteredBufferToken) -> bool {
        self.token_error(token) is None
    }

    /// Why a token is not current, if it is not.
    pub open spec fn token_error(self, token: RegisteredBufferToken) -> Option<IoUringError> {
        let slot = token.slot().get() as int;
        if token.ring() != self.ring || token.table() != self.id {
            Some(IoUringError::UnknownBufferLease)
        } else if slot >= self.slots.len() {
            Some(IoUringError::InvalidBufferSlot)
        } else if self.slots[slot].generation != Some(token.generation())
            || self.slots[slot].owner is None {
            Some(IoUringError::UnknownBufferLease)
        } else {
            None
        }
    }

    /// The slot that a token names.
    pub open spec fn slot(self, token: RegisteredBufferToken) -> BufferSlotState<F> {
        self.slots[token.slot().get() as int]
    }

    /// The state with one slot replaced.
    pub open spec fn with_slot(self, slot: BufferSlot, contents: BufferSlotState<F>) -> Self {
        BufferTableState { slots: self.slots.update(slot.get() as int, contents), ..self }
    }

    /// Why lookups are refused in the current phase, if they are.
    pub open spec fn lookup_error(self) -> Option<IoUringError> {
        match self.lifecycle {
            BufferTableLifecycle::Building => Some(IoUringError::BufferTableNotPublished),
            BufferTableLifecycle::Published => None,
            BufferTableLifecycle::Retiring => Some(IoUringError::Closing),
            BufferTableLifecycle::Closed => Some(IoUringError::Closed),
        }
    }

    /// The slot can give up its owner at once.
    pub open spec fn retirable(self, slot: int) -> bool {
        self.slots[slot].owner is Some && self.slots[slot].leases == 0
    }

    /// The state once the owner named by `token` left with its last lease.
    pub open spec fn vacated(self, token: RegisteredBufferToken, leases: u32) -> Self {
        BufferTableState {
            leases,
            ..self.with_slot(
                token.slot(),
                BufferSlotState {
                    generation: successor(token.generation()),
                    owner: None,
                    leases: 0,
                    ..self.slot(token)
                },
            )
        }
    }

    /// The state with one more or one fewer lease of the named owner.
    pub open spec fn leased(self, token: RegisteredBufferToken, change: int) -> Self {
        let slot = self.slot(token);
        BufferTableState {
            leases: (self.leases + change) as u32,
            ..self.with_slot(
                token.slot(),
                BufferSlotState { leases: (slot.leases + change) as u32, ..slot },
            )
        }
    }

    /// What holds of every table: the lease count is the sum over the slots and
    /// within its limit, a leased slot has its owner, an owner has a
    /// generation, nothing is leased before publication, and nothing is left
    /// once closed.
    pub open spec fn wf(self) -> bool {
        &&& 1 <= self.slots.len() <= IORING_MAX_REGISTERED_BUFFERS
        &&& 1 <= self.lease_capacity <= IORING_MAX_CQ_ENTRIES
        &&& self.leases <= self.lease_capacity
        &&& self.leases == total(self.slots, |slot: BufferSlotState<F>| slot.leases as nat)
        &&& self.cursor <= self.slots.len()
        &&& forall|i: int|
            0 <= i < self.slots.len() ==> ({
                let slot = #[trigger] self.slots[i];
                &&& slot.leases > 0 ==> slot.owner is Some
                &&& slot.owner is Some ==> slot.generation is Some
                &&& slot.owner is Some ==> slot.length > 0 && slot.address + slot.length <= u64::MAX
                &&& self.lifecycle == BufferTableLifecycle::Closed ==> slot.owner is None
            })
        &&& self.lifecycle == BufferTableLifecycle::Building ==> self.leases == 0
        &&& self.lifecycle == BufferTableLifecycle::Closed ==> self.leases == 0
    }

    /// Every slot kept its generation or moved to a later one.
    pub open spec fn advances_to(self, next: Self) -> bool {
        &&& next.ring == self.ring
        &&& next.id == self.id
        &&& next.lease_capacity == self.lease_capacity
        &&& next.slots.len() == self.slots.len()
        &&& forall|i: int|
            0 <= i < self.slots.len() ==> not_before(
                (#[trigger] self.slots[i]).generation,
                next.slots[i].generation,
            )
    }

    /// The slot of the token has moved past its generation.
    pub open spec fn expired(self, token: RegisteredBufferToken) -> bool {
        &&& token.slot().get() < self.slots.len()
        &&& match self.slots[token.slot().get() as int].generation {
            Some(generation) => token.generation() < generation,
            None => true,
        }
    }
}

/// A token whose owner retired is never accepted again.
pub proof fn retired_buffer_tokens_stay_retired<F>(
    state: BufferTableState<F>,
    next: BufferTableState<F>,
    token: RegisteredBufferToken,
)
    requires
        state.advances_to(next),
        state.expired(token),
    ensures
        !state.names(token),
        next.expired(token),
        !next.names(token),
{
    assert(not_before(
        state.slots[token.slot().get() as int].generation,
        next.slots[token.slot().get() as int].generation,
    ));
}

/// Replacing a slot keeps the table well formed while the lease counts agree.
proof fn replacing_a_buffer_slot<F>(
    state: BufferTableState<F>,
    slot: BufferSlot,
    contents: BufferSlotState<F>,
    leases: u32,
)
    requires
        state.wf(),
        slot.get() < state.slots.len(),
        leases == state.leases - state.slots[slot.get() as int].leases + contents.leases,
        leases <= state.lease_capacity,
        contents.leases > 0 ==> contents.owner is Some,
        contents.owner is Some ==> contents.generation is Some,
        contents.owner is Some ==> contents.length > 0 && contents.address + contents.length
            <= u64::MAX,
        not_before(state.slots[slot.get() as int].generation, contents.generation),
        state.lifecycle == BufferTableLifecycle::Building ==> leases == 0,
        state.lifecycle != BufferTableLifecycle::Closed,
    ensures
        (BufferTableState { leases, ..state.with_slot(slot, contents) }).wf(),
        state.advances_to(BufferTableState { leases, ..state.with_slot(slot, contents) }),
{
    total_update(
        state.slots,
        slot.get() as int,
        contents,
        |s: BufferSlotState<F>| s.leases as nat,
    );
}

/// Fixed-capacity registered-buffer ownership and retirement state.
///
/// Slots own real `Arc<F>` values beside the registered range. Construction is
/// the only allocation performed by this table.
#[derive(Debug)]
pub struct RegisteredBufferTable<F> {
    ring: RingId,
    id: BufferTableId,
    lifecycle: BufferTableLifecycle,
    slots: Vec<BufferSlotState<F>>,
    retire_cursor: usize,
    lease_capacity: u32,
    leases: u32,
}

impl<F> View for RegisteredBufferTable<F> {
    type V = BufferTableState<F>;

    closed spec fn view(&self) -> BufferTableState<F> {
        BufferTableState {
            ring: self.ring,
            id: self.id,
            lifecycle: self.lifecycle,
            slots: self.slots@,
            cursor: self.retire_cursor,
            lease_capacity: self.lease_capacity,
            leases: self.leases,
        }
    }
}

impl BufferTableProgress {
    /// The snapshot describes a table.
    pub open spec fn describes<F>(self, state: BufferTableState<F>) -> bool {
        &&& self.lifecycle() == state.lifecycle
        &&& self.capacity() == state.slots.len()
        &&& self.installed() == count(state.slots, |slot: BufferSlotState<F>| slot.owner is Some)
        &&& self.leases() == state.leases
        &&& self.lease_capacity() == state.lease_capacity
    }
}

impl<F> RegisteredBufferTable<F> {
    /// Representation invariant of the table.
    pub open spec fn wf(&self) -> bool {
        self@.wf()
    }

    /// Allocates an unpublished fixed-capacity table.
    ///
    /// It fails for want of memory only where the allocator refuses the storage.
    pub fn new(ring: RingId, id: BufferTableId, capacity: u32, lease_capacity: u32) -> (result: Result<
        Self,
        IoUringError,
    >)
        ensures
            ({
                let capacity_ok = 1 <= capacity <= IORING_MAX_REGISTERED_BUFFERS;
                let leases_ok = 1 <= lease_capacity <= IORING_MAX_CQ_ENTRIES;
                match result {
                    Ok(table) => {
                        &&& capacity_ok && leases_ok
                        &&& table.wf()
                        &&& table@ == BufferTableState::<F>::empty(ring, id, capacity, lease_capacity)
                        &&& allocation_granted::<BufferSlotState<F>>(capacity as usize)
                    },
                    Err(error) => if !capacity_ok {
                        error == IoUringError::InvalidBufferTableCapacity
                    } else if !leases_ok {
                        error == IoUringError::InvalidBufferLeaseCapacity
                    } else {
                        &&& error == IoUringError::AllocationFailed
                        &&& allocation_refused::<BufferSlotState<F>>(capacity as usize)
                    },
                }
            }),
    {
        if capacity == 0 || capacity > IORING_MAX_REGISTERED_BUFFERS {
            return Err(IoUringError::InvalidBufferTableCapacity);
        }
        if lease_capacity == 0 || lease_capacity > IORING_MAX_CQ_ENTRIES {
            return Err(IoUringError::InvalidBufferLeaseCapacity);
        }
        let length = capacity as usize;
        let mut slots: Vec<BufferSlotState<F>> = match reserved(length) {
            Some(slots) => slots,
            None => return Err(IoUringError::AllocationFailed),
        };
        let mut filled: usize = 0;
        while filled < length
            invariant
                filled <= length,
                slots.len() == filled,
                total(slots@, |slot: BufferSlotState<F>| slot.leases as nat) == 0,
                forall|i: int|
                    0 <= i < filled ==> (#[trigger] slots@[i]) == (BufferSlotState::<F> {
                        generation: Some(1),
                        address: 0,
                        length: 0,
                        owner: None,
                        leases: 0,
                    }),
            decreases length - filled,
        {
            let slot = BufferSlotState {
                generation: Some(1),
                address: 0,
                length: 0,
                owner: None,
                leases: 0,
            };
            proof {
                total_push(slots@, slot, |slot: BufferSlotState<F>| slot.leases as nat);
            }
            slots.push(slot);
            filled = filled + 1;
        }
        let table = Self {
            ring,
            id,
            lifecycle: BufferTableLifecycle::Building,
            slots,
            retire_cursor: 0,
            lease_capacity,
            leases: 0,
        };
        assert(table@ =~= BufferTableState::<F>::empty(ring, id, capacity, lease_capacity));
        Ok(table)
    }

    /// Non-reused registration epoch carried by every table token.
    pub fn id(&self) -> (result: BufferTableId)
        ensures
            result == self@.id,
    {
        self.id
    }

    /// Installs one exact registered range before publication.
    pub fn install(
        &mut self,
        slot: BufferSlot,
        address: u64,
        length: u64,
        owner: Arc<F>,
    ) -> (result: Result<RegisteredBufferToken, BufferInstallError<F>>)
        requires
            old(self).wf(),
        ensures
            final(self).wf(),
            old(self)@.advances_to(final(self)@),
            match result {
                Ok(token) => {
                    &&& length > 0 && address + length <= u64::MAX
                    &&& old(self)@.lifecycle == BufferTableLifecycle::Building
                    &&& slot.get() < old(self)@.slots.len()
                    &&& old(self)@.slots[slot.get() as int].owner is None
                    &&& token.ring() == old(self)@.ring
                    &&& token.table() == old(self)@.id
                    &&& token.slot() == slot
                    &&& old(self)@.slots[slot.get() as int].generation == Some(token.generation())
                    &&& final(self)@ == old(self)@.with_slot(
                        slot,
                        BufferSlotState {
                            address,
                            length,
                            owner: Some(owner),
                            ..old(self)@.slots[slot.get() as int]
                        },
                    )
                    &&& final(self)@.names(token)
                },
                Err(failure) => {
                    &&& final(self)@ == old(self)@
                    &&& *failure.owner() == owner
                    &&& if length == 0 || address + length > u64::MAX {
                        failure.error() == IoUringError::InvalidBufferRange
                    } else {
                        match old(self)@.lifecycle {
                            BufferTableLifecycle::Published => failure.error() == IoUringError::Busy,
                            BufferTableLifecycle::Retiring => failure.error() == IoUringError::Closing,
                            BufferTableLifecycle::Closed => failure.error() == IoUringError::Closed,
                            BufferTableLifecycle::Building => if slot.get() >= old(
                                self,
                            )@.slots.len() {
                                failure.error() == IoUringError::InvalidBufferSlot
                            } else if old(self)@.slots[slot.get() as int].owner is Some {
                                failure.error() == IoUringError::BufferSlotOccupied
                            } else {
                                &&& old(self)@.slots[slot.get() as int].generation is None
                                &&& failure.error() == IoUringError::GenerationExhausted
                            },
                        }
                    }
                },
            },
    {
        if address.checked_add(length).is_none() || length == 0 {
            return Err(BufferInstallError { error: IoUringError::InvalidBufferRange, owner });
        }
        match self.lifecycle {
            BufferTableLifecycle::Building => {},
            BufferTableLifecycle::Published => return Err(
                BufferInstallError { error: IoUringError::Busy, owner },
            ),
            BufferTableLifecycle::Retiring => return Err(
                BufferInstallError { error: IoUringError::Closing, owner },
            ),
            BufferTableLifecycle::Closed => return Err(
                BufferInstallError { error: IoUringError::Closed, owner },
            ),
        }
        let index = slot.0 as usize;
        if index >= self.slots.len() {
            return Err(BufferInstallError { error: IoUringError::InvalidBufferSlot, owner });
        }
        if self.slots[index].owner.is_some() {
            return Err(BufferInstallError { error: IoUringError::BufferSlotOccupied, owner });
        }
        let generation = match self.slots[index].generation {
            Some(generation) => generation,
            None => return Err(
                BufferInstallError { error: IoUringError::GenerationExhausted, owner },
            ),
        };
        let ghost before = self@;
        let ghost installed = BufferSlotState {
            address,
            length,
            owner: Some(owner),
            ..before.slots[slot.get() as int]
        };
        proof {
            replacing_a_buffer_slot(before, slot, installed, before.leases);
        }
        self.slots[index].address = address;
        self.slots[index].length = length;
        self.slots[index].owner = Some(owner);
        assert(self@ == before.with_slot(slot, installed));
        Ok(RegisteredBufferToken { ring: self.ring, table: self.id, slot, generation })
    }

    /// Makes every installed owner lookup-visible in one policy transition.
    pub fn publish(&mut self) -> (result: Result<BufferTableProgress, IoUringError>)
        requires
            old(self).wf(),
        ensures
            final(self).wf(),
            old(self)@.advances_to(final(self)@),
            match result {
                Ok(progress) => {
                    &&& old(self)@.lifecycle == BufferTableLifecycle::Building || old(self)@.lifecycle
                        == BufferTableLifecycle::Published
                    &&& final(self)@ == BufferTableState {
                        lifecycle: BufferTableLifecycle::Published,
                        ..old(self)@
                    }
                    &&& progress.describes(final(self)@)
                },
                Err(error) => {
                    &&& final(self)@ == old(self)@
                    &&& match old(self)@.lifecycle {
                        BufferTableLifecycle::Retiring => error == IoUringError::Closing,
                        BufferTableLifecycle::Closed => error == IoUringError::Closed,
                        _ => false,
                    }
                },
            },
    {
        match self.lifecycle {
            BufferTableLifecycle::Building => {
                self.lifecycle = BufferTableLifecycle::Published;
            },
            BufferTableLifecycle::Published => {},
            BufferTableLifecycle::Retiring => return Err(IoUringError::Closing),
            BufferTableLifecycle::Closed => return Err(IoUringError::Closed),
        }
        self.progress()
    }

    fn check_published(&self) -> (result: Result<(), IoUringError>)
        ensures
            result == match self@.lookup_error() {
                Some(error) => Err::<(), IoUringError>(error),
                None => Ok(()),
            },
    {
        match self.lifecycle {
            BufferTableLifecycle::Building => Err(IoUringError::BufferTableNotPublished),
            BufferTableLifecycle::Published => Ok(()),
            BufferTableLifecycle::Retiring => Err(IoUringError::Closing),
            BufferTableLifecycle::Closed => Err(IoUringError::Closed),
        }
    }

    /// Returns the current exact token for an installed, published slot.
    pub fn token(&self, slot: BufferSlot) -> (result: Result<RegisteredBufferToken, IoUringError>)
        requires
            self.wf(),
        ensures
            match result {
                Ok(token) => {
                    &&& self@.lookup_error() is None
                    &&& token.slot() == slot
                    &&& self@.names(token)
                },
                Err(error) => match self@.lookup_error() {
                    Some(refusal) => error == refusal,
                    None => if slot.get() >= self@.slots.len() {
                        error == IoUringError::InvalidBufferSlot
                    } else {
                        &&& self@.slots[slot.get() as int].owner is None
                        &&& error == IoUringError::BufferSlotEmpty
                    },
                },
            },
    {
        self.check_published()?;
        let index = slot.0 as usize;
        if index >= self.slots.len() {
            return Err(IoUringError::InvalidBufferSlot);
        }
        if self.slots[index].owner.is_none() {
            return Err(IoUringError::BufferSlotEmpty);
        }
        assert(self@.slots[index as int].owner is Some);
        let generation = self.slots[index].generation.unwrap();
        Ok(RegisteredBufferToken { ring: self.ring, table: self.id, slot, generation })
    }

    /// Acquires a request-owned lease by slot.
    pub fn acquire(&mut self, slot: BufferSlot, address: u64, length: u32) -> (result: Result<
        RegisteredBufferLease<F>,
        IoUringError,
    >)
        requires
            old(self).wf(),
        ensures
            final(self).wf(),
            old(self)@.advances_to(final(self)@),
            match result {
                Ok(lease) => {
                    &&& lease.token().slot() == slot
                    &&& old(self)@.grants(lease, address, length)
                    &&& final(self)@ == old(self)@.leased(lease.token(), 1)
                },
                Err(error) => {
                    &&& final(self)@ == old(self)@
                    &&& match old(self)@.lookup_error() {
                        Some(refusal) => error == refusal,
                        None => if slot.get() >= old(self)@.slots.len() {
                            error == IoUringError::InvalidBufferSlot
                        } else if old(self)@.slots[slot.get() as int].owner is None {
                            error == IoUringError::BufferSlotEmpty
                        } else {
                            old(self)@.range_error(
                                old(self)@.slots[slot.get() as int],
                                address,
                                length,
                            ) == Some(error)
                        },
                    }
                },
            },
    {
        let token = self.token(slot)?;
        self.acquire_token(token, address, length)
    }

    /// Acquires a lease only if table/slot/generation and range still match.
    pub fn acquire_token(&mut self, token: RegisteredBufferToken, address: u64, length: u32) -> (result:
        Result<RegisteredBufferLease<F>, IoUringError>)
        requires
            old(self).wf(),
        ensures
            final(self).wf(),
            old(self)@.advances_to(final(self)@),
            match result {
                Ok(lease) => {
                    &&& lease.token() == token
                    &&& old(self)@.grants(lease, address, length)
                    &&& final(self)@ == old(self)@.leased(token, 1)
                },
                Err(error) => {
                    &&& final(self)@ == old(self)@
                    &&& match old(self)@.lookup_error() {
                        Some(refusal) => error == refusal,
                        None => match old(self)@.token_error(token) {
                            Some(refusal) => error == refusal,
                            None => {
                                old(self)@.range_error(old(self)@.slot(token), address, length)
                                    == Some(error)
                            },
                        },
                    }
                },
            },
    {
        self.check_published()?;
        self.validate_token(token)?;
        let range = RegisteredBufferRange::new(address, length)?;
        if self.leases >= self.lease_capacity {
            return Err(IoUringError::BufferLeaseCapacityExceeded);
        }
        let ghost before = self@;
        let index = token.slot.0 as usize;
        assert(before.slots[index as int].owner is Some);
        let registered_end: u64 = self.slots[index].address + self.slots[index].length;
        if address < self.slots[index].address || range.end() > registered_end {
            return Err(IoUringError::InvalidBufferRange);
        }
        proof {
            total_at_least(
                before.slots,
                index as int,
                |slot: BufferSlotState<F>| slot.leases as nat,
            );
            replacing_a_buffer_slot(
                before,
                token.slot,
                BufferSlotState {
                    leases: (before.slot(token).leases + 1) as u32,
                    ..before.slot(token)
                },
                (before.leases + 1) as u32,
            );
        }
        let owner = match &self.slots[index].owner {
            Some(owner) => share(owner),
            None => return Err(IoUringError::BufferSlotEmpty),
        };
        self.slots[index].leases = self.slots[index].leases + 1;
        self.leases = self.leases + 1;
        assert(self@ =~= before.leased(token, 1));
        Ok(RegisteredBufferLease { token, range, owner })
    }

    /// Stops new lookups and marks every installed slot for retirement.
    pub fn begin_retire(&mut self) -> (result: Result<BufferTableProgress, IoUringError>)
        requires
            old(self).wf(),
        ensures
            final(self).wf(),
            old(self)@.advances_to(final(self)@),
            final(self)@ == match old(self)@.lifecycle {
                BufferTableLifecycle::Building | BufferTableLifecycle::Published => BufferTableState {
                    lifecycle: BufferTableLifecycle::Retiring,
                    cursor: 0,
                    ..old(self)@
                },
                _ => old(self)@,
            },
            result matches Ok(progress) && progress.describes(final(self)@),
    {
        match self.lifecycle {
            BufferTableLifecycle::Building | BufferTableLifecycle::Published => {
                self.lifecycle = BufferTableLifecycle::Retiring;
                self.retire_cursor = 0;
            },
            BufferTableLifecycle::Retiring | BufferTableLifecycle::Closed => {},
        }
        self.progress()
    }

    /// Removes one retirement-ready owner without destroying it in the table.
    ///
    /// A slot with outstanding leases reports `Busy`; its last lease release
    /// will instead return the retired owner.
    pub fn retire(&mut self, token: RegisteredBufferToken) -> (result: Result<
        RetiredBuffer<F>,
        IoUringError,
    >)
        requires
            old(self).wf(),
        ensures
            final(self).wf(),
            old(self)@.advances_to(final(self)@),
            match result {
                Ok(retired) => {
                    &&& old(self)@.lifecycle == BufferTableLifecycle::Retiring
                    &&& old(self)@.names(token)
                    &&& old(self)@.slot(token).leases == 0
                    &&& retired.token() == token
                    &&& Some(*retired.owner()) == old(self)@.slot(token).owner
                    &&& final(self)@ == old(self)@.vacated(token, old(self)@.leases)
                    &&& final(self)@.expired(token)
                },
                Err(error) => {
                    &&& final(self)@ == old(self)@
                    &&& if old(self)@.lifecycle != BufferTableLifecycle::Retiring {
                        error == IoUringError::InvalidLifecycleTransition
                    } else {
                        match old(self)@.token_error(token) {
                            Some(refusal) => error == refusal,
                            None => old(self)@.slot(token).leases > 0 && error
                                == IoUringError::Busy,
                        }
                    }
                },
            },
    {
        if self.lifecycle != BufferTableLifecycle::Retiring {
            return Err(IoUringError::InvalidLifecycleTransition);
        }
        self.validate_token(token)?;
        let index = token.slot.0 as usize;
        if self.slots[index].leases != 0 {
            return Err(IoUringError::Busy);
        }
        let ghost before = self@;
        proof {
            replacing_a_buffer_slot(
                before,
                token.slot,
                BufferSlotState {
                    generation: successor(token.generation),
                    owner: None,
                    leases: 0,
                    ..before.slot(token)
                },
                before.leases,
            );
        }
        let owner = self.slots[index].owner.take().unwrap();
        self.slots[index].generation = next_generation(token.generation);
        assert(self@ =~= before.vacated(token, before.leases));
        Ok(RetiredBuffer { token, owner })
    }

    /// Returns the next installed slot that can retire immediately.
    ///
    /// Each slot is inspected at most once across the retirement pass. Slots
    /// skipped for live leases are completed by their last `release` call.
    pub fn next_retirable(&mut self) -> (result: Result<Option<RegisteredBufferToken>, IoUringError>)
        requires
            old(self).wf(),
        ensures
            final(self).wf(),
            old(self)@.advances_to(final(self)@),
            match result {
                Ok(Some(token)) => {
                    let index = token.slot().get();
                    &&& old(self)@.lifecycle == BufferTableLifecycle::Retiring
                    &&& old(self)@.cursor <= index
                    &&& old(self)@.names(token)
                    &&& old(self)@.retirable(index as int)
                    &&& forall|i: int|
                        old(self)@.cursor <= i < index ==> !#[trigger] old(self)@.retirable(i)
                    &&& final(self)@ == BufferTableState { cursor: (index + 1) as usize, ..old(self)@ }
                },
                Ok(None) => {
                    &&& old(self)@.lifecycle == BufferTableLifecycle::Retiring
                    &&& forall|i: int|
                        old(self)@.cursor <= i < old(self)@.slots.len() ==> !#[trigger] old(
                            self,
                        )@.retirable(i)
                    &&& final(self)@ == BufferTableState {
                        cursor: old(self)@.slots.len() as usize,
                        ..old(self)@
                    }
                },
                Err(error) => {
                    &&& old(self)@.lifecycle != BufferTableLifecycle::Retiring
                    &&& error == IoUringError::InvalidLifecycleTransition
                    &&& final(self)@ == old(self)@
                },
            },
    {
        if self.lifecycle != BufferTableLifecycle::Retiring {
            return Err(IoUringError::InvalidLifecycleTransition);
        }
        let ghost before = self@;
        while self.retire_cursor < self.slots.len()
            invariant
                self.wf(),
                before.wf(),
                before == old(self)@,
                before.lifecycle == BufferTableLifecycle::Retiring,
                before.cursor <= self.retire_cursor,
                self@ == (BufferTableState { cursor: self.retire_cursor, ..before }),
                forall|i: int|
                    before.cursor <= i < self.retire_cursor ==> !#[trigger] before.retirable(i),
            decreases before.slots.len() - self.retire_cursor,
        {
            let index = self.retire_cursor;
            self.retire_cursor = index + 1;
            assert(self.slots@[index as int] == before.slots[index as int]);
            if self.slots[index].owner.is_some() && self.slots[index].leases == 0 {
                assert(before.retirable(index as int));
                let generation = self.slots[index].generation.unwrap();
                return Ok(
                    Some(
                        RegisteredBufferToken {
                            ring: self.ring,
                            table: self.id,
                            slot: BufferSlot::new(index as u32),
                            generation,
                        },
                    ),
                );
            }
        }
        Ok(None)
    }

    /// Releases one execution lease and, when last, transfers a retiring owner.
    pub fn release(&mut self, lease: RegisteredBufferLease<F>) -> (result: Result<
        BufferLeaseRelease<F>,
        BufferLeaseReleaseError<F>,
    >)
        requires
            old(self).wf(),
        ensures
            final(self).wf(),
            old(self)@.advances_to(final(self)@),
            ({
                let token = lease.token();
                let slot = old(self)@.slot(token);
                let last = old(self)@.lifecycle == BufferTableLifecycle::Retiring && slot.leases == 1;
                match result {
                    Ok(BufferLeaseRelease::Retired(retired)) => {
                        &&& old(self)@.names(token)
                        &&& last
                        &&& retired.token() == token
                        &&& Some(*retired.owner()) == slot.owner
                        &&& final(self)@ == old(self)@.vacated(
                            token,
                            (old(self)@.leases - 1) as u32,
                        )
                        &&& final(self)@.expired(token)
                    },
                    Ok(BufferLeaseRelease::Active) => {
                        &&& old(self)@.names(token)
                        &&& slot.leases > 0
                        &&& !last
                        &&& final(self)@ == old(self)@.leased(token, -1)
                    },
                    Err(failure) => {
                        &&& final(self)@ == old(self)@
                        &&& failure.returned_lease() == lease
                        &&& match old(self)@.token_error(token) {
                            Some(refusal) => failure.error() == refusal,
                            None => slot.leases == 0 && failure.error()
                                == IoUringError::UnknownBufferLease,
                        }
                    },
                }
            }),
    {
        let token = lease.token;
        if let Err(error) = self.validate_token(token) {
            return Err(BufferLeaseReleaseError { error, lease });
        }
        let index = token.slot.0 as usize;
        if self.slots[index].leases == 0 {
            return Err(BufferLeaseReleaseError { error: IoUringError::UnknownBufferLease, lease });
        }
        let ghost before = self@;
        proof {
            total_at_least(
                before.slots,
                index as int,
                |slot: BufferSlotState<F>| slot.leases as nat,
            );
            assert(before.slots[index as int].owner is Some);
        }
        if self.lifecycle == BufferTableLifecycle::Retiring && self.slots[index].leases == 1 {
            proof {
                replacing_a_buffer_slot(
                    before,
                    token.slot,
                    BufferSlotState {
                        generation: successor(token.generation),
                        owner: None,
                        leases: 0,
                        ..before.slot(token)
                    },
                    (before.leases - 1) as u32,
                );
            }
            let owner = self.slots[index].owner.take().unwrap();
            self.slots[index].leases = 0;
            self.slots[index].generation = next_generation(token.generation);
            self.leases = self.leases - 1;
            assert(self@ =~= before.vacated(token, (before.leases - 1) as u32));
            Ok(BufferLeaseRelease::Retired(RetiredBuffer { token, owner }))
        } else {
            proof {
                replacing_a_buffer_slot(
                    before,
                    token.slot,
                    BufferSlotState {
                        leases: (before.slot(token).leases - 1) as u32,
                        ..before.slot(token)
                    },
                    (before.leases - 1) as u32,
                );
            }
            self.slots[index].leases = self.slots[index].leases - 1;
            self.leases = self.leases - 1;
            assert(self@ =~= before.leased(token, -1));
            Ok(BufferLeaseRelease::Active)
        }
    }

    /// Completes unregister/close after all owners and leases have retired.
    pub fn finish_retire(&mut self) -> (result: Result<(), IoUringError>)
        requires
            old(self).wf(),
        ensures
            final(self).wf(),
            old(self)@.advances_to(final(self)@),
            ({
                let empty = forall|i: int|
                    0 <= i < old(self)@.slots.len() ==> (#[trigger] old(self)@.slots[i]).owner is None;
                match old(self)@.lifecycle {
                    BufferTableLifecycle::Closed => result == Ok::<(), IoUringError>(()) && final(self)@
                        == old(self)@,
                    BufferTableLifecycle::Retiring => if empty {
                        &&& result == Ok::<(), IoUringError>(())
                        &&& final(self)@ == BufferTableState {
                            lifecycle: BufferTableLifecycle::Closed,
                            ..old(self)@
                        }
                    } else {
                        &&& result == Err::<(), IoUringError>(IoUringError::Busy)
                        &&& final(self)@ == old(self)@
                    },
                    _ => result == Err::<(), IoUringError>(IoUringError::InvalidLifecycleTransition)
                        && final(self)@ == old(self)@,
                }
            }),
    {
        if self.lifecycle == BufferTableLifecycle::Closed {
            return Ok(());
        }
        if self.lifecycle != BufferTableLifecycle::Retiring {
            return Err(IoUringError::InvalidLifecycleTransition);
        }
        proof {
            count_bounds(self@.slots, |slot: BufferSlotState<F>| slot.owner is Some);
            let empty = forall|i: int|
                0 <= i < self@.slots.len() ==> (#[trigger] self@.slots[i]).owner is None;
            if empty {
                no_leases(self@.slots);
            }
        }
        let progress = self.progress()?;
        if !progress.empty() {
            return Err(IoUringError::Busy);
        }
        let ghost before = self@;
        self.lifecycle = BufferTableLifecycle::Closed;
        Ok(())
    }

    /// Returns finite resource-retirement progress.
    pub fn progress(&self) -> (result: Result<BufferTableProgress, IoUringError>)
        requires
            self.wf(),
        ensures
            result matches Ok(progress) && progress.describes(self@),
    {
        let ghost owned = |slot: BufferSlotState<F>| slot.owner is Some;
        let mut installed: u32 = 0;
        let mut i: usize = 0;
        while i < self.slots.len()
            invariant
                self.wf(),
                self@.slots == self.slots@,
                i <= self.slots.len(),
                installed <= i,
                installed == count(self.slots@.take(i as int), owned),
                owned == (|slot: BufferSlotState<F>| slot.owner is Some),
            decreases self.slots.len() - i,
        {
            proof {
                count_take_next(self.slots@, i as int, owned);
            }
            if self.slots[i].owner.is_some() {
                installed = installed + 1;
            }
            i = i + 1;
        }
        assert(self.slots@.take(i as int) =~= self.slots@);
        Ok(
            BufferTableProgress {
                lifecycle: self.lifecycle,
                capacity: self.slots.len() as u32,
                installed,
                leases: self.leases,
                lease_capacity: self.lease_capacity,
            },
        )
    }

    fn validate_token(&self, token: RegisteredBufferToken) -> (result: Result<(), IoUringError>)
        ensures
            result == match self@.token_error(token) {
                Some(error) => Err::<(), IoUringError>(error),
                None => Ok(()),
            },
    {
        if token.ring != self.ring || token.table != self.id {
            return Err(IoUringError::UnknownBufferLease);
        }
        let index = token.slot.0 as usize;
        if index >= self.slots.len() {
            return Err(IoUringError::InvalidBufferSlot);
        }
        let current = match self.slots[index].generation {
            Some(generation) => generation == token.generation,
            None => false,
        };
        if !current || self.slots[index].owner.is_none() {
            return Err(IoUringError::UnknownBufferLease);
        }
        Ok(())
    }
}

impl<F> BufferTableState<F> {
    /// Why a subrange of an installed buffer is not leased, if it is not.
    pub open spec fn range_error(
        self,
        slot: BufferSlotState<F>,
        address: u64,
        length: u32,
    ) -> Option<IoUringError> {
        if address + length > u64::MAX {
            Some(IoUringError::InvalidBufferRange)
        } else if self.leases >= self.lease_capacity {
            Some(IoUringError::BufferLeaseCapacityExceeded)
        } else if address < slot.address || address + length > slot.address + slot.length {
            Some(IoUringError::InvalidBufferRange)
        } else {
            None
        }
    }

    /// The lease is what a current token is granted: the installed owner for a
    /// subrange of the registered range, while the lease budget lasts.
    pub open spec fn grants(self, lease: RegisteredBufferLease<F>, address: u64, length: u32) -> bool {
        &&& self.lookup_error() is None
        &&& self.names(lease.token())
        &&& self.range_error(self.slot(lease.token()), address, length) is None
        &&& lease.range().address() == address
        &&& lease.range().length() == length
        &&& Some(*lease.owner()) == self.slot(lease.token()).owner
    }
}

/// Without leased slots the sum of leases is zero.
proof fn no_leases<F>(slots: Seq<BufferSlotState<F>>)
    requires
        forall|i: int|
            0 <= i < slots.len() ==> ((#[trigger] slots[i]).leases > 0 ==> slots[i].owner is Some),
        forall|i: int| 0 <= i < slots.len() ==> (#[trigger] slots[i]).owner is None,
    ensures
        total(slots, |slot: BufferSlotState<F>| slot.leases as nat) == 0,
    decreases slots.len(),
{
    if slots.len() > 0 {
        let front = slots.drop_last();
        assert forall|i: int| 0 <= i < front.len() implies (#[trigger] front[i]).owner is None
            && front[i].leases == 0 by {
            assert(front[i] == slots[i]);
        }
        no_leases(front);
        assert(slots[slots.len() - 1].leases == 0);
    }
}

/// Leasing and releasing leaves a published table as it was, so the lease
/// budget cannot leak.
pub proof fn release_undoes_acquire_of_buffer<F>(state: BufferTableState<F>, token: RegisteredBufferToken)
    requires
        state.wf(),
        state.names(token),
        state.leases < state.lease_capacity,
    ensures
        state.leased(token, 1).leased(token, -1) == state,
{
    total_at_least(
        state.slots,
        token.slot().get() as int,
        |slot: BufferSlotState<F>| slot.leases as nat,
    );
    assert(state.leased(token, 1).leased(token, -1).slots =~= state.slots);
}

} // verus!
