use crate::allocation::{allocation_granted, allocation_refused, reserved};
use crate::counting::{
    count, count_bounds, count_take_next, total, total_at_least, total_push, total_update,
};
use crate::io_uring::error::IoUringError;
use crate::io_uring::request::{next_generation, not_before, successor};
use crate::io_uring::setup::{RingId, IORING_MAX_CQ_ENTRIES};
use crate::io_uring::setup::IORING_MAX_FIXED_FILES;
use crate::sharing::share;
use std::sync::Arc;
use vstd::prelude::*;

verus! {

/// Caller-allocated nonzero identity for one fixed-file registration epoch.
///
/// A ring must never reuse an identity, including after unregister followed by
/// a new `REGISTER_FILES`, so old lease tokens cannot match a rebuilt table.
#[derive(Clone, Copy, Debug, Eq, Hash, Ord, PartialEq, PartialOrd, Structural)]
pub struct FileTableId(pub(crate) u64);

impl FileTableId {
    #[verifier::type_invariant]
    pub(crate) open spec fn nonzero(self) -> bool {
        self.0 != 0
    }

    /// Builds a registration-epoch identity, rejecting zero.
    pub fn new(raw: u64) -> (result: Result<Self, IoUringError>)
        ensures
            match result {
                Ok(id) => raw != 0 && id.get() == raw,
                Err(error) => raw == 0 && error == IoUringError::InvalidIdentity,
            },
    {
        if raw != 0 {
            Ok(Self(raw))
        } else {
            Err(IoUringError::InvalidIdentity)
        }
    }

    /// Raw consumer identity value.
    #[verifier::when_used_as_spec(spec_get)]
    pub fn get(self) -> (result: u64)
        ensures
            result == self.spec_get(),
            result != 0,
    {
        proof {
            use_type_invariant(&self);
        }
        self.0
    }

    /// Specification counterpart of [`Self::get`].
    pub open(crate) spec fn spec_get(self) -> u64 {
        self.0
    }
}

/// Bounded fixed-file table index copied from an SQE.
#[derive(Clone, Copy, Debug, Eq, Hash, Ord, PartialEq, PartialOrd, Structural)]
pub struct FileSlot(pub(crate) u32);

impl FileSlot {
    /// Builds a slot value; table lookup performs capacity validation.
    pub fn new(raw: u32) -> (result: Self)
        ensures
            result.get() == raw,
    {
        Self(raw)
    }

    /// Raw Linux fixed-file index.
    #[verifier::when_used_as_spec(spec_get)]
    pub fn get(self) -> (result: u32)
        ensures
            result == self.spec_get(),
    {
        self.0
    }

    /// Specification counterpart of [`Self::get`].
    pub open(crate) spec fn spec_get(self) -> u32 {
        self.0
    }
}

/// Generation-safe identity of one installed registered file.
#[derive(Clone, Copy, Debug, Eq, Hash, Ord, PartialEq, PartialOrd, Structural)]
pub struct RegisteredFileToken {
    pub(crate) ring: RingId,
    pub(crate) table: FileTableId,
    pub(crate) slot: FileSlot,
    pub(crate) generation: u64,
}

impl RegisteredFileToken {
    /// Ring which owns this resource identity.
    #[verifier::when_used_as_spec(spec_ring)]
    pub fn ring(self) -> (result: RingId)
        ensures
            result == self.spec_ring(),
    {
        self.ring
    }

    /// Specification counterpart of [`Self::ring`].
    pub open(crate) spec fn spec_ring(self) -> RingId {
        self.ring
    }

    /// Non-reused registration epoch which owns the slot.
    #[verifier::when_used_as_spec(spec_table)]
    pub fn table(self) -> (result: FileTableId)
        ensures
            result == self.spec_table(),
    {
        self.table
    }

    /// Specification counterpart of [`Self::table`].
    pub open(crate) spec fn spec_table(self) -> FileTableId {
        self.table
    }

    /// Fixed-file slot.
    #[verifier::when_used_as_spec(spec_slot)]
    pub fn slot(self) -> (result: FileSlot)
        ensures
            result == self.spec_slot(),
    {
        self.slot
    }

    /// Specification counterpart of [`Self::slot`].
    pub open(crate) spec fn spec_slot(self) -> FileSlot {
        self.slot
    }

    /// Nonzero slot generation.
    #[verifier::when_used_as_spec(spec_generation)]
    pub fn generation(self) -> (result: u64)
        ensures
            result == self.spec_generation(),
    {
        self.generation
    }

    /// Specification counterpart of [`Self::generation`].
    pub open(crate) spec fn spec_generation(self) -> u64 {
        self.generation
    }
}

/// Table publication and retirement phase.
#[derive(Clone, Copy, Debug, Eq, PartialEq, Structural)]
pub enum FileTableLifecycle {
    /// Slots may be populated but are not lookup-visible.
    Building,
    /// Installed slots are visible to fixed-file SQEs.
    Published,
    /// Lookups are stopped while outstanding leases release.
    Retiring,
    /// Every owner and lease has left the table.
    Closed,
}

/// Finite table snapshot for registration and close progress.
#[derive(Clone, Copy, Debug, Eq, PartialEq, Structural)]
pub struct FileTableProgress {
    pub(crate) lifecycle: FileTableLifecycle,
    pub(crate) capacity: u32,
    pub(crate) installed: u32,
    pub(crate) leases: u32,
    pub(crate) lease_capacity: u32,
}

impl FileTableProgress {
    /// Current publication/retirement phase.
    #[verifier::when_used_as_spec(spec_lifecycle)]
    pub fn lifecycle(self) -> (result: FileTableLifecycle)
        ensures
            result == self.spec_lifecycle(),
    {
        self.lifecycle
    }

    /// Specification counterpart of [`Self::lifecycle`].
    pub open(crate) spec fn spec_lifecycle(self) -> FileTableLifecycle {
        self.lifecycle
    }

    /// Fixed slot capacity.
    #[verifier::when_used_as_spec(spec_capacity)]
    pub fn capacity(self) -> (result: u32)
        ensures
            result == self.spec_capacity(),
    {
        self.capacity
    }

    /// Specification counterpart of [`Self::capacity`].
    pub open(crate) spec fn spec_capacity(self) -> u32 {
        self.capacity
    }

    /// Owners still retained by slots, including retiring owners.
    #[verifier::when_used_as_spec(spec_installed)]
    pub fn installed(self) -> (result: u32)
        ensures
            result == self.spec_installed(),
    {
        self.installed
    }

    /// Specification counterpart of [`Self::installed`].
    pub open(crate) spec fn spec_installed(self) -> u32 {
        self.installed
    }

    /// Outstanding execution leases.
    #[verifier::when_used_as_spec(spec_leases)]
    pub fn leases(self) -> (result: u32)
        ensures
            result == self.spec_leases(),
    {
        self.leases
    }

    /// Specification counterpart of [`Self::leases`].
    pub open(crate) spec fn spec_leases(self) -> u32 {
        self.leases
    }

    /// Maximum simultaneous request-owned file leases.
    #[verifier::when_used_as_spec(spec_lease_capacity)]
    pub fn lease_capacity(self) -> (result: u32)
        ensures
            result == self.spec_lease_capacity(),
    {
        self.lease_capacity
    }

    /// Specification counterpart of [`Self::lease_capacity`].
    pub open(crate) spec fn spec_lease_capacity(self) -> u32 {
        self.lease_capacity
    }

    /// No slot owner or external lease remains.
    pub fn empty(self) -> (result: bool)
        ensures
            result == (self.installed() == 0 && self.leases() == 0),
    {
        self.installed == 0 && self.leases == 0
    }
}

/// Exact registered-file ownership retained by one accepted request.
#[derive(Debug)]
#[must_use]
pub struct RegisteredFileLease<F> {
    pub(crate) token: RegisteredFileToken,
    pub(crate) owner: Arc<F>,
}

impl<F> RegisteredFileLease<F> {
    /// Generation-safe installed resource identity.
    #[verifier::when_used_as_spec(spec_token)]
    pub fn token(&self) -> (result: RegisteredFileToken)
        ensures
            result == self.spec_token(),
    {
        self.token
    }

    /// Specification counterpart of [`Self::token`].
    pub open(crate) spec fn spec_token(&self) -> RegisteredFileToken {
        self.token
    }

    /// Exact retained file description, independent of numeric FD reuse.
    #[verifier::when_used_as_spec(spec_owner)]
    pub fn owner(&self) -> (result: &Arc<F>)
        ensures
            result == self.spec_owner(),
    {
        &self.owner
    }

    /// Specification counterpart of [`Self::owner`].
    pub open(crate) spec fn spec_owner(&self) -> &Arc<F> {
        &self.owner
    }
}

/// File owner removed from lookup and proven free of request leases.
#[derive(Debug)]
#[must_use]
pub struct RetiredFile<F> {
    pub(crate) token: RegisteredFileToken,
    pub(crate) owner: Arc<F>,
}

/// Failed slot installation with ownership returned for lock-external cleanup.
#[derive(Debug)]
pub struct FileInstallError<F> {
    pub(crate) error: IoUringError,
    pub(crate) owner: Arc<F>,
}

impl<F> FileInstallError<F> {
    /// Typed policy failure.
    #[verifier::when_used_as_spec(spec_error)]
    pub fn error(&self) -> (result: IoUringError)
        ensures
            result == self.spec_error(),
    {
        self.error
    }

    /// Specification counterpart of [`Self::error`].
    pub open(crate) spec fn spec_error(&self) -> IoUringError {
        self.error
    }

    /// Owner which was not installed.
    #[verifier::when_used_as_spec(spec_owner)]
    pub fn owner(&self) -> (result: &Arc<F>)
        ensures
            result == self.spec_owner(),
    {
        &self.owner
    }

    /// Specification counterpart of [`Self::owner`].
    pub open(crate) spec fn spec_owner(&self) -> &Arc<F> {
        &self.owner
    }

    /// Recovers ownership for destruction or rollback outside the table lock.
    pub fn into_owner(self) -> (result: Arc<F>)
        ensures
            result == *self.owner(),
    {
        self.owner
    }
}

impl<F> RetiredFile<F> {
    /// Exact retired slot generation.
    #[verifier::when_used_as_spec(spec_token)]
    pub fn token(&self) -> (result: RegisteredFileToken)
        ensures
            result == self.spec_token(),
    {
        self.token
    }

    /// Specification counterpart of [`Self::token`].
    pub open(crate) spec fn spec_token(&self) -> RegisteredFileToken {
        self.token
    }

    /// Retained owner to inspect before destruction.
    #[verifier::when_used_as_spec(spec_owner)]
    pub fn owner(&self) -> (result: &Arc<F>)
        ensures
            result == self.spec_owner(),
    {
        &self.owner
    }

    /// Specification counterpart of [`Self::owner`].
    pub open(crate) spec fn spec_owner(&self) -> &Arc<F> {
        &self.owner
    }

    /// Transfers the final table owner for lock-external destruction.
    pub fn into_owner(self) -> (result: Arc<F>)
        ensures
            result == *self.owner(),
    {
        self.owner
    }
}

/// Result of releasing one registered-file execution lease.
#[derive(Debug)]
pub enum LeaseRelease<F> {
    /// The published slot still retains its owner.
    Active,
    /// Retirement was waiting for this last lease and returned the owner.
    Retired(RetiredFile<F>),
}

/// Failed lease release with the exact lease returned to its caller.
#[derive(Debug)]
pub struct LeaseReleaseError<F> {
    pub(crate) error: IoUringError,
    pub(crate) lease: RegisteredFileLease<F>,
}

impl<F> LeaseReleaseError<F> {
    /// Typed policy failure.
    #[verifier::when_used_as_spec(spec_error)]
    pub fn error(&self) -> (result: IoUringError)
        ensures
            result == self.spec_error(),
    {
        self.error
    }

    /// Specification counterpart of [`Self::error`].
    pub open(crate) spec fn spec_error(&self) -> IoUringError {
        self.error
    }

    /// Lease which was not consumed.
    #[verifier::when_used_as_spec(spec_lease)]
    pub fn lease(&self) -> (result: &RegisteredFileLease<F>)
        ensures
            result == self.spec_lease(),
    {
        &self.lease
    }

    /// Specification counterpart of [`Self::lease`].
    pub open(crate) spec fn spec_lease(&self) -> &RegisteredFileLease<F> {
        &self.lease
    }

    /// Recovers the lease for retry against its originating table.
    pub fn into_lease(self) -> (result: RegisteredFileLease<F>)
        ensures
            result == self.returned_lease(),
    {
        self.lease
    }

    /// The lease that was not consumed.
    pub open(crate) spec fn returned_lease(self) -> RegisteredFileLease<F> {
        self.lease
    }
}

/// One table slot. Without a generation it is exhausted for good.
#[derive(Debug)]
pub struct ResourceSlot<F> {
    /// Generation of the installed owner, or of the next one.
    pub generation: Option<u64>,
    /// Installed owner.
    pub owner: Option<Arc<F>>,
    /// Outstanding leases of the installed owner.
    pub leases: u32,
}

/// Mathematical model of a [`RegisteredFileTable`].
#[verifier::ext_equal]
pub struct FileTableState<F> {
    /// Ring scope of every token.
    pub ring: RingId,
    /// Registration epoch.
    pub id: FileTableId,
    /// Publication and retirement phase.
    pub lifecycle: FileTableLifecycle,
    /// Slots.
    pub slots: Seq<ResourceSlot<F>>,
    /// Next slot the retirement pass examines.
    pub cursor: usize,
    /// Maximum simultaneous leases.
    pub lease_capacity: u32,
    /// Outstanding leases.
    pub leases: u32,
}

impl<F> FileTableState<F> {
    /// The state of a table without owners.
    pub open spec fn empty(ring: RingId, id: FileTableId, capacity: u32, lease_capacity: u32) -> Self {
        FileTableState {
            ring,
            id,
            lifecycle: FileTableLifecycle::Building,
            slots: Seq::new(
                capacity as nat,
                |i: int| ResourceSlot {
                    generation: Some(1),
                    owner: None,
                    leases: 0,
                },
            ),
            cursor: 0,
            lease_capacity,
            leases: 0,
        }
    }

    /// The token names a currently installed owner.
    pub open spec fn names(self, token: RegisteredFileToken) -> bool {
        self.token_error(token) is None
    }

    /// Why a token is not current, if it is not.
    pub open spec fn token_error(self, token: RegisteredFileToken) -> Option<IoUringError> {
        let slot = token.slot().get() as int;
        if token.ring() != self.ring || token.table() != self.id {
            Some(IoUringError::UnknownFileLease)
        } else if slot >= self.slots.len() {
            Some(IoUringError::InvalidFileSlot)
        } else if self.slots[slot].generation != Some(token.generation())
            || self.slots[slot].owner is None {
            Some(IoUringError::UnknownFileLease)
        } else {
            None
        }
    }

    /// The slot that a token names.
    pub open spec fn slot(self, token: RegisteredFileToken) -> ResourceSlot<F> {
        self.slots[token.slot().get() as int]
    }

    /// The state with one slot replaced.
    pub open spec fn with_slot(self, slot: FileSlot, contents: ResourceSlot<F>) -> Self {
        FileTableState { slots: self.slots.update(slot.get() as int, contents), ..self }
    }

    /// Why lookups are refused in the current phase, if they are.
    pub open spec fn lookup_error(self) -> Option<IoUringError> {
        match self.lifecycle {
            FileTableLifecycle::Building => Some(IoUringError::FileTableNotPublished),
            FileTableLifecycle::Published => None,
            FileTableLifecycle::Retiring => Some(IoUringError::Closing),
            FileTableLifecycle::Closed => Some(IoUringError::Closed),
        }
    }

    /// The slot can give up its owner at once.
    pub open spec fn retirable(self, slot: int) -> bool {
        self.slots[slot].owner is Some && self.slots[slot].leases == 0
    }

    /// The state once the owner named by `token` left with its last lease.
    pub open spec fn vacated(self, token: RegisteredFileToken, leases: u32) -> Self {
        FileTableState {
            leases,
            ..self.with_slot(
                token.slot(),
                ResourceSlot {
                    generation: successor(token.generation()),
                    owner: None,
                    leases: 0,
                },
            )
        }
    }

    /// The state with one more or one fewer lease of the named owner.
    pub open spec fn leased(self, token: RegisteredFileToken, change: int) -> Self {
        let slot = self.slot(token);
        FileTableState {
            leases: (self.leases + change) as u32,
            ..self.with_slot(
                token.slot(),
                ResourceSlot { leases: (slot.leases + change) as u32, ..slot },
            )
        }
    }

    /// What holds of every table: the lease count is the sum over the slots and
    /// within its limit, a leased slot has its owner, an owner has a
    /// generation, nothing is leased before publication, and nothing is left
    /// once closed.
    pub open spec fn wf(self) -> bool {
        &&& 1 <= self.slots.len() <= IORING_MAX_FIXED_FILES
        &&& 1 <= self.lease_capacity <= IORING_MAX_CQ_ENTRIES
        &&& self.leases <= self.lease_capacity
        &&& self.leases == total(self.slots, |slot: ResourceSlot<F>| slot.leases as nat)
        &&& self.cursor <= self.slots.len()
        &&& forall|i: int|
            0 <= i < self.slots.len() ==> ({
                let slot = #[trigger] self.slots[i];
                &&& slot.leases > 0 ==> slot.owner is Some
                &&& slot.owner is Some ==> slot.generation is Some
                &&& self.lifecycle == FileTableLifecycle::Closed ==> slot.owner is None
            })
        &&& self.lifecycle == FileTableLifecycle::Building ==> self.leases == 0
        &&& self.lifecycle == FileTableLifecycle::Closed ==> self.leases == 0
    }

    /// Every slot kept its generation or moved to a later one.
    pub open spec fn advances_to(self, next: Self) -> bool {
        &&& next.ring == self.ring
        &&& next.id == self.id
        &&& next.lease_capacity == self.lease_capacity
        &&& next.slots.len() == self.slots.len()
        &&& forall|i: int|
            0 <= i < self.slots.len() ==> not_before(
                (#[trigger] self.slots[i]).generation,
                next.slots[i].generation,
            )
    }

    /// The slot of the token has moved past its generation.
    pub open spec fn expired(self, token: RegisteredFileToken) -> bool {
        &&& token.slot().get() < self.slots.len()
        &&& match self.slots[token.slot().get() as int].generation {
            Some(generation) => token.generation() < generation,
            None => true,
        }
    }
}

/// A token whose owner retired is never accepted again.
pub proof fn retired_file_tokens_stay_retired<F>(
    state: FileTableState<F>,
    next: FileTableState<F>,
    token: RegisteredFileToken,
)
    requires
        state.advances_to(next),
        state.expired(token),
    ensures
        !state.names(token),
        next.expired(token),
        !next.names(token),
{
    assert(not_before(
        state.slots[token.slot().get() as int].generation,
        next.slots[token.slot().get() as int].generation,
    ));
}

/// Replacing a slot keeps the table well formed while the lease counts agree.
proof fn replacing_a_file_slot<F>(
    state: FileTableState<F>,
    slot: FileSlot,
    contents: ResourceSlot<F>,
    leases: u32,
)
    requires
        state.wf(),
        slot.get() < state.slots.len(),
        leases == state.leases - state.slots[slot.get() as int].leases + contents.leases,
        leases <= state.lease_capacity,
        contents.leases > 0 ==> contents.owner is Some,
        contents.owner is Some ==> contents.generation is Some,
        not_before(state.slots[slot.get() as int].generation, contents.generation),
        state.lifecycle == FileTableLifecycle::Building ==> leases == 0,
        state.lifecycle != FileTableLifecycle::Closed,
    ensures
        (FileTableState { leases, ..state.with_slot(slot, contents) }).wf(),
        state.advances_to(FileTableState { leases, ..state.with_slot(slot, contents) }),
{
    total_update(
        state.slots,
        slot.get() as int,
        contents,
        |s: ResourceSlot<F>| s.leases as nat,
    );
}

/// Fixed-capacity registered-file ownership and retirement state.
///
/// Slots own real `Arc<F>` values. Acquiring a lease clones only the `Arc`, so
/// accepted work remains bound to the exact open file description after the
/// source numeric descriptor is closed or reused. Construction is the only
/// allocation performed by this table.
#[derive(Debug)]
pub struct RegisteredFileTable<F> {
    ring: RingId,
    id: FileTableId,
    lifecycle: FileTableLifecycle,
    slots: Vec<ResourceSlot<F>>,
    retire_cursor: usize,
    lease_capacity: u32,
    leases: u32,
}

impl<F> View for RegisteredFileTable<F> {
    type V = FileTableState<F>;

    closed spec fn view(&self) -> FileTableState<F> {
        FileTableState {
            ring: self.ring,
            id: self.id,
            lifecycle: self.lifecycle,
            slots: self.slots@,
            cursor: self.retire_cursor,
            lease_capacity: self.lease_capacity,
            leases: self.leases,
        }
    }
}

impl FileTableProgress {
    /// The snapshot describes a table.
    pub open spec fn describes<F>(self, state: FileTableState<F>) -> bool {
        &&& self.lifecycle() == state.lifecycle
        &&& self.capacity() == state.slots.len()
        &&& self.installed() == count(state.slots, |slot: ResourceSlot<F>| slot.owner is Some)
        &&& self.leases() == state.leases
        &&& self.lease_capacity() == state.lease_capacity
    }
}

impl<F> RegisteredFileTable<F> {
    /// Representation invariant of the table.
    pub open spec fn wf(&self) -> bool {
        self@.wf()
    }

    /// Allocates an unpublished fixed-capacity table.
    ///
    /// It fails for want of memory only where the allocator refuses the storage.
    pub fn new(ring: RingId, id: FileTableId, capacity: u32, lease_capacity: u32) -> (result: Result<
        Self,
        IoUringError,
    >)
        ensures
            ({
                let capacity_ok = 1 <= capacity <= IORING_MAX_FIXED_FILES;
                let leases_ok = 1 <= lease_capacity <= IORING_MAX_CQ_ENTRIES;
                match result {
                    Ok(table) => {
                        &&& capacity_ok && leases_ok
                        &&& table.wf()
                        &&& table@ == FileTableState::<F>::empty(ring, id, capacity, lease_capacity)
                        &&& allocation_granted::<ResourceSlot<F>>(capacity as usize)
                    },
                    Err(error) => if !capacity_ok {
                        error == IoUringError::InvalidFileTableCapacity
                    } else if !leases_ok {
                        error == IoUringError::InvalidFileLeaseCapacity
                    } else {
                        &&& error == IoUringError::AllocationFailed
                        &&& allocation_refused::<ResourceSlot<F>>(capacity as usize)
                    },
                }
            }),
    {
        if capacity == 0 || capacity > IORING_MAX_FIXED_FILES {
            return Err(IoUringError::InvalidFileTableCapacity);
        }
        if lease_capacity == 0 || lease_capacity > IORING_MAX_CQ_ENTRIES {
            return Err(IoUringError::InvalidFileLeaseCapacity);
        }
        let length = capacity as usize;
        let mut slots: Vec<ResourceSlot<F>> = match reserved(length) {
            Some(slots) => slots,
            None => return Err(IoUringError::AllocationFailed),
        };
        let mut filled: usize = 0;
        while filled < length
            invariant
                filled <= length,
                slots.len() == filled,
                total(slots@, |slot: ResourceSlot<F>| slot.leases as nat) == 0,
                forall|i: int|
                    0 <= i < filled ==> (#[trigger] slots@[i]) == (ResourceSlot::<F> {
                        generation: Some(1),
                        owner: None,
                        leases: 0,
                    }),
            decreases length - filled,
        {
            let slot = ResourceSlot {
                generation: Some(1),
                owner: None,
                leases: 0,
            };
            proof {
                total_push(slots@, slot, |slot: ResourceSlot<F>| slot.leases as nat);
            }
            slots.push(slot);
            filled = filled + 1;
        }
        let table = Self {
            ring,
            id,
            lifecycle: FileTableLifecycle::Building,
            slots,
            retire_cursor: 0,
            lease_capacity,
            leases: 0,
        };
        assert(table@ =~= FileTableState::<F>::empty(ring, id, capacity, lease_capacity));
        Ok(table)
    }

    /// Non-reused registration epoch carried by every table token.
    pub fn id(&self) -> (result: FileTableId)
        ensures
            result == self@.id,
    {
        self.id
    }

    /// Installs one exact file owner before table publication.
    pub fn install(&mut self, slot: FileSlot, owner: Arc<F>) -> (result: Result<
        RegisteredFileToken,
        FileInstallError<F>,
    >)
        requires
            old(self).wf(),
        ensures
            final(self).wf(),
            old(self)@.advances_to(final(self)@),
            match result {
                Ok(token) => {
                    &&& old(self)@.lifecycle == FileTableLifecycle::Building
                    &&& slot.get() < old(self)@.slots.len()
                    &&& old(self)@.slots[slot.get() as int].owner is None
                    &&& token.ring() == old(self)@.ring
                    &&& token.table() == old(self)@.id
                    &&& token.slot() == slot
                    &&& old(self)@.slots[slot.get() as int].generation == Some(token.generation())
                    &&& final(self)@ == old(self)@.with_slot(
                        slot,
                        ResourceSlot {
                            owner: Some(owner),
                            ..old(self)@.slots[slot.get() as int]
                        },
                    )
                    &&& final(self)@.names(token)
                },
                Err(failure) => {
                    &&& final(self)@ == old(self)@
                    &&& *failure.owner() == owner
                    &&& {
                        match old(self)@.lifecycle {
                            FileTableLifecycle::Published => failure.error() == IoUringError::Busy,
                            FileTableLifecycle::Retiring => failure.error() == IoUringError::Closing,
                            FileTableLifecycle::Closed => failure.error() == IoUringError::Closed,
                            FileTableLifecycle::Building => if slot.get() >= old(
                                self,
                            )@.slots.len() {
                                failure.error() == IoUringError::InvalidFileSlot
                            } else if old(self)@.slots[slot.get() as int].owner is Some {
                                failure.error() == IoUringError::FileSlotOccupied
                            } else {
                                &&& old(self)@.slots[slot.get() as int].generation is None
                                &&& failure.error() == IoUringError::GenerationExhausted
                            },
                        }
                    }
                },
            },
    {
        match self.lifecycle {
            FileTableLifecycle::Building => {},
            FileTableLifecycle::Published => return Err(
                FileInstallError { error: IoUringError::Busy, owner },
            ),
            FileTableLifecycle::Retiring => return Err(
                FileInstallError { error: IoUringError::Closing, owner },
            ),
            FileTableLifecycle::Closed => return Err(
                FileInstallError { error: IoUringError::Closed, owner },
            ),
        }
        let index = slot.0 as usize;
        if index >= self.slots.len() {
            return Err(FileInstallError { error: IoUringError::InvalidFileSlot, owner });
        }
        if self.slots[index].owner.is_some() {
            return Err(FileInstallError { error: IoUringError::FileSlotOccupied, owner });
        }
        let generation = match self.slots[index].generation {
            Some(generation) => generation,
            None => return Err(
                FileInstallError { error: IoUringError::GenerationExhausted, owner },
            ),
        };
        let ghost before = self@;
        let ghost installed = ResourceSlot {
            owner: Some(owner),
            ..before.slots[slot.get() as int]
        };
        proof {
            replacing_a_file_slot(before, slot, installed, before.leases);
        }
        self.slots[index].owner = Some(owner);
        assert(self@ == before.with_slot(slot, installed));
        Ok(RegisteredFileToken { ring: self.ring, table: self.id, slot, generation })
    }

    /// Makes every installed owner lookup-visible in one policy transition.
    pub fn publish(&mut self) -> (result: Result<FileTableProgress, IoUringError>)
        requires
            old(self).wf(),
        ensures
            final(self).wf(),
            old(self)@.advances_to(final(self)@),
            match result {
                Ok(progress) => {
                    &&& old(self)@.lifecycle == FileTableLifecycle::Building || old(self)@.lifecycle
                        == FileTableLifecycle::Published
                    &&& final(self)@ == FileTableState {
                        lifecycle: FileTableLifecycle::Published,
                        ..old(self)@
                    }
                    &&& progress.describes(final(self)@)
                },
                Err(error) => {
                    &&& final(self)@ == old(self)@
                    &&& match old(self)@.lifecycle {
                        FileTableLifecycle::Retiring => error == IoUringError::Closing,
                        FileTableLifecycle::Closed => error == IoUringError::Closed,
                        _ => false,
                    }
                },
            },
    {
        match self.lifecycle {
            FileTableLifecycle::Building => {
                self.lifecycle = FileTableLifecycle::Published;
            },
            FileTableLifecycle::Published => {},
            FileTableLifecycle::Retiring => return Err(IoUringError::Closing),
            FileTableLifecycle::Closed => return Err(IoUringError::Closed),
        }
        self.progress()
    }

    fn check_published(&self) -> (result: Result<(), IoUringError>)
        ensures
            result == match self@.lookup_error() {
                Some(error) => Err::<(), IoUringError>(error),
                None => Ok(()),
            },
    {
        match self.lifecycle {
            FileTableLifecycle::Building => Err(IoUringError::FileTableNotPublished),
            FileTableLifecycle::Published => Ok(()),
            FileTableLifecycle::Retiring => Err(IoUringError::Closing),
            FileTableLifecycle::Closed => Err(IoUringError::Closed),
        }
    }

    /// Returns the current exact token for an installed, published slot.
    pub fn token(&self, slot: FileSlot) -> (result: Result<RegisteredFileToken, IoUringError>)
        requires
            self.wf(),
        ensures
            match result {
                Ok(token) => {
                    &&& self@.lookup_error() is None
                    &&& token.slot() == slot
                    &&& self@.names(token)
                },
                Err(error) => match self@.lookup_error() {
                    Some(refusal) => error == refusal,
                    None => if slot.get() >= self@.slots.len() {
                        error == IoUringError::InvalidFileSlot
                    } else {
                        &&& self@.slots[slot.get() as int].owner is None
                        &&& error == IoUringError::FileSlotEmpty
                    },
                },
            },
    {
        self.check_published()?;
        let index = slot.0 as usize;
        if index >= self.slots.len() {
            return Err(IoUringError::InvalidFileSlot);
        }
        if self.slots[index].owner.is_none() {
            return Err(IoUringError::FileSlotEmpty);
        }
        assert(self@.slots[index as int].owner is Some);
        let generation = self.slots[index].generation.unwrap();
        Ok(RegisteredFileToken { ring: self.ring, table: self.id, slot, generation })
    }

    /// Acquires a request-owned lease by slot.
    pub fn acquire(&mut self, slot: FileSlot) -> (result: Result<
        RegisteredFileLease<F>,
        IoUringError,
    >)
        requires
            old(self).wf(),
        ensures
            final(self).wf(),
            old(self)@.advances_to(final(self)@),
            match result {
                Ok(lease) => {
                    &&& lease.token().slot() == slot
                    &&& old(self)@.grants(lease)
                    &&& final(self)@ == old(self)@.leased(lease.token(), 1)
                },
                Err(error) => {
                    &&& final(self)@ == old(self)@
                    &&& match old(self)@.lookup_error() {
                        Some(refusal) => error == refusal,
                        None => if slot.get() >= old(self)@.slots.len() {
                            error == IoUringError::InvalidFileSlot
                        } else if old(self)@.slots[slot.get() as int].owner is None {
                            error == IoUringError::FileSlotEmpty
                        } else {
                            &&& old(self)@.leases == old(self)@.lease_capacity
                            &&& error == IoUringError::FileLeaseCapacityExceeded
                        },
                    }
                },
            },
    {
        let token = self.token(slot)?;
        self.acquire_token(token)
    }

    /// Acquires a lease only if an exact token is still current and visible.
    pub fn acquire_token(&mut self, token: RegisteredFileToken) -> (result: Result<
        RegisteredFileLease<F>,
        IoUringError,
    >)
        requires
            old(self).wf(),
        ensures
            final(self).wf(),
            old(self)@.advances_to(final(self)@),
            match result {
                Ok(lease) => {
                    &&& lease.token() == token
                    &&& old(self)@.grants(lease)
                    &&& final(self)@ == old(self)@.leased(token, 1)
                },
                Err(error) => {
                    &&& final(self)@ == old(self)@
                    &&& match old(self)@.lookup_error() {
                        Some(refusal) => error == refusal,
                        None => match old(self)@.token_error(token) {
                            Some(refusal) => error == refusal,
                            None => {
                                &&& old(self)@.leases == old(self)@.lease_capacity
                                &&& error == IoUringError::FileLeaseCapacityExceeded
                            },
                        },
                    }
                },
            },
    {
        self.check_published()?;
        self.validate_token(token)?;
        if self.leases >= self.lease_capacity {
            return Err(IoUringError::FileLeaseCapacityExceeded);
        }
        let ghost before = self@;
        let index = token.slot.0 as usize;
        assert(before.slots[index as int].owner is Some);
        proof {
            total_at_least(
                before.slots,
                index as int,
                |slot: ResourceSlot<F>| slot.leases as nat,
            );
            replacing_a_file_slot(
                before,
                token.slot,
                ResourceSlot {
                    leases: (before.slot(token).leases + 1) as u32,
                    ..before.slot(token)
                },
                (before.leases + 1) as u32,
            );
        }
        let owner = match &self.slots[index].owner {
            Some(owner) => share(owner),
            None => return Err(IoUringError::FileSlotEmpty),
        };
        self.slots[index].leases = self.slots[index].leases + 1;
        self.leases = self.leases + 1;
        assert(self@ =~= before.leased(token, 1));
        Ok(RegisteredFileLease { token, owner })
    }

    /// Stops new lookups and marks every installed slot for retirement.
    pub fn begin_retire(&mut self) -> (result: Result<FileTableProgress, IoUringError>)
        requires
            old(self).wf(),
        ensures
            final(self).wf(),
            old(self)@.advances_to(final(self)@),
            final(self)@ == match old(self)@.lifecycle {
                FileTableLifecycle::Building | FileTableLifecycle::Published => FileTableState {
                    lifecycle: FileTableLifecycle::Retiring,
                    cursor: 0,
                    ..old(self)@
                },
                _ => old(self)@,
            },
            result matches Ok(progress) && progress.describes(final(self)@),
    {
        match self.lifecycle {
            FileTableLifecycle::Building | FileTableLifecycle::Published => {
                self.lifecycle = FileTableLifecycle::Retiring;
                self.retire_cursor = 0;
            },
            FileTableLifecycle::Retiring | FileTableLifecycle::Closed => {},
        }
        self.progress()
    }

    /// Removes one retirement-ready owner without destroying it in the table.
    ///
    /// A slot with outstanding leases reports `Busy`; its last lease release
    /// will instead return the retired owner.
    pub fn retire(&mut self, token: RegisteredFileToken) -> (result: Result<
        RetiredFile<F>,
        IoUringError,
    >)
        requires
            old(self).wf(),
        ensures
            final(self).wf(),
            old(self)@.advances_to(final(self)@),
            match result {
                Ok(retired) => {
                    &&& old(self)@.lifecycle == FileTableLifecycle::Retiring
                    &&& old(self)@.names(token)
                    &&& old(self)@.slot(token).leases == 0
                    &&& retired.token() == token
                    &&& Some(*retired.owner()) == old(self)@.slot(token).owner
                    &&& final(self)@ == old(self)@.vacated(token, old(self)@.leases)
                    &&& final(self)@.expired(token)
                },
                Err(error) => {
                    &&& final(self)@ == old(self)@
                    &&& if old(self)@.lifecycle != FileTableLifecycle::Retiring {
                        error == IoUringError::InvalidLifecycleTransition
                    } else {
                        match old(self)@.token_error(token) {
                            Some(refusal) => error == refusal,
                            None => old(self)@.slot(token).leases > 0 && error
                                == IoUringError::Busy,
                        }
                    }
                },
            },
    {
        if self.lifecycle != FileTableLifecycle::Retiring {
            return Err(IoUringError::InvalidLifecycleTransition);
        }
        self.validate_token(token)?;
        let index = token.slot.0 as usize;
        if self.slots[index].leases != 0 {
            return Err(IoUringError::Busy);
        }
        let ghost before = self@;
        proof {
            replacing_a_file_slot(
                before,
                token.slot,
                ResourceSlot {
                    generation: successor(token.generation),
                    owner: None,
                    leases: 0,
                },
                before.leases,
            );
        }
        let owner = self.slots[index].owner.take().unwrap();
        self.slots[index].generation = next_generation(token.generation);
        assert(self@ =~= before.vacated(token, before.leases));
        Ok(RetiredFile { token, owner })
    }

    /// Returns the next installed slot that can retire immediately.
    ///
    /// Each slot is inspected at most once across the retirement pass. Slots
    /// skipped for live leases are completed by their last `release` call.
    pub fn next_retirable(&mut self) -> (result: Result<Option<RegisteredFileToken>, IoUringError>)
        requires
            old(self).wf(),
        ensures
            final(self).wf(),
            old(self)@.advances_to(final(self)@),
            match result {
                Ok(Some(token)) => {
                    let index = token.slot().get();
                    &&& old(self)@.lifecycle == FileTableLifecycle::Retiring
                    &&& old(self)@.cursor <= index
                    &&& old(self)@.names(token)
                    &&& old(self)@.retirable(index as int)
                    &&& forall|i: int|
                        old(self)@.cursor <= i < index ==> !#[trigger] old(self)@.retirable(i)
                    &&& final(self)@ == FileTableState { cursor: (index + 1) as usize, ..old(self)@ }
                },
                Ok(None) => {
                    &&& old(self)@.lifecycle == FileTableLifecycle::Retiring
                    &&& forall|i: int|
                        old(self)@.cursor <= i < old(self)@.slots.len() ==> !#[trigger] old(
                            self,
                        )@.retirable(i)
                    &&& final(self)@ == FileTableState {
                        cursor: old(self)@.slots.len() as usize,
                        ..old(self)@
                    }
                },
                Err(error) => {
                    &&& old(self)@.lifecycle != FileTableLifecycle::Retiring
                    &&& error == IoUringError::InvalidLifecycleTransition
                    &&& final(self)@ == old(self)@
                },
            },
    {
        if self.lifecycle != FileTableLifecycle::Retiring {
            return Err(IoUringError::InvalidLifecycleTransition);
        }
        let ghost before = self@;
        while self.retire_cursor < self.slots.len()
            invariant
                self.wf(),
                before.wf(),
                before == old(self)@,
                before.lifecycle == FileTableLifecycle::Retiring,
                before.cursor <= self.retire_cursor,
                self@ == (FileTableState { cursor: self.retire_cursor, ..before }),
                forall|i: int|
                    before.cursor <= i < self.retire_cursor ==> !#[trigger] before.retirable(i),
            decreases before.slots.len() - self.retire_cursor,
        {
            let index = self.retire_cursor;
            self.retire_cursor = index + 1;
            assert(self.slots@[index as int] == before.slots[index as int]);
            if self.slots[index].owner.is_some() && self.slots[index].leases == 0 {
                assert(before.retirable(index as int));
                let generation = self.slots[index].generation.unwrap();
                return Ok(
                    Some(
                        RegisteredFileToken {
                            ring: self.ring,
                            table: self.id,
                            slot: FileSlot::new(index as u32),
                            generation,
                        },
                    ),
                );
            }
        }
        Ok(None)
    }

    /// Releases one execution lease and, when last, transfers a retiring owner.
    pub fn release(&mut self, lease: RegisteredFileLease<F>) -> (result: Result<
        LeaseRelease<F>,
        LeaseReleaseError<F>,
    >)
        requires
            old(self).wf(),
        ensures
            final(self).wf(),
            old(self)@.advances_to(final(self)@),
            ({
                let token = lease.token();
                let slot = old(self)@.slot(token);
                let last = old(self)@.lifecycle == FileTableLifecycle::Retiring && slot.leases == 1;
                match result {
                    Ok(LeaseRelease::Retired(retired)) => {
                        &&& old(self)@.names(token)
                        &&& last
                        &&& retired.token() == token
                        &&& Some(*retired.owner()) == slot.owner
                        &&& final(self)@ == old(self)@.vacated(
                            token,
                            (old(self)@.leases - 1) as u32,
                        )
                        &&& final(self)@.expired(token)
                    },
                    Ok(LeaseRelease::Active) => {
                        &&& old(self)@.names(token)
                        &&& slot.leases > 0
                        &&& !last
                        &&& final(self)@ == old(self)@.leased(token, -1)
                    },
                    Err(failure) => {
                        &&& final(self)@ == old(self)@
                        &&& failure.returned_lease() == lease
                        &&& match old(self)@.token_error(token) {
                            Some(refusal) => failure.error() == refusal,
                            None => slot.leases == 0 && failure.error()
                                == IoUringError::UnknownFileLease,
                        }
                    },
                }
            }),
    {
        let token = lease.token;
        if let Err(error) = self.validate_token(token) {
            return Err(LeaseReleaseError { error, lease });
        }
        let index = token.slot.0 as usize;
        if self.slots[index].leases == 0 {
            return Err(LeaseReleaseError { error: IoUringError::UnknownFileLease, lease });
        }
        let ghost before = self@;
        proof {
            total_at_least(
                before.slots,
                index as int,
                |slot: ResourceSlot<F>| slot.leases as nat,
            );
            assert(before.slots[index as int].owner is Some);
        }
        if self.lifecycle == FileTableLifecycle::Retiring && self.slots[index].leases == 1 {
            proof {
                replacing_a_file_slot(
                    before,
                    token.slot,
                    ResourceSlot {
                        generation: successor(token.generation),
                        owner: None,
                        leases: 0,
                    },
                    (before.leases - 1) as u32,
                );
            }
            let owner = self.slots[index].owner.take().unwrap();
            self.slots[index].leases = 0;
            self.slots[index].generation = next_generation(token.generation);
            self.leases = self.leases - 1;
            assert(self@ =~= before.vacated(token, (before.leases - 1) as u32));
            Ok(LeaseRelease::Retired(RetiredFile { token, owner }))
        } else {
            proof {
                replacing_a_file_slot(
                    before,
                    token.slot,
                    ResourceSlot {
                        leases: (before.slot(token).leases - 1) as u32,
                        ..before.slot(token)
                    },
                    (before.leases - 1) as u32,
                );
            }
            self.slots[index].leases = self.slots[index].leases - 1;
            self.leases = self.leases - 1;
            assert(self@ =~= before.leased(token, -1));
            Ok(LeaseRelease::Active)
        }
    }

    /// Completes unregister/close after all owners and leases have retired.
    pub fn finish_retire(&mut self) -> (result: Result<(), IoUringError>)
        requires
            old(self).wf(),
        ensures
            final(self).wf(),
            old(self)@.advances_to(final(self)@),
            ({
                let empty = forall|i: int|
                    0 <= i < old(self)@.slots.len() ==> (#[trigger] old(self)@.slots[i]).owner is None;
                match old(self)@.lifecycle {
                    FileTableLifecycle::Closed => result == Ok::<(), IoUringError>(()) && final(self)@
                        == old(self)@,
                    FileTableLifecycle::Retiring => if empty {
                        &&& result == Ok::<(), IoUringError>(())
                        &&& final(self)@ == FileTableState {
                            lifecycle: FileTableLifecycle::Closed,
                            ..old(self)@
                        }
                    } else {
                        &&& result == Err::<(), IoUringError>(IoUringError::Busy)
                        &&& final(self)@ == old(self)@
                    },
                    _ => result == Err::<(), IoUringError>(IoUringError::InvalidLifecycleTransition)
                        && final(self)@ == old(self)@,
                }
            }),
    {
        if self.lifecycle == FileTableLifecycle::Closed {
            return Ok(());
        }
        if self.lifecycle != FileTableLifecycle::Retiring {
            return Err(IoUringError::InvalidLifecycleTransition);
        }
        proof {
            count_bounds(self@.slots, |slot: ResourceSlot<F>| slot.owner is Some);
            let empty = forall|i: int|
                0 <= i < self@.slots.len() ==> (#[trigger] self@.slots[i]).owner is None;
            if empty {
                no_leases(self@.slots);
            }
        }
        let progress = self.progress()?;
        if !progress.empty() {
            return Err(IoUringError::Busy);
        }
        let ghost before = self@;
        self.lifecycle = FileTableLifecycle::Closed;
        Ok(())
    }

    /// Returns finite resource-retirement progress.
    pub fn progress(&self) -> (result: Result<FileTableProgress, IoUringError>)
        requires
            self.wf(),
        ensures
            result matches Ok(progress) && progress.describes(self@),
    {
        let ghost owned = |slot: ResourceSlot<F>| slot.owner is Some;
        let mut installed: u32 = 0;
        let mut i: usize = 0;
        while i < self.slots.len()
            invariant
                self.wf(),
                self@.slots == self.slots@,
                i <= self.slots.len(),
                installed <= i,
                installed == count(self.slots@.take(i as int), owned),
                owned == (|slot: ResourceSlot<F>| slot.owner is Some),
            decreases self.slots.len() - i,
        {
            proof {
                count_take_next(self.slots@, i as int, owned);
            }
            if self.slots[i].owner.is_some() {
                installed = installed + 1;
            }
            i = i + 1;
        }
        assert(self.slots@.take(i as int) =~= self.slots@);
        Ok(
            FileTableProgress {
                lifecycle: self.lifecycle,
                capacity: self.slots.len() as u32,
                installed,
                leases: self.leases,
                lease_capacity: self.lease_capacity,
            },
        )
    }

    fn validate_token(&self, token: RegisteredFileToken) -> (result: Result<(), IoUringError>)
        ensures
            result == match self@.token_error(token) {
                Some(error) => Err::<(), IoUringError>(error),
                None => Ok(()),
            },
    {
        if token.ring != self.ring || token.table != self.id {
            return Err(IoUringError::UnknownFileLease);
        }
        let index = token.slot.0 as usize;
        if index >= self.slots.len() {
            return Err(IoUringError::InvalidFileSlot);
        }
        let current = match self.slots[index].generation {
            Some(generation) => generation == token.generation,
            None => false,
        };
        if !current || self.slots[index].owner.is_none() {
            return Err(IoUringError::UnknownFileLease);
        }
        Ok(())
    }
}

impl<F> FileTableState<F> {
    /// The lease is what a current token is granted: the installed owner, while
    /// the lease budget lasts.
    pub open spec fn grants(self, lease: RegisteredFileLease<F>) -> bool {
        &&& self.lookup_error() is None
        &&& self.names(lease.token())
        &&& self.leases < self.lease_capacity
        &&& Some(*lease.owner()) == self.slot(lease.token()).owner
    }
}

/// Without leased slots the sum of leases is zero.
proof fn no_leases<F>(slots: Seq<ResourceSlot<F>>)
    requires
        forall|i: int|
            0 <= i < slots.len() ==> ((#[trigger] slots[i]).leases > 0 ==> slots[i].owner is Some),
        forall|i: int| 0 <= i < slots.len() ==> (#[trigger] slots[i]).owner is None,
    ensures
        total(slots, |slot: ResourceSlot<F>| slot.leases as nat) == 0,
    decreases slots.len(),
{
    if slots.len() > 0 {
        let front = slots.drop_last();
        assert forall|i: int| 0 <= i < front.len() implies (#[trigger] front[i]).owner is None
            && front[i].leases == 0 by {
            assert(front[i] == slots[i]);
        }
        no_leases(front);
        assert(slots[slots.len() - 1].leases == 0);
    }
}

/// Leasing and releasing leaves a published table as it was, so the lease
/// budget cannot leak.
pub proof fn release_undoes_acquire_of_file<F>(state: FileTableState<F>, token: RegisteredFileToken)
    requires
        state.wf(),
        state.names(token),
        state.leases < state.lease_capacity,
    ensures
        state.leased(token, 1).leased(token, -1) == state,
{
    total_at_least(
        state.slots,
        token.slot().get() as int,
        |slot: ResourceSlot<F>| slot.leases as nat,
    );
    assert(state.leased(token, 1).leased(token, -1).slots =~= state.slots);
}

} // verus!
