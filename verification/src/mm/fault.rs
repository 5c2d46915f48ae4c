use crate::mm::error::MmError;
use crate::mm::identity::{AddressSpaceId, MappingGeneration, MappingId};
use crate::mm::mapping::MappingSnapshot;
use crate::mm::range::{multiples_do_not_cross, PageSize};
use vstd::prelude::*;

verus! {

/// Typed memory access that caused a page fault.
#[derive(Clone, Copy, Debug, Eq, Hash, PartialEq, Structural)]
pub enum FaultAccess {
    /// Data read.
    Read,
    /// Data write.
    Write,
    /// Instruction fetch.
    Execute,
}

/// Absolute address of the page that faulted.
#[derive(Clone, Copy, Debug, Eq, Hash, Ord, PartialEq, PartialOrd, Structural)]
pub struct FaultPageAddress(pub(crate) usize);

impl FaultPageAddress {
    /// Builds a page address. Zero is a valid address.
    pub fn new(address: usize) -> (result: Self)
        ensures
            result.get() == address,
    {
        Self(address)
    }

    /// Absolute byte address of the page's first byte.
    #[verifier::when_used_as_spec(spec_get)]
    pub fn get(self) -> (result: usize)
        ensures
            result == self.spec_get(),
    {
        self.0
    }

    /// Specification counterpart of [`Self::get`].
    pub open(crate) spec fn spec_get(self) -> usize {
        self.0
    }
}

/// Consumer-owned identity of a fault handler port.
#[derive(Clone, Copy, Debug, Eq, Hash, Ord, PartialEq, PartialOrd, Structural)]
pub struct FaultHandlerId(pub(crate) u64);

impl FaultHandlerId {
    #[verifier::type_invariant]
    pub(crate) open spec fn nonzero(self) -> bool {
        self.0 != 0
    }

    /// Builds the value, rejecting the reserved zero.
    pub fn new(raw: u64) -> (result: Result<Self, MmError>)
        ensures
            match result {
                Ok(value) => raw != 0 && value.get() == raw,
                Err(error) => raw == 0 && error == MmError::InvalidIdentity,
            },
    {
        if raw == 0 {
            return Err(MmError::InvalidIdentity);
        }
        Ok(Self(raw))
    }

    /// Returns the integer representation.
    #[verifier::when_used_as_spec(spec_get)]
    pub fn get(self) -> (result: u64)
        ensures
            result == self.spec_get(),
            result != 0,
    {
        proof {
            use_type_invariant(&self);
        }
        self.0
    }

    /// Specification counterpart of [`Self::get`].
    pub open(crate) spec fn spec_get(self) -> u64 {
        self.0
    }
}

/// Consumer-owned identity of a queued fault request.
#[derive(Clone, Copy, Debug, Eq, Hash, Ord, PartialEq, PartialOrd, Structural)]
pub struct FaultRequestId(pub(crate) u64);

impl FaultRequestId {
    #[verifier::type_invariant]
    pub(crate) open spec fn nonzero(self) -> bool {
        self.0 != 0
    }

    /// Builds the value, rejecting the reserved zero.
    pub fn new(raw: u64) -> (result: Result<Self, MmError>)
        ensures
            match result {
                Ok(value) => raw != 0 && value.get() == raw,
                Err(error) => raw == 0 && error == MmError::InvalidIdentity,
            },
    {
        if raw == 0 {
            return Err(MmError::InvalidIdentity);
        }
        Ok(Self(raw))
    }

    /// Returns the integer representation.
    #[verifier::when_used_as_spec(spec_get)]
    pub fn get(self) -> (result: u64)
        ensures
            result == self.spec_get(),
            result != 0,
    {
        proof {
            use_type_invariant(&self);
        }
        self.0
    }

    /// Specification counterpart of [`Self::get`].
    pub open(crate) spec fn spec_get(self) -> u64 {
        self.0
    }
}

/// Stable mapping-generation key for one delegated fault page.
#[derive(Clone, Copy, Debug, Eq, Hash, PartialEq, Structural)]
pub struct FaultKey {
    pub(crate) address_space: AddressSpaceId,
    pub(crate) mapping: MappingId,
    pub(crate) generation: MappingGeneration,
    pub(crate) page_address: FaultPageAddress,
    pub(crate) access: FaultAccess,
}

impl FaultKey {
    /// Builds a key from typed mapping facts.
    pub fn new(
        address_space: AddressSpaceId,
        mapping: MappingId,
        generation: MappingGeneration,
        page_address: FaultPageAddress,
        access: FaultAccess,
    ) -> (result: Self)
        ensures
            result.address_space() == address_space,
            result.mapping() == mapping,
            result.generation() == generation,
            result.page_address() == page_address,
            result.access() == access,
    {
        Self { address_space, mapping, generation, page_address, access }
    }

    /// Builds a key for a fault address contained by `snapshot`.
    ///
    /// The key names the faulting page by its absolute address, so it keeps its
    /// identity while a mapping is trimmed or split around that page.
    pub fn from_address(snapshot: MappingSnapshot, address: usize, access: FaultAccess) -> (result:
        Result<Self, MmError>)
        ensures
            match result {
                Ok(key) => {
                    &&& snapshot.range().user_range().contains_address(address)
                    &&& permits(snapshot, access)
                    &&& key.address_space() == snapshot.address_space()
                    &&& key.mapping() == snapshot.mapping()
                    &&& key.generation() == snapshot.generation()
                    &&& key.access() == access
                    &&& is_page_of(
                        key.page_address().get(),
                        address,
                        snapshot.range().page_size(),
                    )
                    &&& key.revalidate_admission(snapshot) is Ok
                },
                Err(error) => if !snapshot.range().user_range().contains_address(address) {
                    error == MmError::RangeNotMapped
                } else {
                    !permits(snapshot, access) && error == MmError::AccessDenied
                },
            },
    {
        if !snapshot.range().user_range().contains_address(address) {
            return Err(MmError::RangeNotMapped);
        }
        match Self::check_access(snapshot, access) {
            Ok(()) => {},
            Err(error) => return Err(error),
        }
        let page_address = snapshot.range().page_size().align_down(address);
        proof {
            use_type_invariant(&snapshot.range);
            multiples_do_not_cross(
                page_address as int,
                snapshot.range().start() as int,
                snapshot.range().page_size().bytes() as int,
            );
        }
        Ok(
            Self::new(
                snapshot.address_space(),
                snapshot.mapping(),
                snapshot.generation(),
                FaultPageAddress::new(page_address),
                access,
            ),
        )
    }

    /// Address-space identity.
    #[verifier::when_used_as_spec(spec_address_space)]
    pub fn address_space(self) -> (result: AddressSpaceId)
        ensures
            result == self.spec_address_space(),
    {
        self.address_space
    }

    /// Specification counterpart of [`Self::address_space`].
    pub open(crate) spec fn spec_address_space(self) -> AddressSpaceId {
        self.address_space
    }

    /// Mapping identity.
    #[verifier::when_used_as_spec(spec_mapping)]
    pub fn mapping(self) -> (result: MappingId)
        ensures
            result == self.spec_mapping(),
    {
        self.mapping
    }

    /// Specification counterpart of [`Self::mapping`].
    pub open(crate) spec fn spec_mapping(self) -> MappingId {
        self.mapping
    }

    /// Mapping generation frozen at fault admission.
    #[verifier::when_used_as_spec(spec_generation)]
    pub fn generation(self) -> (result: MappingGeneration)
        ensures
            result == self.spec_generation(),
    {
        self.generation
    }

    /// Specification counterpart of [`Self::generation`].
    pub open(crate) spec fn spec_generation(self) -> MappingGeneration {
        self.generation
    }

    /// Absolute address of the faulting page.
    #[verifier::when_used_as_spec(spec_page_address)]
    pub fn page_address(self) -> (result: FaultPageAddress)
        ensures
            result == self.spec_page_address(),
    {
        self.page_address
    }

    /// Specification counterpart of [`Self::page_address`].
    pub open(crate) spec fn spec_page_address(self) -> FaultPageAddress {
        self.page_address
    }

    /// Fault access.
    #[verifier::when_used_as_spec(spec_access)]
    pub fn access(self) -> (result: FaultAccess)
        ensures
            result == self.spec_access(),
    {
        self.access
    }

    /// Specification counterpart of [`Self::access`].
    pub open(crate) spec fn spec_access(self) -> FaultAccess {
        self.access
    }

    /// Revalidates identity, generation, and page coverage for a completion.
    ///
    /// A completion may still be published after the mapping's permissions
    /// changed, so access is not checked again.
    #[verifier::when_used_as_spec(spec_revalidate_completion)]
    pub fn revalidate_completion(self, current: MappingSnapshot) -> (result: Result<(), MmError>)
        ensures
            result == self.spec_revalidate_completion(current),
    {
        if self.address_space != current.address_space() || self.mapping != current.mapping()
            || self.generation != current.generation() {
            return Err(MmError::StaleGeneration);
        }
        if !current.range().user_range().contains_address(self.page_address.get()) {
            return Err(MmError::RangeNotMapped);
        }
        if !current.range().page_size().is_aligned(self.page_address.get()) {
            return Err(MmError::Unaligned);
        }
        Ok(())
    }

    /// Specification counterpart of [`Self::revalidate_completion`].
    pub open spec fn spec_revalidate_completion(self, current: MappingSnapshot) -> Result<
        (),
        MmError,
    > {
        if !(self.address_space() == current.address_space() && self.mapping() == current.mapping()
            && self.generation() == current.generation()) {
            Err(MmError::StaleGeneration)
        } else if !current.range().user_range().contains_address(self.page_address().get()) {
            Err(MmError::RangeNotMapped)
        } else if !current.range().page_size().is_aligned(self.page_address().get()) {
            Err(MmError::Unaligned)
        } else {
            Ok(())
        }
    }

    /// Revalidates identity, generation, page coverage, and access before a
    /// fault is admitted.
    #[verifier::when_used_as_spec(spec_revalidate_admission)]
    pub fn revalidate_admission(self, current: MappingSnapshot) -> (result: Result<(), MmError>)
        ensures
            result == self.spec_revalidate_admission(current),
    {
        match self.revalidate_completion(current) {
            Ok(()) => {},
            Err(error) => return Err(error),
        }
        Self::check_access(current, self.access)
    }

    /// Specification counterpart of [`Self::revalidate_admission`].
    pub open spec fn spec_revalidate_admission(self, current: MappingSnapshot) -> Result<
        (),
        MmError,
    > {
        if self.revalidate_completion(current) is Err {
            self.revalidate_completion(current)
        } else if !permits(current, self.access()) {
            Err(MmError::AccessDenied)
        } else {
            Ok(())
        }
    }

    /// Revalidates identity, generation, page coverage, and access.
    #[verifier::when_used_as_spec(spec_revalidate_admission)]
    pub fn revalidate(self, current: MappingSnapshot) -> (result: Result<(), MmError>)
        ensures
            result == self.revalidate_admission(current),
    {
        self.revalidate_admission(current)
    }

    fn check_access(snapshot: MappingSnapshot, access: FaultAccess) -> (result: Result<(), MmError>)
        ensures
            result == if permits(snapshot, access) {
                Ok::<(), MmError>(())
            } else {
                Err::<(), MmError>(MmError::AccessDenied)
            },
    {
        let allowed = match access {
            FaultAccess::Read => snapshot.access().readable(),
            FaultAccess::Write => snapshot.access().writable(),
            FaultAccess::Execute => snapshot.access().executable(),
        };
        if !allowed {
            return Err(MmError::AccessDenied);
        }
        Ok(())
    }
}

/// The snapshot's permissions allow the access.
pub open spec fn permits(snapshot: MappingSnapshot, access: FaultAccess) -> bool {
    match access {
        FaultAccess::Read => snapshot.access().readable(),
        FaultAccess::Write => snapshot.access().writable(),
        FaultAccess::Execute => snapshot.access().executable(),
    }
}

/// `page` is the address of the page that holds `address`.
pub open spec fn is_page_of(page: usize, address: usize, page_size: PageSize) -> bool {
    page_size.is_aligned(page) && page <= address < page + page_size.bytes()
}

/// An address lies in only one page.
pub proof fn pages_are_unique(a: usize, b: usize, address: usize, page_size: PageSize)
    requires
        page_size.valid(),
        is_page_of(a, address, page_size),
        is_page_of(b, address, page_size),
    ensures
        a == b,
{
    multiples_do_not_cross(a as int, b as int, page_size.bytes() as int);
    multiples_do_not_cross(b as int, a as int, page_size.bytes() as int);
}

/// A key keeps its identity when a mapping is trimmed or split around the
/// faulting page: two snapshots of one mapping generation that share a page
/// size give one key for one address, and a snapshot that still holds the page
/// accepts the completion.
pub proof fn keys_survive_splits(
    a: MappingSnapshot,
    b: MappingSnapshot,
    address: usize,
    key: FaultKey,
    other: FaultKey,
)
    requires
        a.range().page_size().valid(),
        a.address_space() == b.address_space(),
        a.mapping() == b.mapping(),
        a.generation() == b.generation(),
        a.range().page_size() == b.range().page_size(),
        key.address_space() == a.address_space() && other.address_space() == b.address_space(),
        key.mapping() == a.mapping() && other.mapping() == b.mapping(),
        key.generation() == a.generation() && other.generation() == b.generation(),
        key.access() == other.access(),
        is_page_of(key.page_address().get(), address, a.range().page_size()),
        is_page_of(other.page_address().get(), address, b.range().page_size()),
    ensures
        key == other,
        b.range().user_range().contains_address(key.page_address().get())
            ==> key.revalidate_completion(b) is Ok,
{
    pages_are_unique(
        key.page_address().get(),
        other.page_address().get(),
        address,
        a.range().page_size(),
    );
}

/// Linux-visible fault classification before a lower mechanism resolves it.
#[derive(Clone, Copy, Debug, Eq, Hash, PartialEq, Structural)]
#[non_exhaustive]
pub enum FaultType {
    /// Missing anonymous/file page.
    Missing,
    /// Minor fault with backing already resident elsewhere.
    Minor,
    /// Write-protect event.
    WriteProtect,
    /// Private COW break.
    Cow,
    /// File-backed fault not delegated to userspace.
    File,
}

/// Immutable request passed to a consumer-owned bounded broker mechanism.
#[derive(Clone, Copy, Debug, Eq, PartialEq, Structural)]
pub struct FaultRequest {
    pub(crate) key: FaultKey,
    pub(crate) handler: FaultHandlerId,
    pub(crate) fault_type: FaultType,
}

impl FaultRequest {
    /// Builds a typed fault request.
    pub fn new(key: FaultKey, handler: FaultHandlerId, fault_type: FaultType) -> (result: Self)
        ensures
            result.key() == key,
            result.handler() == handler,
            result.fault_type() == fault_type,
    {
        Self { key, handler, fault_type }
    }

    /// Stable generation key.
    #[verifier::when_used_as_spec(spec_key)]
    pub fn key(self) -> (result: FaultKey)
        ensures
            result == self.spec_key(),
    {
        self.key
    }

    /// Specification counterpart of [`Self::key`].
    pub open(crate) spec fn spec_key(self) -> FaultKey {
        self.key
    }

    /// Target lower handler identity.
    #[verifier::when_used_as_spec(spec_handler)]
    pub fn handler(self) -> (result: FaultHandlerId)
        ensures
            result == self.spec_handler(),
    {
        self.handler
    }

    /// Specification counterpart of [`Self::handler`].
    pub open(crate) spec fn spec_handler(self) -> FaultHandlerId {
        self.handler
    }

    /// Fault class.
    #[verifier::when_used_as_spec(spec_fault_type)]
    pub fn fault_type(self) -> (result: FaultType)
        ensures
            result == self.spec_fault_type(),
    {
        self.fault_type
    }

    /// Specification counterpart of [`Self::fault_type`].
    pub open(crate) spec fn spec_fault_type(self) -> FaultType {
        self.fault_type
    }
}

/// Stable typed failure disposition.
#[derive(Clone, Copy, Debug, Eq, Hash, PartialEq, Structural)]
#[non_exhaustive]
pub enum FaultFailure {
    /// Linux-visible protection/address failure, normally mapped to SIGSEGV.
    Segmentation,
    /// Backing-object failure, normally mapped to SIGBUS.
    Bus,
    /// Memory pressure prevented resolution.
    OutOfMemory,
    /// Backing I/O failed.
    Io,
    /// Mapping changed and the caller may retry within a finite budget.
    Retry,
}

/// Typed resolver result; it does not contain a frame or page-table object.
#[derive(Clone, Copy, Debug, Eq, PartialEq, Structural)]
#[non_exhaustive]
pub enum FaultDisposition {
    /// Consumer supplies an initialized mechanism-owned page.
    Supply,
    /// Consumer requests a zero-filled page.
    ZeroFill,
    /// Existing backing may continue without supplying a new page.
    Continue,
    /// Consumer requests a write-protection state change.
    WriteProtect,
    /// Typed failure.
    Failure(FaultFailure),
    /// Request was cancelled by its waiter or mapping lifecycle.
    Cancelled,
    /// Handler detached or closed.
    HandlerDetached,
}

/// Explicit finite queue limits consumed by admission policy.
#[derive(Clone, Copy, Debug, Eq, PartialEq, Structural)]
pub struct FaultCapacity {
    pub(crate) per_address_space: u32,
    pub(crate) per_handler: u32,
    pub(crate) global: u32,
}

impl FaultCapacity {
    /// Builds nonzero finite limits.
    pub fn new(per_address_space: u32, per_handler: u32, global: u32) -> (result: Result<
        Self,
        MmError,
    >)
        ensures
            match result {
                Ok(capacity) => {
                    &&& 0 < per_address_space < u32::MAX
                    &&& 0 < per_handler < u32::MAX
                    &&& 0 < global < u32::MAX
                    &&& capacity.per_address_space() == per_address_space
                    &&& capacity.per_handler() == per_handler
                    &&& capacity.global() == global
                },
                Err(error) => if per_address_space == 0 || per_handler == 0 || global == 0 {
                    error == MmError::ZeroLength
                } else {
                    &&& error == MmError::UnboundedLimit
                    &&& per_address_space == u32::MAX || per_handler == u32::MAX || global
                        == u32::MAX
                },
            },
    {
        if per_address_space == 0 || per_handler == 0 || global == 0 {
            return Err(MmError::ZeroLength);
        }
        if per_address_space == u32::MAX || per_handler == u32::MAX || global == u32::MAX {
            return Err(MmError::UnboundedLimit);
        }
        Ok(Self { per_address_space, per_handler, global })
    }

    /// Per-address-space request limit.
    #[verifier::when_used_as_spec(spec_per_address_space)]
    pub fn per_address_space(self) -> (result: u32)
        ensures
            result == self.spec_per_address_space(),
    {
        self.per_address_space
    }

    /// Specification counterpart of [`Self::per_address_space`].
    pub open(crate) spec fn spec_per_address_space(self) -> u32 {
        self.per_address_space
    }

    /// Per-handler request limit.
    #[verifier::when_used_as_spec(spec_per_handler)]
    pub fn per_handler(self) -> (result: u32)
        ensures
            result == self.spec_per_handler(),
    {
        self.per_handler
    }

    /// Specification counterpart of [`Self::per_handler`].
    pub open(crate) spec fn spec_per_handler(self) -> u32 {
        self.per_handler
    }

    /// Global request limit.
    #[verifier::when_used_as_spec(spec_global)]
    pub fn global(self) -> (result: u32)
        ensures
            result == self.spec_global(),
    {
        self.global
    }

    /// Specification counterpart of [`Self::global`].
    pub open(crate) spec fn spec_global(self) -> u32 {
        self.global
    }
}

/// Consumer-supplied current queue load before admitting one request.
#[derive(Clone, Copy, Debug, Eq, PartialEq, Structural)]
pub struct FaultLoad {
    pub(crate) address_space: u32,
    pub(crate) handler: u32,
    pub(crate) global: u32,
}

impl FaultLoad {
    /// Builds exact current counts.
    pub fn new(address_space: u32, handler: u32, global: u32) -> (result: Self)
        ensures
            result.address_space() == address_space,
            result.handler() == handler,
            result.global() == global,
    {
        Self { address_space, handler, global }
    }

    /// Current address-space count.
    #[verifier::when_used_as_spec(spec_address_space)]
    pub fn address_space(self) -> (result: u32)
        ensures
            result == self.spec_address_space(),
    {
        self.address_space
    }

    /// Specification counterpart of [`Self::address_space`].
    pub open(crate) spec fn spec_address_space(self) -> u32 {
        self.address_space
    }

    /// Current handler count.
    #[verifier::when_used_as_spec(spec_handler)]
    pub fn handler(self) -> (result: u32)
        ensures
            result == self.spec_handler(),
    {
        self.handler
    }

    /// Specification counterpart of [`Self::handler`].
    pub open(crate) spec fn spec_handler(self) -> u32 {
        self.handler
    }

    /// Current global count.
    #[verifier::when_used_as_spec(spec_global)]
    pub fn global(self) -> (result: u32)
        ensures
            result == self.spec_global(),
    {
        self.global
    }

    /// Specification counterpart of [`Self::global`].
    pub open(crate) spec fn spec_global(self) -> u32 {
        self.global
    }
}

/// Consumer-owned broker lifecycle observed by policy admission.
#[derive(Clone, Copy, Debug, Eq, PartialEq, Structural)]
pub enum FaultLifecycleState {
    /// Requests may be admitted.
    Open,
    /// Existing requests drain, but new requests are rejected.
    Closing,
    /// Handler has detached and requests must fail/wake.
    Detached,
    /// Broker/port is fully closed.
    Closed,
}

/// Stateless admission policy for a typed fault request.
pub struct FaultAdmission;

impl FaultAdmission {
    /// Revalidates the mapping, then checks lifecycle and all three finite
    /// counts before a task can sleep.
    pub fn check(
        request: FaultRequest,
        current: MappingSnapshot,
        capacity: FaultCapacity,
        load: FaultLoad,
        lifecycle: FaultLifecycleState,
    ) -> (result: Result<FaultAdmissionPermit, MmError>)
        ensures
            match result {
                Ok(permit) => {
                    &&& refusal(request, current, capacity, load, lifecycle) is None
                    &&& permit.request() == request
                },
                Err(error) => refusal(request, current, capacity, load, lifecycle) == Some(error),
            },
    {
        match request.key.revalidate_admission(current) {
            Ok(()) => {},
            Err(error) => return Err(error),
        }
        match lifecycle {
            FaultLifecycleState::Open => {},
            FaultLifecycleState::Closing => return Err(MmError::Closing),
            FaultLifecycleState::Detached => return Err(MmError::TearingDown),
            FaultLifecycleState::Closed => return Err(MmError::Closed),
        }
        if load.address_space >= capacity.per_address_space || load.handler >= capacity.per_handler
            || load.global >= capacity.global {
            return Err(MmError::QuotaExceeded);
        }
        Ok(FaultAdmissionPermit { request })
    }
}

/// Why a fault request is not admitted: the mapping decides first, then the
/// lifecycle, then the finite counts.
pub open spec fn refusal(
    request: FaultRequest,
    current: MappingSnapshot,
    capacity: FaultCapacity,
    load: FaultLoad,
    lifecycle: FaultLifecycleState,
) -> Option<MmError> {
    match request.key().revalidate_admission(current) {
        Err(error) => Some(error),
        Ok(_) => match lifecycle {
            FaultLifecycleState::Closing => Some(MmError::Closing),
            FaultLifecycleState::Detached => Some(MmError::TearingDown),
            FaultLifecycleState::Closed => Some(MmError::Closed),
            FaultLifecycleState::Open => if load.address_space() < capacity.per_address_space()
                && load.handler() < capacity.per_handler() && load.global() < capacity.global() {
                None
            } else {
                Some(MmError::QuotaExceeded)
            },
        },
    }
}

/// An admitted request leaves every count within its limit, so the admission
/// bound holds over any sequence of admissions.
pub proof fn admission_stays_within_capacity(
    request: FaultRequest,
    current: MappingSnapshot,
    capacity: FaultCapacity,
    load: FaultLoad,
    lifecycle: FaultLifecycleState,
)
    requires
        refusal(request, current, capacity, load, lifecycle) is None,
    ensures
        load.address_space() + 1 <= capacity.per_address_space(),
        load.handler() + 1 <= capacity.per_handler(),
        load.global() + 1 <= capacity.global(),
        request.key().generation() == current.generation(),
{
}

/// Opaque proof that lifecycle and finite queue limits admitted a request.
#[derive(Clone, Copy, Debug, Eq, PartialEq, Structural)]
#[must_use]
pub struct FaultAdmissionPermit {
    pub(crate) request: FaultRequest,
}

impl FaultAdmissionPermit {
    /// Admitted request.
    #[verifier::when_used_as_spec(spec_request)]
    pub fn request(self) -> (result: FaultRequest)
        ensures
            result == self.spec_request(),
    {
        self.request
    }

    /// Specification counterpart of [`Self::request`].
    pub open(crate) spec fn spec_request(self) -> FaultRequest {
        self.request
    }
}

/// Opaque proof that a reply still targets the exact mapping generation.
#[derive(Clone, Copy, Debug, Eq, PartialEq, Structural)]
#[must_use]
pub struct FaultCompletionPermit {
    pub(crate) request: FaultRequest,
    pub(crate) disposition: FaultDisposition,
}

impl FaultCompletionPermit {
    /// Revalidated request.
    #[verifier::when_used_as_spec(spec_request)]
    pub fn request(self) -> (result: FaultRequest)
        ensures
            result == self.spec_request(),
    {
        self.request
    }

    /// Specification counterpart of [`Self::request`].
    pub open(crate) spec fn spec_request(self) -> FaultRequest {
        self.request
    }

    /// Typed resolver disposition.
    #[verifier::when_used_as_spec(spec_disposition)]
    pub fn disposition(self) -> (result: FaultDisposition)
        ensures
            result == self.spec_disposition(),
    {
        self.disposition
    }

    /// Specification counterpart of [`Self::disposition`].
    pub open(crate) spec fn spec_disposition(self) -> FaultDisposition {
        self.disposition
    }
}

/// Rejects a late reply to a replaced mapping before mechanism publication.
pub fn validate_fault_completion(
    request: FaultRequest,
    current: MappingSnapshot,
    disposition: FaultDisposition,
) -> (result: Result<FaultCompletionPermit, MmError>)
    ensures
        match result {
            Ok(permit) => {
                &&& request.key().revalidate_completion(current) is Ok
                &&& permit.request() == request
                &&& permit.disposition() == disposition
            },
            Err(error) => request.key().revalidate_completion(current) == Err::<(), MmError>(error),
        },
{
    match request.key.revalidate_completion(current) {
        Ok(()) => {},
        Err(error) => return Err(error),
    }
    Ok(FaultCompletionPermit { request, disposition })
}

/// A reply to an older generation of the mapping is refused, whatever it says.
pub proof fn stale_completions_are_refused(request: FaultRequest, current: MappingSnapshot)
    requires
        request.key().generation() != current.generation(),
    ensures
        request.key().revalidate_completion(current) == Err::<(), MmError>(
            MmError::StaleGeneration,
        ),
        request.key().revalidate_admission(current) == Err::<(), MmError>(MmError::StaleGeneration),
{
}

/// Port implemented by a lower generic bounded fault broker.
///
/// The trait deliberately leaves storage, locks, waiter ownership, readiness,
/// coalescing, cancellation, and wakeup mechanics to the lower layer. Linux MM policy
/// passes only typed admission/completion values across this seam.
pub trait FaultPort {
    /// Lower broker ticket/handle type.
    type Ticket;
    /// Lower mechanism error type.
    type Error;

    /// Publishes one previously admitted request.
    fn submit(&mut self, permit: FaultAdmissionPermit) -> Result<Self::Ticket, Self::Error>;

    /// Completes one lower ticket after generation revalidation.
    fn complete(
        &mut self,
        ticket: Self::Ticket,
        permit: FaultCompletionPermit,
    ) -> Result<(), Self::Error>;

    /// Cancels one independently owned waiter/request ticket.
    fn cancel(&mut self, ticket: Self::Ticket) -> Result<(), Self::Error>;

    /// Detaches one handler and makes lower storage wake/cancel its requests.
    fn detach(&mut self, handler: FaultHandlerId) -> Result<(), Self::Error>;
}

} // verus!
