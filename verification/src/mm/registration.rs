use crate::mm::error::MmError;
use crate::mm::fault::{FaultHandlerId, FaultRequest, FaultType};
use crate::mm::identity::{AddressSpaceId, MappingGeneration, MappingId};
use crate::mm::mapping::{MappingKind, MappingSnapshot};
use crate::mm::range::PageRange;
use crate::mm::userfaultfd::{UffdIoctls, UffdRegisterMode};
use vstd::prelude::*;

verus! {

/// Nonzero, non-reused identity of one registered interval.
#[derive(Clone, Copy, Debug, Eq, Hash, Ord, PartialEq, PartialOrd, Structural)]
pub struct UffdRegistrationId(pub(crate) u64);

impl UffdRegistrationId {
    #[verifier::type_invariant]
    pub(crate) open spec fn nonzero(self) -> bool {
        self.0 != 0
    }

    /// Builds the value, rejecting the reserved zero.
    pub fn new(raw: u64) -> (result: Result<Self, MmError>)
        ensures
            match result {
                Ok(value) => raw != 0 && value.get() == raw,
                Err(error) => raw == 0 && error == MmError::InvalidIdentity,
            },
    {
        if raw == 0 {
            return Err(MmError::InvalidIdentity);
        }
        Ok(Self(raw))
    }

    /// Returns the integer representation.
    #[verifier::when_used_as_spec(spec_get)]
    pub fn get(self) -> (result: u64)
        ensures
            result == self.spec_get(),
            result != 0,
    {
        proof {
            use_type_invariant(&self);
        }
        self.0
    }

    /// Specification counterpart of [`Self::get`].
    pub open(crate) spec fn spec_get(self) -> u64 {
        self.0
    }
}

/// Validated request to own one anonymous-private MISSING interval.
#[derive(Clone, Copy, Debug, Eq, PartialEq, Structural)]
pub struct UffdRegistrationRequest {
    pub(crate) handler: FaultHandlerId,
    pub(crate) address_space: AddressSpaceId,
    pub(crate) mapping: MappingId,
    pub(crate) generation: MappingGeneration,
    pub(crate) range: PageRange,
    pub(crate) mode: UffdRegisterMode,
}

impl UffdRegistrationRequest {
    /// Freezes one mapped fragment of a possibly multi-VMA registration range.
    pub fn new(
        handler: FaultHandlerId,
        mapping: MappingSnapshot,
        range: PageRange,
        mode: UffdRegisterMode,
    ) -> (result: Result<Self, MmError>)
        ensures
            match result {
                Ok(request) => {
                    &&& mapping.kind() is AnonymousPrivate
                    &&& mapping.range().contains(range)
                    &&& mode == UffdRegisterMode::MISSING()
                    &&& request == requested(handler, mapping, range)
                    &&& request.handler() == handler
                    &&& request.address_space() == mapping.address_space()
                    &&& request.mapping() == mapping.mapping()
                    &&& request.generation() == mapping.generation()
                    &&& request.range() == range
                    &&& request.mode() == mode
                },
                Err(error) => if !(mapping.kind() is AnonymousPrivate) {
                    error == MmError::UnsupportedUffdMapping
                } else if !mapping.range().contains(range) {
                    error == MmError::RangeNotMapped
                } else {
                    &&& mode != UffdRegisterMode::MISSING()
                    &&& error == MmError::UnsupportedUffdMode
                },
            },
    {
        if mapping.kind() != MappingKind::AnonymousPrivate {
            return Err(MmError::UnsupportedUffdMapping);
        }
        if !mapping.range().contains(range) {
            return Err(MmError::RangeNotMapped);
        }
        if mode != UffdRegisterMode::MISSING() {
            return Err(MmError::UnsupportedUffdMode);
        }
        proof {
            use_type_invariant(&range);
        }
        Ok(
            Self {
                handler,
                address_space: mapping.address_space(),
                mapping: mapping.mapping(),
                generation: mapping.generation(),
                range,
                mode,
            },
        )
    }

    /// Requests ask for missing faults over a valid range.
    #[verifier::type_invariant]
    pub open spec fn valid(self) -> bool {
        self.range().valid() && self.mode() == UffdRegisterMode::MISSING()
    }

    /// Who owns the interval, and how.
    pub open spec fn owner(self) -> UffdOwner {
        UffdOwner {
            handler: self.handler(),
            address_space: self.address_space(),
            mode: self.mode(),
        }
    }

    pub(crate) fn owned_by(self) -> (result: UffdOwner)
        ensures
            result == self.owner(),
    {
        UffdOwner { handler: self.handler, address_space: self.address_space, mode: self.mode }
    }

    /// Owning fault handler.
    #[verifier::when_used_as_spec(spec_handler)]
    pub fn handler(self) -> (result: FaultHandlerId)
        ensures
            result == self.spec_handler(),
    {
        self.handler
    }

    /// Specification counterpart of [`Self::handler`].
    pub open(crate) spec fn spec_handler(self) -> FaultHandlerId {
        self.handler
    }

    /// Address-space identity.
    #[verifier::when_used_as_spec(spec_address_space)]
    pub fn address_space(self) -> (result: AddressSpaceId)
        ensures
            result == self.spec_address_space(),
    {
        self.address_space
    }

    /// Specification counterpart of [`Self::address_space`].
    pub open(crate) spec fn spec_address_space(self) -> AddressSpaceId {
        self.address_space
    }

    /// Mapping identity.
    #[verifier::when_used_as_spec(spec_mapping)]
    pub fn mapping(self) -> (result: MappingId)
        ensures
            result == self.spec_mapping(),
    {
        self.mapping
    }

    /// Specification counterpart of [`Self::mapping`].
    pub open(crate) spec fn spec_mapping(self) -> MappingId {
        self.mapping
    }

    /// Mapping generation.
    #[verifier::when_used_as_spec(spec_generation)]
    pub fn generation(self) -> (result: MappingGeneration)
        ensures
            result == self.spec_generation(),
    {
        self.generation
    }

    /// Specification counterpart of [`Self::generation`].
    pub open(crate) spec fn spec_generation(self) -> MappingGeneration {
        self.generation
    }

    /// Exact page range.
    #[verifier::when_used_as_spec(spec_range)]
    pub fn range(self) -> (result: PageRange)
        ensures
            result == self.spec_range(),
    {
        self.range
    }

    /// Specification counterpart of [`Self::range`].
    pub open(crate) spec fn spec_range(self) -> PageRange {
        self.range
    }

    /// Registration mode.
    #[verifier::when_used_as_spec(spec_mode)]
    pub fn mode(self) -> (result: UffdRegisterMode)
        ensures
            result == self.spec_mode(),
    {
        self.mode
    }

    /// Specification counterpart of [`Self::mode`].
    pub open(crate) spec fn spec_mode(self) -> UffdRegisterMode {
        self.mode
    }
}

/// The request that a handler makes for `range` of a mapping.
pub open(crate) spec fn requested(
    handler: FaultHandlerId,
    mapping: MappingSnapshot,
    range: PageRange,
) -> UffdRegistrationRequest {
    UffdRegistrationRequest {
        handler,
        address_space: mapping.address_space(),
        mapping: mapping.mapping(),
        generation: mapping.generation(),
        range,
        mode: UffdRegisterMode::MISSING(),
    }
}

/// Handler, address space and mode that a batch shares.
#[derive(Clone, Copy, Debug, Eq, PartialEq, Structural)]
pub struct UffdOwner {
    /// Fault handler.
    pub handler: FaultHandlerId,
    /// Address space.
    pub address_space: AddressSpaceId,
    /// Registration mode.
    pub mode: UffdRegisterMode,
}

/// Published MISSING registration and the ioctl mask returned to userspace.
#[derive(Clone, Copy, Debug, Eq, PartialEq, Structural)]
pub struct UffdRegistration {
    pub(crate) id: UffdRegistrationId,
    pub(crate) request: UffdRegistrationRequest,
}

impl UffdRegistration {
    /// Non-reused identity.
    #[verifier::when_used_as_spec(spec_id)]
    pub fn id(self) -> (result: UffdRegistrationId)
        ensures
            result == self.spec_id(),
    {
        self.id
    }

    /// Specification counterpart of [`Self::id`].
    pub open(crate) spec fn spec_id(self) -> UffdRegistrationId {
        self.id
    }

    /// Owning fault handler.
    #[verifier::when_used_as_spec(spec_handler)]
    pub fn handler(self) -> (result: FaultHandlerId)
        ensures
            result == self.spec_handler(),
    {
        self.request.handler
    }

    /// Specification counterpart of [`Self::handler`].
    pub open spec fn spec_handler(self) -> FaultHandlerId {
        self.request().handler()
    }

    /// Address-space identity.
    #[verifier::when_used_as_spec(spec_address_space)]
    pub fn address_space(self) -> (result: AddressSpaceId)
        ensures
            result == self.spec_address_space(),
    {
        self.request.address_space
    }

    /// Specification counterpart of [`Self::address_space`].
    pub open spec fn spec_address_space(self) -> AddressSpaceId {
        self.request().address_space()
    }

    /// Mapping identity.
    #[verifier::when_used_as_spec(spec_mapping)]
    pub fn mapping(self) -> (result: MappingId)
        ensures
            result == self.spec_mapping(),
    {
        self.request.mapping
    }

    /// Specification counterpart of [`Self::mapping`].
    pub open spec fn spec_mapping(self) -> MappingId {
        self.request().mapping()
    }

    /// Mapping generation.
    #[verifier::when_used_as_spec(spec_generation)]
    pub fn generation(self) -> (result: MappingGeneration)
        ensures
            result == self.spec_generation(),
    {
        self.request.generation
    }

    /// Specification counterpart of [`Self::generation`].
    pub open spec fn spec_generation(self) -> MappingGeneration {
        self.request().generation()
    }

    /// Exact page range.
    #[verifier::when_used_as_spec(spec_range)]
    pub fn range(self) -> (result: PageRange)
        ensures
            result == self.spec_range(),
    {
        self.request.range
    }

    /// Specification counterpart of [`Self::range`].
    pub open spec fn spec_range(self) -> PageRange {
        self.request().range()
    }

    /// Registration mode.
    #[verifier::when_used_as_spec(spec_mode)]
    pub fn mode(self) -> (result: UffdRegisterMode)
        ensures
            result == self.spec_mode(),
    {
        self.request.mode
    }

    /// Specification counterpart of [`Self::mode`].
    pub open spec fn spec_mode(self) -> UffdRegisterMode {
        self.request().mode()
    }

    /// Per-range ioctls advertised for this MISSING-only interval.
    pub fn ioctls(self) -> (result: UffdIoctls)
        ensures
            result == UffdIoctls::MISSING_RANGE_PROFILE(),
    {
        UffdIoctls::MISSING_RANGE_PROFILE()
    }

    /// The request that the registration published.
    pub open(crate) spec fn request(self) -> UffdRegistrationRequest {
        self.request
    }

    /// Revalidates the mapping before the adapter publishes or resolves a fault.
    #[verifier::when_used_as_spec(spec_revalidate)]
    pub fn revalidate(self, current: MappingSnapshot) -> (result: Result<(), MmError>)
        ensures
            result == self.spec_revalidate(current),
    {
        if self.address_space() != current.address_space() || self.mapping() != current.mapping()
            || self.generation() != current.generation() {
            return Err(MmError::StaleGeneration);
        }
        if current.kind() != MappingKind::AnonymousPrivate {
            return Err(MmError::UnsupportedUffdMapping);
        }
        if !current.range().contains(self.range()) {
            return Err(MmError::RangeNotMapped);
        }
        Ok(())
    }

    /// Specification counterpart of [`Self::revalidate`].
    pub open spec fn spec_revalidate(self, current: MappingSnapshot) -> Result<(), MmError> {
        if !(self.address_space() == current.address_space() && self.mapping() == current.mapping()
            && self.generation() == current.generation()) {
            Err(MmError::StaleGeneration)
        } else if !(current.kind() is AnonymousPrivate) {
            Err(MmError::UnsupportedUffdMapping)
        } else if !current.range().contains(self.range()) {
            Err(MmError::RangeNotMapped)
        } else {
            Ok(())
        }
    }

    /// Proves that a delegated MISSING request belongs to this exact interval.
    #[verifier::when_used_as_spec(spec_validate_fault)]
    pub fn validate_fault(self, current: MappingSnapshot, request: FaultRequest) -> (result: Result<
        (),
        MmError,
    >)
        ensures
            result == self.spec_validate_fault(current, request),
    {
        match self.revalidate(current) {
            Ok(()) => {},
            Err(error) => return Err(error),
        }
        if request.handler() != self.handler() || request.fault_type() != FaultType::Missing
            || request.key().address_space() != self.address_space() || request.key().mapping()
            != self.mapping() || request.key().generation() != self.generation()
            || !self.range().user_range().contains_address(request.key().page_address().get()) {
            return Err(MmError::UffdRegistrationMismatch);
        }
        request.key().revalidate(current)
    }

    /// The request is a missing fault of this handler on a page of this
    /// interval of this mapping generation.
    pub open spec fn matches_fault(self, request: FaultRequest) -> bool {
        &&& request.handler() == self.handler()
        &&& request.fault_type() is Missing
        &&& request.key().address_space() == self.address_space()
        &&& request.key().mapping() == self.mapping()
        &&& request.key().generation() == self.generation()
        &&& self.range().user_range().contains_address(request.key().page_address().get())
    }

    /// Specification counterpart of [`Self::validate_fault`].
    pub open spec fn spec_validate_fault(
        self,
        current: MappingSnapshot,
        request: FaultRequest,
    ) -> Result<(), MmError> {
        if self.revalidate(current) is Err {
            self.revalidate(current)
        } else if !self.matches_fault(request) {
            Err(MmError::UffdRegistrationMismatch)
        } else {
            request.key().revalidate_admission(current)
        }
    }

    /// The request for a surviving fragment of this registration after its
    /// mapping was split, trimmed or grown.
    ///
    /// The fragment keeps the registration's generation rather than the new
    /// snapshot's, so faults that were delegated before the change can still
    /// be completed.
    pub fn refreshed_fragment(self, current: MappingSnapshot, range: PageRange) -> (result: Result<
        UffdRegistrationRequest,
        MmError,
    >)
        ensures
            match result {
                Ok(request) => {
                    &&& self.address_space() == current.address_space()
                    &&& self.mapping() == current.mapping()
                    &&& current.kind() is AnonymousPrivate
                    &&& current.range().contains(range)
                    &&& request.handler() == self.handler()
                    &&& request.address_space() == self.address_space()
                    &&& request.mapping() == self.mapping()
                    &&& request.generation() == self.generation()
                    &&& request.range() == range
                    &&& request.mode() == self.mode()
                },
                Err(error) => if self.address_space() != current.address_space()
                    || self.mapping() != current.mapping() {
                    error == MmError::StaleGeneration
                } else if !(current.kind() is AnonymousPrivate) {
                    error == MmError::UnsupportedUffdMapping
                } else {
                    !current.range().contains(range) && error == MmError::RangeNotMapped
                },
            },
    {
        if self.address_space() != current.address_space() || self.mapping() != current.mapping() {
            return Err(MmError::StaleGeneration);
        }
        if current.kind() != MappingKind::AnonymousPrivate {
            return Err(MmError::UnsupportedUffdMapping);
        }
        if !current.range().contains(range) {
            return Err(MmError::RangeNotMapped);
        }
        proof {
            use_type_invariant(&range);
            use_type_invariant(&self.request);
        }
        Ok(UffdRegistrationRequest { range, ..self.request })
    }

    /// The replacement of this registration by one that starts at the same page
    /// and reaches further.
    pub fn tail_extension_replacement(
        self,
        address_space: AddressSpaceId,
        mapping: MappingId,
        grown_range: PageRange,
    ) -> (result: Result<UffdRegistrationReplacement, MmError>)
        ensures
            ({
                let same_mapping = self.address_space() == address_space && self.mapping()
                    == mapping;
                let extends = grown_range.page_size() == self.range().page_size()
                    && grown_range.start() == self.range().start() && grown_range.end()
                    > self.range().end();
                match result {
                    Ok(replacement) => {
                        &&& same_mapping && extends
                        &&& replacement.source() == self.id()
                        &&& replacement.request().handler() == self.handler()
                        &&& replacement.request().address_space() == self.address_space()
                        &&& replacement.request().mapping() == self.mapping()
                        &&& replacement.request().generation() == self.generation()
                        &&& replacement.request().range() == grown_range
                        &&& replacement.request().mode() == self.mode()
                    },
                    Err(error) => if !same_mapping {
                        error == MmError::StaleGeneration
                    } else {
                        !extends && error == MmError::RangeNotMapped
                    },
                }
            }),
    {
        if self.address_space() != address_space || self.mapping() != mapping {
            return Err(MmError::StaleGeneration);
        }
        if grown_range.page_size() != self.range().page_size() || grown_range.start()
            != self.range().start() || grown_range.end() <= self.range().end() {
            return Err(MmError::RangeNotMapped);
        }
        proof {
            use_type_invariant(&grown_range);
            use_type_invariant(&self.request);
        }
        Ok(
            UffdRegistrationReplacement {
                source: self.id,
                request: UffdRegistrationRequest { range: grown_range, ..self.request },
            },
        )
    }
}

/// One replacement fragment tied to the registration whose owner it inherits.
///
/// Mapping-level mutation may touch several userfaultfd handlers in one
/// address space. Pairing each new fragment with its source token lets the
/// table validate mixed-owner split/trim/grow refreshes without a giant
/// cross-subsystem trait or temporary ownership map.
#[derive(Clone, Copy, Debug, Eq, PartialEq, Structural)]
pub struct UffdRegistrationReplacement {
    pub(crate) source: UffdRegistrationId,
    pub(crate) request: UffdRegistrationRequest,
}

impl UffdRegistrationReplacement {
    /// Pairs a fragment with the registration that it replaces.
    pub fn new(source: UffdRegistrationId, request: UffdRegistrationRequest) -> (result: Self)
        ensures
            result.source() == source,
            result.request() == request,
    {
        Self { source, request }
    }

    /// Registration whose owner is inherited.
    #[verifier::when_used_as_spec(spec_source)]
    pub fn source(self) -> (result: UffdRegistrationId)
        ensures
            result == self.spec_source(),
    {
        self.source
    }

    /// Specification counterpart of [`Self::source`].
    pub open(crate) spec fn spec_source(self) -> UffdRegistrationId {
        self.source
    }

    /// The new fragment.
    #[verifier::when_used_as_spec(spec_request)]
    pub fn request(self) -> (result: UffdRegistrationRequest)
        ensures
            result == self.spec_request(),
    {
        self.request
    }

    /// Specification counterpart of [`Self::request`].
    pub open(crate) spec fn spec_request(self) -> UffdRegistrationRequest {
        self.request
    }
}

/// One Linux UFFDIO_REGISTER range owned by a single userfaultfd handler.
///
/// The adapter supplies the raw ioctl range once plus every compatible VMA
/// snapshot intersecting it. The MM policy derives canonical post-operation
/// registration fragments; syscall code does not implement interval union.
#[derive(Clone, Copy, Debug, Eq, PartialEq, Structural)]
pub struct UffdRegistrationIntent {
    pub(crate) handler: FaultHandlerId,
    pub(crate) range: PageRange,
    pub(crate) mode: UffdRegisterMode,
}

impl UffdRegistrationIntent {
    /// Accepts missing-fault registrations only.
    pub fn new(handler: FaultHandlerId, range: PageRange, mode: UffdRegisterMode) -> (result:
        Result<Self, MmError>)
        ensures
            match result {
                Ok(intent) => {
                    &&& mode == UffdRegisterMode::MISSING()
                    &&& intent.handler() == handler
                    &&& intent.range() == range
                    &&& intent.mode() == mode
                },
                Err(error) => {
                    &&& mode != UffdRegisterMode::MISSING()
                    &&& error == MmError::UnsupportedUffdMode
                },
            },
    {
        if mode != UffdRegisterMode::MISSING() {
            return Err(MmError::UnsupportedUffdMode);
        }
        proof {
            use_type_invariant(&range);
        }
        Ok(Self { handler, range, mode })
    }

    /// Intents ask for missing faults over a valid range.
    #[verifier::type_invariant]
    pub open spec fn valid(self) -> bool {
        self.range().valid() && self.mode() == UffdRegisterMode::MISSING()
    }

    /// Owning fault handler.
    #[verifier::when_used_as_spec(spec_handler)]
    pub fn handler(self) -> (result: FaultHandlerId)
        ensures
            result == self.spec_handler(),
    {
        self.handler
    }

    /// Specification counterpart of [`Self::handler`].
    pub open(crate) spec fn spec_handler(self) -> FaultHandlerId {
        self.handler
    }

    /// Exact page range.
    #[verifier::when_used_as_spec(spec_range)]
    pub fn range(self) -> (result: PageRange)
        ensures
            result == self.spec_range(),
    {
        self.range
    }

    /// Specification counterpart of [`Self::range`].
    pub open(crate) spec fn spec_range(self) -> PageRange {
        self.range
    }

    /// Registration mode.
    #[verifier::when_used_as_spec(spec_mode)]
    pub fn mode(self) -> (result: UffdRegisterMode)
        ensures
            result == self.spec_mode(),
    {
        self.mode
    }

    /// Specification counterpart of [`Self::mode`].
    pub open(crate) spec fn spec_mode(self) -> UffdRegisterMode {
        self.mode
    }
}

/// Constant-size proof for a canonical same-handler registration delta.
///
/// After preflight, the adapter reserves exactly the reported output capacity
/// and asks the table to replay removed IDs and replacement requests into that
/// storage. No array proportional to table capacity is hidden in this value.
#[derive(Clone, Copy, Debug, Eq, PartialEq, Structural)]
#[must_use]
pub struct UffdRegistrationDeltaPlan {
    pub(crate) revision: u64,
    pub(crate) removed: usize,
    pub(crate) replacements: usize,
    pub(crate) next_id_after: Option<u64>,
}

impl UffdRegistrationDeltaPlan {
    /// Table revision that the plan was made for.
    pub open(crate) spec fn revision(self) -> u64 {
        self.revision
    }

    /// Identity sequence after the plan is carried out.
    pub open(crate) spec fn next_id_after(self) -> Option<u64> {
        self.next_id_after
    }

    /// Existing canonical fragments replaced by the registration.
    #[verifier::when_used_as_spec(spec_removed)]
    pub fn removed(self) -> (result: usize)
        ensures
            result == self.spec_removed(),
    {
        self.removed
    }

    /// Specification counterpart of [`Self::removed`].
    pub open(crate) spec fn spec_removed(self) -> usize {
        self.removed
    }

    /// Canonical post-operation fragments that need new identities.
    #[verifier::when_used_as_spec(spec_replacements)]
    pub fn replacements(self) -> (result: usize)
        ensures
            result == self.spec_replacements(),
    {
        self.replacements
    }

    /// Specification counterpart of [`Self::replacements`].
    pub open(crate) spec fn spec_replacements(self) -> usize {
        self.replacements
    }

    /// Whether Linux's same-handler registration is already satisfied.
    pub fn is_noop(self) -> (result: bool)
        ensures
            result == (self.removed() == 0 && self.replacements() == 0),
    {
        self.removed == 0 && self.replacements == 0
    }
}

/// What one VMA contributes to a registration delta.
#[derive(Clone, Copy, Debug, Eq, PartialEq, Structural)]
pub struct CanonicalRegistrationDelta {
    /// The one fragment that the VMA holds afterwards.
    pub desired: UffdRegistrationRequest,
    /// Whether exactly that fragment is already registered.
    pub no_op: bool,
}

/// Small proof that a registration or mapping-refresh batch can commit.
///
/// The proof contains only counters and sequence state; it never copies an
/// array proportional to table capacity onto the kernel stack.
#[derive(Clone, Copy, Debug, Eq, PartialEq, Structural)]
#[must_use]
pub struct UffdRegistrationPlan {
    pub(crate) revision: u64,
    pub(crate) removed: usize,
    pub(crate) published: usize,
    pub(crate) reused: usize,
    pub(crate) next_id_after: Option<u64>,
}

impl UffdRegistrationPlan {
    /// Table revision that the plan was made for.
    pub open(crate) spec fn revision(self) -> u64 {
        self.revision
    }

    /// Identity sequence after the plan is carried out.
    pub open(crate) spec fn next_id_after(self) -> Option<u64> {
        self.next_id_after
    }

    /// Existing records removed by a mapping refresh.
    #[verifier::when_used_as_spec(spec_removed)]
    pub fn removed(self) -> (result: usize)
        ensures
            result == self.spec_removed(),
    {
        self.removed
    }

    /// Specification counterpart of [`Self::removed`].
    pub open(crate) spec fn spec_removed(self) -> usize {
        self.removed
    }

    /// New non-reused records to publish.
    #[verifier::when_used_as_spec(spec_published)]
    pub fn published(self) -> (result: usize)
        ensures
            result == self.spec_published(),
    {
        self.published
    }

    /// Specification counterpart of [`Self::published`].
    pub open(crate) spec fn spec_published(self) -> usize {
        self.published
    }

    /// Exact same-handler records reused idempotently.
    #[verifier::when_used_as_spec(spec_reused)]
    pub fn reused(self) -> (result: usize)
        ensures
            result == self.spec_reused(),
    {
        self.reused
    }

    /// Specification counterpart of [`Self::reused`].
    pub open(crate) spec fn spec_reused(self) -> usize {
        self.reused
    }

    /// Unique output registrations.
    pub fn registrations(self) -> (result: usize)
        ensures
            result == self.published() + self.reused(),
    {
        proof {
            use_type_invariant(&self);
        }
        self.published + self.reused
    }

    /// The counts describe disjoint parts of one request slice.
    #[verifier::type_invariant]
    pub(crate) open spec fn bounded(self) -> bool {
        self.published + self.reused <= usize::MAX
    }

    pub(crate) fn changes_table(self) -> (result: bool)
        ensures
            result == (self.removed() != 0 || self.published() != 0),
    {
        self.removed != 0 || self.published != 0
    }
}

/// Counts returned after one all-or-none registration-table commit.
#[derive(Clone, Copy, Debug, Eq, PartialEq, Structural)]
pub struct UffdRegistrationCommit {
    pub(crate) removed: usize,
    pub(crate) published: usize,
    pub(crate) reused: usize,
}

impl UffdRegistrationCommit {
    /// Existing records removed.
    #[verifier::when_used_as_spec(spec_removed)]
    pub fn removed(self) -> (result: usize)
        ensures
            result == self.spec_removed(),
    {
        self.removed
    }

    /// Specification counterpart of [`Self::removed`].
    pub open(crate) spec fn spec_removed(self) -> usize {
        self.removed
    }

    /// New records published.
    #[verifier::when_used_as_spec(spec_published)]
    pub fn published(self) -> (result: usize)
        ensures
            result == self.spec_published(),
    {
        self.published
    }

    /// Specification counterpart of [`Self::published`].
    pub open(crate) spec fn spec_published(self) -> usize {
        self.published
    }

    /// Existing records reused.
    #[verifier::when_used_as_spec(spec_reused)]
    pub fn reused(self) -> (result: usize)
        ensures
            result == self.spec_reused(),
    {
        self.reused
    }

    /// Specification counterpart of [`Self::reused`].
    pub open(crate) spec fn spec_reused(self) -> usize {
        self.reused
    }

    /// Unique output registrations.
    pub fn registrations(self) -> (result: usize)
        ensures
            result == self.published() + self.reused(),
    {
        proof {
            use_type_invariant(&self);
        }
        self.published + self.reused
    }

    /// The counts describe disjoint parts of one request slice.
    #[verifier::type_invariant]
    pub(crate) open spec fn bounded(self) -> bool {
        self.published + self.reused <= usize::MAX
    }
}

} // verus!
