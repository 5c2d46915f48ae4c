use vstd::prelude::*;

verus! {

/// Stable policy failures returned by memory-management policy.
#[derive(Clone, Copy, Debug, Eq, PartialEq, Structural)]
#[non_exhaustive]
pub enum MmError {
    /// A range, limit, or capacity that must be nonzero was zero.
    ZeroLength,
    /// Address, size, page, or accounting arithmetic overflowed.
    Overflow,
    /// A range exceeds the consumer-supplied userspace upper bound.
    AddressOutOfRange,
    /// A page size was not a power of two.
    InvalidPageSize,
    /// A page operation received an unaligned address or length.
    Unaligned,
    /// A stable identity used the reserved zero value.
    InvalidIdentity,
    /// A requested range is outside the frozen mapping.
    RangeNotMapped,
    /// The frozen mapping does not permit the requested access.
    AccessDenied,
    /// Raw mapping-access bits contain an unknown flag.
    InvalidAccess,
    /// The mapping kind cannot support the requested pin lifetime or use.
    UnsupportedPin,
    /// Per-owner or global pin accounting would exceed its finite quota.
    QuotaExceeded,
    /// A caller-owned bounded registry has no free slot.
    CapacityExceeded,
    /// A resource limit used the reserved effectively-unbounded maximum value.
    UnboundedLimit,
    /// No quota is configured for the requested owner.
    OwnerNotConfigured,
    /// A quota cannot be removed or replaced while it has live charges.
    OwnerBusy,
    /// A writable pin overlaps another live reservation or pin.
    PinOverlap,
    /// A mapping mutation overlaps a live pin.
    MappingPinned,
    /// A mapping identity or generation changed after the operation snapshot.
    StaleGeneration,
    /// A token does not name a live registry record.
    UnknownToken,
    /// A token exists but is in the wrong lifecycle state.
    InvalidTokenState,
    /// A non-wrapping identity sequence has been exhausted.
    IdExhausted,
    /// The registry has stopped admitting new work.
    Closing,
    /// Teardown has begun and the requested operation is no longer admitted.
    TearingDown,
    /// The registry is fully closed.
    Closed,
    /// Live work prevents the requested lifecycle transition.
    Busy,
    /// A fault ticket no longer names a pending request.
    UnknownFault,
    /// A remap segment is outside the source prefix or otherwise inconsistent.
    InvalidRemap,
    /// Mapping segments supplied for pin revalidation are not contiguous.
    NonContiguousCoverage,
    /// Publication was attempted before all pin pages were revalidated.
    IncompleteRevalidation,
    /// Memlock is disabled for this caller.
    MemlockDenied,
    /// Caller-supplied current/covered accounting is internally inconsistent.
    InconsistentAccounting,
    /// A budget charge names another budget.
    BudgetMismatch,
    /// Userfaultfd creation flags contain an unknown bit.
    InvalidUffdFlags,
    /// Userfaultfd feature bits contain an unknown bit.
    InvalidUffdFeatures,
    /// The requested userfaultfd API number is not the supported one.
    InvalidUffdApi,
    /// A requested userfaultfd feature is known but not available.
    UnsupportedUffdFeatures,
    /// Userfaultfd API negotiation has already completed.
    UffdAlreadyInitialized,
    /// Userfaultfd API negotiation has not completed.
    UffdNotInitialized,
    /// Registration-mode bits are empty or contain an unknown bit.
    InvalidUffdMode,
    /// A registration mode is known but not supported.
    UnsupportedUffdMode,
    /// The mapping class cannot be registered with userfaultfd.
    UnsupportedUffdMapping,
    /// A fault request does not belong to the registered interval.
    UffdRegistrationMismatch,
    /// A registration batch is not canonical or mixes owners.
    InvalidUffdRegistrationBatch,
    /// A registration partly overlaps a live one of the same handler.
    UffdRegistrationOverlap,
    /// A registration identity is not live.
    UnknownUffdRegistration,
    /// A resolver disposition is not supported for a missing fault.
    UnsupportedUffdDisposition,
    /// COPY mode bits contain an unknown bit.
    InvalidUffdCopyMode,
    /// A COPY mode is known but not supported.
    UnsupportedUffdCopyMode,
    /// ZEROPAGE mode bits contain an unknown bit.
    InvalidUffdZeroPageMode,
    /// Resolver progress is not a page-aligned positive prefix.
    InvalidUffdProgress,
}

} // verus!
