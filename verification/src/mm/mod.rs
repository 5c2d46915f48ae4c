//! Pure Linux-visible memory-management policy.
//!
//! The module owns checked address ranges, mapping generations, bounded pin
//! and fault lifecycles, and arithmetic-only mapping planners. It does not own
//! page tables, frames, files, tasks, locks, raw user memory, or
//! architecture-specific addresses. Consumers freeze those mechanism facts,
//! call this module, and execute the resulting plan in their own transaction.

pub mod budget;
pub mod delta;
pub mod error;
pub mod fault;
pub mod identity;
pub mod laws;
pub mod mapping;
pub mod pin;
pub mod pin_laws;
pub mod plan;
pub mod range;
pub mod registration;
pub mod registry;
pub mod table;
pub mod table_laws;
pub mod transaction;
pub mod userfaultfd;

pub use budget::{PinBudget, PinBudgetCharge, PinBudgetIdentities, PinBudgetIdentity};
pub use error::MmError;
pub use fault::{
    validate_fault_completion, FaultAccess, FaultAdmission, FaultAdmissionPermit, FaultCapacity,
    FaultCompletionPermit, FaultDisposition, FaultFailure, FaultHandlerId, FaultKey,
    FaultLifecycleState, FaultLoad, FaultPageAddress, FaultPort, FaultRequest, FaultRequestId,
    FaultType,
};
pub use identity::{AddressSpaceId, MappingGeneration, MappingId, PinOwner};
pub use mapping::{
    ExpectedMapping, InvalidationRange, InvalidationReason, MappingAccess, MappingKind,
    MappingSnapshot,
};
pub use pin::{
    LifecycleProgress, MutationBlocker, PinAccess, PinAccounting, PinDuration, PinLeaseView,
    PinQuota, PinRegistryState, PinRequest, PinReservation, PinSnapshot, PinToken, PinUse,
    TeardownReport,
};
pub use plan::{
    relocate_affine_origin, AffineRelocation, MemlockLimit, MemlockPlan, PageCoveringPlan,
    RemapGeometry, RemapSegmentGeometry,
};
pub use range::{PageRange, PageSize, UserRange};
pub use registration::{
    UffdRegistration, UffdRegistrationCommit, UffdRegistrationDeltaPlan, UffdRegistrationId,
    UffdRegistrationIntent, UffdRegistrationPlan, UffdRegistrationReplacement,
    UffdRegistrationRequest,
};
pub use registry::PinRegistry;
pub use table::UffdRegistrationTable;
pub use userfaultfd::{
    UffdApiLifecycle, UffdApiNegotiation, UffdApiRequest, UffdApiResponse, UffdApiState,
    UffdCopyMode, UffdCopyRequest, UffdCreateFlags, UffdFaultPolicy, UffdFeatures, UffdIoctls,
    UffdRegisterMode, UffdResolverOutcome, UffdResolverResult, UffdZeroPageMode,
    UffdZeroPageRequest, UFFD_API, UFFD_O_CLOEXEC, UFFD_O_NONBLOCK, UFFD_USER_MODE_ONLY,
};
