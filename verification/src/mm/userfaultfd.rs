use crate::mm::error::MmError;
use crate::mm::fault::{
    refusal, validate_fault_completion, FaultAdmission, FaultAdmissionPermit, FaultCapacity,
    FaultCompletionPermit, FaultDisposition, FaultLifecycleState, FaultLoad, FaultRequest,
};
use crate::mm::mapping::MappingSnapshot;
use crate::mm::range::{PageRange, UserRange};
use crate::mm::registration::UffdRegistration;
use vstd::prelude::*;

verus! {

/// Linux v6.12 userfaultfd API version.
pub const UFFD_API: u64 = 0xaa;

/// Linux userfaultfd(2) flag restricting interception to user-mode faults.
pub const UFFD_USER_MODE_ONLY: u32 = 1;

/// Linux O_NONBLOCK value accepted by userfaultfd(2).
pub const UFFD_O_NONBLOCK: u32 = 0x800;

/// Linux O_CLOEXEC value accepted by userfaultfd(2).
pub const UFFD_O_CLOEXEC: u32 = 0x8_0000;

/// Checked creation flags for the Linux v6.12 userfaultfd(2) entry.
#[derive(Clone, Copy, Debug, Eq, PartialEq, Structural)]
pub struct UffdCreateFlags(pub(crate) u32);

impl UffdCreateFlags {
    /// Rejects every bit outside O_CLOEXEC, O_NONBLOCK, and
    /// UFFD_USER_MODE_ONLY.
    ///
    /// This is the Linux flag-namespace check only. Call
    /// [Self::validate_profile] for the initial unprivileged profile gate.
    pub fn from_bits(bits: u32) -> (result: Result<Self, MmError>)
        ensures
            match result {
                Ok(flags) => bits & !0x8_0801u32 == 0 && flags.bits() == bits,
                Err(error) => bits & !0x8_0801u32 != 0 && error == MmError::InvalidUffdFlags,
            },
    {
        if bits & !0x8_0801u32 != 0 {
            return Err(MmError::InvalidUffdFlags);
        }
        Ok(Self(bits))
    }

    /// Requires the bounded first profile's UFFD_USER_MODE_ONLY flag.
    ///
    /// [MmError::AccessDenied] is intentionally distinct from
    /// [MmError::InvalidUffdFlags], allowing the syscall adapter to map a
    /// missing user-mode-only gate to EPERM and unknown bits to EINVAL.
    pub fn validate_profile(self) -> (result: Result<Self, MmError>)
        ensures
            match result {
                Ok(flags) => self.user_mode_only() && flags == self,
                Err(error) => !self.user_mode_only() && error == MmError::AccessDenied,
            },
    {
        if !self.user_mode_only() {
            return Err(MmError::AccessDenied);
        }
        Ok(self)
    }

    /// Raw Linux flag bits.
    #[verifier::when_used_as_spec(spec_bits)]
    pub fn bits(self) -> (result: u32)
        ensures
            result == self.spec_bits(),
    {
        self.0
    }

    /// Specification counterpart of [`Self::bits`].
    pub open(crate) spec fn spec_bits(self) -> u32 {
        self.0
    }

    /// Whether the resulting FD must be close-on-exec.
    #[verifier::when_used_as_spec(spec_close_on_exec)]
    pub fn close_on_exec(self) -> (result: bool)
        ensures
            result == self.spec_close_on_exec(),
    {
        self.0 & UFFD_O_CLOEXEC != 0
    }

    /// Specification counterpart of [`Self::close_on_exec`].
    pub open spec fn spec_close_on_exec(self) -> bool {
        self.bits() & UFFD_O_CLOEXEC != 0
    }

    /// Whether reads from the resulting FD are nonblocking.
    #[verifier::when_used_as_spec(spec_nonblocking)]
    pub fn nonblocking(self) -> (result: bool)
        ensures
            result == self.spec_nonblocking(),
    {
        self.0 & UFFD_O_NONBLOCK != 0
    }

    /// Specification counterpart of [`Self::nonblocking`].
    pub open spec fn spec_nonblocking(self) -> bool {
        self.bits() & UFFD_O_NONBLOCK != 0
    }

    /// Whether only user-mode page faults may be intercepted.
    #[verifier::when_used_as_spec(spec_user_mode_only)]
    pub fn user_mode_only(self) -> (result: bool)
        ensures
            result == self.spec_user_mode_only(),
    {
        self.0 & UFFD_USER_MODE_ONLY != 0
    }

    /// Specification counterpart of [`Self::user_mode_only`].
    pub open spec fn spec_user_mode_only(self) -> bool {
        self.bits() & UFFD_USER_MODE_ONLY != 0
    }
}

/// The accepted creation flags are exactly the three named ones.
pub proof fn creation_flags_are_the_named_ones()
    ensures
        0x8_0801u32 == UFFD_USER_MODE_ONLY | UFFD_O_NONBLOCK | UFFD_O_CLOEXEC,
{
    assert(0x8_0801u32 == 1u32 | 0x800u32 | 0x8_0000u32) by (bit_vector);
}

/// Checked Linux v6.12 userfaultfd feature bits.
#[derive(Clone, Copy, Debug, Eq, PartialEq, Structural)]
pub struct UffdFeatures(pub(crate) u64);

impl Default for UffdFeatures {
    fn default() -> (result: Self)
        ensures
            result.bits() == 0,
    {
        Self(0)
    }
}

impl UffdFeatures {
    /// Write-protect page-fault flag.
    #[allow(non_snake_case)]
    #[verifier::when_used_as_spec(spec_PAGEFAULT_FLAG_WP)]
    pub fn PAGEFAULT_FLAG_WP() -> (result: Self)
        ensures
            result == Self::spec_PAGEFAULT_FLAG_WP(),
            result.bits() == 0x1u64,
    {
        Self(0x1u64)
    }

    /// Specification counterpart of [`Self::PAGEFAULT_FLAG_WP`].
    #[allow(non_snake_case)]
    pub open(crate) spec fn spec_PAGEFAULT_FLAG_WP() -> Self {
        Self(0x1u64)
    }

    /// Fork events.
    #[allow(non_snake_case)]
    #[verifier::when_used_as_spec(spec_EVENT_FORK)]
    pub fn EVENT_FORK() -> (result: Self)
        ensures
            result == Self::spec_EVENT_FORK(),
            result.bits() == 0x2u64,
    {
        Self(0x2u64)
    }

    /// Specification counterpart of [`Self::EVENT_FORK`].
    #[allow(non_snake_case)]
    pub open(crate) spec fn spec_EVENT_FORK() -> Self {
        Self(0x2u64)
    }

    /// Remap events.
    #[allow(non_snake_case)]
    #[verifier::when_used_as_spec(spec_EVENT_REMAP)]
    pub fn EVENT_REMAP() -> (result: Self)
        ensures
            result == Self::spec_EVENT_REMAP(),
            result.bits() == 0x4u64,
    {
        Self(0x4u64)
    }

    /// Specification counterpart of [`Self::EVENT_REMAP`].
    #[allow(non_snake_case)]
    pub open(crate) spec fn spec_EVENT_REMAP() -> Self {
        Self(0x4u64)
    }

    /// Remove events.
    #[allow(non_snake_case)]
    #[verifier::when_used_as_spec(spec_EVENT_REMOVE)]
    pub fn EVENT_REMOVE() -> (result: Self)
        ensures
            result == Self::spec_EVENT_REMOVE(),
            result.bits() == 0x8u64,
    {
        Self(0x8u64)
    }

    /// Specification counterpart of [`Self::EVENT_REMOVE`].
    #[allow(non_snake_case)]
    pub open(crate) spec fn spec_EVENT_REMOVE() -> Self {
        Self(0x8u64)
    }

    /// Missing faults on hugetlbfs.
    #[allow(non_snake_case)]
    #[verifier::when_used_as_spec(spec_MISSING_HUGETLBFS)]
    pub fn MISSING_HUGETLBFS() -> (result: Self)
        ensures
            result == Self::spec_MISSING_HUGETLBFS(),
            result.bits() == 0x10u64,
    {
        Self(0x10u64)
    }

    /// Specification counterpart of [`Self::MISSING_HUGETLBFS`].
    #[allow(non_snake_case)]
    pub open(crate) spec fn spec_MISSING_HUGETLBFS() -> Self {
        Self(0x10u64)
    }

    /// Missing faults on shared memory.
    #[allow(non_snake_case)]
    #[verifier::when_used_as_spec(spec_MISSING_SHMEM)]
    pub fn MISSING_SHMEM() -> (result: Self)
        ensures
            result == Self::spec_MISSING_SHMEM(),
            result.bits() == 0x20u64,
    {
        Self(0x20u64)
    }

    /// Specification counterpart of [`Self::MISSING_SHMEM`].
    #[allow(non_snake_case)]
    pub open(crate) spec fn spec_MISSING_SHMEM() -> Self {
        Self(0x20u64)
    }

    /// Unmap events.
    #[allow(non_snake_case)]
    #[verifier::when_used_as_spec(spec_EVENT_UNMAP)]
    pub fn EVENT_UNMAP() -> (result: Self)
        ensures
            result == Self::spec_EVENT_UNMAP(),
            result.bits() == 0x40u64,
    {
        Self(0x40u64)
    }

    /// Specification counterpart of [`Self::EVENT_UNMAP`].
    #[allow(non_snake_case)]
    pub open(crate) spec fn spec_EVENT_UNMAP() -> Self {
        Self(0x40u64)
    }

    /// SIGBUS instead of a fault event.
    #[allow(non_snake_case)]
    #[verifier::when_used_as_spec(spec_SIGBUS)]
    pub fn SIGBUS() -> (result: Self)
        ensures
            result == Self::spec_SIGBUS(),
            result.bits() == 0x80u64,
    {
        Self(0x80u64)
    }

    /// Specification counterpart of [`Self::SIGBUS`].
    #[allow(non_snake_case)]
    pub open(crate) spec fn spec_SIGBUS() -> Self {
        Self(0x80u64)
    }

    /// Faulting thread identity.
    #[allow(non_snake_case)]
    #[verifier::when_used_as_spec(spec_THREAD_ID)]
    pub fn THREAD_ID() -> (result: Self)
        ensures
            result == Self::spec_THREAD_ID(),
            result.bits() == 0x100u64,
    {
        Self(0x100u64)
    }

    /// Specification counterpart of [`Self::THREAD_ID`].
    #[allow(non_snake_case)]
    pub open(crate) spec fn spec_THREAD_ID() -> Self {
        Self(0x100u64)
    }

    /// Minor faults on hugetlbfs.
    #[allow(non_snake_case)]
    #[verifier::when_used_as_spec(spec_MINOR_HUGETLBFS)]
    pub fn MINOR_HUGETLBFS() -> (result: Self)
        ensures
            result == Self::spec_MINOR_HUGETLBFS(),
            result.bits() == 0x200u64,
    {
        Self(0x200u64)
    }

    /// Specification counterpart of [`Self::MINOR_HUGETLBFS`].
    #[allow(non_snake_case)]
    pub open(crate) spec fn spec_MINOR_HUGETLBFS() -> Self {
        Self(0x200u64)
    }

    /// Minor faults on shared memory.
    #[allow(non_snake_case)]
    #[verifier::when_used_as_spec(spec_MINOR_SHMEM)]
    pub fn MINOR_SHMEM() -> (result: Self)
        ensures
            result == Self::spec_MINOR_SHMEM(),
            result.bits() == 0x400u64,
    {
        Self(0x400u64)
    }

    /// Specification counterpart of [`Self::MINOR_SHMEM`].
    #[allow(non_snake_case)]
    pub open(crate) spec fn spec_MINOR_SHMEM() -> Self {
        Self(0x400u64)
    }

    /// Exact faulting address.
    #[allow(non_snake_case)]
    #[verifier::when_used_as_spec(spec_EXACT_ADDRESS)]
    pub fn EXACT_ADDRESS() -> (result: Self)
        ensures
            result == Self::spec_EXACT_ADDRESS(),
            result.bits() == 0x800u64,
    {
        Self(0x800u64)
    }

    /// Specification counterpart of [`Self::EXACT_ADDRESS`].
    #[allow(non_snake_case)]
    pub open(crate) spec fn spec_EXACT_ADDRESS() -> Self {
        Self(0x800u64)
    }

    /// Write protection on hugetlbfs and shared memory.
    #[allow(non_snake_case)]
    #[verifier::when_used_as_spec(spec_WP_HUGETLBFS_SHMEM)]
    pub fn WP_HUGETLBFS_SHMEM() -> (result: Self)
        ensures
            result == Self::spec_WP_HUGETLBFS_SHMEM(),
            result.bits() == 0x1000u64,
    {
        Self(0x1000u64)
    }

    /// Specification counterpart of [`Self::WP_HUGETLBFS_SHMEM`].
    #[allow(non_snake_case)]
    pub open(crate) spec fn spec_WP_HUGETLBFS_SHMEM() -> Self {
        Self(0x1000u64)
    }

    /// Write protection of unpopulated pages.
    #[allow(non_snake_case)]
    #[verifier::when_used_as_spec(spec_WP_UNPOPULATED)]
    pub fn WP_UNPOPULATED() -> (result: Self)
        ensures
            result == Self::spec_WP_UNPOPULATED(),
            result.bits() == 0x2000u64,
    {
        Self(0x2000u64)
    }

    /// Specification counterpart of [`Self::WP_UNPOPULATED`].
    #[allow(non_snake_case)]
    pub open(crate) spec fn spec_WP_UNPOPULATED() -> Self {
        Self(0x2000u64)
    }

    /// Page poisoning.
    #[allow(non_snake_case)]
    #[verifier::when_used_as_spec(spec_POISON)]
    pub fn POISON() -> (result: Self)
        ensures
            result == Self::spec_POISON(),
            result.bits() == 0x4000u64,
    {
        Self(0x4000u64)
    }

    /// Specification counterpart of [`Self::POISON`].
    #[allow(non_snake_case)]
    pub open(crate) spec fn spec_POISON() -> Self {
        Self(0x4000u64)
    }

    /// Asynchronous write protection.
    #[allow(non_snake_case)]
    #[verifier::when_used_as_spec(spec_WP_ASYNC)]
    pub fn WP_ASYNC() -> (result: Self)
        ensures
            result == Self::spec_WP_ASYNC(),
            result.bits() == 0x8000u64,
    {
        Self(0x8000u64)
    }

    /// Specification counterpart of [`Self::WP_ASYNC`].
    #[allow(non_snake_case)]
    pub open(crate) spec fn spec_WP_ASYNC() -> Self {
        Self(0x8000u64)
    }

    /// Page moving.
    #[allow(non_snake_case)]
    #[verifier::when_used_as_spec(spec_MOVE)]
    pub fn MOVE() -> (result: Self)
        ensures
            result == Self::spec_MOVE(),
            result.bits() == 0x10000u64,
    {
        Self(0x10000u64)
    }

    /// Specification counterpart of [`Self::MOVE`].
    #[allow(non_snake_case)]
    pub open(crate) spec fn spec_MOVE() -> Self {
        Self(0x10000u64)
    }

    /// Every feature bit defined by the pinned Linux v6.12 UAPI.
    #[allow(non_snake_case)]
    #[verifier::when_used_as_spec(spec_LINUX_V6_12)]
    pub fn LINUX_V6_12() -> (result: Self)
        ensures
            result == Self::spec_LINUX_V6_12(),
            result.bits() == 0x1_ffffu64,
    {
        Self(0x1_ffffu64)
    }

    /// Specification counterpart of [`Self::LINUX_V6_12`].
    #[allow(non_snake_case)]
    pub open(crate) spec fn spec_LINUX_V6_12() -> Self {
        Self(0x1_ffffu64)
    }

    /// The bounded first profile advertises no optional feature.
    ///
    /// Missing faults and the WRITE page-fault flag are implicit in the base
    /// API. WP, MINOR, thread-ID, exact-byte-address, shmem/hugetlb, SIGBUS,
    /// poison, move, and lifecycle events require later adapter proof.
    #[allow(non_snake_case)]
    #[verifier::when_used_as_spec(spec_AVAILABLE)]
    pub fn AVAILABLE() -> (result: Self)
        ensures
            result == Self::spec_AVAILABLE(),
            result.bits() == 0u64,
    {
        Self(0u64)
    }

    /// Specification counterpart of [`Self::AVAILABLE`].
    #[allow(non_snake_case)]
    pub open(crate) spec fn spec_AVAILABLE() -> Self {
        Self(0u64)
    }

    /// Validates that all bits exist in Linux v6.12.
    pub fn from_bits(bits: u64) -> (result: Result<Self, MmError>)
        ensures
            match result {
                Ok(features) => {
                    &&& bits & !UffdFeatures::LINUX_V6_12().bits() == 0
                    &&& features.bits() == bits
                },
                Err(error) => {
                    &&& bits & !UffdFeatures::LINUX_V6_12().bits() != 0
                    &&& error == MmError::InvalidUffdFeatures
                },
            },
    {
        if bits & !0x1_ffffu64 != 0 {
            return Err(MmError::InvalidUffdFeatures);
        }
        Ok(Self(bits))
    }

    /// Raw Linux feature bits.
    #[verifier::when_used_as_spec(spec_bits)]
    pub fn bits(self) -> (result: u64)
        ensures
            result == self.spec_bits(),
    {
        self.0
    }

    /// Specification counterpart of [`Self::bits`].
    pub open(crate) spec fn spec_bits(self) -> u64 {
        self.0
    }

    /// Whether every feature in other is present.
    #[verifier::when_used_as_spec(spec_contains)]
    pub fn contains(self, other: Self) -> (result: bool)
        ensures
            result == self.spec_contains(other),
    {
        self.0 & other.0 == other.0
    }

    /// Specification counterpart of [`Self::contains`].
    pub open spec fn spec_contains(self, other: Self) -> bool {
        self.bits() & other.bits() == other.bits()
    }
}

/// Userfaultfd ioctl command-number bitmask returned by negotiation/register.
#[derive(Clone, Copy, Debug, Eq, PartialEq, Structural)]
pub struct UffdIoctls(pub(crate) u64);

impl Default for UffdIoctls {
    fn default() -> (result: Self)
        ensures
            result.bits() == 0,
    {
        Self(0)
    }
}

impl UffdIoctls {
    /// Register a range.
    #[allow(non_snake_case)]
    #[verifier::when_used_as_spec(spec_REGISTER)]
    pub fn REGISTER() -> (result: Self)
        ensures
            result == Self::spec_REGISTER(),
            result.bits() == 0x1u64,
    {
        Self(0x1u64)
    }

    /// Specification counterpart of [`Self::REGISTER`].
    #[allow(non_snake_case)]
    pub open(crate) spec fn spec_REGISTER() -> Self {
        Self(0x1u64)
    }

    /// Unregister a range.
    #[allow(non_snake_case)]
    #[verifier::when_used_as_spec(spec_UNREGISTER)]
    pub fn UNREGISTER() -> (result: Self)
        ensures
            result == Self::spec_UNREGISTER(),
            result.bits() == 0x2u64,
    {
        Self(0x2u64)
    }

    /// Specification counterpart of [`Self::UNREGISTER`].
    #[allow(non_snake_case)]
    pub open(crate) spec fn spec_UNREGISTER() -> Self {
        Self(0x2u64)
    }

    /// Wake waiters of a range.
    #[allow(non_snake_case)]
    #[verifier::when_used_as_spec(spec_WAKE)]
    pub fn WAKE() -> (result: Self)
        ensures
            result == Self::spec_WAKE(),
            result.bits() == 0x4u64,
    {
        Self(0x4u64)
    }

    /// Specification counterpart of [`Self::WAKE`].
    #[allow(non_snake_case)]
    pub open(crate) spec fn spec_WAKE() -> Self {
        Self(0x4u64)
    }

    /// Install copied pages.
    #[allow(non_snake_case)]
    #[verifier::when_used_as_spec(spec_COPY)]
    pub fn COPY() -> (result: Self)
        ensures
            result == Self::spec_COPY(),
            result.bits() == 0x8u64,
    {
        Self(0x8u64)
    }

    /// Specification counterpart of [`Self::COPY`].
    #[allow(non_snake_case)]
    pub open(crate) spec fn spec_COPY() -> Self {
        Self(0x8u64)
    }

    /// Install zero pages.
    #[allow(non_snake_case)]
    #[verifier::when_used_as_spec(spec_ZEROPAGE)]
    pub fn ZEROPAGE() -> (result: Self)
        ensures
            result == Self::spec_ZEROPAGE(),
            result.bits() == 0x10u64,
    {
        Self(0x10u64)
    }

    /// Specification counterpart of [`Self::ZEROPAGE`].
    #[allow(non_snake_case)]
    pub open(crate) spec fn spec_ZEROPAGE() -> Self {
        Self(0x10u64)
    }

    /// Move pages.
    #[allow(non_snake_case)]
    #[verifier::when_used_as_spec(spec_MOVE)]
    pub fn MOVE() -> (result: Self)
        ensures
            result == Self::spec_MOVE(),
            result.bits() == 0x20u64,
    {
        Self(0x20u64)
    }

    /// Specification counterpart of [`Self::MOVE`].
    #[allow(non_snake_case)]
    pub open(crate) spec fn spec_MOVE() -> Self {
        Self(0x20u64)
    }

    /// Change write protection.
    #[allow(non_snake_case)]
    #[verifier::when_used_as_spec(spec_WRITEPROTECT)]
    pub fn WRITEPROTECT() -> (result: Self)
        ensures
            result == Self::spec_WRITEPROTECT(),
            result.bits() == 0x40u64,
    {
        Self(0x40u64)
    }

    /// Specification counterpart of [`Self::WRITEPROTECT`].
    #[allow(non_snake_case)]
    pub open(crate) spec fn spec_WRITEPROTECT() -> Self {
        Self(0x40u64)
    }

    /// Continue minor faults.
    #[allow(non_snake_case)]
    #[verifier::when_used_as_spec(spec_CONTINUE)]
    pub fn CONTINUE() -> (result: Self)
        ensures
            result == Self::spec_CONTINUE(),
            result.bits() == 0x80u64,
    {
        Self(0x80u64)
    }

    /// Specification counterpart of [`Self::CONTINUE`].
    #[allow(non_snake_case)]
    pub open(crate) spec fn spec_CONTINUE() -> Self {
        Self(0x80u64)
    }

    /// Poison pages.
    #[allow(non_snake_case)]
    #[verifier::when_used_as_spec(spec_POISON)]
    pub fn POISON() -> (result: Self)
        ensures
            result == Self::spec_POISON(),
            result.bits() == 0x100u64,
    {
        Self(0x100u64)
    }

    /// Specification counterpart of [`Self::POISON`].
    #[allow(non_snake_case)]
    pub open(crate) spec fn spec_POISON() -> Self {
        Self(0x100u64)
    }

    /// Negotiate the API.
    #[allow(non_snake_case)]
    #[verifier::when_used_as_spec(spec_API)]
    pub fn API() -> (result: Self)
        ensures
            result == Self::spec_API(),
            result.bits() == 0x8000000000000000u64,
    {
        Self(0x8000000000000000u64)
    }

    /// Specification counterpart of [`Self::API`].
    #[allow(non_snake_case)]
    pub open(crate) spec fn spec_API() -> Self {
        Self(0x8000000000000000u64)
    }

    /// Context ioctls advertised by the bounded Linux v6.12 profile.
    #[allow(non_snake_case)]
    #[verifier::when_used_as_spec(spec_API_PROFILE)]
    pub fn API_PROFILE() -> (result: Self)
        ensures
            result == Self::spec_API_PROFILE(),
            result.bits() == 0x8000_0000_0000_0003u64,
    {
        Self(0x8000_0000_0000_0003u64)
    }

    /// Specification counterpart of [`Self::API_PROFILE`].
    #[allow(non_snake_case)]
    pub open(crate) spec fn spec_API_PROFILE() -> Self {
        Self(0x8000_0000_0000_0003u64)
    }

    /// Range ioctls advertised after a MISSING-only registration.
    #[allow(non_snake_case)]
    #[verifier::when_used_as_spec(spec_MISSING_RANGE_PROFILE)]
    pub fn MISSING_RANGE_PROFILE() -> (result: Self)
        ensures
            result == Self::spec_MISSING_RANGE_PROFILE(),
            result.bits() == 0x1cu64,
    {
        Self(0x1cu64)
    }

    /// Specification counterpart of [`Self::MISSING_RANGE_PROFILE`].
    #[allow(non_snake_case)]
    pub open(crate) spec fn spec_MISSING_RANGE_PROFILE() -> Self {
        Self(0x1cu64)
    }

    /// Raw Linux ioctl-number mask.
    #[verifier::when_used_as_spec(spec_bits)]
    pub fn bits(self) -> (result: u64)
        ensures
            result == self.spec_bits(),
    {
        self.0
    }

    /// Specification counterpart of [`Self::bits`].
    pub open(crate) spec fn spec_bits(self) -> u64 {
        self.0
    }

    /// Whether every ioctl in other is present.
    #[verifier::when_used_as_spec(spec_contains)]
    pub fn contains(self, other: Self) -> (result: bool)
        ensures
            result == self.spec_contains(other),
    {
        self.0 & other.0 == other.0
    }

    /// Specification counterpart of [`Self::contains`].
    pub open spec fn spec_contains(self, other: Self) -> bool {
        self.bits() & other.bits() == other.bits()
    }
}

/// The advertised masks are exactly the named ioctls.
pub proof fn advertised_ioctls_are_the_named_ones()
    ensures
        UffdIoctls::API_PROFILE().bits() == UffdIoctls::REGISTER().bits()
            | UffdIoctls::UNREGISTER().bits() | UffdIoctls::API().bits(),
        UffdIoctls::MISSING_RANGE_PROFILE().bits() == UffdIoctls::WAKE().bits()
            | UffdIoctls::COPY().bits() | UffdIoctls::ZEROPAGE().bits(),
{
    assert(0x8000_0000_0000_0003u64 == 1u64 | 2u64 | 0x8000_0000_0000_0000u64) by (bit_vector);
    assert(0x1cu64 == 4u64 | 8u64 | 0x10u64) by (bit_vector);
}

/// Input copied from Linux struct uffdio_api before negotiation.
#[derive(Clone, Copy, Debug, Eq, PartialEq, Structural)]
pub struct UffdApiRequest {
    pub(crate) api: u64,
    pub(crate) features: UffdFeatures,
}

impl UffdApiRequest {
    /// Validates the raw feature namespace while retaining the requested API.
    pub fn from_raw(api: u64, features: u64) -> (result: Result<Self, MmError>)
        ensures
            match result {
                Ok(request) => {
                    &&& features & !UffdFeatures::LINUX_V6_12().bits() == 0
                    &&& request.api() == api
                    &&& request.features().bits() == features
                },
                Err(error) => {
                    &&& features & !UffdFeatures::LINUX_V6_12().bits() != 0
                    &&& error == MmError::InvalidUffdFeatures
                },
            },
    {
        let features = match UffdFeatures::from_bits(features) {
            Ok(features) => features,
            Err(error) => return Err(error),
        };
        Ok(Self { api, features })
    }

    /// Requested API number.
    #[verifier::when_used_as_spec(spec_api)]
    pub fn api(self) -> (result: u64)
        ensures
            result == self.spec_api(),
    {
        self.api
    }

    /// Specification counterpart of [`Self::api`].
    pub open(crate) spec fn spec_api(self) -> u64 {
        self.api
    }

    /// Requested optional features.
    #[verifier::when_used_as_spec(spec_features)]
    pub fn features(self) -> (result: UffdFeatures)
        ensures
            result == self.spec_features(),
    {
        self.features
    }

    /// Specification counterpart of [`Self::features`].
    pub open(crate) spec fn spec_features(self) -> UffdFeatures {
        self.features
    }
}

/// Successful Linux UFFDIO_API output for this bounded profile.
#[derive(Clone, Copy, Debug, Eq, PartialEq, Structural)]
pub struct UffdApiResponse {
    pub(crate) api: u64,
    pub(crate) features: UffdFeatures,
    pub(crate) ioctls: UffdIoctls,
}

impl UffdApiResponse {
    /// Negotiated API number.
    #[verifier::when_used_as_spec(spec_api)]
    pub fn api(self) -> (result: u64)
        ensures
            result == self.spec_api(),
    {
        self.api
    }

    /// Specification counterpart of [`Self::api`].
    pub open(crate) spec fn spec_api(self) -> u64 {
        self.api
    }

    /// All optional features available from this profile, not merely enabled.
    #[verifier::when_used_as_spec(spec_features)]
    pub fn features(self) -> (result: UffdFeatures)
        ensures
            result == self.spec_features(),
    {
        self.features
    }

    /// Specification counterpart of [`Self::features`].
    pub open(crate) spec fn spec_features(self) -> UffdFeatures {
        self.features
    }

    /// Context ioctl mask for Linux v6.12.
    #[verifier::when_used_as_spec(spec_ioctls)]
    pub fn ioctls(self) -> (result: UffdIoctls)
        ensures
            result == self.spec_ioctls(),
    {
        self.ioctls
    }

    /// Specification counterpart of [`Self::ioctls`].
    pub open(crate) spec fn spec_ioctls(self) -> UffdIoctls {
        self.ioctls
    }
}

/// Prepared API negotiation that is committed only after successful copyout.
#[derive(Clone, Copy, Debug, Eq, PartialEq, Structural)]
#[must_use]
pub struct UffdApiNegotiation {
    pub(crate) requested_features: UffdFeatures,
    pub(crate) response: UffdApiResponse,
}

impl UffdApiNegotiation {
    /// Successful response that must be copied to userspace before commit.
    #[verifier::when_used_as_spec(spec_response)]
    pub fn response(self) -> (result: UffdApiResponse)
        ensures
            result == self.spec_response(),
    {
        self.response
    }

    /// Specification counterpart of [`Self::response`].
    pub open(crate) spec fn spec_response(self) -> UffdApiResponse {
        self.response
    }

    /// Optional features that become enabled on commit.
    #[verifier::when_used_as_spec(spec_requested_features)]
    pub fn requested_features(self) -> (result: UffdFeatures)
        ensures
            result == self.spec_requested_features(),
    {
        self.requested_features
    }

    /// Specification counterpart of [`Self::requested_features`].
    pub open(crate) spec fn spec_requested_features(self) -> UffdFeatures {
        self.requested_features
    }
}

/// One-shot UFFDIO_API negotiation state.
#[derive(Clone, Copy, Debug, Eq, PartialEq, Structural)]
pub enum UffdApiLifecycle {
    /// Negotiation has not completed.
    Created,
    /// Negotiation has completed.
    Initialized,
}

/// Pure one-shot API negotiation policy; the FD and usercopy stay in the adapter.
#[derive(Clone, Debug, Eq, PartialEq, Structural)]
pub struct UffdApiState {
    pub(crate) lifecycle: UffdApiLifecycle,
    pub(crate) enabled_features: UffdFeatures,
}

impl UffdApiState {
    /// A context that has not negotiated.
    pub fn new() -> (result: Self)
        ensures
            result.lifecycle() is Created,
            result.enabled_features().bits() == 0,
    {
        Self { lifecycle: UffdApiLifecycle::Created, enabled_features: UffdFeatures(0) }
    }

    /// Why negotiation is refused: the API number decides first, then the
    /// features, then whether it already completed.
    pub open spec fn negotiation_error(&self, api: u64, features: u64) -> Option<MmError> {
        if api != UFFD_API {
            Some(MmError::InvalidUffdApi)
        } else if features & !UffdFeatures::AVAILABLE().bits() != 0 {
            Some(MmError::UnsupportedUffdFeatures)
        } else if !(self.lifecycle() is Created) {
            Some(MmError::UffdAlreadyInitialized)
        } else {
            None
        }
    }

    /// Validates Linux API 0xaa without changing initialization state.
    ///
    /// The adapter copies [UffdApiNegotiation::response] to userspace and
    /// calls [Self::commit] only after copyout succeeds. On any validation or
    /// commit error it must clear the complete userspace uffdio_api value,
    /// matching Linux v6.12.
    pub fn prepare(&self, request: UffdApiRequest) -> (result: Result<UffdApiNegotiation, MmError>)
        ensures
            match result {
                Ok(negotiation) => {
                    &&& self.negotiation_error(request.api(), request.features().bits()) is None
                    &&& negotiation.requested_features() == request.features()
                    &&& negotiation.response().api() == UFFD_API
                    &&& negotiation.response().features() == UffdFeatures::AVAILABLE()
                    &&& negotiation.response().ioctls() == UffdIoctls::API_PROFILE()
                },
                Err(error) => self.negotiation_error(request.api(), request.features().bits())
                    == Some(error),
            },
    {
        if request.api != UFFD_API {
            return Err(MmError::InvalidUffdApi);
        }
        if request.features.bits() & !UffdFeatures::AVAILABLE().bits() != 0 {
            return Err(MmError::UnsupportedUffdFeatures);
        }
        if self.lifecycle != UffdApiLifecycle::Created {
            return Err(MmError::UffdAlreadyInitialized);
        }
        Ok(
            UffdApiNegotiation {
                requested_features: request.features,
                response: UffdApiResponse {
                    api: UFFD_API,
                    features: UffdFeatures::AVAILABLE(),
                    ioctls: UffdIoctls::API_PROFILE(),
                },
            },
        )
    }

    /// Convenience raw-value preparation entry for a syscall adapter.
    pub fn prepare_raw(&self, api: u64, features: u64) -> (result: Result<
        UffdApiNegotiation,
        MmError,
    >)
        ensures
            match result {
                Ok(negotiation) => {
                    &&& features & !UffdFeatures::LINUX_V6_12().bits() == 0
                    &&& self.negotiation_error(api, features) is None
                    &&& negotiation.requested_features().bits() == features
                    &&& negotiation.response().api() == UFFD_API
                    &&& negotiation.response().features() == UffdFeatures::AVAILABLE()
                    &&& negotiation.response().ioctls() == UffdIoctls::API_PROFILE()
                },
                Err(error) => if features & !UffdFeatures::LINUX_V6_12().bits() != 0 {
                    error == MmError::InvalidUffdFeatures
                } else {
                    self.negotiation_error(api, features) == Some(error)
                },
            },
    {
        let request = match UffdApiRequest::from_raw(api, features) {
            Ok(request) => request,
            Err(error) => return Err(error),
        };
        self.prepare(request)
    }

    /// Commits initialization after the prepared response reached userspace.
    pub fn commit(&mut self, negotiation: UffdApiNegotiation) -> (result: Result<
        UffdApiResponse,
        MmError,
    >)
        ensures
            match result {
                Ok(response) => {
                    &&& old(self).lifecycle() is Created
                    &&& final(self).lifecycle() is Initialized
                    &&& final(self).enabled_features() == negotiation.requested_features()
                    &&& response == negotiation.response()
                },
                Err(error) => {
                    &&& old(self).lifecycle() is Initialized
                    &&& *final(self) == *old(self)
                    &&& error == MmError::UffdAlreadyInitialized
                },
            },
            final(self).lifecycle() is Initialized,
    {
        if self.lifecycle != UffdApiLifecycle::Created {
            return Err(MmError::UffdAlreadyInitialized);
        }
        self.lifecycle = UffdApiLifecycle::Initialized;
        self.enabled_features = negotiation.requested_features;
        Ok(negotiation.response)
    }

    /// Whether negotiation has completed.
    #[verifier::when_used_as_spec(spec_lifecycle)]
    pub fn lifecycle(&self) -> (result: UffdApiLifecycle)
        ensures
            result == self.spec_lifecycle(),
    {
        self.lifecycle
    }

    /// Specification counterpart of [`Self::lifecycle`].
    pub open(crate) spec fn spec_lifecycle(&self) -> UffdApiLifecycle {
        self.lifecycle
    }

    /// Features actually requested and enabled for this context.
    #[verifier::when_used_as_spec(spec_enabled_features)]
    pub fn enabled_features(&self) -> (result: UffdFeatures)
        ensures
            result == self.spec_enabled_features(),
    {
        self.enabled_features
    }

    /// Specification counterpart of [`Self::enabled_features`].
    pub open(crate) spec fn spec_enabled_features(&self) -> UffdFeatures {
        self.enabled_features
    }

    pub(crate) fn require_initialized(&self) -> (result: Result<(), MmError>)
        ensures
            match result {
                Ok(()) => self.lifecycle() is Initialized,
                Err(error) => {
                    &&& self.lifecycle() is Created
                    &&& error == MmError::UffdNotInitialized
                },
            },
    {
        if self.lifecycle == UffdApiLifecycle::Initialized {
            Ok(())
        } else {
            Err(MmError::UffdNotInitialized)
        }
    }
}

impl Default for UffdApiState {
    fn default() -> (result: Self)
        ensures
            result.lifecycle() is Created,
            result.enabled_features().bits() == 0,
    {
        Self::new()
    }
}

/// Checked UFFDIO_REGISTER mode.
#[derive(Clone, Copy, Debug, Eq, PartialEq, Structural)]
pub struct UffdRegisterMode(pub(crate) u64);

impl UffdRegisterMode {
    /// Missing faults.
    #[allow(non_snake_case)]
    #[verifier::when_used_as_spec(spec_MISSING)]
    pub fn MISSING() -> (result: Self)
        ensures
            result == Self::spec_MISSING(),
            result.bits() == 1u64,
    {
        Self(1u64)
    }

    /// Specification counterpart of [`Self::MISSING`].
    #[allow(non_snake_case)]
    pub open(crate) spec fn spec_MISSING() -> Self {
        Self(1u64)
    }

    /// Write-protect faults.
    #[allow(non_snake_case)]
    #[verifier::when_used_as_spec(spec_WP)]
    pub fn WP() -> (result: Self)
        ensures
            result == Self::spec_WP(),
            result.bits() == 2u64,
    {
        Self(2u64)
    }

    /// Specification counterpart of [`Self::WP`].
    #[allow(non_snake_case)]
    pub open(crate) spec fn spec_WP() -> Self {
        Self(2u64)
    }

    /// Minor faults.
    #[allow(non_snake_case)]
    #[verifier::when_used_as_spec(spec_MINOR)]
    pub fn MINOR() -> (result: Self)
        ensures
            result == Self::spec_MINOR(),
            result.bits() == 4u64,
    {
        Self(4u64)
    }

    /// Specification counterpart of [`Self::MINOR`].
    #[allow(non_snake_case)]
    pub open(crate) spec fn spec_MINOR() -> Self {
        Self(4u64)
    }

    /// Accepts exactly MISSING. WP and MINOR are recognized but unsupported.
    pub fn from_bits(bits: u64) -> (result: Result<Self, MmError>)
        ensures
            match result {
                Ok(mode) => bits == 1 && mode == UffdRegisterMode::MISSING(),
                Err(error) => if bits == 0 || bits & !7u64 != 0 {
                    error == MmError::InvalidUffdMode
                } else {
                    bits != 1 && error == MmError::UnsupportedUffdMode
                },
            },
    {
        proof {
            assert(1u64 & !7u64 == 0) by (bit_vector);
        }
        if bits == 0 || bits & !7u64 != 0 {
            return Err(MmError::InvalidUffdMode);
        }
        if bits != 1 {
            return Err(MmError::UnsupportedUffdMode);
        }
        Ok(Self(bits))
    }

    /// Raw Linux registration-mode bits.
    #[verifier::when_used_as_spec(spec_bits)]
    pub fn bits(self) -> (result: u64)
        ensures
            result == self.spec_bits(),
    {
        self.0
    }

    /// Specification counterpart of [`Self::bits`].
    pub open(crate) spec fn spec_bits(self) -> u64 {
        self.0
    }
}

/// Stateless Linux MISSING-fault policy over the lower generic broker seam.
///
/// The lower broker is the sole owner of queue storage, FIFO claim,
/// Pending/Delivered state, waiters, readiness, credits, cancellation,
/// terminal publication, and close. This policy only validates Linux
/// registration/mapping facts and returns typed lower-layer permits.
pub struct UffdFaultPolicy;

impl UffdFaultPolicy {
    /// Validates registration ownership and finite lower-broker admission.
    pub fn admit_fault(
        registration: UffdRegistration,
        current: MappingSnapshot,
        request: FaultRequest,
        capacity: FaultCapacity,
        load: FaultLoad,
        lifecycle: FaultLifecycleState,
    ) -> (result: Result<FaultAdmissionPermit, MmError>)
        ensures
            match result {
                Ok(permit) => {
                    &&& registration.validate_fault(current, request) is Ok
                    &&& refusal(request, current, capacity, load, lifecycle) is None
                    &&& permit.request() == request
                },
                Err(error) => match registration.validate_fault(current, request) {
                    Err(invalid) => error == invalid,
                    Ok(_) => refusal(request, current, capacity, load, lifecycle) == Some(error),
                },
            },
    {
        match registration.validate_fault(current, request) {
            Ok(()) => {},
            Err(error) => return Err(error),
        }
        FaultAdmission::check(request, current, capacity, load, lifecycle)
    }

    /// Revalidates one lower ticket's request before irreversible resolution.
    pub fn prepare_completion(
        request: FaultRequest,
        current: MappingSnapshot,
        disposition: FaultDisposition,
    ) -> (result: Result<FaultCompletionPermit, MmError>)
        ensures
            ({
                let supported = disposition is Supply || disposition is ZeroFill || disposition
                    is Failure;
                match result {
                    Ok(permit) => {
                        &&& supported
                        &&& request.key().revalidate_completion(current) is Ok
                        &&& permit.request() == request
                        &&& permit.disposition() == disposition
                    },
                    Err(error) => if !supported {
                        error == MmError::UnsupportedUffdDisposition
                    } else {
                        request.key().revalidate_completion(current) == Err::<(), MmError>(error)
                    },
                }
            }),
    {
        if !matches!(
            disposition,
            FaultDisposition::Supply | FaultDisposition::ZeroFill | FaultDisposition::Failure(_)
        ) {
            return Err(MmError::UnsupportedUffdDisposition);
        }
        validate_fault_completion(request, current, disposition)
    }
}

/// Checked first-profile UFFDIO_COPY mode.
#[derive(Clone, Copy, Debug, Eq, PartialEq, Structural)]
pub struct UffdCopyMode(pub(crate) u64);

impl UffdCopyMode {
    /// Accepts zero or DONTWAKE; recognizes but rejects WP in this profile.
    pub fn from_bits(bits: u64) -> (result: Result<Self, MmError>)
        ensures
            match result {
                Ok(mode) => bits & !3u64 == 0 && bits & 2u64 == 0 && mode.bits() == bits,
                Err(error) => if bits & !3u64 != 0 {
                    error == MmError::InvalidUffdCopyMode
                } else {
                    bits & 2u64 != 0 && error == MmError::UnsupportedUffdCopyMode
                },
            },
    {
        if bits & !3u64 != 0 {
            return Err(MmError::InvalidUffdCopyMode);
        }
        if bits & 2u64 != 0 {
            return Err(MmError::UnsupportedUffdCopyMode);
        }
        Ok(Self(bits))
    }

    /// Raw mode bits.
    #[verifier::when_used_as_spec(spec_bits)]
    pub fn bits(self) -> (result: u64)
        ensures
            result == self.spec_bits(),
    {
        self.0
    }

    /// Specification counterpart of [`Self::bits`].
    pub open(crate) spec fn spec_bits(self) -> u64 {
        self.0
    }

    /// Whether waiters stay asleep.
    #[verifier::when_used_as_spec(spec_dontwake)]
    pub fn dontwake(self) -> (result: bool)
        ensures
            result == self.spec_dontwake(),
    {
        self.0 & 1u64 != 0
    }

    /// Specification counterpart of [`Self::dontwake`].
    pub open spec fn spec_dontwake(self) -> bool {
        self.bits() & 1u64 != 0
    }
}

/// Checked first-profile UFFDIO_ZEROPAGE mode.
#[derive(Clone, Copy, Debug, Eq, PartialEq, Structural)]
pub struct UffdZeroPageMode(pub(crate) u64);

impl UffdZeroPageMode {
    /// Accepts zero or DONTWAKE.
    pub fn from_bits(bits: u64) -> (result: Result<Self, MmError>)
        ensures
            match result {
                Ok(mode) => bits & !1u64 == 0 && mode.bits() == bits,
                Err(error) => bits & !1u64 != 0 && error == MmError::InvalidUffdZeroPageMode,
            },
    {
        if bits & !1u64 != 0 {
            return Err(MmError::InvalidUffdZeroPageMode);
        }
        Ok(Self(bits))
    }

    /// Raw mode bits.
    #[verifier::when_used_as_spec(spec_bits)]
    pub fn bits(self) -> (result: u64)
        ensures
            result == self.spec_bits(),
    {
        self.0
    }

    /// Specification counterpart of [`Self::bits`].
    pub open(crate) spec fn spec_bits(self) -> u64 {
        self.0
    }

    /// Whether waiters stay asleep.
    #[verifier::when_used_as_spec(spec_dontwake)]
    pub fn dontwake(self) -> (result: bool)
        ensures
            result == self.spec_dontwake(),
    {
        self.0 & 1u64 != 0
    }

    /// Specification counterpart of [`Self::dontwake`].
    pub open spec fn spec_dontwake(self) -> bool {
        self.bits() & 1u64 != 0
    }
}

/// Validated COPY geometry and wake policy.
#[derive(Clone, Copy, Debug, Eq, PartialEq, Structural)]
pub struct UffdCopyRequest {
    pub(crate) source: UserRange,
    pub(crate) destination: PageRange,
    pub(crate) mode: UffdCopyMode,
}

impl UffdCopyRequest {
    /// Requires the source to be exactly as long as the destination.
    pub fn new(source: UserRange, destination: PageRange, mode: UffdCopyMode) -> (result: Result<
        Self,
        MmError,
    >)
        ensures
            match result {
                Ok(request) => {
                    &&& source.len() == destination.len()
                    &&& request.source() == source
                    &&& request.destination() == destination
                    &&& request.mode() == mode
                },
                Err(error) => {
                    &&& source.len() != destination.len()
                    &&& error == MmError::InconsistentAccounting
                },
            },
    {
        if source.len() != destination.len() {
            return Err(MmError::InconsistentAccounting);
        }
        if !destination.page_size().is_aligned(source.len()) {
            return Err(MmError::Unaligned);
        }
        Ok(Self { source, destination, mode })
    }

    /// Bytes to copy from.
    #[verifier::when_used_as_spec(spec_source)]
    pub fn source(self) -> (result: UserRange)
        ensures
            result == self.spec_source(),
    {
        self.source
    }

    /// Specification counterpart of [`Self::source`].
    pub open(crate) spec fn spec_source(self) -> UserRange {
        self.source
    }

    /// Pages to install.
    #[verifier::when_used_as_spec(spec_destination)]
    pub fn destination(self) -> (result: PageRange)
        ensures
            result == self.spec_destination(),
    {
        self.destination
    }

    /// Specification counterpart of [`Self::destination`].
    pub open(crate) spec fn spec_destination(self) -> PageRange {
        self.destination
    }

    /// Wake policy.
    #[verifier::when_used_as_spec(spec_mode)]
    pub fn mode(self) -> (result: UffdCopyMode)
        ensures
            result == self.spec_mode(),
    {
        self.mode
    }

    /// Specification counterpart of [`Self::mode`].
    pub open(crate) spec fn spec_mode(self) -> UffdCopyMode {
        self.mode
    }
}

/// Validated ZEROPAGE geometry and wake policy.
#[derive(Clone, Copy, Debug, Eq, PartialEq, Structural)]
pub struct UffdZeroPageRequest {
    pub(crate) destination: PageRange,
    pub(crate) mode: UffdZeroPageMode,
}

impl UffdZeroPageRequest {
    /// Builds a request from checked values.
    pub fn new(destination: PageRange, mode: UffdZeroPageMode) -> (result: Self)
        ensures
            result.destination() == destination,
            result.mode() == mode,
    {
        Self { destination, mode }
    }

    /// Pages to install.
    #[verifier::when_used_as_spec(spec_destination)]
    pub fn destination(self) -> (result: PageRange)
        ensures
            result == self.spec_destination(),
    {
        self.destination
    }

    /// Specification counterpart of [`Self::destination`].
    pub open(crate) spec fn spec_destination(self) -> PageRange {
        self.destination
    }

    /// Wake policy.
    #[verifier::when_used_as_spec(spec_mode)]
    pub fn mode(self) -> (result: UffdZeroPageMode)
        ensures
            result == self.spec_mode(),
    {
        self.mode
    }

    /// Specification counterpart of [`Self::mode`].
    pub open(crate) spec fn spec_mode(self) -> UffdZeroPageMode {
        self.mode
    }
}

/// Linux ioctl return class after signed progress has been copied out.
#[derive(Clone, Copy, Debug, Eq, PartialEq, Structural)]
pub enum UffdResolverOutcome {
    /// Every requested byte was installed and ioctl returns zero.
    Complete,
    /// A positive prefix was installed and ioctl returns EAGAIN.
    Retry,
    /// No page was installed and ioctl returns the lower mapped error.
    Failed,
}

/// Signed COPY/ZEROPAGE result plus post-copyout wake plan.
///
/// Positive progress is always a page-aligned prefix. A lower failure is
/// represented by a negative Linux errno. The adapter must copy
/// [Self::reported_bytes] first; a failed result copyout preserves installed
/// pages and suppresses wake, exactly as Linux v6.12 does.
#[derive(Clone, Copy, Debug, Eq, PartialEq, Structural)]
pub struct UffdResolverResult {
    pub(crate) reported_bytes: i64,
    pub(crate) completed: Option<PageRange>,
    pub(crate) outcome: UffdResolverOutcome,
    pub(crate) wake: bool,
}

impl UffdResolverResult {
    /// Classifies positive COPY progress.
    pub fn for_copy(request: UffdCopyRequest, completed: usize) -> (result: Result<Self, MmError>)
        ensures
            result matches Ok(resolved) ==> reports_progress(
                resolved,
                request.destination(),
                completed,
                request.mode().dontwake(),
            ),
            result is Ok <==> is_progress(request.destination(), completed) && completed
                <= i64::MAX,
            result matches Err(error) ==> error == if is_progress(
                request.destination(),
                completed,
            ) {
                MmError::Overflow
            } else {
                MmError::InvalidUffdProgress
            },
    {
        Self::progress(request.destination, completed, request.mode.dontwake())
    }

    /// Classifies positive ZEROPAGE progress.
    pub fn for_zeropage(request: UffdZeroPageRequest, completed: usize) -> (result: Result<
        Self,
        MmError,
    >)
        ensures
            result matches Ok(resolved) ==> reports_progress(
                resolved,
                request.destination(),
                completed,
                request.mode().dontwake(),
            ),
            result is Ok <==> is_progress(request.destination(), completed) && completed
                <= i64::MAX,
            result matches Err(error) ==> error == if is_progress(
                request.destination(),
                completed,
            ) {
                MmError::Overflow
            } else {
                MmError::InvalidUffdProgress
            },
    {
        Self::progress(request.destination, completed, request.mode.dontwake())
    }

    /// Builds the signed negative output for a zero-progress lower failure.
    ///
    /// errno is supplied after the syscall adapter maps its lower error and
    /// must be a positive Linux errno number.
    pub fn failure(errno: i32) -> (result: Result<Self, MmError>)
        ensures
            match result {
                Ok(resolved) => {
                    &&& errno > 0
                    &&& resolved.reported_bytes() == -errno
                    &&& resolved.completed() is None
                    &&& resolved.outcome() is Failed
                    &&& resolved.wake_range() is None
                },
                Err(error) => errno <= 0 && error == MmError::InvalidUffdProgress,
            },
    {
        if errno <= 0 {
            return Err(MmError::InvalidUffdProgress);
        }
        Ok(
            Self {
                reported_bytes: -(errno as i64),
                completed: None,
                outcome: UffdResolverOutcome::Failed,
                wake: false,
            },
        )
    }

    fn progress(destination: PageRange, completed: usize, dontwake: bool) -> (result: Result<
        Self,
        MmError,
    >)
        ensures
            result matches Ok(resolved) ==> reports_progress(
                resolved,
                destination,
                completed,
                dontwake,
            ),
            result is Ok <==> is_progress(destination, completed) && completed <= i64::MAX,
            result matches Err(error) ==> error == if is_progress(destination, completed) {
                MmError::Overflow
            } else {
                MmError::InvalidUffdProgress
            },
    {
        let length = destination.len();
        if completed == 0 || completed > length || !destination.page_size().is_aligned(completed) {
            return Err(MmError::InvalidUffdProgress);
        }
        proof {
            use_type_invariant(&destination);
        }
        let completed_range = match destination.subrange(0, completed) {
            Ok(completed_range) => completed_range,
            Err(error) => return Err(error),
        };
        if completed as u64 > 0x7fff_ffff_ffff_ffffu64 {
            return Err(MmError::Overflow);
        }
        let outcome = if completed == length {
            UffdResolverOutcome::Complete
        } else {
            UffdResolverOutcome::Retry
        };
        Ok(
            Self {
                reported_bytes: completed as i64,
                completed: Some(completed_range),
                outcome,
                wake: !dontwake,
            },
        )
    }

    /// Signed value written to uffdio_copy.copy or uffdio_zeropage.zeropage.
    #[verifier::when_used_as_spec(spec_reported_bytes)]
    pub fn reported_bytes(self) -> (result: i64)
        ensures
            result == self.spec_reported_bytes(),
    {
        self.reported_bytes
    }

    /// Specification counterpart of [`Self::reported_bytes`].
    pub open(crate) spec fn spec_reported_bytes(self) -> i64 {
        self.reported_bytes
    }

    /// Prefix made irreversible by the lower page installer.
    #[verifier::when_used_as_spec(spec_completed)]
    pub fn completed(self) -> (result: Option<PageRange>)
        ensures
            result == self.spec_completed(),
    {
        self.completed
    }

    /// Specification counterpart of [`Self::completed`].
    pub open(crate) spec fn spec_completed(self) -> Option<PageRange> {
        self.completed
    }

    /// Ioctl return class after successful result copyout.
    #[verifier::when_used_as_spec(spec_outcome)]
    pub fn outcome(self) -> (result: UffdResolverOutcome)
        ensures
            result == self.spec_outcome(),
    {
        self.outcome
    }

    /// Specification counterpart of [`Self::outcome`].
    pub open(crate) spec fn spec_outcome(self) -> UffdResolverOutcome {
        self.outcome
    }

    /// Range to wake only after successful result copyout.
    #[verifier::when_used_as_spec(spec_wake_range)]
    pub fn wake_range(self) -> (result: Option<PageRange>)
        ensures
            result == self.spec_wake_range(),
    {
        if self.wake {
            self.completed
        } else {
            None
        }
    }

    /// Specification counterpart of [`Self::wake_range`].
    pub open(crate) spec fn spec_wake_range(self) -> Option<PageRange> {
        if self.wake {
            self.completed
        } else {
            None
        }
    }
}

/// `completed` bytes are a nonempty run of whole pages of the destination.
pub open spec fn is_progress(destination: PageRange, completed: usize) -> bool {
    0 < completed <= destination.len() && destination.page_size().is_aligned(completed)
}

/// The result reports the first `completed` bytes of the destination, is
/// complete exactly when those are all of them, and wakes that prefix unless
/// asked not to.
pub open spec fn reports_progress(
    resolved: UffdResolverResult,
    destination: PageRange,
    completed: usize,
    dontwake: bool,
) -> bool {
    &&& resolved.reported_bytes() == completed
    &&& resolved.completed() matches Some(prefix) && {
        &&& prefix.page_size() == destination.page_size()
        &&& prefix.start() == destination.start()
        &&& prefix.end() == destination.start() + completed
    }
    &&& resolved.outcome() == if completed == destination.len() {
        UffdResolverOutcome::Complete
    } else {
        UffdResolverOutcome::Retry
    }
    &&& resolved.wake_range() == if dontwake {
        None
    } else {
        resolved.completed()
    }
}

} // verus!
