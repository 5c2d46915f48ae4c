use crate::io_uring::error::IoUringError;
use crate::powers::power_of_two;
use vstd::arithmetic::power2::{lemma2_to64, lemma_pow2_pos, lemma_pow2_unfold, pow2};
use vstd::prelude::*;

verus! {

/// Linux's maximum setup submission entries.
pub const IORING_MAX_ENTRIES: u32 = 32_768;

/// Linux's maximum setup completion entries.
pub const IORING_MAX_CQ_ENTRIES: u32 = 65_536;

/// Linux's maximum registered-file slots before caller resource limits.
pub const IORING_MAX_FIXED_FILES: u32 = 1_048_576;

/// Shared SQ/CQ ring mmap offset.
pub const IORING_OFF_SQ_RING: u64 = 0;

/// Shared CQ ring mmap offset. `SINGLE_MMAP` aliases this to the SQ mapping.
pub const IORING_OFF_CQ_RING: u64 = 0x0800_0000;

/// Submission-entry array mmap offset.
pub const IORING_OFF_SQES: u64 = 0x1000_0000;

/// Bytes in one Linux ABI SQE supported by the first slice.
pub const SQE_BYTES: u32 = 64;

/// Bytes in one Linux ABI CQE supported by the first slice.
pub const CQE_BYTES: u32 = 16;

/// Bytes occupied by the cacheline-aligned shared ring header.
pub const RING_HEADER_BYTES: u32 = 64;

/// Alignment of the SQ index array.
pub const RING_ALIGNMENT: u32 = 64;

/// `p` is the smallest power of two that is not below `n`.
pub open spec fn rounds_up_to(n: int, p: int) -> bool {
    power_of_two(p) && n <= p < 2 * n
}

/// There is only one power of two in `[n, 2n)`.
pub proof fn rounding_is_unique(n: int, p: int, q: int)
    requires
        rounds_up_to(n, p),
        rounds_up_to(n, q),
    ensures
        p == q,
{
    let a = choose|k: nat| #[trigger] pow2(k) == p;
    let b = choose|k: nat| #[trigger] pow2(k) == q;
    if a < b {
        doubling(a, b);
    } else if b < a {
        doubling(b, a);
    }
}

pub(crate) proof fn doubling(a: nat, b: nat)
    requires
        a < b,
    ensures
        2 * pow2(a) <= pow2(b),
    decreases b,
{
    lemma_pow2_unfold(b);
    if a + 1 < b {
        doubling(a, (b - 1) as nat);
        lemma_pow2_pos((b - 1) as nat);
    }
}

/// Linux's queue limits are powers of two themselves.
pub proof fn queue_limits_are_powers_of_two()
    ensures
        power_of_two(IORING_MAX_ENTRIES as int),
        power_of_two(IORING_MAX_CQ_ENTRIES as int),
        power_of_two(1),
{
    lemma2_to64();
    assert(pow2(15) == IORING_MAX_ENTRIES);
    assert(pow2(16) == IORING_MAX_CQ_ENTRIES);
    assert(pow2(0) == 1);
}

/// Returns the smallest power of two that is not below `n`.
pub fn next_power_of_two(n: u32) -> (result: u32)
    requires
        1 <= n <= 0x8000_0000,
    ensures
        rounds_up_to(n as int, result as int),
        result <= 0x8000_0000,
{
    let mut p: u32 = 1;
    let ghost mut k: nat = 0;
    proof {
        lemma2_to64();
        assert(pow2(0) == p);
    }
    while p < n
        invariant
            pow2(k) == p,
            0 < p < 2 * n,
            p <= 0x8000_0000,
            n <= 0x8000_0000,
            k <= 31,
            p == 0x8000_0000 || k < 31,
        decreases 2 * n - p,
    {
        proof {
            lemma2_to64();
            lemma_pow2_unfold((k + 1) as nat);
            k = (k + 1) as nat;
            if k == 31 {
                assert(pow2(31) == 0x8000_0000);
            }
        }
        p = p * 2;
    }
    p
}

/// Caller-allocated stable identity for one ring instance.
#[derive(Clone, Copy, Debug, Eq, Hash, Ord, PartialEq, PartialOrd, Structural)]
pub struct RingId(pub(crate) u64);

impl RingId {
    #[verifier::type_invariant]
    pub(crate) open spec fn nonzero(self) -> bool {
        self.0 != 0
    }

    /// Builds a ring identity, rejecting the reserved zero value.
    pub fn new(raw: u64) -> (result: Result<Self, IoUringError>)
        ensures
            match result {
                Ok(id) => raw != 0 && id.get() == raw,
                Err(error) => raw == 0 && error == IoUringError::InvalidIdentity,
            },
    {
        if raw != 0 {
            Ok(Self(raw))
        } else {
            Err(IoUringError::InvalidIdentity)
        }
    }

    /// Returns the consumer-visible identity value.
    #[verifier::when_used_as_spec(spec_get)]
    pub fn get(self) -> (result: u64)
        ensures
            result == self.spec_get(),
            result != 0,
    {
        proof {
            use_type_invariant(&self);
        }
        self.0
    }

    /// Specification counterpart of [`Self::get`].
    pub open(crate) spec fn spec_get(self) -> u64 {
        self.0
    }
}

/// Strictly decoded setup flags supported by the initial core.
#[derive(Clone, Copy, Debug, Eq, PartialEq, Structural)]
pub struct SetupFlags(pub(crate) u32);

impl Default for SetupFlags {
    fn default() -> (result: Self)
        ensures
            result.bits() == 0,
    {
        Self(0)
    }
}

impl SetupFlags {
    /// Userspace supplied the requested CQ size in `cq_entries`.
    #[allow(non_snake_case)]
    #[verifier::when_used_as_spec(spec_CQSIZE)]
    pub fn CQSIZE() -> (result: Self)
        ensures
            result == Self::spec_CQSIZE(),
            result.bits() == 0x8u32,
    {
        Self(0x8u32)
    }

    /// Specification counterpart of [`Self::CQSIZE`].
    #[allow(non_snake_case)]
    pub open(crate) spec fn spec_CQSIZE() -> Self {
        Self(0x8u32)
    }

    /// Excessive SQ/CQ sizes are clamped to Linux's limits.
    #[allow(non_snake_case)]
    #[verifier::when_used_as_spec(spec_CLAMP)]
    pub fn CLAMP() -> (result: Self)
        ensures
            result == Self::spec_CLAMP(),
            result.bits() == 0x10u32,
    {
        Self(0x10u32)
    }

    /// Specification counterpart of [`Self::CLAMP`].
    #[allow(non_snake_case)]
    pub open(crate) spec fn spec_CLAMP() -> Self {
        Self(0x10u32)
    }

    /// Submission indexes directly address SQEs without an SQ array.
    #[allow(non_snake_case)]
    #[verifier::when_used_as_spec(spec_NO_SQARRAY)]
    pub fn NO_SQARRAY() -> (result: Self)
        ensures
            result == Self::spec_NO_SQARRAY(),
            result.bits() == 0x1_0000u32,
    {
        Self(0x1_0000u32)
    }

    /// Specification counterpart of [`Self::NO_SQARRAY`].
    #[allow(non_snake_case)]
    pub open(crate) spec fn spec_NO_SQARRAY() -> Self {
        Self(0x1_0000u32)
    }

    /// Every flag implemented by this version.
    #[allow(non_snake_case)]
    #[verifier::when_used_as_spec(spec_SUPPORTED)]
    pub fn SUPPORTED() -> (result: Self)
        ensures
            result == Self::spec_SUPPORTED(),
            result.bits() == 0x1_0018u32,
    {
        Self(0x1_0018u32)
    }

    /// Specification counterpart of [`Self::SUPPORTED`].
    #[allow(non_snake_case)]
    pub open(crate) spec fn spec_SUPPORTED() -> Self {
        Self(0x1_0018u32)
    }

    /// Strictly decodes setup bits before any allocation occurs.
    pub fn from_bits(bits: u32) -> (result: Result<Self, IoUringError>)
        ensures
            match result {
                Ok(flags) => bits & !SetupFlags::SUPPORTED().bits() == 0 && flags.bits() == bits,
                Err(error) => bits & !SetupFlags::SUPPORTED().bits() != 0 && error
                    == IoUringError::UnsupportedSetupFlags,
            },
    {
        if bits & !0x1_0018u32 == 0 {
            Ok(Self(bits))
        } else {
            Err(IoUringError::UnsupportedSetupFlags)
        }
    }

    /// Returns Linux-compatible raw setup bits.
    #[verifier::when_used_as_spec(spec_bits)]
    pub fn bits(self) -> (result: u32)
        ensures
            result == self.spec_bits(),
    {
        self.0
    }

    /// Specification counterpart of [`Self::bits`].
    pub open(crate) spec fn spec_bits(self) -> u32 {
        self.0
    }

    /// Returns whether all flags in `other` are present.
    #[verifier::when_used_as_spec(spec_contains)]
    pub fn contains(self, other: Self) -> (result: bool)
        ensures
            result == self.spec_contains(other),
    {
        self.0 & other.0 == other.0
    }

    /// Specification counterpart of [`Self::contains`].
    pub open spec fn spec_contains(self, other: Self) -> bool {
        self.bits() & other.bits() == other.bits()
    }
}

/// Feature bits that the resolved layout can prove.
#[derive(Clone, Copy, Debug, Eq, PartialEq, Structural)]
pub struct FeatureFlags(pub(crate) u32);

impl Default for FeatureFlags {
    fn default() -> (result: Self)
        ensures
            result.bits() == 0,
    {
        Self(0)
    }
}

impl FeatureFlags {
    /// No feature has yet been proved by the embedding adapter.
    #[allow(non_snake_case)]
    #[verifier::when_used_as_spec(spec_EMPTY)]
    pub fn EMPTY() -> (result: Self)
        ensures
            result == Self::spec_EMPTY(),
            result.bits() == 0u32,
    {
        Self(0u32)
    }

    /// Specification counterpart of [`Self::EMPTY`].
    #[allow(non_snake_case)]
    pub open(crate) spec fn spec_EMPTY() -> Self {
        Self(0u32)
    }

    /// SQ and CQ offsets name the same backing mapping.
    #[allow(non_snake_case)]
    #[verifier::when_used_as_spec(spec_SINGLE_MMAP)]
    pub fn SINGLE_MMAP() -> (result: Self)
        ensures
            result == Self::spec_SINGLE_MMAP(),
            result.bits() == 0x1u32,
    {
        Self(0x1u32)
    }

    /// Specification counterpart of [`Self::SINGLE_MMAP`].
    #[allow(non_snake_case)]
    pub open(crate) spec fn spec_SINGLE_MMAP() -> Self {
        Self(0x1u32)
    }

    /// Every accepted one-shot request owns terminal CQ capacity until reaped.
    #[allow(non_snake_case)]
    #[verifier::when_used_as_spec(spec_NODROP)]
    pub fn NODROP() -> (result: Self)
        ensures
            result == Self::spec_NODROP(),
            result.bits() == 0x2u32,
    {
        Self(0x2u32)
    }

    /// Specification counterpart of [`Self::NODROP`].
    #[allow(non_snake_case)]
    pub open(crate) spec fn spec_NODROP() -> Self {
        Self(0x2u32)
    }

    /// The adapter consumes no SQE field after its stable private copy.
    #[allow(non_snake_case)]
    #[verifier::when_used_as_spec(spec_SUBMIT_STABLE)]
    pub fn SUBMIT_STABLE() -> (result: Self)
        ensures
            result == Self::spec_SUBMIT_STABLE(),
            result.bits() == 0x4u32,
    {
        Self(0x4u32)
    }

    /// Specification counterpart of [`Self::SUBMIT_STABLE`].
    #[allow(non_snake_case)]
    pub open(crate) spec fn spec_SUBMIT_STABLE() -> Self {
        Self(0x4u32)
    }

    /// One-shot poll consumes the complete 32-bit `poll32_events` field.
    #[allow(non_snake_case)]
    #[verifier::when_used_as_spec(spec_POLL_32BITS)]
    pub fn POLL_32BITS() -> (result: Self)
        ensures
            result == Self::spec_POLL_32BITS(),
            result.bits() == 0x40u32,
    {
        Self(0x40u32)
    }

    /// Specification counterpart of [`Self::POLL_32BITS`].
    #[allow(non_snake_case)]
    pub open(crate) spec fn spec_POLL_32BITS() -> Self {
        Self(0x40u32)
    }

    /// Complete feature set supported by the initial core contract.
    ///
    /// The adapter must prove the shared backing, publication, copied-SQE,
    /// and readiness conditions before returning a layout to userspace.
    #[allow(non_snake_case)]
    #[verifier::when_used_as_spec(spec_INITIAL)]
    pub fn INITIAL() -> (result: Self)
        ensures
            result == Self::spec_INITIAL(),
            result.bits() == 0x47u32,
    {
        Self(0x47u32)
    }

    /// Specification counterpart of [`Self::INITIAL`].
    #[allow(non_snake_case)]
    pub open(crate) spec fn spec_INITIAL() -> Self {
        Self(0x47u32)
    }

    /// Strictly decodes only features implemented by this core contract.
    pub fn from_bits(bits: u32) -> (result: Result<Self, IoUringError>)
        ensures
            match result {
                Ok(flags) => bits & !FeatureFlags::INITIAL().bits() == 0 && flags.bits() == bits,
                Err(error) => bits & !FeatureFlags::INITIAL().bits() != 0 && error
                    == IoUringError::UnsupportedFeatureFlags,
            },
    {
        if bits & !0x47u32 == 0 {
            Ok(Self(bits))
        } else {
            Err(IoUringError::UnsupportedFeatureFlags)
        }
    }

    /// Returns Linux-compatible raw feature bits.
    #[verifier::when_used_as_spec(spec_bits)]
    pub fn bits(self) -> (result: u32)
        ensures
            result == self.spec_bits(),
    {
        self.0
    }

    /// Specification counterpart of [`Self::bits`].
    pub open(crate) spec fn spec_bits(self) -> u32 {
        self.0
    }

    /// Returns whether all feature bits in `other` are present.
    pub fn contains(self, other: Self) -> (result: bool)
        ensures
            result == (self.bits() & other.bits() == other.bits()),
    {
        self.0 & other.0 == other.0
    }

    /// Combines independently proved initial features.
    pub fn union(self, other: Self) -> (result: Self)
        ensures
            result.bits() == self.bits() | other.bits(),
    {
        Self(self.0 | other.0)
    }
}

/// The supported setup and feature sets are the unions of their named bits.
pub proof fn supported_bits_are_the_named_ones()
    ensures
        SetupFlags::SUPPORTED().bits() == SetupFlags::CQSIZE().bits() | SetupFlags::CLAMP().bits()
            | SetupFlags::NO_SQARRAY().bits(),
        FeatureFlags::INITIAL().bits() == FeatureFlags::SINGLE_MMAP().bits()
            | FeatureFlags::NODROP().bits() | FeatureFlags::SUBMIT_STABLE().bits()
            | FeatureFlags::POLL_32BITS().bits(),
{
    assert(0x1_0018u32 == 0x8u32 | 0x10u32 | 0x1_0000u32 && 0x47u32 == 0x1u32 | 0x2u32 | 0x4u32
        | 0x40u32) by (bit_vector);
}

/// Raw setup inputs after syscall copyin but before ring allocation.
#[derive(Clone, Copy, Debug, Eq, PartialEq, Structural)]
pub struct SetupRequest {
    pub(crate) entries: u32,
    pub(crate) cq_entries: u32,
    pub(crate) flags: SetupFlags,
}

/// A requested queue depth after clamping to the Linux limit.
pub open spec fn clamped(entries: u32, limit: u32) -> u32 {
    if entries > limit {
        limit
    } else {
        entries
    }
}

impl SetupRequest {
    /// Builds a request from the fields used by the supported initial profile.
    pub fn new(entries: u32, cq_entries: u32, flags: SetupFlags) -> (result: Self)
        ensures
            result.entries() == entries,
            result.cq_entries() == cq_entries,
            result.flags() == flags,
    {
        Self { entries, cq_entries, flags }
    }

    /// Strictly decodes a copied Linux `io_uring_params` input.
    ///
    /// Worker-thread fields are required to be zero because this profile does
    /// not implement `SQPOLL`, affinity, or attached workqueues. Linux's three
    /// reserved words are also checked before any allocation.
    pub fn from_raw(
        entries: u32,
        cq_entries: u32,
        flags: u32,
        sq_thread_cpu: u32,
        sq_thread_idle: u32,
        wq_fd: u32,
        reserved: [u32; 3],
    ) -> (result: Result<Self, IoUringError>)
        ensures
            ({
                let zero = sq_thread_cpu == 0 && sq_thread_idle == 0 && wq_fd == 0 && reserved@[0]
                    == 0 && reserved@[1] == 0 && reserved@[2] == 0;
                let known = flags & !SetupFlags::SUPPORTED().bits() == 0;
                match result {
                    Ok(request) => {
                        &&& zero && known
                        &&& request.entries() == entries
                        &&& request.cq_entries() == cq_entries
                        &&& request.flags().bits() == flags
                    },
                    Err(error) => if !zero {
                        error == IoUringError::ReservedFieldNonZero
                    } else {
                        !known && error == IoUringError::UnsupportedSetupFlags
                    },
                }
            }),
    {
        if sq_thread_cpu != 0 || sq_thread_idle != 0 || wq_fd != 0 || reserved[0] != 0
            || reserved[1] != 0 || reserved[2] != 0 {
            return Err(IoUringError::ReservedFieldNonZero);
        }
        match SetupFlags::from_bits(flags) {
            Ok(flags) => Ok(Self::new(entries, cq_entries, flags)),
            Err(error) => Err(error),
        }
    }

    /// Requested SQ entries before clamp and power-of-two rounding.
    #[verifier::when_used_as_spec(spec_entries)]
    pub fn entries(self) -> (result: u32)
        ensures
            result == self.spec_entries(),
    {
        self.entries
    }

    /// Specification counterpart of [`Self::entries`].
    pub open(crate) spec fn spec_entries(self) -> u32 {
        self.entries
    }

    /// Requested CQ entries. This is ignored unless `CQSIZE` is set.
    #[verifier::when_used_as_spec(spec_cq_entries)]
    pub fn cq_entries(self) -> (result: u32)
        ensures
            result == self.spec_cq_entries(),
    {
        self.cq_entries
    }

    /// Specification counterpart of [`Self::cq_entries`].
    pub open(crate) spec fn spec_cq_entries(self) -> u32 {
        self.cq_entries
    }

    /// Strictly decoded setup flags.
    #[verifier::when_used_as_spec(spec_flags)]
    pub fn flags(self) -> (result: SetupFlags)
        ensures
            result == self.spec_flags(),
    {
        self.flags
    }

    /// Specification counterpart of [`Self::flags`].
    pub open(crate) spec fn spec_flags(self) -> SetupFlags {
        self.flags
    }

    /// Why the submission depth is refused, if it is.
    pub open spec fn sq_refusal(self) -> Option<IoUringError> {
        if self.entries() == 0 {
            Some(IoUringError::ZeroEntries)
        } else if self.entries() > IORING_MAX_ENTRIES && !self.flags().contains(
            SetupFlags::CLAMP(),
        ) {
            Some(IoUringError::SubmissionEntriesTooLarge)
        } else {
            None
        }
    }

    /// `depth` is the submission depth that an acceptable request resolves to.
    pub open spec fn sq_depth(self, depth: int) -> bool {
        rounds_up_to(clamped(self.entries(), IORING_MAX_ENTRIES) as int, depth)
    }

    /// `depth` is the completion depth that an acceptable request resolves to,
    /// given its submission depth.
    pub open spec fn cq_depth(self, sq: int, depth: int) -> bool {
        if self.flags().contains(SetupFlags::CQSIZE()) {
            rounds_up_to(clamped(self.cq_entries(), IORING_MAX_CQ_ENTRIES) as int, depth)
        } else {
            depth == 2 * sq
        }
    }

    /// Validates setup geometry and produces exact shared-memory offsets.
    pub fn resolve(self) -> (result: Result<RingLayout, IoUringError>)
        ensures
            match result {
                Ok(layout) => {
                    let sq = layout.sq_entries();
                    let cq = layout.cq_entries();
                    let cqe_end = RING_HEADER_BYTES + cq * CQE_BYTES;
                    let array = (cqe_end + 63) / 64 * 64;
                    &&& self.sq_refusal() is None
                    &&& self.sq_depth(sq as int)
                    &&& self.cq_depth(sq as int, cq as int)
                    &&& sq <= cq
                    &&& self.flags().contains(SetupFlags::CQSIZE()) ==> {
                        &&& self.cq_entries() != 0
                        &&& self.cq_entries() > IORING_MAX_CQ_ENTRIES ==> self.flags().contains(
                            SetupFlags::CLAMP(),
                        )
                    }
                    &&& layout.setup_flags() == self.flags()
                    &&& layout.features() == FeatureFlags::INITIAL()
                    &&& layout.sq_offsets().head() == 0
                    &&& layout.sq_offsets().tail() == 4
                    &&& layout.sq_offsets().ring_mask() == 16
                    &&& layout.sq_offsets().ring_entries() == 24
                    &&& layout.sq_offsets().flags() == 36
                    &&& layout.sq_offsets().dropped() == 32
                    &&& layout.cq_offsets().head() == 8
                    &&& layout.cq_offsets().tail() == 12
                    &&& layout.cq_offsets().ring_mask() == 20
                    &&& layout.cq_offsets().ring_entries() == 28
                    &&& layout.cq_offsets().overflow() == 44
                    &&& layout.cq_offsets().cqes() == RING_HEADER_BYTES
                    &&& layout.cq_offsets().flags() == 40
                    &&& layout.sqe_bytes() == sq * SQE_BYTES
                    &&& if self.flags().contains(SetupFlags::NO_SQARRAY()) {
                        &&& layout.sq_offsets().array() is None
                        &&& layout.ring_bytes() == cqe_end
                    } else {
                        &&& layout.sq_offsets().array() matches Some(offset)
                        &&& offset == array
                        &&& layout.ring_bytes() == array + sq * 4
                    }
                },
                Err(error) => match self.sq_refusal() {
                    Some(refusal) => error == refusal,
                    None => {
                        &&& self.flags().contains(SetupFlags::CQSIZE())
                        &&& if self.cq_entries() == 0 {
                            error == IoUringError::ZeroCompletionEntries
                        } else if self.cq_entries() > IORING_MAX_CQ_ENTRIES
                            && !self.flags().contains(SetupFlags::CLAMP()) {
                            error == IoUringError::CompletionEntriesTooLarge
                        } else {
                            &&& error == IoUringError::CompletionEntriesTooSmall
                            &&& exists|sq: int, cq: int|
                                #![trigger self.sq_depth(sq), self.cq_depth(sq, cq)]
                                self.sq_depth(sq) && self.cq_depth(sq, cq) && cq < sq
                        }
                    },
                },
            },
    {
        let sq_entries = self.resolve_sq_entries()?;
        let cq_entries = self.resolve_cq_entries(sq_entries)?;
        let cqe_end: u32 = RING_HEADER_BYTES + cq_entries * CQE_BYTES;
        let sq_array = if self.flags.contains(SetupFlags::NO_SQARRAY()) {
            None
        } else {
            Some(align_up(cqe_end))
        };
        let ring_bytes: u32 = match sq_array {
            Some(offset) => offset + sq_entries * 4,
            None => cqe_end,
        };
        let sqe_bytes: u32 = sq_entries * SQE_BYTES;
        Ok(
            RingLayout {
                sq_entries,
                cq_entries,
                setup_flags: self.flags,
                features: FeatureFlags::INITIAL(),
                sq_offsets: SubmissionQueueOffsets {
                    head: 0,
                    tail: 4,
                    ring_mask: 16,
                    ring_entries: 24,
                    flags: 36,
                    dropped: 32,
                    array: sq_array,
                },
                cq_offsets: CompletionQueueOffsets {
                    head: 8,
                    tail: 12,
                    ring_mask: 20,
                    ring_entries: 28,
                    overflow: 44,
                    cqes: RING_HEADER_BYTES,
                    flags: 40,
                },
                ring_bytes,
                sqe_bytes,
            },
        )
    }

    fn resolve_sq_entries(self) -> (result: Result<u32, IoUringError>)
        ensures
            match result {
                Ok(depth) => {
                    &&& self.sq_refusal() is None
                    &&& self.sq_depth(depth as int)
                    &&& 1 <= depth <= IORING_MAX_ENTRIES
                },
                Err(error) => self.sq_refusal() == Some(error),
            },
    {
        if self.entries == 0 {
            return Err(IoUringError::ZeroEntries);
        }
        let entries = if self.entries > IORING_MAX_ENTRIES {
            if self.flags.contains(SetupFlags::CLAMP()) {
                IORING_MAX_ENTRIES
            } else {
                return Err(IoUringError::SubmissionEntriesTooLarge);
            }
        } else {
            self.entries
        };
        let depth = next_power_of_two(entries);
        proof {
            below_limit(entries, IORING_MAX_ENTRIES, depth);
        }
        Ok(depth)
    }

    fn resolve_cq_entries(self, sq_entries: u32) -> (result: Result<u32, IoUringError>)
        requires
            1 <= sq_entries <= IORING_MAX_ENTRIES,
            self.sq_depth(sq_entries as int),
        ensures
            match result {
                Ok(depth) => {
                    &&& self.cq_depth(sq_entries as int, depth as int)
                    &&& power_of_two(depth as int)
                    &&& sq_entries <= depth <= IORING_MAX_CQ_ENTRIES
                    &&& self.flags().contains(SetupFlags::CQSIZE()) ==> {
                        &&& self.cq_entries() != 0
                        &&& self.cq_entries() > IORING_MAX_CQ_ENTRIES ==> self.flags().contains(
                            SetupFlags::CLAMP(),
                        )
                    }
                },
                Err(error) => {
                    &&& self.flags().contains(SetupFlags::CQSIZE())
                    &&& if self.cq_entries() == 0 {
                        error == IoUringError::ZeroCompletionEntries
                    } else if self.cq_entries() > IORING_MAX_CQ_ENTRIES && !self.flags().contains(
                        SetupFlags::CLAMP(),
                    ) {
                        error == IoUringError::CompletionEntriesTooLarge
                    } else {
                        &&& error == IoUringError::CompletionEntriesTooSmall
                        &&& exists|cq: int| #[trigger]
                            self.cq_depth(sq_entries as int, cq) && cq < sq_entries
                    }
                },
            },
    {
        if !self.flags.contains(SetupFlags::CQSIZE()) {
            proof {
                let k = choose|k: nat| #[trigger] pow2(k) == sq_entries;
                lemma_pow2_unfold((k + 1) as nat);
                assert(pow2((k + 1) as nat) == 2 * sq_entries);
            }
            return Ok(sq_entries * 2);
        }
        if self.cq_entries == 0 {
            return Err(IoUringError::ZeroCompletionEntries);
        }
        let requested = if self.cq_entries > IORING_MAX_CQ_ENTRIES {
            if self.flags.contains(SetupFlags::CLAMP()) {
                IORING_MAX_CQ_ENTRIES
            } else {
                return Err(IoUringError::CompletionEntriesTooLarge);
            }
        } else {
            self.cq_entries
        };
        let entries = next_power_of_two(requested);
        proof {
            below_limit(requested, IORING_MAX_CQ_ENTRIES, entries);
            assert(self.cq_depth(sq_entries as int, entries as int));
        }
        if entries < sq_entries {
            return Err(IoUringError::CompletionEntriesTooSmall);
        }
        Ok(entries)
    }
}

/// Rounding a depth within a power-of-two limit stays within it.
proof fn below_limit(n: u32, limit: u32, p: u32)
    requires
        1 <= n <= limit,
        rounds_up_to(n as int, p as int),
        limit == IORING_MAX_ENTRIES || limit == IORING_MAX_CQ_ENTRIES,
    ensures
        p <= limit,
{
    queue_limits_are_powers_of_two();
    let a = choose|k: nat| #[trigger] pow2(k) == p;
    let b = choose|k: nat| #[trigger] pow2(k) == limit;
    if b < a {
        doubling(b, a);
    } else if a < b {
        doubling(a, b);
    }
}

/// Rounds up to the ring alignment.
fn align_up(value: u32) -> (result: u32)
    requires
        value <= 0x1000_0000,
    ensures
        result == (value + 63) / 64 * 64,
{
    let padded: u32 = value + 63;
    assert(padded & !63u32 == padded / 64 * 64) by (bit_vector);
    padded & !63u32
}

/// Published submission-ring byte offsets.
#[derive(Clone, Copy, Debug, Eq, PartialEq, Structural)]
pub struct SubmissionQueueOffsets {
    pub(crate) head: u32,
    pub(crate) tail: u32,
    pub(crate) ring_mask: u32,
    pub(crate) ring_entries: u32,
    pub(crate) flags: u32,
    pub(crate) dropped: u32,
    pub(crate) array: Option<u32>,
}

impl SubmissionQueueOffsets {
    /// Kernel-owned SQ head offset.
    #[verifier::when_used_as_spec(spec_head)]
    pub fn head(self) -> (result: u32)
        ensures
            result == self.spec_head(),
    {
        self.head
    }

    /// Specification counterpart of [`Self::head`].
    pub open(crate) spec fn spec_head(self) -> u32 {
        self.head
    }

    /// Userspace-owned SQ tail offset.
    #[verifier::when_used_as_spec(spec_tail)]
    pub fn tail(self) -> (result: u32)
        ensures
            result == self.spec_tail(),
    {
        self.tail
    }

    /// Specification counterpart of [`Self::tail`].
    pub open(crate) spec fn spec_tail(self) -> u32 {
        self.tail
    }

    /// Constant SQ mask offset.
    #[verifier::when_used_as_spec(spec_ring_mask)]
    pub fn ring_mask(self) -> (result: u32)
        ensures
            result == self.spec_ring_mask(),
    {
        self.ring_mask
    }

    /// Specification counterpart of [`Self::ring_mask`].
    pub open(crate) spec fn spec_ring_mask(self) -> u32 {
        self.ring_mask
    }

    /// Constant SQ entry count offset.
    #[verifier::when_used_as_spec(spec_ring_entries)]
    pub fn ring_entries(self) -> (result: u32)
        ensures
            result == self.spec_ring_entries(),
    {
        self.ring_entries
    }

    /// Specification counterpart of [`Self::ring_entries`].
    pub open(crate) spec fn spec_ring_entries(self) -> u32 {
        self.ring_entries
    }

    /// Kernel-owned runtime SQ flags offset.
    #[verifier::when_used_as_spec(spec_flags)]
    pub fn flags(self) -> (result: u32)
        ensures
            result == self.spec_flags(),
    {
        self.flags
    }

    /// Specification counterpart of [`Self::flags`].
    pub open(crate) spec fn spec_flags(self) -> u32 {
        self.flags
    }

    /// Kernel-owned invalid-index counter offset.
    #[verifier::when_used_as_spec(spec_dropped)]
    pub fn dropped(self) -> (result: u32)
        ensures
            result == self.spec_dropped(),
    {
        self.dropped
    }

    /// Specification counterpart of [`Self::dropped`].
    pub open(crate) spec fn spec_dropped(self) -> u32 {
        self.dropped
    }

    /// Optional SQ index-array offset. `None` means `NO_SQARRAY`.
    #[verifier::when_used_as_spec(spec_array)]
    pub fn array(self) -> (result: Option<u32>)
        ensures
            result == self.spec_array(),
    {
        self.array
    }

    /// Specification counterpart of [`Self::array`].
    pub open(crate) spec fn spec_array(self) -> Option<u32> {
        self.array
    }
}

/// Published completion-ring byte offsets.
#[derive(Clone, Copy, Debug, Eq, PartialEq, Structural)]
pub struct CompletionQueueOffsets {
    pub(crate) head: u32,
    pub(crate) tail: u32,
    pub(crate) ring_mask: u32,
    pub(crate) ring_entries: u32,
    pub(crate) overflow: u32,
    pub(crate) cqes: u32,
    pub(crate) flags: u32,
}

impl CompletionQueueOffsets {
    /// Userspace-owned CQ head offset.
    #[verifier::when_used_as_spec(spec_head)]
    pub fn head(self) -> (result: u32)
        ensures
            result == self.spec_head(),
    {
        self.head
    }

    /// Specification counterpart of [`Self::head`].
    pub open(crate) spec fn spec_head(self) -> u32 {
        self.head
    }

    /// Kernel-owned CQ tail offset.
    #[verifier::when_used_as_spec(spec_tail)]
    pub fn tail(self) -> (result: u32)
        ensures
            result == self.spec_tail(),
    {
        self.tail
    }

    /// Specification counterpart of [`Self::tail`].
    pub open(crate) spec fn spec_tail(self) -> u32 {
        self.tail
    }

    /// Constant CQ mask offset.
    #[verifier::when_used_as_spec(spec_ring_mask)]
    pub fn ring_mask(self) -> (result: u32)
        ensures
            result == self.spec_ring_mask(),
    {
        self.ring_mask
    }

    /// Specification counterpart of [`Self::ring_mask`].
    pub open(crate) spec fn spec_ring_mask(self) -> u32 {
        self.ring_mask
    }

    /// Constant CQ entry count offset.
    #[verifier::when_used_as_spec(spec_ring_entries)]
    pub fn ring_entries(self) -> (result: u32)
        ensures
            result == self.spec_ring_entries(),
    {
        self.ring_entries
    }

    /// Specification counterpart of [`Self::ring_entries`].
    pub open(crate) spec fn spec_ring_entries(self) -> u32 {
        self.ring_entries
    }

    /// Kernel-owned overflow counter offset.
    #[verifier::when_used_as_spec(spec_overflow)]
    pub fn overflow(self) -> (result: u32)
        ensures
            result == self.spec_overflow(),
    {
        self.overflow
    }

    /// Specification counterpart of [`Self::overflow`].
    pub open(crate) spec fn spec_overflow(self) -> u32 {
        self.overflow
    }

    /// First CQE byte offset.
    #[verifier::when_used_as_spec(spec_cqes)]
    pub fn cqes(self) -> (result: u32)
        ensures
            result == self.spec_cqes(),
    {
        self.cqes
    }

    /// Specification counterpart of [`Self::cqes`].
    pub open(crate) spec fn spec_cqes(self) -> u32 {
        self.cqes
    }

    /// Userspace-owned CQ runtime flags offset.
    #[verifier::when_used_as_spec(spec_flags)]
    pub fn flags(self) -> (result: u32)
        ensures
            result == self.spec_flags(),
    {
        self.flags
    }

    /// Specification counterpart of [`Self::flags`].
    pub open(crate) spec fn spec_flags(self) -> u32 {
        self.flags
    }
}

/// One mmap-visible backing region.
#[derive(Clone, Copy, Debug, Eq, PartialEq, Structural)]
pub enum MappingRegion {
    /// The single shared SQ/CQ header, CQEs, and optional SQ array.
    Rings,
    /// The separately mapped array of 64-byte SQEs.
    SubmissionEntries,
}

/// Fully resolved, Linux-compatible initial ring geometry.
#[derive(Clone, Copy, Debug, Eq, PartialEq, Structural)]
pub struct RingLayout {
    pub(crate) sq_entries: u32,
    pub(crate) cq_entries: u32,
    pub(crate) setup_flags: SetupFlags,
    pub(crate) features: FeatureFlags,
    pub(crate) sq_offsets: SubmissionQueueOffsets,
    pub(crate) cq_offsets: CompletionQueueOffsets,
    pub(crate) ring_bytes: u32,
    pub(crate) sqe_bytes: u32,
}

impl RingLayout {
    /// Both depths are powers of two within Linux's limits, and the completion
    /// queue is at least as deep as the submission queue.
    #[verifier::type_invariant]
    pub(crate) open spec fn geometry(self) -> bool {
        &&& power_of_two(self.sq_entries as int)
        &&& power_of_two(self.cq_entries as int)
        &&& 1 <= self.sq_entries <= self.cq_entries
        &&& self.sq_entries <= IORING_MAX_ENTRIES
        &&& self.cq_entries <= IORING_MAX_CQ_ENTRIES
    }

    /// Actual power-of-two submission entries.
    #[verifier::when_used_as_spec(spec_sq_entries)]
    pub fn sq_entries(self) -> (result: u32)
        ensures
            result == self.spec_sq_entries(),
            power_of_two(result as int),
            1 <= result <= IORING_MAX_ENTRIES,
    {
        proof {
            use_type_invariant(&self);
        }
        self.sq_entries
    }

    /// Specification counterpart of [`Self::sq_entries`].
    pub open(crate) spec fn spec_sq_entries(self) -> u32 {
        self.sq_entries
    }

    /// Actual power-of-two completion entries.
    #[verifier::when_used_as_spec(spec_cq_entries)]
    pub fn cq_entries(self) -> (result: u32)
        ensures
            result == self.spec_cq_entries(),
            power_of_two(result as int),
            self.sq_entries() <= result <= IORING_MAX_CQ_ENTRIES,
    {
        proof {
            use_type_invariant(&self);
        }
        self.cq_entries
    }

    /// Specification counterpart of [`Self::cq_entries`].
    pub open(crate) spec fn spec_cq_entries(self) -> u32 {
        self.cq_entries
    }

    /// Actual SQ ring mask.
    pub fn sq_mask(self) -> (result: u32)
        ensures
            result == self.sq_entries() - 1,
    {
        proof {
            use_type_invariant(&self);
        }
        self.sq_entries - 1
    }

    /// Actual CQ ring mask.
    pub fn cq_mask(self) -> (result: u32)
        ensures
            result == self.cq_entries() - 1,
    {
        proof {
            use_type_invariant(&self);
        }
        self.cq_entries - 1
    }

    /// Setup flags preserved in returned params.
    #[verifier::when_used_as_spec(spec_setup_flags)]
    pub fn setup_flags(self) -> (result: SetupFlags)
        ensures
            result == self.spec_setup_flags(),
    {
        self.setup_flags
    }

    /// Specification counterpart of [`Self::setup_flags`].
    pub open(crate) spec fn spec_setup_flags(self) -> SetupFlags {
        self.setup_flags
    }

    /// Features proved by this geometry and lifecycle contract.
    #[verifier::when_used_as_spec(spec_features)]
    pub fn features(self) -> (result: FeatureFlags)
        ensures
            result == self.spec_features(),
    {
        self.features
    }

    /// Specification counterpart of [`Self::features`].
    pub open(crate) spec fn spec_features(self) -> FeatureFlags {
        self.features
    }

    /// Published SQ offsets.
    #[verifier::when_used_as_spec(spec_sq_offsets)]
    pub fn sq_offsets(self) -> (result: SubmissionQueueOffsets)
        ensures
            result == self.spec_sq_offsets(),
    {
        self.sq_offsets
    }

    /// Specification counterpart of [`Self::sq_offsets`].
    pub open(crate) spec fn spec_sq_offsets(self) -> SubmissionQueueOffsets {
        self.sq_offsets
    }

    /// Published CQ offsets.
    #[verifier::when_used_as_spec(spec_cq_offsets)]
    pub fn cq_offsets(self) -> (result: CompletionQueueOffsets)
        ensures
            result == self.spec_cq_offsets(),
    {
        self.cq_offsets
    }

    /// Specification counterpart of [`Self::cq_offsets`].
    pub open(crate) spec fn spec_cq_offsets(self) -> CompletionQueueOffsets {
        self.cq_offsets
    }

    /// Exact bytes needed by the shared ring backing before page rounding.
    #[verifier::when_used_as_spec(spec_ring_bytes)]
    pub fn ring_bytes(self) -> (result: u32)
        ensures
            result == self.spec_ring_bytes(),
    {
        self.ring_bytes
    }

    /// Specification counterpart of [`Self::ring_bytes`].
    pub open(crate) spec fn spec_ring_bytes(self) -> u32 {
        self.ring_bytes
    }

    /// Exact bytes needed by the SQE backing before page rounding.
    #[verifier::when_used_as_spec(spec_sqe_bytes)]
    pub fn sqe_bytes(self) -> (result: u32)
        ensures
            result == self.spec_sqe_bytes(),
    {
        self.sqe_bytes
    }

    /// Specification counterpart of [`Self::sqe_bytes`].
    pub open(crate) spec fn spec_sqe_bytes(self) -> u32 {
        self.sqe_bytes
    }

    /// Resolves one Linux io_uring mmap offset to its backing region.
    pub fn mapping_region(self, offset: u64) -> (result: Result<MappingRegion, IoUringError>)
        ensures
            result == if offset == IORING_OFF_SQ_RING || offset == IORING_OFF_CQ_RING {
                Ok::<MappingRegion, IoUringError>(MappingRegion::Rings)
            } else if offset == IORING_OFF_SQES {
                Ok(MappingRegion::SubmissionEntries)
            } else {
                Err(IoUringError::InvalidMappingOffset)
            },
    {
        if offset == IORING_OFF_SQ_RING || offset == IORING_OFF_CQ_RING {
            Ok(MappingRegion::Rings)
        } else if offset == IORING_OFF_SQES {
            Ok(MappingRegion::SubmissionEntries)
        } else {
            Err(IoUringError::InvalidMappingOffset)
        }
    }

    /// Returns exact unrounded bytes for one mmap region.
    pub fn mapping_bytes(self, region: MappingRegion) -> (result: u32)
        ensures
            result == match region {
                MappingRegion::Rings => self.ring_bytes(),
                MappingRegion::SubmissionEntries => self.sqe_bytes(),
            },
    {
        match region {
            MappingRegion::Rings => self.ring_bytes,
            MappingRegion::SubmissionEntries => self.sqe_bytes,
        }
    }

    /// Validates a copied SQ head/tail pair and returns pending submissions.
    pub fn pending_submissions(self, head: u32, tail: u32) -> (result: Result<u32, IoUringError>)
        ensures
            match result {
                Ok(pending) => pending == distance(head, tail) && pending <= self.sq_entries(),
                Err(error) => error == IoUringError::InvalidQueueGeometry && distance(head, tail)
                    > self.sq_entries(),
            },
    {
        let pending = tail.wrapping_sub(head);
        if pending <= self.sq_entries {
            Ok(pending)
        } else {
            Err(IoUringError::InvalidQueueGeometry)
        }
    }

    /// Maps a monotonic SQ counter to its shared ring slot.
    pub fn submission_slot(self, counter: u32) -> (result: u32)
        ensures
            result == counter % self.sq_entries(),
            result < self.sq_entries(),
    {
        proof {
            use_type_invariant(&self);
            mask_is_remainder(counter, self.sq_entries);
        }
        counter & (self.sq_entries - 1)
    }

    /// Validates an SQ-array value before using it as an SQE index.
    pub fn validate_sqe_index(self, index: u32) -> (result: Result<u32, IoUringError>)
        ensures
            result == if index < self.sq_entries() {
                Ok::<u32, IoUringError>(index)
            } else {
                Err(IoUringError::InvalidSubmission)
            },
    {
        if index < self.sq_entries {
            Ok(index)
        } else {
            Err(IoUringError::InvalidSubmission)
        }
    }
}

/// How far a wrapping 32-bit counter advanced from `head` to `tail`.
pub open spec fn distance(head: u32, tail: u32) -> int {
    if tail >= head {
        tail - head
    } else {
        tail - head + 0x1_0000_0000
    }
}

/// Masking a counter with a power-of-two depth less one is the remainder by
/// that depth.
pub proof fn mask_is_remainder(counter: u32, depth: u32)
    requires
        power_of_two(depth as int),
    ensures
        depth >= 1,
        counter & ((depth - 1) as u32) == counter % depth,
{
    let k = choose|k: nat| #[trigger] pow2(k) == depth;
    lemma_pow2_pos(k);
    if k >= 32 {
        lemma2_to64();
        if k > 32 {
            doubling(32, k);
        }
        assert(pow2(32) == 0x1_0000_0000);
    }
    vstd::bits::lemma_u32_low_bits_mask_is_mod(counter, k);
}

} // verus!
