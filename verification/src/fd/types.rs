use core::ops::{BitAnd, BitAndAssign, BitOr, BitOrAssign, Not};
use vstd::prelude::*;
use vstd::std_specs::ops::{BitAndSpecImpl, BitOrSpecImpl, NotSpecImpl};

verus! {

/// Non-negative Linux file-descriptor number.
#[derive(Debug, Clone, Copy, PartialEq, Eq, PartialOrd, Ord, Hash, Structural)]
pub struct FdNumber(pub(crate) u32);

impl FdNumber {
    /// Creates a descriptor number from its unsigned ABI representation.
    pub fn new(raw: u32) -> (result: Self)
        ensures
            result.get() == raw,
    {
        Self(raw)
    }

    /// Rejects negative signed ABI values.
    pub fn from_i32(raw: i32) -> (result: Option<Self>)
        ensures
            result is Some <==> raw >= 0,
            result matches Some(fd) ==> fd.get() == raw,
    {
        if raw < 0 {
            None
        } else {
            Some(Self(raw as u32))
        }
    }

    /// Returns the numeric descriptor.
    #[verifier::when_used_as_spec(spec_get)]
    pub fn get(self) -> (result: u32)
        ensures
            result == self.spec_get(),
    {
        self.0
    }

    /// Specification counterpart of [`Self::get`].
    pub open(crate) spec fn spec_get(self) -> u32 {
        self.0
    }

    /// Returns the descriptor as an array index.
    #[verifier::when_used_as_spec(spec_index)]
    pub fn index(self) -> (result: usize)
        ensures
            result == self.spec_index(),
            result == self.get(),
    {
        self.0 as usize
    }

    /// Specification counterpart of [`Self::index`].
    pub open(crate) spec fn spec_index(self) -> usize {
        self.0 as usize
    }
}

/// Caller-allocated stable identity for one Linux files table.
#[derive(Debug, Clone, Copy, PartialEq, Eq, PartialOrd, Ord, Hash, Structural)]
pub struct FdTableId(pub(crate) u64);

impl FdTableId {
    #[verifier::type_invariant]
    pub(crate) open spec fn nonzero(self) -> bool {
        self.0 != 0
    }

    /// Creates a nonzero identity.
    pub fn new(raw: u64) -> (result: Option<Self>)
        ensures
            result is Some <==> raw != 0,
            result matches Some(id) ==> id.get() == raw,
    {
        if raw == 0 {
            None
        } else {
            Some(Self(raw))
        }
    }

    /// Returns the raw identity.
    #[verifier::when_used_as_spec(spec_get)]
    pub fn get(self) -> (result: u64)
        ensures
            result == self.spec_get(),
            result != 0,
    {
        proof {
            use_type_invariant(&self);
        }
        self.0
    }

    /// Specification counterpart of [`Self::get`].
    pub open(crate) spec fn spec_get(self) -> u64 {
        self.0
    }
}

/// Caller-allocated stable identity for one open file description.
#[derive(Debug, Clone, Copy, PartialEq, Eq, PartialOrd, Ord, Hash, Structural)]
pub struct OfdId(pub(crate) u64);

impl OfdId {
    #[verifier::type_invariant]
    pub(crate) open spec fn nonzero(self) -> bool {
        self.0 != 0
    }

    /// Creates a nonzero identity.
    pub fn new(raw: u64) -> (result: Option<Self>)
        ensures
            result is Some <==> raw != 0,
            result matches Some(id) ==> id.get() == raw,
    {
        if raw == 0 {
            None
        } else {
            Some(Self(raw))
        }
    }

    /// Returns the raw identity.
    #[verifier::when_used_as_spec(spec_get)]
    pub fn get(self) -> (result: u64)
        ensures
            result == self.spec_get(),
            result != 0,
    {
        proof {
            use_type_invariant(&self);
        }
        self.0
    }

    /// Specification counterpart of [`Self::get`].
    pub open(crate) spec fn spec_get(self) -> u64 {
        self.0
    }
}

/// Caller-allocated stable identity for one epoll instance.
#[derive(Debug, Clone, Copy, PartialEq, Eq, PartialOrd, Ord, Hash, Structural)]
pub struct EpollId(pub(crate) u64);

impl EpollId {
    #[verifier::type_invariant]
    pub(crate) open spec fn nonzero(self) -> bool {
        self.0 != 0
    }

    /// Creates a nonzero identity.
    pub fn new(raw: u64) -> (result: Option<Self>)
        ensures
            result is Some <==> raw != 0,
            result matches Some(id) ==> id.get() == raw,
    {
        if raw == 0 {
            None
        } else {
            Some(Self(raw))
        }
    }

    /// Returns the raw identity.
    #[verifier::when_used_as_spec(spec_get)]
    pub fn get(self) -> (result: u64)
        ensures
            result == self.spec_get(),
            result != 0,
    {
        proof {
            use_type_invariant(&self);
        }
        self.0
    }

    /// Specification counterpart of [`Self::get`].
    pub open(crate) spec fn spec_get(self) -> u64 {
        self.0
    }
}

/// Caller-allocated stable identity for one serialized epoll graph domain.
#[derive(Debug, Clone, Copy, PartialEq, Eq, PartialOrd, Ord, Hash, Structural)]
pub struct EpollGraphId(pub(crate) u64);

impl EpollGraphId {
    #[verifier::type_invariant]
    pub(crate) open spec fn nonzero(self) -> bool {
        self.0 != 0
    }

    /// Creates a nonzero identity.
    pub fn new(raw: u64) -> (result: Option<Self>)
        ensures
            result is Some <==> raw != 0,
            result matches Some(id) ==> id.get() == raw,
    {
        if raw == 0 {
            None
        } else {
            Some(Self(raw))
        }
    }

    /// Returns the raw identity.
    #[verifier::when_used_as_spec(spec_get)]
    pub fn get(self) -> (result: u64)
        ensures
            result == self.spec_get(),
            result != 0,
    {
        proof {
            use_type_invariant(&self);
        }
        self.0
    }

    /// Specification counterpart of [`Self::get`].
    pub open(crate) spec fn spec_get(self) -> u64 {
        self.0
    }
}

/// Descriptor-local flags. These are copied by fork and do not belong to the
/// shared open file description.
#[derive(Debug, Clone, Copy, PartialEq, Eq, Structural)]
pub struct DescriptorFlags(pub(crate) u8);

impl Default for DescriptorFlags {
    fn default() -> (result: Self)
        ensures
            result.bits() == 0,
    {
        Self(0)
    }
}

impl DescriptorFlags {
    /// No descriptor-local flags.
    #[allow(non_snake_case)]
    #[verifier::when_used_as_spec(spec_EMPTY)]
    pub fn EMPTY() -> (result: Self)
        ensures
            result == Self::spec_EMPTY(),
            result.bits() == 0u8,
    {
        Self(0u8)
    }

    /// Specification counterpart of [`Self::EMPTY`].
    #[allow(non_snake_case)]
    pub open(crate) spec fn spec_EMPTY() -> Self {
        Self(0u8)
    }

    /// Close this descriptor during a successful exec transition.
    #[allow(non_snake_case)]
    #[verifier::when_used_as_spec(spec_CLOSE_ON_EXEC)]
    pub fn CLOSE_ON_EXEC() -> (result: Self)
        ensures
            result == Self::spec_CLOSE_ON_EXEC(),
            result.bits() == 1u8,
    {
        Self(1u8)
    }

    /// Specification counterpart of [`Self::CLOSE_ON_EXEC`].
    #[allow(non_snake_case)]
    pub open(crate) spec fn spec_CLOSE_ON_EXEC() -> Self {
        Self(1u8)
    }

    /// Returns the crate-owned bit representation.
    #[verifier::when_used_as_spec(spec_bits)]
    pub fn bits(self) -> (result: u8)
        ensures
            result == self.spec_bits(),
    {
        self.0
    }

    /// Specification counterpart of [`Self::bits`].
    pub open(crate) spec fn spec_bits(self) -> u8 {
        self.0
    }

    /// Returns whether every flag in `other` is present.
    #[verifier::when_used_as_spec(spec_contains)]
    pub fn contains(self, other: Self) -> (result: bool)
        ensures
            result == self.spec_contains(other),
    {
        self.0 & other.0 == other.0
    }

    /// Specification counterpart of [`Self::contains`].
    pub open spec fn spec_contains(self, other: Self) -> bool {
        self.bits() & other.bits() == other.bits()
    }

    /// The flags with `flag` inserted or removed.
    pub open(crate) spec fn with(self, flag: Self, enabled: bool) -> Self {
        if enabled {
            Self(self.0 | flag.0)
        } else {
            Self(self.0 & !flag.0)
        }
    }

    /// Inserts or removes `flag`.
    pub fn set(&mut self, flag: Self, enabled: bool)
        ensures
            *final(self) == old(self).with(flag, enabled),
            enabled ==> final(self).bits() == old(self).bits() | flag.bits(),
            !enabled ==> final(self).bits() == old(self).bits() & !flag.bits(),
    {
        if enabled {
            self.0 = self.0 | flag.0;
        } else {
            self.0 = self.0 & !flag.0;
        }
    }
}

/// Setting a flag makes it present, clearing it makes a single-bit flag
/// absent, and neither touches any other flag.
pub proof fn setting_a_flag_is_local(flags: DescriptorFlags, flag: DescriptorFlags, other: DescriptorFlags)
    ensures
        flags.with(flag, true).contains(flag),
        flag.bits() != 0 ==> !flags.with(flag, false).contains(flag),
        flag.bits() & other.bits() == 0 ==> {
            &&& flags.with(flag, true).contains(other) == flags.contains(other)
            &&& flags.with(flag, false).contains(other) == flags.contains(other)
        },
{
    let a = flags.0;
    let f = flag.0;
    let o = other.0;
    assert((a | f) & f == f && (f != 0 ==> (a & !f) & f != f) && (f & o == 0 ==> (((a | f) & o == o)
        == (a & o == o)) && (((a & !f) & o == o) == (a & o == o)))) by (bit_vector);
}

/// Linux poll/epoll interest bits after strict syscall decoding.
#[derive(Debug, Clone, Copy, PartialEq, Eq, Structural)]
pub struct InterestMask(pub(crate) u32);

impl Default for InterestMask {
    fn default() -> (result: Self)
        ensures
            result.bits() == 0,
    {
        Self(0)
    }
}

impl InterestMask {
    /// Readable data.
    #[allow(non_snake_case)]
    #[verifier::when_used_as_spec(spec_IN)]
    pub fn IN() -> (result: Self)
        ensures
            result == Self::spec_IN(),
            result.bits() == 0x0001u32,
    {
        Self(0x0001u32)
    }

    /// Specification counterpart of [`Self::IN`].
    #[allow(non_snake_case)]
    pub open(crate) spec fn spec_IN() -> Self {
        Self(0x0001u32)
    }

    /// Priority data.
    #[allow(non_snake_case)]
    #[verifier::when_used_as_spec(spec_PRI)]
    pub fn PRI() -> (result: Self)
        ensures
            result == Self::spec_PRI(),
            result.bits() == 0x0002u32,
    {
        Self(0x0002u32)
    }

    /// Specification counterpart of [`Self::PRI`].
    #[allow(non_snake_case)]
    pub open(crate) spec fn spec_PRI() -> Self {
        Self(0x0002u32)
    }

    /// Writable space.
    #[allow(non_snake_case)]
    #[verifier::when_used_as_spec(spec_OUT)]
    pub fn OUT() -> (result: Self)
        ensures
            result == Self::spec_OUT(),
            result.bits() == 0x0004u32,
    {
        Self(0x0004u32)
    }

    /// Specification counterpart of [`Self::OUT`].
    #[allow(non_snake_case)]
    pub open(crate) spec fn spec_OUT() -> Self {
        Self(0x0004u32)
    }

    /// Normal readable data.
    #[allow(non_snake_case)]
    #[verifier::when_used_as_spec(spec_READ_NORMAL)]
    pub fn READ_NORMAL() -> (result: Self)
        ensures
            result == Self::spec_READ_NORMAL(),
            result.bits() == 0x0040u32,
    {
        Self(0x0040u32)
    }

    /// Specification counterpart of [`Self::READ_NORMAL`].
    #[allow(non_snake_case)]
    pub open(crate) spec fn spec_READ_NORMAL() -> Self {
        Self(0x0040u32)
    }

    /// Priority/band readable data.
    #[allow(non_snake_case)]
    #[verifier::when_used_as_spec(spec_READ_BAND)]
    pub fn READ_BAND() -> (result: Self)
        ensures
            result == Self::spec_READ_BAND(),
            result.bits() == 0x0080u32,
    {
        Self(0x0080u32)
    }

    /// Specification counterpart of [`Self::READ_BAND`].
    #[allow(non_snake_case)]
    pub open(crate) spec fn spec_READ_BAND() -> Self {
        Self(0x0080u32)
    }

    /// Normal writable space.
    #[allow(non_snake_case)]
    #[verifier::when_used_as_spec(spec_WRITE_NORMAL)]
    pub fn WRITE_NORMAL() -> (result: Self)
        ensures
            result == Self::spec_WRITE_NORMAL(),
            result.bits() == 0x0100u32,
    {
        Self(0x0100u32)
    }

    /// Specification counterpart of [`Self::WRITE_NORMAL`].
    #[allow(non_snake_case)]
    pub open(crate) spec fn spec_WRITE_NORMAL() -> Self {
        Self(0x0100u32)
    }

    /// Priority/band writable space.
    #[allow(non_snake_case)]
    #[verifier::when_used_as_spec(spec_WRITE_BAND)]
    pub fn WRITE_BAND() -> (result: Self)
        ensures
            result == Self::spec_WRITE_BAND(),
            result.bits() == 0x0200u32,
    {
        Self(0x0200u32)
    }

    /// Specification counterpart of [`Self::WRITE_BAND`].
    #[allow(non_snake_case)]
    pub open(crate) spec fn spec_WRITE_BAND() -> Self {
        Self(0x0200u32)
    }

    /// Peer half-close.
    #[allow(non_snake_case)]
    #[verifier::when_used_as_spec(spec_READ_HANGUP)]
    pub fn READ_HANGUP() -> (result: Self)
        ensures
            result == Self::spec_READ_HANGUP(),
            result.bits() == 0x2000u32,
    {
        Self(0x2000u32)
    }

    /// Specification counterpart of [`Self::READ_HANGUP`].
    #[allow(non_snake_case)]
    pub open(crate) spec fn spec_READ_HANGUP() -> Self {
        Self(0x2000u32)
    }

    /// All normal requestable readiness bits supported by the core.
    #[allow(non_snake_case)]
    #[verifier::when_used_as_spec(spec_ALL)]
    pub fn ALL() -> (result: Self)
        ensures
            result == Self::spec_ALL(),
            result.bits() == 0x23c7u32,
    {
        Self(0x23c7u32)
    }

    /// Specification counterpart of [`Self::ALL`].
    #[allow(non_snake_case)]
    pub open(crate) spec fn spec_ALL() -> Self {
        Self(0x23c7u32)
    }

    /// Strictly decodes normal interest bits.
    pub fn from_bits(bits: u32) -> (result: Option<Self>)
        ensures
            result is Some <==> bits & !InterestMask::ALL().bits() == 0,
            result matches Some(mask) ==> mask.bits() == bits,
    {
        if bits & !0x23c7u32 == 0 {
            Some(Self(bits))
        } else {
            None
        }
    }

    /// Returns raw Linux-compatible normal-interest bits.
    #[verifier::when_used_as_spec(spec_bits)]
    pub fn bits(self) -> (result: u32)
        ensures
            result == self.spec_bits(),
    {
        self.0
    }

    /// Specification counterpart of [`Self::bits`].
    pub open(crate) spec fn spec_bits(self) -> u32 {
        self.0
    }

    /// Returns whether the mask is empty.
    pub fn is_empty(self) -> (result: bool)
        ensures
            result == (self.bits() == 0),
    {
        self.0 == 0
    }
}

/// `InterestMask::ALL` is exactly the union of the individual interest bits.
pub proof fn all_interest_bits()
    ensures
        InterestMask::ALL().bits() == InterestMask::IN().bits() | InterestMask::PRI().bits()
            | InterestMask::OUT().bits() | InterestMask::READ_NORMAL().bits()
            | InterestMask::READ_BAND().bits() | InterestMask::WRITE_NORMAL().bits()
            | InterestMask::WRITE_BAND().bits() | InterestMask::READ_HANGUP().bits(),
{
    assert(0x23c7u32 == 0x0001u32 | 0x0002u32 | 0x0004u32 | 0x0040u32 | 0x0080u32 | 0x0100u32
        | 0x0200u32 | 0x2000u32) by (bit_vector);
}

impl BitOr for InterestMask {
    type Output = Self;

    fn bitor(self, rhs: Self) -> Self::Output {
        Self(self.0 | rhs.0)
    }
}

impl BitOrSpecImpl for InterestMask {
    open spec fn obeys_bitor_spec() -> bool {
        true
    }

    open spec fn bitor_req(self, rhs: Self) -> bool {
        true
    }

    open(crate) spec fn bitor_spec(self, rhs: Self) -> Self {
        Self(self.0 | rhs.0)
    }
}

impl BitOrAssign for InterestMask {
    fn bitor_assign(&mut self, rhs: Self)
        ensures
            final(self).bits() == old(self).bits() | rhs.bits(),
    {
        self.0 = self.0 | rhs.0;
    }
}

/// Linux readiness results. Error, hangup, and invalid-descriptor conditions
/// are deliverable even when absent from the normal interest mask.
#[derive(Debug, Clone, Copy, PartialEq, Eq, Hash, Structural)]
pub struct ReadyMask(pub(crate) u32);

impl Default for ReadyMask {
    fn default() -> (result: Self)
        ensures
            result.bits() == 0,
    {
        Self(0)
    }
}

impl ReadyMask {
    /// No readiness.
    #[allow(non_snake_case)]
    #[verifier::when_used_as_spec(spec_EMPTY)]
    pub fn EMPTY() -> (result: Self)
        ensures
            result == Self::spec_EMPTY(),
            result.bits() == 0u32,
    {
        Self(0u32)
    }

    /// Specification counterpart of [`Self::EMPTY`].
    #[allow(non_snake_case)]
    pub open(crate) spec fn spec_EMPTY() -> Self {
        Self(0u32)
    }

    /// Readable data.
    #[allow(non_snake_case)]
    #[verifier::when_used_as_spec(spec_IN)]
    pub fn IN() -> (result: Self)
        ensures
            result == Self::spec_IN(),
            result.bits() == 0x0001u32,
    {
        Self(0x0001u32)
    }

    /// Specification counterpart of [`Self::IN`].
    #[allow(non_snake_case)]
    pub open(crate) spec fn spec_IN() -> Self {
        Self(0x0001u32)
    }

    /// Priority data.
    #[allow(non_snake_case)]
    #[verifier::when_used_as_spec(spec_PRI)]
    pub fn PRI() -> (result: Self)
        ensures
            result == Self::spec_PRI(),
            result.bits() == 0x0002u32,
    {
        Self(0x0002u32)
    }

    /// Specification counterpart of [`Self::PRI`].
    #[allow(non_snake_case)]
    pub open(crate) spec fn spec_PRI() -> Self {
        Self(0x0002u32)
    }

    /// Writable space.
    #[allow(non_snake_case)]
    #[verifier::when_used_as_spec(spec_OUT)]
    pub fn OUT() -> (result: Self)
        ensures
            result == Self::spec_OUT(),
            result.bits() == 0x0004u32,
    {
        Self(0x0004u32)
    }

    /// Specification counterpart of [`Self::OUT`].
    #[allow(non_snake_case)]
    pub open(crate) spec fn spec_OUT() -> Self {
        Self(0x0004u32)
    }

    /// I/O error.
    #[allow(non_snake_case)]
    #[verifier::when_used_as_spec(spec_ERROR)]
    pub fn ERROR() -> (result: Self)
        ensures
            result == Self::spec_ERROR(),
            result.bits() == 0x0008u32,
    {
        Self(0x0008u32)
    }

    /// Specification counterpart of [`Self::ERROR`].
    #[allow(non_snake_case)]
    pub open(crate) spec fn spec_ERROR() -> Self {
        Self(0x0008u32)
    }

    /// Hangup.
    #[allow(non_snake_case)]
    #[verifier::when_used_as_spec(spec_HANGUP)]
    pub fn HANGUP() -> (result: Self)
        ensures
            result == Self::spec_HANGUP(),
            result.bits() == 0x0010u32,
    {
        Self(0x0010u32)
    }

    /// Specification counterpart of [`Self::HANGUP`].
    #[allow(non_snake_case)]
    pub open(crate) spec fn spec_HANGUP() -> Self {
        Self(0x0010u32)
    }

    /// Invalid descriptor.
    #[allow(non_snake_case)]
    #[verifier::when_used_as_spec(spec_INVALID)]
    pub fn INVALID() -> (result: Self)
        ensures
            result == Self::spec_INVALID(),
            result.bits() == 0x0020u32,
    {
        Self(0x0020u32)
    }

    /// Specification counterpart of [`Self::INVALID`].
    #[allow(non_snake_case)]
    pub open(crate) spec fn spec_INVALID() -> Self {
        Self(0x0020u32)
    }

    /// Normal readable data.
    #[allow(non_snake_case)]
    #[verifier::when_used_as_spec(spec_READ_NORMAL)]
    pub fn READ_NORMAL() -> (result: Self)
        ensures
            result == Self::spec_READ_NORMAL(),
            result.bits() == 0x0040u32,
    {
        Self(0x0040u32)
    }

    /// Specification counterpart of [`Self::READ_NORMAL`].
    #[allow(non_snake_case)]
    pub open(crate) spec fn spec_READ_NORMAL() -> Self {
        Self(0x0040u32)
    }

    /// Priority/band readable data.
    #[allow(non_snake_case)]
    #[verifier::when_used_as_spec(spec_READ_BAND)]
    pub fn READ_BAND() -> (result: Self)
        ensures
            result == Self::spec_READ_BAND(),
            result.bits() == 0x0080u32,
    {
        Self(0x0080u32)
    }

    /// Specification counterpart of [`Self::READ_BAND`].
    #[allow(non_snake_case)]
    pub open(crate) spec fn spec_READ_BAND() -> Self {
        Self(0x0080u32)
    }

    /// Normal writable space.
    #[allow(non_snake_case)]
    #[verifier::when_used_as_spec(spec_WRITE_NORMAL)]
    pub fn WRITE_NORMAL() -> (result: Self)
        ensures
            result == Self::spec_WRITE_NORMAL(),
            result.bits() == 0x0100u32,
    {
        Self(0x0100u32)
    }

    /// Specification counterpart of [`Self::WRITE_NORMAL`].
    #[allow(non_snake_case)]
    pub open(crate) spec fn spec_WRITE_NORMAL() -> Self {
        Self(0x0100u32)
    }

    /// Priority/band writable space.
    #[allow(non_snake_case)]
    #[verifier::when_used_as_spec(spec_WRITE_BAND)]
    pub fn WRITE_BAND() -> (result: Self)
        ensures
            result == Self::spec_WRITE_BAND(),
            result.bits() == 0x0200u32,
    {
        Self(0x0200u32)
    }

    /// Specification counterpart of [`Self::WRITE_BAND`].
    #[allow(non_snake_case)]
    pub open(crate) spec fn spec_WRITE_BAND() -> Self {
        Self(0x0200u32)
    }

    /// Peer half-close.
    #[allow(non_snake_case)]
    #[verifier::when_used_as_spec(spec_READ_HANGUP)]
    pub fn READ_HANGUP() -> (result: Self)
        ensures
            result == Self::spec_READ_HANGUP(),
            result.bits() == 0x2000u32,
    {
        Self(0x2000u32)
    }

    /// Specification counterpart of [`Self::READ_HANGUP`].
    #[allow(non_snake_case)]
    pub open(crate) spec fn spec_READ_HANGUP() -> Self {
        Self(0x2000u32)
    }

    /// Creates a mask while discarding no result bits.
    pub fn from_bits_retain(bits: u32) -> (result: Self)
        ensures
            result.bits() == bits,
    {
        Self(bits)
    }

    /// Returns the raw result bits.
    #[verifier::when_used_as_spec(spec_bits)]
    pub fn bits(self) -> (result: u32)
        ensures
            result == self.spec_bits(),
    {
        self.0
    }

    /// Specification counterpart of [`Self::bits`].
    pub open(crate) spec fn spec_bits(self) -> u32 {
        self.0
    }

    /// Returns whether the mask is empty.
    #[verifier::when_used_as_spec(spec_is_empty)]
    pub fn is_empty(self) -> (result: bool)
        ensures
            result == self.spec_is_empty(),
    {
        self.0 == 0
    }

    /// Specification counterpart of [`Self::is_empty`].
    pub open spec fn spec_is_empty(self) -> bool {
        self.bits() == 0
    }

    /// Filters readiness using Linux's unconditional error/hangup rule.
    #[verifier::when_used_as_spec(spec_deliverable)]
    pub fn deliverable(self, interest: InterestMask) -> (result: Self)
        ensures
            result == self.spec_deliverable(interest),
            result.bits() == self.bits() & (interest.bits() | 0x0038u32),
    {
        Self(self.0 & (interest.0 | 0x0038))
    }

    /// Specification counterpart of [`Self::deliverable`].
    pub open(crate) spec fn spec_deliverable(self, interest: InterestMask) -> Self {
        Self(self.0 & (interest.0 | 0x0038u32))
    }

    /// The union of two readiness masks.
    pub open(crate) spec fn union(self, other: Self) -> Self {
        Self(self.0 | other.0)
    }
}

/// Error, hangup, and invalid-descriptor results pass the filter whatever the
/// interest; every other result passes exactly when it was requested.
pub proof fn deliverable_keeps_unconditional_results(ready: ReadyMask, interest: InterestMask)
    ensures
        ready.deliverable(interest).bits() & 0x0038u32 == ready.bits() & (ReadyMask::ERROR().bits()
            | ReadyMask::HANGUP().bits() | ReadyMask::INVALID().bits()),
        ready.deliverable(interest).bits() & !0x0038u32 == ready.bits() & interest.bits()
            & !0x0038u32,
        ready.deliverable(interest).deliverable(interest) == ready.deliverable(interest),
{
    let r = ready.0;
    let i = interest.0;
    assert((r & (i | 0x38u32)) & 0x38u32 == r & (0x8u32 | 0x10u32 | 0x20u32) && (r & (i | 0x38u32))
        & !0x38u32 == r & i & !0x38u32 && ((r & (i | 0x38u32)) & (i | 0x38u32)) == (r & (i
        | 0x38u32))) by (bit_vector);
}

impl BitOr for ReadyMask {
    type Output = Self;

    fn bitor(self, rhs: Self) -> Self::Output {
        Self(self.0 | rhs.0)
    }
}

impl BitOrSpecImpl for ReadyMask {
    open spec fn obeys_bitor_spec() -> bool {
        true
    }

    open spec fn bitor_req(self, rhs: Self) -> bool {
        true
    }

    open(crate) spec fn bitor_spec(self, rhs: Self) -> Self {
        self.union(rhs)
    }
}

impl BitOrAssign for ReadyMask {
    fn bitor_assign(&mut self, rhs: Self)
        ensures
            *final(self) == old(self).union(rhs),
            final(self).bits() == old(self).bits() | rhs.bits(),
    {
        self.0 = self.0 | rhs.0;
    }
}

impl BitAnd for ReadyMask {
    type Output = Self;

    fn bitand(self, rhs: Self) -> Self::Output {
        Self(self.0 & rhs.0)
    }
}

impl BitAndSpecImpl for ReadyMask {
    open spec fn obeys_bitand_spec() -> bool {
        true
    }

    open spec fn bitand_req(self, rhs: Self) -> bool {
        true
    }

    open(crate) spec fn bitand_spec(self, rhs: Self) -> Self {
        Self(self.0 & rhs.0)
    }
}

impl BitAndAssign for ReadyMask {
    fn bitand_assign(&mut self, rhs: Self)
        ensures
            final(self).bits() == old(self).bits() & rhs.bits(),
    {
        self.0 = self.0 & rhs.0;
    }
}

impl Not for ReadyMask {
    type Output = Self;

    fn not(self) -> Self::Output {
        Self(!self.0)
    }
}

impl NotSpecImpl for ReadyMask {
    open spec fn obeys_not_spec() -> bool {
        true
    }

    open spec fn not_req(self) -> bool {
        true
    }

    open(crate) spec fn not_spec(self) -> Self {
        Self(!self.0)
    }
}

/// Linux epoll triggering behavior independent of the event mask.
#[derive(Debug, Clone, Copy, PartialEq, Eq, Structural)]
pub struct InterestMode {
    /// Edge-triggered delivery instead of level-triggered requeue.
    pub edge: bool,
    /// Disable the interest after one successful delivery until explicit rearm.
    pub one_shot: bool,
    /// Exclusive wake selection for supported wakeup objects.
    pub exclusive: bool,
}

impl Default for InterestMode {
    fn default() -> (result: Self)
        ensures
            !result.edge,
            !result.one_shot,
            !result.exclusive,
    {
        Self { edge: false, one_shot: false, exclusive: false }
    }
}

} // verus!
