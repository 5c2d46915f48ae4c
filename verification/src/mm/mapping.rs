use crate::mm::error::MmError;
use crate::mm::identity::{AddressSpaceId, MappingGeneration, MappingId};
use crate::mm::range::{covering_is_least, covers, PageRange, UserRange};
use crate::powers::power_of_two;
use vstd::prelude::*;

verus! {

/// Linux-visible read, write, and execute permissions for a frozen mapping.
#[derive(Clone, Copy, Debug, Eq, Hash, PartialEq, Structural)]
pub struct MappingAccess(pub(crate) u8);

impl Default for MappingAccess {
    fn default() -> (result: Self)
        ensures
            result.bits() == 0,
    {
        Self(0)
    }
}

impl MappingAccess {
    /// Read permission bit.
    pub const READ: u8 = 1;

    /// Write permission bit.
    pub const WRITE: u8 = 2;

    /// Execute permission bit.
    pub const EXECUTE: u8 = 4;

    /// Builds an access value from booleans.
    pub fn new(read: bool, write: bool, execute: bool) -> (result: Self)
        ensures
            result.readable() == read,
            result.writable() == write,
            result.executable() == execute,
            result.bits() & !7u8 == 0,
    {
        let readable: u8 = if read {
            Self::READ
        } else {
            0
        };
        let writable: u8 = if write {
            Self::WRITE
        } else {
            0
        };
        let executable: u8 = if execute {
            Self::EXECUTE
        } else {
            0
        };
        proof {
            assert(forall|r: u8, w: u8, x: u8|
                (r == 0 || r == 1) && (w == 0 || w == 2) && (x == 0 || x == 4) ==> {
                    &&& #[trigger] (r | w | x) & 1u8 == r
                    &&& (r | w | x) & 2u8 == w
                    &&& (r | w | x) & 4u8 == x
                    &&& (r | w | x) & !7u8 == 0
                }) by (bit_vector);
        }
        Self(readable | writable | executable)
    }

    /// Validates raw permission bits.
    pub fn from_bits(bits: u8) -> (result: Result<Self, MmError>)
        ensures
            match result {
                Ok(access) => bits & !7u8 == 0 && access.bits() == bits,
                Err(error) => bits & !7u8 != 0 && error == MmError::InvalidAccess,
            },
    {
        if bits & !7u8 != 0 {
            return Err(MmError::InvalidAccess);
        }
        Ok(Self(bits))
    }

    /// Raw stable bit representation.
    #[verifier::when_used_as_spec(spec_bits)]
    pub fn bits(self) -> (result: u8)
        ensures
            result == self.spec_bits(),
    {
        self.0
    }

    /// Specification counterpart of [`Self::bits`].
    pub open(crate) spec fn spec_bits(self) -> u8 {
        self.0
    }

    /// Whether reads are permitted.
    #[verifier::when_used_as_spec(spec_readable)]
    pub fn readable(self) -> (result: bool)
        ensures
            result == self.spec_readable(),
    {
        self.0 & Self::READ != 0
    }

    /// Specification counterpart of [`Self::readable`].
    pub open spec fn spec_readable(self) -> bool {
        self.bits() & MappingAccess::READ != 0
    }

    /// Whether writes are permitted.
    #[verifier::when_used_as_spec(spec_writable)]
    pub fn writable(self) -> (result: bool)
        ensures
            result == self.spec_writable(),
    {
        self.0 & Self::WRITE != 0
    }

    /// Specification counterpart of [`Self::writable`].
    pub open spec fn spec_writable(self) -> bool {
        self.bits() & MappingAccess::WRITE != 0
    }

    /// Whether instruction fetch is permitted.
    #[verifier::when_used_as_spec(spec_executable)]
    pub fn executable(self) -> (result: bool)
        ensures
            result == self.spec_executable(),
    {
        self.0 & Self::EXECUTE != 0
    }

    /// Specification counterpart of [`Self::executable`].
    pub open spec fn spec_executable(self) -> bool {
        self.bits() & MappingAccess::EXECUTE != 0
    }
}

/// Reading a validated access value's permissions and building a value from
/// them gives the same bits.
pub proof fn access_is_its_permissions(a: MappingAccess, b: MappingAccess)
    requires
        a.bits() & !7u8 == 0,
        b.bits() & !7u8 == 0,
        a.readable() == b.readable(),
        a.writable() == b.writable(),
        a.executable() == b.executable(),
    ensures
        a == b,
{
    let x = a.bits();
    let y = b.bits();
    assert(x == y) by (bit_vector)
        requires
            x & !7u8 == 0,
            y & !7u8 == 0,
            (x & 1u8 != 0) == (y & 1u8 != 0),
            (x & 2u8 != 0) == (y & 2u8 != 0),
            (x & 4u8 != 0) == (y & 4u8 != 0),
    ;
}

/// Policy-relevant mapping class without a concrete VMA/backend type.
#[derive(Clone, Copy, Debug, Eq, Hash, PartialEq, Structural)]
#[non_exhaustive]
pub enum MappingKind {
    /// Anonymous private mapping with COW semantics.
    AnonymousPrivate,
    /// Anonymous mapping shared by its participants.
    AnonymousShared,
    /// Private file mapping with COW semantics.
    FilePrivate,
    /// Shared file mapping.
    FileShared,
    /// Device-backed mapping.
    Device,
    /// Other consumer-defined special mapping not pinnable by default.
    Special,
}

/// Immutable mapping facts captured before blocking or fallible work.
#[derive(Clone, Copy, Debug, Eq, PartialEq, Structural)]
pub struct MappingSnapshot {
    pub(crate) address_space: AddressSpaceId,
    pub(crate) mapping: MappingId,
    pub(crate) generation: MappingGeneration,
    pub(crate) range: PageRange,
    pub(crate) access: MappingAccess,
    pub(crate) kind: MappingKind,
    pub(crate) long_term_pinnable: bool,
    pub(crate) writable_file_pin_supported: bool,
}

impl MappingSnapshot {
    /// Builds a mapping snapshot from validated identities and range facts.
    pub fn new(
        address_space: AddressSpaceId,
        mapping: MappingId,
        generation: MappingGeneration,
        range: PageRange,
        access: MappingAccess,
        kind: MappingKind,
        long_term_pinnable: bool,
        writable_file_pin_supported: bool,
    ) -> (result: Self)
        ensures
            result.address_space() == address_space,
            result.mapping() == mapping,
            result.generation() == generation,
            result.range() == range,
            result.access() == access,
            result.kind() == kind,
            result.long_term_pinnable() == long_term_pinnable,
            result.writable_file_pin_supported() == writable_file_pin_supported,
    {
        Self {
            address_space,
            mapping,
            generation,
            range,
            access,
            kind,
            long_term_pinnable,
            writable_file_pin_supported,
        }
    }

    /// Ergonomic raw-value adapter for a consumer snapshot boundary.
    pub fn from_raw(
        address_space: u64,
        mapping: u64,
        generation: u64,
        start: usize,
        length: usize,
        page_size: usize,
        access_bits: u8,
        kind: MappingKind,
        long_term_pinnable: bool,
        writable_file_pin_supported: bool,
    ) -> (result: Result<Self, MmError>)
        ensures
            match result {
                Ok(snapshot) => {
                    &&& address_space != 0 && snapshot.address_space().get() == address_space
                    &&& mapping != 0 && snapshot.mapping().get() == mapping
                    &&& generation != 0 && snapshot.generation().get() == generation
                    &&& page_size != 0 && power_of_two(page_size as int)
                    &&& start as int % page_size as int == 0
                    &&& length as int % page_size as int == 0
                    &&& length > 0
                    &&& snapshot.range().page_size().bytes() == page_size
                    &&& snapshot.range().start() == start
                    &&& snapshot.range().end() == start + length
                    &&& access_bits & !7u8 == 0
                    &&& snapshot.access().bits() == access_bits
                    &&& snapshot.kind() == kind
                    &&& snapshot.long_term_pinnable() == long_term_pinnable
                    &&& snapshot.writable_file_pin_supported() == writable_file_pin_supported
                },
                Err(error) => if address_space == 0 || mapping == 0 || generation == 0 {
                    error == MmError::InvalidIdentity
                } else if page_size == 0 {
                    error == MmError::ZeroLength
                } else if !power_of_two(page_size as int) {
                    error == MmError::InvalidPageSize
                } else if start as int % page_size as int != 0 || length as int % page_size as int
                    != 0 {
                    error == MmError::Unaligned
                } else if length == 0 {
                    error == MmError::ZeroLength
                } else if start + length > usize::MAX {
                    error == MmError::Overflow
                } else {
                    access_bits & !7u8 != 0 && error == MmError::InvalidAccess
                },
            },
    {
        let address_space = match AddressSpaceId::new(address_space) {
            Ok(address_space) => address_space,
            Err(error) => return Err(error),
        };
        let mapping = match MappingId::new(mapping) {
            Ok(mapping) => mapping,
            Err(error) => return Err(error),
        };
        let generation = match MappingGeneration::new(generation) {
            Ok(generation) => generation,
            Err(error) => return Err(error),
        };
        let range = match PageRange::new(start, length, page_size) {
            Ok(range) => range,
            Err(error) => return Err(error),
        };
        let access = match MappingAccess::from_bits(access_bits) {
            Ok(access) => access,
            Err(error) => return Err(error),
        };
        Ok(
            Self::new(
                address_space,
                mapping,
                generation,
                range,
                access,
                kind,
                long_term_pinnable,
                writable_file_pin_supported,
            ),
        )
    }

    /// The same mapping facts under another generation.
    pub fn with_generation(self, generation: MappingGeneration) -> (result: Self)
        ensures
            result.address_space() == self.address_space(),
            result.mapping() == self.mapping(),
            result.generation() == generation,
            result.range() == self.range(),
            result.access() == self.access(),
            result.kind() == self.kind(),
            result.long_term_pinnable() == self.long_term_pinnable(),
            result.writable_file_pin_supported() == self.writable_file_pin_supported(),
    {
        Self { generation, ..self }
    }

    /// Address-space identity.
    #[verifier::when_used_as_spec(spec_address_space)]
    pub fn address_space(self) -> (result: AddressSpaceId)
        ensures
            result == self.spec_address_space(),
    {
        self.address_space
    }

    /// Specification counterpart of [`Self::address_space`].
    pub open(crate) spec fn spec_address_space(self) -> AddressSpaceId {
        self.address_space
    }

    /// Logical mapping identity.
    #[verifier::when_used_as_spec(spec_mapping)]
    pub fn mapping(self) -> (result: MappingId)
        ensures
            result == self.spec_mapping(),
    {
        self.mapping
    }

    /// Specification counterpart of [`Self::mapping`].
    pub open(crate) spec fn spec_mapping(self) -> MappingId {
        self.mapping
    }

    /// Mapping generation.
    #[verifier::when_used_as_spec(spec_generation)]
    pub fn generation(self) -> (result: MappingGeneration)
        ensures
            result == self.spec_generation(),
    {
        self.generation
    }

    /// Specification counterpart of [`Self::generation`].
    pub open(crate) spec fn spec_generation(self) -> MappingGeneration {
        self.generation
    }

    /// Exact mapped page range.
    #[verifier::when_used_as_spec(spec_range)]
    pub fn range(self) -> (result: PageRange)
        ensures
            result == self.spec_range(),
    {
        self.range
    }

    /// Specification counterpart of [`Self::range`].
    pub open(crate) spec fn spec_range(self) -> PageRange {
        self.range
    }

    /// Frozen mapping access.
    #[verifier::when_used_as_spec(spec_access)]
    pub fn access(self) -> (result: MappingAccess)
        ensures
            result == self.spec_access(),
    {
        self.access
    }

    /// Specification counterpart of [`Self::access`].
    pub open(crate) spec fn spec_access(self) -> MappingAccess {
        self.access
    }

    /// Frozen mapping class.
    #[verifier::when_used_as_spec(spec_kind)]
    pub fn kind(self) -> (result: MappingKind)
        ensures
            result == self.spec_kind(),
    {
        self.kind
    }

    /// Specification counterpart of [`Self::kind`].
    pub open(crate) spec fn spec_kind(self) -> MappingKind {
        self.kind
    }

    /// Whether the consumer mechanism admits long-term pins.
    #[verifier::when_used_as_spec(spec_long_term_pinnable)]
    pub fn long_term_pinnable(self) -> (result: bool)
        ensures
            result == self.spec_long_term_pinnable(),
    {
        self.long_term_pinnable
    }

    /// Specification counterpart of [`Self::long_term_pinnable`].
    pub open(crate) spec fn spec_long_term_pinnable(self) -> bool {
        self.long_term_pinnable
    }

    /// Whether writable shared-file pins have a complete dirty/writeback contract.
    #[verifier::when_used_as_spec(spec_writable_file_pin_supported)]
    pub fn writable_file_pin_supported(self) -> (result: bool)
        ensures
            result == self.spec_writable_file_pin_supported(),
    {
        self.writable_file_pin_supported
    }

    /// Specification counterpart of [`Self::writable_file_pin_supported`].
    pub open(crate) spec fn spec_writable_file_pin_supported(self) -> bool {
        self.writable_file_pin_supported
    }

    /// Creates the immutable identity/generation expectation for later revalidation.
    #[verifier::when_used_as_spec(spec_expected)]
    pub fn expected(self) -> (result: ExpectedMapping)
        ensures
            result == self.spec_expected(),
            result.address_space() == self.address_space(),
            result.mapping() == self.mapping(),
            result.generation() == self.generation(),
            result.range() == self.range(),
    {
        ExpectedMapping {
            address_space: self.address_space,
            mapping: self.mapping,
            generation: self.generation,
            range: self.range,
        }
    }

    /// Specification counterpart of [`Self::expected`].
    pub open(crate) spec fn spec_expected(self) -> ExpectedMapping {
        ExpectedMapping {
            address_space: self.address_space,
            mapping: self.mapping,
            generation: self.generation,
            range: self.range,
        }
    }
}

/// Exact mapping identity, generation, and range expected at publication.
#[derive(Clone, Copy, Debug, Eq, Hash, PartialEq, Structural)]
pub struct ExpectedMapping {
    pub(crate) address_space: AddressSpaceId,
    pub(crate) mapping: MappingId,
    pub(crate) generation: MappingGeneration,
    pub(crate) range: PageRange,
}

impl ExpectedMapping {
    /// Address-space identity.
    #[verifier::when_used_as_spec(spec_address_space)]
    pub fn address_space(self) -> (result: AddressSpaceId)
        ensures
            result == self.spec_address_space(),
    {
        self.address_space
    }

    /// Specification counterpart of [`Self::address_space`].
    pub open(crate) spec fn spec_address_space(self) -> AddressSpaceId {
        self.address_space
    }

    /// Mapping identity.
    #[verifier::when_used_as_spec(spec_mapping)]
    pub fn mapping(self) -> (result: MappingId)
        ensures
            result == self.spec_mapping(),
    {
        self.mapping
    }

    /// Specification counterpart of [`Self::mapping`].
    pub open(crate) spec fn spec_mapping(self) -> MappingId {
        self.mapping
    }

    /// Expected generation.
    #[verifier::when_used_as_spec(spec_generation)]
    pub fn generation(self) -> (result: MappingGeneration)
        ensures
            result == self.spec_generation(),
    {
        self.generation
    }

    /// Specification counterpart of [`Self::generation`].
    pub open(crate) spec fn spec_generation(self) -> MappingGeneration {
        self.generation
    }

    /// Expected mapped range.
    #[verifier::when_used_as_spec(spec_range)]
    pub fn range(self) -> (result: PageRange)
        ensures
            result == self.spec_range(),
    {
        self.range
    }

    /// Specification counterpart of [`Self::range`].
    pub open(crate) spec fn spec_range(self) -> PageRange {
        self.range
    }

    /// Rejects replacement, generation change, shrink, or page-size change.
    #[verifier::when_used_as_spec(spec_revalidate)]
    pub fn revalidate(self, current: MappingSnapshot) -> (result: Result<(), MmError>)
        ensures
            result == self.spec_revalidate(current),
    {
        if self.address_space != current.address_space || self.mapping != current.mapping
            || self.generation != current.generation {
            return Err(MmError::StaleGeneration);
        }
        if !current.range.contains(self.range) {
            return Err(MmError::RangeNotMapped);
        }
        Ok(())
    }

    /// Specification counterpart of [`Self::revalidate`].
    pub open spec fn spec_revalidate(self, current: MappingSnapshot) -> Result<(), MmError> {
        if !(self.address_space() == current.address_space() && self.mapping() == current.mapping()
            && self.generation() == current.generation()) {
            Err(MmError::StaleGeneration)
        } else if !current.range().contains(self.range()) {
            Err(MmError::RangeNotMapped)
        } else {
            Ok(())
        }
    }

    /// Revalidates identity/generation and an operation's exact covered range.
    #[verifier::when_used_as_spec(spec_revalidate_range)]
    pub fn revalidate_range(self, current: MappingSnapshot, operation_range: PageRange) -> (result:
        Result<(), MmError>)
        ensures
            result == self.spec_revalidate_range(current, operation_range),
    {
        match self.revalidate(current) {
            Ok(()) => {},
            Err(error) => return Err(error),
        }
        if !self.range.contains(operation_range) || !current.range.contains(operation_range) {
            return Err(MmError::RangeNotMapped);
        }
        Ok(())
    }

    /// Specification counterpart of [`Self::revalidate_range`].
    pub open spec fn spec_revalidate_range(
        self,
        current: MappingSnapshot,
        operation_range: PageRange,
    ) -> Result<(), MmError> {
        if self.revalidate(current) is Err {
            self.revalidate(current)
        } else if !self.range().contains(operation_range) || !current.range().contains(
            operation_range,
        ) {
            Err(MmError::RangeNotMapped)
        } else {
            Ok(())
        }
    }
}

/// A snapshot's expectation holds its facts. The snapshot meets it, and no other
/// generation does.
pub proof fn snapshots_revalidate_themselves(snapshot: MappingSnapshot, other: MappingSnapshot)
    ensures
        snapshot.expected().address_space() == snapshot.address_space(),
        snapshot.expected().mapping() == snapshot.mapping(),
        snapshot.expected().generation() == snapshot.generation(),
        snapshot.expected().range() == snapshot.range(),
        snapshot.expected().revalidate(snapshot) is Ok,
        other.generation() != snapshot.generation() ==> snapshot.expected().revalidate(other)
            == Err::<(), MmError>(MmError::StaleGeneration),
{
}

/// Why an old mapping generation is being invalidated.
#[derive(Clone, Copy, Debug, Eq, Hash, PartialEq, Structural)]
#[non_exhaustive]
pub enum InvalidationReason {
    /// Access protections are changing.
    Protect,
    /// Pages are being unmapped.
    Unmap,
    /// Mapping topology or virtual location is changing.
    Remap,
    /// A private mapping is breaking COW.
    CowBreak,
    /// Fork changes sharing/generation state.
    Fork,
    /// File truncate invalidates the covered range.
    Truncate,
    /// Resident pages are discarded while the VMA topology remains.
    Discard,
    /// Hole punch invalidates file-backed pages.
    HolePunch,
    /// Filesystem or page-cache invalidation.
    FileInvalidation,
    /// Exec replaces the address space.
    Exec,
    /// Address-space teardown.
    Teardown,
}

/// Typed old-generation invalidation published around a mapping mutation.
#[derive(Clone, Copy, Debug, Eq, PartialEq, Structural)]
pub struct InvalidationRange {
    pub(crate) expected: ExpectedMapping,
    pub(crate) range: PageRange,
    pub(crate) reason: InvalidationReason,
}

impl InvalidationRange {
    /// Builds an invalidation contained by the frozen old mapping.
    pub fn new(snapshot: MappingSnapshot, range: PageRange, reason: InvalidationReason) -> (result:
        Result<Self, MmError>)
        ensures
            match result {
                Ok(invalidation) => {
                    &&& snapshot.range().contains(range)
                    &&& invalidation.expected() == snapshot.expected()
                    &&& invalidation.range() == range
                    &&& invalidation.reason() == reason
                },
                Err(error) => !snapshot.range().contains(range) && error
                    == MmError::RangeNotMapped,
            },
    {
        if !snapshot.range.contains(range) {
            return Err(MmError::RangeNotMapped);
        }
        Ok(Self { expected: snapshot.expected(), range, reason })
    }

    /// Raw-value adapter for a byte range using the snapshot page size.
    pub fn from_raw(
        snapshot: MappingSnapshot,
        start: usize,
        length: usize,
        reason: InvalidationReason,
    ) -> (result: Result<Self, MmError>)
        ensures
            ({
                let page = snapshot.range().page_size();
                match result {
                    Ok(invalidation) => {
                        &&& page.is_aligned(start) && page.is_aligned(length)
                        &&& length > 0
                        &&& invalidation.expected() == snapshot.expected()
                        &&& invalidation.range().page_size() == page
                        &&& invalidation.range().start() == start
                        &&& invalidation.range().end() == start + length
                        &&& invalidation.reason() == reason
                        &&& snapshot.range().start() <= start
                        &&& start + length <= snapshot.range().end()
                    },
                    Err(error) => if !page.is_aligned(start) || !page.is_aligned(length) {
                        error == MmError::Unaligned
                    } else if length == 0 {
                        error == MmError::ZeroLength
                    } else if start + length > usize::MAX {
                        error == MmError::Overflow
                    } else {
                        &&& error == MmError::RangeNotMapped
                        &&& start < snapshot.range().start() || start + length
                            > snapshot.range().end()
                    },
                }
            }),
    {
        let page_size = snapshot.range().page_size().bytes();
        let range = match PageRange::new(start, length, page_size) {
            Ok(range) => range,
            Err(error) => return Err(error),
        };
        Self::new(snapshot, range, reason)
    }

    /// Frozen mapping expectation.
    #[verifier::when_used_as_spec(spec_expected)]
    pub fn expected(self) -> (result: ExpectedMapping)
        ensures
            result == self.spec_expected(),
    {
        self.expected
    }

    /// Specification counterpart of [`Self::expected`].
    pub open(crate) spec fn spec_expected(self) -> ExpectedMapping {
        self.expected
    }

    /// Exact invalidated range.
    #[verifier::when_used_as_spec(spec_range)]
    pub fn range(self) -> (result: PageRange)
        ensures
            result == self.spec_range(),
    {
        self.range
    }

    /// Specification counterpart of [`Self::range`].
    pub open(crate) spec fn spec_range(self) -> PageRange {
        self.range
    }

    /// Invalidation reason.
    #[verifier::when_used_as_spec(spec_reason)]
    pub fn reason(self) -> (result: InvalidationReason)
        ensures
            result == self.spec_reason(),
    {
        self.reason
    }

    /// Specification counterpart of [`Self::reason`].
    pub open(crate) spec fn spec_reason(self) -> InvalidationReason {
        self.reason
    }

    /// Builds an invalidation covering one arbitrary nonempty byte range.
    pub fn covering_bytes(
        snapshot: MappingSnapshot,
        range: UserRange,
        reason: InvalidationReason,
    ) -> (result: Result<Self, MmError>)
        ensures
            ({
                let page = snapshot.range().page_size();
                match result {
                    Ok(invalidation) => {
                        &&& covers(invalidation.range(), range, page)
                        &&& snapshot.range().contains(invalidation.range())
                        &&& invalidation.expected() == snapshot.expected()
                        &&& invalidation.reason() == reason
                    },
                    Err(error) => if range.end() + page.bytes() - 1 > usize::MAX {
                        error == MmError::Overflow
                    } else {
                        &&& error == MmError::RangeNotMapped
                        &&& !snapshot.range().user_range().contains(range)
                    },
                }
            }),
    {
        let page_size = snapshot.range().page_size();
        let pages = match PageRange::covering(range, page_size) {
            Ok(pages) => pages,
            Err(error) => return Err(error),
        };
        proof {
            use_type_invariant(&page_size);
            use_type_invariant(&snapshot.range);
            if snapshot.range().user_range().contains(range) {
                covering_is_least(pages, range, page_size, snapshot.range);
            }
        }
        Self::new(snapshot, pages, reason)
    }
}

} // verus!
