use crate::mm::error::MmError;
use crate::mm::range::{alignment_is_additive, covers, PageRange, PageSize, UserRange};
use crate::powers::power_of_two;
use vstd::prelude::*;

verus! {

/// Result of translating an affine virtual origin during remap.
#[derive(Clone, Copy, Debug, Eq, PartialEq, Structural)]
pub struct AffineRelocation {
    pub(crate) origin: usize,
    pub(crate) backing_advance: usize,
}

impl AffineRelocation {
    /// New representable virtual origin.
    #[verifier::when_used_as_spec(spec_origin)]
    pub fn origin(self) -> (result: usize)
        ensures
            result == self.spec_origin(),
    {
        self.origin
    }

    /// Specification counterpart of [`Self::origin`].
    pub open(crate) spec fn spec_origin(self) -> usize {
        self.origin
    }

    /// Backing prefix consumed when a negative virtual origin is unrepresentable.
    #[verifier::when_used_as_spec(spec_backing_advance)]
    pub fn backing_advance(self) -> (result: usize)
        ensures
            result == self.spec_backing_advance(),
    {
        self.backing_advance
    }

    /// Specification counterpart of [`Self::backing_advance`].
    pub open(crate) spec fn spec_backing_advance(self) -> usize {
        self.backing_advance
    }
}

/// Relocates one affine origin while preserving its backing cursor.
///
/// If translating an origin below `old_start` would underflow at `new_start`,
/// the origin is canonically rebased to `new_start` and the unrepresentable
/// prefix is returned as `backing_advance`.
pub fn relocate_affine_origin(origin: usize, old_start: usize, new_start: usize) -> (result: Result<
    AffineRelocation,
    MmError,
>)
    ensures
        ({
            let moved = new_start as int + origin as int - old_start as int;
            match result {
                Ok(relocation) => if moved >= 0 {
                    &&& moved <= usize::MAX
                    &&& relocation.origin() == moved
                    &&& relocation.backing_advance() == 0
                } else {
                    &&& relocation.origin() == new_start
                    &&& relocation.backing_advance() == old_start - origin
                },
                Err(error) => moved > usize::MAX && error == MmError::Overflow,
            }
        }),
        result matches Ok(relocation) ==> keeps_backing_cursor(
            origin as int,
            old_start as int,
            new_start as int,
            relocation,
        ),
{
    if origin >= old_start {
        let leading_gap = origin - old_start;
        return match new_start.checked_add(leading_gap) {
            Some(origin) => Ok(AffineRelocation { origin, backing_advance: 0 }),
            None => Err(MmError::Overflow),
        };
    }
    let consumed_prefix = old_start - origin;
    match new_start.checked_sub(consumed_prefix) {
        Some(origin) => Ok(AffineRelocation { origin, backing_advance: 0 }),
        None => Ok(AffineRelocation { origin: new_start, backing_advance: consumed_prefix }),
    }
}

/// An address that moved with the mapping reads the backing at the offset at
/// which it read it before: `address - origin`, with the consumed prefix added.
pub open spec fn keeps_backing_cursor(
    origin: int,
    old_start: int,
    new_start: int,
    relocation: AffineRelocation,
) -> bool {
    forall|address: int| #[trigger]
        cursor(address, origin, 0) == cursor(
            address - old_start + new_start,
            relocation.origin() as int,
            relocation.backing_advance() as int,
        )
}

/// The backing offset of `address` for an origin whose first `advance` bytes
/// are consumed.
pub open spec fn cursor(address: int, origin: int, advance: int) -> int {
    address - origin + advance
}

/// Page-covering arithmetic for an arbitrary nonempty userspace byte range.
#[derive(Clone, Copy, Debug, Eq, PartialEq, Structural)]
pub struct PageCoveringPlan {
    pub(crate) requested: UserRange,
    pub(crate) pages: PageRange,
    pub(crate) leading_bytes: usize,
    pub(crate) trailing_bytes: usize,
}

impl PageCoveringPlan {
    /// Computes the smallest covering page range.
    pub fn new(requested: UserRange, page_size: usize) -> (result: Result<Self, MmError>)
        ensures
            match result {
                Ok(plan) => {
                    &&& page_size != 0 && power_of_two(page_size as int)
                    &&& plan.requested() == requested
                    &&& plan.pages().page_size().bytes() == page_size
                    &&& covers(plan.pages(), requested, plan.pages().page_size())
                    &&& plan.pages().start() + plan.leading_bytes() == requested.start()
                    &&& requested.end() + plan.trailing_bytes() == plan.pages().end()
                    &&& plan.leading_bytes() < page_size
                    &&& plan.trailing_bytes() < page_size
                },
                Err(error) => if page_size == 0 {
                    error == MmError::ZeroLength
                } else if !power_of_two(page_size as int) {
                    error == MmError::InvalidPageSize
                } else {
                    requested.end() + page_size - 1 > usize::MAX && error == MmError::Overflow
                },
            },
    {
        let page_size = match PageSize::new(page_size) {
            Ok(page_size) => page_size,
            Err(error) => return Err(error),
        };
        let pages = match PageRange::covering(requested, page_size) {
            Ok(pages) => pages,
            Err(error) => return Err(error),
        };
        Ok(
            Self {
                requested,
                pages,
                leading_bytes: requested.start() - pages.start(),
                trailing_bytes: pages.end() - requested.end(),
            },
        )
    }

    /// Original byte range.
    #[verifier::when_used_as_spec(spec_requested)]
    pub fn requested(self) -> (result: UserRange)
        ensures
            result == self.spec_requested(),
    {
        self.requested
    }

    /// Specification counterpart of [`Self::requested`].
    pub open(crate) spec fn spec_requested(self) -> UserRange {
        self.requested
    }

    /// Covering page range.
    #[verifier::when_used_as_spec(spec_pages)]
    pub fn pages(self) -> (result: PageRange)
        ensures
            result == self.spec_pages(),
    {
        self.pages
    }

    /// Specification counterpart of [`Self::pages`].
    pub open(crate) spec fn spec_pages(self) -> PageRange {
        self.pages
    }

    /// Bytes before the requested start in the first page.
    #[verifier::when_used_as_spec(spec_leading_bytes)]
    pub fn leading_bytes(self) -> (result: usize)
        ensures
            result == self.spec_leading_bytes(),
    {
        self.leading_bytes
    }

    /// Specification counterpart of [`Self::leading_bytes`].
    pub open(crate) spec fn spec_leading_bytes(self) -> usize {
        self.leading_bytes
    }

    /// Bytes after the requested end in the final page.
    #[verifier::when_used_as_spec(spec_trailing_bytes)]
    pub fn trailing_bytes(self) -> (result: usize)
        ensures
            result == self.spec_trailing_bytes(),
    {
        self.trailing_bytes
    }

    /// Specification counterpart of [`Self::trailing_bytes`].
    pub open(crate) spec fn spec_trailing_bytes(self) -> usize {
        self.trailing_bytes
    }
}

/// Whole-operation geometry for one page-aligned remap.
#[derive(Clone, Copy, Debug, Eq, PartialEq, Structural)]
pub struct RemapGeometry {
    pub(crate) old_range: PageRange,
    pub(crate) new_range: PageRange,
    pub(crate) moved_source: PageRange,
}

impl RemapGeometry {
    /// Builds remap geometry. `new_start` and `new_length` must be page aligned.
    pub fn new(old_range: PageRange, new_start: usize, new_length: usize) -> (result: Result<
        Self,
        MmError,
    >)
        ensures
            ({
                let page = old_range.page_size();
                match result {
                    Ok(geometry) => {
                        &&& page.is_aligned(new_start) && page.is_aligned(new_length)
                        &&& new_length > 0
                        &&& geometry.old_range() == old_range
                        &&& geometry.new_range().page_size() == page
                        &&& geometry.new_range().start() == new_start
                        &&& geometry.new_range().end() == new_start + new_length
                        &&& geometry.moved_source().page_size() == page
                        &&& geometry.moved_source().start() == old_range.start()
                        &&& geometry.moved_source().len() == if new_length < old_range.len() {
                            new_length
                        } else {
                            old_range.len()
                        }
                    },
                    Err(error) => if !page.is_aligned(new_start) || !page.is_aligned(new_length) {
                        error == MmError::Unaligned
                    } else if new_length == 0 {
                        error == MmError::ZeroLength
                    } else {
                        new_start + new_length > usize::MAX && error == MmError::Overflow
                    },
                }
            }),
    {
        let page_size = old_range.page_size();
        let new_range = match PageRange::with_page_size(new_start, new_length, page_size) {
            Ok(new_range) => new_range,
            Err(error) => return Err(error),
        };
        let old_start = old_range.start();
        let old_len = old_range.len();
        let new_len = new_range.len();
        let moved_length = if new_len < old_len {
            new_len
        } else {
            old_len
        };
        let moved_source = match PageRange::with_page_size(old_start, moved_length, page_size) {
            Ok(moved_source) => moved_source,
            Err(error) => return Err(error),
        };
        proof {
            use_type_invariant(&old_range);
            use_type_invariant(&new_range);
            use_type_invariant(&moved_source);
        }
        Ok(Self { old_range, new_range, moved_source })
    }

    /// The ranges share one page size, and the moved source is the prefix of
    /// the old range that fits into the new one.
    #[verifier::type_invariant]
    pub open spec fn valid(self) -> bool {
        &&& self.old_range().valid()
        &&& self.new_range().valid()
        &&& self.new_range().page_size() == self.old_range().page_size()
        &&& self.moved_source().page_size() == self.old_range().page_size()
        &&& self.moved_source().start() == self.old_range().start()
        &&& self.moved_source().len() == if self.new_range().len() < self.old_range().len() {
            self.new_range().len()
        } else {
            self.old_range().len()
        }
        &&& self.moved_source().valid()
    }

    /// Original mapping range.
    #[verifier::when_used_as_spec(spec_old_range)]
    pub fn old_range(self) -> (result: PageRange)
        ensures
            result == self.spec_old_range(),
    {
        self.old_range
    }

    /// Specification counterpart of [`Self::old_range`].
    pub open(crate) spec fn spec_old_range(self) -> PageRange {
        self.old_range
    }

    /// Destination range, with any growth tail.
    #[verifier::when_used_as_spec(spec_new_range)]
    pub fn new_range(self) -> (result: PageRange)
        ensures
            result == self.spec_new_range(),
    {
        self.new_range
    }

    /// Specification counterpart of [`Self::new_range`].
    pub open(crate) spec fn spec_new_range(self) -> PageRange {
        self.new_range
    }

    /// Source prefix whose existing backing/pages are relocated.
    #[verifier::when_used_as_spec(spec_moved_source)]
    pub fn moved_source(self) -> (result: PageRange)
        ensures
            result == self.spec_moved_source(),
    {
        self.moved_source
    }

    /// Specification counterpart of [`Self::moved_source`].
    pub open(crate) spec fn spec_moved_source(self) -> PageRange {
        self.moved_source
    }

    /// Whether the remap grows beyond the source length.
    #[verifier::when_used_as_spec(spec_grows)]
    pub fn grows(self) -> (result: bool)
        ensures
            result == self.spec_grows(),
    {
        self.new_range.len() > self.old_range.len()
    }

    /// Specification counterpart of [`Self::grows`].
    pub open spec fn spec_grows(self) -> bool {
        self.new_range().len() > self.old_range().len()
    }

    /// Whether the remap truncates the source tail.
    pub fn shrinks(self) -> (result: bool)
        ensures
            result == (self.new_range().len() < self.old_range().len()),
    {
        self.new_range.len() < self.old_range.len()
    }

    /// Growth-only destination tail, if any.
    pub fn growth_tail(self) -> (result: Result<Option<PageRange>, MmError>)
        ensures
            result is Ok,
            match result->Ok_0 {
                Some(tail) => {
                    &&& self.grows()
                    &&& tail.page_size() == self.new_range().page_size()
                    &&& tail.start() == self.new_range().start() + self.old_range().len()
                    &&& tail.end() == self.new_range().end()
                },
                None => !self.grows(),
            },
    {
        if !self.grows() {
            return Ok(None);
        }
        proof {
            use_type_invariant(&self);
        }
        let new_start = self.new_range.start();
        let new_len = self.new_range.len();
        let new_end = self.new_range.end();
        let old_len = self.old_range.len();
        let start = match new_start.checked_add(old_len) {
            Some(start) => start,
            None => return Err(MmError::Overflow),
        };
        proof {
            use_type_invariant(&self.new_range.page_size);
            alignment_is_additive(self.new_range.page_size, new_start, old_len);
            alignment_is_additive(self.new_range.page_size, new_len, old_len);
        }
        match PageRange::with_page_size(start, new_len - old_len, self.new_range.page_size()) {
            Ok(tail) => Ok(Some(tail)),
            Err(error) => Err(error),
        }
    }

    /// Plans one source fragment while keeping a single whole-remap backend pair.
    pub fn segment(self, source_segment: PageRange) -> (result: Result<
        RemapSegmentGeometry,
        MmError,
    >)
        ensures
            match result {
                Ok(segment) => {
                    &&& self.moved_source().contains(source_segment)
                    &&& segment.source() == source_segment
                    &&& segment.destination().page_size() == source_segment.page_size()
                    &&& segment.destination().start() - self.new_range().start()
                        == source_segment.start() - self.old_range().start()
                    &&& segment.destination().len() == source_segment.len()
                    &&& self.new_range().contains(segment.destination())
                    &&& segment.backend_old_start() == self.old_range().start()
                    &&& segment.backend_new_start() == self.new_range().start()
                },
                Err(error) => !self.moved_source().contains(source_segment) && error
                    == MmError::InvalidRemap,
            },
    {
        proof {
            use_type_invariant(&self);
            use_type_invariant(&source_segment);
        }
        if !self.moved_source.contains(source_segment) {
            return Err(MmError::InvalidRemap);
        }
        let source_start = source_segment.start();
        let source_end = source_segment.end();
        let source_len = source_segment.len();
        let old_start = self.old_range.start();
        let new_start = self.new_range.start();
        let new_end = self.new_range.end();
        let offset = match source_start.checked_sub(old_start) {
            Some(offset) => offset,
            None => return Err(MmError::InvalidRemap),
        };
        let destination_start = match new_start.checked_add(offset) {
            Some(destination_start) => destination_start,
            None => return Err(MmError::Overflow),
        };
        proof {
            let page = self.new_range.page_size;
            alignment_is_additive(page, source_start, old_start);
            alignment_is_additive(page, new_start, offset);
            alignment_is_additive(page, source_end, source_start);
        }
        let destination = match PageRange::with_page_size(
            destination_start,
            source_len,
            self.new_range.page_size(),
        ) {
            Ok(destination) => destination,
            Err(error) => return Err(error),
        };
        if !self.new_range.contains(destination) {
            return Err(MmError::InvalidRemap);
        }
        Ok(
            RemapSegmentGeometry {
                source: source_segment,
                destination,
                backend_old_start: old_start,
                backend_new_start: new_start,
            },
        )
    }
}

/// One remap fragment plus the shared backend relocation anchor pair.
#[derive(Clone, Copy, Debug, Eq, PartialEq, Structural)]
pub struct RemapSegmentGeometry {
    pub(crate) source: PageRange,
    pub(crate) destination: PageRange,
    pub(crate) backend_old_start: usize,
    pub(crate) backend_new_start: usize,
}

impl RemapSegmentGeometry {
    /// Source fragment.
    #[verifier::when_used_as_spec(spec_source)]
    pub fn source(self) -> (result: PageRange)
        ensures
            result == self.spec_source(),
    {
        self.source
    }

    /// Specification counterpart of [`Self::source`].
    pub open(crate) spec fn spec_source(self) -> PageRange {
        self.source
    }

    /// Destination fragment.
    #[verifier::when_used_as_spec(spec_destination)]
    pub fn destination(self) -> (result: PageRange)
        ensures
            result == self.spec_destination(),
    {
        self.destination
    }

    /// Specification counterpart of [`Self::destination`].
    pub open(crate) spec fn spec_destination(self) -> PageRange {
        self.destination
    }

    /// Whole remap's old anchor passed to every backend fragment.
    #[verifier::when_used_as_spec(spec_backend_old_start)]
    pub fn backend_old_start(self) -> (result: usize)
        ensures
            result == self.spec_backend_old_start(),
    {
        self.backend_old_start
    }

    /// Specification counterpart of [`Self::backend_old_start`].
    pub open(crate) spec fn spec_backend_old_start(self) -> usize {
        self.backend_old_start
    }

    /// Whole remap's new anchor passed to every backend fragment.
    #[verifier::when_used_as_spec(spec_backend_new_start)]
    pub fn backend_new_start(self) -> (result: usize)
        ensures
            result == self.spec_backend_new_start(),
    {
        self.backend_new_start
    }

    /// Specification counterpart of [`Self::backend_new_start`].
    pub open(crate) spec fn spec_backend_new_start(self) -> usize {
        self.backend_new_start
    }
}

/// Caller-specific `RLIMIT_MEMLOCK` policy after capability selection.
#[derive(Clone, Copy, Debug, Eq, PartialEq, Structural)]
pub enum MemlockLimit {
    /// `CAP_IPC_LOCK` or equivalent makes the byte limit inapplicable.
    Unlimited,
    /// Finite byte limit.
    Limited(u64),
    /// Zero/disabled policy which reports permission denial.
    Disabled,
}

/// Checked incremental memlock accounting plan.
#[derive(Clone, Copy, Debug, Eq, PartialEq, Structural)]
pub struct MemlockPlan {
    pub(crate) requested_bytes: u64,
    pub(crate) already_locked_bytes: u64,
    pub(crate) additional_bytes: u64,
    pub(crate) total_locked_bytes: u64,
}

impl MemlockPlan {
    /// Plans incremental charging for a range.
    pub fn new(
        current_locked_bytes: u64,
        already_locked_bytes: u64,
        requested_bytes: u64,
        limit: MemlockLimit,
    ) -> (result: Result<Self, MmError>)
        ensures
            ({
                let total = current_locked_bytes + requested_bytes - already_locked_bytes;
                match result {
                    Ok(plan) => {
                        &&& 0 < requested_bytes && already_locked_bytes <= requested_bytes
                        &&& plan.requested_bytes() == requested_bytes
                        &&& plan.already_locked_bytes() == already_locked_bytes
                        &&& plan.additional_bytes() == requested_bytes - already_locked_bytes
                        &&& plan.total_locked_bytes() == total
                        &&& match limit {
                            MemlockLimit::Unlimited => true,
                            MemlockLimit::Limited(bytes) => total <= bytes,
                            MemlockLimit::Disabled => false,
                        }
                    },
                    Err(error) => if requested_bytes == 0 {
                        error == MmError::ZeroLength
                    } else if already_locked_bytes > requested_bytes {
                        error == MmError::InconsistentAccounting
                    } else if limit is Disabled {
                        error == MmError::MemlockDenied
                    } else if total > u64::MAX {
                        error == MmError::Overflow
                    } else {
                        &&& error == MmError::QuotaExceeded
                        &&& limit matches MemlockLimit::Limited(bytes) && total > bytes
                    },
                }
            }),
    {
        if requested_bytes == 0 {
            return Err(MmError::ZeroLength);
        }
        if already_locked_bytes > requested_bytes {
            return Err(MmError::InconsistentAccounting);
        }
        if limit == MemlockLimit::Disabled {
            return Err(MmError::MemlockDenied);
        }
        let additional_bytes = requested_bytes - already_locked_bytes;
        let total_locked_bytes = match current_locked_bytes.checked_add(additional_bytes) {
            Some(total) => total,
            None => return Err(MmError::Overflow),
        };
        if let MemlockLimit::Limited(limit) = limit {
            if total_locked_bytes > limit {
                return Err(MmError::QuotaExceeded);
            }
        }
        Ok(Self { requested_bytes, already_locked_bytes, additional_bytes, total_locked_bytes })
    }

    /// Convenience planner using a page range's byte size.
    pub fn for_range(
        current_locked_bytes: u64,
        already_locked_bytes: u64,
        range: PageRange,
        limit: MemlockLimit,
    ) -> (result: Result<Self, MmError>)
        ensures
            ({
                let total = current_locked_bytes + range.len() - already_locked_bytes;
                match result {
                    Ok(plan) => {
                        &&& already_locked_bytes <= range.len()
                        &&& plan.requested_bytes() == range.len()
                        &&& plan.already_locked_bytes() == already_locked_bytes
                        &&& plan.additional_bytes() == range.len() - already_locked_bytes
                        &&& plan.total_locked_bytes() == total
                        &&& match limit {
                            MemlockLimit::Unlimited => true,
                            MemlockLimit::Limited(bytes) => total <= bytes,
                            MemlockLimit::Disabled => false,
                        }
                    },
                    Err(error) => if already_locked_bytes > range.len() {
                        error == MmError::InconsistentAccounting
                    } else if limit is Disabled {
                        error == MmError::MemlockDenied
                    } else if total > u64::MAX {
                        error == MmError::Overflow
                    } else {
                        &&& error == MmError::QuotaExceeded
                        &&& limit matches MemlockLimit::Limited(bytes) && total > bytes
                    },
                }
            }),
    {
        Self::new(current_locked_bytes, already_locked_bytes, range.len() as u64, limit)
    }

    /// Requested covered bytes.
    #[verifier::when_used_as_spec(spec_requested_bytes)]
    pub fn requested_bytes(self) -> (result: u64)
        ensures
            result == self.spec_requested_bytes(),
    {
        self.requested_bytes
    }

    /// Specification counterpart of [`Self::requested_bytes`].
    pub open(crate) spec fn spec_requested_bytes(self) -> u64 {
        self.requested_bytes
    }

    /// Bytes in the request already charged before the operation.
    #[verifier::when_used_as_spec(spec_already_locked_bytes)]
    pub fn already_locked_bytes(self) -> (result: u64)
        ensures
            result == self.spec_already_locked_bytes(),
    {
        self.already_locked_bytes
    }

    /// Specification counterpart of [`Self::already_locked_bytes`].
    pub open(crate) spec fn spec_already_locked_bytes(self) -> u64 {
        self.already_locked_bytes
    }

    /// New charge needed by this operation.
    #[verifier::when_used_as_spec(spec_additional_bytes)]
    pub fn additional_bytes(self) -> (result: u64)
        ensures
            result == self.spec_additional_bytes(),
    {
        self.additional_bytes
    }

    /// Specification counterpart of [`Self::additional_bytes`].
    pub open(crate) spec fn spec_additional_bytes(self) -> u64 {
        self.additional_bytes
    }

    /// Total locked bytes after successful publication.
    #[verifier::when_used_as_spec(spec_total_locked_bytes)]
    pub fn total_locked_bytes(self) -> (result: u64)
        ensures
            result == self.spec_total_locked_bytes(),
    {
        self.total_locked_bytes
    }

    /// Specification counterpart of [`Self::total_locked_bytes`].
    pub open(crate) spec fn spec_total_locked_bytes(self) -> u64 {
        self.total_locked_bytes
    }
}

} // verus!
