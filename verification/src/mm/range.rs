use crate::mm::error::MmError;
use crate::powers::{is_power_of_two, power_of_two};
use vstd::arithmetic::div_mod::{
    lemma_add_mod_noop, lemma_fundamental_div_mod, lemma_mod_multiples_vanish, lemma_sub_mod_noop,
};
use vstd::prelude::*;

verus! {

/// Checked nonzero half-open userspace byte range.
#[derive(Clone, Copy, Debug, Eq, Hash, PartialEq, Structural)]
pub struct UserRange {
    pub(crate) start: usize,
    pub(crate) end: usize,
}

impl UserRange {
    /// The range holds at least one byte.
    #[verifier::type_invariant]
    pub open spec fn valid(self) -> bool {
        self.start() < self.end()
    }

    /// The byte addresses of the range.
    pub open spec fn addresses(self) -> Set<int> {
        Set::new(|address: int| self.start() <= address < self.end())
    }

    /// Builds `[start, start + length)`, rejecting zero and overflow.
    pub fn new(start: usize, length: usize) -> (result: Result<Self, MmError>)
        ensures
            match result {
                Ok(range) => {
                    &&& length > 0
                    &&& range.start() == start
                    &&& range.end() == start + length
                },
                Err(error) => if length == 0 {
                    error == MmError::ZeroLength
                } else {
                    start + length > usize::MAX && error == MmError::Overflow
                },
            },
    {
        if length == 0 {
            return Err(MmError::ZeroLength);
        }
        match start.checked_add(length) {
            Some(end) => Ok(Self { start, end }),
            None => Err(MmError::Overflow),
        }
    }

    /// Builds a range and validates it against an exclusive userspace limit.
    pub fn new_bounded(start: usize, length: usize, user_end: usize) -> (result: Result<
        Self,
        MmError,
    >)
        ensures
            match result {
                Ok(range) => {
                    &&& length > 0
                    &&& range.start() == start
                    &&& range.end() == start + length
                    &&& start + length <= user_end
                },
                Err(error) => if length == 0 {
                    error == MmError::ZeroLength
                } else if start + length > usize::MAX {
                    error == MmError::Overflow
                } else {
                    start + length > user_end && error == MmError::AddressOutOfRange
                },
            },
    {
        let range = match Self::new(start, length) {
            Ok(range) => range,
            Err(error) => return Err(error),
        };
        range.within(user_end)
    }

    /// Builds a nonempty half-open range from explicit bounds.
    pub fn from_bounds(start: usize, end: usize) -> (result: Result<Self, MmError>)
        ensures
            match result {
                Ok(range) => start < end && range.start() == start && range.end() == end,
                Err(error) => if start == end {
                    error == MmError::ZeroLength
                } else {
                    start > end && error == MmError::Overflow
                },
            },
    {
        match end.checked_sub(start) {
            Some(0) => Err(MmError::ZeroLength),
            Some(_) => Ok(Self { start, end }),
            None => Err(MmError::Overflow),
        }
    }

    /// First included byte address.
    #[verifier::when_used_as_spec(spec_start)]
    pub fn start(self) -> (result: usize)
        ensures
            result == self.spec_start(),
    {
        self.start
    }

    /// Specification counterpart of [`Self::start`].
    pub open(crate) spec fn spec_start(self) -> usize {
        self.start
    }

    /// First excluded byte address.
    #[verifier::when_used_as_spec(spec_end)]
    pub fn end(self) -> (result: usize)
        ensures
            result == self.spec_end(),
    {
        self.end
    }

    /// Specification counterpart of [`Self::end`].
    pub open(crate) spec fn spec_end(self) -> usize {
        self.end
    }

    /// Number of bytes in the range.
    #[verifier::when_used_as_spec(spec_len)]
    pub fn len(self) -> (result: usize)
        ensures
            result == self.spec_len(),
            result > 0,
    {
        proof {
            use_type_invariant(&self);
        }
        self.end - self.start
    }

    /// Specification counterpart of [`Self::len`].
    pub open spec fn spec_len(self) -> usize {
        (self.end() - self.start()) as usize
    }

    /// Always false because construction rejects empty ranges.
    pub fn is_empty(self) -> (result: bool)
        ensures
            !result,
    {
        proof {
            use_type_invariant(&self);
        }
        self.start == self.end
    }

    /// Returns a standard half-open range for consumer iteration.
    pub fn as_range(self) -> (result: core::ops::Range<usize>)
        ensures
            result.start == self.start(),
            result.end == self.end(),
    {
        self.start..self.end
    }

    /// Whether this range fully contains `other`.
    #[verifier::when_used_as_spec(spec_contains)]
    pub fn contains(self, other: Self) -> (result: bool)
        ensures
            result == self.spec_contains(other),
    {
        self.start <= other.start && other.end <= self.end
    }

    /// Specification counterpart of [`Self::contains`].
    pub open spec fn spec_contains(self, other: Self) -> bool {
        self.start() <= other.start() && other.end() <= self.end()
    }

    /// Whether two half-open ranges intersect.
    #[verifier::when_used_as_spec(spec_overlaps)]
    pub fn overlaps(self, other: Self) -> (result: bool)
        ensures
            result == self.spec_overlaps(other),
    {
        self.start < other.end && other.start < self.end
    }

    /// Specification counterpart of [`Self::overlaps`].
    pub open spec fn spec_overlaps(self, other: Self) -> bool {
        self.start() < other.end() && other.start() < self.end()
    }

    /// Whether one byte address belongs to the range.
    #[verifier::when_used_as_spec(spec_contains_address)]
    pub fn contains_address(self, address: usize) -> (result: bool)
        ensures
            result == self.spec_contains_address(address),
    {
        self.start <= address && address < self.end
    }

    /// Specification counterpart of [`Self::contains_address`].
    pub open spec fn spec_contains_address(self, address: usize) -> bool {
        self.start() <= address < self.end()
    }

    /// Validates that the entire range lies below an exclusive userspace end.
    pub fn within(self, user_end: usize) -> (result: Result<Self, MmError>)
        ensures
            match result {
                Ok(range) => self.end() <= user_end && range == self,
                Err(error) => self.end() > user_end && error == MmError::AddressOutOfRange,
            },
    {
        if self.end > user_end {
            return Err(MmError::AddressOutOfRange);
        }
        Ok(self)
    }
}

/// One range contains another exactly when it holds all of its addresses, and
/// two ranges overlap exactly when they share one.
pub proof fn range_relations_are_about_addresses(a: UserRange, b: UserRange)
    requires
        a.valid(),
        b.valid(),
    ensures
        a.contains(b) <==> b.addresses().subset_of(a.addresses()),
        a.overlaps(b) <==> !a.addresses().disjoint(b.addresses()),
        a.overlaps(b) <==> b.overlaps(a),
{
    assert(b.addresses().contains(b.start() as int));
    assert(b.addresses().contains(b.end() - 1));
    if a.overlaps(b) {
        let shared = if a.start() < b.start() {
            b.start() as int
        } else {
            a.start() as int
        };
        assert(a.addresses().contains(shared) && b.addresses().contains(shared));
    }
}

/// Checked power-of-two page size, independent of any HAL constant.
#[derive(Clone, Copy, Debug, Eq, Hash, PartialEq, Structural)]
pub struct PageSize(pub(crate) usize);

impl PageSize {
    /// The size is a power of two.
    #[verifier::type_invariant]
    pub open spec fn valid(self) -> bool {
        self.bytes() > 0 && power_of_two(self.bytes() as int)
    }

    /// Validates a nonzero power-of-two page size.
    pub fn new(bytes: usize) -> (result: Result<Self, MmError>)
        ensures
            match result {
                Ok(page_size) => {
                    &&& power_of_two(bytes as int) && bytes != 0
                    &&& page_size.bytes() == bytes
                },
                Err(error) => if bytes == 0 {
                    error == MmError::ZeroLength
                } else {
                    !power_of_two(bytes as int) && error == MmError::InvalidPageSize
                },
            },
    {
        if bytes == 0 {
            return Err(MmError::ZeroLength);
        }
        if !is_power_of_two(bytes as u64) {
            return Err(MmError::InvalidPageSize);
        }
        Ok(Self(bytes))
    }

    /// Page size in bytes.
    #[verifier::when_used_as_spec(spec_bytes)]
    pub fn bytes(self) -> (result: usize)
        ensures
            result == self.spec_bytes(),
            result > 0,
            power_of_two(result as int),
    {
        proof {
            use_type_invariant(&self);
        }
        self.0
    }

    /// Specification counterpart of [`Self::bytes`].
    pub open(crate) spec fn spec_bytes(self) -> usize {
        self.0
    }

    /// Whether an address or length is page aligned.
    #[verifier::when_used_as_spec(spec_is_aligned)]
    pub fn is_aligned(self, value: usize) -> (result: bool)
        ensures
            result == self.spec_is_aligned(value),
    {
        proof {
            use_type_invariant(&self);
        }
        value % self.0 == 0
    }

    /// Specification counterpart of [`Self::is_aligned`].
    pub open spec fn spec_is_aligned(self, value: usize) -> bool {
        value as int % self.bytes() as int == 0
    }

    /// The greatest aligned value that is not above `value`.
    pub(crate) fn align_down(self, value: usize) -> (result: usize)
        ensures
            self.is_aligned(result),
            result <= value < result + self.bytes(),
    {
        proof {
            use_type_invariant(&self);
            let page = self.0 as int;
            lemma_fundamental_div_mod(value as int, page);
            lemma_mod_multiples_vanish(value as int / page, 0, page);
            assert(value as int - value as int % page == page * (value as int / page) + 0);
        }
        value - value % self.0
    }

    /// The least aligned value that is not below `value`.
    pub(crate) fn align_up(self, value: usize) -> (result: Result<usize, MmError>)
        ensures
            match result {
                Ok(aligned) => {
                    &&& value + self.bytes() - 1 <= usize::MAX
                    &&& self.is_aligned(aligned)
                    &&& aligned - self.bytes() < value <= aligned
                },
                Err(error) => value + self.bytes() - 1 > usize::MAX && error == MmError::Overflow,
            },
    {
        proof {
            use_type_invariant(&self);
        }
        match value.checked_add(self.0 - 1) {
            Some(raised) => Ok(self.align_down(raised)),
            None => Err(MmError::Overflow),
        }
    }
}

/// Sums and differences of aligned values are aligned.
pub proof fn alignment_is_additive(page: PageSize, a: usize, b: usize)
    requires
        page.valid(),
        page.is_aligned(a),
        page.is_aligned(b),
    ensures
        a + b <= usize::MAX ==> page.is_aligned((a + b) as usize),
        a >= b ==> page.is_aligned((a - b) as usize),
{
    lemma_add_mod_noop(a as int, b as int, page.bytes() as int);
    lemma_sub_mod_noop(a as int, b as int, page.bytes() as int);
    assert(0int % page.bytes() as int == 0);
}

/// Checked nonzero page-aligned byte range.
#[derive(Clone, Copy, Debug, Eq, Hash, PartialEq, Structural)]
pub struct PageRange {
    pub(crate) range: UserRange,
    pub(crate) page_size: PageSize,
}

impl PageRange {
    /// Both bounds are multiples of the page size.
    #[verifier::type_invariant]
    pub open spec fn valid(self) -> bool {
        &&& self.user_range().valid()
        &&& self.page_size().valid()
        &&& self.page_size().is_aligned(self.start())
        &&& self.page_size().is_aligned(self.end())
    }

    /// Builds an exactly page-aligned range from raw byte values.
    pub fn new(start: usize, length: usize, page_size: usize) -> (result: Result<Self, MmError>)
        ensures
            match result {
                Ok(range) => {
                    &&& page_size != 0 && power_of_two(page_size as int)
                    &&& start as int % page_size as int == 0
                    &&& length as int % page_size as int == 0
                    &&& length > 0
                    &&& range.page_size().bytes() == page_size
                    &&& range.start() == start
                    &&& range.end() == start + length
                },
                Err(error) => if page_size == 0 {
                    error == MmError::ZeroLength
                } else if !power_of_two(page_size as int) {
                    error == MmError::InvalidPageSize
                } else if start as int % page_size as int != 0 || length as int % page_size as int
                    != 0 {
                    error == MmError::Unaligned
                } else if length == 0 {
                    error == MmError::ZeroLength
                } else {
                    start + length > usize::MAX && error == MmError::Overflow
                },
            },
    {
        let page_size = match PageSize::new(page_size) {
            Ok(page_size) => page_size,
            Err(error) => return Err(error),
        };
        Self::with_page_size(start, length, page_size)
    }

    /// Builds an exactly page-aligned range using a validated page size.
    pub fn with_page_size(start: usize, length: usize, page_size: PageSize) -> (result: Result<
        Self,
        MmError,
    >)
        ensures
            match result {
                Ok(range) => {
                    &&& page_size.is_aligned(start) && page_size.is_aligned(length)
                    &&& length > 0
                    &&& range.page_size() == page_size
                    &&& range.start() == start
                    &&& range.end() == start + length
                },
                Err(error) => if !page_size.is_aligned(start) || !page_size.is_aligned(length) {
                    error == MmError::Unaligned
                } else if length == 0 {
                    error == MmError::ZeroLength
                } else {
                    start + length > usize::MAX && error == MmError::Overflow
                },
            },
    {
        if !page_size.is_aligned(start) || !page_size.is_aligned(length) {
            return Err(MmError::Unaligned);
        }
        let range = match UserRange::new(start, length) {
            Ok(range) => range,
            Err(error) => return Err(error),
        };
        proof {
            use_type_invariant(&page_size);
            use_type_invariant(&range);
            alignment_is_additive(page_size, start, length);
        }
        Ok(Self { range, page_size })
    }

    /// Expands a byte range to the smallest page-aligned covering range.
    pub fn covering(range: UserRange, page_size: PageSize) -> (result: Result<Self, MmError>)
        ensures
            match result {
                Ok(pages) => {
                    &&& range.end() + page_size.bytes() - 1 <= usize::MAX
                    &&& covers(pages, range, page_size)
                },
                Err(error) => range.end() + page_size.bytes() - 1 > usize::MAX && error
                    == MmError::Overflow,
            },
    {
        let start = page_size.align_down(range.start());
        let end = match page_size.align_up(range.end()) {
            Ok(end) => end,
            Err(error) => return Err(error),
        };
        proof {
            use_type_invariant(&range);
            use_type_invariant(&page_size);
            alignment_is_additive(page_size, end, start);
        }
        Self::with_page_size(start, end - start, page_size)
    }

    /// Underlying byte range.
    #[verifier::when_used_as_spec(spec_user_range)]
    pub fn user_range(self) -> (result: UserRange)
        ensures
            result == self.spec_user_range(),
    {
        self.range
    }

    /// Specification counterpart of [`Self::user_range`].
    pub open(crate) spec fn spec_user_range(self) -> UserRange {
        self.range
    }

    /// First included address.
    #[verifier::when_used_as_spec(spec_start)]
    pub fn start(self) -> (result: usize)
        ensures
            result == self.spec_start(),
            self.page_size().is_aligned(result),
    {
        proof {
            use_type_invariant(&self);
        }
        self.range.start
    }

    /// Specification counterpart of [`Self::start`].
    pub open spec fn spec_start(self) -> usize {
        self.user_range().start()
    }

    /// First excluded address.
    #[verifier::when_used_as_spec(spec_end)]
    pub fn end(self) -> (result: usize)
        ensures
            result == self.spec_end(),
            self.start() < result,
            self.page_size().is_aligned(result),
    {
        proof {
            use_type_invariant(&self);
        }
        self.range.end
    }

    /// Specification counterpart of [`Self::end`].
    pub open spec fn spec_end(self) -> usize {
        self.user_range().end()
    }

    /// Byte length.
    #[verifier::when_used_as_spec(spec_len)]
    pub fn len(self) -> (result: usize)
        ensures
            result == self.spec_len(),
            result > 0,
            self.start() + result == self.end(),
            self.page_size().is_aligned(result),
    {
        proof {
            use_type_invariant(&self);
            alignment_is_additive(self.page_size, self.range.end, self.range.start);
        }
        self.range.len()
    }

    /// Specification counterpart of [`Self::len`].
    pub open spec fn spec_len(self) -> usize {
        self.user_range().len()
    }

    /// Always false because construction rejects empty ranges.
    pub fn is_empty(self) -> (result: bool)
        ensures
            !result,
    {
        self.range.is_empty()
    }

    /// Page size used by the range.
    #[verifier::when_used_as_spec(spec_page_size)]
    pub fn page_size(self) -> (result: PageSize)
        ensures
            result == self.spec_page_size(),
    {
        self.page_size
    }

    /// Specification counterpart of [`Self::page_size`].
    pub open(crate) spec fn spec_page_size(self) -> PageSize {
        self.page_size
    }

    /// Number of pages in the range.
    #[verifier::when_used_as_spec(spec_page_count)]
    pub fn page_count(self) -> (result: usize)
        ensures
            result == self.spec_page_count(),
            result * self.page_size().bytes() == self.len(),
            0 < result <= self.len(),
    {
        let len = self.len();
        proof {
            use_type_invariant(&self);
            let page = self.page_size.0 as int;
            lemma_fundamental_div_mod(len as int, page);
            assert(page * (len as int / page) == (len as int / page) * page) by (nonlinear_arith);
            assert(0 < len as int / page <= len as int) by (nonlinear_arith)
                requires
                    page > 0,
                    len > 0,
                    page * (len as int / page) == len,
            ;
        }
        len / self.page_size.bytes()
    }

    /// Specification counterpart of [`Self::page_count`].
    pub open spec fn spec_page_count(self) -> usize {
        (self.len() as int / self.page_size().bytes() as int) as usize
    }

    /// Whether this range fully contains `other` with the same page size.
    #[verifier::when_used_as_spec(spec_contains)]
    pub fn contains(self, other: Self) -> (result: bool)
        ensures
            result == self.spec_contains(other),
    {
        self.page_size.bytes() == other.page_size.bytes() && self.range.contains(other.range)
    }

    /// Specification counterpart of [`Self::contains`].
    pub open spec fn spec_contains(self, other: Self) -> bool {
        self.page_size() == other.page_size() && self.user_range().contains(other.user_range())
    }

    /// Whether two ranges with the same page size intersect.
    #[verifier::when_used_as_spec(spec_overlaps)]
    pub fn overlaps(self, other: Self) -> (result: bool)
        ensures
            result == self.spec_overlaps(other),
    {
        self.page_size.bytes() == other.page_size.bytes() && self.range.overlaps(other.range)
    }

    /// Specification counterpart of [`Self::overlaps`].
    pub open spec fn spec_overlaps(self, other: Self) -> bool {
        self.page_size() == other.page_size() && self.user_range().overlaps(other.user_range())
    }

    /// Returns an aligned subrange, relative to this range's first byte.
    pub fn subrange(self, offset: usize, length: usize) -> (result: Result<Self, MmError>)
        ensures
            match result {
                Ok(subrange) => {
                    &&& self.page_size().is_aligned(offset) && self.page_size().is_aligned(length)
                    &&& length > 0
                    &&& offset + length <= self.len()
                    &&& subrange.page_size() == self.page_size()
                    &&& subrange.start() == self.start() + offset
                    &&& subrange.end() == self.start() + offset + length
                },
                Err(error) => if !self.page_size().is_aligned(offset)
                    || !self.page_size().is_aligned(length) {
                    error == MmError::Unaligned
                } else if self.start() + offset > usize::MAX {
                    error == MmError::Overflow
                } else if length == 0 {
                    error == MmError::ZeroLength
                } else if self.start() + offset + length > usize::MAX {
                    error == MmError::Overflow
                } else {
                    offset + length > self.len() && error == MmError::RangeNotMapped
                },
            },
    {
        if !self.page_size.is_aligned(offset) || !self.page_size.is_aligned(length) {
            return Err(MmError::Unaligned);
        }
        let start = match self.start().checked_add(offset) {
            Some(start) => start,
            None => return Err(MmError::Overflow),
        };
        proof {
            use_type_invariant(&self);
            alignment_is_additive(self.page_size, self.range.start, offset);
        }
        let subrange = match Self::with_page_size(start, length, self.page_size) {
            Ok(range) => range,
            Err(error) => return Err(error),
        };
        if !self.contains(subrange) {
            return Err(MmError::RangeNotMapped);
        }
        Ok(subrange)
    }
}

/// `pages` is the smallest run of whole pages that holds `range`.
pub open spec fn covers(pages: PageRange, range: UserRange, page_size: PageSize) -> bool {
    &&& pages.page_size() == page_size
    &&& page_size.is_aligned(pages.start())
    &&& page_size.is_aligned(pages.end())
    &&& pages.start() <= range.start() < pages.start() + page_size.bytes()
    &&& pages.end() - page_size.bytes() < range.end() <= pages.end()
}

/// Every page-aligned range that holds `range` holds its covering pages too.
pub proof fn covering_is_least(
    pages: PageRange,
    range: UserRange,
    page_size: PageSize,
    other: PageRange,
)
    requires
        page_size.valid(),
        other.valid(),
        covers(pages, range, page_size),
        other.page_size() == page_size,
        other.user_range().contains(range),
    ensures
        other.contains(pages),
{
    let page = page_size.bytes() as int;
    multiples_do_not_cross(pages.start() as int, other.start() as int, page);
    multiples_do_not_cross(other.end() as int, pages.end() as int, page);
}

/// A multiple of the page size below the end of the page at `a` is not above
/// `a`.
pub proof fn multiples_do_not_cross(a: int, b: int, page: int)
    requires
        page > 0,
        a % page == 0,
        b % page == 0,
        b < a + page,
    ensures
        b <= a,
{
    lemma_fundamental_div_mod(a, page);
    lemma_fundamental_div_mod(b, page);
    assert(b / page <= a / page) by (nonlinear_arith)
        requires
            page > 0,
            a == page * (a / page),
            b == page * (b / page),
            b < a + page,
    ;
    assert(page * (b / page) <= page * (a / page)) by (nonlinear_arith)
        requires
            page > 0,
            b / page <= a / page,
    ;
}

} // verus!
