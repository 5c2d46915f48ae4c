//! What ranges, mapping snapshots, plans, fault admission and userfaultfd values
//! are for, stated of the calls themselves.

use crate::mm::error::MmError;
use crate::mm::fault::{
    validate_fault_completion, FaultAccess, FaultAdmission, FaultAdmissionPermit, FaultCapacity,
    FaultCompletionPermit, FaultDisposition, FaultHandlerId, FaultKey, FaultLifecycleState, FaultLoad, FaultRequest,
};
use crate::mm::mapping::{
    ExpectedMapping, InvalidationRange, InvalidationReason, MappingAccess, MappingKind,
    MappingSnapshot,
};
use crate::mm::pin::{PinAccess, PinAccounting, PinDuration, PinQuota, PinRequest, PinUse};
use crate::mm::plan::{
    relocate_affine_origin, AffineRelocation, MemlockLimit, MemlockPlan, PageCoveringPlan,
    RemapGeometry, RemapSegmentGeometry,
};
use crate::mm::range::{PageRange, PageSize, UserRange};
use crate::mm::registration::{
    UffdRegistration, UffdRegistrationId, UffdRegistrationReplacement, UffdRegistrationRequest,
};
use crate::mm::userfaultfd::{
    UffdApiNegotiation, UffdApiRequest, UffdApiResponse, UffdApiState, UffdCopyMode, UffdCopyRequest,
    UffdCreateFlags, UffdFaultPolicy, UffdIoctls, UffdRegisterMode, UffdResolverResult, UffdZeroPageMode,
    UffdZeroPageRequest,
};
use crate::mm::identity::{AddressSpaceId, MappingGeneration, MappingId, PinOwner};
use crate::powers::power_of_two;
use vstd::prelude::*;

verus! {

/// The addresses from `start` up to, not including, `end`.
pub open spec fn span(start: int, end: int) -> Set<int> {
    Set::new(|address: int| start <= address < end)
}

/// A range holds as many bytes as asked for, from the asked address on, and ends
/// inside the address space.
pub proof fn ranges_hold_their_bytes(
    start: usize,
    length: usize,
    limit: usize,
    plain: Result<UserRange, MmError>,
    bounded: Result<UserRange, MmError>,
    end: usize,
    ends: Result<UserRange, MmError>,
)
    requires
        call_ensures(UserRange::new, (start, length), plain),
        call_ensures(UserRange::new_bounded, (start, length, limit), bounded),
        call_ensures(UserRange::from_bounds, (start, end), ends),
    ensures
        plain is Ok <==> length > 0 && start + length <= usize::MAX,
        plain matches Ok(range) ==> range.start() == start && range.end() - start == length,
        plain matches Err(error) ==> error == if length == 0 {
            MmError::ZeroLength
        } else {
            MmError::Overflow
        },
        bounded is Ok <==> length > 0 && start + length <= limit,
        bounded matches Ok(range) ==> range.start() == start && range.end() - start == length,
        ends is Ok <==> start < end,
        ends matches Ok(range) ==> range.start() == start && range.end() == end,
{
}

/// Containment and overlap are those of the sets of addresses.
pub proof fn ranges_compare_as_sets(
    a: UserRange,
    b: UserRange,
    address: usize,
    contained: bool,
    overlapping: bool,
    held: bool,
)
    requires
        a.start() < a.end(),
        b.start() < b.end(),
        call_ensures(UserRange::contains, (a, b), contained),
        call_ensures(UserRange::overlaps, (a, b), overlapping),
        call_ensures(UserRange::contains_address, (a, address), held),
    ensures
        contained <==> span(b.start() as int, b.end() as int).subset_of(
            span(a.start() as int, a.end() as int),
        ),
        overlapping <==> exists|x: int| #[trigger]
            span(a.start() as int, a.end() as int).contains(x) && span(
                b.start() as int,
                b.end() as int,
            ).contains(x),
        held <==> span(a.start() as int, a.end() as int).contains(address as int),
{
    let first = span(a.start() as int, a.end() as int);
    let second = span(b.start() as int, b.end() as int);
    if second.subset_of(first) {
        assert(second.contains(b.start() as int) && second.contains(b.end() - 1));
        assert(first.contains(b.start() as int) && first.contains(b.end() - 1));
    }
    if overlapping {
        let x = if a.start() < b.start() {
            b.start() as int
        } else {
            a.start() as int
        };
        assert(first.contains(x) && second.contains(x));
    }
}

/// Page ranges compare as the sets of their addresses, where they have one page
/// size, and not at all otherwise.
pub proof fn page_ranges_compare_as_sets(
    a: PageRange,
    b: PageRange,
    contained: bool,
    overlapping: bool,
)
    requires
        a.start() < a.end(),
        b.start() < b.end(),
        call_ensures(PageRange::contains, (a, b), contained),
        call_ensures(PageRange::overlaps, (a, b), overlapping),
    ensures
        contained ==> a.page_size() == b.page_size(),
        overlapping ==> a.page_size() == b.page_size(),
        a.page_size() == b.page_size() ==> {
            &&& contained <==> a.start() <= b.start() && b.end() <= a.end()
            &&& overlapping <==> exists|x: int| #[trigger]
                span(a.start() as int, a.end() as int).contains(x) && span(
                    b.start() as int,
                    b.end() as int,
                ).contains(x)
        },
{
    if overlapping {
        let x = if a.start() < b.start() {
            b.start() as int
        } else {
            a.start() as int
        };
        assert(span(a.start() as int, a.end() as int).contains(x) && span(
            b.start() as int,
            b.end() as int,
        ).contains(x));
    }
}

/// Page sizes are the powers of two, and alignment is divisibility.
pub proof fn page_sizes_are_powers_of_two(
    bytes: usize,
    result: Result<PageSize, MmError>,
    value: usize,
    aligned: bool,
)
    requires
        call_ensures(PageSize::new, (bytes,), result),
        result is Ok ==> call_ensures(PageSize::is_aligned, (result->Ok_0, value), aligned),
    ensures
        result is Ok <==> bytes > 0 && power_of_two(bytes as int),
        result matches Ok(page) ==> page.bytes() == bytes && (aligned <==> exists|k: int|
            #[trigger] (bytes * k) == value),
{
    if result is Ok {
        vstd::arithmetic::div_mod::lemma_fundamental_div_mod(value as int, bytes as int);
        if aligned {
            assert(bytes * (value as int / bytes as int) == value);
        }
        if exists|k: int| #[trigger] (bytes * k) == value {
            let k = choose|k: int| #[trigger] (bytes * k) == value;
            vstd::arithmetic::div_mod::lemma_mod_multiples_basic(k, bytes as int);
            assert(k * bytes == bytes * k) by (nonlinear_arith);
        }
    }
}

/// The covering pages hold the bytes, are whole pages, and no fewer would do.
pub proof fn covering_pages_are_the_least(
    range: UserRange,
    page: PageSize,
    result: Result<PageRange, MmError>,
    start: int,
    end: int,
)
    requires
        page.bytes() > 0,
        call_ensures(PageRange::covering, (range, page), result),
        start as int % page.bytes() as int == 0,
        end as int % page.bytes() as int == 0,
        start <= range.start(),
        range.end() <= end,
    ensures
        result matches Ok(pages) ==> {
            &&& pages.page_size() == page
            &&& pages.start() as int % page.bytes() as int == 0
            &&& pages.end() as int % page.bytes() as int == 0
            &&& pages.start() <= range.start() && range.end() <= pages.end()
            &&& start <= pages.start() && pages.end() <= end
        },
        range.end() + page.bytes() <= usize::MAX ==> result is Ok,
{
    if result is Ok {
        let pages = result->Ok_0;
        crate::mm::range::multiples_do_not_cross(
            pages.start() as int,
            start,
            page.bytes() as int,
        );
        crate::mm::range::multiples_do_not_cross(end, pages.end() as int, page.bytes() as int);
    }
}

/// A part of a page range is where it was asked for, inside the whole.
pub proof fn subranges_are_where_they_were_asked_for(
    range: PageRange,
    offset: usize,
    length: usize,
    result: Result<PageRange, MmError>,
)
    requires
        range.valid(),
        call_ensures(PageRange::subrange, (range, offset, length), result),
    ensures
        result matches Ok(part) ==> {
            &&& part.start() == range.start() + offset
            &&& part.end() == part.start() + length
            &&& range.start() <= part.start() && part.end() <= range.end()
            &&& part.page_size() == range.page_size()
        },
        length > 0 && offset + length <= range.len() && offset as int
            % range.page_size().bytes() as int == 0 && length as int
            % range.page_size().bytes() as int == 0 ==> result is Ok,
{
}

proof fn access_bits(bits: u8)
    ensures
        bits & 1u8 != 0 <==> bits & 1u8 == 1u8,
        bits & 2u8 != 0 <==> bits & 2u8 == 2u8,
        bits & 4u8 != 0 <==> bits & 4u8 == 4u8,
        bits & !7u8 == 0 <==> bits < 8,
{
    assert((bits & 1u8 != 0 <==> bits & 1u8 == 1u8) && (bits & 2u8 != 0 <==> bits & 2u8 == 2u8) && (
    bits & 4u8 != 0 <==> bits & 4u8 == 4u8) && (bits & !7u8 == 0 <==> bits < 8)) by (bit_vector);
}

/// Bit 0 lets a mapping be read, bit 1 written and bit 2 executed.
pub proof fn permissions_are_their_bits(
    bits: u8,
    result: Result<MappingAccess, MmError>,
    read: bool,
    write: bool,
    execute: bool,
)
    requires
        call_ensures(MappingAccess::from_bits, (bits,), result),
        result is Ok ==> call_ensures(MappingAccess::readable, (result->Ok_0,), read),
        result is Ok ==> call_ensures(MappingAccess::writable, (result->Ok_0,), write),
        result is Ok ==> call_ensures(MappingAccess::executable, (result->Ok_0,), execute),
    ensures
        result is Ok <==> bits < 8,
        result is Ok ==> (read <==> bits & 1u8 == 1u8) && (write <==> bits & 2u8 == 2u8) && (execute
            <==> bits & 4u8 == 4u8),
{
    access_bits(bits);
}

/// A mapping is still the expected one exactly when it is the same generation of
/// the same mapping of the same address space and still holds the expected range,
/// and, where one is asked for, the range of the operation.
pub proof fn expectations_outlive_no_change(
    frozen: MappingSnapshot,
    current: MappingSnapshot,
    range: PageRange,
    expected: ExpectedMapping,
    whole: Result<(), MmError>,
    part: Result<(), MmError>,
)
    requires
        call_ensures(MappingSnapshot::expected, (frozen,), expected),
        call_ensures(ExpectedMapping::revalidate, (expected, current), whole),
        call_ensures(ExpectedMapping::revalidate_range, (expected, current, range), part),
    ensures
        ({
            let same = frozen.address_space() == current.address_space() && frozen.mapping()
                == current.mapping() && frozen.generation() == current.generation();
            let holds = current.range().page_size() == frozen.range().page_size()
                && current.range().start() <= frozen.range().start() && frozen.range().end()
                <= current.range().end();
            let inside = range.page_size() == frozen.range().page_size() && frozen.range().start()
                <= range.start() && range.end() <= frozen.range().end();
            &&& whole is Ok <==> same && holds
            &&& part is Ok <==> same && holds && inside
            &&& !same ==> whole == Err::<(), MmError>(MmError::StaleGeneration) && part == Err::<
                (),
                MmError,
            >(MmError::StaleGeneration)
            &&& same && whole is Err ==> whole->Err_0 == MmError::RangeNotMapped
            &&& same && part is Err ==> part->Err_0 == MmError::RangeNotMapped
        }),
{
}

/// An invalidation names the mapping it was made from and a range inside it.
pub proof fn invalidations_stay_in_their_mapping(
    snapshot: MappingSnapshot,
    range: PageRange,
    reason: InvalidationReason,
    result: Result<InvalidationRange, MmError>,
)
    requires
        call_ensures(InvalidationRange::new, (snapshot, range, reason), result),
    ensures
        result is Ok <==> range.page_size() == snapshot.range().page_size()
            && snapshot.range().start() <= range.start() && range.end() <= snapshot.range().end(),
        result matches Ok(invalidation) ==> {
            &&& invalidation.range() == range
            &&& invalidation.reason() == reason
            &&& invalidation.expected().address_space() == snapshot.address_space()
            &&& invalidation.expected().mapping() == snapshot.mapping()
            &&& invalidation.expected().generation() == snapshot.generation()
        },
        result matches Err(error) ==> error == MmError::RangeNotMapped,
{
}

/// A mapping that moves keeps its contents: an address that moved with it reads
/// the backing where it read it before.
pub proof fn moved_mappings_keep_their_contents(
    origin: usize,
    old_start: usize,
    new_start: usize,
    result: Result<AffineRelocation, MmError>,
    address: int,
)
    requires
        call_ensures(relocate_affine_origin, (origin, old_start, new_start), result),
    ensures
        result matches Ok(moved) ==> address - origin == (address - old_start + new_start)
            - moved.origin() + moved.backing_advance(),
        result matches Ok(moved) ==> moved.backing_advance() > 0 ==> moved.origin() == new_start,
        result is Err <==> new_start + origin - old_start > usize::MAX,
{
}

/// A covering plan says how far the pages reach past the bytes on either side.
pub proof fn covering_plans_measure_both_ends(
    requested: UserRange,
    page: usize,
    result: Result<PageCoveringPlan, MmError>,
)
    requires
        call_ensures(PageCoveringPlan::new, (requested, page), result),
        result is Ok,
    ensures
        ({
            let plan = result->Ok_0;
            &&& plan.requested() == requested
            &&& plan.pages().start() as int % page as int == 0
            &&& plan.pages().end() as int % page as int == 0
            &&& requested.start() - plan.pages().start() == plan.leading_bytes() < page
            &&& plan.pages().end() - requested.end() == plan.trailing_bytes() < page
        }),
{
}

/// A remap moves the common prefix; what the new range has beyond it is the
/// growth, and what the old range had beyond it is dropped.
pub proof fn remaps_move_the_common_prefix(
    old_range: PageRange,
    new_start: usize,
    new_length: usize,
    result: Result<RemapGeometry, MmError>,
    grows: bool,
    shrinks: bool,
    tail: Result<Option<PageRange>, MmError>,
)
    requires
        old_range.valid(),
        call_ensures(RemapGeometry::new, (old_range, new_start, new_length), result),
        result is Ok,
        result->Ok_0.moved_source().valid(),
        call_ensures(RemapGeometry::grows, (result->Ok_0,), grows),
        call_ensures(RemapGeometry::shrinks, (result->Ok_0,), shrinks),
        call_ensures(RemapGeometry::growth_tail, (result->Ok_0,), tail),
    ensures
        ({
            let plan = result->Ok_0;
            let old_length = old_range.end() - old_range.start();
            let common = if new_length < old_length {
                new_length as int
            } else {
                old_length
            };
            &&& plan.old_range() == old_range
            &&& plan.new_range().start() == new_start && plan.new_range().end() == new_start
                + new_length
            &&& plan.moved_source().start() == old_range.start()
            &&& plan.moved_source().end() - old_range.start() == common
            &&& grows <==> new_length > old_length
            &&& shrinks <==> new_length < old_length
            &&& tail matches Ok(rest) && (rest is Some <==> grows) && (rest is Some
                ==> rest->0.start() == new_start + old_length && rest->0.end() == new_start
                + new_length)
        }),
{
}

/// A segment of a remap lands at the same distance from the new start as it had
/// from the old one, whole, and inside the new range.
pub proof fn remapped_segments_keep_their_distance(
    geometry: RemapGeometry,
    source: PageRange,
    result: Result<RemapSegmentGeometry, MmError>,
)
    requires
        source.valid(),
        call_ensures(RemapGeometry::segment, (geometry, source), result),
    ensures
        result matches Ok(segment) ==> {
            &&& segment.source() == source
            &&& segment.destination().start() - geometry.new_range().start() == source.start()
                - geometry.old_range().start()
            &&& segment.destination().len() == source.len()
            &&& geometry.new_range().start() <= segment.destination().start()
            &&& segment.destination().end() <= geometry.new_range().end()
            &&& geometry.moved_source().start() <= source.start() && source.end()
                <= geometry.moved_source().end()
            &&& segment.backend_old_start() == geometry.old_range().start()
            &&& segment.backend_new_start() == geometry.new_range().start()
        },
        result is Err ==> result->Err_0 == MmError::InvalidRemap,
        source.page_size() == geometry.moved_source().page_size() && geometry.moved_source().start()
            <= source.start() && source.end() <= geometry.moved_source().end() ==> result is Ok,
{
}

/// Locking charges what is not locked yet, and fails where the total would pass
/// the limit.
pub proof fn locking_charges_what_is_not_locked_yet(
    current: u64,
    already: u64,
    requested: u64,
    limit: MemlockLimit,
    result: Result<MemlockPlan, MmError>,
)
    requires
        call_ensures(MemlockPlan::new, (current, already, requested, limit), result),
    ensures
        result matches Ok(plan) ==> {
            &&& plan.additional_bytes() + already == requested
            &&& plan.total_locked_bytes() == current + plan.additional_bytes()
            &&& plan.requested_bytes() == requested && plan.already_locked_bytes() == already
            &&& limit matches MemlockLimit::Limited(bytes) ==> plan.total_locked_bytes() <= bytes
            &&& !(limit is Disabled)
        },
        requested > 0 && already <= requested && current + (requested - already) <= u64::MAX && (
        match limit {
            MemlockLimit::Unlimited => true,
            MemlockLimit::Limited(bytes) => current + (requested - already) <= bytes,
            MemlockLimit::Disabled => false,
        }) ==> result is Ok,
        requested == 0 ==> result == Err::<MemlockPlan, MmError>(MmError::ZeroLength),
        requested > 0 && already > requested ==> result == Err::<MemlockPlan, MmError>(
            MmError::InconsistentAccounting,
        ),
        requested > 0 && already <= requested && limit is Disabled ==> result == Err::<
            MemlockPlan,
            MmError,
        >(MmError::MemlockDenied),
{
}

/// Locking a page range is locking its bytes.
pub proof fn locking_pages_is_locking_their_bytes(
    current: u64,
    already: u64,
    range: PageRange,
    limit: MemlockLimit,
    pages: Result<MemlockPlan, MmError>,
    bytes: Result<MemlockPlan, MmError>,
)
    requires
        range.valid(),
        call_ensures(MemlockPlan::for_range, (current, already, range, limit), pages),
        call_ensures(MemlockPlan::new, (current, already, range.len() as u64, limit), bytes),
    ensures
        pages is Ok <==> bytes is Ok,
        pages is Ok ==> pages->Ok_0.additional_bytes() == bytes->Ok_0.additional_bytes()
            && pages->Ok_0.total_locked_bytes() == bytes->Ok_0.total_locked_bytes(),
        pages is Err ==> pages->Err_0 == bytes->Err_0,
{
}

/// The mapping permits the access: bit 0 to read, bit 1 to write, bit 2 to
/// execute.
pub open spec fn may_fault(mapping: MappingSnapshot, access: FaultAccess) -> bool {
    match access {
        FaultAccess::Read => mapping.access().bits() & 1u8 == 1u8,
        FaultAccess::Write => mapping.access().bits() & 2u8 == 2u8,
        FaultAccess::Execute => mapping.access().bits() & 4u8 == 4u8,
    }
}

/// The key names this generation of this mapping and a page that it holds.
pub open spec fn names_page(key: FaultKey, mapping: MappingSnapshot) -> bool {
    &&& key.address_space() == mapping.address_space()
    &&& key.mapping() == mapping.mapping()
    &&& key.generation() == mapping.generation()
    &&& mapping.range().start() <= key.page_address().get() < mapping.range().end()
    &&& key.page_address().get() as int % mapping.range().page_size().bytes() as int == 0
}

/// A fault is named by the page of its address, in the mapping that holds the
/// address and permits the access; any other fault has no name.
pub proof fn faults_are_named_by_their_page(
    mapping: MappingSnapshot,
    address: usize,
    access: FaultAccess,
    result: Result<FaultKey, MmError>,
)
    requires
        call_ensures(FaultKey::from_address, (mapping, address, access), result),
    ensures
        result is Ok <==> mapping.range().start() <= address < mapping.range().end() && may_fault(
            mapping,
            access,
        ),
        result matches Ok(key) ==> {
            &&& names_page(key, mapping)
            &&& key.access() == access
            &&& key.page_address().get() <= address < key.page_address().get()
                + mapping.range().page_size().bytes()
        },
        result == Err::<FaultKey, MmError>(MmError::AccessDenied) ==> !may_fault(mapping, access),
        result == Err::<FaultKey, MmError>(MmError::RangeNotMapped) ==> !(mapping.range().start()
            <= address < mapping.range().end()),
{
    access_bits(mapping.access().bits());
}

/// A fault is admitted exactly when its mapping is unchanged and permits it, its
/// queue is open, and none of the three counts has reached its limit.
pub proof fn faults_are_admitted_within_capacity(
    request: FaultRequest,
    current: MappingSnapshot,
    capacity: FaultCapacity,
    load: FaultLoad,
    lifecycle: FaultLifecycleState,
    result: Result<FaultAdmissionPermit, MmError>,
)
    requires
        call_ensures(
            FaultAdmission::check,
            (request, current, capacity, load, lifecycle),
            result,
        ),
    ensures
        result is Ok <==> names_page(request.key(), current) && may_fault(
            current,
            request.key().access(),
        ) && lifecycle is Open && load.address_space() < capacity.per_address_space()
            && load.handler() < capacity.per_handler() && load.global() < capacity.global(),
        result matches Ok(permit) ==> permit.request() == request,
        names_page(request.key(), current) && may_fault(current, request.key().access()) ==> {
            &&& lifecycle is Closing ==> result == Err::<FaultAdmissionPermit, MmError>(
                MmError::Closing,
            )
            &&& lifecycle is Detached ==> result == Err::<FaultAdmissionPermit, MmError>(
                MmError::TearingDown,
            )
            &&& lifecycle is Closed ==> result == Err::<FaultAdmissionPermit, MmError>(
                MmError::Closed,
            )
            &&& lifecycle is Open && result is Err ==> result->Err_0 == MmError::QuotaExceeded
        },
{
    access_bits(current.access().bits());
}

/// A fault is completed exactly while its mapping is the one that it was taken
/// from; permissions may have changed since.
pub proof fn faults_are_completed_on_their_mapping(
    request: FaultRequest,
    current: MappingSnapshot,
    disposition: FaultDisposition,
    result: Result<FaultCompletionPermit, MmError>,
)
    requires
        call_ensures(validate_fault_completion, (request, current, disposition), result),
    ensures
        result is Ok <==> names_page(request.key(), current),
        result matches Ok(permit) ==> permit.request() == request && permit.disposition()
            == disposition,
{
}

/// A userfaultfd reply can supply a page, ask for zeroes, or fail, on the mapping
/// that the fault was taken from.
pub proof fn userfaultfd_replies_are_three(
    request: FaultRequest,
    current: MappingSnapshot,
    disposition: FaultDisposition,
    result: Result<FaultCompletionPermit, MmError>,
)
    requires
        call_ensures(
            UffdFaultPolicy::prepare_completion,
            (request, current, disposition),
            result,
        ),
    ensures
        result is Ok <==> names_page(request.key(), current) && (disposition is Supply
            || disposition is ZeroFill || disposition is Failure),
        result matches Ok(permit) ==> permit.request() == request && permit.disposition()
            == disposition,
        !(disposition is Supply || disposition is ZeroFill || disposition is Failure) ==> result
            == Err::<FaultCompletionPermit, MmError>(MmError::UnsupportedUffdDisposition),
{
}

/// A registration takes a fault exactly when it is a missing page of its own
/// interval and handler, on a mapping that is still the registered anonymous
/// private one, and the fault is admitted like any other.
pub proof fn registrations_take_their_own_faults(
    registration: UffdRegistration,
    current: MappingSnapshot,
    request: FaultRequest,
    capacity: FaultCapacity,
    load: FaultLoad,
    lifecycle: FaultLifecycleState,
    result: Result<FaultAdmissionPermit, MmError>,
)
    requires
        call_ensures(
            UffdFaultPolicy::admit_fault,
            (registration, current, request, capacity, load, lifecycle),
            result,
        ),
    ensures
        result matches Ok(permit) ==> {
            &&& permit.request() == request
            &&& request.handler() == registration.handler()
            &&& request.fault_type() is Missing
            &&& names_page(request.key(), current)
            &&& may_fault(current, request.key().access())
            &&& registration.range().start() <= request.key().page_address().get()
                < registration.range().end()
            &&& current.kind() is AnonymousPrivate
            &&& registration.address_space() == current.address_space()
            &&& registration.mapping() == current.mapping()
            &&& registration.generation() == current.generation()
            &&& current.range().start() <= registration.range().start()
                && registration.range().end() <= current.range().end()
            &&& lifecycle is Open
            &&& load.address_space() < capacity.per_address_space() && load.handler()
                < capacity.per_handler() && load.global() < capacity.global()
        },
        request.handler() == registration.handler() && request.fault_type() is Missing
            && names_page(request.key(), current) && may_fault(current, request.key().access())
            && registration.range().start() <= request.key().page_address().get()
            < registration.range().end() && current.kind() is AnonymousPrivate
            && registration.address_space() == current.address_space() && registration.mapping()
            == current.mapping() && registration.generation() == current.generation()
            && current.range().page_size() == registration.range().page_size()
            && current.range().start() <= registration.range().start() && registration.range().end()
            <= current.range().end() && lifecycle is Open && load.address_space()
            < capacity.per_address_space() && load.handler() < capacity.per_handler()
            && load.global() < capacity.global() ==> result is Ok,
{
    access_bits(current.access().bits());
}

/// A registration is asked for on an anonymous private mapping, for a range inside
/// it and for missing pages; it then names that mapping, generation and range.
pub proof fn registrations_are_asked_for_on_anonymous_memory(
    handler: FaultHandlerId,
    mapping: MappingSnapshot,
    range: PageRange,
    mode: UffdRegisterMode,
    result: Result<UffdRegistrationRequest, MmError>,
)
    requires
        call_ensures(UffdRegistrationRequest::new, (handler, mapping, range, mode), result),
    ensures
        result is Ok <==> mapping.kind() is AnonymousPrivate && range.page_size()
            == mapping.range().page_size() && mapping.range().start() <= range.start()
            && range.end() <= mapping.range().end() && mode.bits() == 1,
        result matches Ok(request) ==> {
            &&& request.handler() == handler
            &&& request.address_space() == mapping.address_space()
            &&& request.mapping() == mapping.mapping()
            &&& request.generation() == mapping.generation()
            &&& request.range() == range
            &&& request.mode() == mode
        },
{
}

/// What survives of a registration after its mapping changed keeps its handler,
/// its mapping and its generation, inside the changed mapping.
pub proof fn surviving_fragments_keep_their_generation(
    registration: UffdRegistration,
    current: MappingSnapshot,
    range: PageRange,
    result: Result<UffdRegistrationRequest, MmError>,
    space: AddressSpaceId,
    mapping: MappingId,
    grown: PageRange,
    replaced: Result<UffdRegistrationReplacement, MmError>,
)
    requires
        call_ensures(UffdRegistration::refreshed_fragment, (registration, current, range), result),
        call_ensures(
            UffdRegistration::tail_extension_replacement,
            (registration, space, mapping, grown),
            replaced,
        ),
    ensures
        result matches Ok(fragment) ==> {
            &&& fragment.handler() == registration.handler()
            &&& fragment.address_space() == registration.address_space()
            &&& fragment.mapping() == registration.mapping()
            &&& fragment.generation() == registration.generation()
            &&& fragment.range() == range
            &&& current.range().start() <= range.start() && range.end() <= current.range().end()
            &&& current.kind() is AnonymousPrivate
        },
        replaced matches Ok(replacement) ==> {
            &&& replacement.source() == registration.id()
            &&& replacement.request().range() == grown
            &&& replacement.request().generation() == registration.generation()
            &&& replacement.request().handler() == registration.handler()
            &&& grown.start() == registration.range().start() && registration.range().end()
                < grown.end()
            &&& space == registration.address_space() && mapping == registration.mapping()
        },
        space == registration.address_space() && mapping == registration.mapping()
            && grown.page_size() == registration.range().page_size() && grown.start()
            == registration.range().start() && registration.range().end() < grown.end()
            ==> replaced is Ok,
{
}

/// A resolver reports the prefix that it filled: whole pages, at least one and no
/// more than asked for. It is complete exactly when that is everything, and wakes
/// the filled prefix unless asked not to.
pub proof fn resolvers_report_the_filled_prefix(
    copy: UffdCopyRequest,
    zero: UffdZeroPageRequest,
    completed: usize,
    copied: Result<UffdResolverResult, MmError>,
    zeroed: Result<UffdResolverResult, MmError>,
)
    requires
        copy.destination().valid(),
        zero.destination().valid(),
        call_ensures(UffdResolverResult::for_copy, (copy, completed), copied),
        call_ensures(UffdResolverResult::for_zeropage, (zero, completed), zeroed),
    ensures
        copied matches Ok(report) ==> resolves(
            report,
            copy.destination(),
            completed,
            copy.mode().bits() & 1u64 == 1u64,
        ),
        zeroed matches Ok(report) ==> resolves(
            report,
            zero.destination(),
            completed,
            zero.mode().bits() & 1u64 == 1u64,
        ),
        copied is Ok <==> 0 < completed <= copy.destination().end() - copy.destination().start()
            && completed as int % copy.destination().page_size().bytes() as int == 0 && completed
            <= 0x7fff_ffff_ffff_ffff,
        zeroed is Ok <==> 0 < completed <= zero.destination().end() - zero.destination().start()
            && completed as int % zero.destination().page_size().bytes() as int == 0 && completed
            <= 0x7fff_ffff_ffff_ffff,
{
    let a = copy.mode().bits();
    let b = zero.mode().bits();
    assert((a & 1u64 != 0 <==> a & 1u64 == 1u64) && (b & 1u64 != 0 <==> b & 1u64 == 1u64))
        by (bit_vector);
}

/// What a resolver reports of the first `completed` bytes of `destination`.
pub open spec fn resolves(
    report: UffdResolverResult,
    destination: PageRange,
    completed: usize,
    quiet: bool,
) -> bool {
    let whole = completed == destination.end() - destination.start();
    &&& report.reported_bytes() == completed
    &&& report.completed() matches Some(filled)
    &&& filled.start() == destination.start()
    &&& filled.end() - filled.start() == completed
    &&& report.outcome() is Complete <==> whole
    &&& report.outcome() is Retry <==> !whole
    &&& quiet ==> report.wake_range() is None
    &&& !quiet ==> report.wake_range() == Some(filled)
}

/// A failed resolver reports the negated error number, fills nothing and wakes
/// nobody.
pub proof fn failed_resolvers_fill_nothing(errno: i32, result: Result<UffdResolverResult, MmError>)
    requires
        call_ensures(UffdResolverResult::failure, (errno,), result),
    ensures
        result is Ok <==> errno > 0,
        result matches Ok(report) ==> report.reported_bytes() + errno == 0 && report.completed()
            is None && report.outcome() is Failed && report.wake_range() is None,
{
}

/// A copy has as many source bytes as destination bytes. Copy modes are 0 and 1,
/// zero-page modes too, and a protecting copy is known and unsupported.
pub proof fn copies_are_of_equal_length(
    source: UserRange,
    destination: PageRange,
    mode: UffdCopyMode,
    request: Result<UffdCopyRequest, MmError>,
    bits: u64,
    copy_mode: Result<UffdCopyMode, MmError>,
    zero_mode: Result<UffdZeroPageMode, MmError>,
)
    requires
        source.valid(),
        destination.valid(),
        call_ensures(UffdCopyRequest::new, (source, destination, mode), request),
        call_ensures(UffdCopyMode::from_bits, (bits,), copy_mode),
        call_ensures(UffdZeroPageMode::from_bits, (bits,), zero_mode),
    ensures
        request is Ok <==> source.end() - source.start() == destination.end()
            - destination.start(),
        request matches Ok(copy) ==> copy.source() == source && copy.destination() == destination
            && copy.mode() == mode,
        copy_mode is Ok <==> bits <= 1,
        copy_mode matches Ok(mode) ==> mode.bits() == bits,
        copy_mode == Err::<UffdCopyMode, MmError>(MmError::UnsupportedUffdCopyMode) <==> bits == 2
            || bits == 3,
        zero_mode is Ok <==> bits <= 1,
        zero_mode matches Ok(mode) ==> mode.bits() == bits,
{
    assert((bits & !3u64 == 0 <==> bits <= 3) && (bits <= 3 ==> (bits & 2u64 == 0 <==> bits <= 1))
        && (bits & !1u64 == 0 <==> bits <= 1)) by (bit_vector);
}

/// Negotiation succeeds once, for API 0xaa and no features, and what it answers is
/// what is committed.
pub proof fn negotiation_succeeds_once(
    state: &mut UffdApiState,
    api: u64,
    features: u64,
    prepared: Result<UffdApiNegotiation, MmError>,
    committed: Result<UffdApiResponse, MmError>,
    again: Result<UffdApiNegotiation, MmError>,
)
    requires
        call_ensures(UffdApiState::prepare_raw, (old(state), api, features), prepared),
        prepared is Ok,
        call_ensures(UffdApiState::commit, (state, prepared->Ok_0), committed),
        call_ensures(UffdApiState::prepare_raw, (final(state), api, features), again),
    ensures
        api == 0xaa && features == 0,
        old(state).lifecycle() is Created,
        committed is Ok && committed->Ok_0 == prepared->Ok_0.response(),
        committed->Ok_0.api() == 0xaa && committed->Ok_0.features().bits() == 0
            && committed->Ok_0.ioctls().bits() == 0x8000_0000_0000_0003u64,
        final(state).lifecycle() is Initialized,
        again == Err::<UffdApiNegotiation, MmError>(MmError::UffdAlreadyInitialized),
{
    assert(features & !0u64 == features) by (bit_vector);
    assert(0u64 & !0x1_ffffu64 == 0) by (bit_vector);
}

/// A fresh state accepts API 0xaa without features; other APIs, unknown features
/// and features that are known but not offered are told apart.
pub proof fn negotiation_tells_faults_apart(
    state: UffdApiState,
    api: u64,
    features: u64,
    result: Result<UffdApiNegotiation, MmError>,
)
    requires
        call_ensures(UffdApiState::prepare_raw, (&state, api, features), result),
    ensures
        state.lifecycle() is Created && api == 0xaa && features == 0 ==> result is Ok,
        features > 0x1_ffff ==> result == Err::<UffdApiNegotiation, MmError>(
            MmError::InvalidUffdFeatures,
        ),
        features <= 0x1_ffff && api != 0xaa ==> result == Err::<UffdApiNegotiation, MmError>(
            MmError::InvalidUffdApi,
        ),
        api == 0xaa && 0 < features <= 0x1_ffff ==> result == Err::<UffdApiNegotiation, MmError>(
            MmError::UnsupportedUffdFeatures,
        ),
{
    assert((features & !0x1_ffffu64 == 0 <==> features <= 0x1_ffff) && features & !0u64 == features)
        by (bit_vector);
}

/// The creation flags are user-mode-only, non-blocking and close-on-exec; only the
/// first is needed by this profile.
pub proof fn creation_flags_are_three(
    bits: u32,
    result: Result<UffdCreateFlags, MmError>,
    profile: Result<UffdCreateFlags, MmError>,
)
    requires
        call_ensures(UffdCreateFlags::from_bits, (bits,), result),
        result is Ok ==> call_ensures(UffdCreateFlags::validate_profile, (result->Ok_0,), profile),
    ensures
        result is Ok <==> bits & 0xfff7_f7feu32 == 0,
        result matches Ok(flags) ==> {
            &&& flags.bits() == bits
            &&& flags.close_on_exec() <==> bits & 0x8_0000u32 == 0x8_0000u32
            &&& flags.nonblocking() <==> bits & 0x800u32 == 0x800u32
            &&& flags.user_mode_only() <==> bits & 1u32 == 1u32
            &&& profile is Ok <==> bits & 1u32 == 1u32
            &&& profile is Err ==> profile->Err_0 == MmError::AccessDenied
        },
{
    assert(!0x8_0801u32 == 0xfff7_f7feu32 && (bits & 0x8_0000u32 != 0 <==> bits & 0x8_0000u32
        == 0x8_0000u32) && (bits & 0x800u32 != 0 <==> bits & 0x800u32 == 0x800u32) && (bits & 1u32
        != 0 <==> bits & 1u32 == 1u32)) by (bit_vector);
}

/// Registering for missing pages is mode 1; protection and minor faults are known
/// and unsupported, and anything else is invalid.
pub proof fn registration_modes_are_told_apart(
    bits: u64,
    result: Result<UffdRegisterMode, MmError>,
)
    requires
        call_ensures(UffdRegisterMode::from_bits, (bits,), result),
    ensures
        result is Ok <==> bits == 1,
        result matches Ok(mode) ==> mode.bits() == 1,
        result == Err::<UffdRegisterMode, MmError>(MmError::UnsupportedUffdMode) <==> 2 <= bits
            <= 7,
        bits == 0 || bits > 7 ==> result == Err::<UffdRegisterMode, MmError>(
            MmError::InvalidUffdMode,
        ),
{
    assert(bits & !7u64 == 0 <==> bits <= 7) by (bit_vector);
}

/// The identities are the numbers that are not zero, and generations count up by
/// one and end rather than wrap.
pub proof fn mapping_identities_are_their_values(
    raw: u64,
    space: Result<AddressSpaceId, MmError>,
    mapping: Result<MappingId, MmError>,
    generation: Result<MappingGeneration, MmError>,
    owner: Result<PinOwner, MmError>,
    handler: Result<FaultHandlerId, MmError>,
    registration: Result<UffdRegistrationId, MmError>,
    next: Result<MappingGeneration, MmError>,
)
    requires
        call_ensures(AddressSpaceId::new, (raw,), space),
        call_ensures(MappingId::new, (raw,), mapping),
        call_ensures(MappingGeneration::new, (raw,), generation),
        call_ensures(PinOwner::new, (raw,), owner),
        call_ensures(FaultHandlerId::new, (raw,), handler),
        call_ensures(UffdRegistrationId::new, (raw,), registration),
        generation is Ok ==> call_ensures(MappingGeneration::next, (generation->Ok_0,), next),
    ensures
        raw == 0 ==> space is Err && mapping is Err && generation is Err && owner is Err && handler
            is Err && registration is Err,
        raw != 0 ==> space is Ok && mapping is Ok && generation is Ok && owner is Ok && handler
            is Ok && registration is Ok,
        raw != 0 ==> space->Ok_0.get() == raw && mapping->Ok_0.get() == raw
            && generation->Ok_0.get() == raw && owner->Ok_0.get() == raw && handler->Ok_0.get()
            == raw && registration->Ok_0.get() == raw,
        raw != 0 ==> (next is Ok <==> raw < 0xffff_ffff_ffff_ffffu64),
        raw != 0 && next is Ok ==> next->Ok_0.get() == raw + 1,
{
}

/// A page range from raw numbers starts and ends where they say, on page
/// boundaries.
pub proof fn page_ranges_are_where_they_were_asked_for(
    start: usize,
    length: usize,
    page: usize,
    result: Result<PageRange, MmError>,
    count: usize,
)
    requires
        call_ensures(PageRange::new, (start, length, page), result),
        result is Ok ==> call_ensures(PageRange::page_count, (result->Ok_0,), count),
    ensures
        result is Ok <==> page > 0 && power_of_two(page as int) && start as int % page as int == 0
            && length as int % page as int == 0 && length > 0 && start + length <= usize::MAX,
        result matches Ok(range) ==> {
            &&& range.start() == start && range.end() - start == length
            &&& range.page_size().bytes() == page
            &&& count * page == length
        },
{
}

/// A snapshot from raw numbers has them as its fields.
pub proof fn snapshots_keep_their_fields(
    space: u64,
    mapping: u64,
    generation: u64,
    start: usize,
    length: usize,
    page: usize,
    bits: u8,
    kind: MappingKind,
    pinnable: bool,
    writable_pins: bool,
    result: Result<MappingSnapshot, MmError>,
)
    requires
        call_ensures(
            MappingSnapshot::from_raw,
            (
                space,
                mapping,
                generation,
                start,
                length,
                page,
                bits,
                kind,
                pinnable,
                writable_pins,
            ),
            result,
        ),
    ensures
        result is Ok <==> space != 0 && mapping != 0 && generation != 0 && page > 0 && power_of_two(
            page as int,
        ) && start as int % page as int == 0 && length as int % page as int == 0 && length > 0
            && start + length <= usize::MAX && bits < 8,
        result matches Ok(snapshot) ==> {
            &&& snapshot.address_space().get() == space && snapshot.mapping().get() == mapping
            &&& snapshot.generation().get() == generation
            &&& snapshot.range().start() == start && snapshot.range().end() - start == length
            &&& snapshot.range().page_size().bytes() == page
            &&& snapshot.access().bits() == bits
            &&& snapshot.kind() == kind
            &&& snapshot.long_term_pinnable() == pinnable
            &&& snapshot.writable_file_pin_supported() == writable_pins
        },
{
    access_bits(bits);
}

/// A later generation of a snapshot differs from it in its generation alone.
pub proof fn later_snapshots_differ_in_generation(
    snapshot: MappingSnapshot,
    generation: MappingGeneration,
    result: MappingSnapshot,
)
    requires
        call_ensures(MappingSnapshot::with_generation, (snapshot, generation), result),
    ensures
        result.generation() == generation,
        result.address_space() == snapshot.address_space() && result.mapping()
            == snapshot.mapping() && result.range() == snapshot.range() && result.access()
            == snapshot.access() && result.kind() == snapshot.kind()
            && result.long_term_pinnable() == snapshot.long_term_pinnable()
            && result.writable_file_pin_supported() == snapshot.writable_file_pin_supported(),
{
}

/// An invalidation of bytes is one of the least pages that hold them, inside the
/// mapping; one from raw numbers is for exactly those.
pub proof fn invalidations_cover_their_bytes(
    snapshot: MappingSnapshot,
    bytes: UserRange,
    start: usize,
    length: usize,
    reason: InvalidationReason,
    covering: Result<InvalidationRange, MmError>,
    raw: Result<InvalidationRange, MmError>,
)
    requires
        snapshot.range().valid(),
        call_ensures(InvalidationRange::covering_bytes, (snapshot, bytes, reason), covering),
        call_ensures(InvalidationRange::from_raw, (snapshot, start, length, reason), raw),
    ensures
        covering matches Ok(invalidation) ==> {
            let page = snapshot.range().page_size().bytes();
            &&& invalidation.range().start() as int % page as int == 0
            &&& invalidation.range().end() as int % page as int == 0
            &&& invalidation.range().start() <= bytes.start() < invalidation.range().start() + page
            &&& invalidation.range().end() - page < bytes.end() <= invalidation.range().end()
            &&& snapshot.range().start() <= invalidation.range().start()
                && invalidation.range().end() <= snapshot.range().end()
            &&& invalidation.reason() == reason
            &&& invalidation.expected().address_space() == snapshot.address_space()
            &&& invalidation.expected().generation() == snapshot.generation()
        },
        raw matches Ok(invalidation) ==> {
            &&& invalidation.range().start() == start && invalidation.range().end() - start
                == length
            &&& snapshot.range().start() <= start && start + length <= snapshot.range().end()
            &&& invalidation.reason() == reason
            &&& invalidation.expected().mapping() == snapshot.mapping()
        },
{
}

/// A fault is revalidated for admission exactly when its page is still there and
/// permitted, and for completion when it is still there.
pub proof fn faults_are_revalidated_on_their_page(
    key: FaultKey,
    current: MappingSnapshot,
    admission: Result<(), MmError>,
    plain: Result<(), MmError>,
    completion: Result<(), MmError>,
)
    requires
        call_ensures(FaultKey::revalidate_admission, (key, current), admission),
        call_ensures(FaultKey::revalidate, (key, current), plain),
        call_ensures(FaultKey::revalidate_completion, (key, current), completion),
    ensures
        completion is Ok <==> names_page(key, current),
        admission is Ok <==> names_page(key, current) && may_fault(current, key.access()),
        plain == admission,
        completion is Ok && admission is Err ==> admission->Err_0 == MmError::AccessDenied,
        key.generation() != current.generation() ==> completion == Err::<(), MmError>(
            MmError::StaleGeneration,
        ),
{
    access_bits(current.access().bits());
}

/// Queue limits are positive and finite.
pub proof fn queue_limits_are_positive_and_finite(
    space: u32,
    handler: u32,
    global: u32,
    result: Result<FaultCapacity, MmError>,
)
    requires
        call_ensures(FaultCapacity::new, (space, handler, global), result),
    ensures
        result is Ok <==> 0 < space < 0xffff_ffff && 0 < handler < 0xffff_ffff && 0 < global
            < 0xffff_ffff,
        result matches Ok(capacity) ==> capacity.per_address_space() == space
            && capacity.per_handler() == handler && capacity.global() == global,
        result == Err::<FaultCapacity, MmError>(MmError::ZeroLength) <==> space == 0 || handler == 0
            || global == 0,
{
}

/// A pin request from raw numbers asks for exactly those.
pub proof fn pin_requests_keep_their_fields(
    start: usize,
    length: usize,
    access: PinAccess,
    duration: PinDuration,
    use_kind: PinUse,
    owner: u64,
    result: Result<PinRequest, MmError>,
)
    requires
        call_ensures(
            PinRequest::from_raw,
            (start, length, access, duration, use_kind, owner),
            result,
        ),
    ensures
        result is Ok <==> length > 0 && start + length <= usize::MAX && owner != 0,
        result matches Ok(request) ==> {
            &&& request.range().start() == start && request.range().end() - start == length
            &&& request.access() == access && request.duration() == duration
            &&& request.use_kind() == use_kind && request.owner().get() == owner
        },
{
}

/// A quota admits what is within all three of its limits.
pub proof fn quotas_admit_what_is_within_them(
    quota: PinQuota,
    usage: PinAccounting,
    admitted: bool,
)
    requires
        call_ensures(PinQuota::admits, (quota, usage), admitted),
    ensures
        admitted <==> usage.pages() <= quota.max_pages() && usage.bytes() <= quota.max_bytes()
            && usage.tokens() <= quota.max_tokens(),
{
}

/// A registration stands exactly while its mapping is the registered generation,
/// anonymous and private, and holds the interval; its range can be woken, copied
/// into and zeroed.
pub proof fn registrations_stand_on_their_mapping(
    registration: UffdRegistration,
    current: MappingSnapshot,
    result: Result<(), MmError>,
    ioctls: UffdIoctls,
)
    requires
        call_ensures(UffdRegistration::revalidate, (registration, current), result),
        call_ensures(UffdRegistration::ioctls, (registration,), ioctls),
    ensures
        result is Ok <==> registration.address_space() == current.address_space()
            && registration.mapping() == current.mapping() && registration.generation()
            == current.generation() && current.kind() is AnonymousPrivate
            && current.range().page_size() == registration.range().page_size()
            && current.range().start() <= registration.range().start() && registration.range().end()
            <= current.range().end(),
        ioctls.bits() == 0x1c,
{
}

/// Negotiating a decoded request is negotiating its raw numbers.
pub proof fn decoded_requests_negotiate_alike(
    state: UffdApiState,
    api: u64,
    features: u64,
    request: Result<UffdApiRequest, MmError>,
    decoded: Result<UffdApiNegotiation, MmError>,
    raw: Result<UffdApiNegotiation, MmError>,
)
    requires
        call_ensures(UffdApiRequest::from_raw, (api, features), request),
        request is Ok ==> call_ensures(UffdApiState::prepare, (&state, request->Ok_0), decoded),
        call_ensures(UffdApiState::prepare_raw, (&state, api, features), raw),
    ensures
        request is Ok <==> features <= 0x1_ffff,
        request is Ok ==> (decoded is Ok <==> raw is Ok),
        request is Ok && decoded is Ok ==> decoded->Ok_0.response() == raw->Ok_0.response()
            && decoded->Ok_0.requested_features() == raw->Ok_0.requested_features(),
        request is Ok && decoded is Err ==> decoded == raw,
{
    assert(features & !0x1_ffffu64 == 0 <==> features <= 0x1_ffff) by (bit_vector);
}

} // verus!
