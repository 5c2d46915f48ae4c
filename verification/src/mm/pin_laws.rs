//! What pinning is for, stated of the calls themselves: which mappings may back a
//! pin, what a pin excludes while it lives, and what it costs.

use crate::mm::budget::{PinBudget, PinBudgetCharge};
use crate::mm::error::MmError;
use crate::mm::identity::{AddressSpaceId, PinOwner};
use crate::mm::mapping::{ExpectedMapping, InvalidationRange, MappingSnapshot};
use crate::mm::pin::{
    LifecycleProgress, MutationBlocker, PinAccess, PinAccounting, PinLeaseView, PinQuota, PinRecord, PinRequest,
    PinReservation, PinToken, TeardownReport,
};
use crate::mm::range::PageRange;
use crate::mm::registry::{blocks, conflicts, PinRegistry};
use vstd::prelude::*;

verus! {

/// The address lies in the range.
pub open spec fn holds_address(range: PageRange, address: int) -> bool {
    range.start() <= address < range.end()
}

/// The ranges have an address in common.
pub open spec fn share_an_address(a: PageRange, b: PageRange) -> bool {
    exists|address: int| #[trigger] holds_address(a, address) && holds_address(b, address)
}

/// The mapping's permission bits allow the access: bit 0 to read, bit 1 to write.
pub open spec fn may_be_accessed(mapping: MappingSnapshot, access: PinAccess) -> bool {
    match access {
        PinAccess::Read => mapping.access().bits() & 1u8 == 1u8,
        PinAccess::Write => mapping.access().bits() & 2u8 == 2u8,
    }
}

/// The mapping may be pinned for so long and for that use.
pub open spec fn may_be_held(mapping: MappingSnapshot, request: PinRequest) -> bool {
    &&& request.use_kind() is Dma ==> request.duration() is LongTerm
    &&& request.duration() is LongTerm ==> {
        &&& mapping.long_term_pinnable()
        &&& !(mapping.kind() is Device) && !(mapping.kind() is Special)
        &&& mapping.kind() is FileShared && request.access() is Write
            ==> mapping.writable_file_pin_supported()
    }
}

/// The two name the same generation of the same mapping.
pub open spec fn same_mapping(expected: ExpectedMapping, current: MappingSnapshot) -> bool {
    &&& expected.address_space() == current.address_space()
    &&& expected.mapping() == current.mapping()
    &&& expected.generation() == current.generation()
}

proof fn permission_bits(bits: u8)
    ensures
        bits & 1u8 != 0 <==> bits & 1u8 == 1u8,
        bits & 2u8 != 0 <==> bits & 2u8 == 2u8,
        bits & 4u8 != 0 <==> bits & 4u8 == 4u8,
{
    assert((bits & 1u8 != 0 <==> bits & 1u8 == 1u8) && (bits & 2u8 != 0 <==> bits & 2u8 == 2u8) && (
    bits & 4u8 != 0 <==> bits & 4u8 == 4u8)) by (bit_vector);
}

/// A segment is accepted into a reservation's coverage only from a live mapping of
/// the reservation's address space that still is the expected one, holds the
/// segment, permits the access, and may be held for the requested time and use.
/// The segment continues exactly where the coverage ended.
pub proof fn only_permitted_mappings_back_a_pin<const O: usize, const T: usize>(
    registry: &mut PinRegistry<O, T>,
    reservation: PinReservation,
    expected: ExpectedMapping,
    current: MappingSnapshot,
    covered: PageRange,
    result: Result<(), MmError>,
    before: PinRecord,
    after: PinRecord,
)
    requires
        old(registry).wf(),
        call_ensures(
            PinRegistry::<O, T>::revalidate_next,
            (registry, reservation, expected, current, covered),
            result,
        ),
        result is Ok,
        old(registry).ledger().is_live(reservation.token()),
        before == old(registry).ledger().record_of(reservation.token()),
        final(registry).ledger().is_live(reservation.token()),
        after == final(registry).ledger().record_of(reservation.token()),
    ensures
        may_be_accessed(current, before.request.access()),
        may_be_held(current, before.request),
        same_mapping(expected, current),
        current.address_space() == before.snapshot.address_space(),
        current.range().start() <= covered.start() && covered.end() <= current.range().end(),
        expected.range().start() <= covered.start() && covered.end() <= expected.range().end(),
        before.range.start() <= covered.start() && covered.end() <= before.range.end(),
        covered.start() == before.validated_until,
        after.validated_until == covered.end(),
        after.validated_mappings == before.validated_mappings + 1,
        after.request == before.request && after.range == before.range,
        before.state is Reserved && after.state is Reserved,
{
    let ledger = old(registry).ledger();
    permission_bits(current.access().bits());
    let slot = ledger.slot_of(reservation.token());
    assert(ledger.token_at(reservation.token(), slot));
    assert(final(registry).ledger().token_at(reservation.token(), slot));
    crate::mm::registry::token_slots_are_unique(
        final(registry).ledger(),
        reservation.token(),
        slot,
    );
}

/// A mapping without the permission never backs a pin, and its refusal rolls the
/// reservation back: the token is unknown and what it was charged is given back.
pub proof fn refused_segments_roll_the_reservation_back<const O: usize, const T: usize>(
    registry: &mut PinRegistry<O, T>,
    reservation: PinReservation,
    expected: ExpectedMapping,
    current: MappingSnapshot,
    covered: PageRange,
    result: Result<(), MmError>,
    before: Result<PinLeaseView, MmError>,
    after: Result<PinLeaseView, MmError>,
)
    requires
        old(registry).wf(),
        call_ensures(PinRegistry::<O, T>::view, (old(registry), reservation.token()), before),
        call_ensures(
            PinRegistry::<O, T>::revalidate_next,
            (registry, reservation, expected, current, covered),
            result,
        ),
        call_ensures(PinRegistry::<O, T>::view, (final(registry), reservation.token()), after),
    ensures
        before is Err ==> result == Err::<(), MmError>(MmError::UnknownToken),
        before matches Ok(lease) ==> {
            let record = old(registry).ledger().record_of(reservation.token());
            &&& lease.request() == record.request && lease.range() == record.range
            &&& record.state is Active ==> result == Err::<(), MmError>(MmError::InvalidTokenState)
            &&& record.state is Reserved ==> {
                &&& result is Err <==> after is Err
                &&& result is Err ==> {
                    &&& final(registry).ledger().global_usage.pages() + lease.accounting().pages()
                        == old(registry).ledger().global_usage.pages()
                    &&& final(registry).ledger().global_usage.bytes() + lease.accounting().bytes()
                        == old(registry).ledger().global_usage.bytes()
                    &&& final(registry).ledger().global_usage.tokens() + lease.accounting().tokens()
                        == old(registry).ledger().global_usage.tokens()
                }
                &&& !may_be_accessed(current, lease.request().access()) ==> result is Err
                &&& !may_be_held(current, lease.request()) ==> result is Err
                &&& !same_mapping(expected, current) ==> result is Err
                &&& result == Err::<(), MmError>(MmError::AccessDenied) ==> !may_be_accessed(
                    current,
                    lease.request().access(),
                )
                &&& result == Err::<(), MmError>(MmError::UnsupportedPin) ==> !may_be_held(
                    current,
                    lease.request(),
                )
                &&& result == Err::<(), MmError>(MmError::StaleGeneration) ==> !same_mapping(
                    expected,
                    current,
                ) || expected.address_space() != record.snapshot.address_space()
                &&& result == Err::<(), MmError>(MmError::NonContiguousCoverage)
                    ==> covered.start() != record.validated_until || covered.end()
                    > record.range.end() || covered.start() < record.range.start()
                    || covered.page_size() != old(registry).ledger().page_size
            }
        },
{
    let ledger = old(registry).ledger();
    permission_bits(current.access().bits());
    if ledger.is_live(reservation.token()) {
        let slot = ledger.slot_of(reservation.token());
        assert(ledger.token_at(reservation.token(), slot));
        assert(ledger.record_ok(ledger.records[slot]->0));
        if result is Ok {
            assert(final(registry).ledger().token_at(reservation.token(), slot));
        }
    }
}

/// A permitted segment that continues the coverage is accepted.
pub proof fn permitted_segments_are_accepted<const O: usize, const T: usize>(
    registry: &mut PinRegistry<O, T>,
    reservation: PinReservation,
    expected: ExpectedMapping,
    current: MappingSnapshot,
    covered: PageRange,
    result: Result<(), MmError>,
)
    requires
        old(registry).wf(),
        call_ensures(
            PinRegistry::<O, T>::revalidate_next,
            (registry, reservation, expected, current, covered),
            result,
        ),
        old(registry).ledger().is_live(reservation.token()),
        ({
            let record = old(registry).ledger().record_of(reservation.token());
            &&& record.state is Reserved
            &&& covered.page_size() == old(registry).ledger().page_size
            &&& covered.start() == record.validated_until
            &&& record.range.start() <= covered.start() && covered.end() <= record.range.end()
            &&& same_mapping(expected, current)
            &&& current.address_space() == record.snapshot.address_space()
            &&& current.range().page_size() == covered.page_size()
            &&& expected.range().page_size() == covered.page_size()
            &&& expected.range().start() <= covered.start() && covered.end()
                <= expected.range().end()
            &&& current.range().start() <= expected.range().start() && expected.range().end()
                <= current.range().end()
            &&& may_be_accessed(current, record.request.access())
            &&& may_be_held(current, record.request)
        }),
    ensures
        result is Ok,
{
    let ledger = old(registry).ledger();
    permission_bits(current.access().bits());
    let slot = ledger.slot_of(reservation.token());
    assert(ledger.token_at(reservation.token(), slot));
    assert(ledger.record_ok(ledger.records[slot]->0));
}

/// The segments follow one another from the start of the pinned range to where its
/// coverage ended, and each came from a mapping that holds it and permits the
/// access.
pub open spec fn backed_by(record: PinRecord, segments: Seq<(PageRange, MappingSnapshot)>) -> bool {
    &&& segments.len() == 0 ==> record.validated_until == record.range.start()
    &&& segments.len() > 0 ==> segments[0].0.start() == record.range.start()
        && segments.last().0.end() == record.validated_until
    &&& forall|i: int|
        0 <= i < segments.len() ==> {
            let (covered, mapping) = #[trigger] segments[i];
            &&& mapping.range().start() <= covered.start() && covered.end()
                <= mapping.range().end()
            &&& mapping.address_space() == record.snapshot.address_space()
            &&& may_be_accessed(mapping, record.request.access())
            &&& may_be_held(mapping, record.request)
        }
    &&& forall|i: int|
        0 <= i < segments.len() - 1 ==> (#[trigger] segments[i]).0.end() == segments[i
            + 1].0.start()
}

/// Revalidation extends the backing: what backed the coverage before the call,
/// with the accepted segment behind it, backs the coverage after it. A fresh
/// reservation is backed by nothing.
pub proof fn revalidation_extends_the_backing<const O: usize, const T: usize>(
    registry: &mut PinRegistry<O, T>,
    reservation: PinReservation,
    expected: ExpectedMapping,
    current: MappingSnapshot,
    covered: PageRange,
    result: Result<(), MmError>,
    segments: Seq<(PageRange, MappingSnapshot)>,
)
    requires
        old(registry).wf(),
        final(registry).wf(),
        call_ensures(
            PinRegistry::<O, T>::revalidate_next,
            (registry, reservation, expected, current, covered),
            result,
        ),
        result is Ok,
        old(registry).ledger().is_live(reservation.token()),
        final(registry).ledger().is_live(reservation.token()),
        backed_by(old(registry).ledger().record_of(reservation.token()), segments),
    ensures
        backed_by(
            final(registry).ledger().record_of(reservation.token()),
            segments.push((covered, current)),
        ),
{
    let before = old(registry).ledger().record_of(reservation.token());
    let after = final(registry).ledger().record_of(reservation.token());
    only_permitted_mappings_back_a_pin(
        registry,
        reservation,
        expected,
        current,
        covered,
        result,
        before,
        after,
    );
    crate::mm::registry::live_tokens_keep_their_terms(
        old(registry).ledger(),
        final(registry).ledger(),
        reservation.token(),
    );
    let extended = segments.push((covered, current));
    assert forall|i: int| 0 <= i < extended.len() - 1 implies (#[trigger] extended[i]).0.end()
        == extended[i + 1].0.start() by {
        if i < segments.len() - 1 {
            assert(extended[i] == segments[i] && extended[i + 1] == segments[i + 1]);
        } else {
            assert(extended[i] == segments.last());
        }
    }
    assert forall|i: int| 0 <= i < extended.len() implies {
        let (covered, mapping) = #[trigger] extended[i];
        &&& mapping.range().start() <= covered.start() && covered.end() <= mapping.range().end()
        &&& mapping.address_space() == after.snapshot.address_space()
        &&& may_be_accessed(mapping, after.request.access())
        &&& may_be_held(mapping, after.request)
    } by {
        if i < segments.len() {
            assert(extended[i] == segments[i]);
        }
    }
}

/// Every address of a published pin was validated against a mapping that holds it
/// and permits the pin's access: a writable one for a write pin.
pub proof fn published_pins_are_backed_everywhere<const O: usize, const T: usize>(
    registry: &mut PinRegistry<O, T>,
    reservation: PinReservation,
    result: Result<PinToken, MmError>,
    segments: Seq<(PageRange, MappingSnapshot)>,
    address: int,
)
    requires
        old(registry).wf(),
        call_ensures(PinRegistry::<O, T>::commit, (registry, reservation), result),
        result is Ok,
        old(registry).ledger().is_live(reservation.token()),
        backed_by(old(registry).ledger().record_of(reservation.token()), segments),
        holds_address(old(registry).ledger().record_of(reservation.token()).range, address),
    ensures
        exists|i: int|
            0 <= i < segments.len() && holds_address((#[trigger] segments[i]).0, address)
                && may_be_accessed(
                segments[i].1,
                old(registry).ledger().record_of(reservation.token()).request.access(),
            ),
{
    let record = old(registry).ledger().record_of(reservation.token());
    find_segment(record, segments, segments.len() as int, address);
}

proof fn find_segment(
    record: PinRecord,
    segments: Seq<(PageRange, MappingSnapshot)>,
    n: int,
    address: int,
)
    requires
        backed_by(record, segments),
        0 < n <= segments.len() || (n == 0 && segments.len() == 0),
        record.range.start() <= address,
        n > 0 ==> address < segments[n - 1].0.end(),
        n == 0 ==> address < record.validated_until,
    ensures
        exists|i: int|
            0 <= i < segments.len() && holds_address((#[trigger] segments[i]).0, address)
                && may_be_accessed(segments[i].1, record.request.access()),
    decreases n,
{
    if n > 0 {
        let last = segments[n - 1];
        if last.0.start() <= address {
            assert(holds_address(segments[n - 1].0, address));
        } else {
            assert(n > 1);
            assert(segments[n - 2].0.end() == segments[n - 2 + 1].0.start());
            find_segment(record, segments, n - 1, address);
        }
    }
}

/// A reservation is for the least pages that hold the request, on an address space
/// where no live pin over those pages writes, and none at all if this one does. It
/// is charged to its owner and to all, within both quotas.
pub proof fn reservations_are_exclusive_and_paid<const O: usize, const T: usize>(
    registry: &mut PinRegistry<O, T>,
    request: PinRequest,
    space: AddressSpaceId,
    result: Result<PinReservation, MmError>,
    view: Result<PinLeaseView, MmError>,
    i: int,
)
    requires
        old(registry).wf(),
        call_ensures(PinRegistry::<O, T>::reserve, (registry, request, space), result),
        result is Ok,
        call_ensures(PinRegistry::<O, T>::view, (final(registry), result->Ok_0.token()), view),
        0 <= i < old(registry).ledger().records.len(),
    ensures
        view is Ok,
        ({
            let lease = view->Ok_0;
            let page = old(registry).ledger().page_size.bytes() as int;
            let own = final(registry).ledger().account(request.owner());
            &&& lease.token() == result->Ok_0.token()
            &&& lease.request() == request
            &&& lease.snapshot().address_space() == space
            &&& !lease.is_active()
            &&& lease.range().start() as int % page == 0 && lease.range().end() as int % page == 0
            &&& lease.range().start() <= request.range().start() < lease.range().start() + page
            &&& lease.range().end() - page < request.range().end() <= lease.range().end()
            &&& lease.accounting().bytes() == lease.range().end() - lease.range().start()
            &&& lease.accounting().tokens() == 1
            &&& final(registry).ledger().global_usage.bytes() == old(
                registry,
            ).ledger().global_usage.bytes() + lease.accounting().bytes()
            &&& final(registry).ledger().global_usage.pages() == old(
                registry,
            ).ledger().global_usage.pages() + lease.accounting().pages()
            &&& final(registry).ledger().global_usage.tokens() == old(
                registry,
            ).ledger().global_usage.tokens() + 1
            &&& final(registry).ledger().global_usage.pages() <= old(
                registry,
            ).ledger().global_quota.max_pages()
            &&& final(registry).ledger().global_usage.bytes() <= old(
                registry,
            ).ledger().global_quota.max_bytes()
            &&& final(registry).ledger().global_usage.tokens() <= old(
                registry,
            ).ledger().global_quota.max_tokens()
            &&& own.usage.pages() <= own.quota.max_pages() && own.usage.bytes()
                <= own.quota.max_bytes() && own.usage.tokens() <= own.quota.max_tokens()
            &&& old(registry).ledger().state is Open
            &&& old(registry).ledger().records[i] matches Some(other) ==> (
            other.snapshot.address_space() == space && share_an_address(other.range, lease.range())
                ==> other.request.access() is Read && request.access() is Read)
        }),
{
    let ledger = old(registry).ledger();
    let after = final(registry).ledger();
    let slot = crate::slots::first_free(ledger.records);
    assert(after.token_at(result->Ok_0.token(), slot));
    crate::mm::registry::token_slots_are_unique(after, result->Ok_0.token(), slot);
    let record = after.records[slot]->0;
    if ledger.records[i] is Some {
        let other = ledger.records[i]->0;
        assert(ledger.record_ok(other));
        if share_an_address(other.range, record.range) {
            let address = choose|address: int| #[trigger]
                holds_address(other.range, address) && holds_address(record.range, address);
            if other.snapshot.address_space() == space && !(other.request.access() is Read
                && request.access() is Read) {
                assert(conflicts(other, request.access(), record.range, space));
                assert(ledger.has_conflict(request.access(), record.range, space));
            }
        }
    }
    let k = after.owner_slot(request.owner());
    assert(after.record_ok(record));
    assert(after.owner_at(request.owner(), k));
    assert(after.owners[k] is Some);
}

/// A reservation that overlaps no pin, of a configured owner with room in both
/// quotas, in an open registry with a free slot and a token left, is granted.
pub proof fn affordable_reservations_are_granted<const O: usize, const T: usize>(
    registry: &mut PinRegistry<O, T>,
    request: PinRequest,
    space: AddressSpaceId,
    result: Result<PinReservation, MmError>,
    pages: PageRange,
    slot: int,
)
    requires
        old(registry).wf(),
        call_ensures(PinRegistry::<O, T>::reserve, (registry, request, space), result),
        old(registry).ledger().state is Open,
        request.range().end() + old(registry).ledger().page_size.bytes() <= usize::MAX,
        crate::mm::range::covers(pages, request.range(), old(registry).ledger().page_size),
        pages.valid(),
        forall|i: int|
            0 <= i < old(registry).ledger().records.len() && (#[trigger] old(
                registry,
            ).ledger().records[i]) is Some ==> !share_an_address(
                old(registry).ledger().records[i]->0.range,
                pages,
            ),
        old(registry).ledger().has_owner(request.owner()),
        0 <= slot < old(registry).ledger().records.len(),
        old(registry).ledger().records[slot] is None,
        old(registry).ledger().next_token is Some,
        ({
            let all = old(registry).ledger().global_usage;
            let all_quota = old(registry).ledger().global_quota;
            let own = old(registry).ledger().account(request.owner());
            let count = pages.page_count() as int;
            let bytes = pages.len() as int;
            &&& all.pages() + count <= all_quota.max_pages()
            &&& all.bytes() + bytes <= all_quota.max_bytes()
            &&& all.tokens() + 1 <= all_quota.max_tokens()
            &&& own.usage.pages() + count <= own.quota.max_pages()
            &&& own.usage.bytes() + bytes <= own.quota.max_bytes()
            &&& own.usage.tokens() + 1 <= own.quota.max_tokens()
        }),
    ensures
        result is Ok,
{
    let ledger = old(registry).ledger();
    assert forall|other: PageRange| #[trigger]
        crate::mm::range::covers(other, request.range(), ledger.page_size) implies other.start()
        == pages.start() && other.end() == pages.end() by {
        let page = ledger.page_size.bytes() as int;
        crate::mm::range::multiples_do_not_cross(other.start() as int, pages.start() as int, page);
        crate::mm::range::multiples_do_not_cross(pages.start() as int, other.start() as int, page);
        crate::mm::range::multiples_do_not_cross(other.end() as int, pages.end() as int, page);
        crate::mm::range::multiples_do_not_cross(pages.end() as int, other.end() as int, page);
    }
    crate::slots::first_free_exists(ledger.records);
    assert forall|i: int|
        0 <= i < ledger.records.len() && (#[trigger] ledger.records[i]) is Some implies !(
    ledger.records[i]->0.range.start() < pages.end() && pages.start()
        < ledger.records[i]->0.range.end()) by {
        let record = ledger.records[i]->0;
        assert(ledger.record_ok(record));
        assert(!share_an_address(record.range, pages));
        let low = if record.range.start() < pages.start() {
            pages.start() as int
        } else {
            record.range.start() as int
        };
        if record.range.start() < pages.end() && pages.start() < record.range.end() {
            assert(holds_address(record.range, low) && holds_address(pages, low));
        }
    }
}

/// A published pin is one whose whole range was validated, and nothing of it but
/// its publication changes.
pub proof fn commits_publish_what_was_validated<const O: usize, const T: usize>(
    registry: &mut PinRegistry<O, T>,
    reservation: PinReservation,
    result: Result<PinToken, MmError>,
    before: Result<PinLeaseView, MmError>,
    after: Result<PinLeaseView, MmError>,
)
    requires
        old(registry).wf(),
        call_ensures(PinRegistry::<O, T>::view, (old(registry), reservation.token()), before),
        call_ensures(PinRegistry::<O, T>::commit, (registry, reservation), result),
        call_ensures(PinRegistry::<O, T>::view, (final(registry), reservation.token()), after),
    ensures
        result matches Ok(token) ==> {
            &&& token == reservation.token()
            &&& before is Ok && after is Ok
            &&& !before->Ok_0.is_active() && after->Ok_0.is_active()
            &&& after->Ok_0.request() == before->Ok_0.request() && after->Ok_0.range()
                == before->Ok_0.range() && after->Ok_0.accounting() == before->Ok_0.accounting()
            &&& old(registry).ledger().record_of(token).validated_until
                == before->Ok_0.range().end()
            &&& final(registry).ledger().global_usage == old(registry).ledger().global_usage
        },
        result is Err ==> final(registry).ledger() == old(registry).ledger(),
        before is Err ==> result == Err::<PinToken, MmError>(MmError::UnknownToken),
        before is Ok && before->Ok_0.is_active() ==> result == Err::<PinToken, MmError>(
            MmError::InvalidTokenState,
        ),
        before is Ok && !before->Ok_0.is_active() && old(registry).ledger().record_of(
            reservation.token(),
        ).validated_until == before->Ok_0.range().end() ==> result is Ok,
        before is Ok && !before->Ok_0.is_active() && old(registry).ledger().record_of(
            reservation.token(),
        ).validated_until != before->Ok_0.range().end() ==> result == Err::<PinToken, MmError>(
            MmError::IncompleteRevalidation,
        ),
{
    let ledger = old(registry).ledger();
    if result is Ok {
        let slot = ledger.slot_of(reservation.token());
        assert(ledger.token_at(reservation.token(), slot));
        assert(final(registry).ledger().token_at(reservation.token(), slot));
        crate::mm::registry::token_slots_are_unique(
            final(registry).ledger(),
            reservation.token(),
            slot,
        );
    }
}

/// A cancelled reservation and a released pin are gone, with their charges; each
/// call takes only what is in its state, and leaves every other token alone.
pub proof fn ended_pins_are_refunded<const O: usize, const T: usize>(
    a: &mut PinRegistry<O, T>,
    reservation: PinReservation,
    cancelled: Result<(), MmError>,
    b: &mut PinRegistry<O, T>,
    token: PinToken,
    released: Result<(), MmError>,
    other: PinToken,
)
    requires
        old(a).wf(),
        old(b).wf(),
        call_ensures(PinRegistry::<O, T>::cancel_reservation, (a, reservation), cancelled),
        call_ensures(PinRegistry::<O, T>::release, (b, token), released),
    ensures
        cancelled is Ok <==> old(a).ledger().is_live(reservation.token()) && old(
            a,
        ).ledger().record_of(reservation.token()).state is Reserved,
        cancelled is Ok ==> {
            let charge = old(a).ledger().record_of(reservation.token()).charge;
            &&& !final(a).ledger().is_live(reservation.token())
            &&& final(a).ledger().global_usage.pages() == old(a).ledger().global_usage.pages()
                - charge.pages()
            &&& final(a).ledger().global_usage.bytes() == old(a).ledger().global_usage.bytes()
                - charge.bytes()
            &&& final(a).ledger().global_usage.tokens() == old(a).ledger().global_usage.tokens()
                - charge.tokens()
            &&& other != reservation.token() ==> (old(a).ledger().is_live(other) <==> final(
                a).ledger().is_live(other))
        },
        cancelled is Err ==> final(a).ledger() == old(a).ledger(),
        released is Ok <==> old(b).ledger().is_live(token) && old(b).ledger().record_of(token).state
            is Active,
        released is Ok ==> {
            let charge = old(b).ledger().record_of(token).charge;
            &&& !final(b).ledger().is_live(token)
            &&& final(b).ledger().global_usage.pages() == old(b).ledger().global_usage.pages()
                - charge.pages()
            &&& final(b).ledger().global_usage.bytes() == old(b).ledger().global_usage.bytes()
                - charge.bytes()
            &&& final(b).ledger().global_usage.tokens() == old(b).ledger().global_usage.tokens()
                - charge.tokens()
            &&& other != token ==> (old(b).ledger().is_live(other) <==> final(b).ledger().is_live(
                other,
            ))
        },
        released is Err ==> final(b).ledger() == old(b).ledger(),
{
    if cancelled is Ok && other != reservation.token() {
        refunds_touch_one_token(old(a).ledger(), final(a).ledger(), reservation.token(), other);
    }
    if released is Ok && other != token {
        refunds_touch_one_token(old(b).ledger(), final(b).ledger(), token, other);
    }
}

proof fn refunds_touch_one_token(
    before: crate::mm::registry::PinLedger,
    after: crate::mm::registry::PinLedger,
    token: PinToken,
    other: PinToken,
)
    requires
        before.wf(),
        before.is_live(token),
        before.refunds(token, after),
        other != token,
    ensures
        before.is_live(other) <==> after.is_live(other),
{
    let slot = before.slot_of(token);
    assert(before.token_at(token, slot));
    if before.is_live(other) {
        let i = before.slot_of(other);
        assert(before.token_at(other, i));
        assert(after.token_at(other, i));
    }
    if after.is_live(other) {
        let i = after.slot_of(other);
        assert(after.token_at(other, i));
        assert(before.token_at(other, i));
    }
}

/// A change of pages gets through exactly when no live reservation or pin of that
/// address space holds one of them; the pin that is named as the obstacle is one.
pub proof fn pins_fence_their_pages<const O: usize, const T: usize>(
    registry: PinRegistry<O, T>,
    invalidation: InvalidationRange,
    admitted: Result<(), MmError>,
    blocker: Option<MutationBlocker>,
    i: int,
)
    requires
        registry.wf(),
        invalidation.range().page_size() == registry.ledger().page_size,
        call_ensures(PinRegistry::<O, T>::admit_mutation, (&registry, invalidation), admitted),
        call_ensures(
            PinRegistry::<O, T>::first_mutation_blocker,
            (&registry, invalidation),
            blocker,
        ),
        0 <= i < registry.ledger().records.len(),
    ensures
        admitted is Ok <==> blocker is None,
        admitted is Err ==> admitted->Err_0 == MmError::MappingPinned,
        (registry.ledger().records[i] matches Some(record) && record.snapshot.address_space()
            == invalidation.expected().address_space() && share_an_address(
            record.range,
            invalidation.range(),
        )) ==> admitted is Err,
        blocker matches Some(pin) ==> {
            &&& registry.ledger().is_live(pin.token())
            &&& pin.snapshot().address_space() == invalidation.expected().address_space()
            &&& invalidation.range().start() < invalidation.range().end() ==> share_an_address(
                pin.range(),
                invalidation.range(),
            )
        },
{
    let ledger = registry.ledger();
    if ledger.records[i] is Some {
        let record = ledger.records[i]->0;
        assert(ledger.record_ok(record));
        if record.snapshot.address_space() == invalidation.expected().address_space()
            && share_an_address(record.range, invalidation.range()) {
            let address = choose|address: int| #[trigger]
                holds_address(record.range, address) && holds_address(
                    invalidation.range(),
                    address,
                );
            assert(blocks(ledger.records[i], invalidation));
        }
    }
    if blocker is Some {
        let k = choose|k: int|
            0 <= k < ledger.records.len() && #[trigger] blocks(ledger.records[k], invalidation)
                && blocker->0.record() == ledger.records[k]->0 && forall|j: int|
                0 <= j < k ==> !#[trigger] blocks(ledger.records[j], invalidation);
        let record = ledger.records[k]->0;
        assert(ledger.record_ok(record));
        assert(ledger.token_at(record.token, k));
        if invalidation.range().start() < invalidation.range().end() {
            let low = if record.range.start() < invalidation.range().start() {
                invalidation.range().start() as int
            } else {
                record.range.start() as int
            };
            assert(holds_address(record.range, low) && holds_address(invalidation.range(), low));
        }
    }
}

/// Closing stops reservations and ends nothing. Teardown ends every reservation
/// and no published pin. The registry is closed when nothing is left.
pub proof fn registries_close_step_by_step<const O: usize, const T: usize>(
    a: &mut PinRegistry<O, T>,
    closing: Result<LifecycleProgress, MmError>,
    b: &mut PinRegistry<O, T>,
    torn: Result<TeardownReport, MmError>,
    c: &mut PinRegistry<O, T>,
    finished: Result<(), MmError>,
    i: int,
)
    requires
        old(a).wf(),
        old(b).wf(),
        old(c).wf(),
        call_ensures(PinRegistry::<O, T>::begin_close, (a,), closing),
        call_ensures(PinRegistry::<O, T>::begin_teardown, (b,), torn),
        call_ensures(PinRegistry::<O, T>::finish_teardown, (c,), finished),
        0 <= i < T,
    ensures
        final(a).ledger().records == old(a).ledger().records && final(a).ledger().global_usage
            == old(a).ledger().global_usage,
        closing is Ok <==> old(a).ledger().state is Open || old(a).ledger().state is Closing,
        closing is Ok ==> final(a).ledger().state is Closing,
        torn is Ok <==> !(old(b).ledger().state is Closed),
        torn is Ok ==> {
            &&& final(b).ledger().state is TearingDown
            &&& old(b).ledger().records[i] matches Some(record) ==> (final(b).ledger().records[i]
                == if record.state is Active {
                Some(record)
            } else {
                None
            })
            &&& old(b).ledger().records[i] is None ==> final(b).ledger().records[i] is None
        },
        finished is Ok ==> final(c).ledger().state is Closed && old(c).ledger().records[i] is None,
        finished is Err ==> final(c).ledger() == old(c).ledger(),
        old(c).ledger().state is Open ==> finished is Err,
{
    if torn is Ok {
        assert(final(b).ledger().records[i] == crate::mm::registry::without_reservation(
            old(b).ledger().records[i],
        ));
    }
    if finished is Ok && !(old(c).ledger().state is Closed) {
        assert(final(c).ledger().records[i] == old(c).ledger().records[i]);
    }
    if finished is Ok && old(c).ledger().records[i] is Some {
        assert(final(c).ledger().record_ok(final(c).ledger().records[i]->0));
    }
}

/// A registry that is closing, torn down or closed takes no reservation and no
/// owner, and says why.
pub proof fn closed_registries_admit_nothing<const O: usize, const T: usize>(
    a: &mut PinRegistry<O, T>,
    request: PinRequest,
    space: AddressSpaceId,
    reserved: Result<PinReservation, MmError>,
    b: &mut PinRegistry<O, T>,
    owner: PinOwner,
    quota: PinQuota,
    configured: Result<(), MmError>,
)
    requires
        old(a).wf(),
        old(b).wf(),
        call_ensures(PinRegistry::<O, T>::reserve, (a, request, space), reserved),
        call_ensures(PinRegistry::<O, T>::configure_owner, (b, owner, quota), configured),
    ensures
        old(a).ledger().state is Closing ==> reserved == Err::<PinReservation, MmError>(
            MmError::Closing,
        ),
        old(a).ledger().state is TearingDown ==> reserved == Err::<PinReservation, MmError>(
            MmError::TearingDown,
        ),
        old(a).ledger().state is Closed ==> reserved == Err::<PinReservation, MmError>(
            MmError::Closed,
        ),
        reserved is Err ==> final(a).ledger() == old(a).ledger(),
        !(old(b).ledger().state is Open) ==> configured is Err && final(b).ledger() == old(
            b,
        ).ledger(),
{
}

/// A configured owner has the quota it was given, keeps what it is charged, and is
/// refused a quota below that.
pub proof fn owners_get_their_quota<const O: usize, const T: usize>(
    registry: &mut PinRegistry<O, T>,
    owner: PinOwner,
    quota: PinQuota,
    result: Result<(), MmError>,
)
    requires
        old(registry).wf(),
        call_ensures(PinRegistry::<O, T>::configure_owner, (registry, owner, quota), result),
    ensures
        result is Ok ==> {
            let account = final(registry).ledger().account(owner);
            &&& final(registry).ledger().has_owner(owner)
            &&& account.quota == quota
            &&& old(registry).ledger().has_owner(owner) ==> account.usage == old(
                registry,
            ).ledger().account(owner).usage
            &&& account.usage.pages() <= quota.max_pages() && account.usage.bytes()
                <= quota.max_bytes() && account.usage.tokens() <= quota.max_tokens()
            &&& final(registry).ledger().records == old(registry).ledger().records
        },
        result is Err ==> final(registry).ledger() == old(registry).ledger(),
        old(registry).ledger().state is Open && old(registry).ledger().has_owner(owner) && ({
            let usage = old(registry).ledger().account(owner).usage;
            usage.pages() <= quota.max_pages() && usage.bytes() <= quota.max_bytes()
                && usage.tokens() <= quota.max_tokens()
        }) ==> result is Ok,
{
    let before = old(registry).ledger();
    let after = final(registry).ledger();
    if result is Ok {
        if before.has_owner(owner) {
            let k = before.owner_slot(owner);
            assert(before.owner_at(owner, k));
            assert(after.owner_at(owner, k));
            crate::mm::registry::owner_slots_are_unique(after, owner, k);
        } else {
            let k = crate::slots::first_free(before.owners);
            assert(after.owner_at(owner, k));
            crate::mm::registry::owner_slots_are_unique(after, owner, k);
        }
    }
}

/// A budget charge is for the least pages that hold the request and stays within
/// the quota; releasing it gives exactly that back, and makes it unknown.
pub proof fn budget_charges_are_for_their_pages<const N: usize>(
    a: &mut PinBudget<N>,
    request: PinRequest,
    reserved: Result<PinBudgetCharge, MmError>,
    range: Result<PageRange, MmError>,
    b: &mut PinBudget<N>,
    released: Result<(), MmError>,
    again: Result<PageRange, MmError>,
)
    requires
        old(a).wf(),
        call_ensures(PinBudget::<N>::reserve, (a, request), reserved),
        reserved is Ok,
        call_ensures(PinBudget::<N>::range, (final(a), reserved->Ok_0), range),
        *old(b) == *final(a),
        call_ensures(PinBudget::<N>::release, (b, reserved->Ok_0), released),
        call_ensures(PinBudget::<N>::range, (final(b), reserved->Ok_0), again),
    ensures
        range is Ok,
        ({
            let page = old(a)@.page_size.bytes() as int;
            let pages = range->Ok_0;
            &&& pages.start() as int % page == 0 && pages.end() as int % page == 0
            &&& pages.start() <= request.range().start() < pages.start() + page
            &&& pages.end() - page < request.range().end() <= pages.end()
            &&& final(a)@.usage.bytes() == old(a)@.usage.bytes() + (pages.end() - pages.start())
            &&& final(a)@.usage.tokens() == old(a)@.usage.tokens() + 1
            &&& final(a)@.usage.pages() > old(a)@.usage.pages()
            &&& final(a)@.usage.pages() <= old(a)@.quota.max_pages()
            &&& final(a)@.usage.bytes() <= old(a)@.quota.max_bytes()
            &&& final(a)@.usage.tokens() <= old(a)@.quota.max_tokens()
        }),
        released is Ok,
        final(b)@.usage == old(a)@.usage,
        again == Err::<PageRange, MmError>(MmError::UnknownToken),
{
    let slot = crate::slots::first_free(old(a)@.records);
    assert(final(a)@.holds(reserved->Ok_0, slot));
    crate::mm::budget::live_slots_are_unique(final(a)@, reserved->Ok_0, slot);
    let record = final(a)@.records[slot]->0;
    assert(final(a)@.record_ok(record));
    let page = old(a)@.page_size.bytes() as int;
    let pages = record.range;
    assert(pages.len() as int / page > 0) by {
        if pages.end() < pages.start() + page {
            crate::mm::range::multiples_do_not_cross(
                pages.start() as int,
                pages.end() as int,
                page,
            );
        }
        vstd::arithmetic::div_mod::lemma_fundamental_div_mod(pages.len() as int, page);
        if pages.len() as int / page <= 0 {
            assert(page * (pages.len() as int / page) <= 0) by (nonlinear_arith)
                requires
                    page > 0,
                    pages.len() as int / page <= 0,
            ;
        }
    }
}

/// A new registry is open and empty, with the page size and quota it was made
/// with.
pub proof fn new_registries_are_empty<const O: usize, const T: usize>(
    page: usize,
    quota: PinQuota,
    first: u64,
    result: Result<PinRegistry<O, T>, MmError>,
    token: PinToken,
    found: Result<PinLeaseView, MmError>,
    progress: LifecycleProgress,
)
    requires
        call_ensures(PinRegistry::<O, T>::new, (page, quota, first), result),
        result is Ok ==> call_ensures(PinRegistry::<O, T>::view, (&result->Ok_0, token), found),
    ensures
        result is Ok <==> page > 0 && crate::powers::power_of_two(page as int) && first != 0,
        result matches Ok(registry) ==> {
            &&& registry.ledger().state is Open
            &&& registry.ledger().page_size.bytes() == page
            &&& registry.ledger().global_quota == quota
            &&& registry.ledger().global_usage.tokens() == 0
            &&& found == Err::<PinLeaseView, MmError>(MmError::UnknownToken)
        },
{
    if result is Ok {
        let ledger = result->Ok_0.ledger();
        if ledger.is_live(token) {
            let i = ledger.slot_of(token);
            assert(ledger.token_at(token, i));
            assert(ledger.records[i] is None);
        }
    }
}

/// An owner can leave while nothing is charged to it, and is then unknown; an
/// owner that is charged stays.
pub proof fn owners_leave_when_nothing_is_charged<const O: usize, const T: usize>(
    registry: &mut PinRegistry<O, T>,
    owner: PinOwner,
    result: Result<(), MmError>,
    before: Result<PinAccounting, MmError>,
    after: Result<PinAccounting, MmError>,
)
    requires
        old(registry).wf(),
        old(registry).ledger().state is Open,
        call_ensures(PinRegistry::<O, T>::owner_accounting, (old(registry), owner), before),
        call_ensures(PinRegistry::<O, T>::remove_owner, (registry, owner), result),
        call_ensures(PinRegistry::<O, T>::owner_accounting, (final(registry), owner), after),
    ensures
        before is Err ==> result == Err::<(), MmError>(MmError::OwnerNotConfigured),
        before matches Ok(usage) ==> {
            let unused = usage.pages() == 0 && usage.bytes() == 0 && usage.tokens() == 0;
            &&& result is Ok <==> unused
            &&& result is Ok ==> after is Err
            &&& !unused ==> result == Err::<(), MmError>(MmError::OwnerBusy) && after == before
        },
        final(registry).ledger().records == old(registry).ledger().records,
{
}

/// Progress counts the published pins and the reservations, which together are the
/// occupied slots.
pub proof fn progress_counts_every_slot<const O: usize, const T: usize>(
    registry: PinRegistry<O, T>,
    progress: LifecycleProgress,
    active: usize,
    reserved: usize,
)
    requires
        call_ensures(PinRegistry::<O, T>::progress, (&registry,), progress),
        call_ensures(PinRegistry::<O, T>::active_count, (&registry,), active),
        call_ensures(PinRegistry::<O, T>::reserved_count, (&registry,), reserved),
    ensures
        progress.active() == active && progress.reserved() == reserved,
        active + reserved == crate::slots::occupied(registry.ledger().records),
        active == 0 ==> forall|i: int|
            0 <= i < registry.ledger().records.len() && (#[trigger] registry.ledger().records[i])
                is Some ==> registry.ledger().records[i]->0.state is Reserved,
        reserved == 0 ==> forall|i: int|
            0 <= i < registry.ledger().records.len() && (#[trigger] registry.ledger().records[i])
                is Some ==> registry.ledger().records[i]->0.state is Active,
{
    let records = registry.ledger().records;
    crate::mm::registry::active_and_reserved_partition_the_slots(records);
    crate::counting::count_bounds(records, crate::mm::registry::is_active_slot());
    crate::counting::count_bounds(records, crate::mm::registry::is_reserved_slot());
    assert forall|i: int|
        active == 0 && 0 <= i < records.len() && (#[trigger] records[i]) is Some implies records[i]->0.state
        is Reserved by {
        assert(!crate::mm::registry::is_active_slot()(records[i]));
    }
    assert forall|i: int|
        reserved == 0 && 0 <= i < records.len() && (#[trigger] records[i]) is Some implies records[i]->0.state
        is Active by {
        assert(!crate::mm::registry::is_reserved_slot()(records[i]));
    }
}

/// A charge costs its pages, its bytes and one token, and is answered only by the
/// budget that made it.
pub proof fn charges_are_answered_by_their_budget<const N: usize>(
    budget: PinBudget<N>,
    charge: PinBudgetCharge,
    range: Result<PageRange, MmError>,
    accounting: Result<PinAccounting, MmError>,
)
    requires
        budget.wf(),
        call_ensures(PinBudget::<N>::range, (&budget, charge), range),
        call_ensures(PinBudget::<N>::charge_accounting, (&budget, charge), accounting),
    ensures
        range is Ok <==> accounting is Ok,
        charge.budget() != budget@.identity ==> range == Err::<PageRange, MmError>(
            MmError::BudgetMismatch,
        ) && accounting == Err::<PinAccounting, MmError>(MmError::BudgetMismatch),
        range is Ok ==> {
            &&& accounting->Ok_0.tokens() == 1
            &&& accounting->Ok_0.bytes() == range->Ok_0.end() - range->Ok_0.start()
        },
{
    if range is Ok {
        let k = budget@.slot_of(charge);
        assert(budget@.holds(charge, k));
        assert(budget@.record_ok(budget@.records[k]->0));
    }
}

/// What closing and teardown report is what there was: the reservations that were
/// cancelled and the pins that are left.
pub proof fn lifecycle_reports_are_counts<const O: usize, const T: usize>(
    a: &mut PinRegistry<O, T>,
    before: LifecycleProgress,
    torn: Result<TeardownReport, MmError>,
    b: &mut PinRegistry<O, T>,
    there: LifecycleProgress,
    closing: Result<LifecycleProgress, MmError>,
    total: usize,
)
    requires
        old(a).wf(),
        old(b).wf(),
        call_ensures(PinRegistry::<O, T>::progress, (old(a),), before),
        call_ensures(PinRegistry::<O, T>::begin_teardown, (a,), torn),
        call_ensures(PinRegistry::<O, T>::progress, (old(b),), there),
        call_ensures(PinRegistry::<O, T>::begin_close, (b,), closing),
        call_ensures(LifecycleProgress::total, (there,), total),
    ensures
        torn matches Ok(report) ==> report.cancelled_reservations() == before.reserved()
            && report.active_remaining() == before.active(),
        closing matches Ok(progress) ==> progress.active() == there.active() && progress.reserved()
            == there.reserved(),
        total == there.active() + there.reserved(),
{
}

} // verus!
