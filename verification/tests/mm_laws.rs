use thekernel_linux_abi::mm::{
    AddressSpaceId, FaultAccess, FaultAdmission, FaultCapacity, FaultDisposition, FaultHandlerId,
    FaultKey, FaultLifecycleState, FaultLoad, FaultRequest, FaultType, InvalidationRange,
    InvalidationReason, MappingAccess, MappingKind, MappingSnapshot, MemlockLimit, MemlockPlan,
    MmError, PageCoveringPlan, PageRange, PageSize, PinAccess, PinAccounting, PinBudget,
    PinBudgetIdentities, PinDuration, PinOwner, PinQuota, PinRegistry, PinRegistryState,
    PinRequest, PinUse, RemapGeometry, UffdApiState, UffdCopyMode, UffdCopyRequest,
    UffdCreateFlags, UffdFeatures, UffdIoctls, UffdRegisterMode, UffdRegistrationIntent,
    UffdRegistrationRequest, UffdRegistrationTable, UffdResolverOutcome, UffdResolverResult,
    UffdZeroPageMode, UffdZeroPageRequest, UserRange, relocate_affine_origin,
    validate_fault_completion, UFFD_API, UFFD_O_CLOEXEC, UFFD_O_NONBLOCK, UFFD_USER_MODE_ONLY,
};

const PAGE: usize = 4096;

fn mapping(id: u64, generation: u64, start: usize, pages: usize) -> MappingSnapshot {
    kind_of(id, generation, start, pages, MappingKind::AnonymousPrivate, true)
}

fn kind_of(
    id: u64,
    generation: u64,
    start: usize,
    pages: usize,
    kind: MappingKind,
    long_term: bool,
) -> MappingSnapshot {
    MappingSnapshot::from_raw(1, id, generation, start, pages * PAGE, PAGE, 3, kind, long_term, false)
        .unwrap()
}

fn space() -> AddressSpaceId {
    AddressSpaceId::new(1).unwrap()
}

fn owner(raw: u64) -> PinOwner {
    PinOwner::new(raw).unwrap()
}

fn quota() -> PinQuota {
    PinQuota::new(8, 8 * PAGE as u64, 4)
}

fn registry() -> PinRegistry<2, 4> {
    let mut registry = PinRegistry::<2, 4>::new(PAGE, quota(), 1).unwrap();
    registry.configure_owner(owner(7), quota()).unwrap();
    registry
}

fn pin(start: usize, length: usize, access: PinAccess) -> PinRequest {
    PinRequest::from_raw(start, length, access, PinDuration::AsyncIo, PinUse::BlockIo, 7).unwrap()
}

fn api() -> UffdApiState {
    let mut api = UffdApiState::new();
    let negotiation = api.prepare_raw(UFFD_API, 0).unwrap();
    api.commit(negotiation).unwrap();
    api
}

fn handler(raw: u64) -> FaultHandlerId {
    FaultHandlerId::new(raw).unwrap()
}

fn claim(by: u64, vma: MappingSnapshot, start: usize, pages: usize) -> UffdRegistrationRequest {
    UffdRegistrationRequest::new(
        handler(by),
        vma,
        PageRange::new(start, pages * PAGE, PAGE).unwrap(),
        UffdRegisterMode::MISSING(),
    )
    .unwrap()
}

#[test]
fn user_ranges_report_each_bound_violation() {
    let range = UserRange::new(0x1000, 0x1000).unwrap();
    assert_eq!((range.start(), range.end(), range.len()), (0x1000, 0x2000, 0x1000));
    assert!(!range.is_empty());
    assert_eq!(range.as_range(), 0x1000..0x2000);
    assert_eq!(UserRange::from_bounds(5, 5), Err(MmError::ZeroLength));
    assert_eq!(UserRange::from_bounds(6, 5), Err(MmError::Overflow));
    assert_eq!(UserRange::from_bounds(5, 6).unwrap().len(), 1);
    assert_eq!(range.within(0x1fff), Err(MmError::AddressOutOfRange));
    assert_eq!(range.within(0x2000), Ok(range));
    assert!(range.contains_address(0x1fff));
    assert!(!range.contains_address(0x2000));
}

#[test]
fn containment_and_overlap_speak_of_addresses() {
    let a = UserRange::new(10, 10).unwrap();
    let b = UserRange::new(15, 5).unwrap();
    let c = UserRange::new(20, 5).unwrap();
    assert!(a.contains(b) && !b.contains(a));
    assert!(a.overlaps(b) && b.overlaps(a));
    assert!(!a.overlaps(c) && !c.overlaps(a));
}

#[test]
fn page_sizes_are_powers_of_two() {
    assert_eq!(PageSize::new(0), Err(MmError::ZeroLength));
    for bytes in [3usize, 6, 4095, 4097, 12288] {
        assert_eq!(PageSize::new(bytes), Err(MmError::InvalidPageSize));
    }
    for shift in 0..usize::BITS {
        let bytes = 1usize << shift;
        assert_eq!(PageSize::new(bytes).unwrap().bytes(), bytes);
    }
    let page = PageSize::new(PAGE).unwrap();
    assert!(page.is_aligned(0) && page.is_aligned(3 * PAGE) && !page.is_aligned(PAGE + 1));
}

#[test]
fn covering_pages_are_the_least_that_hold_the_bytes() {
    let page = PageSize::new(PAGE).unwrap();
    let covering = PageRange::covering(UserRange::new(0x1fff, 2).unwrap(), page).unwrap();
    assert_eq!(covering, PageRange::new(0x1000, 0x2000, PAGE).unwrap());
    assert_eq!(covering.page_count(), 2);
    let exact = PageRange::covering(UserRange::new(0x1000, 0x1000).unwrap(), page).unwrap();
    assert_eq!(exact.user_range(), UserRange::new(0x1000, 0x1000).unwrap());
    assert_eq!(
        PageRange::covering(UserRange::new(usize::MAX - 1, 1).unwrap(), page),
        Err(MmError::Overflow)
    );
    assert_eq!(
        PageCoveringPlan::new(UserRange::new(1, 1).unwrap(), 24),
        Err(MmError::InvalidPageSize)
    );
}

#[test]
fn subranges_stay_inside_and_aligned() {
    let range = PageRange::new(0x4000, 4 * PAGE, PAGE).unwrap();
    assert_eq!(
        range.subrange(PAGE, 2 * PAGE),
        Ok(PageRange::new(0x5000, 2 * PAGE, PAGE).unwrap())
    );
    assert_eq!(range.subrange(1, PAGE), Err(MmError::Unaligned));
    assert_eq!(range.subrange(PAGE, 0), Err(MmError::ZeroLength));
    assert_eq!(range.subrange(PAGE, 4 * PAGE), Err(MmError::RangeNotMapped));
    assert_eq!(range.subrange(usize::MAX - PAGE + 1, PAGE), Err(MmError::Overflow));
    let large = PageRange::new(0x4000, 4 * PAGE, 2 * PAGE).unwrap();
    assert!(!large.contains(range) && !large.overlaps(range));
}

#[test]
fn access_bits_are_the_permissions() {
    for bits in 0u8..8 {
        let access = MappingAccess::from_bits(bits).unwrap();
        let rebuilt =
            MappingAccess::new(access.readable(), access.writable(), access.executable());
        assert_eq!(rebuilt.bits(), bits);
    }
    assert_eq!(MappingAccess::default().bits(), 0);
}

#[test]
fn snapshots_revalidate_only_their_own_generation() {
    let old = mapping(10, 1, 0x4000, 4);
    assert_eq!(old.expected().revalidate(old), Ok(()));
    let newer = mapping(10, 2, 0x4000, 4);
    assert_eq!(old.expected().revalidate(newer), Err(MmError::StaleGeneration));
    let shrunk = mapping(10, 1, 0x4000, 3);
    assert_eq!(old.expected().revalidate(shrunk), Err(MmError::RangeNotMapped));
    let outside = PageRange::new(0x8000, PAGE, PAGE).unwrap();
    assert_eq!(old.expected().revalidate_range(old, outside), Err(MmError::RangeNotMapped));
    assert_eq!(
        InvalidationRange::new(old, outside, InvalidationReason::Unmap),
        Err(MmError::RangeNotMapped)
    );
    assert_eq!(
        InvalidationRange::from_raw(old, 0x4001, PAGE, InvalidationReason::Protect),
        Err(MmError::Unaligned)
    );
    let covering = InvalidationRange::covering_bytes(
        old,
        UserRange::new(0x4fff, 2).unwrap(),
        InvalidationReason::Truncate,
    )
    .unwrap();
    assert_eq!(covering.range(), PageRange::new(0x4000, 2 * PAGE, PAGE).unwrap());
    assert_eq!(covering.reason(), InvalidationReason::Truncate);
}

#[test]
fn relocation_keeps_the_backing_cursor() {
    let cases = [
        (0x9000usize, 0x8000usize, 0x20_000usize),
        (0x4000, 0x8000, 0x20_000),
        (0x4000, 0x8000, 0x1000),
    ];
    for (origin, old_start, new_start) in cases {
        let moved = relocate_affine_origin(origin, old_start, new_start).unwrap();
        let before = 0xf000i64 - origin as i64;
        let address = 0xf000i64 - old_start as i64 + new_start as i64;
        let after = address - moved.origin() as i64 + moved.backing_advance() as i64;
        assert_eq!(before, after);
    }
    assert_eq!(relocate_affine_origin(2, 1, usize::MAX), Err(MmError::Overflow));
}

#[test]
fn remap_shrink_has_no_tail_and_rejects_the_cut_part() {
    let old = PageRange::new(0x8000, 4 * PAGE, PAGE).unwrap();
    let shrink = RemapGeometry::new(old, 0x20_000, 2 * PAGE).unwrap();
    assert!(shrink.shrinks() && !shrink.grows());
    assert_eq!(shrink.growth_tail(), Ok(None));
    assert_eq!(shrink.moved_source(), PageRange::new(0x8000, 2 * PAGE, PAGE).unwrap());
    assert_eq!(
        shrink.segment(PageRange::new(0xa000, PAGE, PAGE).unwrap()),
        Err(MmError::InvalidRemap)
    );
    assert_eq!(RemapGeometry::new(old, 0x20_001, PAGE), Err(MmError::Unaligned));
    assert_eq!(RemapGeometry::new(old, 0x20_000, 0), Err(MmError::ZeroLength));
}

#[test]
fn memlock_limits_are_checked_in_order() {
    assert_eq!(MemlockPlan::new(0, 0, 0, MemlockLimit::Disabled), Err(MmError::ZeroLength));
    assert_eq!(
        MemlockPlan::new(u64::MAX, 0, 1, MemlockLimit::Unlimited),
        Err(MmError::Overflow)
    );
    assert_eq!(
        MemlockPlan::new(10, 0, 1, MemlockLimit::Limited(10)),
        Err(MmError::QuotaExceeded)
    );
    let plan = MemlockPlan::for_range(
        10,
        PAGE as u64,
        PageRange::new(0, 2 * PAGE, PAGE).unwrap(),
        MemlockLimit::Unlimited,
    )
    .unwrap();
    assert_eq!(plan.additional_bytes(), PAGE as u64);
    assert_eq!(plan.total_locked_bytes(), 10 + PAGE as u64);
    assert_eq!(plan.requested_bytes(), 2 * PAGE as u64);
    assert_eq!(plan.already_locked_bytes(), PAGE as u64);
}

#[test]
fn fault_admission_revalidates_the_mapping_first() {
    let current = mapping(10, 1, 0x4000, 4);
    let key = FaultKey::from_address(current, 0x5abc, FaultAccess::Write).unwrap();
    assert_eq!(key.page_address().get(), 0x5000);
    let request = FaultRequest::new(key, handler(3), FaultType::Missing);
    let capacity = FaultCapacity::new(1, 1, 1).unwrap();
    let stale = mapping(10, 2, 0x4000, 4);
    let check = |current, load, state| {
        FaultAdmission::check(request, current, capacity, load, state).map(|p| p.request())
    };
    let idle = FaultLoad::new(0, 0, 0);
    assert_eq!(check(current, idle, FaultLifecycleState::Open), Ok(request));
    assert_eq!(check(current, idle, FaultLifecycleState::Closing), Err(MmError::Closing));
    assert_eq!(check(stale, idle, FaultLifecycleState::Closing), Err(MmError::StaleGeneration));
    assert_eq!(check(current, idle, FaultLifecycleState::Detached), Err(MmError::TearingDown));
    assert_eq!(check(stale, idle, FaultLifecycleState::Detached), Err(MmError::StaleGeneration));
    assert_eq!(check(current, idle, FaultLifecycleState::Closed), Err(MmError::Closed));
    assert_eq!(check(stale, idle, FaultLifecycleState::Closed), Err(MmError::StaleGeneration));
    assert_eq!(check(stale, idle, FaultLifecycleState::Open), Err(MmError::StaleGeneration));
    let busy = FaultLoad::new(1, 1, 1);
    assert_eq!(check(current, busy, FaultLifecycleState::Closed), Err(MmError::Closed));
    for load in [FaultLoad::new(1, 0, 0), FaultLoad::new(0, 1, 0), FaultLoad::new(0, 0, 1)] {
        assert_eq!(check(current, load, FaultLifecycleState::Open), Err(MmError::QuotaExceeded));
    }
    assert_eq!(FaultCapacity::new(0, 1, 1), Err(MmError::ZeroLength));
    assert_eq!(
        FaultKey::from_address(current, 0x8000, FaultAccess::Read),
        Err(MmError::RangeNotMapped)
    );
    assert_eq!(
        FaultKey::from_address(current, 0x4000, FaultAccess::Execute),
        Err(MmError::AccessDenied)
    );
    assert_eq!(
        validate_fault_completion(request, stale, FaultDisposition::Supply),
        Err(MmError::StaleGeneration)
    );
}

#[test]
fn budget_charges_add_up_and_are_undone_by_release() {
    let mut identities = PinBudgetIdentities::new();
    let mut budget = PinBudget::<4>::new(&mut identities, PAGE, quota(), 1).unwrap();
    let first = budget.reserve(pin(0x1001, PAGE, PinAccess::Read)).unwrap();
    let second = budget.reserve(pin(0x8000, PAGE, PinAccess::Write)).unwrap();
    assert_eq!(first.get() + 1, second.get());
    assert_eq!(budget.range(first), Ok(PageRange::new(0x1000, 2 * PAGE, PAGE).unwrap()));
    let charged = budget.charge_accounting(first).unwrap();
    assert_eq!(
        (charged.pages(), charged.bytes(), charged.tokens()),
        (2, 2 * PAGE as u64, 1)
    );
    assert_eq!(budget.accounting().pages(), 3);
    assert_eq!(budget.accounting().tokens(), 2);
    budget.release(first).unwrap();
    budget.release(second).unwrap();
    assert_eq!(budget.accounting(), PinAccounting::default());
    assert_eq!(budget.live_charges(), 0);
    assert_eq!(budget.range(first), Err(MmError::UnknownToken));
}

#[test]
fn budget_identities_and_charges_run_dry_rather_than_wrap() {
    assert!(matches!(PinBudgetIdentities::starting_at(0), Err(MmError::InvalidIdentity)));
    let mut identities = PinBudgetIdentities::starting_at(u64::MAX).unwrap();
    let mut last = PinBudget::<2>::new(&mut identities, PAGE, quota(), u64::MAX).unwrap();
    assert!(matches!(
        PinBudget::<2>::new(&mut identities, PAGE, quota(), 1),
        Err(MmError::IdExhausted)
    ));
    let charge = last.reserve(pin(0, PAGE, PinAccess::Read)).unwrap();
    assert_eq!(charge.get(), u64::MAX);
    assert_eq!(last.reserve(pin(0, PAGE, PinAccess::Read)), Err(MmError::IdExhausted));
    last.release(charge).unwrap();
    assert_eq!(last.reserve(pin(0, PAGE, PinAccess::Read)), Err(MmError::IdExhausted));
}

#[test]
fn writing_pins_exclude_every_other_pin() {
    let mut registry = registry();
    let reader = registry.reserve(pin(0x4000, PAGE, PinAccess::Read), space()).unwrap();
    let twin = registry.reserve(pin(0x4000, PAGE, PinAccess::Read), space()).unwrap();
    assert_ne!(reader.token(), twin.token());
    assert_eq!(
        registry.reserve(pin(0x4fff, 1, PinAccess::Write), space()),
        Err(MmError::PinOverlap)
    );
    let other = AddressSpaceId::new(2).unwrap();
    let elsewhere = registry.reserve(pin(0x4fff, 1, PinAccess::Write), other).unwrap();
    assert_eq!(
        registry.reserve(pin(0x4000, 1, PinAccess::Read), other),
        Err(MmError::PinOverlap)
    );
    registry.cancel_reservation(elsewhere).unwrap();
    assert!(registry.reserve(pin(0x4000, 1, PinAccess::Read), other).is_ok());
}

#[test]
fn cancelling_undoes_a_reservation_but_not_its_token() {
    let mut registry = registry();
    let before = registry.global_accounting();
    let first = registry.reserve(pin(0x4000, PAGE, PinAccess::Read), space()).unwrap();
    assert_eq!(registry.owner_accounting(owner(7)).unwrap().tokens(), 1);
    registry.cancel_reservation(first).unwrap();
    assert_eq!(registry.global_accounting(), before);
    assert_eq!(registry.owner_accounting(owner(7)), Ok(before));
    assert_eq!(registry.cancel_reservation(first), Err(MmError::UnknownToken));
    let second = registry.reserve(pin(0x4000, PAGE, PinAccess::Read), space()).unwrap();
    assert_eq!(second.token().get(), first.token().get() + 1);
    assert_eq!(registry.view(first.token()), Err(MmError::UnknownToken));
}

#[test]
fn tokens_are_used_only_in_their_own_state() {
    let mut registry = registry();
    let current = mapping(10, 1, 0x4000, 1);
    let reservation = registry.reserve(pin(0x4000, PAGE, PinAccess::Read), space()).unwrap();
    assert_eq!(registry.release(reservation.token()), Err(MmError::InvalidTokenState));
    assert_eq!(registry.commit(reservation), Err(MmError::IncompleteRevalidation));
    registry
        .revalidate_next(reservation, current.expected(), current, current.range())
        .unwrap();
    let token = registry.commit(reservation).unwrap();
    assert!(registry.view(token).unwrap().is_active());
    assert_eq!(registry.view(token).unwrap().validated_mappings(), 1);
    assert_eq!(registry.commit(reservation), Err(MmError::InvalidTokenState));
    assert_eq!(registry.cancel_reservation(reservation), Err(MmError::InvalidTokenState));
    assert_eq!(
        registry.revalidate_next(reservation, current.expected(), current, current.range()),
        Err(MmError::InvalidTokenState)
    );
    let fence = InvalidationRange::new(current, current.range(), InvalidationReason::Unmap).unwrap();
    assert_eq!(registry.admit_mutation(fence), Err(MmError::MappingPinned));
    assert_eq!(registry.first_mutation_blocker(fence).unwrap().token(), token);
    registry.release(token).unwrap();
    assert_eq!(registry.admit_mutation(fence), Ok(()));
    assert!(registry.first_mutation_blocker(fence).is_none());
}

#[test]
fn gaps_in_coverage_roll_the_reservation_back() {
    let mut registry = registry();
    let current = mapping(10, 1, 0x4000, 4);
    let reservation = registry.reserve(pin(0x4000, 2 * PAGE, PinAccess::Read), space()).unwrap();
    let second_page = PageRange::new(0x5000, PAGE, PAGE).unwrap();
    assert_eq!(
        registry.revalidate_next(reservation, current.expected(), current, second_page),
        Err(MmError::NonContiguousCoverage)
    );
    assert_eq!(registry.global_accounting(), PinAccounting::default());
    assert_eq!(registry.commit(reservation), Err(MmError::UnknownToken));
}

#[test]
fn mappings_that_cannot_be_pinned_are_refused() {
    let request = |duration, use_kind| {
        PinRequest::from_raw(0x4000, PAGE, PinAccess::Write, duration, use_kind, 7).unwrap()
    };
    let long = PinDuration::LongTerm;
    let cases = [
        (request(long, PinUse::BlockIo), MappingKind::AnonymousPrivate, false),
        (request(PinDuration::AsyncIo, PinUse::Dma), MappingKind::AnonymousPrivate, true),
        (request(long, PinUse::Dma), MappingKind::FileShared, true),
        (request(long, PinUse::Other), MappingKind::Device, true),
        (request(long, PinUse::Other), MappingKind::Special, true),
    ];
    for (request, kind, long_term) in cases {
        let mut registry = registry();
        let current = kind_of(10, 1, 0x4000, 1, kind, long_term);
        let reservation = registry.reserve(request, space()).unwrap();
        assert_eq!(
            registry.revalidate_next(reservation, current.expected(), current, current.range()),
            Err(MmError::UnsupportedPin)
        );
        assert_eq!(registry.progress().total(), 0);
    }
}

#[test]
fn owners_are_configured_removed_and_kept_while_charged() {
    let mut registry = registry();
    assert_eq!(registry.owner_accounting(owner(9)), Err(MmError::OwnerNotConfigured));
    assert_eq!(registry.remove_owner(owner(9)), Err(MmError::OwnerNotConfigured));
    registry.configure_owner(owner(9), quota()).unwrap();
    assert_eq!(registry.configure_owner(owner(11), quota()), Err(MmError::CapacityExceeded));
    registry.remove_owner(owner(9)).unwrap();
    let reservation = registry.reserve(pin(0x4000, PAGE, PinAccess::Read), space()).unwrap();
    assert_eq!(registry.remove_owner(owner(7)), Err(MmError::OwnerBusy));
    assert_eq!(
        registry.configure_owner(owner(7), PinQuota::new(0, 0, 0)),
        Err(MmError::OwnerBusy)
    );
    registry.cancel_reservation(reservation).unwrap();
    registry.remove_owner(owner(7)).unwrap();
    assert_eq!(
        registry.reserve(pin(0x4000, PAGE, PinAccess::Read), space()),
        Err(MmError::OwnerNotConfigured)
    );
}

#[test]
fn lifecycle_only_moves_towards_closed() {
    let mut registry = registry();
    let kept = registry.reserve(pin(0x4000, PAGE, PinAccess::Read), space()).unwrap();
    assert_eq!(registry.finish_teardown(), Err(MmError::Busy));
    assert_eq!(registry.begin_close().unwrap().reserved(), 1);
    assert_eq!(
        registry.reserve(pin(0x8000, PAGE, PinAccess::Read), space()),
        Err(MmError::Closing)
    );
    assert_eq!(registry.finish_teardown(), Err(MmError::Busy));
    let report = registry.begin_teardown().unwrap();
    assert_eq!((report.cancelled_reservations(), report.active_remaining()), (1, 0));
    assert_eq!(registry.begin_close(), Err(MmError::TearingDown));
    assert_eq!(
        registry.reserve(pin(0x8000, PAGE, PinAccess::Read), space()),
        Err(MmError::TearingDown)
    );
    assert_eq!(registry.cancel_reservation(kept), Err(MmError::UnknownToken));
    registry.finish_teardown().unwrap();
    assert_eq!(registry.state(), PinRegistryState::Closed);
    assert_eq!(registry.finish_teardown(), Ok(()));
    assert_eq!(registry.begin_close(), Err(MmError::Closed));
    assert_eq!(registry.begin_teardown(), Err(MmError::Closed));
    assert_eq!(registry.configure_owner(owner(7), quota()), Err(MmError::Closed));
}

#[test]
fn creation_flags_are_the_three_named_ones() {
    let all = UFFD_USER_MODE_ONLY | UFFD_O_NONBLOCK | UFFD_O_CLOEXEC;
    let flags = UffdCreateFlags::from_bits(all).unwrap();
    assert!(flags.user_mode_only() && flags.nonblocking() && flags.close_on_exec());
    assert_eq!(flags.bits(), all);
    assert_eq!(UffdCreateFlags::from_bits(all | 2), Err(MmError::InvalidUffdFlags));
    let lacking = UffdCreateFlags::from_bits(UFFD_O_CLOEXEC).unwrap();
    assert_eq!(lacking.validate_profile(), Err(MmError::AccessDenied));
    assert_eq!(flags.validate_profile(), Ok(flags));
}

#[test]
fn negotiation_happens_once_and_checks_in_order() {
    let mut api = UffdApiState::default();
    assert_eq!(api.prepare_raw(UFFD_API, 1 << 17), Err(MmError::InvalidUffdFeatures));
    assert_eq!(api.prepare_raw(1, 1), Err(MmError::InvalidUffdApi));
    assert_eq!(
        api.prepare_raw(UFFD_API, UffdFeatures::SIGBUS().bits()),
        Err(MmError::UnsupportedUffdFeatures)
    );
    let negotiation = api.prepare_raw(UFFD_API, 0).unwrap();
    api.commit(negotiation).unwrap();
    assert_eq!(api.commit(negotiation), Err(MmError::UffdAlreadyInitialized));
    assert_eq!(api.prepare_raw(UFFD_API, 0), Err(MmError::UffdAlreadyInitialized));
    assert_eq!(api.enabled_features(), UffdFeatures::AVAILABLE());
    assert!(UffdFeatures::LINUX_V6_12().contains(UffdFeatures::MOVE()));
    let profile = UffdIoctls::API_PROFILE();
    assert!(profile.contains(UffdIoctls::REGISTER()) && profile.contains(UffdIoctls::API()));
    assert!(!profile.contains(UffdIoctls::COPY()));
    assert_eq!(UffdIoctls::MISSING_RANGE_PROFILE().bits(), 0x1c);
}

#[test]
fn register_modes_other_than_missing_are_refused() {
    assert_eq!(UffdRegisterMode::from_bits(0), Err(MmError::InvalidUffdMode));
    assert_eq!(UffdRegisterMode::from_bits(8), Err(MmError::InvalidUffdMode));
    assert_eq!(UffdRegisterMode::from_bits(3), Err(MmError::UnsupportedUffdMode));
    assert_eq!(UffdRegisterMode::from_bits(1), Ok(UffdRegisterMode::MISSING()));
    let vma = mapping(10, 1, 0x4000, 1);
    assert_eq!(
        UffdRegistrationRequest::new(handler(1), vma, vma.range(), UffdRegisterMode::WP()),
        Err(MmError::UnsupportedUffdMode)
    );
    let file = kind_of(10, 1, 0x4000, 1, MappingKind::FileShared, true);
    assert_eq!(
        UffdRegistrationRequest::new(handler(1), file, file.range(), UffdRegisterMode::MISSING()),
        Err(MmError::UnsupportedUffdMapping)
    );
}

#[test]
fn exact_registration_is_idempotent_even_in_a_full_table() {
    let api = api();
    let vma = mapping(10, 1, 0x4000, 4);
    let mut table = UffdRegistrationTable::<1>::new(u64::MAX).unwrap();
    let request = claim(3, vma, 0x4000, 2);
    let first = table.register(&api, request).unwrap();
    let revision = table.revision();
    assert_eq!(table.register(&api, request), Ok(first));
    assert_eq!(table.revision(), revision);
    assert_eq!(table.register(&api, claim(3, vma, 0x4000, 1)), Err(MmError::UffdRegistrationOverlap));
    assert_eq!(table.register(&api, claim(4, vma, 0x5000, 1)), Err(MmError::Busy));
    assert_eq!(table.register(&api, claim(3, vma, 0x6000, 1)), Err(MmError::CapacityExceeded));
    table.unregister(first.id()).unwrap();
    assert_eq!(table.register(&api, request), Err(MmError::IdExhausted));
    assert_eq!(
        table.register(&UffdApiState::new(), request),
        Err(MmError::UffdNotInitialized)
    );
}

#[test]
fn every_change_makes_earlier_plans_stale() {
    let api = api();
    let vma = mapping(10, 1, 0x4000, 8);
    let mut table = UffdRegistrationTable::<4>::new(1).unwrap();
    let request = claim(3, vma, 0x4000, 1);
    let plan = table.preflight_register(&api, &[request]).unwrap();
    let other = table.register(&api, claim(3, vma, 0x8000, 1)).unwrap();
    let mut visited = Vec::new();
    assert_eq!(
        table.commit_register(plan, &[request], &mut visited),
        Err(MmError::StaleGeneration)
    );
    assert!(visited.is_empty());
    let plan = table.preflight_register(&api, &[request]).unwrap();
    let swapped = claim(3, vma, 0x5000, 1);
    assert!(table.commit_register(plan, &[swapped, request], &mut visited).is_err());
    table.commit_register(plan, &[request], &mut visited).unwrap();
    assert_eq!(visited.len(), 1);
    assert_eq!(table.get(other.id()), Ok(other));
}

#[test]
fn batches_change_only_what_they_name() {
    let api = api();
    let vma = mapping(10, 1, 0x4000, 8);
    let mut table = UffdRegistrationTable::<4>::new(1).unwrap();
    let left = table.register(&api, claim(3, vma, 0x4000, 1)).unwrap();
    let right = table.register(&api, claim(3, vma, 0x8000, 1)).unwrap();
    let mut visited = Vec::new();
    let commit = table
        .replace_batch(
            &api,
            &[left.id()],
            &[claim(3, vma, 0x5000, 1), claim(3, vma, 0x5000, 1), claim(3, vma, 0x8000, 1)],
            &mut visited,
        )
        .unwrap();
    assert_eq!((commit.removed(), commit.published(), commit.reused()), (1, 1, 1));
    assert_eq!(visited.len(), 2);
    assert_eq!(visited[1], right);
    assert_eq!(visited[0].id().get(), 3);
    assert_eq!(table.get(left.id()), Err(MmError::UnknownUffdRegistration));
    assert_eq!(
        table.replace_batch(&api, &[], &[claim(3, vma, 0x5000, 1)], &mut visited),
        Err(MmError::ZeroLength)
    );
    assert_eq!(
        table.replace_batch(&api, &[right.id(), right.id()], &[], &mut visited),
        Err(MmError::InvalidUffdRegistrationBatch)
    );
}

#[test]
fn planned_deltas_commit_as_one_fragment_per_mapping() {
    let api = api();
    let first = mapping(10, 1, 0x10_000, 4);
    let second = mapping(11, 1, 0x20_000, 4);
    let mut table = UffdRegistrationTable::<6>::new(1).unwrap();
    table.register(&api, claim(3, first, 0x10_000, 1)).unwrap();
    table.register(&api, claim(3, first, 0x12_000, 2)).unwrap();
    table.register(&api, claim(3, second, 0x23_000, 1)).unwrap();
    let intent = UffdRegistrationIntent::new(
        handler(3),
        PageRange::new(0x11_000, 0x10_000, PAGE).unwrap(),
        UffdRegisterMode::MISSING(),
    )
    .unwrap();
    let vmas = [first, second];
    let plan = table.preflight_register_delta(&api, intent, &vmas).unwrap();
    assert_eq!((plan.removed(), plan.replacements()), (2, 2));
    let mut removed = Vec::new();
    let mut fragments = Vec::new();
    table.replay_register_delta(plan, intent, &vmas, &mut removed, &mut fragments).unwrap();
    assert_eq!(fragments[0].range(), first.range());
    assert_eq!(fragments[1].range(), PageRange::new(0x20_000, PAGE, PAGE).unwrap());
    let mut visited = Vec::new();
    table.replace_batch(&api, &removed, &fragments, &mut visited).unwrap();
    assert_eq!(table.len(), 3);
    assert!(table.preflight_register_delta(&api, intent, &vmas).unwrap().is_noop());
    assert_eq!(
        table.preflight_register_delta(&api, intent, &[]),
        Err(MmError::RangeNotMapped)
    );
    assert_eq!(
        table.preflight_register_delta(&api, intent, &[second, first]),
        Err(MmError::InvalidUffdRegistrationBatch)
    );
    let foreign = UffdRegistrationIntent::new(
        handler(4),
        intent.range(),
        UffdRegisterMode::MISSING(),
    )
    .unwrap();
    assert_eq!(table.preflight_register_delta(&api, foreign, &vmas), Err(MmError::Busy));
    assert_eq!(table.detach_handler(handler(3)), Ok(3));
    assert_eq!(table.detach_handler(handler(3)), Ok(0));
    assert!(table.is_empty());
}

#[test]
fn resolver_progress_is_a_page_aligned_prefix() {
    let destination = PageRange::new(0x4000, 2 * PAGE, PAGE).unwrap();
    let source = UserRange::new(0x101, 2 * PAGE).unwrap();
    let quiet = UffdCopyMode::from_bits(1).unwrap();
    assert!(quiet.dontwake());
    let copy = UffdCopyRequest::new(source, destination, quiet).unwrap();
    assert_eq!(
        UffdCopyRequest::new(UserRange::new(0, PAGE).unwrap(), destination, quiet),
        Err(MmError::InconsistentAccounting)
    );
    let done = UffdResolverResult::for_copy(copy, 2 * PAGE).unwrap();
    assert_eq!(done.outcome(), UffdResolverOutcome::Complete);
    assert_eq!(done.completed(), Some(destination));
    assert_eq!(done.wake_range(), None);
    for bad in [0, PAGE - 1, 3 * PAGE] {
        assert_eq!(UffdResolverResult::for_copy(copy, bad), Err(MmError::InvalidUffdProgress));
    }
    let zero = UffdZeroPageRequest::new(destination, UffdZeroPageMode::from_bits(0).unwrap());
    let half = UffdResolverResult::for_zeropage(zero, PAGE).unwrap();
    assert_eq!(half.reported_bytes(), PAGE as i64);
    assert_eq!(half.wake_range(), half.completed());
    assert_eq!(UffdResolverResult::failure(0), Err(MmError::InvalidUffdProgress));
    assert_eq!(UffdResolverResult::failure(i32::MAX).unwrap().reported_bytes(), -(i32::MAX as i64));
}

#[test]
fn unregistering_undoes_a_registration_but_not_its_identity() {
    let api = api();
    let vma = mapping(10, 1, 0x4000, 4);
    let mut table = UffdRegistrationTable::<2>::new(5).unwrap();
    let kept = table.register(&api, claim(3, vma, 0x4000, 1)).unwrap();
    let before = table.iter();
    let extra = table.register(&api, claim(3, vma, 0x6000, 1)).unwrap();
    assert_eq!(table.unregister(extra.id()), Ok(extra));
    assert_eq!(table.iter(), before);
    assert_eq!(table.iter(), vec![kept]);
    let again = table.register(&api, claim(3, vma, 0x6000, 1)).unwrap();
    assert_eq!(again.id().get(), extra.id().get() + 1);
    assert_eq!(table.unregister(extra.id()), Err(MmError::UnknownUffdRegistration));
}

#[test]
fn the_delta_of_one_mapping_is_the_interval_union() {
    let api = api();
    let vma = mapping(10, 1, 0x10_000, 8);
    let mut table = UffdRegistrationTable::<4>::new(1).unwrap();
    let left = table.register(&api, claim(3, vma, 0x10_000, 2)).unwrap();
    let right = table.register(&api, claim(3, vma, 0x13_000, 1)).unwrap();
    let apart = table.register(&api, claim(3, vma, 0x16_000, 1)).unwrap();
    let intent = |start, pages| {
        UffdRegistrationIntent::new(
            handler(3),
            PageRange::new(start, pages * PAGE, PAGE).unwrap(),
            UffdRegisterMode::MISSING(),
        )
        .unwrap()
    };
    let delta = |wanted| {
        let plan = table.preflight_register_delta(&api, wanted, &[vma]).unwrap();
        let mut removed = Vec::new();
        let mut fragments = Vec::new();
        table.replay_register_delta(plan, wanted, &[vma], &mut removed, &mut fragments).unwrap();
        assert_eq!((plan.removed(), plan.replacements()), (removed.len(), fragments.len()));
        (removed, fragments)
    };
    let (removed, fragments) = delta(intent(0x12_000, 1));
    assert_eq!(removed, vec![left.id(), right.id()]);
    assert_eq!(fragments, vec![claim(3, vma, 0x10_000, 4)]);
    let (removed, fragments) = delta(intent(0x16_000, 1));
    assert!(removed.is_empty() && fragments.is_empty());
    let (removed, fragments) = delta(intent(0x17_000, 1));
    assert_eq!(removed, vec![apart.id()]);
    assert_eq!(fragments, vec![claim(3, vma, 0x16_000, 2)]);
    let (removed, fragments) = delta(intent(0x10_000, 8));
    assert_eq!(removed, vec![left.id(), right.id(), apart.id()]);
    assert_eq!(fragments, vec![claim(3, vma, 0x10_000, 8)]);
}

#[test]
fn one_source_tells_budgets_apart() {
    let mut identities = PinBudgetIdentities::new();
    let mut first = PinBudget::<1>::new(&mut identities, PAGE, quota(), 1).unwrap();
    let mut second = PinBudget::<1>::new(&mut identities, PAGE, quota(), 1).unwrap();
    let charge = first.reserve(pin(0, PAGE, PinAccess::Read)).unwrap();
    let twin = second.reserve(pin(0, PAGE, PinAccess::Read)).unwrap();
    assert_eq!(charge.get(), twin.get());
    assert_ne!(charge, twin);
    assert_eq!(first.release(twin), Err(MmError::BudgetMismatch));
    assert_eq!(second.range(charge), Err(MmError::BudgetMismatch));
}

#[test]
fn two_sources_tell_budgets_apart() {
    let mut here = PinBudgetIdentities::new();
    let mut there = PinBudgetIdentities::new();
    let mut elsewhere = PinBudgetIdentities::starting_at(1).unwrap();
    let mut budgets = [
        PinBudget::<1>::new(&mut here, PAGE, quota(), 1).unwrap(),
        PinBudget::<1>::new(&mut there, PAGE, quota(), 1).unwrap(),
        PinBudget::<1>::new(&mut elsewhere, PAGE, quota(), 1).unwrap(),
    ];
    let charges: Vec<_> = budgets
        .iter_mut()
        .map(|budget| budget.reserve(pin(0, PAGE, PinAccess::Read)).unwrap())
        .collect();
    for (i, budget) in budgets.iter_mut().enumerate() {
        for (j, charge) in charges.iter().enumerate() {
            if i != j {
                assert_eq!(budget.release(*charge), Err(MmError::BudgetMismatch));
                assert_eq!(budget.range(*charge), Err(MmError::BudgetMismatch));
            }
        }
        assert_eq!(budget.live_charges(), 1);
        assert_eq!(budget.release(charges[i]), Ok(()));
    }
}

#[test]
fn pages_stay_fenced_until_their_token_ends() {
    let mut registry = registry();
    let vma = mapping(3, 1, 0x4000, 8);
    let fence = InvalidationRange::from_raw(vma, 0x5000, PAGE, InvalidationReason::Unmap).unwrap();
    let held = registry.reserve(pin(0x4800, PAGE, PinAccess::Read), space()).unwrap();
    let terms = registry.view(held.token()).unwrap();
    let other = registry.reserve(pin(0x9000, PAGE, PinAccess::Write), space()).unwrap();
    registry.configure_owner(owner(8), quota()).unwrap();
    registry.cancel_reservation(other).unwrap();
    registry.begin_close().unwrap();
    let later = registry.view(held.token()).unwrap();
    assert_eq!(
        (later.token(), later.request(), later.range(), later.accounting()),
        (terms.token(), terms.request(), terms.range(), terms.accounting())
    );
    assert_eq!(registry.admit_mutation(fence), Err(MmError::MappingPinned));
    registry.begin_teardown().unwrap();
    assert_eq!(registry.admit_mutation(fence), Ok(()));
}

#[test]
fn charges_keep_their_pages_while_others_come_and_go() {
    let mut identities = PinBudgetIdentities::new();
    let mut budget = PinBudget::<4>::new(&mut identities, PAGE, quota(), 1).unwrap();
    let first = budget.reserve(pin(0x1000, PAGE, PinAccess::Read)).unwrap();
    let kept = budget.reserve(pin(0x1801, 2 * PAGE, PinAccess::Read)).unwrap();
    budget.release(first).unwrap();
    budget.reserve(pin(0x8000, PAGE, PinAccess::Write)).unwrap();
    assert_eq!(budget.range(kept), Ok(PageRange::new(0x1000, 3 * PAGE, PAGE).unwrap()));
    assert_eq!(budget.charge_accounting(kept).unwrap().pages(), 3);
}
