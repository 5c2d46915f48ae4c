use thekernel_linux_abi::mm::{
    FaultHandlerId, MappingAccess, MappingKind, MappingSnapshot, MmError, PageRange, UFFD_API,
    UffdApiState, UffdRegisterMode, UffdRegistrationIntent, UffdRegistrationRequest,
    UffdRegistrationTable,
};

const PAGE: usize = 4096;

fn initialized_api() -> UffdApiState {
    let mut api = UffdApiState::new();
    let negotiation = api.prepare_raw(UFFD_API, 0).unwrap();
    api.commit(negotiation).unwrap();
    api
}

fn snapshot(mapping: u64, start: usize, length: usize) -> MappingSnapshot {
    MappingSnapshot::from_raw(
        1,
        mapping,
        1,
        start,
        length,
        PAGE,
        MappingAccess::new(true, true, false).bits(),
        MappingKind::AnonymousPrivate,
        true,
        false,
    )
    .unwrap()
}

fn request(handler: u64, mapping: u64, start: usize) -> UffdRegistrationRequest {
    let snapshot = snapshot(mapping, start, PAGE);
    UffdRegistrationRequest::new(
        FaultHandlerId::new(handler).unwrap(),
        snapshot,
        snapshot.range(),
        UffdRegisterMode::MISSING(),
    )
    .unwrap()
}

#[test]
fn saturated_revision_still_allows_retirement_and_final_detach() {
    let api = initialized_api();
    let mut table = UffdRegistrationTable::<3>::new(1).unwrap();
    let first = table.register(&api, request(10, 20, 0x1000)).unwrap();
    let second = table.register(&api, request(11, 21, 0x3000)).unwrap();
    table.skip_revisions_to(u64::MAX);

    let plan = table.preflight_mapping_remove(&[first.id()]).unwrap();
    let commit = table.commit_mapping_remove(plan, &[first.id()]).unwrap();
    assert_eq!(commit.removed(), 1);
    assert_eq!(table.revision(), u64::MAX);
    assert_eq!(table.get(first.id()), Err(MmError::UnknownUffdRegistration));

    assert_eq!(table.detach_handler(second.handler()).unwrap(), 1);
    assert!(table.is_empty());
    assert_eq!(table.revision(), u64::MAX);
}

#[test]
fn saturated_revision_retire_plans_commute_but_never_consume_a_token_twice() {
    let api = initialized_api();
    let mut table = UffdRegistrationTable::<3>::new(1).unwrap();
    let first = table.register(&api, request(10, 20, 0x1000)).unwrap();
    let second = table.register(&api, request(11, 21, 0x3000)).unwrap();
    table.skip_revisions_to(u64::MAX);

    let first_plan = table.preflight_mapping_remove(&[first.id()]).unwrap();
    let duplicate_first_plan = table.preflight_mapping_remove(&[first.id()]).unwrap();
    let second_plan = table.preflight_mapping_remove(&[second.id()]).unwrap();

    table
        .commit_mapping_remove(first_plan, &[first.id()])
        .unwrap();
    assert_eq!(
        table.commit_mapping_remove(duplicate_first_plan, &[first.id()]),
        Err(MmError::UnknownUffdRegistration)
    );
    assert_eq!(table.get(second.id()), Ok(second));
    table
        .commit_mapping_remove(second_plan, &[second.id()])
        .unwrap();
    assert!(table.is_empty());
    assert_eq!(table.revision(), u64::MAX);
}

#[test]
fn saturated_revision_rejects_publication_but_not_unregister() {
    let api = initialized_api();
    let mut table = UffdRegistrationTable::<2>::new(1).unwrap();
    let first = table.register(&api, request(10, 20, 0x1000)).unwrap();
    table.skip_revisions_to(u64::MAX);

    assert_eq!(
        table.register(&api, request(10, 21, 0x3000)),
        Err(MmError::IdExhausted)
    );
    assert_eq!(table.unregister(first.id()).unwrap(), first);
    assert!(table.is_empty());
    assert_eq!(table.revision(), u64::MAX);
}

#[test]
fn saturated_revision_allows_register_noop_but_rejects_delta_publication() {
    let api = initialized_api();
    let mapping = snapshot(30, 0x5000, 3 * PAGE);
    let mut table = UffdRegistrationTable::<2>::new(1).unwrap();
    let registered = table
        .register(
            &api,
            UffdRegistrationRequest::new(
                FaultHandlerId::new(12).unwrap(),
                mapping,
                PageRange::new(0x5000, 2 * PAGE, PAGE).unwrap(),
                UffdRegisterMode::MISSING(),
            )
            .unwrap(),
        )
        .unwrap();
    table.skip_revisions_to(u64::MAX);

    let subset = UffdRegistrationIntent::new(
        registered.handler(),
        PageRange::new(0x6000, PAGE, PAGE).unwrap(),
        UffdRegisterMode::MISSING(),
    )
    .unwrap();
    let plan = table
        .preflight_register_delta(&api, subset, &[mapping])
        .unwrap();
    assert!(plan.is_noop());

    let extension = UffdRegistrationIntent::new(
        registered.handler(),
        mapping.range(),
        UffdRegisterMode::MISSING(),
    )
    .unwrap();
    assert_eq!(
        table.preflight_register_delta(&api, extension, &[mapping]),
        Err(MmError::IdExhausted)
    );
    assert_eq!(table.get(registered.id()), Ok(registered));
    assert_eq!(table.revision(), u64::MAX);
}
