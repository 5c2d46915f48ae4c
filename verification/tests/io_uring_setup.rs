use thekernel_linux_abi::io_uring::{
    FeatureFlags, IORING_MAX_CQ_ENTRIES, IORING_MAX_ENTRIES, IORING_OFF_CQ_RING, IORING_OFF_SQES,
    IoUringError, MappingRegion, SetupFlags, SetupRequest,
};

#[test]
fn initial_layout_advertises_only_the_four_proved_features() {
    let layout = SetupRequest::new(3, 0, SetupFlags::default())
        .resolve()
        .unwrap();
    assert_eq!(layout.sq_entries(), 4);
    assert_eq!(layout.cq_entries(), 8);
    assert_eq!(layout.features(), FeatureFlags::INITIAL());
    assert!(layout.features().contains(FeatureFlags::SINGLE_MMAP()));
    assert!(layout.features().contains(FeatureFlags::NODROP()));
    assert!(layout.features().contains(FeatureFlags::SUBMIT_STABLE()));
    assert!(layout.features().contains(FeatureFlags::POLL_32BITS()));
    assert_eq!(layout.features().bits(), 0x47);
}

#[test]
fn setup_clamp_cqsize_and_no_sqarray_are_checked() {
    assert_eq!(
        SetupFlags::from_bits(SetupFlags::CQSIZE().bits()),
        Ok(SetupFlags::CQSIZE())
    );
    assert_eq!(
        SetupFlags::from_bits(SetupFlags::CLAMP().bits()),
        Ok(SetupFlags::CLAMP())
    );
    assert_eq!(
        SetupFlags::from_bits(SetupFlags::NO_SQARRAY().bits()),
        Ok(SetupFlags::NO_SQARRAY())
    );
    let flags = SetupFlags::from_bits(
        SetupFlags::CLAMP().bits() | SetupFlags::CQSIZE().bits() | SetupFlags::NO_SQARRAY().bits(),
    )
    .unwrap();
    let layout = SetupRequest::new(u32::MAX, u32::MAX, flags)
        .resolve()
        .unwrap();
    assert_eq!(layout.sq_entries(), IORING_MAX_ENTRIES);
    assert_eq!(layout.cq_entries(), IORING_MAX_CQ_ENTRIES);
    assert_eq!(layout.sq_offsets().array(), None);
    assert_eq!(
        layout.mapping_region(IORING_OFF_CQ_RING),
        Ok(MappingRegion::Rings)
    );
    assert_eq!(
        layout.mapping_region(IORING_OFF_SQES),
        Ok(MappingRegion::SubmissionEntries)
    );
}

#[test]
fn queue_counters_and_sq_array_indexes_reject_forged_progress() {
    let layout = SetupRequest::new(4, 0, SetupFlags::default())
        .resolve()
        .unwrap();
    assert_eq!(layout.pending_submissions(10, 14), Ok(4));
    assert_eq!(
        layout.pending_submissions(10, 15),
        Err(IoUringError::InvalidQueueGeometry)
    );
    assert_eq!(layout.validate_sqe_index(3), Ok(3));
    assert_eq!(
        layout.validate_sqe_index(4),
        Err(IoUringError::InvalidSubmission)
    );
}

#[test]
fn reserved_setup_fields_and_unknown_features_are_rejected() {
    assert_eq!(
        SetupRequest::from_raw(1, 0, 0, 0, 0, 0, [0, 1, 0]),
        Err(IoUringError::ReservedFieldNonZero)
    );
    assert_eq!(
        FeatureFlags::from_bits(1 << 3),
        Err(IoUringError::UnsupportedFeatureFlags)
    );
    assert_eq!(
        SetupFlags::from_bits(1 << 2),
        Err(IoUringError::UnsupportedSetupFlags)
    );
}
