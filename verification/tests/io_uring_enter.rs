use thekernel_linux_abi::io_uring::{EnterFlags, EnterRequest, IoUringError, LegacySignalMask};

#[test]
fn only_getevents_is_supported() {
    let request = EnterRequest::from_raw(3, 1, EnterFlags::GETEVENTS().bits(), 0, 0, 8).unwrap();
    assert_eq!(request.to_submit(), 3);
    assert_eq!(request.minimum_complete(), 1);
    assert!(request.flags().contains(EnterFlags::GETEVENTS()));
    assert_eq!(
        EnterRequest::from_raw(0, 0, 1 << 3, 0, 0, 8),
        Err(IoUringError::UnsupportedEnterFlags)
    );
}

#[test]
fn legacy_signal_mask_requires_the_exact_consumer_size() {
    assert_eq!(
        EnterRequest::from_raw(0, 0, 0, 0x1000, 8, 8)
            .unwrap()
            .signal_mask(),
        LegacySignalMask::Address(0x1000)
    );
    assert_eq!(
        EnterRequest::from_raw(0, 0, 0, 0x1000, 16, 8),
        Err(IoUringError::InvalidSignalMaskArgument)
    );
    assert_eq!(
        EnterRequest::from_raw(0, 0, 0, 0, 8, 16),
        Err(IoUringError::InvalidSignalMaskArgument)
    );
    assert_eq!(
        EnterRequest::from_raw(0, 0, 0, 0, 8, 8)
            .unwrap()
            .signal_mask(),
        LegacySignalMask::Absent
    );
}
