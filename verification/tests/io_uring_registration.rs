use thekernel_linux_abi::io_uring::{
    IORING_MAX_REGISTERED_BUFFERS, IoUringError, PINNED_IORING_REGISTER_LAST, RegistrationOperation,
    RegistrationRequest,
};
use thekernel_linux_abi::io_uring::registration::{
    IORING_REGISTER_BUFFERS, IORING_REGISTER_FILES, IORING_REGISTER_PROBE,
    IORING_REGISTER_USE_REGISTERED_RING, IORING_UNREGISTER_BUFFERS, IORING_UNREGISTER_FILES,
};

#[test]
fn fixed_file_headers_are_strictly_validated() {
    assert_eq!(
        RegistrationRequest::new(IORING_REGISTER_FILES, 0x1000, 4).decode(),
        Ok(RegistrationOperation::RegisterFiles {
            argument: 0x1000,
            count: 4
        })
    );
    assert_eq!(
        RegistrationRequest::new(IORING_REGISTER_FILES, 0, 4).decode(),
        Err(IoUringError::InvalidRegistration)
    );
    assert_eq!(
        RegistrationRequest::new(IORING_UNREGISTER_FILES, 0, 0).decode(),
        Ok(RegistrationOperation::UnregisterFiles)
    );
    assert_eq!(
        RegistrationRequest::new(IORING_UNREGISTER_FILES, 1, 0).decode(),
        Err(IoUringError::InvalidRegistration)
    );
}

#[test]
fn buffer_headers_distinguish_malformed_from_supported() {
    assert_eq!(
        RegistrationRequest::new(IORING_REGISTER_BUFFERS, 0, 1).decode(),
        Ok(RegistrationOperation::RegisterBuffers {
            argument: 0,
            count: 1,
        })
    );
    assert_eq!(
        RegistrationRequest::new(
            IORING_REGISTER_BUFFERS,
            0x1000,
            IORING_MAX_REGISTERED_BUFFERS + 1
        )
        .decode(),
        Err(IoUringError::InvalidRegistration)
    );
    assert_eq!(
        RegistrationRequest::new(IORING_REGISTER_BUFFERS, 0, 0).decode(),
        Ok(RegistrationOperation::RegisterBuffers {
            argument: 0,
            count: 0,
        })
    );
    assert_eq!(
        RegistrationRequest::new(
            IORING_REGISTER_BUFFERS,
            0,
            IORING_MAX_REGISTERED_BUFFERS + 1
        )
        .decode(),
        Ok(RegistrationOperation::RegisterBuffers {
            argument: 0,
            count: IORING_MAX_REGISTERED_BUFFERS + 1,
        })
    );
    assert_eq!(
        RegistrationRequest::new(IORING_REGISTER_BUFFERS, 0x1000, 1).decode(),
        Ok(RegistrationOperation::RegisterBuffers {
            argument: 0x1000,
            count: 1,
        })
    );
    assert_eq!(
        RegistrationRequest::new(IORING_UNREGISTER_BUFFERS, 1, 0).decode(),
        Err(IoUringError::InvalidRegistration)
    );
    assert_eq!(
        RegistrationRequest::new(IORING_UNREGISTER_BUFFERS, 0, 0).decode(),
        Ok(RegistrationOperation::UnregisterBuffers)
    );
    assert_eq!(
        RegistrationRequest::new(
            IORING_REGISTER_USE_REGISTERED_RING | IORING_REGISTER_BUFFERS,
            0x1000,
            1
        )
        .decode(),
        Err(IoUringError::InvalidRegistration)
    );
}

#[test]
fn probe_and_pinned_opcode_range_need_no_consumer_magic() {
    assert_eq!(
        RegistrationRequest::new(IORING_REGISTER_PROBE, 0x2000, 256).decode(),
        Ok(RegistrationOperation::Probe {
            argument: 0x2000,
            operations: 256
        })
    );
    assert_eq!(
        RegistrationRequest::new(IORING_REGISTER_PROBE, 0x2000, 257).decode(),
        Err(IoUringError::InvalidRegistration)
    );
    assert_eq!(
        RegistrationRequest::new(PINNED_IORING_REGISTER_LAST - 1, 0, 0).decode(),
        Err(IoUringError::UnsupportedRegistration)
    );
    assert_eq!(
        RegistrationRequest::new(PINNED_IORING_REGISTER_LAST, 0, 0).decode(),
        Err(IoUringError::UnknownRegistration)
    );
}
