use thekernel_linux_abi::io_uring::{
    BufferSlot, CopiedSubmission, FileSlot, FileTarget, IoBuffer, IoUringError,
    PINNED_IORING_OP_LAST, ParsedSubmission, RequestOperation, SQE_BYTES, SubmissionOpcodeSupport,
    SubmissionOperation, classify_submission_opcode,
};
use thekernel_linux_abi::io_uring::sqe::{
    IORING_OP_ASYNC_CANCEL, IORING_OP_NOP, IORING_OP_POLL_ADD, IORING_OP_READ, IORING_OP_READ_FIXED,
    IORING_OP_WRITE, IORING_OP_WRITE_FIXED, IOSQE_FIXED_FILE,
};

fn sqe(opcode: u8, user_data: u64) -> [u8; SQE_BYTES as usize] {
    let mut bytes = [0; SQE_BYTES as usize];
    bytes[0] = opcode;
    bytes[32..40].copy_from_slice(&user_data.to_le_bytes());
    bytes
}

#[test]
fn copied_submission_preserves_identity_before_decode() {
    let copied = CopiedSubmission::new(sqe(1, 0x1122_3344_5566_7788));
    assert_eq!(copied.opcode(), 1);
    assert_eq!(copied.user_data(), 0x1122_3344_5566_7788);
    assert_eq!(
        copied.descriptor().operation(),
        RequestOperation::Rejected(1)
    );
    assert_eq!(copied.parse(), Err(IoUringError::UnsupportedOpcode));
}

#[test]
fn nop_and_positioned_write_decode_without_hidden_state() {
    let nop = ParsedSubmission::parse(sqe(IORING_OP_NOP, 5)).unwrap();
    assert_eq!(nop.operation(), SubmissionOperation::Nop);

    let mut bytes = sqe(IORING_OP_WRITE, 6);
    bytes[4..8].copy_from_slice(&4_i32.to_le_bytes());
    bytes[8..16].copy_from_slice(&9_u64.to_le_bytes());
    bytes[16..24].copy_from_slice(&0x2000_u64.to_le_bytes());
    bytes[24..28].copy_from_slice(&32_u32.to_le_bytes());
    let write = ParsedSubmission::parse(bytes).unwrap();
    let SubmissionOperation::Write(write) = write.operation() else {
        panic!("expected write request");
    };
    assert_eq!(write.file(), FileTarget::Descriptor(4));
    assert_eq!(write.offset(), 9);
    assert_eq!(write.buffer(), IoBuffer::new(0x2000, 32).unwrap());
}

#[test]
fn pointer_overflow_and_unimplemented_flags_are_distinct() {
    let mut bytes = sqe(IORING_OP_READ, 1);
    bytes[4..8].copy_from_slice(&4_i32.to_le_bytes());
    bytes[16..24].copy_from_slice(&(u64::MAX - 1).to_le_bytes());
    bytes[24..28].copy_from_slice(&4_u32.to_le_bytes());
    assert_eq!(
        ParsedSubmission::parse(bytes),
        Err(IoUringError::InvalidSubmission)
    );

    bytes[16..24].copy_from_slice(&0x1000_u64.to_le_bytes());
    bytes[1] = 1 << 4;
    assert_eq!(
        ParsedSubmission::parse(bytes),
        Err(IoUringError::UnsupportedSubmissionFlags)
    );
    bytes[1] = 0;
    bytes[28..32].copy_from_slice(&1_u32.to_le_bytes());
    assert_eq!(
        ParsedSubmission::parse(bytes),
        Err(IoUringError::UnsupportedOperationFlags)
    );
}

#[test]
fn pinned_known_and_unknown_opcodes_are_distinct() {
    assert_eq!(
        ParsedSubmission::parse(sqe(PINNED_IORING_OP_LAST - 1, 1)),
        Err(IoUringError::UnsupportedOpcode)
    );
    assert_eq!(
        ParsedSubmission::parse(sqe(PINNED_IORING_OP_LAST, 1)),
        Err(IoUringError::UnknownOpcode)
    );
    assert_eq!(
        classify_submission_opcode(PINNED_IORING_OP_LAST),
        SubmissionOpcodeSupport::Unknown
    );
}

#[test]
fn poll_add_reads_all_32_event_bits() {
    let mut bytes = sqe(IORING_OP_POLL_ADD, 9);
    bytes[4..8].copy_from_slice(&3_i32.to_le_bytes());
    bytes[28..32].copy_from_slice(&0x8000_0001_u32.to_le_bytes());
    let parsed = ParsedSubmission::parse(bytes).unwrap();
    let SubmissionOperation::PollAdd(poll) = parsed.operation() else {
        panic!("expected poll request");
    };
    assert_eq!(poll.file(), FileTarget::Descriptor(3));
    assert_eq!(poll.events(), 0x8000_0001);
}

#[test]
fn positioned_io_rejects_current_position_and_accepts_fixed_file() {
    let mut bytes = sqe(IORING_OP_READ, 9);
    bytes[1] = IOSQE_FIXED_FILE;
    bytes[4..8].copy_from_slice(&2_i32.to_le_bytes());
    bytes[8..16].copy_from_slice(&u64::MAX.to_le_bytes());
    assert_eq!(
        ParsedSubmission::parse(bytes),
        Err(IoUringError::CurrentPositionUnsupported)
    );
    bytes[8..16].copy_from_slice(&7_u64.to_le_bytes());
    bytes[16..24].copy_from_slice(&0x1000_u64.to_le_bytes());
    bytes[24..28].copy_from_slice(&16_u32.to_le_bytes());
    let parsed = ParsedSubmission::parse(bytes).unwrap();
    let SubmissionOperation::Read(read) = parsed.operation() else {
        panic!("expected read request");
    };
    assert_eq!(read.file(), FileTarget::Registered(FileSlot::new(2)));
    assert_eq!(read.offset(), 7);
    assert_eq!(read.buffer().end(), 0x1010);
}

#[test]
fn fixed_buffer_io_decodes_slot_and_exact_range() {
    let mut bytes = sqe(IORING_OP_WRITE_FIXED, 10);
    bytes[1] = IOSQE_FIXED_FILE;
    bytes[4..8].copy_from_slice(&3_i32.to_le_bytes());
    bytes[8..16].copy_from_slice(&11_u64.to_le_bytes());
    bytes[16..24].copy_from_slice(&0x4010_u64.to_le_bytes());
    bytes[24..28].copy_from_slice(&24_u32.to_le_bytes());
    bytes[40..42].copy_from_slice(&7_u16.to_le_bytes());
    let parsed = ParsedSubmission::parse(bytes).unwrap();
    let SubmissionOperation::Write(write) = parsed.operation() else {
        panic!("expected fixed-buffer write request");
    };
    assert_eq!(write.file(), FileTarget::Registered(FileSlot::new(3)));
    assert_eq!(write.fixed_buffer(), Some(BufferSlot::new(7)));
    assert_eq!(write.buffer(), IoBuffer::new(0x4010, 24).unwrap());
    assert_eq!(
        classify_submission_opcode(IORING_OP_READ_FIXED),
        SubmissionOpcodeSupport::Supported(RequestOperation::Read)
    );
}

#[test]
fn async_cancel_decodes_default_user_data_selector() {
    let mut bytes = sqe(IORING_OP_ASYNC_CANCEL, 11);
    bytes[4..8].copy_from_slice(&(-1_i32).to_le_bytes());
    bytes[16..24].copy_from_slice(&77_u64.to_le_bytes());
    let parsed = ParsedSubmission::parse(bytes).unwrap();
    assert_eq!(
        parsed.operation(),
        SubmissionOperation::AsyncCancel {
            target_user_data: 77
        }
    );
}
