use crate::io_uring::buffer::BufferSlot;
use crate::io_uring::error::IoUringError;
use crate::io_uring::request::{RequestDescriptor, RequestOperation};
use crate::io_uring::resource::FileSlot;
use vstd::prelude::*;

verus! {

/// Submission flag that selects a registered file.
pub const IOSQE_FIXED_FILE: u8 = 1;

/// No operation.
pub const IORING_OP_NOP: u8 = 0;

/// Read into a registered buffer.
pub const IORING_OP_READ_FIXED: u8 = 4;

/// Write from a registered buffer.
pub const IORING_OP_WRITE_FIXED: u8 = 5;

/// One-shot poll.
pub const IORING_OP_POLL_ADD: u8 = 6;

/// Cancel another request.
pub const IORING_OP_ASYNC_CANCEL: u8 = 14;

/// Read.
pub const IORING_OP_READ: u8 = 22;

/// Write.
pub const IORING_OP_WRITE: u8 = 23;

/// First opcode outside the Linux v6.12.35 UAPI enum.
pub const PINNED_IORING_OP_LAST: u8 = 58;

/// Pinned-Linux classification used by parsing and `REGISTER_PROBE`.
#[derive(Clone, Copy, Debug, Eq, PartialEq, Structural)]
pub enum SubmissionOpcodeSupport {
    /// Implemented by this initial policy core.
    Supported(RequestOperation),
    /// Present in Linux v6.12.35 but not implemented by this profile.
    KnownUnsupported,
    /// Outside the Linux v6.12.35 UAPI enum.
    Unknown,
}

/// Specification counterpart of [`classify_submission_opcode`].
pub open spec fn opcode_support(opcode: u8) -> SubmissionOpcodeSupport {
    if opcode == IORING_OP_NOP {
        SubmissionOpcodeSupport::Supported(RequestOperation::Nop)
    } else if opcode == IORING_OP_POLL_ADD {
        SubmissionOpcodeSupport::Supported(RequestOperation::PollAdd)
    } else if opcode == IORING_OP_ASYNC_CANCEL {
        SubmissionOpcodeSupport::Supported(RequestOperation::AsyncCancel)
    } else if opcode == IORING_OP_READ_FIXED || opcode == IORING_OP_READ {
        SubmissionOpcodeSupport::Supported(RequestOperation::Read)
    } else if opcode == IORING_OP_WRITE_FIXED || opcode == IORING_OP_WRITE {
        SubmissionOpcodeSupport::Supported(RequestOperation::Write)
    } else if opcode < PINNED_IORING_OP_LAST {
        SubmissionOpcodeSupport::KnownUnsupported
    } else {
        SubmissionOpcodeSupport::Unknown
    }
}

/// Classifies one raw opcode against Linux stable v6.12.35.
#[verifier::when_used_as_spec(opcode_support)]
pub fn classify_submission_opcode(opcode: u8) -> (result: SubmissionOpcodeSupport)
    ensures
        result == opcode_support(opcode),
{
    if opcode == IORING_OP_NOP {
        SubmissionOpcodeSupport::Supported(RequestOperation::Nop)
    } else if opcode == IORING_OP_POLL_ADD {
        SubmissionOpcodeSupport::Supported(RequestOperation::PollAdd)
    } else if opcode == IORING_OP_ASYNC_CANCEL {
        SubmissionOpcodeSupport::Supported(RequestOperation::AsyncCancel)
    } else if opcode == IORING_OP_READ_FIXED || opcode == IORING_OP_READ {
        SubmissionOpcodeSupport::Supported(RequestOperation::Read)
    } else if opcode == IORING_OP_WRITE_FIXED || opcode == IORING_OP_WRITE {
        SubmissionOpcodeSupport::Supported(RequestOperation::Write)
    } else if opcode < PINNED_IORING_OP_LAST {
        SubmissionOpcodeSupport::KnownUnsupported
    } else {
        SubmissionOpcodeSupport::Unknown
    }
}

/// A normal descriptor or generation-checked fixed-file slot reference.
#[derive(Clone, Copy, Debug, Eq, PartialEq, Structural)]
pub enum FileTarget {
    /// Resolve this process-local descriptor through the caller's FD table.
    Descriptor(u32),
    /// Acquire a lease from this ring's registered-file table.
    Registered(FileSlot),
}

impl FileTarget {
    /// The target that a nonnegative descriptor field names.
    pub open(crate) spec fn named(fd: u32, fixed: bool) -> Self {
        if fixed {
            FileTarget::Registered(FileSlot(fd))
        } else {
            FileTarget::Descriptor(fd)
        }
    }

    /// Reads the two's-complement descriptor field, whose upper half is
    /// negative.
    fn from_sqe(fd: u32, fixed: bool) -> (result: Result<Self, IoUringError>)
        ensures
            result == if fd >= 0x8000_0000 {
                Err::<FileTarget, IoUringError>(IoUringError::InvalidFileTarget)
            } else {
                Ok(FileTarget::named(fd, fixed))
            },
    {
        if fd >= 0x8000_0000 {
            return Err(IoUringError::InvalidFileTarget);
        }
        if fixed {
            Ok(FileTarget::Registered(FileSlot::new(fd)))
        } else {
            Ok(FileTarget::Descriptor(fd))
        }
    }
}

/// Checked userspace I/O buffer geometry copied from one SQE.
#[derive(Clone, Copy, Debug, Eq, PartialEq, Structural)]
pub struct IoBuffer {
    pub(crate) address: u64,
    pub(crate) length: u32,
}

impl IoBuffer {
    /// The buffer does not wrap the address space.
    #[verifier::type_invariant]
    pub(crate) open spec fn in_address_space(self) -> bool {
        self.address + self.length <= u64::MAX
    }

    /// Builds a buffer while rejecting address-length overflow.
    pub fn new(address: u64, length: u32) -> (result: Result<Self, IoUringError>)
        ensures
            match result {
                Ok(buffer) => {
                    &&& address + length <= u64::MAX
                    &&& buffer.address() == address
                    &&& buffer.length() == length
                },
                Err(error) => address + length > u64::MAX && error
                    == IoUringError::InvalidSubmission,
            },
    {
        if address.checked_add(length as u64).is_none() {
            return Err(IoUringError::InvalidSubmission);
        }
        Ok(Self { address, length })
    }

    /// Raw userspace start address.
    #[verifier::when_used_as_spec(spec_address)]
    pub fn address(self) -> (result: u64)
        ensures
            result == self.spec_address(),
    {
        self.address
    }

    /// Specification counterpart of [`Self::address`].
    pub open(crate) spec fn spec_address(self) -> u64 {
        self.address
    }

    /// Requested byte length.
    #[verifier::when_used_as_spec(spec_length)]
    pub fn length(self) -> (result: u32)
        ensures
            result == self.spec_length(),
    {
        self.length
    }

    /// Specification counterpart of [`Self::length`].
    pub open(crate) spec fn spec_length(self) -> u32 {
        self.length
    }

    /// Exclusive raw end address.
    pub fn end(self) -> (result: u64)
        ensures
            result == self.address() + self.length(),
    {
        proof {
            use_type_invariant(&self);
        }
        self.address + self.length as u64
    }
}

/// Positional READ or WRITE arguments after strict SQE decoding.
#[derive(Clone, Copy, Debug, Eq, PartialEq, Structural)]
pub struct ReadWriteRequest {
    pub(crate) file: FileTarget,
    pub(crate) offset: u64,
    pub(crate) buffer: IoBuffer,
    pub(crate) buffer_slot: Option<BufferSlot>,
}

impl ReadWriteRequest {
    /// File reference selected by `IOSQE_FIXED_FILE`.
    #[verifier::when_used_as_spec(spec_file)]
    pub fn file(self) -> (result: FileTarget)
        ensures
            result == self.spec_file(),
    {
        self.file
    }

    /// Specification counterpart of [`Self::file`].
    pub open(crate) spec fn spec_file(self) -> FileTarget {
        self.file
    }

    /// Explicit file offset. Current-position I/O is not advertised.
    #[verifier::when_used_as_spec(spec_offset)]
    pub fn offset(self) -> (result: u64)
        ensures
            result == self.spec_offset(),
    {
        self.offset
    }

    /// Specification counterpart of [`Self::offset`].
    pub open(crate) spec fn spec_offset(self) -> u64 {
        self.offset
    }

    /// Checked userspace buffer geometry.
    #[verifier::when_used_as_spec(spec_buffer)]
    pub fn buffer(self) -> (result: IoBuffer)
        ensures
            result == self.spec_buffer(),
    {
        self.buffer
    }

    /// Specification counterpart of [`Self::buffer`].
    pub open(crate) spec fn spec_buffer(self) -> IoBuffer {
        self.buffer
    }

    /// Fixed-buffer slot selected by `READ_FIXED`/`WRITE_FIXED`, if any.
    #[verifier::when_used_as_spec(spec_fixed_buffer)]
    pub fn fixed_buffer(self) -> (result: Option<BufferSlot>)
        ensures
            result == self.spec_fixed_buffer(),
    {
        self.buffer_slot
    }

    /// Specification counterpart of [`Self::fixed_buffer`].
    pub open(crate) spec fn spec_fixed_buffer(self) -> Option<BufferSlot> {
        self.buffer_slot
    }
}

/// One-shot POLL_ADD arguments after strict SQE decoding.
#[derive(Clone, Copy, Debug, Eq, PartialEq, Structural)]
pub struct PollRequest {
    pub(crate) file: FileTarget,
    pub(crate) events: u32,
}

impl PollRequest {
    /// File reference selected by `IOSQE_FIXED_FILE`.
    #[verifier::when_used_as_spec(spec_file)]
    pub fn file(self) -> (result: FileTarget)
        ensures
            result == self.spec_file(),
    {
        self.file
    }

    /// Specification counterpart of [`Self::file`].
    pub open(crate) spec fn spec_file(self) -> FileTarget {
        self.file
    }

    /// Native-endian Linux poll event bits copied from `poll32_events`.
    #[verifier::when_used_as_spec(spec_events)]
    pub fn events(self) -> (result: u32)
        ensures
            result == self.spec_events(),
    {
        self.events
    }

    /// Specification counterpart of [`Self::events`].
    pub open(crate) spec fn spec_events(self) -> u32 {
        self.events
    }
}

/// Operations implemented by the first pure core slice.
#[derive(Clone, Copy, Debug, Eq, PartialEq, Structural)]
pub enum SubmissionOperation {
    /// `IORING_OP_NOP` with no result injection.
    Nop,
    /// Positional `IORING_OP_READ`.
    Read(ReadWriteRequest),
    /// Positional `IORING_OP_WRITE`.
    Write(ReadWriteRequest),
    /// One-shot `IORING_OP_POLL_ADD`.
    PollAdd(PollRequest),
    /// Default single-target `IORING_OP_ASYNC_CANCEL`, matched by user data.
    AsyncCancel {
        /// `user_data` of the request to cancel.
        target_user_data: u64,
    },
}

impl SubmissionOperation {
    /// Operation class of the decoded arguments.
    pub open spec fn class(self) -> RequestOperation {
        match self {
            SubmissionOperation::Nop => RequestOperation::Nop,
            SubmissionOperation::Read(_) => RequestOperation::Read,
            SubmissionOperation::Write(_) => RequestOperation::Write,
            SubmissionOperation::PollAdd(_) => RequestOperation::PollAdd,
            SubmissionOperation::AsyncCancel { .. } => RequestOperation::AsyncCancel,
        }
    }
}

/// Little-endian 16-bit field at `offset`.
pub open spec fn le16(bytes: Seq<u8>, offset: int) -> int {
    bytes[offset] + bytes[offset + 1] * 0x100
}

/// Little-endian 32-bit field at `offset`.
pub open spec fn le32(bytes: Seq<u8>, offset: int) -> int {
    le16(bytes, offset) + le16(bytes, offset + 2) * 0x1_0000
}

/// Little-endian 64-bit field at `offset`.
pub open spec fn le64(bytes: Seq<u8>, offset: int) -> int {
    le32(bytes, offset) + le32(bytes, offset + 4) * 0x1_0000_0000
}

/// A generic submission flag is set that the operation does not allow.
pub open spec fn foreign_flags(bytes: Seq<u8>, allowed: u8) -> bool {
    bytes[1] & !allowed != 0
}

/// The submission names a registered file.
pub open spec fn fixed_file(bytes: Seq<u8>) -> bool {
    bytes[1] & IOSQE_FIXED_FILE != 0
}

/// The operation transfers through a registered buffer.
pub open spec fn fixed_buffer(opcode: u8) -> bool {
    opcode == IORING_OP_READ_FIXED || opcode == IORING_OP_WRITE_FIXED
}

/// Why a copied SQE is refused, if it is.
pub open spec fn sqe_refusal(bytes: Seq<u8>) -> Option<IoUringError> {
    let opcode = bytes[0];
    let ioprio = le16(bytes, 2);
    let fd = le32(bytes, 4);
    let offset = le64(bytes, 8);
    let address = le64(bytes, 16);
    let length = le32(bytes, 24);
    let operation_flags = le32(bytes, 28);
    let buffer_index = le16(bytes, 40);
    let personality = le16(bytes, 42);
    let splice_fd_in = le32(bytes, 44);
    match opcode_support(opcode) {
        SubmissionOpcodeSupport::KnownUnsupported => Some(IoUringError::UnsupportedOpcode),
        SubmissionOpcodeSupport::Unknown => Some(IoUringError::UnknownOpcode),
        SubmissionOpcodeSupport::Supported(RequestOperation::Nop) => if foreign_flags(bytes, 0) {
            Some(IoUringError::UnsupportedSubmissionFlags)
        } else if ioprio != 0 || personality != 0 || operation_flags != 0 {
            Some(IoUringError::UnsupportedOperationFlags)
        } else {
            None
        },
        SubmissionOpcodeSupport::Supported(RequestOperation::AsyncCancel) => if foreign_flags(
            bytes,
            0,
        ) {
            Some(IoUringError::UnsupportedSubmissionFlags)
        } else if ioprio != 0 || personality != 0 || offset != 0 || operation_flags != 0
            || splice_fd_in != 0 {
            Some(IoUringError::UnsupportedOperationFlags)
        } else {
            None
        },
        SubmissionOpcodeSupport::Supported(RequestOperation::PollAdd) => if foreign_flags(
            bytes,
            IOSQE_FIXED_FILE,
        ) {
            Some(IoUringError::UnsupportedSubmissionFlags)
        } else if ioprio != 0 || personality != 0 || buffer_index != 0 || offset != 0 || address
            != 0 || length != 0 {
            Some(IoUringError::UnsupportedOperationFlags)
        } else if fd >= 0x8000_0000 {
            Some(IoUringError::InvalidFileTarget)
        } else {
            None
        },
        SubmissionOpcodeSupport::Supported(_) => if foreign_flags(bytes, IOSQE_FIXED_FILE) {
            Some(IoUringError::UnsupportedSubmissionFlags)
        } else if ioprio != 0 || personality != 0 || (!fixed_buffer(opcode) && buffer_index != 0)
            || operation_flags != 0 || splice_fd_in != 0 {
            Some(IoUringError::UnsupportedOperationFlags)
        } else if offset == u64::MAX {
            Some(IoUringError::CurrentPositionUnsupported)
        } else if fd >= 0x8000_0000 {
            Some(IoUringError::InvalidFileTarget)
        } else if address + length > u64::MAX {
            Some(IoUringError::InvalidSubmission)
        } else {
            None
        },
    }
}

/// Read or write arguments of a copied SQE.
pub open(crate) spec fn transfer_arguments(bytes: Seq<u8>) -> ReadWriteRequest {
    ReadWriteRequest {
        file: FileTarget::named(le32(bytes, 4) as u32, fixed_file(bytes)),
        offset: le64(bytes, 8) as u64,
        buffer: IoBuffer { address: le64(bytes, 16) as u64, length: le32(bytes, 24) as u32 },
        buffer_slot: if fixed_buffer(bytes[0]) {
            Some(BufferSlot(le16(bytes, 40) as u32))
        } else {
            None
        },
    }
}

/// Decoded operation of a copied SQE that is not refused.
pub open(crate) spec fn sqe_operation(bytes: Seq<u8>) -> SubmissionOperation {
    match opcode_support(bytes[0]) {
        SubmissionOpcodeSupport::Supported(RequestOperation::Read) => SubmissionOperation::Read(
            transfer_arguments(bytes),
        ),
        SubmissionOpcodeSupport::Supported(RequestOperation::Write) => SubmissionOperation::Write(
            transfer_arguments(bytes),
        ),
        SubmissionOpcodeSupport::Supported(
            RequestOperation::PollAdd,
        ) => SubmissionOperation::PollAdd(
            PollRequest {
                file: FileTarget::named(le32(bytes, 4) as u32, fixed_file(bytes)),
                events: le32(bytes, 28) as u32,
            },
        ),
        SubmissionOpcodeSupport::Supported(
            RequestOperation::AsyncCancel,
        ) => SubmissionOperation::AsyncCancel { target_user_data: le64(bytes, 16) as u64 },
        _ => SubmissionOperation::Nop,
    }
}

/// One 64-byte SQE copied once and decoded into kernel-neutral values.
#[derive(Clone, Copy, Debug, Eq, PartialEq, Structural)]
pub struct ParsedSubmission {
    pub(crate) user_data: u64,
    pub(crate) operation: SubmissionOperation,
}

/// One private 64-byte SQE copy which preserves identity even when decoding
/// produces an operation-level error completion.
#[derive(Clone, Copy, Debug, Eq, PartialEq)]
pub struct CopiedSubmission {
    pub(crate) bytes: [u8; 64],
}

impl CopiedSubmission {
    /// The copied bytes.
    pub open(crate) spec fn bytes(&self) -> Seq<u8> {
        self.bytes@
    }

    /// Takes ownership of the adapter's single stable SQE copy.
    pub fn new(bytes: [u8; 64]) -> (result: Self)
        ensures
            result.bytes() == bytes@,
    {
        Self { bytes }
    }

    /// Raw operation byte used by probe/error classification.
    pub fn opcode(&self) -> (result: u8)
        ensures
            result == self.bytes()[0],
    {
        self.bytes[0]
    }

    /// Opaque user value available even if full operation decoding fails.
    pub fn user_data(&self) -> (result: u64)
        ensures
            result == le64(self.bytes(), 32),
    {
        read_u64(&self.bytes, 32)
    }

    /// Descriptor used to reserve terminal capacity before full decode.
    pub fn descriptor(&self) -> (result: RequestDescriptor)
        ensures
            result.user_data() == le64(self.bytes(), 32),
            result.operation() == match opcode_support(self.bytes()[0]) {
                SubmissionOpcodeSupport::Supported(operation) => operation,
                _ => RequestOperation::Rejected(self.bytes()[0]),
            },
    {
        let operation = match classify_submission_opcode(self.opcode()) {
            SubmissionOpcodeSupport::Supported(operation) => operation,
            SubmissionOpcodeSupport::KnownUnsupported
            | SubmissionOpcodeSupport::Unknown => RequestOperation::Rejected(self.opcode()),
        };
        RequestDescriptor::new(self.user_data(), operation)
    }

    /// Strictly decodes the private copy.
    pub fn parse(self) -> (result: Result<ParsedSubmission, IoUringError>)
        ensures
            match result {
                Ok(parsed) => {
                    &&& sqe_refusal(self.bytes()) is None
                    &&& parsed.user_data() == le64(self.bytes(), 32)
                    &&& parsed.operation() == sqe_operation(self.bytes())
                },
                Err(error) => sqe_refusal(self.bytes()) == Some(error),
            },
    {
        ParsedSubmission::parse_copied(&self.bytes)
    }
}

impl ParsedSubmission {
    /// Parses an already copied SQE without constructing a raw C union or enum.
    ///
    /// Integer fields use the little-endian Linux ABI of supported x86_64
    /// consumers. The parser accepts only the operation and flag subset that
    /// this crate can model.
    pub fn parse(bytes: [u8; 64]) -> (result: Result<Self, IoUringError>)
        ensures
            match result {
                Ok(parsed) => {
                    &&& sqe_refusal(bytes@) is None
                    &&& parsed.user_data() == le64(bytes@, 32)
                    &&& parsed.operation() == sqe_operation(bytes@)
                },
                Err(error) => sqe_refusal(bytes@) == Some(error),
            },
    {
        CopiedSubmission::new(bytes).parse()
    }

    fn parse_copied(bytes: &[u8; 64]) -> (result: Result<Self, IoUringError>)
        ensures
            match result {
                Ok(parsed) => {
                    &&& sqe_refusal(bytes@) is None
                    &&& parsed.user_data() == le64(bytes@, 32)
                    &&& parsed.operation() == sqe_operation(bytes@)
                },
                Err(error) => sqe_refusal(bytes@) == Some(error),
            },
    {
        let opcode = bytes[0];
        let sqe_flags = bytes[1];
        let ioprio = read_u16(bytes, 2);
        let fd = read_u32(bytes, 4);
        let offset = read_u64(bytes, 8);
        let address = read_u64(bytes, 16);
        let length = read_u32(bytes, 24);
        let operation_flags = read_u32(bytes, 28);
        let user_data = read_u64(bytes, 32);
        let buffer_index = read_u16(bytes, 40);
        let personality = read_u16(bytes, 42);
        let splice_fd_in = read_u32(bytes, 44);
        let operation = match classify_submission_opcode(opcode) {
            SubmissionOpcodeSupport::KnownUnsupported => {
                return Err(IoUringError::UnsupportedOpcode);
            },
            SubmissionOpcodeSupport::Unknown => {
                return Err(IoUringError::UnknownOpcode);
            },
            SubmissionOpcodeSupport::Supported(RequestOperation::Nop) => {
                require_submission_flags(sqe_flags, 0)?;
                if ioprio != 0 || personality != 0 || operation_flags != 0 {
                    return Err(IoUringError::UnsupportedOperationFlags);
                }
                SubmissionOperation::Nop
            },
            SubmissionOpcodeSupport::Supported(RequestOperation::PollAdd) => {
                require_submission_flags(sqe_flags, IOSQE_FIXED_FILE)?;
                if ioprio != 0 || personality != 0 || buffer_index != 0 || offset != 0 || address
                    != 0 || length != 0 {
                    return Err(IoUringError::UnsupportedOperationFlags);
                }
                let file = FileTarget::from_sqe(fd, sqe_flags & IOSQE_FIXED_FILE != 0)?;
                SubmissionOperation::PollAdd(PollRequest { file, events: operation_flags })
            },
            SubmissionOpcodeSupport::Supported(RequestOperation::AsyncCancel) => {
                require_submission_flags(sqe_flags, 0)?;
                if ioprio != 0 || personality != 0 || offset != 0 || operation_flags != 0
                    || splice_fd_in != 0 {
                    return Err(IoUringError::UnsupportedOperationFlags);
                }
                SubmissionOperation::AsyncCancel { target_user_data: address }
            },
            SubmissionOpcodeSupport::Supported(class) => {
                require_submission_flags(sqe_flags, IOSQE_FIXED_FILE)?;
                let through_slot = opcode == IORING_OP_READ_FIXED || opcode
                    == IORING_OP_WRITE_FIXED;
                if ioprio != 0 || personality != 0 || (!through_slot && buffer_index != 0)
                    || operation_flags != 0 || splice_fd_in != 0 {
                    return Err(IoUringError::UnsupportedOperationFlags);
                }
                if offset == u64::MAX {
                    return Err(IoUringError::CurrentPositionUnsupported);
                }
                let file = FileTarget::from_sqe(fd, sqe_flags & IOSQE_FIXED_FILE != 0)?;
                let buffer = IoBuffer::new(address, length)?;
                let buffer_slot = if through_slot {
                    Some(BufferSlot::new(buffer_index as u32))
                } else {
                    None
                };
                let request = ReadWriteRequest { file, offset, buffer, buffer_slot };
                if opcode == IORING_OP_READ_FIXED || opcode == IORING_OP_READ {
                    SubmissionOperation::Read(request)
                } else {
                    SubmissionOperation::Write(request)
                }
            },
        };
        Ok(Self { user_data, operation })
    }

    /// Opaque userspace value copied into the terminal CQE.
    #[verifier::when_used_as_spec(spec_user_data)]
    pub fn user_data(self) -> (result: u64)
        ensures
            result == self.spec_user_data(),
    {
        self.user_data
    }

    /// Specification counterpart of [`Self::user_data`].
    pub open(crate) spec fn spec_user_data(self) -> u64 {
        self.user_data
    }

    /// Strictly decoded operation arguments.
    #[verifier::when_used_as_spec(spec_operation)]
    pub fn operation(self) -> (result: SubmissionOperation)
        ensures
            result == self.spec_operation(),
    {
        self.operation
    }

    /// Specification counterpart of [`Self::operation`].
    pub open(crate) spec fn spec_operation(self) -> SubmissionOperation {
        self.operation
    }

    /// Produces the request-table descriptor used for cancellation matching.
    pub fn descriptor(self) -> (result: RequestDescriptor)
        ensures
            result.user_data() == self.user_data(),
            result.operation() == self.operation().class(),
    {
        let operation = match self.operation {
            SubmissionOperation::Nop => RequestOperation::Nop,
            SubmissionOperation::Read(_) => RequestOperation::Read,
            SubmissionOperation::Write(_) => RequestOperation::Write,
            SubmissionOperation::PollAdd(_) => RequestOperation::PollAdd,
            SubmissionOperation::AsyncCancel { .. } => RequestOperation::AsyncCancel,
        };
        RequestDescriptor::new(self.user_data, operation)
    }
}

/// The descriptor reserved before decoding and the one derived from the decoded
/// operation agree, and only opcodes outside the profile are refused for their
/// opcode.
pub proof fn classification_agrees_with_decoding(bytes: Seq<u8>)
    ensures
        sqe_refusal(bytes) is None ==> opcode_support(bytes[0])
            == SubmissionOpcodeSupport::Supported(sqe_operation(bytes).class()),
        opcode_support(bytes[0]) is Supported <==> sqe_refusal(bytes) != Some(
            IoUringError::UnsupportedOpcode,
        ) && sqe_refusal(bytes) != Some(IoUringError::UnknownOpcode),
{
}

fn require_submission_flags(bits: u8, allowed: u8) -> (result: Result<(), IoUringError>)
    ensures
        result == if bits & !allowed == 0 {
            Ok::<(), IoUringError>(())
        } else {
            Err(IoUringError::UnsupportedSubmissionFlags)
        },
{
    if bits & !allowed == 0 {
        Ok(())
    } else {
        Err(IoUringError::UnsupportedSubmissionFlags)
    }
}

fn read_u16(bytes: &[u8; 64], offset: usize) -> (result: u16)
    requires
        offset + 2 <= 64,
    ensures
        result == le16(bytes@, offset as int),
{
    bytes[offset] as u16 + bytes[offset + 1] as u16 * 0x100
}

fn read_u32(bytes: &[u8; 64], offset: usize) -> (result: u32)
    requires
        offset + 4 <= 64,
    ensures
        result == le32(bytes@, offset as int),
{
    read_u16(bytes, offset) as u32 + read_u16(bytes, offset + 2) as u32 * 0x1_0000
}

fn read_u64(bytes: &[u8; 64], offset: usize) -> (result: u64)
    requires
        offset + 8 <= 64,
    ensures
        result == le64(bytes@, offset as int),
{
    read_u32(bytes, offset) as u64 + read_u32(bytes, offset + 4) as u64 * 0x1_0000_0000
}

} // verus!
