//! Bounded io_uring setup, submission, request, and resource policy.
//!
//! The module performs no shared-memory access, usercopy, scheduling, or I/O.
//! A kernel adapter copies each 64-byte SQE exactly once after an acquire load
//! of the userspace SQ tail and parses that byte array here. On the completion
//! side it writes the complete CQE returned by the sole publication plan,
//! release-stores the plan's new CQ tail, and commits that transaction before
//! another publication or reap.

pub mod buffer;
pub mod buffer_laws;
pub mod enter;
pub mod error;
pub mod laws;
pub mod registration;
pub mod request;
pub mod request_laws;
pub mod resource;
pub mod resource_laws;
pub mod setup;
pub mod sqe;

pub use buffer::{
    BufferInstallError, BufferLeaseRelease, BufferLeaseReleaseError, BufferSlot, BufferTableId,
    BufferTableLifecycle, BufferTableProgress, RegisteredBufferLease, RegisteredBufferRange,
    RegisteredBufferTable, RegisteredBufferToken, RetiredBuffer,
};
pub use enter::{EnterFlags, EnterRequest, LegacySignalMask};
pub use error::IoUringError;
pub use registration::{
    RegistrationOperation, RegistrationRequest, IORING_MAX_PROBE_OPERATIONS,
    IORING_MAX_REGISTERED_BUFFERS, PINNED_IORING_REGISTER_LAST,
};
pub use request::{
    CancelSelector, CancellationMode, Completion, CompletionPublication, CompletionToken,
    IssuedRequest, PreparedRequest, RequestDescriptor, RequestId, RequestIssueError,
    RequestLifecycle, RequestOperation, RequestProgress, RequestRegistry, RequestReservation,
    RequestState, TerminalCause, TerminalPermit,
};
pub use resource::{
    FileInstallError, FileSlot, FileTableId, FileTableLifecycle, FileTableProgress, LeaseRelease,
    LeaseReleaseError, RegisteredFileLease, RegisteredFileTable, RegisteredFileToken, RetiredFile,
};
pub use setup::{
    CompletionQueueOffsets, FeatureFlags, MappingRegion, RingId, RingLayout, SetupFlags,
    SetupRequest, SubmissionQueueOffsets, CQE_BYTES, IORING_MAX_CQ_ENTRIES, IORING_MAX_ENTRIES,
    IORING_MAX_FIXED_FILES, IORING_OFF_CQ_RING, IORING_OFF_SQES, IORING_OFF_SQ_RING,
    RING_HEADER_BYTES, SQE_BYTES,
};
pub use sqe::{
    classify_submission_opcode, CopiedSubmission, FileTarget, IoBuffer, ParsedSubmission,
    PollRequest, ReadWriteRequest, SubmissionOpcodeSupport, SubmissionOperation,
    PINNED_IORING_OP_LAST,
};
