use crate::allocation::{allocation_granted, allocation_refused, reserved};
use crate::counting::{count, count_bounds, count_take_next, count_update};
use crate::io_uring::error::IoUringError;
use crate::io_uring::setup::{
    distance, mask_is_remainder, RingId, IORING_MAX_CQ_ENTRIES, IORING_MAX_ENTRIES,
};
use crate::powers::{is_power_of_two, power_of_two};
use vstd::prelude::*;

verus! {

/// Operation class retained for cancellation, diagnostics, and close policy.
#[derive(Clone, Copy, Debug, Eq, PartialEq, Structural)]
pub enum RequestOperation {
    /// `IORING_OP_NOP`.
    Nop,
    /// Positional `IORING_OP_READ`.
    Read,
    /// Positional `IORING_OP_WRITE`.
    Write,
    /// One-shot `IORING_OP_POLL_ADD`.
    PollAdd,
    /// `IORING_OP_ASYNC_CANCEL`.
    AsyncCancel,
    /// An SQE which must complete with a typed unsupported/invalid result.
    Rejected(u8),
}

impl RequestOperation {
    /// Cancellation contract published when the operation is handed to
    /// execution: only a poll can still be detached.
    pub open spec fn spec_cancellation_mode(self) -> CancellationMode {
        if self is PollAdd {
            CancellationMode::Cancellable
        } else {
            CancellationMode::Uncancellable
        }
    }

    #[verifier::when_used_as_spec(spec_cancellation_mode)]
    fn cancellation_mode(self) -> (result: CancellationMode)
        ensures
            result == self.spec_cancellation_mode(),
    {
        match self {
            RequestOperation::PollAdd => CancellationMode::Cancellable,
            RequestOperation::Nop
            | RequestOperation::Read
            | RequestOperation::Write
            | RequestOperation::AsyncCancel
            | RequestOperation::Rejected(_) => CancellationMode::Uncancellable,
        }
    }
}

/// Whether an issued execution mechanism can still honor terminal cancel.
#[derive(Clone, Copy, Debug, Eq, PartialEq, Structural)]
pub enum CancellationMode {
    /// The adapter can detach/abort the lower mechanism before completing
    /// `Cancelled` or `Closing`.
    Cancellable,
    /// Execution crossed an irreversible VFS/effect boundary; only its
    /// ordinary executor completion may win terminal ownership.
    Uncancellable,
}

/// Immutable request metadata copied before admission.
#[derive(Clone, Copy, Debug, Eq, PartialEq, Structural)]
pub struct RequestDescriptor {
    pub(crate) user_data: u64,
    pub(crate) operation: RequestOperation,
}

impl RequestDescriptor {
    /// Builds metadata for one copied SQE.
    pub fn new(user_data: u64, operation: RequestOperation) -> (result: Self)
        ensures
            result.user_data() == user_data,
            result.operation() == operation,
    {
        Self { user_data, operation }
    }

    /// Opaque value copied to the terminal CQE.
    #[verifier::when_used_as_spec(spec_user_data)]
    pub fn user_data(self) -> (result: u64)
        ensures
            result == self.spec_user_data(),
    {
        self.user_data
    }

    /// Specification counterpart of [`Self::user_data`].
    pub open(crate) spec fn spec_user_data(self) -> u64 {
        self.user_data
    }

    /// Operation class used by policy and diagnostics.
    #[verifier::when_used_as_spec(spec_operation)]
    pub fn operation(self) -> (result: RequestOperation)
        ensures
            result == self.spec_operation(),
    {
        self.operation
    }

    /// Specification counterpart of [`Self::operation`].
    pub open(crate) spec fn spec_operation(self) -> RequestOperation {
        self.operation
    }
}

/// Generation-scoped identity of one accepted request-table slot.
#[derive(Clone, Copy, Debug, Eq, Hash, Ord, PartialEq, PartialOrd, Structural)]
pub struct RequestId {
    pub(crate) ring: RingId,
    pub(crate) slot: u32,
    pub(crate) generation: u64,
}

impl RequestId {
    /// Ring which owns this request identity.
    #[verifier::when_used_as_spec(spec_ring)]
    pub fn ring(self) -> (result: RingId)
        ensures
            result == self.spec_ring(),
    {
        self.ring
    }

    /// Specification counterpart of [`Self::ring`].
    pub open(crate) spec fn spec_ring(self) -> RingId {
        self.ring
    }

    /// Bounded request-table slot.
    #[verifier::when_used_as_spec(spec_slot)]
    pub fn slot(self) -> (result: u32)
        ensures
            result == self.spec_slot(),
    {
        self.slot
    }

    /// Specification counterpart of [`Self::slot`].
    pub open(crate) spec fn spec_slot(self) -> u32 {
        self.slot
    }

    /// Nonzero generation of the occupied slot.
    #[verifier::when_used_as_spec(spec_generation)]
    pub fn generation(self) -> (result: u64)
        ensures
            result == self.spec_generation(),
    {
        self.generation
    }

    /// Specification counterpart of [`Self::generation`].
    pub open(crate) spec fn spec_generation(self) -> u64 {
        self.generation
    }
}

/// Externally visible state of one live request.
#[derive(Clone, Copy, Debug, Eq, PartialEq, Structural)]
pub enum RequestState {
    /// Terminal CQ credit and a slot are reserved, but SQ consumption has not
    /// yet been committed.
    Reserved,
    /// SQ consumption was committed and execution has not started.
    Prepared,
    /// The adapter handed the request to an execution mechanism with this
    /// cancellation contract.
    Issued(CancellationMode),
    /// Exactly one path owns the request's terminal transition.
    TerminalClaimed,
    /// A complete CQE is waiting for shared-ring publication.
    CompletionPending,
    /// A CQE plan is being written and release-published by the adapter.
    Publishing,
}

/// Ring admission and teardown phase.
#[derive(Clone, Copy, Debug, Eq, PartialEq, Structural)]
pub enum RequestLifecycle {
    /// New requests may reserve terminal capacity.
    Open,
    /// Admission is closed while existing work reaches a terminal state.
    Closing,
    /// No executor owns work; unpublished and published completions may be
    /// discarded because no userspace mapping can consume them.
    Draining,
    /// All request and completion ownership has ended.
    Closed,
}

/// Why a path won terminal ownership.
#[derive(Clone, Copy, Debug, Eq, PartialEq, Structural)]
pub enum TerminalCause {
    /// The execution mechanism produced its ordinary result.
    Completed,
    /// A cancellation request won before ordinary completion.
    Cancelled,
    /// Final-close processing won before ordinary completion.
    Closing,
    /// Admission succeeded but later preparation produced a terminal error.
    PreparationFailed,
}

/// Selector supported by the initial one-shot cancellation contract.
#[derive(Clone, Copy, Debug, Eq, PartialEq, Structural)]
pub enum CancelSelector {
    /// Select the oldest cancellable request with matching `user_data`.
    UserData(u64),
    /// Select one exact generation-scoped request.
    Request(RequestId),
}

/// One complete Linux CQE value, independent of shared-memory layout.
#[derive(Clone, Copy, Debug, Eq, PartialEq, Structural)]
pub struct Completion {
    pub(crate) user_data: u64,
    pub(crate) result: i32,
    pub(crate) flags: u32,
}

impl Completion {
    /// Builds a complete terminal CQE value.
    pub fn new(user_data: u64, result: i32, flags: u32) -> (completion: Self)
        ensures
            completion == Completion::of(user_data, result, flags),
            completion.user_data() == user_data,
            completion.result() == result,
            completion.flags() == flags,
    {
        Self { user_data, result, flags }
    }

    /// The completion made of these values.
    pub open(crate) spec fn of(user_data: u64, result: i32, flags: u32) -> Self {
        Completion { user_data, result, flags }
    }

    /// Opaque request value.
    #[verifier::when_used_as_spec(spec_user_data)]
    pub fn user_data(self) -> (result: u64)
        ensures
            result == self.spec_user_data(),
    {
        self.user_data
    }

    /// Specification counterpart of [`Self::user_data`].
    pub open(crate) spec fn spec_user_data(self) -> u64 {
        self.user_data
    }

    /// Linux CQE result, including a negated errno when appropriate.
    #[verifier::when_used_as_spec(spec_result)]
    pub fn result(self) -> (result: i32)
        ensures
            result == self.spec_result(),
    {
        self.result
    }

    /// Specification counterpart of [`Self::result`].
    pub open(crate) spec fn spec_result(self) -> i32 {
        self.result
    }

    /// Linux CQE flags.
    #[verifier::when_used_as_spec(spec_flags)]
    pub fn flags(self) -> (result: u32)
        ensures
            result == self.spec_flags(),
    {
        self.flags
    }

    /// Specification counterpart of [`Self::flags`].
    pub open(crate) spec fn spec_flags(self) -> u32 {
        self.flags
    }
}

/// Reversible pre-admission ownership of one request slot and terminal credit.
#[derive(Debug)]
#[must_use]
pub struct RequestReservation {
    pub(crate) id: RequestId,
    pub(crate) descriptor: RequestDescriptor,
}

impl RequestReservation {
    /// Identity reserved for the future accepted request.
    #[verifier::when_used_as_spec(spec_id)]
    pub fn id(&self) -> (result: RequestId)
        ensures
            result == self.spec_id(),
    {
        self.id
    }

    /// Specification counterpart of [`Self::id`].
    pub open(crate) spec fn spec_id(&self) -> RequestId {
        self.id
    }

    /// Immutable copied request metadata.
    #[verifier::when_used_as_spec(spec_descriptor)]
    pub fn descriptor(&self) -> (result: RequestDescriptor)
        ensures
            result == self.spec_descriptor(),
    {
        self.descriptor
    }

    /// Specification counterpart of [`Self::descriptor`].
    pub open(crate) spec fn spec_descriptor(&self) -> RequestDescriptor {
        self.descriptor
    }
}

/// Proof that SQ consumption was committed for one accepted request.
#[derive(Debug)]
#[must_use]
pub struct PreparedRequest {
    pub(crate) id: RequestId,
    pub(crate) descriptor: RequestDescriptor,
}

impl PreparedRequest {
    /// Exact accepted request identity.
    #[verifier::when_used_as_spec(spec_id)]
    pub fn id(&self) -> (result: RequestId)
        ensures
            result == self.spec_id(),
    {
        self.id
    }

    /// Specification counterpart of [`Self::id`].
    pub open(crate) spec fn spec_id(&self) -> RequestId {
        self.id
    }

    /// Immutable copied request metadata.
    #[verifier::when_used_as_spec(spec_descriptor)]
    pub fn descriptor(&self) -> (result: RequestDescriptor)
        ensures
            result == self.spec_descriptor(),
    {
        self.descriptor
    }

    /// Specification counterpart of [`Self::descriptor`].
    pub open(crate) spec fn spec_descriptor(&self) -> RequestDescriptor {
        self.descriptor
    }
}

/// Proof that an adapter execution mechanism owns one accepted request.
#[derive(Debug)]
#[must_use]
pub struct IssuedRequest {
    pub(crate) id: RequestId,
    pub(crate) descriptor: RequestDescriptor,
    pub(crate) cancellation_mode: CancellationMode,
}

impl IssuedRequest {
    /// Exact issued request identity suitable for an external completion key.
    #[verifier::when_used_as_spec(spec_id)]
    pub fn id(&self) -> (result: RequestId)
        ensures
            result == self.spec_id(),
    {
        self.id
    }

    /// Specification counterpart of [`Self::id`].
    pub open(crate) spec fn spec_id(&self) -> RequestId {
        self.id
    }

    /// Immutable copied request metadata.
    #[verifier::when_used_as_spec(spec_descriptor)]
    pub fn descriptor(&self) -> (result: RequestDescriptor)
        ensures
            result == self.spec_descriptor(),
    {
        self.descriptor
    }

    /// Specification counterpart of [`Self::descriptor`].
    pub open(crate) spec fn spec_descriptor(&self) -> RequestDescriptor {
        self.descriptor
    }

    /// Cancellation contract atomically published at execution hand-off.
    #[verifier::when_used_as_spec(spec_cancellation_mode)]
    pub fn cancellation_mode(&self) -> (result: CancellationMode)
        ensures
            result == self.spec_cancellation_mode(),
    {
        self.cancellation_mode
    }

    /// Specification counterpart of [`Self::cancellation_mode`].
    pub open(crate) spec fn spec_cancellation_mode(&self) -> CancellationMode {
        self.cancellation_mode
    }
}

/// Failed execution hand-off with the prepared proof returned for cleanup.
#[derive(Debug)]
pub struct RequestIssueError {
    pub(crate) error: IoUringError,
    pub(crate) prepared: PreparedRequest,
}

impl RequestIssueError {
    /// Typed race/stale-state failure.
    #[verifier::when_used_as_spec(spec_error)]
    pub fn error(&self) -> (result: IoUringError)
        ensures
            result == self.spec_error(),
    {
        self.error
    }

    /// Specification counterpart of [`Self::error`].
    pub open(crate) spec fn spec_error(&self) -> IoUringError {
        self.error
    }

    /// Prepared identity and descriptor which were not handed to execution.
    #[verifier::when_used_as_spec(spec_prepared)]
    pub fn prepared(&self) -> (result: &PreparedRequest)
        ensures
            result == self.spec_prepared(),
    {
        &self.prepared
    }

    /// Specification counterpart of [`Self::prepared`].
    pub open(crate) spec fn spec_prepared(&self) -> &PreparedRequest {
        &self.prepared
    }

    /// Recovers the proof for adapter-side prepared-resource rollback.
    #[verifier::when_used_as_spec(spec_into_prepared)]
    pub fn into_prepared(self) -> (result: PreparedRequest)
        ensures
            result == self.spec_into_prepared(),
    {
        self.prepared
    }

    /// Specification counterpart of [`Self::into_prepared`].
    pub open(crate) spec fn spec_into_prepared(self) -> PreparedRequest {
        self.prepared
    }
}

/// Unique ownership of one request's terminal transition.
#[derive(Debug)]
#[must_use]
pub struct TerminalPermit {
    pub(crate) id: RequestId,
    pub(crate) descriptor: RequestDescriptor,
    pub(crate) cause: TerminalCause,
}

impl TerminalPermit {
    /// Request whose terminal transition is owned.
    #[verifier::when_used_as_spec(spec_id)]
    pub fn id(&self) -> (result: RequestId)
        ensures
            result == self.spec_id(),
    {
        self.id
    }

    /// Specification counterpart of [`Self::id`].
    pub open(crate) spec fn spec_id(&self) -> RequestId {
        self.id
    }

    /// Immutable metadata used to build its CQE.
    #[verifier::when_used_as_spec(spec_descriptor)]
    pub fn descriptor(&self) -> (result: RequestDescriptor)
        ensures
            result == self.spec_descriptor(),
    {
        self.descriptor
    }

    /// Specification counterpart of [`Self::descriptor`].
    pub open(crate) spec fn spec_descriptor(&self) -> RequestDescriptor {
        self.descriptor
    }

    /// Winning terminal path.
    #[verifier::when_used_as_spec(spec_cause)]
    pub fn cause(&self) -> (result: TerminalCause)
        ensures
            result == self.spec_cause(),
    {
        self.cause
    }

    /// Specification counterpart of [`Self::cause`].
    pub open(crate) spec fn spec_cause(&self) -> TerminalCause {
        self.cause
    }
}

/// Generation-safe handle for one complete but unpublished CQE.
#[derive(Debug)]
#[must_use]
pub struct CompletionToken {
    pub(crate) id: RequestId,
}

impl CompletionToken {
    /// Request represented by the pending CQE.
    #[verifier::when_used_as_spec(spec_id)]
    pub fn id(&self) -> (result: RequestId)
        ensures
            result == self.spec_id(),
    {
        self.id
    }

    /// Specification counterpart of [`Self::id`].
    pub open(crate) spec fn spec_id(&self) -> RequestId {
        self.id
    }
}

/// Lock-external plan for one CQE write followed by CQ-tail release-store.
#[derive(Debug)]
#[must_use]
pub struct CompletionPublication {
    pub(crate) id: RequestId,
    pub(crate) completion: Completion,
    pub(crate) slot: u32,
    pub(crate) new_tail: u32,
}

impl CompletionPublication {
    /// Complete value to write before publishing the new tail.
    #[verifier::when_used_as_spec(spec_completion)]
    pub fn completion(&self) -> (result: Completion)
        ensures
            result == self.spec_completion(),
    {
        self.completion
    }

    /// Specification counterpart of [`Self::completion`].
    pub open(crate) spec fn spec_completion(&self) -> Completion {
        self.completion
    }

    /// CQ array slot at which the complete value must be written.
    #[verifier::when_used_as_spec(spec_slot)]
    pub fn slot(&self) -> (result: u32)
        ensures
            result == self.spec_slot(),
    {
        self.slot
    }

    /// Specification counterpart of [`Self::slot`].
    pub open(crate) spec fn spec_slot(&self) -> u32 {
        self.slot
    }

    /// Monotonic wrapping CQ tail to release-store after the CQE write.
    #[verifier::when_used_as_spec(spec_new_tail)]
    pub fn new_tail(&self) -> (result: u32)
        ensures
            result == self.spec_new_tail(),
    {
        self.new_tail
    }

    /// Specification counterpart of [`Self::new_tail`].
    pub open(crate) spec fn spec_new_tail(&self) -> u32 {
        self.new_tail
    }

    /// Request whose completion is being published.
    pub open(crate) spec fn id(&self) -> RequestId {
        self.id
    }
}

/// Bounded snapshot used by close and diagnostics.
#[derive(Clone, Copy, Debug, Eq, PartialEq, Structural)]
pub struct RequestProgress {
    pub(crate) lifecycle: RequestLifecycle,
    pub(crate) reserved: u32,
    pub(crate) prepared: u32,
    pub(crate) issued: u32,
    pub(crate) uncancellable_issued: u32,
    pub(crate) terminal_claimed: u32,
    pub(crate) completion_pending: u32,
    pub(crate) publishing: u32,
    pub(crate) terminal_credits: u32,
    pub(crate) published: u32,
}

impl RequestProgress {
    /// Current admission/teardown phase.
    #[verifier::when_used_as_spec(spec_lifecycle)]
    pub fn lifecycle(self) -> (result: RequestLifecycle)
        ensures
            result == self.spec_lifecycle(),
    {
        self.lifecycle
    }

    /// Specification counterpart of [`Self::lifecycle`].
    pub open(crate) spec fn spec_lifecycle(self) -> RequestLifecycle {
        self.lifecycle
    }

    /// Reversible reservations not yet reflected in SQ head.
    #[verifier::when_used_as_spec(spec_reserved)]
    pub fn reserved(self) -> (result: u32)
        ensures
            result == self.spec_reserved(),
    {
        self.reserved
    }

    /// Specification counterpart of [`Self::reserved`].
    pub open(crate) spec fn spec_reserved(self) -> u32 {
        self.reserved
    }

    /// Accepted requests not handed to execution.
    #[verifier::when_used_as_spec(spec_prepared)]
    pub fn prepared(self) -> (result: u32)
        ensures
            result == self.spec_prepared(),
    {
        self.prepared
    }

    /// Specification counterpart of [`Self::prepared`].
    pub open(crate) spec fn spec_prepared(self) -> u32 {
        self.prepared
    }

    /// Requests owned by an external execution mechanism.
    #[verifier::when_used_as_spec(spec_issued)]
    pub fn issued(self) -> (result: u32)
        ensures
            result == self.spec_issued(),
    {
        self.issued
    }

    /// Specification counterpart of [`Self::issued`].
    pub open(crate) spec fn spec_issued(self) -> u32 {
        self.issued
    }

    /// Issued requests which close/cancel must wait for rather than complete.
    #[verifier::when_used_as_spec(spec_uncancellable_issued)]
    pub fn uncancellable_issued(self) -> (result: u32)
        ensures
            result == self.spec_uncancellable_issued(),
    {
        self.uncancellable_issued
    }

    /// Specification counterpart of [`Self::uncancellable_issued`].
    pub open(crate) spec fn spec_uncancellable_issued(self) -> u32 {
        self.uncancellable_issued
    }

    /// Requests with a winning terminal path but no complete CQE yet.
    #[verifier::when_used_as_spec(spec_terminal_claimed)]
    pub fn terminal_claimed(self) -> (result: u32)
        ensures
            result == self.spec_terminal_claimed(),
    {
        self.terminal_claimed
    }

    /// Specification counterpart of [`Self::terminal_claimed`].
    pub open(crate) spec fn spec_terminal_claimed(self) -> u32 {
        self.terminal_claimed
    }

    /// Complete CQEs not yet published to the shared ring.
    #[verifier::when_used_as_spec(spec_completion_pending)]
    pub fn completion_pending(self) -> (result: u32)
        ensures
            result == self.spec_completion_pending(),
    {
        self.completion_pending
    }

    /// Specification counterpart of [`Self::completion_pending`].
    pub open(crate) spec fn spec_completion_pending(self) -> u32 {
        self.completion_pending
    }

    /// CQE publication transactions currently outside the policy core.
    #[verifier::when_used_as_spec(spec_publishing)]
    pub fn publishing(self) -> (result: u32)
        ensures
            result == self.spec_publishing(),
    {
        self.publishing
    }

    /// Specification counterpart of [`Self::publishing`].
    pub open(crate) spec fn spec_publishing(self) -> u32 {
        self.publishing
    }

    /// All charged terminal credits, including published CQEs not yet reaped.
    #[verifier::when_used_as_spec(spec_terminal_credits)]
    pub fn terminal_credits(self) -> (result: u32)
        ensures
            result == self.spec_terminal_credits(),
    {
        self.terminal_credits
    }

    /// Specification counterpart of [`Self::terminal_credits`].
    pub open(crate) spec fn spec_terminal_credits(self) -> u32 {
        self.terminal_credits
    }

    /// CQEs visible between the validated CQ head and the core's CQ tail.
    #[verifier::when_used_as_spec(spec_published)]
    pub fn published(self) -> (result: u32)
        ensures
            result == self.spec_published(),
    {
        self.published
    }

    /// Specification counterpart of [`Self::published`].
    pub open(crate) spec fn spec_published(self) -> u32 {
        self.published
    }

    /// Every request-table slot has reached its terminal publication/drain.
    pub fn requests_empty(self) -> (result: bool)
        ensures
            result == (self.reserved() == 0 && self.prepared() == 0 && self.issued() == 0
                && self.terminal_claimed() == 0 && self.completion_pending() == 0
                && self.publishing() == 0),
    {
        self.reserved == 0 && self.prepared == 0 && self.issued == 0 && self.terminal_claimed == 0
            && self.completion_pending == 0 && self.publishing == 0
    }
}

/// Internal lifecycle of one request.
#[derive(Clone, Copy, Debug, Eq, PartialEq, Structural)]
pub enum EntryState {
    /// Slot and credit are reserved.
    Reserved,
    /// SQ consumption was committed.
    Prepared,
    /// An execution mechanism owns the request.
    Issued(CancellationMode),
    /// One path owns the terminal transition.
    TerminalClaimed(TerminalCause),
    /// A complete CQE waits for publication.
    CompletionPending(Completion),
    /// The CQE is being written by the adapter.
    Publishing(Completion),
}

impl EntryState {
    /// The completion recorded for the request, from the moment its terminal
    /// owner finished it.
    pub open spec fn completion(self) -> Option<Completion> {
        match self {
            EntryState::CompletionPending(completion) => Some(completion),
            EntryState::Publishing(completion) => Some(completion),
            _ => None,
        }
    }

    /// Externally visible form of the state.
    pub open spec fn spec_public(self) -> RequestState {
        match self {
            EntryState::Reserved => RequestState::Reserved,
            EntryState::Prepared => RequestState::Prepared,
            EntryState::Issued(mode) => RequestState::Issued(mode),
            EntryState::TerminalClaimed(_) => RequestState::TerminalClaimed,
            EntryState::CompletionPending(_) => RequestState::CompletionPending,
            EntryState::Publishing(_) => RequestState::Publishing,
        }
    }

    #[verifier::when_used_as_spec(spec_public)]
    fn public(self) -> (result: RequestState)
        ensures
            result == self.spec_public(),
    {
        match self {
            EntryState::Reserved => RequestState::Reserved,
            EntryState::Prepared => RequestState::Prepared,
            EntryState::Issued(mode) => RequestState::Issued(mode),
            EntryState::TerminalClaimed(_) => RequestState::TerminalClaimed,
            EntryState::CompletionPending(_) => RequestState::CompletionPending,
            EntryState::Publishing(_) => RequestState::Publishing,
        }
    }

    /// The terminal transition already has an owner.
    pub open spec fn terminal(self) -> bool {
        self is TerminalClaimed || self is CompletionPending || self is Publishing
    }

    /// A cancel request can still win the terminal transition.
    pub open spec fn cancellable(self) -> bool {
        self is Prepared || self == EntryState::Issued(CancellationMode::Cancellable)
    }

    /// What a claim of the terminal transition answers.
    pub open spec fn claim(self, cause: TerminalCause) -> Result<(), IoUringError> {
        if self.terminal() {
            Err(IoUringError::TerminalAlreadyClaimed)
        } else if self is Reserved {
            Err(IoUringError::InvalidRequestState)
        } else if self == EntryState::Issued(CancellationMode::Uncancellable) && cause
            != TerminalCause::Completed {
            Err(IoUringError::RequestUncancellable)
        } else {
            Ok(())
        }
    }
}

/// One live request.
#[derive(Clone, Copy, Debug, Eq, PartialEq, Structural)]
pub struct RequestEntry {
    /// Immutable copied metadata.
    pub descriptor: RequestDescriptor,
    /// Admission order.
    pub sequence: u64,
    /// Current state.
    pub state: EntryState,
}

/// One request-table slot. Without a generation it is exhausted for good.
#[derive(Clone, Copy, Debug)]
pub struct RequestSlot {
    /// Generation of the current or next request in the slot.
    pub generation: Option<u64>,
    /// Current request.
    pub entry: Option<RequestEntry>,
}

impl RequestSlot {
    /// The slot holds a request.
    pub open spec fn live(self) -> bool {
        self.entry is Some
    }

    /// The slot can take a request.
    pub open spec fn available(self) -> bool {
        self.entry is None && self.generation is Some
    }

    /// The slot holds a request in a state selected by `p`.
    pub open spec fn is_in(self, p: spec_fn(EntryState) -> bool) -> bool {
        self.entry matches Some(entry) && p(entry.state)
    }
}

/// `b` is the same generation as `a` or a later one.
pub open spec fn not_before(a: Option<u64>, b: Option<u64>) -> bool {
    match (a, b) {
        (_, None) => true,
        (None, Some(_)) => false,
        (Some(x), Some(y)) => x <= y,
    }
}

/// The generation after `generation`, if there is one.
pub open spec fn successor(generation: u64) -> Option<u64> {
    if generation == u64::MAX {
        None
    } else {
        Some((generation + 1) as u64)
    }
}

/// Returns the generation after `generation`; generations never wrap.
pub fn next_generation(generation: u64) -> (result: Option<u64>)
    ensures
        result == successor(generation),
{
    if generation == u64::MAX {
        None
    } else {
        Some(generation + 1)
    }
}

/// Mathematical model of a [`RequestRegistry`].
#[verifier::ext_equal]
pub struct RequestRegistryState {
    /// Ring scope of every token.
    pub ring: RingId,
    /// Request slots.
    pub slots: Seq<RequestSlot>,
    /// Available slots; the last one is used next.
    pub free: Seq<u32>,
    /// Next admission sequence, if one is left.
    pub next_sequence: Option<u64>,
    /// Admission and teardown phase.
    pub lifecycle: RequestLifecycle,
    /// Completion-queue depth.
    pub cq_entries: u32,
    /// Last validated userspace CQ head.
    pub cq_head: u32,
    /// Core-owned CQ tail.
    pub cq_tail: u32,
    /// Charged terminal credits.
    pub terminal_credits: u32,
    /// Request whose CQE is being written, if any.
    pub in_flight: Option<RequestId>,
}

impl RequestRegistryState {
    /// The state of a registry without requests.
    pub open spec fn empty(ring: RingId, capacity: u32, cq_entries: u32) -> Self {
        RequestRegistryState {
            ring,
            slots: Seq::new(
                capacity as nat,
                |i: int| RequestSlot { generation: Some(1), entry: None },
            ),
            free: Seq::new(capacity as nat, |i: int| (capacity - 1 - i) as u32),
            next_sequence: Some(1),
            lifecycle: RequestLifecycle::Open,
            cq_entries,
            cq_head: 0,
            cq_tail: 0,
            terminal_credits: 0,
            in_flight: None,
        }
    }

    /// The identity names a live request of this registry.
    pub open spec fn knows(self, id: RequestId) -> bool {
        &&& id.ring() == self.ring
        &&& id.slot() < self.slots.len()
        &&& self.slots[id.slot() as int].generation == Some(id.generation())
        &&& self.slots[id.slot() as int].entry is Some
    }

    /// The request that a known identity names.
    pub open spec fn entry(self, id: RequestId) -> RequestEntry {
        self.slots[id.slot() as int].entry->0
    }

    /// Published completions that userspace has not consumed.
    pub open spec fn published(self) -> int {
        distance(self.cq_head, self.cq_tail)
    }

    /// Requests in a state selected by `p`.
    pub open spec fn number_in(self, p: spec_fn(EntryState) -> bool) -> nat {
        count(self.slots, |slot: RequestSlot| slot.is_in(p))
    }

    /// Live requests.
    pub open spec fn number_live(self) -> nat {
        count(self.slots, |slot: RequestSlot| slot.live())
    }

    /// The state with one request's state replaced.
    pub open spec fn with_state(self, id: RequestId, state: EntryState) -> Self {
        let slot = self.slots[id.slot() as int];
        RequestRegistryState {
            slots: self.slots.update(
                id.slot() as int,
                RequestSlot { entry: Some(RequestEntry { state, ..slot.entry->0 }), ..slot },
            ),
            ..self
        }
    }

    /// The state once the request left its slot, which moves on to its next
    /// generation or is exhausted.
    pub open spec fn cleared(self, id: RequestId) -> Self {
        RequestRegistryState {
            slots: self.slots.update(
                id.slot() as int,
                RequestSlot { generation: successor(id.generation()), entry: None },
            ),
            free: if id.generation() == u64::MAX {
                self.free
            } else {
                self.free.push(id.slot())
            },
            ..self
        }
    }

    /// The state with credits returned.
    pub open spec fn refunded(self, credits: int) -> Self {
        RequestRegistryState {
            terminal_credits: (self.terminal_credits - credits) as u32,
            ..self
        }
    }

    /// The identity given to the next reserved request.
    pub open(crate) spec fn next_id(self) -> RequestId {
        let slot = self.free.last();
        RequestId { ring: self.ring, slot, generation: self.slots[slot as int].generation->0 }
    }

    /// Why a reservation is refused, if it is.
    pub open spec fn reserve_refusal(self) -> Option<IoUringError> {
        match self.lifecycle {
            RequestLifecycle::Closing => Some(IoUringError::Closing),
            RequestLifecycle::Draining => Some(IoUringError::Draining),
            RequestLifecycle::Closed => Some(IoUringError::Closed),
            RequestLifecycle::Open => if self.terminal_credits >= self.cq_entries {
                Some(IoUringError::CompletionQueueFull)
            } else if self.next_sequence is None {
                Some(IoUringError::GenerationExhausted)
            } else if self.free.len() == 0 {
                if self.number_live() > 0 {
                    Some(IoUringError::RequestCapacityExceeded)
                } else {
                    Some(IoUringError::GenerationExhausted)
                }
            } else {
                None
            },
        }
    }

    /// The state once a request was reserved.
    pub open spec fn reserved(self, descriptor: RequestDescriptor) -> Self {
        let slot = self.free.last() as int;
        let sequence = self.next_sequence->0;
        RequestRegistryState {
            slots: self.slots.update(
                slot,
                RequestSlot {
                    entry: Some(
                        RequestEntry { descriptor, sequence, state: EntryState::Reserved },
                    ),
                    ..self.slots[slot]
                },
            ),
            free: self.free.drop_last(),
            next_sequence: successor(sequence),
            terminal_credits: (self.terminal_credits + 1) as u32,
            ..self
        }
    }

    /// A cancel request by user data may select this slot.
    pub open(crate) spec fn selectable(
        self,
        slot: int,
        user_data: u64,
        exclude: Option<RequestId>,
    ) -> bool {
        &&& 0 <= slot < self.slots.len()
        &&& self.slots[slot].entry matches Some(entry)
        &&& entry.descriptor.user_data() == user_data
        &&& entry.state.cancellable()
        &&& exclude != Some(self.id_at(slot))
    }

    /// The identity of the request in a slot.
    pub open(crate) spec fn id_at(self, slot: int) -> RequestId {
        RequestId {
            ring: self.ring,
            slot: slot as u32,
            generation: self.slots[slot].generation->0,
        }
    }

    /// What holds of every registry.
    pub open spec fn wf(self) -> bool {
        &&& 1 <= self.slots.len() <= IORING_MAX_ENTRIES
        &&& power_of_two(self.cq_entries as int)
        &&& self.cq_entries <= IORING_MAX_CQ_ENTRIES
        // every credit is held by a live request or a published completion
        &&& self.terminal_credits == self.number_live() + self.published()
        &&& self.terminal_credits <= self.cq_entries
        &&& self.slots_wf()
        &&& self.free_wf()
        &&& self.publication_wf()
        &&& self.lifecycle == RequestLifecycle::Draining ==> forall|i: int|
            0 <= i < self.slots.len() && (#[trigger] self.slots[i]).entry is Some
                ==> self.slots[i].entry->0.state is CompletionPending
        &&& self.lifecycle == RequestLifecycle::Closed ==> self.terminal_credits == 0
    }

    /// Live requests have a generation and distinct earlier sequences.
    pub open spec fn slots_wf(self) -> bool {
        &&& forall|i: int|
            0 <= i < self.slots.len() && (#[trigger] self.slots[i]).entry is Some ==> {
                &&& self.slots[i].generation is Some
                &&& self.next_sequence matches Some(next) ==> self.slots[i].entry->0.sequence < next
            }
        &&& forall|i: int, j: int|
            #![trigger self.slots[i], self.slots[j]]
            0 <= i < j < self.slots.len() && self.slots[i].entry is Some
                && self.slots[j].entry is Some ==> self.slots[i].entry->0.sequence
                != self.slots[j].entry->0.sequence
    }

    /// The free list holds each available slot exactly once.
    pub open spec fn free_wf(self) -> bool {
        &&& forall|k: int|
            0 <= k < self.free.len() ==> (#[trigger] self.free[k]) < self.slots.len()
                && self.slots[self.free[k] as int].available()
        &&& forall|k: int, m: int|
            #![trigger self.free[k], self.free[m]]
            0 <= k < m < self.free.len() ==> self.free[k] != self.free[m]
        &&& forall|i: int|
            0 <= i < self.slots.len() && (#[trigger] self.slots[i]).available()
                ==> self.free.contains(i as u32)
    }

    /// At most one completion is being published, the recorded one.
    pub open spec fn publication_wf(self) -> bool {
        &&& self.in_flight matches Some(id) ==> self.knows(id) && self.entry(id).state is Publishing
        &&& forall|i: int|
            0 <= i < self.slots.len() && (#[trigger] self.slots[i]).entry is Some
                && self.slots[i].entry->0.state is Publishing ==> self.in_flight is Some
                && self.in_flight->0.slot() == i
    }

    /// Every slot kept its generation or moved to a later one, so an identity
    /// that expired stays expired. A request leaves its slot only together with
    /// its generation, and is the same request until it does, with the completion
    /// that was recorded for it.
    pub open spec fn advances_to(self, next: Self) -> bool {
        &&& next.ring == self.ring
        &&& next.slots.len() == self.slots.len()
        &&& next.cq_entries == self.cq_entries
        &&& forall|i: int|
            0 <= i < self.slots.len() ==> {
                &&& not_before((#[trigger] self.slots[i]).generation, next.slots[i].generation)
                &&& self.slots[i].entry is Some && next.slots[i].generation
                    == self.slots[i].generation ==> {
                    &&& next.slots[i].entry is Some
                    &&& next.slots[i].entry->0.descriptor == self.slots[i].entry->0.descriptor
                    &&& next.slots[i].entry->0.sequence == self.slots[i].entry->0.sequence
                    &&& self.slots[i].entry->0.state.completion() is Some
                        ==> next.slots[i].entry->0.state.completion()
                        == self.slots[i].entry->0.state.completion()
                }
            }
    }

    /// A publication that is under way stays so: the same completion, for the
    /// same place in the queue.
    pub open spec fn keeps_publication(self, next: Self) -> bool {
        self.in_flight matches Some(id) ==> {
            &&& next.in_flight == Some(id)
            &&& next.knows(id)
            &&& next.entry(id).state == self.entry(id).state
            &&& next.cq_head == self.cq_head
            &&& next.cq_tail == self.cq_tail
        }
    }

    /// Why the completion of `id` is not published now, if it is not.
    pub open spec fn publish_refusal(self, id: RequestId) -> Option<IoUringError> {
        if self.lifecycle == RequestLifecycle::Draining {
            Some(IoUringError::Draining)
        } else if self.lifecycle == RequestLifecycle::Closed {
            Some(IoUringError::Closed)
        } else if self.in_flight is Some {
            Some(IoUringError::PublicationInFlight)
        } else if !self.knows(id) {
            Some(IoUringError::UnknownRequest)
        } else if !(self.entry(id).state is CompletionPending) {
            Some(IoUringError::CompletionNotPending)
        } else {
            None
        }
    }

    /// Why consumption up to `user_head` is not accepted, if it is not.
    pub open spec fn observe_refusal(self, user_head: u32) -> Option<IoUringError> {
        if self.in_flight is Some {
            Some(IoUringError::PublicationInFlight)
        } else if distance(self.cq_head, user_head) > self.published() {
            Some(IoUringError::CorruptCompletionHead)
        } else {
            None
        }
    }

    /// The identity was given to a request: its slot has moved past it, or the
    /// request is still there.
    pub open spec fn spent(self, id: RequestId) -> bool {
        self.expired(id) || self.knows(id)
    }

    /// The slot of the identity has moved past its generation.
    pub open spec fn expired(self, id: RequestId) -> bool {
        &&& id.slot() < self.slots.len()
        &&& match self.slots[id.slot() as int].generation {
            Some(generation) => id.generation() < generation,
            None => true,
        }
    }
}

/// An expired request identity is unknown, and stays expired whatever happens
/// next: generations never wrap or return.
pub proof fn expired_identities_stay_expired(
    state: RequestRegistryState,
    next: RequestRegistryState,
    id: RequestId,
)
    requires
        state.advances_to(next),
        state.expired(id),
    ensures
        !state.knows(id),
        next.expired(id),
        !next.knows(id),
{
    assert(not_before(
        state.slots[id.slot() as int].generation,
        next.slots[id.slot() as int].generation,
    ));
}

/// Advancing is transitive, so what holds of one call holds of any number.
pub proof fn request_history_composes(
    first: RequestRegistryState,
    second: RequestRegistryState,
    third: RequestRegistryState,
)
    requires
        first.advances_to(second),
        second.advances_to(third),
    ensures
        first.advances_to(third),
{
    assert forall|i: int| 0 <= i < first.slots.len() implies {
        &&& not_before((#[trigger] first.slots[i]).generation, third.slots[i].generation)
        &&& first.slots[i].entry is Some && third.slots[i].generation == first.slots[i].generation
            ==> {
            &&& third.slots[i].entry is Some
            &&& third.slots[i].entry->0.descriptor == first.slots[i].entry->0.descriptor
            &&& third.slots[i].entry->0.sequence == first.slots[i].entry->0.sequence
            &&& first.slots[i].entry->0.state.completion() is Some
                ==> third.slots[i].entry->0.state.completion()
                == first.slots[i].entry->0.state.completion()
        }
    } by {
        assert(not_before(second.slots[i].generation, third.slots[i].generation));
    }
}

/// An identity that was given to a request stays given, whatever happens next.
pub proof fn spent_identities_stay_spent(
    state: RequestRegistryState,
    next: RequestRegistryState,
    id: RequestId,
)
    requires
        state.advances_to(next),
        state.spent(id),
    ensures
        next.spent(id),
{
    assert(not_before(
        state.slots[id.slot() as int].generation,
        next.slots[id.slot() as int].generation,
    ));
}

/// No two reservations of one registry share an identity, whatever happens
/// between them. Both name the registry's ring, and a slot that is used again
/// has a later generation.
pub proof fn reservations_never_share_an_identity(
    first: RequestRegistryState,
    descriptor: RequestDescriptor,
    second: RequestRegistryState,
)
    requires
        first.wf(),
        first.reserve_refusal() is None,
        first.reserved(descriptor).advances_to(second),
        second.wf(),
        second.reserve_refusal() is None,
    ensures
        first.next_id() != second.next_id(),
        first.next_id().ring() == first.ring,
        second.next_id().ring() == first.ring,
        first.next_id().slot() == second.next_id().slot() ==> first.next_id().generation()
            < second.next_id().generation(),
{
    reserving_a_slot(first, descriptor);
    let u = first.next_id();
    let v = second.next_id();
    spent_identities_stay_spent(first.reserved(descriptor), second, u);
    assert(first.slots[first.free[first.free.len() - 1] as int].available());
    assert(second.slots[second.free[second.free.len() - 1] as int].available());
    assert(!second.spent(v));
}

/// A request that left its slot is unknown forever, also when the slot is used
/// again: rolling back, publishing and discarding a request all leave the slots
/// as `cleared` has them.
pub proof fn left_requests_stay_unknown(
    state: RequestRegistryState,
    id: RequestId,
    left: RequestRegistryState,
    later: RequestRegistryState,
)
    requires
        state.wf(),
        state.knows(id),
        left.slots == state.cleared(id).slots,
        left.advances_to(later),
    ensures
        left.expired(id),
        later.expired(id),
        !left.knows(id),
        !later.knows(id),
{
    clearing_a_slot(state, id);
    assert(left.expired(id));
    expired_identities_stay_expired(left, later, id);
}

/// What a request's terminal owner recorded is what is published: from
/// finishing the request on, whatever is called, the request is unknown once it
/// left, and until it does it holds the same completion, of its own user data
/// and the result and flags it was finished with. Where its completion is
/// published, that is the one, whether for the first time or after a rollback.
pub proof fn recorded_completions_are_published(
    before: RequestRegistryState,
    id: RequestId,
    result: i32,
    flags: u32,
    later: RequestRegistryState,
)
    requires
        before.wf(),
        before.knows(id),
        before.with_state(
            id,
            EntryState::CompletionPending(
                Completion::of(before.entry(id).descriptor.user_data(), result, flags),
            ),
        ).advances_to(later),
    ensures
        ({
            let completion = Completion::of(
                before.entry(id).descriptor.user_data(),
                result,
                flags,
            );
            &&& later.spent(id)
            &&& later.knows(id) ==> later.entry(id).state.completion() == Some(completion)
            &&& later.knows(id) ==> later.entry(id).descriptor == before.entry(id).descriptor
            &&& later.publish_refusal(id) is None ==> later.entry(id).state
                == EntryState::CompletionPending(completion)
        }),
{
    let completion = Completion::of(before.entry(id).descriptor.user_data(), result, flags);
    let finished = before.with_state(id, EntryState::CompletionPending(completion));
    let at = id.slot() as int;
    assert(finished.slots[at].entry->0.state.completion() == Some(completion));
    assert(finished.knows(id));
    spent_identities_stay_spent(finished, later, id);
}

/// From the moment a publication starts until it is committed or rolled back,
/// every other publication and every consumption is refused because of it, and
/// the planned place in the queue and the planned completion stay as they are.
/// Every call but a successful commit or rollback keeps the publication.
pub proof fn publication_is_exclusive_until_settled(
    history: Seq<RequestRegistryState>,
    id: RequestId,
    n: int,
)
    requires
        0 <= n < history.len(),
        forall|i: int| 0 <= i < history.len() ==> (#[trigger] history[i]).wf(),
        forall|i: int|
            0 <= i < history.len() - 1 ==> (#[trigger] history[i]).keeps_publication(
                history[i + 1],
            ),
        history[0].in_flight == Some(id),
    ensures
        history[n].in_flight == Some(id),
        history[n].knows(id),
        history[n].entry(id).state == history[0].entry(id).state,
        history[n].cq_head == history[0].cq_head,
        history[n].cq_tail == history[0].cq_tail,
        forall|other: RequestId| #[trigger]
            history[n].publish_refusal(other) == Some(IoUringError::PublicationInFlight),
        forall|user_head: u32| #[trigger]
            history[n].observe_refusal(user_head) == Some(IoUringError::PublicationInFlight),
    decreases n,
{
    assert(history[0].wf());
    if n > 0 {
        publication_is_exclusive_until_settled(history, id, n - 1);
        assert(history[n - 1].keeps_publication(history[n - 1 + 1]));
    }
    let state = history[n];
    assert(state.wf());
    assert(state.slots[id.slot() as int].entry is Some);
    in_flight_keeps_open(state);
}

/// While a publication is under way the registry is neither draining nor
/// closed, and a credit is held.
proof fn in_flight_keeps_open(state: RequestRegistryState)
    requires
        state.wf(),
        state.in_flight is Some,
    ensures
        state.lifecycle != RequestLifecycle::Draining,
        state.lifecycle != RequestLifecycle::Closed,
        state.terminal_credits > 0,
{
    let at = state.in_flight->0.slot() as int;
    assert(state.slots[at].entry is Some);
    count_bounds(state.slots, |slot: RequestSlot| slot.live());
    assert((|slot: RequestSlot| slot.live())(state.slots[at]));
}

/// A request has exactly one terminal owner: once a claim succeeded, every
/// further claim fails until the request leaves its slot.
pub proof fn terminal_ownership_is_exclusive(state: EntryState, first: TerminalCause, second: TerminalCause)
    ensures
        EntryState::TerminalClaimed(first).claim(second) == Err::<(), IoUringError>(
            IoUringError::TerminalAlreadyClaimed,
        ),
        state.terminal() ==> state.claim(second) is Err,
        state.claim(first) is Ok ==> !state.terminal(),
{
}

/// Live requests are exactly those in one of the six states.
pub proof fn states_partition_requests(slots: Seq<RequestSlot>)
    ensures
        count(slots, |slot: RequestSlot| slot.live()) == count(
            slots,
            |slot: RequestSlot| slot.is_in(|s: EntryState| s is Reserved),
        ) + count(slots, |slot: RequestSlot| slot.is_in(|s: EntryState| s is Prepared)) + count(
            slots,
            |slot: RequestSlot| slot.is_in(|s: EntryState| s is Issued),
        ) + count(slots, |slot: RequestSlot| slot.is_in(|s: EntryState| s is TerminalClaimed))
            + count(slots, |slot: RequestSlot| slot.is_in(|s: EntryState| s is CompletionPending))
            + count(slots, |slot: RequestSlot| slot.is_in(|s: EntryState| s is Publishing)),
    decreases slots.len(),
{
    if slots.len() > 0 {
        states_partition_requests(slots.drop_last());
    }
}

/// Moving a request to another state keeps the registry well formed.
proof fn changing_a_state(state: RequestRegistryState, id: RequestId, next: EntryState)
    requires
        state.wf(),
        state.knows(id),
        state.lifecycle != RequestLifecycle::Draining,
        !(next is Publishing),
        state.entry(id).state.completion() is None,
    ensures
        state.with_state(id, next).wf(),
        state.advances_to(state.with_state(id, next)),
        state.keeps_publication(state.with_state(id, next)),
{
    let after = state.with_state(id, next);
    let at = id.slot() as int;
    count_update(state.slots, at, after.slots[at], |slot: RequestSlot| slot.live());
    assert forall|i: int|
        0 <= i < after.slots.len() && (#[trigger] after.slots[i]).available() implies after.free.contains(
    i as u32) by {
        assert(state.slots[i].available());
    }
    assert forall|i: int|
        0 <= i < after.slots.len() && (#[trigger] after.slots[i]).entry is Some
            && after.slots[i].entry->0.state is Publishing implies after.in_flight is Some
        && after.in_flight->0.slot() == i by {
        assert(state.slots[i].entry is Some);
    }
}

/// Removing a request returns its slot, and only its slot, to the free list.
proof fn clearing_a_slot(state: RequestRegistryState, id: RequestId)
    requires
        state.wf(),
        state.knows(id),
    ensures
        state.cleared(id).slots_wf(),
        state.cleared(id).free_wf(),
        state.cleared(id).number_live() == state.number_live() - 1,
        state.advances_to(state.cleared(id)),
        state.cleared(id).expired(id),
{
    let after = state.cleared(id);
    let at = id.slot() as int;
    count_update(state.slots, at, after.slots[at], |slot: RequestSlot| slot.live());
    assert(!state.free.contains(id.slot())) by {
        if state.free.contains(id.slot()) {
            let k = choose|k: int| 0 <= k < state.free.len() && state.free[k] == id.slot();
            assert(state.slots[state.free[k] as int].available());
        }
    }
    assert forall|k: int| 0 <= k < after.free.len() implies (#[trigger] after.free[k])
        < after.slots.len() && after.slots[after.free[k] as int].available() by {
        if k < state.free.len() {
            assert(state.free[k] == after.free[k]);
            assert(state.free.contains(state.free[k]));
        }
    }
    assert forall|k: int, m: int|
        #![trigger after.free[k], after.free[m]]
        0 <= k < m < after.free.len() implies after.free[k] != after.free[m] by {
        assert(state.free[k] == after.free[k]);
        assert(state.free.contains(state.free[k]));
        if m < state.free.len() {
            assert(state.free[m] == after.free[m]);
        }
    }
    assert forall|i: int|
        0 <= i < after.slots.len() && (#[trigger] after.slots[i]).available() implies after.free.contains(
    i as u32) by {
        if i == at {
            assert(after.free[state.free.len() as int] == i as u32);
        } else {
            assert(state.slots[i].available());
            let k = choose|k: int| 0 <= k < state.free.len() && state.free[k] == i as u32;
            assert(after.free[k] == i as u32);
        }
    }
    assert forall|i: int, j: int|
        #![trigger after.slots[i], after.slots[j]]
        0 <= i < j < after.slots.len() && after.slots[i].entry is Some
            && after.slots[j].entry is Some implies after.slots[i].entry->0.sequence
        != after.slots[j].entry->0.sequence by {
        assert(state.slots[i].entry is Some && state.slots[j].entry is Some);
    }
}

/// Removing a request and refunding its credit keeps the registry well formed.
proof fn clearing_with_refund(state: RequestRegistryState, id: RequestId)
    requires
        state.wf(),
        state.knows(id),
        !(state.entry(id).state is Publishing),
    ensures
        state.cleared(id).refunded(1).wf(),
        state.advances_to(state.cleared(id).refunded(1)),
        state.keeps_publication(state.cleared(id).refunded(1)),
        state.terminal_credits >= 1,
{
    clearing_a_slot(state, id);
    let after = state.cleared(id).refunded(1);
    assert(state.cleared(id).slots == after.slots);
    assert(after.number_live() == state.cleared(id).number_live());
    assert forall|i: int| 0 <= i < after.slots.len() && (#[trigger] after.slots[i]).entry is Some implies
        state.slots[i].entry == after.slots[i].entry by {}
    assert(state.cleared(id).free_wf());
    assert(after.free_wf());
}

/// Reserving a request charges one credit and one slot.
proof fn reserving_a_slot(state: RequestRegistryState, descriptor: RequestDescriptor)
    requires
        state.wf(),
        state.reserve_refusal() is None,
    ensures
        state.reserved(descriptor).wf(),
        state.advances_to(state.reserved(descriptor)),
        state.keeps_publication(state.reserved(descriptor)),
        state.reserved(descriptor).knows(state.next_id()),
{
    let after = state.reserved(descriptor);
    let last = state.free.len() - 1;
    let at = state.free[last] as int;
    assert(state.slots[at].available());
    count_update(state.slots, at, after.slots[at], |slot: RequestSlot| slot.live());
    assert forall|k: int| 0 <= k < after.free.len() implies (#[trigger] after.free[k])
        < after.slots.len() && after.slots[after.free[k] as int].available() by {
        assert(state.free[k] == after.free[k]);
        assert(state.free[k] != state.free[last]);
    }
    assert forall|k: int, m: int|
        #![trigger after.free[k], after.free[m]]
        0 <= k < m < after.free.len() implies after.free[k] != after.free[m] by {
        assert(state.free[k] == after.free[k] && state.free[m] == after.free[m]);
    }
    assert forall|i: int|
        0 <= i < after.slots.len() && (#[trigger] after.slots[i]).available() implies after.free.contains(
    i as u32) by {
        assert(state.slots[i].available());
        let k = choose|k: int| 0 <= k < state.free.len() && state.free[k] == i as u32;
        assert(k != last);
        assert(after.free[k] == i as u32);
    }
    assert forall|i: int|
        0 <= i < after.slots.len() && (#[trigger] after.slots[i]).entry is Some && i != at implies
        state.slots[i].entry is Some by {}
    assert forall|i: int, j: int|
        #![trigger after.slots[i], after.slots[j]]
        0 <= i < j < after.slots.len() && after.slots[i].entry is Some
            && after.slots[j].entry is Some implies after.slots[i].entry->0.sequence
        != after.slots[j].entry->0.sequence by {
        assert(i != at ==> state.slots[i].entry is Some);
        assert(j != at ==> state.slots[j].entry is Some);
    }
}

/// Rolling a reservation back undoes it: the credits and the live requests are
/// those from before, and only the slot's generation has moved on.
pub proof fn rollback_undoes_reserve(state: RequestRegistryState, descriptor: RequestDescriptor)
    requires
        state.wf(),
        state.reserve_refusal() is None,
    ensures
        ({
            let id = state.next_id();
            let after = state.reserved(descriptor).cleared(id).refunded(1);
            &&& after.terminal_credits == state.terminal_credits
            &&& after.published() == state.published()
            &&& forall|i: int|
                0 <= i < state.slots.len() ==> (#[trigger] after.slots[i]).entry
                    == state.slots[i].entry
            &&& after.expired(id)
        }),
{
    reserving_a_slot(state, descriptor);
    assert(state.slots[state.free[state.free.len() - 1] as int].available());
    clearing_a_slot(state.reserved(descriptor), state.next_id());
}

/// Fixed-capacity, generation-safe request and terminal-CQ policy registry.
///
/// The embedding kernel supplies external synchronization. Construction is the
/// only allocation point; all admission, completion, cancellation, reaping,
/// and close operations are allocation-free.
#[derive(Debug)]
pub struct RequestRegistry {
    ring: RingId,
    slots: Vec<RequestSlot>,
    free_slots: Vec<u32>,
    next_sequence: Option<u64>,
    lifecycle: RequestLifecycle,
    cq_entries: u32,
    cq_head: u32,
    cq_tail: u32,
    terminal_credits: u32,
    publication_in_flight: Option<RequestId>,
}

impl View for RequestRegistry {
    type V = RequestRegistryState;

    closed spec fn view(&self) -> RequestRegistryState {
        RequestRegistryState {
            ring: self.ring,
            slots: self.slots@,
            free: self.free_slots@,
            next_sequence: self.next_sequence,
            lifecycle: self.lifecycle,
            cq_entries: self.cq_entries,
            cq_head: self.cq_head,
            cq_tail: self.cq_tail,
            terminal_credits: self.terminal_credits,
            in_flight: self.publication_in_flight,
        }
    }
}

impl RequestRegistry {
    /// Representation invariant of the registry.
    pub open spec fn wf(&self) -> bool {
        self@.wf()
    }

    /// Allocates a bounded request table and configures terminal CQ capacity.
    ///
    /// It fails for want of memory only where the allocator refuses the storage.
    pub fn new(ring: RingId, request_capacity: u32, cq_entries: u32) -> (result: Result<
        Self,
        IoUringError,
    >)
        ensures
            ({
                let capacity_ok = 1 <= request_capacity <= IORING_MAX_ENTRIES;
                let queue_ok = power_of_two(cq_entries as int) && cq_entries
                    <= IORING_MAX_CQ_ENTRIES;
                match result {
                    Ok(registry) => {
                        &&& capacity_ok && queue_ok
                        &&& registry.wf()
                        &&& registry@ == RequestRegistryState::empty(
                            ring,
                            request_capacity,
                            cq_entries,
                        )
                        &&& allocation_granted::<RequestSlot>(request_capacity as usize)
                        &&& allocation_granted::<u32>(request_capacity as usize)
                    },
                    Err(error) => if !capacity_ok {
                        error == IoUringError::RequestCapacityExceeded
                    } else if !queue_ok {
                        error == IoUringError::InvalidQueueGeometry
                    } else {
                        &&& error == IoUringError::AllocationFailed
                        &&& allocation_refused::<RequestSlot>(request_capacity as usize)
                            || allocation_refused::<u32>(request_capacity as usize)
                    },
                }
            }),
    {
        if request_capacity == 0 || request_capacity > IORING_MAX_ENTRIES {
            return Err(IoUringError::RequestCapacityExceeded);
        }
        if cq_entries > IORING_MAX_CQ_ENTRIES || !is_power_of_two(cq_entries as u64) {
            return Err(IoUringError::InvalidQueueGeometry);
        }
        let capacity = request_capacity as usize;
        let mut slots: Vec<RequestSlot> = match reserved(capacity) {
            Some(slots) => slots,
            None => return Err(IoUringError::AllocationFailed),
        };
        let mut filled: usize = 0;
        while filled < capacity
            invariant
                filled <= capacity,
                slots.len() == filled,
                forall|i: int|
                    0 <= i < filled ==> (#[trigger] slots@[i]) == (RequestSlot {
                        generation: Some(1),
                        entry: None,
                    }),
            decreases capacity - filled,
        {
            slots.push(RequestSlot { generation: Some(1), entry: None });
            filled = filled + 1;
        }
        let mut free_slots: Vec<u32> = match reserved(capacity) {
            Some(free_slots) => free_slots,
            None => return Err(IoUringError::AllocationFailed),
        };
        let mut left: u32 = request_capacity;
        while left > 0
            invariant
                left <= request_capacity,
                free_slots.len() == request_capacity - left,
                forall|i: int|
                    0 <= i < free_slots.len() ==> (#[trigger] free_slots@[i]) == request_capacity - 1
                        - i,
            decreases left,
        {
            left = left - 1;
            free_slots.push(left);
        }
        let registry = Self {
            ring,
            slots,
            free_slots,
            next_sequence: Some(1),
            lifecycle: RequestLifecycle::Open,
            cq_entries,
            cq_head: 0,
            cq_tail: 0,
            terminal_credits: 0,
            publication_in_flight: None,
        };
        proof {
            let state = registry@;
            assert(state =~= RequestRegistryState::empty(ring, request_capacity, cq_entries));
            count_bounds(state.slots, |slot: RequestSlot| slot.live());
            mask_is_remainder(0, cq_entries);
            assert forall|i: int|
                0 <= i < state.slots.len() && (#[trigger] state.slots[i]).available() implies state.free.contains(
            i as u32) by {
                assert(state.free[request_capacity - 1 - i] == i as u32);
            }
        }
        Ok(registry)
    }

    /// Ring scope carried by every generated token.
    pub fn ring(&self) -> (result: RingId)
        ensures
            result == self@.ring,
    {
        self.ring
    }

    /// Fixed request-slot capacity allocated at construction.
    pub fn capacity(&self) -> (result: u32)
        requires
            self.wf(),
        ensures
            result == self@.slots.len(),
    {
        self.slots.len() as u32
    }

    /// Maximum simultaneously published completion entries.
    pub fn cq_entries(&self) -> (result: u32)
        ensures
            result == self@.cq_entries,
    {
        self.cq_entries
    }

    /// Last validated userspace CQ head.
    pub fn completion_head(&self) -> (result: u32)
        ensures
            result == self@.cq_head,
    {
        self.cq_head
    }

    /// Core-owned CQ tail represented by returned publication plans.
    pub fn completion_tail(&self) -> (result: u32)
        ensures
            result == self@.cq_tail,
    {
        self.cq_tail
    }

    fn has_live(&self) -> (result: bool)
        requires
            self.wf(),
        ensures
            result == (self@.number_live() > 0),
    {
        proof {
            count_bounds(self@.slots, |slot: RequestSlot| slot.live());
        }
        let mut i: usize = 0;
        while i < self.slots.len()
            invariant
                i <= self.slots.len(),
                self@.slots == self.slots@,
                self@.number_live() == 0 <==> (forall|j: int|
                    0 <= j < self@.slots.len() ==> !(#[trigger] self@.slots[j]).live()),
                forall|j: int| 0 <= j < i ==> !(#[trigger] self@.slots[j]).live(),
            decreases self.slots.len() - i,
        {
            if self.slots[i].entry.is_some() {
                assert(self@.slots[i as int].live());
                return true;
            }
            i = i + 1;
        }
        false
    }

    /// Reserves a request slot and terminal CQ credit before SQ admission.
    ///
    /// `CompletionQueueFull` is retryable without advancing the shared SQ
    /// head. The returned reservation remains reversible until committed.
    pub fn reserve(&mut self, descriptor: RequestDescriptor) -> (result: Result<
        RequestReservation,
        IoUringError,
    >)
        requires
            old(self).wf(),
        ensures
            final(self).wf(),
            old(self)@.advances_to(final(self)@),
            old(self)@.keeps_publication(final(self)@),
            match result {
                Ok(reservation) => {
                    &&& old(self)@.reserve_refusal() is None
                    &&& reservation.id() == old(self)@.next_id()
                    &&& reservation.descriptor() == descriptor
                    &&& final(self)@ == old(self)@.reserved(descriptor)
                    &&& final(self)@.knows(reservation.id())
                },
                Err(error) => old(self)@.reserve_refusal() == Some(error) && final(self)@ == old(
                    self,
                )@,
            },
    {
        match self.lifecycle {
            RequestLifecycle::Open => {},
            RequestLifecycle::Closing => return Err(IoUringError::Closing),
            RequestLifecycle::Draining => return Err(IoUringError::Draining),
            RequestLifecycle::Closed => return Err(IoUringError::Closed),
        }
        if self.terminal_credits >= self.cq_entries {
            return Err(IoUringError::CompletionQueueFull);
        }
        let sequence = match self.next_sequence {
            Some(sequence) => sequence,
            None => return Err(IoUringError::GenerationExhausted),
        };
        if self.free_slots.len() == 0 {
            return if self.has_live() {
                Err(IoUringError::RequestCapacityExceeded)
            } else {
                Err(IoUringError::GenerationExhausted)
            };
        }
        proof {
            reserving_a_slot(self@, descriptor);
            assert(self@.slots[self@.free[self@.free.len() - 1] as int].available());
        }
        let ghost before = self@;
        let slot = self.free_slots.pop().unwrap();
        let index = slot as usize;
        let generation = self.slots[index].generation.unwrap();
        self.terminal_credits = self.terminal_credits + 1;
        self.next_sequence = next_generation(sequence);
        self.slots[index].entry = Some(
            RequestEntry { descriptor, sequence, state: EntryState::Reserved },
        );
        assert(self@ =~= before.reserved(descriptor));
        Ok(RequestReservation { id: RequestId { ring: self.ring, slot, generation }, descriptor })
    }

    /// Rolls back admission before the adapter advances shared SQ head.
    pub fn rollback(&mut self, reservation: RequestReservation) -> (result: Result<(), IoUringError>)
        requires
            old(self).wf(),
        ensures
            final(self).wf(),
            old(self)@.advances_to(final(self)@),
            old(self)@.keeps_publication(final(self)@),
            ({
                let id = reservation.id();
                if !old(self)@.knows(id) {
                    result == Err::<(), IoUringError>(IoUringError::UnknownRequest) && final(self)@
                        == old(self)@
                } else if !(old(self)@.entry(id).state is Reserved) {
                    result == Err::<(), IoUringError>(IoUringError::InvalidRequestState) && final(
                        self)@ == old(self)@
                } else {
                    result == Ok::<(), IoUringError>(()) && final(self)@ == old(self)@.cleared(
                        id,
                    ).refunded(1)
                }
            }),
    {
        match self.entry(reservation.id) {
            Ok(entry) => {
                if entry.state != EntryState::Reserved {
                    return Err(IoUringError::InvalidRequestState);
                }
            },
            Err(error) => return Err(error),
        }
        proof {
            clearing_with_refund(self@, reservation.id);
        }
        self.clear_slot(reservation.id);
        self.terminal_credits = self.terminal_credits - 1;
        Ok(())
    }

    /// Commits SQ consumption for a previously reserved request.
    pub fn commit(&mut self, reservation: RequestReservation) -> (result: Result<
        PreparedRequest,
        IoUringError,
    >)
        requires
            old(self).wf(),
        ensures
            final(self).wf(),
            old(self)@.advances_to(final(self)@),
            old(self)@.keeps_publication(final(self)@),
            ({
                let id = reservation.id();
                if !old(self)@.knows(id) {
                    result == Err::<PreparedRequest, IoUringError>(IoUringError::UnknownRequest)
                        && final(self)@ == old(self)@
                } else if !(old(self)@.entry(id).state is Reserved) {
                    result == Err::<PreparedRequest, IoUringError>(
                        IoUringError::InvalidRequestState,
                    ) && final(self)@ == old(self)@
                } else {
                    &&& result matches Ok(prepared)
                    &&& prepared.id() == id
                    &&& prepared.descriptor() == old(self)@.entry(id).descriptor
                    &&& final(self)@ == old(self)@.with_state(id, EntryState::Prepared)
                }
            }),
    {
        let entry = match self.entry(reservation.id) {
            Ok(entry) => *entry,
            Err(error) => return Err(error),
        };
        if entry.state != EntryState::Reserved {
            return Err(IoUringError::InvalidRequestState);
        }
        proof {
            changing_a_state(self@, reservation.id, EntryState::Prepared);
        }
        self.set_state(reservation.id, EntryState::Prepared);
        Ok(PreparedRequest { id: reservation.id, descriptor: entry.descriptor })
    }

    /// Transfers a prepared request to the adapter's execution mechanism.
    pub fn issue(&mut self, prepared: PreparedRequest) -> (result: Result<
        IssuedRequest,
        RequestIssueError,
    >)
        requires
            old(self).wf(),
        ensures
            final(self).wf(),
            old(self)@.advances_to(final(self)@),
            old(self)@.keeps_publication(final(self)@),
            ({
                let id = prepared.id();
                let entry = old(self)@.entry(id);
                match result {
                    Ok(issued) => {
                        let mode = entry.descriptor.operation().spec_cancellation_mode();
                        &&& old(self)@.knows(id) && entry.state is Prepared
                        &&& issued.id() == id
                        &&& issued.descriptor() == entry.descriptor
                        &&& issued.cancellation_mode() == mode
                        &&& final(self)@ == old(self)@.with_state(id, EntryState::Issued(mode))
                    },
                    Err(failure) => {
                        &&& final(self)@ == old(self)@
                        &&& *failure.prepared() == prepared
                        &&& if !old(self)@.knows(id) {
                            failure.error() == IoUringError::UnknownRequest
                        } else if entry.state.terminal() {
                            failure.error() == IoUringError::TerminalAlreadyClaimed
                        } else {
                            &&& !(entry.state is Prepared)
                            &&& failure.error() == IoUringError::InvalidRequestState
                        }
                    },
                }
            }),
    {
        let entry = match self.entry(prepared.id) {
            Ok(entry) => *entry,
            Err(error) => return Err(RequestIssueError { error, prepared }),
        };
        let error = match entry.state {
            EntryState::Prepared => {
                let cancellation_mode = entry.descriptor.operation.cancellation_mode();
                proof {
                    changing_a_state(self@, prepared.id, EntryState::Issued(cancellation_mode));
                }
                self.set_state(prepared.id, EntryState::Issued(cancellation_mode));
                return Ok(
                    IssuedRequest {
                        id: prepared.id,
                        descriptor: entry.descriptor,
                        cancellation_mode,
                    },
                );
            },
            EntryState::TerminalClaimed(_)
            | EntryState::CompletionPending(_)
            | EntryState::Publishing(_) => IoUringError::TerminalAlreadyClaimed,
            _ => IoUringError::InvalidRequestState,
        };
        Err(RequestIssueError { error, prepared })
    }

    /// Returns an immutable snapshot of one exact live request.
    pub fn request(&self, id: RequestId) -> (result: Result<
        (RequestDescriptor, RequestState),
        IoUringError,
    >)
        ensures
            result == if self@.knows(id) {
                Ok::<(RequestDescriptor, RequestState), IoUringError>(
                    (self@.entry(id).descriptor, self@.entry(id).state.spec_public()),
                )
            } else {
                Err(IoUringError::UnknownRequest)
            },
    {
        match self.entry(id) {
            Ok(entry) => Ok((entry.descriptor, entry.state.public())),
            Err(error) => Err(error),
        }
    }

    /// Claims the sole terminal transition for prepared or issued work.
    pub fn claim_terminal(&mut self, id: RequestId, cause: TerminalCause) -> (result: Result<
        TerminalPermit,
        IoUringError,
    >)
        requires
            old(self).wf(),
        ensures
            final(self).wf(),
            old(self)@.advances_to(final(self)@),
            old(self)@.keeps_publication(final(self)@),
            match result {
                Ok(permit) => {
                    &&& old(self)@.knows(id)
                    &&& old(self)@.entry(id).state.claim(cause) is Ok
                    &&& permit.id() == id
                    &&& permit.descriptor() == old(self)@.entry(id).descriptor
                    &&& permit.cause() == cause
                    &&& final(self)@ == old(self)@.with_state(
                        id,
                        EntryState::TerminalClaimed(cause),
                    )
                },
                Err(error) => {
                    &&& final(self)@ == old(self)@
                    &&& if old(self)@.knows(id) {
                        old(self)@.entry(id).state.claim(cause) == Err::<(), IoUringError>(error)
                    } else {
                        error == IoUringError::UnknownRequest
                    }
                },
            },
    {
        let entry = match self.entry(id) {
            Ok(entry) => *entry,
            Err(error) => return Err(error),
        };
        match entry.state {
            EntryState::Reserved => return Err(IoUringError::InvalidRequestState),
            EntryState::TerminalClaimed(_)
            | EntryState::CompletionPending(_)
            | EntryState::Publishing(_) => return Err(IoUringError::TerminalAlreadyClaimed),
            EntryState::Issued(CancellationMode::Uncancellable) => {
                if cause != TerminalCause::Completed {
                    return Err(IoUringError::RequestUncancellable);
                }
            },
            EntryState::Prepared | EntryState::Issued(CancellationMode::Cancellable) => {},
        }
        proof {
            changing_a_state(self@, id, EntryState::TerminalClaimed(cause));
        }
        self.set_state(id, EntryState::TerminalClaimed(cause));
        Ok(TerminalPermit { id, descriptor: entry.descriptor, cause })
    }

    /// Atomically selects and claims one cancellable request.
    ///
    /// `exclude` is normally the `ASYNC_CANCEL` request itself. Duplicate user
    /// data values select the oldest still-cancellable admission.
    pub fn claim_cancel(&mut self, selector: CancelSelector, exclude: Option<RequestId>) -> (result:
        Result<TerminalPermit, IoUringError>)
        requires
            old(self).wf(),
        ensures
            final(self).wf(),
            old(self)@.advances_to(final(self)@),
            old(self)@.keeps_publication(final(self)@),
            match result {
                Ok(permit) => {
                    let id = permit.id();
                    &&& old(self)@.knows(id)
                    &&& exclude != Some(id)
                    &&& old(self)@.entry(id).state.cancellable()
                    &&& match selector {
                        CancelSelector::Request(target) => id == target,
                        CancelSelector::UserData(user_data) => {
                            &&& old(self)@.selectable(id.slot() as int, user_data, exclude)
                            &&& forall|i: int| #[trigger]
                                old(self)@.selectable(i, user_data, exclude) ==> old(
                                    self,
                                )@.entry(id).sequence <= old(self)@.slots[i].entry->0.sequence
                        },
                    }
                    &&& permit.descriptor() == old(self)@.entry(id).descriptor
                    &&& permit.cause() == TerminalCause::Cancelled
                    &&& final(self)@ == old(self)@.with_state(
                        id,
                        EntryState::TerminalClaimed(TerminalCause::Cancelled),
                    )
                },
                Err(error) => {
                    &&& final(self)@ == old(self)@
                    &&& match selector {
                        CancelSelector::Request(target) => if exclude != Some(target) && old(
                            self,
                        )@.knows(target) && old(self)@.entry(target).state is Reserved {
                            error == IoUringError::InvalidRequestState
                        } else {
                            &&& error == IoUringError::CancellationTargetNotFound
                            &&& exclude == Some(target) || !old(self)@.knows(target) || !old(
                                self,
                            )@.entry(target).state.cancellable()
                        },
                        CancelSelector::UserData(user_data) => {
                            &&& error == IoUringError::CancellationTargetNotFound
                            &&& forall|i: int| !#[trigger]
                                old(self)@.selectable(i, user_data, exclude)
                        },
                    }
                },
            },
    {
        let user_data = match selector {
            CancelSelector::Request(id) => {
                if let Some(excluded) = exclude {
                    if excluded == id {
                        return Err(IoUringError::CancellationTargetNotFound);
                    }
                }
                return match self.claim_terminal(id, TerminalCause::Cancelled) {
                    Err(IoUringError::UnknownRequest)
                    | Err(IoUringError::TerminalAlreadyClaimed)
                    | Err(IoUringError::RequestUncancellable) => Err(
                        IoUringError::CancellationTargetNotFound,
                    ),
                    result => result,
                };
            },
            CancelSelector::UserData(user_data) => user_data,
        };
        let ghost before = self@;
        let mut candidate: Option<(u64, RequestId)> = None;
        let mut index: usize = 0;
        while index < self.slots.len()
            invariant
                self@ == before,
                before.wf(),
                self.slots@ == before.slots,
                self.ring == before.ring,
                index <= before.slots.len(),
                match candidate {
                    Some((sequence, id)) => {
                        &&& before.selectable(id.slot() as int, user_data, exclude)
                        &&& before.knows(id)
                        &&& exclude != Some(id)
                        &&& sequence == before.entry(id).sequence
                        &&& forall|i: int|
                            0 <= i < index && #[trigger] before.selectable(i, user_data, exclude)
                                ==> sequence <= before.slots[i].entry->0.sequence
                    },
                    None => forall|i: int|
                        0 <= i < index ==> !#[trigger] before.selectable(i, user_data, exclude),
                },
            decreases before.slots.len() - index,
        {
            if let Some(entry) = self.slots[index].entry {
                assert(before.slots[index as int].entry is Some);
                let generation = self.slots[index].generation.unwrap();
                let id = RequestId { ring: self.ring, slot: index as u32, generation };
                assert(id == before.id_at(index as int));
                let excluded = match exclude {
                    Some(excluded) => excluded == id,
                    None => false,
                };
                let cancellable = match entry.state {
                    EntryState::Prepared => true,
                    EntryState::Issued(CancellationMode::Cancellable) => true,
                    _ => false,
                };
                if !excluded && entry.descriptor.user_data == user_data && cancellable {
                    assert(before.selectable(index as int, user_data, exclude));
                    let older = match candidate {
                        Some((sequence, _)) => entry.sequence < sequence,
                        None => true,
                    };
                    if older {
                        candidate = Some((entry.sequence, id));
                    }
                }
            }
            index = index + 1;
        }
        match candidate {
            Some((_, id)) => self.claim_terminal(id, TerminalCause::Cancelled),
            None => Err(IoUringError::CancellationTargetNotFound),
        }
    }

    /// Converts unique terminal ownership into a complete pending CQE.
    pub fn finish_terminal(&mut self, permit: TerminalPermit, result: i32, flags: u32) -> (finished:
        Result<CompletionToken, IoUringError>)
        requires
            old(self).wf(),
        ensures
            final(self).wf(),
            old(self)@.advances_to(final(self)@),
            old(self)@.keeps_publication(final(self)@),
            ({
                let id = permit.id();
                if !old(self)@.knows(id) {
                    finished == Err::<CompletionToken, IoUringError>(IoUringError::UnknownRequest)
                        && final(self)@ == old(self)@
                } else if old(self)@.entry(id).state != EntryState::TerminalClaimed(
                    permit.cause(),
                ) {
                    finished == Err::<CompletionToken, IoUringError>(
                        IoUringError::InvalidRequestState,
                    ) && final(self)@ == old(self)@
                } else {
                    &&& finished matches Ok(token)
                    &&& token.id() == id
                    &&& final(self)@ == old(self)@.with_state(
                        id,
                        EntryState::CompletionPending(
                            Completion::of(
                                old(self)@.entry(id).descriptor.user_data(),
                                result,
                                flags,
                            ),
                        ),
                    )
                }
            }),
    {
        let entry = match self.entry(permit.id) {
            Ok(entry) => *entry,
            Err(error) => return Err(error),
        };
        if entry.state != EntryState::TerminalClaimed(permit.cause) {
            return Err(IoUringError::InvalidRequestState);
        }
        let completion = Completion::new(entry.descriptor.user_data, result, flags);
        proof {
            changing_a_state(self@, permit.id, EntryState::CompletionPending(completion));
        }
        self.set_state(permit.id, EntryState::CompletionPending(completion));
        Ok(CompletionToken { id: permit.id })
    }

    /// Starts the sole CQE write/tail publication transaction.
    ///
    /// The adapter must write `publication.completion()` completely at
    /// `publication.slot()`, release-store `publication.new_tail()`, and then
    /// call `commit_publication`. Other publication and reap operations remain
    /// blocked while the plan is outside this core.
    pub fn publish(&mut self, token: &CompletionToken) -> (result: Result<
        CompletionPublication,
        IoUringError,
    >)
        requires
            old(self).wf(),
        ensures
            final(self).wf(),
            old(self)@.advances_to(final(self)@),
            old(self)@.keeps_publication(final(self)@),
            ({
                let id = token.id();
                match result {
                    Ok(publication) => {
                        &&& old(self)@.publish_refusal(id) is None
                        &&& old(self)@.entry(id).state == EntryState::CompletionPending(
                            publication.completion(),
                        )
                        &&& publication.id() == id
                        &&& publication.slot() == old(self)@.cq_tail % old(self)@.cq_entries
                        &&& distance(old(self)@.cq_tail, publication.new_tail()) == 1
                        &&& final(self)@ == RequestRegistryState {
                            in_flight: Some(id),
                            ..old(self)@.with_state(
                                id,
                                EntryState::Publishing(publication.completion()),
                            )
                        }
                    },
                    Err(error) => {
                        &&& final(self)@ == old(self)@
                        &&& old(self)@.publish_refusal(id) == Some(error)
                    },
                }
            }),
    {
        match self.lifecycle {
            RequestLifecycle::Draining => return Err(IoUringError::Draining),
            RequestLifecycle::Closed => return Err(IoUringError::Closed),
            _ => {},
        }
        if self.publication_in_flight.is_some() {
            return Err(IoUringError::PublicationInFlight);
        }
        let completion = match self.entry(token.id) {
            Ok(entry) => match entry.state {
                EntryState::CompletionPending(completion) => completion,
                _ => return Err(IoUringError::CompletionNotPending),
            },
            Err(error) => return Err(error),
        };
        let ghost before = self@;
        proof {
            mask_is_remainder(before.cq_tail, before.cq_entries);
            let after = before.with_state(token.id, EntryState::Publishing(completion));
            let at = token.id.slot as int;
            count_update(before.slots, at, after.slots[at], |slot: RequestSlot| slot.live());
            assert forall|i: int|
                0 <= i < after.slots.len() && (#[trigger] after.slots[i]).available() implies after.free.contains(
            i as u32) by {
                assert(before.slots[i].available());
            }
            assert forall|i: int|
                0 <= i < after.slots.len() && (#[trigger] after.slots[i]).entry is Some
                    && after.slots[i].entry->0.state is Publishing implies i == at by {
                assert(before.slots[i].entry is Some);
            }
        }
        let slot = self.cq_tail & (self.cq_entries - 1);
        let new_tail = self.cq_tail.wrapping_add(1);
        self.set_state(token.id, EntryState::Publishing(completion));
        self.publication_in_flight = Some(token.id);
        Ok(CompletionPublication { id: token.id, completion, slot, new_tail })
    }

    /// The publication plan is the current one and still fits the queue.
    fn check_publication(&self, publication: &CompletionPublication) -> (result: Result<
        (),
        IoUringError,
    >)
        requires
            self.wf(),
        ensures
            match result {
                Ok(_) => {
                    &&& self@.in_flight == Some(publication.id())
                    &&& self@.entry(publication.id()).state == EntryState::Publishing(
                        publication.completion(),
                    )
                },
                Err(error) => if self@.in_flight != Some(publication.id()) {
                    error == IoUringError::PublicationInFlight
                } else {
                    &&& error == IoUringError::InvalidRequestState
                    &&& self@.entry(publication.id()).state != EntryState::Publishing(
                        publication.completion(),
                    )
                },
            },
    {
        let current = match self.publication_in_flight {
            Some(id) => id == publication.id,
            None => false,
        };
        if !current {
            return Err(IoUringError::PublicationInFlight);
        }
        match self.entry(publication.id) {
            Ok(entry) => if entry.state == EntryState::Publishing(publication.completion) {
                Ok(())
            } else {
                Err(IoUringError::InvalidRequestState)
            },
            Err(error) => Err(error),
        }
    }

    /// Commits core accounting after the adapter release-stored the plan tail.
    pub fn commit_publication(&mut self, publication: CompletionPublication) -> (result: Result<
        (),
        IoUringError,
    >)
        requires
            old(self).wf(),
        ensures
            final(self).wf(),
            old(self)@.advances_to(final(self)@),
            result is Err ==> old(self)@.keeps_publication(final(self)@),
            ({
                let id = publication.id();
                let fits = publication.slot() == old(self)@.cq_tail % old(self)@.cq_entries
                    && distance(old(self)@.cq_tail, publication.new_tail()) == 1;
                match result {
                    Ok(_) => {
                        &&& old(self)@.in_flight == Some(id)
                        &&& fits
                        &&& old(self)@.entry(id).state == EntryState::Publishing(
                            publication.completion(),
                        )
                        &&& final(self)@ == RequestRegistryState {
                            cq_tail: publication.new_tail(),
                            in_flight: None,
                            ..old(self)@.cleared(id)
                        }
                        &&& final(self)@.published() == old(self)@.published() + 1
                    },
                    Err(error) => {
                        &&& final(self)@ == old(self)@
                        &&& if old(self)@.in_flight != Some(id) {
                            error == IoUringError::PublicationInFlight
                        } else if !fits {
                            error == IoUringError::InvalidQueueGeometry
                        } else {
                            &&& error == IoUringError::InvalidRequestState
                            &&& old(self)@.entry(id).state != EntryState::Publishing(
                                publication.completion(),
                            )
                        }
                    },
                }
            }),
    {
        let ghost before = self@;
        proof {
            mask_is_remainder(before.cq_tail, before.cq_entries);
        }
        let expected_slot = self.cq_tail & (self.cq_entries - 1);
        let expected_tail = self.cq_tail.wrapping_add(1);
        let fits = publication.slot == expected_slot && publication.new_tail == expected_tail;
        match self.check_publication(&publication) {
            Ok(_) => {
                if !fits {
                    return Err(IoUringError::InvalidQueueGeometry);
                }
            },
            Err(IoUringError::PublicationInFlight) => return Err(IoUringError::PublicationInFlight),
            Err(error) => return if fits {
                Err(error)
            } else {
                Err(IoUringError::InvalidQueueGeometry)
            },
        }
        proof {
            clearing_a_slot(before, publication.id);
        }
        self.clear_slot(publication.id);
        self.cq_tail = publication.new_tail;
        self.publication_in_flight = None;
        proof {
            let after = self@;
            let cleared = before.cleared(publication.id);
            assert(after.slots == cleared.slots && after.free == cleared.free);
            assert(after.number_live() == cleared.number_live());
            count_bounds(before.slots, |slot: RequestSlot| slot.live());
            assert(before.slots[publication.id.slot as int].live());
            assert(before.number_live() >= 1);
            assert(after.published() == before.published() + 1);
            assert forall|i: int|
                0 <= i < after.slots.len() && (#[trigger] after.slots[i]).entry is Some implies after.slots[i].entry
                == before.slots[i].entry && !(after.slots[i].entry->0.state is Publishing) by {
                assert(i != publication.id.slot);
                assert(before.slots[i].entry is Some);
            }
            assert(cleared.free_wf());
        }
        Ok(())
    }

    /// Rolls a plan back before any shared CQ tail release-store occurred.
    pub fn rollback_publication(&mut self, publication: CompletionPublication) -> (result: Result<
        CompletionToken,
        IoUringError,
    >)
        requires
            old(self).wf(),
        ensures
            final(self).wf(),
            old(self)@.advances_to(final(self)@),
            result is Err ==> old(self)@.keeps_publication(final(self)@),
            ({
                let id = publication.id();
                match result {
                    Ok(token) => {
                        &&& old(self)@.in_flight == Some(id)
                        &&& old(self)@.entry(id).state == EntryState::Publishing(
                            publication.completion(),
                        )
                        &&& token.id() == id
                        &&& final(self)@ == RequestRegistryState {
                            in_flight: None,
                            ..old(self)@.with_state(
                                id,
                                EntryState::CompletionPending(publication.completion()),
                            )
                        }
                    },
                    Err(error) => {
                        &&& final(self)@ == old(self)@
                        &&& if old(self)@.in_flight != Some(id) {
                            error == IoUringError::PublicationInFlight
                        } else {
                            &&& error == IoUringError::InvalidRequestState
                            &&& old(self)@.entry(id).state != EntryState::Publishing(
                                publication.completion(),
                            )
                        }
                    },
                }
            }),
    {
        self.check_publication(&publication)?;
        let ghost before = self@;
        self.set_state(publication.id, EntryState::CompletionPending(publication.completion));
        self.publication_in_flight = None;
        proof {
            let after = self@;
            let at = publication.id.slot as int;
            count_update(before.slots, at, after.slots[at], |slot: RequestSlot| slot.live());
            assert forall|i: int|
                0 <= i < after.slots.len() && (#[trigger] after.slots[i]).available() implies after.free.contains(
            i as u32) by {
                assert(before.slots[i].available());
            }
            assert forall|i: int|
                0 <= i < after.slots.len() && (#[trigger] after.slots[i]).entry is Some implies !(
            after.slots[i].entry->0.state is Publishing) by {
                assert(before.slots[i].entry is Some);
            }
        }
        Ok(CompletionToken { id: publication.id })
    }

    /// Validates userspace CQ consumption and refunds exactly those credits.
    ///
    /// Backward, forged-forward, and over-consuming heads are rejected without
    /// changing accounting. Credits for unpublished completions are never
    /// refunded here.
    pub fn observe_completion_head(&mut self, user_head: u32) -> (result: Result<u32, IoUringError>)
        requires
            old(self).wf(),
        ensures
            final(self).wf(),
            old(self)@.advances_to(final(self)@),
            old(self)@.keeps_publication(final(self)@),
            ({
                let consumed = distance(old(self)@.cq_head, user_head);
                match result {
                    Ok(reaped) => {
                        &&& old(self)@.observe_refusal(user_head) is None
                        &&& reaped == consumed
                        &&& final(self)@ == RequestRegistryState {
                            cq_head: user_head,
                            ..old(self)@.refunded(consumed)
                        }
                    },
                    Err(error) => {
                        &&& final(self)@ == old(self)@
                        &&& old(self)@.observe_refusal(user_head) == Some(error)
                    },
                }
            }),
    {
        if self.publication_in_flight.is_some() {
            return Err(IoUringError::PublicationInFlight);
        }
        let ghost before = self@;
        let consumed = user_head.wrapping_sub(self.cq_head);
        if consumed > self.published_count() {
            return Err(IoUringError::CorruptCompletionHead);
        }
        self.cq_head = user_head;
        self.terminal_credits = self.terminal_credits - consumed;
        assert(self@.free_wf());
        Ok(consumed)
    }

    /// Stops new reservations while preserving all existing terminal owners.
    pub fn begin_close(&mut self) -> (result: Result<RequestProgress, IoUringError>)
        requires
            old(self).wf(),
        ensures
            final(self).wf(),
            old(self)@.advances_to(final(self)@),
            old(self)@.keeps_publication(final(self)@),
            final(self)@ == (RequestRegistryState {
                lifecycle: if old(self)@.lifecycle == RequestLifecycle::Open {
                    RequestLifecycle::Closing
                } else {
                    old(self)@.lifecycle
                },
                ..old(self)@
            }),
            result matches Ok(progress) && progress.describes(final(self)@),
    {
        if self.lifecycle == RequestLifecycle::Open {
            self.lifecycle = RequestLifecycle::Closing;
        }
        assert(self@.free_wf());
        self.progress()
    }

    /// Enters explicit discard mode after every executor/terminal owner ended.
    pub fn begin_draining(&mut self) -> (result: Result<RequestProgress, IoUringError>)
        requires
            old(self).wf(),
        ensures
            final(self).wf(),
            old(self)@.advances_to(final(self)@),
            old(self)@.keeps_publication(final(self)@),
            ({
                let settled = forall|i: int|
                    0 <= i < old(self)@.slots.len() && (#[trigger] old(self)@.slots[i]).live()
                        ==> old(self)@.slots[i].entry->0.state is CompletionPending;
                match result {
                    Ok(progress) => {
                        &&& old(self)@.lifecycle == RequestLifecycle::Draining || (old(
                            self,
                        )@.lifecycle == RequestLifecycle::Closing && settled)
                        &&& final(self)@ == RequestRegistryState {
                            lifecycle: RequestLifecycle::Draining,
                            ..old(self)@
                        }
                        &&& progress.describes(final(self)@)
                    },
                    Err(error) => {
                        &&& final(self)@ == old(self)@
                        &&& old(self)@.lifecycle != RequestLifecycle::Draining
                        &&& if old(self)@.lifecycle != RequestLifecycle::Closing {
                            error == IoUringError::InvalidLifecycleTransition
                        } else {
                            !settled && error == IoUringError::Busy
                        }
                    },
                }
            }),
    {
        if self.lifecycle == RequestLifecycle::Draining {
            return self.progress();
        }
        if self.lifecycle != RequestLifecycle::Closing {
            return Err(IoUringError::InvalidLifecycleTransition);
        }
        let mut i: usize = 0;
        while i < self.slots.len()
            invariant
                self@ == old(self)@,
                self.wf(),
                self.lifecycle == RequestLifecycle::Closing,
                self.slots@ == self@.slots,
                i <= self@.slots.len(),
                forall|j: int|
                    0 <= j < i && (#[trigger] self@.slots[j]).live()
                        ==> self@.slots[j].entry->0.state is CompletionPending,
            decreases self@.slots.len() - i,
        {
            if let Some(entry) = self.slots[i].entry {
                if !matches!(entry.state, EntryState::CompletionPending(_)) {
                    assert(self@.slots[i as int].live());
                    return Err(IoUringError::Busy);
                }
            }
            i = i + 1;
        }
        let ghost before = self@;
        self.lifecycle = RequestLifecycle::Draining;
        proof {
            assert forall|j: int|
                0 <= j < self@.slots.len() && (#[trigger] self@.slots[j]).entry
                    is Some implies self@.slots[j].entry->0.state is CompletionPending by {
                assert(before.slots[j].live());
            }
            assert(self@.free_wf());
        }
        self.progress()
    }

    /// Discards one unpublished terminal CQE after userspace lost access.
    pub fn discard_completion(&mut self, token: CompletionToken) -> (result: Result<
        (),
        IoUringError,
    >)
        requires
            old(self).wf(),
        ensures
            final(self).wf(),
            old(self)@.advances_to(final(self)@),
            old(self)@.keeps_publication(final(self)@),
            match result {
                Ok(_) => {
                    &&& old(self)@.lifecycle == RequestLifecycle::Draining
                    &&& old(self)@.knows(token.id())
                    &&& old(self)@.entry(token.id()).state is CompletionPending
                    &&& final(self)@ == old(self)@.cleared(token.id()).refunded(1)
                },
                Err(error) => {
                    &&& final(self)@ == old(self)@
                    &&& if old(self)@.lifecycle != RequestLifecycle::Draining {
                        error == IoUringError::InvalidLifecycleTransition
                    } else {
                        &&& !old(self)@.knows(token.id())
                        &&& error == IoUringError::UnknownRequest
                    }
                },
            },
    {
        if self.lifecycle != RequestLifecycle::Draining {
            return Err(IoUringError::InvalidLifecycleTransition);
        }
        match self.entry(token.id) {
            Ok(entry) => {
                assert(self@.slots[token.id.slot as int].entry is Some);
                if !matches!(entry.state, EntryState::CompletionPending(_)) {
                    return Err(IoUringError::InvalidRequestState);
                }
            },
            Err(error) => return Err(error),
        }
        proof {
            clearing_with_refund(self@, token.id);
        }
        self.clear_slot(token.id);
        self.terminal_credits = self.terminal_credits - 1;
        Ok(())
    }

    /// Discards all published but unconsumed CQEs after mappings are quiescent.
    pub fn discard_published(&mut self) -> (result: Result<u32, IoUringError>)
        requires
            old(self).wf(),
        ensures
            final(self).wf(),
            old(self)@.advances_to(final(self)@),
            old(self)@.keeps_publication(final(self)@),
            match result {
                Ok(discarded) => {
                    &&& old(self)@.lifecycle == RequestLifecycle::Draining
                    &&& discarded == old(self)@.published()
                    &&& final(self)@ == RequestRegistryState {
                        cq_head: old(self)@.cq_tail,
                        ..old(self)@.refunded(discarded as int)
                    }
                    &&& final(self)@.published() == 0
                },
                Err(error) => {
                    &&& final(self)@ == old(self)@
                    &&& old(self)@.lifecycle != RequestLifecycle::Draining
                    &&& error == IoUringError::InvalidLifecycleTransition
                },
            },
    {
        if self.lifecycle != RequestLifecycle::Draining {
            return Err(IoUringError::InvalidLifecycleTransition);
        }
        proof {
            if self@.in_flight is Some {
                assert(self@.slots[self@.in_flight->0.slot() as int].entry is Some);
            }
        }
        if self.publication_in_flight.is_some() {
            return Err(IoUringError::PublicationInFlight);
        }
        let published = self.published_count();
        self.cq_head = self.cq_tail;
        self.terminal_credits = self.terminal_credits - published;
        assert(self@.free_wf());
        Ok(published)
    }

    /// Finishes close only after every request and terminal credit is gone.
    pub fn finish_close(&mut self) -> (result: Result<(), IoUringError>)
        requires
            old(self).wf(),
        ensures
            final(self).wf(),
            old(self)@.advances_to(final(self)@),
            old(self)@.keeps_publication(final(self)@),
            match old(self)@.lifecycle {
                RequestLifecycle::Open => result == Err::<(), IoUringError>(
                    IoUringError::InvalidLifecycleTransition,
                ) && final(self)@ == old(self)@,
                RequestLifecycle::Closed => result == Ok::<(), IoUringError>(()) && final(self)@
                    == old(self)@,
                _ => if old(self)@.terminal_credits != 0 {
                    result == Err::<(), IoUringError>(IoUringError::Busy) && final(self)@ == old(
                        self,
                    )@
                } else {
                    result == Ok::<(), IoUringError>(()) && final(self)@ == (RequestRegistryState {
                        lifecycle: RequestLifecycle::Closed,
                        ..old(self)@
                    })
                },
            },
    {
        match self.lifecycle {
            RequestLifecycle::Open => return Err(IoUringError::InvalidLifecycleTransition),
            RequestLifecycle::Closed => return Ok(()),
            RequestLifecycle::Closing | RequestLifecycle::Draining => {},
        }
        proof {
            count_bounds(self@.slots, |slot: RequestSlot| slot.live());
            if self@.in_flight is Some {
                assert(self@.slots[self@.in_flight->0.slot() as int].live());
            }
        }
        if self.publication_in_flight.is_some() || self.has_live() || self.terminal_credits != 0 {
            return Err(IoUringError::Busy);
        }
        self.lifecycle = RequestLifecycle::Closed;
        assert(self@.free_wf());
        Ok(())
    }

    /// Returns a finite snapshot without exposing internal storage.
    pub fn progress(&self) -> (result: Result<RequestProgress, IoUringError>)
        requires
            self.wf(),
        ensures
            result matches Ok(progress) && progress.describes(self@),
    {
        let ghost slots = self@.slots;
        let ghost p0 = |slot: RequestSlot| slot.is_in(|s: EntryState| s is Reserved);
        let ghost p1 = |slot: RequestSlot| slot.is_in(|s: EntryState| s is Prepared);
        let ghost p2 = |slot: RequestSlot| slot.is_in(|s: EntryState| s is Issued);
        let ghost p3 = |slot: RequestSlot|
            slot.is_in(|s: EntryState| s == EntryState::Issued(CancellationMode::Uncancellable));
        let ghost p4 = |slot: RequestSlot| slot.is_in(|s: EntryState| s is TerminalClaimed);
        let ghost p5 = |slot: RequestSlot| slot.is_in(|s: EntryState| s is CompletionPending);
        let ghost p6 = |slot: RequestSlot| slot.is_in(|s: EntryState| s is Publishing);
        let mut progress = RequestProgress {
            lifecycle: self.lifecycle,
            reserved: 0,
            prepared: 0,
            issued: 0,
            uncancellable_issued: 0,
            terminal_claimed: 0,
            completion_pending: 0,
            publishing: 0,
            terminal_credits: self.terminal_credits,
            published: self.published_count(),
        };
        let mut i: usize = 0;
        while i < self.slots.len()
            invariant
                self.wf(),
                slots == self.slots@,
                slots.len() <= IORING_MAX_ENTRIES,
                i <= slots.len(),
                progress.lifecycle == self@.lifecycle,
                progress.terminal_credits == self@.terminal_credits,
                progress.published == self@.published(),
                p0 == (|slot: RequestSlot| slot.is_in(|s: EntryState| s is Reserved)),
                p1 == (|slot: RequestSlot| slot.is_in(|s: EntryState| s is Prepared)),
                p2 == (|slot: RequestSlot| slot.is_in(|s: EntryState| s is Issued)),
                p3 == (|slot: RequestSlot|
                    slot.is_in(
                        |s: EntryState| s == EntryState::Issued(CancellationMode::Uncancellable),
                    )),
                p4 == (|slot: RequestSlot| slot.is_in(|s: EntryState| s is TerminalClaimed)),
                p5 == (|slot: RequestSlot| slot.is_in(|s: EntryState| s is CompletionPending)),
                p6 == (|slot: RequestSlot| slot.is_in(|s: EntryState| s is Publishing)),
                progress.reserved == count(slots.take(i as int), p0) <= i,
                progress.prepared == count(slots.take(i as int), p1) <= i,
                progress.issued == count(slots.take(i as int), p2) <= i,
                progress.uncancellable_issued == count(slots.take(i as int), p3) <= i,
                progress.terminal_claimed == count(slots.take(i as int), p4) <= i,
                progress.completion_pending == count(slots.take(i as int), p5) <= i,
                progress.publishing == count(slots.take(i as int), p6) <= i,
            decreases slots.len() - i,
        {
            proof {
                count_take_next(slots, i as int, p0);
                count_take_next(slots, i as int, p1);
                count_take_next(slots, i as int, p2);
                count_take_next(slots, i as int, p3);
                count_take_next(slots, i as int, p4);
                count_take_next(slots, i as int, p5);
                count_take_next(slots, i as int, p6);
            }
            if let Some(entry) = self.slots[i].entry {
                match entry.state {
                    EntryState::Reserved => {
                        progress.reserved = progress.reserved + 1;
                    },
                    EntryState::Prepared => {
                        progress.prepared = progress.prepared + 1;
                    },
                    EntryState::Issued(mode) => {
                        progress.issued = progress.issued + 1;
                        if mode == CancellationMode::Uncancellable {
                            progress.uncancellable_issued = progress.uncancellable_issued + 1;
                        }
                    },
                    EntryState::TerminalClaimed(_) => {
                        progress.terminal_claimed = progress.terminal_claimed + 1;
                    },
                    EntryState::CompletionPending(_) => {
                        progress.completion_pending = progress.completion_pending + 1;
                    },
                    EntryState::Publishing(_) => {
                        progress.publishing = progress.publishing + 1;
                    },
                }
            }
            i = i + 1;
        }
        proof {
            assert(slots.take(i as int) =~= slots);
            states_partition_requests(slots);
        }
        Ok(progress)
    }

    fn entry(&self, id: RequestId) -> (result: Result<&RequestEntry, IoUringError>)
        ensures
            match result {
                Ok(entry) => self@.knows(id) && *entry == self@.entry(id),
                Err(error) => !self@.knows(id) && error == IoUringError::UnknownRequest,
            },
    {
        let index = id.slot as usize;
        if id.ring != self.ring || index >= self.slots.len() {
            return Err(IoUringError::UnknownRequest);
        }
        let slot = &self.slots[index];
        let current = match slot.generation {
            Some(generation) => generation == id.generation,
            None => false,
        };
        if !current {
            return Err(IoUringError::UnknownRequest);
        }
        match &slot.entry {
            Some(entry) => Ok(entry),
            None => Err(IoUringError::UnknownRequest),
        }
    }

    fn set_state(&mut self, id: RequestId, state: EntryState)
        requires
            old(self)@.knows(id),
        ensures
            final(self)@ == old(self)@.with_state(id, state),
    {
        let index = id.slot as usize;
        if let Some(entry) = self.slots[index].entry {
            self.slots[index].entry = Some(RequestEntry { state, ..entry });
        }
        assert(self@ =~= old(self)@.with_state(id, state));
    }

    fn clear_slot(&mut self, id: RequestId)
        requires
            old(self)@.knows(id),
        ensures
            final(self)@ == old(self)@.cleared(id),
    {
        let index = id.slot as usize;
        let generation = next_generation(id.generation);
        self.slots[index] = RequestSlot { generation, entry: None };
        if generation.is_some() {
            self.free_slots.push(id.slot);
        }
        assert(self@ =~= old(self)@.cleared(id));
    }

    fn published_count(&self) -> (result: u32)
        ensures
            result == self@.published(),
    {
        self.cq_tail.wrapping_sub(self.cq_head)
    }

    /// Skips the unused generations below `generation` of an empty slot, so
    /// that a restored registry does not issue them again.
    pub fn skip_slot_generations(&mut self, slot: u32, generation: u64) -> (result: Result<
        (),
        IoUringError,
    >)
        requires
            old(self).wf(),
        ensures
            final(self).wf(),
            old(self)@.advances_to(final(self)@),
            old(self)@.keeps_publication(final(self)@),
            ({
                let usable = slot < old(self)@.slots.len() && old(
                    self,
                )@.slots[slot as int].available() && old(self)@.slots[slot as int].generation->0
                    <= generation;
                if usable {
                    &&& result == Ok::<(), IoUringError>(())
                    &&& final(self)@ == RequestRegistryState {
                        slots: old(self)@.slots.update(
                            slot as int,
                            RequestSlot { generation: Some(generation), entry: None },
                        ),
                        ..old(self)@
                    }
                } else {
                    &&& result == Err::<(), IoUringError>(IoUringError::InvalidRequestState)
                    &&& final(self)@ == old(self)@
                }
            }),
    {
        let index = slot as usize;
        if index >= self.slots.len() || self.slots[index].entry.is_some() {
            return Err(IoUringError::InvalidRequestState);
        }
        match self.slots[index].generation {
            Some(current) => {
                if current > generation {
                    return Err(IoUringError::InvalidRequestState);
                }
            },
            None => return Err(IoUringError::InvalidRequestState),
        }
        let ghost before = self@;
        self.slots[index] = RequestSlot { generation: Some(generation), entry: None };
        proof {
            let after = self@;
            count_update(
                before.slots,
                slot as int,
                after.slots[slot as int],
                |s: RequestSlot| s.live(),
            );
            assert forall|i: int|
                0 <= i < after.slots.len() && (#[trigger] after.slots[i]).available() implies after.free.contains(
            i as u32) by {
                assert(before.slots[i].available());
            }
            assert forall|i: int|
                0 <= i < after.slots.len() && (#[trigger] after.slots[i]).entry is Some implies before.slots[i].entry
                == after.slots[i].entry by {}
        }
        Ok(())
    }

    /// Skips the admission sequences below `sequence`, so that a restored
    /// registry keeps its admission order. An earlier value changes nothing.
    pub fn skip_sequences(&mut self, sequence: u64)
        requires
            old(self).wf(),
        ensures
            final(self).wf(),
            old(self)@.advances_to(final(self)@),
            old(self)@.keeps_publication(final(self)@),
            final(self)@ == (RequestRegistryState {
                next_sequence: match old(self)@.next_sequence {
                    Some(next) => Some(
                        if sequence > next {
                            sequence
                        } else {
                            next
                        },
                    ),
                    None => None,
                },
                ..old(self)@
            }),
    {
        if let Some(next) = self.next_sequence {
            if sequence > next {
                self.next_sequence = Some(sequence);
            }
        }
        assert(self@.free_wf());
    }

    /// Starts the completion counters of an idle registry at `counter`.
    pub fn restore_completion_counters(&mut self, counter: u32) -> (result: Result<(), IoUringError>)
        requires
            old(self).wf(),
        ensures
            final(self).wf(),
            old(self)@.advances_to(final(self)@),
            old(self)@.keeps_publication(final(self)@),
            if old(self)@.terminal_credits == 0 {
                &&& result == Ok::<(), IoUringError>(())
                &&& final(self)@ == RequestRegistryState {
                    cq_head: counter,
                    cq_tail: counter,
                    ..old(self)@
                }
            } else {
                &&& result == Err::<(), IoUringError>(IoUringError::Busy)
                &&& final(self)@ == old(self)@
            },
    {
        if self.terminal_credits != 0 {
            return Err(IoUringError::Busy);
        }
        proof {
            if self@.in_flight is Some {
                in_flight_keeps_open(self@);
            }
        }
        self.cq_head = counter;
        self.cq_tail = counter;
        assert(self@.free_wf());
        Ok(())
    }
}

impl RequestProgress {
    /// The snapshot counts the requests of a registry by state. Every terminal
    /// credit is held by exactly one live request or published completion.
    pub open spec fn describes(self, state: RequestRegistryState) -> bool {
        &&& self.lifecycle() == state.lifecycle
        &&& self.reserved() == state.number_in(|s: EntryState| s is Reserved)
        &&& self.prepared() == state.number_in(|s: EntryState| s is Prepared)
        &&& self.issued() == state.number_in(|s: EntryState| s is Issued)
        &&& self.uncancellable_issued() == state.number_in(
            |s: EntryState| s == EntryState::Issued(CancellationMode::Uncancellable),
        )
        &&& self.terminal_claimed() == state.number_in(|s: EntryState| s is TerminalClaimed)
        &&& self.completion_pending() == state.number_in(|s: EntryState| s is CompletionPending)
        &&& self.publishing() == state.number_in(|s: EntryState| s is Publishing)
        &&& self.terminal_credits() == state.terminal_credits
        &&& self.published() == state.published()
        &&& self.terminal_credits() == self.reserved() + self.prepared() + self.issued()
            + self.terminal_claimed() + self.completion_pending() + self.publishing()
            + self.published()
    }
}

} // verus!
