use thekernel_linux_abi::io_uring::{
    CancelSelector, CancellationMode, Completion, IORING_MAX_ENTRIES, IoUringError, PreparedRequest,
    RequestDescriptor, RequestLifecycle, RequestOperation, RequestRegistry, RequestState, RingId,
    TerminalCause,
};

fn ring(raw: u64) -> RingId {
    RingId::new(raw).unwrap()
}

fn descriptor(user_data: u64) -> RequestDescriptor {
    RequestDescriptor::new(user_data, RequestOperation::Nop)
}

#[derive(Clone, Copy, Debug, Eq, PartialEq)]
struct Published {
    completion: Completion,
    slot: u32,
    new_tail: u32,
}

fn complete(
    registry: &mut RequestRegistry,
    prepared: PreparedRequest,
    result: i32,
) -> Published {
    let permit = registry
        .claim_terminal(prepared.id(), TerminalCause::Completed)
        .unwrap();
    let token = registry.finish_terminal(permit, result, 0).unwrap();
    let publication = registry.publish(&token).unwrap();
    let published = Published {
        completion: publication.completion(),
        slot: publication.slot(),
        new_tail: publication.new_tail(),
    };
    registry.commit_publication(publication).unwrap();
    published
}

#[test]
fn terminal_credit_is_reserved_before_commit_and_rollback_refunds_it() {
    let mut registry = RequestRegistry::new(ring(1), 2, 1).unwrap();
    let reservation = registry.reserve(descriptor(7)).unwrap();
    assert_eq!(registry.progress().unwrap().terminal_credits(), 1);
    assert!(matches!(
        registry.reserve(descriptor(8)),
        Err(IoUringError::CompletionQueueFull)
    ));
    registry.rollback(reservation).unwrap();
    assert_eq!(registry.progress().unwrap().terminal_credits(), 0);
    assert!(registry.reserve(descriptor(8)).is_ok());
}

#[test]
fn request_capacity_is_bounded_by_the_pinned_linux_sq_limit() {
    assert!(matches!(
        RequestRegistry::new(ring(1), IORING_MAX_ENTRIES + 1, 1),
        Err(IoUringError::RequestCapacityExceeded)
    ));
    assert_eq!(RequestRegistry::new(ring(1), 3, 4).unwrap().capacity(), 3);
}

#[test]
fn published_credit_is_refunded_only_by_valid_user_head() {
    let mut registry = RequestRegistry::new(ring(1), 2, 2).unwrap();
    let reservation = registry.reserve(descriptor(11)).unwrap();
    let prepared = registry.commit(reservation).unwrap();
    let publication = complete(&mut registry, prepared, 42);
    assert_eq!(publication.slot, 0);
    assert_eq!(publication.new_tail, 1);
    assert_eq!(publication.completion, Completion::new(11, 42, 0));
    assert_eq!(registry.progress().unwrap().terminal_credits(), 1);
    assert_eq!(
        registry.observe_completion_head(2),
        Err(IoUringError::CorruptCompletionHead)
    );
    assert_eq!(registry.progress().unwrap().terminal_credits(), 1);
    assert_eq!(registry.observe_completion_head(1).unwrap(), 1);
    assert_eq!(registry.progress().unwrap().terminal_credits(), 0);
}

#[test]
fn request_slot_reuse_changes_generation_before_cq_reap() {
    let mut registry = RequestRegistry::new(ring(1), 1, 2).unwrap();
    let reservation = registry.reserve(descriptor(1)).unwrap();
    let first = registry.commit(reservation).unwrap();
    let first_id = first.id();
    complete(&mut registry, first, 0);

    let reservation = registry.reserve(descriptor(2)).unwrap();
    let second = registry.commit(reservation).unwrap();
    assert_eq!(first_id.slot(), second.id().slot());
    assert_ne!(first_id.generation(), second.id().generation());
    assert_eq!(
        registry.request(first_id),
        Err(IoUringError::UnknownRequest)
    );
}

#[test]
fn generation_and_admission_sequence_never_wrap_into_aba() {
    let mut generation_registry = RequestRegistry::new(ring(1), 1, 1).unwrap();
    generation_registry.skip_slot_generations(0, u64::MAX).unwrap();
    let reservation = generation_registry.reserve(descriptor(1)).unwrap();
    let prepared = generation_registry.commit(reservation).unwrap();
    complete(&mut generation_registry, prepared, 0);
    generation_registry.observe_completion_head(1).unwrap();
    assert!(matches!(
        generation_registry.reserve(descriptor(2)),
        Err(IoUringError::GenerationExhausted)
    ));

    let mut sequence_registry = RequestRegistry::new(ring(2), 1, 1).unwrap();
    sequence_registry.skip_sequences(u64::MAX);
    let reservation = sequence_registry.reserve(descriptor(1)).unwrap();
    let prepared = sequence_registry.commit(reservation).unwrap();
    complete(&mut sequence_registry, prepared, 0);
    sequence_registry.observe_completion_head(1).unwrap();
    assert!(matches!(
        sequence_registry.reserve(descriptor(2)),
        Err(IoUringError::GenerationExhausted)
    ));
}

#[test]
fn cq_counters_wrap_monotonically_without_refunding_early() {
    let mut registry = RequestRegistry::new(ring(1), 1, 2).unwrap();
    registry.restore_completion_counters(u32::MAX).unwrap();
    let reservation = registry.reserve(descriptor(1)).unwrap();
    let prepared = registry.commit(reservation).unwrap();
    let publication = complete(&mut registry, prepared, 0);
    assert_eq!(publication.new_tail, 0);
    assert_eq!(publication.slot, 1);
    assert_eq!(registry.observe_completion_head(0), Ok(1));
    assert_eq!(registry.progress().unwrap().terminal_credits(), 0);
}

#[test]
fn terminal_race_has_exactly_one_owner() {
    let mut registry = RequestRegistry::new(ring(1), 1, 2).unwrap();
    let reservation = registry.reserve(descriptor(1)).unwrap();
    let prepared = registry.commit(reservation).unwrap();
    let issued = registry.issue(prepared).unwrap();
    let permit = registry
        .claim_terminal(issued.id(), TerminalCause::Completed)
        .unwrap();
    assert!(matches!(
        registry.claim_terminal(issued.id(), TerminalCause::Cancelled),
        Err(IoUringError::TerminalAlreadyClaimed)
    ));
    assert!(registry.finish_terminal(permit, 0, 0).is_ok());
}

#[test]
fn publication_is_serialized_until_tail_commit_or_rollback() {
    let mut registry = RequestRegistry::new(ring(1), 2, 2).unwrap();
    let first_reservation = registry.reserve(descriptor(1)).unwrap();
    let first = registry.commit(first_reservation).unwrap();
    let first_permit = registry
        .claim_terminal(first.id(), TerminalCause::Completed)
        .unwrap();
    let first_token = registry.finish_terminal(first_permit, 10, 0).unwrap();

    let second_reservation = registry.reserve(descriptor(2)).unwrap();
    let second = registry.commit(second_reservation).unwrap();
    let second_permit = registry
        .claim_terminal(second.id(), TerminalCause::Completed)
        .unwrap();
    let second_token = registry.finish_terminal(second_permit, 20, 0).unwrap();

    let first_publication = registry.publish(&first_token).unwrap();
    assert_eq!(registry.progress().unwrap().publishing(), 1);
    assert!(matches!(
        registry.publish(&second_token),
        Err(IoUringError::PublicationInFlight)
    ));
    assert_eq!(
        registry.observe_completion_head(0),
        Err(IoUringError::PublicationInFlight)
    );
    let first_token = registry.rollback_publication(first_publication).unwrap();
    assert_eq!(registry.progress().unwrap().publishing(), 0);

    let first_publication = registry.publish(&first_token).unwrap();
    registry.commit_publication(first_publication).unwrap();
    let second_publication = registry.publish(&second_token).unwrap();
    assert_eq!(second_publication.slot(), 1);
    assert_eq!(second_publication.new_tail(), 2);
    registry.commit_publication(second_publication).unwrap();
}

#[test]
fn duplicate_user_data_cancellation_selects_oldest_live_request() {
    let mut registry = RequestRegistry::new(ring(1), 3, 4).unwrap();
    let reservation = registry.reserve(descriptor(9)).unwrap();
    let first = registry.commit(reservation).unwrap();
    let reservation = registry.reserve(descriptor(9)).unwrap();
    let second = registry.commit(reservation).unwrap();
    let permit = registry
        .claim_cancel(CancelSelector::UserData(9), None)
        .unwrap();
    assert_eq!(permit.id(), first.id());
    assert_eq!(
        registry.request(second.id()).unwrap().1,
        RequestState::Prepared
    );
}

#[test]
fn cancellation_exclusion_prevents_self_match() {
    let mut registry = RequestRegistry::new(ring(1), 1, 1).unwrap();
    let reservation = registry
        .reserve(RequestDescriptor::new(9, RequestOperation::AsyncCancel))
        .unwrap();
    let cancel = registry.commit(reservation).unwrap();
    assert!(matches!(
        registry.claim_cancel(CancelSelector::UserData(9), Some(cancel.id())),
        Err(IoUringError::CancellationTargetNotFound)
    ));
}

#[test]
fn repeated_cancel_observes_no_cancellable_target() {
    let mut registry = RequestRegistry::new(ring(1), 1, 1).unwrap();
    let reservation = registry.reserve(descriptor(9)).unwrap();
    let target = registry.commit(reservation).unwrap();
    let permit = registry
        .claim_cancel(CancelSelector::UserData(9), None)
        .unwrap();
    assert_eq!(permit.id(), target.id());
    assert!(matches!(
        registry.claim_cancel(CancelSelector::UserData(9), None),
        Err(IoUringError::CancellationTargetNotFound)
    ));
}

#[test]
fn irreversible_rw_handoff_blocks_cancel_and_forced_close_completion() {
    let mut registry = RequestRegistry::new(ring(1), 1, 1).unwrap();
    let reservation = registry
        .reserve(RequestDescriptor::new(9, RequestOperation::Write))
        .unwrap();
    let prepared = registry.commit(reservation).unwrap();
    let issued = registry.issue(prepared).unwrap();
    assert_eq!(issued.cancellation_mode(), CancellationMode::Uncancellable);
    assert!(matches!(
        registry.claim_cancel(CancelSelector::UserData(9), None),
        Err(IoUringError::CancellationTargetNotFound)
    ));
    assert_eq!(registry.progress().unwrap().uncancellable_issued(), 1);
    assert!(matches!(
        registry.claim_terminal(issued.id(), TerminalCause::Closing),
        Err(IoUringError::RequestUncancellable)
    ));
    let completion = registry
        .claim_terminal(issued.id(), TerminalCause::Completed)
        .unwrap();
    let completion = registry.finish_terminal(completion, 0, 0).unwrap();
    registry.begin_close().unwrap();
    registry.begin_draining().unwrap();
    registry.discard_completion(completion).unwrap();
    registry.finish_close().unwrap();
}

#[test]
fn poll_handoff_remains_cancellable_and_issue_race_returns_proof() {
    let mut registry = RequestRegistry::new(ring(1), 2, 2).unwrap();
    let reservation = registry
        .reserve(RequestDescriptor::new(7, RequestOperation::PollAdd))
        .unwrap();
    let poll = registry.commit(reservation).unwrap();
    let issued = registry.issue(poll).unwrap();
    assert_eq!(issued.cancellation_mode(), CancellationMode::Cancellable);
    let first_cancel = registry
        .claim_cancel(CancelSelector::UserData(7), None)
        .unwrap();
    let first_completion = registry.finish_terminal(first_cancel, -1, 0).unwrap();

    let reservation = registry
        .reserve(RequestDescriptor::new(8, RequestOperation::PollAdd))
        .unwrap();
    let prepared = registry.commit(reservation).unwrap();
    let id = prepared.id();
    let second_cancel = registry
        .claim_cancel(CancelSelector::UserData(8), None)
        .unwrap();
    let issue_error = registry
        .issue(prepared)
        .expect_err("cancel must win before external hand-off");
    assert_eq!(issue_error.error(), IoUringError::TerminalAlreadyClaimed);
    assert_eq!(issue_error.prepared().id(), id);
    let second_completion = registry.finish_terminal(second_cancel, -1, 0).unwrap();
    registry.begin_close().unwrap();
    registry.begin_draining().unwrap();
    registry.discard_completion(first_completion).unwrap();
    registry.discard_completion(second_completion).unwrap();
    registry.finish_close().unwrap();
}

#[test]
fn cross_ring_request_identity_is_rejected() {
    let mut first = RequestRegistry::new(ring(1), 1, 1).unwrap();
    let second = RequestRegistry::new(ring(2), 1, 1).unwrap();
    let reservation = first.reserve(descriptor(1)).unwrap();
    let prepared = first.commit(reservation).unwrap();
    assert_eq!(
        second.request(prepared.id()),
        Err(IoUringError::UnknownRequest)
    );
}

#[test]
fn close_preserves_terminal_credit_until_reap() {
    let mut registry = RequestRegistry::new(ring(1), 1, 1).unwrap();
    let reservation = registry.reserve(descriptor(1)).unwrap();
    let prepared = registry.commit(reservation).unwrap();
    registry.begin_close().unwrap();
    assert!(matches!(
        registry.reserve(descriptor(2)),
        Err(IoUringError::Closing)
    ));
    complete(&mut registry, prepared, 0);
    assert_eq!(registry.finish_close(), Err(IoUringError::Busy));
    registry.observe_completion_head(1).unwrap();
    registry.finish_close().unwrap();
    registry.begin_close().unwrap();
    registry.finish_close().unwrap();
    assert_eq!(
        registry.progress().unwrap().lifecycle(),
        RequestLifecycle::Closed
    );
}

#[test]
fn draining_requires_quiescent_execution_and_explicitly_refunds() {
    let mut registry = RequestRegistry::new(ring(1), 2, 2).unwrap();
    let reservation = registry.reserve(descriptor(1)).unwrap();
    let first = registry.commit(reservation).unwrap();
    let reservation = registry.reserve(descriptor(2)).unwrap();
    let second = registry.commit(reservation).unwrap();
    let first_token = {
        let permit = registry
            .claim_terminal(first.id(), TerminalCause::Closing)
            .unwrap();
        registry.finish_terminal(permit, -1, 0).unwrap()
    };
    registry.begin_close().unwrap();
    assert_eq!(registry.begin_draining(), Err(IoUringError::Busy));
    let second_token = {
        let permit = registry
            .claim_terminal(second.id(), TerminalCause::Closing)
            .unwrap();
        registry.finish_terminal(permit, -1, 0).unwrap()
    };
    registry.begin_draining().unwrap();
    registry.discard_completion(first_token).unwrap();
    registry.discard_completion(second_token).unwrap();
    registry.finish_close().unwrap();
}
