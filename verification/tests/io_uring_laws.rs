use std::sync::Arc;
use thekernel_linux_abi::io_uring::{
    BufferLeaseRelease, BufferSlot, BufferTableId, CancelSelector, Completion, FeatureFlags, FileSlot,
    FileTableId, IoUringError, LeaseRelease, MappingRegion, RegisteredBufferTable,
    RegisteredFileTable, RequestDescriptor, RequestLifecycle, RequestOperation, RequestRegistry,
    RequestState, RingId, SetupFlags, SetupRequest, TerminalCause, IORING_MAX_CQ_ENTRIES,
    IORING_MAX_ENTRIES, IORING_OFF_CQ_RING, IORING_OFF_SQES, IORING_OFF_SQ_RING,
};

fn ring() -> RingId {
    RingId::new(1).unwrap()
}

fn nop(user_data: u64) -> RequestDescriptor {
    RequestDescriptor::new(user_data, RequestOperation::Nop)
}

fn setup(entries: u32, cq_entries: u32, flags: u32) -> SetupRequest {
    SetupRequest::new(entries, cq_entries, SetupFlags::from_bits(flags).unwrap())
}

fn cqsize() -> u32 {
    SetupFlags::CQSIZE().bits()
}

fn clamp() -> u32 {
    SetupFlags::CLAMP().bits()
}

#[test]
fn setup_reports_each_depth_violation() {
    assert_eq!(RingId::new(0), Err(IoUringError::InvalidIdentity));
    assert_eq!(setup(0, 0, 0).resolve(), Err(IoUringError::ZeroEntries));
    assert_eq!(
        setup(IORING_MAX_ENTRIES + 1, 0, 0).resolve(),
        Err(IoUringError::SubmissionEntriesTooLarge)
    );
    assert_eq!(setup(4, 0, cqsize()).resolve(), Err(IoUringError::ZeroCompletionEntries));
    assert_eq!(
        setup(4, IORING_MAX_CQ_ENTRIES + 1, cqsize()).resolve(),
        Err(IoUringError::CompletionEntriesTooLarge)
    );
    assert_eq!(setup(8, 4, cqsize()).resolve(), Err(IoUringError::CompletionEntriesTooSmall));
    assert!(FeatureFlags::INITIAL().contains(FeatureFlags::EMPTY()));
}

#[test]
fn depths_round_up_to_the_next_power_of_two() {
    for (entries, expected) in [(1u32, 1u32), (2, 2), (3, 4), (5, 8), (1000, 1024), (32_768, 32_768)]
    {
        let layout = setup(entries, 0, 0).resolve().unwrap();
        assert_eq!(layout.sq_entries(), expected);
        assert_eq!(layout.cq_entries(), 2 * expected);
        assert_eq!(layout.sq_mask(), expected - 1);
        for counter in [0u32, 1, 7, expected, u32::MAX] {
            assert_eq!(layout.submission_slot(counter), counter % expected);
        }
    }
    let clamped = setup(u32::MAX, u32::MAX, cqsize() | clamp()).resolve().unwrap();
    assert_eq!(clamped.sq_entries(), IORING_MAX_ENTRIES);
    assert_eq!(clamped.cq_entries(), IORING_MAX_CQ_ENTRIES);
}

#[test]
fn mapping_offsets_name_exactly_the_ring_regions() {
    let layout = setup(4, 0, 0).resolve().unwrap();
    let rings = layout.mapping_region(IORING_OFF_SQ_RING).unwrap();
    assert_eq!(layout.mapping_region(IORING_OFF_CQ_RING), Ok(rings));
    assert_eq!(layout.mapping_bytes(rings), layout.ring_bytes());
    let sqes = layout.mapping_region(IORING_OFF_SQES).unwrap();
    assert_eq!(layout.mapping_bytes(sqes), 4 * 64);
    assert_ne!(rings, sqes);
    assert_eq!(layout.mapping_region(1), Err(IoUringError::InvalidMappingOffset));
    let _: MappingRegion = rings;
}

#[test]
fn rollback_undoes_a_reservation_but_not_its_identity() {
    let mut registry = RequestRegistry::new(ring(), 1, 2).unwrap();
    let before = registry.progress().unwrap();
    let reservation = registry.reserve(nop(1)).unwrap();
    let id = reservation.id();
    registry.rollback(reservation).unwrap();
    assert_eq!(registry.progress().unwrap(), before);
    assert_eq!(registry.request(id), Err(IoUringError::UnknownRequest));
    let again = registry.reserve(nop(1)).unwrap();
    assert_eq!(again.id().slot(), id.slot());
    assert!(again.id().generation() > id.generation());
}

#[test]
fn terminal_ownership_is_exclusive() {
    let mut registry = RequestRegistry::new(ring(), 2, 2).unwrap();
    let reservation = registry.reserve(nop(1)).unwrap();
    let id = reservation.id();
    assert!(matches!(
        registry.claim_terminal(id, TerminalCause::Completed),
        Err(IoUringError::InvalidRequestState)
    ));
    let prepared = registry.commit(reservation).unwrap();
    let issued = registry.issue(prepared).unwrap();
    let permit = registry.claim_terminal(issued.id(), TerminalCause::Completed).unwrap();
    assert!(matches!(
        registry.claim_terminal(id, TerminalCause::Cancelled),
        Err(IoUringError::TerminalAlreadyClaimed)
    ));
    assert!(registry.claim_cancel(CancelSelector::UserData(1), None).is_err());
    let token = registry.finish_terminal(permit, -5, 3).unwrap();
    assert_eq!(registry.request(id), Ok((nop(1), RequestState::CompletionPending)));
    let publication = registry.publish(&token).unwrap();
    assert_eq!(publication.completion().result(), -5);
    assert_eq!(publication.completion().flags(), 3);
    assert!(matches!(registry.publish(&token), Err(IoUringError::PublicationInFlight)));
    let token = registry.rollback_publication(publication).unwrap();
    let publication = registry.publish(&token).unwrap();
    registry.commit_publication(publication).unwrap();
    assert_eq!(registry.request(id), Err(IoUringError::UnknownRequest));
    assert!(matches!(registry.publish(&token), Err(IoUringError::UnknownRequest)));
}

#[test]
fn credits_are_charged_until_the_consumer_moves_on() {
    let mut registry = RequestRegistry::new(ring(), 4, 2).unwrap();
    for user_data in 0..2 {
        let reservation = registry.reserve(nop(user_data)).unwrap();
        let prepared = registry.commit(reservation).unwrap();
        let permit =
            registry.claim_terminal(prepared.id(), TerminalCause::PreparationFailed).unwrap();
        let token = registry.finish_terminal(permit, -22, 0).unwrap();
        let publication = registry.publish(&token).unwrap();
        registry.commit_publication(publication).unwrap();
    }
    let progress = registry.progress().unwrap();
    assert!(progress.requests_empty());
    assert_eq!((progress.terminal_credits(), progress.published()), (2, 2));
    assert!(matches!(registry.reserve(nop(9)), Err(IoUringError::CompletionQueueFull)));
    assert_eq!(registry.observe_completion_head(1), Ok(1));
    assert!(registry.reserve(nop(9)).is_ok());
}

#[test]
fn closing_only_moves_forward() {
    let mut registry = RequestRegistry::new(ring(), 2, 2).unwrap();
    assert_eq!(registry.begin_draining(), Err(IoUringError::InvalidLifecycleTransition));
    assert_eq!(registry.finish_close(), Err(IoUringError::InvalidLifecycleTransition));
    assert_eq!(registry.discard_published(), Err(IoUringError::InvalidLifecycleTransition));
    assert_eq!(registry.begin_close().unwrap().lifecycle(), RequestLifecycle::Closing);
    assert!(matches!(registry.reserve(nop(1)), Err(IoUringError::Closing)));
    assert_eq!(registry.begin_draining().unwrap().lifecycle(), RequestLifecycle::Draining);
    assert!(matches!(registry.reserve(nop(1)), Err(IoUringError::Draining)));
    assert_eq!(registry.discard_published(), Ok(0));
    registry.finish_close().unwrap();
    assert!(matches!(registry.reserve(nop(1)), Err(IoUringError::Closed)));
}

#[test]
fn released_file_leases_restore_the_table() {
    let mut table =
        RegisteredFileTable::new(ring(), FileTableId::new(3).unwrap(), 2, 1).unwrap();
    let owner = Arc::new(5u32);
    let token = table.install(FileSlot::new(1), owner.clone()).unwrap();
    assert_eq!(
        table.install(FileSlot::new(1), owner.clone()).unwrap_err().error(),
        IoUringError::FileSlotOccupied
    );
    assert_eq!(
        table.install(FileSlot::new(2), owner.clone()).unwrap_err().error(),
        IoUringError::InvalidFileSlot
    );
    table.publish().unwrap();
    let before = table.progress().unwrap();
    assert!(matches!(table.acquire(FileSlot::new(0)), Err(IoUringError::FileSlotEmpty)));
    assert!(matches!(table.acquire(FileSlot::new(9)), Err(IoUringError::InvalidFileSlot)));
    let lease = table.acquire_token(token).unwrap();
    assert!(Arc::ptr_eq(lease.owner(), &owner));
    assert_eq!(table.progress().unwrap().leases(), 1);
    assert!(matches!(
        table.acquire(FileSlot::new(1)),
        Err(IoUringError::FileLeaseCapacityExceeded)
    ));
    assert!(matches!(table.release(lease).unwrap(), LeaseRelease::Active));
    assert_eq!(table.progress().unwrap(), before);
    assert!(matches!(table.retire(token), Err(IoUringError::InvalidLifecycleTransition)));
    table.begin_retire().unwrap();
    let retired = table.retire(token).unwrap();
    assert!(Arc::ptr_eq(retired.owner(), &owner));
    assert!(matches!(table.retire(token), Err(IoUringError::UnknownFileLease)));
    table.finish_retire().unwrap();
    assert!(matches!(table.acquire(FileSlot::new(1)), Err(IoUringError::Closed)));
}

#[test]
fn released_buffer_leases_restore_the_table() {
    let id = BufferTableId::new(3).unwrap();
    assert!(matches!(
        RegisteredBufferTable::<u32>::new(ring(), id, 0, 1),
        Err(IoUringError::InvalidBufferTableCapacity)
    ));
    assert!(matches!(
        RegisteredBufferTable::<u32>::new(ring(), id, 1, 0),
        Err(IoUringError::InvalidBufferLeaseCapacity)
    ));
    let mut table = RegisteredBufferTable::new(ring(), id, 2, 1).unwrap();
    let owner = Arc::new(7u32);
    let token = table.install(BufferSlot::new(0), 0x1000, 0x100, owner.clone()).unwrap();
    assert_eq!(
        table.install(BufferSlot::new(0), 0x1000, 0x100, owner.clone()).unwrap_err().error(),
        IoUringError::BufferSlotOccupied
    );
    assert_eq!(
        table.install(BufferSlot::new(5), 0x1000, 0x100, owner.clone()).unwrap_err().error(),
        IoUringError::InvalidBufferSlot
    );
    assert!(matches!(
        table.acquire(BufferSlot::new(0), 0x1000, 1),
        Err(IoUringError::BufferTableNotPublished)
    ));
    table.publish().unwrap();
    let before = table.progress().unwrap();
    assert!(matches!(
        table.acquire(BufferSlot::new(1), 0x1000, 1),
        Err(IoUringError::BufferSlotEmpty)
    ));
    assert!(matches!(
        table.acquire(BufferSlot::new(0), 0x1000, 0x101),
        Err(IoUringError::InvalidBufferRange)
    ));
    let lease = table.acquire_token(token, 0x1080, 0x80).unwrap();
    assert_eq!((lease.range().address(), lease.range().end()), (0x1080, 0x1100));
    assert!(Arc::ptr_eq(lease.owner(), &owner));
    assert!(matches!(
        table.acquire(BufferSlot::new(0), 0x1000, 1),
        Err(IoUringError::BufferLeaseCapacityExceeded)
    ));
    assert!(matches!(table.release(lease).unwrap(), BufferLeaseRelease::Active));
    assert_eq!(table.progress().unwrap(), before);
}

#[test]
fn reservations_never_share_an_identity() {
    let mut registry = RequestRegistry::new(ring(), 2, 2).unwrap();
    let mut seen = Vec::new();
    for round in 0..6 {
        let reservation = registry.reserve(nop(round)).unwrap();
        assert_eq!(reservation.id().ring(), registry.ring());
        assert!(!seen.contains(&reservation.id()));
        seen.push(reservation.id());
        registry.rollback(reservation).unwrap();
        for id in &seen {
            assert_eq!(registry.request(*id), Err(IoUringError::UnknownRequest));
        }
    }
}

#[test]
fn publication_is_exclusive_until_settled() {
    let mut registry = RequestRegistry::new(ring(), 3, 4).unwrap();
    let mut tokens = Vec::new();
    for user_data in 0..2 {
        let reservation = registry.reserve(nop(user_data)).unwrap();
        let prepared = registry.commit(reservation).unwrap();
        let permit = registry.claim_terminal(prepared.id(), TerminalCause::Completed).unwrap();
        tokens.push(registry.finish_terminal(permit, 1, 0).unwrap());
    }
    let publication = registry.publish(&tokens[0]).unwrap();
    let reservation = registry.reserve(nop(9)).unwrap();
    registry.rollback(reservation).unwrap();
    registry.begin_close().unwrap();
    for token in &tokens {
        assert!(matches!(registry.publish(token), Err(IoUringError::PublicationInFlight)));
    }
    for head in [0, 1, u32::MAX] {
        assert_eq!(
            registry.observe_completion_head(head),
            Err(IoUringError::PublicationInFlight)
        );
    }
    assert_eq!((publication.slot(), publication.new_tail()), (0, 1));
    assert_eq!(registry.completion_tail(), 0);
    registry.commit_publication(publication).unwrap();
    assert_eq!(registry.completion_tail(), 1);
    assert_eq!(registry.observe_completion_head(1), Ok(1));
    let second = registry.publish(&tokens[1]).unwrap();
    assert_eq!((second.slot(), second.new_tail()), (1, 2));
}

#[test]
fn recorded_completions_are_published() {
    let mut registry = RequestRegistry::new(ring(), 4, 4).unwrap();
    let reservation = registry.reserve(nop(77)).unwrap();
    let prepared = registry.commit(reservation).unwrap();
    let permit = registry.claim_terminal(prepared.id(), TerminalCause::Completed).unwrap();
    let token = registry.finish_terminal(permit, -11, 5).unwrap();
    let expected = Completion::new(77, -11, 5);
    for round in 0..3 {
        let other = registry.reserve(nop(round)).unwrap();
        let other = registry.commit(other).unwrap();
        let permit = registry.claim_cancel(CancelSelector::UserData(round), None).unwrap();
        assert_eq!(permit.id(), other.id());
        let done = registry.finish_terminal(permit, round as i32, 1).unwrap();
        let publication = registry.publish(&done).unwrap();
        assert_eq!(publication.completion(), Completion::new(round, round as i32, 1));
        registry.commit_publication(publication).unwrap();
        registry.observe_completion_head(registry.completion_tail()).unwrap();
    }
    let publication = registry.publish(&token).unwrap();
    assert_eq!(publication.completion(), expected);
    let token = registry.rollback_publication(publication).unwrap();
    registry.begin_close().unwrap();
    let credits = registry.progress().unwrap().terminal_credits();
    let tail = registry.completion_tail();
    let publication = registry.publish(&token).unwrap();
    assert_eq!(publication.completion(), expected);
    assert_eq!(publication.slot(), tail & (registry.cq_entries() - 1));
    assert_eq!(publication.new_tail(), tail.wrapping_add(1));
    assert_eq!(registry.completion_tail(), tail);
    assert_eq!(registry.progress().unwrap().terminal_credits(), credits);
}
