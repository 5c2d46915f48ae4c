use std::sync::Arc;
use thekernel_linux_abi::io_uring::{
    FileSlot, FileTableId, IORING_MAX_CQ_ENTRIES, IORING_MAX_FIXED_FILES, IoUringError,
    LeaseRelease, RegisteredFileTable, RingId,
};

#[derive(Debug, Eq, PartialEq)]
struct File(u32);

fn ring(raw: u64) -> RingId {
    RingId::new(raw).unwrap()
}

fn table(raw: u64) -> FileTableId {
    FileTableId::new(raw).unwrap()
}

#[test]
fn table_is_not_visible_until_atomic_publication() {
    let mut table = RegisteredFileTable::new(ring(1), table(1), 2, 2).unwrap();
    let token = table.install(FileSlot::new(0), Arc::new(File(7))).unwrap();
    assert!(matches!(
        table.acquire_token(token),
        Err(IoUringError::FileTableNotPublished)
    ));
    table.publish().unwrap();
    let lease = table.acquire_token(token).unwrap();
    assert_eq!(lease.owner().0, 7);
    assert!(matches!(
        table.release(lease).unwrap(),
        LeaseRelease::Active
    ));
}

#[test]
fn lease_retains_exact_owner_after_retirement_starts() {
    let mut table = RegisteredFileTable::new(ring(1), table(1), 1, 1).unwrap();
    let token = table.install(FileSlot::new(0), Arc::new(File(7))).unwrap();
    table.publish().unwrap();
    let lease = table.acquire(FileSlot::new(0)).unwrap();
    table.begin_retire().unwrap();
    assert!(matches!(
        table.acquire(FileSlot::new(0)),
        Err(IoUringError::Closing)
    ));
    assert!(matches!(table.retire(token), Err(IoUringError::Busy)));
    let LeaseRelease::Retired(retired) = table.release(lease).unwrap() else {
        panic!("last retiring lease must return the owner");
    };
    assert_eq!(retired.token(), token);
    assert_eq!(retired.owner().0, 7);
    table.finish_retire().unwrap();
}

#[test]
fn empty_and_sparse_slots_retire_incrementally() {
    let mut table = RegisteredFileTable::new(ring(1), table(1), 3, 3).unwrap();
    let first = table.install(FileSlot::new(0), Arc::new(File(1))).unwrap();
    let last = table.install(FileSlot::new(2), Arc::new(File(3))).unwrap();
    table.publish().unwrap();
    table.begin_retire().unwrap();
    assert_eq!(table.next_retirable().unwrap(), Some(first));
    assert_eq!(table.retire(first).unwrap().owner().0, 1);
    assert_eq!(table.next_retirable().unwrap(), Some(last));
    assert_eq!(table.retire(last).unwrap().owner().0, 3);
    assert_eq!(table.next_retirable().unwrap(), None);
    table.finish_retire().unwrap();
}

#[test]
fn tokens_are_ring_and_generation_scoped() {
    let mut first = RegisteredFileTable::new(ring(1), table(1), 1, 1).unwrap();
    let mut second = RegisteredFileTable::new(ring(2), table(1), 1, 1).unwrap();
    let token = first.install(FileSlot::new(0), Arc::new(File(1))).unwrap();
    first.publish().unwrap();
    second.install(FileSlot::new(0), Arc::new(File(2))).unwrap();
    second.publish().unwrap();
    assert!(matches!(
        second.acquire_token(token),
        Err(IoUringError::UnknownFileLease)
    ));
}

#[test]
fn construction_rejects_unbounded_or_zero_tables() {
    assert!(matches!(
        RegisteredFileTable::<File>::new(ring(1), table(1), 0, 1),
        Err(IoUringError::InvalidFileTableCapacity)
    ));
    assert!(matches!(
        RegisteredFileTable::<File>::new(ring(1), table(1), IORING_MAX_FIXED_FILES + 1, 1),
        Err(IoUringError::InvalidFileTableCapacity)
    ));
    assert!(matches!(
        RegisteredFileTable::<File>::new(ring(1), table(1), 1, 0),
        Err(IoUringError::InvalidFileLeaseCapacity)
    ));
    assert!(matches!(
        RegisteredFileTable::<File>::new(ring(1), table(1), 1, IORING_MAX_CQ_ENTRIES + 1),
        Err(IoUringError::InvalidFileLeaseCapacity)
    ));
}

#[test]
fn lease_admission_obeys_the_table_level_budget() {
    let mut table = RegisteredFileTable::new(ring(1), table(1), 1, 1).unwrap();
    table.install(FileSlot::new(0), Arc::new(File(1))).unwrap();
    table.publish().unwrap();
    let lease = table.acquire(FileSlot::new(0)).unwrap();
    assert!(matches!(
        table.acquire(FileSlot::new(0)),
        Err(IoUringError::FileLeaseCapacityExceeded)
    ));
    assert_eq!(table.progress().unwrap().leases(), 1);
    assert_eq!(table.progress().unwrap().lease_capacity(), 1);
    assert!(matches!(table.release(lease), Ok(LeaseRelease::Active)));
}

#[test]
fn failed_install_and_wrong_table_release_return_ownership() {
    let mut first = RegisteredFileTable::new(ring(1), table(1), 1, 1).unwrap();
    first.install(FileSlot::new(0), Arc::new(File(1))).unwrap();
    let rejected = Arc::new(File(2));
    let rejected_ptr = Arc::as_ptr(&rejected);
    let install_error = first
        .install(FileSlot::new(0), rejected)
        .expect_err("occupied slot must reject install");
    assert_eq!(install_error.error(), IoUringError::FileSlotOccupied);
    assert_eq!(Arc::as_ptr(install_error.owner()), rejected_ptr);
    drop(install_error.into_owner());

    first.publish().unwrap();
    let lease = first.acquire(FileSlot::new(0)).unwrap();
    let mut other = RegisteredFileTable::new(ring(1), table(2), 1, 1).unwrap();
    other.install(FileSlot::new(0), Arc::new(File(3))).unwrap();
    other.publish().unwrap();
    let release_error = other
        .release(lease)
        .expect_err("foreign table must return the lease");
    assert_eq!(release_error.error(), IoUringError::UnknownFileLease);
    assert!(matches!(
        first.release(release_error.into_lease()),
        Ok(LeaseRelease::Active)
    ));
}

#[test]
fn registration_epoch_prevents_rebuild_aba_within_one_ring() {
    let mut first = RegisteredFileTable::new(ring(1), table(1), 1, 1).unwrap();
    let token = first.install(FileSlot::new(0), Arc::new(File(1))).unwrap();
    first.publish().unwrap();

    let mut rebuilt = RegisteredFileTable::new(ring(1), table(2), 1, 1).unwrap();
    rebuilt
        .install(FileSlot::new(0), Arc::new(File(2)))
        .unwrap();
    rebuilt.publish().unwrap();
    assert!(matches!(
        rebuilt.acquire_token(token),
        Err(IoUringError::UnknownFileLease)
    ));
}
