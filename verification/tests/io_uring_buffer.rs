use std::sync::Arc;
use thekernel_linux_abi::io_uring::{
    BufferLeaseRelease, BufferSlot, BufferTableId, IoUringError, RegisteredBufferRange,
    RegisteredBufferTable, RingId,
};

#[derive(Debug, Eq, PartialEq)]
struct Pin(u32);

fn ring(raw: u64) -> RingId {
    RingId::new(raw).unwrap()
}

fn table(raw: u64) -> BufferTableId {
    BufferTableId::new(raw).unwrap()
}

#[test]
fn range_is_checked_against_the_registered_iovec() {
    assert!(matches!(
        RegisteredBufferRange::new(u64::MAX, 1),
        Err(IoUringError::InvalidBufferRange)
    ));
    let mut table = RegisteredBufferTable::new(ring(1), table(1), 1, 2).unwrap();
    let owner = Arc::new(Pin(7));
    let token = table
        .install(BufferSlot::new(0), 0x1000, 0x1000, owner)
        .unwrap();
    table.publish().unwrap();
    assert!(matches!(
        table.acquire(BufferSlot::new(0), 0x0fff, 1),
        Err(IoUringError::InvalidBufferRange)
    ));
    let lease = table.acquire(BufferSlot::new(0), 0x1800, 0x400).unwrap();
    assert_eq!(lease.range().end(), 0x1c00);
    assert_eq!(lease.token(), token);
    assert!(matches!(
        table.release(lease),
        Ok(BufferLeaseRelease::Active)
    ));
}

#[test]
fn unregister_waits_for_the_last_generation_bound_lease() {
    let mut table = RegisteredBufferTable::new(ring(1), table(1), 1, 2).unwrap();
    let token = table
        .install(BufferSlot::new(0), 0x2000, 0x1000, Arc::new(Pin(1)))
        .unwrap();
    table.publish().unwrap();
    let lease = table.acquire(BufferSlot::new(0), 0x2000, 0x1000).unwrap();
    table.begin_retire().unwrap();
    assert!(matches!(
        table.acquire(BufferSlot::new(0), 0x2000, 1),
        Err(IoUringError::Closing)
    ));
    assert!(matches!(table.retire(token), Err(IoUringError::Busy)));
    let BufferLeaseRelease::Retired(retired) = table.release(lease).unwrap() else {
        panic!("last lease must return retired owner");
    };
    assert_eq!(retired.token(), token);
    table.finish_retire().unwrap();
}

#[test]
fn table_epoch_and_generation_block_aba() {
    let mut first = RegisteredBufferTable::new(ring(1), table(1), 1, 1).unwrap();
    let token = first
        .install(BufferSlot::new(0), 0x3000, 0x1000, Arc::new(Pin(1)))
        .unwrap();
    first.publish().unwrap();
    first.begin_retire().unwrap();
    let retired = first.retire(token).unwrap();
    drop(retired);
    first.finish_retire().unwrap();

    let mut rebuilt = RegisteredBufferTable::new(ring(1), table(2), 1, 1).unwrap();
    rebuilt
        .install(BufferSlot::new(0), 0x3000, 0x1000, Arc::new(Pin(2)))
        .unwrap();
    rebuilt.publish().unwrap();
    assert!(matches!(
        rebuilt.acquire_token(token, 0x3000, 1),
        Err(IoUringError::UnknownBufferLease)
    ));
}
