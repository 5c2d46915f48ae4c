use std::sync::Arc;
use thekernel_linux_abi::fd::{
    CloseBatch, DescriptorFlags, FdNumber, FdTable, FdTableError, FdTableId,
};

fn table_id(raw: u64) -> FdTableId {
    FdTableId::new(raw).unwrap()
}

#[test]
fn reservation_is_invisible_and_publish_is_generation_tagged() {
    let mut table = FdTable::<Arc<u32>, 4>::try_new(table_id(1)).unwrap();
    let reservation = table.reserve(0, 4, DescriptorFlags::EMPTY()).unwrap();
    assert_eq!(reservation.fd(), FdNumber::new(0));
    assert_eq!(
        table.get(FdNumber::new(0)),
        Err(FdTableError::BadDescriptor)
    );
    let token = table.publish(reservation, Arc::new(7)).unwrap();
    assert_eq!(**table.get_token(token).unwrap().description(), 7);
}

#[test]
fn prepared_publication_is_invisible_until_infallible_commit() {
    let mut table = FdTable::<Arc<u32>, 2>::try_new(table_id(1)).unwrap();
    let reservation = table.reserve(0, 2, DescriptorFlags::CLOSE_ON_EXEC()).unwrap();
    let publication = table.prepare_publication(reservation, Arc::new(7)).unwrap();
    assert_eq!(publication.fd(), FdNumber::new(0));
    assert_eq!(table.len(), 0);
    assert_eq!(
        table.get(FdNumber::new(0)),
        Err(FdTableError::BadDescriptor)
    );

    let token = publication.commit();
    let entry = table.get_token(token).unwrap();
    assert_eq!(**entry.description(), 7);
    assert_eq!(entry.flags(), DescriptorFlags::CLOSE_ON_EXEC());
}

#[test]
fn prepared_cancellation_returns_entry_and_exact_slot() {
    let mut table = FdTable::<Arc<u32>, 1>::try_new(table_id(1)).unwrap();
    let reservation = table.reserve(0, 1, DescriptorFlags::EMPTY()).unwrap();
    let publication = table.prepare_publication(reservation, Arc::new(7)).unwrap();
    let entry = table.cancel_prepared(publication).unwrap();
    assert_eq!(**entry.description(), 7);

    let reused = table.reserve(0, 1, DescriptorFlags::EMPTY()).unwrap();
    assert_eq!(reused.fd(), FdNumber::new(0));
    let reused = table.publish(reused, Arc::new(9)).unwrap();
    assert_eq!(**table.get_token(reused).unwrap().description(), 9);
}

#[test]
fn foreign_prepare_and_cancel_preserve_exact_authority() {
    let mut one = FdTable::<Arc<u32>, 1>::try_new(table_id(1)).unwrap();
    let mut two = FdTable::<Arc<u32>, 1>::try_new(table_id(2)).unwrap();
    let reservation = one.reserve(0, 1, DescriptorFlags::EMPTY()).unwrap();
    let description = Arc::new(7);
    let error = two
        .prepare_publication(reservation, description.clone())
        .unwrap_err();
    assert_eq!(error.error, FdTableError::StaleToken);
    assert!(Arc::ptr_eq(&error.description, &description));

    let publication = one
        .prepare_publication(error.reservation, error.description)
        .unwrap();
    let error = two.cancel_prepared(publication).unwrap_err();
    assert_eq!(error.error, FdTableError::StaleToken);
    let entry = one.cancel_prepared(error.publication).unwrap();
    assert!(Arc::ptr_eq(entry.description(), &description));
}

#[test]
fn prepared_slot_cannot_be_stolen_by_dup_replace() {
    let mut table = FdTable::<Arc<u32>, 2>::try_new(table_id(1)).unwrap();
    let source = table.reserve(0, 1, DescriptorFlags::EMPTY()).unwrap();
    let source = table.publish(source, Arc::new(1)).unwrap();
    let target = table.reserve(1, 2, DescriptorFlags::CLOSE_ON_EXEC()).unwrap();
    let publication = table.prepare_publication(target, Arc::new(2)).unwrap();

    assert_eq!(
        table.duplicate_replace(source.fd(), publication.fd(), DescriptorFlags::EMPTY()),
        Err(FdTableError::Busy)
    );
    let target = publication.commit();
    assert_eq!(**table.get_token(target).unwrap().description(), 2);
}

#[test]
fn committed_prepared_entries_follow_close_exec_and_fork_rules() {
    let mut table = FdTable::<Arc<u32>, 2>::try_new(table_id(1)).unwrap();
    let reservation = table.reserve(0, 2, DescriptorFlags::CLOSE_ON_EXEC()).unwrap();
    let publication = table.prepare_publication(reservation, Arc::new(7)).unwrap();
    let token = publication.commit();

    let fork = table.fork_copy(table_id(2)).unwrap();
    assert_eq!(**fork.get(token.fd()).unwrap().description(), 7);

    let mut batch = CloseBatch::try_with_capacity(1).unwrap();
    table.close_on_exec(&mut batch).unwrap();
    assert!(table.is_empty());
    assert_eq!(**batch.entries()[0].description(), 7);
}

#[test]
fn alloc_table_handle_stays_small_for_a_kernel_sized_ceiling() {
    assert!(core::mem::size_of::<FdTable<Arc<u32>, 1024>>() <= 64);
    let table = FdTable::<Arc<u32>, 1024>::try_new(table_id(1)).unwrap();
    assert_eq!(table.capacity(), 1024);
}

#[test]
fn iterator_is_ordered_and_skips_unpublished_reservations() {
    let mut table = FdTable::<Arc<u32>, 8>::try_new(table_id(1)).unwrap();
    let unpublished = table.reserve(0, 8, DescriptorFlags::EMPTY()).unwrap();
    let high = table.reserve(7, 8, DescriptorFlags::EMPTY()).unwrap();
    table.publish(high, Arc::new(7)).unwrap();
    let middle = table.reserve(3, 7, DescriptorFlags::EMPTY()).unwrap();
    table.publish(middle, Arc::new(3)).unwrap();

    let visible = table
        .iter()
        .into_iter()
        .map(|(fd, entry)| (fd.get(), **entry.description()))
        .collect::<Vec<_>>();
    assert_eq!(visible, vec![(3, 3), (7, 7)]);
    table.cancel_reservation(unpublished).unwrap();
}

#[test]
fn effectively_unbounded_table_is_rejected_before_allocation() {
    assert!(matches!(
        FdTable::<Arc<u32>, { usize::MAX }>::try_new(table_id(1)),
        Err(FdTableError::Unbounded)
    ));
}

#[test]
fn foreign_publication_returns_unpublished_ownership() {
    let mut one = FdTable::<Arc<u32>, 2>::try_new(table_id(1)).unwrap();
    let mut two = FdTable::<Arc<u32>, 2>::try_new(table_id(2)).unwrap();
    let reservation = one.reserve(0, 2, DescriptorFlags::EMPTY()).unwrap();
    let description = Arc::new(9);
    let error = two.publish(reservation, description.clone()).unwrap_err();
    assert_eq!(error.error, FdTableError::StaleToken);
    assert!(Arc::ptr_eq(&error.description, &description));
}

#[test]
fn stale_token_cannot_close_a_reused_number() {
    let mut table = FdTable::<Arc<u32>, 1>::try_new(table_id(1)).unwrap();
    let first = table.reserve(0, 1, DescriptorFlags::EMPTY()).unwrap();
    let first = table.publish(first, Arc::new(1)).unwrap();
    drop(table.close_token(first).unwrap());
    let second = table.reserve(0, 1, DescriptorFlags::EMPTY()).unwrap();
    let second = table.publish(second, Arc::new(2)).unwrap();
    assert_eq!(table.close_token(first), Err(FdTableError::StaleToken));
    assert_eq!(**table.get_token(second).unwrap().description(), 2);
}

#[test]
fn dup_and_fork_share_ofd_handle_but_copy_descriptor_flags() {
    let mut table = FdTable::<Arc<u32>, 4>::try_new(table_id(1)).unwrap();
    let source = table.reserve(0, 4, DescriptorFlags::EMPTY()).unwrap();
    let source = table.publish(source, Arc::new(3)).unwrap();
    let duplicate = table
        .duplicate(source.fd(), 0, 4, DescriptorFlags::CLOSE_ON_EXEC())
        .unwrap();
    assert!(Arc::ptr_eq(
        table.get_token(source).unwrap().description(),
        table.get_token(duplicate).unwrap().description(),
    ));
    assert_ne!(
        table.get_token(source).unwrap().flags(),
        table.get_token(duplicate).unwrap().flags(),
    );

    let fork = table.fork_copy(table_id(2)).unwrap();
    assert_eq!(fork.iter().len(), 2);
    assert!(Arc::ptr_eq(
        table.get(source.fd()).unwrap().description(),
        fork.get(source.fd()).unwrap().description(),
    ));
}

#[test]
fn close_batch_capacity_failure_is_atomic() {
    let mut table = FdTable::<Arc<u32>, 4>::try_new(table_id(1)).unwrap();
    for _ in 0..2 {
        let reservation = table.reserve(0, 4, DescriptorFlags::CLOSE_ON_EXEC()).unwrap();
        table.publish(reservation, Arc::new(1)).unwrap();
    }
    let mut too_small = CloseBatch::try_with_capacity(1).unwrap();
    assert_eq!(
        table.close_on_exec(&mut too_small),
        Err(FdTableError::InsufficientCloseStorage)
    );
    assert_eq!(table.len(), 2);

    let mut exact = CloseBatch::try_with_capacity(2).unwrap();
    table.close_on_exec(&mut exact).unwrap();
    assert_eq!(exact.entries().len(), 2);
    assert!(table.is_empty());
}

#[test]
fn full_cloexec_preparation_covers_flags_and_entries_added_before_commit() {
    let mut table = FdTable::<Arc<u32>, 3>::try_new(table_id(1)).unwrap();
    let keep = table.reserve(0, 1, DescriptorFlags::EMPTY()).unwrap();
    table.publish(keep, Arc::new(1)).unwrap();
    let prepared = table.prepare_close_on_exec().unwrap();

    table.set_close_on_exec(FdNumber::new(0), true).unwrap();
    let later = table.reserve(1, 3, DescriptorFlags::CLOSE_ON_EXEC()).unwrap();
    table.publish(later, Arc::new(2)).unwrap();

    let committed = table.commit_close_on_exec(prepared);
    let values = committed
        .entries()
        .iter()
        .map(|entry| **entry.description())
        .collect::<Vec<_>>();
    assert_eq!(values, vec![1, 2]);
    assert!(table.is_empty());
}

#[test]
fn close_batch_rejects_an_effectively_unbounded_request() {
    assert!(matches!(
        CloseBatch::<Arc<u32>>::try_with_capacity(usize::MAX),
        Err(FdTableError::Unbounded)
    ));
}

#[test]
fn dup_replace_never_steals_a_reserved_target() {
    let mut table = FdTable::<Arc<u32>, 2>::try_new(table_id(1)).unwrap();
    let source = table.reserve(0, 1, DescriptorFlags::EMPTY()).unwrap();
    let source = table.publish(source, Arc::new(1)).unwrap();
    let target = table.reserve(1, 2, DescriptorFlags::EMPTY()).unwrap();
    assert_eq!(
        table.duplicate_replace(source.fd(), target.fd(), DescriptorFlags::EMPTY()),
        Err(FdTableError::Busy)
    );
    table.cancel_reservation(target).unwrap();
}
