use thekernel_linux_abi::fd::{OfdId, OfdOffsetError, OpenFileDescriptionState};

#[test]
fn short_io_advances_only_by_transferred_bytes() {
    let id = OfdId::new(1).unwrap();
    let mut state = OpenFileDescriptionState::new(id, 0, 10, ());
    assert_eq!(state.commit_io(10, 3), Ok(13));
    assert_eq!(state.offset(), 13);
}

#[test]
fn stale_or_overflowing_completion_does_not_mutate_offset() {
    let id = OfdId::new(1).unwrap();
    let mut state = OpenFileDescriptionState::new(id, 0, u64::MAX, ());
    assert_eq!(
        state.commit_io(7, 1),
        Err(OfdOffsetError::StaleStart {
            expected: u64::MAX,
            supplied: 7,
        })
    );
    assert_eq!(state.commit_io(u64::MAX, 1), Err(OfdOffsetError::Overflow));
    assert_eq!(state.offset(), u64::MAX);
}
