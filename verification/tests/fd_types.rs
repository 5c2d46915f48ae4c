use thekernel_linux_abi::fd::{FdNumber, InterestMask, ReadyMask};

#[test]
fn signed_descriptors_reject_negative_values() {
    assert_eq!(FdNumber::from_i32(-1), None);
    assert_eq!(FdNumber::from_i32(7), Some(FdNumber::new(7)));
}

#[test]
fn readiness_always_reports_error_and_hangup() {
    let ready = ReadyMask::ERROR() | ReadyMask::HANGUP() | ReadyMask::OUT();
    assert_eq!(
        ready.deliverable(InterestMask::IN()),
        ReadyMask::ERROR() | ReadyMask::HANGUP()
    );
}

#[test]
fn interest_decoder_rejects_result_and_trigger_bits() {
    assert!(InterestMask::from_bits(InterestMask::IN().bits()).is_some());
    assert!(InterestMask::from_bits(ReadyMask::ERROR().bits()).is_none());
    assert!(InterestMask::from_bits(1 << 31).is_none());
}
