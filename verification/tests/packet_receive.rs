use thekernel_linux_abi::packet::{
    FrameLayout, MSG_PEEK, PacketError, PacketSocketType, QueueDisposition, ReceiveFlags,
};

#[test]
fn raw_and_datagram_views_choose_different_starts() {
    let layout = FrameLayout::new(100, 14).unwrap();
    let raw = layout.full_view(PacketSocketType::Raw);
    assert_eq!(raw.payload_offset(), 0);
    assert_eq!(raw.original_len(), 100);

    let cooked = layout.full_view(PacketSocketType::Datagram);
    assert_eq!(cooked.payload_offset(), 14);
    assert_eq!(cooked.original_len(), 86);
    assert_eq!(
        layout.captured_view(PacketSocketType::Datagram, 87),
        Err(PacketError::InvalidCapturedLength)
    );
}

#[test]
fn peek_and_trunc_are_independent_decisions() {
    let view = FrameLayout::new(100, 14)
        .unwrap()
        .captured_view(PacketSocketType::Raw, 80)
        .unwrap();
    let ordinary = view.receive_decision(32, ReceiveFlags::EMPTY());
    assert_eq!(ordinary.copy_len(), 32);
    assert_eq!(ordinary.returned_len(), 32);
    assert!(ordinary.message_truncated());
    assert_eq!(ordinary.queue_disposition(), QueueDisposition::Consume);
    assert!(ordinary.queue_disposition().claims_before_copy());

    let flags = ReceiveFlags::PEEK().union(ReceiveFlags::TRUNC());
    let peek = view.receive_decision(32, flags);
    assert_eq!(peek.copy_len(), 32);
    assert_eq!(peek.returned_len(), 80);
    assert_eq!(peek.queue_disposition(), QueueDisposition::Retain);
    assert!(!peek.queue_disposition().claims_before_copy());
    assert_eq!(peek.original_len(), 100);
}

#[test]
fn unsupported_flags_fail_before_queue_or_usercopy_work() {
    assert_eq!(
        ReceiveFlags::from_bits(MSG_PEEK | (1 << 30)),
        Err(PacketError::UnsupportedReceiveFlags)
    );
}
