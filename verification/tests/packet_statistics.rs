use thekernel_linux_abi::packet::{PacketStatistics};

#[test]
fn aggregate_snapshot_is_mapped_without_reason_invention() {
    let stats = PacketStatistics::from_destructive_snapshot(6, 5, 7, 11);
    assert_eq!(stats.packets(), 6);
    assert_eq!(stats.drops(), 5);
    assert_eq!(stats.filter_rejected(), 7);
    assert_eq!(stats.filter_errors(), 11);
}

#[test]
fn aggregate_values_are_preserved_even_without_reason_decomposition() {
    let stats = PacketStatistics::from_destructive_snapshot(u64::MAX, u64::MAX, 0, 0);
    assert_eq!(stats.packets(), u64::MAX);
    assert_eq!(stats.drops(), u64::MAX);
    assert!(!stats.is_empty());

    assert!(PacketStatistics::from_destructive_snapshot(0, 0, 0, 0).is_empty());
}
