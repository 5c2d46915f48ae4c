use thekernel_linux_abi::packet::{ETH_P_ALL, EtherType, PacketError, ProtocolSelector};

#[test]
fn sentinels_are_canonical_and_exact_values_are_validated() {
    assert_eq!(
        ProtocolSelector::from_host_order(0),
        ProtocolSelector::Disabled
    );
    assert_eq!(
        ProtocolSelector::from_host_order(ETH_P_ALL),
        ProtocolSelector::All
    );
    let ipv4 = EtherType::new(0x0800).unwrap();
    assert_eq!(
        ProtocolSelector::from_host_order(0x0800),
        ProtocolSelector::Exact(ipv4)
    );
    assert_eq!(EtherType::new(0), Err(PacketError::InvalidExactProtocol));
    assert_eq!(
        EtherType::new(ETH_P_ALL),
        Err(PacketError::InvalidExactProtocol)
    );
}

#[test]
fn network_order_is_confined_to_named_boundaries() {
    let raw = 0x0800_u16.to_be();
    let selector = ProtocolSelector::from_network_order_u16(raw);
    assert_eq!(selector.host_order(), 0x0800);
    assert_eq!(selector.to_network_order_u16(), raw);
    assert_eq!(
        ProtocolSelector::from_network_order_i32(-1).host_order(),
        u16::from_be(u16::MAX)
    );
    assert_eq!(
        ProtocolSelector::from_network_order_i32(0x1_0000),
        ProtocolSelector::Disabled
    );
}

#[test]
fn matching_uses_normalized_host_order() {
    let ipv6 = ProtocolSelector::from_host_order(0x86dd);
    assert!(ipv6.accepts_host_order(0x86dd));
    assert!(!ipv6.accepts_host_order(0x0800));
    assert!(ProtocolSelector::All.accepts_host_order(0x0800));
    assert!(!ProtocolSelector::Disabled.accepts_host_order(0x0800));
}
