use thekernel_linux_abi::packet::{
    AF_PACKET, InterfaceIndex, PacketBindRequest, PacketError, PacketType, SockAddrLl,
};

#[test]
fn raw_sockaddr_conversion_validates_every_bounded_field() {
    let address = SockAddrLl::try_from_network_order_fields(
        AF_PACKET,
        0x0800_u16.to_be(),
        7,
        1,
        PacketType::BROADCAST().raw(),
        6,
        [1, 2, 3, 4, 5, 6, 99, 99],
    )
    .unwrap();
    assert_eq!(address.interface().raw(), 7);
    assert_eq!(address.protocol().host_order(), 0x0800);
    assert_eq!(address.address().as_bytes(), &[1, 2, 3, 4, 5, 6]);
    assert_eq!(address.address().padded_bytes(), [1, 2, 3, 4, 5, 6, 0, 0]);

    assert_eq!(
        SockAddrLl::try_from_network_order_fields(2, 0, 0, 0, 0, 0, [0; 8]),
        Err(PacketError::InvalidAddressFamily)
    );
    assert_eq!(
        SockAddrLl::try_from_network_order_fields(AF_PACKET, 0, -1, 0, 0, 0, [0; 8]),
        Err(PacketError::InvalidInterfaceIndex)
    );
    let extension =
        SockAddrLl::try_from_network_order_fields(AF_PACKET, 0, 0, 0, 0xff, 0, [0; 8]).unwrap();
    assert_eq!(extension.packet_type().raw(), 0xff);
    assert_eq!(
        SockAddrLl::try_from_network_order_fields(AF_PACKET, 0, 0, 0, 0, 9, [0; 8]),
        Err(PacketError::InvalidHardwareAddressLength)
    );
}

#[test]
fn exact_interface_is_positive_and_representable() {
    assert_eq!(InterfaceIndex::from_raw(0).unwrap(), InterfaceIndex::Any);
    assert_eq!(InterfaceIndex::exact(1).unwrap().raw(), 1);
    assert_eq!(
        InterfaceIndex::exact(0),
        Err(PacketError::InvalidInterfaceIndex)
    );
    assert_eq!(
        InterfaceIndex::exact(i32::MAX as u32 + 1),
        Err(PacketError::InvalidInterfaceIndex)
    );
}

#[test]
fn bind_request_contains_only_fields_linux_consumes() {
    let request =
        PacketBindRequest::try_from_network_order_fields(AF_PACKET, 0x0800_u16.to_be(), 9)
            .unwrap();
    assert_eq!(request.interface().raw(), 9);
    assert_eq!(request.protocol().host_order(), 0x0800);
}
