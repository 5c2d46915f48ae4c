use thekernel_linux_abi::packet::{
    BindPublication, BindingGeneration, DeliveryDecision, DeliveryDirection, EtherType,
    FrameLayout, GetPacketOption, InterfaceIndex, InterfaceNumber, LinkLayerAddress, LinkLayerInfo,
    PacketBindRequest, PacketError, PacketOption, PacketOptionOperation, PacketSendAddress,
    PacketSocketState, PacketSocketType, PacketStatistics, PacketType, ProtocolSelector,
    QueueDisposition, ReceiveFlags, SetPacketOption, SockAddrLl, AF_PACKET, ETH_P_ALL, MSG_PEEK,
    MSG_TRUNC,
};

#[test]
fn byte_order_conversions_are_inverse() {
    for host in [1u16, 0x0800, 0x86dd, 0x1234, u16::MAX] {
        let ether = EtherType::new(host).unwrap();
        assert_eq!(ether.to_network_order().to_be_bytes(), host.to_be().to_be_bytes());
        assert_eq!(EtherType::from_network_order(ether.to_network_order()), Ok(ether));
        let selector = ProtocolSelector::from_network_order_u16(host.to_be());
        assert_eq!(selector, ProtocolSelector::from_host_order(host));
        assert_eq!(selector.to_network_order_u16(), host.to_be());
    }
    assert_eq!(EtherType::from_network_order(0), Err(PacketError::InvalidExactProtocol));
    assert_eq!(
        EtherType::from_network_order(ETH_P_ALL.to_be()),
        Err(PacketError::InvalidExactProtocol)
    );
    assert_eq!(ProtocolSelector::default(), ProtocolSelector::Disabled);
}

#[test]
fn selectors_are_canonical_for_every_value() {
    for host in 0..=u16::MAX {
        assert_eq!(ProtocolSelector::from_host_order(host).host_order(), host);
    }
}

#[test]
fn option_numbers_round_trip_and_are_distinct() {
    let mut known = 0;
    for raw in -1..64 {
        if let Ok(option) = PacketOption::from_raw(raw) {
            assert_eq!(option.raw(), raw);
            known += 1;
            let get = GetPacketOption::decode(raw);
            let supported =
                option == PacketOption::IgnoreOutgoing || option == PacketOption::Statistics;
            assert_eq!(get.is_ok(), supported);
            if option != PacketOption::IgnoreOutgoing {
                assert_eq!(
                    SetPacketOption::decode(raw, 1),
                    Err(PacketError::UnsupportedPacketOption {
                        option,
                        operation: PacketOptionOperation::Mutate,
                    })
                );
            }
        } else {
            assert_eq!(GetPacketOption::decode(raw), Err(PacketError::UnknownPacketOption));
            assert_eq!(SetPacketOption::decode(raw, 1), Err(PacketError::UnknownPacketOption));
        }
    }
    assert_eq!(known, 23);
    assert_eq!(
        SetPacketOption::decode(PacketOption::IgnoreOutgoing.raw(), 0),
        Ok(SetPacketOption::IgnoreOutgoing(false))
    );
}

#[test]
fn addresses_with_equal_meaning_are_equal() {
    let a = LinkLayerAddress::new([1, 2, 3, 4, 5, 6, 7, 8], 6).unwrap();
    let b = LinkLayerAddress::new([1, 2, 3, 4, 5, 6, 0, 9], 6).unwrap();
    assert_eq!(a, b);
    assert_eq!((a.len(), a.is_empty()), (6, false));
    let full = LinkLayerAddress::new([9; 8], 8).unwrap();
    assert_eq!(full.as_bytes(), &[9; 8]);
    assert_eq!(LinkLayerAddress::default(), LinkLayerAddress::new([7; 8], 0).unwrap());
    assert_eq!(LinkLayerAddress::EMPTY().as_bytes(), &[] as &[u8]);
    assert_eq!(
        LinkLayerAddress::new([0; 8], 9),
        Err(PacketError::InvalidHardwareAddressLength)
    );
}

#[test]
fn interface_indices_are_positive_or_wildcard() {
    assert_eq!(InterfaceNumber::new(0), None);
    assert_eq!(InterfaceNumber::new(-4), None);
    assert_eq!(InterfaceNumber::new(4).unwrap().get(), 4);
    assert_eq!(InterfaceIndex::default(), InterfaceIndex::Any);
    assert_eq!(InterfaceIndex::from_raw(-1), Err(PacketError::InvalidInterfaceIndex));
    assert_eq!(
        LinkLayerInfo::new(InterfaceIndex::Any, 1, LinkLayerAddress::EMPTY()),
        Err(PacketError::InvalidInterfaceIndex)
    );
    assert_eq!(
        PacketBindRequest::try_from_network_order_fields(2, 0, -1),
        Err(PacketError::InvalidAddressFamily)
    );
    let name = SockAddrLl::new(
        InterfaceIndex::exact(3).unwrap(),
        ProtocolSelector::All,
        1,
        PacketType::OUTGOING(),
        LinkLayerAddress::EMPTY(),
    );
    let bind = PacketBindRequest::from(name);
    assert_eq!((bind.interface(), bind.protocol()), (name.interface(), name.protocol()));
    assert_eq!(name.family(), AF_PACKET);
    assert_eq!(name.protocol_network_order(), ETH_P_ALL.to_be());
    assert_eq!(PacketType::default(), PacketType::HOST());
}

#[test]
fn send_addresses_leave_the_length_to_the_device() {
    let send = PacketSendAddress::try_from_network_order_fields(
        0x0800_u16.to_be(),
        3,
        200,
        [1, 2, 3, 4, 5, 6, 7, 8],
    )
    .unwrap();
    assert_eq!(send.interface().raw(), 3);
    assert_eq!(send.protocol().host_order(), 0x0800);
    assert_eq!(send.declared_address_len(), 200);
    assert_eq!(send.address_for_device(8).unwrap().as_bytes(), &[1, 2, 3, 4, 5, 6, 7, 8]);
    assert_eq!(
        send.address_for_device(9),
        Err(PacketError::InvalidHardwareAddressLength)
    );
    assert_eq!(
        PacketSendAddress::try_from_network_order_fields(0, -1, 0, [0; 8]),
        Err(PacketError::InvalidInterfaceIndex)
    );
}

#[test]
fn replaced_bindings_never_return() {
    let any = PacketBindRequest::new(InterfaceIndex::Any, ProtocolSelector::All);
    let one = PacketBindRequest::new(InterfaceIndex::exact(1).unwrap(), ProtocolSelector::All);
    let mut state = PacketSocketState::new(PacketSocketType::Raw, ProtocolSelector::All);
    let start = state.binding();
    let early = state.prepare_bind(one).unwrap();
    state.publish_bind(early).unwrap();
    let back = state.prepare_bind(any).unwrap();
    assert_eq!(state.publish_bind(back), Ok(BindPublication::Rebound));
    assert_eq!(state.binding().interface(), start.interface());
    assert_ne!(state.binding(), start);
    assert_eq!(state.publish_bind(early), Err(PacketError::StaleBindPlan));
    let generation = state.binding().generation();
    state.skip_generations_to(BindingGeneration::new(1).unwrap());
    assert_eq!(state.binding().generation(), generation);
}

#[test]
fn outgoing_delivery_is_tap_eligibility() {
    let interface = InterfaceIndex::exact(5).unwrap();
    for protocol in [0u16, ETH_P_ALL, 0x0800] {
        for ignore in [false, true] {
            let selector = ProtocolSelector::from_host_order(protocol);
            let mut state = PacketSocketState::new(PacketSocketType::Datagram, selector);
            state.set_option(SetPacketOption::IgnoreOutgoing(ignore));
            let decision = state.delivery_decision(DeliveryDirection::Outgoing, 0x0800, interface);
            assert_eq!(decision.should_deliver(), state.captures_outgoing());
        }
    }
    let disabled = PacketSocketState::new(PacketSocketType::Raw, ProtocolSelector::Disabled);
    assert_eq!(
        disabled.delivery_decision(DeliveryDirection::Outgoing, 0x0800, interface),
        DeliveryDecision::ProtocolDisabled
    );
}

#[test]
fn receive_lengths_stay_ordered() {
    let layout = FrameLayout::new(60, 14).unwrap();
    assert_eq!(FrameLayout::new(13, 14), Err(PacketError::InvalidFrameLayout));
    assert_eq!(FrameLayout::new(14, 14).unwrap().full_view(PacketSocketType::Datagram).original_len(), 0);
    for captured in [0usize, 10, 46] {
        let view = layout.captured_view(PacketSocketType::Datagram, captured).unwrap();
        for buffer in [0usize, 5, 100] {
            for bits in [0, MSG_PEEK, MSG_TRUNC, MSG_PEEK | MSG_TRUNC] {
                let decision = view.receive_decision(buffer, ReceiveFlags::from_bits(bits).unwrap());
                assert_eq!(decision.payload_offset(), 14);
                assert!(decision.copy_len() <= decision.captured_len());
                assert!(decision.captured_len() <= decision.original_len());
                assert!(decision.copy_len() <= decision.returned_len());
                assert_eq!(decision.message_truncated(), buffer < captured);
                let retained = decision.queue_disposition() == QueueDisposition::Retain;
                assert_eq!(retained, bits & MSG_PEEK != 0);
            }
        }
    }
    let both = ReceiveFlags::PEEK().union(ReceiveFlags::TRUNC());
    assert_eq!(both, ReceiveFlags::SUPPORTED());
    assert!(both.contains(ReceiveFlags::TRUNC()));
    assert_eq!(ReceiveFlags::default(), ReceiveFlags::EMPTY());
}

#[test]
fn socket_types_round_trip() {
    for socket_type in [PacketSocketType::Raw, PacketSocketType::Datagram] {
        assert_eq!(PacketSocketType::from_raw(socket_type.raw()), Ok(socket_type));
    }
    assert_eq!(PacketSocketType::SOCK_RAW, 3);
    assert!(PacketStatistics::default().is_empty());
}
