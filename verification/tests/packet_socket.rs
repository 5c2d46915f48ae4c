use thekernel_linux_abi::packet::{
    AF_PACKET, BindPublication, BindingGeneration, DeliveryDecision, DeliveryDirection, ETH_P_ALL,
    InterfaceIndex, LinkLayerAddress, LinkLayerInfo, PacketBindRequest, PacketError,
    PacketSocketState, PacketSocketType, ProtocolSelector, SetPacketOption,
};

fn bind_address(interface: i32, protocol_host: u16) -> PacketBindRequest {
    PacketBindRequest::try_from_network_order_fields(
        AF_PACKET,
        protocol_host.to_be(),
        interface,
    )
    .unwrap()
}

#[test]
fn bind_zero_protocol_inherits_and_rebind_advances_generation() {
    let mut state = PacketSocketState::new(PacketSocketType::Raw, ProtocolSelector::All);
    let first = state.prepare_bind(bind_address(4, 0)).unwrap();
    assert_eq!(first.replacement().protocol(), ProtocolSelector::All);
    assert_eq!(
        first.replacement().generation().get(),
        first.expected().generation().get() + 1
    );
    assert_eq!(state.publish_bind(first), Ok(BindPublication::Rebound));

    let no_change = state.prepare_bind(bind_address(4, 0)).unwrap();
    assert!(no_change.is_noop());
    assert_eq!(
        no_change.replacement().generation(),
        state.binding().generation()
    );
    assert_eq!(
        state.publish_bind(no_change),
        Ok(BindPublication::Unchanged)
    );
}

#[test]
fn stale_bind_plan_never_changes_live_state() {
    let mut state = PacketSocketState::new(PacketSocketType::Datagram, ProtocolSelector::All);
    let first = state.prepare_bind(bind_address(1, 0x0800)).unwrap();
    let stale = state.prepare_bind(bind_address(2, 0x86dd)).unwrap();
    state.publish_bind(first).unwrap();
    let live = state.binding();
    assert_eq!(state.publish_bind(stale), Err(PacketError::StaleBindPlan));
    assert_eq!(state.binding(), live);
}

#[test]
fn bind_generation_never_wraps_into_aba_reuse() {
    assert_eq!(
        BindingGeneration::new(0),
        Err(PacketError::InvalidBindingGeneration)
    );
    let mut state = PacketSocketState::new(PacketSocketType::Raw, ProtocolSelector::All);
    state.skip_generations_to(BindingGeneration::new(u64::MAX).unwrap());
    let before = state.binding();
    assert_eq!(
        state.prepare_bind(bind_address(1, 0)),
        Err(PacketError::BindGenerationExhausted)
    );
    assert_eq!(state.binding(), before);
}

#[test]
fn get_name_requires_matching_metadata_only_for_exact_bind() {
    let mut state = PacketSocketState::new(PacketSocketType::Raw, ProtocolSelector::Disabled);
    let wildcard = state.get_name(None).unwrap();
    assert!(wildcard.interface().is_any());
    assert!(wildcard.address().is_empty());

    state
        .publish_bind(state.prepare_bind(bind_address(7, ETH_P_ALL)).unwrap())
        .unwrap();
    assert_eq!(state.get_name(None), Err(PacketError::MissingLinkLayerInfo));
    let wrong = LinkLayerInfo::new(
        InterfaceIndex::exact(8).unwrap(),
        1,
        LinkLayerAddress::EMPTY(),
    )
    .unwrap();
    assert_eq!(
        state.get_name(Some(wrong)),
        Err(PacketError::LinkLayerInfoMismatch)
    );

    let mac = LinkLayerAddress::new([1, 2, 3, 4, 5, 6, 0, 0], 6).unwrap();
    let link = LinkLayerInfo::new(InterfaceIndex::exact(7).unwrap(), 1, mac).unwrap();
    let name = state.get_name(Some(link)).unwrap();
    assert_eq!(name.protocol(), ProtocolSelector::All);
    assert_eq!(name.hardware_type(), 1);
    assert_eq!(name.address(), mac);
}

#[test]
fn outgoing_requires_all_while_exact_loopback_host_is_incoming() {
    let interface = InterfaceIndex::exact(1).unwrap();
    let exact = PacketSocketState::new(
        PacketSocketType::Raw,
        ProtocolSelector::from_host_order(0x0800),
    );
    assert_eq!(
        exact.delivery_decision(DeliveryDirection::Incoming, 0x0800, interface),
        DeliveryDecision::Deliver
    );
    assert_eq!(
        exact.delivery_decision(DeliveryDirection::Outgoing, 0x0800, interface),
        DeliveryDecision::OutgoingRequiresAllProtocols
    );
    assert!(!exact.captures_outgoing());

    let mut all = PacketSocketState::new(PacketSocketType::Raw, ProtocolSelector::All);
    assert_eq!(
        all.delivery_decision(DeliveryDirection::Outgoing, 0x0800, interface),
        DeliveryDecision::Deliver
    );
    assert!(all.captures_outgoing());
    all.set_option(SetPacketOption::IgnoreOutgoing(true));
    assert!(all.ignore_outgoing());
    assert_eq!(
        all.delivery_decision(DeliveryDirection::Outgoing, 0x0800, interface),
        DeliveryDecision::OutgoingIgnored
    );
    assert!(!all.captures_outgoing());
}

#[test]
fn delivery_reasons_keep_interface_protocol_and_direction_distinct() {
    let first = InterfaceIndex::exact(1).unwrap();
    let second = InterfaceIndex::exact(2).unwrap();
    let disabled = PacketSocketState::new(PacketSocketType::Raw, ProtocolSelector::Disabled);
    assert_eq!(
        disabled.delivery_decision(DeliveryDirection::Incoming, 0x0800, first),
        DeliveryDecision::ProtocolDisabled
    );

    let mut exact = PacketSocketState::new(
        PacketSocketType::Raw,
        ProtocolSelector::from_host_order(0x0800),
    );
    exact
        .publish_bind(exact.prepare_bind(bind_address(1, 0)).unwrap())
        .unwrap();
    assert_eq!(
        exact.delivery_decision(DeliveryDirection::Incoming, 0x86dd, first),
        DeliveryDecision::ProtocolMismatch
    );
    assert_eq!(
        exact.delivery_decision(DeliveryDirection::Incoming, 0x0800, second),
        DeliveryDecision::InterfaceMismatch
    );
    assert_eq!(
        exact.delivery_decision(DeliveryDirection::Incoming, 0x0800, InterfaceIndex::Any),
        DeliveryDecision::InterfaceMismatch
    );
}
