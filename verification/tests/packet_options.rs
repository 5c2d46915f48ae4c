use thekernel_linux_abi::packet::{
    GetPacketOption, PacketError, PacketOption, PacketOptionOperation, SetPacketOption,
};

#[test]
fn supported_and_known_unsupported_options_are_distinct() {
    assert_eq!(
        SetPacketOption::decode(PacketOption::IgnoreOutgoing.raw(), -7),
        Ok(SetPacketOption::IgnoreOutgoing(true))
    );
    assert_eq!(
        GetPacketOption::decode(PacketOption::Statistics.raw()),
        Ok(GetPacketOption::Statistics)
    );
    assert_eq!(
        GetPacketOption::decode(PacketOption::ReceiveRing.raw()),
        Err(PacketError::UnsupportedPacketOption {
            option: PacketOption::ReceiveRing,
            operation: PacketOptionOperation::Get,
        })
    );
    assert_eq!(
        PacketOption::from_raw(4),
        Err(PacketError::UnknownPacketOption)
    );
}
