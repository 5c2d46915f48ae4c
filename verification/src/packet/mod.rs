//! Packet-socket policy: addresses, protocol selection, binding, options,
//! receive decisions and delivery matching.
pub mod address;
pub mod error;
pub mod laws;
pub mod options;
pub mod protocol;
pub mod receive;
pub mod socket;
pub mod statistics;

pub use address::{
    InterfaceIndex, InterfaceNumber, LinkLayerAddress, LinkLayerInfo, PacketBindRequest,
    PacketSendAddress, PacketType, SockAddrLl, AF_PACKET, MAX_LINK_LAYER_ADDRESS_LEN,
};
pub use error::PacketError;
pub use options::{
    GetPacketOption, PacketOption, PacketOptionOperation, PacketOptionValue, SetPacketOption,
};
pub use protocol::{EtherType, ProtocolSelector, ETH_P_ALL};
pub use receive::{
    FrameLayout, PacketView, QueueDisposition, ReceiveDecision, ReceiveFlags, MSG_PEEK, MSG_TRUNC,
};
pub use socket::{
    BindPlan, BindPublication, BindingGeneration, DeliveryDecision, DeliveryDirection,
    PacketBinding, PacketSocketState, PacketSocketType,
};
pub use statistics::PacketStatistics;
