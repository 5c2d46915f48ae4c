use crate::packet::error::PacketError;
use crate::packet::protocol::{network_form, read_as, written_as, ProtocolSelector};
use vstd::prelude::*;

verus! {

/// Linux `AF_PACKET` address-family value.
pub const AF_PACKET: u16 = 17;

/// Number of bytes in Linux `sockaddr_ll::sll_addr`.
pub const MAX_LINK_LAYER_ADDRESS_LEN: usize = 8;

/// Positive Linux interface index.
#[derive(Clone, Copy, Debug, Eq, Hash, Ord, PartialEq, PartialOrd, Structural)]
pub struct InterfaceNumber(pub(crate) i32);

impl InterfaceNumber {
    #[verifier::type_invariant]
    pub(crate) open spec fn positive(self) -> bool {
        self.0 > 0
    }

    /// Accepts exactly the positive indices.
    pub fn new(raw: i32) -> (result: Option<Self>)
        ensures
            result is Some <==> raw > 0,
            result matches Some(number) ==> number.get() == raw,
    {
        if raw > 0 {
            Some(Self(raw))
        } else {
            None
        }
    }

    /// Returns the raw index.
    #[verifier::when_used_as_spec(spec_get)]
    pub fn get(self) -> (result: i32)
        ensures
            result == self.spec_get(),
            result > 0,
    {
        proof {
            use_type_invariant(&self);
        }
        self.0
    }

    /// Specification counterpart of [`Self::get`].
    pub open(crate) spec fn spec_get(self) -> i32 {
        self.0
    }
}

/// Wildcard or exact positive Linux interface index.
#[derive(Clone, Copy, Debug, Eq, Hash, Ord, PartialEq, PartialOrd, Structural)]
pub enum InterfaceIndex {
    /// Bind to every current interface.
    Any,
    /// Bind to one positive interface index.
    Exact(InterfaceNumber),
}

impl Default for InterfaceIndex {
    fn default() -> (result: Self)
        ensures
            result == InterfaceIndex::Any,
    {
        InterfaceIndex::Any
    }
}

impl InterfaceIndex {
    /// Validates a copied signed Linux interface index.
    pub fn from_raw(raw: i32) -> (result: Result<Self, PacketError>)
        ensures
            match result {
                Ok(index) => raw >= 0 && index.raw() == raw && index.is_any() == (raw == 0),
                Err(error) => raw < 0 && error == PacketError::InvalidInterfaceIndex,
            },
    {
        if raw < 0 {
            return Err(PacketError::InvalidInterfaceIndex);
        }
        match InterfaceNumber::new(raw) {
            Some(number) => Ok(InterfaceIndex::Exact(number)),
            None => Ok(InterfaceIndex::Any),
        }
    }

    /// Builds one exact positive interface index.
    pub fn exact(raw: u32) -> (result: Result<Self, PacketError>)
        ensures
            match result {
                Ok(index) => 0 < raw <= i32::MAX && index.raw() == raw && !index.is_any(),
                Err(error) => (raw == 0 || raw > i32::MAX) && error
                    == PacketError::InvalidInterfaceIndex,
            },
    {
        if raw == 0 || raw > 0x7fff_ffffu32 {
            return Err(PacketError::InvalidInterfaceIndex);
        }
        match InterfaceNumber::new(raw as i32) {
            Some(number) => Ok(InterfaceIndex::Exact(number)),
            None => Err(PacketError::InvalidInterfaceIndex),
        }
    }

    /// Returns zero for wildcard or the positive Linux interface index.
    #[verifier::when_used_as_spec(spec_raw)]
    pub fn raw(self) -> (result: i32)
        ensures
            result == self.spec_raw(),
            result >= 0,
            (result == 0) == self.is_any(),
    {
        match self {
            InterfaceIndex::Any => 0,
            InterfaceIndex::Exact(number) => number.get(),
        }
    }

    /// Specification counterpart of [`Self::raw`].
    pub open spec fn spec_raw(self) -> i32 {
        match self {
            InterfaceIndex::Any => 0,
            InterfaceIndex::Exact(number) => number.get(),
        }
    }

    /// Returns whether this is the wildcard interface selection.
    #[verifier::when_used_as_spec(spec_is_any)]
    pub fn is_any(self) -> (result: bool)
        ensures
            result == self.spec_is_any(),
    {
        matches!(self, InterfaceIndex::Any)
    }

    /// Specification counterpart of [`Self::is_any`].
    pub open spec fn spec_is_any(self) -> bool {
        self is Any
    }
}

/// Forward-compatible Linux packet classification carried by `sockaddr_ll`.
///
/// Linux ignores this field on bind/send and may extend its output vocabulary,
/// so unknown bytes are preserved rather than rejected.
#[derive(Clone, Copy, Debug, Eq, Hash, PartialEq, Structural)]
pub struct PacketType(pub(crate) u8);

impl Default for PacketType {
    fn default() -> (result: Self)
        ensures
            result.raw() == 0,
    {
        Self(0)
    }
}

impl PacketType {
    /// Packet addressed to the local host.
    #[allow(non_snake_case)]
    #[verifier::when_used_as_spec(spec_HOST)]
    pub fn HOST() -> (result: Self)
        ensures
            result == Self::spec_HOST(),
            result.raw() == 0,
    {
        Self(0)
    }

    /// Specification counterpart of [`Self::HOST`].
    #[allow(non_snake_case)]
    pub open(crate) spec fn spec_HOST() -> Self {
        Self(0)
    }

    /// Link-layer broadcast packet.
    #[allow(non_snake_case)]
    #[verifier::when_used_as_spec(spec_BROADCAST)]
    pub fn BROADCAST() -> (result: Self)
        ensures
            result == Self::spec_BROADCAST(),
            result.raw() == 1,
    {
        Self(1)
    }

    /// Specification counterpart of [`Self::BROADCAST`].
    #[allow(non_snake_case)]
    pub open(crate) spec fn spec_BROADCAST() -> Self {
        Self(1)
    }

    /// Link-layer multicast packet.
    #[allow(non_snake_case)]
    #[verifier::when_used_as_spec(spec_MULTICAST)]
    pub fn MULTICAST() -> (result: Self)
        ensures
            result == Self::spec_MULTICAST(),
            result.raw() == 2,
    {
        Self(2)
    }

    /// Specification counterpart of [`Self::MULTICAST`].
    #[allow(non_snake_case)]
    pub open(crate) spec fn spec_MULTICAST() -> Self {
        Self(2)
    }

    /// Packet addressed to another host while the device is promiscuous.
    #[allow(non_snake_case)]
    #[verifier::when_used_as_spec(spec_OTHER_HOST)]
    pub fn OTHER_HOST() -> (result: Self)
        ensures
            result == Self::spec_OTHER_HOST(),
            result.raw() == 3,
    {
        Self(3)
    }

    /// Specification counterpart of [`Self::OTHER_HOST`].
    #[allow(non_snake_case)]
    pub open(crate) spec fn spec_OTHER_HOST() -> Self {
        Self(3)
    }

    /// Locally generated outgoing packet.
    #[allow(non_snake_case)]
    #[verifier::when_used_as_spec(spec_OUTGOING)]
    pub fn OUTGOING() -> (result: Self)
        ensures
            result == Self::spec_OUTGOING(),
            result.raw() == 4,
    {
        Self(4)
    }

    /// Specification counterpart of [`Self::OUTGOING`].
    #[allow(non_snake_case)]
    pub open(crate) spec fn spec_OUTGOING() -> Self {
        Self(4)
    }

    /// Internal looped-back multicast or broadcast frame.
    #[allow(non_snake_case)]
    #[verifier::when_used_as_spec(spec_LOOPBACK)]
    pub fn LOOPBACK() -> (result: Self)
        ensures
            result == Self::spec_LOOPBACK(),
            result.raw() == 5,
    {
        Self(5)
    }

    /// Specification counterpart of [`Self::LOOPBACK`].
    #[allow(non_snake_case)]
    pub open(crate) spec fn spec_LOOPBACK() -> Self {
        Self(5)
    }

    /// Packet classified for userspace by the pinned Linux UAPI.
    #[allow(non_snake_case)]
    #[verifier::when_used_as_spec(spec_USER)]
    pub fn USER() -> (result: Self)
        ensures
            result == Self::spec_USER(),
            result.raw() == 6,
    {
        Self(6)
    }

    /// Specification counterpart of [`Self::USER`].
    #[allow(non_snake_case)]
    pub open(crate) spec fn spec_USER() -> Self {
        Self(6)
    }

    /// Packet classified for kernel space by the pinned Linux UAPI.
    #[allow(non_snake_case)]
    #[verifier::when_used_as_spec(spec_KERNEL)]
    pub fn KERNEL() -> (result: Self)
        ensures
            result == Self::spec_KERNEL(),
            result.raw() == 7,
    {
        Self(7)
    }

    /// Specification counterpart of [`Self::KERNEL`].
    #[allow(non_snake_case)]
    pub open(crate) spec fn spec_KERNEL() -> Self {
        Self(7)
    }

    /// Preserves one copied `sll_pkttype` byte.
    pub fn from_raw(raw: u8) -> (result: Self)
        ensures
            result.raw() == raw,
    {
        Self(raw)
    }

    /// Returns the Linux `sll_pkttype` value.
    #[verifier::when_used_as_spec(spec_raw)]
    pub fn raw(self) -> (result: u8)
        ensures
            result == self.spec_raw(),
    {
        self.0
    }

    /// Specification counterpart of [`Self::raw`].
    pub open(crate) spec fn spec_raw(self) -> u8 {
        self.0
    }
}

/// Bind-only `sockaddr_ll` fields with Linux's ignored fields excluded.
#[derive(Clone, Copy, Debug, Eq, PartialEq, Structural)]
pub struct PacketBindRequest {
    pub(crate) interface: InterfaceIndex,
    pub(crate) protocol: ProtocolSelector,
}

impl PacketBindRequest {
    /// Builds a request from normalized host-order values.
    #[verifier::when_used_as_spec(spec_new)]
    pub fn new(interface: InterfaceIndex, protocol: ProtocolSelector) -> (result: Self)
        ensures
            result == PacketBindRequest::spec_new(interface, protocol),
            result.interface() == interface,
            result.protocol() == protocol,
    {
        Self { interface, protocol }
    }

    /// Specification counterpart of [`Self::new`].
    pub open(crate) spec fn spec_new(interface: InterfaceIndex, protocol: ProtocolSelector) -> Self {
        Self { interface, protocol }
    }

    /// Validates the fields Linux actually consumes from a bind address.
    ///
    /// Hardware type, packet type, address length, and address bytes are
    /// intentionally absent because Linux ignores them for packet bind.
    pub fn try_from_network_order_fields(
        family: u16,
        protocol_network_order: u16,
        interface_index: i32,
    ) -> (result: Result<Self, PacketError>)
        ensures
            result is Ok <==> family == AF_PACKET && interface_index >= 0,
            result matches Ok(request) ==> {
                &&& request.interface().raw() == interface_index
                &&& exists|host: u16| #[trigger]
                    network_form(host, protocol_network_order) && read_as(
                        protocol_network_order,
                        host,
                    ) && request.protocol() == ProtocolSelector::from_host_order(host)
            },
            result matches Err(error) ==> error == if family != AF_PACKET {
                PacketError::InvalidAddressFamily
            } else {
                PacketError::InvalidInterfaceIndex
            },
    {
        if family != AF_PACKET {
            return Err(PacketError::InvalidAddressFamily);
        }
        let interface = match InterfaceIndex::from_raw(interface_index) {
            Ok(interface) => interface,
            Err(error) => return Err(error),
        };
        Ok(Self::new(interface, ProtocolSelector::from_network_order_u16(protocol_network_order)))
    }

    /// Wildcard or exact requested interface.
    #[verifier::when_used_as_spec(spec_interface)]
    pub fn interface(self) -> (result: InterfaceIndex)
        ensures
            result == self.spec_interface(),
    {
        self.interface
    }

    /// Specification counterpart of [`Self::interface`].
    pub open(crate) spec fn spec_interface(self) -> InterfaceIndex {
        self.interface
    }

    /// Requested normalized protocol; disabled means retain the live value.
    #[verifier::when_used_as_spec(spec_protocol)]
    pub fn protocol(self) -> (result: ProtocolSelector)
        ensures
            result == self.spec_protocol(),
    {
        self.protocol
    }

    /// Specification counterpart of [`Self::protocol`].
    pub open(crate) spec fn spec_protocol(self) -> ProtocolSelector {
        self.protocol
    }
}

/// Canonical length-delimited link-layer address.
#[derive(Clone, Copy, Debug, Eq, Hash, PartialEq)]
pub struct LinkLayerAddress {
    pub(crate) len: u8,
    pub(crate) bytes: [u8; 8],
}

impl View for LinkLayerAddress {
    type V = Seq<u8>;

    /// The meaningful bytes.
    open(crate) spec fn view(&self) -> Seq<u8> {
        self.bytes@.take(self.len as int)
    }
}

impl LinkLayerAddress {
    /// At most eight bytes are meaningful and every other byte is zero.
    #[verifier::type_invariant]
    pub open(crate) spec fn canonical(self) -> bool {
        &&& self.len <= MAX_LINK_LAYER_ADDRESS_LEN
        &&& forall|i: int| self.len <= i < 8 ==> #[trigger] self.bytes@[i] == 0
    }

    /// Empty address used for wildcard or unavailable link metadata.
    #[allow(non_snake_case)]
    pub fn EMPTY() -> (result: Self)
        ensures
            result@ == Seq::<u8>::empty(),
            result.len() == 0,
    {
        let bytes: [u8; 8] = [0; 8];
        let result = Self { len: 0, bytes };
        proof {
            assert(result@ =~= Seq::<u8>::empty());
        }
        result
    }

    /// Validates the length and clears unused bytes to a canonical value.
    pub fn new(bytes: [u8; 8], len: u8) -> (result: Result<Self, PacketError>)
        ensures
            match result {
                Ok(address) => {
                    &&& len <= MAX_LINK_LAYER_ADDRESS_LEN
                    &&& address@ == bytes@.take(len as int)
                    &&& address.len() == len
                },
                Err(error) => len > MAX_LINK_LAYER_ADDRESS_LEN && error
                    == PacketError::InvalidHardwareAddressLength,
            },
    {
        if len as usize > MAX_LINK_LAYER_ADDRESS_LEN {
            return Err(PacketError::InvalidHardwareAddressLength);
        }
        let mut cleared = bytes;
        let mut next: usize = len as usize;
        while next < MAX_LINK_LAYER_ADDRESS_LEN
            invariant
                len <= next <= 8,
                cleared@.take(len as int) == bytes@.take(len as int),
                forall|i: int| len <= i < next ==> #[trigger] cleared@[i] == 0,
            decreases 8 - next,
        {
            let ghost before = cleared@;
            cleared[next] = 0;
            proof {
                assert(cleared@.take(len as int) =~= before.take(len as int));
            }
            next = next + 1;
        }
        Ok(Self { len, bytes: cleared })
    }

    /// Returns the meaningful address bytes.
    pub fn as_bytes(&self) -> (result: &[u8])
        ensures
            result@ == self@,
            result@.len() == self.len() <= MAX_LINK_LAYER_ADDRESS_LEN,
    {
        proof {
            use_type_invariant(self);
        }
        vstd::slice::slice_subrange(self.bytes.as_slice(), 0, self.len as usize)
    }

    /// Returns the complete canonical eight-byte storage field.
    pub fn padded_bytes(self) -> (result: [u8; 8])
        ensures
            result@.take(self.len() as int) == self@,
            forall|i: int| self.len() <= i < 8 ==> #[trigger] result@[i] == 0,
    {
        proof {
            use_type_invariant(&self);
        }
        self.bytes
    }

    /// Returns the Linux address length.
    #[verifier::when_used_as_spec(spec_len)]
    pub fn len(self) -> (result: u8)
        ensures
            result == self.spec_len(),
    {
        self.len
    }

    /// Specification counterpart of [`Self::len`].
    pub open(crate) spec fn spec_len(self) -> u8 {
        self.len
    }

    /// Returns whether the address is empty.
    pub fn is_empty(self) -> (result: bool)
        ensures
            result == (self.len() == 0),
    {
        self.len == 0
    }
}

impl Default for LinkLayerAddress {
    fn default() -> (result: Self)
        ensures
            result@ == Seq::<u8>::empty(),
            result.len() == 0,
    {
        Self::EMPTY()
    }
}

/// Two addresses with the same meaningful bytes hold the same storage field,
/// whatever bytes followed the meaningful ones when they were built.
pub proof fn addresses_are_canonical(a: LinkLayerAddress, b: LinkLayerAddress)
    requires
        a.canonical(),
        b.canonical(),
        a@ == b@,
    ensures
        a == b,
{
    assert(a@.len() == a.len && b@.len() == b.len);
    assert forall|i: int| 0 <= i < 8 implies a.bytes@[i] == b.bytes@[i] by {
        if i < a.len {
            assert(a@[i] == a.bytes@[i]);
            assert(b@[i] == b.bytes@[i]);
        } else {
            assert(a.bytes@[i] == 0 && b.bytes@[i] == 0);
        }
    }
    assert(a.bytes =~= b.bytes);
}

/// Caller-owned immutable link metadata used to complete `getsockname`.
#[derive(Clone, Copy, Debug, Eq, PartialEq)]
pub struct LinkLayerInfo {
    pub(crate) interface: InterfaceIndex,
    pub(crate) hardware_type: u16,
    pub(crate) address: LinkLayerAddress,
}

impl LinkLayerInfo {
    /// Link metadata always describes one exact interface.
    #[verifier::type_invariant]
    pub(crate) open spec fn describes_one_interface(self) -> bool {
        self.interface is Exact
    }

    /// Builds metadata for one exact interface.
    pub fn new(interface: InterfaceIndex, hardware_type: u16, address: LinkLayerAddress) -> (result:
        Result<Self, PacketError>)
        ensures
            match result {
                Ok(info) => {
                    &&& !interface.is_any()
                    &&& info.interface() == interface
                    &&& info.hardware_type() == hardware_type
                    &&& info.address() == address
                },
                Err(error) => interface.is_any() && error == PacketError::InvalidInterfaceIndex,
            },
    {
        if interface.is_any() {
            return Err(PacketError::InvalidInterfaceIndex);
        }
        Ok(Self { interface, hardware_type, address })
    }

    /// Exact interface described by this snapshot.
    #[verifier::when_used_as_spec(spec_interface)]
    pub fn interface(self) -> (result: InterfaceIndex)
        ensures
            result == self.spec_interface(),
    {
        self.interface
    }

    /// Specification counterpart of [`Self::interface`].
    pub open(crate) spec fn spec_interface(self) -> InterfaceIndex {
        self.interface
    }

    /// Linux ARPHRD-style hardware type supplied by the device adapter.
    #[verifier::when_used_as_spec(spec_hardware_type)]
    pub fn hardware_type(self) -> (result: u16)
        ensures
            result == self.spec_hardware_type(),
    {
        self.hardware_type
    }

    /// Specification counterpart of [`Self::hardware_type`].
    pub open(crate) spec fn spec_hardware_type(self) -> u16 {
        self.hardware_type
    }

    /// Link-layer address supplied by the device adapter.
    #[verifier::when_used_as_spec(spec_address)]
    pub fn address(self) -> (result: LinkLayerAddress)
        ensures
            result == self.spec_address(),
    {
        self.address
    }

    /// Specification counterpart of [`Self::address`].
    pub open(crate) spec fn spec_address(self) -> LinkLayerAddress {
        self.address
    }
}

/// Validated, normalized Linux `sockaddr_ll` value object.
#[derive(Clone, Copy, Debug, Eq, PartialEq)]
pub struct SockAddrLl {
    pub(crate) interface: InterfaceIndex,
    pub(crate) protocol: ProtocolSelector,
    pub(crate) hardware_type: u16,
    pub(crate) packet_type: PacketType,
    pub(crate) address: LinkLayerAddress,
}

impl SockAddrLl {
    /// Builds a normalized value from already validated host-order fields.
    pub fn new(
        interface: InterfaceIndex,
        protocol: ProtocolSelector,
        hardware_type: u16,
        packet_type: PacketType,
        address: LinkLayerAddress,
    ) -> (result: Self)
        ensures
            result.interface() == interface,
            result.protocol() == protocol,
            result.hardware_type() == hardware_type,
            result.packet_type() == packet_type,
            result.address() == address,
    {
        Self { interface, protocol, hardware_type, packet_type, address }
    }

    /// Validates copied fields and explicitly converts only `sll_protocol`
    /// from network order.
    pub fn try_from_network_order_fields(
        family: u16,
        protocol_network_order: u16,
        interface_index: i32,
        hardware_type: u16,
        packet_type: u8,
        address_len: u8,
        address: [u8; 8],
    ) -> (result: Result<Self, PacketError>)
        ensures
            result is Ok <==> family == AF_PACKET && interface_index >= 0 && address_len
                <= MAX_LINK_LAYER_ADDRESS_LEN,
            result matches Ok(name) ==> {
                &&& name.interface().raw() == interface_index
                &&& name.hardware_type() == hardware_type
                &&& name.packet_type().raw() == packet_type
                &&& name.address().len() == address_len
                &&& name.address()@ == address@.take(address_len as int)
                &&& exists|host: u16| #[trigger]
                    network_form(host, protocol_network_order) && read_as(
                        protocol_network_order,
                        host,
                    ) && name.protocol() == ProtocolSelector::from_host_order(host)
            },
            result matches Err(error) ==> error == if family != AF_PACKET {
                PacketError::InvalidAddressFamily
            } else if interface_index < 0 {
                PacketError::InvalidInterfaceIndex
            } else {
                PacketError::InvalidHardwareAddressLength
            },
    {
        if family != AF_PACKET {
            return Err(PacketError::InvalidAddressFamily);
        }
        let interface = match InterfaceIndex::from_raw(interface_index) {
            Ok(interface) => interface,
            Err(error) => return Err(error),
        };
        let protocol = ProtocolSelector::from_network_order_u16(protocol_network_order);
        let address = match LinkLayerAddress::new(address, address_len) {
            Ok(address) => address,
            Err(error) => return Err(error),
        };
        Ok(
            Self::new(
                interface,
                protocol,
                hardware_type,
                PacketType::from_raw(packet_type),
                address,
            ),
        )
    }

    /// Always returns `AF_PACKET`.
    pub fn family(self) -> (result: u16)
        ensures
            result == AF_PACKET,
    {
        AF_PACKET
    }

    /// Normalized wildcard or exact interface selection.
    #[verifier::when_used_as_spec(spec_interface)]
    pub fn interface(self) -> (result: InterfaceIndex)
        ensures
            result == self.spec_interface(),
    {
        self.interface
    }

    /// Specification counterpart of [`Self::interface`].
    pub open(crate) spec fn spec_interface(self) -> InterfaceIndex {
        self.interface
    }

    /// Normalized host-order protocol selector.
    #[verifier::when_used_as_spec(spec_protocol)]
    pub fn protocol(self) -> (result: ProtocolSelector)
        ensures
            result == self.spec_protocol(),
    {
        self.protocol
    }

    /// Specification counterpart of [`Self::protocol`].
    pub open(crate) spec fn spec_protocol(self) -> ProtocolSelector {
        self.protocol
    }

    /// Explicitly converts the protocol for `sll_protocol` copyout.
    pub fn protocol_network_order(self) -> (result: u16)
        ensures
            network_form(self.protocol().host_order(), result),
            written_as(self.protocol().host_order(), result),
    {
        self.protocol.to_network_order_u16()
    }

    /// Linux ARPHRD-style hardware type.
    #[verifier::when_used_as_spec(spec_hardware_type)]
    pub fn hardware_type(self) -> (result: u16)
        ensures
            result == self.spec_hardware_type(),
    {
        self.hardware_type
    }

    /// Specification counterpart of [`Self::hardware_type`].
    pub open(crate) spec fn spec_hardware_type(self) -> u16 {
        self.hardware_type
    }

    /// Linux packet classification.
    #[verifier::when_used_as_spec(spec_packet_type)]
    pub fn packet_type(self) -> (result: PacketType)
        ensures
            result == self.spec_packet_type(),
    {
        self.packet_type
    }

    /// Specification counterpart of [`Self::packet_type`].
    pub open(crate) spec fn spec_packet_type(self) -> PacketType {
        self.packet_type
    }

    /// Canonical link-layer address.
    #[verifier::when_used_as_spec(spec_address)]
    pub fn address(self) -> (result: LinkLayerAddress)
        ensures
            result == self.spec_address(),
    {
        self.address
    }

    /// Specification counterpart of [`Self::address`].
    pub open(crate) spec fn spec_address(self) -> LinkLayerAddress {
        self.address
    }
}

impl From<SockAddrLl> for PacketBindRequest {
    fn from(address: SockAddrLl) -> Self {
        Self::new(address.interface(), address.protocol())
    }
}

impl vstd::std_specs::convert::FromSpecImpl<SockAddrLl> for PacketBindRequest {
    open spec fn obeys_from_spec() -> bool {
        true
    }

    open spec fn from_spec(address: SockAddrLl) -> Self {
        PacketBindRequest::new(address.interface(), address.protocol())
    }
}

/// Binding to an address takes its interface and protocol and nothing else.
pub proof fn binding_takes_interface_and_protocol(address: SockAddrLl)
    ensures
        PacketBindRequest::new(address.interface(), address.protocol()).interface()
            == address.interface(),
        PacketBindRequest::new(address.interface(), address.protocol()).protocol()
            == address.protocol(),
{
}

/// Send-only `sockaddr_ll` fields. The declared address length is kept as
/// copied; the device decides how many address bytes are read.
#[derive(Clone, Copy, Debug, Eq, PartialEq)]
pub struct PacketSendAddress {
    pub(crate) interface: InterfaceIndex,
    pub(crate) protocol: ProtocolSelector,
    pub(crate) declared_address_len: u8,
    pub(crate) bytes: [u8; 8],
}

impl PacketSendAddress {
    /// Validates the interface index and keeps the declared length as copied.
    pub fn try_from_network_order_fields(
        protocol_network_order: u16,
        interface_index: i32,
        declared_address_len: u8,
        address: [u8; 8],
    ) -> (result: Result<Self, PacketError>)
        ensures
            match result {
                Ok(send) => {
                    &&& interface_index >= 0
                    &&& send.interface().raw() == interface_index
                    &&& send.declared_address_len() == declared_address_len
                    &&& send.raw_address() == address@
                    &&& exists|host: u16| #[trigger]
                        network_form(host, protocol_network_order) && read_as(
                            protocol_network_order,
                            host,
                        ) && send.protocol() == ProtocolSelector::from_host_order(host)
                },
                Err(error) => interface_index < 0 && error == PacketError::InvalidInterfaceIndex,
            },
    {
        let interface = match InterfaceIndex::from_raw(interface_index) {
            Ok(interface) => interface,
            Err(error) => return Err(error),
        };
        let protocol = ProtocolSelector::from_network_order_u16(protocol_network_order);
        Ok(Self { interface, protocol, declared_address_len, bytes: address })
    }

    /// Wildcard or exact requested interface.
    #[verifier::when_used_as_spec(spec_interface)]
    pub fn interface(self) -> (result: InterfaceIndex)
        ensures
            result == self.spec_interface(),
    {
        self.interface
    }

    /// Specification counterpart of [`Self::interface`].
    pub open(crate) spec fn spec_interface(self) -> InterfaceIndex {
        self.interface
    }

    /// Requested normalized protocol.
    #[verifier::when_used_as_spec(spec_protocol)]
    pub fn protocol(self) -> (result: ProtocolSelector)
        ensures
            result == self.spec_protocol(),
    {
        self.protocol
    }

    /// Specification counterpart of [`Self::protocol`].
    pub open(crate) spec fn spec_protocol(self) -> ProtocolSelector {
        self.protocol
    }

    /// Address length as the caller declared it, unvalidated.
    #[verifier::when_used_as_spec(spec_declared_address_len)]
    pub fn declared_address_len(self) -> (result: u8)
        ensures
            result == self.spec_declared_address_len(),
    {
        self.declared_address_len
    }

    /// Specification counterpart of [`Self::declared_address_len`].
    pub open(crate) spec fn spec_declared_address_len(self) -> u8 {
        self.declared_address_len
    }

    /// The copied storage field.
    pub open(crate) spec fn raw_address(self) -> Seq<u8> {
        self.bytes@
    }

    /// Selects the bytes that a device with `device_address_len` address bytes
    /// reads, whatever length the caller declared.
    pub fn address_for_device(self, device_address_len: u8) -> (result: Result<
        LinkLayerAddress,
        PacketError,
    >)
        ensures
            match result {
                Ok(address) => {
                    &&& device_address_len <= MAX_LINK_LAYER_ADDRESS_LEN
                    &&& address.len() == device_address_len
                    &&& address@ == self.raw_address().take(device_address_len as int)
                },
                Err(error) => device_address_len > MAX_LINK_LAYER_ADDRESS_LEN && error
                    == PacketError::InvalidHardwareAddressLength,
            },
    {
        LinkLayerAddress::new(self.bytes, device_address_len)
    }
}

} // verus!
