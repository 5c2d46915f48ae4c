//! What the packet-socket operations are for, stated of the calls themselves.
//!
//! A law speaks of the arguments and the result of one call, or of several calls
//! one after another, and of nothing else.

use crate::packet::address::{
    InterfaceIndex, LinkLayerAddress, LinkLayerInfo, PacketBindRequest, PacketSendAddress,
    PacketType, SockAddrLl,
};
use crate::packet::error::PacketError;
use crate::packet::options::{
    GetPacketOption, PacketOption, PacketOptionOperation, SetPacketOption,
};
use crate::packet::protocol::{EtherType, ProtocolSelector};
use crate::packet::receive::{
    FrameLayout, PacketView, QueueDisposition, ReceiveDecision, ReceiveFlags,
};
use crate::packet::socket::{
    BindPlan, BindPublication, BindingGeneration, DeliveryDecision, DeliveryDirection, PacketSocketState,
    PacketSocketType,
};
use crate::packet::statistics::PacketStatistics;
use vstd::prelude::*;

verus! {

/// An incoming packet on an interface that the socket listens on is delivered
/// exactly when the socket's protocol is `ETH_P_ALL` or is the packet's protocol.
/// A socket without a protocol gets nothing and says so; any other refusal is a
/// mismatch of protocols.
pub proof fn incoming_packets_reach_matching_sockets(
    socket: &PacketSocketState,
    protocol: u16,
    interface: InterfaceIndex,
    result: DeliveryDecision,
)
    requires
        call_ensures(
            PacketSocketState::delivery_decision,
            (socket, DeliveryDirection::Incoming, protocol, interface),
            result,
        ),
        interface is Exact,
        socket.binding().interface() is Any || socket.binding().interface() == interface,
    ensures
        socket.binding().protocol() is All ==> result is Deliver,
        socket.binding().protocol() is Disabled ==> result is ProtocolDisabled,
        socket.binding().protocol() matches ProtocolSelector::Exact(own) ==> {
            &&& own.host_order() == protocol ==> result is Deliver
            &&& own.host_order() != protocol ==> result is ProtocolMismatch
        },
{
}

/// Sockets bound to one interface see no packet of another, sockets bound to none
/// see those of all, and a packet without an interface reaches nobody.
pub proof fn packets_reach_only_their_interface(
    socket: &PacketSocketState,
    direction: DeliveryDirection,
    protocol: u16,
    interface: InterfaceIndex,
    result: DeliveryDecision,
)
    requires
        call_ensures(
            PacketSocketState::delivery_decision,
            (socket, direction, protocol, interface),
            result,
        ),
    ensures
        interface is Any ==> result is InterfaceMismatch,
        socket.binding().interface() is Exact && socket.binding().interface() != interface
            ==> result is InterfaceMismatch,
        interface is Exact && socket.binding().interface() is Any ==> !(result is InterfaceMismatch),
        interface is Exact && socket.binding().interface() == interface ==> !(result
            is InterfaceMismatch),
{
}

/// An outgoing packet on an interface that the socket listens on is delivered to
/// `ETH_P_ALL` sockets that do not ignore outgoing packets, whatever its
/// protocol, and to no other.
pub proof fn outgoing_packets_reach_capturing_sockets(
    socket: &PacketSocketState,
    protocol: u16,
    interface: InterfaceIndex,
    result: DeliveryDecision,
    captures: bool,
)
    requires
        call_ensures(
            PacketSocketState::delivery_decision,
            (socket, DeliveryDirection::Outgoing, protocol, interface),
            result,
        ),
        call_ensures(PacketSocketState::captures_outgoing, (socket,), captures),
        interface is Exact,
        socket.binding().interface() is Any || socket.binding().interface() == interface,
    ensures
        result is Deliver <==> captures,
        captures <==> socket.binding().protocol() is All && !socket.ignore_outgoing(),
        socket.binding().protocol() is Disabled ==> result is ProtocolDisabled,
        socket.binding().protocol() is Exact ==> result is OutgoingRequiresAllProtocols,
        socket.binding().protocol() is All && socket.ignore_outgoing() ==> result
            is OutgoingIgnored,
{
}

/// Ignoring outgoing packets hides outgoing packets only: an incoming packet is
/// decided as if the option had not been touched.
pub proof fn ignoring_outgoing_leaves_incoming_alone(
    a: &PacketSocketState,
    b: &PacketSocketState,
    protocol: u16,
    interface: InterfaceIndex,
    first: DeliveryDecision,
    second: DeliveryDecision,
)
    requires
        a.binding() == b.binding(),
        call_ensures(
            PacketSocketState::delivery_decision,
            (a, DeliveryDirection::Incoming, protocol, interface),
            first,
        ),
        call_ensures(
            PacketSocketState::delivery_decision,
            (b, DeliveryDirection::Incoming, protocol, interface),
            second,
        ),
    ensures
        first == second,
{
}

/// Only a delivered decision admits the packet to the queue.
pub proof fn only_delivered_packets_are_queued(decision: DeliveryDecision, result: bool)
    requires
        call_ensures(DeliveryDecision::should_deliver, (decision,), result),
    ensures
        result <==> decision == DeliveryDecision::Deliver,
{
}

/// A new socket listens on every interface for the protocol it was created with.
pub proof fn new_sockets_listen_everywhere(
    socket_type: PacketSocketType,
    protocol: ProtocolSelector,
    socket: PacketSocketState,
    interface: InterfaceIndex,
    incoming: u16,
    result: DeliveryDecision,
)
    requires
        call_ensures(PacketSocketState::new, (socket_type, protocol), socket),
        call_ensures(
            PacketSocketState::delivery_decision,
            (&socket, DeliveryDirection::Incoming, incoming, interface),
            result,
        ),
        interface is Exact,
    ensures
        socket.socket_type() == socket_type,
        result is Deliver <==> match protocol {
            ProtocolSelector::Disabled => false,
            ProtocolSelector::All => true,
            ProtocolSelector::Exact(own) => own.host_order() == incoming,
        },
{
}

/// Preparing a bind and publishing it at once puts the socket on the requested
/// interface, with the requested protocol or, where none was requested, the one
/// it had. The socket is told rebound exactly when something changed.
pub proof fn bind_takes_effect(
    socket: &mut PacketSocketState,
    request: PacketBindRequest,
    prepared: Result<BindPlan, PacketError>,
    published: Result<BindPublication, PacketError>,
)
    requires
        call_ensures(PacketSocketState::prepare_bind, (old(socket), request), prepared),
        prepared is Ok,
        call_ensures(PacketSocketState::publish_bind, (socket, prepared->Ok_0), published),
    ensures
        published is Ok,
        final(socket).binding().interface() == request.interface(),
        request.protocol() is Disabled ==> final(socket).binding().protocol()
            == old(socket).binding().protocol(),
        !(request.protocol() is Disabled) ==> final(socket).binding().protocol()
            == request.protocol(),
        final(socket).socket_type() == old(socket).socket_type(),
        final(socket).ignore_outgoing() == old(socket).ignore_outgoing(),
        published == Ok::<BindPublication, PacketError>(BindPublication::Unchanged) <==> old(
            socket,
        ).binding() == final(socket).binding(),
        old(socket).binding() != final(socket).binding() ==> old(socket).binding().generation().get()
            < final(socket).binding().generation().get(),
{
}

/// A bind is refused only when the generations have run out, and then only when
/// it would change something.
pub proof fn bind_fails_only_without_generations(
    socket: &PacketSocketState,
    request: PacketBindRequest,
    prepared: Result<BindPlan, PacketError>,
)
    requires
        call_ensures(PacketSocketState::prepare_bind, (socket, request), prepared),
    ensures
        socket.binding().generation().get() < 0xffff_ffff_ffff_ffffu64 ==> prepared is Ok,
        request.interface() == socket.binding().interface() && (request.protocol() is Disabled
            || request.protocol() == socket.binding().protocol()) ==> prepared is Ok,
        prepared matches Err(error) ==> error == PacketError::BindGenerationExhausted,
{
}

/// Of two plans made from one binding, the one that is published second fails and
/// changes nothing, if the first changed the binding.
pub proof fn only_one_of_two_plans_is_published(
    socket: &mut PacketSocketState,
    winner: BindPlan,
    loser: BindPlan,
    first: Result<BindPublication, PacketError>,
    later: &mut PacketSocketState,
    second: Result<BindPublication, PacketError>,
)
    requires
        winner.expected() == loser.expected(),
        call_ensures(PacketSocketState::publish_bind, (socket, winner), first),
        first == Ok::<BindPublication, PacketError>(BindPublication::Rebound),
        *old(later) == *final(socket),
        call_ensures(PacketSocketState::publish_bind, (later, loser), second),
    ensures
        second == Err::<BindPublication, PacketError>(PacketError::StaleBindPlan),
        *final(later) == *old(later),
{
}

/// A socket's name is the address that binds another socket to the same
/// interface and protocol.
pub proof fn names_describe_the_binding(
    socket: &PacketSocketState,
    link: Option<LinkLayerInfo>,
    result: Result<SockAddrLl, PacketError>,
)
    requires
        call_ensures(PacketSocketState::get_name, (socket, link), result),
    ensures
        result matches Ok(name) ==> {
            &&& name.interface() == socket.binding().interface()
            &&& name.protocol() == socket.binding().protocol()
            &&& name.packet_type().raw() == 0
        },
        socket.binding().interface() is Any ==> (result matches Ok(name) && name.hardware_type()
            == 0 && name.address()@.len() == 0),
        socket.binding().interface() is Exact ==> match link {
            None => result == Err::<SockAddrLl, PacketError>(PacketError::MissingLinkLayerInfo),
            Some(info) => if info.interface() == socket.binding().interface() {
                result matches Ok(name) && name.hardware_type() == info.hardware_type()
                    && name.address() == info.address()
            } else {
                result == Err::<SockAddrLl, PacketError>(PacketError::LinkLayerInfoMismatch)
            },
        },
{
}

/// Setting the option that was decoded from a nonzero integer hides outgoing
/// packets from the socket, and from zero shows them; nothing else changes.
pub proof fn ignore_outgoing_is_set_from_its_integer(
    socket: &mut PacketSocketState,
    value: i32,
    decoded: Result<SetPacketOption, PacketError>,
    applied: (),
)
    requires
        call_ensures(SetPacketOption::decode, (23i32, value), decoded),
        decoded is Ok ==> call_ensures(
            PacketSocketState::set_option,
            (socket, decoded->Ok_0),
            applied,
        ),
    ensures
        decoded is Ok,
        final(socket).ignore_outgoing() <==> value != 0,
        final(socket).binding() == old(socket).binding(),
        final(socket).socket_type() == old(socket).socket_type(),
{
    assert(PacketOption::IgnoreOutgoing.raw() == 23);
}

/// Of the `SOL_PACKET` options only number 23 can be set, and only numbers 6 and
/// 23 can be read. The other numbers from 1 to 24 are known and unsupported,
/// save 4, which like the rest is unknown.
pub proof fn two_options_are_supported(
    raw: i32,
    value: i32,
    set: Result<SetPacketOption, PacketError>,
    got: Result<GetPacketOption, PacketError>,
)
    requires
        call_ensures(SetPacketOption::decode, (raw, value), set),
        call_ensures(GetPacketOption::decode, (raw,), got),
    ensures
        set is Ok <==> raw == 23,
        got is Ok <==> raw == 6 || raw == 23,
        raw == 6 ==> got == Ok::<GetPacketOption, PacketError>(GetPacketOption::Statistics),
        raw == 23 ==> got == Ok::<GetPacketOption, PacketError>(GetPacketOption::IgnoreOutgoing),
        set matches Err(error) ==> if 1 <= raw <= 24 && raw != 4 {
            error matches PacketError::UnsupportedPacketOption { option, operation }
                && option.raw() == raw && operation == PacketOptionOperation::Mutate
        } else {
            error == PacketError::UnknownPacketOption
        },
        got matches Err(error) ==> if 1 <= raw <= 24 && raw != 4 {
            error matches PacketError::UnsupportedPacketOption { option, operation }
                && option.raw() == raw && operation == PacketOptionOperation::Get
        } else {
            error == PacketError::UnknownPacketOption
        },
{
    option_numbers_fill_their_range(raw);
}

proof fn option_numbers_fill_their_range(raw: i32)
    ensures
        1 <= raw <= 24 && raw != 4 <==> exists|option: PacketOption| #[trigger] option.raw() == raw,
        PacketOption::IgnoreOutgoing.raw() == 23,
        PacketOption::Statistics.raw() == 6,
{
    if raw == 1 {
        assert(PacketOption::AddMembership.raw() == raw);
    } else if raw == 2 {
        assert(PacketOption::DropMembership.raw() == raw);
    } else if raw == 3 {
        assert(PacketOption::ReceiveOutput.raw() == raw);
    } else if raw == 5 {
        assert(PacketOption::ReceiveRing.raw() == raw);
    } else if raw == 6 {
        assert(PacketOption::Statistics.raw() == raw);
    } else if raw == 7 {
        assert(PacketOption::CopyThreshold.raw() == raw);
    } else if raw == 8 {
        assert(PacketOption::AuxData.raw() == raw);
    } else if raw == 9 {
        assert(PacketOption::OriginalDevice.raw() == raw);
    } else if raw == 10 {
        assert(PacketOption::Version.raw() == raw);
    } else if raw == 11 {
        assert(PacketOption::HeaderLength.raw() == raw);
    } else if raw == 12 {
        assert(PacketOption::Reserve.raw() == raw);
    } else if raw == 13 {
        assert(PacketOption::TransmitRing.raw() == raw);
    } else if raw == 14 {
        assert(PacketOption::Loss.raw() == raw);
    } else if raw == 15 {
        assert(PacketOption::VirtualNetHeader.raw() == raw);
    } else if raw == 16 {
        assert(PacketOption::TransmitTimestamp.raw() == raw);
    } else if raw == 17 {
        assert(PacketOption::Timestamp.raw() == raw);
    } else if raw == 18 {
        assert(PacketOption::Fanout.raw() == raw);
    } else if raw == 19 {
        assert(PacketOption::TransmitHasOffset.raw() == raw);
    } else if raw == 20 {
        assert(PacketOption::QueueDisciplineBypass.raw() == raw);
    } else if raw == 21 {
        assert(PacketOption::RolloverStatistics.raw() == raw);
    } else if raw == 22 {
        assert(PacketOption::FanoutData.raw() == raw);
    } else if raw == 23 {
        assert(PacketOption::IgnoreOutgoing.raw() == raw);
    } else if raw == 24 {
        assert(PacketOption::VirtualNetHeaderSize.raw() == raw);
    }
}

/// A receive copies what fits, says that the message was truncated exactly when
/// something did not fit, and reports the copied length, or with `MSG_TRUNC` the
/// length of the whole packet. Only `MSG_PEEK` leaves the packet queued.
pub proof fn receives_copy_what_fits(
    view: PacketView,
    room: usize,
    bits: u32,
    flags: Result<ReceiveFlags, PacketError>,
    result: ReceiveDecision,
)
    requires
        call_ensures(ReceiveFlags::from_bits, (bits,), flags),
        flags is Ok,
        call_ensures(PacketView::receive_decision, (view, room, flags->Ok_0), result),
    ensures
        result.payload_offset() == view.payload_offset(),
        result.copy_len() <= room,
        result.copy_len() <= view.captured_len(),
        result.copy_len() == room || result.copy_len() == view.captured_len(),
        result.message_truncated() <==> view.captured_len() > room,
        bits & 0x20u32 == 0x20u32 ==> result.returned_len() == view.captured_len(),
        bits & 0x20u32 == 0 ==> result.returned_len() == result.copy_len(),
        bits & 0x02u32 == 0x02u32 ==> result.queue_disposition() is Retain,
        bits & 0x02u32 == 0 ==> result.queue_disposition() is Consume,
{
}

/// Peeking at a packet and then receiving it with the same room copies the same
/// bytes, reports the same length and the same truncation.
pub proof fn peeking_shows_what_a_receive_gives(
    view: PacketView,
    room: usize,
    peek: ReceiveFlags,
    take: ReceiveFlags,
    peeked: ReceiveDecision,
    taken: ReceiveDecision,
)
    requires
        peek.bits() & 0x20u32 == take.bits() & 0x20u32,
        call_ensures(PacketView::receive_decision, (view, room, peek), peeked),
        call_ensures(PacketView::receive_decision, (view, room, take), taken),
    ensures
        peeked.payload_offset() == taken.payload_offset(),
        peeked.copy_len() == taken.copy_len(),
        peeked.returned_len() == taken.returned_len(),
        peeked.message_truncated() == taken.message_truncated(),
{
}

/// The packet is claimed before its bytes are copied exactly when it leaves the
/// queue.
pub proof fn claimed_packets_leave_the_queue(disposition: QueueDisposition, result: bool)
    requires
        call_ensures(QueueDisposition::claims_before_copy, (disposition,), result),
    ensures
        result <==> disposition == QueueDisposition::Consume,
{
}

/// Receive flags other than `MSG_PEEK` and `MSG_TRUNC` are refused.
pub proof fn receive_flags_are_peek_and_trunc(bits: u32, result: Result<ReceiveFlags, PacketError>)
    requires
        call_ensures(ReceiveFlags::from_bits, (bits,), result),
    ensures
        result is Ok <==> bits == 0 || bits == 0x02 || bits == 0x20 || bits == 0x22,
        result matches Ok(flags) ==> flags.bits() == bits,
        result matches Err(error) ==> error == PacketError::UnsupportedReceiveFlags,
{
    assert(bits & !0x22u32 == 0 <==> bits == 0 || bits == 0x02 || bits == 0x20 || bits == 0x22)
        by (bit_vector);
}

/// A raw socket sees the whole frame. A datagram socket sees the frame from its
/// network header on. A filter can only shorten what is seen.
pub proof fn views_show_the_frame_or_its_payload(
    frame_len: usize,
    network_offset: usize,
    captured_len: usize,
    layout: Result<FrameLayout, PacketError>,
    raw: Result<PacketView, PacketError>,
    datagram: Result<PacketView, PacketError>,
)
    requires
        call_ensures(FrameLayout::new, (frame_len, network_offset), layout),
        layout is Ok,
        call_ensures(
            FrameLayout::captured_view,
            (layout->Ok_0, PacketSocketType::Raw, captured_len),
            raw,
        ),
        call_ensures(
            FrameLayout::captured_view,
            (layout->Ok_0, PacketSocketType::Datagram, captured_len),
            datagram,
        ),
    ensures
        network_offset <= frame_len,
        raw is Ok <==> captured_len <= frame_len,
        datagram is Ok <==> network_offset + captured_len <= frame_len,
        raw matches Ok(view) ==> {
            &&& view.payload_offset() == 0
            &&& view.original_len() == frame_len
            &&& view.captured_len() == captured_len
        },
        datagram matches Ok(view) ==> {
            &&& view.payload_offset() == network_offset
            &&& view.original_len() == frame_len - network_offset
            &&& view.captured_len() == captured_len
        },
        raw matches Err(error) ==> error == PacketError::InvalidCapturedLength,
        datagram matches Err(error) ==> error == PacketError::InvalidCapturedLength,
{
}

/// A frame is refused exactly when its network header would begin behind its end.
pub proof fn frames_hold_their_network_header(
    frame_len: usize,
    network_offset: usize,
    result: Result<FrameLayout, PacketError>,
)
    requires
        call_ensures(FrameLayout::new, (frame_len, network_offset), result),
    ensures
        network_offset <= frame_len <==> result is Ok,
        result matches Err(error) ==> error == PacketError::InvalidFrameLayout,
{
}

/// `socket(2)` types 3 and 2 are the raw and the datagram mode; a mode that was
/// decoded is written back as its number, and no other number is accepted.
pub proof fn socket_types_are_their_numbers(
    raw: i32,
    decoded: Result<PacketSocketType, PacketError>,
    socket_type: PacketSocketType,
    encoded: i32,
)
    requires
        call_ensures(PacketSocketType::from_raw, (raw,), decoded),
        call_ensures(PacketSocketType::raw, (socket_type,), encoded),
    ensures
        decoded is Ok <==> raw == 3 || raw == 2,
        decoded == Ok::<PacketSocketType, PacketError>(PacketSocketType::Raw) <==> raw == 3,
        decoded == Ok::<PacketSocketType, PacketError>(PacketSocketType::Datagram) <==> raw == 2,
        decoded == Ok::<PacketSocketType, PacketError>(socket_type) <==> raw == encoded,
{
}

/// A host-order protocol selects nothing when it is zero, everything when it is
/// `ETH_P_ALL`, and otherwise just itself.
pub proof fn selectors_accept_their_protocol(
    host: u16,
    incoming: u16,
    selector: ProtocolSelector,
    accepted: bool,
    back: u16,
)
    requires
        call_ensures(ProtocolSelector::from_host_order, (host,), selector),
        call_ensures(ProtocolSelector::accepts_host_order, (selector, incoming), accepted),
        call_ensures(ProtocolSelector::host_order, (selector,), back),
    ensures
        accepted <==> host == 0x0003 || (host != 0 && host == incoming),
        back == host,
{
}

/// A protocol is exact unless it is zero or `ETH_P_ALL`.
pub proof fn exact_protocols_are_neither_none_nor_all(
    host: u16,
    result: Result<EtherType, PacketError>,
)
    requires
        call_ensures(EtherType::new, (host,), result),
    ensures
        result is Ok <==> host != 0 && host != 0x0003,
        result matches Ok(protocol) ==> protocol.host_order() == host,
        result matches Err(error) ==> error == PacketError::InvalidExactProtocol,
{
}

/// A selector that is written to a network-order field and read back, as a
/// `socket(2)` integer, a bind address, a socket name or a send address, is the
/// same selector.
pub proof fn protocols_travel_through_network_order(
    selector: ProtocolSelector,
    field: u16,
    back: ProtocolSelector,
    request: Result<PacketBindRequest, PacketError>,
    send: Result<PacketSendAddress, PacketError>,
    index: i32,
    len: u8,
    address: [u8; 8],
)
    requires
        selector == ProtocolSelector::from_host_order(selector.host_order()),
        call_ensures(ProtocolSelector::to_network_order_u16, (selector,), field),
        call_ensures(ProtocolSelector::from_network_order_u16, (field,), back),
        call_ensures(
            PacketBindRequest::try_from_network_order_fields,
            (17u16, field, index),
            request,
        ),
        call_ensures(
            PacketSendAddress::try_from_network_order_fields,
            (field, index, len, address),
            send,
        ),
    ensures
        back == selector,
        request matches Ok(bind) ==> bind.protocol() == selector,
        send matches Ok(to) ==> to.protocol() == selector,
{
    assert forall|host: u16| #[trigger] crate::packet::protocol::read_as(field, host) implies host
        == selector.host_order() by {
        crate::packet::protocol::byte_order_round_trips(field, host);
    }
}

/// A bind address is accepted exactly for family 17 and an index that is not
/// negative; index zero binds to every interface.
pub proof fn bind_addresses_are_packet_addresses(
    family: u16,
    protocol: u16,
    index: i32,
    result: Result<PacketBindRequest, PacketError>,
)
    requires
        call_ensures(
            PacketBindRequest::try_from_network_order_fields,
            (family, protocol, index),
            result,
        ),
    ensures
        result is Ok <==> family == 17 && index >= 0,
        result matches Ok(request) ==> request.interface().raw() == index,
        result matches Err(error) ==> if family != 17 {
            error == PacketError::InvalidAddressFamily
        } else {
            error == PacketError::InvalidInterfaceIndex
        },
{
}

/// A socket address keeps every field it was copied from: the index, the hardware
/// and packet types, and the first `len` address bytes.
pub proof fn socket_addresses_keep_their_fields(
    family: u16,
    protocol: u16,
    index: i32,
    hardware: u16,
    kind: u8,
    len: u8,
    bytes: [u8; 8],
    result: Result<SockAddrLl, PacketError>,
)
    requires
        call_ensures(
            SockAddrLl::try_from_network_order_fields,
            (family, protocol, index, hardware, kind, len, bytes),
            result,
        ),
    ensures
        result is Ok <==> family == 17 && index >= 0 && len <= 8,
        result matches Ok(name) ==> {
            &&& name.interface().raw() == index
            &&& name.hardware_type() == hardware
            &&& name.packet_type().raw() == kind
            &&& name.address()@.len() == len
            &&& forall|i: int| 0 <= i < len ==> #[trigger] name.address()@[i] == bytes@[i]
        },
        result matches Err(error) ==> if family != 17 {
            error == PacketError::InvalidAddressFamily
        } else if index < 0 {
            error == PacketError::InvalidInterfaceIndex
        } else {
            error == PacketError::InvalidHardwareAddressLength
        },
{
}

/// A device reads as many of the copied address bytes as its own addresses have,
/// whatever length the sender declared.
pub proof fn devices_read_their_own_address_length(
    protocol: u16,
    index: i32,
    declared: u8,
    bytes: [u8; 8],
    len: u8,
    send: Result<PacketSendAddress, PacketError>,
    result: Result<LinkLayerAddress, PacketError>,
)
    requires
        call_ensures(
            PacketSendAddress::try_from_network_order_fields,
            (protocol, index, declared, bytes),
            send,
        ),
        send is Ok ==> call_ensures(
            PacketSendAddress::address_for_device,
            (send->Ok_0, len),
            result,
        ),
    ensures
        send is Ok <==> index >= 0,
        send matches Ok(to) ==> {
            &&& to.interface().raw() == index
            &&& to.declared_address_len() == declared
            &&& result is Ok <==> len <= 8
            &&& result matches Ok(address) ==> address@.len() == len && forall|i: int|
                0 <= i < len ==> #[trigger] address@[i] == bytes@[i]
        },
{
}

/// Interface indices are the numbers that are not negative: zero is the wildcard.
pub proof fn interface_indices_are_their_numbers(
    raw: i32,
    exact: u32,
    any: Result<InterfaceIndex, PacketError>,
    one: Result<InterfaceIndex, PacketError>,
)
    requires
        call_ensures(InterfaceIndex::from_raw, (raw,), any),
        call_ensures(InterfaceIndex::exact, (exact,), one),
    ensures
        any is Ok <==> raw >= 0,
        any matches Ok(index) ==> index.raw() == raw && (index is Any <==> raw == 0),
        one is Ok <==> 0 < exact < 0x8000_0000u32,
        one matches Ok(index) ==> index.raw() == exact && index is Exact,
{
}

/// The packet types are the numbers from zero to seven.
pub proof fn packet_types_are_their_numbers()
    ensures
        PacketType::HOST().raw() == 0,
        PacketType::BROADCAST().raw() == 1,
        PacketType::MULTICAST().raw() == 2,
        PacketType::OTHER_HOST().raw() == 3,
        PacketType::OUTGOING().raw() == 4,
        PacketType::LOOPBACK().raw() == 5,
        PacketType::USER().raw() == 6,
        PacketType::KERNEL().raw() == 7,
{
}

/// A link-layer address is the first `len` bytes it was built from, at most eight,
/// and its storage is zero behind them.
pub proof fn link_addresses_are_their_bytes(
    bytes: [u8; 8],
    len: u8,
    result: Result<LinkLayerAddress, PacketError>,
    meaningful: &[u8],
    padded: [u8; 8],
    i: int,
)
    requires
        call_ensures(LinkLayerAddress::new, (bytes, len), result),
        result is Ok ==> call_ensures(LinkLayerAddress::as_bytes, (&result->Ok_0,), meaningful),
        result is Ok ==> call_ensures(LinkLayerAddress::padded_bytes, (result->Ok_0,), padded),
        0 <= i < 8,
    ensures
        result is Ok <==> len <= 8,
        result is Ok ==> {
            &&& meaningful@.len() == len
            &&& i < len ==> meaningful@[i] == bytes@[i] && padded@[i] == bytes@[i]
            &&& i >= len ==> padded@[i] == 0
        },
        result matches Err(error) ==> error == PacketError::InvalidHardwareAddressLength,
{
    if result is Ok && i < len {
        assert(padded@.take(len as int)[i] == padded@[i]);
        assert(bytes@.take(len as int)[i] == bytes@[i]);
    }
}

/// An exact protocol that is written to a network-order field and read back is the
/// same protocol; a field that reads as zero or `ETH_P_ALL` is refused.
pub proof fn exact_protocols_travel_through_network_order(
    protocol: EtherType,
    field: u16,
    back: Result<EtherType, PacketError>,
)
    requires
        protocol.host_order() != 0,
        protocol.host_order() != 0x0003,
        call_ensures(EtherType::to_network_order, (protocol,), field),
        call_ensures(EtherType::from_network_order, (field,), back),
    ensures
        back matches Ok(same) && same.host_order() == protocol.host_order(),
{
    assert forall|host: u16| #[trigger] crate::packet::protocol::read_as(field, host) implies host
        == protocol.host_order() by {
        crate::packet::protocol::byte_order_round_trips(field, host);
    }
}

/// A `socket(2)` protocol integer is read by its low sixteen bits.
pub proof fn protocol_integers_are_read_by_their_low_bits(
    integer: i32,
    field: u16,
    wide: ProtocolSelector,
    narrow: ProtocolSelector,
)
    requires
        field as u32 == (integer as u32) & 0xffffu32,
        call_ensures(ProtocolSelector::from_network_order_i32, (integer,), wide),
        call_ensures(ProtocolSelector::from_network_order_u16, (field,), narrow),
    ensures
        wide == narrow,
{
    assert(field as u32 == (integer as u32) & 0xffffu32 ==> integer as u16 == field)
        by (bit_vector);
    assert forall|a: u16, b: u16| #[trigger]
        crate::packet::protocol::read_as(field, a) && #[trigger] crate::packet::protocol::read_as(
            field,
            b,
        ) implies a == b by {
        crate::packet::protocol::byte_order_round_trips(field, a);
    }
}

/// A socket name is written back with its protocol in network order.
pub proof fn names_are_written_in_network_order(
    name: SockAddrLl,
    field: u16,
    selector: u16,
)
    requires
        call_ensures(SockAddrLl::protocol_network_order, (name,), field),
        call_ensures(ProtocolSelector::to_network_order_u16, (name.protocol(),), selector),
        crate::packet::protocol::read_as(selector, name.protocol().host_order()),
    ensures
        field == selector,
{
    crate::packet::protocol::byte_order_round_trips(selector, name.protocol().host_order());
}

/// The whole of a frame is seen from its start by a raw socket, and from its
/// network header on by a datagram socket.
pub proof fn full_views_reach_the_end_of_the_frame(
    frame_len: usize,
    network_offset: usize,
    layout: Result<FrameLayout, PacketError>,
    socket_type: PacketSocketType,
    view: PacketView,
)
    requires
        call_ensures(FrameLayout::new, (frame_len, network_offset), layout),
        layout is Ok,
        call_ensures(FrameLayout::full_view, (layout->Ok_0, socket_type), view),
    ensures
        view.payload_offset() == if socket_type is Raw {
            0
        } else {
            network_offset
        },
        view.payload_offset() + view.original_len() == frame_len,
        view.captured_len() == view.original_len(),
{
}

/// Generations count up by one and end rather than wrap; skipping them never goes
/// back and changes nothing else.
pub proof fn generations_count_up(
    generation: BindingGeneration,
    next: Result<BindingGeneration, PacketError>,
    socket: &mut PacketSocketState,
    skipped: (),
)
    requires
        call_ensures(BindingGeneration::next, (generation,), next),
        call_ensures(PacketSocketState::skip_generations_to, (socket, generation), skipped),
    ensures
        next is Ok <==> generation.get() < 0xffff_ffff_ffff_ffffu64,
        next matches Ok(later) ==> later.get() == generation.get() + 1,
        final(socket).binding().generation().get() >= old(socket).binding().generation().get(),
        final(socket).binding().generation().get() >= generation.get(),
        final(socket).binding().generation() == generation || final(socket).binding().generation()
            == old(socket).binding().generation(),
        final(socket).binding().interface() == old(socket).binding().interface(),
        final(socket).binding().protocol() == old(socket).binding().protocol(),
        final(socket).ignore_outgoing() == old(socket).ignore_outgoing(),
{
}

/// Statistics are passed on as they were taken, and are empty exactly when all
/// four counts are zero.
pub proof fn statistics_are_passed_on(
    packets: u64,
    drops: u64,
    rejected: u64,
    errors: u64,
    result: PacketStatistics,
    empty: bool,
)
    requires
        call_ensures(
            PacketStatistics::from_destructive_snapshot,
            (packets, drops, rejected, errors),
            result,
        ),
        call_ensures(PacketStatistics::is_empty, (result,), empty),
    ensures
        result.packets() == packets && result.drops() == drops && result.filter_rejected()
            == rejected && result.filter_errors() == errors,
        empty <==> packets == 0 && drops == 0 && rejected == 0 && errors == 0,
{
}

/// Option numbers are read back as they are written.
pub proof fn option_numbers_round_trip(
    raw: i32,
    decoded: Result<PacketOption, PacketError>,
    option: PacketOption,
    encoded: i32,
    again: Result<PacketOption, PacketError>,
)
    requires
        call_ensures(PacketOption::from_raw, (raw,), decoded),
        call_ensures(PacketOption::raw, (option,), encoded),
        call_ensures(PacketOption::from_raw, (encoded,), again),
    ensures
        decoded is Ok <==> 1 <= raw <= 24 && raw != 4,
        again == Ok::<PacketOption, PacketError>(option),
{
    option_numbers_fill_their_range(raw);
    assert(option.raw() == encoded);
}

} // verus!
