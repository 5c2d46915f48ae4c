use crate::packet::address::{
    InterfaceIndex, LinkLayerAddress, LinkLayerInfo, PacketBindRequest, PacketType, SockAddrLl,
};
use crate::packet::error::PacketError;
use crate::packet::options::SetPacketOption;
use crate::packet::protocol::ProtocolSelector;
use vstd::prelude::*;

verus! {

/// AF_PACKET socket payload mode.
#[derive(Clone, Copy, Debug, Eq, Hash, PartialEq, Structural)]
pub enum PacketSocketType {
    /// `SOCK_RAW`: link-layer headers are visible and caller-supplied on send.
    Raw,
    /// `SOCK_DGRAM`: receive starts at the network header and send is cooked.
    Datagram,
}

impl PacketSocketType {
    /// Linux `SOCK_DGRAM` after the adapter strips creation flags.
    pub const SOCK_DGRAM: i32 = 2;

    /// Linux `SOCK_RAW` after the adapter strips creation flags.
    pub const SOCK_RAW: i32 = 3;

    /// Strictly decodes the base socket type.
    pub fn from_raw(raw: i32) -> (result: Result<Self, PacketError>)
        ensures
            match result {
                Ok(socket_type) => socket_type.raw() == raw,
                Err(error) => {
                    &&& raw != PacketSocketType::SOCK_RAW && raw != PacketSocketType::SOCK_DGRAM
                    &&& error == PacketError::UnsupportedSocketType
                },
            },
    {
        if raw == Self::SOCK_RAW {
            Ok(PacketSocketType::Raw)
        } else if raw == Self::SOCK_DGRAM {
            Ok(PacketSocketType::Datagram)
        } else {
            Err(PacketError::UnsupportedSocketType)
        }
    }

    /// Returns the Linux base socket type without creation flags.
    #[verifier::when_used_as_spec(spec_raw)]
    pub fn raw(self) -> (result: i32)
        ensures
            result == self.spec_raw(),
    {
        match self {
            PacketSocketType::Raw => Self::SOCK_RAW,
            PacketSocketType::Datagram => Self::SOCK_DGRAM,
        }
    }

    /// Specification counterpart of [`Self::raw`].
    pub open spec fn spec_raw(self) -> i32 {
        match self {
            PacketSocketType::Raw => PacketSocketType::SOCK_RAW,
            PacketSocketType::Datagram => PacketSocketType::SOCK_DGRAM,
        }
    }
}

/// Nonzero, non-wrapping generation for bind publication.
#[derive(Clone, Copy, Debug, Eq, Hash, Ord, PartialEq, PartialOrd, Structural)]
pub struct BindingGeneration(pub(crate) u64);

impl BindingGeneration {
    #[verifier::type_invariant]
    pub(crate) open spec fn nonzero(self) -> bool {
        self.0 != 0
    }

    /// Builds a caller-visible generation, reserving zero.
    pub fn new(raw: u64) -> (result: Result<Self, PacketError>)
        ensures
            match result {
                Ok(generation) => raw != 0 && generation.get() == raw,
                Err(error) => raw == 0 && error == PacketError::InvalidBindingGeneration,
            },
    {
        if raw == 0 {
            return Err(PacketError::InvalidBindingGeneration);
        }
        Ok(Self(raw))
    }

    /// Returns the generation value.
    #[verifier::when_used_as_spec(spec_get)]
    pub fn get(self) -> (result: u64)
        ensures
            result == self.spec_get(),
            result != 0,
    {
        proof {
            use_type_invariant(&self);
        }
        self.0
    }

    /// Specification counterpart of [`Self::get`].
    pub open(crate) spec fn spec_get(self) -> u64 {
        self.0
    }

    /// Advances without wrapping into an earlier binding identity.
    pub fn next(self) -> (result: Result<Self, PacketError>)
        ensures
            match result {
                Ok(generation) => generation.get() == self.get() + 1,
                Err(error) => self.get() == u64::MAX && error
                    == PacketError::BindGenerationExhausted,
            },
    {
        match self.get().checked_add(1) {
            Some(raw) => Self::new(raw),
            None => Err(PacketError::BindGenerationExhausted),
        }
    }
}

/// Published protocol/interface selection for one packet socket.
#[derive(Clone, Copy, Debug, Eq, PartialEq, Structural)]
pub struct PacketBinding {
    pub(crate) interface: InterfaceIndex,
    pub(crate) protocol: ProtocolSelector,
    pub(crate) generation: BindingGeneration,
}

impl PacketBinding {
    /// Wildcard or exact interface selection.
    #[verifier::when_used_as_spec(spec_interface)]
    pub fn interface(self) -> (result: InterfaceIndex)
        ensures
            result == self.spec_interface(),
    {
        self.interface
    }

    /// Specification counterpart of [`Self::interface`].
    pub open(crate) spec fn spec_interface(self) -> InterfaceIndex {
        self.interface
    }

    /// Effective host-order protocol selection.
    #[verifier::when_used_as_spec(spec_protocol)]
    pub fn protocol(self) -> (result: ProtocolSelector)
        ensures
            result == self.spec_protocol(),
    {
        self.protocol
    }

    /// Specification counterpart of [`Self::protocol`].
    pub open(crate) spec fn spec_protocol(self) -> ProtocolSelector {
        self.protocol
    }

    /// Current non-wrapping publication generation.
    #[verifier::when_used_as_spec(spec_generation)]
    pub fn generation(self) -> (result: BindingGeneration)
        ensures
            result == self.spec_generation(),
    {
        self.generation
    }

    /// Specification counterpart of [`Self::generation`].
    pub open(crate) spec fn spec_generation(self) -> BindingGeneration {
        self.generation
    }
}

/// Prepared bind/rebind transition for adapter-controlled device work.
#[derive(Clone, Copy, Debug, Eq, PartialEq, Structural)]
pub struct BindPlan {
    pub(crate) expected: PacketBinding,
    pub(crate) replacement: PacketBinding,
}

impl BindPlan {
    /// Exact binding snapshot that must still be live at publication.
    #[verifier::when_used_as_spec(spec_expected)]
    pub fn expected(self) -> (result: PacketBinding)
        ensures
            result == self.spec_expected(),
    {
        self.expected
    }

    /// Specification counterpart of [`Self::expected`].
    pub open(crate) spec fn spec_expected(self) -> PacketBinding {
        self.expected
    }

    /// Binding to publish after lower tap/device preparation succeeds.
    #[verifier::when_used_as_spec(spec_replacement)]
    pub fn replacement(self) -> (result: PacketBinding)
        ensures
            result == self.spec_replacement(),
    {
        self.replacement
    }

    /// Specification counterpart of [`Self::replacement`].
    pub open(crate) spec fn spec_replacement(self) -> PacketBinding {
        self.replacement
    }

    /// Returns whether the request leaves protocol and interface unchanged.
    #[verifier::when_used_as_spec(spec_is_noop)]
    pub fn is_noop(self) -> (result: bool)
        ensures
            result == self.spec_is_noop(),
            self.replacement().generation().get() == self.expected().generation().get() + if result {
                0int
            } else {
                1
            },
    {
        proof {
            use_type_invariant(&self);
        }
        self.expected.interface == self.replacement.interface && self.expected.protocol
            == self.replacement.protocol
    }

    /// Specification counterpart of [`Self::is_noop`].
    pub open spec fn spec_is_noop(self) -> bool {
        self.expected().interface() == self.replacement().interface() && self.expected().protocol()
            == self.replacement().protocol()
    }

    /// The generation advances by one exactly when the selection changes.
    #[verifier::type_invariant]
    pub(crate) open spec fn advances_on_change(self) -> bool {
        self.replacement.generation.0 == self.expected.generation.0 + if self.is_noop() {
            0int
        } else {
            1
        }
    }
}

/// Whether a live binding may be followed by `next`: it stays as it is, or its
/// generation grows.
pub open spec fn may_become(live: PacketBinding, next: PacketBinding) -> bool {
    next == live || next.generation().get() > live.generation().get()
}

/// A binding snapshot that was replaced never becomes live again: where one
/// snapshot is live at two moments, it was live all the while between them.
pub proof fn replaced_bindings_never_return(history: Seq<PacketBinding>, first: int, last: int)
    requires
        forall|i: int|
            0 <= i < history.len() - 1 ==> may_become(#[trigger] history[i], history[i + 1]),
        0 <= first <= last < history.len(),
        history[first] == history[last],
    ensures
        forall|i: int| first <= i <= last ==> #[trigger] history[i] == history[first],
{
    assert forall|i: int| first <= i <= last implies #[trigger] history[i] == history[first] by {
        generations_grow(history, first, i);
        generations_grow(history, i, last);
    }
}

proof fn generations_grow(history: Seq<PacketBinding>, first: int, last: int)
    requires
        forall|i: int|
            0 <= i < history.len() - 1 ==> may_become(#[trigger] history[i], history[i + 1]),
        0 <= first <= last < history.len(),
    ensures
        may_become(history[first], history[last]),
    decreases last - first,
{
    if first < last {
        generations_grow(history, first, last - 1);
        assert(may_become(history[last - 1], history[last - 1 + 1]));
    }
}

/// Successful bind publication outcome.
#[derive(Clone, Copy, Debug, Eq, PartialEq, Structural)]
pub enum BindPublication {
    /// The requested bind already matched the live selection.
    Unchanged,
    /// A new interface/protocol selection and generation became live.
    Rebound,
}

/// Packet direction used by `PACKET_IGNORE_OUTGOING` policy.
#[derive(Clone, Copy, Debug, Eq, PartialEq, Structural)]
pub enum DeliveryDirection {
    /// Packet received from an ingress device path.
    Incoming,
    /// Locally generated packet observed at an egress tap.
    Outgoing,
}

/// Pure reasoned result of matching one packet against socket state.
#[derive(Clone, Copy, Debug, Eq, PartialEq, Structural)]
pub enum DeliveryDecision {
    /// The packet matches interface, protocol, direction, and option policy.
    Deliver,
    /// The packet arrived on another exact interface.
    InterfaceMismatch,
    /// The socket's effective protocol is disabled.
    ProtocolDisabled,
    /// An incoming packet does not match the exact protocol selector.
    ProtocolMismatch,
    /// Linux egress taps deliver outgoing packets only to `ETH_P_ALL` sockets.
    OutgoingRequiresAllProtocols,
    /// `PACKET_IGNORE_OUTGOING` suppresses an otherwise eligible outgoing packet.
    OutgoingIgnored,
}

impl DeliveryDecision {
    /// Returns whether the packet should be admitted to the lower queue.
    pub fn should_deliver(self) -> (result: bool)
        ensures
            result == (self is Deliver),
    {
        matches!(self, DeliveryDecision::Deliver)
    }
}

/// First-stage reusable AF_PACKET socket state.
#[derive(Debug, Eq, PartialEq, Structural)]
pub struct PacketSocketState {
    pub(crate) socket_type: PacketSocketType,
    pub(crate) binding: PacketBinding,
    pub(crate) ignore_outgoing: bool,
}

impl PacketSocketState {
    /// Creates wildcard bind state with the normalized creation protocol.
    ///
    /// A non-disabled creation protocol may require immediate lower-layer tap
    /// registration; this value object does not perform that mechanism work.
    pub fn new(socket_type: PacketSocketType, protocol: ProtocolSelector) -> (result: Self)
        ensures
            result.socket_type() == socket_type,
            result.binding().interface() == InterfaceIndex::Any,
            result.binding().protocol() == protocol,
            result.binding().generation().get() == 1,
            !result.ignore_outgoing(),
    {
        Self {
            socket_type,
            binding: PacketBinding {
                interface: InterfaceIndex::Any,
                protocol,
                generation: BindingGeneration(1),
            },
            ignore_outgoing: false,
        }
    }

    /// Spends every generation before `generation`; an earlier or equal
    /// `generation` changes nothing.
    pub fn skip_generations_to(&mut self, generation: BindingGeneration)
        ensures
            final(self).socket_type() == old(self).socket_type(),
            final(self).ignore_outgoing() == old(self).ignore_outgoing(),
            final(self).binding().interface() == old(self).binding().interface(),
            final(self).binding().protocol() == old(self).binding().protocol(),
            final(self).binding().generation() == if generation.get()
                > old(self).binding().generation().get() {
                generation
            } else {
                old(self).binding().generation()
            },
            may_become(old(self).binding(), final(self).binding()),
    {
        if generation.get() > self.binding.generation.get() {
            self.binding.generation = generation;
        }
    }

    /// RAW or cooked DGRAM payload mode.
    #[verifier::when_used_as_spec(spec_socket_type)]
    pub fn socket_type(&self) -> (result: PacketSocketType)
        ensures
            result == self.spec_socket_type(),
    {
        self.socket_type
    }

    /// Specification counterpart of [`Self::socket_type`].
    pub open(crate) spec fn spec_socket_type(&self) -> PacketSocketType {
        self.socket_type
    }

    /// Exact current binding snapshot.
    #[verifier::when_used_as_spec(spec_binding)]
    pub fn binding(&self) -> (result: PacketBinding)
        ensures
            result == self.spec_binding(),
    {
        self.binding
    }

    /// Specification counterpart of [`Self::binding`].
    pub open(crate) spec fn spec_binding(&self) -> PacketBinding {
        self.binding
    }

    /// Prepares a bind or rebind without mutating live state.
    ///
    /// Linux treats a zero `sll_protocol` on bind as retaining the socket's
    /// current protocol. Other `sockaddr_ll` fields are irrelevant to bind;
    /// the validated interface and normalized protocol are the only consumed
    /// values. A changed plan advances generation before any adapter work.
    pub fn prepare_bind(&self, request: PacketBindRequest) -> (result: Result<BindPlan, PacketError>)
        ensures
            ({
                let live = self.binding();
                let protocol = if request.protocol() is Disabled {
                    live.protocol()
                } else {
                    request.protocol()
                };
                let changed = request.interface() != live.interface() || protocol
                    != live.protocol();
                match result {
                    Ok(plan) => {
                        &&& !changed || live.generation().get() < u64::MAX
                        &&& plan.expected() == live
                        &&& plan.replacement().interface() == request.interface()
                        &&& plan.replacement().protocol() == protocol
                        &&& plan.replacement().generation().get() == live.generation().get()
                            + if changed {
                            1int
                        } else {
                            0
                        }
                        &&& plan.is_noop() == !changed
                    },
                    Err(error) => {
                        &&& changed && live.generation().get() == u64::MAX
                        &&& error == PacketError::BindGenerationExhausted
                    },
                }
            }),
    {
        let protocol = match request.protocol() {
            ProtocolSelector::Disabled => self.binding.protocol,
            selected => selected,
        };
        let changed = request.interface() != self.binding.interface || protocol
            != self.binding.protocol;
        let generation = if changed {
            match self.binding.generation.next() {
                Ok(generation) => generation,
                Err(error) => return Err(error),
            }
        } else {
            self.binding.generation
        };
        Ok(
            BindPlan {
                expected: self.binding,
                replacement: PacketBinding {
                    interface: request.interface(),
                    protocol,
                    generation,
                },
            },
        )
    }

    /// Publishes a prepared plan only if its original generation and complete
    /// binding snapshot are still current.
    ///
    /// A stale plan returns an error and leaves the live state unchanged.
    pub fn publish_bind(&mut self, plan: BindPlan) -> (result: Result<BindPublication, PacketError>)
        ensures
            match result {
                Ok(outcome) => {
                    &&& old(self).binding() == plan.expected()
                    &&& final(self).binding() == plan.replacement()
                    &&& outcome == if plan.is_noop() {
                        BindPublication::Unchanged
                    } else {
                        BindPublication::Rebound
                    }
                    &&& outcome is Unchanged ==> *final(self) == *old(self)
                },
                Err(error) => {
                    &&& old(self).binding() != plan.expected()
                    &&& error == PacketError::StaleBindPlan
                    &&& *final(self) == *old(self)
                },
            },
            final(self).socket_type() == old(self).socket_type(),
            final(self).ignore_outgoing() == old(self).ignore_outgoing(),
            may_become(old(self).binding(), final(self).binding()),
    {
        proof {
            use_type_invariant(&plan);
        }
        if self.binding != plan.expected {
            return Err(PacketError::StaleBindPlan);
        }
        let outcome = if plan.is_noop() {
            BindPublication::Unchanged
        } else {
            BindPublication::Rebound
        };
        self.binding = plan.replacement;
        Ok(outcome)
    }

    /// Produces normalized `getsockname` state.
    ///
    /// A wildcard binding has no concrete link metadata. An exact binding
    /// requires a matching caller-owned device snapshot so this module never
    /// reads a driver registry or silently reuses stale interface metadata.
    pub fn get_name(&self, link: Option<LinkLayerInfo>) -> (result: Result<SockAddrLl, PacketError>)
        ensures
            ({
                let live = self.binding();
                match result {
                    Ok(name) => {
                        &&& name.interface() == live.interface()
                        &&& name.protocol() == live.protocol()
                        &&& name.packet_type() == PacketType::HOST()
                        &&& if live.interface().is_any() {
                            &&& name.hardware_type() == 0
                            &&& name.address().len() == 0
                            &&& name.address()@ == Seq::<u8>::empty()
                        } else {
                            &&& link is Some
                            &&& link->0.interface() == live.interface()
                            &&& name.hardware_type() == link->0.hardware_type()
                            &&& name.address() == link->0.address()
                        }
                    },
                    Err(PacketError::MissingLinkLayerInfo) => !live.interface().is_any()
                        && link is None,
                    Err(PacketError::LinkLayerInfoMismatch) => {
                        &&& !live.interface().is_any()
                        &&& link is Some
                        &&& link->0.interface() != live.interface()
                    },
                    Err(_) => false,
                }
            }),
    {
        if self.binding.interface.is_any() {
            return Ok(
                SockAddrLl::new(
                    self.binding.interface,
                    self.binding.protocol,
                    0,
                    PacketType::HOST(),
                    LinkLayerAddress::EMPTY(),
                ),
            );
        }
        let link = match link {
            Some(link) => link,
            None => return Err(PacketError::MissingLinkLayerInfo),
        };
        if link.interface() != self.binding.interface {
            return Err(PacketError::LinkLayerInfoMismatch);
        }
        Ok(
            SockAddrLl::new(
                self.binding.interface,
                self.binding.protocol,
                link.hardware_type(),
                PacketType::HOST(),
                link.address(),
            ),
        )
    }

    /// Applies one strictly decoded supported packet option.
    pub fn set_option(&mut self, option: SetPacketOption)
        ensures
            final(self).socket_type() == old(self).socket_type(),
            final(self).binding() == old(self).binding(),
            option matches SetPacketOption::IgnoreOutgoing(enabled) && final(self).ignore_outgoing()
                == enabled,
    {
        match option {
            SetPacketOption::IgnoreOutgoing(enabled) => {
                self.ignore_outgoing = enabled;
            },
        }
    }

    /// Current `PACKET_IGNORE_OUTGOING` state.
    #[verifier::when_used_as_spec(spec_ignore_outgoing)]
    pub fn ignore_outgoing(&self) -> (result: bool)
        ensures
            result == self.spec_ignore_outgoing(),
    {
        self.ignore_outgoing
    }

    /// Specification counterpart of [`Self::ignore_outgoing`].
    pub open(crate) spec fn spec_ignore_outgoing(&self) -> bool {
        self.ignore_outgoing
    }

    /// Matches one endpoint packet without hiding Linux's outgoing exception.
    ///
    /// Incoming packets use ordinary disabled/all/exact protocol matching.
    /// Outgoing packets are eligible only for `ETH_P_ALL`, matching Linux's
    /// egress packet-tap registration; an exact protocol may still receive a
    /// looped-back copy later as an incoming `PACKET_HOST` packet.
    #[verifier::when_used_as_spec(spec_delivery_decision)]
    pub fn delivery_decision(
        &self,
        direction: DeliveryDirection,
        protocol_host_order: u16,
        interface: InterfaceIndex,
    ) -> (result: DeliveryDecision)
        ensures
            result == self.spec_delivery_decision(direction, protocol_host_order, interface),
    {
        if interface.is_any() || (!self.binding.interface.is_any() && self.binding.interface.raw()
            != interface.raw()) {
            return DeliveryDecision::InterfaceMismatch;
        }
        match direction {
            DeliveryDirection::Incoming => match self.binding.protocol {
                ProtocolSelector::Disabled => DeliveryDecision::ProtocolDisabled,
                ProtocolSelector::All => DeliveryDecision::Deliver,
                ProtocolSelector::Exact(protocol) => {
                    if protocol.host_order() == protocol_host_order {
                        DeliveryDecision::Deliver
                    } else {
                        DeliveryDecision::ProtocolMismatch
                    }
                },
            },
            DeliveryDirection::Outgoing => match self.binding.protocol {
                ProtocolSelector::Disabled => DeliveryDecision::ProtocolDisabled,
                ProtocolSelector::Exact(_) => DeliveryDecision::OutgoingRequiresAllProtocols,
                ProtocolSelector::All => {
                    if self.ignore_outgoing {
                        DeliveryDecision::OutgoingIgnored
                    } else {
                        DeliveryDecision::Deliver
                    }
                },
            },
        }
    }

    /// Specification counterpart of [`Self::delivery_decision`]: the interface
    /// is decided first, then a disabled protocol, then the rules of the
    /// direction.
    pub open spec fn spec_delivery_decision(
        &self,
        direction: DeliveryDirection,
        protocol_host_order: u16,
        interface: InterfaceIndex,
    ) -> DeliveryDecision {
        let live = self.binding();
        if interface.is_any() || !(live.interface().is_any() || live.interface() == interface) {
            DeliveryDecision::InterfaceMismatch
        } else if live.protocol() is Disabled {
            DeliveryDecision::ProtocolDisabled
        } else if direction is Incoming {
            if live.protocol().accepts_host_order(protocol_host_order) {
                DeliveryDecision::Deliver
            } else {
                DeliveryDecision::ProtocolMismatch
            }
        } else if !(live.protocol() is All) {
            DeliveryDecision::OutgoingRequiresAllProtocols
        } else if self.ignore_outgoing() {
            DeliveryDecision::OutgoingIgnored
        } else {
            DeliveryDecision::Deliver
        }
    }

    /// Returns whether this state is eligible for Linux's outgoing tap.
    #[verifier::when_used_as_spec(spec_captures_outgoing)]
    pub fn captures_outgoing(&self) -> (result: bool)
        ensures
            result == self.spec_captures_outgoing(),
    {
        matches!(self.binding.protocol, ProtocolSelector::All) && !self.ignore_outgoing
    }

    /// Specification counterpart of [`Self::captures_outgoing`].
    pub open spec fn spec_captures_outgoing(&self) -> bool {
        self.binding().protocol() is All && !self.ignore_outgoing()
    }
}

/// An outgoing packet on an interface that the socket listens on is delivered
/// exactly when the socket is eligible for the outgoing tap, whatever its
/// protocol.
pub proof fn outgoing_delivery_is_tap_eligibility(
    state: PacketSocketState,
    protocol_host_order: u16,
    interface: InterfaceIndex,
)
    requires
        !interface.is_any(),
        state.binding().interface().is_any() || state.binding().interface() == interface,
    ensures
        (state.delivery_decision(DeliveryDirection::Outgoing, protocol_host_order, interface)
            is Deliver) == state.captures_outgoing(),
{
}

} // verus!
