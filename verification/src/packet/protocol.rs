use crate::packet::error::PacketError;
use vstd::prelude::*;

verus! {

/// Host-order `ETH_P_ALL`, selecting every Ethernet protocol.
pub const ETH_P_ALL: u16 = 0x0003;

/// The 16-bit value with its two bytes exchanged.
pub open spec fn byte_swapped(value: u16) -> u16 {
    ((value % 0x100) * 0x100 + value / 0x100) as u16
}

/// One of the values is the other's network-order form: equal on a big-endian
/// machine, byte-swapped on a little-endian one.
pub open spec fn network_form(host: u16, network: u16) -> bool {
    network == host || network == byte_swapped(host)
}

/// Exchanging bytes twice gives the value back, so either of two values is a
/// network-order form of the other or neither is.
pub proof fn swapping_bytes_round_trips(value: u16)
    ensures
        byte_swapped(byte_swapped(value)) == value,
        forall|other: u16| #[trigger] network_form(value, other) ==> network_form(other, value),
{
    assert forall|other: u16| byte_swapped(byte_swapped(other)) == other by {
        let low: int = other as int % 0x100;
        let high: int = other as int / 0x100;
        assert(byte_swapped(other) == low * 0x100 + high);
    }
}

/// This machine reads the network-order field `network` as `host`.
pub closed spec fn read_as(network: u16, host: u16) -> bool {
    call_ensures(host_value, (network,), host)
}

/// This machine writes `host` as the network-order field `network`.
pub closed spec fn written_as(host: u16, network: u16) -> bool {
    call_ensures(network_value, (host,), network)
}

/// A value written to a network-order field reads back as itself, a field that
/// was read is written back as it was, and a field is read in one way only.
pub proof fn byte_order_round_trips(network: u16, host: u16)
    requires
        read_as(network, host),
    ensures
        network_form(host, network),
        written_as(host, network),
        forall|other: u16, field: u16| #[trigger]
            written_as(other, field) ==> (field == network <==> other == host),
        forall|other: u16| #[trigger] read_as(network, other) ==> other == host,
{
    assert forall|other: u16| #[trigger] read_as(network, other) implies other == host by {
        assert(written_as(other, network));
    }
}

/// Calls [`u16::from_be`], which converts a big-endian field to the machine's
/// order: it swaps the bytes on a little-endian machine and changes nothing on
/// a big-endian one. Which of the two holds is left open. [`u16::to_be`] does
/// the same to its argument on the same machine, so it gives the field back for
/// the result and for no other value.
#[verifier::external_body]
fn host_value(network_order: u16) -> (result: u16)
    ensures
        network_form(result, network_order),
        call_ensures(network_value, (result,), network_order),
        forall|host: u16, field: u16| #[trigger]
            call_ensures(network_value, (host,), field) ==> (field == network_order <==> host
                == result),
{
    u16::from_be(network_order)
}

/// Calls [`u16::to_be`], which converts a value in the machine's order to
/// big-endian: it swaps the bytes on a little-endian machine and changes
/// nothing on a big-endian one. Which of the two holds is left open.
#[verifier::external_body]
fn network_value(host_order: u16) -> (result: u16)
    ensures
        network_form(host_order, result),
{
    u16::to_be(host_order)
}

/// One exact, host-order packet protocol distinct from disabled and all.
#[derive(Clone, Copy, Debug, Eq, Hash, Ord, PartialEq, PartialOrd, Structural)]
pub struct EtherType(pub(crate) u16);

impl EtherType {
    /// Neither the disabled nor the all selector.
    #[verifier::type_invariant]
    pub(crate) open spec fn exact(self) -> bool {
        self.0 != 0 && self.0 != ETH_P_ALL
    }

    /// Builds an exact host-order protocol.
    pub fn new(host_order: u16) -> (result: Result<Self, PacketError>)
        ensures
            match result {
                Ok(protocol) => {
                    &&& host_order != 0 && host_order != ETH_P_ALL
                    &&& protocol.host_order() == host_order
                },
                Err(error) => {
                    &&& host_order == 0 || host_order == ETH_P_ALL
                    &&& error == PacketError::InvalidExactProtocol
                },
            },
    {
        if host_order == 0 || host_order == ETH_P_ALL {
            return Err(PacketError::InvalidExactProtocol);
        }
        Ok(Self(host_order))
    }

    /// Converts one explicit network-order UAPI field into an exact value.
    pub fn from_network_order(network_order: u16) -> (result: Result<Self, PacketError>)
        ensures
            exists|host: u16| #[trigger]
                network_form(host, network_order) && read_as(network_order, host) && (match result {
                    Ok(protocol) => host != 0 && host != ETH_P_ALL && protocol.host_order() == host,
                    Err(error) => (host == 0 || host == ETH_P_ALL) && error
                        == PacketError::InvalidExactProtocol,
                }),
    {
        Self::new(host_value(network_order))
    }

    /// Returns the normalized host-order protocol.
    #[verifier::when_used_as_spec(spec_host_order)]
    pub fn host_order(self) -> (result: u16)
        ensures
            result == self.spec_host_order(),
            result != 0 && result != ETH_P_ALL,
    {
        proof {
            use_type_invariant(&self);
        }
        self.0
    }

    /// Specification counterpart of [`Self::host_order`].
    pub open(crate) spec fn spec_host_order(self) -> u16 {
        self.0
    }

    /// Converts this value for an explicit network-order UAPI field.
    pub fn to_network_order(self) -> (result: u16)
        ensures
            network_form(self.host_order(), result),
            written_as(self.host_order(), result),
    {
        network_value(self.host_order())
    }
}

/// Normalized host-order packet-socket protocol selection.
#[derive(Clone, Copy, Debug, Eq, Hash, PartialEq, Structural)]
pub enum ProtocolSelector {
    /// Protocol zero: the socket receives no packets.
    Disabled,
    /// `ETH_P_ALL`: the socket receives every protocol.
    All,
    /// One exact nonzero protocol other than `ETH_P_ALL`.
    Exact(EtherType),
}

impl Default for ProtocolSelector {
    fn default() -> (result: Self)
        ensures
            result == ProtocolSelector::Disabled,
    {
        ProtocolSelector::Disabled
    }
}

impl ProtocolSelector {
    /// Normalizes a host-order protocol without leaving duplicate sentinels.
    #[verifier::when_used_as_spec(spec_from_host_order)]
    pub fn from_host_order(host_order: u16) -> (result: Self)
        ensures
            result == ProtocolSelector::spec_from_host_order(host_order),
            result.host_order() == host_order,
    {
        if host_order == 0 {
            ProtocolSelector::Disabled
        } else if host_order == ETH_P_ALL {
            ProtocolSelector::All
        } else {
            ProtocolSelector::Exact(EtherType(host_order))
        }
    }

    /// Specification counterpart of [`Self::from_host_order`].
    pub open(crate) spec fn spec_from_host_order(host_order: u16) -> Self {
        if host_order == 0 {
            ProtocolSelector::Disabled
        } else if host_order == ETH_P_ALL {
            ProtocolSelector::All
        } else {
            ProtocolSelector::Exact(EtherType(host_order))
        }
    }

    /// Converts a copied `socket(2)` protocol integer from network order.
    ///
    /// Linux explicitly casts the syscall's signed integer to `__be16`; retain
    /// that low-16-bit behavior instead of rejecting values Linux accepts.
    pub fn from_network_order_i32(network_order: i32) -> (result: Self)
        ensures
            exists|host: u16| #[trigger]
                network_form(host, network_order as u16) && read_as(network_order as u16, host)
                    && result == ProtocolSelector::from_host_order(host),
    {
        Self::from_network_order_u16(
            #[verifier::truncate]
            (network_order as u16),
        )
    }

    /// Converts an explicit network-order `sockaddr_ll` field.
    pub fn from_network_order_u16(network_order: u16) -> (result: Self)
        ensures
            exists|host: u16| #[trigger]
                network_form(host, network_order) && read_as(network_order, host) && result
                    == ProtocolSelector::from_host_order(host),
    {
        Self::from_host_order(host_value(network_order))
    }

    /// Returns the canonical host-order selector value.
    #[verifier::when_used_as_spec(spec_host_order)]
    pub fn host_order(self) -> (result: u16)
        ensures
            result == self.spec_host_order(),
            self == ProtocolSelector::from_host_order(result),
    {
        match self {
            ProtocolSelector::Disabled => 0,
            ProtocolSelector::All => ETH_P_ALL,
            ProtocolSelector::Exact(protocol) => protocol.host_order(),
        }
    }

    /// Specification counterpart of [`Self::host_order`].
    pub open spec fn spec_host_order(self) -> u16 {
        match self {
            ProtocolSelector::Disabled => 0,
            ProtocolSelector::All => ETH_P_ALL,
            ProtocolSelector::Exact(protocol) => protocol.host_order(),
        }
    }

    /// Converts this selector for an explicit network-order UAPI field.
    pub fn to_network_order_u16(self) -> (result: u16)
        ensures
            network_form(self.host_order(), result),
            written_as(self.host_order(), result),
    {
        network_value(self.host_order())
    }

    /// Tests an incoming host-order protocol against this selector.
    #[verifier::when_used_as_spec(spec_accepts_host_order)]
    pub fn accepts_host_order(self, incoming: u16) -> (result: bool)
        ensures
            result == self.spec_accepts_host_order(incoming),
    {
        match self {
            ProtocolSelector::Disabled => false,
            ProtocolSelector::All => true,
            ProtocolSelector::Exact(protocol) => protocol.host_order() == incoming,
        }
    }

    /// Specification counterpart of [`Self::accepts_host_order`].
    pub open spec fn spec_accepts_host_order(self, incoming: u16) -> bool {
        match self {
            ProtocolSelector::Disabled => false,
            ProtocolSelector::All => true,
            ProtocolSelector::Exact(protocol) => protocol.host_order() == incoming,
        }
    }
}

/// Normalizing a host-order value and reading it back gives the value, so no
/// two selectors stand for one protocol.
pub proof fn selectors_are_canonical(a: u16, b: u16)
    ensures
        ProtocolSelector::from_host_order(a).host_order() == a,
        ProtocolSelector::from_host_order(a) is Disabled <==> a == 0,
        ProtocolSelector::from_host_order(a) is All <==> a == ETH_P_ALL,
        ProtocolSelector::from_host_order(a) == ProtocolSelector::from_host_order(b) ==> a == b,
{
}

/// A selector read from a network-order field is written back as that field,
/// and one written to a field is read back from it.
pub proof fn selectors_survive_the_network_order(
    network: u16,
    host: u16,
    selector: ProtocolSelector,
    field: u16,
)
    requires
        selector == ProtocolSelector::from_host_order(selector.host_order()),
        read_as(network, host),
        written_as(selector.host_order(), field),
    ensures
        selector == ProtocolSelector::from_host_order(host) <==> field == network,
{
    byte_order_round_trips(network, host);
    selectors_are_canonical(host, selector.host_order());
}

} // verus!
