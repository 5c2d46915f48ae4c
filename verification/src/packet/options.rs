use crate::packet::error::PacketError;
use crate::packet::statistics::PacketStatistics;
use vstd::prelude::*;

verus! {

/// Linux `SOL_PACKET` option names pinned by the initial contract.
#[derive(Clone, Copy, Debug, Eq, Hash, PartialEq, Structural)]
pub enum PacketOption {
    /// `PACKET_ADD_MEMBERSHIP`.
    AddMembership,
    /// `PACKET_DROP_MEMBERSHIP`.
    DropMembership,
    /// Obsolete `PACKET_RECV_OUTPUT`.
    ReceiveOutput,
    /// `PACKET_RX_RING`.
    ReceiveRing,
    /// Destructive `PACKET_STATISTICS` read.
    Statistics,
    /// `PACKET_COPY_THRESH`.
    CopyThreshold,
    /// `PACKET_AUXDATA`.
    AuxData,
    /// `PACKET_ORIGDEV`.
    OriginalDevice,
    /// `PACKET_VERSION`.
    Version,
    /// `PACKET_HDRLEN`.
    HeaderLength,
    /// `PACKET_RESERVE`.
    Reserve,
    /// `PACKET_TX_RING`.
    TransmitRing,
    /// `PACKET_LOSS`.
    Loss,
    /// `PACKET_VNET_HDR`.
    VirtualNetHeader,
    /// `PACKET_TX_TIMESTAMP`.
    TransmitTimestamp,
    /// `PACKET_TIMESTAMP`.
    Timestamp,
    /// `PACKET_FANOUT`.
    Fanout,
    /// `PACKET_TX_HAS_OFF`.
    TransmitHasOffset,
    /// `PACKET_QDISC_BYPASS`.
    QueueDisciplineBypass,
    /// `PACKET_ROLLOVER_STATS`.
    RolloverStatistics,
    /// `PACKET_FANOUT_DATA`.
    FanoutData,
    /// `PACKET_IGNORE_OUTGOING`.
    IgnoreOutgoing,
    /// `PACKET_VNET_HDR_SZ`.
    VirtualNetHeaderSize,
}

impl PacketOption {
    /// Classifies a raw option number as known or unknown.
    pub fn from_raw(raw: i32) -> (result: Result<Self, PacketError>)
        ensures
            match result {
                Ok(option) => option.raw() == raw,
                Err(error) => error == PacketError::UnknownPacketOption && forall|
                    other: PacketOption,
                | #[trigger] other.raw() != raw,
            },
    {
        match raw {
            1 => Ok(PacketOption::AddMembership),
            2 => Ok(PacketOption::DropMembership),
            3 => Ok(PacketOption::ReceiveOutput),
            5 => Ok(PacketOption::ReceiveRing),
            6 => Ok(PacketOption::Statistics),
            7 => Ok(PacketOption::CopyThreshold),
            8 => Ok(PacketOption::AuxData),
            9 => Ok(PacketOption::OriginalDevice),
            10 => Ok(PacketOption::Version),
            11 => Ok(PacketOption::HeaderLength),
            12 => Ok(PacketOption::Reserve),
            13 => Ok(PacketOption::TransmitRing),
            14 => Ok(PacketOption::Loss),
            15 => Ok(PacketOption::VirtualNetHeader),
            16 => Ok(PacketOption::TransmitTimestamp),
            17 => Ok(PacketOption::Timestamp),
            18 => Ok(PacketOption::Fanout),
            19 => Ok(PacketOption::TransmitHasOffset),
            20 => Ok(PacketOption::QueueDisciplineBypass),
            21 => Ok(PacketOption::RolloverStatistics),
            22 => Ok(PacketOption::FanoutData),
            23 => Ok(PacketOption::IgnoreOutgoing),
            24 => Ok(PacketOption::VirtualNetHeaderSize),
            _ => Err(PacketError::UnknownPacketOption),
        }
    }

    /// Returns the pinned Linux option number.
    #[verifier::when_used_as_spec(spec_raw)]
    pub fn raw(self) -> (result: i32)
        ensures
            result == self.spec_raw(),
    {
        match self {
            PacketOption::AddMembership => 1,
            PacketOption::DropMembership => 2,
            PacketOption::ReceiveOutput => 3,
            PacketOption::ReceiveRing => 5,
            PacketOption::Statistics => 6,
            PacketOption::CopyThreshold => 7,
            PacketOption::AuxData => 8,
            PacketOption::OriginalDevice => 9,
            PacketOption::Version => 10,
            PacketOption::HeaderLength => 11,
            PacketOption::Reserve => 12,
            PacketOption::TransmitRing => 13,
            PacketOption::Loss => 14,
            PacketOption::VirtualNetHeader => 15,
            PacketOption::TransmitTimestamp => 16,
            PacketOption::Timestamp => 17,
            PacketOption::Fanout => 18,
            PacketOption::TransmitHasOffset => 19,
            PacketOption::QueueDisciplineBypass => 20,
            PacketOption::RolloverStatistics => 21,
            PacketOption::FanoutData => 22,
            PacketOption::IgnoreOutgoing => 23,
            PacketOption::VirtualNetHeaderSize => 24,
        }
    }

    /// Specification counterpart of [`Self::raw`].
    pub open spec fn spec_raw(self) -> i32 {
        match self {
            PacketOption::AddMembership => 1,
            PacketOption::DropMembership => 2,
            PacketOption::ReceiveOutput => 3,
            PacketOption::ReceiveRing => 5,
            PacketOption::Statistics => 6,
            PacketOption::CopyThreshold => 7,
            PacketOption::AuxData => 8,
            PacketOption::OriginalDevice => 9,
            PacketOption::Version => 10,
            PacketOption::HeaderLength => 11,
            PacketOption::Reserve => 12,
            PacketOption::TransmitRing => 13,
            PacketOption::Loss => 14,
            PacketOption::VirtualNetHeader => 15,
            PacketOption::TransmitTimestamp => 16,
            PacketOption::Timestamp => 17,
            PacketOption::Fanout => 18,
            PacketOption::TransmitHasOffset => 19,
            PacketOption::QueueDisciplineBypass => 20,
            PacketOption::RolloverStatistics => 21,
            PacketOption::FanoutData => 22,
            PacketOption::IgnoreOutgoing => 23,
            PacketOption::VirtualNetHeaderSize => 24,
        }
    }
}

/// Different options have different numbers.
pub proof fn option_numbers_are_distinct(a: PacketOption, b: PacketOption)
    requires
        a.raw() == b.raw(),
    ensures
        a == b,
{
}

/// Access direction used in an explicit unsupported-option error.
#[derive(Clone, Copy, Debug, Eq, PartialEq, Structural)]
pub enum PacketOptionOperation {
    /// `getsockopt`-style read.
    Get,
    /// `setsockopt`-style write.
    Mutate,
}

/// Supported first-stage packet option mutation.
#[derive(Clone, Copy, Debug, Eq, PartialEq, Structural)]
pub enum SetPacketOption {
    /// Set `PACKET_IGNORE_OUTGOING`; Linux treats every nonzero int as true.
    IgnoreOutgoing(bool),
}

impl SetPacketOption {
    /// Decodes a copied integer option without performing usercopy.
    pub fn decode(raw_option: i32, integer_value: i32) -> (result: Result<Self, PacketError>)
        ensures
            raw_option == PacketOption::IgnoreOutgoing.raw() ==> result == Ok::<
                SetPacketOption,
                PacketError,
            >(SetPacketOption::IgnoreOutgoing(integer_value != 0)),
            forall|option: PacketOption|
                option != PacketOption::IgnoreOutgoing && #[trigger] option.raw() == raw_option
                    ==> result == Err::<SetPacketOption, PacketError>(
                    PacketError::UnsupportedPacketOption {
                        option,
                        operation: PacketOptionOperation::Mutate,
                    },
                ),
            (forall|option: PacketOption| #[trigger] option.raw() != raw_option) ==> result == Err::<
                SetPacketOption,
                PacketError,
            >(PacketError::UnknownPacketOption),
    {
        let option = match PacketOption::from_raw(raw_option) {
            Ok(option) => option,
            Err(error) => return Err(error),
        };
        match option {
            PacketOption::IgnoreOutgoing => Ok(SetPacketOption::IgnoreOutgoing(integer_value != 0)),
            _ => Err(
                PacketError::UnsupportedPacketOption {
                    option,
                    operation: PacketOptionOperation::Mutate,
                },
            ),
        }
    }
}

/// Supported first-stage packet option query.
#[derive(Clone, Copy, Debug, Eq, PartialEq, Structural)]
pub enum GetPacketOption {
    /// Read `PACKET_IGNORE_OUTGOING`.
    IgnoreOutgoing,
    /// Ask the packet endpoint for one destructive `PACKET_STATISTICS` snapshot.
    Statistics,
}

impl GetPacketOption {
    /// Strictly classifies a copied option name.
    pub fn decode(raw_option: i32) -> (result: Result<Self, PacketError>)
        ensures
            raw_option == PacketOption::IgnoreOutgoing.raw() ==> result == Ok::<
                GetPacketOption,
                PacketError,
            >(GetPacketOption::IgnoreOutgoing),
            raw_option == PacketOption::Statistics.raw() ==> result == Ok::<
                GetPacketOption,
                PacketError,
            >(GetPacketOption::Statistics),
            forall|option: PacketOption|
                option != PacketOption::IgnoreOutgoing && option != PacketOption::Statistics
                    && #[trigger] option.raw() == raw_option ==> result == Err::<
                    GetPacketOption,
                    PacketError,
                >(
                    PacketError::UnsupportedPacketOption {
                        option,
                        operation: PacketOptionOperation::Get,
                    },
                ),
            (forall|option: PacketOption| #[trigger] option.raw() != raw_option) ==> result == Err::<
                GetPacketOption,
                PacketError,
            >(PacketError::UnknownPacketOption),
    {
        let option = match PacketOption::from_raw(raw_option) {
            Ok(option) => option,
            Err(error) => return Err(error),
        };
        match option {
            PacketOption::IgnoreOutgoing => Ok(GetPacketOption::IgnoreOutgoing),
            PacketOption::Statistics => Ok(GetPacketOption::Statistics),
            _ => Err(
                PacketError::UnsupportedPacketOption {
                    option,
                    operation: PacketOptionOperation::Get,
                },
            ),
        }
    }
}

/// Typed value returned by a supported packet option query.
#[derive(Clone, Copy, Debug, Eq, PartialEq, Structural)]
pub enum PacketOptionValue {
    /// Current `PACKET_IGNORE_OUTGOING` state.
    IgnoreOutgoing(bool),
    /// Typed mapping of an endpoint-owned destructive statistics snapshot.
    Statistics(PacketStatistics),
}

} // verus!
