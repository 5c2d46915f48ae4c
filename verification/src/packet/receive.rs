use crate::packet::error::PacketError;
use crate::packet::socket::PacketSocketType;
use vstd::prelude::*;

verus! {

/// Linux `MSG_PEEK` bit accepted by the first-stage decision core.
pub const MSG_PEEK: u32 = 0x02;

/// Linux `MSG_TRUNC` bit accepted by the first-stage decision core.
pub const MSG_TRUNC: u32 = 0x20;

/// Strictly decoded receive flags owned by this first-stage profile.
#[derive(Clone, Copy, Debug, Eq, PartialEq, Structural)]
pub struct ReceiveFlags(pub(crate) u32);

impl Default for ReceiveFlags {
    fn default() -> (result: Self)
        ensures
            result.bits() == 0,
    {
        Self(0)
    }
}

impl ReceiveFlags {
    /// No special receive behavior.
    #[allow(non_snake_case)]
    #[verifier::when_used_as_spec(spec_EMPTY)]
    pub fn EMPTY() -> (result: Self)
        ensures
            result == Self::spec_EMPTY(),
            result.bits() == 0u32,
    {
        Self(0u32)
    }

    /// Specification counterpart of [`Self::EMPTY`].
    #[allow(non_snake_case)]
    pub open(crate) spec fn spec_EMPTY() -> Self {
        Self(0u32)
    }

    /// Inspect without consuming the queued packet.
    #[allow(non_snake_case)]
    #[verifier::when_used_as_spec(spec_PEEK)]
    pub fn PEEK() -> (result: Self)
        ensures
            result == Self::spec_PEEK(),
            result.bits() == MSG_PEEK,
    {
        Self(MSG_PEEK)
    }

    /// Specification counterpart of [`Self::PEEK`].
    #[allow(non_snake_case)]
    pub open(crate) spec fn spec_PEEK() -> Self {
        Self(MSG_PEEK)
    }

    /// Return the full captured length even when the copy buffer is shorter.
    #[allow(non_snake_case)]
    #[verifier::when_used_as_spec(spec_TRUNC)]
    pub fn TRUNC() -> (result: Self)
        ensures
            result == Self::spec_TRUNC(),
            result.bits() == MSG_TRUNC,
    {
        Self(MSG_TRUNC)
    }

    /// Specification counterpart of [`Self::TRUNC`].
    #[allow(non_snake_case)]
    pub open(crate) spec fn spec_TRUNC() -> Self {
        Self(MSG_TRUNC)
    }

    /// Complete supported flag set.
    #[allow(non_snake_case)]
    #[verifier::when_used_as_spec(spec_SUPPORTED)]
    pub fn SUPPORTED() -> (result: Self)
        ensures
            result == Self::spec_SUPPORTED(),
            result.bits() == 0x22u32,
    {
        Self(0x22u32)
    }

    /// Specification counterpart of [`Self::SUPPORTED`].
    #[allow(non_snake_case)]
    pub open(crate) spec fn spec_SUPPORTED() -> Self {
        Self(0x22u32)
    }

    /// Strictly decodes copied receive flags.
    ///
    /// Nonblocking and signal interruption are adapter-owned wait decisions,
    /// so this core rejects rather than silently ignores their raw bits.
    pub fn from_bits(bits: u32) -> (result: Result<Self, PacketError>)
        ensures
            match result {
                Ok(flags) => bits & !ReceiveFlags::SUPPORTED().bits() == 0 && flags.bits() == bits,
                Err(error) => bits & !ReceiveFlags::SUPPORTED().bits() != 0 && error
                    == PacketError::UnsupportedReceiveFlags,
            },
    {
        if bits & !0x22u32 == 0 {
            Ok(Self(bits))
        } else {
            Err(PacketError::UnsupportedReceiveFlags)
        }
    }

    /// Returns Linux-compatible flag bits.
    #[verifier::when_used_as_spec(spec_bits)]
    pub fn bits(self) -> (result: u32)
        ensures
            result == self.spec_bits(),
    {
        self.0
    }

    /// Specification counterpart of [`Self::bits`].
    pub open(crate) spec fn spec_bits(self) -> u32 {
        self.0
    }

    /// Returns whether every requested flag is present.
    #[verifier::when_used_as_spec(spec_contains)]
    pub fn contains(self, other: Self) -> (result: bool)
        ensures
            result == self.spec_contains(other),
    {
        self.0 & other.0 == other.0
    }

    /// Specification counterpart of [`Self::contains`].
    pub open spec fn spec_contains(self, other: Self) -> bool {
        self.bits() & other.bits() == other.bits()
    }

    /// Combines two already validated flags.
    pub fn union(self, other: Self) -> (result: Self)
        ensures
            result.bits() == self.bits() | other.bits(),
    {
        Self(self.0 | other.0)
    }
}

/// The supported receive flags are exactly peek and truncate.
pub proof fn supported_receive_flags()
    ensures
        ReceiveFlags::SUPPORTED().bits() == ReceiveFlags::PEEK().bits()
            | ReceiveFlags::TRUNC().bits(),
{
    assert(0x22u32 == 0x02u32 | 0x20u32) by (bit_vector);
}

/// Validated complete-frame and network-header geometry.
#[derive(Clone, Copy, Debug, Eq, PartialEq, Structural)]
pub struct FrameLayout {
    pub(crate) frame_len: usize,
    pub(crate) network_offset: usize,
}

impl FrameLayout {
    /// Validates that the network header begins within the complete frame.
    pub fn new(frame_len: usize, network_offset: usize) -> (result: Result<Self, PacketError>)
        ensures
            match result {
                Ok(layout) => {
                    &&& network_offset <= frame_len
                    &&& layout.frame_len() == frame_len
                    &&& layout.network_offset() == network_offset
                },
                Err(error) => network_offset > frame_len && error
                    == PacketError::InvalidFrameLayout,
            },
    {
        if network_offset > frame_len {
            return Err(PacketError::InvalidFrameLayout);
        }
        Ok(Self { frame_len, network_offset })
    }

    /// Complete link-layer frame length.
    #[verifier::when_used_as_spec(spec_frame_len)]
    pub fn frame_len(self) -> (result: usize)
        ensures
            result == self.spec_frame_len(),
    {
        self.frame_len
    }

    /// Specification counterpart of [`Self::frame_len`].
    pub open(crate) spec fn spec_frame_len(self) -> usize {
        self.frame_len
    }

    /// Offset of the cooked payload's network header.
    #[verifier::when_used_as_spec(spec_network_offset)]
    pub fn network_offset(self) -> (result: usize)
        ensures
            result == self.spec_network_offset(),
    {
        self.network_offset
    }

    /// Specification counterpart of [`Self::network_offset`].
    pub open(crate) spec fn spec_network_offset(self) -> usize {
        self.network_offset
    }

    /// Selects the complete RAW or DGRAM view before filter truncation.
    #[verifier::when_used_as_spec(spec_full_view)]
    pub fn full_view(self, socket_type: PacketSocketType) -> (result: PacketView)
        ensures
            result == self.spec_full_view(socket_type),
            result.payload_offset() == (match socket_type {
                PacketSocketType::Raw => 0,
                PacketSocketType::Datagram => self.network_offset(),
            }),
            result.payload_offset() + result.original_len() == self.frame_len(),
            result.captured_len() == result.original_len(),
    {
        proof {
            use_type_invariant(&self);
        }
        let payload_offset: usize = match socket_type {
            PacketSocketType::Raw => 0,
            PacketSocketType::Datagram => self.network_offset,
        };
        let original_len: usize = self.frame_len - payload_offset;
        PacketView { payload_offset, original_len, captured_len: original_len }
    }

    /// Specification counterpart of [`Self::full_view`].
    pub open(crate) spec fn spec_full_view(self, socket_type: PacketSocketType) -> PacketView {
        let payload_offset = match socket_type {
            PacketSocketType::Raw => 0,
            PacketSocketType::Datagram => self.network_offset,
        };
        let original_len = (self.frame_len - payload_offset) as usize;
        PacketView { payload_offset, original_len, captured_len: original_len }
    }

    /// Selects a RAW or DGRAM view and validates its post-filter snap length.
    pub fn captured_view(self, socket_type: PacketSocketType, captured_len: usize) -> (result: Result<
        PacketView,
        PacketError,
    >)
        ensures
            ({
                let full = self.full_view(socket_type);
                match result {
                    Ok(view) => {
                        &&& captured_len <= full.original_len()
                        &&& view.payload_offset() == full.payload_offset()
                        &&& view.original_len() == full.original_len()
                        &&& view.captured_len() == captured_len
                    },
                    Err(error) => captured_len > full.original_len() && error
                        == PacketError::InvalidCapturedLength,
                }
            }),
    {
        let full = self.full_view(socket_type);
        if captured_len > full.original_len {
            return Err(PacketError::InvalidCapturedLength);
        }
        Ok(
            PacketView {
                payload_offset: full.payload_offset,
                original_len: full.original_len,
                captured_len,
            },
        )
    }

    /// The network header begins within the frame.
    #[verifier::type_invariant]
    pub(crate) open spec fn header_within_frame(self) -> bool {
        self.network_offset <= self.frame_len
    }
}

/// One admitted packet as visible to a RAW or cooked DGRAM socket.
#[derive(Clone, Copy, Debug, Eq, PartialEq, Structural)]
pub struct PacketView {
    pub(crate) payload_offset: usize,
    pub(crate) original_len: usize,
    pub(crate) captured_len: usize,
}

impl PacketView {
    /// Byte offset of the first visible byte in the complete link frame.
    #[verifier::when_used_as_spec(spec_payload_offset)]
    pub fn payload_offset(self) -> (result: usize)
        ensures
            result == self.spec_payload_offset(),
    {
        self.payload_offset
    }

    /// Specification counterpart of [`Self::payload_offset`].
    pub open(crate) spec fn spec_payload_offset(self) -> usize {
        self.payload_offset
    }

    /// Length before socket-filter snap truncation.
    #[verifier::when_used_as_spec(spec_original_len)]
    pub fn original_len(self) -> (result: usize)
        ensures
            result == self.spec_original_len(),
    {
        self.original_len
    }

    /// Specification counterpart of [`Self::original_len`].
    pub open(crate) spec fn spec_original_len(self) -> usize {
        self.original_len
    }

    /// Length retained after socket-filter snap truncation.
    #[verifier::when_used_as_spec(spec_captured_len)]
    pub fn captured_len(self) -> (result: usize)
        ensures
            result == self.spec_captured_len(),
    {
        self.captured_len
    }

    /// Specification counterpart of [`Self::captured_len`].
    pub open(crate) spec fn spec_captured_len(self) -> usize {
        self.captured_len
    }

    /// Produces the pure copy/return/queue decision for one receive call.
    ///
    /// The adapter must apply the queue disposition before usercopy. Ordinary
    /// receive claims the record and never requeues it after a copy fault;
    /// `MSG_PEEK` leaves the record queued even when copying fails.
    pub fn receive_decision(self, copy_buffer_len: usize, flags: ReceiveFlags) -> (result:
        ReceiveDecision)
        ensures
            result.payload_offset() == self.payload_offset(),
            result.original_len() == self.original_len(),
            result.captured_len() == self.captured_len(),
            result.copy_len() == if copy_buffer_len < self.captured_len() {
                copy_buffer_len
            } else {
                self.captured_len()
            },
            result.returned_len() == if flags.contains(ReceiveFlags::TRUNC()) {
                self.captured_len()
            } else {
                result.copy_len()
            },
            result.message_truncated() == (copy_buffer_len < self.captured_len()),
            result.queue_disposition() == if flags.contains(ReceiveFlags::PEEK()) {
                QueueDisposition::Retain
            } else {
                QueueDisposition::Consume
            },
            result.copy_len() <= result.captured_len() <= result.original_len(),
            result.copy_len() <= result.returned_len() <= result.captured_len(),
    {
        proof {
            use_type_invariant(&self);
        }
        let copy_len = if copy_buffer_len < self.captured_len {
            copy_buffer_len
        } else {
            self.captured_len
        };
        let returned_len = if flags.contains(ReceiveFlags::TRUNC()) {
            self.captured_len
        } else {
            copy_len
        };
        let queue_disposition = if flags.contains(ReceiveFlags::PEEK()) {
            QueueDisposition::Retain
        } else {
            QueueDisposition::Consume
        };
        ReceiveDecision {
            payload_offset: self.payload_offset,
            original_len: self.original_len,
            captured_len: self.captured_len,
            copy_len,
            returned_len,
            message_truncated: copy_len < self.captured_len,
            queue_disposition,
        }
    }

    /// What was captured was visible.
    #[verifier::type_invariant]
    pub(crate) open spec fn captured_was_visible(self) -> bool {
        self.captured_len <= self.original_len
    }
}

/// Whether an ordinary queued packet remains after a receive operation.
#[derive(Clone, Copy, Debug, Eq, PartialEq, Structural)]
pub enum QueueDisposition {
    /// `MSG_PEEK`: never claim the packet, including when usercopy fails.
    Retain,
    /// Ordinary receive: claim before usercopy and do not requeue on failure.
    Consume,
}

impl QueueDisposition {
    /// Returns whether the queue adapter must claim the record before usercopy.
    pub fn claims_before_copy(self) -> (result: bool)
        ensures
            result == (self is Consume),
    {
        matches!(self, QueueDisposition::Consume)
    }
}

/// Pure receive result used by usercopy and queue adapters.
#[derive(Clone, Copy, Debug, Eq, PartialEq, Structural)]
pub struct ReceiveDecision {
    pub(crate) payload_offset: usize,
    pub(crate) original_len: usize,
    pub(crate) captured_len: usize,
    pub(crate) copy_len: usize,
    pub(crate) returned_len: usize,
    pub(crate) message_truncated: bool,
    pub(crate) queue_disposition: QueueDisposition,
}

impl ReceiveDecision {
    /// Byte offset in the complete link frame at which copying begins.
    #[verifier::when_used_as_spec(spec_payload_offset)]
    pub fn payload_offset(self) -> (result: usize)
        ensures
            result == self.spec_payload_offset(),
    {
        self.payload_offset
    }

    /// Specification counterpart of [`Self::payload_offset`].
    pub open(crate) spec fn spec_payload_offset(self) -> usize {
        self.payload_offset
    }

    /// Socket-visible length before filter snap truncation.
    #[verifier::when_used_as_spec(spec_original_len)]
    pub fn original_len(self) -> (result: usize)
        ensures
            result == self.spec_original_len(),
    {
        self.original_len
    }

    /// Specification counterpart of [`Self::original_len`].
    pub open(crate) spec fn spec_original_len(self) -> usize {
        self.original_len
    }

    /// Socket-visible length retained after filter snap truncation.
    #[verifier::when_used_as_spec(spec_captured_len)]
    pub fn captured_len(self) -> (result: usize)
        ensures
            result == self.spec_captured_len(),
    {
        self.captured_len
    }

    /// Specification counterpart of [`Self::captured_len`].
    pub open(crate) spec fn spec_captured_len(self) -> usize {
        self.captured_len
    }

    /// Bytes copied into the caller's buffer.
    #[verifier::when_used_as_spec(spec_copy_len)]
    pub fn copy_len(self) -> (result: usize)
        ensures
            result == self.spec_copy_len(),
    {
        self.copy_len
    }

    /// Specification counterpart of [`Self::copy_len`].
    pub open(crate) spec fn spec_copy_len(self) -> usize {
        self.copy_len
    }

    /// Successful syscall result before adapter conversion to `ssize_t`.
    #[verifier::when_used_as_spec(spec_returned_len)]
    pub fn returned_len(self) -> (result: usize)
        ensures
            result == self.spec_returned_len(),
    {
        self.returned_len
    }

    /// Specification counterpart of [`Self::returned_len`].
    pub open(crate) spec fn spec_returned_len(self) -> usize {
        self.returned_len
    }

    /// Whether output `msg_flags` must carry `MSG_TRUNC`.
    #[verifier::when_used_as_spec(spec_message_truncated)]
    pub fn message_truncated(self) -> (result: bool)
        ensures
            result == self.spec_message_truncated(),
    {
        self.message_truncated
    }

    /// Specification counterpart of [`Self::message_truncated`].
    pub open(crate) spec fn spec_message_truncated(self) -> bool {
        self.message_truncated
    }

    /// Whether the queue adapter retains or claims the packet before usercopy.
    #[verifier::when_used_as_spec(spec_queue_disposition)]
    pub fn queue_disposition(self) -> (result: QueueDisposition)
        ensures
            result == self.spec_queue_disposition(),
    {
        self.queue_disposition
    }

    /// Specification counterpart of [`Self::queue_disposition`].
    pub open(crate) spec fn spec_queue_disposition(self) -> QueueDisposition {
        self.queue_disposition
    }
}

} // verus!
