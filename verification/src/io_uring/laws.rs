//! What decoding submissions, setup, enter and registration arguments is for,
//! stated of the calls themselves.

use crate::io_uring::buffer::{BufferTableId, RegisteredBufferTable};
use crate::io_uring::enter::{EnterFlags, EnterRequest, LegacySignalMask};
use crate::io_uring::error::IoUringError;
use crate::io_uring::registration::{RegistrationOperation, RegistrationRequest};
use crate::io_uring::request::{
    RequestDescriptor, RequestId, RequestOperation, RequestProgress, RequestRegistry, RequestState,
};
use crate::io_uring::resource::{FileTableId, RegisteredFileTable};
use crate::io_uring::setup::{
    doubling, next_power_of_two, FeatureFlags, MappingRegion, RingId, RingLayout, SetupFlags,
    SetupRequest,
};
use crate::io_uring::sqe::{
    classify_submission_opcode, le16, le32, le64, CopiedSubmission, FileTarget, IoBuffer,
    ParsedSubmission, ReadWriteRequest, SubmissionOpcodeSupport, SubmissionOperation,
};
use crate::powers::power_of_two;
use vstd::arithmetic::power2::pow2;
use vstd::prelude::*;

verus! {

/// The unsigned number that `width` bytes from `offset` on hold, the lowest byte
/// first.
pub open spec fn little_endian(bytes: Seq<u8>, offset: int, width: nat) -> int
    decreases width,
{
    if width == 0 {
        0
    } else {
        bytes[offset] + 0x100 * little_endian(bytes, offset + 1, (width - 1) as nat)
    }
}

proof fn fields_are_little_endian(bytes: Seq<u8>, offset: int)
    ensures
        le16(bytes, offset) == little_endian(bytes, offset, 2),
        le32(bytes, offset) == little_endian(bytes, offset, 4),
        le64(bytes, offset) == little_endian(bytes, offset, 8),
        0 <= le16(bytes, offset) < 0x1_0000,
        0 <= le32(bytes, offset) < 0x1_0000_0000,
        0 <= le64(bytes, offset) < 0x1_0000_0000_0000_0000,
{
    reveal_with_fuel(little_endian, 9);
}

proof fn sqe_fields_are_little_endian(bytes: Seq<u8>)
    ensures
        le16(bytes, 2) == little_endian(bytes, 2, 2),
        le32(bytes, 4) == little_endian(bytes, 4, 4),
        le64(bytes, 8) == little_endian(bytes, 8, 8),
        le64(bytes, 16) == little_endian(bytes, 16, 8),
        le32(bytes, 24) == little_endian(bytes, 24, 4),
        le32(bytes, 28) == little_endian(bytes, 28, 4),
        le64(bytes, 32) == little_endian(bytes, 32, 8),
        le16(bytes, 40) == little_endian(bytes, 40, 2),
        le16(bytes, 42) == little_endian(bytes, 42, 2),
        le32(bytes, 44) == little_endian(bytes, 44, 4),
        0 <= le16(bytes, 40) < 0x1_0000,
        0 <= le32(bytes, 4) < 0x1_0000_0000,
        0 <= le32(bytes, 24) < 0x1_0000_0000,
        0 <= le32(bytes, 28) < 0x1_0000_0000,
        0 <= le64(bytes, 8) < 0x1_0000_0000_0000_0000,
        0 <= le64(bytes, 16) < 0x1_0000_0000_0000_0000,
        0 <= le64(bytes, 32) < 0x1_0000_0000_0000_0000,
{
    fields_are_little_endian(bytes, 2);
    fields_are_little_endian(bytes, 4);
    fields_are_little_endian(bytes, 8);
    fields_are_little_endian(bytes, 16);
    fields_are_little_endian(bytes, 24);
    fields_are_little_endian(bytes, 28);
    fields_are_little_endian(bytes, 32);
    fields_are_little_endian(bytes, 40);
    fields_are_little_endian(bytes, 42);
    fields_are_little_endian(bytes, 44);
}

proof fn flag_bytes(flags: u8)
    ensures
        flags & !0u8 == 0 <==> flags == 0,
        flags & !1u8 == 0 <==> flags == 0 || flags == 1,
        flags == 0 ==> flags & 1u8 == 0,
        flags == 1 ==> flags & 1u8 != 0,
{
    assert((flags & !0u8 == 0 <==> flags == 0) && (flags & !1u8 == 0 <==> flags == 0 || flags == 1)
        && (flags == 0 ==> flags & 1u8 == 0) && (flags == 1 ==> flags & 1u8 != 0))
        by (bit_vector);
}

/// The file that a submission names: the number in its descriptor field, looked
/// up among the registered files exactly when the flag byte is one.
pub open spec fn names_file(bytes: Seq<u8>, file: FileTarget) -> bool {
    match file {
        FileTarget::Descriptor(fd) => bytes[1] == 0 && fd == little_endian(bytes, 4, 4),
        FileTarget::Registered(slot) => bytes[1] == 1 && slot.get() == little_endian(bytes, 4, 4),
    }
}

/// A decoded read or write names a registered buffer exactly when its opcode is
/// 4 or 5, and then the slot is the number in the buffer-index field. The file,
/// the offset and the buffer are the numbers in their fields.
pub proof fn decoded_transfers_are_their_fields(
    bytes: [u8; 64],
    result: Result<ParsedSubmission, IoUringError>,
    request: ReadWriteRequest,
)
    requires
        call_ensures(ParsedSubmission::parse, (bytes,), result),
        result matches Ok(parsed) && (parsed.operation() == SubmissionOperation::Read(request)
            || parsed.operation() == SubmissionOperation::Write(request)),
    ensures
        request.fixed_buffer() is Some <==> bytes@[0] == 4 || bytes@[0] == 5,
        request.fixed_buffer() matches Some(slot) ==> slot.get() == little_endian(bytes@, 40, 2),
        names_file(bytes@, request.file()),
        request.offset() == little_endian(bytes@, 8, 8),
        request.buffer().address() == little_endian(bytes@, 16, 8),
        request.buffer().length() == little_endian(bytes@, 24, 4),
        request.offset() != 0xffff_ffff_ffff_ffffu64,
        request.buffer().address() + request.buffer().length() <= 0xffff_ffff_ffff_ffffu64,
{
    sqe_fields_are_little_endian(bytes@);
    flag_bytes(bytes@[1]);
}

/// The opcode alone decides what kind of operation an accepted submission is: 0
/// does nothing, 4 and 22 read, 5 and 23 write, 6 polls and 14 cancels. No other
/// opcode is accepted. The user value is the field at byte 32.
pub proof fn opcodes_decide_the_operation(
    bytes: [u8; 64],
    result: Result<ParsedSubmission, IoUringError>,
)
    requires
        call_ensures(ParsedSubmission::parse, (bytes,), result),
    ensures
        result matches Ok(parsed) ==> {
            let opcode = bytes@[0];
            &&& parsed.operation() is Nop <==> opcode == 0
            &&& parsed.operation() is Read <==> opcode == 4 || opcode == 22
            &&& parsed.operation() is Write <==> opcode == 5 || opcode == 23
            &&& parsed.operation() is PollAdd <==> opcode == 6
            &&& parsed.operation() is AsyncCancel <==> opcode == 14
            &&& parsed.user_data() == little_endian(bytes@, 32, 8)
        },
        result == Err::<ParsedSubmission, IoUringError>(IoUringError::UnknownOpcode) <==> bytes@[0]
            >= 58,
        result == Err::<ParsedSubmission, IoUringError>(IoUringError::UnsupportedOpcode)
            <==> bytes@[0] < 58 && !(bytes@[0] == 0 || bytes@[0] == 4 || bytes@[0] == 5 || bytes@[0]
            == 6 || bytes@[0] == 14 || bytes@[0] == 22 || bytes@[0] == 23),
{
    sqe_fields_are_little_endian(bytes@);
}

/// A decoded poll waits for the events in its field on the file it names, and a
/// decoded cancellation looks for the user value in its address field.
pub proof fn decoded_polls_and_cancels_are_their_fields(
    bytes: [u8; 64],
    result: Result<ParsedSubmission, IoUringError>,
)
    requires
        call_ensures(ParsedSubmission::parse, (bytes,), result),
        result is Ok,
    ensures
        result->Ok_0.operation() matches SubmissionOperation::PollAdd(poll) ==> {
            &&& names_file(bytes@, poll.file())
            &&& poll.events() == little_endian(bytes@, 28, 4)
        },
        result->Ok_0.operation() matches SubmissionOperation::AsyncCancel { target_user_data }
            ==> target_user_data == little_endian(bytes@, 16, 8),
{
    sqe_fields_are_little_endian(bytes@);
    flag_bytes(bytes@[1]);
}

/// Nothing that a submission asks for is dropped silently: where a submission is
/// accepted, every field that its operation does not take is zero.
pub proof fn accepted_submissions_ask_for_nothing_more(
    bytes: [u8; 64],
    result: Result<ParsedSubmission, IoUringError>,
)
    requires
        call_ensures(ParsedSubmission::parse, (bytes,), result),
        result is Ok,
    ensures
        little_endian(bytes@, 2, 2) == 0,
        little_endian(bytes@, 42, 2) == 0,
        bytes@[1] == 0 || bytes@[1] == 1,
        bytes@[0] == 0 || bytes@[0] == 14 ==> bytes@[1] == 0,
        bytes@[0] != 6 ==> little_endian(bytes@, 28, 4) == 0,
        bytes@[0] == 14 ==> little_endian(bytes@, 8, 8) == 0,
        bytes@[0] != 0 && bytes@[0] != 6 ==> little_endian(bytes@, 44, 4) == 0,
        bytes@[0] == 6 || bytes@[0] == 22 || bytes@[0] == 23 ==> little_endian(bytes@, 40, 2) == 0,
        bytes@[0] == 6 ==> little_endian(bytes@, 8, 8) == 0 && little_endian(bytes@, 16, 8) == 0
            && little_endian(bytes@, 24, 4) == 0,
{
    sqe_fields_are_little_endian(bytes@);
    flag_bytes(bytes@[1]);
}

/// A well-formed submission is accepted: reads and writes at an explicit offset,
/// on a file number that is not negative, over a buffer inside the address space;
/// polls on such a file; cancellations; and no-operations.
pub proof fn well_formed_submissions_are_accepted(
    bytes: [u8; 64],
    result: Result<ParsedSubmission, IoUringError>,
)
    requires
        call_ensures(ParsedSubmission::parse, (bytes,), result),
        little_endian(bytes@, 2, 2) == 0,
        little_endian(bytes@, 42, 2) == 0,
    ensures
        bytes@[0] == 0 && bytes@[1] == 0 && little_endian(bytes@, 28, 4) == 0 ==> result is Ok,
        bytes@[0] == 14 && bytes@[1] == 0 && little_endian(bytes@, 8, 8) == 0 && little_endian(
            bytes@,
            28,
            4,
        ) == 0 && little_endian(bytes@, 44, 4) == 0 ==> result is Ok,
        bytes@[0] == 6 && bytes@[1] <= 1 && little_endian(bytes@, 4, 4) < 0x8000_0000
            && little_endian(bytes@, 8, 8) == 0 && little_endian(bytes@, 16, 8) == 0
            && little_endian(bytes@, 24, 4) == 0 && little_endian(bytes@, 40, 2) == 0 ==> result
            is Ok,
        (bytes@[0] == 4 || bytes@[0] == 5 || ((bytes@[0] == 22 || bytes@[0] == 23)
            && little_endian(bytes@, 40, 2) == 0)) && bytes@[1] <= 1 && little_endian(bytes@, 4, 4)
            < 0x8000_0000 && little_endian(bytes@, 8, 8) < 0xffff_ffff_ffff_ffff && little_endian(
            bytes@,
            16,
            8,
        ) + little_endian(bytes@, 24, 4) <= 0xffff_ffff_ffff_ffff && little_endian(bytes@, 28, 4)
            == 0 && little_endian(bytes@, 44, 4) == 0 ==> result is Ok,
{
    sqe_fields_are_little_endian(bytes@);
    flag_bytes(bytes@[1]);
}

/// What a refused submission is answered, for a supported opcode: a foreign flag
/// first, then a field that the operation does not take, then the current
/// position, then a negative file number, then a buffer past the address space.
pub proof fn refusals_name_the_first_fault(
    bytes: [u8; 64],
    result: Result<ParsedSubmission, IoUringError>,
    error: IoUringError,
)
    requires
        call_ensures(ParsedSubmission::parse, (bytes,), result),
        result == Err::<ParsedSubmission, IoUringError>(error),
        bytes@[0] == 0 || bytes@[0] == 4 || bytes@[0] == 5 || bytes@[0] == 6 || bytes@[0] == 14
            || bytes@[0] == 22 || bytes@[0] == 23,
    ensures
        error == IoUringError::UnsupportedSubmissionFlags <==> bytes@[1] > 1 || (bytes@[1] == 1 && (
        bytes@[0] == 0 || bytes@[0] == 14)),
        error == IoUringError::CurrentPositionUnsupported ==> little_endian(bytes@, 8, 8)
            == 0xffff_ffff_ffff_ffff,
        error == IoUringError::InvalidFileTarget ==> little_endian(bytes@, 4, 4) >= 0x8000_0000,
        error == IoUringError::InvalidSubmission ==> little_endian(bytes@, 16, 8) + little_endian(
            bytes@,
            24,
            4,
        ) > 0xffff_ffff_ffff_ffff,
        error == IoUringError::UnsupportedSubmissionFlags || error
            == IoUringError::UnsupportedOperationFlags || error
            == IoUringError::CurrentPositionUnsupported || error == IoUringError::InvalidFileTarget
            || error == IoUringError::InvalidSubmission,
        bytes@[1] <= 1 && (bytes@[0] == 4 || bytes@[0] == 5 || bytes@[0] == 22 || bytes@[0] == 23)
            && little_endian(bytes@, 2, 2) == 0 && little_endian(bytes@, 42, 2) == 0
            && little_endian(bytes@, 28, 4) == 0 && little_endian(bytes@, 44, 4) == 0 && (bytes@[0]
            <= 5 || little_endian(bytes@, 40, 2) == 0) ==> {
            if little_endian(bytes@, 8, 8) == 0xffff_ffff_ffff_ffff {
                error == IoUringError::CurrentPositionUnsupported
            } else if little_endian(bytes@, 4, 4) >= 0x8000_0000 {
                error == IoUringError::InvalidFileTarget
            } else {
                error == IoUringError::InvalidSubmission
            }
        },
{
    sqe_fields_are_little_endian(bytes@);
    flag_bytes(bytes@[1]);
}

/// Bytes that no operation reads, the last sixteen, decide nothing, and neither
/// do the fields that a no-operation ignores.
pub proof fn unread_bytes_decide_nothing(
    a: [u8; 64],
    b: [u8; 64],
    first: Result<ParsedSubmission, IoUringError>,
    second: Result<ParsedSubmission, IoUringError>,
)
    requires
        forall|i: int| 0 <= i < 48 ==> #[trigger] a@[i] == b@[i],
        call_ensures(ParsedSubmission::parse, (a,), first),
        call_ensures(ParsedSubmission::parse, (b,), second),
    ensures
        first is Ok <==> second is Ok,
        first is Ok ==> first->Ok_0.operation() == second->Ok_0.operation()
            && first->Ok_0.user_data() == second->Ok_0.user_data(),
        first is Err ==> first == second,
{
    assert(a@[0] == b@[0] && a@[1] == b@[1] && a@[2] == b@[2] && a@[3] == b@[3]);
    assert forall|o: int| 0 <= o <= 46 implies #[trigger] le16(a@, o) == le16(b@, o) by {
        assert(a@[o] == b@[o] && a@[o + 1] == b@[o + 1]);
    }
}

/// A submission is known by the same user value and operation before and after
/// it is decoded, and a refused one still has its user value. An unsupported
/// opcode is remembered as rejected.
pub proof fn descriptors_survive_decoding(
    copied: CopiedSubmission,
    early: RequestDescriptor,
    result: Result<ParsedSubmission, IoUringError>,
    late: RequestDescriptor,
)
    requires
        call_ensures(CopiedSubmission::descriptor, (&copied,), early),
        call_ensures(CopiedSubmission::parse, (copied,), result),
        result is Ok ==> call_ensures(ParsedSubmission::descriptor, (result->Ok_0,), late),
    ensures
        early.user_data() == little_endian(copied.bytes(), 32, 8),
        result is Ok ==> late.user_data() == early.user_data() && late.operation()
            == early.operation(),
        early.operation() matches RequestOperation::Rejected(opcode) ==> opcode == copied.bytes()[0]
            && result is Err,
        early.operation() is Read <==> copied.bytes()[0] == 4 || copied.bytes()[0] == 22,
        early.operation() is Write <==> copied.bytes()[0] == 5 || copied.bytes()[0] == 23,
        early.operation() is Nop <==> copied.bytes()[0] == 0,
        early.operation() is PollAdd <==> copied.bytes()[0] == 6,
        early.operation() is AsyncCancel <==> copied.bytes()[0] == 14,
{
    sqe_fields_are_little_endian(copied.bytes());
}

/// Probing an opcode tells the same as submitting it: an opcode is reported
/// supported exactly when a submission with it is not refused for its opcode.
pub proof fn probing_agrees_with_submitting(
    bytes: [u8; 64],
    support: SubmissionOpcodeSupport,
    result: Result<ParsedSubmission, IoUringError>,
)
    requires
        call_ensures(classify_submission_opcode, (bytes@[0],), support),
        call_ensures(ParsedSubmission::parse, (bytes,), result),
    ensures
        support is Unknown <==> result == Err::<ParsedSubmission, IoUringError>(
            IoUringError::UnknownOpcode,
        ),
        support is KnownUnsupported <==> result == Err::<ParsedSubmission, IoUringError>(
            IoUringError::UnsupportedOpcode,
        ),
        support is Unknown <==> bytes@[0] >= 58,
{
}

/// A buffer holds the bytes from its address on and never wraps.
pub proof fn buffers_stay_in_the_address_space(
    address: u64,
    length: u32,
    result: Result<IoBuffer, IoUringError>,
    end: u64,
)
    requires
        call_ensures(IoBuffer::new, (address, length), result),
        result is Ok ==> call_ensures(IoBuffer::end, (result->Ok_0,), end),
    ensures
        result is Ok <==> address + length < 0x1_0000_0000_0000_0000,
        result matches Ok(buffer) ==> buffer.address() == address && buffer.length() == length
            && end - address == length,
{
}

/// `depth` is the least power of two that is not below `wanted`.
pub open spec fn least_power(wanted: int, depth: int) -> bool {
    power_of_two(depth) && wanted <= depth && forall|other: int| #[trigger]
        power_of_two(other) && wanted <= other ==> depth <= other
}

proof fn rounding_is_least(n: int, p: int)
    requires
        crate::io_uring::setup::rounds_up_to(n, p),
    ensures
        least_power(n, p),
{
    assert forall|other: int| #[trigger] power_of_two(other) && n <= other implies p <= other by {
        let a = choose|k: nat| #[trigger] pow2(k) == p;
        let b = choose|k: nat| #[trigger] pow2(k) == other;
        if b < a {
            doubling(b, a);
        } else if a < b {
            doubling(a, b);
        }
    }
}

/// The submission queue has the least power of two of entries that is enough for
/// the request, cut to 32768 where clamping was asked for. The completion queue
/// has twice as many, or, where the caller gave its size, the least power of two
/// that is enough for that, cut to 65536.
pub proof fn queues_hold_what_was_asked_for(
    request: SetupRequest,
    result: Result<RingLayout, IoUringError>,
)
    requires
        call_ensures(SetupRequest::resolve, (request,), result),
        result is Ok,
    ensures
        ({
            let layout = result->Ok_0;
            let sized = request.flags().bits() & 8u32 == 8u32;
            let clamp = request.flags().bits() & 16u32 == 16u32;
            &&& least_power(
                if request.entries() > 32768 {
                    32768
                } else {
                    request.entries() as int
                },
                layout.sq_entries() as int,
            )
            &&& sized ==> least_power(
                if request.cq_entries() > 65536 {
                    65536
                } else {
                    request.cq_entries() as int
                },
                layout.cq_entries() as int,
            )
            &&& !sized ==> layout.cq_entries() == 2 * layout.sq_entries()
            &&& layout.sq_entries() <= layout.cq_entries()
            &&& request.entries() > 32768 ==> clamp
            &&& sized && request.cq_entries() > 65536 ==> clamp
            &&& request.entries() != 0
            &&& sized ==> request.cq_entries() != 0
            &&& layout.setup_flags().bits() == request.flags().bits()
            &&& layout.features().bits() == 0x47
        }),
{
    let layout = result->Ok_0;
    rounding_is_least(
        crate::io_uring::setup::clamped(request.entries(), 32768u32) as int,
        layout.sq_entries() as int,
    );
    if request.flags().contains(SetupFlags::CQSIZE()) {
        rounding_is_least(
            crate::io_uring::setup::clamped(request.cq_entries(), 65536u32) as int,
            layout.cq_entries() as int,
        );
    }
}

/// Setup fails for a reason: no entries, too many without clamping, or a given
/// completion queue that would be smaller than the submission queue. A request
/// whose sizes are in range, with no less completions than submissions, succeeds.
pub proof fn setup_fails_only_for_its_sizes(
    request: SetupRequest,
    result: Result<RingLayout, IoUringError>,
)
    requires
        call_ensures(SetupRequest::resolve, (request,), result),
    ensures
        ({
            let sized = request.flags().bits() & 8u32 == 8u32;
            let clamp = request.flags().bits() & 16u32 == 16u32;
            &&& result == Err::<RingLayout, IoUringError>(IoUringError::ZeroEntries)
                <==> request.entries() == 0
            &&& result == Err::<RingLayout, IoUringError>(IoUringError::SubmissionEntriesTooLarge)
                <==> request.entries() > 32768 && !clamp
            &&& 1 <= request.entries() <= 32768 && !sized ==> result is Ok
            &&& 1 <= request.entries() && clamp && !sized ==> result is Ok
            &&& 1 <= request.entries() <= 32768 && sized && request.entries()
                <= request.cq_entries() <= 65536 ==> result is Ok
            &&& 1 <= request.entries() && sized && clamp && request.entries()
                <= request.cq_entries() ==> result is Ok
            &&& result == Err::<RingLayout, IoUringError>(IoUringError::ZeroCompletionEntries)
                ==> sized && request.cq_entries() == 0
            &&& result == Err::<RingLayout, IoUringError>(IoUringError::CompletionEntriesTooLarge)
                ==> sized && !clamp && request.cq_entries() > 65536
            &&& result == Err::<RingLayout, IoUringError>(IoUringError::CompletionEntriesTooSmall)
                ==> sized && request.cq_entries() < request.entries()
        }),
{
    let n = crate::io_uring::setup::clamped(request.entries(), 32768u32) as int;
    let m = crate::io_uring::setup::clamped(request.cq_entries(), 65536u32) as int;
    assert forall|sq: int, cq: int|
        crate::io_uring::setup::rounds_up_to(n, sq) && crate::io_uring::setup::rounds_up_to(m, cq)
            && cq < sq implies m < n by {
        rounding_is_least(n, sq);
    }
}

/// The header words of both queues, the completion entries and the index array lie
/// one behind the other without touching, all inside the ring mapping, which ends
/// where the last of them does.
pub proof fn ring_parts_do_not_overlap(
    request: SetupRequest,
    result: Result<RingLayout, IoUringError>,
)
    requires
        call_ensures(SetupRequest::resolve, (request,), result),
        result is Ok,
    ensures
        ({
            let layout = result->Ok_0;
            let sq = layout.sq_offsets();
            let cq = layout.cq_offsets();
            let words = seq![
                sq.head(),
                sq.tail(),
                cq.head(),
                cq.tail(),
                sq.ring_mask(),
                cq.ring_mask(),
                sq.ring_entries(),
                cq.ring_entries(),
                sq.dropped(),
                sq.flags(),
                cq.flags(),
                cq.overflow(),
            ];
            let completions_end = cq.cqes() + 16 * layout.cq_entries();
            &&& forall|i: int| 0 <= i < 12 ==> #[trigger] words[i] == 4 * i
            &&& 48 <= cq.cqes() && cq.cqes() % 64 == 0
            &&& match sq.array() {
                Some(array) => {
                    &&& request.flags().bits() & 0x1_0000u32 == 0
                    &&& completions_end <= array < completions_end + 64
                    &&& array % 64 == 0
                    &&& layout.ring_bytes() == array + 4 * layout.sq_entries()
                },
                None => {
                    &&& request.flags().bits() & 0x1_0000u32 == 0x1_0000u32
                    &&& layout.ring_bytes() == completions_end
                },
            }
            &&& layout.sqe_bytes() == 64 * layout.sq_entries()
        }),
{
    let bits = request.flags().bits();
    assert(bits & 0x1_0000u32 == 0 || bits & 0x1_0000u32 == 0x1_0000u32) by (bit_vector);
}

/// Both queue rings are mapped at offsets 0 and 0x8000000 and the submission
/// entries at 0x10000000, each with the bytes that it needs; nothing is mapped
/// elsewhere.
pub proof fn mappings_are_the_rings_and_the_entries(
    layout: RingLayout,
    offset: u64,
    region: Result<MappingRegion, IoUringError>,
    bytes: u32,
)
    requires
        call_ensures(RingLayout::mapping_region, (layout, offset), region),
        region is Ok ==> call_ensures(RingLayout::mapping_bytes, (layout, region->Ok_0), bytes),
    ensures
        region is Ok <==> offset == 0 || offset == 0x0800_0000 || offset == 0x1000_0000,
        offset == 0 || offset == 0x0800_0000 ==> bytes == layout.ring_bytes(),
        offset == 0x1000_0000 ==> bytes == layout.sqe_bytes(),
        region matches Err(error) ==> error == IoUringError::InvalidMappingOffset,
{
}

/// The pending submissions are those by which the tail is ahead of the head,
/// counting round past the largest counter; more than the queue holds is refused.
pub proof fn pending_submissions_lead_from_head_to_tail(
    layout: RingLayout,
    head: u32,
    tail: u32,
    result: Result<u32, IoUringError>,
)
    requires
        call_ensures(RingLayout::pending_submissions, (layout, head, tail), result),
    ensures
        result matches Ok(pending) ==> pending <= layout.sq_entries() && (head + pending)
            % 0x1_0000_0000 == tail,
        result is Err ==> forall|pending: int|
            0 <= pending <= layout.sq_entries() ==> #[trigger] ((head + pending) % 0x1_0000_0000)
                != tail,
        result matches Err(error) ==> error == IoUringError::InvalidQueueGeometry,
{
}

/// Two counters share a submission slot exactly when they are a multiple of the
/// queue's depth apart, so pending submissions have slots of their own.
pub proof fn pending_submissions_have_their_own_slots(
    layout: RingLayout,
    a: u32,
    b: u32,
    first: u32,
    second: u32,
)
    requires
        layout.sq_entries() > 0,
        call_ensures(RingLayout::submission_slot, (layout, a), first),
        call_ensures(RingLayout::submission_slot, (layout, b), second),
    ensures
        first < layout.sq_entries(),
        a < b < a + layout.sq_entries() ==> first != second,
        b == a + layout.sq_entries() ==> first == second,
        a == 0 ==> first == 0,
{
    let n = layout.sq_entries() as int;
    vstd::arithmetic::div_mod::lemma_fundamental_div_mod(a as int, n);
    vstd::arithmetic::div_mod::lemma_fundamental_div_mod(b as int, n);
    let q = a as int / n;
    let r = b as int / n;
    if a < b < a + n && first == second {
        assert(b - a == n * (r - q)) by (nonlinear_arith)
            requires
                a == n * q + first,
                b == n * r + second,
                first == second,
        ;
        assert(false) by (nonlinear_arith)
            requires
                0 < n * (r - q) < n,
                n > 0,
        ;
    }
    if b == a + n {
        vstd::arithmetic::div_mod::lemma_mod_add_multiples_vanish(a as int, n);
    }
}

/// An index from the submission array is used only where it is inside the queue.
pub proof fn submission_indices_stay_in_the_queue(
    layout: RingLayout,
    index: u32,
    result: Result<u32, IoUringError>,
)
    requires
        call_ensures(RingLayout::validate_sqe_index, (layout, index), result),
    ensures
        result is Ok <==> index < layout.sq_entries(),
        result matches Ok(slot) ==> slot == index,
        result matches Err(error) ==> error == IoUringError::InvalidSubmission,
{
}

/// The setup arguments are taken as they are copied. Only the three supported
/// flags may be set, and every unused field must be zero.
pub proof fn setup_arguments_are_taken_as_they_are(
    entries: u32,
    cq_entries: u32,
    flags: u32,
    cpu: u32,
    idle: u32,
    wq: u32,
    reserved: [u32; 3],
    result: Result<SetupRequest, IoUringError>,
)
    requires
        call_ensures(
            SetupRequest::from_raw,
            (entries, cq_entries, flags, cpu, idle, wq, reserved),
            result,
        ),
    ensures
        result matches Ok(request) ==> {
            &&& request.entries() == entries
            &&& request.cq_entries() == cq_entries
            &&& request.flags().bits() == flags
            &&& cpu == 0 && idle == 0 && wq == 0
            &&& forall|i: int| 0 <= i < 3 ==> #[trigger] reserved@[i] == 0
        },
        result == Err::<SetupRequest, IoUringError>(IoUringError::ReservedFieldNonZero) <==> cpu != 0
            || idle != 0 || wq != 0 || reserved@[0] != 0 || reserved@[1] != 0 || reserved@[2] != 0,
        result is Ok ==> flags & 0xfffe_ffe7u32 == 0,
        result == Err::<SetupRequest, IoUringError>(IoUringError::UnsupportedSetupFlags) ==> flags
            & 0xfffe_ffe7u32 != 0,
        result is Ok || result->Err_0 == IoUringError::ReservedFieldNonZero || result->Err_0
            == IoUringError::UnsupportedSetupFlags,
{
    assert(!0x1_0018u32 == 0xfffe_ffe7u32) by (bit_vector);
}

/// Entering the kernel takes the counts as they are, waits only on request, and
/// uses a signal mask exactly when one is given, of exactly the native size.
pub proof fn enter_arguments_are_taken_as_they_are(
    submit: u32,
    complete: u32,
    flags: u32,
    address: u64,
    bytes: u64,
    native: u64,
    result: Result<EnterRequest, IoUringError>,
)
    requires
        call_ensures(
            EnterRequest::from_raw,
            (submit, complete, flags, address, bytes, native),
            result,
        ),
    ensures
        result matches Ok(request) ==> {
            &&& request.to_submit() == submit
            &&& request.minimum_complete() == complete
            &&& request.flags().bits() == flags
            &&& request.signal_mask() is Absent <==> address == 0
            &&& request.signal_mask() matches LegacySignalMask::Address(at) ==> at == address
                && bytes == native
        },
        result == Err::<EnterRequest, IoUringError>(IoUringError::UnsupportedEnterFlags) <==> flags
            > 1,
        flags <= 1 && address == 0 && bytes == 0 ==> result is Ok,
        flags <= 1 && native != 0 && bytes == native ==> result is Ok,
        address != 0 && bytes != native ==> result is Err,
        bytes != 0 && bytes != native ==> result is Err,
        address != 0 && native == 0 ==> result is Err,
        result is Err && flags <= 1 ==> result->Err_0 == IoUringError::InvalidSignalMaskArgument,
{
    assert(flags & !1u32 == 0 <==> flags <= 1) by (bit_vector);
}

/// Registration numbers 0 to 3 register and retire buffers and files, 8 probes,
/// and nothing else is done. What is registered is what the header names.
pub proof fn registrations_do_what_they_name(
    opcode: u32,
    argument: u64,
    count: u32,
    header: RegistrationRequest,
    result: Result<RegistrationOperation, IoUringError>,
)
    requires
        call_ensures(RegistrationRequest::new, (opcode, argument, count), header),
        call_ensures(RegistrationRequest::decode, (header,), result),
    ensures
        result matches Ok(operation) ==> match operation {
            RegistrationOperation::RegisterBuffers { argument: at, count: slots } => opcode == 0
                && at == argument && slots == count && (argument != 0 ==> 1 <= count <= 16384),
            RegistrationOperation::UnregisterBuffers => opcode == 1 && argument == 0 && count == 0,
            RegistrationOperation::RegisterFiles { argument: at, count: slots } => opcode == 2 && at
                == argument && slots == count && argument != 0 && 1 <= count <= 1048576,
            RegistrationOperation::UnregisterFiles => opcode == 3 && argument == 0 && count == 0,
            RegistrationOperation::Probe { argument: at, operations } => opcode == 8 && at
                == argument && operations == count && argument != 0 && count <= 256,
        },
        opcode == 0 && (argument == 0 || 1 <= count <= 16384) ==> result is Ok,
        (opcode == 1 || opcode == 3) && argument == 0 && count == 0 ==> result is Ok,
        opcode == 2 && argument != 0 && 1 <= count <= 1048576 ==> result is Ok,
        opcode == 8 && argument != 0 && count <= 256 ==> result is Ok,
        result == Err::<RegistrationOperation, IoUringError>(IoUringError::UnknownRegistration)
            <==> 31 <= opcode < 0x8000_0000,
        (4 <= opcode < 31 && opcode != 8) || opcode > 0x8000_0001 ==> result == Err::<
            RegistrationOperation,
            IoUringError,
        >(IoUringError::UnsupportedRegistration),
        opcode == 0x8000_0000 || opcode == 0x8000_0001 ==> result == Err::<
            RegistrationOperation,
            IoUringError,
        >(IoUringError::InvalidRegistration),
        result == Err::<RegistrationOperation, IoUringError>(IoUringError::InvalidFileTableCapacity)
            <==> opcode == 2 && argument != 0 && count > 1048576,
        result is Err && opcode <= 8 && (opcode <= 3 || opcode == 8) && result->Err_0
            != IoUringError::InvalidFileTableCapacity ==> result->Err_0
            == IoUringError::InvalidRegistration,
{
}

/// A request table has from 1 to 32768 slots and a completion queue of a power of
/// two up to 65536 places. It starts open and empty.
pub proof fn request_tables_start_empty(
    ring: RingId,
    capacity: u32,
    entries: u32,
    result: Result<RequestRegistry, IoUringError>,
    progress: Result<RequestProgress, IoUringError>,
    id: RequestId,
    found: Result<(RequestDescriptor, RequestState), IoUringError>,
)
    requires
        call_ensures(RequestRegistry::new, (ring, capacity, entries), result),
        result is Ok ==> call_ensures(RequestRegistry::progress, (&result->Ok_0,), progress),
        result is Ok ==> call_ensures(RequestRegistry::request, (&result->Ok_0, id), found),
    ensures
        result is Ok ==> 1 <= capacity <= 32768 && entries <= 65536 && power_of_two(entries as int),
        result == Err::<RequestRegistry, IoUringError>(IoUringError::RequestCapacityExceeded)
            <==> !(1 <= capacity <= 32768),
        result == Err::<RequestRegistry, IoUringError>(IoUringError::InvalidQueueGeometry) <==> 1
            <= capacity <= 32768 && !(entries <= 65536 && power_of_two(entries as int)),
        result is Ok ==> {
            &&& progress is Ok && progress->Ok_0.lifecycle() is Open
                && progress->Ok_0.terminal_credits() == 0
            &&& found == Err::<(RequestDescriptor, RequestState), IoUringError>(
                IoUringError::UnknownRequest,
            )
            &&& result->Ok_0@.slots.len() == capacity && result->Ok_0@.cq_entries == entries
        },
{
}

/// File tables have from 1 to 1048576 slots and buffer tables from 1 to 16384,
/// with 1 to 65536 leases. They start unpublished and empty.
pub proof fn resource_tables_start_empty<F>(
    ring: RingId,
    file_id: FileTableId,
    buffer_id: BufferTableId,
    capacity: u32,
    leases: u32,
    files: Result<RegisteredFileTable<F>, IoUringError>,
    buffers: Result<RegisteredBufferTable<F>, IoUringError>,
    i: int,
)
    requires
        call_ensures(RegisteredFileTable::<F>::new, (ring, file_id, capacity, leases), files),
        call_ensures(RegisteredBufferTable::<F>::new, (ring, buffer_id, capacity, leases), buffers),
        0 <= i < capacity,
    ensures
        files matches Ok(table) ==> {
            &&& 1 <= capacity <= 1048576 && 1 <= leases <= 65536
            &&& table@.lifecycle is Building && table@.leases == 0 && table@.lease_capacity == leases
            &&& table@.slots.len() == capacity && table@.slots[i].owner is None
            &&& table@.ring == ring && table@.id == file_id
        },
        buffers matches Ok(table) ==> {
            &&& 1 <= capacity <= 16384 && 1 <= leases <= 65536
            &&& table@.lifecycle is Building && table@.leases == 0 && table@.lease_capacity == leases
            &&& table@.slots.len() == capacity && table@.slots[i].owner is None
            &&& table@.ring == ring && table@.id == buffer_id
        },
        files == Err::<RegisteredFileTable<F>, IoUringError>(IoUringError::InvalidFileTableCapacity)
            <==> capacity > 1048576,
        files == Err::<RegisteredFileTable<F>, IoUringError>(IoUringError::InvalidFileLeaseCapacity)
            <==> capacity <= 1048576 && !(1 <= leases <= 65536),
        buffers == Err::<RegisteredBufferTable<F>, IoUringError>(
            IoUringError::InvalidBufferTableCapacity,
        ) <==> capacity > 16384,
        buffers == Err::<RegisteredBufferTable<F>, IoUringError>(
            IoUringError::InvalidBufferLeaseCapacity,
        ) <==> capacity <= 16384 && !(1 <= leases <= 65536),
{
}

/// The least power of two that is not below a number is found.
pub proof fn depths_are_rounded_up(n: u32, result: u32)
    requires
        1 <= n <= 0x8000_0000,
        call_ensures(next_power_of_two, (n,), result),
    ensures
        least_power(n as int, result as int),
{
    rounding_is_least(n as int, result as int);
}

/// A ring mask is one less than the depth of its queue.
pub proof fn masks_are_one_below_the_depth(layout: RingLayout, sq: u32, cq: u32)
    requires
        call_ensures(RingLayout::sq_mask, (layout,), sq),
        call_ensures(RingLayout::cq_mask, (layout,), cq),
    ensures
        sq + 1 == layout.sq_entries(),
        cq + 1 == layout.cq_entries(),
{
}

/// A copied submission has the user value and opcode of its bytes, also where it
/// does not decode.
pub proof fn copies_keep_their_identity(
    bytes: [u8; 64],
    copied: CopiedSubmission,
    opcode: u8,
    user_data: u64,
    direct: Result<ParsedSubmission, IoUringError>,
    later: Result<ParsedSubmission, IoUringError>,
)
    requires
        call_ensures(CopiedSubmission::new, (bytes,), copied),
        call_ensures(CopiedSubmission::opcode, (&copied,), opcode),
        call_ensures(CopiedSubmission::user_data, (&copied,), user_data),
        call_ensures(ParsedSubmission::parse, (bytes,), direct),
        call_ensures(CopiedSubmission::parse, (copied,), later),
    ensures
        opcode == bytes@[0],
        user_data == little_endian(bytes@, 32, 8),
        direct is Ok <==> later is Ok,
        direct is Ok ==> direct->Ok_0.operation() == later->Ok_0.operation()
            && direct->Ok_0.user_data() == later->Ok_0.user_data(),
        direct is Err ==> direct == later,
{
    sqe_fields_are_little_endian(bytes@);
}

/// The setup, feature and enter bits are those of Linux.
pub proof fn ring_flags_are_the_linux_bits()
    ensures
        SetupFlags::CQSIZE().bits() == 0x8,
        SetupFlags::CLAMP().bits() == 0x10,
        SetupFlags::NO_SQARRAY().bits() == 0x1_0000,
        FeatureFlags::SINGLE_MMAP().bits() == 0x1,
        FeatureFlags::NODROP().bits() == 0x2,
        FeatureFlags::SUBMIT_STABLE().bits() == 0x4,
        FeatureFlags::POLL_32BITS().bits() == 0x40,
        EnterFlags::GETEVENTS().bits() == 0x1,
{
}

} // verus!
