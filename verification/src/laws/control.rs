//! Control messages on the wire.

use super::datagrams::{a_checksum_makes_words_add_up, adds_up};
use super::wire::{four, two};
use crate::buffer::{be16_bytes, be16_round_trip, ne_bytes};
use crate::checksum::checksum_of;
use crate::protocols::ipv4::parse_ipv4;
use crate::protocols::ipv4::icmp::{
    icmp_wire_length, ne_lengths, parse_icmp, DestinationUnreachableCode, EchoDataView,
    EchoMessageDataUnix, EchoView, MessageView, RedirectMessageCode, TimeExceededCode,
};
use crate::write_to_buffer::WriteToBuffer;
use vstd::prelude::*;

verus! {

/// The number of why a datagram could not be delivered.
pub open spec fn unreachable_number(code: DestinationUnreachableCode) -> u8 {
    match code {
        DestinationUnreachableCode::NetUnreachable => 0,
        DestinationUnreachableCode::HostUnreachable => 1,
        DestinationUnreachableCode::ProtocolUnreachable => 2,
        DestinationUnreachableCode::PortUnreachable => 3,
        DestinationUnreachableCode::FragmentationNeededAndDoNotFragmentSet => 4,
        DestinationUnreachableCode::SourceRouteFailed => 5,
    }
}

/// Whether a message says what its first bytes call for: which kind it is, why, and for an echo and
/// its answer the two numbers and the data behind them.
pub open spec fn says(bytes: Seq<u8>, message: MessageView) -> bool {
    match message {
        MessageView::EchoReply(echo) => bytes[0] == 0 && echo_says(bytes, echo),
        MessageView::Echo(echo) => bytes[0] == 8 && echo_says(bytes, echo),
        MessageView::DestinationUnreachable(message) => {
            let quoted = bytes.skip(8);
            &&& bytes[0] == 3
            &&& bytes[1] == unreachable_number(message.code)
            &&& parse_ipv4(quoted) matches Ok(header)
            &&& message.ipv4header == header
            &&& message.datagram == quoted.subrange(quoted[0] % 16 * 4, quoted[0] % 16 * 4 + 8)
        },
        MessageView::SourceQuench(data) => bytes[0] == 4 && data == bytes.skip(8),
        MessageView::Redirect { code, gateway, data } => {
            &&& bytes[0] == 5
            &&& bytes[1] == match code {
                RedirectMessageCode::Network => 0u8,
                RedirectMessageCode::Host => 1,
                RedirectMessageCode::ServiceAndNetwork => 2,
                RedirectMessageCode::ServiceAndHost => 3,
            }
            &&& gateway.bits == four(bytes, 4)
            &&& data == bytes.skip(8)
        },
        MessageView::TimeExceeded { reason, data } => {
            &&& bytes[0] == 11
            &&& bytes[1] == match reason {
                TimeExceededCode::TimeToLiveExceededInTransit => 0u8,
                TimeExceededCode::FragmentReassemblyTimeExceeded => 1,
            }
            &&& data == bytes.skip(8)
        },
        MessageView::ParameterProblem { pointer, data } => bytes[0] == 12 && pointer == bytes[5]
            && data == bytes.skip(8),
    }
}

/// Whether an echo is the one that the bytes hold.
pub open spec fn echo_says(bytes: Seq<u8>, echo: EchoView) -> bool {
    &&& echo.identifier == two(bytes, 4)
    &&& echo.sequence_number == two(bytes, 6)
    &&& echo.data == EchoDataView::Bytes(bytes.skip(8))
}

/// A control message that is accepted adds up, and says what its first bytes call for. An echo and
/// its answer are accepted wherever their checksum is right.
pub proof fn a_control_message_is_read_from_its_places(bytes: Seq<u8>)
    ensures
        bytes.len() < 8 ==> parse_icmp(bytes) is Err,
        bytes.len() >= 8 ==> {
            let right = two(bytes, 2) == checksum_of(
                bytes.take(2) + seq![0u8, 0u8] + bytes.skip(4),
            );
            &&& !right ==> parse_icmp(bytes) is Err
            &&& parse_icmp(bytes) matches Ok(icmp) ==> says(bytes, icmp.message) && adds_up(bytes)
            &&& right && (bytes[0] == 0 || bytes[0] == 4 || bytes[0] == 8 || bytes[0] == 12)
                ==> parse_icmp(bytes) is Ok
            &&& right && bytes[0] == 5 && bytes[1] <= 3 ==> parse_icmp(bytes) is Ok
            &&& right && bytes[0] == 11 && bytes[1] <= 1 ==> parse_icmp(bytes) is Ok
            &&& right && bytes[0] == 3 && bytes[1] <= 5 && parse_ipv4(bytes.skip(8)) is Ok
                && bytes.len() >= 16 + bytes[8] % 16 * 4 ==> parse_icmp(bytes) is Ok
        },
{
    if bytes.len() >= 8 {
        if let Ok(icmp) = parse_icmp(bytes) {
            let front = bytes.take(2);
            let back = bytes.skip(4);
            a_checksum_makes_words_add_up(front, back);
            let checksum = checksum_of(front + seq![0u8, 0u8] + back);
            assert(bytes =~= front + be16_bytes(checksum) + back);
        }
    }
}

/// A control message that is sent starts with the number of its kind and of its reason, and adds
/// up. An echo and its answer have their numbers and their data where they are read.
pub proof fn a_control_message_is_written_to_its_places(message: MessageView)
    requires
        message.writable(),
    ensures
        ({
            let bytes = message.wire();
            &&& bytes[0] == match message {
                MessageView::EchoReply(_) => 0u8,
                MessageView::DestinationUnreachable(_) => 3,
                MessageView::SourceQuench(_) => 4,
                MessageView::Redirect { .. } => 5,
                MessageView::Echo(_) => 8,
                MessageView::TimeExceeded { .. } => 11,
                MessageView::ParameterProblem { .. } => 12,
            }
            &&& bytes[1] == match message {
                MessageView::DestinationUnreachable(told) => unreachable_number(told.code),
                MessageView::Redirect { code, .. } => match code {
                    RedirectMessageCode::Network => 0u8,
                    RedirectMessageCode::Host => 1,
                    RedirectMessageCode::ServiceAndNetwork => 2,
                    RedirectMessageCode::ServiceAndHost => 4,
                },
                MessageView::TimeExceeded { reason, .. } => match reason {
                    TimeExceededCode::TimeToLiveExceededInTransit => 0u8,
                    TimeExceededCode::FragmentReassemblyTimeExceeded => 1,
                },
                _ => 0,
            }
            &&& adds_up(bytes)
            &&& match message {
                MessageView::EchoReply(echo) | MessageView::Echo(echo) => {
                    &&& two(bytes, 4) == echo.identifier
                    &&& two(bytes, 6) == echo.sequence_number
                    &&& bytes.skip(8) == echo.data.encoding()
                },
                MessageView::SourceQuench(data) => bytes.skip(4) == data,
                MessageView::Redirect { data, .. } => bytes.skip(4) == data,
                MessageView::TimeExceeded { data, .. } => bytes.skip(4) == data,
                MessageView::ParameterProblem { data, .. } => bytes.skip(4) == data,
                MessageView::DestinationUnreachable(told) => bytes.skip(24) == told.datagram,
            }
        }),
{
    broadcast use be16_round_trip;

    let bytes = message.wire();
    let body = message.body();
    let (kind, code) = message.type_and_code();
    let front = seq![kind, code];
    icmp_wire_length(message);
    assert(front + seq![0u8, 0u8] + body =~= seq![kind, code, 0u8, 0u8] + body);
    a_checksum_makes_words_add_up(front, body);
    assert(bytes =~= front + be16_bytes(message.written_checksum()) + body);
    assert(bytes.skip(4) =~= body);
    match message {
        MessageView::EchoReply(echo) | MessageView::Echo(echo) => {
            let identifier = be16_bytes(echo.identifier);
            let sequence = be16_bytes(echo.sequence_number);
            assert(bytes[4] == identifier[0] && bytes[5] == identifier[1] && bytes[6]
                == sequence[0] && bytes[7] == sequence[1]);
            assert(bytes.skip(8) =~= echo.data.encoding());
        },
        MessageView::DestinationUnreachable(told) => {
            crate::protocols::ipv4::ipv4_header_length(told.ipv4header);
            assert(bytes.skip(24) =~= told.datagram);
        },
        _ => {},
    }
}

/// The clock readings that an echo carries: first the seconds and the microseconds since the epoch,
/// then the reading of the clock that only goes forward, and behind them bytes that count up.
pub proof fn clock_readings_have_their_places(data: EchoMessageDataUnix)
    requires
        data.since_epoc.wf(),
        data.monotonic_instant matches Some(instant) ==> instant.wf(),
    ensures
        ({
            let bytes = data.encoding();
            let nanos = data.since_epoc.nanos as int;
            &&& bytes.subrange(0, 8) == ne_bytes((nanos / 1_000_000_000) as nat, 8)
            &&& bytes.subrange(8, 16) == ne_bytes((nanos % 1_000_000_000 / 1000) as nat, 8)
            &&& data.monotonic_instant matches Some(instant) ==> bytes.subrange(16, 32) == ne_bytes(
                instant.nanos as nat,
                16,
            ) && bytes.skip(32) == Seq::new(24, |i: int| (32 + i) as u8)
            &&& data.monotonic_instant is None ==> bytes.skip(16) == Seq::new(
                40,
                |i: int| (16 + i) as u8,
            )
        }),
{
    let bytes = data.encoding();
    let nanos = data.since_epoc.nanos as int;
    ne_lengths(data.since_epoc, data.monotonic_instant);
    assert(bytes.subrange(0, 8) =~= ne_bytes((nanos / 1_000_000_000) as nat, 8));
    assert(bytes.subrange(8, 16) =~= ne_bytes((nanos % 1_000_000_000 / 1000) as nat, 8));
    match data.monotonic_instant {
        Some(instant) => {
            assert(bytes.subrange(16, 32) =~= ne_bytes(instant.nanos as nat, 16));
            assert(bytes.skip(32) =~= Seq::new(24, |i: int| (32 + i) as u8));
        },
        None => {
            assert(bytes.skip(16) =~= Seq::new(40, |i: int| (16 + i) as u8));
        },
    }
}

} // verus!
