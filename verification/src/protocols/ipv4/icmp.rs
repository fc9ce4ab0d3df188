//! Control messages.

use super::{ipv4_complete, ipv4_header_length, is_ipv4_complete, parse_ipv4, IPv4Header};
use crate::buffer::{
    as_slice, be16_at, be16_bytes, be16_round_trip, buffer_with_capacity, bytes_contents,
    bytes_mut_contents, freeze, has_room, max_buffer_len, ne_bytes, ne_round_trip,
    ne_value, pow256, put_slice, put_u128_ne, put_u16, put_u64_ne, put_u8, read_be16, slice_bytes,
    u128_from_ne_bytes, u64_from_ne_bytes,
};
use crate::checksum::{checksum_of, Summation, MAX_CHECKSUMMED};
use crate::common::{caused_by, outcome, Error, ErrorKind};
use crate::net::{ipv4_at, Ipv4Addr};
use crate::time::{Duration, MAX_DURATION_NANOS};
use crate::write_to_buffer::WriteToBuffer;
use bytes::{Bytes, BytesMut};
use vstd::arithmetic::div_mod::{lemma_fundamental_div_mod, lemma_mod_mod};
use vstd::prelude::*;
use vstd::slice::slice_subrange;
use vstd::string::*;

verus! {

/// How many bytes of the datagram that caused a message stand behind its header.
pub const ICMP_PAYLOAD_DATAGRAM_PORTION_LENGTH: usize = 8;

/// Why a destination cannot be reached.
#[derive(Debug, PartialEq, Eq, Clone, Copy, Structural)]
pub enum DestinationUnreachableCode {
    NetUnreachable,
    HostUnreachable,
    ProtocolUnreachable,
    PortUnreachable,
    FragmentationNeededAndDoNotFragmentSet,
    SourceRouteFailed,
}

impl DestinationUnreachableCode {
    pub open spec fn decode(value: u8) -> Result<Self, (ErrorKind, Seq<char>)> {
        match value {
            0 => Ok(DestinationUnreachableCode::NetUnreachable),
            1 => Ok(DestinationUnreachableCode::HostUnreachable),
            2 => Ok(DestinationUnreachableCode::ProtocolUnreachable),
            3 => Ok(DestinationUnreachableCode::PortUnreachable),
            4 => Ok(DestinationUnreachableCode::FragmentationNeededAndDoNotFragmentSet),
            5 => Ok(DestinationUnreachableCode::SourceRouteFailed),
            _ => Err((ErrorKind::InvalidInput, "Invalid Destination Unreachable code"@)),
        }
    }

    pub open spec fn encode(self) -> u8 {
        match self {
            DestinationUnreachableCode::NetUnreachable => 0,
            DestinationUnreachableCode::HostUnreachable => 1,
            DestinationUnreachableCode::ProtocolUnreachable => 2,
            DestinationUnreachableCode::PortUnreachable => 3,
            DestinationUnreachableCode::FragmentationNeededAndDoNotFragmentSet => 4,
            DestinationUnreachableCode::SourceRouteFailed => 5,
        }
    }

    /// The reason that a value stands for.
    pub fn try_from(value: u8) -> (result: Result<Self, Error>)
        ensures
            outcome(result) == Self::decode(value),
    {
        match value {
            0 => Ok(DestinationUnreachableCode::NetUnreachable),
            1 => Ok(DestinationUnreachableCode::HostUnreachable),
            2 => Ok(DestinationUnreachableCode::ProtocolUnreachable),
            3 => Ok(DestinationUnreachableCode::PortUnreachable),
            4 => Ok(DestinationUnreachableCode::FragmentationNeededAndDoNotFragmentSet),
            5 => Ok(DestinationUnreachableCode::SourceRouteFailed),
            _ => Err(Error::new(ErrorKind::InvalidInput, "Invalid Destination Unreachable code")),
        }
    }

    /// The value that stands for this reason.
    pub fn code(&self) -> (value: u8)
        ensures
            value == self.encode(),
    {
        match *self {
            DestinationUnreachableCode::NetUnreachable => 0,
            DestinationUnreachableCode::HostUnreachable => 1,
            DestinationUnreachableCode::ProtocolUnreachable => 2,
            DestinationUnreachableCode::PortUnreachable => 3,
            DestinationUnreachableCode::FragmentationNeededAndDoNotFragmentSet => 4,
            DestinationUnreachableCode::SourceRouteFailed => 5,
        }
    }
}

/// Which time ran out.
#[derive(Debug, PartialEq, Eq, Clone, Copy, Structural)]
pub enum TimeExceededCode {
    TimeToLiveExceededInTransit,
    FragmentReassemblyTimeExceeded,
}

impl TimeExceededCode {
    pub open spec fn decode(value: u8) -> Result<Self, (ErrorKind, Seq<char>)> {
        match value {
            0 => Ok(TimeExceededCode::TimeToLiveExceededInTransit),
            1 => Ok(TimeExceededCode::FragmentReassemblyTimeExceeded),
            _ => Err((ErrorKind::InvalidInput, "Invalid Time Exceeded Code"@)),
        }
    }

    pub open spec fn encode(self) -> u8 {
        match self {
            TimeExceededCode::TimeToLiveExceededInTransit => 0,
            TimeExceededCode::FragmentReassemblyTimeExceeded => 1,
        }
    }

    /// The reason that a value stands for.
    pub fn try_from(value: u8) -> (result: Result<Self, Error>)
        ensures
            outcome(result) == Self::decode(value),
    {
        match value {
            0 => Ok(TimeExceededCode::TimeToLiveExceededInTransit),
            1 => Ok(TimeExceededCode::FragmentReassemblyTimeExceeded),
            _ => Err(Error::new(ErrorKind::InvalidInput, "Invalid Time Exceeded Code")),
        }
    }

    /// The value that stands for this reason.
    pub fn code(&self) -> (value: u8)
        ensures
            value == self.encode(),
    {
        match *self {
            TimeExceededCode::TimeToLiveExceededInTransit => 0,
            TimeExceededCode::FragmentReassemblyTimeExceeded => 1,
        }
    }
}

/// What is to be sent another way.
#[derive(Debug, PartialEq, Eq, Clone, Copy, Structural)]
pub enum RedirectMessageCode {
    Network,
    Host,
    ServiceAndNetwork,
    ServiceAndHost,
}

impl RedirectMessageCode {
    pub open spec fn decode(value: u8) -> Result<Self, (ErrorKind, Seq<char>)> {
        match value {
            0 => Ok(RedirectMessageCode::Network),
            1 => Ok(RedirectMessageCode::Host),
            2 => Ok(RedirectMessageCode::ServiceAndNetwork),
            3 => Ok(RedirectMessageCode::ServiceAndHost),
            _ => Err((ErrorKind::InvalidInput, "Invalid Redirect Message Code"@)),
        }
    }

    pub open spec fn encode(self) -> u8 {
        match self {
            RedirectMessageCode::Network => 0,
            RedirectMessageCode::Host => 1,
            RedirectMessageCode::ServiceAndNetwork => 2,
            RedirectMessageCode::ServiceAndHost => 4,
        }
    }

    /// What a value that was read stands for.
    pub fn try_from(value: u8) -> (result: Result<Self, Error>)
        ensures
            outcome(result) == Self::decode(value),
    {
        match value {
            0 => Ok(RedirectMessageCode::Network),
            1 => Ok(RedirectMessageCode::Host),
            2 => Ok(RedirectMessageCode::ServiceAndNetwork),
            3 => Ok(RedirectMessageCode::ServiceAndHost),
            _ => Err(Error::new(ErrorKind::InvalidInput, "Invalid Redirect Message Code")),
        }
    }

    /// The value that is written.
    pub fn code(&self) -> (value: u8)
        ensures
            value == self.encode(),
    {
        match *self {
            RedirectMessageCode::Network => 0,
            RedirectMessageCode::Host => 1,
            RedirectMessageCode::ServiceAndNetwork => 2,
            RedirectMessageCode::ServiceAndHost => 4,
        }
    }
}

/// Reading a code as it was written gives it back, but for the redirect of a service and a host,
/// which is written as 4 and read as 3.
pub proof fn icmp_code_round_trips(
    unreachable: DestinationUnreachableCode,
    exceeded: TimeExceededCode,
    redirect: RedirectMessageCode,
)
    ensures
        DestinationUnreachableCode::decode(unreachable.encode()) == Ok::<
            DestinationUnreachableCode,
            (ErrorKind, Seq<char>),
        >(unreachable),
        TimeExceededCode::decode(exceeded.encode()) == Ok::<
            TimeExceededCode,
            (ErrorKind, Seq<char>),
        >(exceeded),
        redirect != RedirectMessageCode::ServiceAndHost ==> RedirectMessageCode::decode(
            redirect.encode(),
        ) == Ok::<RedirectMessageCode, (ErrorKind, Seq<char>)>(redirect),
{
}

/// A datagram could not be delivered.
#[derive(Debug, PartialEq, Eq, Clone, Copy)]
pub struct DestinationUnreachableMessage {
    pub code: DestinationUnreachableCode,
    /// The header of the datagram.
    pub ipv4header: IPv4Header,
    /// The start of what the datagram carried.
    pub datagram: [u8; 8],
}

/// A datagram was discarded because its time ran out.
#[derive(Debug, PartialEq, Eq, Clone)]
pub struct TimeExceededMessage {
    pub code: TimeExceededCode,
    pub data: Bytes,
}

/// A datagram was discarded because of a parameter in its header.
#[derive(Debug, PartialEq, Eq, Clone)]
pub struct ParameterProblemMessage {
    pub pointer: u8,
    pub data: Bytes,
}

/// A datagram should have been sent to another gateway.
#[derive(Debug, PartialEq, Eq, Clone)]
pub struct RedirectMessage {
    pub code: RedirectMessageCode,
    pub gateway: Ipv4Addr,
    pub data: Bytes,
}

/// The clock readings that an echo carries: the time since the epoch, and where it is known the
/// reading of a monotonic clock.
#[derive(Debug, PartialEq, Eq, Clone, Copy, Structural)]
pub struct EchoMessageDataUnix {
    pub since_epoc: Duration,
    pub monotonic_instant: Option<Duration>,
}

/// The filler from a position on: each byte is its position.
pub open spec fn filler(from: nat) -> Seq<u8> {
    Seq::new((56 - from) as nat, |i: int| (from + i) as u8)
}

/// The seconds at the start of clock readings.
pub open spec fn unix_seconds(bytes: Seq<u8>) -> nat {
    ne_value(bytes.subrange(0, 8))
}

/// The microseconds behind the seconds.
pub open spec fn unix_micros(bytes: Seq<u8>) -> nat {
    ne_value(bytes.subrange(8, 16))
}

/// Whether the clock readings in the bytes are no later than the longest span, where there are
/// enough bytes to hold any.
pub open spec fn unix_data_in_range(bytes: Seq<u8>) -> bool {
    bytes.len() >= 56 ==> {
        &&& unix_micros(bytes) * 1000 <= u64::MAX
        &&& unix_seconds(bytes) * 1_000_000_000 + unix_micros(bytes) * 1000 <= MAX_DURATION_NANOS
    }
}

/// The clock readings that the bytes of an echo hold.
pub open spec fn parse_unix(bytes: Seq<u8>) -> Result<
    EchoMessageDataUnix,
    (ErrorKind, Seq<char>),
> {
    if bytes.len() < 56 {
        Err((ErrorKind::UnexpectedEof, "ICMP Payload truncated parsing"@))
    } else {
        let monotonic = ne_value(bytes.subrange(16, 32));
        Ok(
            EchoMessageDataUnix {
                since_epoc: Duration {
                    nanos: (unix_seconds(bytes) * 1_000_000_000 + unix_micros(bytes)
                        * 1000) as u128,
                },
                monotonic_instant: if bytes.subrange(16, 32) != filler(16).take(16) && 0 < monotonic
                    < MAX_DURATION_NANOS {
                    Some(Duration { nanos: monotonic as u128 })
                } else {
                    None
                },
            },
        )
    }
}

impl EchoMessageDataUnix {
    pub const LENGTH: usize = 56;

    /// The readings are spans.
    pub open spec fn wf(self) -> bool {
        self.since_epoc.wf() && (self.monotonic_instant matches Some(instant) ==> instant.wf())
    }

    /// Reads the clock readings that the bytes of an echo hold. Nothing marks them, so this is for
    /// answers to echoes that carried them.
    pub fn try_from(value: &Bytes) -> (result: Result<Self, Error>)
        requires
            unix_data_in_range(bytes_contents(*value)),
        ensures
            outcome(result) == parse_unix(bytes_contents(*value)),
    {
        let value = as_slice(value);
        if value.len() < Self::LENGTH {
            return Err(Error::new(ErrorKind::UnexpectedEof, "ICMP Payload truncated parsing"));
        }
        let sec: u64 = read_u64_ne(value, 0);
        let micros: u64 = read_u64_ne(value, 8);
        let nanos: u128 = sec as u128 * 1_000_000_000 + (micros * 1_000) as u128;
        let since_epoc = Duration { nanos };

        let maybe_monotonic_instant = [
            value[16],
            value[17],
            value[18],
            value[19],
            value[20],
            value[21],
            value[22],
            value[23],
            value[24],
            value[25],
            value[26],
            value[27],
            value[28],
            value[29],
            value[30],
            value[31],
        ];
        let ghost field = value@.subrange(16, 32);
        assert(maybe_monotonic_instant@ =~= field);
        let mut monotonic_instant: Option<Duration> = None;
        if !is_filler(&maybe_monotonic_instant) {
            let nanos: u128 = u128_from_ne_bytes(maybe_monotonic_instant);
            if nanos > 0 && nanos < MAX_DURATION_NANOS {
                monotonic_instant = Some(Duration { nanos });
            }
        }
        Ok(EchoMessageDataUnix { since_epoc, monotonic_instant })
    }
}

/// Reads the eight bytes at a position in the order of the machine.
fn read_u64_ne(bytes: &[u8], at: usize) -> (value: u64)
    requires
        at + 8 <= bytes@.len(),
    ensures
        value == ne_value(bytes@.subrange(at as int, at + 8)),
{
    assert(at + 8 <= bytes.len());
    let field = [
        bytes[at],
        bytes[at + 1],
        bytes[at + 2],
        bytes[at + 3],
        bytes[at + 4],
        bytes[at + 5],
        bytes[at + 6],
        bytes[at + 7],
    ];
    assert(field@ =~= bytes@.subrange(at as int, at + 8));
    u64_from_ne_bytes(field)
}

/// Whether the clock readings in the bytes are no later than the longest span, where there are
/// enough bytes to hold any.
pub fn is_unix_data_in_range(bytes: &[u8]) -> (result: bool)
    ensures
        result == unix_data_in_range(bytes@),
{
    if bytes.len() < EchoMessageDataUnix::LENGTH {
        return true;
    }
    let sec: u64 = read_u64_ne(bytes, 0);
    let micros: u64 = read_u64_ne(bytes, 8);
    micros <= u64::MAX / 1000 && sec as u128 * 1_000_000_000 + (micros * 1000) as u128
        <= MAX_DURATION_NANOS
}

/// Whether bytes are those of the filler at position sixteen.
fn is_filler(bytes: &[u8]) -> (result: bool)
    requires
        bytes@.len() == 16,
    ensures
        result == (bytes@ == filler(16).take(16)),
{
    let mut i: usize = 0;
    while i < 16
        invariant
            i <= 16,
            bytes@.len() == 16,
            forall|j: int| 0 <= j < i ==> bytes@[j] == filler(16)[j],
        decreases 16 - i,
    {
        if bytes[i] != 16 + i as u8 {
            assert(bytes@[i as int] != filler(16).take(16)[i as int]);
            return false;
        }
        i = i + 1;
    }
    assert(bytes@ =~= filler(16).take(16));
    true
}

impl WriteToBuffer for EchoMessageDataUnix {
    open spec fn encoding(&self) -> Seq<u8> {
        ne_bytes((self.since_epoc.nanos as int / 1_000_000_000) as nat, 8) + ne_bytes(
            (self.since_epoc.nanos as int % 1_000_000_000 / 1000) as nat,
            8,
        ) + (match self.monotonic_instant {
            Some(instant) => ne_bytes(instant.nanos as nat, 16) + filler(32),
            None => filler(16),
        })
    }

    open spec fn reported(&self) -> nat {
        self.encoding().len()
    }

    open spec fn encodable(&self) -> bool {
        self.since_epoc.wf()
    }

    fn encoded_length(&self) -> (length: usize) {
        proof {
            ne_lengths(self.since_epoc, self.monotonic_instant);
        }
        Self::LENGTH
    }

    fn write_to_buffer(&self, buffer: &mut BytesMut) {
        proof {
            ne_lengths(self.since_epoc, self.monotonic_instant);
        }
        let ghost start = bytes_mut_contents(*buffer);
        put_u64_ne(buffer, self.since_epoc.as_secs());
        put_u64_ne(buffer, (self.since_epoc.nanos % 1_000_000_000 / 1000) as u64);
        let mut pad: u8 = 16;
        if let Some(monotonic_instant) = self.monotonic_instant {
            put_u128_ne(buffer, monotonic_instant.nanos);
            // Sixteen bytes fewer are left to be filled.
            pad = 32;
        }
        let ghost from = pad;
        let ghost before = bytes_mut_contents(*buffer);
        let mut i: u8 = pad;
        assert(filler(from as nat).take(0) =~= Seq::<u8>::empty());
        while i < 56
            invariant
                from <= i <= 56,
                before.len() + 56 - from <= max_buffer_len(),
                bytes_mut_contents(*buffer) == before + filler(from as nat).take(i - from),
            decreases 56 - i,
        {
            put_u8(buffer, i);
            assert(filler(from as nat).take(i + 1 - from) =~= filler(from as nat).take(i - from)
                + seq![i]);
            i = i + 1;
            assert(bytes_mut_contents(*buffer) =~= before + filler(from as nat).take(i - from));
        }
        assert(filler(from as nat).take(56 - from) =~= filler(from as nat));
        assert(bytes_mut_contents(*buffer) =~= start + self.encoding());
    }
}

proof fn powers_of_256()
    ensures
        pow256(8) == 0x1_0000_0000_0000_0000,
        pow256(16) == 0x1_0000_0000_0000_0000 * 0x1_0000_0000_0000_0000,
{
    reveal_with_fuel(pow256, 17);
}

pub(crate) proof fn ne_lengths(since_epoc: Duration, monotonic_instant: Option<Duration>)
    requires
        since_epoc.wf(),
    ensures
        ({
            let seconds = (since_epoc.nanos as int / 1_000_000_000) as nat;
            let micros = (since_epoc.nanos as int % 1_000_000_000 / 1000) as nat;
            &&& ne_bytes(seconds, 8).len() == 8
            &&& ne_value(ne_bytes(seconds, 8)) == seconds
            &&& ne_bytes(micros, 8).len() == 8
            &&& ne_value(ne_bytes(micros, 8)) == micros
            &&& monotonic_instant matches Some(instant) ==> {
                &&& ne_bytes(instant.nanos as nat, 16).len() == 16
                &&& ne_value(ne_bytes(instant.nanos as nat, 16)) == instant.nanos
            }
        }),
{
    powers_of_256();
    ne_round_trip((since_epoc.nanos as int / 1_000_000_000) as nat, 8);
    ne_round_trip((since_epoc.nanos as int % 1_000_000_000 / 1000) as nat, 8);
    if let Some(instant) = monotonic_instant {
        ne_round_trip(instant.nanos as nat, 16);
    }
}

/// Clock readings take fifty-six bytes, and reading them as they were written gives them back, the
/// time since the epoch to the microsecond. A reading of the monotonic clock is taken for none where
/// it is zero, the longest span, or looks like the filler.
pub proof fn unix_data_round_trip(data: EchoMessageDataUnix)
    requires
        data.since_epoc.wf(),
        data.monotonic_instant matches Some(instant) ==> 0 < instant.nanos < MAX_DURATION_NANOS
            && ne_bytes(instant.nanos as nat, 16) != filler(16).take(16),
    ensures
        data.encoding().len() == EchoMessageDataUnix::LENGTH,
        unix_data_in_range(data.encoding()),
        parse_unix(data.encoding()) == Ok::<EchoMessageDataUnix, (ErrorKind, Seq<char>)>(
            EchoMessageDataUnix {
                since_epoc: Duration {
                    nanos: (data.since_epoc.nanos - data.since_epoc.nanos % 1000) as u128,
                },
                ..data
            },
        ),
{
    ne_lengths(data.since_epoc, data.monotonic_instant);
    let nanos = data.since_epoc.nanos as int;
    let bytes = data.encoding();
    let seconds = ne_bytes((nanos / 1_000_000_000) as nat, 8);
    let micros = ne_bytes((nanos % 1_000_000_000 / 1000) as nat, 8);
    let third = match data.monotonic_instant {
        Some(instant) => ne_bytes(instant.nanos as nat, 16),
        None => filler(16).take(16),
    };
    assert(filler(16) =~= filler(16).take(16) + filler(32));
    assert(bytes == seconds + micros + (third + filler(32)));
    fields_at_their_places(seconds, micros, third, filler(32));
    micros_are_kept(nanos);
}

proof fn fields_at_their_places(a: Seq<u8>, b: Seq<u8>, c: Seq<u8>, rest: Seq<u8>)
    requires
        a.len() == 8,
        b.len() == 8,
        c.len() == 16,
    ensures
        (a + b + (c + rest)).len() == 32 + rest.len(),
        (a + b + (c + rest)).subrange(0, 8) == a,
        (a + b + (c + rest)).subrange(8, 16) == b,
        (a + b + (c + rest)).subrange(16, 32) == c,
{
    let all = a + b + (c + rest);
    assert(all.subrange(0, 8) =~= a);
    assert(all.subrange(8, 16) =~= b);
    assert(all.subrange(16, 32) =~= c);
}

proof fn micros_are_kept(nanos: int)
    requires
        nanos >= 0,
    ensures
        nanos / 1_000_000_000 * 1_000_000_000 + nanos % 1_000_000_000 / 1000 * 1000 == nanos - nanos
            % 1000,
        nanos % 1_000_000_000 / 1000 < 1_000_000,
{
    let rest = nanos % 1_000_000_000;
    lemma_fundamental_div_mod(nanos, 1_000_000_000);
    lemma_fundamental_div_mod(rest, 1000);
    lemma_mod_mod(nanos, 1000, 1_000_000);
    assert(rest / 1000 < 1_000_000) by (nonlinear_arith)
        requires
            0 <= rest < 1_000_000_000,
    ;
}

/// What an echo carries.
#[derive(Debug, PartialEq, Eq, Clone)]
pub enum EchoMessageData {
    Bytes(Bytes),
    UnixLike(EchoMessageDataUnix),
}

/// What an echo carries, with a buffer taken by its contents.
pub enum EchoDataView {
    Bytes(Seq<u8>),
    UnixLike(EchoMessageDataUnix),
}

impl View for EchoMessageData {
    type V = EchoDataView;

    open spec fn view(&self) -> EchoDataView {
        match self {
            EchoMessageData::Bytes(bytes) => EchoDataView::Bytes(bytes_contents(*bytes)),
            EchoMessageData::UnixLike(data) => EchoDataView::UnixLike(*data),
        }
    }
}

impl EchoDataView {
    pub open spec fn encoding(self) -> Seq<u8> {
        match self {
            EchoDataView::Bytes(bytes) => bytes,
            EchoDataView::UnixLike(data) => data.encoding(),
        }
    }
}

/// A request to be answered with the same data, or the answer.
#[derive(Debug, PartialEq, Eq, Clone)]
pub struct EchoMessage {
    pub identifier: u16,
    pub sequence_number: u16,
    pub data: EchoMessageData,
}

/// What an echo says.
pub struct EchoView {
    pub identifier: u16,
    pub sequence_number: u16,
    pub data: EchoDataView,
}

impl View for EchoMessage {
    type V = EchoView;

    open spec fn view(&self) -> EchoView {
        EchoView {
            identifier: self.identifier,
            sequence_number: self.sequence_number,
            data: self.data@,
        }
    }
}

/// The echo that a message of that type holds.
pub open spec fn parse_echo(bytes: Seq<u8>) -> EchoView {
    EchoView {
        identifier: be16_at(bytes, 4),
        sequence_number: be16_at(bytes, 6),
        data: EchoDataView::Bytes(bytes.skip(8)),
    }
}

impl EchoMessage {
    /// The number by which a sender tells its sessions.
    pub fn identifier(&self) -> (identifier: u16)
        ensures
            identifier == self@.identifier,
    {
        self.identifier
    }

    /// The number of the echo in its session.
    pub fn sequence_number(&self) -> (sequence_number: u16)
        ensures
            sequence_number == self@.sequence_number,
    {
        self.sequence_number
    }

    /// The clock readings that the echo carries.
    pub fn parse_unix_data(&self) -> (result: Result<EchoMessageDataUnix, Error>)
        requires
            self@.data matches EchoDataView::Bytes(bytes) ==> unix_data_in_range(bytes),
        ensures
            outcome(result) == (match self@.data {
                EchoDataView::UnixLike(data) => Ok(data),
                EchoDataView::Bytes(bytes) => parse_unix(bytes),
            }),
    {
        match &self.data {
            EchoMessageData::UnixLike(data) => Ok(*data),
            EchoMessageData::Bytes(bytes) => EchoMessageDataUnix::try_from(bytes),
        }
    }

    /// Reads an echo from the whole of its message.
    pub fn from_message(bytes: &Bytes) -> (message: Self)
        requires
            bytes_contents(*bytes).len() >= 8,
        ensures
            message@ == parse_echo(bytes_contents(*bytes)),
    {
        let slice = as_slice(bytes);
        let identifier: u16 = read_be16(slice, 4);
        let sequence_number: u16 = read_be16(slice, 6);
        let data = slice_bytes(bytes, 8, slice.len());
        assert(bytes_contents(data) =~= bytes_contents(*bytes).skip(8));
        EchoMessage { identifier, sequence_number, data: EchoMessageData::Bytes(data) }
    }

    /// Another handle to the same echo.
    fn duplicate(&self) -> (copy: Self)
        ensures
            copy@ == self@,
    {
        EchoMessage {
            identifier: self.identifier,
            sequence_number: self.sequence_number,
            data: match &self.data {
                EchoMessageData::Bytes(bytes) => EchoMessageData::Bytes(bytes.clone()),
                EchoMessageData::UnixLike(data) => EchoMessageData::UnixLike(*data),
            },
        }
    }
}

/// What a destination unreachable message says.
pub struct UnreachableView {
    pub code: DestinationUnreachableCode,
    pub ipv4header: IPv4Header,
    pub datagram: Seq<u8>,
}

impl View for DestinationUnreachableMessage {
    type V = UnreachableView;

    open spec fn view(&self) -> UnreachableView {
        UnreachableView {
            code: self.code,
            ipv4header: self.ipv4header,
            datagram: self.datagram@,
        }
    }
}

/// The destination unreachable message with the given code and data.
pub open spec fn parse_unreachable(code: u8, data: Seq<u8>) -> Result<
    UnreachableView,
    (ErrorKind, Seq<char>),
> {
    match parse_ipv4(data) {
        Err(error) => if error.0 == ErrorKind::UnexpectedEof {
            Err((ErrorKind::UnexpectedEof, "ICMP Payload truncated parsing IPv4 Header"@))
        } else {
            Err((error.0, caused_by("ICMP Payload IPv4 Header Parse Failed"@, error.1)))
        },
        Ok(header) => {
            let length = header.header_len.0 * 4;
            if data.len() < length + 8 {
                Err(
                    (
                        ErrorKind::UnexpectedEof,
                        "ICMP Payload truncated, missing or truncated datagram start"@,
                    ),
                )
            } else {
                match DestinationUnreachableCode::decode(code) {
                    Err(error) => Err(error),
                    Ok(code) => Ok(
                        UnreachableView {
                            code,
                            ipv4header: header,
                            datagram: data.subrange(length, length + 8),
                        },
                    ),
                }
            }
        },
    }
}

impl DestinationUnreachableMessage {
    /// Reads a message from its code and its data.
    pub fn try_from(code: u8, bytes: &Bytes) -> (result: Result<Self, Error>)
        requires
            ipv4_complete(bytes_contents(*bytes)),
        ensures
            match result {
                Ok(message) => parse_unreachable(code, bytes_contents(*bytes)) == Ok::<
                    _,
                    (ErrorKind, Seq<char>),
                >(message@),
                Err(error) => parse_unreachable(code, bytes_contents(*bytes)) == Err::<
                    UnreachableView,
                    _,
                >(error@),
            },
    {
        let ipv4header = match IPv4Header::from_bytes(bytes) {
            Ok(header) => header,
            Err(error) => {
                if error.kind() == ErrorKind::UnexpectedEof {
                    return Err(
                        Error::new(
                            ErrorKind::UnexpectedEof,
                            "ICMP Payload truncated parsing IPv4 Header",
                        ),
                    );
                }
                let mut message: String = "ICMP Payload IPv4 Header Parse Failed".to_owned();
                message.append(": ");
                message.append(error.message());
                return Err(Error { kind: error.kind(), message });
            },
        };
        let header_len: usize = ipv4header.header_len.byte_len() as usize;
        let slice = as_slice(bytes);
        if slice.len() < header_len + ICMP_PAYLOAD_DATAGRAM_PORTION_LENGTH {
            return Err(
                Error::new(
                    ErrorKind::UnexpectedEof,
                    "ICMP Payload truncated, missing or truncated datagram start",
                ),
            );
        }
        let datagram = [
            slice[header_len],
            slice[header_len + 1],
            slice[header_len + 2],
            slice[header_len + 3],
            slice[header_len + 4],
            slice[header_len + 5],
            slice[header_len + 6],
            slice[header_len + 7],
        ];
        assert(datagram@ =~= slice@.subrange(header_len as int, header_len + 8));
        match DestinationUnreachableCode::try_from(code) {
            Ok(code) => Ok(DestinationUnreachableMessage { code, ipv4header, datagram }),
            Err(error) => Err(error),
        }
    }
}

/// The kinds of messages.
#[derive(Debug, PartialEq, Eq, Clone)]
pub enum ICMPMessageTypes {
    EchoReply(EchoMessage),
    DestinationUnreachable(DestinationUnreachableMessage),
    SourceQuench(Bytes),
    Redirect(RedirectMessage),
    Echo(EchoMessage),
    TimeExceeded(TimeExceededMessage),
    ParameterProblem(ParameterProblemMessage),
}

/// What a message says, with buffers taken by their contents.
pub enum MessageView {
    EchoReply(EchoView),
    DestinationUnreachable(UnreachableView),
    SourceQuench(Seq<u8>),
    Redirect { code: RedirectMessageCode, gateway: Ipv4Addr, data: Seq<u8> },
    Echo(EchoView),
    TimeExceeded { reason: TimeExceededCode, data: Seq<u8> },
    ParameterProblem { pointer: u8, data: Seq<u8> },
}

impl View for ICMPMessageTypes {
    type V = MessageView;

    open spec fn view(&self) -> MessageView {
        match self {
            ICMPMessageTypes::EchoReply(m) => MessageView::EchoReply(m@),
            ICMPMessageTypes::DestinationUnreachable(m) => MessageView::DestinationUnreachable(m@),
            ICMPMessageTypes::SourceQuench(data) => MessageView::SourceQuench(
                bytes_contents(*data),
            ),
            ICMPMessageTypes::Redirect(m) => MessageView::Redirect {
                code: m.code,
                gateway: m.gateway,
                data: bytes_contents(m.data),
            },
            ICMPMessageTypes::Echo(m) => MessageView::Echo(m@),
            ICMPMessageTypes::TimeExceeded(m) => MessageView::TimeExceeded {
                reason: m.code,
                data: bytes_contents(m.data),
            },
            ICMPMessageTypes::ParameterProblem(m) => MessageView::ParameterProblem {
                pointer: m.pointer,
                data: bytes_contents(m.data),
            },
        }
    }
}

impl MessageView {
    /// The type of the message and its code.
    pub open spec fn type_and_code(self) -> (u8, u8) {
        match self {
            MessageView::EchoReply(_) => (0, 0),
            MessageView::DestinationUnreachable(m) => (3, m.code.encode()),
            MessageView::SourceQuench(_) => (4, 0),
            MessageView::Redirect { code, .. } => (5, code.encode()),
            MessageView::Echo(_) => (8, 0),
            MessageView::TimeExceeded { reason, .. } => (11, reason.encode()),
            MessageView::ParameterProblem { .. } => (12, 0),
        }
    }

    /// What is written behind the checksum.
    pub open spec fn body(self) -> Seq<u8> {
        match self {
            MessageView::EchoReply(m) | MessageView::Echo(m) => be16_bytes(m.identifier)
                + be16_bytes(m.sequence_number) + m.data.encoding(),
            MessageView::DestinationUnreachable(m) => m.ipv4header.encoding() + m.datagram,
            MessageView::SourceQuench(data) => data,
            MessageView::Redirect { data, .. } => data,
            MessageView::TimeExceeded { data, .. } => data,
            MessageView::ParameterProblem { data, .. } => data,
        }
    }

    /// The length that is reported: the four bytes up to the checksum, four more, and the data.
    /// Only an echo and its answer fill the four more, with their numbers. The others are written
    /// without them.
    pub open spec fn reported(self) -> nat {
        8 + match self {
            MessageView::EchoReply(m) | MessageView::Echo(m) => m.data.encoding().len(),
            MessageView::DestinationUnreachable(m) => m.ipv4header.length() + m.datagram.len(),
            MessageView::SourceQuench(data) => data.len(),
            MessageView::Redirect { data, .. } => data.len(),
            MessageView::TimeExceeded { data, .. } => data.len(),
            MessageView::ParameterProblem { data, .. } => data.len(),
        }
    }

    /// The checksum that is written.
    pub open spec fn written_checksum(self) -> u16 {
        let (kind, code) = self.type_and_code();
        checksum_of(seq![kind, code, 0u8, 0u8] + self.body())
    }

    /// The bytes that are written.
    pub open spec fn wire(self) -> Seq<u8> {
        let (kind, code) = self.type_and_code();
        seq![kind, code] + be16_bytes(self.written_checksum()) + self.body()
    }

    /// Whether the message can be written: clock readings and the header of a datagram have a wire
    /// format, and the bytes fit in a buffer.
    pub open spec fn writable(self) -> bool {
        &&& match self {
            MessageView::EchoReply(m) | MessageView::Echo(m) => m.data matches EchoDataView::UnixLike(
                data,
            ) ==> data.encodable(),
            MessageView::DestinationUnreachable(m) => m.ipv4header.encodable(),
            _ => true,
        }
        &&& self.body().len() + 4 <= MAX_CHECKSUMMED
        &&& self.body().len() + 4 <= max_buffer_len()
        &&& self.reported() <= max_buffer_len()
    }
}

/// A message.
#[derive(Debug, PartialEq, Eq, Clone)]
pub struct ICMPMessage {
    /// The checksum that was read. On writing the checksum is computed.
    pub checksum: u16,
    pub message: ICMPMessageTypes,
}

/// What a message says, and the checksum that was read.
pub struct ICMPView {
    pub checksum: u16,
    pub message: MessageView,
}

impl View for ICMPMessage {
    type V = ICMPView;

    open spec fn view(&self) -> ICMPView {
        ICMPView { checksum: self.checksum, message: self.message@ }
    }
}

/// The checksum of a message with zero in place of its checksum.
pub open spec fn checksum_of_message(bytes: Seq<u8>) -> u16 {
    checksum_of(bytes.take(2) + seq![0u8, 0u8] + bytes.skip(4))
}

/// Whether a message is one that can be looked at: not too long to be checksummed, and with a
/// datagram that can be looked at where it should hold one.
pub open spec fn icmp_complete(bytes: Seq<u8>) -> bool {
    &&& bytes.len() <= MAX_CHECKSUMMED
    &&& bytes.len() >= 8 && be16_at(bytes, 2) == checksum_of_message(bytes) && bytes[0] == 3
        ==> ipv4_complete(bytes.skip(8))
}

/// Whether a message is one that can be looked at.
pub fn is_icmp_complete(bytes: &[u8]) -> (result: bool)
    requires
        bytes@.len() <= MAX_CHECKSUMMED,
    ensures
        result == icmp_complete(bytes@),
{
    if bytes.len() < 8 || bytes[0] != 3 {
        return true;
    }
    if read_be16(bytes, 2) != compute_message_checksum(bytes) {
        return true;
    }
    let data = slice_subrange(bytes, 8, bytes.len());
    assert(data@ =~= bytes@.skip(8));
    is_ipv4_complete(data)
}

/// Computes the checksum of a message with zero in place of its checksum.
fn compute_message_checksum(bytes: &[u8]) -> (checksum: u16)
    requires
        4 <= bytes@.len() <= MAX_CHECKSUMMED,
    ensures
        checksum == checksum_of_message(bytes@),
{
    let mut sum = Summation::new();
    sum.add_bytes(slice_subrange(bytes, 0, 2));
    sum.add_bytes(&[0u8, 0u8]);
    sum.add_bytes(slice_subrange(bytes, 4, bytes.len()));
    assert(sum@ =~= bytes@.take(2) + seq![0u8, 0u8] + bytes@.skip(4));
    sum.finish()
}

/// What a message whose checksum is right says.
pub open spec fn parse_message(bytes: Seq<u8>) -> Result<MessageView, (ErrorKind, Seq<char>)> {
    let code = bytes[1];
    let data = bytes.skip(8);
    match bytes[0] {
        0 => Ok(MessageView::EchoReply(parse_echo(bytes))),
        3 => match parse_unreachable(code, data) {
            Ok(message) => Ok(MessageView::DestinationUnreachable(message)),
            Err(error) => Err(error),
        },
        4 => Ok(MessageView::SourceQuench(data)),
        5 => match RedirectMessageCode::decode(code) {
            Ok(code) => Ok(MessageView::Redirect { code, gateway: ipv4_at(bytes, 4), data }),
            Err(error) => Err(error),
        },
        8 => Ok(MessageView::Echo(parse_echo(bytes))),
        11 => match TimeExceededCode::decode(code) {
            Ok(reason) => Ok(MessageView::TimeExceeded { reason, data }),
            Err(error) => Err(error),
        },
        12 => Ok(MessageView::ParameterProblem { pointer: bytes[5], data }),
        _ => Err((ErrorKind::InvalidInput, "Invalid ICMP Message"@)),
    }
}

/// The message that the bytes hold.
pub open spec fn parse_icmp(bytes: Seq<u8>) -> Result<ICMPView, (ErrorKind, Seq<char>)> {
    if bytes.len() < 8 {
        Err((ErrorKind::UnexpectedEof, "ICMP Payload truncated parsing"@))
    } else if be16_at(bytes, 2) != checksum_of_message(bytes) {
        Err((ErrorKind::InvalidData, "ICMP Payload checksum mismatch"@))
    } else {
        match parse_message(bytes) {
            Ok(message) => Ok(ICMPView { checksum: be16_at(bytes, 2), message }),
            Err(error) => Err(error),
        }
    }
}

impl ICMPMessage {
    /// A request to be answered, with clock readings.
    pub fn new_echo_request(identifier: u16, sequence: u16, data: EchoMessageDataUnix) -> (message:
        Self)
        ensures
            message@ == (ICMPView {
                checksum: 0,
                message: MessageView::Echo(
                    EchoView {
                        identifier,
                        sequence_number: sequence,
                        data: EchoDataView::UnixLike(data),
                    },
                ),
            }),
    {
        ICMPMessage {
            checksum: 0,
            message: ICMPMessageTypes::Echo(
                EchoMessage {
                    identifier,
                    sequence_number: sequence,
                    data: EchoMessageData::UnixLike(data),
                },
            ),
        }
    }

    /// The answer to an echo: the same identifier, sequence number and data.
    pub fn echo_reply(original: &EchoMessage) -> (message: Self)
        ensures
            message@ == (ICMPView { checksum: 0, message: MessageView::EchoReply(original@) }),
    {
        ICMPMessage { checksum: 0, message: ICMPMessageTypes::EchoReply(original.duplicate()) }
    }

    /// Reads a message.
    pub fn from_bytes(bytes: &Bytes) -> (result: Result<Self, Error>)
        requires
            icmp_complete(bytes_contents(*bytes)),
        ensures
            match result {
                Ok(message) => parse_icmp(bytes_contents(*bytes)) == Ok::<
                    _,
                    (ErrorKind, Seq<char>),
                >(message@),
                Err(error) => parse_icmp(bytes_contents(*bytes)) == Err::<ICMPView, _>(error@),
            },
    {
        let slice = as_slice(bytes);
        if slice.len() < 8 {
            return Err(Error::new(ErrorKind::UnexpectedEof, "ICMP Payload truncated parsing"));
        }
        let checksum: u16 = read_be16(slice, 2);
        if checksum != compute_message_checksum(slice) {
            return Err(Error::new(ErrorKind::InvalidData, "ICMP Payload checksum mismatch"));
        }
        let code: u8 = slice[1];
        let data = slice_bytes(bytes, 8, slice.len());
        assert(bytes_contents(data) =~= bytes_contents(*bytes).skip(8));
        let message = match slice[0] {
            0 => ICMPMessageTypes::EchoReply(EchoMessage::from_message(bytes)),
            3 => match DestinationUnreachableMessage::try_from(code, &data) {
                Ok(message) => ICMPMessageTypes::DestinationUnreachable(message),
                Err(error) => {
                    return Err(error);
                },
            },
            4 => ICMPMessageTypes::SourceQuench(data),
            5 => match RedirectMessageCode::try_from(code) {
                Ok(code) => ICMPMessageTypes::Redirect(
                    RedirectMessage { code, gateway: Ipv4Addr::read(slice, 4), data },
                ),
                Err(error) => {
                    return Err(error);
                },
            },
            8 => ICMPMessageTypes::Echo(EchoMessage::from_message(bytes)),
            11 => match TimeExceededCode::try_from(code) {
                Ok(code) => ICMPMessageTypes::TimeExceeded(TimeExceededMessage { code, data }),
                Err(error) => {
                    return Err(error);
                },
            },
            12 => ICMPMessageTypes::ParameterProblem(
                ParameterProblemMessage { pointer: slice[5], data },
            ),
            _ => {
                return Err(Error::new(ErrorKind::InvalidInput, "Invalid ICMP Message"));
            },
        };
        Ok(ICMPMessage { checksum, message })
    }

    /// The type of the message and its code.
    pub fn type_and_code_u8(&self) -> (result: (u8, u8))
        ensures
            result == self.message@.type_and_code(),
    {
        match &self.message {
            ICMPMessageTypes::EchoReply(_) => (0, 0),
            ICMPMessageTypes::DestinationUnreachable(m) => (3, m.code.code()),
            ICMPMessageTypes::SourceQuench(_) => (4, 0),
            ICMPMessageTypes::Redirect(m) => (5, m.code.code()),
            ICMPMessageTypes::Echo(_) => (8, 0),
            ICMPMessageTypes::TimeExceeded(m) => (11, m.code.code()),
            ICMPMessageTypes::ParameterProblem(_) => (12, 0),
        }
    }

    /// Appends an echo as it stands behind the checksum.
    fn put_echo(echo: &EchoMessage, buffer: &mut BytesMut)
        requires
            echo@.data matches EchoDataView::UnixLike(data) ==> data.encodable(),
            has_room(*old(buffer), 4 + echo@.data.encoding().len()),
        ensures
            bytes_mut_contents(*final(buffer)) == bytes_mut_contents(*old(buffer)) + (be16_bytes(
                echo@.identifier,
            ) + be16_bytes(echo@.sequence_number) + echo@.data.encoding()),
    {
        put_u16(buffer, echo.identifier);
        put_u16(buffer, echo.sequence_number);
        match &echo.data {
            EchoMessageData::Bytes(bytes) => put_slice(buffer, as_slice(bytes)),
            EchoMessageData::UnixLike(data) => data.write_to_buffer(buffer),
        }
        assert(bytes_mut_contents(*buffer) =~= bytes_mut_contents(*old(buffer)) + (be16_bytes(
            echo@.identifier,
        ) + be16_bytes(echo@.sequence_number) + echo@.data.encoding()));
    }

    /// What is written behind the checksum.
    fn write_body(&self) -> (body: Bytes)
        requires
            self.message@.writable(),
        ensures
            bytes_contents(body) == self.message@.body(),
    {
        let mut packet = buffer_with_capacity(self.encoded_length());
        match &self.message {
            ICMPMessageTypes::Echo(m) => Self::put_echo(m, &mut packet),
            ICMPMessageTypes::EchoReply(m) => Self::put_echo(m, &mut packet),
            ICMPMessageTypes::DestinationUnreachable(m) => {
                m.ipv4header.write_to_buffer(&mut packet);
                put_slice(&mut packet, &m.datagram);
            },
            ICMPMessageTypes::SourceQuench(data) => put_slice(&mut packet, as_slice(data)),
            ICMPMessageTypes::Redirect(m) => put_slice(&mut packet, as_slice(&m.data)),
            ICMPMessageTypes::TimeExceeded(m) => put_slice(&mut packet, as_slice(&m.data)),
            ICMPMessageTypes::ParameterProblem(m) => put_slice(&mut packet, as_slice(&m.data)),
        }
        assert(bytes_mut_contents(packet) =~= self.message@.body());
        freeze(packet)
    }
}

/// Whether a message is an echo, or the answer to one.
pub open spec fn is_echo(message: MessageView) -> bool {
    message is Echo || message is EchoReply
}

/// An echo, or the answer to one, is written in as many bytes as are reported, and all other
/// messages in four fewer.
pub proof fn icmp_wire_length(message: MessageView)
    requires
        message.writable(),
    ensures
        message.wire().len() == 4 + message.body().len(),
        is_echo(message) ==> message.wire().len() == message.reported(),
        !is_echo(message) ==> message.wire().len() == message.reported() - 4,
{
    broadcast use be16_round_trip;

    match message {
        MessageView::EchoReply(m) | MessageView::Echo(m) => if let EchoDataView::UnixLike(data) =
            m.data {
            ne_lengths(data.since_epoc, data.monotonic_instant);
        },
        MessageView::DestinationUnreachable(m) => {
            ipv4_header_length(m.ipv4header);
        },
        _ => {},
    }
}

impl WriteToBuffer for ICMPMessage {
    open spec fn encoding(&self) -> Seq<u8> {
        self.message@.wire()
    }

    open spec fn reported(&self) -> nat {
        self.message@.reported()
    }

    open spec fn encodable(&self) -> bool {
        self.message@.writable()
    }

    fn encoded_length(&self) -> (length: usize) {
        proof {
            icmp_wire_length(self.message@);
        }
        8 + match &self.message {
            ICMPMessageTypes::EchoReply(m) => match &m.data {
                EchoMessageData::Bytes(bytes) => bytes.encoded_length(),
                EchoMessageData::UnixLike(data) => data.encoded_length(),
            },
            ICMPMessageTypes::Echo(m) => match &m.data {
                EchoMessageData::Bytes(bytes) => bytes.encoded_length(),
                EchoMessageData::UnixLike(data) => data.encoded_length(),
            },
            ICMPMessageTypes::DestinationUnreachable(m) => m.ipv4header.encoded_length()
                + ICMP_PAYLOAD_DATAGRAM_PORTION_LENGTH,
            ICMPMessageTypes::SourceQuench(data) => data.encoded_length(),
            ICMPMessageTypes::Redirect(m) => m.data.encoded_length(),
            ICMPMessageTypes::TimeExceeded(m) => m.data.encoded_length(),
            ICMPMessageTypes::ParameterProblem(m) => m.data.encoded_length(),
        }
    }

    fn write_to_buffer(&self, buffer: &mut BytesMut) {
        let (icmp_type, code) = self.type_and_code_u8();
        let body = self.write_body();
        let body_slice = as_slice(&body);
        let mut sum = Summation::new();
        sum.add_bytes(&[icmp_type, code, 0, 0]);
        sum.add_bytes(body_slice);
        assert(sum@ =~= seq![icmp_type, code, 0u8, 0u8] + self.message@.body());
        let checksum: u16 = sum.finish();
        put_u8(buffer, icmp_type);
        put_u8(buffer, code);
        put_u16(buffer, checksum);
        put_slice(buffer, body_slice);
        assert(bytes_mut_contents(*buffer) =~= bytes_mut_contents(*old(buffer)) + self.encoding());
    }
}

/// What is read of an echo as it was written: the same echo, with what it carried as bytes.
pub open spec fn as_read(message: MessageView) -> MessageView {
    match message {
        MessageView::Echo(echo) => MessageView::Echo(
            EchoView { data: EchoDataView::Bytes(echo.data.encoding()), ..echo },
        ),
        MessageView::EchoReply(echo) => MessageView::EchoReply(
            EchoView { data: EchoDataView::Bytes(echo.data.encoding()), ..echo },
        ),
        _ => message,
    }
}

/// Reading an echo, or the answer to one, as it was written gives it back, with what it carried as
/// bytes and its checksum filled in.
pub proof fn icmp_echo_round_trip(message: MessageView)
    requires
        message.writable(),
        is_echo(message),
    ensures
        icmp_complete(message.wire()),
        parse_icmp(message.wire()) == Ok::<ICMPView, (ErrorKind, Seq<char>)>(
            ICMPView { checksum: message.written_checksum(), message: as_read(message) },
        ),
{
    broadcast use be16_round_trip;

    icmp_wire_length(message);
    let bytes = message.wire();
    let body = message.body();
    let (kind, code) = message.type_and_code();
    let checksum = be16_bytes(message.written_checksum());
    assert(bytes[2] == checksum[0] && bytes[3] == checksum[1]);
    assert(bytes.take(2) + seq![0u8, 0u8] + bytes.skip(4) =~= seq![kind, code, 0u8, 0u8] + body);
    assert(bytes[4] == body[0] && bytes[5] == body[1] && bytes[6] == body[2] && bytes[7]
        == body[3]);
    match message {
        MessageView::EchoReply(echo) | MessageView::Echo(echo) => {
            let identifier = be16_bytes(echo.identifier);
            let sequence = be16_bytes(echo.sequence_number);
            assert(body[0] == identifier[0] && body[1] == identifier[1] && body[2] == sequence[0]
                && body[3] == sequence[1]);
            assert(bytes.skip(8) =~= echo.data.encoding());
        },
        _ => {},
    }
}

/// An echo with clock readings can be written, and takes sixty-four bytes.
pub proof fn echo_wire_length(
    message: MessageView,
    identifier: u16,
    sequence_number: u16,
    clock: EchoMessageDataUnix,
)
    requires
        clock.since_epoc.wf(),
        message == MessageView::Echo(
            EchoView { identifier, sequence_number, data: EchoDataView::UnixLike(clock) },
        ),
    ensures
        message.writable(),
        message.wire().len() == 64,
{
    broadcast use be16_round_trip;

    ne_lengths(clock.since_epoc, clock.monotonic_instant);
}

/// The answer to an echo that was read can be written.
pub proof fn parsed_echo_is_writable(bytes: Seq<u8>, echo: EchoView)
    requires
        bytes.len() <= 65535,
        parse_icmp(bytes) matches Ok(icmp) && icmp.message == MessageView::Echo(echo),
    ensures
        MessageView::EchoReply(echo).writable(),
        MessageView::EchoReply(echo).wire().len() == bytes.len(),
{
    broadcast use be16_round_trip;

}

} // verus!
