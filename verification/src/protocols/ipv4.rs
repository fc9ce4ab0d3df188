//! The internet layer header.

pub mod dhcp;
pub mod icmp;

use crate::buffer::{
    as_slice, be16_at, be16_bytes, be16_round_trip, bytes_contents, bytes_mut_contents, put_slice,
    put_u16, put_u8, read_be16,
};
use crate::checksum::{checksum_of, Summation};
use crate::common::{outcome, Error, ErrorKind};
use crate::net::{ipv4_at, ipv4_round_trip, Ipv4Addr};
use crate::random::u16_between;
use crate::write_to_buffer::WriteToBuffer;
use bytes::{Bytes, BytesMut};
use vstd::prelude::*;
use vstd::slice::slice_subrange;

verus! {

/// The length of a header in words of four bytes. On the wire it takes four bits.
#[derive(Debug, PartialEq, Eq, Clone, Copy, Structural)]
pub struct IPv4HeaderLengthWords(pub u8);

impl IPv4HeaderLengthWords {
    pub open spec fn decode(input: u8) -> Self {
        IPv4HeaderLengthWords(input % 16)
    }

    /// The length in bytes.
    pub open spec fn spec_byte_len(&self) -> u16 {
        (self.0 * 4) as u16
    }

    /// The byte with `input` in its high four bits and this length in its low four bits.
    pub fn to_byte(&self, input: u8) -> (byte: u8)
        ensures
            byte == input % 16 * 16 + self.0 % 16,
    {
        input % 16 * 16 + self.0 % 16
    }

    /// The length in bytes.
    #[verifier::when_used_as_spec(spec_byte_len)]
    pub fn byte_len(&self) -> (length: u16)
        ensures
            length == self.0 * 4,
            length == self.spec_byte_len(),
    {
        self.0 as u16 * 4
    }

    /// The length in the low four bits of a byte.
    pub fn from_byte(input: u8) -> (length: Self)
        ensures
            length == Self::decode(input),
    {
        IPv4HeaderLengthWords(input % 16)
    }
}

/// How important a datagram is.
#[derive(Debug, PartialEq, Eq, Clone, Copy, Structural)]
pub enum TypeOfServicePrecedence {
    NetworkControl,
    InternetworkControl,
    CriticalAndEmergencyCallProcessing,
    FlashOverride,
    Flash,
    Immediate,
    Priority,
    Routine,
}

impl TypeOfServicePrecedence {
    /// The precedence in the high three bits of a byte.
    pub open spec fn decode(input: u8) -> Self {
        match input / 32 {
            0 => TypeOfServicePrecedence::Routine,
            1 => TypeOfServicePrecedence::Priority,
            2 => TypeOfServicePrecedence::Immediate,
            3 => TypeOfServicePrecedence::Flash,
            4 => TypeOfServicePrecedence::FlashOverride,
            5 => TypeOfServicePrecedence::CriticalAndEmergencyCallProcessing,
            6 => TypeOfServicePrecedence::InternetworkControl,
            _ => TypeOfServicePrecedence::NetworkControl,
        }
    }

    /// This precedence in the high three bits of a byte.
    pub open spec fn encode(self) -> u8 {
        match self {
            TypeOfServicePrecedence::NetworkControl => 0b1110_0000,
            TypeOfServicePrecedence::InternetworkControl => 0b1100_0000,
            TypeOfServicePrecedence::CriticalAndEmergencyCallProcessing => 0b1010_0000,
            TypeOfServicePrecedence::FlashOverride => 0b1000_0000,
            TypeOfServicePrecedence::Flash => 0b0110_0000,
            TypeOfServicePrecedence::Immediate => 0b0100_0000,
            TypeOfServicePrecedence::Priority => 0b0010_0000,
            TypeOfServicePrecedence::Routine => 0b0000_0000,
        }
    }

    /// The precedence in the high three bits of a byte.
    pub fn from_byte(input: u8) -> (precedence: Self)
        ensures
            precedence == Self::decode(input),
    {
        match input / 32 {
            0 => TypeOfServicePrecedence::Routine,
            1 => TypeOfServicePrecedence::Priority,
            2 => TypeOfServicePrecedence::Immediate,
            3 => TypeOfServicePrecedence::Flash,
            4 => TypeOfServicePrecedence::FlashOverride,
            5 => TypeOfServicePrecedence::CriticalAndEmergencyCallProcessing,
            6 => TypeOfServicePrecedence::InternetworkControl,
            _ => TypeOfServicePrecedence::NetworkControl,
        }
    }

    /// This precedence in the high three bits of a byte.
    pub fn to_byte(&self) -> (byte: u8)
        ensures
            byte == self.encode(),
    {
        match *self {
            TypeOfServicePrecedence::NetworkControl => 0b1110_0000,
            TypeOfServicePrecedence::InternetworkControl => 0b1100_0000,
            TypeOfServicePrecedence::CriticalAndEmergencyCallProcessing => 0b1010_0000,
            TypeOfServicePrecedence::FlashOverride => 0b1000_0000,
            TypeOfServicePrecedence::Flash => 0b0110_0000,
            TypeOfServicePrecedence::Immediate => 0b0100_0000,
            TypeOfServicePrecedence::Priority => 0b0010_0000,
            TypeOfServicePrecedence::Routine => 0b0000_0000,
        }
    }
}

/// The quality of service that a datagram asks for.
///
/// ```text
///    0     1     2     3     4     5     6     7
/// +-----+-----+-----+-----+-----+-----+-----+-----+
/// |   PRECEDENCE    |  D  |  T  |  R  |  0  |  0  |
/// +-----+-----+-----+-----+-----+-----+-----+-----+
/// ```
#[derive(Debug, PartialEq, Eq, Clone, Copy, Structural)]
pub struct TypeOfService {
    pub precedence: TypeOfServicePrecedence,
    pub low_delay: bool,
    pub high_throughput: bool,
    pub high_reliability: bool,
}

impl TypeOfService {
    pub open spec fn decode(input: u8) -> Self {
        TypeOfService {
            precedence: TypeOfServicePrecedence::decode(input),
            low_delay: input / 16 % 2 == 1,
            high_throughput: input / 8 % 2 == 1,
            high_reliability: input / 4 % 2 == 1,
        }
    }

    pub open spec fn encode(self) -> u8 {
        (self.precedence.encode() + (if self.low_delay {
            16int
        } else {
            0
        }) + (if self.high_throughput {
            8int
        } else {
            0
        }) + (if self.high_reliability {
            4int
        } else {
            0
        })) as u8
    }

    /// Reads the field. Its two low bits are passed over.
    pub fn parse(input: u8) -> (service: Self)
        ensures
            service == Self::decode(input),
    {
        TypeOfService {
            precedence: TypeOfServicePrecedence::from_byte(input),
            low_delay: input / 16 % 2 == 1,
            high_throughput: input / 8 % 2 == 1,
            high_reliability: input / 4 % 2 == 1,
        }
    }

    /// The value of the field.
    pub fn to_byte(&self) -> (byte: u8)
        ensures
            byte == self.encode(),
    {
        let delay: u8 = if self.low_delay { 16 } else { 0 };
        let throughput: u8 = if self.high_throughput { 8 } else { 0 };
        let reliability: u8 = if self.high_reliability { 4 } else { 0 };
        self.precedence.to_byte() + delay + throughput + reliability
    }
}

/// Reading the type of service as it was written gives it back, and writing one that was read
/// gives the byte back with its two low bits cleared.
pub proof fn type_of_service_round_trip(service: TypeOfService, byte: u8)
    ensures
        TypeOfService::decode(service.encode()) == service,
        TypeOfService::decode(byte).encode() == byte - byte % 4,
{
    let p: int = service.precedence.encode() as int / 32;
    let d: int = if service.low_delay { 1 } else { 0 };
    let t: int = if service.high_throughput { 1 } else { 0 };
    let r: int = if service.high_reliability { 1 } else { 0 };
    let value: int = service.encode() as int;
    assert(0 <= p < 8 && service.precedence.encode() == 32 * p);
    assert(value == 32 * p + 16 * d + 8 * t + 4 * r);
    assert(value / 32 == p);
    assert(value / 16 == 2 * p + d);
    assert(value / 8 == 4 * p + 2 * d + t);
    assert(value / 4 == 8 * p + 4 * d + 2 * t + r);
    let b: int = byte as int;
    assert(TypeOfServicePrecedence::decode(byte).encode() == b / 32 * 32);
    assert(b / 4 == 2 * (b / 8) + b / 4 % 2);
    assert(b / 8 == 2 * (b / 16) + b / 8 % 2);
    assert(b / 16 == 2 * (b / 32) + b / 16 % 2);
}

/// Where a fragment belongs.
///
/// ```text
///    0   1   2   3                                                  15
/// +---+---+---+-----------------------------------------------------+
/// | 0 | DF| MF|                    Fragment Offset                  |
/// +---+---+---+-----------------------------------------------------+
/// ```
#[derive(Debug, PartialEq, Eq, Clone, Copy, Structural)]
pub struct FragmentDetails {
    pub identification: u16,
    pub do_not_fragment: bool,
    pub more_fragments: bool,
    /// The position of the fragment, in units of eight bytes.
    pub offset: u16,
}

impl FragmentDetails {
    pub const OFFSET_MAX: u16 = 0x1fff;

    /// The details in the four bytes at a position.
    pub open spec fn decode_at(bytes: Seq<u8>, at: int) -> Self {
        FragmentDetails {
            identification: be16_at(bytes, at),
            do_not_fragment: bytes[at + 2] / 64 % 2 == 1,
            more_fragments: bytes[at + 2] / 32 % 2 == 1,
            offset: be16_at(bytes, at + 2) % 0x2000,
        }
    }

    /// The flags and the offset.
    pub open spec fn flags_and_offset(self) -> u16 {
        ((if self.do_not_fragment {
            0x4000int
        } else {
            0
        }) + (if self.more_fragments {
            0x2000int
        } else {
            0
        }) + self.offset % 0x2000) as u16
    }

    /// Reads the details in the four bytes at a position.
    pub fn read(bytes: &[u8], at: usize) -> (details: Self)
        requires
            at + 4 <= bytes@.len(),
        ensures
            details == Self::decode_at(bytes@, at as int),
    {
        assert(at + 4 <= bytes.len());
        FragmentDetails {
            identification: read_be16(bytes, at),
            do_not_fragment: bytes[at + 2] / 64 % 2 == 1,
            more_fragments: bytes[at + 2] / 32 % 2 == 1,
            offset: read_be16(bytes, at + 2) % 0x2000,
        }
    }
}

impl WriteToBuffer for FragmentDetails {
    open spec fn encoding(&self) -> Seq<u8> {
        be16_bytes(self.identification) + be16_bytes(self.flags_and_offset())
    }

    open spec fn reported(&self) -> nat {
        self.encoding().len()
    }

    open spec fn encodable(&self) -> bool {
        true
    }

    fn encoded_length(&self) -> (length: usize) {
        4
    }

    fn write_to_buffer(&self, buffer: &mut BytesMut) {
        put_u16(buffer, self.identification);
        let mut raw: u16 = 0;
        if self.do_not_fragment {
            raw = raw + 0x4000;
        }
        if self.more_fragments {
            raw = raw + 0x2000;
        }
        raw = raw + self.offset % 0x2000;
        put_u16(buffer, raw);
        assert(bytes_mut_contents(*buffer) =~= bytes_mut_contents(*old(buffer)) + self.encoding());
    }
}

/// Reading fragment details as they were written gives them back, where the offset fits its
/// thirteen bits.
pub proof fn fragment_details_round_trip(details: FragmentDetails)
    requires
        details.offset <= FragmentDetails::OFFSET_MAX,
    ensures
        details.encoding().len() == 4,
        FragmentDetails::decode_at(details.encoding(), 0) == details,
{
    broadcast use be16_round_trip;

    let raw = details.flags_and_offset();
    assert(details.encoding()[2] == be16_bytes(raw)[0]);
    assert(details.encoding()[3] == be16_bytes(raw)[1]);
    assert(be16_at(details.encoding(), 2) == raw);
    assert(be16_at(details.encoding(), 0) == details.identification);
    let high: int = raw as int / 256;
    assert(high / 64 == raw as int / 0x4000);
    assert(high / 32 == raw as int / 0x2000);
}

/// What a datagram carries.
#[derive(Debug, PartialEq, Eq, Clone, Copy, Structural)]
pub enum IPProtocolTypes {
    ICMP,
    TCP,
    UDP,
    Other(u8),
}

impl IPProtocolTypes {
    pub open spec fn decode(value: u8) -> Self {
        match value {
            1 => IPProtocolTypes::ICMP,
            6 => IPProtocolTypes::TCP,
            17 => IPProtocolTypes::UDP,
            _ => IPProtocolTypes::Other(value),
        }
    }

    pub open spec fn encode(self) -> u8 {
        match self {
            IPProtocolTypes::ICMP => 1,
            IPProtocolTypes::TCP => 6,
            IPProtocolTypes::UDP => 17,
            IPProtocolTypes::Other(value) => value,
        }
    }

    /// The protocol that a value stands for.
    pub fn from_code(value: u8) -> (protocol: Self)
        ensures
            protocol == Self::decode(value),
    {
        match value {
            1 => IPProtocolTypes::ICMP,
            6 => IPProtocolTypes::TCP,
            17 => IPProtocolTypes::UDP,
            _ => IPProtocolTypes::Other(value),
        }
    }

    /// The value that stands for this protocol.
    pub fn code(&self) -> (value: u8)
        ensures
            value == self.encode(),
    {
        match *self {
            IPProtocolTypes::ICMP => 1,
            IPProtocolTypes::TCP => 6,
            IPProtocolTypes::UDP => 17,
            IPProtocolTypes::Other(value) => value,
        }
    }
}

/// Reading the number of a protocol and writing it gives the number back.
pub proof fn protocol_round_trip(value: u8)
    ensures
        IPProtocolTypes::decode(value).encode() == value,
{
}

/// The header of a datagram, without options.
///
/// ```text
///  0               1               2               3
///  0 1 2 3 4 5 6 7 0 1 2 3 4 5 6 7 0 1 2 3 4 5 6 7 0 1 2 3 4 5 6 7
/// +-+-+-+-+-+-+-+-+-+-+-+-+-+-+-+-+-+-+-+-+-+-+-+-+-+-+-+-+-+-+-+-+
/// |Version|  IHL  |Type of Service|          Total Length         |
/// +-+-+-+-+-+-+-+-+-+-+-+-+-+-+-+-+-+-+-+-+-+-+-+-+-+-+-+-+-+-+-+-+
/// |         Identification        |Flags|      Fragment Offset    |
/// +-+-+-+-+-+-+-+-+-+-+-+-+-+-+-+-+-+-+-+-+-+-+-+-+-+-+-+-+-+-+-+-+
/// |  Time to Live |    Protocol   |         Header Checksum       |
/// +-+-+-+-+-+-+-+-+-+-+-+-+-+-+-+-+-+-+-+-+-+-+-+-+-+-+-+-+-+-+-+-+
/// |                       Source Address                          |
/// +-+-+-+-+-+-+-+-+-+-+-+-+-+-+-+-+-+-+-+-+-+-+-+-+-+-+-+-+-+-+-+-+
/// |                    Destination Address                        |
/// +-+-+-+-+-+-+-+-+-+-+-+-+-+-+-+-+-+-+-+-+-+-+-+-+-+-+-+-+-+-+-+-+
/// ```
#[derive(Debug, PartialEq, Eq, Clone, Copy, Structural)]
pub struct IPv4Header {
    pub header_len: IPv4HeaderLengthWords,
    pub type_of_service: TypeOfService,
    pub total_length: u16,
    pub fragment_details: FragmentDetails,
    pub time_to_live: u8,
    pub protocol: IPProtocolTypes,
    /// The checksum that was read. On writing the checksum is computed.
    pub header_checksum: u16,
    pub source_address: Ipv4Addr,
    pub destination_address: Ipv4Addr,
}

/// The length in bytes that a header announces.
pub open spec fn announced_length(bytes: Seq<u8>) -> int {
    bytes[0] % 16 * 4
}

/// The checksum of a header with zero in place of its checksum.
pub open spec fn checksum_of_header(bytes: Seq<u8>) -> u16 {
    checksum_of(bytes.take(10) + seq![0u8, 0u8] + bytes.subrange(12, announced_length(bytes)))
}

/// Whether the fields of a header are there to be looked at: there is a first byte, and a header
/// that holds all the bytes that it announces announces its checksum and, if that is right, is
/// long enough for both addresses.
pub open spec fn ipv4_complete(bytes: Seq<u8>) -> bool {
    &&& bytes.len() > 0
    &&& bytes[0] / 16 == 4 && bytes.len() >= announced_length(bytes) ==> {
        &&& announced_length(bytes) >= 12
        &&& be16_at(bytes, 10) == checksum_of_header(bytes) ==> bytes.len() >= 20
    }
}

/// Whether the fields of a header are there to be looked at.
pub fn is_ipv4_complete(bytes: &[u8]) -> (result: bool)
    ensures
        result == ipv4_complete(bytes@),
{
    if bytes.len() == 0 {
        return false;
    }
    let announced: usize = (bytes[0] % 16) as usize * 4;
    if bytes[0] / 16 != 4 || bytes.len() < announced {
        return true;
    }
    if announced < 12 {
        return false;
    }
    bytes.len() >= 20 || read_be16(bytes, 10) != compute_header_checksum(bytes, announced)
}

/// Computes the checksum of a header with zero in place of its checksum.
fn compute_header_checksum(bytes: &[u8], announced: usize) -> (checksum: u16)
    requires
        announced == announced_length(bytes@),
        12 <= announced <= bytes@.len(),
    ensures
        checksum == checksum_of_header(bytes@),
{
    let mut checksum = Summation::new();
    checksum.add_bytes(slice_subrange(bytes, 0, 10));
    checksum.add_bytes(&[0, 0]);
    checksum.add_bytes(slice_subrange(bytes, 12, announced));
    assert(checksum@ =~= bytes@.take(10) + seq![0u8, 0u8] + bytes@.subrange(12, announced as int));
    checksum.finish()
}

/// The header at the start of a datagram.
pub open spec fn parse_ipv4(bytes: Seq<u8>) -> Result<IPv4Header, (ErrorKind, Seq<char>)> {
    if bytes[0] / 16 != 4 {
        Err((ErrorKind::InvalidData, "Invalid IPv4 version"@))
    } else if bytes.len() < announced_length(bytes) {
        Err((ErrorKind::UnexpectedEof, "Invalid IPv4 header length"@))
    } else if be16_at(bytes, 10) != checksum_of_header(bytes) {
        Err((ErrorKind::InvalidData, "Invalid IPv4 checksum"@))
    } else {
        Ok(
            IPv4Header {
                header_len: IPv4HeaderLengthWords::decode(bytes[0]),
                type_of_service: TypeOfService::decode(bytes[1]),
                total_length: be16_at(bytes, 2),
                fragment_details: FragmentDetails::decode_at(bytes, 4),
                time_to_live: bytes[8],
                protocol: IPProtocolTypes::decode(bytes[9]),
                header_checksum: be16_at(bytes, 10),
                source_address: ipv4_at(bytes, 12),
                destination_address: ipv4_at(bytes, 16),
            },
        )
    }
}

impl IPv4Header {
    /// How many bytes the header takes, with its options.
    pub open spec fn length(self) -> nat {
        self.header_len.0 as nat * 4
    }

    pub const LENGTH_NO_OPTIONS: usize = 20;

    /// The header of a datagram that is not fragmented and carries `payload_len` bytes.
    pub open spec fn spec_new(
        protocol: IPProtocolTypes,
        source_address: Ipv4Addr,
        destination_address: Ipv4Addr,
        payload_len: u16,
        identification: u16,
    ) -> Self {
        IPv4Header {
            header_len: IPv4HeaderLengthWords(5),
            type_of_service: TypeOfService {
                precedence: TypeOfServicePrecedence::Routine,
                low_delay: false,
                high_throughput: false,
                high_reliability: false,
            },
            total_length: (20 + payload_len) as u16,
            fragment_details: FragmentDetails {
                identification,
                do_not_fragment: true,
                more_fragments: false,
                offset: 0,
            },
            time_to_live: 64,
            protocol,
            header_checksum: 0,
            source_address,
            destination_address,
        }
    }

    /// The header of a datagram with the given identification.
    pub fn with_identification(
        protocol: IPProtocolTypes,
        source_address: Ipv4Addr,
        destination_address: Ipv4Addr,
        payload_len: u16,
        identification: u16,
    ) -> (header: Self)
        requires
            20 + payload_len <= u16::MAX,
        ensures
            header == Self::spec_new(
                protocol,
                source_address,
                destination_address,
                payload_len,
                identification,
            ),
    {
        let header_len = IPv4HeaderLengthWords(5);
        IPv4Header {
            header_len,
            type_of_service: TypeOfService {
                precedence: TypeOfServicePrecedence::Routine,
                low_delay: false,
                high_throughput: false,
                high_reliability: false,
            },
            total_length: header_len.byte_len() + payload_len,
            fragment_details: FragmentDetails {
                identification,
                do_not_fragment: true,
                more_fragments: false,
                offset: 0,
            },
            time_to_live: 64,
            protocol,
            header_checksum: 0,
            source_address,
            destination_address,
        }
    }

    /// The header of a datagram with a random identification.
    pub fn new(
        protocol: IPProtocolTypes,
        source_address: Ipv4Addr,
        destination_address: Ipv4Addr,
        payload_len: u16,
    ) -> (header: Self)
        requires
            20 + payload_len <= u16::MAX,
        ensures
            header.fragment_details.identification < u16::MAX,
            header == Self::spec_new(
                protocol,
                source_address,
                destination_address,
                payload_len,
                header.fragment_details.identification,
            ),
    {
        let identification: u16 = u16_between(0, u16::MAX - 1);
        IPv4Header::with_identification(
            protocol,
            source_address,
            destination_address,
            payload_len,
            identification,
        )
    }

    /// Reads the header at the start of a datagram.
    pub fn from_bytes(bytes: &Bytes) -> (result: Result<Self, Error>)
        requires
            ipv4_complete(bytes_contents(*bytes)),
        ensures
            outcome(result) == parse_ipv4(bytes_contents(*bytes)),
    {
        let bytes = as_slice(bytes);
        if bytes[0] / 16 != 4 {
            return Err(Error::new(ErrorKind::InvalidData, "Invalid IPv4 version"));
        }
        let header_len = IPv4HeaderLengthWords::from_byte(bytes[0]);
        let header_len_bytes: usize = header_len.byte_len() as usize;
        if bytes.len() < header_len_bytes {
            return Err(Error::new(ErrorKind::UnexpectedEof, "Invalid IPv4 header length"));
        }
        if read_be16(bytes, 10) != compute_header_checksum(bytes, header_len_bytes) {
            return Err(Error::new(ErrorKind::InvalidData, "Invalid IPv4 checksum"));
        }
        Ok(
            IPv4Header {
                header_len,
                type_of_service: TypeOfService::parse(bytes[1]),
                total_length: read_be16(bytes, 2),
                fragment_details: FragmentDetails::read(bytes, 4),
                time_to_live: bytes[8],
                protocol: IPProtocolTypes::from_code(bytes[9]),
                header_checksum: read_be16(bytes, 10),
                source_address: Ipv4Addr::read(bytes, 12),
                destination_address: Ipv4Addr::read(bytes, 16),
            },
        )
    }

    /// What the datagram carries.
    pub fn protocol(&self) -> (protocol: IPProtocolTypes)
        ensures
            protocol == self.protocol,
    {
        self.protocol
    }

    /// Whether the datagram is only a part of what was sent.
    pub open spec fn spec_is_fragmented(&self) -> bool {
        self.fragment_details.more_fragments || self.fragment_details.offset > 0
    }

    /// Whether the datagram is only a part of what was sent.
    #[verifier::when_used_as_spec(spec_is_fragmented)]
    pub fn is_fragmented(&self) -> (fragmented: bool)
        ensures
            fragmented == self.spec_is_fragmented(),
    {
        self.fragment_details.more_fragments || self.fragment_details.offset > 0
    }

    /// Where the datagram comes from.
    pub fn source_address(&self) -> (address: Ipv4Addr)
        ensures
            address == self.source_address,
    {
        self.source_address
    }

    /// Where the datagram goes.
    pub fn destination_address(&self) -> (address: Ipv4Addr)
        ensures
            address == self.destination_address,
    {
        self.destination_address
    }

    /// The number of bytes behind the header.
    pub fn payload_length(&self) -> (length: usize)
        requires
            self.total_length >= self.header_len.0 * 4,
        ensures
            length == self.total_length - self.header_len.0 * 4,
    {
        self.total_length as usize - self.header_len.byte_len() as usize
    }

    /// The number of bytes of the header.
    pub fn header_length(&self) -> (length: usize)
        ensures
            length == self.header_len.0 * 4,
    {
        self.header_len.byte_len() as usize
    }

    /// The number of bytes of the datagram, header included.
    pub fn total_length(&self) -> (length: usize)
        ensures
            length == self.total_length,
    {
        self.total_length as usize
    }

    /// The bytes in front of the checksum.
    pub open spec fn encode_front(self) -> Seq<u8> {
        seq![(0x40 + self.header_len.0 % 16) as u8, self.type_of_service.encode()] + be16_bytes(
            self.total_length,
        ) + self.fragment_details.encoding() + seq![self.time_to_live, self.protocol.encode()]
    }

    /// The bytes behind the checksum.
    pub open spec fn encode_back(self) -> Seq<u8> {
        self.source_address.spec_octets() + self.destination_address.spec_octets()
    }

    /// The checksum that is written.
    pub open spec fn written_checksum(self) -> u16 {
        checksum_of(self.encode_front() + seq![0u8, 0u8] + self.encode_back())
    }

    /// The checksum that is written.
    fn compute_checksum(&self) -> (checksum: u16)
        ensures
            checksum == self.written_checksum(),
    {
        let details = self.fragment_details;
        let flags: u16 = (if details.do_not_fragment {
            0x4000
        } else {
            0
        }) + (if details.more_fragments {
            0x2000
        } else {
            0
        }) + details.offset % 0x2000;
        let front: [u8; 10] = [
            self.header_len.to_byte(4),
            self.type_of_service.to_byte(),
            (self.total_length / 256) as u8,
            (self.total_length % 256) as u8,
            (details.identification / 256) as u8,
            (details.identification % 256) as u8,
            (flags / 256) as u8,
            (flags % 256) as u8,
            self.time_to_live,
            self.protocol.code(),
        ];
        assert(front@ =~= self.encode_front());
        let mut checksum = Summation::new();
        checksum.add_bytes(&front);
        checksum.add_bytes(&[0, 0]);
        checksum.add_bytes(&self.source_address.octets());
        checksum.add_bytes(&self.destination_address.octets());
        assert(checksum@ =~= self.encode_front() + seq![0u8, 0u8] + self.encode_back());
        checksum.finish()
    }
}

impl WriteToBuffer for IPv4Header {
    open spec fn encoding(&self) -> Seq<u8> {
        self.encode_front() + be16_bytes(self.written_checksum()) + self.encode_back()
    }

    open spec fn reported(&self) -> nat {
        self.encoding().len()
    }

    /// Only a header without options has a wire format.
    open spec fn encodable(&self) -> bool {
        self.header_len.0 == 5
    }

    fn encoded_length(&self) -> (length: usize) {
        self.header_len.byte_len() as usize
    }

    fn write_to_buffer(&self, buffer: &mut BytesMut) {
        let checksum: u16 = self.compute_checksum();
        put_u8(buffer, self.header_len.to_byte(4));
        put_u8(buffer, self.type_of_service.to_byte());
        put_u16(buffer, self.total_length);
        self.fragment_details.write_to_buffer(buffer);
        put_u8(buffer, self.time_to_live);
        put_u8(buffer, self.protocol.code());
        assert(bytes_mut_contents(*buffer) =~= bytes_mut_contents(*old(buffer))
            + self.encode_front());
        put_u16(buffer, checksum);
        put_slice(buffer, &self.source_address.octets());
        put_slice(buffer, &self.destination_address.octets());
        assert(bytes_mut_contents(*buffer) =~= bytes_mut_contents(*old(buffer)) + self.encoding());
    }
}

/// A header without options takes twenty bytes.
pub proof fn ipv4_header_length(header: IPv4Header)
    requires
        header.encodable(),
    ensures
        header.encoding().len() == 20,
        header.length() == 20,
{
    broadcast use be16_round_trip;
    broadcast use ipv4_round_trip;

}

/// A header without options is written in as many bytes as it reports, and reading what was
/// written, whatever follows it, gives the header back with its checksum filled in.
pub proof fn ipv4_header_round_trip(header: IPv4Header, rest: Seq<u8>)
    requires
        header.encodable(),
        header.fragment_details.offset <= FragmentDetails::OFFSET_MAX,
        IPProtocolTypes::decode(header.protocol.encode()) == header.protocol,
    ensures
        header.encoding().len() == header.length(),
        ipv4_complete(header.encoding() + rest),
        parse_ipv4(header.encoding() + rest) == Ok::<IPv4Header, (ErrorKind, Seq<char>)>(
            IPv4Header { header_checksum: header.written_checksum(), ..header },
        ),
{
    broadcast use be16_round_trip;
    broadcast use ipv4_round_trip;

    let bytes = header.encoding() + rest;
    let front = header.encode_front();
    let back = header.encode_back();
    assert(front.len() == 10 && back.len() == 8);
    assert(bytes.take(10) =~= front);
    assert(bytes.subrange(12, 20) =~= back);
    assert(bytes[0] == 0x45);
    assert(announced_length(bytes) == 20);
    assert forall|i: int| 0 <= i < 10 implies bytes[i] == front[i] by {
        assert(bytes.take(10)[i] == bytes[i]);
    }
    assert forall|i: int| 12 <= i < 20 implies bytes[i] == back[i - 12] by {
        assert(bytes.subrange(12, 20)[i - 12] == bytes[i]);
    }
    let checksum = be16_bytes(header.written_checksum());
    assert(bytes[10] == checksum[0] && bytes[11] == checksum[1]);
    fragment_details_round_trip(header.fragment_details);
    let details = header.fragment_details.encoding();
    assert(front[4] == details[0] && front[5] == details[1] && front[6] == details[2] && front[7]
        == details[3]);
    assert(FragmentDetails::decode_at(bytes, 4) == FragmentDetails::decode_at(details, 0));
    let total = be16_bytes(header.total_length);
    assert(front[2] == total[0] && front[3] == total[1]);
    type_of_service_round_trip(header.type_of_service, 0);
    let source = header.source_address.spec_octets();
    let destination = header.destination_address.spec_octets();
    assert(back[0] == source[0] && back[1] == source[1] && back[2] == source[2] && back[3]
        == source[3]);
    assert(back[4] == destination[0] && back[5] == destination[1] && back[6] == destination[2]
        && back[7] == destination[3]);
}

/// Whether the `prefix` highest bits of a mask are set and the others are not.
pub open spec fn is_prefix_mask(mask: u32, prefix: int) -> bool {
    forall|bit: u32| bit < 32 ==> ((#[trigger] (mask >> bit) & 1u32) == 1u32 <==> bit >= 32 - prefix)
}

/// The bits of the mask of a network with the given prefix length.
pub open spec fn mask_bits(prefix: u8) -> u32 {
    if prefix == 0 {
        0
    } else {
        !0u32 << ((32 - prefix) as u32)
    }
}

/// The mask of a network with the given prefix length.
pub fn prefix_to_mask(prefix: u8) -> (mask: Ipv4Addr)
    requires
        prefix <= 32,
    ensures
        is_prefix_mask(mask.bits, prefix as int),
        mask.bits == mask_bits(prefix),
{
    if prefix == 0 {
        assert forall|bit: u32| bit < 32 implies (#[trigger] (0u32 >> bit) & 1u32) != 1u32 by {
            assert((0u32 >> bit) & 1u32 != 1u32) by (bit_vector)
                requires
                    bit < 32,
            ;
        }
        Ipv4Addr { bits: 0 }
    } else {
        let host: u32 = 32 - prefix as u32;
        let bits: u32 = !0u32 << host;
        assert forall|bit: u32| bit < 32 implies ((#[trigger] (bits >> bit) & 1u32) == 1u32 <==> bit
            >= 32 - prefix) by {
            assert(((!0u32 << host) >> bit) & 1u32 == 1u32 <==> bit >= host) by (bit_vector)
                requires
                    bit < 32,
                    host < 32,
            ;
        }
        Ipv4Addr { bits }
    }
}

} // verus!
