//! Datagrams, and what they carry, on the wire.

use super::wire::{four, two};
use crate::buffer::{be16_bytes, be16_round_trip, be32_bytes, be32_round_trip};
use crate::checksum::{checksum_of, word_sum};
use crate::common::ErrorKind;
use crate::net::{IpAddr, Ipv4Addr};
use crate::protocols::ipv4::{
    parse_ipv4, FragmentDetails, IPProtocolTypes, IPv4Header, TypeOfService,
    TypeOfServicePrecedence,
};
use crate::protocols::udp::{parse_udp, UdpHeader};
use crate::runtime::interface::l3_ipv4::{datagram_payload, whole_datagram};
use crate::runtime::interface::l4_managers::udp::handle::{udp_header, udp_outgoing};
use crate::runtime::interface::l4_managers::udp::manager::udp_checksum_ok;
use crate::write_to_buffer::WriteToBuffer;
use vstd::prelude::*;

verus! {

/// Whether the words of some bytes add up to all ones, which is how a checksum is tested.
pub open spec fn adds_up(bytes: Seq<u8>) -> bool {
    word_sum(bytes) > 0 && word_sum(bytes) as int % 0xffff == 0
}

proof fn words_of_parts(one: Seq<u8>, other: Seq<u8>)
    requires
        one.len() % 2 == 0,
    ensures
        word_sum(one + other) == word_sum(one) + word_sum(other),
    decreases one.len(),
{
    if one.len() == 0 {
        assert(one + other =~= other);
    } else {
        words_of_parts(one.skip(2), other);
        assert((one + other).skip(2) =~= one.skip(2) + other);
    }
}

/// A checksum makes what it stands in add up, and so does the other form of zero.
pub proof fn a_checksum_makes_words_add_up(front: Seq<u8>, back: Seq<u8>)
    requires
        front.len() % 2 == 0,
    ensures
        ({
            let checksum = checksum_of(front + seq![0u8, 0u8] + back);
            &&& adds_up(front + be16_bytes(checksum) + back)
            &&& checksum == 0 ==> adds_up(front + be16_bytes(0xffff) + back)
        }),
{
    let checksum = checksum_of(front + seq![0u8, 0u8] + back);
    words_with(front, 0, back);
    words_with(front, checksum, back);
    words_with(front, 0xffff, back);
    assert(seq![0u8, 0u8] =~= be16_bytes(0));
    let sum = word_sum(front + seq![0u8, 0u8] + back);
    if sum > 0 {
        let rest = (sum - 1) % 0xffff;
        assert(sum - 1 == 0xffff * ((sum - 1) / 0xffff) + rest);
        assert(sum + checksum == 0xffff * ((sum - 1) / 0xffff + 1));
        assert((sum + checksum) as int % 0xffff == 0);
        if checksum == 0 {
            assert((sum + 0xffff) as int % 0xffff == 0);
        }
    }
}

proof fn words_with(front: Seq<u8>, value: u16, back: Seq<u8>)
    requires
        front.len() % 2 == 0,
    ensures
        word_sum(front + be16_bytes(value) + back) == word_sum(front) + value + word_sum(back),
{
    broadcast use be16_round_trip;

    let pair = be16_bytes(value);
    words_of_parts(front + pair, back);
    words_of_parts(front, pair);
    assert(pair.skip(2) =~= Seq::<u8>::empty());
    assert(word_sum(pair) == pair[0] as nat * 256 + pair[1] as nat + word_sum(pair.skip(2)));
    assert(word_sum(pair) == value);
}

/// A checksum is the only number, but for the two forms of zero, that makes what it stands in add
/// up.
pub proof fn a_checksum_is_the_only_one(front: Seq<u8>, value: u16, back: Seq<u8>)
    requires
        front.len() % 2 == 0,
        adds_up(front + be16_bytes(value) + back),
    ensures
        ({
            let checksum = checksum_of(front + seq![0u8, 0u8] + back);
            value == checksum || (checksum == 0 && value == 0xffff)
        }),
{
    words_with(front, 0, back);
    words_with(front, value, back);
    assert(seq![0u8, 0u8] =~= be16_bytes(0));
    let sum = word_sum(front + seq![0u8, 0u8] + back);
    if sum > 0 {
        let rest = (sum - 1) % 0xffff;
        let times = (sum - 1) / 0xffff;
        assert(sum - 1 == 0xffff * times + rest);
        let all = (sum + value) as int / 0xffff;
        assert(sum + value == 0xffff * all);
        assert(0xffff * (all - times) == 1 + rest + value);
        assert(all - times == 1 || all - times == 2);
    } else {
        assert(value == 0xffff);
    }
}

/// A datagram is read from the places at which its header has its parts. What the words of its
/// header do not confirm is not read, and neither is another version.
pub proof fn a_datagram_is_read_from_its_places(bytes: Seq<u8>)
    requires
        bytes.len() >= 20,
        bytes[0] % 16 >= 5,
    ensures
        bytes[0] / 16 != 4 ==> parse_ipv4(bytes) is Err,
        bytes[0] % 16 * 4 > bytes.len() ==> parse_ipv4(bytes) is Err,
        parse_ipv4(bytes) matches Ok(header) ==> {
            &&& header.length() == bytes[0] % 16 * 4
            &&& header.total_length == two(bytes, 2)
            &&& header.fragment_details.identification == two(bytes, 4)
            &&& header.time_to_live == bytes[8]
            &&& header.protocol == IPProtocolTypes::ICMP <==> bytes[9] == 1
            &&& header.protocol == IPProtocolTypes::TCP <==> bytes[9] == 6
            &&& header.protocol == IPProtocolTypes::UDP <==> bytes[9] == 17
            &&& header.source_address.bits == four(bytes, 12)
            &&& header.destination_address.bits == four(bytes, 16)
            &&& adds_up(bytes.take(bytes[0] % 16 * 4))
            &&& whole_datagram(bytes) == (if two(bytes, 6) % 0x4000 == 0 {
                Some(header)
            } else {
                None
            })
            &&& datagram_payload(bytes, header) == bytes.subrange(
                bytes[0] % 16 * 4,
                two(bytes, 2),
            )
        },
        bytes[0] / 16 == 4 && bytes[0] % 16 * 4 <= bytes.len() && two(bytes, 10) == checksum_of(
            bytes.take(10) + seq![0u8, 0u8] + bytes.subrange(12, bytes[0] % 16 * 4),
        ) ==> parse_ipv4(bytes) is Ok,
{
    let length = bytes[0] % 16 * 4;
    if let Ok(header) = parse_ipv4(bytes) {
        let front = bytes.take(10);
        let back = bytes.subrange(12, length);
        a_checksum_makes_words_add_up(front, back);
        let checksum = checksum_of(front + seq![0u8, 0u8] + back);
        assert(two(bytes, 10) == checksum);
        assert(bytes.take(length) =~= front + be16_bytes(checksum) + back);
    }
}

/// The header of a datagram that is sent has its parts where they are read, asks not to be taken
/// apart, and adds up.
pub proof fn a_datagram_is_written_to_its_places(
    protocol: IPProtocolTypes,
    source: Ipv4Addr,
    destination: Ipv4Addr,
    length: u16,
    identification: u16,
)
    requires
        length <= 65515,
    ensures
        ({
            let bytes = IPv4Header::spec_new(
                protocol,
                source,
                destination,
                length,
                identification,
            ).encoding();
            &&& bytes.len() == 20
            &&& bytes[0] == 0x45
            &&& bytes[1] == 0
            &&& two(bytes, 2) == 20 + length
            &&& two(bytes, 4) == identification
            &&& two(bytes, 6) == 0x4000
            &&& bytes[8] == 64
            &&& bytes[9] == match protocol {
                IPProtocolTypes::ICMP => 1,
                IPProtocolTypes::TCP => 6,
                IPProtocolTypes::UDP => 17,
                IPProtocolTypes::Other(value) => value,
            }
            &&& four(bytes, 12) == source.bits
            &&& four(bytes, 16) == destination.bits
            &&& adds_up(bytes)
        }),
{
    broadcast use be16_round_trip;
    broadcast use be32_round_trip;

    let header = IPv4Header::spec_new(protocol, source, destination, length, identification);
    let bytes = header.encoding();
    let front = header.encode_front();
    let back = header.encode_back();
    a_checksum_makes_words_add_up(front, back);
    let total = be16_bytes(header.total_length);
    let number = be16_bytes(identification);
    let flags = be16_bytes(header.fragment_details.flags_and_offset());
    let from = be32_bytes(source.bits);
    let to = be32_bytes(destination.bits);
    assert(front.len() == 10 && back.len() == 8);
    assert(bytes[0] == front[0] && bytes[1] == front[1] && bytes[8] == front[8] && bytes[9]
        == front[9]);
    assert(bytes[2] == total[0] && bytes[3] == total[1]);
    assert(bytes[4] == number[0] && bytes[5] == number[1]);
    assert(bytes[6] == flags[0] && bytes[7] == flags[1]);
    assert(bytes[12] == from[0] && bytes[13] == from[1] && bytes[14] == from[2] && bytes[15]
        == from[3]);
    assert(bytes[16] == to[0] && bytes[17] == to[1] && bytes[18] == to[2] && bytes[19] == to[3]);
}

/// What the checksum of a datagram between ports is computed of besides the datagram: the addresses
/// of its ends, what carries it and how long it is.
pub open spec fn with_ends(source: Ipv4Addr, destination: Ipv4Addr, bytes: Seq<u8>) -> Seq<u8> {
    be32_bytes(source.bits) + be32_bytes(destination.bits) + seq![0u8, 17u8] + be16_bytes(
        bytes.len() as u16,
    ) + bytes
}

/// A datagram between ports starts with the port that it is from, the port that it is for, its
/// length and its checksum.
pub proof fn ports_are_read_from_their_places(bytes: Seq<u8>)
    ensures
        bytes.len() < 8 ==> parse_udp(bytes) is Err,
        bytes.len() >= 8 ==> {
            &&& parse_udp(bytes) matches Ok(header)
            &&& header.source_port == two(bytes, 0)
            &&& header.destination_port == two(bytes, 2)
            &&& header.length == two(bytes, 4)
            &&& header.checksum@ == bytes.subrange(6, 8)
        },
{
    if bytes.len() >= 8 {
        assert([bytes[6], bytes[7]]@ =~= bytes.subrange(6, 8));
    }
}

/// A datagram that is accepted adds up with the addresses of its ends, and so was not changed on
/// its way in a word alone.
pub proof fn an_accepted_datagram_adds_up(
    source: Ipv4Addr,
    destination: Ipv4Addr,
    bytes: Seq<u8>,
)
    requires
        bytes.len() >= 8,
        8 <= two(bytes, 4) <= bytes.len(),
        udp_checksum_ok(IpAddr::V4(source), IpAddr::V4(destination), bytes),
    ensures
        adds_up(with_ends(source, destination, bytes.take(two(bytes, 4)))),
        bytes[6] != 0 || bytes[7] != 0,
{
    broadcast use be16_round_trip;

    let length = two(bytes, 4);
    let header = parse_udp(bytes)->Ok_0;
    let data = bytes.subrange(8, length);
    filled_datagram_adds_up(source, destination, header, data);
    let own = header.checksum_v4(source, destination, data);
    assert([bytes[6], bytes[7]]@ =~= own@);
    assert(own@[0] == bytes[6] && own@[1] == bytes[7]);
    assert(header.length == length);
    let ports = be16_bytes(header.source_port) + be16_bytes(header.destination_port) + be16_bytes(
        header.length,
    );
    assert(bytes.take(length) =~= ports + own@ + data);
}

/// A datagram that adds up with the addresses of its ends is accepted.
pub proof fn an_added_up_datagram_is_accepted(
    source: Ipv4Addr,
    destination: Ipv4Addr,
    bytes: Seq<u8>,
)
    requires
        bytes.len() >= 8,
        8 <= two(bytes, 4) <= bytes.len(),
        bytes[6] != 0 || bytes[7] != 0,
        adds_up(with_ends(source, destination, bytes.take(two(bytes, 4)))),
    ensures
        udp_checksum_ok(IpAddr::V4(source), IpAddr::V4(destination), bytes),
{
    broadcast use be16_round_trip;

    let length = two(bytes, 4);
    let header = parse_udp(bytes)->Ok_0;
    let data = bytes.subrange(8, length);
    let value = two(bytes, 6) as u16;
    let ports = be16_bytes(header.source_port) + be16_bytes(header.destination_port) + be16_bytes(
        header.length,
    );
    let front = be32_bytes(source.bits) + be32_bytes(destination.bits) + seq![0u8, 17u8]
        + be16_bytes(header.length) + ports;
    let taken = bytes.take(length);
    assert(taken =~= ports + be16_bytes(value) + data);
    assert(taken.len() as u16 == header.length);
    assert(with_ends(source, destination, taken) =~= front + be16_bytes(value) + data);
    a_checksum_is_the_only_one(front, value, data);
    assert(data.take(data.len() as int) =~= data);
    assert(header.checksummed_v4(source, destination, data) =~= front + seq![0u8, 0u8] + data);
    let own = header.checksum_v4(source, destination, data);
    assert(own@ =~= header.checksum@);
    assert(own =~= header.checksum);
}

pub(crate) proof fn filled_datagram_adds_up(
    source: Ipv4Addr,
    destination: Ipv4Addr,
    header: UdpHeader,
    data: Seq<u8>,
)
    requires
        header.length == data.len() + 8,
    ensures
        ({
            let own = header.checksum_v4(source, destination, data);
            let ports = be16_bytes(header.source_port) + be16_bytes(header.destination_port)
                + be16_bytes(header.length);
            &&& own@.len() == 2
            &&& own@ != seq![0u8, 0u8]
            &&& adds_up(with_ends(source, destination, ports + own@ + data))
        }),
{
    broadcast use be16_round_trip;
    broadcast use be32_round_trip;

    let own = header.checksum_v4(source, destination, data);
    let ports = be16_bytes(header.source_port) + be16_bytes(header.destination_port) + be16_bytes(
        header.length,
    );
    let front = be32_bytes(source.bits) + be32_bytes(destination.bits) + seq![0u8, 17u8]
        + be16_bytes(header.length) + ports;
    assert(data.take(data.len() as int) =~= data);
    assert(header.checksummed_v4(source, destination, data) =~= front + seq![0u8, 0u8] + data);
    a_checksum_makes_words_add_up(front, data);
    let checksum = checksum_of(front + seq![0u8, 0u8] + data);
    assert(own@ =~= be16_bytes(if checksum == 0 {
        0xffff
    } else {
        checksum
    }));
    let bytes = ports + own@ + data;
    assert(bytes.len() == header.length);
    assert(with_ends(source, destination, bytes) =~= front + own@ + data);
    assert(own@[0] != 0 || own@[1] != 0);
}

/// A datagram that a socket sends has its ports, its length and its payload where they are read,
/// and adds up with the addresses of its ends.
pub proof fn a_sent_datagram_has_its_ports(
    source: (Ipv4Addr, u16),
    destination: (Ipv4Addr, u16),
    payload: Seq<u8>,
    identification: u16,
)
    requires
        payload.len() + 8 <= u16::MAX,
    ensures
        ({
            let sent = udp_outgoing(
                source.0,
                source.1,
                destination.0,
                destination.1,
                payload,
                identification,
            );
            let bytes = sent.payload;
            &&& sent.destination == destination.0
            &&& sent.source == source.0
            &&& sent.protocol == IPProtocolTypes::UDP
            &&& bytes.len() == 8 + payload.len()
            &&& two(bytes, 0) == source.1
            &&& two(bytes, 2) == destination.1
            &&& two(bytes, 4) == 8 + payload.len()
            &&& bytes.skip(8) == payload
            &&& adds_up(with_ends(source.0, destination.0, bytes))
        }),
{
    broadcast use be16_round_trip;

    let sent = udp_outgoing(
        source.0,
        source.1,
        destination.0,
        destination.1,
        payload,
        identification,
    );
    let bytes = sent.payload;
    let header = udp_header(source.0, source.1, destination.0, destination.1, payload);
    let blank = UdpHeader { checksum: [0u8, 0u8], ..header };
    filled_datagram_adds_up(source.0, destination.0, blank, payload);
    let ports = be16_bytes(source.1) + be16_bytes(destination.1) + be16_bytes(header.length);
    assert(bytes =~= ports + header.checksum@ + payload);
    assert(bytes.skip(8) =~= payload);
    let from = be16_bytes(source.1);
    let to = be16_bytes(destination.1);
    let length = be16_bytes(header.length);
    assert(bytes[0] == from[0] && bytes[1] == from[1] && bytes[2] == to[0] && bytes[3] == to[1]
        && bytes[4] == length[0] && bytes[5] == length[1]);
}

/// What a header asks for on its way is read from the highest bits of its second byte on, and
/// written there.
pub proof fn service_is_read_from_its_bits(byte: u8, service: TypeOfService)
    ensures
        ({
            let read = TypeOfService::decode(byte);
            &&& precedence_number(read.precedence) == byte / 32
            &&& read.low_delay <==> byte / 16 % 2 == 1
            &&& read.high_throughput <==> byte / 8 % 2 == 1
            &&& read.high_reliability <==> byte / 4 % 2 == 1
        }),
        ({
            let written = service.encode();
            &&& written / 32 == precedence_number(service.precedence)
            &&& written / 16 % 2 == 1 <==> service.low_delay
            &&& written / 8 % 2 == 1 <==> service.high_throughput
            &&& written / 4 % 2 == 1 <==> service.high_reliability
            &&& written % 4 == 0
        }),
{
}

/// The number of how much a datagram matters.
pub open spec fn precedence_number(precedence: TypeOfServicePrecedence) -> int {
    match precedence {
        TypeOfServicePrecedence::Routine => 0,
        TypeOfServicePrecedence::Priority => 1,
        TypeOfServicePrecedence::Immediate => 2,
        TypeOfServicePrecedence::Flash => 3,
        TypeOfServicePrecedence::FlashOverride => 4,
        TypeOfServicePrecedence::CriticalAndEmergencyCallProcessing => 5,
        TypeOfServicePrecedence::InternetworkControl => 6,
        TypeOfServicePrecedence::NetworkControl => 7,
    }
}

/// Which part of a datagram this is, is read from its number and from the two bytes behind it: the
/// second and third highest bit say whether it may be taken apart and whether more follows.
pub proof fn parts_are_read_from_their_places(bytes: Seq<u8>, at: int, details: FragmentDetails)
    requires
        0 <= at <= bytes.len() - 4,
        details.offset < 0x2000,
    ensures
        ({
            let read = FragmentDetails::decode_at(bytes, at);
            &&& read.identification == two(bytes, at)
            &&& read.do_not_fragment <==> two(bytes, at + 2) / 0x4000 % 2 == 1
            &&& read.more_fragments <==> two(bytes, at + 2) / 0x2000 % 2 == 1
            &&& read.offset == two(bytes, at + 2) % 0x2000
        }),
        ({
            let written = details.encoding();
            &&& written.len() == 4
            &&& two(written, 0) == details.identification
            &&& two(written, 2) / 0x4000 % 2 == 1 <==> details.do_not_fragment
            &&& two(written, 2) / 0x2000 % 2 == 1 <==> details.more_fragments
            &&& two(written, 2) / 0x8000 == 0
            &&& two(written, 2) % 0x2000 == details.offset
        }),
{
    broadcast use be16_round_trip;

    let written = details.encoding();
    let number = be16_bytes(details.identification);
    let flags = be16_bytes(details.flags_and_offset());
    assert(written[0] == number[0] && written[1] == number[1] && written[2] == flags[0]
        && written[3] == flags[1]);
}

/// What is wrong with a header is told: that it is not of this version, that it is cut off, or that
/// it was changed on its way.
pub proof fn wrong_headers_are_told_apart(bytes: Seq<u8>)
    requires
        bytes.len() >= 20,
    ensures
        bytes[0] / 16 != 4 ==> parse_ipv4(bytes) == Err::<IPv4Header, (ErrorKind, Seq<char>)>(
            (ErrorKind::InvalidData, "Invalid IPv4 version"@),
        ),
        bytes[0] / 16 == 4 && bytes[0] % 16 * 4 > bytes.len() ==> parse_ipv4(bytes) == Err::<
            IPv4Header,
            (ErrorKind, Seq<char>),
        >((ErrorKind::UnexpectedEof, "Invalid IPv4 header length"@)),
        bytes[0] / 16 == 4 && 20 <= bytes[0] % 16 * 4 <= bytes.len() && !adds_up(
            bytes.take(bytes[0] % 16 * 4),
        ) ==> parse_ipv4(bytes) == Err::<IPv4Header, (ErrorKind, Seq<char>)>(
            (ErrorKind::InvalidData, "Invalid IPv4 checksum"@),
        ),
{
    if bytes[0] % 16 >= 5 {
        a_datagram_is_read_from_its_places(bytes);
    }
}

} // verus!
