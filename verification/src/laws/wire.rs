//! What stands where on the wire.

use crate::buffer::{be16_at, be16_bytes, be16_round_trip, be32_at, be32_bytes};
use crate::common::ErrorKind;
use crate::net::{ipv4_at, Ipv4Addr};
use crate::protocols::arp::{parse_arp, ArpMessage, Operation};
use crate::protocols::ethernet::{parse_header, EtherType, Ethernet, EthernetHeader};
use crate::protocols::ethernet::mac::{mac_at, MacAddr};
use crate::runtime::interface::l2_ethernet::{frame_of, frame_payload};
use crate::write_to_buffer::WriteToBuffer;
use vstd::prelude::*;

verus! {

/// The number that two bytes make, the first one highest.
pub open spec fn two(bytes: Seq<u8>, at: int) -> int {
    bytes[at] * 256 + bytes[at + 1]
}

/// The number that four bytes make, the first one highest.
pub open spec fn four(bytes: Seq<u8>, at: int) -> int {
    bytes[at] * 0x100_0000 + bytes[at + 1] * 0x1_0000 + bytes[at + 2] * 0x100 + bytes[at + 3]
}

/// The link layer address that six bytes make.
pub open spec fn six(bytes: Seq<u8>, at: int) -> MacAddr {
    MacAddr(bytes[at], bytes[at + 1], bytes[at + 2], bytes[at + 3], bytes[at + 4], bytes[at + 5])
}

/// Numbers and addresses are written and read with the highest byte first.
pub proof fn numbers_start_with_the_highest_byte(
    short: u16,
    long: u32,
    mac: MacAddr,
    bytes: Seq<u8>,
    at: int,
)
    ensures
        be16_bytes(short).len() == 2,
        two(be16_bytes(short), 0) == short,
        be32_bytes(long).len() == 4,
        four(be32_bytes(long), 0) == long,
        be16_at(bytes, at) == two(bytes, at),
        be32_at(bytes, at) == four(bytes, at),
        ipv4_at(bytes, at).bits == four(bytes, at),
        (Ipv4Addr { bits: long }).spec_octets() == be32_bytes(long),
        mac_at(bytes, at) == six(bytes, at),
        mac.spec_octets().len() == 6,
        six(mac.spec_octets(), 0) == mac,
{
}

/// A frame starts with the two addresses, the receiver's first, and the number of what it carries.
/// Behind a tag of four bytes stands the number of what a tagged frame carries.
pub proof fn a_frame_is_read_from_its_places(frame: Seq<u8>)
    ensures
        frame.len() < 14 ==> parse_header(frame) is Err,
        frame.len() >= 14 && (two(frame, 12) == 0x8100 ==> frame.len() >= 18) ==> {
            let tagged = two(frame, 12) == 0x8100;
            let kind = if tagged {
                two(frame, 16)
            } else {
                two(frame, 12)
            };
            &&& parse_header(frame) matches Ok(header)
            &&& header.destination_address == six(frame, 0)
            &&& header.source_address == six(frame, 6)
            &&& header.ether_type == EtherType::IPv4 <==> kind == 0x0800
            &&& header.ether_type == EtherType::ARP <==> kind == 0x0806
            &&& header.ether_type == EtherType::IPv6 <==> kind == 0x86dd
            &&& header.vlan is Some <==> tagged
            &&& header.vlan matches Some(tag) ==> tag == two(frame, 14)
            &&& frame_payload(frame, header) == frame.skip(
                if tagged {
                    18
                } else {
                    14
                },
            )
        },
{
}

/// A frame that is sent has its parts where they are read.
pub proof fn a_frame_is_written_to_its_places(
    source: MacAddr,
    destination: MacAddr,
    ether_type: EtherType,
    payload: Seq<u8>,
)
    ensures
        ({
            let frame = frame_of(source, destination, ether_type, payload);
            &&& frame.len() == 14 + payload.len()
            &&& six(frame, 0) == destination
            &&& six(frame, 6) == source
            &&& two(frame, 12) == match ether_type {
                EtherType::IPv4 => 0x0800,
                EtherType::ARP => 0x0806,
                EtherType::VLAN => 0x8100,
                EtherType::IPv6 => 0x86dd,
                EtherType::Ieee8023LengthField(code) => code as int,
                EtherType::Other(code) => code as int,
            }
            &&& frame.skip(14) == payload
        }),
{
    broadcast use be16_round_trip;

    let frame = frame_of(source, destination, ether_type, payload);
    let code = be16_bytes(ether_type.encode());
    assert(frame[12] == code[0] && frame[13] == code[1]);
    assert(frame.skip(14) =~= payload);
}

/// A question for a link layer address and its answer are told apart by the seventh and eighth
/// byte, and the addresses of both ends follow.
pub proof fn a_resolution_is_read_from_its_places(bytes: Seq<u8>)
    ensures
        ({
            let understood = bytes.len() >= 28 && two(bytes, 0) == 1 && two(bytes, 2) == 0x0800
                && bytes[4] == 6 && bytes[5] == 4 && (two(bytes, 6) == 1 || two(bytes, 6) == 2);
            &&& parse_arp(bytes) is Ok <==> understood
            &&& parse_arp(bytes) matches Ok(message) ==> {
                &&& message.operation == Operation::Request <==> two(bytes, 6) == 1
                &&& message.sender_hardware_addr == six(bytes, 8)
                &&& message.sender_protocol_addr.bits == four(bytes, 14)
                &&& message.target_hardware_addr == six(bytes, 18)
                &&& message.target_protocol_addr.bits == four(bytes, 24)
            }
        }),
{
}

/// A question for a link layer address and its answer are written to the places from which they
/// are read.
pub proof fn a_resolution_is_written_to_its_places(message: ArpMessage)
    ensures
        ({
            let bytes = message.encoding();
            &&& bytes.len() == 28
            &&& two(bytes, 0) == 1
            &&& two(bytes, 2) == 0x0800
            &&& bytes[4] == 6
            &&& bytes[5] == 4
            &&& two(bytes, 6) == if message.operation == Operation::Request {
                1int
            } else {
                2
            }
            &&& six(bytes, 8) == message.sender_hardware_addr
            &&& four(bytes, 14) == message.sender_protocol_addr.bits
            &&& six(bytes, 18) == message.target_hardware_addr
            &&& four(bytes, 24) == message.target_protocol_addr.bits
        }),
{
    broadcast use be16_round_trip;

    let bytes = message.encoding();
    let operation = be16_bytes(message.operation.encode());
    let sender = be32_bytes(message.sender_protocol_addr.bits);
    let target = be32_bytes(message.target_protocol_addr.bits);
    assert(bytes[0] == 0 && bytes[1] == 1 && bytes[2] == 8 && bytes[3] == 0);
    assert(bytes[6] == operation[0] && bytes[7] == operation[1]);
    assert(bytes[14] == sender[0] && bytes[15] == sender[1] && bytes[16] == sender[2] && bytes[17]
        == sender[3]);
    assert(bytes[24] == target[0] && bytes[25] == target[1] && bytes[26] == target[2] && bytes[27]
        == target[3]);
    numbers_start_with_the_highest_byte(
        message.operation.encode(),
        message.sender_protocol_addr.bits,
        message.sender_hardware_addr,
        bytes,
        0,
    );
    numbers_start_with_the_highest_byte(
        0,
        message.target_protocol_addr.bits,
        message.target_hardware_addr,
        bytes,
        0,
    );
}

/// The numbers of what a frame carries. A small number is the length of the frame instead.
pub proof fn kinds_of_frames_have_their_numbers(code: u16)
    ensures
        EtherType::decode(code) == match code {
            0x0800 => EtherType::IPv4,
            0x0806 => EtherType::ARP,
            0x8100 => EtherType::VLAN,
            0x86dd => EtherType::IPv6,
            _ => if code <= 1500 {
                EtherType::Ieee8023LengthField(code)
            } else {
                EtherType::Other(code)
            },
        },
        EtherType::decode(code).encode() == code,
{
}

/// A header that is written has its tag, where it has one, between the addresses and the number of
/// what the frame carries.
pub proof fn a_tag_stands_behind_the_addresses(header: EthernetHeader)
    ensures
        ({
            let bytes = header.encoding();
            &&& bytes.len() == if header.vlan is Some {
                18int
            } else {
                14
            }
            &&& six(bytes, 0) == header.destination_address
            &&& six(bytes, 6) == header.source_address
            &&& header.vlan matches Some(tag) ==> two(bytes, 12) == 0x8100 && two(bytes, 14) == tag
            &&& two(bytes, bytes.len() - 2) == header.ether_type.encode()
        }),
{
    broadcast use be16_round_trip;

    let bytes = header.encoding();
    let code = be16_bytes(header.ether_type.encode());
    let last = bytes.len() - 2;
    if let Some(tag) = header.vlan {
        let mark = be16_bytes(0x8100);
        let value = be16_bytes(tag);
        assert(bytes[12] == mark[0] && bytes[13] == mark[1] && bytes[14] == value[0] && bytes[15]
            == value[1]);
    }
    assert(bytes[last] == code[0] && bytes[last + 1] == code[1]);
}

/// The answer to a question says who has what was asked for, and is for who asked. It goes there
/// from who answers.
pub proof fn an_answer_is_for_who_asked(question: ArpMessage, mac: MacAddr, address: Ipv4Addr)
    ensures
        ({
            let answer = question.reply(mac, address);
            &&& answer.operation == Operation::Reply
            &&& answer.sender_hardware_addr == mac
            &&& answer.sender_protocol_addr == address
            &&& answer.target_hardware_addr == question.sender_hardware_addr
            &&& answer.target_protocol_addr == question.sender_protocol_addr
            &&& answer.create_ethernet().destination_address == question.sender_hardware_addr
            &&& answer.create_ethernet().source_address == mac
            &&& answer.create_ethernet().ether_type == EtherType::ARP
            &&& answer.create_ethernet().vlan is None
        }),
{
}

/// What is too short is told apart from what cannot be understood.
pub proof fn short_resolutions_are_told_apart(bytes: Seq<u8>)
    ensures
        parse_arp(bytes) matches Err(error) ==> (error.0 == ErrorKind::UnexpectedEof
            <==> bytes.len() < 28) && (error.0 == ErrorKind::InvalidData <==> bytes.len() >= 28),
        parse_header(bytes) matches Err(error) ==> error.0 == ErrorKind::UnexpectedEof,
{
}

/// The answer to a frame goes back to where the frame is from, with the rest of its header.
pub proof fn an_answer_goes_back(frame: Ethernet, mac: MacAddr)
    ensures
        ({
            let answer = frame.reply_header(mac);
            &&& answer.destination_address == frame.source_address
            &&& answer.source_address == mac
            &&& answer.ether_type == frame.ether_type
            &&& answer.vlan == frame.vlan
        }),
{
}

} // verus!
