//! The address resolution protocol for IPv4 over Ethernet.

use super::ethernet::mac::{mac_at, MacAddr};
use super::ethernet::{EtherType, EthernetHeader};
use crate::buffer::{
    be16_at, be16_bytes, be16_round_trip, bytes_mut_contents, put_slice, put_u16, put_u8, read_be16,
};
use crate::common::{outcome, Error, ErrorKind};
use crate::net::{ipv4_at, ipv4_round_trip, Ipv4Addr};
use crate::write_to_buffer::WriteToBuffer;
use bytes::BytesMut;
use vstd::prelude::*;

verus! {

/// The kind of link layer that a message speaks of.
#[derive(Debug, PartialEq, Eq, Clone, Copy, Structural)]
pub enum HardwareType {
    Ethernet,
    Other(u16),
}

impl HardwareType {
    pub open spec fn decode(code: u16) -> Self {
        if code == 1 {
            HardwareType::Ethernet
        } else {
            HardwareType::Other(code)
        }
    }

    pub open spec fn encode(self) -> u16 {
        match self {
            HardwareType::Ethernet => 1,
            HardwareType::Other(code) => code,
        }
    }

    /// The kind that a code stands for.
    pub fn from_code(code: u16) -> (hardware_type: Self)
        ensures
            hardware_type == Self::decode(code),
    {
        match code {
            1 => HardwareType::Ethernet,
            _ => HardwareType::Other(code),
        }
    }

    /// The code that stands for this kind.
    pub fn code(&self) -> (code: u16)
        ensures
            code == self.encode(),
    {
        match *self {
            HardwareType::Ethernet => 1,
            HardwareType::Other(code) => code,
        }
    }
}

/// The kind of internet layer that a message speaks of.
#[derive(Debug, PartialEq, Eq, Clone, Copy, Structural)]
pub enum ProtocolType {
    IPv4,
    Other(u16),
}

impl ProtocolType {
    pub open spec fn decode(code: u16) -> Self {
        if code == 0x0800 {
            ProtocolType::IPv4
        } else {
            ProtocolType::Other(code)
        }
    }

    pub open spec fn encode(self) -> u16 {
        match self {
            ProtocolType::IPv4 => 0x0800,
            ProtocolType::Other(code) => code,
        }
    }

    /// The kind that a code stands for.
    pub fn from_code(code: u16) -> (protocol_type: Self)
        ensures
            protocol_type == Self::decode(code),
    {
        match code {
            0x0800 => ProtocolType::IPv4,
            _ => ProtocolType::Other(code),
        }
    }

    /// The code that stands for this kind.
    pub fn code(&self) -> (code: u16)
        ensures
            code == self.encode(),
    {
        match *self {
            ProtocolType::IPv4 => 0x0800,
            ProtocolType::Other(code) => code,
        }
    }
}

/// Whether a message asks or answers.
#[derive(Debug, PartialEq, Eq, Clone, Copy, Structural)]
pub enum Operation {
    Request,
    Reply,
}

impl Operation {
    pub open spec fn decode(code: u16) -> Option<Self> {
        if code == 1 {
            Some(Operation::Request)
        } else if code == 2 {
            Some(Operation::Reply)
        } else {
            None
        }
    }

    pub open spec fn encode(self) -> u16 {
        match self {
            Operation::Request => 1,
            Operation::Reply => 2,
        }
    }

    /// The operation that a code stands for.
    pub fn try_from(code: u16) -> (result: Result<Self, Error>)
        ensures
            outcome(result) == (match Self::decode(code) {
                Some(operation) => Ok(operation),
                None => Err((ErrorKind::InvalidData, "invalid arp operation"@)),
            }),
    {
        match code {
            1 => Ok(Operation::Request),
            2 => Ok(Operation::Reply),
            _ => Err(Error::new(ErrorKind::InvalidData, "invalid arp operation")),
        }
    }

    /// The code that stands for this operation.
    pub fn code(&self) -> (code: u16)
        ensures
            code == self.encode(),
    {
        match *self {
            Operation::Request => 1,
            Operation::Reply => 2,
        }
    }
}

/// Reading a code and writing it gives it back, for each of the three fields.
pub proof fn arp_code_round_trips(code: u16)
    ensures
        HardwareType::decode(code).encode() == code,
        ProtocolType::decode(code).encode() == code,
        Operation::decode(code) matches Some(operation) ==> operation.encode() == code,
        Operation::decode(Operation::Request.encode()) == Some(Operation::Request),
        Operation::decode(Operation::Reply.encode()) == Some(Operation::Reply),
{
}

/// A question for, or a statement of, the link layer address behind an IPv4 address.
#[derive(Debug, PartialEq, Eq, Clone, Copy, Structural)]
pub struct ArpMessage {
    pub operation: Operation,
    pub sender_hardware_addr: MacAddr,
    pub sender_protocol_addr: Ipv4Addr,
    pub target_hardware_addr: MacAddr,
    pub target_protocol_addr: Ipv4Addr,
}

/// The message at the start of a payload.
pub open spec fn parse_arp(bytes: Seq<u8>) -> Result<ArpMessage, (ErrorKind, Seq<char>)> {
    if bytes.len() < 28 {
        Err((ErrorKind::UnexpectedEof, "ARP message too short"@))
    } else if be16_at(bytes, 0) != 1 {
        Err((ErrorKind::InvalidData, "Unsupported Hardware type"@))
    } else if be16_at(bytes, 2) != 0x0800 {
        Err((ErrorKind::InvalidData, "Unsupported Protocol type"@))
    } else if bytes[4] != 6 {
        Err((ErrorKind::InvalidData, "Invalid hardware length for Ethernet"@))
    } else if bytes[5] != 4 {
        Err((ErrorKind::InvalidData, "Unsupported Protocol length for IPv4"@))
    } else {
        match Operation::decode(be16_at(bytes, 6)) {
            None => Err((ErrorKind::InvalidData, "invalid arp operation"@)),
            Some(operation) => Ok(
                ArpMessage {
                    operation,
                    sender_hardware_addr: mac_at(bytes, 8),
                    sender_protocol_addr: ipv4_at(bytes, 14),
                    target_hardware_addr: mac_at(bytes, 18),
                    target_protocol_addr: ipv4_at(bytes, 24),
                },
            ),
        }
    }
}

impl ArpMessage {
    pub const ARP_LENGTH: usize = 28;

    /// The announcement that `ipv4` is behind `mac`: a request for the sender's own address.
    pub open spec fn spec_gratuitous(mac: MacAddr, ipv4: Ipv4Addr) -> Self {
        Self::spec_request(mac, ipv4, ipv4)
    }

    /// The question who has `target_ipv4`.
    pub open spec fn spec_request(
        requester: MacAddr,
        target_ipv4: Ipv4Addr,
        sender_ipv4: Ipv4Addr,
    ) -> Self {
        ArpMessage {
            operation: Operation::Request,
            sender_hardware_addr: requester,
            sender_protocol_addr: sender_ipv4,
            target_hardware_addr: MacAddr::broadcast(),
            target_protocol_addr: target_ipv4,
        }
    }

    /// The answer to this message that `ipv4` is behind `mac`.
    pub open spec fn spec_reply(&self, mac: MacAddr, ipv4: Ipv4Addr) -> Self {
        ArpMessage {
            operation: Operation::Reply,
            sender_hardware_addr: mac,
            sender_protocol_addr: ipv4,
            target_hardware_addr: self.sender_hardware_addr,
            target_protocol_addr: self.sender_protocol_addr,
        }
    }

    /// The header of the frame that carries this message.
    pub open spec fn spec_ethernet(&self) -> EthernetHeader {
        EthernetHeader {
            destination_address: self.target_hardware_addr,
            source_address: self.sender_hardware_addr,
            ether_type: EtherType::ARP,
            vlan: None,
        }
    }

    /// Announces an address without having been asked.
    #[verifier::when_used_as_spec(spec_gratuitous)]
    pub fn gratuitous(mac: MacAddr, ipv4: Ipv4Addr) -> (message: Self)
        ensures
            message == Self::spec_gratuitous(mac, ipv4),
    {
        ArpMessage {
            operation: Operation::Request,
            sender_hardware_addr: mac,
            sender_protocol_addr: ipv4,
            target_hardware_addr: MacAddr::broadcast(),
            target_protocol_addr: ipv4,
        }
    }

    /// Asks who has an address.
    #[verifier::when_used_as_spec(spec_request)]
    pub fn request(requester: MacAddr, target_ipv4: Ipv4Addr, sender_ipv4: Ipv4Addr) -> (message:
        Self)
        ensures
            message == Self::spec_request(requester, target_ipv4, sender_ipv4),
    {
        ArpMessage {
            operation: Operation::Request,
            sender_hardware_addr: requester,
            sender_protocol_addr: sender_ipv4,
            target_hardware_addr: MacAddr::broadcast(),
            target_protocol_addr: target_ipv4,
        }
    }

    /// Reads the message at the start of a payload.
    pub fn from_bytes(bytes: &[u8]) -> (result: Result<Self, Error>)
        ensures
            outcome(result) == parse_arp(bytes@),
    {
        if bytes.len() < Self::ARP_LENGTH {
            return Err(Error::new(ErrorKind::UnexpectedEof, "ARP message too short"));
        }
        let hardware_type = HardwareType::from_code(read_be16(bytes, 0));
        let protocol_type = ProtocolType::from_code(read_be16(bytes, 2));
        let hardware_len: u8 = bytes[4];
        let protocol_len: u8 = bytes[5];
        // Only IPv4 over Ethernet is in use.
        if hardware_type != HardwareType::Ethernet {
            return Err(Error::new(ErrorKind::InvalidData, "Unsupported Hardware type"));
        }
        if protocol_type != ProtocolType::IPv4 {
            return Err(Error::new(ErrorKind::InvalidData, "Unsupported Protocol type"));
        }
        if hardware_len != 6 {
            return Err(Error::new(ErrorKind::InvalidData, "Invalid hardware length for Ethernet"));
        }
        if protocol_len != 4 {
            return Err(Error::new(ErrorKind::InvalidData, "Unsupported Protocol length for IPv4"));
        }
        match Operation::try_from(read_be16(bytes, 6)) {
            Err(error) => Err(error),
            Ok(operation) => Ok(
                ArpMessage {
                    operation,
                    sender_hardware_addr: MacAddr::read(bytes, 8),
                    sender_protocol_addr: Ipv4Addr::read(bytes, 14),
                    target_hardware_addr: MacAddr::read(bytes, 18),
                    target_protocol_addr: Ipv4Addr::read(bytes, 24),
                },
            ),
        }
    }

    /// Whether this message asks or answers.
    pub fn operation(&self) -> (operation: Operation)
        ensures
            operation == self.operation,
    {
        self.operation
    }

    /// The link layer address that the message is for.
    pub fn target_mac(&self) -> (mac: MacAddr)
        ensures
            mac == self.target_hardware_addr,
    {
        self.target_hardware_addr
    }

    /// The IPv4 address that the message is for, or asks for.
    pub fn target_addr(&self) -> (address: Ipv4Addr)
        ensures
            address == self.target_protocol_addr,
    {
        self.target_protocol_addr
    }

    /// The link layer address of the sender.
    pub fn source_mac(&self) -> (mac: MacAddr)
        ensures
            mac == self.sender_hardware_addr,
    {
        self.sender_hardware_addr
    }

    /// The IPv4 address of the sender.
    pub fn source_addr(&self) -> (address: Ipv4Addr)
        ensures
            address == self.sender_protocol_addr,
    {
        self.sender_protocol_addr
    }

    /// Answers this message.
    #[verifier::when_used_as_spec(spec_reply)]
    pub fn reply(&self, mac: MacAddr, ipv4: Ipv4Addr) -> (message: Self)
        ensures
            message == self.spec_reply(mac, ipv4),
    {
        ArpMessage {
            operation: Operation::Reply,
            sender_hardware_addr: mac,
            sender_protocol_addr: ipv4,
            target_hardware_addr: self.sender_hardware_addr,
            target_protocol_addr: self.sender_protocol_addr,
        }
    }

    /// The header of the frame that carries this message.
    #[verifier::when_used_as_spec(spec_ethernet)]
    pub fn create_ethernet(&self) -> (header: EthernetHeader)
        ensures
            header == self.spec_ethernet(),
    {
        EthernetHeader::new(EtherType::ARP, self.sender_hardware_addr, self.target_hardware_addr)
    }
}

impl WriteToBuffer for ArpMessage {
    open spec fn encoding(&self) -> Seq<u8> {
        be16_bytes(1) + be16_bytes(0x0800) + seq![6u8, 4u8] + be16_bytes(self.operation.encode())
            + self.sender_hardware_addr.spec_octets() + self.sender_protocol_addr.spec_octets()
            + self.target_hardware_addr.spec_octets() + self.target_protocol_addr.spec_octets()
    }

    open spec fn reported(&self) -> nat {
        self.encoding().len()
    }

    open spec fn encodable(&self) -> bool {
        true
    }

    fn encoded_length(&self) -> (length: usize) {
        Self::ARP_LENGTH
    }

    fn write_to_buffer(&self, buffer: &mut BytesMut) {
        put_u16(buffer, HardwareType::Ethernet.code());
        put_u16(buffer, ProtocolType::IPv4.code());
        // Ethernet and IPv4 addresses have a fixed length.
        put_u8(buffer, 0x06);
        put_u8(buffer, 0x04);
        put_u16(buffer, self.operation.code());
        put_slice(buffer, &self.sender_hardware_addr.octets());
        put_slice(buffer, &self.sender_protocol_addr.octets());
        put_slice(buffer, &self.target_hardware_addr.octets());
        put_slice(buffer, &self.target_protocol_addr.octets());
        assert(bytes_mut_contents(*buffer) =~= bytes_mut_contents(*old(buffer)) + self.encoding());
    }
}

/// A message is written in as many bytes as it reports, and reading what was written, whatever
/// follows it, gives the message back.
pub proof fn arp_round_trip(message: ArpMessage, rest: Seq<u8>)
    ensures
        message.encoding().len() == 28,
        parse_arp(message.encoding() + rest) == Ok::<ArpMessage, (ErrorKind, Seq<char>)>(message),
{
    broadcast use be16_round_trip;
    broadcast use ipv4_round_trip;

    let bytes = message.encoding() + rest;
    let sender = message.sender_protocol_addr.spec_octets();
    let target = message.target_protocol_addr.spec_octets();
    assert(bytes.subrange(14, 18) =~= sender);
    assert(bytes.subrange(24, 28) =~= target);
    assert(bytes[14] == sender[0] && bytes[15] == sender[1] && bytes[16] == sender[2] && bytes[17]
        == sender[3]);
    assert(bytes[24] == target[0] && bytes[25] == target[1] && bytes[26] == target[2] && bytes[27]
        == target[3]);
    assert(mac_at(bytes, 8) == message.sender_hardware_addr);
    assert(mac_at(bytes, 18) == message.target_hardware_addr);
    assert(be16_at(bytes, 6) == message.operation.encode());
    assert(be16_at(bytes, 0) == 1);
    assert(be16_at(bytes, 2) == 0x0800);
}

/// An answer goes to the one who asked, and names the one who answers.
pub proof fn arp_reply_swaps_ends(message: ArpMessage, mac: MacAddr, ipv4: Ipv4Addr)
    ensures
        ({
            let reply = message.reply(mac, ipv4);
            &&& reply.operation == Operation::Reply
            &&& reply.target_hardware_addr == message.sender_hardware_addr
            &&& reply.target_protocol_addr == message.sender_protocol_addr
            &&& reply.sender_hardware_addr == mac
            &&& reply.sender_protocol_addr == ipv4
            &&& reply.create_ethernet().destination_address == message.sender_hardware_addr
        }),
{
}

/// The senders that were seen.
#[derive(Debug)]
pub struct ArpResponder {
    pub seen: Vec<(MacAddr, Ipv4Addr)>,
}

impl ArpResponder {
    /// Nobody is there twice.
    pub open spec fn wf(self) -> bool {
        forall|i: int, j: int|
            0 <= i < j < self.seen@.len() ==> #[trigger] self.seen@[i] != #[trigger] self.seen@[j]
    }

    /// Nobody was seen.
    pub fn new() -> (responder: Self)
        ensures
            responder.wf(),
            responder.seen@.len() == 0,
    {
        ArpResponder { seen: Vec::new() }
    }

    /// Records the sender of a message, and answers it whatever it asks for: the header of the
    /// frame that carries the answer, and the answer.
    pub fn handle(
        &mut self,
        frame: &EthernetHeader,
        message: &ArpMessage,
        our_mac: MacAddr,
        our_ip: Ipv4Addr,
    ) -> (answer: (EthernetHeader, ArpMessage))
        requires
            old(self).wf(),
        ensures
            final(self).wf(),
            ({
                let sender = (message.sender_hardware_addr, message.sender_protocol_addr);
                final(self).seen@ == (if old(self).seen@.contains(sender) {
                    old(self).seen@
                } else {
                    old(self).seen@.push(sender)
                })
            }),
            answer.0 == (EthernetHeader {
                destination_address: frame.source_address,
                source_address: our_mac,
                ..*frame
            }),
            answer.1 == message.reply(our_mac, our_ip),
    {
        let sender = (message.sender_hardware_addr, message.sender_protocol_addr);
        let mut known: bool = false;
        let mut i: usize = 0;
        while i < self.seen.len() && !known
            invariant
                i <= self.seen@.len(),
                known == self.seen@.take(i as int).contains(sender),
            decreases self.seen@.len() - i,
        {
            let (mac, address) = self.seen[i];
            let ghost before = self.seen@.take(i as int);
            assert(self.seen@.take(i + 1) =~= before.push((mac, address)));
            known = mac == sender.0 && address == sender.1;
            proof {
                let after = self.seen@.take(i + 1);
                if known {
                    assert(after[i as int] == sender);
                } else if after.contains(sender) {
                    let k = choose|k: int| 0 <= k < after.len() && after[k] == sender;
                    assert(before[k] == sender);
                }
            }
            i = i + 1;
        }
        proof {
            let looked = self.seen@.take(i as int);
            if known {
                let k = choose|k: int| 0 <= k < looked.len() && looked[k] == sender;
                assert(self.seen@[k] == sender);
            } else {
                assert(looked =~= self.seen@);
            }
        }
        if !known {
            self.seen.push(sender);
        }
        let header = EthernetHeader {
            destination_address: frame.source_address,
            source_address: our_mac,
            ether_type: frame.ether_type,
            vlan: frame.vlan,
        };
        (header, message.reply(our_mac, our_ip))
    }
}

} // verus!
