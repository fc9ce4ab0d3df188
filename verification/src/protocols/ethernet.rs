//! The link layer header.

pub mod mac;

use crate::buffer::{
    as_slice, be16_at, be16_bytes, be16_round_trip, bytes_contents, bytes_mut_contents, put_slice,
    put_u16, read_be16,
};
use crate::common::{err_as_eof, outcome, Error, ErrorKind};
use crate::text::{decimal, hex, push_decimal, push_hex};
use crate::write_to_buffer::WriteToBuffer;
use bytes::{Bytes, BytesMut};
use mac::{mac_at, MacAddr};
use vstd::prelude::*;
use vstd::slice::slice_subrange;
use vstd::string::*;

verus! {

pub const ETHER_TYPE_IPV4: u16 = 0x0800;

pub const ETHER_TYPE_ARP: u16 = 0x0806;

pub const ETHER_TYPE_VLAN: u16 = 0x8100;

pub const ETHER_TYPE_IPV6: u16 = 0x86dd;

/// The largest value of the type field that is a length.
pub const MAX_LENGTH_FIELD: u16 = 0x05dc;

/// What a frame carries.
#[derive(Debug, PartialEq, Eq, Clone, Copy, Structural)]
pub enum EtherType {
    Ieee8023LengthField(u16),
    IPv4,
    ARP,
    VLAN,
    IPv6,
    Other(u16),
}

impl EtherType {
    /// What a type field of this value stands for.
    pub open spec fn decode(code: u16) -> Self {
        if code <= MAX_LENGTH_FIELD {
            EtherType::Ieee8023LengthField(code)
        } else if code == ETHER_TYPE_IPV4 {
            EtherType::IPv4
        } else if code == ETHER_TYPE_ARP {
            EtherType::ARP
        } else if code == ETHER_TYPE_VLAN {
            EtherType::VLAN
        } else if code == ETHER_TYPE_IPV6 {
            EtherType::IPv6
        } else {
            EtherType::Other(code)
        }
    }

    /// The value of the type field.
    pub open spec fn encode(self) -> u16 {
        match self {
            EtherType::Ieee8023LengthField(code) => code,
            EtherType::IPv4 => ETHER_TYPE_IPV4,
            EtherType::ARP => ETHER_TYPE_ARP,
            EtherType::VLAN => ETHER_TYPE_VLAN,
            EtherType::IPv6 => ETHER_TYPE_IPV6,
            EtherType::Other(code) => code,
        }
    }

    /// Whether this is what its own code stands for. `Other(0x0800)`, say, is not.
    pub open spec fn canonical(self) -> bool {
        Self::decode(self.encode()) == self
    }

    /// What a type field of this value stands for.
    pub fn from_code(code: u16) -> (ether_type: Self)
        ensures
            ether_type == Self::decode(code),
    {
        if code <= MAX_LENGTH_FIELD {
            EtherType::Ieee8023LengthField(code)
        } else {
            match code {
                ETHER_TYPE_IPV4 => EtherType::IPv4,
                ETHER_TYPE_ARP => EtherType::ARP,
                ETHER_TYPE_VLAN => EtherType::VLAN,
                ETHER_TYPE_IPV6 => EtherType::IPv6,
                _ => EtherType::Other(code),
            }
        }
    }

    /// Reads a type field. A slice of another length than two is none.
    pub fn try_from(value: &[u8]) -> (result: Result<Self, Error>)
        ensures
            outcome(result) == (if value@.len() == 2 {
                Ok(Self::decode(be16_at(value@, 0)))
            } else {
                Err(
                    (
                        ErrorKind::UnexpectedEof,
                        crate::common::caused_by(
                            "failed to decode EtherType"@,
                            "could not convert slice to array"@,
                        ),
                    ),
                )
            }),
    {
        if value.len() != 2 {
            return Err(
                err_as_eof("failed to decode EtherType", "could not convert slice to array"),
            );
        }
        Ok(EtherType::from_code(read_be16(value, 0)))
    }

    /// What is shown of the type.
    pub open spec fn shown(self) -> Seq<char> {
        match self {
            EtherType::Ieee8023LengthField(length) => "Len("@ + decimal(length as nat) + ")"@,
            EtherType::IPv4 => "IPv4"@,
            EtherType::ARP => "ARP"@,
            EtherType::VLAN => "VLAN"@,
            EtherType::IPv6 => "IPv6"@,
            EtherType::Other(code) => "0x"@ + hex(code as nat, 4),
        }
    }

    /// The type as text: its name, or its value to the base sixteen, or the length that it is.
    pub fn to_text(&self) -> (text: String)
        ensures
            text@ == self.shown(),
    {
        match *self {
            EtherType::Ieee8023LengthField(length) => {
                let mut text: String = "Len(".to_owned();
                push_decimal(&mut text, length as u64);
                text.append(")");
                text
            },
            EtherType::IPv4 => "IPv4".to_owned(),
            EtherType::ARP => "ARP".to_owned(),
            EtherType::VLAN => "VLAN".to_owned(),
            EtherType::IPv6 => "IPv6".to_owned(),
            EtherType::Other(code) => {
                let mut text: String = "0x".to_owned();
                push_hex(&mut text, code as u64, 4);
                text
            },
        }
    }

    /// The value of the type field.
    pub fn code(&self) -> (code: u16)
        ensures
            code == self.encode(),
    {
        match *self {
            EtherType::Ieee8023LengthField(code) => code,
            EtherType::IPv4 => ETHER_TYPE_IPV4,
            EtherType::ARP => ETHER_TYPE_ARP,
            EtherType::VLAN => ETHER_TYPE_VLAN,
            EtherType::IPv6 => ETHER_TYPE_IPV6,
            EtherType::Other(code) => code,
        }
    }
}

/// Reading a type field and writing it gives the field back, whatever its value.
pub proof fn ether_type_round_trip(code: u16)
    ensures
        EtherType::decode(code).encode() == code,
        EtherType::decode(code).canonical(),
{
}

/// The header of a frame.
#[derive(Debug, PartialEq, Eq, Clone, Copy, Structural)]
pub struct EthernetHeader {
    pub destination_address: MacAddr,
    pub source_address: MacAddr,
    pub ether_type: EtherType,
    pub vlan: Option<u16>,
}

/// Whether the bytes hold the whole of a header: fourteen bytes, and four more where the type
/// field announces a VLAN tag. Fewer than fourteen are reported as an error.
pub open spec fn header_complete(bytes: Seq<u8>) -> bool {
    bytes.len() >= 14 && EtherType::decode(be16_at(bytes, 12)) == EtherType::VLAN ==> bytes.len()
        >= 18
}

/// Whether the bytes hold the whole of a header, or too little to be looked at.
pub fn is_header_complete(bytes: &[u8]) -> (result: bool)
    ensures
        result == header_complete(bytes@),
{
    bytes.len() < 14 || bytes.len() >= 18 || EtherType::from_code(read_be16(bytes, 12))
        != EtherType::VLAN
}

/// The header at the start of a frame.
pub open spec fn parse_header(bytes: Seq<u8>) -> Result<EthernetHeader, (ErrorKind, Seq<char>)> {
    if bytes.len() < 14 {
        Err((ErrorKind::UnexpectedEof, "ethernet header too short"@))
    } else {
        let outer = EtherType::decode(be16_at(bytes, 12));
        let tagged = outer == EtherType::VLAN;
        Ok(
            EthernetHeader {
                destination_address: mac_at(bytes, 0),
                source_address: mac_at(bytes, 6),
                ether_type: if tagged {
                    EtherType::decode(be16_at(bytes, 16))
                } else {
                    outer
                },
                vlan: if tagged {
                    Some(be16_at(bytes, 14))
                } else {
                    None
                },
            },
        )
    }
}

impl EthernetHeader {
    /// How many bytes the header takes.
    pub open spec fn length(self) -> nat {
        if self.vlan is Some {
            18
        } else {
            14
        }
    }

    pub const MIN_LENGTH: usize = 14;

    pub const MAX_LENGTH: usize = 18;

    /// The header of an untagged frame.
    pub fn new(ether_type: EtherType, source: MacAddr, destination: MacAddr) -> (header: Self)
        ensures
            header == (EthernetHeader {
                destination_address: destination,
                source_address: source,
                ether_type,
                vlan: None,
            }),
    {
        EthernetHeader {
            destination_address: destination,
            source_address: source,
            ether_type,
            vlan: None,
        }
    }

    /// Reads the header at the start of a frame.
    pub fn from_bytes(bytes: &Bytes) -> (result: Result<Self, Error>)
        requires
            header_complete(bytes_contents(*bytes)),
        ensures
            outcome(result) == parse_header(bytes_contents(*bytes)),
    {
        let bytes = as_slice(bytes);
        if bytes.len() < Self::MIN_LENGTH {
            return Err(Error::new(ErrorKind::UnexpectedEof, "ethernet header too short"));
        }
        let mut ether_type = EtherType::from_code(read_be16(bytes, 12));
        let mut vlan: Option<u16> = None;
        if ether_type == EtherType::VLAN {
            vlan = Some(read_be16(bytes, 14));
            ether_type = EtherType::from_code(read_be16(bytes, 16));
        }
        Ok(
            EthernetHeader {
                destination_address: MacAddr::read(bytes, 0),
                source_address: MacAddr::read(bytes, 6),
                ether_type,
                vlan,
            },
        )
    }

    /// Where the frame goes.
    pub fn destination_address(&self) -> (mac: MacAddr)
        ensures
            mac == self.destination_address,
    {
        self.destination_address
    }

    /// Where the frame comes from.
    pub fn source_address(&self) -> (mac: MacAddr)
        ensures
            mac == self.source_address,
    {
        self.source_address
    }

    /// What the frame carries.
    pub fn ether_type(&self) -> (ether_type: EtherType)
        ensures
            ether_type == self.ether_type,
    {
        self.ether_type
    }
}

impl WriteToBuffer for EthernetHeader {
    open spec fn encoding(&self) -> Seq<u8> {
        self.destination_address.spec_octets() + self.source_address.spec_octets() + (
        match self.vlan {
            Some(vlan) => be16_bytes(ETHER_TYPE_VLAN) + be16_bytes(vlan),
            None => Seq::empty(),
        }) + be16_bytes(self.ether_type.encode())
    }

    open spec fn reported(&self) -> nat {
        self.encoding().len()
    }

    open spec fn encodable(&self) -> bool {
        true
    }

    fn encoded_length(&self) -> (length: usize) {
        match self.vlan {
            None => 14,
            Some(_) => 18,
        }
    }

    fn write_to_buffer(&self, buffer: &mut BytesMut) {
        put_slice(buffer, &self.destination_address.octets());
        put_slice(buffer, &self.source_address.octets());
        if let Some(vlan) = self.vlan {
            put_u16(buffer, ETHER_TYPE_VLAN);
            put_u16(buffer, vlan);
        }
        put_u16(buffer, self.ether_type.code());
        assert(bytes_mut_contents(*buffer) =~= bytes_mut_contents(*old(buffer)) + self.encoding());
    }
}

/// A header is written in as many bytes as it reports, and reading what was written, whatever
/// follows it, gives the header back: where its type is the one that its code stands for and, in
/// an untagged header, is not the mark of a tag.
pub proof fn ethernet_round_trip(header: EthernetHeader, rest: Seq<u8>)
    requires
        header.ether_type.canonical(),
        header.vlan is None ==> header.ether_type != EtherType::VLAN,
    ensures
        header.encoding().len() == header.length(),
        header_complete(header.encoding() + rest),
        parse_header(header.encoding() + rest) == Ok::<EthernetHeader, (ErrorKind, Seq<char>)>(
            header,
        ),
{
    broadcast use be16_round_trip;

    let bytes = header.encoding() + rest;
    assert(mac_at(bytes, 0) == header.destination_address);
    assert(mac_at(bytes, 6) == header.source_address);
    let code = be16_bytes(header.ether_type.encode());
    match header.vlan {
        Some(vlan) => {
            assert(bytes[12] == be16_bytes(ETHER_TYPE_VLAN)[0]);
            assert(bytes[13] == be16_bytes(ETHER_TYPE_VLAN)[1]);
            assert(bytes[14] == be16_bytes(vlan)[0] && bytes[15] == be16_bytes(vlan)[1]);
            assert(bytes[16] == code[0] && bytes[17] == code[1]);
        },
        None => {
            assert(bytes[12] == code[0] && bytes[13] == code[1]);
        },
    }
}

/// A frame, with its header taken apart and its payload in place.
#[derive(Debug)]
pub struct Ethernet<'a> {
    pub destination_address: MacAddr,
    pub source_address: MacAddr,
    pub ether_type: EtherType,
    pub vlan: Option<u16>,
    pub payload: &'a [u8],
}

impl<'a> Ethernet<'a> {
    /// The header of the frame.
    pub open spec fn header(self) -> EthernetHeader {
        EthernetHeader {
            destination_address: self.destination_address,
            source_address: self.source_address,
            ether_type: self.ether_type,
            vlan: self.vlan,
        }
    }

    /// Takes a frame apart.
    pub fn from_bytes(bytes: &'a [u8]) -> (frame: Self)
        requires
            bytes@.len() >= 14,
            header_complete(bytes@),
        ensures
            parse_header(bytes@) == Ok::<EthernetHeader, (ErrorKind, Seq<char>)>(frame.header()),
            frame.payload@ == bytes@.skip(frame.header().length() as int),
    {
        let mut ether_type = EtherType::from_code(read_be16(bytes, 12));
        let mut vlan: Option<u16> = None;
        let mut header_size: usize = 14;
        if ether_type == EtherType::VLAN {
            vlan = Some(read_be16(bytes, 14));
            ether_type = EtherType::from_code(read_be16(bytes, 16));
            header_size = 18;
        }
        let payload = slice_subrange(bytes, header_size, bytes.len());
        assert(payload@ =~= bytes@.skip(header_size as int));
        Ethernet {
            destination_address: MacAddr::read(bytes, 0),
            source_address: MacAddr::read(bytes, 6),
            ether_type,
            vlan,
            payload,
        }
    }

    /// The number of bytes of the header.
    pub fn len(&self) -> (length: usize)
        ensures
            length == self.header().length(),
    {
        match self.vlan {
            None => 14,
            Some(_) => 18,
        }
    }

    /// The header of the answer to this frame.
    pub open spec fn reply_header(self, our_mac: MacAddr) -> EthernetHeader {
        EthernetHeader {
            destination_address: self.source_address,
            source_address: our_mac,
            ..self.header()
        }
    }

    /// The header of the answer to this frame: it goes where the frame came from, under the same
    /// tag and type.
    pub fn reply(&self, our_mac: MacAddr) -> (header: EthernetHeader)
        ensures
            header == self.reply_header(our_mac),
    {
        EthernetHeader {
            destination_address: self.source_address,
            source_address: our_mac,
            ether_type: self.ether_type,
            vlan: self.vlan,
        }
    }
}

} // verus!
