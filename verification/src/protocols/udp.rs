//! The user datagram protocol.

use super::ipv4::IPProtocolTypes;
use crate::buffer::{
    be16_at, be16_bytes, be16_round_trip, bytes_mut_contents, put_slice, put_u16, read_be16,
};
use crate::checksum::{checksum_of, Summation};
use crate::common::{outcome, Error, ErrorKind};
use crate::net::Ipv4Addr;
use crate::write_to_buffer::WriteToBuffer;
use bytes::BytesMut;
use vstd::prelude::*;
use vstd::slice::slice_subrange;

verus! {

/// The header of a datagram.
#[derive(Debug, PartialEq, Eq, Clone, Copy)]
pub struct UdpHeader {
    pub source_port: u16,
    pub destination_port: u16,
    /// The number of bytes of the datagram, header included.
    pub length: u16,
    pub checksum: [u8; 2],
}

/// The header at the start of a datagram.
pub open spec fn parse_udp(bytes: Seq<u8>) -> Result<UdpHeader, (ErrorKind, Seq<char>)> {
    if bytes.len() < 8 {
        Err((ErrorKind::UnexpectedEof, "Invalid length for UDP header"@))
    } else {
        Ok(
            UdpHeader {
                source_port: be16_at(bytes, 0),
                destination_port: be16_at(bytes, 2),
                length: be16_at(bytes, 4),
                checksum: [bytes[6], bytes[7]],
            },
        )
    }
}

impl UdpHeader {
    pub const LENGTH: usize = 8;

    /// What the checksum of a datagram is computed of: the addresses, the protocol and the length
    /// in front of the datagram, whose own checksum is taken as zero.
    pub open spec fn checksummed_v4(
        self,
        source_addr: Ipv4Addr,
        destination_addr: Ipv4Addr,
        data: Seq<u8>,
    ) -> Seq<u8> {
        source_addr.spec_octets() + destination_addr.spec_octets() + seq![0u8, 17u8] + be16_bytes(
            self.length,
        ) + be16_bytes(self.source_port) + be16_bytes(self.destination_port) + be16_bytes(
            self.length,
        ) + seq![0u8, 0u8] + data.take(self.length - 8)
    }

    /// The checksum of a datagram. Zero would say that there is none, so all ones stand for it.
    pub open spec fn checksum_v4(
        self,
        source_addr: Ipv4Addr,
        destination_addr: Ipv4Addr,
        data: Seq<u8>,
    ) -> [u8; 2] {
        let checksum = checksum_of(self.checksummed_v4(source_addr, destination_addr, data));
        if checksum == 0 {
            [0xffu8, 0xffu8]
        } else {
            [(checksum / 256) as u8, (checksum % 256) as u8]
        }
    }

    /// Whether `data` holds the payload that the header announces.
    pub open spec fn announces(self, data: Seq<u8>) -> bool {
        8 <= self.length <= 8 + data.len()
    }

    /// The header of a datagram with a payload of the given length. Its checksum is still to be
    /// computed.
    pub fn new(source_port: u16, destination_port: u16, payload_length: u16) -> (header: Self)
        requires
            payload_length + 8 <= u16::MAX,
        ensures
            header == (UdpHeader {
                source_port,
                destination_port,
                length: (payload_length + 8) as u16,
                checksum: [0u8, 0u8],
            }),
    {
        UdpHeader { source_port, destination_port, length: payload_length + 8, checksum: [0, 0] }
    }

    /// Reads the header at the start of a datagram.
    pub fn from_bytes(bytes: &[u8]) -> (result: Result<Self, Error>)
        ensures
            outcome(result) == parse_udp(bytes@),
    {
        if bytes.len() < Self::LENGTH {
            return Err(Error::new(ErrorKind::UnexpectedEof, "Invalid length for UDP header"));
        }
        Ok(
            UdpHeader {
                source_port: read_be16(bytes, 0),
                destination_port: read_be16(bytes, 2),
                length: read_be16(bytes, 4),
                checksum: [bytes[6], bytes[7]],
            },
        )
    }

    /// Computes the checksum of the datagram with this header and the given payload.
    pub fn compute_checksum_v4(
        &self,
        source_addr: &Ipv4Addr,
        destination_addr: &Ipv4Addr,
        data: &[u8],
    ) -> (checksum: [u8; 2])
        requires
            self.announces(data@),
        ensures
            checksum == self.checksum_v4(*source_addr, *destination_addr, data@),
    {
        let length = [(self.length / 256) as u8, (self.length % 256) as u8];
        let mut sum = Summation::new();
        sum.add_bytes(&source_addr.octets());
        sum.add_bytes(&destination_addr.octets());
        sum.add_bytes(&[0x00, IPProtocolTypes::UDP.code()]);
        sum.add_bytes(&length);
        sum.add_bytes(&[(self.source_port / 256) as u8, (self.source_port % 256) as u8]);
        sum.add_bytes(&[(self.destination_port / 256) as u8, (self.destination_port % 256) as u8]);
        sum.add_bytes(&length);
        sum.add_bytes(&[0x00, 0x00]);
        sum.add_bytes(slice_subrange(data, 0, self.length as usize - Self::LENGTH));
        assert(data@.subrange(0, self.length - 8) =~= data@.take(self.length - 8));
        assert(sum@ =~= self.checksummed_v4(*source_addr, *destination_addr, data@));
        let checksum: u16 = sum.finish();
        if checksum == 0 {
            [0xff, 0xff]
        } else {
            [(checksum / 256) as u8, (checksum % 256) as u8]
        }
    }

    /// Whether the checksum is the one of the datagram with this header and the given payload.
    pub fn validate_checksum_v4(
        &self,
        source_addr: &Ipv4Addr,
        destination_addr: &Ipv4Addr,
        data: &[u8],
    ) -> (valid: bool)
        requires
            self.announces(data@),
        ensures
            valid == (self.checksum == self.checksum_v4(*source_addr, *destination_addr, data@)),
    {
        let checksum = self.compute_checksum_v4(source_addr, destination_addr, data);
        assert(checksum =~= self.checksum <==> checksum@ =~= self.checksum@);
        checksum[0] == self.checksum[0] && checksum[1] == self.checksum[1]
    }

    /// Fills the checksum in.
    pub fn compute_and_update_checksum_v4(
        &mut self,
        source_addr: &Ipv4Addr,
        destination_addr: &Ipv4Addr,
        data: &[u8],
    )
        requires
            old(self).announces(data@),
        ensures
            *final(self) == (UdpHeader {
                checksum: old(self).checksum_v4(*source_addr, *destination_addr, data@),
                ..*old(self)
            }),
    {
        self.checksum = self.compute_checksum_v4(source_addr, destination_addr, data);
    }

    /// The number of bytes of the datagram, header included.
    pub fn datagram_length(&self) -> (length: usize)
        ensures
            length == self.length,
    {
        self.length as usize
    }

    /// The port that the datagram is for.
    pub fn destination_port(&self) -> (port: u16)
        ensures
            port == self.destination_port,
    {
        self.destination_port
    }

    /// The port that the datagram comes from.
    pub fn source_port(&self) -> (port: u16)
        ensures
            port == self.source_port,
    {
        self.source_port
    }
}

impl WriteToBuffer for UdpHeader {
    open spec fn encoding(&self) -> Seq<u8> {
        be16_bytes(self.source_port) + be16_bytes(self.destination_port) + be16_bytes(self.length)
            + self.checksum@
    }

    open spec fn reported(&self) -> nat {
        self.encoding().len()
    }

    open spec fn encodable(&self) -> bool {
        true
    }

    fn encoded_length(&self) -> (length: usize) {
        Self::LENGTH
    }

    fn write_to_buffer(&self, buffer: &mut BytesMut) {
        put_u16(buffer, self.source_port);
        put_u16(buffer, self.destination_port);
        put_u16(buffer, self.length);
        put_slice(buffer, &self.checksum);
        assert(bytes_mut_contents(*buffer) =~= bytes_mut_contents(*old(buffer)) + self.encoding());
    }
}

/// A header is written in as many bytes as it reports, and reading what was written, whatever
/// follows it, gives the header back.
pub proof fn udp_round_trip(header: UdpHeader, rest: Seq<u8>)
    ensures
        header.encoding().len() == 8,
        parse_udp(header.encoding() + rest) == Ok::<UdpHeader, (ErrorKind, Seq<char>)>(header),
{
    broadcast use be16_round_trip;

    let bytes = header.encoding() + rest;
    assert(be16_at(bytes, 0) == header.source_port);
    assert(be16_at(bytes, 2) == header.destination_port);
    assert(be16_at(bytes, 4) == header.length);
    assert([bytes[6], bytes[7]]@ =~= header.checksum@);
    assert([bytes[6], bytes[7]] =~= header.checksum);
}

/// A datagram whose checksum was filled in is valid: the checksum does not depend on the field
/// that holds it. It is never zero.
pub proof fn udp_checksum_valid_once_filled_in(
    header: UdpHeader,
    source_addr: Ipv4Addr,
    destination_addr: Ipv4Addr,
    data: Seq<u8>,
)
    requires
        header.announces(data),
    ensures
        ({
            let filled = UdpHeader {
                checksum: header.checksum_v4(source_addr, destination_addr, data),
                ..header
            };
            &&& filled.checksum == filled.checksum_v4(source_addr, destination_addr, data)
            &&& filled.checksum@ != seq![0u8, 0u8]
        }),
{
}

} // verus!
