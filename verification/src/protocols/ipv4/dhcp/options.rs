//! The options that a DHCP message carries.

use crate::buffer::{
    be16_at, be16_bytes, be16_round_trip, be32_at, be32_bytes, be32_round_trip, bytes_mut_contents,
    has_room, put_slice, put_u16, put_u32, put_u8, read_be16, read_be32,
};
use crate::net::{ipv4_at, ipv4_round_trip, Ipv4Addr};
use crate::protocols::ethernet::mac::{mac_at, MacAddr};
use crate::text::text_from_utf8;
use crate::write_to_buffer::WriteToBuffer;
use bytes::BytesMut;
use vstd::arithmetic::div_mod::{
    lemma_fundamental_div_mod, lemma_fundamental_div_mod_converse,
};
use vstd::prelude::*;
use vstd::slice::slice_to_vec;
use vstd::string::*;
use vstd::utf8::{decode_utf8, encode_utf8, encode_utf8_decode_utf8, encode_utf8_valid_utf8, valid_utf8};

verus! {

/// Which of the fixed fields of a message hold options.
#[derive(Debug, PartialEq, Eq, Clone, Copy, Structural)]
pub enum OptionsOverload {
    File,
    ServerName,
    Both,
}

impl OptionsOverload {
    pub open spec fn decode(value: u8) -> Option<Self> {
        match value {
            1 => Some(OptionsOverload::File),
            2 => Some(OptionsOverload::ServerName),
            3 => Some(OptionsOverload::Both),
            _ => None,
        }
    }

    pub open spec fn encode(self) -> u8 {
        match self {
            OptionsOverload::File => 1,
            OptionsOverload::ServerName => 2,
            OptionsOverload::Both => 3,
        }
    }

    /// The value that stands for these fields.
    pub fn value(&self) -> (value: u8)
        ensures
            value == self.encode(),
    {
        match *self {
            OptionsOverload::File => 1,
            OptionsOverload::ServerName => 2,
            OptionsOverload::Both => 3,
        }
    }
}

/// The type of a message.
#[derive(Debug, PartialEq, Eq, Clone, Copy, Structural)]
pub enum DHCPMessageType {
    Discover,
    Offer,
    Request,
    Decline,
    Ack,
    Nak,
    Release,
}

impl DHCPMessageType {
    pub open spec fn decode(value: u8) -> Option<Self> {
        match value {
            1 => Some(DHCPMessageType::Discover),
            2 => Some(DHCPMessageType::Offer),
            3 => Some(DHCPMessageType::Request),
            4 => Some(DHCPMessageType::Decline),
            5 => Some(DHCPMessageType::Ack),
            6 => Some(DHCPMessageType::Nak),
            7 => Some(DHCPMessageType::Release),
            _ => None,
        }
    }

    pub open spec fn encode(self) -> u8 {
        match self {
            DHCPMessageType::Discover => 1,
            DHCPMessageType::Offer => 2,
            DHCPMessageType::Request => 3,
            DHCPMessageType::Decline => 4,
            DHCPMessageType::Ack => 5,
            DHCPMessageType::Nak => 6,
            DHCPMessageType::Release => 7,
        }
    }

    /// The value that stands for this type.
    pub fn value(&self) -> (value: u8)
        ensures
            value == self.encode(),
    {
        match *self {
            DHCPMessageType::Discover => 1,
            DHCPMessageType::Offer => 2,
            DHCPMessageType::Request => 3,
            DHCPMessageType::Decline => 4,
            DHCPMessageType::Ack => 5,
            DHCPMessageType::Nak => 6,
            DHCPMessageType::Release => 7,
        }
    }
}

/// How the data of an option is laid out.
pub enum Format {
    /// One address.
    Address,
    /// One or more addresses.
    Addresses,
    /// One or more pairs of addresses.
    Routes,
    /// A 16-bit integer.
    Number16,
    /// A 32-bit integer.
    Number32,
    /// A signed 32-bit integer.
    Signed32,
    /// One or more 16-bit integers.
    Sizes,
    /// UTF-8 text.
    Text,
    /// The value of an [`OptionsOverload`].
    Overload,
    /// The value of a [`DHCPMessageType`].
    MessageType,
    /// Any bytes.
    Codes,
    /// The hardware type of Ethernet and a link layer address.
    Hardware,
}

/// What the data of an option says.
pub enum OptionData {
    Address(Ipv4Addr),
    Addresses(Seq<Ipv4Addr>),
    Routes(Seq<(Ipv4Addr, Ipv4Addr)>),
    Number16(u16),
    Number32(u32),
    Signed32(i32),
    Sizes(Seq<u16>),
    Text(Seq<char>),
    Overload(OptionsOverload),
    MessageType(DHCPMessageType),
    Codes(Seq<u8>),
    Hardware(MacAddr),
}

/// What an option says: its code and its data.
pub type OptionView = (OptionCode, OptionData);

/// The signed integer with the given two's complement representation.
pub open spec fn signed(value: u32) -> i32 {
    if value < 0x8000_0000 {
        value as i32
    } else {
        (value - 0x1_0000_0000) as i32
    }
}

/// The two's complement representation of a signed integer.
pub open spec fn unsigned(value: i32) -> u32 {
    if value >= 0 {
        value as u32
    } else {
        (value + 0x1_0000_0000) as u32
    }
}

/// The octets of addresses, one address after the other.
pub open spec fn address_bytes(addresses: Seq<Ipv4Addr>) -> Seq<u8> {
    Seq::new(addresses.len() * 4, |i: int| addresses[i / 4].spec_octets()[i % 4])
}

/// The octets of pairs of addresses, one pair after the other.
pub open spec fn route_bytes(routes: Seq<(Ipv4Addr, Ipv4Addr)>) -> Seq<u8> {
    Seq::new(
        routes.len() * 8,
        |i: int|
            if i % 8 < 4 {
                routes[i / 8].0.spec_octets()[i % 8]
            } else {
                routes[i / 8].1.spec_octets()[i % 8 - 4]
            },
    )
}

/// The bytes of 16-bit integers, one integer after the other.
pub open spec fn size_bytes(sizes: Seq<u16>) -> Seq<u8> {
    Seq::new(sizes.len() * 2, |i: int| be16_bytes(sizes[i / 2])[i % 2])
}

/// What the data of an option of the given layout says, if anything. Bytes after the last whole
/// element of a list are passed over.
pub open spec fn decode_data(format: Format, data: Seq<u8>) -> Option<OptionData> {
    match format {
        Format::Address => if data.len() == 4 {
            Some(OptionData::Address(ipv4_at(data, 0)))
        } else {
            None
        },
        Format::Addresses => if data.len() >= 4 {
            Some(
                OptionData::Addresses(Seq::new(data.len() / 4, |i: int| ipv4_at(data, 4 * i))),
            )
        } else {
            None
        },
        Format::Routes => if data.len() >= 8 {
            Some(
                OptionData::Routes(
                    Seq::new(
                        data.len() / 8,
                        |i: int| (ipv4_at(data, 8 * i), ipv4_at(data, 8 * i + 4)),
                    ),
                ),
            )
        } else {
            None
        },
        Format::Number16 => if data.len() == 2 {
            Some(OptionData::Number16(be16_at(data, 0)))
        } else {
            None
        },
        Format::Number32 => if data.len() == 4 {
            Some(OptionData::Number32(be32_at(data, 0)))
        } else {
            None
        },
        Format::Signed32 => if data.len() == 4 {
            Some(OptionData::Signed32(signed(be32_at(data, 0))))
        } else {
            None
        },
        Format::Sizes => if data.len() >= 2 {
            Some(OptionData::Sizes(Seq::new(data.len() / 2, |i: int| be16_at(data, 2 * i))))
        } else {
            None
        },
        Format::Text => if valid_utf8(data) {
            Some(OptionData::Text(decode_utf8(data)))
        } else {
            None
        },
        Format::Overload => if data.len() == 1 {
            match OptionsOverload::decode(data[0]) {
                Some(overload) => Some(OptionData::Overload(overload)),
                None => None,
            }
        } else {
            None
        },
        Format::MessageType => if data.len() == 1 {
            match DHCPMessageType::decode(data[0]) {
                Some(message_type) => Some(OptionData::MessageType(message_type)),
                None => None,
            }
        } else {
            None
        },
        Format::Codes => Some(OptionData::Codes(data)),
        Format::Hardware => if data.len() == 7 && data[0] == 1 {
            Some(OptionData::Hardware(mac_at(data, 1)))
        } else {
            None
        },
    }
}

impl OptionData {
    /// The bytes that say this.
    pub open spec fn wire(self) -> Seq<u8> {
        match self {
            OptionData::Address(address) => address.spec_octets(),
            OptionData::Addresses(addresses) => address_bytes(addresses),
            OptionData::Routes(routes) => route_bytes(routes),
            OptionData::Number16(value) => be16_bytes(value),
            OptionData::Number32(value) => be32_bytes(value),
            OptionData::Signed32(value) => be32_bytes(unsigned(value)),
            OptionData::Sizes(sizes) => size_bytes(sizes),
            OptionData::Text(text) => encode_utf8(text),
            OptionData::Overload(overload) => seq![overload.encode()],
            OptionData::MessageType(message_type) => seq![message_type.encode()],
            OptionData::Codes(codes) => codes,
            OptionData::Hardware(mac) => seq![1u8] + mac.spec_octets(),
        }
    }

    /// How this is laid out.
    pub open spec fn format(self) -> Format {
        match self {
            OptionData::Address(_) => Format::Address,
            OptionData::Addresses(_) => Format::Addresses,
            OptionData::Routes(_) => Format::Routes,
            OptionData::Number16(_) => Format::Number16,
            OptionData::Number32(_) => Format::Number32,
            OptionData::Signed32(_) => Format::Signed32,
            OptionData::Sizes(_) => Format::Sizes,
            OptionData::Text(_) => Format::Text,
            OptionData::Overload(_) => Format::Overload,
            OptionData::MessageType(_) => Format::MessageType,
            OptionData::Codes(_) => Format::Codes,
            OptionData::Hardware(_) => Format::Hardware,
        }
    }

    /// Whether a list has an element and the data fits behind a length of one byte.
    pub open spec fn presentable(self) -> bool {
        &&& self.wire().len() <= 255
        &&& match self {
            OptionData::Addresses(addresses) => addresses.len() > 0,
            OptionData::Routes(routes) => routes.len() > 0,
            OptionData::Sizes(sizes) => sizes.len() > 0,
            _ => true,
        }
    }
}

/// Reading the data of an option as it was written says what was written.
pub proof fn option_data_round_trip(data: OptionData)
    requires
        data.presentable(),
    ensures
        decode_data(data.format(), data.wire()) == Some(data),
{
    broadcast use be16_round_trip;
    broadcast use be32_round_trip;
    broadcast use ipv4_round_trip;
    broadcast use encode_utf8_valid_utf8;
    broadcast use encode_utf8_decode_utf8;

    let bytes = data.wire();
    match data {
        OptionData::Addresses(addresses) => {
            let read = Seq::new(bytes.len() / 4, |i: int| ipv4_at(bytes, 4 * i));
            assert forall|i: int| 0 <= i < addresses.len() implies read[i] == addresses[i] by {
                let octets = addresses[i].spec_octets();
                assert((4 * i) / 4 == i && (4 * i + 1) / 4 == i && (4 * i + 2) / 4 == i && (4 * i
                    + 3) / 4 == i);
                assert(bytes[4 * i] == octets[0] && bytes[4 * i + 1] == octets[1] && bytes[4 * i
                    + 2] == octets[2] && bytes[4 * i + 3] == octets[3]);
            }
            assert(read =~= addresses);
        },
        OptionData::Routes(routes) => {
            let read = Seq::new(
                bytes.len() / 8,
                |i: int| (ipv4_at(bytes, 8 * i), ipv4_at(bytes, 8 * i + 4)),
            );
            assert forall|i: int| 0 <= i < routes.len() implies read[i] == routes[i] by {
                let first = routes[i].0.spec_octets();
                let second = routes[i].1.spec_octets();
                assert(bytes[8 * i] == first[0] && bytes[8 * i + 1] == first[1] && bytes[8 * i + 2]
                    == first[2] && bytes[8 * i + 3] == first[3]);
                assert(bytes[8 * i + 4] == second[0] && bytes[8 * i + 5] == second[1] && bytes[8 * i
                    + 6] == second[2] && bytes[8 * i + 7] == second[3]);
            }
            assert(read =~= routes);
        },
        OptionData::Sizes(sizes) => {
            let read = Seq::new(bytes.len() / 2, |i: int| be16_at(bytes, 2 * i));
            assert forall|i: int| 0 <= i < sizes.len() implies read[i] == sizes[i] by {
                let pair = be16_bytes(sizes[i]);
                assert(bytes[2 * i] == pair[0] && bytes[2 * i + 1] == pair[1]);
            }
            assert(read =~= sizes);
        },
        _ => {},
    }
}

/// The codes of the options that are understood.
#[derive(Debug, PartialEq, Eq, Clone, Copy, Structural)]
pub enum OptionCode {
    SubnetMask,
    TimeOffset,
    RouterOption,
    DomainNameServerOption,
    HostNameOption,
    DomainName,
    PathMTUAgingTimeoutOption,
    PathMTUPlateauOption,
    BroadcastAddressOption,
    StaticRouteOption,
    NetworkTimeProtocolServersOption,
    RequestedIpAddress,
    IPAddressLeaseTime,
    OptionsOverload,
    DHCPMessageType,
    ServerIdentifier,
    ParameterRequestList,
    Message,
    MaximumDHCPMessageSize,
    RenewalTimeValue,
    RebindingTimeValue,
    ClassIdentifier,
    ClientIdentifier,
}

impl OptionCode {
    pub open spec fn decode(code: u8) -> Option<Self> {
        match code {
            1 => Some(OptionCode::SubnetMask),
            2 => Some(OptionCode::TimeOffset),
            3 => Some(OptionCode::RouterOption),
            6 => Some(OptionCode::DomainNameServerOption),
            12 => Some(OptionCode::HostNameOption),
            15 => Some(OptionCode::DomainName),
            24 => Some(OptionCode::PathMTUAgingTimeoutOption),
            25 => Some(OptionCode::PathMTUPlateauOption),
            28 => Some(OptionCode::BroadcastAddressOption),
            33 => Some(OptionCode::StaticRouteOption),
            42 => Some(OptionCode::NetworkTimeProtocolServersOption),
            50 => Some(OptionCode::RequestedIpAddress),
            51 => Some(OptionCode::IPAddressLeaseTime),
            52 => Some(OptionCode::OptionsOverload),
            53 => Some(OptionCode::DHCPMessageType),
            54 => Some(OptionCode::ServerIdentifier),
            55 => Some(OptionCode::ParameterRequestList),
            56 => Some(OptionCode::Message),
            57 => Some(OptionCode::MaximumDHCPMessageSize),
            58 => Some(OptionCode::RenewalTimeValue),
            59 => Some(OptionCode::RebindingTimeValue),
            60 => Some(OptionCode::ClassIdentifier),
            61 => Some(OptionCode::ClientIdentifier),
            _ => None,
        }
    }

    pub open spec fn encode(self) -> u8 {
        match self {
            OptionCode::SubnetMask => 1,
            OptionCode::TimeOffset => 2,
            OptionCode::RouterOption => 3,
            OptionCode::DomainNameServerOption => 6,
            OptionCode::HostNameOption => 12,
            OptionCode::DomainName => 15,
            OptionCode::PathMTUAgingTimeoutOption => 24,
            OptionCode::PathMTUPlateauOption => 25,
            OptionCode::BroadcastAddressOption => 28,
            OptionCode::StaticRouteOption => 33,
            OptionCode::NetworkTimeProtocolServersOption => 42,
            OptionCode::RequestedIpAddress => 50,
            OptionCode::IPAddressLeaseTime => 51,
            OptionCode::OptionsOverload => 52,
            OptionCode::DHCPMessageType => 53,
            OptionCode::ServerIdentifier => 54,
            OptionCode::ParameterRequestList => 55,
            OptionCode::Message => 56,
            OptionCode::MaximumDHCPMessageSize => 57,
            OptionCode::RenewalTimeValue => 58,
            OptionCode::RebindingTimeValue => 59,
            OptionCode::ClassIdentifier => 60,
            OptionCode::ClientIdentifier => 61,
        }
    }

    /// How the data of an option with this code is laid out.
    pub open spec fn format(self) -> Format {
        match self {
            OptionCode::SubnetMask => Format::Address,
            OptionCode::TimeOffset => Format::Signed32,
            OptionCode::RouterOption => Format::Addresses,
            OptionCode::DomainNameServerOption => Format::Addresses,
            OptionCode::HostNameOption => Format::Text,
            OptionCode::DomainName => Format::Text,
            OptionCode::PathMTUAgingTimeoutOption => Format::Number32,
            OptionCode::PathMTUPlateauOption => Format::Sizes,
            OptionCode::BroadcastAddressOption => Format::Address,
            OptionCode::StaticRouteOption => Format::Routes,
            OptionCode::NetworkTimeProtocolServersOption => Format::Addresses,
            OptionCode::RequestedIpAddress => Format::Address,
            OptionCode::IPAddressLeaseTime => Format::Number32,
            OptionCode::OptionsOverload => Format::Overload,
            OptionCode::DHCPMessageType => Format::MessageType,
            OptionCode::ServerIdentifier => Format::Address,
            OptionCode::ParameterRequestList => Format::Codes,
            OptionCode::Message => Format::Text,
            OptionCode::MaximumDHCPMessageSize => Format::Number16,
            OptionCode::RenewalTimeValue => Format::Number32,
            OptionCode::RebindingTimeValue => Format::Number32,
            OptionCode::ClassIdentifier => Format::Text,
            OptionCode::ClientIdentifier => Format::Hardware,
        }
    }

    /// The code with the given value, if it is one that is understood.
    pub fn from_repr(code: u8) -> (option: Option<Self>)
        ensures
            option == Self::decode(code),
    {
        match code {
            1 => Some(OptionCode::SubnetMask),
            2 => Some(OptionCode::TimeOffset),
            3 => Some(OptionCode::RouterOption),
            6 => Some(OptionCode::DomainNameServerOption),
            12 => Some(OptionCode::HostNameOption),
            15 => Some(OptionCode::DomainName),
            24 => Some(OptionCode::PathMTUAgingTimeoutOption),
            25 => Some(OptionCode::PathMTUPlateauOption),
            28 => Some(OptionCode::BroadcastAddressOption),
            33 => Some(OptionCode::StaticRouteOption),
            42 => Some(OptionCode::NetworkTimeProtocolServersOption),
            50 => Some(OptionCode::RequestedIpAddress),
            51 => Some(OptionCode::IPAddressLeaseTime),
            52 => Some(OptionCode::OptionsOverload),
            53 => Some(OptionCode::DHCPMessageType),
            54 => Some(OptionCode::ServerIdentifier),
            55 => Some(OptionCode::ParameterRequestList),
            56 => Some(OptionCode::Message),
            57 => Some(OptionCode::MaximumDHCPMessageSize),
            58 => Some(OptionCode::RenewalTimeValue),
            59 => Some(OptionCode::RebindingTimeValue),
            60 => Some(OptionCode::ClassIdentifier),
            61 => Some(OptionCode::ClientIdentifier),
            _ => None,
        }
    }

    /// The value of this code.
    pub fn value(&self) -> (code: u8)
        ensures
            code == self.encode(),
    {
        match *self {
            OptionCode::SubnetMask => 1,
            OptionCode::TimeOffset => 2,
            OptionCode::RouterOption => 3,
            OptionCode::DomainNameServerOption => 6,
            OptionCode::HostNameOption => 12,
            OptionCode::DomainName => 15,
            OptionCode::PathMTUAgingTimeoutOption => 24,
            OptionCode::PathMTUPlateauOption => 25,
            OptionCode::BroadcastAddressOption => 28,
            OptionCode::StaticRouteOption => 33,
            OptionCode::NetworkTimeProtocolServersOption => 42,
            OptionCode::RequestedIpAddress => 50,
            OptionCode::IPAddressLeaseTime => 51,
            OptionCode::OptionsOverload => 52,
            OptionCode::DHCPMessageType => 53,
            OptionCode::ServerIdentifier => 54,
            OptionCode::ParameterRequestList => 55,
            OptionCode::Message => 56,
            OptionCode::MaximumDHCPMessageSize => 57,
            OptionCode::RenewalTimeValue => 58,
            OptionCode::RebindingTimeValue => 59,
            OptionCode::ClassIdentifier => 60,
            OptionCode::ClientIdentifier => 61,
        }
    }
}

/// Reading the value of a code and writing it give each other back.
pub proof fn option_code_round_trip(code: OptionCode, value: u8)
    ensures
        OptionCode::decode(code.encode()) == Some(code),
        OptionCode::decode(value) matches Some(read) ==> read.encode() == value,
        code.encode() != 0 && code.encode() != 255,
{
}

/// The option with the given code and data, if it is one that is understood.
pub open spec fn decode_option(code: u8, data: Seq<u8>) -> Option<OptionView> {
    match OptionCode::decode(code) {
        Some(option) => match decode_data(option.format(), data) {
            Some(data) => Some((option, data)),
            None => None,
        },
        None => None,
    }
}

/// An option as it stands in a message: its code, the length of its data, its data.
pub open spec fn encode_option(option: OptionView) -> Seq<u8> {
    seq![option.0.encode(), (option.1.wire().len() % 256) as u8] + option.1.wire()
}

/// One option of a message.
#[derive(Debug, Clone)]
pub enum DHCPOption {
    /// The subnet mask of the client. It stands before the routers where both are present.
    SubnetMask(Ipv4Addr),
    /// The offset of the client's subnet from UTC, in seconds.
    TimeOffset(i32),
    /// The routers on the client's subnet, in order of preference.
    RouterOption(Vec<Ipv4Addr>),
    /// The name servers available to the client, in order of preference.
    DomainNameServerOption(Vec<Ipv4Addr>),
    /// The name of the client.
    HostNameOption(String),
    /// The domain name to use when host names are resolved.
    DomainName(String),
    /// The seconds after which a discovered path MTU is stale.
    PathMTUAgingTimeoutOption(u32),
    /// The sizes to try when a path MTU is discovered, from the smallest up.
    PathMTUPlateauOption(Vec<u16>),
    /// The broadcast address of the client's subnet.
    BroadcastAddressOption(Ipv4Addr),
    /// Static routes: pairs of a destination and its router.
    StaticRouteOption(Vec<(Ipv4Addr, Ipv4Addr)>),
    /// The time servers available to the client, in order of preference.
    NetworkTimeProtocolServersOption(Vec<Ipv4Addr>),
    /// The address that a client asks for.
    RequestedIpAddress(Ipv4Addr),
    /// The time for which an address is leased, in seconds.
    IPAddressLeaseTime(u32),
    /// Which of the fixed fields hold options.
    OptionsOverload(OptionsOverload),
    /// The type of the message.
    DHCPMessageType(DHCPMessageType),
    /// The address of the selected server.
    ServerIdentifier(Ipv4Addr),
    /// The codes of the options that a client asks for.
    ParameterRequestList(Vec<u8>),
    /// An error message for a human reader.
    Message(String),
    /// The longest message that the sender accepts.
    MaximumDHCPMessageSize(u16),
    /// The seconds until the client starts to renew its lease.
    RenewalTimeValue(u32),
    /// The seconds until the client starts to rebind.
    RebindingTimeValue(u32),
    /// The type and configuration of the client.
    ClassIdentifier(String),
    /// The identifier of the client: a hardware type and its link layer address.
    ClientIdentifier(MacAddr),
}

impl View for DHCPOption {
    type V = OptionView;

    open spec fn view(&self) -> OptionView {
        match self {
            DHCPOption::SubnetMask(value) => (OptionCode::SubnetMask, OptionData::Address(*value)),
            DHCPOption::TimeOffset(value) => (OptionCode::TimeOffset, OptionData::Signed32(*value)),
            DHCPOption::RouterOption(value) => (OptionCode::RouterOption, OptionData::Addresses(value@)),
            DHCPOption::DomainNameServerOption(value) => (OptionCode::DomainNameServerOption, OptionData::Addresses(value@)),
            DHCPOption::HostNameOption(value) => (OptionCode::HostNameOption, OptionData::Text(value@)),
            DHCPOption::DomainName(value) => (OptionCode::DomainName, OptionData::Text(value@)),
            DHCPOption::PathMTUAgingTimeoutOption(value) => (OptionCode::PathMTUAgingTimeoutOption, OptionData::Number32(*value)),
            DHCPOption::PathMTUPlateauOption(value) => (OptionCode::PathMTUPlateauOption, OptionData::Sizes(value@)),
            DHCPOption::BroadcastAddressOption(value) => (OptionCode::BroadcastAddressOption, OptionData::Address(*value)),
            DHCPOption::StaticRouteOption(value) => (OptionCode::StaticRouteOption, OptionData::Routes(value@)),
            DHCPOption::NetworkTimeProtocolServersOption(value) => (OptionCode::NetworkTimeProtocolServersOption, OptionData::Addresses(value@)),
            DHCPOption::RequestedIpAddress(value) => (OptionCode::RequestedIpAddress, OptionData::Address(*value)),
            DHCPOption::IPAddressLeaseTime(value) => (OptionCode::IPAddressLeaseTime, OptionData::Number32(*value)),
            DHCPOption::OptionsOverload(value) => (OptionCode::OptionsOverload, OptionData::Overload(*value)),
            DHCPOption::DHCPMessageType(value) => (OptionCode::DHCPMessageType, OptionData::MessageType(*value)),
            DHCPOption::ServerIdentifier(value) => (OptionCode::ServerIdentifier, OptionData::Address(*value)),
            DHCPOption::ParameterRequestList(value) => (OptionCode::ParameterRequestList, OptionData::Codes(value@)),
            DHCPOption::Message(value) => (OptionCode::Message, OptionData::Text(value@)),
            DHCPOption::MaximumDHCPMessageSize(value) => (OptionCode::MaximumDHCPMessageSize, OptionData::Number16(*value)),
            DHCPOption::RenewalTimeValue(value) => (OptionCode::RenewalTimeValue, OptionData::Number32(*value)),
            DHCPOption::RebindingTimeValue(value) => (OptionCode::RebindingTimeValue, OptionData::Number32(*value)),
            DHCPOption::ClassIdentifier(value) => (OptionCode::ClassIdentifier, OptionData::Text(value@)),
            DHCPOption::ClientIdentifier(value) => (OptionCode::ClientIdentifier, OptionData::Hardware(*value)),
        }
    }
}

/// Whether a list is one whose length in bytes, taken from the low byte of its number of elements,
/// can be written.
pub open spec fn list_length_ok(count: int, element: int) -> bool {
    count % 256 * element <= 255
}

/// The low byte of the length of a list, where it is that of its count times the length of an
/// element.
proof fn length_byte(count: nat, element: nat)
    requires
        list_length_ok(count as int, element as int),
    ensures
        (count * element) % 256 == count % 256 * element,
{
    let wraps = count as int / 256;
    let rest = count as int % 256;
    lemma_fundamental_div_mod(count as int, 256);
    assert(count * element == wraps * element * 256 + rest * element) by (nonlinear_arith)
        requires
            count == 256 * wraps + rest,
    ;
    assert(0 <= rest * element) by (nonlinear_arith)
        requires
            rest >= 0,
    ;
    lemma_fundamental_div_mod_converse(
        (count * element) as int,
        256,
        wraps * element,
        rest * element,
    );
}

impl WriteToBuffer for DHCPOption {
    open spec fn encoding(&self) -> Seq<u8> {
        encode_option(self@)
    }

    open spec fn reported(&self) -> nat {
        self.encoding().len()
    }

    open spec fn encodable(&self) -> bool {
        &&& 2 + self@.1.wire().len() <= usize::MAX
        &&& match self@.1 {
            OptionData::Addresses(addresses) => list_length_ok(addresses.len() as int, 4),
            OptionData::Routes(routes) => list_length_ok(routes.len() as int, 8),
            OptionData::Sizes(sizes) => list_length_ok(sizes.len() as int, 2),
            _ => true,
        }
    }

    fn encoded_length(&self) -> (length: usize) {
        2 + match self {
            DHCPOption::SubnetMask(_) => 4,
            DHCPOption::TimeOffset(_) => 4,
            DHCPOption::RouterOption(value) => value.len() * 4,
            DHCPOption::DomainNameServerOption(value) => value.len() * 4,
            DHCPOption::HostNameOption(value) => value.as_str().len(),
            DHCPOption::DomainName(value) => value.as_str().len(),
            DHCPOption::PathMTUAgingTimeoutOption(_) => 4,
            DHCPOption::PathMTUPlateauOption(value) => value.len() * 2,
            DHCPOption::BroadcastAddressOption(_) => 4,
            DHCPOption::StaticRouteOption(value) => value.len() * 8,
            DHCPOption::NetworkTimeProtocolServersOption(value) => value.len() * 4,
            DHCPOption::RequestedIpAddress(_) => 4,
            DHCPOption::IPAddressLeaseTime(_) => 4,
            DHCPOption::OptionsOverload(_) => 1,
            DHCPOption::DHCPMessageType(_) => 1,
            DHCPOption::ServerIdentifier(_) => 4,
            DHCPOption::ParameterRequestList(value) => value.len(),
            DHCPOption::Message(value) => value.as_str().len(),
            DHCPOption::MaximumDHCPMessageSize(_) => 2,
            DHCPOption::RenewalTimeValue(_) => 4,
            DHCPOption::RebindingTimeValue(_) => 4,
            DHCPOption::ClassIdentifier(value) => value.as_str().len(),
            DHCPOption::ClientIdentifier(_) => 1 + MacAddr::LENGTH,
        }
    }

    fn write_to_buffer(&self, buffer: &mut BytesMut) {
        match self {
            DHCPOption::SubnetMask(value) => {
                put_u8(buffer, OptionCode::SubnetMask.value());
                Self::write_ipv4_address(buffer, *value);
            },
            DHCPOption::TimeOffset(value) => {
                put_u8(buffer, OptionCode::TimeOffset.value());
                Self::write_i32(buffer, *value);
            },
            DHCPOption::RouterOption(value) => {
                put_u8(buffer, OptionCode::RouterOption.value());
                Self::write_vec_ipv4_address(buffer, value);
            },
            DHCPOption::DomainNameServerOption(value) => {
                put_u8(buffer, OptionCode::DomainNameServerOption.value());
                Self::write_vec_ipv4_address(buffer, value);
            },
            DHCPOption::HostNameOption(value) => {
                put_u8(buffer, OptionCode::HostNameOption.value());
                Self::write_string(buffer, value);
            },
            DHCPOption::DomainName(value) => {
                put_u8(buffer, OptionCode::DomainName.value());
                Self::write_string(buffer, value);
            },
            DHCPOption::PathMTUAgingTimeoutOption(value) => {
                put_u8(buffer, OptionCode::PathMTUAgingTimeoutOption.value());
                Self::write_u32(buffer, *value);
            },
            DHCPOption::PathMTUPlateauOption(value) => {
                put_u8(buffer, OptionCode::PathMTUPlateauOption.value());
                Self::write_vec_u16(buffer, value);
            },
            DHCPOption::BroadcastAddressOption(value) => {
                put_u8(buffer, OptionCode::BroadcastAddressOption.value());
                Self::write_ipv4_address(buffer, *value);
            },
            DHCPOption::StaticRouteOption(value) => {
                put_u8(buffer, OptionCode::StaticRouteOption.value());
                Self::write_vec_ipv4_address_tuple(buffer, value);
            },
            DHCPOption::NetworkTimeProtocolServersOption(value) => {
                put_u8(buffer, OptionCode::NetworkTimeProtocolServersOption.value());
                Self::write_vec_ipv4_address(buffer, value);
            },
            DHCPOption::RequestedIpAddress(value) => {
                put_u8(buffer, OptionCode::RequestedIpAddress.value());
                Self::write_ipv4_address(buffer, *value);
            },
            DHCPOption::IPAddressLeaseTime(value) => {
                put_u8(buffer, OptionCode::IPAddressLeaseTime.value());
                Self::write_u32(buffer, *value);
            },
            DHCPOption::OptionsOverload(value) => {
                put_u8(buffer, OptionCode::OptionsOverload.value());
                Self::write_options_overload(buffer, *value);
            },
            DHCPOption::DHCPMessageType(value) => {
                put_u8(buffer, OptionCode::DHCPMessageType.value());
                Self::write_dhcp_message_type(buffer, *value);
            },
            DHCPOption::ServerIdentifier(value) => {
                put_u8(buffer, OptionCode::ServerIdentifier.value());
                Self::write_ipv4_address(buffer, *value);
            },
            DHCPOption::ParameterRequestList(value) => {
                put_u8(buffer, OptionCode::ParameterRequestList.value());
                Self::write_codes(buffer, value);
            },
            DHCPOption::Message(value) => {
                put_u8(buffer, OptionCode::Message.value());
                Self::write_string(buffer, value);
            },
            DHCPOption::MaximumDHCPMessageSize(value) => {
                put_u8(buffer, OptionCode::MaximumDHCPMessageSize.value());
                Self::write_u16(buffer, *value);
            },
            DHCPOption::RenewalTimeValue(value) => {
                put_u8(buffer, OptionCode::RenewalTimeValue.value());
                Self::write_u32(buffer, *value);
            },
            DHCPOption::RebindingTimeValue(value) => {
                put_u8(buffer, OptionCode::RebindingTimeValue.value());
                Self::write_u32(buffer, *value);
            },
            DHCPOption::ClassIdentifier(value) => {
                put_u8(buffer, OptionCode::ClassIdentifier.value());
                Self::write_string(buffer, value);
            },
            DHCPOption::ClientIdentifier(value) => {
                put_u8(buffer, OptionCode::ClientIdentifier.value());
                Self::write_mac(buffer, *value);
            },
        }
        assert(bytes_mut_contents(*buffer) =~= bytes_mut_contents(*old(buffer)) + self.encoding());
    }
}

/// The data of an option behind its length.
pub open spec fn length_and(data: Seq<u8>) -> Seq<u8> {
    seq![(data.len() % 256) as u8] + data
}

impl DHCPOption {
    /// Reads an option from its code and its data. An option that is not understood is passed
    /// over.
    pub fn parse(code: u8, data: &[u8]) -> (option: Option<Self>)
        ensures
            match option {
                Some(option) => decode_option(code, data@) == Some(option@),
                None => decode_option(code, data@) is None,
            },
    {
        match OptionCode::from_repr(code) {
            None => None,
            Some(option) => match option {
                OptionCode::SubnetMask => match Self::parse_ipv4_address(data) {
                    Some(value) => Some(DHCPOption::SubnetMask(value)),
                    None => None,
                },
                OptionCode::TimeOffset => match Self::parse_i32(data) {
                    Some(value) => Some(DHCPOption::TimeOffset(value)),
                    None => None,
                },
                OptionCode::RouterOption => match Self::parse_vec_ipv4_address(data) {
                    Some(value) => Some(DHCPOption::RouterOption(value)),
                    None => None,
                },
                OptionCode::DomainNameServerOption => match Self::parse_vec_ipv4_address(data) {
                    Some(value) => Some(DHCPOption::DomainNameServerOption(value)),
                    None => None,
                },
                OptionCode::HostNameOption => match Self::parse_string(data) {
                    Some(value) => Some(DHCPOption::HostNameOption(value)),
                    None => None,
                },
                OptionCode::DomainName => match Self::parse_string(data) {
                    Some(value) => Some(DHCPOption::DomainName(value)),
                    None => None,
                },
                OptionCode::PathMTUAgingTimeoutOption => match Self::parse_u32(data) {
                    Some(value) => Some(DHCPOption::PathMTUAgingTimeoutOption(value)),
                    None => None,
                },
                OptionCode::PathMTUPlateauOption => match Self::parse_vec_u16(data) {
                    Some(value) => Some(DHCPOption::PathMTUPlateauOption(value)),
                    None => None,
                },
                OptionCode::BroadcastAddressOption => match Self::parse_ipv4_address(data) {
                    Some(value) => Some(DHCPOption::BroadcastAddressOption(value)),
                    None => None,
                },
                OptionCode::StaticRouteOption => match Self::parse_vec_ipv4_address_tuple(data) {
                    Some(value) => Some(DHCPOption::StaticRouteOption(value)),
                    None => None,
                },
                OptionCode::NetworkTimeProtocolServersOption => match Self::parse_vec_ipv4_address(data) {
                    Some(value) => Some(DHCPOption::NetworkTimeProtocolServersOption(value)),
                    None => None,
                },
                OptionCode::RequestedIpAddress => match Self::parse_ipv4_address(data) {
                    Some(value) => Some(DHCPOption::RequestedIpAddress(value)),
                    None => None,
                },
                OptionCode::IPAddressLeaseTime => match Self::parse_u32(data) {
                    Some(value) => Some(DHCPOption::IPAddressLeaseTime(value)),
                    None => None,
                },
                OptionCode::OptionsOverload => match Self::parse_options_overload(data) {
                    Some(value) => Some(DHCPOption::OptionsOverload(value)),
                    None => None,
                },
                OptionCode::DHCPMessageType => match Self::parse_dhcp_message_type(data) {
                    Some(value) => Some(DHCPOption::DHCPMessageType(value)),
                    None => None,
                },
                OptionCode::ServerIdentifier => match Self::parse_ipv4_address(data) {
                    Some(value) => Some(DHCPOption::ServerIdentifier(value)),
                    None => None,
                },
                OptionCode::ParameterRequestList => match Self::parse_codes(data) {
                    Some(value) => Some(DHCPOption::ParameterRequestList(value)),
                    None => None,
                },
                OptionCode::Message => match Self::parse_string(data) {
                    Some(value) => Some(DHCPOption::Message(value)),
                    None => None,
                },
                OptionCode::MaximumDHCPMessageSize => match Self::parse_u16(data) {
                    Some(value) => Some(DHCPOption::MaximumDHCPMessageSize(value)),
                    None => None,
                },
                OptionCode::RenewalTimeValue => match Self::parse_u32(data) {
                    Some(value) => Some(DHCPOption::RenewalTimeValue(value)),
                    None => None,
                },
                OptionCode::RebindingTimeValue => match Self::parse_u32(data) {
                    Some(value) => Some(DHCPOption::RebindingTimeValue(value)),
                    None => None,
                },
                OptionCode::ClassIdentifier => match Self::parse_string(data) {
                    Some(value) => Some(DHCPOption::ClassIdentifier(value)),
                    None => None,
                },
                OptionCode::ClientIdentifier => match Self::parse_mac(data) {
                    Some(value) => Some(DHCPOption::ClientIdentifier(value)),
                    None => None,
                },
            },
        }
    }

    fn parse_u16(data: &[u8]) -> (result: Option<u16>)
        ensures
            match result {
                Some(value) => decode_data(Format::Number16, data@) == Some(OptionData::Number16(value)),
                None => decode_data(Format::Number16, data@) is None,
            },
    {
        if data.len() == 2 {
            Some(read_be16(data, 0))
        } else {
            None
        }
    }

    fn write_u16(buffer: &mut BytesMut, value: u16)
        requires
            has_room(*old(buffer), 1 + OptionData::Number16(value).wire().len()),
        ensures
            bytes_mut_contents(*final(buffer)) == bytes_mut_contents(*old(buffer)) + length_and(
                OptionData::Number16(value).wire(),
            ),
    {
        put_u8(buffer, 2);
        put_u16(buffer, value);
        assert(bytes_mut_contents(*buffer) =~= bytes_mut_contents(*old(buffer)) + length_and(
            OptionData::Number16(value).wire(),
        ));
    }

    fn parse_u32(data: &[u8]) -> (result: Option<u32>)
        ensures
            match result {
                Some(value) => decode_data(Format::Number32, data@) == Some(OptionData::Number32(value)),
                None => decode_data(Format::Number32, data@) is None,
            },
    {
        if data.len() == 4 {
            Some(read_be32(data, 0))
        } else {
            None
        }
    }

    fn write_u32(buffer: &mut BytesMut, value: u32)
        requires
            has_room(*old(buffer), 1 + OptionData::Number32(value).wire().len()),
        ensures
            bytes_mut_contents(*final(buffer)) == bytes_mut_contents(*old(buffer)) + length_and(
                OptionData::Number32(value).wire(),
            ),
    {
        put_u8(buffer, 4);
        put_u32(buffer, value);
        assert(bytes_mut_contents(*buffer) =~= bytes_mut_contents(*old(buffer)) + length_and(
            OptionData::Number32(value).wire(),
        ));
    }

    fn parse_i32(data: &[u8]) -> (result: Option<i32>)
        ensures
            match result {
                Some(value) => decode_data(Format::Signed32, data@) == Some(OptionData::Signed32(value)),
                None => decode_data(Format::Signed32, data@) is None,
            },
    {
        if data.len() == 4 {
            let value: u32 = read_be32(data, 0);
            if value < 0x8000_0000 {
                Some(value as i32)
            } else {
                Some((value as i64 - 0x1_0000_0000) as i32)
            }
        } else {
            None
        }
    }

    fn write_i32(buffer: &mut BytesMut, value: i32)
        requires
            has_room(*old(buffer), 1 + OptionData::Signed32(value).wire().len()),
        ensures
            bytes_mut_contents(*final(buffer)) == bytes_mut_contents(*old(buffer)) + length_and(
                OptionData::Signed32(value).wire(),
            ),
    {
        put_u8(buffer, 4);
        if value >= 0 {
            put_u32(buffer, value as u32);
        } else {
            put_u32(buffer, (value as i64 + 0x1_0000_0000) as u32);
        }
        assert(bytes_mut_contents(*buffer) =~= bytes_mut_contents(*old(buffer)) + length_and(
            OptionData::Signed32(value).wire(),
        ));
    }

    fn parse_vec_u16(data: &[u8]) -> (result: Option<Vec<u16>>)
        ensures
            match result {
                Some(value) => decode_data(Format::Sizes, data@) == Some(OptionData::Sizes(value@)),
                None => decode_data(Format::Sizes, data@) is None,
            },
    {
        if data.len() < 2 {
            None
        } else {
            let count: usize = data.len() / 2;
            let mut values: Vec<u16> = Vec::new();
            let mut i: usize = 0;
            while i < count
                invariant
                    i <= count,
                    count == data.len() / 2,
                    data@.len() <= usize::MAX,
                    values@ == Seq::new(i as nat, |j: int| be16_at(data@, 2 * j)),
                decreases count - i,
            {
                values.push(read_be16(data, 2 * i));
                i = i + 1;
                assert(values@ =~= Seq::new(i as nat, |j: int| be16_at(data@, 2 * j)));
            }
            Some(values)
        }
    }

    fn write_vec_u16(buffer: &mut BytesMut, value: &Vec<u16>)
        requires
            has_room(*old(buffer), 1 + OptionData::Sizes(value@).wire().len()),
            list_length_ok(value@.len() as int, 2),
        ensures
            bytes_mut_contents(*final(buffer)) == bytes_mut_contents(*old(buffer)) + length_and(
                OptionData::Sizes(value@).wire(),
            ),
    {
        put_u8(buffer, (value.len() % 256) as u8 * 2);
        let ghost start = bytes_mut_contents(*buffer);
        let mut i: usize = 0;
        while i < value.len()
            invariant
                i <= value@.len(),
                start.len() + size_bytes(value@).len() <= crate::buffer::max_buffer_len(),
                bytes_mut_contents(*buffer) == start + size_bytes(value@.take(i as int)),
            decreases value@.len() - i,
        {
            put_u16(buffer, value[i]);
            i = i + 1;
            assert(bytes_mut_contents(*buffer) =~= start + size_bytes(value@.take(i as int)));
        }
        assert(value@.take(i as int) == value@);
        proof {
            length_byte(value@.len(), 2);
        }
        assert(size_bytes(value@).len() % 256 == value@.len() % 256 * 2);
        assert(bytes_mut_contents(*buffer) =~= bytes_mut_contents(*old(buffer)) + length_and(
            OptionData::Sizes(value@).wire(),
        ));
    }

    fn parse_string(data: &[u8]) -> (result: Option<String>)
        ensures
            match result {
                Some(value) => decode_data(Format::Text, data@) == Some(OptionData::Text(value@)),
                None => decode_data(Format::Text, data@) is None,
            },
    {
        match text_from_utf8(data) {
            Ok(text) => Some(text),
            Err(_) => None,
        }
    }

    fn write_string(buffer: &mut BytesMut, value: &String)
        requires
            has_room(*old(buffer), 1 + OptionData::Text(value@).wire().len()),
        ensures
            bytes_mut_contents(*final(buffer)) == bytes_mut_contents(*old(buffer)) + length_and(
                OptionData::Text(value@).wire(),
            ),
    {
        let bytes = value.as_str().as_bytes();
        put_u8(buffer, (bytes.len() % 256) as u8);
        put_slice(buffer, bytes);
        assert(bytes_mut_contents(*buffer) =~= bytes_mut_contents(*old(buffer)) + length_and(
            OptionData::Text(value@).wire(),
        ));
    }

    fn parse_ipv4_address(data: &[u8]) -> (result: Option<Ipv4Addr>)
        ensures
            match result {
                Some(value) => decode_data(Format::Address, data@) == Some(OptionData::Address(value)),
                None => decode_data(Format::Address, data@) is None,
            },
    {
        if data.len() == 4 {
            Some(Ipv4Addr::read(data, 0))
        } else {
            None
        }
    }

    fn write_ipv4_address(buffer: &mut BytesMut, value: Ipv4Addr)
        requires
            has_room(*old(buffer), 1 + OptionData::Address(value).wire().len()),
        ensures
            bytes_mut_contents(*final(buffer)) == bytes_mut_contents(*old(buffer)) + length_and(
                OptionData::Address(value).wire(),
            ),
    {
        put_u8(buffer, 4);
        put_slice(buffer, &value.octets());
        assert(bytes_mut_contents(*buffer) =~= bytes_mut_contents(*old(buffer)) + length_and(
            OptionData::Address(value).wire(),
        ));
    }

    fn parse_vec_ipv4_address(data: &[u8]) -> (result: Option<Vec<Ipv4Addr>>)
        ensures
            match result {
                Some(value) => decode_data(Format::Addresses, data@) == Some(OptionData::Addresses(value@)),
                None => decode_data(Format::Addresses, data@) is None,
            },
    {
        if data.len() < 4 {
            None
        } else {
            let count: usize = data.len() / 4;
            let mut values: Vec<Ipv4Addr> = Vec::new();
            let mut i: usize = 0;
            while i < count
                invariant
                    i <= count,
                    count == data.len() / 4,
                    data@.len() <= usize::MAX,
                    values@ == Seq::new(i as nat, |j: int| ipv4_at(data@, 4 * j)),
                decreases count - i,
            {
                values.push(Ipv4Addr::read(data, 4 * i));
                i = i + 1;
                assert(values@ =~= Seq::new(i as nat, |j: int| ipv4_at(data@, 4 * j)));
            }
            Some(values)
        }
    }

    fn write_vec_ipv4_address(buffer: &mut BytesMut, value: &Vec<Ipv4Addr>)
        requires
            has_room(*old(buffer), 1 + OptionData::Addresses(value@).wire().len()),
            list_length_ok(value@.len() as int, 4),
        ensures
            bytes_mut_contents(*final(buffer)) == bytes_mut_contents(*old(buffer)) + length_and(
                OptionData::Addresses(value@).wire(),
            ),
    {
        put_u8(buffer, (value.len() % 256) as u8 * 4);
        let ghost start = bytes_mut_contents(*buffer);
        let mut i: usize = 0;
        while i < value.len()
            invariant
                i <= value@.len(),
                start.len() + address_bytes(value@).len() <= crate::buffer::max_buffer_len(),
                bytes_mut_contents(*buffer) == start + address_bytes(value@.take(i as int)),
            decreases value@.len() - i,
        {
            put_slice(buffer, &value[i].octets());
            i = i + 1;
            assert(bytes_mut_contents(*buffer) =~= start + address_bytes(value@.take(i as int)));
        }
        assert(value@.take(i as int) == value@);
        proof {
            length_byte(value@.len(), 4);
        }
        assert(address_bytes(value@).len() % 256 == value@.len() % 256 * 4);
        assert(bytes_mut_contents(*buffer) =~= bytes_mut_contents(*old(buffer)) + length_and(
            OptionData::Addresses(value@).wire(),
        ));
    }

    fn parse_vec_ipv4_address_tuple(data: &[u8]) -> (result: Option<Vec<(Ipv4Addr, Ipv4Addr)>>)
        ensures
            match result {
                Some(value) => decode_data(Format::Routes, data@) == Some(OptionData::Routes(value@)),
                None => decode_data(Format::Routes, data@) is None,
            },
    {
        if data.len() < 8 {
            None
        } else {
            let count: usize = data.len() / 8;
            let mut values: Vec<(Ipv4Addr, Ipv4Addr)> = Vec::new();
            let mut i: usize = 0;
            while i < count
                invariant
                    i <= count,
                    count == data.len() / 8,
                    data@.len() <= usize::MAX,
                    values@ == Seq::new(i as nat, |j: int| (ipv4_at(data@, 8 * j), ipv4_at(data@, 8 * j + 4))),
                decreases count - i,
            {
                values.push((Ipv4Addr::read(data, 8 * i), Ipv4Addr::read(data, 8 * i + 4)));
                i = i + 1;
                assert(values@ =~= Seq::new(i as nat, |j: int| (ipv4_at(data@, 8 * j), ipv4_at(data@, 8 * j + 4))));
            }
            Some(values)
        }
    }

    fn write_vec_ipv4_address_tuple(buffer: &mut BytesMut, value: &Vec<(Ipv4Addr, Ipv4Addr)>)
        requires
            has_room(*old(buffer), 1 + OptionData::Routes(value@).wire().len()),
            list_length_ok(value@.len() as int, 8),
        ensures
            bytes_mut_contents(*final(buffer)) == bytes_mut_contents(*old(buffer)) + length_and(
                OptionData::Routes(value@).wire(),
            ),
    {
        put_u8(buffer, (value.len() % 256) as u8 * 8);
        let ghost start = bytes_mut_contents(*buffer);
        let mut i: usize = 0;
        while i < value.len()
            invariant
                i <= value@.len(),
                start.len() + route_bytes(value@).len() <= crate::buffer::max_buffer_len(),
                bytes_mut_contents(*buffer) == start + route_bytes(value@.take(i as int)),
            decreases value@.len() - i,
        {
            put_slice(buffer, &value[i].0.octets());
            put_slice(buffer, &value[i].1.octets());
            i = i + 1;
            assert(bytes_mut_contents(*buffer) =~= start + route_bytes(value@.take(i as int)));
        }
        assert(value@.take(i as int) == value@);
        proof {
            length_byte(value@.len(), 8);
        }
        assert(route_bytes(value@).len() % 256 == value@.len() % 256 * 8);
        assert(bytes_mut_contents(*buffer) =~= bytes_mut_contents(*old(buffer)) + length_and(
            OptionData::Routes(value@).wire(),
        ));
    }

    fn parse_options_overload(data: &[u8]) -> (result: Option<OptionsOverload>)
        ensures
            match result {
                Some(value) => decode_data(Format::Overload, data@) == Some(OptionData::Overload(value)),
                None => decode_data(Format::Overload, data@) is None,
            },
    {
        if data.len() == 1 {
            match data[0] {
                1 => Some(OptionsOverload::File),
                2 => Some(OptionsOverload::ServerName),
                3 => Some(OptionsOverload::Both),
                _ => None,
            }
        } else {
            None
        }
    }

    fn write_options_overload(buffer: &mut BytesMut, value: OptionsOverload)
        requires
            has_room(*old(buffer), 1 + OptionData::Overload(value).wire().len()),
        ensures
            bytes_mut_contents(*final(buffer)) == bytes_mut_contents(*old(buffer)) + length_and(
                OptionData::Overload(value).wire(),
            ),
    {
        put_u8(buffer, 1);
        put_u8(buffer, value.value());
        assert(bytes_mut_contents(*buffer) =~= bytes_mut_contents(*old(buffer)) + length_and(
            OptionData::Overload(value).wire(),
        ));
    }

    fn parse_dhcp_message_type(data: &[u8]) -> (result: Option<DHCPMessageType>)
        ensures
            match result {
                Some(value) => decode_data(Format::MessageType, data@) == Some(OptionData::MessageType(value)),
                None => decode_data(Format::MessageType, data@) is None,
            },
    {
        if data.len() == 1 {
            match data[0] {
                1 => Some(DHCPMessageType::Discover),
                2 => Some(DHCPMessageType::Offer),
                3 => Some(DHCPMessageType::Request),
                4 => Some(DHCPMessageType::Decline),
                5 => Some(DHCPMessageType::Ack),
                6 => Some(DHCPMessageType::Nak),
                7 => Some(DHCPMessageType::Release),
                _ => None,
            }
        } else {
            None
        }
    }

    fn write_dhcp_message_type(buffer: &mut BytesMut, value: DHCPMessageType)
        requires
            has_room(*old(buffer), 1 + OptionData::MessageType(value).wire().len()),
        ensures
            bytes_mut_contents(*final(buffer)) == bytes_mut_contents(*old(buffer)) + length_and(
                OptionData::MessageType(value).wire(),
            ),
    {
        put_u8(buffer, 1);
        put_u8(buffer, value.value());
        assert(bytes_mut_contents(*buffer) =~= bytes_mut_contents(*old(buffer)) + length_and(
            OptionData::MessageType(value).wire(),
        ));
    }

    fn parse_codes(data: &[u8]) -> (result: Option<Vec<u8>>)
        ensures
            match result {
                Some(value) => decode_data(Format::Codes, data@) == Some(OptionData::Codes(value@)),
                None => decode_data(Format::Codes, data@) is None,
            },
    {
        Some(slice_to_vec(data))
    }

    fn write_codes(buffer: &mut BytesMut, value: &Vec<u8>)
        requires
            has_room(*old(buffer), 1 + OptionData::Codes(value@).wire().len()),
        ensures
            bytes_mut_contents(*final(buffer)) == bytes_mut_contents(*old(buffer)) + length_and(
                OptionData::Codes(value@).wire(),
            ),
    {
        put_u8(buffer, (value.len() % 256) as u8);
        put_slice(buffer, value.as_slice());
        assert(bytes_mut_contents(*buffer) =~= bytes_mut_contents(*old(buffer)) + length_and(
            OptionData::Codes(value@).wire(),
        ));
    }

    fn parse_mac(data: &[u8]) -> (result: Option<MacAddr>)
        ensures
            match result {
                Some(value) => decode_data(Format::Hardware, data@) == Some(OptionData::Hardware(value)),
                None => decode_data(Format::Hardware, data@) is None,
            },
    {
        if data.len() != 7 || data[0] != 1u8 {
            None
        } else {
            Some(MacAddr::read(data, 1))
        }
    }

    fn write_mac(buffer: &mut BytesMut, value: MacAddr)
        requires
            has_room(*old(buffer), 1 + OptionData::Hardware(value).wire().len()),
        ensures
            bytes_mut_contents(*final(buffer)) == bytes_mut_contents(*old(buffer)) + length_and(
                OptionData::Hardware(value).wire(),
            ),
    {
        put_u8(buffer, 7);
        put_u8(buffer, 1);
        put_slice(buffer, &value.octets());
        assert(bytes_mut_contents(*buffer) =~= bytes_mut_contents(*old(buffer)) + length_and(
            OptionData::Hardware(value).wire(),
        ));
    }

}

/// Reading an option as it was written gives the option back.
pub proof fn option_round_trip(option: OptionView)
    requires
        option.1.presentable(),
        option.0.format() == option.1.format(),
    ensures
        encode_option(option).len() == 2 + option.1.wire().len(),
        encode_option(option)[1] == option.1.wire().len(),
        decode_option(encode_option(option)[0], encode_option(option).skip(2)) == Some(option),
{
    option_data_round_trip(option.1);
    option_code_round_trip(option.0, 0);
    assert(encode_option(option).skip(2) =~= option.1.wire());
}

} // verus!
