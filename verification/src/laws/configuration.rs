//! Address configuration on the wire.

use super::wire::{four, six, two};
use crate::buffer::{be16_bytes, be16_round_trip, be32_bytes, be32_round_trip};
use crate::common::ErrorKind;
use crate::net::{IpAddr, Ipv4Addr};
use crate::protocols::ethernet::mac::MacAddr;
use crate::protocols::ipv4::dhcp::{
    concat_options, decode_option, encode_addresses, encode_dhcp, encode_head, encode_option,
    encode_options, first_overload, first_zero_at, magic_cookie, null_terminated, parse_dhcp,
    parse_options, text_field, DHCPMessageType, DHCPView, Operation, OptionCode, OptionData,
    OptionView, OptionsOverload,
};
use crate::protocols::ipv4::dhcp::options::{decode_data, option_data_round_trip, Format};
use crate::services::dhcpv4::{discover_message, server_address};
use vstd::prelude::*;
use vstd::utf8::{decode_utf8, encode_utf8, valid_utf8};

verus! {

/// The number of a type of message.
pub open spec fn type_number(message_type: DHCPMessageType) -> u8 {
    match message_type {
        DHCPMessageType::Discover => 1,
        DHCPMessageType::Offer => 2,
        DHCPMessageType::Request => 3,
        DHCPMessageType::Decline => 4,
        DHCPMessageType::Ack => 5,
        DHCPMessageType::Nak => 6,
        DHCPMessageType::Release => 7,
    }
}

/// The number of the fields that hold options.
pub open spec fn overload_number(overload: OptionsOverload) -> u8 {
    match overload {
        OptionsOverload::File => 1,
        OptionsOverload::ServerName => 2,
        OptionsOverload::Both => 3,
    }
}

/// The number of an option.
pub open spec fn option_number(code: OptionCode) -> u8 {
    match code {
        OptionCode::SubnetMask => 1,
        OptionCode::TimeOffset => 2,
        OptionCode::RouterOption => 3,
        OptionCode::DomainNameServerOption => 6,
        OptionCode::HostNameOption => 12,
        OptionCode::DomainName => 15,
        OptionCode::PathMTUAgingTimeoutOption => 24,
        OptionCode::PathMTUPlateauOption => 25,
        OptionCode::BroadcastAddressOption => 28,
        OptionCode::StaticRouteOption => 33,
        OptionCode::NetworkTimeProtocolServersOption => 42,
        OptionCode::RequestedIpAddress => 50,
        OptionCode::IPAddressLeaseTime => 51,
        OptionCode::OptionsOverload => 52,
        OptionCode::DHCPMessageType => 53,
        OptionCode::ServerIdentifier => 54,
        OptionCode::ParameterRequestList => 55,
        OptionCode::Message => 56,
        OptionCode::MaximumDHCPMessageSize => 57,
        OptionCode::RenewalTimeValue => 58,
        OptionCode::RebindingTimeValue => 59,
        OptionCode::ClassIdentifier => 60,
        OptionCode::ClientIdentifier => 61,
    }
}

/// Whether the data of an option says something, byte by byte.
pub open spec fn data_says(bytes: Seq<u8>, data: OptionData) -> bool {
    match data {
        OptionData::Address(address) => bytes.len() == 4 && address.bits == four(bytes, 0),
        OptionData::Addresses(addresses) => {
            &&& addresses.len() == bytes.len() / 4
            &&& forall|i: int|
                0 <= i < addresses.len() ==> (#[trigger] addresses[i]).bits == four(bytes, 4 * i)
        },
        OptionData::Routes(routes) => {
            &&& routes.len() == bytes.len() / 8
            &&& forall|i: int|
                0 <= i < routes.len() ==> (#[trigger] routes[i]).0.bits == four(bytes, 8 * i)
                    && routes[i].1.bits == four(bytes, 8 * i + 4)
        },
        OptionData::Number16(value) => bytes.len() == 2 && value == two(bytes, 0),
        OptionData::Number32(value) => bytes.len() == 4 && value == four(bytes, 0),
        OptionData::Signed32(value) => {
            &&& bytes.len() == 4
            &&& value == four(bytes, 0) || value == four(bytes, 0) - 0x1_0000_0000
        },
        OptionData::Sizes(sizes) => {
            &&& sizes.len() == bytes.len() / 2
            &&& forall|i: int|
                0 <= i < sizes.len() ==> #[trigger] sizes[i] == two(bytes, 2 * i)
        },
        OptionData::Text(text) => valid_utf8(bytes) && text == decode_utf8(bytes),
        OptionData::Overload(overload) => bytes == seq![overload_number(overload)],
        OptionData::MessageType(message_type) => bytes == seq![type_number(message_type)],
        OptionData::Codes(codes) => codes == bytes,
        OptionData::Hardware(mac) => bytes.len() == 7 && bytes[0] == 1 && mac == six(bytes, 1),
    }
}

/// Each type of message, each option and each choice of fields has its own number.
pub proof fn configuration_numbers(
    message_type: DHCPMessageType,
    overload: OptionsOverload,
    option: OptionCode,
    value: u8,
)
    ensures
        message_type.encode() == type_number(message_type),
        DHCPMessageType::decode(value) == Some(message_type) <==> value == type_number(
            message_type,
        ),
        overload.encode() == overload_number(overload),
        OptionsOverload::decode(value) == Some(overload) <==> value == overload_number(overload),
        option.encode() == option_number(option),
        OptionCode::decode(value) == Some(option) <==> value == option_number(option),
        Operation::BootRequest.encode() == 1,
        Operation::BootReply.encode() == 2,
        Operation::decode(value) == Some(Operation::BootRequest) <==> value == 1,
        Operation::decode(value) == Some(Operation::BootReply) <==> value == 2,
{
}

/// An option that is understood has the number that stood before its data, and says what its data
/// says.
pub proof fn an_option_is_read_from_its_bytes(code: u8, bytes: Seq<u8>)
    ensures
        decode_option(code, bytes) matches Some(option) ==> code == option_number(option.0)
            && data_says(bytes, option.1),
{
    if let Some(option) = decode_option(code, bytes) {
        match option.1 {
            OptionData::Overload(overload) => {
                assert(bytes =~= seq![overload_number(overload)]);
            },
            OptionData::MessageType(message_type) => {
                assert(bytes =~= seq![type_number(message_type)]);
            },
            _ => {},
        }
    }
}

/// Whether an option of a kind says something of that kind.
pub open spec fn of_its_kind(option: OptionView) -> bool {
    match option.0 {
        OptionCode::SubnetMask | OptionCode::BroadcastAddressOption
        | OptionCode::RequestedIpAddress | OptionCode::ServerIdentifier => option.1 is Address,
        OptionCode::TimeOffset => option.1 is Signed32,
        OptionCode::RouterOption | OptionCode::DomainNameServerOption
        | OptionCode::NetworkTimeProtocolServersOption => option.1 is Addresses,
        OptionCode::HostNameOption | OptionCode::DomainName | OptionCode::Message
        | OptionCode::ClassIdentifier => option.1 is Text,
        OptionCode::PathMTUAgingTimeoutOption | OptionCode::IPAddressLeaseTime
        | OptionCode::RenewalTimeValue | OptionCode::RebindingTimeValue => option.1 is Number32,
        OptionCode::PathMTUPlateauOption => option.1 is Sizes,
        OptionCode::StaticRouteOption => option.1 is Routes,
        OptionCode::OptionsOverload => option.1 is Overload,
        OptionCode::DHCPMessageType => option.1 is MessageType,
        OptionCode::ParameterRequestList => option.1 is Codes,
        OptionCode::MaximumDHCPMessageSize => option.1 is Number16,
        OptionCode::ClientIdentifier => option.1 is Hardware,
    }
}

/// An option is understood wherever there is something of its kind that its data says: data that
/// says nothing is passed over, and nothing else is.
pub proof fn an_option_is_read_where_its_data_says_something(option: OptionView, bytes: Seq<u8>)
    requires
        of_its_kind(option),
        data_says(bytes, option.1),
        option.1 is Addresses ==> bytes.len() >= 4,
        option.1 is Routes ==> bytes.len() >= 8,
        option.1 is Sizes ==> bytes.len() >= 2,
        option.1 matches OptionData::Signed32(value) ==> (value >= 0 <==> bytes[0] < 128),
    ensures
        decode_option(option_number(option.0), bytes) == Some(option),
{
    configuration_numbers(
        DHCPMessageType::Discover,
        OptionsOverload::File,
        option.0,
        option_number(option.0),
    );
    let read = decode_option(option_number(option.0), bytes);
    match option.1 {
        OptionData::Addresses(addresses) => {
            assert(read matches Some((_, OptionData::Addresses(list))) && list =~= addresses);
        },
        OptionData::Routes(routes) => {
            assert(read matches Some((_, OptionData::Routes(list))) && list =~= routes);
        },
        OptionData::Sizes(sizes) => {
            assert(read matches Some((_, OptionData::Sizes(list))) && list =~= sizes);
        },
        OptionData::Overload(overload) => {
            assert(bytes[0] == overload_number(overload));
        },
        OptionData::MessageType(message_type) => {
            assert(bytes[0] == type_number(message_type));
        },
        _ => {},
    }
}

/// An option is written as its number, the length of its data, and data that says what it says.
pub proof fn an_option_is_written_as_it_is_read(option: OptionView)
    requires
        option.1.presentable(),
    ensures
        ({
            let bytes = encode_option(option);
            &&& bytes.len() >= 2
            &&& bytes[0] == option_number(option.0)
            &&& bytes[1] == bytes.len() - 2
            &&& data_says(bytes.skip(2), option.1)
        }),
{
    let bytes = encode_option(option);
    configuration_numbers(DHCPMessageType::Discover, OptionsOverload::File, option.0, 0);
    option_data_round_trip(option.1);
    assert(bytes.skip(2) =~= option.1.wire());
    decoded_data_says_it(option.1.format(), option.1.wire());
}

proof fn decoded_data_says_it(format: Format, bytes: Seq<u8>)
    ensures
        decode_data(format, bytes) matches Some(data) ==> data_says(bytes, data),
{
    if let Some(data) = decode_data(format, bytes) {
        match data {
            OptionData::Overload(overload) => {
                assert(bytes =~= seq![overload_number(overload)]);
            },
            OptionData::MessageType(message_type) => {
                assert(bytes =~= seq![type_number(message_type)]);
            },
            _ => {},
        }
    }
}

/// Options are read one after the other. Zeros between them are passed over, and so is an option
/// that is not understood. They end with a byte of all ones, and where one is cut off.
pub proof fn options_are_read_in_turn(code: u8, data: Seq<u8>, rest: Seq<u8>)
    requires
        data.len() <= 255,
    ensures
        parse_options(seq![0u8] + rest) == parse_options(rest),
        parse_options(seq![255u8] + rest) == Seq::<OptionView>::empty(),
        code != 0 && code != 255 && rest.len() > 0 ==> parse_options(
            seq![code, data.len() as u8] + data + rest,
        ) == (match decode_option(code, data) {
            Some(option) => seq![option] + parse_options(rest),
            None => parse_options(rest),
        }),
        code != 0 && code != 255 && data.len() < 255 ==> parse_options(
            seq![code, (data.len() + 1) as u8] + data,
        ) == Seq::<OptionView>::empty(),
{
    assert((seq![0u8] + rest).skip(1) =~= rest);
    if code != 0 && code != 255 {
        let bytes = seq![code, data.len() as u8] + data + rest;
        assert(bytes.skip(2 + data.len() as int) =~= rest);
        assert(bytes.subrange(2, 2 + data.len() as int) =~= data);
        assert(bytes[1] == data.len());
        assert((seq![0u8] + rest)[0] == 0);
        assert((seq![255u8] + rest)[0] == 255);
    } else {
        assert((seq![0u8] + rest)[0] == 0);
        assert((seq![255u8] + rest)[0] == 255);
    }
}

/// A text field says what stands before its first zero, and nothing where it starts with one.
pub proof fn a_text_field_ends_at_its_first_zero(text: Seq<u8>, rest: Seq<u8>)
    requires
        forall|i: int| 0 <= i < text.len() ==> #[trigger] text[i] != 0,
    ensures
        ({
            let field = text + seq![0u8] + rest;
            &&& text.len() == 0 ==> null_terminated(field) == Ok::<
                Option<Seq<char>>,
                (ErrorKind, Seq<char>),
            >(None)
            &&& text.len() > 0 && valid_utf8(text) ==> null_terminated(field) == Ok::<
                Option<Seq<char>>,
                (ErrorKind, Seq<char>),
            >(Some(decode_utf8(text)))
            &&& text.len() > 0 && !valid_utf8(text) ==> null_terminated(field) is Err
        }),
        null_terminated(text) is Err,
{
    let field = text + seq![0u8] + rest;
    let end = text.len() as int;
    assert(field[end] == 0);
    assert forall|i: int| 0 <= i < end implies field[i] != 0 by {
        assert(field[i] == text[i]);
    }
    assert(first_zero_at(field, end));
    let at = choose|at: int| first_zero_at(field, at);
    assert(at == end) by {
        if at < end {
            assert(field[at] != 0);
        }
    }
    assert(field.take(end) =~= text);
    if exists|at: int| first_zero_at(text, at) {
        let at = choose|at: int| first_zero_at(text, at);
        assert(text[at] != 0);
    }
}

/// A message is read from the places at which it has its parts. Another hardware than Ethernet,
/// other flags than that for broadcast and another mark than the one of options are not understood.
pub proof fn a_configuration_is_read_from_its_places(bytes: Seq<u8>)
    ensures
        bytes.len() < 240 ==> parse_dhcp(bytes) is Err,
        parse_dhcp(bytes) matches Ok(message) ==> {
            let own = parse_options(bytes.skip(240));
            &&& bytes.subrange(236, 240) == seq![99u8, 130u8, 83u8, 99u8]
            &&& bytes[0] == if message.operation == Operation::BootRequest {
                1int
            } else {
                2
            }
            &&& bytes[1] == 1
            &&& message.hops == bytes[3]
            &&& message.transaction_id == four(bytes, 4)
            &&& message.secs == two(bytes, 8)
            &&& two(bytes, 10) == if message.flags.broadcast {
                0x8000int
            } else {
                0
            }
            &&& address_says(message.client_ip_addr, four(bytes, 12))
            &&& address_says(message.your_ip_addr, four(bytes, 16))
            &&& address_says(message.next_server_ip_addr, four(bytes, 20))
            &&& address_says(message.relay_agent_ip_addr, four(bytes, 24))
            &&& message.client_hardware_addr == bytes.subrange(28, 44)
            &&& message.options.len() >= own.len()
            &&& message.options.take(own.len() as int) == own
        },
{
    if let Ok(message) = parse_dhcp(bytes) {
        let own = parse_options(bytes.skip(240));
        assert(message.options.take(own.len() as int) =~= own);
        assert(bytes.subrange(236, 240) == magic_cookie());
    }
}

/// Whether an address that may be missing is the one with some bits. All zeros are no address.
pub open spec fn address_says(address: Option<Ipv4Addr>, bits: int) -> bool {
    match address {
        Some(address) => bits != 0 && address.bits == bits,
        None => bits == 0,
    }
}

/// Where a message says which fields hold options, these are read behind its own options and are
/// no text. Otherwise the fields are text and hold no options.
pub proof fn fields_hold_options_where_a_message_says_so(bytes: Seq<u8>)
    ensures
        parse_dhcp(bytes) matches Ok(message) ==> {
            let own = parse_options(bytes.skip(240));
            let name = bytes.subrange(44, 108);
            let file = bytes.subrange(108, 236);
            &&& first_overload(own) is None ==> {
                &&& message.options == own
                &&& null_terminated(name) == Ok::<Option<Seq<char>>, (ErrorKind, Seq<char>)>(
                    message.server_hostname,
                )
                &&& null_terminated(file) == Ok::<Option<Seq<char>>, (ErrorKind, Seq<char>)>(
                    message.boot_file_name,
                )
            }
            &&& first_overload(own) == Some(OptionsOverload::ServerName) ==> {
                &&& message.options == own + parse_options(name)
                &&& message.server_hostname is None
                &&& null_terminated(file) == Ok::<Option<Seq<char>>, (ErrorKind, Seq<char>)>(
                    message.boot_file_name,
                )
            }
            &&& first_overload(own) == Some(OptionsOverload::File) ==> {
                &&& message.options == own + parse_options(file)
                &&& message.boot_file_name is None
                &&& null_terminated(name) == Ok::<Option<Seq<char>>, (ErrorKind, Seq<char>)>(
                    message.server_hostname,
                )
            }
            &&& first_overload(own) == Some(OptionsOverload::Both) ==> {
                &&& message.options == own + parse_options(name) + parse_options(file)
                &&& message.server_hostname is None
                &&& message.boot_file_name is None
            }
        },
{
    if let Ok(message) = parse_dhcp(bytes) {
        let own = parse_options(bytes.skip(240));
        let name = bytes.subrange(44, 108);
        let file = bytes.subrange(108, 236);
        assert(own + Seq::<OptionView>::empty() + Seq::<OptionView>::empty() =~= own);
        assert(own + parse_options(name) + Seq::<OptionView>::empty() =~= own + parse_options(
            name,
        ));
        assert(own + Seq::<OptionView>::empty() + parse_options(file) =~= own + parse_options(
            file,
        ));
    }
}

/// Which fields hold options is said by the first option that says so.
pub proof fn the_first_choice_of_fields_counts(options: Seq<OptionView>, index: int)
    requires
        0 <= index < options.len(),
        options[index].1 is Overload,
        forall|i: int| 0 <= i < index ==> !((#[trigger] options[i]).1 is Overload),
    ensures
        Some(options[index].1->Overload_0) == first_overload(options),
    decreases index,
{
    if index > 0 {
        assert(!(options[0].1 is Overload));
        let rest = options.skip(1);
        assert forall|i: int| 0 <= i < index - 1 implies !((#[trigger] rest[i]).1 is Overload) by {
            assert(rest[i] == options[i + 1]);
        }
        the_first_choice_of_fields_counts(rest, index - 1);
    }
}

/// The message that looks for servers is a request over Ethernet with the number and the link layer
/// address of the client, asks for nothing else, and is marked as the first of its kind. It goes to
/// everybody, to the port at which servers listen.
pub proof fn a_client_first_sends_a_discover(transaction_id: u32, mac: MacAddr)
    ensures
        ({
            let bytes = encode_dhcp(discover_message(transaction_id, mac));
            &&& bytes.len() == 244
            &&& bytes[0] == 1
            &&& bytes[1] == 1
            &&& bytes[2] == 6
            &&& bytes[3] == 0
            &&& four(bytes, 4) == transaction_id
            &&& two(bytes, 8) == 0
            &&& two(bytes, 10) == 0
            &&& forall|i: int| 12 <= i < 28 ==> #[trigger] bytes[i] == 0
            &&& six(bytes, 28) == mac
            &&& forall|i: int| 34 <= i < 236 ==> #[trigger] bytes[i] == 0
            &&& bytes.skip(236) == seq![99u8, 130u8, 83u8, 99u8, 53u8, 1u8, 1u8, 255u8]
        }),
        server_address().ip == IpAddr::V4(Ipv4Addr { bits: 0xffff_ffff }),
        server_address().port == 67,
{
    broadcast use be16_round_trip;
    broadcast use be32_round_trip;

    let message = discover_message(transaction_id, mac);
    let bytes = encode_dhcp(message);
    let head = encode_head(message);
    let addresses = encode_addresses(message);
    let name = text_field(message.server_hostname, 64);
    let file = text_field(message.boot_file_name, 128);
    let options = encode_options(message.options);
    let number = be32_bytes(transaction_id);
    assert(head.len() == 12 && addresses.len() == 32 && name.len() == 64 && file.len() == 128);
    assert(bytes[4] == number[0] && bytes[5] == number[1] && bytes[6] == number[2] && bytes[7]
        == number[3]);
    assert(message.options.drop_last() =~= Seq::<OptionView>::empty());
    reveal_with_fuel(concat_options, 2);
    assert(concat_options(message.options) =~= encode_option(message.options[0]));
    assert(options =~= seq![53u8, 1u8, 1u8, 255u8]);
    assert(bytes.skip(236) =~= magic_cookie() + options);
    assert forall|i: int| 12 <= i < 28 implies #[trigger] bytes[i] == 0 by {
        assert(bytes[i] == addresses[i - 12]);
    }
    assert forall|i: int| 34 <= i < 236 implies #[trigger] bytes[i] == 0 by {
        if i < 44 {
            assert(bytes[i] == addresses[i - 12]);
        } else if i < 108 {
            assert(bytes[i] == name[i - 44]);
        } else {
            assert(bytes[i] == file[i - 108]);
        }
    }
}

/// A message is written to the places from which it is read.
pub proof fn a_configuration_is_written_to_its_places(message: DHCPView)
    requires
        message.client_hardware_addr.len() == 16,
    ensures
        ({
            let bytes = encode_dhcp(message);
            &&& bytes.len() >= 241
            &&& bytes[0] == if message.operation == Operation::BootRequest {
                1int
            } else {
                2
            }
            &&& bytes[1] == 1
            &&& bytes[2] == 6
            &&& bytes[3] == message.hops
            &&& four(bytes, 4) == message.transaction_id
            &&& two(bytes, 8) == message.secs
            &&& two(bytes, 10) == if message.flags.broadcast {
                0x8000int
            } else {
                0
            }
            &&& four(bytes, 12) == address_bits(message.client_ip_addr)
            &&& four(bytes, 16) == address_bits(message.your_ip_addr)
            &&& four(bytes, 20) == address_bits(message.next_server_ip_addr)
            &&& four(bytes, 24) == address_bits(message.relay_agent_ip_addr)
            &&& bytes.subrange(28, 44) == message.client_hardware_addr
            &&& holds_text(bytes.subrange(44, 108), message.server_hostname)
            &&& holds_text(bytes.subrange(108, 236), message.boot_file_name)
            &&& bytes.subrange(236, 240) == seq![99u8, 130u8, 83u8, 99u8]
            &&& bytes.last() == 255
            &&& bytes.subrange(240, bytes.len() - 1) == concat_options(message.options)
        }),
{
    broadcast use be16_round_trip;
    broadcast use be32_round_trip;

    let bytes = encode_dhcp(message);
    let head = encode_head(message);
    let addresses = encode_addresses(message);
    let name = text_field(message.server_hostname, 64);
    let file = text_field(message.boot_file_name, 128);
    let number = be32_bytes(message.transaction_id);
    let secs = be16_bytes(message.secs);
    let flags = be16_bytes(message.flags.encode());
    assert(head.len() == 12 && addresses.len() == 32 && name.len() == 64 && file.len() == 128);
    assert(bytes[4] == number[0] && bytes[5] == number[1] && bytes[6] == number[2] && bytes[7]
        == number[3]);
    assert(bytes[8] == secs[0] && bytes[9] == secs[1] && bytes[10] == flags[0] && bytes[11]
        == flags[1]);
    let client = be32_bytes(address_bits(message.client_ip_addr));
    let your = be32_bytes(address_bits(message.your_ip_addr));
    let server = be32_bytes(address_bits(message.next_server_ip_addr));
    let relay = be32_bytes(address_bits(message.relay_agent_ip_addr));
    assert(addresses =~= client + your + server + relay + message.client_hardware_addr);
    assert(bytes[12] == client[0] && bytes[13] == client[1] && bytes[14] == client[2] && bytes[15]
        == client[3]);
    assert(bytes[16] == your[0] && bytes[17] == your[1] && bytes[18] == your[2] && bytes[19]
        == your[3]);
    assert(bytes[20] == server[0] && bytes[21] == server[1] && bytes[22] == server[2] && bytes[23]
        == server[3]);
    assert(bytes[24] == relay[0] && bytes[25] == relay[1] && bytes[26] == relay[2] && bytes[27]
        == relay[3]);
    assert(bytes.subrange(28, 44) =~= message.client_hardware_addr);
    assert(bytes.subrange(44, 108) =~= name);
    assert(bytes.subrange(108, 236) =~= file);
    assert(bytes.subrange(236, 240) =~= magic_cookie());
    assert(bytes.subrange(240, bytes.len() - 1) =~= concat_options(message.options));
}

/// Whether a field holds a text from its start, and zeros behind it or where there is none.
pub open spec fn holds_text(field: Seq<u8>, text: Option<Seq<char>>) -> bool {
    forall|i: int|
        0 <= i < field.len() ==> #[trigger] field[i] == if text is Some && i < encode_utf8(
            text->0,
        ).len() {
            encode_utf8(text->0)[i]
        } else {
            0
        }
}

/// The bits of an address that may be missing.
pub open spec fn address_bits(address: Option<Ipv4Addr>) -> u32 {
    match address {
        Some(address) => address.bits,
        None => 0,
    }
}

/// Whether a text field ends and can be read.
pub open spec fn is_text(field: Seq<u8>, end: int) -> bool {
    &&& 0 <= end < field.len()
    &&& field[end] == 0
    &&& forall|i: int| 0 <= i < end ==> #[trigger] field[i] != 0
    &&& valid_utf8(field.take(end))
}

/// A message is read wherever its fixed parts can be understood and its text fields end.
pub proof fn an_understood_configuration_is_read(bytes: Seq<u8>, name: int, file: int)
    requires
        bytes.len() >= 240,
        bytes.subrange(236, 240) == seq![99u8, 130u8, 83u8, 99u8],
        bytes[0] == 1 || bytes[0] == 2,
        bytes[1] == 1,
        two(bytes, 10) == 0 || two(bytes, 10) == 0x8000,
        is_text(bytes.subrange(44, 108), name),
        is_text(bytes.subrange(108, 236), file),
    ensures
        parse_dhcp(bytes) is Ok,
{
    text_is_read(bytes.subrange(44, 108), name);
    text_is_read(bytes.subrange(108, 236), file);
    assert(bytes.subrange(236, 240) == magic_cookie());
}

proof fn text_is_read(field: Seq<u8>, end: int)
    requires
        is_text(field, end),
    ensures
        null_terminated(field) is Ok,
{
    let text = field.take(end);
    let rest = field.skip(end + 1);
    assert(field =~= text + seq![0u8] + rest);
    assert forall|i: int| 0 <= i < text.len() implies #[trigger] text[i] != 0 by {
        assert(field[i] != 0);
    }
    a_text_field_ends_at_its_first_zero(text, rest);
}

/// What is wrong with a message is told.
pub proof fn wrong_configurations_are_told_apart(bytes: Seq<u8>)
    ensures
        parse_dhcp(bytes) matches Err(error) ==> {
            &&& bytes.len() < 240 ==> error.0 == ErrorKind::UnexpectedEof
            &&& bytes.len() >= 240 && (bytes.subrange(236, 240) != seq![
                99u8,
                130u8,
                83u8,
                99u8,
            ] || (bytes[0] != 1 && bytes[0] != 2) || bytes[1] != 1) ==> error.0
                == ErrorKind::InvalidData
        },
{
}

} // verus!
