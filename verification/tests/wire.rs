//! The wire formats on concrete values.

use bytes::{Bytes, BytesMut};
use narth_net::checksum::{ChecksummingWriter, Summation};
use narth_net::common::{err_as_eof, Error, ErrorKind};
use narth_net::net::{IpAddr, Ipv4Addr, Ipv6Addr, SocketAddr};
use narth_net::protocols::arp::{
    ArpMessage, ArpResponder, HardwareType, Operation, ProtocolType,
};
use narth_net::protocols::ethernet::mac::MacAddr;
use narth_net::protocols::ethernet::{is_header_complete, EtherType, Ethernet, EthernetHeader};
use narth_net::protocols::ipv4::icmp::{
    is_icmp_complete, is_unix_data_in_range, DestinationUnreachableCode, EchoMessage,
    EchoMessageData, EchoMessageDataUnix, ICMPMessage, ICMPMessageTypes, RedirectMessageCode,
    TimeExceededCode,
};
use narth_net::protocols::ipv4::{
    is_ipv4_complete, prefix_to_mask, FragmentDetails, IPProtocolTypes, IPv4Header,
    IPv4HeaderLengthWords, TypeOfService, TypeOfServicePrecedence,
};
use narth_net::protocols::udp::UdpHeader;
use narth_net::time::Duration;
use narth_net::write_to_buffer::WriteToBuffer;

fn written<P: WriteToBuffer>(value: &P) -> Vec<u8> {
    let mut buffer = BytesMut::new();
    value.write_to_buffer(&mut buffer);
    buffer.to_vec()
}

fn checksum_of(bytes: &[u8]) -> u16 {
    let mut sum = Summation::new();
    sum.add_bytes(bytes);
    sum.finish()
}

fn with_checksum(mut bytes: Vec<u8>, at: usize) -> Bytes {
    bytes[at] = 0;
    bytes[at + 1] = 0;
    let checksum = checksum_of(&bytes);
    bytes[at] = (checksum >> 8) as u8;
    bytes[at + 1] = checksum as u8;
    Bytes::from(bytes)
}

fn assert_error<T: std::fmt::Debug>(result: Result<T, Error>, kind: ErrorKind, message: &str) {
    let error = result.expect_err("an error");
    assert_eq!(error.kind(), kind);
    assert_eq!(error.message(), message);
}

const OUR_MAC: [u8; 6] = [0x02, 0, 0, 0, 0, 1];
const THEIR_MAC: [u8; 6] = [0x02, 0, 0, 0, 0, 2];

#[test]
fn checksums_have_their_known_values() {
    assert_eq!(checksum_of(&[]), 0xffff);
    assert_eq!(checksum_of(&[0; 8]), 0xffff);
    assert_eq!(checksum_of(&[0x12, 0x34]), 0xedcb);
    assert_eq!(checksum_of(&[0x12]), 0xedff);
    let bytes: Vec<u8> = (0..1000usize).map(|i| (i * 7 % 256) as u8).collect();
    assert_eq!(checksum_of(&bytes), 0xc318);
    assert_eq!(checksum_of(&bytes[..999]), 0xc369);
}

#[test]
fn checksums_do_not_depend_on_pieces() {
    let bytes: Vec<u8> = (0..1000usize).map(|i| (i * 7 % 256) as u8).collect();
    let mut sum = Summation::new();
    sum.add_bytes(&bytes[..333]);
    sum.add_bytes(&bytes[333..334]);
    sum.add_bytes(&bytes[334..]);
    assert_eq!(sum.finish(), 0xc318);
}

#[test]
fn checksums_survive_long_runs_of_ones() {
    let mut bytes = vec![0xff; 128];
    bytes.push(1);
    bytes.extend([0; 63]);
    assert_eq!(checksum_of(&bytes), 0xfeff);
}

#[test]
fn a_checksumming_writer_writes_and_sums() {
    let mut buffer = [9u8; 6];
    {
        let mut writer = ChecksummingWriter::new(&mut buffer);
        assert_eq!(writer.write(&[0x12]), 1);
        assert_eq!(writer.write(&[0x34, 0x00]), 2);
        assert_eq!(writer.checksum(), 0xedcb);
    }
    assert_eq!(buffer, [0x12, 0x34, 0, 9, 9, 9]);
}

#[test]
fn errors_name_their_cause() {
    let error = err_as_eof("failed to parse vlan", "could not convert slice to array");
    assert_eq!(error.kind(), ErrorKind::UnexpectedEof);
    assert_eq!(error.message(), "failed to parse vlan: could not convert slice to array");
}

#[test]
fn addresses_are_made_of_their_octets() {
    let address = Ipv4Addr::new(192, 168, 0, 199);
    assert_eq!(address.bits, 0xc0a8_00c7);
    assert_eq!(address.octets(), [192, 168, 0, 199]);
    assert_eq!(Ipv4Addr::from_octets([192, 168, 0, 199]), address);
    assert!(Ipv4Addr::new(0, 0, 0, 0).is_unspecified());
    assert_eq!(Ipv4Addr::broadcast().octets(), [255; 4]);
    let v6 = Ipv6Addr::new([0xfe80, 0, 0, 0, 0, 0, 0, 0x21]);
    assert_eq!(v6.bits, 0xfe80_0000_0000_0000_0000_0000_0000_0021);
    assert_eq!(IpAddr::V4(address).to_unspecified(), IpAddr::V4(Ipv4Addr::unspecified()));
    assert_eq!(IpAddr::V6(v6).to_unspecified(), IpAddr::V6(Ipv6Addr::unspecified()));
    assert!(!SocketAddr::new(IpAddr::V6(v6), 1).is_ipv4());
}

#[test]
fn link_layer_addresses_are_made_of_their_octets() {
    let mac = MacAddr::new(0x02, 0xab, 0, 0x0f, 0xf0, 0xff);
    assert_eq!(mac.octets(), [0x02, 0xab, 0, 0x0f, 0xf0, 0xff]);
    assert_eq!(MacAddr::from_octets(mac.octets()), mac);
    assert_eq!(MacAddr::try_from(&mac.octets()).expect("six bytes"), mac);
    assert!(MacAddr::try_from(&[1, 2, 3, 4, 5]).is_err());
    assert!(!mac.is_broadcast());
    assert!(MacAddr::from_octets([255; 6]).is_broadcast());
    assert_eq!(mac.to_text(), "02:ab:00:0f:f0:ff");
}

#[test]
fn ether_types_have_codes_and_names() {
    for (code, ether_type, text) in [
        (0x0800, EtherType::IPv4, "IPv4"),
        (0x0806, EtherType::ARP, "ARP"),
        (0x8100, EtherType::VLAN, "VLAN"),
        (0x86dd, EtherType::IPv6, "IPv6"),
        (0x05dc, EtherType::Ieee8023LengthField(1500), "Len(1500)"),
        (0x0000, EtherType::Ieee8023LengthField(0), "Len(0)"),
        (0x05dd, EtherType::Other(0x05dd), "0x05dd"),
        (0xbeef, EtherType::Other(0xbeef), "0xbeef"),
    ] {
        assert_eq!(EtherType::from_code(code), ether_type);
        assert_eq!(ether_type.code(), code);
        assert_eq!(ether_type.to_text(), text);
    }
    assert_eq!(EtherType::try_from(&[0x08, 0x06]).expect("two bytes"), EtherType::ARP);
    assert_error(
        EtherType::try_from(&[8]),
        ErrorKind::UnexpectedEof,
        "failed to decode EtherType: could not convert slice to array",
    );
}

#[test]
fn a_frame_header_is_read_as_it_was_written() {
    let header = EthernetHeader::new(
        EtherType::IPv4,
        MacAddr::from_octets(OUR_MAC),
        MacAddr::from_octets(THEIR_MAC),
    );
    let bytes = written(&header);
    assert_eq!(bytes, [2, 0, 0, 0, 0, 2, 2, 0, 0, 0, 0, 1, 8, 0]);
    assert_eq!(header.encoded_length(), 14);
    assert_eq!(EthernetHeader::from_bytes(&Bytes::from(bytes)).expect("a header"), header);
    assert_eq!(header.destination_address(), MacAddr::from_octets(THEIR_MAC));
    assert_eq!(header.source_address(), MacAddr::from_octets(OUR_MAC));
    assert_eq!(header.ether_type(), EtherType::IPv4);
}

#[test]
fn a_tagged_frame_header_is_read_as_it_was_written() {
    let header = EthernetHeader {
        destination_address: MacAddr::from_octets(THEIR_MAC),
        source_address: MacAddr::from_octets(OUR_MAC),
        ether_type: EtherType::ARP,
        vlan: Some(0x0123),
    };
    let bytes = written(&header);
    assert_eq!(&bytes[12..], [0x81, 0x00, 0x01, 0x23, 0x08, 0x06]);
    assert_eq!(header.encoded_length(), 18);
    assert!(is_header_complete(&bytes));
    assert!(!is_header_complete(&bytes[..17]));
    assert_eq!(EthernetHeader::from_bytes(&Bytes::from(bytes)).expect("a header"), header);
}

#[test]
fn a_short_frame_is_an_error() {
    assert_error(
        EthernetHeader::from_bytes(&Bytes::from_static(&[0; 13])),
        ErrorKind::UnexpectedEof,
        "ethernet header too short",
    );
}

#[test]
fn a_frame_is_taken_apart() {
    let bytes = [2, 0, 0, 0, 0, 2, 2, 0, 0, 0, 0, 1, 8, 6, 7, 8, 9];
    let frame = Ethernet::from_bytes(&bytes);
    assert_eq!(frame.ether_type, EtherType::ARP);
    assert_eq!(frame.payload, [7, 8, 9]);
    assert_eq!(frame.len(), 14);
    let reply = frame.reply(MacAddr::from_octets(THEIR_MAC));
    assert_eq!(reply.destination_address, MacAddr::from_octets(OUR_MAC));
    assert_eq!(reply.source_address, MacAddr::from_octets(THEIR_MAC));
    assert_eq!(reply.ether_type, EtherType::ARP);
}

#[test]
fn arp_codes_are_read_and_written() {
    assert_eq!(HardwareType::from_code(1), HardwareType::Ethernet);
    assert_eq!(HardwareType::from_code(6).code(), 6);
    assert_eq!(ProtocolType::from_code(0x0800), ProtocolType::IPv4);
    assert_eq!(ProtocolType::from_code(0x86dd).code(), 0x86dd);
    assert_eq!(Operation::try_from(1).expect("a request").code(), 1);
    assert_eq!(Operation::try_from(2).expect("a reply"), Operation::Reply);
    assert_error(Operation::try_from(3), ErrorKind::InvalidData, "invalid arp operation");
}

#[test]
fn an_arp_message_is_read_as_it_was_written() {
    let message = ArpMessage::request(
        MacAddr::from_octets(OUR_MAC),
        Ipv4Addr::new(10, 0, 0, 2),
        Ipv4Addr::new(10, 0, 0, 1),
    );
    let bytes = written(&message);
    assert_eq!(
        bytes,
        [
            0, 1, 8, 0, 6, 4, 0, 1, 2, 0, 0, 0, 0, 1, 10, 0, 0, 1, 255, 255, 255, 255, 255, 255,
            10, 0, 0, 2
        ]
    );
    assert_eq!(message.encoded_length(), 28);
    assert_eq!(ArpMessage::from_bytes(&bytes).expect("a message"), message);
    let reply = message.reply(MacAddr::from_octets(THEIR_MAC), Ipv4Addr::new(10, 0, 0, 2));
    assert_eq!(reply.operation(), Operation::Reply);
    assert_eq!(reply.target_mac(), MacAddr::from_octets(OUR_MAC));
    assert_eq!(reply.target_addr(), Ipv4Addr::new(10, 0, 0, 1));
    assert_eq!(reply.source_mac(), MacAddr::from_octets(THEIR_MAC));
    assert_eq!(reply.source_addr(), Ipv4Addr::new(10, 0, 0, 2));
    assert_eq!(reply.create_ethernet().destination_address(), MacAddr::from_octets(OUR_MAC));
    let gratuitous =
        ArpMessage::gratuitous(MacAddr::from_octets(OUR_MAC), Ipv4Addr::new(10, 0, 0, 1));
    assert_eq!(gratuitous.source_addr(), gratuitous.target_addr());
    assert!(gratuitous.target_mac().is_broadcast());
}

#[test]
fn bad_arp_messages_are_errors() {
    let good = written(&ArpMessage::gratuitous(
        MacAddr::from_octets(OUR_MAC),
        Ipv4Addr::new(10, 0, 0, 1),
    ));
    assert_error(
        ArpMessage::from_bytes(&good[..27]),
        ErrorKind::UnexpectedEof,
        "ARP message too short",
    );
    for (at, value, message) in [
        (1, 2, "Unsupported Hardware type"),
        (2, 9, "Unsupported Protocol type"),
        (4, 7, "Invalid hardware length for Ethernet"),
        (5, 16, "Unsupported Protocol length for IPv4"),
        (7, 9, "invalid arp operation"),
    ] {
        let mut bad = good.clone();
        bad[at] = value;
        assert_error(ArpMessage::from_bytes(&bad), ErrorKind::InvalidData, message);
    }
}

#[test]
fn a_responder_remembers_who_asked() {
    let message = ArpMessage::request(
        MacAddr::from_octets(THEIR_MAC),
        Ipv4Addr::new(10, 0, 0, 1),
        Ipv4Addr::new(10, 0, 0, 2),
    );
    let frame = message.create_ethernet();
    let mut responder = ArpResponder::new();
    let our_mac = MacAddr::from_octets(OUR_MAC);
    let our_ip = Ipv4Addr::new(10, 0, 0, 1);
    let (header, reply) = responder.handle(&frame, &message, our_mac, our_ip);
    assert_eq!(header.destination_address(), MacAddr::from_octets(THEIR_MAC));
    assert_eq!(header.source_address(), our_mac);
    assert_eq!(reply, message.reply(our_mac, our_ip));
    responder.handle(&frame, &message, our_mac, our_ip);
    assert_eq!(
        responder.seen,
        [(MacAddr::from_octets(THEIR_MAC), Ipv4Addr::new(10, 0, 0, 2))]
    );
}

const HEADER: [u8; 20] = [
    0x45, 0x00, 0x00, 0x73, 0x00, 0x00, 0x40, 0x00, 0x40, 0x11, 0xb8, 0x61, 0xc0, 0xa8, 0x00, 0x01,
    0xc0, 0xa8, 0x00, 0xc7,
];

#[test]
fn an_ipv4_header_is_read_and_written() {
    let header = IPv4Header::from_bytes(&Bytes::from_static(&HEADER)).expect("a header");
    assert_eq!(header.protocol(), IPProtocolTypes::UDP);
    assert_eq!(header.source_address(), Ipv4Addr::new(192, 168, 0, 1));
    assert_eq!(header.destination_address(), Ipv4Addr::new(192, 168, 0, 199));
    assert_eq!(header.total_length(), 115);
    assert_eq!(header.payload_length(), 95);
    assert_eq!(header.header_length(), 20);
    assert_eq!(header.time_to_live, 64);
    assert_eq!(header.header_checksum, 0xb861);
    assert!(header.fragment_details.do_not_fragment);
    assert!(!header.is_fragmented());
    assert_eq!(written(&header), HEADER);
    let made = IPv4Header::with_identification(
        IPProtocolTypes::UDP,
        Ipv4Addr::new(192, 168, 0, 1),
        Ipv4Addr::new(192, 168, 0, 199),
        95,
        0,
    );
    assert_eq!(written(&made), HEADER);
    assert_eq!(made.encoded_length(), 20);
}

#[test]
fn a_random_identification_is_never_the_highest() {
    for _ in 0..200 {
        let header = IPv4Header::new(
            IPProtocolTypes::ICMP,
            Ipv4Addr::new(10, 0, 0, 1),
            Ipv4Addr::new(10, 0, 0, 2),
            8,
        );
        assert!(header.fragment_details.identification < u16::MAX);
        assert_eq!(header.total_length(), 28);
    }
}

#[test]
fn bad_ipv4_headers_are_errors() {
    let mut bad = HEADER;
    bad[0] = 0x65;
    assert_error(
        IPv4Header::from_bytes(&Bytes::copy_from_slice(&bad)),
        ErrorKind::InvalidData,
        "Invalid IPv4 version",
    );
    assert_error(
        IPv4Header::from_bytes(&Bytes::copy_from_slice(&HEADER[..19])),
        ErrorKind::UnexpectedEof,
        "Invalid IPv4 header length",
    );
    bad = HEADER;
    bad[19] = 0xc8;
    assert_error(
        IPv4Header::from_bytes(&Bytes::copy_from_slice(&bad)),
        ErrorKind::InvalidData,
        "Invalid IPv4 checksum",
    );
}

#[test]
fn headers_that_cannot_be_looked_at_are_told() {
    assert!(is_ipv4_complete(&HEADER));
    assert!(is_ipv4_complete(&HEADER[..19]));
    assert!(!is_ipv4_complete(&[]));
    assert!(!is_ipv4_complete(&[0x42; 20]));
    let mut short = [0u8; 12];
    short[0] = 0x43;
    assert!(is_ipv4_complete(&short));
    let short = with_checksum(short.to_vec(), 10);
    assert!(!is_ipv4_complete(&short));
}

#[test]
fn the_type_of_service_keeps_its_precedence() {
    let service = TypeOfService::parse(0b1011_0111);
    assert_eq!(
        service,
        TypeOfService {
            precedence: TypeOfServicePrecedence::CriticalAndEmergencyCallProcessing,
            low_delay: true,
            high_throughput: false,
            high_reliability: true,
        }
    );
    assert_eq!(service.to_byte(), 0b1011_0100);
    assert_eq!(TypeOfService::parse(0).precedence, TypeOfServicePrecedence::Routine);
    assert_eq!(TypeOfService::parse(0xff).precedence, TypeOfServicePrecedence::NetworkControl);
    assert_eq!(TypeOfServicePrecedence::from_byte(0x60).to_byte(), 0x60);
}

#[test]
fn header_lengths_count_words() {
    let length = IPv4HeaderLengthWords::from_byte(0x45);
    assert_eq!(length.byte_len(), 20);
    assert_eq!(length.to_byte(4), 0x45);
    assert_eq!(IPv4HeaderLengthWords::from_byte(0xff).byte_len(), 60);
}

#[test]
fn fragment_details_are_read_as_they_were_written() {
    let details = FragmentDetails {
        identification: 0xabcd,
        do_not_fragment: false,
        more_fragments: true,
        offset: 0x1234,
    };
    let bytes = written(&details);
    assert_eq!(bytes, [0xab, 0xcd, 0x32, 0x34]);
    assert_eq!(FragmentDetails::read(&bytes, 0), details);
    assert_eq!(details.encoded_length(), 4);
}

#[test]
fn protocols_have_numbers() {
    for (number, protocol) in [
        (1, IPProtocolTypes::ICMP),
        (6, IPProtocolTypes::TCP),
        (17, IPProtocolTypes::UDP),
        (89, IPProtocolTypes::Other(89)),
    ] {
        assert_eq!(IPProtocolTypes::from_code(number), protocol);
        assert_eq!(protocol.code(), number);
    }
}

#[test]
fn prefixes_make_masks() {
    assert_eq!(prefix_to_mask(0), Ipv4Addr::new(0, 0, 0, 0));
    assert_eq!(prefix_to_mask(1), Ipv4Addr::new(128, 0, 0, 0));
    assert_eq!(prefix_to_mask(20), Ipv4Addr::new(255, 255, 240, 0));
    assert_eq!(prefix_to_mask(24), Ipv4Addr::new(255, 255, 255, 0));
    assert_eq!(prefix_to_mask(32), Ipv4Addr::new(255, 255, 255, 255));
}

#[test]
fn a_udp_header_is_read_as_it_was_written() {
    let source = Ipv4Addr::new(10, 0, 0, 1);
    let destination = Ipv4Addr::new(10, 0, 0, 2);
    let mut header = UdpHeader::new(4000, 53, 3);
    assert_eq!(header.compute_checksum_v4(&source, &destination, b"abc"), [0x17, 0x9e]);
    assert!(!header.validate_checksum_v4(&source, &destination, b"abc"));
    header.compute_and_update_checksum_v4(&source, &destination, b"abc");
    assert!(header.validate_checksum_v4(&source, &destination, b"abc"));
    assert!(!header.validate_checksum_v4(&source, &destination, b"abd"));
    let bytes = written(&header);
    assert_eq!(bytes, [0x0f, 0xa0, 0, 53, 0, 11, 0x17, 0x9e]);
    assert_eq!(UdpHeader::from_bytes(&bytes).expect("a header"), header);
    assert_eq!(header.source_port(), 4000);
    assert_eq!(header.destination_port(), 53);
    assert_eq!(header.datagram_length(), 11);
    assert_eq!(header.encoded_length(), 8);
    assert_error(
        UdpHeader::from_bytes(&bytes[..7]),
        ErrorKind::UnexpectedEof,
        "Invalid length for UDP header",
    );
}

#[test]
fn a_udp_checksum_is_never_zero() {
    let header = UdpHeader::new(4000, 53, 2);
    let checksum = header.compute_checksum_v4(
        &Ipv4Addr::new(10, 0, 0, 1),
        &Ipv4Addr::new(10, 0, 0, 2),
        &[0xdc, 0x02],
    );
    assert_eq!(checksum, [0xff, 0xff]);
}

fn echo_bytes() -> Bytes {
    with_checksum([&[8, 0, 0, 0, 0x12, 0x34, 0, 7][..], b"hello"].concat(), 2)
}

#[test]
fn an_echo_is_read_and_answered() {
    let bytes = echo_bytes();
    assert_eq!(&bytes[2..4], [0xa1, 0xf2]);
    let message = ICMPMessage::from_bytes(&bytes).expect("a message");
    assert_eq!(message.checksum, 0xa1f2);
    assert_eq!(message.type_and_code_u8(), (8, 0));
    let ICMPMessageTypes::Echo(echo) = &message.message else {
        panic!("not an echo");
    };
    assert_eq!(echo.identifier(), 0x1234);
    assert_eq!(echo.sequence_number(), 7);
    assert_eq!(written(&message), bytes);
    assert_eq!(message.encoded_length(), bytes.len());
    let reply = ICMPMessage::echo_reply(echo);
    assert_eq!(
        written(&reply),
        [&[0, 0, 0xa9, 0xf2, 0x12, 0x34, 0, 7][..], b"hello"].concat()
    );
    assert_eq!(reply.type_and_code_u8(), (0, 0));
    let read = ICMPMessage::from_bytes(&Bytes::from(written(&reply))).expect("a reply");
    assert_eq!(read.message, reply.message);
}

#[test]
fn bad_control_messages_are_errors() {
    assert_error(
        ICMPMessage::from_bytes(&Bytes::from_static(&[8, 0, 0, 0, 0, 0, 0])),
        ErrorKind::UnexpectedEof,
        "ICMP Payload truncated parsing",
    );
    let mut bad = echo_bytes().to_vec();
    bad[12] ^= 1;
    assert_error(
        ICMPMessage::from_bytes(&Bytes::from(bad)),
        ErrorKind::InvalidData,
        "ICMP Payload checksum mismatch",
    );
    for (bytes, message) in [
        (vec![42, 0, 0, 0, 0, 0, 0, 0], "Invalid ICMP Message"),
        (vec![5, 4, 0, 0, 0, 0, 0, 0], "Invalid Redirect Message Code"),
        (vec![11, 2, 0, 0, 0, 0, 0, 0], "Invalid Time Exceeded Code"),
    ] {
        assert_error(
            ICMPMessage::from_bytes(&with_checksum(bytes, 2)),
            ErrorKind::InvalidInput,
            message,
        );
    }
}

#[test]
fn other_control_messages_are_read() {
    let quench = with_checksum(vec![4, 0, 0, 0, 0, 0, 0, 0, 0xde, 0xad, 0xbe, 0xef], 2);
    let message = ICMPMessage::from_bytes(&quench).expect("a message");
    assert_eq!(message.type_and_code_u8(), (4, 0));
    assert_eq!(message.encoded_length(), 12);
    assert_eq!(written(&message), [4, 0, 0x5e, 0x62, 0xde, 0xad, 0xbe, 0xef]);

    let redirect = with_checksum(vec![5, 1, 0, 0, 10, 0, 0, 254, 0xde, 0xad], 2);
    let message = ICMPMessage::from_bytes(&redirect).expect("a message");
    let ICMPMessageTypes::Redirect(redirect) = &message.message else {
        panic!("not a redirect");
    };
    assert_eq!(redirect.code, RedirectMessageCode::Host);
    assert_eq!(redirect.gateway, Ipv4Addr::new(10, 0, 0, 254));
    assert_eq!(&redirect.data[..], [0xde, 0xad]);
    assert_eq!(message.encoded_length(), 10);
    assert_eq!(written(&message), [5, 1, 0x1c, 0x51, 0xde, 0xad]);

    let exceeded = with_checksum(vec![11, 1, 0, 0, 0, 0, 0, 0, 1, 2], 2);
    let message = ICMPMessage::from_bytes(&exceeded).expect("a message");
    let ICMPMessageTypes::TimeExceeded(exceeded) = &message.message else {
        panic!("no time exceeded");
    };
    assert_eq!(exceeded.code, TimeExceededCode::FragmentReassemblyTimeExceeded);
    assert_eq!(message.type_and_code_u8(), (11, 1));
    assert_eq!(message.encoded_length(), 10);
    assert_eq!(written(&message), [11, 1, 0xf3, 0xfc, 1, 2]);

    let problem = with_checksum(vec![12, 0, 0, 0, 8, 9, 0, 0, 1, 2], 2);
    let message = ICMPMessage::from_bytes(&problem).expect("a message");
    let ICMPMessageTypes::ParameterProblem(problem) = &message.message else {
        panic!("no parameter problem");
    };
    assert_eq!(problem.pointer, 9);
    assert_eq!(message.encoded_length(), 10);
    assert_eq!(written(&message), [12, 0, 0xf2, 0xfd, 1, 2]);
}

#[test]
fn control_codes_are_read_and_written() {
    for code in 0..6 {
        assert_eq!(DestinationUnreachableCode::try_from(code).expect("a code").code(), code);
    }
    assert_error(
        DestinationUnreachableCode::try_from(6),
        ErrorKind::InvalidInput,
        "Invalid Destination Unreachable code",
    );
    assert_eq!(TimeExceededCode::try_from(1).expect("a code").code(), 1);
    assert_eq!(RedirectMessageCode::try_from(2).expect("a code").code(), 2);
    // The redirect of a service and a host is read as 3 and written as 4.
    assert_eq!(RedirectMessageCode::try_from(3).expect("a code").code(), 4);
}

fn unreachable_bytes(code: u8, header: &[u8], rest: &[u8]) -> Bytes {
    with_checksum([&[3, code, 0, 0, 0, 0, 0, 0][..], header, rest].concat(), 2)
}

#[test]
fn an_unreachable_message_quotes_the_datagram() {
    let quoted = [8, 0, 0x11, 0x22, 0x12, 0x34, 0, 7];
    let bytes = unreachable_bytes(1, &HEADER, &quoted);
    let message = ICMPMessage::from_bytes(&bytes).expect("a message");
    let ICMPMessageTypes::DestinationUnreachable(unreachable) = &message.message else {
        panic!("not unreachable");
    };
    assert_eq!(unreachable.code, DestinationUnreachableCode::HostUnreachable);
    assert_eq!(unreachable.ipv4header.destination_address(), Ipv4Addr::new(192, 168, 0, 199));
    assert_eq!(unreachable.datagram, quoted);
    assert_eq!(message.encoded_length(), 36);
    let bytes_written = written(&message);
    assert_eq!(bytes_written.len(), 32);
    assert_eq!(bytes_written[4..], bytes[8..]);
    assert!(is_icmp_complete(&bytes));
    assert!(!is_icmp_complete(&with_checksum(vec![3, 0, 0, 0, 0, 0, 0, 0], 2)));
}

#[test]
fn bad_unreachable_messages_are_errors() {
    let quoted = [8, 0, 0x11, 0x22, 0x12, 0x34, 0, 7];
    assert_error(
        ICMPMessage::from_bytes(&unreachable_bytes(6, &HEADER, &quoted)),
        ErrorKind::InvalidInput,
        "Invalid Destination Unreachable code",
    );
    assert_error(
        ICMPMessage::from_bytes(&unreachable_bytes(1, &HEADER, &quoted[..7])),
        ErrorKind::UnexpectedEof,
        "ICMP Payload truncated, missing or truncated datagram start",
    );
    assert_error(
        ICMPMessage::from_bytes(&unreachable_bytes(1, &HEADER[..12], &[])),
        ErrorKind::UnexpectedEof,
        "ICMP Payload truncated parsing IPv4 Header",
    );
    let mut bad = HEADER;
    bad[0] = 0x65;
    assert_error(
        ICMPMessage::from_bytes(&unreachable_bytes(1, &bad, &quoted)),
        ErrorKind::InvalidData,
        "ICMP Payload IPv4 Header Parse Failed: Invalid IPv4 version",
    );
}

#[test]
fn clock_readings_are_read_as_they_were_written() {
    let clock = EchoMessageDataUnix {
        since_epoc: Duration { nanos: 1_700_000_000_123_456_789 },
        monotonic_instant: Some(Duration::from_nanos(987_654_321)),
    };
    assert_eq!(clock.encoded_length(), 56);
    let bytes = written(&clock);
    assert_eq!(bytes.len(), 56);
    assert_eq!(&bytes[..8], 1_700_000_000u64.to_ne_bytes());
    assert_eq!(&bytes[8..16], 123_456u64.to_ne_bytes());
    assert_eq!(&bytes[16..32], 987_654_321u128.to_ne_bytes());
    assert_eq!(&bytes[32..], (32..56).collect::<Vec<u8>>());
    assert!(is_unix_data_in_range(&bytes));
    let read = EchoMessageDataUnix::try_from(&Bytes::from(bytes)).expect("readings");
    assert_eq!(read.since_epoc, Duration { nanos: 1_700_000_000_123_456_000 });
    assert_eq!(read.monotonic_instant, clock.monotonic_instant);
}

#[test]
fn clock_readings_without_a_monotonic_clock_are_read_as_they_were_written() {
    let clock = EchoMessageDataUnix {
        since_epoc: Duration::from_secs(5),
        monotonic_instant: None,
    };
    assert_eq!(clock.encoded_length(), 56);
    let bytes = written(&clock);
    assert_eq!(bytes.len(), 56);
    assert_eq!(&bytes[16..], (16..56).collect::<Vec<u8>>());
    assert_error(
        EchoMessageDataUnix::try_from(&Bytes::copy_from_slice(&bytes[..55])),
        ErrorKind::UnexpectedEof,
        "ICMP Payload truncated parsing",
    );
    let read = EchoMessageDataUnix::try_from(&Bytes::from(bytes)).expect("readings");
    assert_eq!(read, clock);
}

#[test]
fn the_filler_is_no_monotonic_clock() {
    let mut bytes: Vec<u8> = (0..56).collect();
    bytes[..8].copy_from_slice(&3u64.to_ne_bytes());
    bytes[8..16].copy_from_slice(&5u64.to_ne_bytes());
    let read = EchoMessageDataUnix::try_from(&Bytes::from(bytes.clone())).expect("readings");
    assert_eq!(read.since_epoc, Duration { nanos: 3_000_005_000 });
    assert_eq!(read.monotonic_instant, None);
    bytes[16..32].copy_from_slice(&0u128.to_ne_bytes());
    let read = EchoMessageDataUnix::try_from(&Bytes::from(bytes.clone())).expect("readings");
    assert_eq!(read.monotonic_instant, None);
    bytes[8..16].copy_from_slice(&u64::MAX.to_ne_bytes());
    assert!(!is_unix_data_in_range(&bytes));
}

#[test]
fn an_echo_request_carries_clock_readings() {
    let clock = EchoMessageDataUnix {
        since_epoc: Duration::from_millis(1_500),
        monotonic_instant: Some(Duration::from_millis(20)),
    };
    let request = ICMPMessage::new_echo_request(9, 10, clock);
    assert_eq!(request.encoded_length(), 64);
    let bytes = Bytes::from(written(&request));
    assert_eq!(bytes.len(), 64);
    let read = ICMPMessage::from_bytes(&bytes).expect("a message");
    let ICMPMessageTypes::Echo(echo) = &read.message else {
        panic!("not an echo");
    };
    assert_eq!((echo.identifier(), echo.sequence_number()), (9, 10));
    assert_eq!(echo.parse_unix_data().expect("readings"), clock);
    let own = EchoMessage {
        identifier: 1,
        sequence_number: 2,
        data: EchoMessageData::UnixLike(clock),
    };
    assert_eq!(own.parse_unix_data().expect("readings"), clock);
}

#[test]
fn tuples_are_written_one_part_after_the_other() {
    let parts = (
        Bytes::from_static(b"ab"),
        UdpHeader { source_port: 1, destination_port: 2, length: 3, checksum: [0, 4] },
        &Bytes::from_static(b"c"),
    );
    assert_eq!(written(&parts), [b'a', b'b', 0, 1, 0, 2, 0, 3, 0, 4, b'c']);
    assert_eq!(parts.encoded_length(), 11);
    assert_eq!((Bytes::from_static(b"ab"), Bytes::from_static(b"cd")).encoded_length(), 4);
}

#[test]
fn spans_count_whole_seconds() {
    assert_eq!(Duration::from_millis(2_999).as_secs(), 2);
    assert_eq!(Duration::from_secs(u64::MAX).as_secs(), u64::MAX);
}
