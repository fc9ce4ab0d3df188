//! Address configuration on concrete values.

use bytes::BytesMut;
use narth_net::common::ErrorKind;
use narth_net::net::{IpAddr, Ipv4Addr, SocketAddr};
use narth_net::protocols::ethernet::mac::MacAddr;
use narth_net::protocols::ipv4::dhcp::{
    str_from_null_terminated_utf8, DHCPMessageType, DHCPOption, DHCPOptions, Flags, OptionCode,
    Operation, OptionsOverload, DHCP,
};
use narth_net::services::dhcpv4::{
    packet_bytes, Action, ClientState, Phase, CLIENT_PORT, SERVER_PORT,
};
use narth_net::time::Instant;
use narth_net::write_to_buffer::WriteToBuffer;

fn written<P: WriteToBuffer>(value: &P) -> Vec<u8> {
    let mut buffer = BytesMut::new();
    value.write_to_buffer(&mut buffer);
    assert_eq!(buffer.len(), value.encoded_length());
    buffer.to_vec()
}

fn mac() -> MacAddr {
    MacAddr::new(2, 0, 0, 0, 0, 1)
}

fn all_options() -> Vec<(DHCPOption, Vec<u8>)> {
    let address = Ipv4Addr::new(10, 0, 0, 1);
    let other = Ipv4Addr::new(10, 0, 0, 2);
    vec![
        (DHCPOption::SubnetMask(Ipv4Addr::new(255, 255, 255, 0)), vec![1, 4, 255, 255, 255, 0]),
        (DHCPOption::TimeOffset(-3600), vec![2, 4, 0xff, 0xff, 0xf1, 0xf0]),
        (
            DHCPOption::RouterOption(vec![address, other]),
            vec![3, 8, 10, 0, 0, 1, 10, 0, 0, 2],
        ),
        (DHCPOption::DomainNameServerOption(vec![other]), vec![6, 4, 10, 0, 0, 2]),
        (DHCPOption::HostNameOption("box".to_string()), vec![12, 3, b'b', b'o', b'x']),
        (DHCPOption::DomainName("\u{e9}".to_string()), vec![15, 2, 0xc3, 0xa9]),
        (DHCPOption::PathMTUAgingTimeoutOption(600), vec![24, 4, 0, 0, 2, 0x58]),
        (DHCPOption::PathMTUPlateauOption(vec![68, 1500]), vec![25, 4, 0, 68, 0x05, 0xdc]),
        (DHCPOption::BroadcastAddressOption(address), vec![28, 4, 10, 0, 0, 1]),
        (
            DHCPOption::StaticRouteOption(vec![(address, other)]),
            vec![33, 8, 10, 0, 0, 1, 10, 0, 0, 2],
        ),
        (DHCPOption::NetworkTimeProtocolServersOption(vec![address]), vec![42, 4, 10, 0, 0, 1]),
        (DHCPOption::RequestedIpAddress(address), vec![50, 4, 10, 0, 0, 1]),
        (DHCPOption::IPAddressLeaseTime(86_400), vec![51, 4, 0, 1, 0x51, 0x80]),
        (DHCPOption::OptionsOverload(OptionsOverload::Both), vec![52, 1, 3]),
        (DHCPOption::DHCPMessageType(DHCPMessageType::Ack), vec![53, 1, 5]),
        (DHCPOption::ServerIdentifier(address), vec![54, 4, 10, 0, 0, 1]),
        (DHCPOption::ParameterRequestList(vec![1, 3, 6]), vec![55, 3, 1, 3, 6]),
        (DHCPOption::Message("no".to_string()), vec![56, 2, b'n', b'o']),
        (DHCPOption::MaximumDHCPMessageSize(576), vec![57, 2, 2, 0x40]),
        (DHCPOption::RenewalTimeValue(1), vec![58, 4, 0, 0, 0, 1]),
        (DHCPOption::RebindingTimeValue(u32::MAX), vec![59, 4, 255, 255, 255, 255]),
        (DHCPOption::ClassIdentifier("x".to_string()), vec![60, 1, b'x']),
        (DHCPOption::ClientIdentifier(mac()), vec![61, 7, 1, 2, 0, 0, 0, 0, 1]),
    ]
}

#[test]
fn options_are_written_as_they_are_documented() {
    for (option, bytes) in all_options() {
        assert_eq!(written(&option), bytes);
    }
}

#[test]
fn options_are_read_as_they_were_written() {
    for (option, bytes) in all_options() {
        let read = DHCPOption::parse(bytes[0], &bytes[2..]).expect("an option");
        assert_eq!(format!("{read:?}"), format!("{option:?}"));
        assert_eq!(OptionCode::from_repr(bytes[0]).expect("a code").value(), bytes[0]);
    }
    assert!(OptionCode::from_repr(121).is_none());
}

#[test]
fn options_with_bad_data_are_passed_over() {
    for (code, data) in [
        (1, vec![255, 255, 255]),
        (2, vec![0; 5]),
        (3, vec![10, 0, 0]),
        (12, vec![0xff]),
        (24, vec![0; 3]),
        (25, vec![0]),
        (33, vec![0; 7]),
        (52, vec![4]),
        (52, vec![]),
        (53, vec![8]),
        (53, vec![1, 1]),
        (57, vec![0]),
        (61, vec![2, 0, 0, 0, 0, 0, 1]),
        (61, vec![1, 0, 0, 0, 0, 1]),
        (121, vec![1, 2, 3]),
    ] {
        assert!(DHCPOption::parse(code, &data).is_none(), "{code} {data:?}");
    }
    // What is left over of a list is passed over.
    let Some(DHCPOption::RouterOption(routers)) = DHCPOption::parse(3, &[10, 0, 0, 1, 9]) else {
        panic!("no routers");
    };
    assert_eq!(routers, [Ipv4Addr::new(10, 0, 0, 1)]);
}

#[test]
fn a_list_of_options_is_read_as_it_was_written() {
    let (options, parts): (Vec<DHCPOption>, Vec<Vec<u8>>) = all_options().into_iter().unzip();
    let options = DHCPOptions(options);
    let bytes = written(&options);
    let mut expected = parts.concat();
    expected.push(255);
    assert_eq!(bytes, expected);
    let read = DHCPOptions::from(&bytes);
    assert_eq!(format!("{read:?}"), format!("{options:?}"));
    assert_eq!(read.options_overload(), Some(OptionsOverload::Both));
    assert_eq!(written(&DHCPOptions(Vec::new())), [255]);
}

#[test]
fn options_end_where_they_should() {
    // Padding, an option that is not understood, an option, the end, and another option.
    let bytes = [0, 0, 121, 2, 9, 9, 53, 1, 2, 255, 53, 1, 3, 0];
    let read = DHCPOptions::from(&bytes);
    assert_eq!(read.0.len(), 1);
    assert!(matches!(read.0[0], DHCPOption::DHCPMessageType(DHCPMessageType::Offer)));
    assert_eq!(read.options_overload(), None);
    // Nothing follows the option, so it is not read.
    assert!(DHCPOptions::from(&[53, 1, 2]).0.is_empty());
    assert_eq!(DHCPOptions::from(&[53, 1, 2, 0]).0.len(), 1);
    assert!(DHCPOptions::from(&[53]).0.is_empty());
    assert!(DHCPOptions::from(&[53, 9, 2, 0]).0.is_empty());
}

#[test]
fn texts_end_at_a_zero_byte() {
    assert_eq!(
        str_from_null_terminated_utf8(b"boot\0rest").expect("a text"),
        Some("boot".to_string())
    );
    assert_eq!(str_from_null_terminated_utf8(b"\0rest").expect("no text"), None);
    let error = str_from_null_terminated_utf8(b"boot").expect_err("no end");
    assert_eq!((error.kind(), error.message()), (ErrorKind::InvalidData, "invalid data"));
    let error = str_from_null_terminated_utf8(&[0xff, 0]).expect_err("no text");
    assert_eq!(error.kind(), ErrorKind::InvalidData);
    assert!(error.message().contains("invalid utf-8"));
}

#[test]
fn flags_have_no_reserved_bits() {
    assert!(!Flags::try_from(0).expect("flags").broadcast);
    assert!(Flags::try_from(0x8000).expect("flags").broadcast);
    assert_eq!(Flags { broadcast: true }.value(), 0x8000);
    let error = Flags::try_from(1).expect_err("reserved");
    assert_eq!(
        (error.kind(), error.message()),
        (ErrorKind::InvalidData, "Flags has data in reserved")
    );
}

fn offer() -> DHCP {
    DHCP {
        operation: Operation::BootReply,
        hops: 3,
        transaction_id: 0xdead_beef,
        secs: 0x0102,
        flags: Flags { broadcast: true },
        client_ip_addr: None,
        your_ip_addr: Some(Ipv4Addr::new(10, 0, 0, 77)),
        next_server_ip_addr: Some(Ipv4Addr::new(10, 0, 0, 1)),
        relay_agent_ip_addr: None,
        client_hardware_addr: [2, 0, 0, 0, 0, 1, 0, 0, 0, 0, 0, 0, 0, 0, 0, 0],
        server_hostname: Some("server".to_string()),
        boot_file_name: Some("/boot/file".to_string()),
        options: DHCPOptions(vec![
            DHCPOption::DHCPMessageType(DHCPMessageType::Offer),
            DHCPOption::IPAddressLeaseTime(3600),
        ]),
    }
}

#[test]
fn a_message_is_read_as_it_was_written() {
    let message = offer();
    let bytes = written(&message);
    assert_eq!(bytes.len(), 240 + 3 + 6 + 1);
    assert_eq!(&bytes[..12], [2, 1, 6, 3, 0xde, 0xad, 0xbe, 0xef, 1, 2, 0x80, 0]);
    assert_eq!(&bytes[12..28], [0, 0, 0, 0, 10, 0, 0, 77, 10, 0, 0, 1, 0, 0, 0, 0]);
    assert_eq!(&bytes[44..52], b"server\0\0");
    assert_eq!(&bytes[108..119], b"/boot/file\0");
    assert_eq!(&bytes[236..240], [0x63, 0x82, 0x53, 0x63]);
    assert_eq!(&bytes[240..], [53, 1, 2, 51, 4, 0, 0, 14, 16, 255]);
    let read = DHCP::try_from(&bytes).expect("a message");
    assert_eq!(format!("{read:?}"), format!("{message:?}"));
}

#[test]
fn fields_can_hold_options() {
    let mut message = offer();
    message.server_hostname = None;
    message.options.0.push(DHCPOption::OptionsOverload(OptionsOverload::ServerName));
    let mut bytes = written(&message);
    bytes[44..50].copy_from_slice(&[58, 4, 0, 0, 0, 9]);
    bytes[50] = 255;
    let read = DHCP::try_from(&bytes).expect("a message");
    assert_eq!(read.server_hostname, None);
    assert_eq!(read.boot_file_name.as_deref(), Some("/boot/file"));
    assert_eq!(read.options.0.len(), 4);
    assert!(matches!(read.options.0[3], DHCPOption::RenewalTimeValue(9)));

    let mut both = offer();
    both.server_hostname = None;
    both.boot_file_name = None;
    both.options.0.push(DHCPOption::OptionsOverload(OptionsOverload::Both));
    let mut bytes = written(&both);
    bytes[108..112].copy_from_slice(&[53, 1, 6, 255]);
    let read = DHCP::try_from(&bytes).expect("a message");
    assert_eq!(read.boot_file_name, None);
    assert!(matches!(
        read.options.0[3],
        DHCPOption::DHCPMessageType(DHCPMessageType::Nak)
    ));
}

#[test]
fn bad_messages_are_errors() {
    let good = written(&offer());
    let error = DHCP::try_from(&good[..239]).expect_err("too short");
    assert_eq!(
        (error.kind(), error.message()),
        (ErrorKind::UnexpectedEof, "unexpected end of file")
    );
    for (at, value, message) in [
        (239, 0x64, "Invalid magic cookie"),
        (0, 3, "Invalid BOOTP Operation"),
        (1, 6, "Unsupported Hardware Type"),
        (11, 1, "Flags has data in reserved"),
    ] {
        let mut bad = good.clone();
        bad[at] = value;
        let error = DHCP::try_from(&bad).expect_err("a bad message");
        assert_eq!((error.kind(), error.message()), (ErrorKind::InvalidData, message));
    }
    let mut endless = good.clone();
    endless[44..108].fill(b'a');
    let error = DHCP::try_from(&endless).expect_err("no end");
    assert_eq!((error.kind(), error.message()), (ErrorKind::InvalidData, "invalid data"));
    let mut endless = good;
    endless[108..236].fill(b'a');
    assert!(DHCP::try_from(&endless).is_err());
}

#[test]
fn long_texts_are_cut_off() {
    let mut message = offer();
    message.server_hostname = Some("s".repeat(70));
    let bytes = written(&message);
    assert_eq!(&bytes[44..108], "s".repeat(64).as_bytes());
    assert_eq!(&bytes[108..118], b"/boot/file");
}

#[test]
fn a_discover_is_read_as_it_was_written() {
    let started = Instant { nanos: 0 };
    let now = Instant { nanos: 70_001_999_999_999 };
    let message = DHCP::discover(7, started, now, mac());
    assert_eq!(message.secs, (70_001 % 65536) as u16);
    let bytes = packet_bytes(&message);
    assert_eq!(bytes.len(), 244);
    let read = DHCP::try_from(&bytes).expect("a message");
    assert_eq!(format!("{read:?}"), format!("{message:?}"));
    assert_eq!(&read.client_hardware_addr[..7], [2, 0, 0, 0, 0, 1, 0]);
}

#[test]
fn a_client_looks_for_servers_once() {
    assert_eq!((SERVER_PORT, CLIENT_PORT), (67, 68));
    let mut client = ClientState::new_seeded(mac(), 42);
    let now = Instant { nanos: 1_000 };
    let deadline = client.deadline(now).expect("a deadline");
    let seconds = (deadline.nanos - now.nanos) / 1_000_000_000;
    assert!((1..10).contains(&seconds));
    assert_eq!((deadline.nanos - now.nanos) % 1_000_000_000, 0);
    let Action::SendPacket(address, packet) = client.handle_tick(now) else {
        panic!("nothing to send");
    };
    assert_eq!(address, SocketAddr::new(IpAddr::V4(Ipv4Addr::broadcast()), 67));
    let Phase::Selecting { transaction_id, started_at } = client.phase else {
        panic!("not selecting");
    };
    assert_eq!(packet.transaction_id, transaction_id);
    assert_eq!(started_at, now);
    assert_eq!(packet.secs, 0);
    assert!(client.deadline(now).is_none());
    assert!(matches!(client.handle_tick(now), Action::Idle));
    assert!(matches!(client.handle_datagram(&packet_bytes(&packet)), Ok(Action::Idle)));
    assert!(client.handle_datagram(&[1, 2, 3]).is_err());
}

#[test]
fn a_client_draws_the_same_numbers_from_the_same_seed() {
    let now = Instant { nanos: 0 };
    let mut one = ClientState::new_seeded(mac(), 7);
    let mut other = ClientState::new_seeded(mac(), 7);
    assert_eq!(one.deadline(now), other.deadline(now));
    one.handle_tick(now);
    other.handle_tick(now);
    assert_eq!(one, other);
    let mut rng = fastrand::Rng::with_seed(7);
    rng.u64(1..10);
    assert!(matches!(one.phase, Phase::Selecting { transaction_id, .. }
        if transaction_id == rng.u32(..)));
    assert_eq!(ClientState::new(mac()).phase, Phase::Init);
}
