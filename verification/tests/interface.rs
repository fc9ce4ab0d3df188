//! An interface from frames to frames.

use bytes::{Bytes, BytesMut};
use narth_net::common::ErrorKind;
use narth_net::net::{IpAddr, Ipv4Addr, Ipv6Addr, SocketAddr};
use narth_net::protocols::arp::{ArpMessage, Operation};
use narth_net::protocols::ethernet::mac::MacAddr;
use narth_net::protocols::ethernet::{EtherType, EthernetHeader};
use narth_net::protocols::ipv4::icmp::{
    DestinationUnreachableCode, DestinationUnreachableMessage, EchoMessage, EchoMessageData,
    EchoMessageDataUnix, ICMPMessage, ICMPMessageTypes,
};
use narth_net::protocols::ipv4::{IPProtocolTypes, IPv4Header};
use narth_net::protocols::udp::UdpHeader;
use narth_net::runtime::channel::{NetworkSendPayload, NetworkSender};
use narth_net::runtime::emsgsize::Platform;
use narth_net::runtime::interface::l2_ethernet::EthernetHandler;
use narth_net::runtime::interface::l3_ipv4::IPv4Handler;
use narth_net::runtime::interface::l4_managers::ping::{PingEntryKey, PingResultStatus};
use narth_net::runtime::interface::l4_managers::udp::handle::MessageAction;
use narth_net::runtime::interface::l4_managers::udp::manager::{UdpManager, UdpRecvOutcome};
use narth_net::runtime::interface::l4_managers::udp::messages::{
    DrainSendAction, SharableUdpSendResult, UdpConnectError, UdpRecvMessage, UdpSendError,
    UdpSendMessage,
};
use narth_net::runtime::interface::l4_managers::udp::{Receive, SocketError, UdpSocket};
use narth_net::runtime::interface::worker::{
    ControlReply, InterfaceControlMessage, InterfaceWorker,
};
use narth_net::runtime::network::Network;
use narth_net::runtime::interface::{AsyncSendError, InterfaceError, SendError};
use narth_net::time::{Duration, Instant};
use narth_net::write_to_buffer::WriteToBuffer;

const MTU: usize = 1500;

fn ip(last: u8) -> Ipv4Addr {
    Ipv4Addr::new(10, 0, 0, last)
}

fn v4(last: u8, port: u16) -> SocketAddr {
    SocketAddr::new(IpAddr::V4(ip(last)), port)
}

fn mac(last: u8) -> MacAddr {
    MacAddr::new(2, 0, 0, 0, 0, last)
}

fn at_millis(millis: u64) -> Instant {
    Instant { nanos: millis * 1_000_000 }
}

fn clock() -> EchoMessageDataUnix {
    EchoMessageDataUnix {
        since_epoc: Duration::from_secs(1_700_000_000),
        monotonic_instant: Some(Duration::from_millis(5)),
    }
}

fn written<P: WriteToBuffer>(value: &P) -> Bytes {
    let mut buffer = BytesMut::new();
    value.write_to_buffer(&mut buffer);
    buffer.freeze()
}

fn frame<P: WriteToBuffer>(
    destination: MacAddr,
    source: MacAddr,
    ether_type: EtherType,
    payload: &P,
) -> Bytes {
    written(&(EthernetHeader::new(ether_type, source, destination), payload))
}

fn bare_worker(capacity: usize) -> InterfaceWorker {
    InterfaceWorker::new(NetworkSender::new(capacity, 0), MTU, mac(1), (49152, 65535))
}

/// A worker that has the address 10.0.0.1/24.
fn worker_with(capacity: usize) -> InterfaceWorker {
    let mut worker = bare_worker(capacity);
    let mask = Ipv4Addr::new(255, 255, 255, 0);
    worker.context.ipv4_addresses.insert(ip(1), mask);
    worker.context.ipv4_route_table.insert_or_update(ip(0), mask, ip(1), None);
    worker
}

fn sent(worker: &mut InterfaceWorker) -> Vec<Bytes> {
    let mut frames = Vec::new();
    while let Some(payload) = worker.context.network_tx.next_outgoing() {
        match payload {
            NetworkSendPayload::Packet(packet) => frames.push(packet),
            NetworkSendPayload::Closed(_) => panic!("closed"),
        }
    }
    frames
}

fn recv(worker: &mut InterfaceWorker, bytes: &Bytes, now: Instant) {
    assert!(EthernetHandler::can_recv(&worker.context, &worker.managers, bytes, now));
    worker.recv(bytes, clock(), now);
}

fn arp_of(frame: &Bytes) -> (EthernetHeader, ArpMessage) {
    let header = EthernetHeader::from_bytes(frame).expect("a header");
    assert_eq!(header.ether_type(), EtherType::ARP);
    (header, ArpMessage::from_bytes(&frame[14..]).expect("a message"))
}

fn learn(worker: &mut InterfaceWorker, last: u8, now: Instant) {
    worker.context.arp_table.update_or_insert(mac(last), ip(last), now);
}

#[test]
fn a_question_for_our_address_is_answered() {
    let mut worker = worker_with(8);
    let question = ArpMessage::request(mac(2), ip(1), ip(2));
    recv(
        &mut worker,
        &frame(MacAddr::broadcast(), mac(2), EtherType::ARP, &question),
        at_millis(0),
    );
    let frames = sent(&mut worker);
    assert_eq!(frames.len(), 1);
    let (header, reply) = arp_of(&frames[0]);
    assert_eq!(header.destination_address(), mac(2));
    assert_eq!(header.source_address(), mac(1));
    assert_eq!(reply.operation(), Operation::Reply);
    assert_eq!(reply.source_mac(), mac(1));
    assert_eq!(reply.source_addr(), ip(1));
    assert!(worker.context.arp_table.knows(ip(2), at_millis(0)));
}

#[test]
fn a_question_for_another_address_is_passed_over() {
    let mut worker = worker_with(8);
    let question = ArpMessage::request(mac(2), ip(3), ip(2));
    recv(
        &mut worker,
        &frame(MacAddr::broadcast(), mac(2), EtherType::ARP, &question),
        at_millis(0),
    );
    assert!(sent(&mut worker).is_empty());
    assert!(!worker.context.arp_table.knows(ip(2), at_millis(0)));
}

#[test]
fn frames_are_received_in_order() {
    let mut worker = worker_with(8);
    let mut network = Network::new(mac(200));
    assert_eq!(network.add_interface(mac(1)), Ok(0));
    let ask = |from: u8| {
        let question = ArpMessage::request(mac(from), ip(1), ip(from));
        frame(MacAddr::broadcast(), mac(from), EtherType::ARP, &question)
    };
    for from in [2, 3, 4] {
        assert_eq!(network.on_recv(&ask(from)), [0]);
    }
    assert!(worker.recv_waiting(&mut network.interfaces[0], clock(), at_millis(0)));
    let frames = sent(&mut worker);
    let asked: Vec<MacAddr> =
        frames.iter().map(|frame| arp_of(frame).0.destination_address()).collect();
    assert_eq!(asked, [mac(2), mac(3), mac(4)]);
    // A frame that is cut off stops what comes behind it.
    let cut_off = frame(mac(1), mac(2), EtherType::IPv4, &Bytes::new());
    assert_eq!(network.on_recv(&cut_off), [0]);
    assert_eq!(network.on_recv(&ask(5)), [0]);
    assert!(!worker.recv_waiting(&mut network.interfaces[0], clock(), at_millis(0)));
    assert!(sent(&mut worker).is_empty());
    assert!(worker.recv_waiting(&mut network.interfaces[0], clock(), at_millis(0)));
    assert_eq!(sent(&mut worker).len(), 1);
}

#[test]
fn an_echo_that_cannot_be_carried_is_told() {
    for (mtu, carried) in [(83, true), (84, false), (97, false), (98, true), (70_000, true)] {
        let mut worker =
            InterfaceWorker::new(NetworkSender::new(8, 0), mtu, mac(1), (49152, 65535));
        let none = Vec::new();
        assert!(worker.can_perform_timers(&none, clock(), at_millis(0)));
        let identifier = start_ping(&mut worker, 2, Some(3));
        for monotonic_instant in [None, clock().monotonic_instant] {
            let clock = EchoMessageDataUnix { monotonic_instant, ..clock() };
            assert_eq!(worker.can_perform_timers(&none, clock, at_millis(0)), carried);
        }
        // Only an echo that is to be sent has to be carried.
        let stops = vec![PingEntryKey(ip(2), identifier)];
        assert!(worker.can_perform_timers(&stops, clock(), at_millis(0)));
        let session = &mut worker.managers.ping_manager.sessions[0];
        session.last_sent = Some(at_millis(5));
        session.sent_count = 1;
        assert!(worker.can_perform_timers(&none, clock(), at_millis(1_005)));
        assert_eq!(worker.can_perform_timers(&none, clock(), at_millis(1_006)), carried);
        worker.managers.ping_manager.sessions[0].sent_count = 3;
        assert!(worker.can_perform_timers(&none, clock(), at_millis(1_006)));
    }
}

#[test]
fn a_finished_session_is_kept_on_an_interface_for_short_frames() {
    let mut worker = InterfaceWorker::new(NetworkSender::new(8, 0), 90, mac(1), (49152, 65535));
    start_ping(&mut worker, 2, Some(1));
    let session = &mut worker.managers.ping_manager.sessions[0];
    session.sent_count = 1;
    session.pending.push((0, at_millis(0)));
    assert!(worker.can_perform_timers(&Vec::new(), clock(), at_millis(10_000)));
    worker.perform_timers(&Vec::new(), clock(), at_millis(10_000));
    assert_eq!(worker.managers.ping_manager.sessions.len(), 1);
    worker.perform_timers(&Vec::new(), clock(), at_millis(10_001));
    assert!(worker.managers.ping_manager.sessions.is_empty());
    assert_eq!(worker.managers.ping_manager.events[0].status, PingResultStatus::Timeout);
}

fn udp_payload() -> Bytes {
    Bytes::from_static(b"twelve bytes")
}

#[test]
fn a_datagram_waits_for_its_next_hop() {
    let mut worker = worker_with(8);
    let send = |worker: &mut InterfaceWorker| {
        IPv4Handler::send(
            &mut worker.context,
            ip(2),
            Ipv4Addr::unspecified(),
            IPProtocolTypes::Other(200),
            &udp_payload(),
            at_millis(0),
        )
    };
    for _ in 0..5 {
        assert_eq!(send(&mut worker), Ok(()));
    }
    assert_eq!(send(&mut worker), Err(SendError::ArpResolveBufferFull));
    let frames = sent(&mut worker);
    assert_eq!(frames.len(), 1);
    let (header, question) = arp_of(&frames[0]);
    assert!(header.destination_address().is_broadcast());
    assert_eq!(question, ArpMessage::request(mac(1), ip(2), ip(1)));

    let answer = question.reply(mac(2), ip(2));
    recv(&mut worker, &frame(mac(1), mac(2), EtherType::ARP, &answer), at_millis(1));
    let frames = sent(&mut worker);
    assert_eq!(frames.len(), 5);
    for frame in &frames {
        let header = EthernetHeader::from_bytes(frame).expect("a header");
        assert_eq!(header.destination_address(), mac(2));
        assert_eq!(header.ether_type(), EtherType::IPv4);
        let ipv4 = IPv4Header::from_bytes(&frame.slice(14..)).expect("a datagram");
        assert_eq!(ipv4.source_address(), ip(1));
        assert_eq!(ipv4.destination_address(), ip(2));
        assert_eq!(ipv4.protocol(), IPProtocolTypes::Other(200));
        assert_eq!(&frame[34..], b"twelve bytes");
    }
    assert!(worker.context.ipv4_send_buffer.is_empty());
    // From now on datagrams are sent at once.
    assert_eq!(send(&mut worker), Ok(()));
    assert_eq!(sent(&mut worker).len(), 1);
}

#[test]
fn datagrams_are_refused_for_a_reason() {
    let mut worker = worker_with(1);
    let mut send = |destination: Ipv4Addr, payload: Bytes| {
        IPv4Handler::send(
            &mut worker.context,
            destination,
            Ipv4Addr::unspecified(),
            IPProtocolTypes::UDP,
            &payload,
            at_millis(0),
        )
    };
    assert_eq!(send(ip(2), Bytes::from_static(&[0; 7])), Err(SendError::PayloadTooShort));
    assert_eq!(
        send(ip(2), Bytes::from(vec![0; MTU - 19])),
        Err(SendError::PayloadTooLarge { max_size: MTU - 20 })
    );
    assert_eq!(
        send(Ipv4Addr::new(8, 8, 8, 8), udp_payload()),
        Err(SendError::NoRouteToHost)
    );
    assert_eq!(send(ip(2), udp_payload()), Ok(()));
    // The question is on its way, and there is no room for another.
    assert_eq!(send(ip(3), udp_payload()), Err(SendError::BufferFull));
}

#[test]
fn a_datagram_goes_through_the_router() {
    let mut worker = worker_with(4);
    worker.context.ipv4_route_table.insert_or_update(
        Ipv4Addr::unspecified(),
        Ipv4Addr::unspecified(),
        ip(1),
        Some(ip(254)),
    );
    learn(&mut worker, 254, at_millis(0));
    let far = Ipv4Addr::new(8, 8, 8, 8);
    assert!(IPv4Handler::can_send(&worker.context, far, 12, 12, at_millis(0)));
    assert!(!IPv4Handler::can_send(&worker.context, far, 1470, 1470, at_millis(0)));
    // A payload that is shorter than it reports cannot be quoted, which one that waits has to be.
    assert!(IPv4Handler::can_send(&worker.context, far, 8, 4, at_millis(0)));
    assert!(!IPv4Handler::can_send(&worker.context, ip(7), 8, 4, at_millis(0)));
    assert_eq!(
        IPv4Handler::send_identified(
            &mut worker.context,
            far,
            Ipv4Addr::unspecified(),
            IPProtocolTypes::UDP,
            &udp_payload(),
            0x0102,
            at_millis(0),
        ),
        Ok(())
    );
    let frames = sent(&mut worker);
    assert_eq!(&frames[0][..6], mac(254).octets());
    let ipv4 = IPv4Header::from_bytes(&frames[0].slice(14..)).expect("a datagram");
    assert_eq!(ipv4.destination_address(), far);
    assert_eq!(ipv4.fragment_details.identification, 0x0102);
}

fn echo_frame(from: u8, data: &'static [u8]) -> Bytes {
    let echo = ICMPMessage {
        checksum: 0,
        message: ICMPMessageTypes::Echo(EchoMessage {
            identifier: 0x1234,
            sequence_number: 7,
            data: EchoMessageData::Bytes(Bytes::from_static(data)),
        }),
    };
    datagram_frame(from, IPProtocolTypes::ICMP, &written(&echo))
}

fn datagram_frame(from: u8, protocol: IPProtocolTypes, payload: &Bytes) -> Bytes {
    let header = IPv4Header::with_identification(protocol, ip(from), ip(1), payload.len() as u16, 1);
    frame(mac(1), mac(from), EtherType::IPv4, &(header, payload))
}

#[test]
fn an_echo_is_answered() {
    let mut worker = worker_with(4);
    learn(&mut worker, 2, at_millis(0));
    recv(&mut worker, &echo_frame(2, b"hello"), at_millis(0));
    let frames = sent(&mut worker);
    assert_eq!(frames.len(), 1);
    let ipv4 = IPv4Header::from_bytes(&frames[0].slice(14..)).expect("a datagram");
    assert_eq!((ipv4.source_address(), ipv4.destination_address()), (ip(1), ip(2)));
    let reply = ICMPMessage::from_bytes(&frames[0].slice(34..)).expect("a message");
    let ICMPMessageTypes::EchoReply(echo) = reply.message else {
        panic!("no answer");
    };
    assert_eq!((echo.identifier(), echo.sequence_number()), (0x1234, 7));
    assert_eq!(echo.data, EchoMessageData::Bytes(Bytes::from_static(b"hello")));
}

#[test]
fn frames_may_be_longer_than_a_datagram() {
    let mut worker =
        InterfaceWorker::new(NetworkSender::new(8, 0), 70_000, mac(1), (49152, 65535));
    let mask = Ipv4Addr::new(255, 255, 255, 0);
    worker.context.ipv4_addresses.insert(ip(1), mask);
    worker.context.ipv4_route_table.insert_or_update(ip(0), mask, ip(1), None);
    learn(&mut worker, 2, at_millis(0));
    let asked = echo_frame(2, &[7; 40_000]);
    recv(&mut worker, &asked, at_millis(0));
    let answers = sent(&mut worker);
    assert_eq!(answers[0].len(), asked.len());
    assert_eq!(answers[0][42..], asked[42..]);
}

#[test]
fn frames_that_cannot_be_received_are_told() {
    let mut worker = worker_with(4);
    let can = |worker: &InterfaceWorker, bytes: &Bytes| {
        EthernetHandler::can_recv(&worker.context, &worker.managers, bytes, at_millis(0))
    };
    assert!(can(&worker, &Bytes::from_static(&[1, 2, 3])));
    let mut tagged = frame(mac(1), mac(2), EtherType::VLAN, &Bytes::new());
    assert!(!can(&worker, &tagged));
    tagged = frame(mac(1), mac(2), EtherType::VLAN, &Bytes::from_static(&[0, 1, 0x86, 0xdd]));
    assert!(can(&worker, &tagged));
    recv(&mut worker, &tagged, at_millis(0));
    assert!(!can(&worker, &frame(mac(1), mac(2), EtherType::IPv4, &Bytes::new())));
    // The datagram announces more than it has.
    let cut = echo_frame(2, b"hello");
    let cut = cut.slice(..cut.len() - 1);
    assert!(!can(&worker, &cut));
    let bad_udp = written(&UdpHeader {
        source_port: 1,
        destination_port: 2,
        length: 7,
        checksum: [0, 0],
    });
    assert!(!can(&worker, &datagram_frame(2, IPProtocolTypes::UDP, &bad_udp)));
}

#[test]
fn fragments_and_strangers_are_dropped() {
    let mut worker = worker_with(4);
    learn(&mut worker, 2, at_millis(0));
    let mut header =
        IPv4Header::with_identification(IPProtocolTypes::ICMP, ip(2), ip(1), 8, 1);
    header.fragment_details.more_fragments = true;
    let fragment = frame(
        mac(1),
        mac(2),
        EtherType::IPv4,
        &(header, Bytes::from_static(&[8, 0, 0xf7, 0xff, 0, 0, 0, 0])),
    );
    recv(&mut worker, &fragment, at_millis(0));
    recv(
        &mut worker,
        &datagram_frame(2, IPProtocolTypes::TCP, &Bytes::from_static(&[0; 20])),
        at_millis(0),
    );
    recv(
        &mut worker,
        &frame(mac(1), mac(2), EtherType::Other(0x1234), &Bytes::new()),
        at_millis(0),
    );
    assert!(sent(&mut worker).is_empty());
}

fn start_ping(worker: &mut InterfaceWorker, last: u8, count: Option<usize>) -> u16 {
    let request = InterfaceControlMessage::ping(ip(last), count, None, 9);
    assert!(worker.can_handle(&request, at_millis(0)));
    assert!(worker.handle_control(request, at_millis(0)));
    let (9, ControlReply::Session(key)) = worker.replies.remove(0) else {
        panic!("no session");
    };
    assert_eq!(key.0, ip(last));
    key.1
}

#[test]
fn an_echo_session_sends_times_and_ends() {
    let mut worker = worker_with(8);
    learn(&mut worker, 2, at_millis(0));
    let identifier = start_ping(&mut worker, 2, Some(1));
    let mut sent_clock = clock();
    sent_clock.monotonic_instant = Some(Duration::from_millis(3));
    let deadline = worker.perform_timers(&Vec::new(), sent_clock, at_millis(0));
    assert_eq!(deadline, at_millis(10_000));
    let frames = sent(&mut worker);
    assert_eq!(frames.len(), 1);
    let request = ICMPMessage::from_bytes(&frames[0].slice(34..)).expect("a message");
    let ICMPMessageTypes::Echo(echo) = &request.message else {
        panic!("not an echo");
    };
    assert_eq!((echo.identifier(), echo.sequence_number()), (identifier, 0));
    // Nothing is left to be sent, and the answer may still come.
    assert_eq!(worker.perform_timers(&Vec::new(), clock(), at_millis(5)), at_millis(1_005));
    assert_eq!(worker.managers.ping_manager.sessions.len(), 1);

    let answer = written(&ICMPMessage::echo_reply(echo));
    recv(&mut worker, &datagram_frame(2, IPProtocolTypes::ICMP, &answer), at_millis(8));
    let events = &worker.managers.ping_manager.events;
    assert_eq!(events.len(), 1);
    assert_eq!(events[0].sequence, 0);
    // The clock stands at five milliseconds, the echo was sent at three.
    assert_eq!(
        events[0].status,
        PingResultStatus::Success(Some(Duration::from_millis(2)))
    );
    assert!(worker.managers.ping_manager.sessions.is_empty());
}

#[test]
fn an_echo_that_is_not_answered_times_out() {
    let mut worker = worker_with(8);
    learn(&mut worker, 2, at_millis(0));
    start_ping(&mut worker, 2, Some(2));
    assert!(worker.can_perform_timers(&Vec::new(), clock(), at_millis(0)));
    worker.perform_timers(&Vec::new(), clock(), at_millis(0));
    // The next echo is due after more than a second.
    assert_eq!(worker.perform_timers(&Vec::new(), clock(), at_millis(1_000)), at_millis(1_000));
    assert_eq!(sent(&mut worker).len(), 1);
    worker.perform_timers(&Vec::new(), clock(), at_millis(1_001));
    assert_eq!(sent(&mut worker).len(), 1);
    worker.perform_timers(&Vec::new(), clock(), at_millis(10_001));
    let events = &worker.managers.ping_manager.events;
    assert_eq!(events.len(), 1);
    assert_eq!((events[0].sequence, events[0].status), (0, PingResultStatus::Timeout));
    worker.perform_timers(&Vec::new(), clock(), at_millis(11_002));
    assert_eq!(worker.managers.ping_manager.events.len(), 2);
    assert!(worker.managers.ping_manager.sessions.is_empty());
}

#[test]
fn an_echo_session_can_be_stopped() {
    let mut worker = worker_with(8);
    let identifier = start_ping(&mut worker, 2, None);
    let key = worker.managers.ping_manager.sessions[0].identifier;
    assert_eq!(key, identifier);
    let stops = vec![narth_net::runtime::interface::l4_managers::ping::PingEntryKey(
        ip(2),
        identifier,
    )];
    worker.perform_timers(&stops, clock(), at_millis(0));
    assert!(worker.managers.ping_manager.sessions.is_empty());
    assert!(sent(&mut worker).is_empty());
}

#[test]
fn an_echo_to_nobody_is_told_as_lost() {
    let mut worker = worker_with(32);
    start_ping(&mut worker, 2, Some(1));
    let mut now = 0;
    worker.perform_timers(&Vec::new(), clock(), at_millis(now));
    let mut questions = sent(&mut worker).len();
    for _ in 0..8 {
        now += 101;
        worker.perform_timers(&Vec::new(), clock(), at_millis(now));
        questions += sent(&mut worker).len();
    }
    assert_eq!(questions, 5);
    let events = &worker.managers.ping_manager.events;
    assert_eq!(events.len(), 1);
    assert_eq!(
        (events[0].sequence, events[0].status),
        (0, PingResultStatus::Unreachable("ARP Timeout"))
    );
}

#[test]
fn losses_are_told_with_a_reason() {
    for (code, text) in [
        (DestinationUnreachableCode::NetUnreachable, "network unreachable"),
        (DestinationUnreachableCode::HostUnreachable, "host unreachable"),
        (DestinationUnreachableCode::ProtocolUnreachable, "protocol unreachable"),
        (DestinationUnreachableCode::PortUnreachable, "port unreachable"),
        (
            DestinationUnreachableCode::FragmentationNeededAndDoNotFragmentSet,
            "fragment need and do not fragment set",
        ),
        (DestinationUnreachableCode::SourceRouteFailed, "source route failed"),
    ] {
        let mut worker = worker_with(8);
        let identifier = start_ping(&mut worker, 2, Some(1));
        let [high, low] = identifier.to_be_bytes();
        let message = DestinationUnreachableMessage {
            code,
            ipv4header: IPv4Header::with_identification(
                IPProtocolTypes::ICMP,
                ip(1),
                ip(2),
                8,
                1,
            ),
            datagram: [8, 0, 0, 0, high, low, 0, 3],
        };
        worker.managers.forward_async_error(&AsyncSendError::ICMPUnreachable(message));
        let events = &worker.managers.ping_manager.events;
        assert_eq!(events.len(), 1);
        assert_eq!(
            (events[0].sequence, events[0].status),
            (3, PingResultStatus::Unreachable(text))
        );
        let mut other = message;
        other.datagram[0] = 0;
        worker.managers.forward_async_error(&AsyncSendError::ICMPUnreachable(other));
        worker.managers.forward_async_error(&AsyncSendError::LocalSendError {
            error: SendError::BufferFull,
            ipv4header: message.ipv4header,
            datagram: message.datagram,
        });
        let events = &worker.managers.ping_manager.events;
        assert_eq!(events.len(), 2);
        assert_eq!(events[1].status, PingResultStatus::Unreachable("Send Error"));
    }
}

#[test]
fn an_address_that_nobody_has_is_added_and_announced() {
    let mut worker = bare_worker(16);
    let add = InterfaceControlMessage::IPv4AddressAdd { addr: ip(7), prefix: 24, request: 1 };
    assert!(worker.can_handle(&add, at_millis(0)));
    assert_eq!(worker.perform_control(&vec![add], at_millis(0)), Ok(true));
    let mut now = 0;
    for _ in 0..7 {
        now += 101;
        assert_eq!(worker.perform_control(&Vec::new(), at_millis(now)), Ok(true));
    }
    assert_eq!(worker.replies, [(1, ControlReply::Done)]);
    assert!(worker.ipv4_pending_addresses.is_empty());
    assert_eq!(worker.context.ipv4_addresses.addresses(), [ip(7)]);
    let route = worker.context.ipv4_route_table.lookup(&ip(99)).expect("a route");
    assert_eq!((route.target, route.source, route.next_hop), (ip(0), ip(7), None));
    let frames = sent(&mut worker);
    assert_eq!(frames.len(), 7);
    let (_, question) = arp_of(&frames[0]);
    assert_eq!(question, ArpMessage::request(mac(1), ip(7), Ipv4Addr::unspecified()));
    let (_, announcement) = arp_of(&frames[6]);
    assert_eq!(announcement, ArpMessage::gratuitous(mac(1), ip(7)));
}

#[test]
fn an_address_that_another_station_has_is_refused() {
    let mut worker = bare_worker(16);
    let add = InterfaceControlMessage::IPv4AddressAdd { addr: ip(7), prefix: 24, request: 2 };
    assert_eq!(worker.perform_control(&vec![add], at_millis(0)), Ok(true));
    let (_, question) = arp_of(&sent(&mut worker)[0]);
    let answer = question.reply(mac(9), ip(7));
    recv(&mut worker, &frame(mac(1), mac(9), EtherType::ARP, &answer), at_millis(1));
    assert_eq!(worker.perform_control(&Vec::new(), at_millis(2)), Ok(true));
    assert_eq!(worker.replies, [(2, ControlReply::Failed(InterfaceError::AddressInUse))]);
    assert!(worker.context.ipv4_addresses.addresses().is_empty());
}

#[test]
fn an_address_that_cannot_be_checked_is_refused() {
    let mut worker = bare_worker(1);
    let add = |last, request| InterfaceControlMessage::IPv4AddressAdd {
        addr: ip(last),
        prefix: 24,
        request,
    };
    assert_eq!(worker.perform_control(&vec![add(7, 1), add(8, 2)], at_millis(0)), Ok(true));
    let failed = ControlReply::Failed(InterfaceError::AddressCheckFailed(SendError::BufferFull));
    assert_eq!(worker.replies, [(2, failed)]);
    // There is still no room when the question is to be repeated.
    assert_eq!(worker.perform_control(&Vec::new(), at_millis(101)), Ok(true));
    assert_eq!(worker.replies, [(2, failed), (1, failed)]);
    let too_long = InterfaceControlMessage::IPv4AddressAdd { addr: ip(9), prefix: 33, request: 3 };
    assert!(worker.can_handle(&too_long, at_millis(102)));
    sent(&mut worker);
    assert!(!worker.can_handle(&too_long, at_millis(102)));
}

#[test]
fn an_address_is_removed_with_its_routes() {
    let mut worker = worker_with(16);
    let add = InterfaceControlMessage::IPv4AddressAdd { addr: ip(1), prefix: 24, request: 4 };
    worker.handle_control(add, at_millis(0));
    worker.handle_control(InterfaceControlMessage::IPv4AddressRemove { addr: ip(1) }, at_millis(0));
    assert_eq!(worker.replies, [(4, ControlReply::Failed(InterfaceError::AddressRemoved))]);
    assert!(worker.context.ipv4_addresses.addresses().is_empty());
    assert!(worker.context.ipv4_route_table.lookup(&ip(2)).is_none());
}

#[test]
fn routes_need_a_source() {
    let mut worker = worker_with(4);
    let far = Ipv4Addr::new(172, 16, 5, 6);
    let add = |next_hop, src| InterfaceControlMessage::route_add(far, 16, next_hop, src, 5);
    let mut reply = |message| {
        worker.handle_control(message, at_millis(0));
        worker.replies.remove(0).1
    };
    assert_eq!(reply(add(ip(254), None)), ControlReply::Done);
    assert_eq!(
        reply(add(Ipv4Addr::new(9, 9, 9, 9), None)),
        ControlReply::Failed(InterfaceError::RouteNextHopUnreachable)
    );
    assert_eq!(
        reply(add(ip(254), Some(ip(77)))),
        ControlReply::Failed(InterfaceError::RouteUnknownSource)
    );
    let route = worker.context.ipv4_route_table.lookup(&far).expect("a route");
    assert_eq!(route.target, Ipv4Addr::new(172, 16, 0, 0));
    assert_eq!((route.source, route.next_hop), (ip(1), Some(ip(254))));
}

#[test]
fn a_worker_stops_when_it_is_told_to() {
    let mut worker = worker_with(4);
    let add = InterfaceControlMessage::IPv4AddressAdd { addr: ip(7), prefix: 24, request: 1 };
    let messages = vec![InterfaceControlMessage::Stop, add];
    assert_eq!(worker.perform_control(&messages, at_millis(0)), Ok(false));
    assert!(worker.ipv4_pending_addresses.is_empty());
    assert!(worker.close().is_ok());
    assert!(matches!(
        worker.context.network_tx.next_outgoing(),
        Some(NetworkSendPayload::Closed(gone)) if gone == mac(1)
    ));
}

#[test]
fn a_request_that_cannot_be_handled_is_told() {
    let mut worker = worker_with(4);
    let add = |last, prefix| InterfaceControlMessage::IPv4AddressAdd {
        addr: ip(last),
        prefix,
        request: u64::from(last),
    };
    let messages = vec![add(7, 24), add(8, 33), add(9, 24)];
    assert_eq!(worker.perform_control(&messages, at_millis(0)), Err(1));
    assert_eq!(worker.ipv4_pending_addresses.len(), 1);
    let messages = vec![add(9, 24), InterfaceControlMessage::Stop, add(8, 33)];
    assert_eq!(worker.perform_control(&messages, at_millis(0)), Ok(false));
    assert_eq!(worker.ipv4_pending_addresses.len(), 2);
}

fn bind(worker: &mut InterfaceWorker, addr: SocketAddr) -> UdpSocket {
    match worker.managers.udp_manager.bind(&worker.context, addr) {
        Ok(socket) => socket,
        Err(error) => panic!("{error:?}"),
    }
}

fn bind_error(worker: &mut InterfaceWorker, addr: SocketAddr) -> (ErrorKind, String) {
    match worker.managers.udp_manager.bind(&worker.context, addr) {
        Ok(_) => panic!("bound"),
        Err(error) => (error.kind(), error.message().to_string()),
    }
}

#[test]
fn sockets_are_bound_to_addresses() {
    let mut worker = worker_with(4);
    let socket = bind(&mut worker, v4(1, 4000));
    assert_eq!(socket.local_addr(), v4(1, 4000));
    assert_eq!(socket.context.socket_id, 0);
    assert_eq!(socket.context.buffer_pool.buffer_size(), MTU - 28);
    assert_eq!(
        bind_error(&mut worker, v4(1, 4000)),
        (ErrorKind::AddrInUse, "address already in use".to_string())
    );
    let any = SocketAddr::new(IpAddr::V4(Ipv4Addr::unspecified()), 4000);
    assert_eq!(bind_error(&mut worker, any).0, ErrorKind::AddrInUse);
    assert_eq!(
        bind_error(&mut worker, SocketAddr::new(IpAddr::V6(Ipv6Addr::unspecified()), 1)),
        (ErrorKind::Unsupported, "ipv6 is not yet supported".to_string())
    );
    let chosen = bind(&mut worker, v4(1, 0)).local_addr();
    assert!((49152..65535).contains(&chosen.port));
    worker.context.ephemeral_ports = (7, 8);
    assert_eq!(bind(&mut worker, v4(1, 0)).local_addr().port, 7);
    assert_eq!(
        bind_error(&mut worker, v4(1, 0)),
        (ErrorKind::AddrInUse, "ephemeral ports exhausted".to_string())
    );
}

#[test]
fn sockets_are_refused_for_those_that_are_there() {
    let any = SocketAddr::new(IpAddr::V4(Ipv4Addr::unspecified()), 4000);
    let in_use = (ErrorKind::AddrInUse, "address already in use".to_string());
    let mut worker = worker_with(4);
    bind(&mut worker, v4(1, 4000));
    bind(&mut worker, v4(2, 4000));
    bind(&mut worker, v4(1, 4001));
    for addr in [v4(1, 4000), v4(2, 4000), v4(1, 4001), any] {
        assert_eq!(bind_error(&mut worker, addr), in_use);
    }
    assert_eq!(bind(&mut worker, v4(3, 4000)).context.socket_id, 3);

    let mut worker = worker_with(4);
    bind(&mut worker, any);
    for addr in [any, v4(1, 4000), v4(9, 4000)] {
        assert_eq!(bind_error(&mut worker, addr), in_use);
    }
    assert_eq!(bind(&mut worker, v4(9, 4001)).local_addr(), v4(9, 4001));
}

#[test]
fn a_port_is_drawn_more_than_once() {
    let mut worker = worker_with(4);
    worker.context.ephemeral_ports = (7, 9);
    // That one of two ports is missed by all draws cannot be seen.
    for _ in 0..20 {
        let manager = &mut worker.managers.udp_manager;
        *manager = UdpManager::new();
        bind(&mut worker, v4(1, 7));
        assert_eq!(bind(&mut worker, v4(1, 0)).local_addr(), v4(1, 8));
        assert_eq!(bind_error(&mut worker, v4(1, 0)).1, "ephemeral ports exhausted");
    }
}

#[test]
fn there_is_room_for_so_many_sockets() {
    let mut worker = worker_with(4);
    for slot in worker.managers.udp_manager.socket_ids.iter_mut() {
        *slot = Some(v4(1, 1));
    }
    assert_eq!(
        bind_error(&mut worker, v4(1, 4000)),
        (ErrorKind::OutOfMemory, "no available socket slots (max 1024)".to_string())
    );
}

fn udp_bytes(from: SocketAddr, to: SocketAddr, payload: &'static [u8]) -> Bytes {
    let (IpAddr::V4(source), IpAddr::V4(destination)) = (from.ip, to.ip) else {
        panic!("no IPv4");
    };
    let mut header = UdpHeader::new(from.port, to.port, payload.len() as u16);
    header.compute_and_update_checksum_v4(&source, &destination, payload);
    written(&(header, Bytes::from_static(payload)))
}

#[test]
fn a_datagram_reaches_its_socket() {
    let mut worker = worker_with(4);
    bind(&mut worker, v4(1, 4000));
    let bytes = udp_bytes(v4(2, 53), v4(1, 4000), b"answer");
    let manager = &mut worker.managers.udp_manager;
    let (source, destination) = (IpAddr::V4(ip(2)), IpAddr::V4(ip(1)));
    assert_eq!(
        manager.recv(source, destination, &bytes),
        UdpRecvOutcome::Delivered { wake: false }
    );
    let handle = manager.sockets.get_mut(&v4(1, 4000)).expect("the socket");
    let Some(UdpRecvMessage::Packet { source: from, payload }) = handle.recv.try_pop() else {
        panic!("no datagram");
    };
    assert_eq!(from, v4(2, 53));
    assert_eq!(&payload[..], b"answer");
    handle.state.peer_addr = Some(v4(3, 53));
    assert_eq!(manager.recv(source, destination, &bytes), UdpRecvOutcome::NotFromPeer);
    assert_eq!(
        manager.recv(source, IpAddr::V6(Ipv6Addr::unspecified()), &bytes),
        UdpRecvOutcome::MixedFamilies
    );
    assert_eq!(
        manager.recv(IpAddr::V4(ip(9)), destination, &bytes),
        UdpRecvOutcome::BadChecksum
    );
    assert_eq!(
        manager.recv(source, destination, &bytes.slice(..7)),
        UdpRecvOutcome::Malformed
    );
    let elsewhere = udp_bytes(v4(2, 53), v4(1, 4001), b"answer");
    assert_eq!(manager.recv(source, destination, &elsewhere), UdpRecvOutcome::NoSocket);
}

#[test]
fn a_full_socket_drops_datagrams() {
    let mut worker = worker_with(4);
    bind(&mut worker, v4(1, 4000));
    let bytes = udp_bytes(v4(2, 53), v4(1, 4000), b"x");
    let manager = &mut worker.managers.udp_manager;
    let (source, destination) = (IpAddr::V4(ip(2)), IpAddr::V4(ip(1)));
    for _ in 0..1024 {
        manager.recv(source, destination, &bytes);
    }
    assert_eq!(manager.recv(source, destination, &bytes), UdpRecvOutcome::Full);
}

#[test]
fn datagrams_are_read_in_the_order_in_which_they_were_delivered() {
    let mut worker = worker_with(4);
    let mut socket = bind(&mut worker, v4(1, 4000));
    let manager = &mut worker.managers.udp_manager;
    let (source, destination) = (IpAddr::V4(ip(2)), IpAddr::V4(ip(1)));
    let mut buf = [0u8; 4];
    let mut read = Vec::new();
    for (payload, exchange) in [(b"1", false), (b"2", true), (b"3", true), (b"4", false)] {
        let bytes = udp_bytes(v4(2, 53), v4(1, 4000), payload);
        assert_eq!(
            manager.recv(source, destination, &bytes),
            UdpRecvOutcome::Delivered { wake: false }
        );
        let handle = manager.sockets.get_mut(&v4(1, 4000)).expect("the socket");
        if exchange {
            socket.exchange(handle);
            assert!(matches!(
                socket.recv_from(&mut buf),
                Ok(Receive::Received(1, from)) if from == v4(2, 53)
            ));
            read.push(buf[0]);
        }
    }
    let handle = manager.sockets.get_mut(&v4(1, 4000)).expect("the socket");
    loop {
        socket.exchange(handle);
        match socket.recv_from(&mut buf) {
            Ok(Receive::Received(1, _)) => read.push(buf[0]),
            Ok(Receive::Wait) => break,
            _ => panic!("no datagram"),
        }
    }
    assert_eq!(read, b"1234");
}

#[test]
fn a_socket_and_its_interface_see_the_same() {
    let mut worker = worker_with(4);
    let mut socket = bind(&mut worker, v4(1, 4000));
    let handle =
        worker.managers.udp_manager.sockets.get_mut(&v4(1, 4000)).expect("the socket");
    socket.set_nonblocking(true);
    socket.set_broadcast(true);
    let theirs = &mut handle.state.shared_state;
    theirs.connected_to = Some(v4(2, 53));
    theirs.max_payload_size = 77;
    theirs.send_result.store(Err(UdpSendError::HostUnreachable));
    socket.exchange(handle);
    let theirs = &mut handle.state.shared_state;
    assert!(theirs.is_nonblocking && theirs.allow_broadcast);
    assert_eq!(theirs.send_result.reset(), None);
    assert_eq!(socket.peer_addr().expect("a peer"), v4(2, 53));
    assert_eq!(socket.shared_state.max_payload_size, 77);
    // What the interface has nothing new of, the socket keeps.
    socket.exchange(handle);
    assert_eq!(
        socket.shared_state.send_result.reset(),
        Some(Err(UdpSendError::HostUnreachable))
    );
}

/// Hands a message of the first socket over as the socket does, and has it handled. Returns what is
/// to be done, or nothing where the socket is gone.
fn process(
    worker: &mut InterfaceWorker,
    message: UdpSendMessage,
    full: bool,
) -> Option<MessageAction> {
    let manager = &mut worker.managers.udp_manager;
    let handle = manager.sockets.get_mut(&v4(1, 4000))?;
    assert!(handle.can_handle(&worker.context, &message, at_millis(0)));
    if full {
        return Some(handle.handle_message(&mut worker.context, message, true, 77, at_millis(0)));
    }
    assert!(handle.send.try_push(message).is_ok());
    let mut ready = [0; 16];
    ready[0] = 1;
    let mut processed = manager.process_buffers(&mut worker.context, ready, at_millis(0));
    assert_eq!(processed.len(), 1);
    let socket = processed.remove(0);
    assert_eq!(socket.addr, v4(1, 4000));
    let (actions, end) = socket.drained.expect("the socket");
    assert_eq!(actions.len(), 1);
    assert_eq!(end == DrainSendAction::Remove, actions[0] == MessageAction::Remove);
    Some(actions[0])
}

#[test]
fn messages_are_handled_in_order() {
    let mut worker = worker_with(8);
    learn(&mut worker, 2, at_millis(0));
    bind(&mut worker, v4(1, 4000));
    bind(&mut worker, v4(1, 4001));
    let other = UdpSendMessage::Blocking {
        destination: v4(2, 54),
        payload: Bytes::from_static(b"another question"),
    };
    let manager = &mut worker.managers.udp_manager;
    let first = manager.sockets.get_mut(&v4(1, 4000)).expect("the socket");
    assert!(first.send.try_push(UdpSendMessage::UpdateReadWakeHandle).is_ok());
    assert!(first.send.try_push(non_blocking(v4(2, 53))).is_ok());
    assert!(first.send.try_push(UdpSendMessage::Drop).is_ok());
    assert!(first.send.try_push(blocking(v4(2, 53))).is_ok());
    let second = manager.sockets.get_mut(&v4(1, 4001)).expect("the socket");
    assert!(second.send.try_push(other).is_ok());
    let mut ready = [0; 16];
    // The third bit stands for no socket.
    ready[0] = 0b111;
    let processed = manager.process_buffers(&mut worker.context, ready, at_millis(0));
    assert_eq!(processed.len(), 2);
    let (actions, end) = processed[0].drained.as_ref().expect("the socket");
    assert_eq!(
        *actions,
        [MessageAction::NoAction, MessageAction::NoAction, MessageAction::Remove]
    );
    assert_eq!(*end, DrainSendAction::Remove);
    let (actions, end) = processed[1].drained.as_ref().expect("the socket");
    assert_eq!(*actions, [MessageAction::WakeSender]);
    assert_eq!(*end, DrainSendAction::NoAction);
    assert!(manager.sockets.get_mut(&v4(1, 4000)).is_none());
    let frames = sent(&mut worker);
    assert_eq!(frames.len(), 2);
    assert_eq!(frames[0].slice(34..), udp_bytes(v4(1, 4000), v4(2, 53), b"question"));
    assert_eq!(frames[1].slice(34..), udp_bytes(v4(1, 4001), v4(2, 54), b"another question"));
    // The socket is gone, but its number still leads to it.
    let processed =
        worker.managers.udp_manager.process_buffers(&mut worker.context, ready, at_millis(0));
    assert!(processed[0].drained.is_none());
}

#[test]
fn a_message_that_cannot_be_handled_stops_the_rest() {
    let mut worker = worker_with(8);
    learn(&mut worker, 2, at_millis(0));
    bind(&mut worker, v4(1, 4000));
    bind(&mut worker, v4(1, 4001));
    let manager = &mut worker.managers.udp_manager;
    let first = manager.sockets.get_mut(&v4(1, 4000)).expect("the socket");
    let long = UdpSendMessage::Blocking {
        destination: v4(2, 53),
        payload: Bytes::from(vec![0; MTU - 41]),
    };
    assert!(first.send.try_push(long).is_ok());
    let mut ready = [0; 16];
    ready[0] = 0b11;
    let processed = manager.process_buffers(&mut worker.context, ready, at_millis(0));
    assert_eq!(processed.len(), 1);
    let (actions, end) = processed[0].drained.as_ref().expect("the socket");
    assert!(actions.is_empty());
    assert_eq!(*end, DrainSendAction::Unsendable);
    assert!(sent(&mut worker).is_empty());
}

#[test]
fn there_is_room_for_so_many_messages() {
    let mut worker = worker_with(4);
    bind(&mut worker, v4(1, 4000));
    let handle = worker.managers.udp_manager.sockets.get_mut(&v4(1, 4000)).expect("the socket");
    for _ in 0..1024 {
        assert!(!handle.send.is_full());
        assert!(handle.send.try_push(UdpSendMessage::UpdateReadWakeHandle).is_ok());
    }
    assert!(handle.send.is_full());
    assert!(matches!(
        handle.send.try_push(UdpSendMessage::Drop),
        Err(UdpSendMessage::Drop)
    ));
}

#[test]
fn a_socket_sends_to_the_first_address_or_to_its_peer() {
    let mut worker = worker_with(4);
    let mut socket = bind(&mut worker, v4(1, 4000));
    let mut returned = Vec::new();
    let outgoing = socket
        .send_to(b"abc", &vec![v4(2, 53), v4(3, 53)], Platform::Linux, &mut returned)
        .expect("sent");
    assert_eq!((outgoing.destination, outgoing.blocking), (v4(2, 53), true));
    assert_eq!(outgoing.buffer.as_ref(), b"abc");
    assert!(matches!(
        socket.send(b"abc", Platform::Linux, &mut returned),
        Err(SocketError::Io(error)) if error.kind() == ErrorKind::NotConnected
    ));
    socket.shared_state.connected_to = Some(v4(5, 53));
    socket.set_nonblocking(true);
    let outgoing = socket.send(b"de", Platform::Linux, &mut returned).expect("sent");
    assert_eq!((outgoing.destination, outgoing.blocking), (v4(5, 53), false));
    assert_eq!(outgoing.buffer.as_ref(), b"de");
    socket.shared_state.send_result.store(Err(UdpSendError::HostUnreachable));
    assert!(matches!(
        socket.send(b"de", Platform::Linux, &mut returned),
        Err(SocketError::Io(error)) if error.kind() == ErrorKind::HostUnreachable
    ));
    assert!(socket.send(b"de", Platform::Linux, &mut returned).is_ok());
}

#[test]
fn a_socket_that_does_not_wait_can_send_later() {
    let mut worker = worker_with(4);
    let mut socket = bind(&mut worker, v4(1, 4000));
    socket.shared_state.connected_to = Some(v4(5, 53));
    let to = vec![v4(2, 53)];
    let mut returned = Vec::new();
    let mut lent = Vec::new();
    for _ in 0..64 {
        lent.push(socket.send(b"x", Platform::Linux, &mut returned).expect("sent").buffer);
    }
    let told = |result: Result<_, SocketError>| match result {
        Err(SocketError::Io(error)) => (error.kind(), error.message().to_string()),
        _ => panic!("sent"),
    };
    let exhausted = (ErrorKind::OutOfMemory, "buffer pool exhausted".to_string());
    assert_eq!(told(socket.send(b"x", Platform::Linux, &mut returned)), exhausted);
    assert_eq!(told(socket.send_to(b"x", &to, Platform::Linux, &mut returned)), exhausted);
    socket.set_nonblocking(true);
    let later = (ErrorKind::WouldBlock, "operation would block".to_string());
    assert_eq!(told(socket.send(b"x", Platform::Linux, &mut returned)), later);
    assert_eq!(told(socket.send_to(b"x", &to, Platform::Linux, &mut returned)), later);
    returned.push(lent.remove(0).buffer);
    assert!(socket.send(b"x", Platform::Linux, &mut returned).is_ok());

    let full = UdpSocket::no_room(true);
    assert_eq!(
        (full.kind(), full.message()),
        (ErrorKind::OutOfMemory, "failed to push packet to ringbuf")
    );
    let full = UdpSocket::no_room(false);
    assert_eq!((full.kind(), full.message()), (ErrorKind::WouldBlock, "operation would block"));
}

#[test]
fn a_socket_with_a_peer_passes_over_others() {
    let mut worker = worker_with(4);
    let mut socket = bind(&mut worker, v4(1, 4000));
    let mut buf = [b'-'; 4];
    assert!(
        matches!(socket.recv(&mut buf), Err(error) if error.kind() == ErrorKind::NotConnected)
    );
    assert!(
        matches!(socket.peek(&mut buf), Err(error) if error.kind() == ErrorKind::NotConnected)
    );
    socket.shared_state.connected_to = Some(v4(5, 53));
    let packet = |last, payload: &'static [u8]| UdpRecvMessage::Packet {
        source: v4(last, 53),
        payload: Bytes::from_static(payload),
    };
    for message in [packet(2, b"xyz"), packet(5, b"a"), packet(2, b"w"), packet(5, b"bc")] {
        assert!(socket.context.recv.try_push(message));
    }
    assert!(matches!(socket.peek(&mut buf), Ok(Receive::Received(1, _))));
    assert_eq!(&buf, b"ayz-");
    assert!(matches!(socket.peek(&mut buf), Ok(Receive::Received(1, _))));
    assert!(matches!(socket.recv(&mut buf), Ok(Receive::Received(1, _))));
    assert!(matches!(
        socket.recv(&mut buf),
        Ok(Receive::Received(2, source)) if source == v4(5, 53)
    ));
    assert_eq!(&buf, b"bcz-");
    assert!(socket.context.recv.try_push(packet(2, b"q")));
    assert!(matches!(socket.recv(&mut buf), Ok(Receive::Wait)));
    assert!(socket.context.recv.is_empty());
    socket.set_nonblocking(true);
    assert!(matches!(socket.recv(&mut buf), Err(error) if error.kind() == ErrorKind::WouldBlock));
}

fn non_blocking(destination: SocketAddr) -> UdpSendMessage {
    UdpSendMessage::NonBlocking { destination, payload: Bytes::from_static(b"question") }
}

fn blocking(destination: SocketAddr) -> UdpSendMessage {
    UdpSendMessage::Blocking { destination, payload: Bytes::from_static(b"question") }
}

fn last_result(worker: &mut InterfaceWorker) -> Option<Result<(), UdpSendError>> {
    let handle = worker.managers.udp_manager.sockets.get_mut(&v4(1, 4000)).expect("the socket");
    handle.state.shared_state.send_result.reset()
}

#[test]
fn a_socket_sends_datagrams() {
    let mut worker = worker_with(4);
    learn(&mut worker, 2, at_millis(0));
    bind(&mut worker, v4(1, 4000));
    assert_eq!(
        process(&mut worker, blocking(v4(2, 53)), false),
        Some(MessageAction::WakeSender)
    );
    assert_eq!(last_result(&mut worker), Some(Ok(())));
    let frames = sent(&mut worker);
    assert_eq!(frames[0].slice(34..), udp_bytes(v4(1, 4000), v4(2, 53), b"question"));
    assert_eq!(process(&mut worker, non_blocking(v4(2, 53)), false), Some(MessageAction::NoAction));
    assert_eq!(last_result(&mut worker), None);
    assert_eq!(sent(&mut worker).len(), 1);
}

#[test]
fn a_socket_is_told_why_a_datagram_was_not_sent() {
    let mut worker = worker_with(2);
    bind(&mut worker, v4(1, 4000));
    let far = SocketAddr::new(IpAddr::V4(Ipv4Addr::new(8, 8, 8, 8)), 53);
    process(&mut worker, non_blocking(far), false);
    assert_eq!(last_result(&mut worker), Some(Err(UdpSendError::NetworkUnreachable)));
    for last in 2..4 {
        process(&mut worker, blocking(v4(last, 53)), false);
        assert_eq!(last_result(&mut worker), Some(Ok(())));
    }
    // Two questions are on their way.
    process(&mut worker, blocking(v4(4, 53)), false);
    assert_eq!(last_result(&mut worker), Some(Err(UdpSendError::Other)));
    process(&mut worker, non_blocking(v4(4, 53)), false);
    assert_eq!(last_result(&mut worker), None);
    let big = UdpSendMessage::Blocking {
        destination: v4(2, 53),
        payload: Bytes::from(vec![0; MTU - 27]),
    };
    process(&mut worker, big, false);
    assert_eq!(last_result(&mut worker), Some(Err(UdpSendError::PayloadTooLarge)));
    for _ in 0..4 {
        process(&mut worker, blocking(v4(2, 53)), false);
    }
    last_result(&mut worker);
    process(&mut worker, blocking(v4(2, 53)), false);
    assert_eq!(last_result(&mut worker), Some(Err(UdpSendError::HostUnreachable)));
    process(
        &mut worker,
        blocking(SocketAddr::new(IpAddr::V6(Ipv6Addr::unspecified()), 1)),
        false,
    );
    assert_eq!(last_result(&mut worker), Some(Ok(())));
}

#[test]
fn a_socket_is_woken() {
    let mut worker = worker_with(4);
    learn(&mut worker, 2, at_millis(0));
    bind(&mut worker, v4(1, 4000));
    use_wakes(&mut worker);
    assert_eq!(process(&mut worker, UdpSendMessage::Drop, false), Some(MessageAction::Remove));
    assert_eq!(process(&mut worker, UdpSendMessage::Drop, false), None);
}

fn use_wakes(worker: &mut InterfaceWorker) {
    assert_eq!(
        process(worker, UdpSendMessage::UpdateReadWakeHandle, false),
        Some(MessageAction::NoAction)
    );
    let bytes = udp_bytes(v4(2, 53), v4(1, 4000), b"x");
    let outcome = worker.managers.udp_manager.recv(
        IpAddr::V4(ip(2)),
        IpAddr::V4(ip(1)),
        &bytes,
    );
    assert_eq!(outcome, UdpRecvOutcome::Delivered { wake: true });
    assert_eq!(worker.managers.udp_manager.woken, [v4(1, 4000)]);
    assert_eq!(
        process(worker, UdpSendMessage::UpdateReadWakeHandle, false),
        Some(MessageAction::WakeReader)
    );
    assert_eq!(
        process(worker, UdpSendMessage::UpdateWriteWakeHandle, true),
        Some(MessageAction::NoAction)
    );
    assert_eq!(
        process(worker, UdpSendMessage::UpdateWriteWakeHandle, false),
        Some(MessageAction::WakeWriter)
    );
    assert_eq!(process(worker, non_blocking(v4(2, 53)), false), Some(MessageAction::WakeWriter));
    assert_eq!(process(worker, non_blocking(v4(2, 53)), true), Some(MessageAction::NoAction));
}

#[test]
fn a_socket_gets_the_first_peer_that_can_be_reached() {
    let mut worker = worker_with(4);
    bind(&mut worker, v4(1, 4000));
    let far = SocketAddr::new(IpAddr::V4(Ipv4Addr::new(8, 8, 8, 8)), 53);
    let v6 = SocketAddr::new(IpAddr::V6(Ipv6Addr::unspecified()), 53);
    let failed = |error| Some(MessageAction::ConnectFailed(error));
    let mut connect = |peers| process(&mut worker, UdpSendMessage::Connect(peers), false);
    assert_eq!(connect(vec![]), failed(UdpConnectError::NoAddress));
    assert_eq!(connect(vec![v6, far]), failed(UdpConnectError::NoRouteToHost));
    assert_eq!(connect(vec![far, v6]), failed(UdpConnectError::InvalidAddress));
    assert_eq!(connect(vec![far, v4(5, 53), v4(6, 53)]), Some(MessageAction::Connected));
    let handle = worker.managers.udp_manager.sockets.get_mut(&v4(1, 4000)).expect("the socket");
    assert_eq!(handle.state.peer_addr, Some(v4(5, 53)));
    assert_eq!(handle.state.shared_state.connected_to, Some(v4(5, 53)));
}

#[test]
fn datagrams_that_cannot_be_sent_are_told() {
    let mut worker = worker_with(4);
    learn(&mut worker, 2, at_millis(0));
    bind(&mut worker, v4(1, 4000));
    let handle = worker.managers.udp_manager.sockets.get_mut(&v4(1, 4000)).expect("the socket");
    let message = |len: usize| UdpSendMessage::Blocking {
        destination: v4(2, 53),
        payload: Bytes::from(vec![0; len]),
    };
    assert!(handle.can_handle(&worker.context, &message(MTU - 42), at_millis(0)));
    assert!(!handle.can_handle(&worker.context, &message(MTU - 41), at_millis(0)));
    assert!(handle.can_handle(&worker.context, &message(MTU - 27), at_millis(0)));
    assert!(!handle.can_handle(&worker.context, &message(65528), at_millis(0)));
}

#[test]
fn a_send_result_is_taken_once() {
    let mut shared = SharableUdpSendResult::new();
    assert_eq!(shared.reset(), None);
    for (result, code) in [
        (Ok(()), u32::MAX),
        (Err(UdpSendError::PayloadTooLarge), 1),
        (Err(UdpSendError::NetworkUnreachable), 2),
        (Err(UdpSendError::HostUnreachable), 3),
        (Err(UdpSendError::Other), 0xff),
    ] {
        assert_eq!(SharableUdpSendResult::encode(result), code);
        assert_eq!(SharableUdpSendResult::decode(code), Some(result));
        shared.store(result);
        assert_eq!(shared.reset(), Some(result));
        assert_eq!(shared.reset(), None);
    }
}

#[test]
fn a_socket_receives_what_fits() {
    let mut worker = worker_with(4);
    let mut socket = bind(&mut worker, v4(1, 4000));
    let packet = |payload: &'static [u8]| UdpRecvMessage::Packet {
        source: v4(2, 53),
        payload: Bytes::from_static(payload),
    };
    assert!(socket.context.recv.is_empty());
    assert!(socket.context.recv.try_push(packet(b"long datagram")));
    assert!(socket.context.recv.try_push(packet(b"ab")));
    let mut buf = [0u8; 4];
    let Ok(Receive::Received(4, source)) = socket.peek_from(&mut buf) else {
        panic!("nothing to peek at");
    };
    assert_eq!((source, &buf), (v4(2, 53), b"long"));
    buf = [b'-'; 4];
    assert!(matches!(socket.recv_from(&mut buf), Ok(Receive::Received(4, _))));
    assert_eq!(&buf, b"long");
    assert!(matches!(socket.recv_from(&mut buf), Ok(Receive::Received(2, _))));
    assert_eq!(&buf, b"abng");
    assert!(matches!(socket.recv_from(&mut buf), Ok(Receive::Wait)));
    assert!(matches!(socket.peek_from(&mut buf), Ok(Receive::Wait)));
    socket.set_nonblocking(true);
    let Err(error) = socket.recv_from(&mut buf) else {
        panic!("received");
    };
    assert_eq!(error.kind(), ErrorKind::WouldBlock);
    assert!(matches!(socket.peek_from(&mut buf), Err(error) if error.kind() == ErrorKind::WouldBlock));
    socket.shared_state.send_result.store(Err(UdpSendError::HostUnreachable));
    assert!(
        matches!(socket.recv_from(&mut buf), Err(error) if error.kind() == ErrorKind::HostUnreachable)
    );
    socket.shared_state.send_result.store(Err(UdpSendError::NetworkUnreachable));
    assert!(
        matches!(socket.peek_from(&mut buf), Err(error) if error.kind() == ErrorKind::NetworkUnreachable)
    );
}

#[test]
fn a_send_is_checked_first() {
    let mut worker = worker_with(4);
    let mut socket = bind(&mut worker, v4(1, 4000));
    let v6 = SocketAddr::new(IpAddr::V6(Ipv6Addr::unspecified()), 53);
    let mut prepare = |length, addrs: Vec<SocketAddr>| {
        socket.prepare_send(length, &addrs, Platform::Linux)
    };
    assert!(matches!(
        prepare(MTU - 28, vec![v4(2, 53), v6]),
        Ok((destination, false)) if destination == v4(2, 53)
    ));
    assert!(matches!(prepare(MTU - 27, vec![]), Err(SocketError::Os(error)) if error.code == 90));
    assert!(matches!(prepare(1, vec![]), Err(SocketError::Io(error))
        if error.kind() == ErrorKind::InvalidInput && error.message() == "invalid address"));
    assert!(matches!(prepare(1, vec![v6]), Err(SocketError::Io(error))
        if error.message() == "address version does not match"));
}

#[test]
fn outcomes_are_reported_as_errors() {
    let blocking = |error| {
        UdpSocket::blocking_result(Err(error), 3).map_err(|error| error.message().to_string())
    };
    assert_eq!(UdpSocket::blocking_result(Ok(()), 3).expect("sent"), 3);
    assert_eq!(blocking(UdpSendError::PayloadTooLarge), Err("payload too large".to_string()));
    assert_eq!(blocking(UdpSendError::Other), Err("network buffer full".to_string()));
    assert_eq!(blocking(UdpSendError::NetworkUnreachable), Err("no route to host".to_string()));
    assert_eq!(blocking(UdpSendError::HostUnreachable), Err("host unreachable".to_string()));
    let connect = |error| {
        UdpSocket::connect_result(Err(error)).map_err(|error| error.message().to_string())
    };
    assert!(UdpSocket::connect_result(Ok(())).is_ok());
    assert_eq!(connect(UdpConnectError::NoRouteToHost), Err("no route to host".to_string()));
    assert_eq!(
        connect(UdpConnectError::InvalidAddress),
        Err("invalid or unsupported address".to_string())
    );
    assert_eq!(connect(UdpConnectError::NoAddress), Err("no address in input".to_string()));
}

#[test]
fn a_socket_has_options_and_a_peer() {
    let mut worker = worker_with(4);
    let mut socket = bind(&mut worker, v4(1, 4000));
    assert!(!socket.broadcast());
    socket.set_broadcast(true);
    assert!(socket.broadcast());
    assert_eq!(socket.peer_addr().expect_err("no peer").kind(), ErrorKind::NotConnected);
    socket.shared_state.connected_to = Some(v4(2, 53));
    assert_eq!(socket.peer_addr().expect("a peer"), v4(2, 53));
    assert_eq!(socket.context.ready_bit(), (0, 1));
}

#[test]
fn a_payload_is_copied_into_a_buffer_of_the_pool() {
    let mut worker = worker_with(4);
    let mut socket = bind(&mut worker, v4(1, 4000));
    let mut returned = Vec::new();
    let buffer = socket.context.send_inner(b"abc", &mut returned).expect("a buffer");
    assert_eq!(buffer.as_ref(), b"abc");
    let error = socket
        .context
        .send_inner(&vec![0; MTU - 27], &mut returned)
        .expect_err("too large");
    assert_eq!(error.message(), "buffer too large");
    for _ in 0..63 {
        assert!(socket.context.send_inner(b"abc", &mut returned).is_ok());
    }
    let error = socket.context.send_inner(b"abc", &mut returned).expect_err("exhausted");
    assert_eq!(
        (error.kind(), error.message()),
        (ErrorKind::OutOfMemory, "buffer pool exhausted")
    );
    returned.push(buffer.buffer);
    let buffer = socket.context.send_inner(b"d", &mut returned).expect("the buffer");
    assert_eq!(buffer.as_ref(), b"d");
}
