//! Tables, pools, slots and queues on concrete values.

use bytes::Bytes;
use narth_net::bits::{bit_position, clear_bit, lowest_bit};
use narth_net::net::{Ipv4Addr, Ipv6Addr};
use narth_net::poller::{
    PollStep, Poller, PollerTimeoutError, ReadyBitFrozen, ReadyState, ReadyTokensByBits, Token,
};
use narth_net::protocols::ethernet::mac::MacAddr;
use narth_net::runtime::address_table::{AddressTable, AddressTableIpv4, InterfaceIpv4Addr};
use narth_net::runtime::buffer_pool::{BufferPool, PooledBuffer, WriteTrackingBuffer};
use narth_net::runtime::channel::{
    NetworkRecvPayload, NetworkSendPayload, NetworkSender, NetworkSenderError,
};
use narth_net::runtime::emsgsize::{emsgsize_code, errmsgsize, Platform};
use narth_net::runtime::interface::l2_ethernet::arp_table::{ArpState, ArpTable};
use narth_net::runtime::network::{
    after_bridge_read, BridgeAction, BridgeRead, HostNetwork, Network, NetworkError, WorkerState,
};
use narth_net::runtime::route_table::{RouteInformation, RouteTable};
use narth_net::time::{Duration, Instant};

fn ip(a: u8, b: u8, c: u8, d: u8) -> Ipv4Addr {
    Ipv4Addr::new(a, b, c, d)
}

fn mac(last: u8) -> MacAddr {
    MacAddr::new(2, 0, 0, 0, 0, last)
}

fn at_millis(millis: u64) -> Instant {
    Instant { nanos: millis * 1_000_000 }
}

#[test]
fn bits_are_found_and_cleared() {
    assert_eq!(lowest_bit(0b1010_0000), 5);
    assert_eq!(lowest_bit(1 << 63), 63);
    assert_eq!(clear_bit(0b1010_0000, 5), 0b1000_0000);
    assert_eq!(clear_bit(0b1010_0000, 4), 0b1010_0000);
    assert_eq!(bit_position(0), (0, 1));
    assert_eq!(bit_position(130), (2, 4));
}

#[test]
fn the_longest_mask_wins() {
    let mut table: RouteTable<Ipv4Addr> = RouteTable::default();
    table.insert_or_update(ip(0, 0, 0, 0), ip(0, 0, 0, 0), ip(10, 0, 0, 9), Some(ip(10, 0, 0, 1)));
    table.insert_or_update(ip(10, 0, 0, 0), ip(255, 255, 255, 0), ip(10, 0, 0, 9), None);
    table.insert_or_update(ip(10, 0, 0, 128), ip(255, 255, 255, 128), ip(10, 0, 0, 200), None);
    let hop = |target| table.lookup(&target).map(|route| route.source);
    assert_eq!(hop(ip(10, 0, 0, 129)), Some(ip(10, 0, 0, 200)));
    assert_eq!(hop(ip(10, 0, 0, 5)), Some(ip(10, 0, 0, 9)));
    assert_eq!(table.lookup(&ip(8, 8, 8, 8)).expect("a route").next_hop, Some(ip(10, 0, 0, 1)));
    let masks: Vec<u32> = table.shared().iter().map(|route| route.mask.bits).collect();
    assert_eq!(masks, [0xffff_ff80, 0xffff_ff00, 0]);
}

#[test]
fn a_route_is_replaced_by_one_for_the_same_network() {
    let mut table: RouteTable<Ipv4Addr> = RouteTable::default();
    let mask = ip(255, 255, 0, 0);
    table.insert_or_update(ip(10, 2, 0, 0), mask, ip(1, 1, 1, 1), None);
    table.insert_or_update(ip(10, 1, 0, 0), mask, ip(1, 1, 1, 1), None);
    table.insert_or_update(ip(10, 2, 0, 0), mask, ip(2, 2, 2, 2), Some(ip(3, 3, 3, 3)));
    assert_eq!(table.routes.len(), 2);
    assert_eq!(table.routes[0].target, ip(10, 1, 0, 0));
    assert_eq!(table.lookup(&ip(10, 2, 9, 9)).expect("a route").source, ip(2, 2, 2, 2));
    assert!(table.lookup(&ip(10, 3, 0, 0)).is_none());
}

#[test]
fn routes_are_removed_by_what_they_are() {
    let mut table: RouteTable<Ipv6Addr> = RouteTable::default();
    let address = |bits| Ipv6Addr { bits };
    for target in [1u128, 2, 3] {
        table.insert_or_update(address(target), address(u128::MAX), address(target), None);
    }
    table.remove_matching(|route: &RouteInformation<Ipv6Addr>| route.source.bits == 2);
    let left: Vec<u128> = table.shared().iter().map(|route| route.target.bits).collect();
    assert_eq!(left, [1, 3]);
    assert!(table.lookup(&address(2)).is_none());
    assert!(table.routes[0].is_before(&table.routes[1]));
    assert!(!table.routes[0].is_same_network(&table.routes[1]));
}

#[test]
fn an_address_has_a_network_and_a_broadcast_address() {
    let address = InterfaceIpv4Addr::new(ip(192, 168, 4, 5), ip(255, 255, 254, 0));
    assert_eq!(address.network, ip(192, 168, 4, 0));
    assert_eq!(address.broadcast, ip(192, 168, 5, 255));
}

#[test]
fn addresses_are_added_found_and_removed() {
    let mut table = AddressTableIpv4::new();
    let mask = ip(255, 255, 255, 0);
    table.insert(ip(10, 0, 0, 9), mask);
    table.insert(ip(10, 0, 0, 10), mask);
    table.insert(ip(172, 16, 0, 1), ip(255, 255, 0, 0));
    assert!(table.contains(ip(10, 0, 0, 10)));
    assert!(!table.contains(ip(10, 0, 0, 255)));
    assert!(table.contains_as_address_or_broadcast(ip(10, 0, 0, 255)));
    assert!(table.contains_as_address_or_broadcast(ip(172, 16, 255, 255)));
    assert!(!table.contains_as_address_or_broadcast(ip(10, 0, 0, 1)));
    assert!(!table.contains_ephemeral_multicast(ip(224, 0, 0, 251)));
    assert_eq!(table.first_with_subnet_containing(ip(10, 0, 0, 77)), Some(ip(10, 0, 0, 9)));
    assert_eq!(table.first_with_subnet_containing(ip(10, 0, 1, 77)), None);
    table.remove(ip(10, 0, 0, 9));
    assert_eq!(table.first_with_subnet_containing(ip(10, 0, 0, 77)), Some(ip(10, 0, 0, 10)));
    table.remove(ip(9, 9, 9, 9));
    assert_eq!(
        *table.shared(),
        [(ip(10, 0, 0, 10), mask), (ip(172, 16, 0, 1), ip(255, 255, 0, 0))]
    );
    assert_eq!(table.addresses(), [ip(10, 0, 0, 10), ip(172, 16, 0, 1)]);
}

#[test]
fn addresses_of_any_family_have_one_mask_each() {
    let mut table: AddressTable<Ipv4Addr> = AddressTable::new();
    table.insert(ip(10, 0, 0, 9), ip(255, 0, 0, 0));
    table.insert(ip(10, 0, 0, 9), ip(255, 255, 255, 0));
    assert_eq!(*table.shared(), [(ip(10, 0, 0, 9), ip(255, 255, 255, 0))]);
    assert!(table.contains(&ip(10, 0, 0, 9)));
    assert_eq!(table.first_with_subnet_containing(&ip(10, 0, 0, 1)), Some(ip(10, 0, 0, 9)));
    assert_eq!(table.first_with_subnet_containing(&ip(10, 1, 0, 1)), None);
    table.remove(&ip(10, 0, 0, 9));
    assert!(!table.contains(&ip(10, 0, 0, 9)));
    assert!(table.shared().is_empty());
}

#[test]
fn a_too_long_message_has_a_number_on_each_platform() {
    for (platform, code) in [
        (Platform::Linux, 90),
        (Platform::MacOs, 40),
        (Platform::Ios, 40),
        (Platform::FreeBsd, 40),
        (Platform::OpenBsd, 40),
        (Platform::Windows, 10040),
        (Platform::Other, 90),
    ] {
        assert_eq!(emsgsize_code(platform), code);
        assert_eq!(errmsgsize(platform).code, code);
    }
}

#[test]
fn buffers_are_used_again() {
    let mut pool = BufferPool::new(4, 1);
    let mut returned: Vec<PooledBuffer> = Vec::new();
    assert_eq!(pool.buffer_size(), 4);
    let mut buffer = pool.acquire(&mut returned).expect("a buffer");
    assert_eq!(buffer.as_slice(), [0; 4]);
    buffer.as_slice_mut()[1] = 7;
    assert!(pool.acquire(&mut returned).is_none());
    returned.push(buffer);
    let buffer = pool.acquire(&mut returned).expect("the buffer");
    assert_eq!(buffer.as_slice(), [0, 7, 0, 0]);
    assert!(returned.is_empty());
    pool.expand(2);
    assert_eq!(pool.capacity, 3);
    returned.push(buffer);
    // What waits comes first.
    assert_eq!(pool.acquire(&mut returned).expect("a buffer").as_slice(), [0; 4]);
    assert_eq!(returned.len(), 1);
    assert!(pool.acquire(&mut returned).is_some());
    assert!(pool.acquire(&mut returned).is_some());
    assert!(pool.acquire(&mut returned).is_none());
    assert_eq!(pool.acquire_or_expand(&mut returned, 5).as_slice(), [0; 4]);
    assert_eq!((pool.capacity, pool.queue.len()), (8, 4));
}

#[test]
fn a_tracked_buffer_shows_what_was_written() {
    let mut pool = BufferPool::new(4, 1);
    let mut buffer =
        WriteTrackingBuffer::from_pooled(pool.acquire(&mut Vec::new()).expect("a buffer"));
    assert!(buffer.as_ref().is_empty());
    buffer.buffer.as_slice_mut()[..2].copy_from_slice(&[8, 9]);
    buffer.advance(1);
    assert_eq!(buffer.as_ref(), [8]);
    buffer.advance(1);
    assert_eq!(buffer.as_ref(), [8, 9]);
}

#[test]
fn what_was_written_to_a_tracked_buffer_stays() {
    let mut pool = BufferPool::new(4, 1);
    let mut buffer =
        WriteTrackingBuffer::from_pooled(pool.acquire(&mut Vec::new()).expect("a buffer"));
    buffer.rest_mut()[..3].copy_from_slice(&[1, 2, 3]);
    buffer.advance(2);
    assert_eq!(buffer.rest_mut(), [3, 0]);
    buffer.rest_mut()[..1].copy_from_slice(&[9]);
    buffer.advance(1);
    assert_eq!(buffer.as_ref(), [1, 2, 9]);
    assert_eq!(buffer.rest_mut(), [0]);
}

fn frozen(read: u64, write: u64) -> ReadyBitFrozen {
    ReadyBitFrozen { read, write }
}

#[test]
fn ready_slots_come_in_order() {
    let chunks = vec![frozen(0b0110, 0b1100), frozen(0, 0), frozen(1, 0)];
    let mut walk = ReadyTokensByBits::new(192, chunks);
    assert_eq!(walk.next(|_| true), Some((Token { id: 1 }, ReadyState::Read)));
    assert_eq!(walk.next(|_| true), Some((Token { id: 2 }, ReadyState::Both)));
    assert_eq!(walk.next(|_| true), Some((Token { id: 3 }, ReadyState::Write)));
    assert_eq!(walk.next(|_| true), Some((Token { id: 128 }, ReadyState::Read)));
    assert_eq!(walk.next(|_| true), None);
}

#[test]
fn slots_that_are_not_in_use_are_passed_over() {
    let mut walk = ReadyTokensByBits::new(64, vec![frozen(0b0110, 0)]);
    assert_eq!(walk.next(|slot| slot != 1), Some((Token { id: 2 }, ReadyState::Read)));
    let mut walk = ReadyTokensByBits::new(2, vec![frozen(0b1000, 0)]);
    assert_eq!(walk.next(|_| true), None);
}

#[test]
fn states_say_what_they_are_for() {
    assert!(ReadyState::Read.has_read() && !ReadyState::Read.has_write());
    assert!(!ReadyState::Write.has_read() && ReadyState::Write.has_write());
    assert!(ReadyState::Both.has_read() && ReadyState::Both.has_write());
}

#[test]
fn the_first_free_slot_is_taken() {
    let mut poller = Poller::new();
    assert_eq!(poller.get_free_token(|_| false), (0, 0, Token { id: 0 }));
    assert_eq!(poller.chunks, 1);
    assert_eq!(poller.get_free_token(|slot| slot < 5), (0, 5, Token { id: 5 }));
    assert_eq!(poller.get_free_token(|_| true), (1, 0, Token { id: 64 }));
    assert_eq!(poller.chunks, 2);
}

#[test]
fn a_wait_ends_when_it_should() {
    let idle = vec![frozen(0, 0)];
    let ready = vec![frozen(0, 0), frozen(0, 8)];
    assert!(!Poller::any_ready(&idle));
    assert!(Poller::any_ready(&ready));
    assert_eq!(Poller::poll_step(&idle), PollStep::Park(None));
    assert_eq!(Poller::poll_step(&ready), PollStep::Ready);
    let deadline = at_millis(10);
    assert_eq!(
        Poller::poll_timeout_step(&idle, deadline, at_millis(4)),
        PollStep::Park(Some(Duration::from_millis(6)))
    );
    assert_eq!(Poller::poll_timeout_step(&ready, deadline, at_millis(4)), PollStep::Ready);
    assert_eq!(
        Poller::poll_timeout_step(&ready, deadline, at_millis(10)),
        PollStep::Timeout(PollerTimeoutError::Timeout)
    );
}

#[test]
fn a_sender_keeps_order_and_fills_up() {
    let mut sender = NetworkSender::new(2, 130);
    assert_eq!(sender.ready_bit(), (2, 4));
    assert!(sender.next_outgoing().is_none());
    let packet = |byte: u8| NetworkSendPayload::Packet(Bytes::from(vec![byte]));
    assert!(sender.try_send(packet(1)).is_ok());
    assert!(sender.has_room());
    assert!(sender.try_send(NetworkSendPayload::Closed(mac(3))).is_ok());
    assert!(!sender.has_room());
    let Err(NetworkSenderError::SendError { payload: NetworkSendPayload::Packet(refused) }) =
        sender.try_send(packet(2))
    else {
        panic!("not refused");
    };
    assert_eq!(&refused[..], [2]);
    let Some(NetworkSendPayload::Packet(first)) = sender.next_outgoing() else {
        panic!("no packet");
    };
    assert_eq!(&first[..], [1]);
    let Some(NetworkSendPayload::Closed(gone)) = sender.next_outgoing() else {
        panic!("not closed");
    };
    assert_eq!(gone, mac(3));
}

#[test]
fn a_question_is_repeated_and_then_given_up() {
    let mut table = ArpTable::new();
    let (target, source) = (ip(10, 0, 0, 2), ip(10, 0, 0, 1));
    let start = at_millis(0);
    assert_eq!(table.request(target, source, start), ArpState::PendingRetry { source });
    assert_eq!(
        table.request(target, source, at_millis(100)),
        ArpState::PendingWait { deadline: at_millis(100) }
    );
    assert_eq!(table.pending(), [(target, source)]);
    let mut now = 0;
    for _ in 0..5 {
        now += 101;
        assert_eq!(table.request(target, source, at_millis(now)), ArpState::PendingRetry { source });
        assert!(table.can_send_request(target, source, at_millis(now)));
    }
    now += 101;
    assert_eq!(table.request(target, source, at_millis(now)), ArpState::Timeout);
    assert!(table.pending().is_empty());
    assert!(!table.can_send_request(target, source, at_millis(now)));
    assert_eq!(table.request(target, source, at_millis(now + 30_000)), ArpState::Timeout);
    assert_eq!(table.request(target, source, at_millis(now + 30_001)), ArpState::Restart);
    assert_eq!(
        table.request(target, source, at_millis(now + 30_001)),
        ArpState::PendingRetry { source }
    );
}

#[test]
fn an_answer_ages() {
    let mut table = ArpTable::new();
    let target = ip(10, 0, 0, 2);
    assert!(!table.update_only(mac(2), target, at_millis(0)));
    assert!(!table.update_or_insert(mac(2), target, at_millis(0)));
    assert!(table.update_only(mac(3), target, at_millis(0)));
    assert!(table.knows(target, at_millis(59_999)));
    let mut state = |millis| table.request(target, target, at_millis(millis));
    assert_eq!(state(29_999), ArpState::Resolved(mac(3)));
    assert_eq!(state(30_000), ArpState::ResolvedStale(mac(3)));
    assert_eq!(state(59_999), ArpState::ResolvedStale(mac(3)));
    assert_eq!(state(60_000), ArpState::Restart);
    assert!(!table.knows(target, at_millis(60_000)));
    assert_eq!(table.question_state(target), (true, true));
}

fn packet(frame: Bytes) -> NetworkRecvPayload {
    NetworkRecvPayload::Packet(frame)
}

#[test]
fn interfaces_are_told_apart_by_their_addresses() {
    let mut network = Network::new(mac(1));
    assert_eq!(network.add_interface(mac(1)), Err(NetworkError::MacAddressConflict));
    assert_eq!(network.add_interface(mac(2)), Ok(0));
    assert_eq!(network.add_interface(mac(3)), Ok(1));
    assert_eq!(network.add_interface(mac(2)), Err(NetworkError::MacAddressConflict));
    assert_eq!(network.mac_addresses(), [mac(2), mac(3), mac(1)]);
    let frame = |destination: [u8; 6]| {
        Bytes::from([&destination[..], &[0; 8]].concat())
    };
    assert_eq!(network.on_recv(&frame([255; 6])), [0, 1]);
    assert_eq!(network.on_recv(&frame(mac(3).octets())), [1]);
    assert!(network.on_recv(&frame(mac(9).octets())).is_empty());
    assert!(network.on_recv(&Bytes::from_static(&[255; 13])).is_empty());
    assert_eq!(network.interfaces[0].next_incoming(), Some(packet(frame([255; 6]))));
    assert_eq!(network.interfaces[0].next_incoming(), None);
    assert_eq!(network.interfaces[1].next_incoming(), Some(packet(frame([255; 6]))));
    assert_eq!(network.interfaces[1].next_incoming(), Some(packet(frame(mac(3).octets()))));
    network.on_closed(mac(2));
    network.on_closed(mac(9));
    assert_eq!(network.mac_addresses(), [mac(3), mac(1)]);
    // The number of an interface that is gone stays taken.
    assert_eq!(network.add_interface(mac(2)), Ok(2));
}

#[test]
fn there_is_room_for_so_many_interfaces() {
    let mut network = Network::new(MacAddr::new(4, 0, 0, 0, 0, 0));
    network.started = false;
    for i in 0..=255u8 {
        assert_eq!(network.add_interface(mac(i)), Ok(i));
    }
    assert_eq!(
        network.add_interface(MacAddr::new(6, 0, 0, 0, 0, 0)),
        Err(NetworkError::NoInterfaceSpace)
    );
    assert_eq!(network.interfaces[7].worker, WorkerState::Worker);
    let frame = Bytes::from_static(&[255; 14]);
    assert_eq!(
        network.interfaces[7].send(packet(frame.clone())),
        Err(NetworkError::InterfaceHandleIncorrectSendState)
    );
    assert!(network.on_recv(&frame).is_empty());
    network.start();
    assert_eq!(network.interfaces[7].worker, WorkerState::Handle);
    assert_eq!(network.interfaces[7].send(packet(frame.clone())), Ok(()));
    assert_eq!(network.on_recv(&frame).len(), 256);
    assert_eq!(network.interfaces[7].mac, mac(7));
}

#[test]
fn frames_for_which_there_is_no_room_are_dropped() {
    let mut network = Network::new(mac(1));
    assert_eq!(network.add_interface(mac(2)), Ok(0));
    assert_eq!(network.add_interface(mac(3)), Ok(1));
    let frame = Bytes::from_static(&[255; 14]);
    for _ in 0..4096 {
        assert_eq!(network.interfaces[0].send(packet(Bytes::from_static(&[2]))), Ok(()));
    }
    assert_eq!(
        network.interfaces[0].send(packet(frame.clone())),
        Err(NetworkError::InterfaceSendFailed { payload: packet(frame.clone()) })
    );
    assert_eq!(network.on_recv(&frame), [1]);
    assert_eq!(network.interfaces[0].next_incoming(), Some(packet(Bytes::from_static(&[2]))));
    assert_eq!(network.on_recv(&frame), [0, 1]);
}

#[test]
fn reading_from_the_bridge_leads_on() {
    assert_eq!(after_bridge_read(BridgeRead::Read(0)), BridgeAction::Closed);
    assert_eq!(after_bridge_read(BridgeRead::Read(60)), BridgeAction::Forward(60));
    assert_eq!(after_bridge_read(BridgeRead::WouldBlock), BridgeAction::Wait);
    assert_eq!(after_bridge_read(BridgeRead::Failed), BridgeAction::Again);
}

#[test]
fn interfaces_live_in_the_network_of_the_host() {
    let host = HostNetwork { mac_host: mac(1), ipv4_host: ip(10, 1, 2, 3), prefix: 20 };
    let refused = |mac, address| {
        host.check_interface(mac, address).expect_err("refused").message().to_string()
    };
    assert!(host.check_interface(mac(2), ip(10, 1, 15, 255)).is_ok());
    assert!(host.check_interface(mac(2), ip(10, 1, 0, 0)).is_ok());
    assert_eq!(refused(mac(1), ip(10, 1, 2, 4)), "Mac address in use by host");
    assert_eq!(refused(mac(2), ip(10, 1, 2, 3)), "IPv4 address in use by host");
    assert_eq!(
        refused(mac(2), ip(10, 1, 16, 0)),
        "Our addresses must be in the same range as the host address"
    );
    let anywhere = HostNetwork { prefix: 0, ..host };
    assert!(anywhere.check_interface(mac(2), ip(200, 1, 16, 0)).is_ok());
    let nowhere = HostNetwork { prefix: 32, ..host };
    assert!(nowhere.check_interface(mac(2), ip(10, 1, 2, 2)).is_err());
}
