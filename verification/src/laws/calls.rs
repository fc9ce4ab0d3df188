//! What a call of an operation leaves and gives back.
//!
//! The laws of the other modules say what the states before and after an operation have to do with
//! each other. These say of which calls they hold.

use crate::bits::{bit_position, bit_set, clear_bit, lowest_bit};
use crate::buffer::bytes_contents;
use crate::common::{Error, ErrorKind};
use crate::net::{IpAddr, Ipv4Addr, SocketAddr};
use crate::poller::{any_slot_ready, PollStep, Poller, ReadyBitFrozen};
use crate::protocols::ethernet::{EtherType, Ethernet};
use crate::protocols::ethernet::mac::{mac_text, MacAddr};
use crate::protocols::ipv4::{IPProtocolTypes, IPv4Header};
use crate::protocols::ipv4::icmp::{EchoMessage, EchoMessageDataUnix};
use crate::runtime::buffer_pool::PooledBuffer;
use crate::runtime::channel::{NetworkRecvPayload, NetworkSender, NetworkSenderError, PayloadView};
use crate::runtime::emsgsize::Platform;
use crate::runtime::interface::{AsyncSendError, SendResult};
use crate::runtime::interface::context::{send_frame, InterfaceContext};
use crate::runtime::interface::l2_ethernet::{
    arp_received, arp_request_sent, arp_timers, dequeued, frame_handled, frame_of, frame_ok,
    gratuitous_arp_sent, ipv4_sent, EthernetHandler,
};
use crate::runtime::interface::l2_ethernet::arp_table::{lists_pending, ArpTable, ArpTableEntry};
use crate::runtime::interface::l3_ipv4::{
    ipv4_handled, ipv4_ok, outgoing_sent, IPv4Handler, Outgoing,
};
use crate::runtime::interface::l4_managers::{loss_forwarded, Managers};
use crate::runtime::interface::l4_managers::ping::{
    reply_taken, session_at, session_processed, session_started, session_values, timers_ok,
    timers_performed, PingEntryKey, PingEvent, PingManager, PingManagerEntry, PingResult,
    PingResultStatus, PingSession,
};
use crate::runtime::interface::l4_managers::udp::{
    after_check, first_from, received_first, received_from, reported, send_outcome, Receive,
    SocketError, UdpSocket,
};
use crate::runtime::interface::l4_managers::udp::handle::{
    message_handled, socket_drained, MessageAction, UdpSocketHandle,
};
use crate::runtime::interface::l4_managers::udp::manager::{
    ready_addresses, socket_processed, udp_taken, Processed, UdpManager, UdpRecvOutcome,
};
use crate::runtime::interface::l4_managers::udp::messages::{
    DrainSendAction, UdpConnectResult, UdpSendMessage, UdpSendResult,
};
use crate::runtime::interface::worker::{
    all_timers, control_handled, pending_checked, InterfaceControlMessage, InterfaceWorker,
};
use crate::runtime::network::{
    after_bridge_read, handed, without_mac, BridgeAction, BridgeRead, HandleView, HostNetwork,
    InterfaceHandle, Network, NetworkError, WorkerState,
};
use crate::services::dhcpv4::{discover_message, server_address, Action, ClientState, Phase};
use crate::time::{Duration, Instant};
use crate::write_to_buffer::WriteToBuffer;
use bytes::Bytes;
use vstd::prelude::*;

verus! {

/// A frame that is received is handled as is said of frames.
pub proof fn a_received_frame_is_handled(
    ctx: &mut InterfaceContext,
    managers: &mut Managers,
    bytes: Bytes,
    clock: EchoMessageDataUnix,
    identification: u16,
    now: Instant,
)
    requires
        call_ensures(
            EthernetHandler::recv_identified,
            (ctx, managers, &bytes, clock, identification, now),
            (),
        ),
    ensures
        frame_handled(
            (old(ctx)@, *old(managers)),
            (final(ctx)@, *final(managers)),
            bytes_contents(bytes),
            clock,
            identification,
            now,
        ),
{
}

/// So is one that is received with a number that is drawn for it.
pub proof fn a_received_frame_is_handled_with_some_number(
    ctx: &mut InterfaceContext,
    managers: &mut Managers,
    bytes: Bytes,
    clock: EchoMessageDataUnix,
    now: Instant,
)
    requires
        call_ensures(EthernetHandler::recv, (ctx, managers, &bytes, clock, now), ()),
    ensures
        exists|identification: u16| #[trigger]
            frame_handled(
                (old(ctx)@, *old(managers)),
                (final(ctx)@, *final(managers)),
                bytes_contents(bytes),
                clock,
                identification,
                now,
            ),
{
}

/// A datagram that is received is handled as is said of datagrams.
pub proof fn a_received_datagram_is_handled(
    ctx: &mut InterfaceContext,
    managers: &mut Managers,
    bytes: Bytes,
    clock: EchoMessageDataUnix,
    identification: u16,
    now: Instant,
)
    requires
        call_ensures(
            IPv4Handler::recv,
            (ctx, managers, &bytes, clock, identification, now),
            (),
        ),
    ensures
        ipv4_handled(
            (old(ctx)@, *old(managers)),
            (final(ctx)@, *final(managers)),
            bytes_contents(bytes),
            clock,
            identification,
            now,
        ),
{
}

/// What is sent is a datagram with the parts that are given for it.
pub proof fn what_is_sent_is_a_datagram<P: WriteToBuffer>(
    ctx: &mut InterfaceContext,
    destination: Ipv4Addr,
    source: Ipv4Addr,
    protocol: IPProtocolTypes,
    payload: P,
    identification: u16,
    now: Instant,
    result: SendResult,
)
    requires
        call_ensures(
            IPv4Handler::send_identified::<P>,
            (ctx, destination, source, protocol, &payload, identification, now),
            result,
        ),
    ensures
        (final(ctx)@, result) == outgoing_sent(
            old(ctx)@,
            Outgoing {
                destination,
                source,
                protocol,
                length: payload.reported(),
                payload: payload.encoding(),
                identification,
            },
            now,
        ),
{
}

/// Questions, announcements and datagrams for a hop are sent as is said of them.
pub proof fn frames_are_sent(
    ctx: &mut InterfaceContext,
    hop: Ipv4Addr,
    source: Ipv4Addr,
    header: IPv4Header,
    payload: Bytes,
    now: Instant,
    result: SendResult,
)
    ensures
        call_ensures(EthernetHandler::send_arp_request, (ctx, hop, source, now), result) ==> (
            final(ctx)@,
            result,
        ) == arp_request_sent(old(ctx)@, hop, source, now),
        call_ensures(EthernetHandler::send_gratuitous_arp, (ctx, hop), result) ==> (
            final(ctx)@,
            result,
        ) == gratuitous_arp_sent(old(ctx)@, hop),
        call_ensures(
            EthernetHandler::send_ipv4,
            (ctx, hop, source, header, payload, now),
            result,
        ) ==> (final(ctx)@, result) == ipv4_sent(
            old(ctx)@,
            hop,
            source,
            (header, bytes_contents(payload)),
            now,
        ),
{
}

/// Answers that are received, and the datagrams that waited for them, are handled as is said of
/// them.
pub proof fn answers_are_received(
    ctx: &mut InterfaceContext,
    managers: &mut Managers,
    bytes: Bytes,
    mac: MacAddr,
    address: Ipv4Addr,
    now: Instant,
)
    ensures
        call_ensures(EthernetHandler::recv_arp, (ctx, managers, &bytes, now), ()) ==> (
            final(ctx)@,
            final(managers).ping_manager@,
        ) == arp_received(
            old(ctx)@,
            old(managers).ping_manager@,
            bytes_contents(bytes),
            now,
        ) && final(managers).udp_manager == old(managers).udp_manager,
        call_ensures(
            EthernetHandler::dequeue_pending_ipv4,
            (ctx, managers, mac, address),
            (),
        ) ==> (final(ctx)@, final(managers).ping_manager@) == dequeued(
            old(ctx)@,
            old(managers).ping_manager@,
            mac,
            address,
        ),
{
}

/// Losses are told to the sessions and to nobody else.
pub proof fn losses_are_told(managers: &mut Managers, error: AsyncSendError)
    requires
        call_ensures(Managers::forward_async_error, (managers, &error), ()),
    ensures
        final(managers).ping_manager@ == loss_forwarded(old(managers).ping_manager@, error@),
        final(managers).udp_manager == old(managers).udp_manager,
{
}

/// A session is looked after as is said of it.
pub proof fn a_session_is_looked_after(
    entry: &mut PingManagerEntry,
    now: Instant,
    sender: &mut InterfaceContext,
    clock: EchoMessageDataUnix,
    identification: u16,
    events: &mut Vec<PingEvent>,
    deadline: Option<Instant>,
)
    requires
        call_ensures(
            PingManager::process_timers_session,
            (entry, now, sender, clock, identification, events),
            deadline,
        ),
    ensures
        ({
            let (after, left, told, next) = session_processed(
                old(sender)@,
                old(entry)@,
                clock,
                identification,
                now,
            );
            &&& final(sender)@ == after
            &&& final(entry)@ == left
            &&& final(events)@ == old(events)@ + told
            &&& deadline == next
        }),
{
}

/// Sessions are started and answered as is said of them.
pub proof fn sessions_are_started_and_answered(
    manager: &mut PingManager,
    key: PingEntryKey,
    count: Option<usize>,
    interval: Duration,
    from: Ipv4Addr,
    message: EchoMessage,
    clock: EchoMessageDataUnix,
    given: Option<PingEntryKey>,
)
    ensures
        call_ensures(PingManager::start_session, (manager, key, count, interval), ())
            ==> final(manager)@ == session_started(old(manager)@, key, count, interval),
        call_ensures(PingManager::ping, (manager, from, count, interval), given) && given is Some
            ==> {
            &&& (given->0).0 == from
            &&& session_at(old(manager)@.sessions, given->0) is None
            &&& final(manager)@ == session_started(old(manager)@, given->0, count, interval)
        },
        call_ensures(PingManager::ping, (manager, from, count, interval), given) && given is None
            ==> final(manager)@ == old(manager)@,
        call_ensures(PingManager::on_echo_reply, (manager, from, &message, clock), ())
            ==> final(manager)@ == reply_taken(old(manager)@, from, message@, clock),
{
}

/// What is told of an echo is handed on under its number and with its target, and its time is
/// counted where it has one.
pub proof fn what_is_told_is_handed_on(
    session: &mut PingSession,
    sequence: usize,
    status: PingResultStatus,
    result: PingResult,
)
    requires
        call_ensures(PingSession::map, (session, sequence, status), result),
    ensures
        result.sequence == sequence,
        result.target == old(session).target,
        result.status == status,
        final(session).key == old(session).key,
        final(session).target == old(session).target,
        status matches PingResultStatus::Success(Some(duration)) ==> session_values(
            final(session).stats,
        ) == session_values(old(session).stats).insert(
            if duration.nanos <= 0xffff_ffff_ffff_ffff {
                duration.nanos as u64
            } else {
                0xffff_ffff_ffff_ffff
            },
        ),
        !(status matches PingResultStatus::Success(Some(_))) ==> session_values(
            final(session).stats,
        ) == session_values(old(session).stats),
{
}

/// A datagram for a port is taken as is said of it.
pub proof fn a_datagram_for_a_port_is_taken(
    manager: &mut UdpManager,
    source: IpAddr,
    destination: IpAddr,
    bytes: Bytes,
    outcome: UdpRecvOutcome,
)
    requires
        call_ensures(UdpManager::recv, (manager, source, destination, &bytes), outcome),
    ensures
        udp_taken(*old(manager), *final(manager), source, destination, bytes_contents(bytes)),
{
}

/// A bind gives what is said of it.
pub proof fn a_bind_is_answered(
    manager: &mut UdpManager,
    ctx: InterfaceContext,
    addr: SocketAddr,
    result: Result<UdpSocket, Error>,
)
    requires
        call_ensures(UdpManager::bind, (manager, &ctx, addr), result),
    ensures
        old(manager).asked_to_bind(
            *final(manager),
            addr,
            ctx.ephemeral_ports,
            ctx@.mtu,
            result,
        ),
{
}

/// The messages of a socket are handled as is said of them.
pub proof fn a_message_of_a_socket_is_handled(
    handle: &mut UdpSocketHandle,
    ctx: &mut InterfaceContext,
    message: UdpSendMessage,
    full: bool,
    identification: u16,
    now: Instant,
    action: MessageAction,
)
    requires
        call_ensures(
            UdpSocketHandle::handle_message,
            (handle, ctx, message, full, identification, now),
            action,
        ),
    ensures
        (final(ctx)@, final(handle).state, action) == message_handled(
            old(ctx)@,
            old(handle).state,
            message@,
            old(handle).recv.queued().len() > 0,
            full,
            identification,
            now,
        ),
        final(handle).recv == old(handle).recv,
        final(handle).send == old(handle).send,
{
}

/// All messages of a socket are handled as is said of them.
pub proof fn the_messages_of_a_socket_are_handled(
    handle: &mut UdpSocketHandle,
    ctx: &mut InterfaceContext,
    now: Instant,
    result: (Vec<MessageAction>, DrainSendAction),
)
    requires
        call_ensures(UdpSocketHandle::drain_send, (handle, ctx, now), result),
    ensures
        socket_drained(
            (old(ctx)@, *old(handle)),
            (final(ctx)@, *final(handle)),
            result.0@,
            result.1,
            now,
        ),
{
}

/// A socket is looked after as is said of it.
pub proof fn a_socket_is_looked_after(
    manager: &mut UdpManager,
    ctx: &mut InterfaceContext,
    addr: SocketAddr,
    now: Instant,
    processed: Processed,
)
    requires
        call_ensures(UdpManager::process_socket, (manager, ctx, addr, now), processed),
    ensures
        processed.addr == addr,
        socket_processed(
            (old(ctx)@, old(manager).sockets),
            (final(ctx)@, final(manager).sockets),
            processed,
            now,
        ),
        final(manager).socket_ids == old(manager).socket_ids,
{
}

/// A read gives what is said of it, and a late error is told once.
pub proof fn a_read_is_answered(
    socket: &mut UdpSocket,
    buf: &mut [u8],
    result: Result<Receive, Error>,
)
    requires
        call_ensures(UdpSocket::recv_from, (socket, buf), result),
    ensures
        received_first(
            old(socket).shared_state,
            old(socket).context.recv.queued(),
            final(socket).context.recv.queued(),
            old(buf)@,
            final(buf)@,
            result,
        ),
        final(socket).shared_state == after_check(old(socket).shared_state),
{
}

/// A look gives what a read would give, and takes nothing away.
pub proof fn a_look_gives_what_a_read_would_give(
    socket: &mut UdpSocket,
    buf: &mut [u8],
    result: Result<Receive, Error>,
)
    requires
        call_ensures(UdpSocket::peek_from, (socket, buf), result),
    ensures
        received_first(
            old(socket).shared_state,
            old(socket).context.recv.queued(),
            if result matches Ok(Receive::Received(_, _)) {
                old(socket).context.recv.queued().skip(1)
            } else {
                old(socket).context.recv.queued()
            },
            old(buf)@,
            final(buf)@,
            result,
        ),
        final(socket).context == old(socket).context,
        final(socket).socket_addr == old(socket).socket_addr,
        final(socket).shared_state == after_check(old(socket).shared_state),
{
}

/// A socket without a peer neither reads nor sends without an address, and says so.
pub proof fn a_socket_without_a_peer_says_so(
    socket: &mut UdpSocket,
    buf: &mut [u8],
    received: Result<Receive, Error>,
    looked: UdpSocket,
    peer: Result<SocketAddr, Error>,
)
    ensures
        call_ensures(UdpSocket::recv, (socket, buf), received)
            && old(socket).shared_state.connected_to is None ==> {
            &&& received matches Err(error) && error@.0 == ErrorKind::NotConnected
            &&& final(socket).context.recv.queued() == old(socket).context.recv.queued()
            &&& final(buf)@ == old(buf)@
        },
        call_ensures(UdpSocket::peek, (socket, buf), received)
            && old(socket).shared_state.connected_to is None ==> {
            &&& received matches Err(error) && error@.0 == ErrorKind::NotConnected
            &&& final(socket).context.recv.queued() == old(socket).context.recv.queued()
            &&& final(buf)@ == old(buf)@
        },
        call_ensures(UdpSocket::peer_addr, (&looked,), peer) ==> match peer {
            Ok(addr) => looked.shared_state.connected_to == Some(addr),
            Err(error) => looked.shared_state.connected_to is None && error@.0
                == ErrorKind::NotConnected,
        },
{
}

/// A read from the peer gives the oldest datagram of the peer. It takes that one away, and those of
/// others before it. A look takes away only those of others.
pub proof fn a_read_from_the_peer_is_answered(
    socket: &mut UdpSocket,
    buf: &mut [u8],
    result: Result<Receive, Error>,
    peer: SocketAddr,
    index: int,
)
    requires
        old(socket).shared_state.connected_to == Some(peer),
        reported(old(socket).shared_state) is None,
        first_from(old(socket).context.recv.queued(), peer, index),
    ensures
        call_ensures(UdpSocket::recv, (socket, buf), result) ==> {
            &&& received_from(
                old(socket).shared_state,
                old(socket).context.recv.queued(),
                peer,
                old(buf)@,
                final(buf)@,
                result,
            )
            &&& final(socket).context.recv.queued() == old(socket).context.recv.queued().skip(
                index + 1,
            )
        },
        call_ensures(UdpSocket::peek, (socket, buf), result) ==> {
            &&& received_from(
                old(socket).shared_state,
                old(socket).context.recv.queued(),
                peer,
                old(buf)@,
                final(buf)@,
                result,
            )
            &&& final(socket).context.recv.queued() == old(socket).context.recv.queued().skip(index)
        },
{
    let queued = old(socket).context.recv.queued();
    assert forall|i: int| #[trigger] first_from(queued, peer, i) implies i == index by {
        if i < index {
            assert(queued[i].0 != peer);
        }
        if index < i {
            assert(queued[index].0 != peer);
        }
    }
    assert(queued[index].0 == peer);
}

/// A datagram that is given to a socket is handed over as is said of it. Without an address it is
/// for the peer.
pub proof fn a_send_is_answered(
    socket: &mut UdpSocket,
    given: &[u8],
    addrs: Vec<SocketAddr>,
    platform: Platform,
    returned: &mut Vec<PooledBuffer>,
    result: Result<crate::runtime::interface::l4_managers::udp::Outgoing, SocketError>,
)
    ensures
        call_ensures(
            UdpSocket::send_to,
            (socket, given, &addrs, platform, returned),
            result,
        ) ==> send_outcome(
            *old(socket),
            *final(socket),
            given@,
            addrs@,
            platform,
            old(returned)@,
            result,
        ),
        call_ensures(UdpSocket::send, (socket, given, platform, returned), result)
            && old(socket).shared_state.connected_to is Some ==> send_outcome(
            *old(socket),
            *final(socket),
            given@,
            seq![old(socket).shared_state.connected_to->0],
            platform,
            old(returned)@,
            result,
        ),
        call_ensures(UdpSocket::send, (socket, given, platform, returned), result)
            && old(socket).shared_state.connected_to is None
                ==> result is Err && *final(socket) == *old(socket),
{
}

/// The result of a datagram that was waited for is how much was written, or why it was not.
pub proof fn a_waited_for_result_is_told(
    result: UdpSendResult,
    written: usize,
    told: Result<usize, Error>,
    connected: UdpConnectResult,
    peer: Result<(), Error>,
)
    ensures
        call_ensures(UdpSocket::blocking_result, (result, written), told) ==> {
            &&& told is Ok <==> result is Ok
            &&& told matches Ok(count) ==> count == written
            &&& told matches Err(error) ==> error@
                == crate::runtime::interface::l4_managers::udp::send_error(result->Err_0)
        },
        call_ensures(UdpSocket::connect_result, (connected,), peer) ==> {
            &&& peer is Ok <==> connected is Ok
            &&& peer matches Err(error) ==> error@
                == crate::runtime::interface::l4_managers::udp::peer_error(connected->Err_0)
        },
{
}

/// When the two ends of a socket meet, no datagram is lost, none comes twice, and they stay in the
/// order in which they came.
pub proof fn no_datagram_is_lost_between_the_ends(
    socket: &mut UdpSocket,
    handle: &mut UdpSocketHandle,
)
    requires
        call_ensures(UdpSocket::exchange, (socket, handle), ()),
        old(socket).context.recv.capacity() > 0,
    ensures
        final(socket).context.recv.queued() + final(handle).recv.queued()
            == old(socket).context.recv.queued() + old(handle).recv.queued(),
        final(handle).recv.queued().len() > 0 ==> final(socket).context.recv.queued().len() > 0,
        final(handle).send == old(handle).send,
        final(socket).socket_addr == old(socket).socket_addr,
{
    crate::runtime::interface::l4_managers::udp::exchange_keeps_order(
        old(socket).context.recv.queued(),
        old(handle).recv.queued(),
        old(socket).context.recv.capacity(),
    );
}

/// What an interface is asked to do is done as is said of it. Only a stop ends it.
pub proof fn a_control_message_is_handled(
    worker: &mut InterfaceWorker,
    message: InterfaceControlMessage,
    now: Instant,
    goes_on: bool,
)
    requires
        call_ensures(InterfaceWorker::handle_control, (worker, message, now), goes_on),
    ensures
        control_handled(old(worker)@, final(worker)@, message, now),
        goes_on <==> message != InterfaceControlMessage::Stop,
        final(worker).managers.udp_manager == old(worker).managers.udp_manager,
{
}

/// The addresses that are not in use yet are looked after as is said of them.
pub proof fn pending_addresses_are_looked_after(worker: &mut InterfaceWorker, now: Instant)
    requires
        call_ensures(InterfaceWorker::check_pending_addresses, (worker, now), ()),
    ensures
        final(worker)@ == pending_checked(old(worker)@, now),
        final(worker).managers.udp_manager == old(worker).managers.udp_manager,
{
}

/// An interface that is closed says so to the network, under its link layer address, as the last
/// that it sends.
pub proof fn a_closed_interface_says_so(
    worker: &mut InterfaceWorker,
    result: Result<(), NetworkSenderError>,
)
    requires
        call_ensures(InterfaceWorker::close, (worker,), result),
    ensures
        result is Ok <==> old(worker)@.context.sent.len() < old(worker)@.context.capacity,
        result is Ok ==> final(worker)@.context.sent == old(worker)@.context.sent.push(
            PayloadView::Closed(old(worker)@.context.mac),
        ),
        result is Err ==> final(worker)@.context.sent == old(worker)@.context.sent,
        final(worker)@.context.addresses == old(worker)@.context.addresses,
        final(worker)@.ping == old(worker)@.ping,
{
}

/// A route that is asked for with a prefix goes to the network of its target, and a session that is
/// asked for without an interval sends once in a second.
pub proof fn requests_are_written_down(
    target: Ipv4Addr,
    prefix: u8,
    next_hop: Ipv4Addr,
    src: Option<Ipv4Addr>,
    request: u64,
    count: Option<usize>,
    interval: Option<Duration>,
    message: InterfaceControlMessage,
)
    requires
        prefix <= 32,
    ensures
        call_ensures(
            InterfaceControlMessage::route_add,
            (target, prefix, next_hop, src, request),
            message,
        ) ==> (message matches InterfaceControlMessage::IPv4RouteAdd {
            target: network,
            target_mask,
            next_hop: hop,
            src: source,
            request: number,
        } && super::interface::is_mask(target_mask, prefix) && network.bits == target.bits
            & target_mask.bits && hop == next_hop && source == src && number == request),
        call_ensures(
            InterfaceControlMessage::ping,
            (target, count, interval, request),
            message,
        ) ==> (message matches InterfaceControlMessage::Ping {
            target: address,
            count: echoes,
            interval: span,
            request: number,
        } && address == target && echoes == count && number == request
            && span.nanos == match interval {
            Some(interval) => interval.nanos,
            None => 1_000_000_000,
        }),
{
    super::interface::prefixes_are_masks(prefix);
}

/// A frame that reaches the network is handed to each station as is said of it, and those that it
/// is handed to are told, in order.
pub proof fn a_frame_reaches_the_stations(
    network: &mut Network,
    frame: Bytes,
    takers: Vec<usize>,
    index: int,
)
    requires
        call_ensures(Network::on_recv, (network, &frame), takers),
        0 <= index < old(network)@.len(),
    ensures
        final(network)@.len() == old(network)@.len(),
        final(network)@[index] == handed(old(network)@[index], bytes_contents(frame)),
        final(network)@[index] != old(network)@[index] ==> takers@.contains(index as usize),
        final(network).senders == old(network).senders,
{
}

/// A station is added behind the others, with an address that nobody has, the lowest free number
/// and nothing to take yet. Otherwise nothing changes.
pub proof fn a_station_is_added_last(
    network: &mut Network,
    mac: MacAddr,
    result: Result<u8, NetworkError>,
)
    requires
        call_ensures(Network::add_interface, (network, mac), result),
    ensures
        mac == old(network).bridge_mac || (exists|i: int|
            0 <= i < old(network)@.len() && (#[trigger] old(network)@[i]).mac == mac) ==> result
            == Err::<u8, NetworkError>(NetworkError::MacAddressConflict),
        result matches Err(error) ==> {
            &&& final(network)@ == old(network)@
            &&& final(network).senders == old(network).senders
            &&& error == NetworkError::MacAddressConflict || error
                == NetworkError::NoInterfaceSpace
        },
        result matches Ok(id) ==> {
            let added = final(network)@.last();
            &&& final(network)@.len() == old(network)@.len() + 1
            &&& final(network)@.drop_last() == old(network)@
            &&& added.mac == mac
            &&& added.id == id
            &&& added.incoming.len() == 0
            &&& added.capacity == 4096
            &&& added.worker == WorkerState::Handle <==> old(network).started
            &&& 0 <= id < old(network).senders@.len()
            &&& !old(network).senders@[id as int]
            &&& forall|i: int| 0 <= i < id ==> #[trigger] old(network).senders@[i]
            &&& final(network).senders@ == old(network).senders@.update(id as int, true)
        },
{
    if result is Ok {
        assert(final(network)@.drop_last() =~= old(network)@);
    }
}

/// The stations of a network that is started all run, and one that is closed is gone.
pub proof fn stations_are_started_and_closed(network: &mut Network, mac: MacAddr, index: int)
    requires
        0 <= index < old(network)@.len(),
    ensures
        call_ensures(Network::start, (network,), ()) ==> {
            &&& final(network)@.len() == old(network)@.len()
            &&& final(network)@[index].worker == WorkerState::Handle
            &&& final(network)@[index] == HandleView {
                worker: final(network)@[index].worker,
                ..old(network)@[index]
            }
        },
        call_ensures(Network::on_closed, (network, mac), ()) ==> final(network)@ == without_mac(
            old(network)@,
            mac,
        ),
{
}

/// A station takes frames in the order in which they came, as long as it runs and has room.
pub proof fn a_station_takes_frames_in_order(
    handle: &mut InterfaceHandle,
    payload: NetworkRecvPayload,
    sent: Result<(), NetworkError>,
    next: Option<NetworkRecvPayload>,
)
    ensures
        call_ensures(InterfaceHandle::send, (handle, payload), sent) ==> {
            let runs = old(handle)@.worker == WorkerState::Handle;
            let room = old(handle)@.incoming.len() < old(handle)@.capacity;
            &&& sent is Ok <==> runs && room
            &&& sent is Ok ==> final(handle)@.incoming == old(handle)@.incoming.push(payload@)
            &&& sent is Err ==> final(handle)@ == old(handle)@
        },
        call_ensures(InterfaceHandle::next_incoming, (handle,), next) ==> {
            &&& next is None <==> old(handle)@.incoming.len() == 0
            &&& next matches Some(payload)
                ==> old(handle)@.incoming == seq![payload@] + final(handle)@.incoming
        },
{
    if old(handle)@.incoming.len() > 0 {
        let incoming = old(handle)@.incoming;
        assert(incoming =~= seq![incoming[0]] + incoming.skip(1));
    }
}

/// What was read from the outside is forwarded, an end is an end, and otherwise it is read again,
/// after a wait where there was nothing yet.
pub proof fn what_is_read_is_forwarded(read: BridgeRead, action: BridgeAction)
    requires
        call_ensures(after_bridge_read, (read,), action),
    ensures
        action is Closed <==> read == BridgeRead::Read(0),
        action matches BridgeAction::Forward(count) ==> count > 0 && read == BridgeRead::Read(
            count,
        ),
        action is Wait <==> read is WouldBlock,
        action is Again <==> read is Failed,
{
}

/// A station beside a host has another link layer address than the host, another address, and one
/// that agrees with the host's in the prefix.
pub proof fn a_station_beside_a_host_is_checked(
    host: HostNetwork,
    mac: MacAddr,
    address: Ipv4Addr,
    result: Result<(), crate::common::Error>,
    bit: u32,
)
    requires
        call_ensures(HostNetwork::check_interface, (&host, mac, address), result),
        host.prefix <= 32,
    ensures
        mac == host.mac_host || address == host.ipv4_host ==> result is Err,
        result is Ok && 32 - host.prefix <= bit < 32 ==> (address.bits >> bit) & 1 == (
        host.ipv4_host.bits >> bit) & 1,
        result matches Err(error) ==> error@.0 == ErrorKind::InvalidInput,
{
    if result is Ok && 32 - host.prefix <= bit < 32 {
        super::stations::a_prefix_is_of_the_highest_bits(
            address,
            host.ipv4_host,
            host.prefix,
            bit,
        );
    }
}

/// A client that has not started yet looks for servers when its time has come: it sends what is
/// said of that to the servers, and then waits for offers under the number that it sent.
pub proof fn a_client_looks_for_servers_first(
    client: &mut ClientState,
    now: Instant,
    action: Action,
)
    requires
        call_ensures(ClientState::handle_tick, (client, now), action),
    ensures
        old(client).phase is Init ==> {
            &&& final(client).phase matches Phase::Selecting { transaction_id, started_at }
            &&& started_at == now
            &&& action matches Action::SendPacket(address, message)
            &&& address == server_address()
            &&& message@ == discover_message(transaction_id, old(client).mac_addr)
            &&& final(client).mac_addr == old(client).mac_addr
        },
        !(old(client).phase is Init) ==> action is Idle && *final(client) == *old(client),
{
}

/// A client starts within ten seconds, and not before one second has passed.
pub proof fn a_client_starts_within_ten_seconds(
    client: &mut ClientState,
    now: Instant,
    deadline: Option<Instant>,
)
    requires
        call_ensures(ClientState::deadline, (client, now), deadline),
        now.can_look_ahead(),
    ensures
        old(client).phase is Init <==> deadline is Some,
        deadline matches Some(time) ==> now.nanos + 1_000_000_000 <= time.nanos < now.nanos
            + 10_000_000_000,
        final(client).phase == old(client).phase,
{
}

/// Who waits goes on when something is ready, and otherwise sleeps, no longer than until its time
/// is over.
pub proof fn a_wait_ends_in_time(
    bits: Vec<ReadyBitFrozen>,
    deadline: Instant,
    now: Instant,
    step: PollStep,
    timed: PollStep,
)
    requires
        call_ensures(Poller::poll_step, (&bits,), step),
        call_ensures(Poller::poll_timeout_step, (&bits, deadline, now), timed),
    ensures
        step is Ready <==> any_slot_ready(bits@),
        step matches PollStep::Park(span) ==> span is None,
        !(step is Timeout),
        timed is Timeout <==> now.nanos >= deadline.nanos,
        now.nanos < deadline.nanos ==> (timed is Ready <==> any_slot_ready(bits@)),
        timed matches PollStep::Park(span) ==> (span matches Some(span) && now.nanos + span.nanos
            == deadline.nanos),
{
}

/// What can be received, sent and looked after is told beforehand.
pub proof fn what_can_be_done_is_told(
    ctx: InterfaceContext,
    managers: Managers,
    bytes: Bytes,
    stops: Vec<PingEntryKey>,
    clock: EchoMessageDataUnix,
    now: Instant,
    result: bool,
)
    ensures
        call_ensures(EthernetHandler::can_recv, (&ctx, &managers, &bytes, now), result) ==> result
            == frame_ok(ctx@, managers, bytes_contents(bytes), now),
        call_ensures(IPv4Handler::can_recv, (&ctx, &managers, &bytes, now), result) ==> result
            == ipv4_ok(ctx@, managers, bytes_contents(bytes), now),
        call_ensures(
            PingManager::can_perform_timers,
            (&managers.ping_manager, &ctx, &stops, clock, now),
            result,
        ) ==> result == timers_ok(ctx@, managers.ping_manager@, stops@, clock, now),
{
}

/// Open questions and sessions are looked after in time as is said of them.
pub proof fn what_is_due_is_done(
    ctx: &mut InterfaceContext,
    managers: &mut Managers,
    manager: &mut PingManager,
    stops: Vec<PingEntryKey>,
    clock: EchoMessageDataUnix,
    now: Instant,
    deadline: Option<Instant>,
)
    ensures
        call_ensures(EthernetHandler::perform_arp_timers, (ctx, managers, now), deadline)
            ==> exists|pending: Seq<(Ipv4Addr, Ipv4Addr)>|
            lists_pending(pending, old(ctx)@.arp) && #[trigger] arp_timers(
                old(ctx)@,
                old(managers).ping_manager@,
                pending,
                now,
            ) == (final(ctx)@, final(managers).ping_manager@, deadline),
        call_ensures(PingManager::perform_timers, (manager, ctx, &stops, clock, now), deadline)
            ==> exists|identifications: Seq<u16>| #[trigger]
            timers_performed(
                old(ctx)@,
                old(manager)@,
                stops@,
                clock,
                identifications,
                now,
            ) == (final(ctx)@, final(manager)@, deadline),
{
}

/// The questions that are listed as open are those that are, each once, with who asked.
pub proof fn open_questions_are_listed(
    table: ArpTable,
    list: Vec<(Ipv4Addr, Ipv4Addr)>,
    key: u32,
)
    requires
        call_ensures(ArpTable::pending, (&table,), list),
    ensures
        table@.contains_key(key) && table@[key] is Pending <==> exists|i: int|
            0 <= i < list@.len() && (#[trigger] list@[i]).0.bits == key,
        forall|i: int|
            0 <= i < list@.len() ==> table@[(#[trigger] list@[i]).0.bits]->source == list@[i].1,
        forall|i: int, j: int|
            0 <= i < j < list@.len() ==> (#[trigger] list@[i]).0 != (#[trigger] list@[j]).0,
{
}

/// A new interface has no addresses, no routes, no sessions and nothing to tell.
pub proof fn a_new_interface_is_empty(
    network_tx: NetworkSender,
    mtu: usize,
    mac: MacAddr,
    ephemeral_ports: (u16, u16),
    worker: InterfaceWorker,
)
    requires
        call_ensures(InterfaceWorker::new, (network_tx, mtu, mac, ephemeral_ports), worker),
    ensures
        worker@.context.mtu == mtu,
        worker@.context.mac == mac,
        worker@.context.sent == network_tx.queued(),
        worker@.context.addresses.len() == 0,
        worker@.context.routes.len() == 0,
        worker@.context.arp == Map::<u32, ArpTableEntry>::empty(),
        worker@.pending.len() == 0,
        worker@.ping.sessions.len() == 0,
        worker@.replies.len() == 0,
        worker.context.ephemeral_ports == ephemeral_ports,
{
}

/// How a socket is used is as it was set, and nothing else of it changes.
pub proof fn a_socket_is_used_as_it_was_set(
    socket: &mut UdpSocket,
    looked: UdpSocket,
    enabled: bool,
    address: SocketAddr,
    error: Error,
)
    ensures
        call_ensures(UdpSocket::set_nonblocking, (socket, enabled), ()) ==> {
            &&& final(socket).shared_state.is_nonblocking == enabled
            &&& final(socket).shared_state.allow_broadcast
                == old(socket).shared_state.allow_broadcast
            &&& final(socket).shared_state.send_result == old(socket).shared_state.send_result
            &&& final(socket).context == old(socket).context
        },
        call_ensures(UdpSocket::set_broadcast, (socket, enabled), ()) ==> {
            &&& final(socket).shared_state.allow_broadcast == enabled
            &&& final(socket).shared_state.is_nonblocking
                == old(socket).shared_state.is_nonblocking
            &&& final(socket).context == old(socket).context
        },
        call_ensures(UdpSocket::broadcast, (&looked,), enabled) ==> enabled
            == looked.shared_state.allow_broadcast,
        call_ensures(UdpSocket::local_addr, (&looked,), address) ==> address == looked.socket_addr,
        call_ensures(UdpSocket::no_room, (enabled,), error) ==> error@.0 == if enabled {
            ErrorKind::OutOfMemory
        } else {
            ErrorKind::WouldBlock
        },
{
}

/// The addresses on a network are those of its stations, in order, and then that of the bridge.
pub proof fn addresses_on_a_network_are_listed(
    network: Network,
    addresses: Vec<MacAddr>,
    index: int,
)
    requires
        call_ensures(Network::mac_addresses, (&network,), addresses),
        0 <= index < network@.len(),
    ensures
        addresses@.len() == network@.len() + 1,
        addresses@[index] == network@[index].mac,
        addresses@.last() == network.bridge_mac,
{
}

/// The lowest bit of a word is found, and a bit that is cleared is the only one that changes.
pub proof fn bits_are_found_and_cleared(
    word: u64,
    bit: usize,
    rest: u64,
    index: usize,
    position: (usize, u64),
    other: int,
)
    requires
        0 <= other < 64,
    ensures
        call_ensures(lowest_bit, (word,), bit) ==> (word >> (bit as u64)) & 1 == 1 && (other < bit
            ==> (word >> (other as u64)) & 1 != 1),
        call_ensures(clear_bit, (word, bit), rest) ==> ((rest >> (other as u64)) & 1 == 1 <==> (word
            >> (other as u64)) & 1 == 1 && other != bit),
        call_ensures(bit_position, (index,), position) ==> position.0 == index / 64 && ((position.1
            >> (other as u64)) & 1 == 1 <==> other == index % 64),
{
    assert(bit_set(word, other) == ((word >> (other as u64)) & 1 == 1));
    assert(bit_set(rest, other) == ((rest >> (other as u64)) & 1 == 1));
    assert(bit_set(position.1, other) == ((position.1 >> (other as u64)) & 1 == 1));
}

/// A packet and a frame are put on the network as is said of frames.
pub proof fn packets_are_put_on_the_network<P: WriteToBuffer>(
    ctx: &mut InterfaceContext,
    packet: P,
    destination: MacAddr,
    ether_type: EtherType,
    result: SendResult,
)
    ensures
        call_ensures(InterfaceContext::send::<P>, (ctx, &packet), result) ==> (
            final(ctx)@,
            result,
        ) == send_frame(old(ctx)@, packet.encoding()),
        call_ensures(EthernetHandler::send::<P>, (ctx, destination, ether_type, &packet), result)
            ==> (final(ctx)@, result) == send_frame(
            old(ctx)@,
            frame_of(old(ctx)@.mac, destination, ether_type, packet.encoding()),
        ),
{
}

/// An interface receives a frame as is said of frames, and keeps what it was asked for.
pub proof fn an_interface_receives_a_frame(
    worker: &mut InterfaceWorker,
    frame: Bytes,
    clock: EchoMessageDataUnix,
    now: Instant,
)
    requires
        call_ensures(InterfaceWorker::recv, (worker, &frame, clock, now), ()),
    ensures
        exists|identification: u16| #[trigger]
            frame_handled(
                (old(worker)@.context, old(worker).managers),
                (final(worker)@.context, final(worker).managers),
                bytes_contents(frame),
                clock,
                identification,
                now,
            ),
        final(worker)@.pending == old(worker)@.pending,
        final(worker)@.replies == old(worker)@.replies,
{
}

/// What is due at an interface is done as is said of it.
pub proof fn an_interface_does_what_is_due(
    worker: &mut InterfaceWorker,
    stops: Vec<PingEntryKey>,
    clock: EchoMessageDataUnix,
    now: Instant,
    deadline: Instant,
)
    requires
        call_ensures(InterfaceWorker::perform_timers, (worker, &stops, clock, now), deadline),
    ensures
        exists|questions: Seq<(Ipv4Addr, Ipv4Addr)>, identifications: Seq<u16>|
            lists_pending(questions, old(worker)@.context.arp) && #[trigger] all_timers(
                old(worker)@,
                stops@,
                clock,
                questions,
                identifications,
                now,
            ) == (final(worker)@.context, final(worker)@.ping, deadline),
        final(worker)@.pending == old(worker)@.pending,
        final(worker).managers.udp_manager == old(worker).managers.udp_manager,
{
}

/// Sockets that are ready are looked after in the order of their numbers, and a port that is drawn
/// is in the range and can be bound.
pub proof fn ready_sockets_are_looked_after(
    manager: &mut UdpManager,
    looked: UdpManager,
    ctx: &mut InterfaceContext,
    fixed: InterfaceContext,
    ready: [u64; 16],
    now: Instant,
    processed: Vec<Processed>,
    index: int,
    ip: IpAddr,
    drawn: Option<u16>,
)
    ensures
        call_ensures(UdpManager::process_buffers, (manager, ctx, ready, now), processed) && 0
            <= index < processed@.len() ==> processed@[index].addr == ready_addresses(
            old(manager).socket_ids@,
            ready@,
            1024,
        )[index],
        call_ensures(UdpManager::draw_port, (&looked, &fixed, ip), drawn) ==> (drawn matches Some(
            port,
        ) ==> fixed.ephemeral_ports.0 <= port < fixed.ephemeral_ports.1 && looked.can_bind(
            SocketAddr { ip, port },
        )),
{
}

/// A frame that is taken apart has its header and what stands behind it.
pub proof fn a_frame_is_taken_apart(bytes: &[u8], frame: Ethernet, text: String, mac: MacAddr)
    requires
        bytes@.len() >= 18,
    ensures
        call_ensures(Ethernet::from_bytes, (bytes,), frame) ==> {
            &&& frame.destination_address == super::wire::six(bytes@, 0)
            &&& frame.source_address == super::wire::six(bytes@, 6)
            &&& frame.payload@ == super::receiving::carried_by(bytes@)
            &&& frame.ether_type == EtherType::IPv4 <==> super::receiving::carries(bytes@, 0x0800)
            &&& frame.ether_type == EtherType::ARP <==> super::receiving::carries(bytes@, 0x0806)
        },
        call_ensures(MacAddr::to_text, (&mac,), text) ==> text@ == mac_text(mac.spec_octets()),
{
    super::wire::a_frame_is_read_from_its_places(bytes@);
}

} // verus!
