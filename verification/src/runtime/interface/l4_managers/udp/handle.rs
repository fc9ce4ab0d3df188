//! The interface's end of a socket.

use super::messages::{
    spec_stored, DrainSendAction, MessageRing, RecvRing, SendMessageView, SharableUdpSendResult,
    UdpConnectError, UdpConnectResult, UdpSendError, UdpSendMessage, UdpSendResult,
};
use crate::buffer::{as_slice, bytes_contents};
use crate::net::{IpAddr, Ipv4Addr, SocketAddr};
use crate::protocols::ipv4::IPProtocolTypes;
use crate::protocols::udp::UdpHeader;
use crate::random::u16_between;
use crate::runtime::interface::context::{ContextView, InterfaceContext};
use crate::runtime::interface::l3_ipv4::{
    identifications_drawn, outgoing_sent, route_is_told, route_to, sendable, IPv4Handler, Outgoing,
};
use crate::runtime::interface::{SendError, SendResult};
use crate::runtime::route_table::RouteInformation;
use crate::time::Instant;
use crate::write_to_buffer::WriteToBuffer;
use bytes::Bytes;
use vstd::prelude::*;

verus! {

/// What a socket and its interface both see.
#[derive(Debug, PartialEq, Eq, Clone, Copy, Structural)]
pub struct UdpSocketSharedState {
    /// What came of the last datagram.
    pub send_result: SharableUdpSendResult,
    /// The peer, if there is one.
    pub connected_to: Option<SocketAddr>,
    /// Whether the socket does not wait.
    pub is_nonblocking: bool,
    /// Whether the socket may send to broadcast addresses.
    pub allow_broadcast: bool,
    /// The longest payload that the socket may send.
    pub max_payload_size: usize,
}

/// What an interface knows of a socket.
#[derive(Debug, PartialEq, Eq, Clone, Copy, Structural)]
pub struct SocketState {
    pub local_addr: SocketAddr,
    /// The only address from which datagrams are accepted, if there is one.
    pub peer_addr: Option<SocketAddr>,
    pub shared_state: UdpSocketSharedState,
    /// Whether somebody is to be woken when there is something to read.
    pub read_wake: bool,
    /// Whether somebody is to be woken when there is room to write.
    pub write_wake: bool,
    /// Whether others may have the same address.
    pub allow_reuse: bool,
}

/// Whether a route leads to an address.
pub open spec fn reachable(routes: Seq<RouteInformation<Ipv4Addr>>, addr: SocketAddr) -> bool {
    addr.ip matches IpAddr::V4(ip) && route_to(routes, ip) is Some
}

/// Whether the address at an index is the first one to which a route leads.
pub open spec fn first_reachable(
    routes: Seq<RouteInformation<Ipv4Addr>>,
    potentials: Seq<SocketAddr>,
    index: int,
) -> bool {
    &&& 0 <= index < potentials.len()
    &&& reachable(routes, potentials[index])
    &&& forall|i: int| 0 <= i < index ==> !reachable(routes, #[trigger] potentials[i])
}

/// Why none of some addresses can be a peer: what is wrong with the last of them.
pub open spec fn connect_error(potentials: Seq<SocketAddr>) -> UdpConnectError {
    if potentials.len() == 0 {
        UdpConnectError::NoAddress
    } else if potentials.last().ip is V4 {
        UdpConnectError::NoRouteToHost
    } else {
        UdpConnectError::InvalidAddress
    }
}

/// The state of a socket after it got a peer.
pub open spec fn connected(state: SocketState, peer: SocketAddr) -> SocketState {
    SocketState {
        peer_addr: Some(peer),
        shared_state: UdpSocketSharedState { connected_to: Some(peer), ..state.shared_state },
        ..state
    }
}

/// The address from which a datagram is sent: the socket's own, or that of the route where the
/// socket has none.
pub open spec fn udp_source(
    routes: Seq<RouteInformation<Ipv4Addr>>,
    local: Ipv4Addr,
    destination: Ipv4Addr,
) -> Option<Ipv4Addr> {
    if local != Ipv4Addr::unspecified() {
        Some(local)
    } else {
        match route_to(routes, destination) {
            Some(route) => Some(route.source),
            None => None,
        }
    }
}

/// The header of a datagram, with its checksum.
pub open spec fn udp_header(
    source: Ipv4Addr,
    source_port: u16,
    destination: Ipv4Addr,
    destination_port: u16,
    payload: Seq<u8>,
) -> UdpHeader {
    let header = UdpHeader {
        source_port,
        destination_port,
        length: (payload.len() + 8) as u16,
        checksum: [0u8, 0u8],
    };
    UdpHeader { checksum: header.checksum_v4(source, destination, payload), ..header }
}

/// A datagram as it is handed to the internet layer.
pub open spec fn udp_outgoing(
    source: Ipv4Addr,
    source_port: u16,
    destination: Ipv4Addr,
    destination_port: u16,
    payload: Seq<u8>,
    identification: u16,
) -> Outgoing {
    Outgoing {
        destination,
        source,
        protocol: IPProtocolTypes::UDP,
        length: payload.len() + 8,
        payload: udp_header(
            source,
            source_port,
            destination,
            destination_port,
            payload,
        ).encoding() + payload,
        identification,
    }
}

/// What comes of sending a datagram.
pub open spec fn udp_sent(
    context: ContextView,
    source: (Ipv4Addr, u16),
    destination: (Ipv4Addr, u16),
    payload: Seq<u8>,
    identification: u16,
    now: Instant,
) -> (ContextView, SendResult) {
    match udp_source(context.routes, source.0, destination.0) {
        None => (context, Err(SendError::NoRouteToHost)),
        Some(address) => outgoing_sent(
            context,
            udp_outgoing(
                address,
                source.1,
                destination.0,
                destination.1,
                payload,
                identification,
            ),
            now,
        ),
    }
}

/// Whether a datagram has a length that its header can say, and fits in a frame where it is sent
/// at once.
pub open spec fn udp_sendable(
    context: ContextView,
    source: (Ipv4Addr, u16),
    destination: (Ipv4Addr, u16),
    payload: Seq<u8>,
    now: Instant,
) -> bool {
    &&& payload.len() + 8 <= u16::MAX
    &&& udp_source(context.routes, source.0, destination.0) matches Some(address) ==> sendable(
        context,
        udp_outgoing(address, source.1, destination.0, destination.1, payload, 0),
        now,
    )
}

/// Why a socket could not send a datagram.
pub open spec fn udp_error(error: SendError) -> UdpSendError {
    match error {
        SendError::PayloadTooLarge { .. } => UdpSendError::PayloadTooLarge,
        SendError::BufferFull | SendError::PayloadTooShort => UdpSendError::Other,
        SendError::NoRouteToHost => UdpSendError::NetworkUnreachable,
        SendError::ArpResolveBufferFull | SendError::ArpTimeout => UdpSendError::HostUnreachable,
    }
}

/// What comes of a datagram that a socket sends. One to an address of the other family is dropped
/// without a word. Where it is too long for the interface, the socket learns how long it may be.
pub open spec fn datagram_sent(
    context: ContextView,
    state: SocketState,
    destination: SocketAddr,
    payload: Seq<u8>,
    identification: u16,
    now: Instant,
) -> (ContextView, SocketState, UdpSendResult) {
    match (state.local_addr.ip, destination.ip) {
        (IpAddr::V4(source), IpAddr::V4(target)) => {
            let (after, result) = udp_sent(
                context,
                (source, state.local_addr.port),
                (target, destination.port),
                payload,
                identification,
                now,
            );
            match result {
                Ok(_) => (after, state, Ok(())),
                Err(error) => (
                    after,
                    match error {
                        SendError::PayloadTooLarge { max_size } => SocketState {
                            shared_state: UdpSocketSharedState {
                                max_payload_size: (max_size - 8) as usize,
                                ..state.shared_state
                            },
                            ..state
                        },
                        _ => state,
                    },
                    Err(udp_error(error)),
                ),
            }
        },
        _ => (context, state, Ok(())),
    }
}

/// Whether a datagram is one that a socket can be asked to send.
pub open spec fn datagram_sendable(
    context: ContextView,
    state: SocketState,
    destination: SocketAddr,
    payload: Seq<u8>,
    now: Instant,
) -> bool {
    match (state.local_addr.ip, destination.ip) {
        (IpAddr::V4(source), IpAddr::V4(target)) => udp_sendable(
            context,
            (source, state.local_addr.port),
            (target, destination.port),
            payload,
            now,
        ),
        // There is no IPv6 yet.
        (IpAddr::V6(_), IpAddr::V6(_)) => false,
        _ => true,
    }
}

/// What is to be done after a message of a socket was handled.
#[derive(Debug, PartialEq, Eq, Clone, Copy, Structural)]
pub enum MessageAction {
    NoAction,
    /// Wake whoever waits for something to read.
    WakeReader,
    /// Wake whoever waits for room to write.
    WakeWriter,
    /// Wake the sender of the datagram.
    WakeSender,
    /// Tell the socket that it has a peer.
    Connected,
    /// Tell the socket why it has no peer.
    ConnectFailed(UdpConnectError),
    /// Remove the socket.
    Remove,
}

/// The state of a socket after what came of a datagram was recorded.
pub open spec fn recorded(state: SocketState, result: UdpSendResult) -> SocketState {
    SocketState {
        shared_state: UdpSocketSharedState {
            send_result: spec_stored(result),
            ..state.shared_state
        },
        ..state
    }
}

/// Whether a message is one that can be handled.
pub open spec fn message_ok(
    context: ContextView,
    state: SocketState,
    message: SendMessageView,
    now: Instant,
) -> bool {
    match message {
        SendMessageView::NonBlocking { destination, payload } => datagram_sendable(
            context,
            state,
            destination,
            payload,
            now,
        ),
        SendMessageView::Blocking { destination, payload } => datagram_sendable(
            context,
            state,
            destination,
            payload,
            now,
        ),
        _ => true,
    }
}

/// What comes of a message of a socket. `unread` says whether datagrams wait to be read, `full`
/// whether there is no room for more messages.
pub open spec fn message_handled(
    context: ContextView,
    state: SocketState,
    message: SendMessageView,
    unread: bool,
    full: bool,
    identification: u16,
    now: Instant,
) -> (ContextView, SocketState, MessageAction) {
    match message {
        SendMessageView::NonBlocking { destination, payload } => {
            let (after, sent, result) = datagram_sent(
                context,
                state,
                destination,
                payload,
                identification,
                now,
            );
            // That a datagram was dropped is not told.
            let told = match result {
                Err(UdpSendError::NetworkUnreachable) | Err(UdpSendError::HostUnreachable) =>
                    recorded(sent, result),
                _ => sent,
            };
            (
                after,
                told,
                if !full && state.write_wake {
                    MessageAction::WakeWriter
                } else {
                    MessageAction::NoAction
                },
            )
        },
        SendMessageView::Blocking { destination, payload } => {
            let (after, sent, result) = datagram_sent(
                context,
                state,
                destination,
                payload,
                identification,
                now,
            );
            (after, recorded(sent, result), MessageAction::WakeSender)
        },
        SendMessageView::UpdateReadWakeHandle => (
            context,
            SocketState { read_wake: true, ..state },
            if unread {
                MessageAction::WakeReader
            } else {
                MessageAction::NoAction
            },
        ),
        SendMessageView::UpdateWriteWakeHandle => (
            context,
            SocketState { write_wake: true, ..state },
            if !full {
                MessageAction::WakeWriter
            } else {
                MessageAction::NoAction
            },
        ),
        SendMessageView::Connect(potentials) => if exists|i: int| #[trigger]
            first_reachable(context.routes, potentials, i) {
            let i = choose|i: int| #[trigger] first_reachable(context.routes, potentials, i);
            (context, connected(state, potentials[i]), MessageAction::Connected)
        } else {
            (context, state, MessageAction::ConnectFailed(connect_error(potentials)))
        },
        SendMessageView::Drop => (context, state, MessageAction::Remove),
    }
}

/// What comes of a message of a socket. Nothing does of one that cannot be handled.
#[verifier::opaque]
pub open spec fn message_step(
    context: ContextView,
    state: SocketState,
    message: SendMessageView,
    unread: bool,
    full: bool,
    identification: u16,
    now: Instant,
) -> (ContextView, SocketState, Option<MessageAction>) {
    if message_ok(context, state, message, now) {
        let (after, handled, action) = message_handled(
            context,
            state,
            message,
            unread,
            full,
            identification,
            now,
        );
        (after, handled, Some(action))
    } else {
        (context, state, None)
    }
}

/// What comes of the messages of a socket.
#[verifier::ext_equal]
pub struct DrainView {
    pub context: ContextView,
    pub state: SocketState,
    /// What is to be done, in order.
    pub actions: Seq<MessageAction>,
    /// How many messages were taken.
    pub taken: nat,
    pub end: DrainSendAction,
}

impl DrainView {
    /// What comes of one more message, after `taken` were taken. It is not looked at once there is
    /// an end.
    pub open spec fn next(
        self,
        message: SendMessageView,
        unread: bool,
        full: bool,
        identification: u16,
        now: Instant,
    ) -> DrainView {
        if self.end != DrainSendAction::NoAction {
            self
        } else {
            let (context, state, action) = message_step(
                self.context,
                self.state,
                message,
                unread,
                full,
                identification,
                now,
            );
            match action {
                None => DrainView {
                    context,
                    state,
                    taken: self.taken + 1,
                    end: DrainSendAction::Unsendable,
                    ..self
                },
                Some(action) => DrainView {
                    context,
                    state,
                    actions: self.actions.push(action),
                    taken: self.taken + 1,
                    end: if action is Remove {
                        DrainSendAction::Remove
                    } else {
                        DrainSendAction::NoAction
                    },
                },
            }
        }
    }
}

/// What comes of messages, the oldest first. `total` says how many there were when the first was
/// taken, `capacity` how many there can be.
pub open spec fn drained(
    start: DrainView,
    messages: Seq<SendMessageView>,
    unread: bool,
    total: nat,
    capacity: nat,
    identifications: Seq<u16>,
    now: Instant,
) -> DrainView
    decreases messages.len(),
{
    if messages.len() == 0 {
        start
    } else {
        drained(
            start,
            messages.drop_last(),
            unread,
            total,
            capacity,
            identifications.drop_last(),
            now,
        ).next(
            messages.last(),
            unread,
            total - messages.len() >= capacity,
            identifications.last(),
            now,
        )
    }
}

/// Each message is taken once, and comes to one thing to be done, except for one that cannot be
/// handled. Only an end leaves messages behind.
pub proof fn each_message_is_handled_once(
    start: DrainView,
    messages: Seq<SendMessageView>,
    unread: bool,
    total: nat,
    capacity: nat,
    identifications: Seq<u16>,
    now: Instant,
)
    requires
        start.end == DrainSendAction::NoAction,
    ensures
        ({
            let came = drained(start, messages, unread, total, capacity, identifications, now);
            let taken = came.taken - start.taken;
            &&& 0 <= taken <= messages.len()
            &&& came.end is NoAction ==> taken == messages.len()
            &&& came.actions.len() - start.actions.len() == (if came.end is Unsendable {
                taken - 1
            } else {
                taken
            })
        }),
    decreases messages.len(),
{
    if messages.len() > 0 {
        each_message_is_handled_once(
            start,
            messages.drop_last(),
            unread,
            total,
            capacity,
            identifications.drop_last(),
            now,
        );
    }
}

/// Whether all messages of a socket were handled, the oldest first and up to an end, with the given
/// identifications.
pub open spec fn drained_with(
    before: (ContextView, UdpSocketHandle),
    after: (ContextView, UdpSocketHandle),
    actions: Seq<MessageAction>,
    end: DrainSendAction,
    identifications: Seq<u16>,
    now: Instant,
) -> bool {
    let messages = before.1.send.queued();
    let came = drained(
        DrainView {
            context: before.0,
            state: before.1.state,
            actions: Seq::empty(),
            taken: 0,
            end: DrainSendAction::NoAction,
        },
        messages.take(identifications.len() as int),
        before.1.recv.queued().len() > 0,
        messages.len(),
        before.1.send.capacity(),
        identifications,
        now,
    );
    &&& identifications_drawn(identifications, identifications.len())
    &&& identifications.len() <= messages.len()
    &&& end is NoAction ==> identifications.len() == messages.len()
    &&& came.context == after.0
    &&& came.state == after.1.state
    &&& came.actions == actions
    &&& came.end == end
    &&& after.1.send.queued() == messages.skip(came.taken as int)
}

/// Whether all messages of a socket were handled, the oldest first and up to an end. The
/// identifications of the datagrams are left to chance.
pub open spec fn socket_drained(
    before: (ContextView, UdpSocketHandle),
    after: (ContextView, UdpSocketHandle),
    actions: Seq<MessageAction>,
    end: DrainSendAction,
    now: Instant,
) -> bool {
    &&& after.1.recv == before.1.recv
    &&& after.1.send.capacity() == before.1.send.capacity()
    &&& exists|identifications: Seq<u16>| #[trigger]
        drained_with(before, after, actions, end, identifications, now)
}

/// The interface's end of a socket.
pub struct UdpSocketHandle {
    /// The datagrams that wait to be read.
    pub recv: RecvRing,
    /// What the socket told.
    pub send: MessageRing,
    pub state: SocketState,
}

impl UdpSocketHandle {
    /// What an interface knows of a new socket.
    pub open spec fn initial(local_addr: SocketAddr, max_payload_size: usize) -> SocketState {
        SocketState {
            local_addr,
            peer_addr: None,
            shared_state: UdpSocketSharedState {
                send_result: SharableUdpSendResult { state: 0 },
                connected_to: None,
                is_nonblocking: false,
                allow_broadcast: false,
                max_payload_size,
            },
            read_wake: false,
            write_wake: false,
            allow_reuse: false,
        }
    }

    /// The interface's end of a new socket for which nothing waits.
    pub fn new(
        recv: RecvRing,
        send: MessageRing,
        local_addr: SocketAddr,
        max_payload_size: usize,
    ) -> (handle: Self)
        ensures
            handle.recv == recv,
            handle.send == send,
            handle.state == Self::initial(local_addr, max_payload_size),
    {
        UdpSocketHandle {
            recv,
            send,
            state: SocketState {
                local_addr,
                peer_addr: None,
                shared_state: UdpSocketSharedState {
                    send_result: SharableUdpSendResult::new(),
                    connected_to: None,
                    is_nonblocking: false,
                    allow_broadcast: false,
                    max_payload_size,
                },
                read_wake: false,
                write_wake: false,
                allow_reuse: false,
            },
        }
    }

    /// Makes the first of some addresses to which a route leads the peer.
    pub fn connect(&mut self, ctx: &InterfaceContext, potentials: &Vec<SocketAddr>) -> (result:
        UdpConnectResult)
        requires
            ctx.wf(),
        ensures
            final(self).recv == old(self).recv,
            final(self).send == old(self).send,
            match result {
                Ok(_) => exists|i: int| #[trigger]
                    first_reachable(ctx@.routes, potentials@, i) && final(self).state == connected(
                        old(self).state,
                        potentials@[i],
                    ),
                Err(error) => {
                    &&& forall|i: int| !first_reachable(ctx@.routes, potentials@, i)
                    &&& error == connect_error(potentials@)
                    &&& final(self).state == old(self).state
                },
            },
    {
        let mut error = UdpConnectError::NoAddress;
        let mut i: usize = 0;
        while i < potentials.len()
            invariant
                i <= potentials@.len(),
                ctx.wf(),
                *self == *old(self),
                forall|j: int| 0 <= j < i ==> !reachable(ctx@.routes, #[trigger] potentials@[j]),
                error == connect_error(potentials@.take(i as int)),
            decreases potentials@.len() - i,
        {
            let potential = potentials[i];
            match potential.ip {
                IpAddr::V4(ip) => {
                    let route = ctx.ipv4_route_table.lookup(&ip);
                    proof {
                        if let Some(route) = route {
                            route_is_told(ctx@.routes, ip, *route);
                        }
                    }
                    if route.is_some() {
                        assert(first_reachable(ctx@.routes, potentials@, i as int));
                        self.state.peer_addr = Some(potential);
                        self.state.shared_state.connected_to = Some(potential);
                        return Ok(());
                    }
                    assert(!reachable(ctx@.routes, potential));
                    error = UdpConnectError::NoRouteToHost;
                },
                IpAddr::V6(_) => {
                    error = UdpConnectError::InvalidAddress;
                },
            }
            assert(potentials@.take(i + 1).last() == potential);
            i = i + 1;
        }
        assert(potentials@.take(i as int) =~= potentials@);
        Err(error)
    }

    /// Sends a datagram.
    pub fn send_ipv4(
        ctx: &mut InterfaceContext,
        source: (Ipv4Addr, u16),
        destination: (Ipv4Addr, u16),
        payload: Bytes,
        identification: u16,
        now: Instant,
    ) -> (result: SendResult)
        requires
            old(ctx).wf(),
            now.can_look_ahead(),
            udp_sendable(old(ctx)@, source, destination, bytes_contents(payload), now),
        ensures
            final(ctx).wf(),
            final(ctx).same_setup(*old(ctx)),
            (final(ctx)@, result) == udp_sent(
                old(ctx)@,
                source,
                destination,
                bytes_contents(payload),
                identification,
                now,
            ),
    {
        let source_ip = if source.0.is_unspecified() {
            match ctx.ipv4_route_table.lookup(&destination.0) {
                Some(route) => {
                    proof {
                        route_is_told(ctx@.routes, destination.0, *route);
                    }
                    route.source
                },
                None => {
                    return Err(SendError::NoRouteToHost);
                },
            }
        } else {
            source.0
        };
        let slice = as_slice(&payload);
        let mut header = UdpHeader::new(source.1, destination.1, slice.len() as u16);
        header.compute_and_update_checksum_v4(&source_ip, &destination.0, slice);
        let packet = (header, payload);
        assert(packet.encoding() =~= udp_outgoing(
            source_ip,
            source.1,
            destination.0,
            destination.1,
            bytes_contents(payload),
            identification,
        ).payload);
        proof {
            crate::protocols::udp::udp_round_trip(header, Seq::empty());
        }
        IPv4Handler::send_identified(
            ctx,
            destination.0,
            source_ip,
            IPProtocolTypes::UDP,
            &packet,
            identification,
            now,
        )
    }

    /// Sends a datagram of the socket.
    pub fn send_datagram(
        &mut self,
        ctx: &mut InterfaceContext,
        destination: SocketAddr,
        payload: Bytes,
        identification: u16,
        now: Instant,
    ) -> (result: UdpSendResult)
        requires
            old(ctx).wf(),
            now.can_look_ahead(),
            datagram_sendable(
                old(ctx)@,
                old(self).state,
                destination,
                bytes_contents(payload),
                now,
            ),
        ensures
            final(ctx).wf(),
            final(ctx).same_setup(*old(ctx)),
            final(self).recv == old(self).recv,
            final(self).send == old(self).send,
            (final(ctx)@, final(self).state, result) == datagram_sent(
                old(ctx)@,
                old(self).state,
                destination,
                bytes_contents(payload),
                identification,
                now,
            ),
    {
        let result = match (self.state.local_addr.ip, destination.ip) {
            (IpAddr::V4(source), IpAddr::V4(target)) => Self::send_ipv4(
                ctx,
                (source, self.state.local_addr.port),
                (target, destination.port),
                payload,
                identification,
                now,
            ),
            _ => Ok(()),
        };
        match result {
            Ok(_) => Ok(()),
            Err(SendError::PayloadTooLarge { max_size }) => {
                self.state.shared_state.max_payload_size = max_size - UdpHeader::LENGTH;
                Err(UdpSendError::PayloadTooLarge)
            },
            Err(SendError::BufferFull) => Err(UdpSendError::Other),
            Err(SendError::PayloadTooShort) => Err(UdpSendError::Other),
            Err(SendError::NoRouteToHost) => Err(UdpSendError::NetworkUnreachable),
            Err(SendError::ArpResolveBufferFull) => Err(UdpSendError::HostUnreachable),
            Err(SendError::ArpTimeout) => Err(UdpSendError::HostUnreachable),
        }
    }

    /// Whether a datagram is one that the socket can be asked to send.
    fn can_send(
        &self,
        ctx: &InterfaceContext,
        destination: SocketAddr,
        payload: &Bytes,
        now: Instant,
    ) -> (result: bool)
        requires
            ctx.wf(),
        ensures
            result == datagram_sendable(
                ctx@,
                self.state,
                destination,
                bytes_contents(*payload),
                now,
            ),
    {
        match (self.state.local_addr.ip, destination.ip) {
            (IpAddr::V4(source), IpAddr::V4(target)) => {
                let length: usize = as_slice(payload).len();
                if length > 65527 {
                    return false;
                }
                let result: bool = IPv4Handler::can_send(ctx, target, length + 8, length + 8, now);
                let route = ctx.ipv4_route_table.lookup(&target);
                proof {
                    if let Some(route) = route {
                        route_is_told(ctx@.routes, target, *route);
                    }
                    if let Some(address) = udp_source(ctx@.routes, source, target) {
                        let outgoing = udp_outgoing(
                            address,
                            self.state.local_addr.port,
                            target,
                            destination.port,
                            bytes_contents(*payload),
                            0,
                        );
                        crate::protocols::udp::udp_round_trip(
                            udp_header(
                                address,
                                self.state.local_addr.port,
                                target,
                                destination.port,
                                bytes_contents(*payload),
                            ),
                            Seq::empty(),
                        );
                        assert(outgoing.payload.len() == length + 8);
                        assert(result == sendable(ctx@, outgoing, now));
                    }
                }
                result || (source.is_unspecified() && route.is_none())
            },
            (IpAddr::V6(_), IpAddr::V6(_)) => false,
            _ => true,
        }
    }

    /// Whether a message is one that can be handled.
    pub fn can_handle(&self, ctx: &InterfaceContext, message: &UdpSendMessage, now: Instant) -> (result:
        bool)
        requires
            ctx.wf(),
        ensures
            result == message_ok(ctx@, self.state, message@, now),
    {
        match message {
            UdpSendMessage::NonBlocking { destination, payload } => self.can_send(
                ctx,
                *destination,
                payload,
                now,
            ),
            UdpSendMessage::Blocking { destination, payload } => self.can_send(
                ctx,
                *destination,
                payload,
                now,
            ),
            _ => true,
        }
    }

    /// Handles a message of the socket. `full` says whether there is no room for more messages,
    /// `identification` tells the datagram that is sent, if any, from others.
    pub fn handle_message(
        &mut self,
        ctx: &mut InterfaceContext,
        message: UdpSendMessage,
        full: bool,
        identification: u16,
        now: Instant,
    ) -> (action: MessageAction)
        requires
            old(ctx).wf(),
            now.can_look_ahead(),
            message_ok(old(ctx)@, old(self).state, message@, now),
        ensures
            final(ctx).wf(),
            final(ctx).same_setup(*old(ctx)),
            final(self).recv == old(self).recv,
            final(self).send == old(self).send,
            (final(ctx)@, final(self).state, action) == message_handled(
                old(ctx)@,
                old(self).state,
                message@,
                old(self).recv.queued().len() > 0,
                full,
                identification,
                now,
            ),
    {
        match message {
            UdpSendMessage::NonBlocking { destination, payload } => {
                let result = self.send_datagram(ctx, destination, payload, identification, now);
                // That a datagram was dropped is not told.
                if matches!(
                    result,
                    Err(UdpSendError::NetworkUnreachable) | Err(UdpSendError::HostUnreachable)
                ) {
                    self.state.shared_state.send_result.store(result);
                }
                if !full && self.state.write_wake {
                    MessageAction::WakeWriter
                } else {
                    MessageAction::NoAction
                }
            },
            UdpSendMessage::Blocking { destination, payload } => {
                let result = self.send_datagram(ctx, destination, payload, identification, now);
                self.state.shared_state.send_result.store(result);
                MessageAction::WakeSender
            },
            UdpSendMessage::UpdateReadWakeHandle => {
                self.state.read_wake = true;
                if !self.recv.is_empty() {
                    MessageAction::WakeReader
                } else {
                    MessageAction::NoAction
                }
            },
            UdpSendMessage::UpdateWriteWakeHandle => {
                self.state.write_wake = true;
                if !full {
                    MessageAction::WakeWriter
                } else {
                    MessageAction::NoAction
                }
            },
            UdpSendMessage::Connect(potentials) => {
                match self.connect(ctx, &potentials) {
                    Ok(_) => {
                        proof {
                            first_reachable_is_told(ctx@.routes, potentials@);
                        }
                        MessageAction::Connected
                    },
                    Err(error) => MessageAction::ConnectFailed(error),
                }
            },
            UdpSendMessage::Drop => MessageAction::Remove,
        }
    }

    /// Handles a message of the socket, unless it is one that cannot be handled.
    fn try_handle(
        &mut self,
        ctx: &mut InterfaceContext,
        message: UdpSendMessage,
        identification: u16,
        now: Instant,
    ) -> (action: Option<MessageAction>)
        requires
            old(ctx).wf(),
            now.can_look_ahead(),
        ensures
            final(ctx).wf(),
            final(ctx).same_setup(*old(ctx)),
            final(self).recv == old(self).recv,
            final(self).send == old(self).send,
            (final(ctx)@, final(self).state, action) == message_step(
                old(ctx)@,
                old(self).state,
                message@,
                old(self).recv.queued().len() > 0,
                old(self).send.queued().len() >= old(self).send.capacity(),
                identification,
                now,
            ),
    {
        reveal(message_step);
        if !self.can_handle(ctx, &message, now) {
            return None;
        }
        let full: bool = self.send.is_full();
        Some(self.handle_message(ctx, message, full, identification, now))
    }

    /// Handles the messages of the socket, the oldest first, up to one that says that the socket is
    /// gone or one that cannot be handled. Returns what is to be done, in order, and what the end
    /// was.
    pub fn drain_send(&mut self, ctx: &mut InterfaceContext, now: Instant) -> (drained: (
        Vec<MessageAction>,
        DrainSendAction,
    ))
        requires
            old(ctx).wf(),
            now.can_look_ahead(),
        ensures
            final(ctx).wf(),
            final(ctx).same_setup(*old(ctx)),
            socket_drained(
                (old(ctx)@, *old(self)),
                (final(ctx)@, *final(self)),
                drained.0@,
                drained.1,
                now,
            ),
    {
        let ghost messages = self.send.queued();
        let ghost unread = self.recv.queued().len() > 0;
        let ghost start = DrainView {
            context: ctx@,
            state: self.state,
            actions: Seq::empty(),
            taken: 0,
            end: DrainSendAction::NoAction,
        };
        let ghost mut identifications: Seq<u16> = Seq::empty();
        let mut actions: Vec<MessageAction> = Vec::new();
        assert(messages.skip(0) =~= messages);
        assert(messages.take(0) =~= Seq::empty());
        loop
            invariant
                ctx.wf(),
                ctx.same_setup(*old(ctx)),
                now.can_look_ahead(),
                messages == old(self).send.queued(),
                unread == (old(self).recv.queued().len() > 0),
                start.context == old(ctx)@,
                start.state == old(self).state,
                start.actions == Seq::<MessageAction>::empty(),
                start.taken == 0,
                start.end == DrainSendAction::NoAction,
                self.recv == old(self).recv,
                self.send.capacity() == old(self).send.capacity(),
                identifications_drawn(identifications, identifications.len()),
                identifications.len() <= messages.len(),
                self.send.queued() == messages.skip(identifications.len() as int),
                drained(
                    start,
                    messages.take(identifications.len() as int),
                    unread,
                    messages.len(),
                    old(self).send.capacity(),
                    identifications,
                    now,
                ) == (DrainView {
                    context: ctx@,
                    state: self.state,
                    actions: actions@,
                    taken: identifications.len(),
                    end: DrainSendAction::NoAction,
                }),
            decreases self.send.queued().len(),
        {
            let ghost count = identifications.len() as int;
            let message = match self.send.try_pop() {
                Some(message) => message,
                None => {
                    proof {
                        assert(drained_with(
                            (old(ctx)@, *old(self)),
                            (ctx@, *self),
                            actions@,
                            DrainSendAction::NoAction,
                            identifications,
                            now,
                        ));
                    }
                    return (actions, DrainSendAction::NoAction);
                },
            };
            let identification: u16 = u16_between(0, u16::MAX - 1);
            proof {
                assert(messages.skip(count)[0] == messages[count]);
                assert(messages.skip(count).skip(1) =~= messages.skip(count + 1));
                assert(messages.take(count + 1).drop_last() =~= messages.take(count));
                assert(identifications.push(identification).drop_last() =~= identifications);
                identifications = identifications.push(identification);
            }
            let handled = self.try_handle(ctx, message, identification, now);
            let end = match handled {
                None => DrainSendAction::Unsendable,
                Some(action) => {
                    actions.push(action);
                    if action == MessageAction::Remove {
                        DrainSendAction::Remove
                    } else {
                        DrainSendAction::NoAction
                    }
                },
            };
            if end != DrainSendAction::NoAction {
                proof {
                    assert(drained_with(
                        (old(ctx)@, *old(self)),
                        (ctx@, *self),
                        actions@,
                        end,
                        identifications,
                        now,
                    ));
                }
                return (actions, end);
            }
        }
    }
}

/// There is one first address to which a route leads at most.
proof fn first_reachable_is_told(
    routes: Seq<RouteInformation<Ipv4Addr>>,
    potentials: Seq<SocketAddr>,
)
    ensures
        forall|i: int, j: int|
            #![trigger first_reachable(routes, potentials, i), first_reachable(routes, potentials, j)]
            first_reachable(routes, potentials, i) && first_reachable(routes, potentials, j) ==> i
                == j,
{
    assert forall|i: int, j: int|
        #![trigger first_reachable(routes, potentials, i), first_reachable(routes, potentials, j)]
        first_reachable(routes, potentials, i) && first_reachable(
            routes,
            potentials,
            j,
        ) implies i == j by {
        if i < j {
            assert(!reachable(routes, potentials[i]));
        }
        if j < i {
            assert(!reachable(routes, potentials[j]));
        }
    }
}

/// A datagram that is received by the one to whom it was sent has a header that says so, and a
/// checksum that is right.
pub proof fn sent_datagram_is_valid(
    source: (Ipv4Addr, u16),
    destination: (Ipv4Addr, u16),
    payload: Seq<u8>,
    identification: u16,
)
    requires
        payload.len() + 8 <= u16::MAX,
    ensures
        ({
            let sent = udp_outgoing(
                source.0,
                source.1,
                destination.0,
                destination.1,
                payload,
                identification,
            ).payload;
            let header = udp_header(source.0, source.1, destination.0, destination.1, payload);
            &&& crate::protocols::udp::parse_udp(sent) == Ok::<
                UdpHeader,
                (crate::common::ErrorKind, Seq<char>),
            >(header)
            &&& header.source_port == source.1
            &&& header.destination_port == destination.1
            &&& header.length == sent.len()
            &&& sent.subrange(8, header.length as int) == payload
            &&& header.checksum == header.checksum_v4(source.0, destination.0, payload)
        }),
{
    let header = udp_header(source.0, source.1, destination.0, destination.1, payload);
    crate::protocols::udp::udp_round_trip(header, payload);
    assert((header.encoding() + payload).subrange(8, header.length as int) =~= payload);
}

} // verus!
