//! What sockets send, receive and report.

use super::datagrams::{a_sent_datagram_has_its_ports, adds_up, with_ends};
use super::receiving::hears;
use super::sending::{is_taken, leads_to, the_longest_mask_is_taken};
use super::wire::two;
use crate::common::{Error, ErrorKind};
use crate::net::{Ipv4Addr, SocketAddr};
use crate::protocols::ipv4::IPProtocolTypes;
use crate::runtime::emsgsize::Platform;
use crate::runtime::interface::{SendError, SendResult};
use crate::runtime::interface::context::ContextView;
use crate::runtime::interface::l3_ipv4::{outgoing_sent, Outgoing};
use crate::runtime::interface::l4_managers::udp::{
    after_check, copied_each, first_from, handle_share, none_from, peer_error, received_first,
    received_from, reported, send_error, send_outcome, send_refused, socket_share, Receive,
    SocketError, SocketErrorView, UdpSocket,
};
use crate::runtime::interface::l4_managers::udp::context::{copied, copied_len};
use crate::runtime::interface::l4_managers::udp::handle::{
    drained, drained_with, each_message_is_handled_once, first_reachable, message_handled,
    message_ok, message_step, socket_drained, udp_outgoing, DrainView, MessageAction, SocketState,
    UdpSocketHandle, UdpSocketSharedState,
};
use crate::runtime::interface::l4_managers::udp::manager::{
    UdpManager, BUFFER_POOL_SIZE, MAX_EPHEMERAL_PORT_ATTEMPTS, MAX_SOCKETS, RECV_RING_SIZE,
    SEND_RING_SIZE,
};
use crate::runtime::interface::l4_managers::udp::messages::{
    DrainSendAction, ReceivedView, SendMessageView, UdpConnectError, UdpSendError, UdpSendResult,
};
use crate::runtime::interface::l4_managers::udp::port_binding::{
    first_original, removed, AddressBinding,
};
use crate::runtime::route_table::{ordered, RouteInformation};
use crate::time::Instant;
use vstd::prelude::*;

verus! {

/// What a socket is told of what became of its datagram.
pub open spec fn outcome(result: SendResult) -> UdpSendResult {
    match result {
        Ok(_) => Ok(()),
        Err(SendError::PayloadTooLarge { .. }) => Err(UdpSendError::PayloadTooLarge),
        Err(SendError::PayloadTooShort) => Err(UdpSendError::Other),
        Err(SendError::NoRouteToHost) => Err(UdpSendError::NetworkUnreachable),
        Err(SendError::BufferFull) => Err(UdpSendError::Other),
        Err(SendError::ArpResolveBufferFull) => Err(UdpSendError::HostUnreachable),
        Err(SendError::ArpTimeout) => Err(UdpSendError::HostUnreachable),
    }
}

/// Whether a datagram is the one that a socket sends from an address to another.
pub open spec fn is_from_socket(
    datagram: Outgoing,
    source: (Ipv4Addr, u16),
    destination: (Ipv4Addr, u16),
    payload: Seq<u8>,
    identification: u16,
) -> bool {
    let bytes = datagram.payload;
    &&& datagram.source == source.0
    &&& datagram.destination == destination.0
    &&& datagram.protocol == IPProtocolTypes::UDP
    &&& datagram.length == 8 + payload.len()
    &&& datagram.identification == identification
    &&& bytes.len() == 8 + payload.len()
    &&& two(bytes, 0) == source.1
    &&& two(bytes, 2) == destination.1
    &&& two(bytes, 4) == 8 + payload.len()
    &&& bytes.skip(8) == payload
    &&& adds_up(with_ends(source.0, destination.0, bytes))
}

/// A socket sends its datagram from its own port, and from its own address or that of the route
/// where it is bound to all. What becomes of a datagram that is waited for is told in any case, and
/// its sender is woken. Of another only that it cannot be delivered is told, and a writer that
/// waits is woken where there is room for more. The size that fits is learned from a datagram that
/// was too long.
#[verifier::spinoff_prover]
#[verifier::rlimit(50)]
pub proof fn a_socket_sends_its_datagram(
    context: ContextView,
    state: SocketState,
    destination: SocketAddr,
    payload: Seq<u8>,
    unread: bool,
    full: bool,
    identification: u16,
    now: Instant,
    route: RouteInformation<Ipv4Addr>,
) -> (datagram: Outgoing)
    requires
        ordered(context.routes),
        28 <= context.mtu <= usize::MAX,
        state.local_addr.ip is V4,
        destination.ip is V4,
        payload.len() + 8 <= u16::MAX,
        state.local_addr.ip->V4_0.bits != 0 || is_taken(
            context.routes,
            destination.ip->V4_0,
            route,
        ),
    ensures
        is_from_socket(
            datagram,
            (
                if state.local_addr.ip->V4_0.bits != 0 {
                    state.local_addr.ip->V4_0
                } else {
                    route.source
                },
                state.local_addr.port,
            ),
            (destination.ip->V4_0, destination.port),
            payload,
            identification,
        ),
        ({
            let message = SendMessageView::Blocking { destination, payload };
            let (after, left, action) = message_handled(
                context,
                state,
                message,
                unread,
                full,
                identification,
                now,
            );
            let (sent, result) = outgoing_sent(context, datagram, now);
            &&& after == sent
            &&& left.shared_state.send_result.holds() == Some(outcome(result))
            &&& action == MessageAction::WakeSender
            &&& only_told(context, state, left, result)
        }),
        ({
            let message = SendMessageView::NonBlocking { destination, payload };
            let (after, left, action) = message_handled(
                context,
                state,
                message,
                unread,
                full,
                identification,
                now,
            );
            let (sent, result) = outgoing_sent(context, datagram, now);
            &&& after == sent
            &&& left.shared_state.send_result.holds() == if is_unreachable(result) {
                Some(outcome(result))
            } else {
                state.shared_state.send_result.holds()
            }
            &&& action == if state.write_wake && !full {
                MessageAction::WakeWriter
            } else {
                MessageAction::NoAction
            }
            &&& only_told(context, state, left, result)
        }),
{
    let own = state.local_addr.ip->V4_0;
    let target = destination.ip->V4_0;
    the_longest_mask_is_taken(context.routes, target);
    let source = if own.bits != 0 {
        own
    } else {
        route.source
    };
    assert(own == Ipv4Addr::unspecified() <==> own.bits == 0);
    a_sent_datagram_has_its_ports(
        (source, state.local_addr.port),
        (target, destination.port),
        payload,
        identification,
    );
    udp_outgoing(
        source,
        state.local_addr.port,
        target,
        destination.port,
        payload,
        identification,
    )
}

/// Whether a datagram could not be delivered because of where it was to go.
pub open spec fn is_unreachable(result: SendResult) -> bool {
    ||| result == Err::<(), SendError>(SendError::NoRouteToHost)
    ||| result == Err::<(), SendError>(SendError::ArpResolveBufferFull)
    ||| result == Err::<(), SendError>(SendError::ArpTimeout)
}

/// Whether a socket changed in nothing but what it is told of a datagram.
pub open spec fn only_told(
    context: ContextView,
    before: SocketState,
    after: SocketState,
    result: SendResult,
) -> bool {
    &&& after.shared_state.max_payload_size == if result matches Err(
        SendError::PayloadTooLarge { .. },
    ) {
        context.mtu - 28
    } else {
        before.shared_state.max_payload_size as int
    }
    &&& after == SocketState {
        shared_state: UdpSocketSharedState {
            send_result: after.shared_state.send_result,
            max_payload_size: after.shared_state.max_payload_size,
            ..before.shared_state
        },
        ..before
    }
}

/// A socket that is bound to all cannot send to where no route leads, and is told so.
pub proof fn a_socket_without_a_route_sends_nothing(
    context: ContextView,
    state: SocketState,
    destination: SocketAddr,
    payload: Seq<u8>,
    unread: bool,
    full: bool,
    identification: u16,
    now: Instant,
)
    requires
        ordered(context.routes),
        state.local_addr.ip is V4,
        state.local_addr.ip->V4_0.bits == 0,
        destination.ip is V4,
        forall|i: int|
            0 <= i < context.routes.len() ==> !leads_to(
                #[trigger] context.routes[i],
                destination.ip->V4_0,
            ),
    ensures
        ({
            let (after, left, action) = message_handled(
                context,
                state,
                SendMessageView::Blocking { destination, payload },
                unread,
                full,
                identification,
                now,
            );
            &&& after == context
            &&& left.shared_state.send_result.holds() == Some(
                Err::<(), UdpSendError>(UdpSendError::NetworkUnreachable),
            )
            &&& action == MessageAction::WakeSender
        }),
        ({
            let (after, left, action) = message_handled(
                context,
                state,
                SendMessageView::NonBlocking { destination, payload },
                unread,
                full,
                identification,
                now,
            );
            &&& after == context
            &&& left.shared_state.send_result.holds() == Some(
                Err::<(), UdpSendError>(UdpSendError::NetworkUnreachable),
            )
        }),
{
    the_longest_mask_is_taken(context.routes, destination.ip->V4_0);
    assert(state.local_addr.ip->V4_0 == Ipv4Addr::unspecified());
}

/// Whether a route leads to who is to be the peer.
pub open spec fn can_be_peer(routes: Seq<RouteInformation<Ipv4Addr>>, addr: SocketAddr) -> bool {
    addr.ip is V4 && exists|i: int|
        0 <= i < routes.len() && leads_to(#[trigger] routes[i], addr.ip->V4_0)
}

/// A socket is connected to the first of the addresses to which a route leads, and to none where no
/// route leads to any of them. It is told why: there was no address, or the last one has no route
/// or is of the other kind.
pub proof fn the_first_reachable_address_becomes_the_peer(
    context: ContextView,
    state: SocketState,
    potentials: Seq<SocketAddr>,
    unread: bool,
    full: bool,
    identification: u16,
    now: Instant,
    index: int,
)
    requires
        ordered(context.routes),
    ensures
        ({
            let (after, left, action) = message_handled(
                context,
                state,
                SendMessageView::Connect(potentials),
                unread,
                full,
                identification,
                now,
            );
            &&& after == context
            &&& 0 <= index < potentials.len() && can_be_peer(context.routes, potentials[index]) && (
            forall|i: int|
                0 <= i < index ==> !can_be_peer(context.routes, #[trigger] potentials[i])) ==> {
                &&& action == MessageAction::Connected
                &&& left.peer_addr == Some(potentials[index])
                &&& left.shared_state.connected_to == Some(potentials[index])
                &&& left == SocketState {
                    peer_addr: left.peer_addr,
                    shared_state: UdpSocketSharedState {
                        connected_to: left.shared_state.connected_to,
                        ..state.shared_state
                    },
                    ..state
                }
            }
            &&& (forall|i: int|
                0 <= i < potentials.len() ==> !can_be_peer(
                    context.routes,
                    #[trigger] potentials[i],
                )) ==> {
                &&& left == state
                &&& action matches MessageAction::ConnectFailed(error)
                &&& error is NoAddress <==> potentials.len() == 0
                &&& potentials.len() > 0
                    ==> (error is NoRouteToHost <==> potentials.last().ip is V4)
                &&& potentials.len() > 0 ==> (error is InvalidAddress <==> potentials.last().ip
                    is V6)
            }
        }),
{
    assert forall|i: int| 0 <= i < potentials.len() implies can_be_peer(
        context.routes,
        #[trigger] potentials[i],
    ) == crate::runtime::interface::l4_managers::udp::handle::reachable(
        context.routes,
        potentials[i],
    ) by {
        if potentials[i].ip is V4 {
            the_longest_mask_is_taken(context.routes, potentials[i].ip->V4_0);
        }
    }
    if 0 <= index < potentials.len() && can_be_peer(context.routes, potentials[index]) && (forall|
        i: int,
    |
        0 <= i < index ==> !can_be_peer(context.routes, #[trigger] potentials[i])) {
        assert(first_reachable(context.routes, potentials, index));
        let found = choose|i: int| #[trigger] first_reachable(context.routes, potentials, i);
        assert(first_reachable(context.routes, potentials, found));
        if found < index {
            assert(!can_be_peer(context.routes, potentials[found]));
        }
        if index < found {
            assert(!crate::runtime::interface::l4_managers::udp::handle::reachable(
                context.routes,
                potentials[index],
            ));
        }
    }
}

/// A reader that wants to be woken is noted, and woken at once where there is something to read. So
/// is a writer, where there is room. A socket that is dropped goes away.
pub proof fn readers_and_writers_are_noted(
    context: ContextView,
    state: SocketState,
    unread: bool,
    full: bool,
    identification: u16,
    now: Instant,
)
    ensures
        ({
            let (after, left, action) = message_handled(
                context,
                state,
                SendMessageView::UpdateReadWakeHandle,
                unread,
                full,
                identification,
                now,
            );
            &&& after == context
            &&& left.read_wake
            &&& left == SocketState { read_wake: left.read_wake, ..state }
            &&& action == MessageAction::WakeReader <==> unread
            &&& action == MessageAction::NoAction <==> !unread
        }),
        ({
            let (after, left, action) = message_handled(
                context,
                state,
                SendMessageView::UpdateWriteWakeHandle,
                unread,
                full,
                identification,
                now,
            );
            &&& after == context
            &&& left.write_wake
            &&& left == SocketState { write_wake: left.write_wake, ..state }
            &&& action == MessageAction::WakeWriter <==> !full
            &&& action == MessageAction::NoAction <==> full
        }),
        message_handled(
            context,
            state,
            SendMessageView::Drop,
            unread,
            full,
            identification,
            now,
        ) == (context, state, MessageAction::Remove),
{
}

/// Whether one message more was handled. Nothing is handled behind a drop, nor behind a message
/// that could not be handled.
pub open spec fn is_next(
    one: DrainView,
    next: DrainView,
    step: (ContextView, SocketState, Option<MessageAction>),
) -> bool {
    if !(one.end is NoAction) {
        next == one
    } else {
        &&& next.context == step.0
        &&& next.state == step.1
        &&& next.taken == one.taken + 1
        &&& match step.2 {
            Some(action) => {
                &&& next.actions == one.actions.push(action)
                &&& next.end == if action is Remove {
                    DrainSendAction::Remove
                } else {
                    DrainSendAction::NoAction
                }
            },
            None => next.actions == one.actions && next.end == DrainSendAction::Unsendable,
        }
    }
}

proof fn next_message_is_handled(
    one: DrainView,
    message: SendMessageView,
    unread: bool,
    full: bool,
    identification: u16,
    now: Instant,
)
    ensures
        is_next(
            one,
            one.next(message, unread, full, identification, now),
            message_step(
                one.context,
                one.state,
                message,
                unread,
                full,
                identification,
                now,
            ),
        ),
{
}

/// Only a drop takes a socket away.
pub proof fn only_a_drop_removes(
    context: ContextView,
    state: SocketState,
    message: SendMessageView,
    unread: bool,
    full: bool,
    identification: u16,
    now: Instant,
)
    ensures
        message_handled(context, state, message, unread, full, identification, now).2 is Remove
            <==> message is Drop,
{
    match message {
        SendMessageView::NonBlocking { .. } => {},
        SendMessageView::Blocking { .. } => {},
        SendMessageView::UpdateReadWakeHandle => {},
        SendMessageView::UpdateWriteWakeHandle => {},
        SendMessageView::Connect(_) => {},
        SendMessageView::Drop => {},
    }
}

/// The messages of a socket are handled one after the other, in the order in which they came, until
/// the socket is dropped or one cannot be handled.
pub proof fn messages_take_turns(
    start: DrainView,
    messages: Seq<SendMessageView>,
    unread: bool,
    total: nat,
    capacity: nat,
    identifications: Seq<u16>,
    now: Instant,
) -> (states: Seq<DrainView>)
    requires
        identifications.len() == messages.len(),
    ensures
        states.len() == messages.len() + 1,
        states[0] == start,
        states.last() == drained(start, messages, unread, total, capacity, identifications, now),
        forall|i: int|
            0 <= i < messages.len() ==> is_next(
                #[trigger] states[i],
                states[i + 1],
                message_step(
                    states[i].context,
                    states[i].state,
                    messages[i],
                    unread,
                    total - i - 1 >= capacity,
                    identifications[i],
                    now,
                ),
            ),
    decreases messages.len(),
{
    if messages.len() == 0 {
        seq![start]
    } else {
        let rest = messages.drop_last();
        let drawn = identifications.drop_last();
        let before = messages_take_turns(start, rest, unread, total, capacity, drawn, now);
        let after = drained(start, messages, unread, total, capacity, identifications, now);
        let states = before.push(after);
        let last = messages.len() - 1;
        next_message_is_handled(
            before.last(),
            messages[last],
            unread,
            total - last - 1 >= capacity,
            identifications[last],
            now,
        );
        assert forall|i: int| 0 <= i < messages.len() implies is_next(
            #[trigger] states[i],
            states[i + 1],
            message_step(
                states[i].context,
                states[i].state,
                messages[i],
                unread,
                total - i - 1 >= capacity,
                identifications[i],
                now,
            ),
        ) by {
            if i < last {
                assert(states[i] == before[i]);
                assert(states[i + 1] == before[i + 1]);
                assert(rest[i] == messages[i]);
                assert(drawn[i] == identifications[i]);
            }
        }
        states
    }
}

/// The number with which a system says that a message is too long.
pub open spec fn too_long(platform: Platform) -> i32 {
    match platform {
        Platform::Windows => 10040,
        Platform::MacOs | Platform::Ios | Platform::FreeBsd | Platform::OpenBsd => 40,
        Platform::Linux | Platform::Other => 90,
    }
}

/// A late error is what is told of a datagram that nobody waited for: that its network or its host
/// cannot be reached. It is told once, to who does not wait.
pub proof fn a_late_error_is_told_once(shared: UdpSocketSharedState)
    ensures
        ({
            let held = shared.send_result.holds();
            &&& reported(shared) is Some <==> shared.is_nonblocking && (held == Some(
                Err::<(), UdpSendError>(UdpSendError::NetworkUnreachable),
            ) || held == Some(Err::<(), UdpSendError>(UdpSendError::HostUnreachable)))
            &&& reported(shared) matches Some(error) ==> {
                &&& held == Some(Err::<(), UdpSendError>(UdpSendError::NetworkUnreachable))
                    ==> error == (ErrorKind::NetworkUnreachable, "network unreachable"@)
                &&& held == Some(Err::<(), UdpSendError>(UdpSendError::HostUnreachable)) ==> error
                    == (ErrorKind::HostUnreachable, "host unreachable"@)
            }
            &&& reported(after_check(shared)) is None
            &&& shared.is_nonblocking ==> after_check(shared).send_result.holds() is None
            &&& !shared.is_nonblocking ==> after_check(shared).send_result.holds() == held
            &&& after_check(shared) == UdpSocketSharedState {
                send_result: after_check(shared).send_result,
                ..shared
            }
        }),
{
}

/// A socket takes a datagram to send where it is not too long, no late error is left to tell, and
/// there is an address of the kind of the socket's own. Otherwise the first of these is the reason
/// that is told.
pub proof fn a_send_is_refused_for_a_reason(
    shared: UdpSocketSharedState,
    local: SocketAddr,
    length: nat,
    addrs: Seq<SocketAddr>,
    platform: Platform,
)
    ensures
        ({
            let refused = send_refused(shared, local, length, addrs, platform);
            let fits = length <= shared.max_payload_size;
            let late = reported(shared);
            &&& refused is None <==> fits && late is None && addrs.len() > 0 && (addrs[0].ip is V4
                <==> local.ip is V4)
            &&& !fits ==> refused == Some(SocketErrorView::Os(too_long(platform)))
            &&& fits && late is Some ==> refused == Some(SocketErrorView::Io(late->0))
            &&& fits && late is None && addrs.len() == 0 ==> refused == Some(
                SocketErrorView::Io((ErrorKind::InvalidInput, "invalid address"@)),
            )
            &&& fits && late is None && addrs.len() > 0 && (addrs[0].ip is V4) != (local.ip is V4)
                ==> refused == Some(
                SocketErrorView::Io((ErrorKind::InvalidInput, "address version does not match"@)),
            )
        }),
{
}

/// What a socket hands over to be sent is what it was given, for the first address. It does so
/// wherever it is not refused, fits in a buffer, and a buffer is free.
pub proof fn what_is_given_is_handed_over(
    before: UdpSocket,
    after: UdpSocket,
    payload: Seq<u8>,
    addrs: Seq<SocketAddr>,
    platform: Platform,
    returned: Seq<crate::runtime::buffer_pool::PooledBuffer>,
    result: Result<crate::runtime::interface::l4_managers::udp::Outgoing, SocketError>,
)
    requires
        send_outcome(before, after, payload, addrs, platform, returned, result),
    ensures
        ({
            let shared = before.shared_state;
            let pool = before.context.buffer_pool;
            let free = pool.available(returned);
            let taken = payload.len() <= shared.max_payload_size && reported(shared) is None
                && addrs.len() > 0 && (addrs[0].ip is V4 <==> before.socket_addr.ip is V4);
            &&& result is Ok <==> taken && payload.len() <= pool.buffer_size && free.len() > 0
            &&& result matches Ok(outgoing) ==> {
                &&& outgoing.destination == addrs[0]
                &&& outgoing.buffer.written_part() == payload
                &&& outgoing.blocking <==> !shared.is_nonblocking
                &&& after.context.buffer_pool.free() == free.skip(1)
            }
            &&& taken && payload.len() <= pool.buffer_size && free.len() == 0 ==> (
            result matches Err(error) && error@ == SocketErrorView::Io(
                if shared.is_nonblocking {
                    (ErrorKind::WouldBlock, "operation would block"@)
                } else {
                    (ErrorKind::OutOfMemory, "buffer pool exhausted"@)
                },
            ))
            &&& after.context.recv == before.context.recv
            &&& after.socket_addr == before.socket_addr
        }),
{
    a_send_is_refused_for_a_reason(
        before.shared_state,
        before.socket_addr,
        payload.len(),
        addrs,
        platform,
    );
}

/// Whether a buffer was filled from its start with as much of a datagram as it holds.
pub open spec fn filled(before: Seq<u8>, after: Seq<u8>, payload: Seq<u8>, count: int) -> bool {
    &&& count <= payload.len()
    &&& count <= before.len()
    &&& count == payload.len() || count == before.len()
    &&& after.len() == before.len()
    &&& after.take(count) == payload.take(count)
}

/// A buffer is filled from its start, and keeps what stands behind.
pub proof fn a_buffer_is_filled_from_its_start(before: Seq<u8>, payload: Seq<u8>)
    ensures
        filled(
            before,
            copied(before, payload),
            payload,
            copied_len(before, payload) as int,
        ),
        copied(before, payload).skip(copied_len(before, payload) as int) == before.skip(
            copied_len(before, payload) as int,
        ),
{
    let count = copied_len(before, payload) as int;
    let after = copied(before, payload);
    assert(after.take(count) =~= payload.take(count));
    assert(after.skip(count) =~= before.skip(count));
}

/// A read gives the oldest datagram that was not read, and who sent it, and takes it away. Only
/// where there is none and no late error to tell, who reads waits, or is told to try again.
pub proof fn a_read_gives_the_oldest_datagram(
    shared: UdpSocketSharedState,
    queued: Seq<ReceivedView>,
    left: Seq<ReceivedView>,
    before: Seq<u8>,
    after: Seq<u8>,
    result: Result<Receive, Error>,
)
    requires
        received_first(shared, queued, left, before, after, result),
    ensures
        reported(shared) is None && queued.len() > 0 ==> {
            &&& result matches Ok(Receive::Received(count, source))
            &&& source == queued[0].0
            &&& filled(before, after, queued[0].1, count as int)
            &&& queued == seq![queued[0]] + left
        },
        reported(shared) is None && queued.len() == 0 ==> {
            &&& after == before
            &&& left == queued
            &&& shared.is_nonblocking <==> result is Err
            &&& result matches Ok(received) ==> received is Wait
            &&& result matches Err(error) ==> error@.0 == ErrorKind::WouldBlock
        },
        reported(shared) matches Some(error) ==> {
            &&& result matches Err(told) && told@ == error
            &&& after == before
            &&& left == queued
        },
{
    if queued.len() > 0 {
        a_buffer_is_filled_from_its_start(before, queued[0].1);
        assert(queued =~= seq![queued[0]] + queued.skip(1));
    }
}

proof fn copied_each_is_filled(before: Seq<u8>, datagrams: Seq<ReceivedView>)
    ensures
        copied_each(before, datagrams).len() == before.len(),
        datagrams.len() > 0 ==> filled(
            before,
            copied_each(before, datagrams),
            datagrams.last().1,
            copied_len(before, datagrams.last().1) as int,
        ),
    decreases datagrams.len(),
{
    if datagrams.len() > 0 {
        copied_each_is_filled(before, datagrams.drop_last());
        let middle = copied_each(before, datagrams.drop_last());
        a_buffer_is_filled_from_its_start(middle, datagrams.last().1);
        assert(copied_len(middle, datagrams.last().1) == copied_len(before, datagrams.last().1));
    }
}

/// A read from the peer gives the oldest datagram that the peer sent.
pub proof fn a_read_from_the_peer_gives_its_oldest_datagram(
    shared: UdpSocketSharedState,
    queued: Seq<ReceivedView>,
    peer: SocketAddr,
    before: Seq<u8>,
    after: Seq<u8>,
    result: Result<Receive, Error>,
    index: int,
)
    requires
        received_from(shared, queued, peer, before, after, result),
    ensures
        reported(shared) is None && 0 <= index < queued.len() && queued[index].0 == peer && (forall|
            i: int,
        |
            0 <= i < index ==> (#[trigger] queued[i]).0 != peer) ==> {
            &&& result matches Ok(Receive::Received(count, source))
            &&& source == peer
            &&& filled(before, after, queued[index].1, count as int)
        },
        reported(shared) is None && (forall|i: int|
            0 <= i < queued.len() ==> (#[trigger] queued[i]).0 != peer) ==> {
            &&& shared.is_nonblocking <==> result is Err
            &&& result matches Ok(received) ==> received is Wait
            &&& result matches Err(error) ==> error@.0 == ErrorKind::WouldBlock
        },
        reported(shared) matches Some(error) ==> result matches Err(told) && told@ == error && after
            == before,
{
    if reported(shared) is None && 0 <= index < queued.len() && queued[index].0 == peer && (forall|
        i: int,
    |
        0 <= i < index ==> (#[trigger] queued[i]).0 != peer) {
        assert(first_from(queued, peer, index));
        assert(!none_from(queued, peer)) by {
            if none_from(queued, peer) {
                assert(queued[index].0 != peer);
            }
        }
        if let Ok(Receive::Received(count, source)) = result {
            let found = choose|i: int| #[trigger]
                first_from(queued, peer, i) && count == copied_len(before, queued[i].1) && after
                    == copied_each(before, queued.take(i + 1));
            assert(first_from(queued, peer, found));
            if found < index {
                assert(queued[found].0 != peer);
            }
            if index < found {
                assert(queued[index].0 != peer);
            }
            copied_each_is_filled(before, queued.take(index + 1));
            assert(queued.take(index + 1).last() == queued[index]);
        }
    }
}

/// When the two ends of a socket meet, the end of the program learns once what became of its
/// datagrams, who the peer is and what size fits, and the other end learns how the socket is used.
pub proof fn the_ends_of_a_socket_agree(ours: UdpSocketSharedState, theirs: UdpSocketSharedState)
    ensures
        ({
            let program = socket_share(ours, theirs);
            let stack = handle_share(ours, theirs);
            &&& program.send_result.holds() == if theirs.send_result.holds() is Some {
                theirs.send_result.holds()
            } else {
                ours.send_result.holds()
            }
            &&& stack.send_result.holds() is None
            &&& program.connected_to == theirs.connected_to && stack.connected_to
                == theirs.connected_to
            &&& program.max_payload_size == theirs.max_payload_size && stack.max_payload_size
                == theirs.max_payload_size
            &&& program.is_nonblocking == ours.is_nonblocking && stack.is_nonblocking
                == ours.is_nonblocking
            &&& program.allow_broadcast == ours.allow_broadcast && stack.allow_broadcast
                == ours.allow_broadcast
            &&& socket_share(program, stack) == program
        }),
{
}

/// What a program is told of a datagram that could not be sent, and of a peer that could not be
/// had.
pub proof fn errors_are_told_by_their_names(error: UdpSendError, peer: UdpConnectError)
    ensures
        send_error(error).0 == match error {
            UdpSendError::PayloadTooLarge => ErrorKind::InvalidInput,
            UdpSendError::NetworkUnreachable => ErrorKind::NetworkUnreachable,
            UdpSendError::HostUnreachable => ErrorKind::HostUnreachable,
            UdpSendError::Other => ErrorKind::OutOfMemory,
        },
        send_error(error).1 == match error {
            UdpSendError::PayloadTooLarge => "payload too large"@,
            UdpSendError::NetworkUnreachable => "no route to host"@,
            UdpSendError::HostUnreachable => "host unreachable"@,
            UdpSendError::Other => "network buffer full"@,
        },
        peer_error(peer) == match peer {
            UdpConnectError::NoRouteToHost => (ErrorKind::NetworkUnreachable, "no route to host"@),
            UdpConnectError::NoAddress => (ErrorKind::InvalidInput, "no address in input"@),
            UdpConnectError::InvalidAddress => (
                ErrorKind::InvalidInput,
                "invalid or unsupported address"@,
            ),
        },
{
}

/// A socket that was bound hears datagrams for its address, and for all addresses where it is bound
/// to all. It has nothing to read yet, room for a thousand and twenty-four datagrams, and no peer.
/// It is behind the other sockets on its port, and none of these changes.
pub proof fn a_bound_socket_hears_its_address(
    before: UdpManager,
    after: UdpManager,
    addr: SocketAddr,
    mtu: int,
    socket: UdpSocket,
    other: Ipv4Addr,
)
    requires
        before.bound(after, addr, mtu, socket),
        addr.ip is V4,
        28 <= mtu <= usize::MAX,
    ensures
        ({
            let sockets = before.sockets.port_view(addr.port);
            let now = after.sockets.port_view(addr.port);
            &&& now.len() == sockets.len() + 1
            &&& now.drop_last() == sockets
            &&& hears(now.last(), addr.ip->V4_0)
            &&& hears(now.last(), other) <==> addr.ip->V4_0.bits == 0 || other == addr.ip->V4_0
            &&& now.last().original == addr
            &&& now.last().queued.len() == 0
            &&& now.last().capacity == 1024
            &&& now.last().messages.len() == 0
            &&& now.last().message_capacity == 1024
            &&& now.last().state.local_addr == addr
            &&& now.last().state.peer_addr is None
            &&& !now.last().state.read_wake
            &&& !now.last().state.write_wake
            &&& !now.last().state.allow_reuse
            &&& !socket.shared_state.allow_broadcast
            &&& now.last().state.shared_state == socket.shared_state
            &&& socket.socket_addr == addr
            &&& socket.shared_state.max_payload_size == mtu - 28
            &&& socket.shared_state.connected_to is None
            &&& !socket.shared_state.is_nonblocking
            &&& reported(socket.shared_state) is None
            &&& socket.context.recv.queued().len() == 0
            &&& forall|port: u16|
                port != addr.port ==> #[trigger] after.sockets.port_view(port)
                    == before.sockets.port_view(port)
            &&& after.socket_ids@[socket.context.socket_id as int] == Some(addr)
            &&& before.socket_ids@[socket.context.socket_id as int] is None
            &&& forall|i: int|
                0 <= i < socket.context.socket_id ==> (#[trigger] before.socket_ids@[i]) is Some
        }),
{
    let now = after.sockets.port_view(addr.port);
    assert(now.drop_last() =~= before.sockets.port_view(addr.port));
}

/// A datagram between addresses of this kind can be sent where it fits.
pub proof fn a_fitting_datagram_can_be_sent(
    context: ContextView,
    state: SocketState,
    destination: SocketAddr,
    payload: Seq<u8>,
    now: Instant,
)
    requires
        state.local_addr.ip is V4,
        destination.ip is V4,
        42 + payload.len() <= context.mtu,
        payload.len() <= 65507,
    ensures
        message_ok(context, state, SendMessageView::Blocking { destination, payload }, now),
        message_ok(context, state, SendMessageView::NonBlocking { destination, payload }, now),
{
}

/// How much sockets and networks hold.
pub proof fn limits_are_as_they_are_said()
    ensures
        MAX_SOCKETS == 1024,
        RECV_RING_SIZE == 1024,
        SEND_RING_SIZE == 1024,
        BUFFER_POOL_SIZE == 64,
        MAX_EPHEMERAL_PORT_ATTEMPTS == 128,
        crate::runtime::network::MAX_INTERFACES == 256,
        crate::runtime::network::RECV_QUEUE_SIZE == 4096,
        crate::runtime::network::SEND_QUEUE_SIZE == 4096,
        crate::runtime::interface::context::MIN_MTU == 42,
        crate::services::dhcpv4::SERVER_PORT == 67,
        crate::services::dhcpv4::CLIENT_PORT == 68,
{
}

/// The messages that were handled are no longer there, and the others stay in order. All of them
/// were, unless the socket was dropped or one could not be handled.
pub proof fn handled_messages_are_gone(
    before: (ContextView, UdpSocketHandle),
    after: (ContextView, UdpSocketHandle),
    actions: Seq<MessageAction>,
    end: DrainSendAction,
    now: Instant,
) -> (count: int)
    requires
        socket_drained(before, after, actions, end, now),
    ensures
        0 <= count <= before.1.send.queued().len(),
        after.1.send.queued() == before.1.send.queued().skip(count),
        end is NoAction ==> count == before.1.send.queued().len(),
        actions.len() == if end is Unsendable {
            count - 1
        } else {
            count
        },
        after.1.recv == before.1.recv,
{
    let identifications = choose|identifications: Seq<u16>| #[trigger]
        drained_with(before, after, actions, end, identifications, now);
    let start = DrainView {
        context: before.0,
        state: before.1.state,
        actions: Seq::empty(),
        taken: 0,
        end: DrainSendAction::NoAction,
    };
    let messages = before.1.send.queued();
    let given = messages.take(identifications.len() as int);
    let unread = before.1.recv.queued().len() > 0;
    let capacity = before.1.send.capacity();
    each_message_is_handled_once(
        start,
        given,
        unread,
        messages.len(),
        capacity,
        identifications,
        now,
    );
    let came = drained(start, given, unread, messages.len(), capacity, identifications, now);
    came.taken as int
}

/// A socket that is dropped is gone from its port: the first one that was bound to its address. The
/// other sockets stay as they are.
pub proof fn a_dropped_socket_is_gone(
    before: Seq<AddressBinding>,
    after: Seq<AddressBinding>,
    addr: SocketAddr,
    index: int,
)
    requires
        removed(before, after, addr),
        0 <= index < before.len(),
        before[index].original == addr,
        forall|i: int| 0 <= i < index ==> (#[trigger] before[i]).original != addr,
    ensures
        after == before.remove(index),
{
    assert(before[index].original == addr);
    if exists|i: int| #[trigger] first_original(before, addr, i) && after == before.remove(i) {
        let found = choose|i: int| #[trigger]
            first_original(before, addr, i) && after == before.remove(i);
        assert(first_original(before, addr, found));
        if found < index {
            assert(before[found].original != addr);
        }
        if index < found {
            assert(before[index].original != addr);
        }
    }
}

/// Between addresses of different kinds nothing is sent, and who waits is told that it is done.
pub proof fn nothing_is_sent_between_kinds(
    context: ContextView,
    state: SocketState,
    destination: SocketAddr,
    payload: Seq<u8>,
    unread: bool,
    full: bool,
    identification: u16,
    now: Instant,
)
    requires
        state.local_addr.ip is V4,
        destination.ip is V6,
    ensures
        ({
            let (after, left, action) = message_handled(
                context,
                state,
                SendMessageView::Blocking { destination, payload },
                unread,
                full,
                identification,
                now,
            );
            &&& after == context
            &&& left.shared_state.send_result.holds() == Some(Ok::<(), UdpSendError>(()))
            &&& action == MessageAction::WakeSender
        }),
        ({
            let (after, left, action) = message_handled(
                context,
                state,
                SendMessageView::NonBlocking { destination, payload },
                unread,
                full,
                identification,
                now,
            );
            after == context && left == state
        }),
{
}

} // verus!
