//! The internet layer.

use super::context::{ContextView, InterfaceContext};
use super::l2_ethernet::{ipv4_sent, sent_at_once, EthernetHandler};
use super::l4_managers::ping::{answered, reply_taken, PingView};
use super::l4_managers::udp::manager::{udp_complete, udp_taken, UdpManager};
use super::l4_managers::{loss_forwarded, Managers};
use super::{AsyncSendError, LossCause, LossView, SendError, SendResult};
use crate::buffer::{
    as_slice, buffer_with_capacity, bytes_contents, freeze, max_buffer_len, slice_bytes,
};
use crate::net::{IpAddr, Ipv4Addr};
use crate::protocols::ipv4::icmp::{
    icmp_complete, is_icmp_complete, is_unix_data_in_range, parse_icmp, unix_data_in_range,
    EchoDataView, EchoMessageData, EchoMessageDataUnix, EchoView, ICMPMessage, ICMPMessageTypes,
    MessageView,
};
use crate::protocols::ipv4::{
    ipv4_complete, is_ipv4_complete, parse_ipv4, IPProtocolTypes, IPv4Header,
};
use crate::random::u16_between;
use crate::runtime::route_table::{first_match, RouteInformation};
use crate::time::Instant;
use crate::write_to_buffer::WriteToBuffer;
use bytes::Bytes;
use vstd::prelude::*;

verus! {

/// Whether these are as many identifications as datagrams may have been sent, each in the range from
/// which they are drawn.
pub open spec fn identifications_drawn(identifications: Seq<u16>, count: nat) -> bool {
    &&& identifications.len() == count
    &&& forall|i: int|
        0 <= i < identifications.len() ==> (#[trigger] identifications[i]) < u16::MAX
}

/// The route to an address: the first one for it.
pub open spec fn route_to(
    routes: Seq<RouteInformation<Ipv4Addr>>,
    destination: Ipv4Addr,
) -> Option<RouteInformation<Ipv4Addr>> {
    if exists|i: int| #[trigger] first_match(routes, destination, i) {
        Some(routes[choose|i: int| #[trigger] first_match(routes, destination, i)])
    } else {
        None
    }
}

/// An address, or the other where the first is unspecified.
pub open spec fn or_unspecified(address: Ipv4Addr, other: Ipv4Addr) -> Ipv4Addr {
    if address == Ipv4Addr::unspecified() {
        other
    } else {
        address
    }
}

/// The next hop towards an address.
pub open spec fn next_hop(route: RouteInformation<Ipv4Addr>, destination: Ipv4Addr) -> Ipv4Addr {
    match route.next_hop {
        Some(hop) => hop,
        None => destination,
    }
}

/// A datagram to be sent: where from and where to, what it carries, and the number by which it is
/// told from others.
pub struct Outgoing {
    pub destination: Ipv4Addr,
    pub source: Ipv4Addr,
    pub protocol: IPProtocolTypes,
    /// The length that the payload reports.
    pub length: nat,
    pub payload: Seq<u8>,
    pub identification: u16,
}

/// Whether a datagram gets as far as being handed to the link layer.
pub open spec fn routed(context: ContextView, datagram: Outgoing) -> bool {
    datagram.length >= 8 && datagram.length + 20 <= context.mtu && route_to(
        context.routes,
        datagram.destination,
    ) is Some
}

/// What comes of sending a datagram.
pub open spec fn outgoing_sent(context: ContextView, datagram: Outgoing, now: Instant) -> (
    ContextView,
    SendResult,
) {
    if datagram.length < 8 {
        (context, Err(SendError::PayloadTooShort))
    } else if datagram.length + 20 > context.mtu {
        (context, Err(SendError::PayloadTooLarge { max_size: (context.mtu - 20) as usize }))
    } else {
        match route_to(context.routes, datagram.destination) {
            None => (context, Err(SendError::NoRouteToHost)),
            Some(route) => {
                let source = or_unspecified(datagram.source, route.source);
                ipv4_sent(
                    context,
                    next_hop(route, datagram.destination),
                    source,
                    (
                        IPv4Header::spec_new(
                            datagram.protocol,
                            source,
                            datagram.destination,
                            datagram.payload.len() as u16,
                            datagram.identification,
                        ),
                        datagram.payload,
                    ),
                    now,
                )
            },
        }
    }
}

/// Whether a datagram that gets as far as the link layer has a length that its header can say, and
/// fits in a frame where it is sent at once, or else can be quoted.
pub open spec fn sendable(context: ContextView, datagram: Outgoing, now: Instant) -> bool {
    routed(context, datagram) ==> {
        let route = route_to(context.routes, datagram.destination)->0;
        &&& datagram.payload.len() <= 65515
        &&& if sent_at_once(
            context,
            next_hop(route, datagram.destination),
            or_unspecified(datagram.source, route.source),
            now,
        ) {
            34 + datagram.payload.len() <= context.mtu
        } else {
            datagram.payload.len() >= 8
        }
    }
}

/// The datagram that answers an echo.
pub open spec fn echo_answer(header: IPv4Header, echo: EchoView, identification: u16) -> Outgoing {
    let reply = MessageView::EchoReply(echo);
    Outgoing {
        destination: header.source_address,
        source: header.destination_address,
        protocol: IPProtocolTypes::ICMP,
        length: reply.reported(),
        payload: reply.wire(),
        identification,
    }
}

/// What comes of a control message: an echo is answered, the answer to an echo is taken, and the
/// loss of a datagram is told to whoever sent it.
pub open spec fn icmp_received(
    context: ContextView,
    ping: PingView,
    header: IPv4Header,
    bytes: Seq<u8>,
    clock: EchoMessageDataUnix,
    identification: u16,
    now: Instant,
) -> (ContextView, PingView) {
    match parse_icmp(bytes) {
        Err(_) => (context, ping),
        Ok(icmp) => match icmp.message {
            MessageView::Echo(echo) => (
                outgoing_sent(context, echo_answer(header, echo, identification), now).0,
                ping,
            ),
            MessageView::EchoReply(echo) => (
                context,
                reply_taken(ping, header.source_address, echo, clock),
            ),
            MessageView::DestinationUnreachable(message) => (
                context,
                loss_forwarded(
                    ping,
                    LossView {
                        cause: LossCause::Unreachable(message.code),
                        header: message.ipv4header,
                        datagram: message.datagram,
                    },
                ),
            ),
            _ => (context, ping),
        },
    }
}

/// Whether a control message is one that can be received: it can be looked at, the answer to an
/// echo can be sent, and the clock readings in an answer that somebody waits for are in range.
pub open spec fn icmp_ok(
    context: ContextView,
    ping: PingView,
    header: IPv4Header,
    bytes: Seq<u8>,
    now: Instant,
) -> bool {
    &&& icmp_complete(bytes)
    &&& parse_icmp(bytes) matches Ok(icmp) ==> match icmp.message {
        MessageView::Echo(echo) => sendable(context, echo_answer(header, echo, 0), now),
        MessageView::EchoReply(echo) => answered(ping.sessions, header.source_address, echo)
            is Some ==> (echo.data matches EchoDataView::Bytes(data) ==> unix_data_in_range(data)),
        _ => true,
    }
}

/// Whether a datagram is a whole one, with a header that can be read.
pub open spec fn whole_datagram(bytes: Seq<u8>) -> Option<IPv4Header> {
    match parse_ipv4(bytes) {
        Ok(header) => if header.is_fragmented() {
            None
        } else {
            Some(header)
        },
        Err(_) => None,
    }
}

/// What a datagram carries.
pub open spec fn datagram_payload(bytes: Seq<u8>, header: IPv4Header) -> Seq<u8> {
    bytes.subrange(header.length() as int, header.total_length as int)
}

/// Whether a datagram is one that can be received: its header can be looked at, the length that it
/// announces is one that it has, and what it carries can be received.
pub open spec fn ipv4_ok(
    context: ContextView,
    managers: Managers,
    bytes: Seq<u8>,
    now: Instant,
) -> bool {
    &&& ipv4_complete(bytes)
    &&& whole_datagram(bytes) matches Some(header) ==> {
        &&& header.length() <= header.total_length <= bytes.len()
        &&& header.protocol == IPProtocolTypes::ICMP ==> icmp_ok(
            context,
            managers.ping_manager@,
            header,
            datagram_payload(bytes, header),
            now,
        )
        &&& header.protocol == IPProtocolTypes::UDP ==> udp_complete(
            IpAddr::V4(header.source_address),
            IpAddr::V4(header.destination_address),
            datagram_payload(bytes, header),
        )
    }
}

/// Whether a datagram was received: handed to whoever speaks its protocol. A fragment, and a
/// datagram of a protocol that nobody speaks, is dropped.
pub open spec fn ipv4_handled(
    before: (ContextView, Managers),
    after: (ContextView, Managers),
    bytes: Seq<u8>,
    clock: EchoMessageDataUnix,
    identification: u16,
    now: Instant,
) -> bool {
    match whole_datagram(bytes) {
        Some(header) if header.protocol == IPProtocolTypes::ICMP => {
            &&& (after.0, after.1.ping_manager@) == icmp_received(
                before.0,
                before.1.ping_manager@,
                header,
                datagram_payload(bytes, header),
                clock,
                identification,
                now,
            )
            &&& after.1.udp_manager == before.1.udp_manager
        },
        Some(header) if header.protocol == IPProtocolTypes::UDP => {
            &&& after.0 == before.0
            &&& after.1.ping_manager@ == before.1.ping_manager@
            &&& udp_taken(
                before.1.udp_manager,
                after.1.udp_manager,
                IpAddr::V4(header.source_address),
                IpAddr::V4(header.destination_address),
                datagram_payload(bytes, header),
            )
        },
        _ => {
            &&& after.0 == before.0
            &&& after.1.ping_manager@ == before.1.ping_manager@
            &&& after.1.udp_manager == before.1.udp_manager
        },
    }
}

/// The internet layer of an interface.
pub struct IPv4Handler {}

impl IPv4Handler {
    /// Sends a datagram with the given identification.
    pub fn send_identified<P: WriteToBuffer>(
        ctx: &mut InterfaceContext,
        destination: Ipv4Addr,
        source: Ipv4Addr,
        protocol: IPProtocolTypes,
        payload: &P,
        identification: u16,
        now: Instant,
    ) -> (result: SendResult)
        requires
            old(ctx).wf(),
            now.can_look_ahead(),
            payload.encodable(),
            payload.encoding().len() <= max_buffer_len(),
            sendable(
                old(ctx)@,
                Outgoing {
                    destination,
                    source,
                    protocol,
                    length: payload.reported(),
                    payload: payload.encoding(),
                    identification,
                },
                now,
            ),
        ensures
            final(ctx).wf(),
            final(ctx).same_setup(*old(ctx)),
            (final(ctx)@, result) == outgoing_sent(
                old(ctx)@,
                Outgoing {
                    destination,
                    source,
                    protocol,
                    length: payload.reported(),
                    payload: payload.encoding(),
                    identification,
                },
                now,
            ),
    {
        let length: usize = payload.encoded_length();
        // An error message has to quote eight bytes of the payload.
        if length < 8 {
            return Err(SendError::PayloadTooShort);
        }
        // Nothing is sent in fragments.
        if length > ctx.mtu - IPv4Header::LENGTH_NO_OPTIONS {
            return Err(
                SendError::PayloadTooLarge { max_size: ctx.mtu - IPv4Header::LENGTH_NO_OPTIONS },
            );
        }
        let (route_source, hop) = match ctx.ipv4_route_table.lookup(&destination) {
            Some(route) => {
                proof {
                    route_is_told(ctx@.routes, destination, *route);
                }
                (
                    route.source,
                    match route.next_hop {
                        Some(hop) => hop,
                        None => destination,
                    },
                )
            },
            None => {
                return Err(SendError::NoRouteToHost);
            },
        };
        let mut buffer = buffer_with_capacity(length);
        payload.write_to_buffer(&mut buffer);
        let payload_bytes = freeze(buffer);
        assert(bytes_contents(payload_bytes) =~= payload.encoding());
        let payload_len: u16 = as_slice(&payload_bytes).len() as u16;
        let source = if source.is_unspecified() {
            route_source
        } else {
            source
        };
        let header = IPv4Header::with_identification(
            protocol,
            source,
            destination,
            payload_len,
            identification,
        );
        EthernetHandler::send_ipv4(ctx, hop, source, header, payload_bytes, now)
    }

    /// Sends a datagram.
    pub fn send<P: WriteToBuffer>(
        ctx: &mut InterfaceContext,
        destination: Ipv4Addr,
        source: Ipv4Addr,
        protocol: IPProtocolTypes,
        payload: &P,
        now: Instant,
    ) -> (result: SendResult)
        requires
            old(ctx).wf(),
            now.can_look_ahead(),
            payload.encodable(),
            payload.encoding().len() <= max_buffer_len(),
            sendable(
                old(ctx)@,
                Outgoing {
                    destination,
                    source,
                    protocol,
                    length: payload.reported(),
                    payload: payload.encoding(),
                    identification: 0,
                },
                now,
            ),
        ensures
            final(ctx).wf(),
            final(ctx).same_setup(*old(ctx)),
            exists|datagram: Outgoing|
                {
                    &&& (final(ctx)@, result) == #[trigger] outgoing_sent(
                        old(ctx)@,
                        datagram,
                        now,
                    )
                    &&& datagram.identification < u16::MAX
                    &&& datagram == Outgoing {
                        destination,
                        source,
                        protocol,
                        length: payload.reported(),
                        payload: payload.encoding(),
                        identification: datagram.identification,
                    }
                },
    {
        let identification: u16 = u16_between(0, u16::MAX - 1);
        IPv4Handler::send_identified(
            ctx,
            destination,
            source,
            protocol,
            payload,
            identification,
            now,
        )
    }
}

impl IPv4Handler {
    /// Whether a datagram whose payload reports one length and has another can be sent: where it
    /// gets as far as the link layer it has a length that its header can say, and fits in a frame
    /// where it is sent at once, or else can be quoted.
    pub fn can_send(
        ctx: &InterfaceContext,
        destination: Ipv4Addr,
        length: usize,
        payload_len: usize,
        now: Instant,
    ) -> (result: bool)
        requires
            ctx.wf(),
        ensures
            forall|datagram: Outgoing|
                datagram.destination == destination && datagram.length == length
                    && datagram.payload.len() == payload_len ==> result == #[trigger] sendable(
                    ctx@,
                    datagram,
                    now,
                ),
    {
        if length < 8 || length > ctx.mtu - IPv4Header::LENGTH_NO_OPTIONS {
            return true;
        }
        match ctx.ipv4_route_table.lookup(&destination) {
            None => true,
            Some(route) => {
                proof {
                    route_is_told(ctx@.routes, destination, *route);
                }
                let hop = match route.next_hop {
                    Some(hop) => hop,
                    None => destination,
                };
                let knows: bool = ctx.arp_table.knows(hop, now);
                assert forall|datagram: Outgoing|
                    datagram.destination == destination && datagram.length == length
                        && datagram.payload.len() == payload_len implies (payload_len <= 65515 && (
                if knows {
                    34 + payload_len <= ctx@.mtu
                } else {
                    payload_len >= 8
                })) == #[trigger] sendable(
                    ctx@,
                    datagram,
                    now,
                ) by {
                    let source = or_unspecified(datagram.source, route.source);
                    let state = crate::runtime::interface::l2_ethernet::arp_table::arp_request(
                        ctx@.arp,
                        hop,
                        source,
                        now,
                    ).1;
                    assert(knows == (state is Resolved || state is ResolvedStale));
                }
                payload_len <= 65515 && if knows {
                    payload_len <= ctx.mtu - 34
                } else {
                    payload_len >= 8
                }
            },
        }
    }

    /// Whether a control message is one that can be received.
    fn can_recv_icmp(
        ctx: &InterfaceContext,
        managers: &Managers,
        ipv4_header: IPv4Header,
        payload: &Bytes,
        now: Instant,
    ) -> (result: bool)
        requires
            ctx.wf(),
            managers.wf(),
            bytes_contents(*payload).len() <= 65535,
        ensures
            result == icmp_ok(
                ctx@,
                managers.ping_manager@,
                ipv4_header,
                bytes_contents(*payload),
                now,
            ),
    {
        if !is_icmp_complete(as_slice(payload)) {
            return false;
        }
        match ICMPMessage::from_bytes(payload) {
            Err(_) => true,
            Ok(icmp) => match &icmp.message {
                ICMPMessageTypes::Echo(echo) => {
                    proof {
                        crate::protocols::ipv4::icmp::parsed_echo_is_writable(
                            bytes_contents(*payload),
                            echo@,
                        );
                    }
                    let length: usize = as_slice(payload).len();
                    let result: bool = Self::can_send(
                        ctx,
                        ipv4_header.source_address(),
                        length,
                        length,
                        now,
                    );
                    assert(result == sendable(ctx@, echo_answer(ipv4_header, echo@, 0), now));
                    result
                },
                ICMPMessageTypes::EchoReply(reply) => {
                    !managers.ping_manager.is_awaited(ipv4_header.source_address(), reply)
                        || match &reply.data {
                        EchoMessageData::Bytes(bytes) => is_unix_data_in_range(as_slice(bytes)),
                        EchoMessageData::UnixLike(_) => true,
                    }
                },
                _ => true,
            },
        }
    }

    /// Whether a datagram is one that can be received.
    pub fn can_recv(
        ctx: &InterfaceContext,
        managers: &Managers,
        bytes: &Bytes,
        now: Instant,
    ) -> (result: bool)
        requires
            ctx.wf(),
            managers.wf(),
        ensures
            result == ipv4_ok(ctx@, *managers, bytes_contents(*bytes), now),
    {
        let slice = as_slice(bytes);
        if !is_ipv4_complete(slice) {
            return false;
        }
        let header = match IPv4Header::from_bytes(bytes) {
            Ok(header) => header,
            Err(_) => {
                return true;
            },
        };
        if header.is_fragmented() {
            return true;
        }
        if header.header_length() > header.total_length() || header.total_length() > slice.len() {
            return false;
        }
        let payload = slice_bytes(bytes, header.header_length(), header.total_length());
        match header.protocol() {
            IPProtocolTypes::ICMP => Self::can_recv_icmp(ctx, managers, header, &payload, now),
            IPProtocolTypes::UDP => UdpManager::can_recv(
                IpAddr::V4(header.source_address()),
                IpAddr::V4(header.destination_address()),
                &payload,
            ),
            _ => true,
        }
    }

    /// Receives a datagram.
    pub fn recv(
        ctx: &mut InterfaceContext,
        managers: &mut Managers,
        bytes: &Bytes,
        clock: EchoMessageDataUnix,
        identification: u16,
        now: Instant,
    )
        requires
            old(ctx).wf(),
            old(managers).wf(),
            now.can_look_ahead(),
            ipv4_ok(old(ctx)@, *old(managers), bytes_contents(*bytes), now),
        ensures
            final(ctx).wf(),
            final(ctx).same_setup(*old(ctx)),
            final(managers).wf(),
            ipv4_handled(
                (old(ctx)@, *old(managers)),
                (final(ctx)@, *final(managers)),
                bytes_contents(*bytes),
                clock,
                identification,
                now,
            ),
    {
        let header = match IPv4Header::from_bytes(bytes) {
            Ok(header) => header,
            Err(_) => {
                return ;
            },
        };
        if header.is_fragmented() {
            return ;
        }
        let payload = slice_bytes(bytes, header.header_length(), header.total_length());
        match header.protocol() {
            IPProtocolTypes::ICMP => Self::recv_icmp(
                ctx,
                managers,
                header,
                &payload,
                clock,
                identification,
                now,
            ),
            IPProtocolTypes::UDP => {
                let _outcome = managers.udp_manager.recv(
                    IpAddr::V4(header.source_address()),
                    IpAddr::V4(header.destination_address()),
                    &payload,
                );
            },
            // Nothing else is understood yet.
            _ => {},
        }
    }

    /// Receives a control message.
    fn recv_icmp(
        ctx: &mut InterfaceContext,
        managers: &mut Managers,
        ipv4_header: IPv4Header,
        payload: &Bytes,
        clock: EchoMessageDataUnix,
        identification: u16,
        now: Instant,
    )
        requires
            old(ctx).wf(),
            old(managers).wf(),
            now.can_look_ahead(),
            bytes_contents(*payload).len() <= 65535,
            icmp_ok(
                old(ctx)@,
                old(managers).ping_manager@,
                ipv4_header,
                bytes_contents(*payload),
                now,
            ),
        ensures
            final(ctx).wf(),
            final(ctx).same_setup(*old(ctx)),
            final(managers).wf(),
            final(managers).udp_manager == old(managers).udp_manager,
            (final(ctx)@, final(managers).ping_manager@) == icmp_received(
                old(ctx)@,
                old(managers).ping_manager@,
                ipv4_header,
                bytes_contents(*payload),
                clock,
                identification,
                now,
            ),
    {
        let icmp = match ICMPMessage::from_bytes(payload) {
            Ok(icmp) => icmp,
            Err(_) => {
                return ;
            },
        };
        match &icmp.message {
            ICMPMessageTypes::Echo(echo) => {
                let reply = ICMPMessage::echo_reply(echo);
                proof {
                    crate::protocols::ipv4::icmp::parsed_echo_is_writable(
                        bytes_contents(*payload),
                        echo@,
                    );
                }
                // Whether the answer can be sent does not matter.
                let _sent = IPv4Handler::send_identified(
                    ctx,
                    ipv4_header.source_address(),
                    ipv4_header.destination_address(),
                    IPProtocolTypes::ICMP,
                    &reply,
                    identification,
                    now,
                );
            },
            ICMPMessageTypes::EchoReply(reply) => {
                managers.ping_manager.on_echo_reply(ipv4_header.source_address(), reply, clock);
            },
            ICMPMessageTypes::DestinationUnreachable(message) => {
                managers.forward_async_error(&AsyncSendError::ICMPUnreachable(*message));
            },
            _ => {},
        }
    }
}

/// There is one first route for an address at most.
pub proof fn route_is_told(
    routes: Seq<RouteInformation<Ipv4Addr>>,
    destination: Ipv4Addr,
    route: RouteInformation<Ipv4Addr>,
)
    requires
        exists|i: int| #[trigger] first_match(routes, destination, i) && route == routes[i],
    ensures
        route_to(routes, destination) == Some(route),
{
    let i = choose|i: int| #[trigger] first_match(routes, destination, i) && route == routes[i];
    let j = choose|j: int| #[trigger] first_match(routes, destination, j);
    assert(first_match(routes, destination, j));
    assert(i == j);
}

/// An echo is answered by an echo reply with the same identifier, sequence number and data, which
/// goes from the one who was asked to the one who asked.
pub proof fn echo_is_answered_in_kind(
    header: IPv4Header,
    bytes: Seq<u8>,
    echo: EchoView,
    identification: u16,
)
    requires
        bytes.len() <= 65535,
        parse_icmp(bytes) matches Ok(icmp) && icmp.message == MessageView::Echo(echo),
    ensures
        ({
            let answer = echo_answer(header, echo, identification);
            &&& answer.destination == header.source_address
            &&& answer.source == header.destination_address
            &&& answer.payload.len() == bytes.len()
            &&& parse_icmp(answer.payload) matches Ok(icmp)
            &&& icmp.message == MessageView::EchoReply(echo)
        }),
{
    let reply = MessageView::EchoReply(echo);
    crate::protocols::ipv4::icmp::parsed_echo_is_writable(bytes, echo);
    crate::protocols::ipv4::icmp::icmp_echo_round_trip(reply);
}

/// A datagram that was sent is received as it was sent: whole, with its addresses and protocol, and
/// with its payload, whatever the link layer adds behind it.
pub proof fn sent_datagram_is_whole(
    protocol: IPProtocolTypes,
    source: Ipv4Addr,
    destination: Ipv4Addr,
    payload: Seq<u8>,
    identification: u16,
    padding: Seq<u8>,
)
    requires
        payload.len() <= 65515,
        IPProtocolTypes::decode(protocol.encode()) == protocol,
    ensures
        ({
            let header = IPv4Header::spec_new(
                protocol,
                source,
                destination,
                payload.len() as u16,
                identification,
            );
            let bytes = header.encoding() + payload + padding;
            &&& ipv4_complete(bytes)
            &&& whole_datagram(bytes) matches Some(read)
            &&& read.protocol == protocol
            &&& read.source_address == source
            &&& read.destination_address == destination
            &&& read.fragment_details.identification == identification
            &&& read.length() <= read.total_length <= bytes.len()
            &&& datagram_payload(bytes, read) == payload
        }),
{
    let header = IPv4Header::spec_new(
        protocol,
        source,
        destination,
        payload.len() as u16,
        identification,
    );
    let bytes = header.encoding() + payload + padding;
    assert(bytes =~= header.encoding() + (payload + padding));
    crate::protocols::ipv4::ipv4_header_round_trip(header, payload + padding);
    crate::protocols::ipv4::ipv4_header_length(header);
    assert(bytes.subrange(20, 20 + payload.len() as int) =~= payload);
}

/// A datagram for which there is no route is refused, and nothing else happens.
pub proof fn no_route_no_change(context: ContextView, datagram: Outgoing, now: Instant)
    requires
        route_to(context.routes, datagram.destination) is None,
    ensures
        outgoing_sent(context, datagram, now).0 == context,
        outgoing_sent(context, datagram, now).1 is Err,
{
}

} // verus!
