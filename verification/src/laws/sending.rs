//! Where datagrams go, and in what form.

use super::datagrams::{a_datagram_is_written_to_its_places, adds_up};
use super::resolution::{
    a_datagram_is_framed, a_question_goes_to_everybody, an_address_is_requested_in_time, asks,
    delivers,
};
use super::wire::{four, six, two};
use crate::net::Ipv4Addr;
use crate::protocols::ethernet::mac::MacAddr;
use crate::protocols::ipv4::{IPProtocolTypes, IPv4Header};
use crate::runtime::channel::PayloadView;
use crate::runtime::interface::SendError;
use crate::runtime::interface::context::{ContextView, DatagramView};
use crate::runtime::interface::l2_ethernet::ipv4_sent;
use crate::runtime::interface::l2_ethernet::arp_table::{arp_request, ArpState, ArpTableEntry};
use crate::runtime::interface::l3_ipv4::{outgoing_sent, route_to, Outgoing};
use crate::runtime::route_table::{first_match, ordered, RouteInformation};
use crate::time::Instant;
use crate::write_to_buffer::WriteToBuffer;
use vstd::prelude::*;

verus! {

/// Whether a route leads to an address.
pub open spec fn leads_to(route: RouteInformation<Ipv4Addr>, address: Ipv4Addr) -> bool {
    address.bits & route.mask.bits == route.target.bits
}

/// Whether a route is the one that is taken to an address: none with a longer mask leads there.
pub open spec fn is_taken(
    routes: Seq<RouteInformation<Ipv4Addr>>,
    address: Ipv4Addr,
    route: RouteInformation<Ipv4Addr>,
) -> bool {
    &&& routes.contains(route)
    &&& leads_to(route, address)
    &&& forall|i: int|
        0 <= i < routes.len() && leads_to(#[trigger] routes[i], address) ==> routes[i].mask.bits
            <= route.mask.bits
}

/// The route that is taken to an address is the one with the longest mask of those that lead there.
/// Where none leads there, none is taken.
pub proof fn the_longest_mask_is_taken(
    routes: Seq<RouteInformation<Ipv4Addr>>,
    address: Ipv4Addr,
)
    requires
        ordered(routes),
    ensures
        forall|route: RouteInformation<Ipv4Addr>| #[trigger]
            is_taken(routes, address, route) <==> route_to(routes, address) == Some(route),
        route_to(routes, address) is None <==> forall|i: int|
            0 <= i < routes.len() ==> !leads_to(#[trigger] routes[i], address),
{
    assert forall|i: int| 0 <= i < routes.len() implies leads_to(#[trigger] routes[i], address)
        == routes[i].matches(address) by {}
    if exists|i: int| #[trigger] first_match(routes, address, i) {
        let first = choose|i: int| #[trigger] first_match(routes, address, i);
        assert(leads_to(routes[first], address));
        assert forall|i: int|
            0 <= i < routes.len() && leads_to(
                #[trigger] routes[i],
                address,
            ) implies routes[i].mask.bits <= routes[first].mask.bits by {
            if i < first {
                assert(!routes[i].matches(address));
            } else if first < i {
                assert(routes[first].before(routes[i]));
            }
        }
        assert(is_taken(routes, address, routes[first]));
        assert forall|route: RouteInformation<Ipv4Addr>| #[trigger]
            is_taken(routes, address, route) implies route == routes[first] by {
            let i = choose|i: int| 0 <= i < routes.len() && routes[i] == route;
            if i < first {
                assert(!routes[i].matches(address));
            } else if first < i {
                assert(routes[first].before(routes[i]));
                assert(routes[first].mask.bits <= routes[i].mask.bits);
                assert(routes[first].mask == routes[i].mask);
            }
        }
    } else {
        assert forall|i: int| 0 <= i < routes.len() implies !leads_to(
            #[trigger] routes[i],
            address,
        ) by {
            none_leads(routes, address, i);
        }
    }
}

proof fn none_leads(routes: Seq<RouteInformation<Ipv4Addr>>, address: Ipv4Addr, at: int)
    requires
        0 <= at < routes.len(),
        forall|i: int| !#[trigger] first_match(routes, address, i),
    ensures
        forall|i: int| 0 <= i <= at ==> !(#[trigger] routes[i]).matches(address),
    decreases at,
{
    if at > 0 {
        none_leads(routes, address, at - 1);
    }
    assert(!first_match(routes, address, at));
}

/// Whether bytes are the header of a datagram.
pub open spec fn heads(
    bytes: Seq<u8>,
    source: Ipv4Addr,
    destination: Ipv4Addr,
    protocol: IPProtocolTypes,
    length: nat,
    identification: u16,
) -> bool {
    &&& bytes.len() == 20
    &&& bytes[0] == 0x45
    &&& bytes[1] == 0
    &&& two(bytes, 2) == 20 + length
    &&& two(bytes, 4) == identification
    &&& two(bytes, 6) == 0x4000
    &&& bytes[8] == 64
    &&& bytes[9] == match protocol {
        IPProtocolTypes::ICMP => 1,
        IPProtocolTypes::TCP => 6,
        IPProtocolTypes::UDP => 17,
        IPProtocolTypes::Other(value) => value,
    }
    &&& four(bytes, 12) == source.bits
    &&& four(bytes, 16) == destination.bits
    &&& adds_up(bytes)
}

/// A datagram goes from the address that is given for it, and from that of its route where none is.
/// It goes to the next hop of its route, and straight to its destination where there is none. What
/// is too short to be quoted, too long for the interface or leads nowhere is refused.
pub proof fn a_datagram_takes_its_route(
    context: ContextView,
    datagram: Outgoing,
    now: Instant,
    route: RouteInformation<Ipv4Addr>,
) -> (header: IPv4Header)
    requires
        ordered(context.routes),
        datagram.payload.len() <= 65515,
        20 <= context.mtu <= usize::MAX,
    ensures
        ({
            let given = datagram.source.bits != 0;
            let source = if given {
                datagram.source
            } else {
                route.source
            };
            let (after, result) = outgoing_sent(context, datagram, now);
            &&& datagram.length < 8 ==> {
                &&& after == context
                &&& result == Err::<(), SendError>(SendError::PayloadTooShort)
            }
            &&& datagram.length >= 8 && datagram.length > context.mtu - 20 ==> {
                &&& after == context
                &&& result matches Err(SendError::PayloadTooLarge { max_size })
                &&& max_size == context.mtu - 20
            }
            &&& 8 <= datagram.length <= context.mtu - 20 && (forall|i: int|
                0 <= i < context.routes.len() ==> !leads_to(
                    #[trigger] context.routes[i],
                    datagram.destination,
                )) ==> {
                &&& after == context
                &&& result == Err::<(), SendError>(SendError::NoRouteToHost)
            }
            &&& 8 <= datagram.length <= context.mtu - 20 && is_taken(
                context.routes,
                datagram.destination,
                route,
            ) ==> {
                &&& header.source_address == source
                &&& header.destination_address == datagram.destination
                &&& header.protocol == datagram.protocol
                &&& heads(
                    header.encoding(),
                    source,
                    datagram.destination,
                    datagram.protocol,
                    datagram.payload.len(),
                    datagram.identification,
                )
                &&& (after, result) == ipv4_sent(
                    context,
                    if route.next_hop is Some {
                        route.next_hop->0
                    } else {
                        datagram.destination
                    },
                    source,
                    (header, datagram.payload),
                    now,
                )
            }
        }),
{
    the_longest_mask_is_taken(context.routes, datagram.destination);
    let source = if datagram.source.bits != 0 {
        datagram.source
    } else {
        route.source
    };
    assert(datagram.source == Ipv4Addr::unspecified() <==> datagram.source.bits == 0);
    a_datagram_is_written_to_its_places(
        datagram.protocol,
        source,
        datagram.destination,
        datagram.payload.len() as u16,
        datagram.identification,
    );
    IPv4Header::spec_new(
        datagram.protocol,
        source,
        datagram.destination,
        datagram.payload.len() as u16,
        datagram.identification,
    )
}

/// Whether the link layer address of a hop is known.
pub open spec fn is_known(context: ContextView, hop: Ipv4Addr, mac: MacAddr, now: Instant) -> bool {
    &&& context.arp.contains_key(hop.bits)
    &&& context.arp[hop.bits] matches ArpTableEntry::Resolved { last_seen, address }
    &&& address == mac
    &&& now.nanos - last_seen.nanos < 60_000_000_000
}

/// Whether a question for the link layer address of a hop is still waited for.
pub open spec fn is_awaited(context: ContextView, hop: Ipv4Addr, now: Instant) -> bool {
    &&& context.arp.contains_key(hop.bits)
    &&& context.arp[hop.bits] matches ArpTableEntry::Pending { since, .. }
    &&& now.nanos - since.nanos <= 100_000_000
}

/// Whether nobody answers for a hop: it was asked for six times, or this was so less than half a
/// minute ago.
pub open spec fn is_missing(context: ContextView, hop: Ipv4Addr, now: Instant) -> bool {
    &&& context.arp.contains_key(hop.bits)
    &&& match context.arp[hop.bits] {
        ArpTableEntry::Pending { since, retry_count, .. } => now.nanos - since.nanos > 100_000_000
            && retry_count >= 5,
        ArpTableEntry::Timeout { since } => now.nanos - since.nanos <= 30_000_000_000,
        ArpTableEntry::Resolved { .. } => false,
    }
}

/// A datagram for a hop whose link layer address is known is sent to it at once, and changes
/// nothing else. It is refused where the network has no room.
pub proof fn a_datagram_goes_to_a_known_hop(
    context: ContextView,
    hop: Ipv4Addr,
    source: Ipv4Addr,
    datagram: DatagramView,
    now: Instant,
    mac: MacAddr,
) -> (frame: Seq<u8>)
    requires
        is_known(context, hop, mac, now),
    ensures
        delivers(frame, context.mac, mac, datagram),
        context.sent.len() < context.capacity ==> ipv4_sent(context, hop, source, datagram, now)
            == (
            ContextView { sent: context.sent.push(PayloadView::Packet(frame)), ..context },
            Ok::<(), SendError>(()),
        ),
        context.sent.len() >= context.capacity ==> ipv4_sent(context, hop, source, datagram, now)
            == (context, Err::<(), SendError>(SendError::BufferFull)),
{
    an_address_is_requested_in_time(context.arp, hop, source, now);
    a_datagram_is_framed(context.mac, mac, datagram);
    a_question_goes_to_everybody(context, hop, source, now);
    crate::runtime::interface::l2_ethernet::datagram_frame(context.mac, mac, datagram)
}

/// A datagram for a hop that does not answer is refused, and neither sent nor kept.
pub proof fn a_datagram_for_a_missing_hop_is_refused(
    context: ContextView,
    hop: Ipv4Addr,
    source: Ipv4Addr,
    datagram: DatagramView,
    now: Instant,
)
    requires
        is_missing(context, hop, now),
    ensures
        ({
            let (after, result) = ipv4_sent(context, hop, source, datagram, now);
            &&& result == Err::<(), SendError>(SendError::ArpTimeout)
            &&& after == ContextView { arp: after.arp, ..context }
            &&& after.arp.contains_key(hop.bits)
            &&& after.arp[hop.bits] is Timeout
        }),
{
    an_address_is_requested_in_time(context.arp, hop, source, now);
}

/// A datagram for another hop waits behind those that already wait for it, five at most. The hop is
/// asked for, unless a question is still waited for.
pub proof fn a_datagram_waits_for_its_hop(
    context: ContextView,
    hop: Ipv4Addr,
    source: Ipv4Addr,
    datagram: DatagramView,
    now: Instant,
) -> (frame: Seq<u8>)
    requires
        forall|mac: MacAddr| !#[trigger] is_known(context, hop, mac, now),
        !is_missing(context, hop, now),
        context.sent.len() < context.capacity,
    ensures
        ({
            let key = hop.bits;
            let (after, result) = ipv4_sent(context, hop, source, datagram, now);
            let asker = if context.arp.contains_key(key) && context.arp[key] is Pending {
                context.arp[key]->source
            } else {
                source
            };
            &&& asks(frame, context.mac, asker, hop)
            &&& after.sent == if is_awaited(context, hop, now) {
                context.sent
            } else {
                context.sent.push(PayloadView::Packet(frame))
            }
            &&& after.arp.contains_key(key)
            &&& after.arp[key] matches ArpTableEntry::Pending { since, retry_count, source }
            &&& source == asker
            &&& is_awaited(context, hop, now) ==> after.arp == context.arp
            &&& !is_awaited(context, hop, now) ==> since == now
            &&& context.queue(key).len() < 5 ==> {
                &&& result is Ok
                &&& after.queue(key) == context.queue(key).push(datagram)
            }
            &&& context.queue(key).len() >= 5 ==> {
                &&& result == Err::<(), SendError>(SendError::ArpResolveBufferFull)
                &&& after.waiting == context.waiting
            }
            &&& forall|other: u32| other != key ==> #[trigger] after.queue(other) == context.queue(
                other,
            )
            &&& after == ContextView {
                sent: after.sent,
                arp: after.arp,
                waiting: after.waiting,
                ..context
            }
        }),
{
    let key = hop.bits;
    an_address_is_requested_in_time(context.arp, hop, source, now);
    let (table, state) = arp_request(context.arp, hop, source, now);
    let requested = ContextView { arp: table, ..context };
    if context.arp.contains_key(key) {
        if let ArpTableEntry::Resolved { last_seen, address } = context.arp[key] {
            assert(!is_known(context, hop, address, now));
        }
    }
    match state {
        ArpState::PendingRetry { source } => a_question_goes_to_everybody(
            requested,
            hop,
            source,
            now,
        ),
        ArpState::PendingWait { .. } => a_question_goes_to_everybody(
            requested,
            hop,
            context.arp[key]->source,
            now,
        ),
        _ => a_question_goes_to_everybody(requested, hop, source, now),
    }
}

/// A datagram for a hop that would have to be asked for is refused where the network has no room
/// for the question. It is not kept.
pub proof fn a_datagram_is_refused_where_nobody_can_be_asked(
    context: ContextView,
    hop: Ipv4Addr,
    source: Ipv4Addr,
    datagram: DatagramView,
    now: Instant,
)
    requires
        forall|mac: MacAddr| !#[trigger] is_known(context, hop, mac, now),
        !is_missing(context, hop, now),
        !is_awaited(context, hop, now),
        context.sent.len() >= context.capacity,
    ensures
        ({
            let (after, result) = ipv4_sent(context, hop, source, datagram, now);
            &&& result == Err::<(), SendError>(SendError::BufferFull)
            &&& after == ContextView { arp: after.arp, ..context }
        }),
{
    let key = hop.bits;
    an_address_is_requested_in_time(context.arp, hop, source, now);
    let (table, state) = arp_request(context.arp, hop, source, now);
    let requested = ContextView { arp: table, ..context };
    if context.arp.contains_key(key) {
        if let ArpTableEntry::Resolved { last_seen, address } = context.arp[key] {
            assert(!is_known(context, hop, address, now));
        }
    }
    match state {
        ArpState::PendingRetry { source } => {
            a_question_goes_to_everybody(requested, hop, source, now);
        },
        _ => {
            a_question_goes_to_everybody(requested, hop, source, now);
        },
    }
}

/// The next hop of a datagram: that of its route, and its destination where the route has none.
pub open spec fn hop_of(route: RouteInformation<Ipv4Addr>, datagram: Outgoing) -> Ipv4Addr {
    if route.next_hop is Some {
        route.next_hop->0
    } else {
        datagram.destination
    }
}

/// A datagram that is sent has the address that was given for it as its source, and that of its
/// route where none was given. It is for its destination, holds what it was given, and goes to the
/// link layer address of its next hop.
pub proof fn a_sent_datagram_is_from_the_address_that_is_given(
    context: ContextView,
    datagram: Outgoing,
    now: Instant,
    route: RouteInformation<Ipv4Addr>,
    mac: MacAddr,
) -> (frame: Seq<u8>)
    requires
        ordered(context.routes),
        datagram.payload.len() <= 65515,
        context.mtu <= usize::MAX,
        8 <= datagram.length <= context.mtu - 20,
        is_taken(context.routes, datagram.destination, route),
        context.sent.len() < context.capacity,
        is_known(context, hop_of(route, datagram), mac, now),
    ensures
        six(frame, 0) == mac,
        six(frame, 6) == context.mac,
        two(frame, 12) == 0x0800,
        four(frame, 26) == if datagram.source.bits != 0 {
            datagram.source.bits
        } else {
            route.source.bits
        },
        four(frame, 30) == datagram.destination.bits,
        frame.skip(34) == datagram.payload,
        outgoing_sent(context, datagram, now).1 is Ok,
        outgoing_sent(context, datagram, now).0.sent == context.sent.push(
            PayloadView::Packet(frame),
        ),
{
    let source = if datagram.source.bits != 0 {
        datagram.source
    } else {
        route.source
    };
    let hop = hop_of(route, datagram);
    let header = a_datagram_takes_its_route(context, datagram, now, route);
    let carried = (header, datagram.payload);
    let frame = a_datagram_goes_to_a_known_hop(context, hop, source, carried, now, mac);
    let bytes = header.encoding();
    assert forall|i: int| 0 <= i < 20 implies frame[14 + i] == #[trigger] bytes[i] by {
        assert(frame.skip(14)[i] == (bytes + datagram.payload)[i]);
    }
    assert(frame[26] == bytes[12] && frame[27] == bytes[13] && frame[28] == bytes[14] && frame[29]
        == bytes[15] && frame[30] == bytes[16] && frame[31] == bytes[17] && frame[32] == bytes[18]
        && frame[33] == bytes[19]);
    assert(frame.skip(34) =~= frame.skip(14).skip(20));
    assert((bytes + datagram.payload).skip(20) =~= datagram.payload);
    frame
}

/// So does a datagram that waits to be sent.
pub proof fn a_waiting_datagram_is_from_the_address_that_is_given(
    context: ContextView,
    datagram: Outgoing,
    now: Instant,
    route: RouteInformation<Ipv4Addr>,
)
    requires
        ordered(context.routes),
        datagram.payload.len() <= 65515,
        context.mtu <= usize::MAX,
        8 <= datagram.length <= context.mtu - 20,
        is_taken(context.routes, datagram.destination, route),
        context.sent.len() < context.capacity,
        forall|mac: MacAddr| !#[trigger] is_known(context, hop_of(route, datagram), mac, now),
        !is_missing(context, hop_of(route, datagram), now),
        context.queue(hop_of(route, datagram).bits).len() < 5,
    ensures
        ({
            let key = hop_of(route, datagram).bits;
            let (after, result) = outgoing_sent(context, datagram, now);
            let waiting = after.queue(key).last();
            &&& result is Ok
            &&& after.queue(key).len() == context.queue(key).len() + 1
            &&& waiting.0.source_address == if datagram.source.bits != 0 {
                datagram.source
            } else {
                route.source
            }
            &&& waiting.0.destination_address == datagram.destination
            &&& waiting.1 == datagram.payload
        }),
{
    let source = if datagram.source.bits != 0 {
        datagram.source
    } else {
        route.source
    };
    let hop = hop_of(route, datagram);
    let header = a_datagram_takes_its_route(context, datagram, now, route);
    let carried = (header, datagram.payload);
    a_datagram_waits_for_its_hop(context, hop, source, carried, now);
    let after = outgoing_sent(context, datagram, now).0;
    assert(after.queue(hop.bits) == context.queue(hop.bits).push(carried));
    assert(after.queue(hop.bits).last() == carried);
}

} // verus!
