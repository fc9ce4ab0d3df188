//! How an interface is set up: its addresses, its routes and its sessions.

use super::resolution::{
    a_question_goes_to_everybody, an_address_is_requested_in_time,
    an_announcement_goes_to_everybody, asks,
};
use super::sending::{is_awaited, is_missing};
use crate::net::Ipv4Addr;
use crate::protocols::ipv4::mask_bits;
use crate::protocols::ipv4::icmp::EchoMessageDataUnix;
use crate::runtime::address_table::{first_for, has_address, without_first};
use crate::runtime::channel::PayloadView;
use crate::runtime::interface::{InterfaceError, SendError};
use crate::runtime::interface::context::ContextView;
use crate::runtime::interface::l2_ethernet::arp_timers;
use crate::runtime::interface::l2_ethernet::arp_table::{arp_request, ArpTableEntry};
use crate::runtime::interface::l4_managers::ping::{
    earlier, session_at, timers_performed, PingEntryKey,
};
use crate::runtime::interface::worker::{
    address_checked, addresses_checked, all_timers, control_handled, control_ok, controls_handled,
    handled_count, pending_cancelled, pending_checked, route_source, ControlReply,
    InterfaceControlMessage, PendingAddress, Told, WorkerView,
};
use crate::runtime::route_table::{
    ordered, put_among, route_can_be_put, with_route, without_source, RouteInformation,
};
use crate::time::{Duration, Instant};
use vstd::prelude::*;

verus! {

/// The address that is removed is the first one of that kind, and no other is.
pub proof fn the_first_such_address_is_removed(
    addresses: Seq<(Ipv4Addr, Ipv4Addr)>,
    value: Ipv4Addr,
    index: int,
)
    ensures
        0 <= index < addresses.len() && addresses[index].0 == value && (forall|i: int|
            0 <= i < index ==> (#[trigger] addresses[i]).0 != value) ==> without_first(
            addresses,
            value,
        ) == addresses.remove(index),
        (forall|i: int| 0 <= i < addresses.len() ==> (#[trigger] addresses[i]).0 != value)
            ==> without_first(addresses, value) == addresses,
    decreases addresses.len(),
{
    if addresses.len() > 0 {
        let rest = addresses.skip(1);
        the_first_such_address_is_removed(rest, value, index - 1);
        assert forall|i: int| 0 <= i < rest.len() implies #[trigger] rest[i] == addresses[i
            + 1] by {}
        if 0 <= index < addresses.len() && addresses[index].0 == value && (forall|i: int|
            0 <= i < index ==> (#[trigger] addresses[i]).0 != value) {
            if index == 0 {
                assert(addresses.remove(0) =~= rest);
            } else {
                assert(addresses[0].0 != value);
                assert forall|i: int| 0 <= i < index - 1 implies (#[trigger] rest[i]).0
                    != value by {
                    assert(addresses[i + 1].0 != value);
                }
                assert(addresses.remove(index) =~= seq![addresses[0]] + rest.remove(index - 1));
            }
        }
        if forall|i: int| 0 <= i < addresses.len() ==> (#[trigger] addresses[i]).0 != value {
            assert(addresses[0].0 != value);
            assert forall|i: int| 0 <= i < rest.len() implies (#[trigger] rest[i]).0 != value by {
                assert(addresses[i + 1].0 != value);
            }
            assert(seq![addresses[0]] + rest =~= addresses);
        }
    }
}

/// The routes that are left without an address are those that do not go from it.
pub proof fn routes_from_an_address_are_removed(
    routes: Seq<RouteInformation<Ipv4Addr>>,
    source: Ipv4Addr,
)
    ensures
        without_source(routes, source) == routes.filter(
            |route: RouteInformation<Ipv4Addr>| route.source.bits != source.bits,
        ),
    decreases routes.len(),
{
    reveal(Seq::filter);
    if routes.len() > 0 {
        routes_from_an_address_are_removed(routes.drop_last(), source);
    }
}

/// The addresses that are not in use yet and that are removed are no longer checked, and who wanted
/// them is told so, the last one first. The others stay.
pub proof fn requests_for_an_address_are_cancelled(pending: Seq<PendingAddress>, addr: Ipv4Addr)
    ensures
        ({
            let (kept, told) = pending_cancelled(pending, addr);
            let removed = pending.filter(|one: PendingAddress| one.0 == addr);
            &&& kept == pending.filter(|one: PendingAddress| one.0 != addr)
            &&& told.len() == removed.len()
            &&& forall|i: int|
                0 <= i < told.len() ==> (#[trigger] told[i]).0 == removed[removed.len() - 1 - i].2
                    && told[i].1 == ControlReply::Failed(InterfaceError::AddressRemoved)
        }),
    decreases pending.len(),
{
    let (kept, told) = pending_cancelled(pending, addr);
    let is = |one: PendingAddress| one.0 == addr;
    let is_not = |one: PendingAddress| one.0 != addr;
    if pending.len() == 0 {
        reveal(Seq::filter);
    } else {
        let rest = pending.skip(1);
        requests_for_an_address_are_cancelled(rest, addr);
        assert(pending =~= seq![pending[0]] + rest);
        filter_of_first(pending, is);
        filter_of_first(pending, is_not);
    }
}

proof fn filter_of_first(pending: Seq<PendingAddress>, test: spec_fn(PendingAddress) -> bool)
    requires
        pending.len() > 0,
    ensures
        pending.filter(test) == if test(pending[0]) {
            seq![pending[0]] + pending.skip(1).filter(test)
        } else {
            pending.skip(1).filter(test)
        },
    decreases pending.len(),
{
    reveal(Seq::filter);
    if pending.len() == 1 {
        assert(pending.drop_last() =~= Seq::<PendingAddress>::empty());
        assert(pending.skip(1) =~= Seq::<PendingAddress>::empty());
        assert(pending.drop_last().filter(test) =~= Seq::<PendingAddress>::empty());
        assert(pending.skip(1).filter(test) =~= Seq::<PendingAddress>::empty());
        assert(pending.last() == pending[0]);
        assert(pending.filter(test) =~= if test(pending[0]) {
            seq![pending[0]] + pending.skip(1).filter(test)
        } else {
            pending.skip(1).filter(test)
        });
    } else {
        filter_of_first(pending.drop_last(), test);
        let rest = pending.skip(1);
        assert(pending.drop_last().skip(1) =~= rest.drop_last());
        assert(rest.last() == pending.last());
        assert(pending.filter(test) =~= if test(pending[0]) {
            seq![pending[0]] + rest.filter(test)
        } else {
            rest.filter(test)
        });
    }
}

/// What is removed with an address is the address, the routes from it and the requests for it. The
/// rest of the interface stays.
pub proof fn an_address_is_removed_with_all_of_it(
    before: WorkerView,
    after: WorkerView,
    addr: Ipv4Addr,
    now: Instant,
)
    requires
        control_handled(before, after, InterfaceControlMessage::IPv4AddressRemove { addr }, now),
    ensures
        after.context.addresses == without_first(before.context.addresses, addr),
        after.context.routes == before.context.routes.filter(
            |route: RouteInformation<Ipv4Addr>| route.source.bits != addr.bits,
        ),
        after.pending == before.pending.filter(|one: PendingAddress| one.0 != addr),
        after.replies.len() >= before.replies.len(),
        after.replies.take(before.replies.len() as int) == before.replies,
        after.ping == before.ping,
        after.context == (ContextView {
            addresses: after.context.addresses,
            routes: after.context.routes,
            ..before.context
        }),
{
    routes_from_an_address_are_removed(before.context.routes, addr);
    requests_for_an_address_are_cancelled(before.pending, addr);
    assert(after.replies.take(before.replies.len() as int) =~= before.replies);
}

/// An address that is to be added is first asked for, in nobody's name. It waits to be used with
/// the mask of its prefix, and who wanted it is told only where the question could not be asked.
pub proof fn an_address_is_asked_for_first(
    before: WorkerView,
    after: WorkerView,
    addr: Ipv4Addr,
    prefix: u8,
    request: u64,
    now: Instant,
) -> (frame: Seq<u8>)
    requires
        control_handled(
            before,
            after,
            InterfaceControlMessage::IPv4AddressAdd { addr, prefix, request },
            now,
        ),
        prefix <= 32,
        !before.context.arp.contains_key(addr.bits) || before.context.arp[addr.bits] is Pending,
    ensures
        asks(frame, before.context.mac, Ipv4Addr { bits: 0 }, addr),
        before.context.sent.len() < before.context.capacity ==> {
            &&& after.context.sent == before.context.sent.push(PayloadView::Packet(frame))
            &&& after.pending.len() == before.pending.len() + 1
            &&& after.pending.drop_last() == before.pending
            &&& after.pending.last().0 == addr
            &&& is_mask(after.pending.last().1, prefix)
            &&& after.pending.last().2 == request
            &&& after.replies == before.replies
        },
        before.context.sent.len() >= before.context.capacity ==> {
            &&& after.context.sent == before.context.sent
            &&& after.pending == before.pending
            &&& after.replies == before.replies.push(
                (
                    request,
                    ControlReply::Failed(
                        InterfaceError::AddressCheckFailed(SendError::BufferFull),
                    ),
                ),
            )
        },
        after.context.addresses == before.context.addresses,
        after.context.routes == before.context.routes,
        after.ping == before.ping,
{
    if after.pending.len() > before.pending.len() {
        assert(after.pending.drop_last() =~= before.pending);
    }
    prefixes_are_masks(prefix);
    a_question_goes_to_everybody(before.context, addr, Ipv4Addr { bits: 0 }, now)
}

/// Whether a mask has as many ones as a prefix says, from the highest bit on.
pub open spec fn is_mask(mask: Ipv4Addr, prefix: u8) -> bool {
    forall|bit: u32| bit < 32 ==> (#[trigger] (mask.bits >> bit) & 1 == 1 <==> bit >= 32 - prefix)
}

/// The mask of a prefix has as many ones as the prefix says, from the highest bit on.
pub proof fn prefixes_are_masks(prefix: u8)
    requires
        prefix <= 32,
    ensures
        is_mask(Ipv4Addr { bits: mask_bits(prefix) }, prefix),
{
    let bits = mask_bits(prefix);
    let shift = (32 - prefix) as u32;
    assert forall|bit: u32| bit < 32 implies (#[trigger] (bits >> bit) & 1 == 1 <==> bit >= 32
        - prefix) by {
        if prefix == 0 {
            assert((0u32 >> bit) & 1 == 0) by (bit_vector);
        } else {
            assert((bits >> bit) & 1 == 1 <==> bit >= shift) by (bit_vector)
                requires
                    bits == !0u32 << shift,
                    bit < 32,
                    shift < 32,
            ;
        }
    }
}

/// Whether two addresses are the same as far as a mask goes.
pub open spec fn agree(one: Ipv4Addr, other: Ipv4Addr, mask: Ipv4Addr) -> bool {
    one.bits & mask.bits == other.bits & mask.bits
}

/// A route goes from the address that is given for it, where the interface has it, and otherwise
/// from the first of its addresses whose network holds the next hop.
pub proof fn a_route_has_a_source(
    addresses: Seq<(Ipv4Addr, Ipv4Addr)>,
    next_hop: Ipv4Addr,
    index: int,
    src: Ipv4Addr,
)
    ensures
        route_source(addresses, next_hop, Some(src)) == if exists|i: int|
            0 <= i < addresses.len() && (#[trigger] addresses[i]).0 == src {
            Ok(src)
        } else {
            Err::<Ipv4Addr, InterfaceError>(InterfaceError::RouteUnknownSource)
        },
        0 <= index < addresses.len() && agree(next_hop, addresses[index].0, addresses[index].1) && (
        forall|i: int|
            0 <= i < index ==> !agree(next_hop, (#[trigger] addresses[i]).0, addresses[i].1))
            ==> route_source(addresses, next_hop, None) == Ok::<Ipv4Addr, InterfaceError>(
            addresses[index].0,
        ),
        (forall|i: int|
            0 <= i < addresses.len() ==> !agree(
                next_hop,
                (#[trigger] addresses[i]).0,
                addresses[i].1,
            )) ==> route_source(addresses, next_hop, None) == Err::<Ipv4Addr, InterfaceError>(
            InterfaceError::RouteNextHopUnreachable,
        ),
{
    the_first_network_is_taken(addresses, next_hop, index);
    if 0 <= index < addresses.len() {
        assert(has_address(addresses, addresses[index].0));
    }
}

/// The address for another one is the first whose network holds it.
pub proof fn the_first_network_is_taken(
    addresses: Seq<(Ipv4Addr, Ipv4Addr)>,
    value: Ipv4Addr,
    index: int,
)
    ensures
        0 <= index < addresses.len() && agree(value, addresses[index].0, addresses[index].1) && (
        forall|i: int|
            0 <= i < index ==> !agree(value, (#[trigger] addresses[i]).0, addresses[i].1))
            ==> first_for(addresses, value) == Some(addresses[index].0),
        (forall|i: int|
            0 <= i < addresses.len() ==> !agree(value, (#[trigger] addresses[i]).0, addresses[i].1))
            ==> first_for(addresses, value) is None,
    decreases addresses.len(),
{
    if addresses.len() > 0 {
        let rest = addresses.skip(1);
        the_first_network_is_taken(rest, value, index - 1);
        assert forall|i: int| 0 <= i < rest.len() implies #[trigger] rest[i] == addresses[i
            + 1] by {}
        if 0 < index < addresses.len() && (forall|i: int|
            0 <= i < index ==> !agree(value, (#[trigger] addresses[i]).0, addresses[i].1)) {
            assert(!agree(value, addresses[0].0, addresses[0].1));
            assert forall|i: int| 0 <= i < index - 1 implies !agree(
                value,
                (#[trigger] rest[i]).0,
                rest[i].1,
            ) by {
                assert(!agree(value, addresses[i + 1].0, addresses[i + 1].1));
            }
        }
        if forall|i: int|
            0 <= i < addresses.len() ==> !agree(
                value,
                (#[trigger] addresses[i]).0,
                addresses[i].1,
            ) {
            assert(!agree(value, addresses[0].0, addresses[0].1));
            assert forall|i: int| 0 <= i < rest.len() implies !agree(
                value,
                (#[trigger] rest[i]).0,
                rest[i].1,
            ) by {
                assert(!agree(value, addresses[i + 1].0, addresses[i + 1].1));
            }
        }
    }
}

/// Whether two routes lead to the same network.
pub open spec fn same_way(
    one: RouteInformation<Ipv4Addr>,
    other: RouteInformation<Ipv4Addr>,
) -> bool {
    one.target == other.target && one.mask == other.mask
}

/// A route that is added takes the place of the one to the same network, and leaves the others as
/// they are.
pub proof fn a_route_replaces_the_one_to_its_network(
    routes: Seq<RouteInformation<Ipv4Addr>>,
    new: RouteInformation<Ipv4Addr>,
)
    requires
        ordered(routes),
    ensures
        ordered(with_route(routes, new)),
        forall|route: RouteInformation<Ipv4Addr>| #[trigger]
            with_route(routes, new).contains(route) <==> route == new || (routes.contains(route)
                && !same_way(route, new)),
{
    route_can_be_put(routes, new);
    let after = with_route(routes, new);
    assert(put_among(routes, after, new) && ordered(after));
    assert forall|route: RouteInformation<Ipv4Addr>| #[trigger]
        after.contains(route) <==> route == new || (routes.contains(route) && !same_way(
            route,
            new,
        )) by {
        if exists|i: int|
            0 <= i < routes.len() && (#[trigger] routes[i]).same_network(new) && after
                == routes.update(i, new) {
            let at = choose|i: int|
                0 <= i < routes.len() && (#[trigger] routes[i]).same_network(new) && after
                    == routes.update(i, new);
            assert(after[at] == new);
            if routes.contains(route) && !same_way(route, new) {
                let j = choose|j: int| 0 <= j < routes.len() && routes[j] == route;
                assert(after[j] == route);
            }
            if after.contains(route) && route != new {
                let j = choose|j: int| 0 <= j < after.len() && after[j] == route;
                assert(routes[j] == route);
                if same_way(route, new) {
                    if j < at {
                        assert(routes[j].before(routes[at]));
                    } else if at < j {
                        assert(routes[at].before(routes[j]));
                    }
                }
            }
        } else {
            let at = choose|i: int|
                0 <= i <= routes.len() && after == #[trigger] routes.insert(i, new);
            assert(after == routes.insert(at, new));
            assert(after[at] == new);
            if routes.contains(route) {
                let j = choose|j: int| 0 <= j < routes.len() && routes[j] == route;
                if j < at {
                    assert(after[j] == route);
                } else {
                    assert(after[j + 1] == route);
                }
            }
            if after.contains(route) && route != new {
                let j = choose|j: int| 0 <= j < after.len() && after[j] == route;
                if j < at {
                    assert(routes[j] == route);
                } else {
                    assert(routes[j - 1] == route);
                }
                if same_way(route, new) {
                    let k = choose|k: int| 0 <= k < routes.len() && routes[k] == route;
                    assert(!routes[k].same_network(new));
                }
            }
        }
    }
}

/// A route that is asked for is added with its source, its mask and its next hop, and who asked is
/// told so. Where no source can be had nothing changes, and who asked is told why.
pub proof fn a_route_is_added_or_refused(
    before: WorkerView,
    after: WorkerView,
    target: Ipv4Addr,
    target_mask: Ipv4Addr,
    next_hop: Ipv4Addr,
    src: Option<Ipv4Addr>,
    request: u64,
    now: Instant,
)
    requires
        control_handled(
            before,
            after,
            InterfaceControlMessage::IPv4RouteAdd { target, target_mask, next_hop, src, request },
            now,
        ),
    ensures
        match route_source(before.context.addresses, next_hop, src) {
            Ok(source) => {
                &&& after.context.routes == with_route(
                    before.context.routes,
                    RouteInformation {
                        target,
                        mask: target_mask,
                        source,
                        next_hop: Some(next_hop),
                    },
                )
                &&& after.replies == before.replies.push((request, ControlReply::Done))
            },
            Err(error) => {
                &&& after.context == before.context
                &&& after.replies == before.replies.push((request, ControlReply::Failed(error)))
            },
        },
        after.context == (ContextView { routes: after.context.routes, ..before.context }),
        after.pending == before.pending,
        after.ping == before.ping,
{
}

/// A session that is asked for is started with a number that no other session to its target has,
/// with its count and its interval, and who asked is told its key. Only where all numbers are taken
/// none is started.
pub proof fn a_session_is_started_where_a_number_is_free(
    before: WorkerView,
    after: WorkerView,
    target: Ipv4Addr,
    count: Option<usize>,
    interval: Duration,
    request: u64,
    now: Instant,
    free: u16,
)
    requires
        control_handled(
            before,
            after,
            InterfaceControlMessage::Ping { target, count, interval, request },
            now,
        ),
        forall|i: int|
            0 <= i < before.ping.sessions.len() ==> (
            #[trigger] before.ping.sessions[i]).key != PingEntryKey(target, free),
    ensures
        after.replies.len() == before.replies.len() + 1,
        after.replies.drop_last() == before.replies,
        after.replies.last().0 == request,
        after.replies.last().1 matches ControlReply::Session(key) && {
            let sessions = after.ping.sessions;
            &&& key.0 == target
            &&& forall|i: int|
                0 <= i < before.ping.sessions.len() ==> (
                #[trigger] before.ping.sessions[i]).key != key
            &&& sessions.len() == before.ping.sessions.len() + 1
            &&& sessions.drop_last() == before.ping.sessions
            &&& sessions.last().key == key
            &&& sessions.last().count == count
            &&& sessions.last().interval == interval
            &&& sessions.last().sent_count == 0
        },
        after.ping.events == before.ping.events,
        after.context == before.context,
        after.pending == before.pending,
{
    assert(session_at(before.ping.sessions, PingEntryKey(target, free)) is None);
    assert(after.replies.drop_last() =~= before.replies);
    assert(after.ping.sessions.drop_last() =~= before.ping.sessions);
    if let ControlReply::Session(key) = after.replies.last().1 {
        assert forall|i: int| 0 <= i < before.ping.sessions.len() implies (
        #[trigger] before.ping.sessions[i]).key != key by {
            assert(session_at(before.ping.sessions, key) is None);
        }
    }
}

/// An address for which nobody answered is used: the interface has it, its network can be reached
/// from it, and it is announced. One that somebody has is not used. While it is waited for an
/// answer nothing is decided.
pub proof fn an_address_is_used_where_nobody_has_it(
    context: ContextView,
    pending: PendingAddress,
    now: Instant,
) -> (frame: Seq<u8>)
    requires
        context.sent.len() < context.capacity,
    ensures
        asks(frame, context.mac, pending.0, pending.0),
        ({
            let (addr, mask, _) = pending;
            let (after, reply) = address_checked(context, pending, now);
            &&& is_missing(context, addr, now) ==> {
                &&& reply == Some(ControlReply::Done)
                &&& after.addresses == context.addresses.push((addr, mask))
                &&& after.routes == with_route(
                    context.routes,
                    RouteInformation {
                        target: Ipv4Addr { bits: addr.bits & mask.bits },
                        mask,
                        source: addr,
                        next_hop: None,
                    },
                )
                &&& after.sent == context.sent.push(PayloadView::Packet(frame))
            }
            &&& context.arp.contains_key(addr.bits) && (
            context.arp[addr.bits] matches ArpTableEntry::Resolved { last_seen, .. } && now.nanos
                - last_seen.nanos < 30_000_000_000) ==> {
                &&& reply == Some(ControlReply::Failed(InterfaceError::AddressInUse))
                &&& after == context
            }
            &&& is_awaited(context, addr, now) ==> reply is None && after == context
            &&& !is_missing(context, addr, now) ==> {
                &&& after.addresses == context.addresses
                &&& after.routes == context.routes
                &&& reply != Some(ControlReply::Done)
            }
            &&& after.waiting == context.waiting
            &&& after.mac == context.mac
            &&& after.mtu == context.mtu
        }),
{
    let (addr, mask, _) = pending;
    an_address_is_requested_in_time(context.arp, addr, Ipv4Addr::unspecified(), now);
    let (arp, state) = arp_request(context.arp, addr, Ipv4Addr::unspecified(), now);
    let requested = ContextView { arp, ..context };
    if state is Timeout {
        assert(is_missing(context, addr, now));
    }
    an_announcement_goes_to_everybody(context, addr)
}

/// A question for an address that was not answered in time is asked again, five times at most,
/// before the address is used.
pub proof fn an_address_is_asked_for_again(
    context: ContextView,
    pending: PendingAddress,
    now: Instant,
) -> (frame: Seq<u8>)
    requires
        context.sent.len() < context.capacity,
        context.arp.contains_key(pending.0.bits),
        context.arp[pending.0.bits] matches ArpTableEntry::Pending { since, retry_count, .. }
            && now.nanos - since.nanos > 100_000_000 && retry_count < 5,
    ensures
        asks(frame, context.mac, Ipv4Addr { bits: 0 }, pending.0),
        ({
            let (after, reply) = address_checked(context, pending, now);
            &&& reply is None
            &&& after.sent == context.sent.push(PayloadView::Packet(frame))
            &&& after.arp[pending.0.bits] matches ArpTableEntry::Pending { since, retry_count, .. }
            &&& since == now
            &&& retry_count == context.arp[pending.0.bits]->retry_count + 1
        }),
{
    an_address_is_requested_in_time(context.arp, pending.0, Ipv4Addr::unspecified(), now);
    a_question_goes_to_everybody(context, pending.0, Ipv4Addr { bits: 0 }, now)
}

/// The addresses that are not in use yet are looked after from the last to the first, each with
/// what the ones behind it left of the interface. The ones of which nothing is decided stay, in
/// order, and who wanted another is told what became of it.
pub proof fn pending_addresses_take_turns(
    context: ContextView,
    pending: Seq<PendingAddress>,
    now: Instant,
)
    ensures
        addresses_checked(context, Seq::empty(), now) == (
            context,
            Seq::<PendingAddress>::empty(),
            Seq::<Told>::empty(),
        ),
        pending.len() > 0 ==> {
            let (before, kept, told) = addresses_checked(context, pending.skip(1), now);
            let (after, reply) = address_checked(before, pending[0], now);
            let came = addresses_checked(context, pending, now);
            &&& came.0 == after
            &&& came.1 == if reply is None {
                seq![pending[0]] + kept
            } else {
                kept
            }
            &&& came.2 == if reply is None {
                told
            } else {
                told.push((pending[0].2, reply->0))
            }
        },
{
}

/// What is done in time is done for open questions first and for sessions then. There is more to do
/// at the earlier of their times, and after a second where neither has one.
pub proof fn there_is_more_to_do_within_a_second(
    worker: WorkerView,
    stops: Seq<PingEntryKey>,
    clock: EchoMessageDataUnix,
    questions: Seq<(Ipv4Addr, Ipv4Addr)>,
    identifications: Seq<u16>,
    now: Instant,
)
    requires
        now.nanos + 1_000_000_000 <= u64::MAX,
    ensures
        ({
            let (asked, told, one) = arp_timers(worker.context, worker.ping, questions, now);
            let (context, ping, other) = timers_performed(
                asked,
                told,
                stops,
                clock,
                identifications,
                now,
            );
            let (after, left, deadline) = all_timers(
                worker,
                stops,
                clock,
                questions,
                identifications,
                now,
            );
            &&& after == context
            &&& left == ping
            &&& one matches Some(time) ==> deadline.nanos <= time.nanos
            &&& other matches Some(time) ==> deadline.nanos <= time.nanos
            &&& Some(deadline) == one || Some(deadline) == other || (one is None && other is None
                && deadline.nanos == now.nanos + 1_000_000_000)
        }),
{
}

/// What is decided of addresses that are not in use yet is told behind what was told before.
pub proof fn decisions_are_told_last(worker: WorkerView, now: Instant)
    ensures
        ({
            let (context, kept, told) = addresses_checked(worker.context, worker.pending, now);
            let after = pending_checked(worker, now);
            &&& after.context == context
            &&& after.pending == kept
            &&& after.replies == worker.replies + told
            &&& after.ping == worker.ping
        }),
{
}

/// The messages that are handled are those before the first stop, one after the other.
pub proof fn messages_are_handled_until_a_stop(
    messages: Seq<InterfaceControlMessage>,
    index: int,
)
    ensures
        0 <= index < messages.len() && messages[index] is Stop && (forall|i: int|
            0 <= i < index ==> !((#[trigger] messages[i]) is Stop)) ==> handled_count(messages)
            == index,
        (forall|i: int| 0 <= i < messages.len() ==> !((#[trigger] messages[i]) is Stop))
            ==> handled_count(messages) == messages.len(),
    decreases messages.len(),
{
    if messages.len() > 0 {
        let rest = messages.skip(1);
        messages_are_handled_until_a_stop(rest, index - 1);
        assert forall|i: int| 0 <= i < rest.len() implies #[trigger] rest[i]
            == messages[i + 1] by {}
        if 0 < index < messages.len() && (forall|i: int|
            0 <= i < index ==> !((#[trigger] messages[i]) is Stop)) {
            assert(!(messages[0] is Stop));
            assert forall|i: int| 0 <= i < index - 1 implies !((#[trigger] rest[i]) is Stop) by {
                assert(!(messages[i + 1] is Stop));
            }
        }
        if forall|i: int| 0 <= i < messages.len() ==> !((#[trigger] messages[i]) is Stop) {
            assert(!(messages[0] is Stop));
            assert forall|i: int| 0 <= i < rest.len() implies !((#[trigger] rest[i]) is Stop) by {
                assert(!(messages[i + 1] is Stop));
            }
        }
    }
}

/// Each message is handled with what the ones before it left.
pub proof fn messages_are_handled_in_turn(
    states: Seq<WorkerView>,
    messages: Seq<InterfaceControlMessage>,
    now: Instant,
    index: int,
)
    requires
        controls_handled(states, messages, now),
        0 <= index < handled_count(messages),
    ensures
        states.len() == handled_count(messages) + 1,
        control_handled(states[index], states[index + 1], messages[index], now),
{
    assert(control_handled(states[index], states[index + 1], messages[index], now));
}

/// A request can be handled, unless it is for an address with a prefix that is too long or that was
/// asked for too often.
pub proof fn ordinary_requests_can_be_handled(
    context: ContextView,
    message: InterfaceControlMessage,
    now: Instant,
)
    requires
        message matches InterfaceControlMessage::IPv4AddressAdd { addr, prefix, .. } ==> prefix
            <= 32 && !context.arp.contains_key(addr.bits),
    ensures
        control_ok(context, message, now),
{
}

/// An address for which nobody answered is used also where it cannot be announced. One that should
/// be asked for again is given up where the network has no room for the question, and who wanted it
/// is told so.
pub proof fn an_address_is_decided_on_without_room(
    context: ContextView,
    pending: PendingAddress,
    now: Instant,
)
    requires
        context.sent.len() >= context.capacity,
    ensures
        ({
            let (addr, mask, _) = pending;
            let (after, reply) = address_checked(context, pending, now);
            &&& is_missing(context, addr, now) ==> {
                &&& reply == Some(ControlReply::Done)
                &&& after.addresses == context.addresses.push((addr, mask))
            }
            &&& context.arp.contains_key(addr.bits) && (
            context.arp[addr.bits] matches ArpTableEntry::Pending { since, retry_count, .. }
                && now.nanos - since.nanos > 100_000_000 && retry_count < 5) ==> {
                &&& reply == Some(
                    ControlReply::Failed(
                        InterfaceError::AddressCheckFailed(SendError::BufferFull),
                    ),
                )
                &&& after.addresses == context.addresses
            }
            &&& after.sent == context.sent
        }),
{
    let (addr, mask, _) = pending;
    an_address_is_requested_in_time(context.arp, addr, Ipv4Addr::unspecified(), now);
    let (arp, _) = arp_request(context.arp, addr, Ipv4Addr::unspecified(), now);
    a_question_goes_to_everybody(
        ContextView { arp, ..context },
        addr,
        Ipv4Addr { bits: 0 },
        now,
    );
}

} // verus!
