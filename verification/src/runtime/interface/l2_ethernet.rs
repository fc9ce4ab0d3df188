//! The link layer.

pub mod arp_table;

use super::context::{
    queue_view, send_frame, ContextView, DatagramView, InterfaceContext,
    MAX_IPV4_PENDING_BUFFER_SIZE,
};
use super::l3_ipv4::{ipv4_handled, ipv4_ok, IPv4Handler};
use super::l4_managers::ping::{earlier, earlier_of, PingView};
use super::l4_managers::{losses_forwarded, Managers};
use super::{AsyncSendError, LossCause, LossView, SendError, SendResult};
use crate::buffer::{as_slice, bytes_contents, slice_bytes};
use crate::net::Ipv4Addr;
use crate::protocols::arp::{parse_arp, ArpMessage, Operation};
use crate::protocols::ethernet::mac::MacAddr;
use crate::protocols::ethernet::{
    header_complete, is_header_complete, parse_header, EtherType, EthernetHeader,
};
use crate::protocols::ipv4::icmp::EchoMessageDataUnix;
use crate::protocols::ipv4::IPv4Header;
use crate::random::u16_between;
use crate::runtime::address_table::has_address;
use crate::runtime::channel::PayloadView;
use crate::time::Instant;
use crate::write_to_buffer::WriteToBuffer;
use arp_table::{
    arp_asked, arp_can_count, arp_may_ask, arp_request, lists_pending, request_keeps_other_entries,
    ArpState, ArpTableEntry,
};
use bytes::Bytes;
use vstd::prelude::*;

verus! {

/// The frame that carries a payload.
pub open spec fn frame_of(
    source: MacAddr,
    destination: MacAddr,
    ether_type: EtherType,
    payload: Seq<u8>,
) -> Seq<u8> {
    EthernetHeader {
        destination_address: destination,
        source_address: source,
        ether_type,
        vlan: None,
    }.encoding() + payload
}

/// The frame that carries a datagram.
pub open spec fn datagram_frame(source: MacAddr, destination: MacAddr, datagram: DatagramView) -> Seq<
    u8,
> {
    frame_of(source, destination, EtherType::IPv4, datagram.0.encoding() + datagram.1)
}

/// What comes of asking for the link layer address behind `target`: the question is counted, and
/// sent where it is pending or new.
pub open spec fn arp_request_sent(
    context: ContextView,
    target: Ipv4Addr,
    source: Ipv4Addr,
    now: Instant,
) -> (ContextView, SendResult) {
    let asked = ContextView { arp: arp_asked(context.arp, target, source, now), ..context };
    if arp_may_ask(context.arp, target) {
        send_frame(
            asked,
            frame_of(
                context.mac,
                MacAddr::broadcast(),
                EtherType::ARP,
                ArpMessage::request(context.mac, target, source).encoding(),
            ),
        )
    } else {
        (asked, Ok(()))
    }
}

/// What comes of announcing an address.
pub open spec fn gratuitous_arp_sent(context: ContextView, address: Ipv4Addr) -> (
    ContextView,
    SendResult,
) {
    send_frame(
        context,
        frame_of(
            context.mac,
            MacAddr::broadcast(),
            EtherType::ARP,
            ArpMessage::gratuitous(context.mac, address).encoding(),
        ),
    )
}

/// What comes of letting a datagram wait.
pub open spec fn datagram_queued(
    context: ContextView,
    next_hop: Ipv4Addr,
    datagram: DatagramView,
) -> (ContextView, SendResult) {
    let queue = context.queue(next_hop.bits);
    if queue.len() < MAX_IPV4_PENDING_BUFFER_SIZE {
        (
            ContextView {
                waiting: context.waiting.insert(next_hop.bits, queue.push(datagram)),
                ..context
            },
            Ok(()),
        )
    } else {
        (context, Err(SendError::ArpResolveBufferFull))
    }
}

/// What comes of sending a datagram to the next hop: where its link layer address is known the
/// datagram is sent, where it is asked for the datagram waits, and where nobody answers it is
/// refused. A question is asked where that is due, and where it cannot be sent the datagram is
/// refused.
pub open spec fn ipv4_sent(
    context: ContextView,
    next_hop: Ipv4Addr,
    source: Ipv4Addr,
    datagram: DatagramView,
    now: Instant,
) -> (ContextView, SendResult) {
    let (arp, state) = arp_request(context.arp, next_hop, source, now);
    let requested = ContextView { arp, ..context };
    let (asked, result) = match state {
        ArpState::PendingRetry { source } => arp_request_sent(requested, next_hop, source, now),
        ArpState::ResolvedStale(_) | ArpState::Restart => arp_request_sent(
            requested,
            next_hop,
            source,
            now,
        ),
        _ => (requested, Ok(())),
    };
    match result {
        Err(error) => (asked, Err(error)),
        Ok(_) => match state {
            ArpState::PendingRetry { .. } | ArpState::PendingWait { .. } | ArpState::Restart =>
                datagram_queued(asked, next_hop, datagram),
            ArpState::Resolved(mac) | ArpState::ResolvedStale(mac) => send_frame(
                asked,
                datagram_frame(context.mac, mac, datagram),
            ),
            ArpState::Timeout => (asked, Err(SendError::ArpTimeout)),
        },
    }
}

/// Whether a datagram to the next hop is sent at once, and so has to fit in a frame.
pub open spec fn sent_at_once(
    context: ContextView,
    next_hop: Ipv4Addr,
    source: Ipv4Addr,
    now: Instant,
) -> bool {
    let state = arp_request(context.arp, next_hop, source, now).1;
    state is Resolved || state is ResolvedStale
}

/// The loss of a datagram that waited.
pub open spec fn loss_of(error: SendError, datagram: DatagramView) -> LossView {
    LossView {
        cause: LossCause::Local(error),
        header: datagram.0,
        datagram: datagram.1.take(8),
    }
}

/// What comes of sending the datagrams of a queue to a link layer address, and which of them are
/// lost.
pub open spec fn queue_sent(context: ContextView, mac: MacAddr, queue: Seq<DatagramView>) -> (
    ContextView,
    Seq<LossView>,
)
    decreases queue.len(),
{
    if queue.len() == 0 {
        (context, Seq::empty())
    } else {
        let (before, losses) = queue_sent(context, mac, queue.drop_last());
        let (after, result) = send_frame(before, datagram_frame(before.mac, mac, queue.last()));
        match result {
            Ok(_) => (after, losses),
            Err(error) => (after, losses.push(loss_of(error, queue.last()))),
        }
    }
}

/// The context without the datagrams that waited for an address.
pub open spec fn without_queue(context: ContextView, key: u32) -> ContextView {
    ContextView { waiting: context.waiting.remove(key), ..context }
}

/// What comes of learning the link layer address for which datagrams waited.
pub open spec fn dequeued(context: ContextView, ping: PingView, mac: MacAddr, address: Ipv4Addr) -> (
    ContextView,
    PingView,
) {
    let (after, losses) = queue_sent(
        without_queue(context, address.bits),
        mac,
        context.queue(address.bits),
    );
    (after, losses_forwarded(ping, losses))
}

/// The losses when nobody answers for an address for which datagrams waited.
pub open spec fn queue_lost(queue: Seq<DatagramView>) -> Seq<LossView> {
    Seq::new(queue.len(), |i: int| loss_of(SendError::ArpTimeout, queue[i]))
}

/// What becomes of a pending question when its timer is looked at.
pub open spec fn arp_timer(
    context: ContextView,
    ping: PingView,
    address: Ipv4Addr,
    source: Ipv4Addr,
    now: Instant,
) -> (ContextView, PingView, Option<Instant>) {
    let (arp, state) = arp_request(context.arp, address, source, now);
    let requested = ContextView { arp, ..context };
    match state {
        ArpState::PendingWait { deadline } => (requested, ping, Some(deadline)),
        ArpState::PendingRetry { source } => (
            arp_request_sent(requested, address, source, now).0,
            ping,
            None,
        ),
        ArpState::Resolved(mac) | ArpState::ResolvedStale(mac) => {
            let (after, told) = dequeued(requested, ping, mac, address);
            (after, told, None)
        },
        ArpState::Timeout | ArpState::Restart => (
            without_queue(requested, address.bits),
            losses_forwarded(ping, queue_lost(requested.queue(address.bits))),
            None,
        ),
    }
}

/// What becomes of pending questions when their timers are looked at, one after the other.
pub open spec fn arp_timers(
    context: ContextView,
    ping: PingView,
    pending: Seq<(Ipv4Addr, Ipv4Addr)>,
    now: Instant,
) -> (ContextView, PingView, Option<Instant>)
    decreases pending.len(),
{
    if pending.len() == 0 {
        (context, ping, None)
    } else {
        let (before, told, deadline) = arp_timers(context, ping, pending.drop_last(), now);
        let (after, all_told, next) = arp_timer(
            before,
            told,
            pending.last().0,
            pending.last().1,
            now,
        );
        (after, all_told, earlier(deadline, next))
    }
}

/// What is known after an address resolution message was merged: the sender, where anything was
/// known of it before or the message is for this interface.
pub open spec fn arp_merged(context: ContextView, message: ArpMessage) -> bool {
    context.arp.contains_key(message.sender_protocol_addr.bits) || has_address(
        context.addresses,
        message.target_protocol_addr,
    )
}

/// What comes of an address resolution message: the sender is recorded, a question for an address
/// of this interface is answered, and what waited for the sender is sent.
pub open spec fn arp_received(
    context: ContextView,
    ping: PingView,
    bytes: Seq<u8>,
    now: Instant,
) -> (ContextView, PingView) {
    match parse_arp(bytes) {
        Err(_) => (context, ping),
        Ok(message) => if !arp_merged(context, message) {
            (context, ping)
        } else {
            let recorded = ContextView {
                arp: context.arp.insert(
                    message.sender_protocol_addr.bits,
                    ArpTableEntry::Resolved {
                        last_seen: now,
                        address: message.sender_hardware_addr,
                    },
                ),
                ..context
            };
            let answered = if has_address(context.addresses, message.target_protocol_addr)
                && message.operation == Operation::Request {
                let reply = message.reply(context.mac, message.target_protocol_addr);
                send_frame(
                    recorded,
                    frame_of(
                        context.mac,
                        message.sender_hardware_addr,
                        EtherType::ARP,
                        reply.encoding(),
                    ),
                ).0
            } else {
                recorded
            };
            dequeued(answered, ping, message.sender_hardware_addr, message.sender_protocol_addr)
        },
    }
}

/// Whether what waits for the sender of an address resolution message fits in frames.
pub open spec fn arp_ok(context: ContextView, bytes: Seq<u8>) -> bool {
    parse_arp(bytes) matches Ok(message) ==> (arp_merged(context, message) ==> context.queue_fits(
        message.sender_protocol_addr.bits,
    ))
}

/// What a frame carries.
pub open spec fn frame_payload(frame: Seq<u8>, header: EthernetHeader) -> Seq<u8> {
    frame.skip(header.length() as int)
}

/// Whether a frame is one that can be received: its header is there, and so is what a datagram or
/// an address resolution message in it calls for.
pub open spec fn frame_ok(
    context: ContextView,
    managers: Managers,
    frame: Seq<u8>,
    now: Instant,
) -> bool {
    &&& header_complete(frame)
    &&& parse_header(frame) matches Ok(header) ==> {
        &&& header.ether_type == EtherType::ARP ==> arp_ok(context, frame_payload(frame, header))
        &&& header.ether_type == EtherType::IPv4 ==> ipv4_ok(
            context,
            managers,
            frame_payload(frame, header),
            now,
        )
    }
}

/// Whether a frame was received.
pub open spec fn frame_handled(
    before: (ContextView, Managers),
    after: (ContextView, Managers),
    frame: Seq<u8>,
    clock: EchoMessageDataUnix,
    identification: u16,
    now: Instant,
) -> bool {
    let unchanged = {
        &&& after.0 == before.0
        &&& after.1.ping_manager@ == before.1.ping_manager@
        &&& after.1.udp_manager == before.1.udp_manager
    };
    match parse_header(frame) {
        Err(_) => unchanged,
        Ok(header) => if header.ether_type == EtherType::ARP {
            &&& (after.0, after.1.ping_manager@) == arp_received(
                before.0,
                before.1.ping_manager@,
                frame_payload(frame, header),
                now,
            )
            &&& after.1.udp_manager == before.1.udp_manager
        } else if header.ether_type == EtherType::IPv4 {
            ipv4_handled(
                before,
                after,
                frame_payload(frame, header),
                clock,
                identification,
                now,
            )
        } else {
            unchanged
        },
    }
}

/// The link layer of an interface.
pub struct EthernetHandler {}

impl EthernetHandler {
    /// Sends a frame. It has to be one that the interface can carry.
    pub fn send<P: WriteToBuffer>(
        ctx: &mut InterfaceContext,
        destination: MacAddr,
        ether_type: EtherType,
        payload: &P,
    ) -> (result: SendResult)
        requires
            old(ctx).wf(),
            payload.encodable(),
            14 + payload.reported() <= old(ctx)@.mtu,
            14 + payload.encoding().len() <= old(ctx)@.mtu,
        ensures
            final(ctx).wf(),
            final(ctx).same_setup(*old(ctx)),
            (final(ctx)@, result) == send_frame(
                old(ctx)@,
                frame_of(old(ctx)@.mac, destination, ether_type, payload.encoding()),
            ),
    {
        let header = EthernetHeader::new(ether_type, ctx.mac_addr, destination);
        let packet = (header, payload);
        assert(packet.encoding() =~= frame_of(
            ctx.mac_addr,
            destination,
            ether_type,
            payload.encoding(),
        ));
        ctx.send(&packet)
    }

    /// Asks for the link layer address behind an address.
    pub fn send_arp_request(
        ctx: &mut InterfaceContext,
        target_ipv4: Ipv4Addr,
        source_ipv4: Ipv4Addr,
        now: Instant,
    ) -> (result: SendResult)
        requires
            old(ctx).wf(),
            now.can_look_ahead(),
            arp_can_count(old(ctx)@.arp, target_ipv4),
        ensures
            final(ctx).wf(),
            final(ctx).same_setup(*old(ctx)),
            (final(ctx)@, result) == arp_request_sent(old(ctx)@, target_ipv4, source_ipv4, now),
    {
        if ctx.arp_table.can_send_request(target_ipv4, source_ipv4, now) {
            let arp = ArpMessage::request(ctx.mac_addr, target_ipv4, source_ipv4);
            proof {
                crate::protocols::arp::arp_round_trip(arp, Seq::empty());
            }
            Self::send(ctx, arp.target_mac(), EtherType::ARP, &arp)
        } else {
            Ok(())
        }
    }

    /// Announces an address.
    pub fn send_gratuitous_arp(ctx: &mut InterfaceContext, ipv4addr: Ipv4Addr) -> (result:
        SendResult)
        requires
            old(ctx).wf(),
        ensures
            final(ctx).wf(),
            final(ctx).same_setup(*old(ctx)),
            (final(ctx)@, result) == gratuitous_arp_sent(old(ctx)@, ipv4addr),
    {
        let arp = ArpMessage::gratuitous(ctx.mac_addr, ipv4addr);
        proof {
            crate::protocols::arp::arp_round_trip(arp, Seq::empty());
        }
        Self::send(ctx, arp.target_mac(), EtherType::ARP, &arp)
    }

    /// Lets a datagram wait for the link layer address of its next hop.
    fn queue_datagram(
        ctx: &mut InterfaceContext,
        next_hop: Ipv4Addr,
        header: IPv4Header,
        payload: Bytes,
    ) -> (result: SendResult)
        requires
            old(ctx).wf(),
            header.encodable(),
            bytes_contents(payload).len() >= 8,
        ensures
            final(ctx).wf(),
            final(ctx).same_setup(*old(ctx)),
            (final(ctx)@, result) == datagram_queued(
                old(ctx)@,
                next_hop,
                (header, bytes_contents(payload)),
            ),
    {
        broadcast use vstd::std_specs::hash::group_hash_axioms;

        let ghost before = ctx.ipv4_send_buffer@;
        let ghost datagram = (header, bytes_contents(payload));
        let mut queue: Vec<(IPv4Header, Bytes)> = match ctx.ipv4_send_buffer.remove(
            &next_hop.bits,
        ) {
            Some(queue) => queue,
            None => Vec::new(),
        };
        let ghost had = queue;
        assert(queue_view(queue@) =~= old(ctx)@.queue(next_hop.bits));
        if queue.len() < MAX_IPV4_PENDING_BUFFER_SIZE {
            queue.push((header, payload));
            assert(queue_view(queue@) =~= queue_view(had@).push(datagram));
            ctx.ipv4_send_buffer.insert(next_hop.bits, queue);
            assert(ctx@.waiting =~= old(ctx)@.waiting.insert(
                next_hop.bits,
                queue_view(had@).push(datagram),
            ));
            Ok(())
        } else {
            ctx.ipv4_send_buffer.insert(next_hop.bits, queue);
            assert(ctx@.waiting =~= old(ctx)@.waiting);
            Err(SendError::ArpResolveBufferFull)
        }
    }

    /// Sends a datagram to the next hop.
    pub fn send_ipv4(
        ctx: &mut InterfaceContext,
        next_hop: Ipv4Addr,
        source: Ipv4Addr,
        header: IPv4Header,
        payload: Bytes,
        now: Instant,
    ) -> (result: SendResult)
        requires
            old(ctx).wf(),
            now.can_look_ahead(),
            header.encodable(),
            if sent_at_once(old(ctx)@, next_hop, source, now) {
                34 + bytes_contents(payload).len() <= old(ctx)@.mtu
            } else {
                bytes_contents(payload).len() >= 8
            },
        ensures
            final(ctx).wf(),
            final(ctx).same_setup(*old(ctx)),
            (final(ctx)@, result) == ipv4_sent(
                old(ctx)@,
                next_hop,
                source,
                (header, bytes_contents(payload)),
                now,
            ),
    {
        let arp_state = ctx.arp_table.request(next_hop, source, now);
        let asked = match arp_state {
            ArpState::PendingRetry { source } => Self::send_arp_request(ctx, next_hop, source, now),
            ArpState::ResolvedStale(_) => Self::send_arp_request(ctx, next_hop, source, now),
            ArpState::Restart => Self::send_arp_request(ctx, next_hop, source, now),
            _ => Ok(()),
        };
        if let Err(error) = asked {
            return Err(error);
        }
        match arp_state {
            ArpState::PendingRetry { .. } => Self::queue_datagram(ctx, next_hop, header, payload),
            ArpState::PendingWait { .. } => Self::queue_datagram(ctx, next_hop, header, payload),
            ArpState::Restart => Self::queue_datagram(ctx, next_hop, header, payload),
            ArpState::Resolved(mac) => Self::send_datagram(ctx, mac, header, payload),
            ArpState::ResolvedStale(mac) => Self::send_datagram(ctx, mac, header, payload),
            ArpState::Timeout => Err(SendError::ArpTimeout),
        }
    }

    /// Sends a datagram in a frame.
    fn send_datagram(
        ctx: &mut InterfaceContext,
        destination: MacAddr,
        header: IPv4Header,
        payload: Bytes,
    ) -> (result: SendResult)
        requires
            old(ctx).wf(),
            header.encodable(),
            34 + bytes_contents(payload).len() <= old(ctx)@.mtu,
        ensures
            final(ctx).wf(),
            final(ctx).same_setup(*old(ctx)),
            (final(ctx)@, result) == send_frame(
                old(ctx)@,
                datagram_frame(old(ctx)@.mac, destination, (header, bytes_contents(payload))),
            ),
    {
        proof {
            crate::protocols::ipv4::ipv4_header_length(header);
        }
        let packet = (header, payload);
        assert(packet.encoding() =~= header.encoding() + bytes_contents(payload));
        Self::send(ctx, destination, EtherType::IPv4, &packet)
    }

    /// Sends what waited for a link layer address.
    pub fn dequeue_pending_ipv4(
        ctx: &mut InterfaceContext,
        managers: &mut Managers,
        mac: MacAddr,
        ipv4addr: Ipv4Addr,
    )
        requires
            old(ctx).wf(),
            old(managers).wf(),
            old(ctx)@.queue_fits(ipv4addr.bits),
        ensures
            final(ctx).wf(),
            final(ctx).same_setup(*old(ctx)),
            final(managers).wf(),
            final(managers).udp_manager == old(managers).udp_manager,
            (final(ctx)@, final(managers).ping_manager@) == dequeued(
                old(ctx)@,
                old(managers).ping_manager@,
                mac,
                ipv4addr,
            ),
    {
        broadcast use vstd::std_specs::hash::group_hash_axioms;

        let ghost all = ctx@.queue(ipv4addr.bits);
        let removed = ctx.ipv4_send_buffer.remove(&ipv4addr.bits);
        assert(ctx@.waiting =~= old(ctx)@.waiting.remove(ipv4addr.bits));
        if let Some(queue) = removed {
            assert(queue_view(queue@) =~= all);
            let ghost start = ctx@;
            let mut i: usize = 0;
            assert(all.take(0) =~= Seq::<DatagramView>::empty());
            while i < queue.len()
                invariant
                    i <= queue@.len(),
                    all == queue_view(queue@),
                    super::context::queue_ok(all),
                    ctx.wf(),
                    ctx.same_setup(*old(ctx)),
                    managers.wf(),
                    managers.udp_manager == old(managers).udp_manager,
                    ctx@.mtu == start.mtu,
                    forall|j: int| 0 <= j < all.len() ==> 34 + (#[trigger] all[j]).1.len() <= start.mtu,
                    ctx@ == queue_sent(start, mac, all.take(i as int)).0,
                    managers.ping_manager@ == losses_forwarded(
                        old(managers).ping_manager@,
                        queue_sent(start, mac, all.take(i as int)).1,
                    ),
                decreases queue@.len() - i,
            {
                let (header, payload) = &queue[i];
                let ghost datagram = all[i as int];
                assert(datagram == (*header, bytes_contents(*payload)));
                assert(all.take(i + 1).drop_last() =~= all.take(i as int));
                assert(all.take(i + 1).last() == datagram);
                assert(34 + datagram.1.len() <= start.mtu);
                let ghost losses = queue_sent(start, mac, all.take(i as int)).1;
                if let Err(error) = Self::send_datagram(ctx, mac, *header, payload.clone()) {
                    let datagram_start = first_eight(as_slice(payload));
                    let loss = AsyncSendError::LocalSendError {
                        error,
                        ipv4header: *header,
                        datagram: datagram_start,
                    };
                    assert(loss@ == loss_of(error, datagram));
                    assert(losses.push(loss@).drop_last() =~= losses);
                    managers.forward_async_error(&loss);
                }
                i = i + 1;
            }
            assert(all.take(i as int) =~= all);
        } else {
            assert(all =~= Seq::<DatagramView>::empty());
        }
    }

    /// Looks at the timers of the pending questions.
    pub fn perform_arp_timers(
        ctx: &mut InterfaceContext,
        managers: &mut Managers,
        now: Instant,
    ) -> (deadline: Option<Instant>)
        requires
            old(ctx).wf(),
            old(managers).wf(),
            now.can_look_ahead(),
        ensures
            final(ctx).wf(),
            final(ctx).same_setup(*old(ctx)),
            final(managers).wf(),
            final(managers).udp_manager == old(managers).udp_manager,
            exists|pending: Seq<(Ipv4Addr, Ipv4Addr)>|
                lists_pending(pending, old(ctx)@.arp) && #[trigger] arp_timers(
                    old(ctx)@,
                    old(managers).ping_manager@,
                    pending,
                    now,
                ) == (final(ctx)@, final(managers).ping_manager@, deadline),
    {
        let pending = ctx.arp_table.pending();
        let ghost list = pending@;
        let mut deadline: Option<Instant> = None;
        let mut i: usize = 0;
        assert(list.take(0) =~= Seq::<(Ipv4Addr, Ipv4Addr)>::empty());
        while i < pending.len()
            invariant
                i <= list.len(),
                list == pending@,
                lists_pending(list, old(ctx)@.arp),
                now.can_look_ahead(),
                ctx.wf(),
                ctx.same_setup(*old(ctx)),
                managers.wf(),
                managers.udp_manager == old(managers).udp_manager,
                // Looking at one question leaves the others pending.
                forall|j: int|
                    i <= j < list.len() ==> ctx@.arp.contains_key((#[trigger] list[j]).0.bits)
                        && ctx@.arp[list[j].0.bits] is Pending,
                arp_timers(
                    old(ctx)@,
                    old(managers).ping_manager@,
                    list.take(i as int),
                    now,
                ) == (ctx@, managers.ping_manager@, deadline),
            decreases list.len() - i,
        {
            let (ip, source) = pending[i];
            assert(list.take(i + 1).drop_last() =~= list.take(i as int));
            assert(list.take(i + 1).last() == list[i as int]);
            let ghost context = ctx@;
            let ghost (arp, _) = arp_request(context.arp, ip, source, now);
            proof {
                assert(context.arp.contains_key(list[i as int].0.bits));
                assert forall|j: int| i < j < list.len() implies (#[trigger] list[j]).0.bits
                    != ip.bits by {
                    assert(list[j].0 != list[i as int].0);
                }
                assert forall|j: int| i < j < list.len() implies arp.contains_key(
                    (#[trigger] list[j]).0.bits,
                ) && arp[list[j].0.bits] is Pending by {
                    request_keeps_other_entries(context.arp, ip, source, now, list[j].0.bits);
                }
            }
            let mut next: Option<Instant> = None;
            match ctx.arp_table.request(ip, source, now) {
                ArpState::PendingWait { deadline: request_deadline } => {
                    next = Some(request_deadline);
                },
                ArpState::PendingRetry { source } => {
                    let _sent = Self::send_arp_request(ctx, ip, source, now);
                    proof {
                        assert forall|j: int| i < j < list.len() implies ctx@.arp.contains_key(
                            (#[trigger] list[j]).0.bits,
                        ) && ctx@.arp[list[j].0.bits] is Pending by {
                            request_keeps_other_entries(arp, ip, source, now, list[j].0.bits);
                        }
                    }
                },
                ArpState::Timeout => Self::drop_queue(ctx, managers, ip),
                // A pending question is none of these.
                ArpState::Restart => {},
                ArpState::Resolved(_) => {},
                ArpState::ResolvedStale(_) => {},
            }
            deadline = earlier_of(deadline, next);
            i = i + 1;
        }
        assert(list.take(i as int) =~= list);
        assert(arp_timers(old(ctx)@, old(managers).ping_manager@, list, now) == (
            ctx@,
            managers.ping_manager@,
            deadline,
        ));
        deadline
    }

    /// Gives up what waits for a link layer address for which nobody answers.
    fn drop_queue(ctx: &mut InterfaceContext, managers: &mut Managers, ipv4addr: Ipv4Addr)
        requires
            old(ctx).wf(),
            old(managers).wf(),
        ensures
            final(ctx).wf(),
            final(ctx).same_setup(*old(ctx)),
            final(managers).wf(),
            final(managers).udp_manager == old(managers).udp_manager,
            final(ctx)@ == without_queue(old(ctx)@, ipv4addr.bits),
            final(managers).ping_manager@ == losses_forwarded(
                old(managers).ping_manager@,
                queue_lost(old(ctx)@.queue(ipv4addr.bits)),
            ),
    {
        broadcast use vstd::std_specs::hash::group_hash_axioms;

        let ghost all = ctx@.queue(ipv4addr.bits);
        let removed = ctx.ipv4_send_buffer.remove(&ipv4addr.bits);
        assert(ctx@.waiting =~= old(ctx)@.waiting.remove(ipv4addr.bits));
        if let Some(queue) = removed {
            assert(queue_view(queue@) =~= all);
            let mut i: usize = 0;
            assert(queue_lost(all.take(0)) =~= Seq::<LossView>::empty());
            while i < queue.len()
                invariant
                    i <= queue@.len(),
                    all == queue_view(queue@),
                    super::context::queue_ok(all),
                    managers.wf(),
                    managers.udp_manager == old(managers).udp_manager,
                    managers.ping_manager@ == losses_forwarded(
                        old(managers).ping_manager@,
                        queue_lost(all.take(i as int)),
                    ),
                decreases queue@.len() - i,
            {
                let (header, payload) = &queue[i];
                let ghost datagram = all[i as int];
                assert(datagram == (*header, bytes_contents(*payload)));
                let datagram_start = first_eight(as_slice(payload));
                let loss = AsyncSendError::LocalSendError {
                    error: SendError::ArpTimeout,
                    ipv4header: *header,
                    datagram: datagram_start,
                };
                assert(loss@ == loss_of(SendError::ArpTimeout, datagram));
                assert(queue_lost(all.take(i + 1)).drop_last() =~= queue_lost(
                    all.take(i as int),
                ));
                managers.forward_async_error(&loss);
                i = i + 1;
            }
            assert(all.take(i as int) =~= all);
        } else {
            assert(queue_lost(all) =~= Seq::<LossView>::empty());
        }
    }

    /// Receives an address resolution message.
    pub fn recv_arp(
        ctx: &mut InterfaceContext,
        managers: &mut Managers,
        bytes: &Bytes,
        now: Instant,
    )
        requires
            old(ctx).wf(),
            old(managers).wf(),
            arp_ok(old(ctx)@, bytes_contents(*bytes)),
        ensures
            final(ctx).wf(),
            final(ctx).same_setup(*old(ctx)),
            final(managers).wf(),
            final(managers).udp_manager == old(managers).udp_manager,
            (final(ctx)@, final(managers).ping_manager@) == arp_received(
                old(ctx)@,
                old(managers).ping_manager@,
                bytes_contents(*bytes),
                now,
            ),
    {
        let arp = match ArpMessage::from_bytes(as_slice(bytes)) {
            Ok(arp) => arp,
            Err(_) => {
                return ;
            },
        };
        // The table is updated only where something is known of the sender,
        let mut merged: bool = ctx.arp_table.update_only(arp.source_mac(), arp.source_addr(), now);
        // or where the message is for this interface.
        if ctx.ipv4_addresses.contains(arp.target_addr()) {
            if !merged {
                ctx.arp_table.update_or_insert(arp.source_mac(), arp.source_addr(), now);
                merged = true;
            }
            if arp.operation() == Operation::Request {
                let reply = arp.reply(ctx.mac_addr, arp.target_addr());
                proof {
                    crate::protocols::arp::arp_round_trip(reply, Seq::empty());
                }
                // If the answer cannot be sent there is nothing to be done about it.
                let _sent = Self::send(ctx, reply.target_mac(), EtherType::ARP, &reply);
            }
        }
        if merged {
            assert(ctx@.waiting == old(ctx)@.waiting && ctx@.mtu == old(ctx)@.mtu);
            assert(ctx@.queue(arp.sender_protocol_addr.bits) == old(ctx)@.queue(
                arp.sender_protocol_addr.bits,
            ));
            Self::dequeue_pending_ipv4(ctx, managers, arp.source_mac(), arp.source_addr());
        }
    }

    /// Whether what waits for an address fits in frames.
    fn queue_is_fitting(ctx: &InterfaceContext, address: Ipv4Addr) -> (result: bool)
        requires
            ctx.wf(),
        ensures
            result == ctx@.queue_fits(address.bits),
    {
        broadcast use vstd::std_specs::hash::group_hash_axioms;

        let ghost all = ctx@.queue(address.bits);
        match ctx.ipv4_send_buffer.get(&address.bits) {
            None => true,
            Some(queue) => {
                assert(queue_view(queue@) =~= all);
                let mut i: usize = 0;
                while i < queue.len()
                    invariant
                        i <= queue@.len(),
                        ctx.wf(),
                        all == queue_view(queue@),
                        all == ctx@.queue(address.bits),
                        forall|j: int|
                            0 <= j < i ==> 34 + (#[trigger] ctx@.queue(address.bits)[j]).1.len()
                                <= ctx@.mtu,
                    decreases queue@.len() - i,
                {
                    assert(all[i as int].1 == bytes_contents(queue@[i as int].1));
                    if as_slice(&queue[i].1).len() > ctx.mtu - 34 {
                        assert(34 + ctx@.queue(address.bits)[i as int].1.len() > ctx@.mtu);
                        return false;
                    }
                    i = i + 1;
                }
                true
            },
        }
    }

    /// Whether a frame is one that can be received.
    pub fn can_recv(
        ctx: &InterfaceContext,
        managers: &Managers,
        bytes: &Bytes,
        now: Instant,
    ) -> (result: bool)
        requires
            ctx.wf(),
            managers.wf(),
        ensures
            result == frame_ok(ctx@, *managers, bytes_contents(*bytes), now),
    {
        broadcast use vstd::std_specs::hash::group_hash_axioms;

        let slice = as_slice(bytes);
        if !is_header_complete(slice) {
            return false;
        }
        let header = match EthernetHeader::from_bytes(bytes) {
            Ok(header) => header,
            Err(_) => {
                return true;
            },
        };
        let payload = slice_bytes(bytes, header.encoded_length(), slice.len());
        assert(bytes_contents(payload) =~= frame_payload(bytes_contents(*bytes), header));
        match header.ether_type() {
            EtherType::ARP => match ArpMessage::from_bytes(as_slice(&payload)) {
                Err(_) => true,
                Ok(arp) => {
                    let merged: bool = ctx.arp_table.table.contains_key(&arp.source_addr().bits)
                        || ctx.ipv4_addresses.contains(arp.target_addr());
                    !merged || Self::queue_is_fitting(ctx, arp.source_addr())
                },
            },
            EtherType::IPv4 => IPv4Handler::can_recv(ctx, managers, &payload, now),
            _ => true,
        }
    }

    /// Receives a frame. `clock` holds the clock readings by which an answer to an echo is timed,
    /// `identification` tells the answer to an echo, if one is sent, from other datagrams.
    pub fn recv_identified(
        ctx: &mut InterfaceContext,
        managers: &mut Managers,
        bytes: &Bytes,
        clock: EchoMessageDataUnix,
        identification: u16,
        now: Instant,
    )
        requires
            old(ctx).wf(),
            old(managers).wf(),
            now.can_look_ahead(),
            frame_ok(old(ctx)@, *old(managers), bytes_contents(*bytes), now),
        ensures
            final(ctx).wf(),
            final(ctx).same_setup(*old(ctx)),
            final(managers).wf(),
            frame_handled(
                (old(ctx)@, *old(managers)),
                (final(ctx)@, *final(managers)),
                bytes_contents(*bytes),
                clock,
                identification,
                now,
            ),
    {
        let header = match EthernetHeader::from_bytes(bytes) {
            Ok(header) => header,
            Err(_) => {
                return ;
            },
        };
        let payload = slice_bytes(bytes, header.encoded_length(), as_slice(bytes).len());
        assert(bytes_contents(payload) =~= frame_payload(bytes_contents(*bytes), header));
        match header.ether_type() {
            EtherType::ARP => Self::recv_arp(ctx, managers, &payload, now),
            EtherType::IPv4 => IPv4Handler::recv(
                ctx,
                managers,
                &payload,
                clock,
                identification,
                now,
            ),
            // Nothing else is understood yet.
            _ => {},
        }
    }

    /// Receives a frame.
    pub fn recv(
        ctx: &mut InterfaceContext,
        managers: &mut Managers,
        bytes: &Bytes,
        clock: EchoMessageDataUnix,
        now: Instant,
    )
        requires
            old(ctx).wf(),
            old(managers).wf(),
            now.can_look_ahead(),
            frame_ok(old(ctx)@, *old(managers), bytes_contents(*bytes), now),
        ensures
            final(ctx).wf(),
            final(ctx).same_setup(*old(ctx)),
            final(managers).wf(),
            exists|identification: u16|
                identification < u16::MAX && #[trigger] frame_handled(
                    (old(ctx)@, *old(managers)),
                    (final(ctx)@, *final(managers)),
                    bytes_contents(*bytes),
                    clock,
                    identification,
                    now,
                ),
    {
        let identification: u16 = u16_between(0, u16::MAX - 1);
        Self::recv_identified(ctx, managers, bytes, clock, identification, now);
    }
}

/// The first eight bytes of a payload.
fn first_eight(payload: &[u8]) -> (start: [u8; 8])
    requires
        payload@.len() >= 8,
    ensures
        start@ == payload@.take(8),
{
    let start = [
        payload[0],
        payload[1],
        payload[2],
        payload[3],
        payload[4],
        payload[5],
        payload[6],
        payload[7],
    ];
    assert(start@ =~= payload@.take(8));
    start
}

/// Datagrams that waited are sent in the order in which they came, and none is lost, where there is
/// room for all of them.
pub proof fn queue_is_sent_in_order(context: ContextView, mac: MacAddr, queue: Seq<DatagramView>)
    requires
        context.sent.len() + queue.len() <= context.capacity,
    ensures
        queue_sent(context, mac, queue) == (
            ContextView {
                sent: context.sent + Seq::new(
                    queue.len(),
                    |i: int| PayloadView::Packet(datagram_frame(context.mac, mac, queue[i])),
                ),
                ..context
            },
            Seq::<LossView>::empty(),
        ),
    decreases queue.len(),
{
    let frames = Seq::new(
        queue.len(),
        |i: int| PayloadView::Packet(datagram_frame(context.mac, mac, queue[i])),
    );
    if queue.len() == 0 {
        assert(context.sent + frames =~= context.sent);
    } else {
        let front = queue.drop_last();
        queue_is_sent_in_order(context, mac, front);
        let front_frames = Seq::new(
            front.len(),
            |i: int| PayloadView::Packet(datagram_frame(context.mac, mac, front[i])),
        );
        assert((context.sent + front_frames).push(
            PayloadView::Packet(datagram_frame(context.mac, mac, queue.last())),
        ) =~= context.sent + frames);
    }
}

/// Sending what waited adds to what is on its way, and takes nothing from it.
proof fn queue_sent_appends(context: ContextView, mac: MacAddr, queue: Seq<DatagramView>)
    ensures
        ({
            let after = queue_sent(context, mac, queue).0;
            &&& after.sent.len() >= context.sent.len()
            &&& after.sent.take(context.sent.len() as int) == context.sent
        }),
    decreases queue.len(),
{
    let count = context.sent.len() as int;
    if queue.len() == 0 {
        assert(context.sent.take(count) =~= context.sent);
    } else {
        queue_sent_appends(context, mac, queue.drop_last());
        let before = queue_sent(context, mac, queue.drop_last()).0;
        let after = queue_sent(context, mac, queue).0;
        assert(after.sent.take(count) =~= before.sent.take(count));
    }
}

/// A question for an address of the interface is answered: the next frame on its way tells the one
/// who asked, and nobody else, the link layer address of the interface.
pub proof fn arp_request_is_answered(
    context: ContextView,
    ping: PingView,
    bytes: Seq<u8>,
    message: ArpMessage,
    now: Instant,
)
    requires
        parse_arp(bytes) == Ok::<ArpMessage, (crate::common::ErrorKind, Seq<char>)>(message),
        message.operation == Operation::Request,
        has_address(context.addresses, message.target_protocol_addr),
        context.sent.len() < context.capacity,
    ensures
        ({
            let after = arp_received(context, ping, bytes, now).0;
            let at = context.sent.len() as int;
            let reply = message.reply(context.mac, message.target_protocol_addr);
            let frame = frame_of(
                context.mac,
                message.sender_hardware_addr,
                EtherType::ARP,
                reply.encoding(),
            );
            &&& after.sent.len() > at
            &&& after.sent.take(at) == context.sent
            &&& after.sent[at] == PayloadView::Packet(frame)
            &&& parse_header(frame) == Ok::<EthernetHeader, (crate::common::ErrorKind, Seq<char>)>(
                reply.create_ethernet(),
            )
            &&& parse_arp(frame_payload(frame, reply.create_ethernet())) == Ok::<
                ArpMessage,
                (crate::common::ErrorKind, Seq<char>),
            >(reply)
        }),
{
    let reply = message.reply(context.mac, message.target_protocol_addr);
    let frame = frame_of(
        context.mac,
        message.sender_hardware_addr,
        EtherType::ARP,
        reply.encoding(),
    );
    let recorded = ContextView {
        arp: context.arp.insert(
            message.sender_protocol_addr.bits,
            ArpTableEntry::Resolved { last_seen: now, address: message.sender_hardware_addr },
        ),
        ..context
    };
    let answered = send_frame(recorded, frame).0;
    let key = message.sender_protocol_addr.bits;
    queue_sent_appends(
        without_queue(answered, key),
        message.sender_hardware_addr,
        answered.queue(key),
    );
    let after = arp_received(context, ping, bytes, now).0;
    let at = context.sent.len() as int;
    assert(answered.sent == after.sent.take(at + 1));
    assert(after.sent.take(at) =~= context.sent) by {
        assert(after.sent.take(at) =~= answered.sent.take(at));
        assert(answered.sent.take(at) =~= context.sent);
    }
    assert(after.sent[at] == answered.sent[at]);
    frame_is_read(context.mac, message.sender_hardware_addr, EtherType::ARP, reply.encoding());
    crate::protocols::arp::arp_round_trip(reply, Seq::empty());
    assert(reply.encoding() + Seq::<u8>::empty() =~= reply.encoding());
}

/// A frame that was made is read as it was made.
pub proof fn frame_is_read(
    source: MacAddr,
    destination: MacAddr,
    ether_type: EtherType,
    payload: Seq<u8>,
)
    requires
        ether_type.canonical(),
        ether_type != EtherType::VLAN,
    ensures
        ({
            let header = EthernetHeader {
                destination_address: destination,
                source_address: source,
                ether_type,
                vlan: None,
            };
            let frame = frame_of(source, destination, ether_type, payload);
            &&& header_complete(frame)
            &&& parse_header(frame) == Ok::<EthernetHeader, (crate::common::ErrorKind, Seq<char>)>(
                header,
            )
            &&& frame_payload(frame, header) == payload
        }),
{
    let header = EthernetHeader {
        destination_address: destination,
        source_address: source,
        ether_type,
        vlan: None,
    };
    crate::protocols::ethernet::ethernet_round_trip(header, payload);
    assert(frame_payload(header.encoding() + payload, header) =~= payload);
}

/// A datagram to a next hop of which nothing is known waits, and is sent as soon as the next hop
/// answers: first the question goes out, then the datagram.
pub proof fn waiting_datagram_is_sent_on_answer(
    context: ContextView,
    ping: PingView,
    next_hop: Ipv4Addr,
    source: Ipv4Addr,
    datagram: DatagramView,
    asked_at: Instant,
    answer: Seq<u8>,
    message: ArpMessage,
    answered_at: Instant,
)
    requires
        !context.arp.contains_key(next_hop.bits),
        !context.waiting.contains_key(next_hop.bits),
        context.sent.len() + 2 <= context.capacity,
        parse_arp(answer) == Ok::<ArpMessage, (crate::common::ErrorKind, Seq<char>)>(message),
        message.operation == Operation::Reply,
        message.sender_protocol_addr == next_hop,
    ensures
        ({
            let (waiting, result) = ipv4_sent(context, next_hop, source, datagram, asked_at);
            let (after, told) = arp_received(waiting, ping, answer, answered_at);
            let question = frame_of(
                context.mac,
                MacAddr::broadcast(),
                EtherType::ARP,
                ArpMessage::request(context.mac, next_hop, source).encoding(),
            );
            let frame = datagram_frame(context.mac, message.sender_hardware_addr, datagram);
            &&& result is Ok
            &&& waiting.queue(next_hop.bits) == seq![datagram]
            &&& after.sent == context.sent.push(PayloadView::Packet(question)).push(
                PayloadView::Packet(frame),
            )
            &&& !after.waiting.contains_key(next_hop.bits)
            &&& told == ping
        }),
{
    let (waiting, result) = ipv4_sent(context, next_hop, source, datagram, asked_at);
    let queue = waiting.queue(next_hop.bits);
    assert(Seq::<DatagramView>::empty().push(datagram) =~= seq![datagram]);
    assert(queue == seq![datagram]);
    let recorded = ContextView {
        arp: waiting.arp.insert(
            next_hop.bits,
            ArpTableEntry::Resolved {
                last_seen: answered_at,
                address: message.sender_hardware_addr,
            },
        ),
        ..waiting
    };
    let start = without_queue(recorded, next_hop.bits);
    queue_is_sent_in_order(start, message.sender_hardware_addr, queue);
    let frames = Seq::new(
        queue.len(),
        |i: int|
            PayloadView::Packet(
                datagram_frame(start.mac, message.sender_hardware_addr, queue[i]),
            ),
    );
    assert(start.sent + frames =~= start.sent.push(frames[0]));
    assert(losses_forwarded(ping, Seq::<LossView>::empty()) == ping);
}

/// Datagrams are refused, not lost, when too many wait for the same next hop: what waited already
/// still waits.
pub proof fn full_queue_refuses(
    context: ContextView,
    next_hop: Ipv4Addr,
    datagram: DatagramView,
)
    requires
        context.queue(next_hop.bits).len() >= MAX_IPV4_PENDING_BUFFER_SIZE,
    ensures
        datagram_queued(context, next_hop, datagram) == (
            context,
            Err::<(), SendError>(SendError::ArpResolveBufferFull),
        ),
{
}

} // verus!
