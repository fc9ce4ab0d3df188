//! How link layer addresses are asked for, learned and forgotten.

use super::receiving::{carried_by, carries};
use super::wire::{
    a_frame_is_read_from_its_places, a_frame_is_written_to_its_places,
    a_resolution_is_read_from_its_places, a_resolution_is_written_to_its_places, four, six, two,
};
use crate::net::Ipv4Addr;
use crate::protocols::arp::{parse_arp, ArpMessage, Operation};
use crate::protocols::ethernet::EtherType;
use crate::protocols::ethernet::mac::MacAddr;
use crate::protocols::ipv4::icmp::EchoMessageDataUnix;
use crate::runtime::address_table::has_address;
use crate::runtime::channel::PayloadView;
use crate::runtime::interface::{LossCause, LossView, SendError};
use crate::runtime::interface::context::{send_frame, ContextView, DatagramView};
use crate::runtime::interface::l2_ethernet::{
    arp_request_sent, arp_timer, arp_timers, datagram_frame, frame_handled, frame_of,
    gratuitous_arp_sent, queue_lost, queue_sent, without_queue,
};
use crate::runtime::interface::l2_ethernet::arp_table::{arp_request, ArpState, ArpTableEntry};
use crate::runtime::interface::l4_managers::{losses_forwarded, Managers};
use crate::runtime::interface::l4_managers::ping::PingView;
use crate::time::Instant;
use crate::write_to_buffer::WriteToBuffer;
use vstd::prelude::*;

verus! {

/// A frame is put on the network behind those that are there, where there is room.
pub proof fn a_frame_goes_out_last(context: ContextView, frame: Seq<u8>)
    ensures
        ({
            let (after, result) = send_frame(context, frame);
            &&& context.sent.len() < context.capacity ==> {
                &&& result is Ok
                &&& after.sent == context.sent.push(PayloadView::Packet(frame))
            }
            &&& context.sent.len() >= context.capacity ==> {
                &&& result == Err::<(), SendError>(SendError::BufferFull)
                &&& after.sent == context.sent
            }
            &&& after == ContextView { sent: after.sent, ..context }
        }),
{
}

/// Whether a frame holds a question or an answer: which of the two, between which stations, who is
/// said to have an address, and who is asked or answered.
pub open spec fn resolves(
    frame: Seq<u8>,
    operation: int,
    from: MacAddr,
    to: MacAddr,
    sender: Ipv4Addr,
    other: MacAddr,
    target: Ipv4Addr,
) -> bool {
    &&& frame.len() == 42
    &&& six(frame, 0) == to
    &&& six(frame, 6) == from
    &&& two(frame, 12) == 0x0806
    &&& two(frame, 14) == 1
    &&& two(frame, 16) == 0x0800
    &&& frame[18] == 6
    &&& frame[19] == 4
    &&& two(frame, 20) == operation
    &&& six(frame, 22) == from
    &&& four(frame, 28) == sender.bits
    &&& six(frame, 32) == other
    &&& four(frame, 38) == target.bits
}

/// The address of all stations.
pub open spec fn everybody() -> MacAddr {
    MacAddr(255, 255, 255, 255, 255, 255)
}

/// Whether a frame asks all stations who has an address.
pub open spec fn asks(frame: Seq<u8>, from: MacAddr, sender: Ipv4Addr, target: Ipv4Addr) -> bool {
    resolves(frame, 1, from, everybody(), sender, everybody(), target)
}

proof fn resolution_is_framed(message: ArpMessage, from: MacAddr, to: MacAddr)
    requires
        from == message.sender_hardware_addr,
    ensures
        resolves(
            frame_of(from, to, EtherType::ARP, message.encoding()),
            if message.operation == Operation::Request {
                1
            } else {
                2
            },
            from,
            to,
            message.sender_protocol_addr,
            message.target_hardware_addr,
            message.target_protocol_addr,
        ),
{
    let bytes = message.encoding();
    let frame = frame_of(from, to, EtherType::ARP, bytes);
    a_frame_is_written_to_its_places(from, to, EtherType::ARP, bytes);
    a_resolution_is_written_to_its_places(message);
    assert forall|i: int| 0 <= i < 28 implies frame[14 + i] == #[trigger] bytes[i] by {
        assert(frame.skip(14)[i] == bytes[i]);
    }
    assert(frame[14] == bytes[0] && frame[15] == bytes[1] && frame[16] == bytes[2] && frame[17]
        == bytes[3] && frame[18] == bytes[4] && frame[19] == bytes[5] && frame[20] == bytes[6]
        && frame[21] == bytes[7]);
    assert(frame[22] == bytes[8] && frame[23] == bytes[9] && frame[24] == bytes[10] && frame[25]
        == bytes[11] && frame[26] == bytes[12] && frame[27] == bytes[13] && frame[28] == bytes[14]
        && frame[29] == bytes[15] && frame[30] == bytes[16] && frame[31] == bytes[17]);
    assert(frame[32] == bytes[18] && frame[33] == bytes[19] && frame[34] == bytes[20] && frame[35]
        == bytes[21] && frame[36] == bytes[22] && frame[37] == bytes[23] && frame[38] == bytes[24]
        && frame[39] == bytes[25] && frame[40] == bytes[26] && frame[41] == bytes[27]);
}

/// What is known of an address decides what a request for it comes to. Who is unknown is asked for.
/// A question is waited for a tenth of a second and then asked again, five times at most. Who does
/// not answer counts as missing for half a minute. An answer holds for a minute, and its second
/// half minute it is not fresh.
pub proof fn an_address_is_requested_in_time(
    table: Map<u32, ArpTableEntry>,
    target: Ipv4Addr,
    source: Ipv4Addr,
    now: Instant,
)
    ensures
        ({
            let key = target.bits;
            let (after, state) = arp_request(table, target, source, now);
            &&& !table.contains_key(key) ==> {
                &&& state == ArpState::PendingRetry { source }
                &&& after == table.insert(
                    key,
                    ArpTableEntry::Pending { since: now, retry_count: 0, source },
                )
            }
            &&& table.contains_key(key) ==> match table[key] {
                ArpTableEntry::Pending { since, retry_count, source } => {
                    let passed = now.nanos - since.nanos;
                    &&& passed <= 100_000_000 ==> {
                        &&& after == table
                        &&& state matches ArpState::PendingWait { deadline }
                        &&& since.nanos + 100_000_000 <= u64::MAX ==> deadline.nanos == since.nanos
                            + 100_000_000
                    }
                    &&& passed > 100_000_000 && retry_count < 5 ==> {
                        &&& after == table
                        &&& state == ArpState::PendingRetry { source }
                    }
                    &&& passed > 100_000_000 && retry_count >= 5 ==> {
                        &&& after == table.insert(key, ArpTableEntry::Timeout { since: now })
                        &&& state == ArpState::Timeout
                    }
                },
                ArpTableEntry::Timeout { since } => if now.nanos - since.nanos > 30_000_000_000 {
                    after == table.remove(key) && state == ArpState::Restart
                } else {
                    after == table && state == ArpState::Timeout
                },
                ArpTableEntry::Resolved { last_seen, address } => {
                    let age = now.nanos - last_seen.nanos;
                    &&& age < 30_000_000_000 ==> after == table && state == ArpState::Resolved(
                        address,
                    )
                    &&& 30_000_000_000 <= age < 60_000_000_000 ==> after == table && state
                        == ArpState::ResolvedStale(address)
                    &&& 60_000_000_000 <= age ==> after == table.remove(key) && state
                        == ArpState::Restart
                },
            }
        }),
{
}

/// A question goes to all stations, and is counted. Who answered or counts as missing is not asked.
pub proof fn a_question_goes_to_everybody(
    context: ContextView,
    target: Ipv4Addr,
    source: Ipv4Addr,
    now: Instant,
) -> (frame: Seq<u8>)
    ensures
        asks(frame, context.mac, source, target),
        ({
            let key = target.bits;
            let (after, result) = arp_request_sent(context, target, source, now);
            let open = !context.arp.contains_key(key) || context.arp[key] is Pending;
            &&& open && context.sent.len() < context.capacity ==> {
                &&& result is Ok
                &&& after.sent == context.sent.push(PayloadView::Packet(frame))
            }
            &&& open && context.sent.len() >= context.capacity ==> {
                &&& result == Err::<(), SendError>(SendError::BufferFull)
                &&& after.sent == context.sent
            }
            &&& !open ==> result is Ok && after == context
            &&& !context.arp.contains_key(key) ==> after.arp == context.arp.insert(
                key,
                ArpTableEntry::Pending { since: now, retry_count: 0, source },
            )
            &&& context.arp.contains_key(key) ==> {
                context.arp[key] matches ArpTableEntry::Pending { retry_count, source, .. }
                    ==> retry_count < 255 ==> {
                    &&& after.arp.remove(key) == context.arp.remove(key)
                    &&& after.arp.contains_key(key)
                    &&& after.arp[key] matches ArpTableEntry::Pending {
                        since: asked_at,
                        retry_count: count,
                        source: asker,
                    }
                    &&& asked_at == now
                    &&& count == retry_count + 1
                    &&& asker == source
                }
            }
            &&& after == ContextView { sent: after.sent, arp: after.arp, ..context }
        }),
{
    let message = ArpMessage::request(context.mac, target, source);
    resolution_is_framed(message, context.mac, MacAddr::broadcast());
    let key = target.bits;
    let after = arp_request_sent(context, target, source, now).0;
    if context.arp.contains_key(key) {
        assert(after.arp.remove(key) =~= context.arp.remove(key));
    }
    frame_of(context.mac, MacAddr::broadcast(), EtherType::ARP, message.encoding())
}

/// An address is announced to all stations, by who has it and in its own name.
pub proof fn an_announcement_goes_to_everybody(
    context: ContextView,
    address: Ipv4Addr,
) -> (frame: Seq<u8>)
    ensures
        asks(frame, context.mac, address, address),
        ({
            let (after, result) = gratuitous_arp_sent(context, address);
            &&& after == ContextView { sent: after.sent, ..context }
            &&& context.sent.len() < context.capacity ==> result is Ok && after.sent
                == context.sent.push(PayloadView::Packet(frame))
            &&& context.sent.len() >= context.capacity ==> after.sent == context.sent && result
                == Err::<(), SendError>(SendError::BufferFull)
        }),
{
    let message = ArpMessage::gratuitous(context.mac, address);
    resolution_is_framed(message, context.mac, MacAddr::broadcast());
    frame_of(context.mac, MacAddr::broadcast(), EtherType::ARP, message.encoding())
}

/// Whether a frame carries a datagram to a station.
pub open spec fn delivers(
    frame: Seq<u8>,
    from: MacAddr,
    to: MacAddr,
    datagram: DatagramView,
) -> bool {
    &&& frame.len() >= 14
    &&& six(frame, 0) == to
    &&& six(frame, 6) == from
    &&& two(frame, 12) == 0x0800
    &&& frame.skip(14) == datagram.0.encoding() + datagram.1
}

/// A datagram is carried by a frame to who is to have it.
pub proof fn a_datagram_is_framed(from: MacAddr, to: MacAddr, datagram: DatagramView)
    ensures
        delivers(datagram_frame(from, to, datagram), from, to, datagram),
{
    a_frame_is_written_to_its_places(
        from,
        to,
        EtherType::IPv4,
        datagram.0.encoding() + datagram.1,
    );
}

/// Whether the loss of a datagram is told for a reason of this station, with its header and its
/// first eight bytes.
pub open spec fn is_lost(loss: LossView, error: SendError, datagram: DatagramView) -> bool {
    &&& loss.cause == LossCause::Local(error)
    &&& loss.header == datagram.0
    &&& loss.datagram == datagram.1.subrange(0, 8)
}

/// Datagrams that wait for a link layer address are sent to it in the order in which they came, as
/// long as there is room on the network. The ones that find none are lost, in the same order.
pub proof fn waiting_datagrams_go_out_in_order(
    context: ContextView,
    mac: MacAddr,
    queue: Seq<DatagramView>,
    count: int,
)
    requires
        0 <= count <= queue.len(),
        context.sent.len() <= context.capacity,
        context.sent.len() + count <= context.capacity,
        count < queue.len() ==> context.sent.len() + count == context.capacity,
    ensures
        ({
            let (after, losses) = queue_sent(context, mac, queue);
            let before = context.sent.len() as int;
            &&& after == ContextView { sent: after.sent, ..context }
            &&& after.sent.len() == before + count
            &&& after.sent.take(before) == context.sent
            &&& forall|i: int|
                0 <= i < count ==> ((#[trigger] after.sent[before + i]) matches PayloadView::Packet(
                    frame,
                ) && delivers(frame, context.mac, mac, queue[i]))
            &&& losses.len() == queue.len() - count
            &&& forall|i: int|
                0 <= i < losses.len() ==> is_lost(
                    #[trigger] losses[i],
                    SendError::BufferFull,
                    queue[count + i],
                )
        }),
    decreases queue.len(),
{
    let (after, losses) = queue_sent(context, mac, queue);
    let before = context.sent.len() as int;
    if queue.len() == 0 {
        assert(after.sent.take(before) =~= context.sent);
    } else {
        let last = queue.len() - 1;
        let sent = if count <= last {
            count
        } else {
            last
        };
        waiting_datagrams_go_out_in_order(context, mac, queue.drop_last(), sent);
        let (middle, earlier_losses) = queue_sent(context, mac, queue.drop_last());
        a_datagram_is_framed(context.mac, mac, queue.last());
        assert forall|i: int| 0 <= i < count implies ((
        #[trigger] after.sent[before + i]) matches PayloadView::Packet(frame) && delivers(
            frame,
            context.mac,
            mac,
            queue[i],
        )) by {
            if i < last {
                assert(middle.sent[before + i] == after.sent[before + i]);
                assert(queue.drop_last()[i] == queue[i]);
            }
        }
        assert(after.sent.take(before) =~= middle.sent.take(before));
        if count <= last {
            assert(middle.sent.len() == context.capacity);
            assert(losses == earlier_losses.push(losses.last()));
            assert forall|i: int| 0 <= i < losses.len() implies is_lost(
                #[trigger] losses[i],
                SendError::BufferFull,
                queue[count + i],
            ) by {
                if i < losses.len() - 1 {
                    assert(losses[i] == earlier_losses[i]);
                    assert(queue.drop_last()[count + i] == queue[count + i]);
                } else {
                    assert(queue.last().1.take(8) =~= queue.last().1.subrange(0, 8));
                }
            }
        }
    }
}

/// Whether bytes hold a question or an answer that can be understood.
pub open spec fn is_resolution(bytes: Seq<u8>) -> bool {
    &&& bytes.len() >= 28
    &&& two(bytes, 0) == 1
    &&& two(bytes, 2) == 0x0800
    &&& bytes[4] == 6
    &&& bytes[5] == 4
    &&& two(bytes, 6) == 1 || two(bytes, 6) == 2
}

/// Whether a question or an answer concerns an interface: it is for one of its addresses, or from
/// one of which the interface already knows or asked.
pub open spec fn concerns(context: ContextView, bytes: Seq<u8>) -> bool {
    ||| context.arp.contains_key(four(bytes, 14) as u32)
    ||| exists|i: int|
        0 <= i < context.addresses.len() && (#[trigger] context.addresses[i]).0.bits == four(
            bytes,
            24,
        )
}

/// A question or an answer that concerns an interface tells it the link layer address of who sent
/// it. A question for an address of the interface is answered, to who asked and with the link layer
/// address of the interface. Then what waited for the sender is sent to it, in order.
pub proof fn a_resolution_is_learned_from(
    before: (ContextView, Managers),
    after: (ContextView, Managers),
    frame: Seq<u8>,
    clock: EchoMessageDataUnix,
    identification: u16,
    now: Instant,
) -> (answer: Seq<u8>)
    requires
        frame_handled(before, after, frame, clock, identification, now),
        carries(frame, 0x0806),
        is_resolution(carried_by(frame)),
        concerns(before.0, carried_by(frame)),
        before.0.sent.len() + 1 + before.0.queue(four(carried_by(frame), 14) as u32).len()
            <= before.0.capacity,
    ensures
        ({
            let bytes = carried_by(frame);
            let key = four(bytes, 14) as u32;
            let mac = six(bytes, 8);
            let own = exists|i: int|
                0 <= i < before.0.addresses.len() && (
                #[trigger] before.0.addresses[i]).0.bits == four(bytes, 24);
            let queue = before.0.queue(key);
            let start = before.0.sent.len() + if own && two(bytes, 6) == 1 {
                1int
            } else {
                0
            };
            &&& resolves(
                answer,
                2,
                before.0.mac,
                mac,
                Ipv4Addr { bits: four(bytes, 24) as u32 },
                mac,
                Ipv4Addr { bits: key },
            )
            &&& after.0.arp == before.0.arp.insert(
                key,
                ArpTableEntry::Resolved { last_seen: now, address: mac },
            )
            &&& after.0.sent.len() == start + queue.len()
            &&& after.0.sent.take(start) == if own && two(bytes, 6) == 1 {
                before.0.sent.push(PayloadView::Packet(answer))
            } else {
                before.0.sent
            }
            &&& forall|i: int|
                0 <= i < queue.len() ==> ((
                #[trigger] after.0.sent[start + i]) matches PayloadView::Packet(sent) && delivers(
                    sent,
                    before.0.mac,
                    mac,
                    queue[i],
                ))
            &&& after.0.waiting == before.0.waiting.remove(key)
            &&& after.0 == ContextView {
                arp: after.0.arp,
                sent: after.0.sent,
                waiting: after.0.waiting,
                ..before.0
            }
            &&& after.1.ping_manager@ == before.1.ping_manager@
            &&& after.1.udp_manager == before.1.udp_manager
        }),
{
    let bytes = carried_by(frame);
    let context = before.0;
    let key = four(bytes, 14) as u32;
    let mac = six(bytes, 8);
    a_frame_is_read_from_its_places(frame);
    a_resolution_is_read_from_its_places(bytes);
    let message = parse_arp(bytes)->Ok_0;
    let target = message.target_protocol_addr;
    let own = exists|i: int|
        0 <= i < context.addresses.len() && (#[trigger] context.addresses[i]).0.bits == four(
            bytes,
            24,
        );
    assert(own == has_address(context.addresses, target)) by {
        if own {
            let i = choose|i: int|
                0 <= i < context.addresses.len() && (#[trigger] context.addresses[i]).0.bits
                    == four(bytes, 24);
            assert(context.addresses[i].0 == target);
        }
        if has_address(context.addresses, target) {
            let i = choose|i: int|
                0 <= i < context.addresses.len() && (#[trigger] context.addresses[i]).0 == target;
            assert(context.addresses[i].0.bits == four(bytes, 24));
        }
    }
    let reply = message.reply(context.mac, target);
    resolution_is_framed(reply, context.mac, mac);
    let answer = frame_of(context.mac, mac, EtherType::ARP, reply.encoding());
    let recorded = ContextView {
        arp: context.arp.insert(key, ArpTableEntry::Resolved { last_seen: now, address: mac }),
        ..context
    };
    let answered = if own && two(bytes, 6) == 1 {
        ContextView { sent: context.sent.push(PayloadView::Packet(answer)), ..recorded }
    } else {
        recorded
    };
    let queue = context.queue(key);
    assert(answered.queue(key) == queue);
    let left = without_queue(answered, key);
    waiting_datagrams_go_out_in_order(left, mac, queue, queue.len() as int);
    assert(message.sender_protocol_addr == (Ipv4Addr { bits: key }));
    answer
}

/// A question or an answer that does not concern an interface changes nothing, and neither does
/// what cannot be understood.
pub proof fn another_resolution_changes_nothing(
    before: (ContextView, Managers),
    after: (ContextView, Managers),
    frame: Seq<u8>,
    clock: EchoMessageDataUnix,
    identification: u16,
    now: Instant,
)
    requires
        frame_handled(before, after, frame, clock, identification, now),
        carries(frame, 0x0806),
        is_resolution(carried_by(frame)) ==> !concerns(before.0, carried_by(frame)),
    ensures
        after.0 == before.0,
        after.1.ping_manager@ == before.1.ping_manager@,
        after.1.udp_manager == before.1.udp_manager,
{
    let bytes = carried_by(frame);
    a_frame_is_read_from_its_places(frame);
    a_resolution_is_read_from_its_places(bytes);
    if let Ok(message) = parse_arp(bytes) {
        if has_address(before.0.addresses, message.target_protocol_addr) {
            let i = choose|i: int|
                0 <= i < before.0.addresses.len() && (#[trigger] before.0.addresses[i]).0
                    == message.target_protocol_addr;
            assert(before.0.addresses[i].0.bits == four(bytes, 24));
        }
    }
}

/// An open question is waited for, asked again or given up in time. With the last the datagrams
/// that wait for the answer are lost, in order.
pub proof fn an_open_question_is_looked_after(
    context: ContextView,
    ping: PingView,
    address: Ipv4Addr,
    source: Ipv4Addr,
    now: Instant,
) -> (frame: Seq<u8>)
    requires
        context.arp.contains_key(address.bits),
        context.arp[address.bits] is Pending,
        context.arp[address.bits]->Pending_since.nanos + 100_000_000 <= u64::MAX,
        context.sent.len() < context.capacity,
    ensures
        ({
            let key = address.bits;
            let asked_at = context.arp[key]->Pending_since;
            let count = context.arp[key]->retry_count;
            let asker = context.arp[key]->source;
            let passed = now.nanos - asked_at.nanos;
            let (after, told, deadline) = arp_timer(context, ping, address, source, now);
            &&& asks(frame, context.mac, asker, address)
            &&& passed <= 100_000_000 ==> {
                &&& after == context
                &&& told == ping
                &&& deadline matches Some(deadline)
                &&& deadline.nanos == asked_at.nanos + 100_000_000
            }
            &&& passed > 100_000_000 && count < 5 ==> {
                &&& after.sent == context.sent.push(PayloadView::Packet(frame))
                &&& after.arp[key] == ArpTableEntry::Pending {
                    since: now,
                    retry_count: (count + 1) as u8,
                    source: asker,
                }
                &&& after.arp.remove(key) == context.arp.remove(key)
                &&& after == ContextView { sent: after.sent, arp: after.arp, ..context }
                &&& told == ping
            }
            &&& passed > 100_000_000 && count >= 5 ==> {
                &&& after.arp == context.arp.insert(key, ArpTableEntry::Timeout { since: now })
                &&& after.waiting == context.waiting.remove(key)
                &&& after == ContextView { arp: after.arp, waiting: after.waiting, ..context }
                &&& told == losses_forwarded(ping, queue_lost(context.queue(key)))
                &&& deadline is None
            }
        }),
{
    let asker = context.arp[address.bits]->source;
    let after = arp_timer(context, ping, address, source, now).0;
    an_address_is_requested_in_time(context.arp, address, source, now);
    assert(after.arp.remove(address.bits) =~= context.arp.remove(address.bits));
    a_question_goes_to_everybody(context, address, asker, now)
}

/// The datagrams that are given up are lost because nobody answered for their next hop.
pub proof fn unanswered_datagrams_are_lost(queue: Seq<DatagramView>)
    requires
        forall|i: int| 0 <= i < queue.len() ==> (#[trigger] queue[i]).1.len() >= 8,
    ensures
        queue_lost(queue).len() == queue.len(),
        forall|i: int|
            0 <= i < queue.len() ==> is_lost(
                #[trigger] queue_lost(queue)[i],
                SendError::ArpTimeout,
                queue[i],
            ),
{
    assert forall|i: int| 0 <= i < queue.len() implies is_lost(
        #[trigger] queue_lost(queue)[i],
        SendError::ArpTimeout,
        queue[i],
    ) by {
        assert(queue[i].1.take(8) =~= queue[i].1.subrange(0, 8));
    }
}

/// The open questions are looked after one after the other, and there is more to do at the earliest
/// of the times at which there is for one of them.
pub proof fn open_questions_take_turns(
    context: ContextView,
    ping: PingView,
    pending: Seq<(Ipv4Addr, Ipv4Addr)>,
    now: Instant,
) -> (states: Seq<(ContextView, PingView)>)
    ensures
        states.len() == pending.len() + 1,
        states[0] == (context, ping),
        ({
            let (after, told, deadline) = arp_timers(context, ping, pending, now);
            let turn = |i: int|
                arp_timer(states[i].0, states[i].1, pending[i].0, pending[i].1, now);
            &&& (after, told) == states.last()
            &&& forall|i: int|
                0 <= i < pending.len() ==> ((#[trigger] turn(i)).0, turn(i).1) == states[i + 1]
            &&& forall|i: int|
                0 <= i < pending.len() ==> ((#[trigger] turn(i)).2 matches Some(next) ==> (
                deadline matches Some(first) && first.nanos <= next.nanos))
            &&& deadline is Some ==> exists|i: int|
                0 <= i < pending.len() && (#[trigger] turn(i)).2 == deadline
        }),
    decreases pending.len(),
{
    let (after, told, deadline) = arp_timers(context, ping, pending, now);
    if pending.len() == 0 {
        seq![(context, ping)]
    } else {
        let rest = pending.drop_last();
        let earlier_states = open_questions_take_turns(context, ping, rest, now);
        let before = |i: int|
            arp_timer(earlier_states[i].0, earlier_states[i].1, rest[i].0, rest[i].1, now);
        let states = earlier_states.push((after, told));
        let turn = |i: int| arp_timer(states[i].0, states[i].1, pending[i].0, pending[i].1, now);
        let last = pending.len() - 1;
        let deadline_before = arp_timers(context, ping, rest, now).2;
        assert(turn(last) == arp_timer(
            earlier_states.last().0,
            earlier_states.last().1,
            pending.last().0,
            pending.last().1,
            now,
        ));
        assert forall|i: int| 0 <= i < last implies #[trigger] turn(i) == before(i) by {}
        assert forall|i: int| 0 <= i < pending.len() implies ((#[trigger] turn(i)).0, turn(i).1)
            == states[i + 1] by {
            if i < last {
                assert(turn(i) == before(i));
            }
        }
        assert forall|i: int| 0 <= i < pending.len() implies ((
        #[trigger] turn(i)).2 matches Some(next) ==> (deadline matches Some(first) && first.nanos
            <= next.nanos)) by {
            if i < last {
                assert(turn(i) == before(i));
            }
        }
        if deadline is Some {
            if deadline == turn(last).2 {
                assert(turn(last).2 == deadline);
            } else {
                assert(deadline == deadline_before);
                let i = choose|i: int|
                    0 <= i < rest.len() && (#[trigger] before(i)).2 == deadline_before;
                assert(turn(i) == before(i));
            }
        }
        states
    }
}

/// A question or an answer is learned from though the network has no room. Nothing is answered
/// then, and what waited for the sender is lost, in order.
pub proof fn a_resolution_is_learned_from_without_room(
    before: (ContextView, Managers),
    after: (ContextView, Managers),
    frame: Seq<u8>,
    clock: EchoMessageDataUnix,
    identification: u16,
    now: Instant,
) -> (losses: Seq<LossView>)
    requires
        frame_handled(before, after, frame, clock, identification, now),
        carries(frame, 0x0806),
        is_resolution(carried_by(frame)),
        concerns(before.0, carried_by(frame)),
        before.0.sent.len() == before.0.capacity,
    ensures
        ({
            let bytes = carried_by(frame);
            let key = four(bytes, 14) as u32;
            let queue = before.0.queue(key);
            &&& after.0.arp == before.0.arp.insert(
                key,
                ArpTableEntry::Resolved { last_seen: now, address: six(bytes, 8) },
            )
            &&& after.0.sent == before.0.sent
            &&& after.0.waiting == before.0.waiting.remove(key)
            &&& losses.len() == queue.len()
            &&& forall|i: int|
                0 <= i < losses.len() ==> is_lost(
                    #[trigger] losses[i],
                    SendError::BufferFull,
                    queue[i],
                )
            &&& after.1.ping_manager@ == losses_forwarded(before.1.ping_manager@, losses)
        }),
{
    let bytes = carried_by(frame);
    let context = before.0;
    let key = four(bytes, 14) as u32;
    let mac = six(bytes, 8);
    a_frame_is_read_from_its_places(frame);
    a_resolution_is_read_from_its_places(bytes);
    let message = parse_arp(bytes)->Ok_0;
    assert(message.sender_protocol_addr == (Ipv4Addr { bits: key }));
    if exists|i: int|
        0 <= i < context.addresses.len() && (#[trigger] context.addresses[i]).0.bits == four(
            bytes,
            24,
        ) {
        let i = choose|i: int|
            0 <= i < context.addresses.len() && (#[trigger] context.addresses[i]).0.bits == four(
                bytes,
                24,
            );
        assert(context.addresses[i].0 == message.target_protocol_addr);
    }
    let recorded = ContextView {
        arp: context.arp.insert(key, ArpTableEntry::Resolved { last_seen: now, address: mac }),
        ..context
    };
    let queue = context.queue(key);
    assert(recorded.queue(key) == queue);
    let left = without_queue(recorded, key);
    waiting_datagrams_go_out_in_order(left, mac, queue, 0);
    let came = queue_sent(left, mac, queue);
    assert(came.0.sent =~= context.sent) by {
        assert(came.0.sent.take(context.sent.len() as int) =~= came.0.sent);
    }
    came.1
}

} // verus!
