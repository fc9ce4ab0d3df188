//! What becomes of a frame that is received.

use super::control::{
    a_control_message_is_read_from_its_places, a_control_message_is_written_to_its_places,
    echo_says, says,
};
use super::datagrams::{
    a_checksum_is_the_only_one, a_datagram_is_read_from_its_places, adds_up,
    an_accepted_datagram_adds_up, an_added_up_datagram_is_accepted, with_ends,
};
use super::sessions::{another_loss_is_not_told, goes_on, sessions_that_go_on_are_kept};
use super::wire::{a_frame_is_read_from_its_places, a_resolution_is_read_from_its_places, four, two};
use crate::buffer::{be16_bytes, be16_round_trip, ne_bytes};
use crate::checksum::checksum_of;
use crate::net::{IpAddr, Ipv4Addr, SocketAddr};
use crate::protocols::ethernet::{parse_header, EtherType};
use crate::protocols::ipv4::{parse_ipv4, IPProtocolTypes, IPv4Header};
use crate::protocols::ipv4::icmp::{
    filler, icmp_wire_length, parse_icmp, parsed_echo_is_writable, unix_data_round_trip,
    EchoDataView, EchoMessageDataUnix, EchoView, MessageView,
};
use crate::runtime::interface::{LossCause, LossView};
use crate::runtime::interface::context::ContextView;
use crate::runtime::interface::l2_ethernet::{frame_handled, frame_ok, frame_payload};
use crate::runtime::interface::l3_ipv4::{
    datagram_payload, echo_answer, icmp_received, outgoing_sent, whole_datagram, Outgoing,
};
use crate::runtime::interface::l4_managers::Managers;
use crate::runtime::interface::l4_managers::ping::{
    answered, answered_sequence_is_found, carried, first_pending, keys_unique, pending_at,
    round_trip_time, session_at, EntryView, PingEntryKey, PingEvent, PingResultStatus,
};
use crate::runtime::interface::l4_managers::udp::manager::{
    udp_checksum_ok, udp_received, UdpRecvOutcome,
};
use crate::runtime::interface::l4_managers::udp::port_binding::{
    first_taking, listener, AddressBindingTarget, BindingView,
};
use crate::time::{Duration, Instant, MAX_DURATION_NANOS};
use crate::write_to_buffer::WriteToBuffer;
use vstd::prelude::*;

verus! {

/// Where a frame holds what it carries: behind its header, and behind a tag where there is one.
pub open spec fn behind_header(frame: Seq<u8>) -> int {
    if two(frame, 12) == 0x8100 {
        18
    } else {
        14
    }
}

/// What a frame carries.
pub open spec fn carried_by(frame: Seq<u8>) -> Seq<u8> {
    frame.skip(behind_header(frame))
}

/// Whether a frame carries something of a kind.
pub open spec fn carries(frame: Seq<u8>, kind: int) -> bool {
    &&& frame.len() >= 14
    &&& frame.len() >= behind_header(frame)
    &&& two(frame, behind_header(frame) - 2) == kind
}

/// How many bytes the header of a datagram has.
pub open spec fn header_length(bytes: Seq<u8>) -> int {
    bytes[0] % 16 * 4
}

/// What a datagram holds behind its header.
pub open spec fn contents(bytes: Seq<u8>) -> Seq<u8> {
    bytes.subrange(header_length(bytes), two(bytes, 2))
}

/// Whether bytes start with the header of a datagram, and it was not changed on its way.
pub open spec fn starts_with_header(bytes: Seq<u8>) -> bool {
    &&& bytes.len() >= 20
    &&& bytes[0] / 16 == 4
    &&& 20 <= header_length(bytes) <= bytes.len()
    &&& two(bytes, 10) != 0xffff
    &&& adds_up(bytes.take(header_length(bytes)))
}

/// Whether bytes hold the whole of a datagram of a protocol.
pub open spec fn is_whole(bytes: Seq<u8>, protocol: u8) -> bool {
    &&& starts_with_header(bytes)
    &&& header_length(bytes) <= two(bytes, 2) <= bytes.len()
    &&& two(bytes, 6) % 0x4000 == 0
    &&& bytes[9] == protocol
}

/// The address that a datagram is from.
pub open spec fn from_address(bytes: Seq<u8>) -> Ipv4Addr {
    Ipv4Addr { bits: four(bytes, 12) as u32 }
}

/// The address that a datagram is for.
pub open spec fn for_address(bytes: Seq<u8>) -> Ipv4Addr {
    Ipv4Addr { bits: four(bytes, 16) as u32 }
}

pub(crate) proof fn header_is_read(bytes: Seq<u8>)
    requires
        starts_with_header(bytes),
    ensures
        parse_ipv4(bytes) is Ok,
{
    broadcast use be16_round_trip;

    let length = header_length(bytes);
    let front = bytes.take(10);
    let back = bytes.subrange(12, length);
    let value = two(bytes, 10) as u16;
    assert(bytes.take(length) =~= front + crate::buffer::be16_bytes(value) + back);
    a_checksum_is_the_only_one(front, value, back);
    a_datagram_is_read_from_its_places(bytes);
}

proof fn datagram_is_read(frame: Seq<u8>, protocol: u8)
    requires
        carries(frame, 0x0800),
        is_whole(carried_by(frame), protocol),
    ensures
        ({
            let bytes = carried_by(frame);
            &&& parse_header(frame) matches Ok(header)
            &&& header.ether_type == EtherType::IPv4
            &&& frame_payload(frame, header) == bytes
            &&& whole_datagram(bytes) matches Some(datagram)
            &&& datagram.source_address == from_address(bytes)
            &&& datagram.destination_address == for_address(bytes)
            &&& datagram.protocol == IPProtocolTypes::ICMP <==> protocol == 1
            &&& datagram.protocol == IPProtocolTypes::UDP <==> protocol == 17
            &&& datagram_payload(bytes, datagram) == contents(bytes)
        }),
{
    let bytes = carried_by(frame);
    a_frame_is_read_from_its_places(frame);
    header_is_read(bytes);
    a_datagram_is_read_from_its_places(bytes);
}

/// Whether a socket hears datagrams for an address: it is bound to the address or to all.
pub open spec fn hears(socket: BindingView, address: Ipv4Addr) -> bool {
    match socket.target {
        AddressBindingTarget::Any => true,
        AddressBindingTarget::AnyIpv4 => true,
        AddressBindingTarget::AnyIpv6 => false,
        AddressBindingTarget::Specific(own) => own == IpAddr::V4(address),
    }
}

/// Whether a socket is the first of those on its port that hear datagrams for an address.
pub open spec fn first_to_hear(
    sockets: Seq<BindingView>,
    address: Ipv4Addr,
    index: int,
) -> bool {
    &&& 0 <= index < sockets.len()
    &&& hears(sockets[index], address)
    &&& forall|i: int| 0 <= i < index ==> !hears(#[trigger] sockets[i], address)
}

/// Whether a datagram between ports is there as a whole and was not changed on its way.
pub open spec fn is_intact(source: Ipv4Addr, destination: Ipv4Addr, bytes: Seq<u8>) -> bool {
    &&& bytes.len() >= 8
    &&& 8 <= two(bytes, 4) <= bytes.len()
    &&& bytes[6] != 0 || bytes[7] != 0
    &&& adds_up(with_ends(source, destination, bytes.take(two(bytes, 4))))
}

/// A datagram for a port reaches the first socket there that hears its address, where the socket
/// has room and no other peer: it is the last that the socket then has to read, with the address
/// and the port that it is from. Nothing else changes, but that the socket's reader is woken where
/// it waits.
pub proof fn a_datagram_reaches_its_socket(
    before: (ContextView, Managers),
    after: (ContextView, Managers),
    frame: Seq<u8>,
    clock: EchoMessageDataUnix,
    identification: u16,
    now: Instant,
    index: int,
)
    requires
        frame_handled(before, after, frame, clock, identification, now),
        carries(frame, 0x0800),
        is_whole(carried_by(frame), 17),
        ({
            let bytes = carried_by(frame);
            let datagram = contents(bytes);
            let sockets = before.1.udp_manager.sockets.port_view(two(datagram, 2) as u16);
            let from = SocketAddr {
                ip: IpAddr::V4(from_address(bytes)),
                port: two(datagram, 0) as u16,
            };
            &&& is_intact(from_address(bytes), for_address(bytes), datagram)
            &&& first_to_hear(sockets, for_address(bytes), index)
            &&& sockets[index].state.peer_addr is None || sockets[index].state.peer_addr == Some(
                from,
            )
            &&& sockets[index].queued.len() < sockets[index].capacity
        }),
    ensures
        ({
            let bytes = carried_by(frame);
            let datagram = contents(bytes);
            let port = two(datagram, 2) as u16;
            let sockets = before.1.udp_manager.sockets.port_view(port);
            let from = SocketAddr {
                ip: IpAddr::V4(from_address(bytes)),
                port: two(datagram, 0) as u16,
            };
            let read = datagram.subrange(8, two(datagram, 4));
            let left = after.1.udp_manager.sockets.port_view(port);
            &&& left.len() == sockets.len()
            &&& left[index].queued == sockets[index].queued.push((from, read))
            &&& left[index] == BindingView { queued: left[index].queued, ..sockets[index] }
            &&& forall|i: int|
                0 <= i < left.len() && i != index ==> #[trigger] left[i] == sockets[i]
            &&& forall|other: u16|
                other != port ==> #[trigger] after.1.udp_manager.sockets.port_view(other)
                    == before.1.udp_manager.sockets.port_view(other)
            &&& after.1.udp_manager.woken@ == if sockets[index].state.read_wake {
                before.1.udp_manager.woken@.push(sockets[index].state.local_addr)
            } else {
                before.1.udp_manager.woken@
            }
            &&& after.1.udp_manager.socket_ids == before.1.udp_manager.socket_ids
            &&& after.0 == before.0
            &&& after.1.ping_manager@ == before.1.ping_manager@
        }),
{
    let bytes = carried_by(frame);
    let datagram = contents(bytes);
    let port = two(datagram, 2) as u16;
    let source = from_address(bytes);
    let destination = for_address(bytes);
    datagram_is_read(frame, 17);
    an_added_up_datagram_is_accepted(source, destination, datagram);
    socket_is_found(before.1, port, destination, index);
}

proof fn socket_is_found(managers: Managers, port: u16, address: Ipv4Addr, index: int)
    requires
        first_to_hear(managers.udp_manager.sockets.port_view(port), address, index),
    ensures
        listener(managers.udp_manager.sockets.on_port(port), IpAddr::V4(address)) == Some(index),
{
    let sockets = managers.udp_manager.sockets.on_port(port);
    let views = managers.udp_manager.sockets.port_view(port);
    let ip = IpAddr::V4(address);
    assert forall|i: int| 0 <= i < sockets.len() implies hears(#[trigger] views[i], address)
        == sockets[i].target.takes(ip) by {}
    assert(hears(views[index], address));
    assert forall|i: int| 0 <= i < index implies !(#[trigger] sockets[i]).target.takes(ip) by {
        assert(!hears(views[i], address));
    }
    assert(first_taking(sockets, ip, index));
    let found = choose|i: int| #[trigger] first_taking(sockets, ip, i);
    assert(first_taking(sockets, ip, found));
    assert(found == index) by {
        if found < index {
            assert(!sockets[found].target.takes(ip));
        }
        if index < found {
            assert(!sockets[index].target.takes(ip));
        }
    }
}

/// A datagram that was changed on its way reaches nobody, nor does one that no socket hears, one
/// for a socket with another peer and one for a socket that has no room left.
pub proof fn another_datagram_reaches_nobody(
    before: (ContextView, Managers),
    after: (ContextView, Managers),
    frame: Seq<u8>,
    clock: EchoMessageDataUnix,
    identification: u16,
    now: Instant,
)
    requires
        frame_handled(before, after, frame, clock, identification, now),
        carries(frame, 0x0800),
        is_whole(carried_by(frame), 17),
        ({
            let bytes = carried_by(frame);
            let datagram = contents(bytes);
            let sockets = before.1.udp_manager.sockets.port_view(two(datagram, 2) as u16);
            let from = SocketAddr {
                ip: IpAddr::V4(from_address(bytes)),
                port: two(datagram, 0) as u16,
            };
            ||| datagram.len() < 8
            ||| {
                &&& 8 <= two(datagram, 4) <= datagram.len()
                &&& !is_intact(from_address(bytes), for_address(bytes), datagram)
            }
            ||| forall|i: int|
                0 <= i < sockets.len() ==> !hears(#[trigger] sockets[i], for_address(bytes))
                    && !hears(sockets[i], Ipv4Addr { bits: 0 })
            ||| exists|index: int| #[trigger]
                first_to_hear(sockets, for_address(bytes), index) && (
                sockets[index].queued.len() >= sockets[index].capacity || (
                sockets[index].state.peer_addr is Some && sockets[index].state.peer_addr != Some(
                    from,
                )))
        }),
    ensures
        forall|port: u16| #[trigger]
            after.1.udp_manager.sockets.port_view(port)
                == before.1.udp_manager.sockets.port_view(port),
        after.1.udp_manager.woken@ == before.1.udp_manager.woken@,
        after.0 == before.0,
        after.1.ping_manager@ == before.1.ping_manager@,
{
    let bytes = carried_by(frame);
    let datagram = contents(bytes);
    let port = two(datagram, 2) as u16;
    let source = from_address(bytes);
    let destination = for_address(bytes);
    let sockets = before.1.udp_manager.sockets.on_port(port);
    let views = before.1.udp_manager.sockets.port_view(port);
    let from = SocketAddr { ip: IpAddr::V4(source), port: two(datagram, 0) as u16 };
    datagram_is_read(frame, 17);
    if datagram.len() >= 8 && udp_checksum_ok(
        IpAddr::V4(source),
        IpAddr::V4(destination),
        datagram,
    ) {
        if 8 <= two(datagram, 4) <= datagram.len() {
            an_accepted_datagram_adds_up(source, destination, datagram);
        }
        if exists|index: int| #[trigger]
            first_to_hear(views, destination, index) && (views[index].queued.len()
                >= views[index].capacity || (views[index].state.peer_addr is Some
                && views[index].state.peer_addr != Some(from))) {
            let index = choose|index: int| #[trigger]
                first_to_hear(views, destination, index) && (views[index].queued.len()
                    >= views[index].capacity || (views[index].state.peer_addr is Some
                    && views[index].state.peer_addr != Some(from)));
            socket_is_found(before.1, port, destination, index);
        } else {
            assert forall|i: int| 0 <= i < sockets.len() implies !(
            #[trigger] sockets[i]).target.takes(IpAddr::V4(destination)) && !(
            sockets[i]).target.takes(IpAddr::V4(Ipv4Addr { bits: 0 })) by {
                assert(!hears(views[i], destination));
            }
            assert(IpAddr::V4(destination).to_unspecified() == IpAddr::V4(Ipv4Addr { bits: 0 }));
            assert(listener(sockets, IpAddr::V4(destination)) is None);
        }
    }
}

/// Whether a control message was not changed on its way.
pub open spec fn is_control_message(bytes: Seq<u8>) -> bool {
    &&& bytes.len() >= 8
    &&& two(bytes, 2) != 0xffff
    &&& adds_up(bytes)
}

pub(crate) proof fn control_message_is_right(bytes: Seq<u8>)
    requires
        is_control_message(bytes),
    ensures
        two(bytes, 2) == checksum_of(bytes.take(2) + seq![0u8, 0u8] + bytes.skip(4)),
{
    broadcast use be16_round_trip;

    let value = two(bytes, 2) as u16;
    assert(bytes =~= bytes.take(2) + be16_bytes(value) + bytes.skip(4));
    a_checksum_is_the_only_one(bytes.take(2), value, bytes.skip(4));
}

proof fn control_message_is_taken(
    before: (ContextView, Managers),
    after: (ContextView, Managers),
    frame: Seq<u8>,
    clock: EchoMessageDataUnix,
    identification: u16,
    now: Instant,
) -> (header: IPv4Header)
    requires
        frame_handled(before, after, frame, clock, identification, now),
        carries(frame, 0x0800),
        is_whole(carried_by(frame), 1),
    ensures
        header.source_address == from_address(carried_by(frame)),
        header.destination_address == for_address(carried_by(frame)),
        (after.0, after.1.ping_manager@) == icmp_received(
            before.0,
            before.1.ping_manager@,
            header,
            contents(carried_by(frame)),
            clock,
            identification,
            now,
        ),
        after.1.udp_manager == before.1.udp_manager,
{
    datagram_is_read(frame, 1);
    whole_datagram(carried_by(frame))->0
}

proof fn answer_has_its_bytes(
    header: IPv4Header,
    request: Seq<u8>,
    identification: u16,
) -> (answer: Outgoing)
    requires
        request.len() <= 65535,
        is_control_message(request),
        request[0] == 8,
    ensures
        parse_icmp(request) matches Ok(icmp) && icmp.message is Echo && answer == echo_answer(
            header,
            icmp.message->Echo_0,
            identification,
        ),
        answer.length == request.len(),
        answer.payload.len() == request.len(),
        answer.payload[0] == 0,
        answer.payload[1] == 0,
        adds_up(answer.payload),
        answer.payload.skip(4) == request.skip(4),
{
    control_message_is_right(request);
    a_control_message_is_read_from_its_places(request);
    let echo = parse_icmp(request)->Ok_0.message->Echo_0;
    let reply = MessageView::EchoReply(echo);
    assert(echo_says(request, echo));
    parsed_echo_is_writable(request, echo);
    a_control_message_is_written_to_its_places(reply);
    let wire = reply.wire();
    icmp_wire_length(reply);
    assert(two(wire, 4) == two(request, 4) && two(wire, 6) == two(request, 6));
    assert forall|i: int| 4 <= i < wire.len() implies wire[i] == request[i] by {
        if i >= 8 {
            assert(wire.skip(8)[i - 8] == request.skip(8)[i - 8]);
        }
    }
    assert(wire.skip(4) =~= request.skip(4));
    echo_answer(header, echo, identification)
}

/// An echo is answered: what is sent goes from the address that the echo was for to the one that it
/// was from, and is the echo with another kind and the checksum that fits. No socket and no session
/// takes note of it.
pub proof fn an_echo_is_answered(
    before: (ContextView, Managers),
    after: (ContextView, Managers),
    frame: Seq<u8>,
    clock: EchoMessageDataUnix,
    identification: u16,
    now: Instant,
) -> (answer: Outgoing)
    requires
        frame_handled(before, after, frame, clock, identification, now),
        carries(frame, 0x0800),
        is_whole(carried_by(frame), 1),
        is_control_message(contents(carried_by(frame))),
        contents(carried_by(frame))[0] == 8,
    ensures
        ({
            let bytes = carried_by(frame);
            let echo = contents(bytes);
            &&& after.0 == outgoing_sent(before.0, answer, now).0
            &&& answer.source == for_address(bytes)
            &&& answer.destination == from_address(bytes)
            &&& answer.protocol == IPProtocolTypes::ICMP
            &&& answer.length == echo.len()
            &&& answer.identification == identification
            &&& answer.payload.len() == echo.len()
            &&& answer.payload[0] == 0
            &&& answer.payload[1] == 0
            &&& adds_up(answer.payload)
            &&& answer.payload.skip(4) == echo.skip(4)
            &&& after.1.ping_manager@ == before.1.ping_manager@
            &&& after.1.udp_manager == before.1.udp_manager
        }),
{
    let header = control_message_is_taken(before, after, frame, clock, identification, now);
    answer_has_its_bytes(header, contents(carried_by(frame)), identification)
}

/// Whether a session is the one that is named in an echo to or from an address.
pub open spec fn is_named(
    sessions: Seq<EntryView>,
    session: int,
    address: Ipv4Addr,
    echo: Seq<u8>,
) -> bool {
    &&& 0 <= session < sessions.len()
    &&& sessions[session].key.0 == address
    &&& sessions[session].key.1 == two(echo, 4)
}

/// Whether a number that is sent in two bytes stands for one of the last echoes of a session.
pub open spec fn stands_for(echo: Seq<u8>, number: usize, sent: usize) -> bool {
    number % 65536 == two(echo, 6) && number <= sent <= number + 32768
}

/// The number that is sent with an echo.
pub open spec fn echo_number(echo: Seq<u8>) -> u16 {
    two(echo, 6) as u16
}

/// Whether the echo with a number is the first one pending with it.
pub open spec fn awaited_at(entry: EntryView, echo: Seq<u8>, at: int) -> bool {
    &&& 0 <= at < entry.pending.len()
    &&& entry.pending[at].0 == two(echo, 6)
    &&& forall|i: int| 0 <= i < at ==> (#[trigger] entry.pending[i]).0 != two(echo, 6)
}

pub(crate) proof fn named_session_is_found(
    sessions: Seq<EntryView>,
    session: int,
    address: Ipv4Addr,
    echo: Seq<u8>,
)
    requires
        keys_unique(sessions),
        is_named(sessions, session, address, echo),
    ensures
        session_at(sessions, PingEntryKey(address, two(echo, 4) as u16)) == Some(session),
{
    let key = PingEntryKey(address, two(echo, 4) as u16);
    assert(sessions[session].key == key);
    let found = choose|i: int| 0 <= i < sessions.len() && (#[trigger] sessions[i]).key == key;
    assert(sessions[found].key == sessions[session].key);
}

pub(crate) proof fn awaited_is_found(entry: EntryView, echo: Seq<u8>, at: int)
    requires
        awaited_at(entry, echo, at),
    ensures
        pending_at(entry.pending, two(echo, 6) as u16) == Some(at),
{
    let sequence = two(echo, 6) as u16;
    assert(first_pending(entry.pending, sequence, at));
    let found = choose|i: int| #[trigger] first_pending(entry.pending, sequence, i);
    assert(first_pending(entry.pending, sequence, found));
    if found < at {
        assert(entry.pending[found].0 != two(echo, 6));
    }
    if at < found {
        assert(entry.pending[at].0 != sequence);
    }
}

/// Whether clock readings can be read again from an echo: that of the clock that only goes forward
/// is not zero, not the longest span, and not what stands in an echo without one.
pub open spec fn readable(sent: EchoMessageDataUnix) -> bool {
    &&& sent.since_epoc.wf()
    &&& sent.monotonic_instant matches Some(instant) ==> {
        &&& 0 < instant.nanos < MAX_DURATION_NANOS
        &&& ne_bytes(instant.nanos as nat, 16) != Seq::new(16, |i: int| (16 + i) as u8)
    }
}

/// How much time passed between two readings: by the clock that only goes forward where both have
/// it, and otherwise by the time since the epoch, which an echo carries to the microsecond.
pub open spec fn time_since(sent: EchoMessageDataUnix, clock: EchoMessageDataUnix) -> Option<
    Duration,
> {
    if sent.monotonic_instant is None {
        None
    } else {
        let start = sent.monotonic_instant->0.nanos;
        let since = sent.since_epoc.nanos - sent.since_epoc.nanos % 1000;
        if clock.monotonic_instant is Some && clock.monotonic_instant->0.nanos >= start {
            Some(Duration { nanos: (clock.monotonic_instant->0.nanos - start) as u128 })
        } else if clock.since_epoc.nanos >= since {
            Some(Duration { nanos: (clock.since_epoc.nanos - since) as u128 })
        } else {
            None
        }
    }
}

/// The answer to an echo that a session waits for is told once, as a success of that echo, and the
/// session no longer waits for it. A session that has no echo left to send nor to wait for is over.
/// The time that is told is the one that passed on the clock since the reading that the echo
/// carries.
pub proof fn an_answered_echo_is_told(
    before: (ContextView, Managers),
    after: (ContextView, Managers),
    frame: Seq<u8>,
    clock: EchoMessageDataUnix,
    identification: u16,
    now: Instant,
    session: int,
    at: int,
    number: usize,
    sent: EchoMessageDataUnix,
)
    requires
        frame_handled(before, after, frame, clock, identification, now),
        before.1.ping_manager@.wf(),
        carries(frame, 0x0800),
        is_whole(carried_by(frame), 1),
        ({
            let bytes = carried_by(frame);
            let echo = contents(bytes);
            let sessions = before.1.ping_manager@.sessions;
            &&& is_control_message(echo)
            &&& echo[0] == 0
            &&& is_named(sessions, session, from_address(bytes), echo)
            &&& awaited_at(sessions[session], echo, at)
            &&& stands_for(echo, number, sessions[session].sent_count)
        }),
    ensures
        ({
            let echo = contents(carried_by(frame));
            let sessions = before.1.ping_manager@.sessions;
            let entry = sessions[session];
            let events = before.1.ping_manager@.events;
            let told = after.1.ping_manager@.events;
            &&& told.len() == events.len() + 1
            &&& told.drop_last() == events
            &&& told.last().key == entry.key
            &&& told.last().sequence == number
            &&& told.last().status is Success
            &&& echo.len() < 64 ==> told.last().status == PingResultStatus::Success(None)
            &&& echo.skip(8) == sent.encoding() && readable(sent) ==> told.last().status
                == PingResultStatus::Success(time_since(sent, clock))
            &&& after.1.ping_manager@.sessions == sessions.update(
                session,
                EntryView { pending: entry.pending.remove(at), ..entry },
            ).filter(|entry: EntryView| goes_on(entry))
            &&& after.0 == before.0
            &&& after.1.udp_manager == before.1.udp_manager
        }),
{
    let bytes = carried_by(frame);
    let reply = contents(bytes);
    let ping = before.1.ping_manager@;
    let entry = ping.sessions[session];
    control_message_is_taken(before, after, frame, clock, identification, now);
    let echo = reply_is_read(reply);
    named_session_is_found(ping.sessions, session, from_address(bytes), reply);
    awaited_is_found(entry, reply, at);
    answered_sequence_is_found(number, entry.sent_count);
    let left = ping.sessions.update(
        session,
        EntryView { pending: entry.pending.remove(at), ..entry },
    );
    sessions_that_go_on_are_kept(left);
    assert(after.1.ping_manager@.events.drop_last() =~= ping.events);
    time_is_told(echo, clock, sent);
}

proof fn reply_is_read(reply: Seq<u8>) -> (echo: EchoView)
    requires
        is_control_message(reply),
        reply[0] == 0,
    ensures
        parse_icmp(reply) matches Ok(icmp) && icmp.message == MessageView::EchoReply(echo),
        echo_says(reply, echo),
{
    control_message_is_right(reply);
    a_control_message_is_read_from_its_places(reply);
    parse_icmp(reply)->Ok_0.message->EchoReply_0
}

proof fn time_is_told(echo: EchoView, clock: EchoMessageDataUnix, sent: EchoMessageDataUnix)
    ensures
        echo.data matches EchoDataView::Bytes(data) ==> {
            &&& data.len() < 56 ==> round_trip_time(carried(echo), clock) is None
            &&& data == sent.encoding() && readable(sent) ==> round_trip_time(carried(echo), clock)
                == time_since(sent, clock)
        },
{
    if readable(sent) {
        assert(filler(16).take(16) =~= Seq::new(16, |i: int| (16 + i) as u8));
        unix_data_round_trip(sent);
    }
}

/// An echo of a session that could not be delivered is told once, with the reason that the message
/// gives, and the session no longer waits for it. It is found by what the message quotes of it.
pub proof fn an_undelivered_echo_is_told(
    before: (ContextView, Managers),
    after: (ContextView, Managers),
    frame: Seq<u8>,
    clock: EchoMessageDataUnix,
    identification: u16,
    now: Instant,
    session: int,
    number: usize,
)
    requires
        frame_handled(before, after, frame, clock, identification, now),
        before.1.ping_manager@.wf(),
        carries(frame, 0x0800),
        is_whole(carried_by(frame), 1),
        ({
            let message = contents(carried_by(frame));
            let quoted = message.skip(8);
            let echo = quoted.skip(header_length(quoted));
            let sessions = before.1.ping_manager@.sessions;
            &&& is_control_message(message)
            &&& message[0] == 3
            &&& message[1] <= 5
            &&& starts_with_header(quoted)
            &&& quoted[9] == 1
            &&& echo.len() >= 8
            &&& echo[0] == 8
            &&& echo[1] == 0
            &&& is_named(sessions, session, for_address(quoted), echo)
            &&& stands_for(echo, number, sessions[session].sent_count)
        }),
    ensures
        ({
            let message = contents(carried_by(frame));
            let quoted = message.skip(8);
            let echo = quoted.skip(header_length(quoted));
            let sessions = before.1.ping_manager@.sessions;
            let entry = sessions[session];
            let left = after.1.ping_manager@.sessions;
            &&& after.1.ping_manager@.events == before.1.ping_manager@.events.push(
                PingEvent {
                    key: entry.key,
                    sequence: number,
                    status: PingResultStatus::Unreachable(reason(message[1])),
                },
            )
            &&& left.len() == sessions.len()
            &&& forall|i: int|
                0 <= i < left.len() && i != session ==> #[trigger] left[i] == sessions[i]
            &&& left[session] == EntryView { pending: left[session].pending, ..entry }
            &&& forall|at: int| #[trigger]
                awaited_at(entry, echo, at) ==> left[session].pending == entry.pending.remove(at)
            &&& (forall|at: int| !#[trigger] awaited_at(entry, echo, at))
                ==> left[session].pending == entry.pending
            &&& after.0 == before.0
            &&& after.1.udp_manager == before.1.udp_manager
        }),
{
    let bytes = carried_by(frame);
    let message = contents(bytes);
    let quoted = message.skip(8);
    let echo = quoted.skip(header_length(quoted));
    let ping = before.1.ping_manager@;
    let entry = ping.sessions[session];
    datagram_is_read(frame, 1);
    control_message_is_right(message);
    header_is_read(quoted);
    a_datagram_is_read_from_its_places(quoted);
    assert(message[8] == quoted[0]);
    a_control_message_is_read_from_its_places(message);
    let told = parse_icmp(message)->Ok_0.message->DestinationUnreachable_0;
    assert(says(message, parse_icmp(message)->Ok_0.message));
    let start = told.datagram;
    assert(start == quoted.subrange(header_length(quoted), header_length(quoted) + 8));
    assert(start[0] == echo[0] && start[1] == echo[1] && start[4] == echo[4] && start[5] == echo[5]
        && start[6] == echo[6] && start[7] == echo[7]);
    named_session_is_found(ping.sessions, session, for_address(quoted), echo);
    answered_sequence_is_found(number, entry.sent_count);
    let sequence = echo_number(echo);
    if exists|at: int| #[trigger] awaited_at(entry, echo, at) {
        let at = choose|at: int| #[trigger] awaited_at(entry, echo, at);
        assert forall|other: int| #[trigger] awaited_at(entry, echo, other) implies other == at by {
            awaited_is_found(entry, echo, at);
            awaited_is_found(entry, echo, other);
        }
        awaited_is_found(entry, echo, at);
    } else {
        if exists|i: int| #[trigger] first_pending(entry.pending, sequence, i) {
            let i = choose|i: int| #[trigger] first_pending(entry.pending, sequence, i);
            assert(awaited_at(entry, echo, i));
        }
    }
}

/// What is told of the reason for which an echo could not be delivered.
pub open spec fn reason(code: u8) -> &'static str {
    if code == 0 {
        "network unreachable"
    } else if code == 1 {
        "host unreachable"
    } else if code == 2 {
        "protocol unreachable"
    } else if code == 3 {
        "port unreachable"
    } else if code == 4 {
        "fragment need and do not fragment set"
    } else {
        "source route failed"
    }
}

/// What else is received changes nothing: a frame of another kind, a part of a datagram, a datagram
/// that was changed on its way or of another protocol, and another control message.
pub proof fn another_frame_changes_nothing(
    before: (ContextView, Managers),
    after: (ContextView, Managers),
    frame: Seq<u8>,
    clock: EchoMessageDataUnix,
    identification: u16,
    now: Instant,
)
    requires
        frame_handled(before, after, frame, clock, identification, now),
        ({
            let bytes = carried_by(frame);
            let message = contents(bytes);
            ||| frame.len() < 14
            ||| {
                &&& frame.len() >= behind_header(frame)
                &&& !carries(frame, 0x0800)
                &&& !carries(frame, 0x0806)
            }
            ||| {
                &&& carries(frame, 0x0800)
                &&& bytes.len() >= 20
                &&& header_length(bytes) >= 20
                &&& {
                    ||| bytes[0] / 16 != 4
                    ||| header_length(bytes) > bytes.len()
                    ||| !adds_up(bytes.take(header_length(bytes)))
                    ||| two(bytes, 6) % 0x4000 != 0
                    ||| bytes[9] != 1 && bytes[9] != 17
                }
            }
            ||| {
                &&& carries(frame, 0x0800)
                &&& is_whole(bytes, 1)
                &&& message.len() < 8 || !adds_up(message) || (message[0] != 0 && message[0] != 3
                    && message[0] != 8)
            }
        }),
    ensures
        after.0 == before.0,
        after.1.ping_manager@ == before.1.ping_manager@,
        after.1.udp_manager == before.1.udp_manager,
{
    let bytes = carried_by(frame);
    a_frame_is_read_from_its_places(frame);
    if carries(frame, 0x0800) && bytes.len() >= 20 && header_length(bytes) >= 20 {
        a_datagram_is_read_from_its_places(bytes);
        if is_whole(bytes, 1) {
            datagram_is_read(frame, 1);
            a_control_message_is_read_from_its_places(contents(bytes));
        }
    }
}

/// What became of a datagram for a port is told: that it is no datagram, that it was changed on its
/// way, that nobody hears it, that it is not from the peer, that there is no room, or that it was
/// delivered, and whether a reader is to be woken.
pub proof fn what_became_of_a_datagram_is_told(
    managers: Managers,
    source: Ipv4Addr,
    destination: Ipv4Addr,
    bytes: Seq<u8>,
    index: int,
)
    requires
        bytes.len() >= 8 ==> 8 <= two(bytes, 4) <= bytes.len(),
    ensures
        ({
            let port = two(bytes, 2) as u16;
            let sockets = managers.udp_manager.sockets.port_view(port);
            let from = SocketAddr { ip: IpAddr::V4(source), port: two(bytes, 0) as u16 };
            let told = udp_received(
                managers.udp_manager.sockets.on_port(port),
                IpAddr::V4(source),
                IpAddr::V4(destination),
                bytes,
            ).0;
            let intact = is_intact(source, destination, bytes);
            &&& bytes.len() < 8 <==> told is Malformed
            &&& bytes.len() >= 8 && !intact <==> told is BadChecksum
            &&& intact && (forall|i: int|
                0 <= i < sockets.len() ==> !hears(#[trigger] sockets[i], destination) && !hears(
                    sockets[i],
                    Ipv4Addr { bits: 0 },
                )) ==> told is NoSocket
            &&& intact && first_to_hear(sockets, destination, index) ==> {
                let socket = sockets[index];
                let other = socket.state.peer_addr is Some && socket.state.peer_addr != Some(from);
                &&& told is NotFromPeer <==> other
                &&& told is Full <==> !other && socket.queued.len() >= socket.capacity
                &&& told is Delivered <==> !other && socket.queued.len() < socket.capacity
                &&& told matches UdpRecvOutcome::Delivered { wake } ==> wake
                    == socket.state.read_wake
            }
        }),
{
    let port = two(bytes, 2) as u16;
    let sockets = managers.udp_manager.sockets.on_port(port);
    let views = managers.udp_manager.sockets.port_view(port);
    if bytes.len() >= 8 {
        if is_intact(source, destination, bytes) {
            an_added_up_datagram_is_accepted(source, destination, bytes);
        } else if udp_checksum_ok(IpAddr::V4(source), IpAddr::V4(destination), bytes) {
            an_accepted_datagram_adds_up(source, destination, bytes);
        }
        if first_to_hear(views, destination, index) {
            socket_is_found(managers, port, destination, index);
        }
        if forall|i: int|
            0 <= i < views.len() ==> !hears(#[trigger] views[i], destination) && !hears(
                views[i],
                Ipv4Addr { bits: 0 },
            ) {
            assert forall|i: int| 0 <= i < sockets.len() implies !(
            #[trigger] sockets[i]).target.takes(IpAddr::V4(destination)) && !(
            sockets[i]).target.takes(IpAddr::V4(Ipv4Addr { bits: 0 })) by {
                assert(!hears(views[i], destination));
            }
            assert(IpAddr::V4(destination).to_unspecified() == IpAddr::V4(Ipv4Addr { bits: 0 }));
            assert(listener(sockets, IpAddr::V4(destination)) is None);
        }
    }
}

/// Frames that are well formed can be received: those of another kind, questions and answers where
/// what waits for them fits, datagrams for ports, and echoes whose answer fits.
pub proof fn well_formed_frames_can_be_received(
    context: ContextView,
    managers: Managers,
    frame: Seq<u8>,
    now: Instant,
)
    requires
        ({
            let bytes = carried_by(frame);
            let message = contents(bytes);
            ||| frame.len() < 14
            ||| {
                &&& frame.len() >= behind_header(frame)
                &&& !carries(frame, 0x0800)
                &&& !carries(frame, 0x0806)
            }
            ||| {
                &&& carries(frame, 0x0806)
                &&& forall|i: int|
                    0 <= i < context.queue(four(bytes, 14) as u32).len() ==> 34 + (
                    #[trigger] context.queue(four(bytes, 14) as u32)[i]).1.len() <= context.mtu
            }
            ||| {
                &&& carries(frame, 0x0800)
                &&& is_whole(bytes, 17)
                &&& message.len() >= 8 ==> 8 <= two(message, 4) <= message.len()
            }
            ||| {
                &&& carries(frame, 0x0800)
                &&& is_whole(bytes, 1)
                &&& is_control_message(message)
                &&& message[0] == 8
                &&& 34 + message.len() <= context.mtu
            }
        }),
    ensures
        frame_ok(context, managers, frame, now),
{
    let bytes = carried_by(frame);
    a_frame_is_read_from_its_places(frame);
    if carries(frame, 0x0806) {
        a_resolution_is_read_from_its_places(bytes);
    }
    if carries(frame, 0x0800) {
        if is_whole(bytes, 17) {
            datagram_is_read(frame, 17);
            header_is_read(bytes);
            a_datagram_is_read_from_its_places(bytes);
        } else if is_whole(bytes, 1) {
            datagram_is_read(frame, 1);
            header_is_read(bytes);
            a_datagram_is_read_from_its_places(bytes);
            let header = whole_datagram(bytes)->0;
            answer_has_its_bytes(header, contents(bytes), 0);
        }
    }
}

/// An answer that no session waits for is not told. Sessions that have nothing left to do are over.
pub proof fn another_answer_is_not_told(
    before: (ContextView, Managers),
    after: (ContextView, Managers),
    frame: Seq<u8>,
    clock: EchoMessageDataUnix,
    identification: u16,
    now: Instant,
)
    requires
        frame_handled(before, after, frame, clock, identification, now),
        carries(frame, 0x0800),
        is_whole(carried_by(frame), 1),
        is_control_message(contents(carried_by(frame))),
        contents(carried_by(frame))[0] == 0,
        forall|i: int, at: int|
            is_named(
                before.1.ping_manager@.sessions,
                i,
                from_address(carried_by(frame)),
                contents(carried_by(frame)),
            ) ==> !#[trigger] awaited_at(
                before.1.ping_manager@.sessions[i],
                contents(carried_by(frame)),
                at,
            ),
    ensures
        after.1.ping_manager@.events == before.1.ping_manager@.events,
        after.1.ping_manager@.sessions == before.1.ping_manager@.sessions.filter(
            |entry: EntryView| goes_on(entry),
        ),
        after.0 == before.0,
        after.1.udp_manager == before.1.udp_manager,
{
    let bytes = carried_by(frame);
    let reply = contents(bytes);
    let ping = before.1.ping_manager@;
    control_message_is_taken(before, after, frame, clock, identification, now);
    let echo = reply_is_read(reply);
    sessions_that_go_on_are_kept(ping.sessions);
    if let Some((session, pending)) = answered(ping.sessions, from_address(bytes), echo) {
        assert(ping.sessions[session].key == PingEntryKey(from_address(bytes), echo.identifier));
        assert(is_named(ping.sessions, session, from_address(bytes), reply));
        assert(first_pending(ping.sessions[session].pending, echo.sequence_number, pending));
        assert(awaited_at(ping.sessions[session], reply, pending));
    }
}

/// What is told of a datagram that could not be delivered concerns only sessions whose echo it was.
pub proof fn another_undelivered_datagram_is_not_told(
    before: (ContextView, Managers),
    after: (ContextView, Managers),
    frame: Seq<u8>,
    clock: EchoMessageDataUnix,
    identification: u16,
    now: Instant,
)
    requires
        frame_handled(before, after, frame, clock, identification, now),
        carries(frame, 0x0800),
        is_whole(carried_by(frame), 1),
        ({
            let message = contents(carried_by(frame));
            let quoted = message.skip(8);
            let echo = quoted.skip(header_length(quoted));
            let sessions = before.1.ping_manager@.sessions;
            &&& message.len() >= 28
            &&& message[0] == 3
            &&& starts_with_header(quoted)
            &&& {
                ||| message[1] > 5
                ||| quoted[9] != 1
                ||| echo.len() < 8
                ||| echo[0] != 8
                ||| echo[1] != 0
                ||| forall|i: int| !is_named(sessions, i, for_address(quoted), echo)
            }
        }),
    ensures
        after.0 == before.0,
        after.1.ping_manager@ == before.1.ping_manager@,
        after.1.udp_manager == before.1.udp_manager,
{
    let message = contents(carried_by(frame));
    let quoted = message.skip(8);
    let echo = quoted.skip(header_length(quoted));
    let ping = before.1.ping_manager@;
    control_message_is_taken(before, after, frame, clock, identification, now);
    header_is_read(quoted);
    a_datagram_is_read_from_its_places(quoted);
    a_control_message_is_read_from_its_places(message);
    if let Ok(icmp) = parse_icmp(message) {
        assert(says(message, icmp.message));
        let told = icmp.message->DestinationUnreachable_0;
        let start = told.datagram;
        assert(message[1] <= 5);
        if echo.len() >= 8 {
            assert(start[0] == echo[0] && start[1] == echo[1] && start[4] == echo[4] && start[5]
                == echo[5] && start[6] == echo[6] && start[7] == echo[7]);
            let loss = LossView {
                cause: LossCause::Unreachable(told.code),
                header: told.ipv4header,
                datagram: start,
            };
            assert(told.ipv4header == parse_ipv4(quoted)->Ok_0);
            assert(loss.header.destination_address == for_address(quoted));
            if quoted[9] == 1 && echo[0] == 8 && echo[1] == 0 {
                assert forall|i: int| 0 <= i < ping.sessions.len() implies !#[trigger] is_named(
                    ping.sessions,
                    i,
                    loss.header.destination_address,
                    start,
                ) by {
                    assert(!is_named(ping.sessions, i, for_address(quoted), echo));
                }
            }
            another_loss_is_not_told(ping, loss);
        }
    }
}

} // verus!
