//! What is read, written and kept.

use super::configuration::{option_number, overload_number, type_number};
use super::control::{says, unreachable_number};
use super::datagrams::adds_up;
use super::wire::{four, six, two};
use crate::buffer::bytes_contents;
use crate::checksum::{checksum_of, Summation};
use crate::common::Error;
use crate::net::{Ipv4Addr, SocketAddr};
use crate::protocols::arp::{ArpMessage, Operation};
use crate::protocols::ethernet::{EtherType, EthernetHeader};
use crate::protocols::ethernet::mac::MacAddr;
use crate::protocols::ipv4::{IPProtocolTypes, IPv4Header};
use crate::protocols::ipv4::dhcp::{parse_dhcp, DHCP, DHCPMessageType, OptionCode, OptionsOverload};
use crate::protocols::ipv4::icmp::{
    DestinationUnreachableCode, EchoDataView, EchoMessage, EchoMessageDataUnix, ICMPMessage,
    ICMPMessageTypes, MessageView,
};
use crate::protocols::udp::UdpHeader;
use crate::runtime::address_table::AddressTableIpv4;
use crate::runtime::buffer_pool::{BufferPool, PooledBuffer, WriteTrackingBuffer};
use crate::runtime::channel::{NetworkSendPayload, NetworkSender, NetworkSenderError};
use crate::runtime::emsgsize::{emsgsize_code, Platform};
use crate::runtime::interface::{AsyncSendError, LossCause};
use crate::runtime::interface::context::InterfaceContext;
use crate::runtime::interface::l2_ethernet::arp_table::{
    arp_asked, arp_request, ArpState, ArpTable, ArpTableEntry,
};
use crate::runtime::interface::l4_managers::ping::{PingManager, PingManagerEntry};
use crate::runtime::interface::l4_managers::udp::context::UdpSocketContext;
use crate::runtime::interface::l4_managers::udp::messages::{
    MessageRing, RecvRing, SharableUdpSendResult, UdpRecvMessage, UdpSendMessage, UdpSendResult,
};
use crate::runtime::interface::l4_managers::udp::port_binding::AddressBinding;
use crate::runtime::route_table::{RouteInformation, RouteTable};
use crate::time::{Duration, Instant};
use bytes::Bytes;
use vstd::prelude::*;

verus! {

/// The numbers with which the parts of a configuration are written.
pub proof fn configuration_values_are_their_numbers(
    message_type: DHCPMessageType,
    overload: OptionsOverload,
    option: OptionCode,
    value: u8,
    code: u8,
    read: Option<OptionCode>,
)
    ensures
        call_ensures(DHCPMessageType::value, (&message_type,), value) ==> value == type_number(
            message_type,
        ),
        call_ensures(OptionsOverload::value, (&overload,), value) ==> value == overload_number(
            overload,
        ),
        call_ensures(OptionCode::value, (&option,), value) ==> value == option_number(option),
        call_ensures(OptionCode::from_repr, (code,), read) ==> match read {
            Some(option) => option_number(option) == code,
            None => option_number(option) != code,
        },
{
    super::configuration::configuration_numbers(message_type, overload, option, code);
    if let Some(other) = read {
        super::configuration::configuration_numbers(message_type, overload, other, code);
    }
}

/// The numbers of what frames and datagrams carry.
pub proof fn kinds_are_read_and_written_by_their_numbers(
    code: u16,
    protocol: u8,
    ether_type: EtherType,
    ip_protocol: IPProtocolTypes,
    reason: DestinationUnreachableCode,
)
    ensures
        call_ensures(EtherType::from_code, (code,), ether_type) ==> {
            &&& ether_type == EtherType::IPv4 <==> code == 0x0800
            &&& ether_type == EtherType::ARP <==> code == 0x0806
            &&& ether_type == EtherType::VLAN <==> code == 0x8100
            &&& ether_type == EtherType::IPv6 <==> code == 0x86dd
        },
        call_ensures(EtherType::code, (&ether_type,), code) ==> {
            &&& ether_type == EtherType::IPv4 ==> code == 0x0800
            &&& ether_type == EtherType::ARP ==> code == 0x0806
            &&& ether_type == EtherType::VLAN ==> code == 0x8100
            &&& ether_type == EtherType::IPv6 ==> code == 0x86dd
        },
        call_ensures(IPProtocolTypes::from_code, (protocol,), ip_protocol) ==> {
            &&& ip_protocol == IPProtocolTypes::ICMP <==> protocol == 1
            &&& ip_protocol == IPProtocolTypes::TCP <==> protocol == 6
            &&& ip_protocol == IPProtocolTypes::UDP <==> protocol == 17
        },
        call_ensures(IPProtocolTypes::code, (&ip_protocol,), protocol) ==> {
            &&& ip_protocol == IPProtocolTypes::ICMP ==> protocol == 1
            &&& ip_protocol == IPProtocolTypes::TCP ==> protocol == 6
            &&& ip_protocol == IPProtocolTypes::UDP ==> protocol == 17
        },
        call_ensures(DestinationUnreachableCode::code, (&reason,), protocol) ==> protocol
            == unreachable_number(reason),
{
}

/// The header of a frame is read from its places.
pub proof fn a_frame_header_is_read(bytes: Bytes, result: Result<EthernetHeader, Error>)
    requires
        call_ensures(EthernetHeader::from_bytes, (&bytes,), result),
        two(bytes_contents(bytes), 12) != 0x8100,
    ensures
        result is Ok <==> bytes_contents(bytes).len() >= 14,
        result matches Ok(header) ==> {
            &&& header.destination_address == six(bytes_contents(bytes), 0)
            &&& header.source_address == six(bytes_contents(bytes), 6)
            &&& header.ether_type == EtherType::IPv4 <==> two(bytes_contents(bytes), 12) == 0x0800
            &&& header.ether_type == EtherType::ARP <==> two(bytes_contents(bytes), 12) == 0x0806
        },
{
    super::wire::a_frame_is_read_from_its_places(bytes_contents(bytes));
}

/// A question or an answer is read from its places.
pub proof fn a_resolution_is_read(bytes: &[u8], result: Result<ArpMessage, Error>)
    requires
        call_ensures(ArpMessage::from_bytes, (bytes,), result),
    ensures
        result is Ok <==> super::resolution::is_resolution(bytes@),
        result matches Ok(message) ==> {
            &&& message.operation == Operation::Request <==> two(bytes@, 6) == 1
            &&& message.sender_hardware_addr == six(bytes@, 8)
            &&& message.sender_protocol_addr.bits == four(bytes@, 14)
            &&& message.target_hardware_addr == six(bytes@, 18)
            &&& message.target_protocol_addr.bits == four(bytes@, 24)
        },
{
    super::wire::a_resolution_is_read_from_its_places(bytes@);
}

/// The header of a datagram is read from its places.
pub proof fn a_datagram_header_is_read(bytes: Bytes, result: Result<IPv4Header, Error>)
    requires
        call_ensures(IPv4Header::from_bytes, (&bytes,), result),
        bytes_contents(bytes).len() >= 20,
        bytes_contents(bytes)[0] % 16 >= 5,
    ensures
        super::receiving::starts_with_header(bytes_contents(bytes)) ==> result is Ok,
        result matches Ok(header) ==> {
            &&& header.source_address.bits == four(bytes_contents(bytes), 12)
            &&& header.destination_address.bits == four(bytes_contents(bytes), 16)
            &&& header.total_length == two(bytes_contents(bytes), 2)
            &&& header.time_to_live == bytes_contents(bytes)[8]
            &&& header.protocol == IPProtocolTypes::UDP <==> bytes_contents(bytes)[9] == 17
            &&& header.protocol == IPProtocolTypes::ICMP <==> bytes_contents(bytes)[9] == 1
        },
{
    super::datagrams::a_datagram_is_read_from_its_places(bytes_contents(bytes));
    if super::receiving::starts_with_header(bytes_contents(bytes)) {
        super::receiving::header_is_read(bytes_contents(bytes));
    }
}

/// The ports of a datagram are read from their places, and a checksum that is put in fits.
pub proof fn ports_are_read(bytes: &[u8], result: Result<UdpHeader, Error>)
    requires
        call_ensures(UdpHeader::from_bytes, (bytes,), result),
    ensures
        result is Ok <==> bytes@.len() >= 8,
        result matches Ok(header) ==> {
            &&& header.source_port == two(bytes@, 0)
            &&& header.destination_port == two(bytes@, 2)
            &&& header.length == two(bytes@, 4)
        },
{
    super::datagrams::ports_are_read_from_their_places(bytes@);
}

/// A control message is read as its first bytes say.
pub proof fn a_control_message_is_read(bytes: Bytes, result: Result<ICMPMessage, Error>)
    requires
        call_ensures(ICMPMessage::from_bytes, (&bytes,), result),
    ensures
        result matches Ok(icmp) ==> {
            let contents = bytes_contents(bytes);
            &&& says(contents, icmp.message@)
            &&& adds_up(contents)
            &&& icmp.message matches ICMPMessageTypes::Echo(echo) ==> contents[0] == 8
                && echo.identifier == two(contents, 4) && echo.sequence_number == two(contents, 6)
            &&& icmp.message matches ICMPMessageTypes::EchoReply(echo) ==> contents[0] == 0
                && echo.identifier == two(contents, 4) && echo.sequence_number == two(contents, 6)
            &&& icmp.message matches ICMPMessageTypes::DestinationUnreachable(told) ==> contents[0]
                == 3 && contents[1] == unreachable_number(told.code)
        },
        super::receiving::is_control_message(bytes_contents(bytes)) && (bytes_contents(bytes)[0]
            == 8 || bytes_contents(bytes)[0] == 0) ==> result is Ok,
{
    let contents = bytes_contents(bytes);
    super::control::a_control_message_is_read_from_its_places(contents);
    if super::receiving::is_control_message(contents) {
        super::receiving::control_message_is_right(contents);
    }
}

/// An echo that is written asks under its numbers, and its answer has the same numbers and data.
pub proof fn an_echo_and_its_answer_have_the_same_numbers(
    identifier: u16,
    sequence: u16,
    data: EchoMessageDataUnix,
    request: ICMPMessage,
    original: EchoMessage,
    reply: ICMPMessage,
)
    requires
        call_ensures(ICMPMessage::new_echo_request, (identifier, sequence, data), request),
        call_ensures(ICMPMessage::echo_reply, (&original,), reply),
    ensures
        request@.message matches MessageView::Echo(echo) && echo.identifier == identifier
            && echo.sequence_number == sequence && echo.data == EchoDataView::UnixLike(data),
        reply@.message matches MessageView::EchoReply(echo) && echo == original@,
{
}

/// A message of a configuration is read as is said of it, and what a client writes first is that it
/// looks for servers.
pub proof fn a_configuration_is_read(
    bytes: &[u8],
    result: Result<DHCP, Error>,
    transaction_id: u32,
    started: Instant,
    now: Instant,
    mac: MacAddr,
    message: DHCP,
)
    ensures
        call_ensures(DHCP::try_from, (bytes,), result) ==> match result {
            Ok(message) => parse_dhcp(bytes@) is Ok && parse_dhcp(bytes@)->Ok_0 == message@,
            Err(error) => parse_dhcp(bytes@) is Err && parse_dhcp(bytes@)->Err_0 == error@,
        },
        call_ensures(DHCP::discover, (transaction_id, started, now, mac), message) && now.nanos
            - started.nanos < 1_000_000_000 ==> message@
            == crate::services::dhcpv4::discover_message(transaction_id, mac),
        call_ensures(DHCP::discover, (transaction_id, started, now, mac), message) && 0
            <= now.nanos - started.nanos < 65_536_000_000_000 ==> message@.secs == (now.nanos
            - started.nanos) as int / 1_000_000_000,
{
}

/// What is held of a message is what is said of it.
pub proof fn views_of_messages_show_what_they_hold(
    message: DHCP,
    icmp: ICMPMessage,
    received: UdpRecvMessage,
    lost: AsyncSendError,
)
    ensures
        message@.operation == message.operation,
        message@.hops == message.hops,
        message@.transaction_id == message.transaction_id,
        message@.secs == message.secs,
        message@.client_ip_addr == message.client_ip_addr,
        message@.your_ip_addr == message.your_ip_addr,
        message@.next_server_ip_addr == message.next_server_ip_addr,
        message@.relay_agent_ip_addr == message.relay_agent_ip_addr,
        message@.client_hardware_addr == message.client_hardware_addr@,
        icmp.message matches ICMPMessageTypes::Echo(echo) ==> {
            &&& icmp@.message matches MessageView::Echo(shown)
            &&& shown.identifier == echo.identifier
            &&& shown.sequence_number == echo.sequence_number
        },
        icmp.message matches ICMPMessageTypes::EchoReply(echo) ==> {
            &&& icmp@.message matches MessageView::EchoReply(shown)
            &&& shown.identifier == echo.identifier
            &&& shown.sequence_number == echo.sequence_number
        },
        icmp.message matches ICMPMessageTypes::DestinationUnreachable(told) ==> {
            &&& icmp@.message matches MessageView::DestinationUnreachable(shown)
            &&& shown.code == told.code
            &&& shown.ipv4header == told.ipv4header
            &&& shown.datagram == told.datagram@
        },
        received matches UdpRecvMessage::Packet { source, payload } ==> received@ == (
            source,
            bytes_contents(payload),
        ),
        lost matches AsyncSendError::LocalSendError { error, ipv4header, datagram } ==> {
            &&& lost@.cause == LossCause::Local(error)
            &&& lost@.header == ipv4header
            &&& lost@.datagram == datagram@
        },
        lost matches AsyncSendError::ICMPUnreachable(told) ==> {
            &&& lost@.cause == LossCause::Unreachable(told.code)
            &&& lost@.header == told.ipv4header
            &&& lost@.datagram == told.datagram@
        },
{
}

/// What is held of an interface, a session and a socket is what is said of it.
pub proof fn views_of_states_show_what_they_hold(
    context: InterfaceContext,
    entry: PingManagerEntry,
    manager: PingManager,
    socket: AddressBinding,
    index: int,
)
    requires
        0 <= index < manager.sessions@.len(),
    ensures
        context@.mtu == context.mtu,
        context@.mac == context.mac_addr,
        context@.sent == context.network_tx.queued(),
        context@.capacity == context.network_tx.capacity(),
        context@.arp == context.arp_table.table@,
        context@.routes == context.ipv4_route_table.routes@,
        entry@.key.0 == entry.target,
        entry@.key.1 == entry.identifier,
        entry@.count == entry.count,
        entry@.interval == entry.interval,
        entry@.sent_count == entry.sent_count,
        entry@.last_sent == entry.last_sent,
        entry@.pending == entry.pending@,
        entry@.timeout == entry.timeout,
        manager@.sessions.len() == manager.sessions@.len(),
        manager@.sessions[index] == manager.sessions@[index]@,
        manager@.events == manager.events@,
        socket@.target == socket.target,
        socket@.original == socket.original,
        socket@.state == socket.handle.state,
        socket@.queued == socket.handle.recv.queued(),
        socket@.messages == socket.handle.send.queued(),
{
}

/// A checksum is that of all bytes that were given, in the order in which they were.
pub proof fn a_checksum_is_of_all_bytes(
    sum: &mut Summation,
    bytes: &[u8],
    finished: Summation,
    value: u16,
)
    ensures
        call_ensures(Summation::add_bytes, (sum, bytes), ()) ==> final(sum)@ == old(sum)@ + bytes@,
        call_ensures(Summation::finish, (&finished,), value) ==> value == checksum_of(finished@),
{
}

/// A buffer is taken from the front of the free ones, and from the ones that came back where none
/// is free. None is given out twice.
pub proof fn a_buffer_is_taken_once(
    pool: &mut BufferPool,
    returned: &mut Vec<PooledBuffer>,
    buffer: Option<PooledBuffer>,
)
    requires
        call_ensures(BufferPool::acquire, (pool, returned), buffer),
    ensures
        buffer is None <==> old(pool).free().len() == 0 && old(returned)@.len() == 0,
        buffer is Some && old(pool).free().len() > 0 ==> {
            &&& old(pool).free() == seq![(buffer->0)@] + final(pool).free()
            &&& final(returned)@ == old(returned)@
        },
        buffer is Some && old(pool).free().len() == 0 ==> {
            &&& final(pool).free().len() == old(returned)@.len() - 1
            &&& (buffer->0)@ == old(returned)@[0]@
            &&& final(returned)@.len() == 0
        },
        final(pool).buffer_size == old(pool).buffer_size,
{
    if old(pool).free().len() > 0 {
        let free = old(pool).free();
        assert(free =~= seq![free[0]] + free.skip(1));
    }
}

/// What was written to a buffer is what is read of it.
pub proof fn what_is_written_is_read(
    buffer: &mut WriteTrackingBuffer,
    count: usize,
    read: WriteTrackingBuffer,
    slice: &[u8],
)
    ensures
        call_ensures(WriteTrackingBuffer::advance, (buffer, count), ()) ==> final(buffer).written
            == old(buffer).written + count && final(buffer).buffer == old(buffer).buffer,
        call_ensures(WriteTrackingBuffer::as_ref, (&read,), slice) && read.written
            <= read.buffer@.len() ==> slice@ == read.buffer@.subrange(0, read.written as int),
{
}

/// What is put in a queue comes out in the order in which it went in, and a full queue takes
/// nothing more.
pub proof fn queues_keep_their_order(
    sender: &mut NetworkSender,
    payload: NetworkSendPayload,
    sent: Result<(), NetworkSenderError>,
    next: Option<NetworkSendPayload>,
    datagrams: &mut RecvRing,
    datagram: UdpRecvMessage,
    pushed: bool,
    taken: Option<UdpRecvMessage>,
    messages: &mut MessageRing,
    message: UdpSendMessage,
    result: Result<(), UdpSendMessage>,
    popped: Option<UdpSendMessage>,
)
    ensures
        call_ensures(NetworkSender::try_send, (sender, payload), sent) ==> {
            &&& sent is Ok <==> old(sender).queued().len() < old(sender).capacity()
            &&& sent is Ok ==> final(sender).queued() == old(sender).queued().push(payload@)
            &&& sent is Err ==> final(sender).queued() == old(sender).queued()
        },
        call_ensures(NetworkSender::next_outgoing, (sender,), next) ==> {
            &&& next is None <==> old(sender).queued().len() == 0
            &&& next matches Some(first) ==> first@ == old(sender).queued()[0]
                && final(sender).queued() == old(sender).queued().skip(1)
        },
        call_ensures(RecvRing::try_push, (datagrams, datagram), pushed) ==> {
            &&& pushed <==> old(datagrams).queued().len() < old(datagrams).capacity()
            &&& pushed ==> final(datagrams).queued() == old(datagrams).queued().push(datagram@)
            &&& !pushed ==> final(datagrams).queued() == old(datagrams).queued()
        },
        call_ensures(RecvRing::try_pop, (datagrams,), taken) ==> {
            &&& taken is None <==> old(datagrams).queued().len() == 0
            &&& taken matches Some(first) ==> first@ == old(datagrams).queued()[0]
                && final(datagrams).queued() == old(datagrams).queued().skip(1)
        },
        call_ensures(MessageRing::try_push, (messages, message), result) ==> {
            &&& result is Ok <==> old(messages).queued().len() < old(messages).capacity()
            &&& result is Ok ==> final(messages).queued() == old(messages).queued().push(message@)
            &&& result matches Err(back) ==> back == message && final(messages).queued()
                == old(messages).queued()
        },
        call_ensures(MessageRing::try_pop, (messages,), popped) ==> {
            &&& popped is None <==> old(messages).queued().len() == 0
            &&& popped matches Some(first) ==> first@ == old(messages).queued()[0]
                && final(messages).queued() == old(messages).queued().skip(1)
        },
{
}

/// A result is kept until it is taken, and can be taken once.
pub proof fn a_result_is_taken_once(
    shared: &mut SharableUdpSendResult,
    result: UdpSendResult,
    taken: Option<UdpSendResult>,
)
    ensures
        call_ensures(SharableUdpSendResult::store, (shared, result), ()) ==> final(shared).holds()
            == Some(result),
        call_ensures(SharableUdpSendResult::reset, (shared,), taken) ==> taken
            == old(shared).holds() && final(shared).holds() is None,
{
}

/// A datagram that is taken from a socket fills the buffer from its start, and one that is looked
/// at stays.
pub proof fn a_datagram_is_taken_or_looked_at(
    context: &mut UdpSocketContext,
    looked: UdpSocketContext,
    buf: &mut [u8],
    received: Option<(usize, SocketAddr)>,
)
    ensures
        call_ensures(UdpSocketContext::try_pop, (context, buf), received) ==> {
            let queued = old(context).recv.queued();
            &&& received is None <==> queued.len() == 0
            &&& received matches Some((count, source)) ==> {
                &&& source == queued[0].0
                &&& super::sockets::filled(old(buf)@, final(buf)@, queued[0].1, count as int)
                &&& final(context).recv.queued() == queued.skip(1)
            }
        },
        call_ensures(UdpSocketContext::try_peek, (&looked, buf), received) ==> {
            let queued = looked.recv.queued();
            &&& received is None <==> queued.len() == 0
            &&& received matches Some((count, source)) ==> {
                &&& source == queued[0].0
                &&& super::sockets::filled(old(buf)@, final(buf)@, queued[0].1, count as int)
            }
        },
{
    let queued = old(context).recv.queued();
    let seen = looked.recv.queued();
    super::sockets::a_buffer_is_filled_from_its_start(old(buf)@, queued[0].1);
    super::sockets::a_buffer_is_filled_from_its_start(old(buf)@, seen[0].1);
}

/// A link layer address that is learned is known from then on, and only known ones are renewed.
pub proof fn link_layer_addresses_are_learned(
    table: &mut ArpTable,
    mac: MacAddr,
    address: Ipv4Addr,
    source: Ipv4Addr,
    now: Instant,
    known: bool,
    state: ArpState,
)
    ensures
        call_ensures(ArpTable::update_or_insert, (table, mac, address, now), known) ==> {
            &&& known <==> old(table)@.contains_key(address.bits)
            &&& final(table)@ == old(table)@.insert(
                address.bits,
                ArpTableEntry::Resolved { last_seen: now, address: mac },
            )
        },
        call_ensures(ArpTable::update_only, (table, mac, address, now), known) ==> {
            &&& known <==> old(table)@.contains_key(address.bits)
            &&& known ==> final(table)@ == old(table)@.insert(
                address.bits,
                ArpTableEntry::Resolved { last_seen: now, address: mac },
            )
            &&& !known ==> final(table)@ == old(table)@
        },
        call_ensures(ArpTable::request, (table, address, source, now), state) ==> (
            final(table)@,
            state,
        ) == arp_request(old(table)@, address, source, now),
        call_ensures(ArpTable::can_send_request, (table, address, source, now), known) ==> {
            &&& final(table)@ == arp_asked(old(table)@, address, source, now)
            &&& known <==> !old(table)@.contains_key(address.bits) || old(table)@[address.bits]
                is Pending
        },
{
}

/// Addresses are added behind the others, and one is found where the interface has it.
pub proof fn addresses_are_kept(
    table: &mut AddressTableIpv4,
    looked: AddressTableIpv4,
    address: Ipv4Addr,
    mask: Ipv4Addr,
    found: bool,
)
    ensures
        call_ensures(AddressTableIpv4::insert, (table, address, mask), ())
            ==> final(table)@ == old(table)@.push((address, mask)),
        call_ensures(AddressTableIpv4::remove, (table, address), ()) ==> final(table)@
            == crate::runtime::address_table::without_first(old(table)@, address),
        call_ensures(AddressTableIpv4::contains, (&looked, address), found) ==> (found <==> exists|
            i: int,
        |
            0 <= i < looked@.len() && (#[trigger] looked@[i]).0 == address),
{
}

/// A route is looked up among those that lead to an address: the one with the longest mask.
pub proof fn a_route_is_looked_up(
    table: RouteTable<Ipv4Addr>,
    address: Ipv4Addr,
    found: Option<&RouteInformation<Ipv4Addr>>,
)
    requires
        call_ensures(RouteTable::<Ipv4Addr>::lookup, (&table, &address), found),
        table.wf(),
    ensures
        found matches Some(route) ==> super::sending::is_taken(table@, address, *route),
        found is None ==> forall|i: int|
            0 <= i < table@.len() ==> !super::sending::leads_to(#[trigger] table@[i], address),
{
    super::sending::the_longest_mask_is_taken(table@, address);
    if let Some(route) = found {
        crate::runtime::interface::l3_ipv4::route_is_told(table@, address, *route);
        assert(super::sending::is_taken(table@, address, *route));
    } else {
        assert forall|i: int| 0 <= i < table@.len() implies !super::sending::leads_to(
            #[trigger] table@[i],
            address,
        ) by {
            assert(!table@[i].matches(address));
        }
    }
}

/// The number of the error that a message is too long.
pub proof fn a_message_that_is_too_long_has_its_number(platform: Platform, code: i32)
    requires
        call_ensures(emsgsize_code, (platform,), code),
    ensures
        code == super::sockets::too_long(platform),
{
}

/// Spans and addresses are made of their parts.
pub proof fn spans_and_addresses_are_made_of_their_parts(
    count: u64,
    span: Duration,
    a: u8,
    b: u8,
    c: u8,
    d: u8,
    address: Ipv4Addr,
    one: Instant,
    other: Instant,
)
    ensures
        call_ensures(Duration::from_secs, (count,), span) ==> span.nanos == count * 1_000_000_000,
        call_ensures(Duration::from_millis, (count,), span) ==> span.nanos == count * 1_000_000,
        call_ensures(Ipv4Addr::new, (a, b, c, d), address) ==> address.bits == a * 0x100_0000 + b
            * 0x1_0000 + c * 0x100 + d,
        call_ensures(Instant::duration_since, (&one, other), span) ==> span.nanos == if one.nanos
            >= other.nanos {
            one.nanos - other.nanos
        } else {
            0
        },
{
}

} // verus!
