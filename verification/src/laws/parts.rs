//! The smaller operations, of which the others are made.

use super::control::unreachable_number;
use super::datagrams::{adds_up, precedence_number, with_ends};
use super::interface::is_mask;
use super::wire::{four, six, two};
use crate::buffer::bytes_contents;
use crate::common::Error;
use crate::net::{IpAddr, Ipv4Addr, SocketAddr};
use crate::poller::{slot_ready, slot_state, Poller, ReadyState, ReadyTokensByBits, Token};
use crate::protocols::arp::{ArpMessage, ArpResponder, Operation};
use crate::protocols::ethernet::EthernetHeader;
use crate::protocols::ethernet::mac::{MacAddr, TryFromSliceError};
use crate::protocols::ipv4::{
    prefix_to_mask, IPProtocolTypes, IPv4Header, IPv4HeaderLengthWords, TypeOfService,
};
use crate::protocols::ipv4::dhcp::{
    first_overload, null_terminated, parse_options, DHCP, DHCPOptions, Flags, OptionsOverload,
};
use crate::protocols::ipv4::icmp::{
    DestinationUnreachableCode, ICMPMessage, ICMPMessageTypes, RedirectMessageCode,
    TimeExceededCode,
};
use crate::protocols::udp::UdpHeader;
use crate::runtime::address_table::{AddressTable, AddressTableIpv4, InterfaceIpv4Addr};
use crate::runtime::buffer_pool::{BufferPool, PooledBuffer, WriteTrackingBuffer};
use crate::runtime::emsgsize::Platform;
use crate::runtime::interface::{AsyncSendError, InterfaceError};
use crate::runtime::interface::context::InterfaceContext;
use crate::runtime::interface::l4_managers::ping::{earlier_of, loss_taken, PingManager};
use crate::runtime::interface::l4_managers::udp::{reported, send_refused, SocketError, UdpSocket};
use crate::runtime::interface::l4_managers::udp::handle::{datagram_sent, UdpSocketHandle};
use crate::runtime::interface::l4_managers::udp::manager::{ready_addresses, UdpManager};
use crate::runtime::interface::l4_managers::udp::messages::{
    SharableUdpSendResult, UdpConnectResult, UdpSendResult,
};
use crate::runtime::interface::l4_managers::udp::port_binding::{
    bindable, AddressBinding, AddressBindingTarget, PortBindings,
};
use crate::runtime::interface::worker::{
    address_add, address_removed, handled_count, route_added, InterfaceControlMessage,
    InterfaceWorker,
};
use crate::runtime::route_table::{ordered, put_among, RouteInformation, RouteTable};
use crate::services::dhcpv4::{packet_bytes, Action, ClientState};
use crate::time::Instant;
use crate::write_to_buffer::WriteToBuffer;
use bytes::Bytes;
use vstd::prelude::*;

verus! {

/// Who answers questions for all addresses answers to who asked, in the name of its own address,
/// and remembers each sender once.
pub proof fn a_responder_answers_and_remembers(
    responder: &mut ArpResponder,
    frame: EthernetHeader,
    message: ArpMessage,
    mac: MacAddr,
    address: Ipv4Addr,
    answer: (EthernetHeader, ArpMessage),
)
    requires
        call_ensures(
            ArpResponder::handle,
            (responder, &frame, &message, mac, address),
            answer,
        ),
    ensures
        answer.0.destination_address == frame.source_address,
        answer.0.source_address == mac,
        answer.0.ether_type == frame.ether_type,
        answer.1.operation == Operation::Reply,
        answer.1.sender_hardware_addr == mac,
        answer.1.sender_protocol_addr == address,
        answer.1.target_hardware_addr == message.sender_hardware_addr,
        answer.1.target_protocol_addr == message.sender_protocol_addr,
        final(responder).seen@.contains(
            (message.sender_hardware_addr, message.sender_protocol_addr),
        ),
        old(responder).seen@.contains((message.sender_hardware_addr, message.sender_protocol_addr))
            ==> final(responder).seen@ == old(responder).seen@,
        final(responder).seen@.take(old(responder).seen@.len() as int) == old(responder).seen@,
{
    let sender = (message.sender_hardware_addr, message.sender_protocol_addr);
    let before = old(responder).seen@;
    assert(before.push(sender).last() == sender);
    assert(before.push(sender)[before.len() as int] == sender);
    assert(before.push(sender).take(before.len() as int) =~= before);
    assert(before.take(before.len() as int) =~= before);
}

/// A header between ports has its ports and the length of what follows. Its checksum makes it add
/// up with the addresses of its ends, and is found right only where it does.
pub proof fn a_header_between_ports_is_checked(
    source_port: u16,
    destination_port: u16,
    length: u16,
    made: UdpHeader,
    header: UdpHeader,
    source: Ipv4Addr,
    destination: Ipv4Addr,
    data: &[u8],
    valid: bool,
    checksum: [u8; 2],
)
    requires
        header.length == 8 + data@.len(),
    ensures
        call_ensures(UdpHeader::new, (source_port, destination_port, length), made) && length
            <= 65527 ==> made.source_port == source_port && made.destination_port
            == destination_port && made.length == 8 + length,
        call_ensures(
            UdpHeader::compute_checksum_v4,
            (&header, &source, &destination, data),
            checksum,
        ) ==> adds_up(
            with_ends(
                source,
                destination,
                (UdpHeader { checksum, ..header }).encoding() + data@,
            ),
        ) && checksum@ != seq![0u8, 0u8],
        call_ensures(
            UdpHeader::validate_checksum_v4,
            (&header, &source, &destination, data),
            valid,
        ) ==> valid == (header.checksum == header.checksum_v4(source, destination, data@)),
{
    super::datagrams::filled_datagram_adds_up(source, destination, header, data@);
    let own = header.checksum_v4(source, destination, data@);
    let filled = UdpHeader { checksum: own, ..header };
    assert(filled.encoding() =~= crate::buffer::be16_bytes(header.source_port)
        + crate::buffer::be16_bytes(header.destination_port) + crate::buffer::be16_bytes(
        header.length,
    ) + own@);
}

/// A header is made of the parts that are given for it.
pub proof fn a_header_is_made_of_its_parts(
    protocol: IPProtocolTypes,
    source: Ipv4Addr,
    destination: Ipv4Addr,
    length: u16,
    identification: u16,
    header: IPv4Header,
    read: IPv4Header,
    count: usize,
    whole: bool,
)
    requires
        length <= 65515,
    ensures
        call_ensures(
            IPv4Header::with_identification,
            (protocol, source, destination, length, identification),
            header,
        ) ==> super::sending::heads(
            header.encoding(),
            source,
            destination,
            protocol,
            length as nat,
            identification,
        ) && header.source_address == source && header.destination_address == destination,
        call_ensures(IPv4Header::new, (protocol, source, destination, length), header)
            ==> super::sending::heads(
            header.encoding(),
            source,
            destination,
            protocol,
            length as nat,
            header.fragment_details.identification,
        ),
        call_ensures(IPv4Header::payload_length, (&read,), count) && read.header_len.0 * 4
            <= read.total_length ==> count + read.header_len.0 * 4 == read.total_length,
        call_ensures(IPv4Header::is_fragmented, (&read,), whole) ==> (whole
            <==> read.fragment_details.more_fragments || read.fragment_details.offset > 0),
{
    super::datagrams::a_datagram_is_written_to_its_places(
        protocol,
        source,
        destination,
        length,
        identification,
    );
    super::datagrams::a_datagram_is_written_to_its_places(
        protocol,
        source,
        destination,
        length,
        header.fragment_details.identification,
    );
}

/// The small parts of a header are read from their bits and written to them.
pub proof fn small_parts_have_their_bits(
    byte: u8,
    written: u8,
    service: TypeOfService,
    words: IPv4HeaderLengthWords,
    length: u16,
    prefix: u8,
    mask: Ipv4Addr,
)
    ensures
        call_ensures(TypeOfService::parse, (byte,), service) ==> precedence_number(
            service.precedence,
        ) == byte / 32 && (service.low_delay <==> byte / 16 % 2 == 1) && (service.high_throughput
            <==> byte / 8 % 2 == 1) && (service.high_reliability <==> byte / 4 % 2 == 1),
        call_ensures(TypeOfService::to_byte, (&service,), written) ==> written / 32
            == precedence_number(service.precedence) && (written / 16 % 2 == 1
            <==> service.low_delay) && (written / 8 % 2 == 1 <==> service.high_throughput) && (
        written / 4 % 2 == 1 <==> service.high_reliability),
        call_ensures(IPv4HeaderLengthWords::from_byte, (byte,), words) ==> words.0 == byte % 16,
        call_ensures(IPv4HeaderLengthWords::byte_len, (&words,), length) ==> length == 4 * words.0,
        call_ensures(prefix_to_mask, (prefix,), mask) && prefix <= 32 ==> is_mask(mask, prefix),
{
    super::datagrams::service_is_read_from_its_bits(byte, service);
}

/// The reasons that control messages give have their numbers.
pub proof fn reasons_have_their_numbers(
    code: u8,
    unreachable: Result<DestinationUnreachableCode, Error>,
    exceeded: Result<TimeExceededCode, Error>,
    redirected: Result<RedirectMessageCode, Error>,
    message: ICMPMessage,
    numbers: (u8, u8),
)
    ensures
        call_ensures(DestinationUnreachableCode::try_from, (code,), unreachable) ==> {
            &&& unreachable is Ok <==> code <= 5
            &&& unreachable matches Ok(reason) ==> unreachable_number(reason) == code
        },
        call_ensures(TimeExceededCode::try_from, (code,), exceeded) ==> {
            &&& exceeded is Ok <==> code <= 1
            &&& exceeded matches Ok(reason) ==> (reason
                == TimeExceededCode::TimeToLiveExceededInTransit <==> code == 0)
        },
        call_ensures(RedirectMessageCode::try_from, (code,), redirected) ==> {
            &&& redirected is Ok <==> code <= 3
            &&& redirected matches Ok(reason) ==> (reason == RedirectMessageCode::Network <==> code
                == 0) && (reason == RedirectMessageCode::Host <==> code == 1)
        },
        call_ensures(ICMPMessage::type_and_code_u8, (&message,), numbers)
            ==> numbers.0 == match message.message {
            ICMPMessageTypes::EchoReply(_) => 0u8,
            ICMPMessageTypes::DestinationUnreachable(_) => 3,
            ICMPMessageTypes::SourceQuench(_) => 4,
            ICMPMessageTypes::Redirect(_) => 5,
            ICMPMessageTypes::Echo(_) => 8,
            ICMPMessageTypes::TimeExceeded(_) => 11,
            ICMPMessageTypes::ParameterProblem(_) => 12,
        },
{
}

/// Addresses are made of their bytes and give them back.
pub proof fn addresses_are_made_of_their_bytes(
    bytes: [u8; 4],
    address: Ipv4Addr,
    hardware: [u8; 6],
    slice: &[u8],
    mac: MacAddr,
    tried: Result<MacAddr, TryFromSliceError>,
    result: bool,
    ip: IpAddr,
    other: IpAddr,
)
    ensures
        call_ensures(Ipv4Addr::from_octets, (bytes,), address) ==> address.bits == four(bytes@, 0),
        call_ensures(Ipv4Addr::octets, (&address,), bytes) ==> four(bytes@, 0) == address.bits,
        call_ensures(Ipv4Addr::is_unspecified, (&address,), result) ==> (result <==> address.bits
            == 0),
        call_ensures(Ipv4Addr::broadcast, (), address) ==> address.bits == 0xffff_ffff,
        call_ensures(MacAddr::from_octets, (hardware,), mac) ==> mac == six(hardware@, 0),
        call_ensures(MacAddr::octets, (&mac,), hardware) ==> six(hardware@, 0) == mac,
        call_ensures(MacAddr::try_from, (slice,), tried) ==> {
            &&& tried is Ok <==> slice@.len() == 6
            &&& tried matches Ok(read) ==> read == six(slice@, 0)
        },
        call_ensures(MacAddr::is_broadcast, (&mac,), result) ==> (result <==> mac == MacAddr(
            255,
            255,
            255,
            255,
            255,
            255,
        )),
        call_ensures(IpAddr::to_unspecified, (&ip,), other) ==> (other is V4 <==> ip is V4)
            && other.is_unspecified(),
{
    broadcast use crate::protocols::ethernet::mac::mac_round_trip;
    broadcast use crate::buffer::be32_round_trip;
    broadcast use crate::net::ipv4_round_trip;

    assert(mac.spec_octets().len() == 6);
    assert(address.spec_octets().len() == 4);
    if let Ok(read) = tried {
        assert(read.spec_octets().len() == 6);
    }
    super::wire::numbers_start_with_the_highest_byte(0, address.bits, mac, bytes@, 0);
}

/// What is ready is for reading, for writing or for both.
pub proof fn readiness_is_for_reading_or_writing(state: ReadyState, result: bool)
    ensures
        call_ensures(ReadyState::has_read, (&state,), result) ==> (result <==> !(state is Write)),
        call_ensures(ReadyState::has_write, (&state,), result) ==> (result <==> !(state is Read)),
{
}

/// The options of a message are read from their bytes, one list is put behind another, and the
/// fields that hold options are those that the first option of its kind names.
pub proof fn options_are_read_and_joined(
    bytes: &[u8],
    options: DHCPOptions,
    list: &mut DHCPOptions,
    other: DHCPOptions,
    overload: Option<OptionsOverload>,
    text: Result<Option<String>, Error>,
    flags: Flags,
    value: u16,
)
    ensures
        call_ensures(DHCPOptions::from, (bytes,), options) ==> options@ == parse_options(bytes@),
        call_ensures(DHCPOptions::with, (list, other), ()) ==> final(list)@ == old(list)@ + other@,
        call_ensures(DHCPOptions::options_overload, (&options,), overload) ==> overload
            == first_overload(options@),
        call_ensures(
            crate::protocols::ipv4::dhcp::str_from_null_terminated_utf8,
            (bytes,),
            text,
        ) ==> (text is Ok <==> null_terminated(bytes@) is Ok),
        call_ensures(Flags::value, (&flags,), value) ==> value == if flags.broadcast {
            0x8000u16
        } else {
            0
        },
{
}

/// A message of a client is sent as the bytes that are said of it, and what is received while
/// nothing is awaited changes nothing.
pub proof fn a_client_sends_bytes(
    packet: DHCP,
    bytes: Bytes,
    client: &mut ClientState,
    received: &[u8],
    result: Result<Action, Error>,
)
    ensures
        call_ensures(packet_bytes, (&packet,), bytes) ==> bytes_contents(bytes)
            == crate::protocols::ipv4::dhcp::encode_dhcp(packet@),
        call_ensures(ClientState::handle_datagram, (client, received), result) ==> {
            &&& *final(client) == *old(client)
            &&& result is Ok <==> crate::protocols::ipv4::dhcp::parse_dhcp(received@) is Ok
            &&& result matches Ok(action) ==> action is Idle
        },
{
}

/// An address of an interface has the first and the last address of its network, and the address
/// for another is the first whose network holds it.
pub proof fn addresses_know_their_networks(
    address: Ipv4Addr,
    mask: Ipv4Addr,
    made: InterfaceIpv4Addr,
    table: AddressTableIpv4,
    value: Ipv4Addr,
    found: Option<Ipv4Addr>,
    meant: bool,
)
    ensures
        call_ensures(InterfaceIpv4Addr::new, (address, mask), made) ==> {
            &&& made.address == address
            &&& made.mask == mask
            &&& made.network.bits == address.bits & mask.bits
            &&& made.broadcast.bits == (address.bits & mask.bits) | !mask.bits
        },
        call_ensures(AddressTableIpv4::first_with_subnet_containing, (&table, value), found)
            ==> found == crate::runtime::address_table::first_for(table@, value),
        call_ensures(AddressTableIpv4::contains_as_address_or_broadcast, (&table, value), meant)
            ==> meant == crate::runtime::address_table::has_address_or_broadcast(table@, value),
{
}

/// A table of addresses tells the mask of each address that was put there, until it is removed.
pub proof fn a_table_tells_masks(
    table: &mut AddressTable<Ipv4Addr>,
    value: Ipv4Addr,
    mask: Ipv4Addr,
    other: Ipv4Addr,
)
    ensures
        call_ensures(AddressTable::<Ipv4Addr>::insert, (table, value, mask), ())
            ==> final(table).mask_of(value) == Some(mask) && (other != value
                ==> final(table).mask_of(other) == old(table).mask_of(other)),
        call_ensures(AddressTable::<Ipv4Addr>::remove, (table, &value), ())
            ==> final(table).mask_of(value) is None && (other != value
                ==> final(table).mask_of(other) == old(table).mask_of(other)),
{
}

/// A route is put among the others, in order.
pub proof fn a_route_is_put_among_the_others(
    table: &mut RouteTable<Ipv4Addr>,
    target: Ipv4Addr,
    mask: Ipv4Addr,
    source: Ipv4Addr,
    next_hop: Option<Ipv4Addr>,
)
    requires
        call_ensures(
            RouteTable::<Ipv4Addr>::insert_or_update,
            (table, target, mask, source, next_hop),
            (),
        ),
    ensures
        put_among(
            old(table)@,
            final(table)@,
            RouteInformation { target, mask, source, next_hop },
        ),
        ordered(final(table)@),
{
}

/// A pool starts with as many empty buffers as it is to hold, and grows by as many as are asked
/// for.
pub proof fn a_pool_holds_empty_buffers(
    size: usize,
    capacity: usize,
    pool: BufferPool,
    grown: &mut BufferPool,
    index: int,
    buffer: PooledBuffer,
    tracking: WriteTrackingBuffer,
)
    ensures
        call_ensures(BufferPool::new, (size, capacity), pool) ==> {
            &&& pool.free().len() == capacity
            &&& pool.buffer_size == size
            &&& 0 <= index < capacity ==> pool.free()[index] == Seq::new(size as nat, |i: int| 0u8)
        },
        call_ensures(BufferPool::expand, (grown, capacity), ()) ==> final(grown).free().len()
            == old(grown).free().len() + capacity,
        call_ensures(WriteTrackingBuffer::from_pooled, (buffer,), tracking)
            ==> tracking.written == 0 && tracking.buffer == buffer,
{
}

/// Whether a socket stands in the way of another on its port: it takes the address that is asked
/// for, or all addresses are asked for and it takes one of the kind.
pub open spec fn stands_in_the_way(
    target: AddressBindingTarget,
    request: Ipv4Addr,
    dual_stack: bool,
) -> bool {
    if request.bits == 0 {
        dual_stack || (match target {
            AddressBindingTarget::Any => true,
            AddressBindingTarget::AnyIpv4 => true,
            AddressBindingTarget::AnyIpv6 => false,
            AddressBindingTarget::Specific(own) => own is V4,
        })
    } else {
        match target {
            AddressBindingTarget::Any => true,
            AddressBindingTarget::AnyIpv4 => true,
            AddressBindingTarget::AnyIpv6 => false,
            AddressBindingTarget::Specific(own) => own == IpAddr::V4(request),
        }
    }
}

/// An address can be bound where no socket stands in the way, but for sockets that share it with
/// one that is ready to.
pub proof fn an_address_can_be_bound_where_nobody_stands_in_the_way(
    bindings: Seq<AddressBinding>,
    request: Ipv4Addr,
    allow_reuse: bool,
    dual_stack: bool,
)
    ensures
        bindable(bindings, IpAddr::V4(request), allow_reuse, dual_stack) <==> forall|i: int|
            0 <= i < bindings.len() && stands_in_the_way(
                (#[trigger] bindings[i]).target,
                request,
                dual_stack,
            ) ==> allow_reuse && bindings[i].handle.state.allow_reuse,
{
    let ip = IpAddr::V4(request);
    assert forall|i: int| 0 <= i < bindings.len() implies stands_in_the_way(
        (#[trigger] bindings[i]).target,
        request,
        dual_stack,
    ) == bindings[i].target.overlaps(ip, dual_stack) by {
        assert(ip.is_unspecified() <==> request.bits == 0);
    }
}

/// Sockets are put on their port behind the others, and what arrives for one is queued last.
pub proof fn sockets_are_kept_on_their_ports(
    ports: &mut PortBindings,
    addr: SocketAddr,
    handle: UdpSocketHandle,
    dual_stack: bool,
    other: u16,
)
    requires
        call_ensures(PortBindings::insert, (ports, addr, handle, dual_stack), ()),
    ensures
        final(ports).on_port(addr.port).len() == old(ports).on_port(addr.port).len() + 1,
        final(ports).on_port(addr.port).drop_last() == old(ports).on_port(addr.port),
        final(ports).on_port(addr.port).last().original == addr,
        final(ports).on_port(addr.port).last().handle == handle,
        addr.ip is V4 && addr.ip->V4_0.bits != 0 ==> final(ports).on_port(addr.port).last().target
            == AddressBindingTarget::Specific(addr.ip),
        addr.ip is V4 && addr.ip->V4_0.bits == 0 ==> final(ports).on_port(addr.port).last().target
            == if dual_stack {
            AddressBindingTarget::Any
        } else {
            AddressBindingTarget::AnyIpv4
        },
        other != addr.port ==> final(ports).on_port(other) == old(ports).on_port(other),
{
    assert(final(ports).on_port(addr.port).drop_last() =~= old(ports).on_port(addr.port));
}

/// Requests for addresses and routes are handled as is said of them.
pub proof fn requests_are_handled(
    worker: &mut InterfaceWorker,
    addr: Ipv4Addr,
    prefix: u8,
    request: u64,
    now: Instant,
    target: Ipv4Addr,
    target_mask: Ipv4Addr,
    next_hop: Ipv4Addr,
    src: Option<Ipv4Addr>,
    result: Result<(), InterfaceError>,
)
    ensures
        call_ensures(
            InterfaceWorker::handle_ipv4_address_add,
            (worker, addr, prefix, request, now),
            (),
        ) ==> final(worker)@ == address_add(old(worker)@, addr, prefix, request, now),
        call_ensures(InterfaceWorker::handle_ipv4_address_remove, (worker, addr), ())
            ==> final(worker)@ == address_removed(old(worker)@, addr),
        call_ensures(
            InterfaceWorker::handle_ipv4_route_add,
            (worker, target, target_mask, next_hop, src),
            result,
        ) ==> (final(worker)@.context, result) == route_added(
            old(worker)@.context,
            target,
            target_mask,
            next_hop,
            src,
        ),
{
}

/// An interface goes on unless it is told to stop.
pub proof fn an_interface_goes_on_until_a_stop(
    worker: &mut InterfaceWorker,
    messages: Vec<InterfaceControlMessage>,
    now: Instant,
    outcome: Result<bool, usize>,
)
    requires
        call_ensures(InterfaceWorker::perform_control, (worker, &messages, now), outcome),
    ensures
        outcome matches Ok(goes_on) ==> (goes_on <==> handled_count(messages@) == messages@.len()),
        outcome is Ok <==> crate::runtime::interface::worker::controls_ok(
            old(worker)@.context,
            messages@,
            now,
        ),
{
}

/// What a socket does with a datagram, with a peer and with a result is as is said of them.
pub proof fn a_socket_does_as_is_said(
    handle: &mut UdpSocketHandle,
    ctx: &mut InterfaceContext,
    fixed: InterfaceContext,
    destination: SocketAddr,
    payload: Bytes,
    identification: u16,
    now: Instant,
    result: UdpSendResult,
    potentials: Vec<SocketAddr>,
    connected: UdpConnectResult,
    value: u32,
)
    ensures
        call_ensures(
            UdpSocketHandle::send_datagram,
            (handle, ctx, destination, payload, identification, now),
            result,
        ) ==> (final(ctx)@, final(handle).state, result) == datagram_sent(
            old(ctx)@,
            old(handle).state,
            destination,
            bytes_contents(payload),
            identification,
            now,
        ),
        call_ensures(UdpSocketHandle::connect, (handle, &fixed, &potentials), connected) ==> {
            &&& connected is Err ==> final(handle).state == old(handle).state
            &&& connected is Ok ==> final(handle).state.peer_addr is Some
                && potentials@.contains(final(handle).state.peer_addr->0)
                && final(handle).state.shared_state.connected_to == final(handle).state.peer_addr
        },
        call_ensures(SharableUdpSendResult::encode, (result,), value) ==> value != 0 && (
        SharableUdpSendResult { state: value }).holds() == Some(result),
{
    crate::runtime::interface::l4_managers::udp::messages::results_told_apart(result);
}

/// A late error is told before anything else is done.
pub proof fn a_late_error_comes_first(
    socket: &mut UdpSocket,
    checked: Result<bool, Error>,
    length: usize,
    addrs: Vec<SocketAddr>,
    platform: Platform,
    prepared: Result<(SocketAddr, bool), SocketError>,
)
    ensures
        call_ensures(UdpSocket::load_non_blocking_and_check_errors, (socket,), checked) ==> {
            &&& checked is Err <==> reported(old(socket).shared_state) is Some
            &&& checked matches Ok(waits) ==> waits == old(socket).shared_state.is_nonblocking
        },
        call_ensures(UdpSocket::prepare_send, (socket, length, &addrs, platform), prepared) ==> {
            let refused = send_refused(
                old(socket).shared_state,
                old(socket).socket_addr,
                length as nat,
                addrs@,
                platform,
            );
            &&& prepared is Ok <==> refused is None
            &&& prepared matches Ok((address, _)) ==> address == addrs@[0]
            &&& prepared matches Err(error) ==> refused == Some(error@)
        },
{
}

/// Sockets that are ready are listed as is said of them, and a lost datagram and the earlier of two
/// times are handled as is said of them.
pub proof fn sockets_and_sessions_do_as_is_said(
    sockets: &mut UdpManager,
    ready: [u64; 16],
    addresses: Vec<SocketAddr>,
    manager: &mut PingManager,
    error: AsyncSendError,
    one: Option<Instant>,
    other: Option<Instant>,
    first: Option<Instant>,
)
    ensures
        call_ensures(UdpManager::ready_sockets, (sockets, ready), addresses) ==> addresses@
            == ready_addresses(old(sockets).socket_ids@, ready@, 1024),
        call_ensures(PingManager::on_async_send_error, (manager, &error), ()) ==> final(manager)@
            == loss_taken(old(manager)@, error@),
        call_ensures(earlier_of, (one, other), first) ==> {
            &&& first == one || first == other
            &&& one matches Some(time) ==> (first matches Some(least) && least.nanos <= time.nanos)
            &&& other matches Some(time) ==> (first matches Some(least) && least.nanos
                <= time.nanos)
        },
{
}

/// Slots that are ready are walked from the lowest on, those that are gone are passed over, and
/// none comes twice.
pub proof fn ready_slots_are_walked_in_order<F: Fn(usize) -> bool>(
    walk: &mut ReadyTokensByBits,
    alive: F,
    next: Option<(Token, ReadyState)>,
    slot: usize,
)
    requires
        call_ensures(ReadyTokensByBits::next::<F>, (walk, alive), next),
    ensures
        next matches Some((token, state)) ==> {
            &&& slot_ready(old(walk).ready_bits@, token.id as int)
            &&& state == slot_state(old(walk).ready_bits@, token.id as int)
            &&& alive.ensures((token.id,), true)
            &&& slot < token.id && slot_ready(old(walk).ready_bits@, slot as int) ==> alive.ensures(
                (slot,),
                false,
            )
            &&& slot_ready(final(walk).ready_bits@, slot as int) <==> slot_ready(
                old(walk).ready_bits@,
                slot as int,
            ) && slot > token.id
        },
        next is None && slot < old(walk).slots && slot_ready(old(walk).ready_bits@, slot as int)
            ==> alive.ensures((slot,), false),
{
}

/// The slot that is given out is the first that is free, and there is one more chunk where all were
/// taken.
pub proof fn the_first_free_slot_is_given_out<F: Fn(usize) -> bool>(
    poller: &mut Poller,
    alive: F,
    given: (usize, u8, Token),
    slot: usize,
)
    requires
        call_ensures(Poller::get_free_token::<F>, (poller, alive), given),
    ensures
        given.2.id == given.0 * 64 + given.1,
        given.1 < 64,
        slot < given.2.id ==> alive.ensures((slot,), true),
        given.2.id < old(poller).chunks * 64 ==> alive.ensures((given.2.id,), false)
            && final(poller).chunks == old(poller).chunks,
        given.2.id == old(poller).chunks * 64 ==> final(poller).chunks == old(poller).chunks + 1,
        given.2.id <= old(poller).chunks * 64,
{
}

} // verus!
