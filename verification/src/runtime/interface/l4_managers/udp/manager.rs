//! The sockets of an interface.

use super::context::UdpSocketContext;
use super::handle::{socket_drained, MessageAction, UdpSocketHandle};
use super::messages::{DrainSendAction, MessageRing, ReceivedView, RecvRing, UdpRecvMessage};
use super::port_binding::{
    bindable, first_taking, listener, removed, target_of, AddressBinding, BindingView,
    PortBindings,
};
use super::UdpSocket;
use crate::buffer::{as_slice, bytes_contents, slice_bytes};
use crate::common::{Error, ErrorKind};
use crate::net::{IpAddr, Ipv4Addr, SocketAddr};
use crate::protocols::ipv4::IPv4Header;
use crate::protocols::udp::{parse_udp, UdpHeader};
use crate::bits::row_bit_set;
use crate::random::u16_between;
use crate::ready_by_bits::ReadyByBits;
use crate::runtime::interface::context::{ContextView, InterfaceContext};
use crate::time::Instant;
use bytes::Bytes;
use vstd::prelude::*;

verus! {

/// How many sockets there can be.
pub const MAX_SOCKETS: usize = 1024;

/// How many datagrams can wait in a socket.
pub const RECV_RING_SIZE: usize = 1024;

/// How many messages of a socket can wait.
pub const SEND_RING_SIZE: usize = 1024;

/// How many buffers a socket has.
pub const BUFFER_POOL_SIZE: usize = 64;

/// How many ports are tried for a socket that does not ask for one.
pub const MAX_EPHEMERAL_PORT_ATTEMPTS: usize = 128;

/// What became of a datagram that was received.
#[derive(Debug, PartialEq, Eq, Clone, Copy, Structural)]
pub enum UdpRecvOutcome {
    /// It has no header.
    Malformed,
    /// Its addresses are of different families.
    MixedFamilies,
    /// Its checksum is wrong.
    BadChecksum,
    /// No socket wants it.
    NoSocket,
    /// The socket has a peer, and the datagram is not from it.
    NotFromPeer,
    /// The socket has no room for it.
    Full,
    /// The socket has it. Says whether somebody is to be woken.
    Delivered { wake: bool },
}

/// Whether the length that a datagram announces is one that it has, where it has a header, and
/// whether it is not between two IPv6 addresses, of which there is nothing yet.
pub open spec fn udp_complete(source: IpAddr, destination: IpAddr, bytes: Seq<u8>) -> bool {
    parse_udp(bytes) matches Ok(header) ==> {
        &&& 8 <= header.length <= bytes.len()
        &&& !(source is V6 && destination is V6)
    }
}

/// Whether the checksum of a datagram is right.
pub open spec fn udp_checksum_ok(source: IpAddr, destination: IpAddr, bytes: Seq<u8>) -> bool {
    match (source, destination, parse_udp(bytes)) {
        (IpAddr::V4(source), IpAddr::V4(destination), Ok(header)) => header.checksum
            == header.checksum_v4(source, destination, bytes.subrange(8, header.length as int)),
        _ => false,
    }
}

/// What becomes of a datagram, and for which of the sockets on its port it is.
pub open spec fn udp_received(
    sockets: Seq<AddressBinding>,
    source: IpAddr,
    destination: IpAddr,
    bytes: Seq<u8>,
) -> (UdpRecvOutcome, Option<int>) {
    match parse_udp(bytes) {
        Err(_) => (UdpRecvOutcome::Malformed, None),
        Ok(header) => if (source is V4) != (destination is V4) {
            (UdpRecvOutcome::MixedFamilies, None)
        } else if !udp_checksum_ok(source, destination, bytes) {
            (UdpRecvOutcome::BadChecksum, None)
        } else {
            match listener(sockets, destination) {
                None => (UdpRecvOutcome::NoSocket, None),
                Some(index) => {
                    let socket = sockets[index]@;
                    let from = SocketAddr { ip: source, port: header.source_port };
                    if socket.state.peer_addr is Some && socket.state.peer_addr != Some(from) {
                        (UdpRecvOutcome::NotFromPeer, Some(index))
                    } else if socket.queued.len() >= socket.capacity {
                        (UdpRecvOutcome::Full, Some(index))
                    } else {
                        (
                            UdpRecvOutcome::Delivered { wake: socket.state.read_wake },
                            Some(index),
                        )
                    }
                },
            }
        },
    }
}

/// The port that a datagram is for.
pub open spec fn udp_port(bytes: Seq<u8>) -> u16 {
    match parse_udp(bytes) {
        Ok(header) => header.destination_port,
        Err(_) => 0,
    }
}

/// A datagram as a socket gets it.
pub open spec fn udp_datagram(source: IpAddr, bytes: Seq<u8>) -> ReceivedView {
    match parse_udp(bytes) {
        Ok(header) => (
            SocketAddr { ip: source, port: header.source_port },
            bytes.subrange(8, header.length as int),
        ),
        Err(_) => (SocketAddr { ip: source, port: 0 }, Seq::empty()),
    }
}

/// A socket after a datagram was added to what waits in it.
pub open spec fn with_datagram(socket: BindingView, datagram: ReceivedView) -> BindingView {
    BindingView { queued: socket.queued.push(datagram), ..socket }
}

/// Whether a datagram was handed to the socket for which it is, if there is one that takes it, and
/// whoever waits for it is to be woken.
pub open spec fn udp_taken(
    before: UdpManager,
    after: UdpManager,
    source: IpAddr,
    destination: IpAddr,
    bytes: Seq<u8>,
) -> bool {
    let port = udp_port(bytes);
    let (became, index) = udp_received(before.sockets.on_port(port), source, destination, bytes);
    &&& after.socket_ids == before.socket_ids
    &&& after.woken@ == (if became == (UdpRecvOutcome::Delivered { wake: true }) {
        before.woken@.push(before.sockets.port_view(port)[index->0].state.local_addr)
    } else {
        before.woken@
    })
    &&& forall|other: u16| #[trigger]
        after.sockets.port_view(other) == (if other == port && became is Delivered {
            before.sockets.port_view(port).update(
                index->0,
                with_datagram(
                    before.sockets.port_view(port)[index->0],
                    udp_datagram(source, bytes),
                ),
            )
        } else {
            before.sockets.port_view(other)
        })
}

/// What came of looking at the messages of a socket: what is to be done, and what the end was.
/// Nothing where there is no such socket.
#[derive(Debug)]
pub struct Processed {
    pub addr: SocketAddr,
    pub drained: Option<(Vec<MessageAction>, DrainSendAction)>,
}

impl Processed {
    /// Whether a message was found that cannot be handled.
    pub open spec fn stuck(self) -> bool {
        self.drained matches Some((_, end)) && end is Unsendable
    }
}

/// Whether the messages of the socket at an index on a port were handled, and the socket removed if
/// it is gone.
pub open spec fn drained_at(
    before: (ContextView, PortBindings),
    after: (ContextView, PortBindings),
    addr: SocketAddr,
    index: int,
    handle: UdpSocketHandle,
    actions: Seq<MessageAction>,
    end: DrainSendAction,
    now: Instant,
) -> bool {
    let sockets = before.1.on_port(addr.port);
    let handled = sockets.update(index, AddressBinding { handle, ..sockets[index] });
    &&& first_taking(sockets, addr.ip, index)
    &&& socket_drained(
        (before.0, sockets[index].handle),
        (after.0, handle),
        actions,
        end,
        now,
    )
    &&& if end is Remove {
        removed(handled, after.1.on_port(addr.port), addr)
    } else {
        after.1.on_port(addr.port) == handled
    }
}

/// Whether the messages of a socket were handled, if there is such a socket.
pub open spec fn socket_processed(
    before: (ContextView, PortBindings),
    after: (ContextView, PortBindings),
    processed: Processed,
    now: Instant,
) -> bool {
    let addr = processed.addr;
    &&& forall|port: u16|
        port != addr.port ==> #[trigger] after.1.on_port(port) == before.1.on_port(port)
    &&& match processed.drained {
        Some((actions, end)) => exists|index: int, handle: UdpSocketHandle| #[trigger]
            drained_at(before, after, addr, index, handle, actions@, end, now),
        None => {
            &&& forall|i: int| !first_taking(before.1.on_port(addr.port), addr.ip, i)
            &&& after.0 == before.0
            &&& after.1.on_port(addr.port) == before.1.on_port(addr.port)
        },
    }
}

/// Whether the messages of sockets were handled, one socket after the other, from the first of some
/// states to the last.
pub open spec fn sockets_processed(
    states: Seq<(ContextView, PortBindings)>,
    processed: Seq<Processed>,
    now: Instant,
) -> bool {
    &&& states.len() == processed.len() + 1
    &&& forall|i: int|
        0 <= i < processed.len() ==> socket_processed(
            states[i],
            states[i + 1],
            #[trigger] processed[i],
            now,
        )
}

/// Whether sockets were looked at in the order of their addresses, up to one with a message that
/// cannot be handled.
pub open spec fn in_turn(processed: Seq<Processed>, addresses: Seq<SocketAddr>) -> bool {
    &&& processed.len() <= addresses.len()
    &&& forall|i: int|
        0 <= i < processed.len() ==> (#[trigger] processed[i]).addr == addresses[i]
    &&& forall|i: int| 0 <= i < processed.len() - 1 ==> !(#[trigger] processed[i]).stuck()
    &&& processed.len() < addresses.len() ==> processed.len() > 0 && processed.last().stuck()
}

proof fn sockets_processed_extended(
    states: Seq<(ContextView, PortBindings)>,
    processed: Seq<Processed>,
    state: (ContextView, PortBindings),
    next: Processed,
    now: Instant,
)
    requires
        sockets_processed(states, processed, now),
        socket_processed(states.last(), state, next, now),
    ensures
        sockets_processed(states.push(state), processed.push(next), now),
{
    let all = states.push(state);
    let done = processed.push(next);
    assert forall|i: int| 0 <= i < done.len() implies socket_processed(
        all[i],
        all[i + 1],
        #[trigger] done[i],
        now,
    ) by {
        if i < processed.len() {
            assert(done[i] == processed[i]);
            assert(all[i] == states[i] && all[i + 1] == states[i + 1]);
        }
    }
}

/// Whether the slot at an index is the first free one.
pub open spec fn first_free_slot(slots: Seq<Option<SocketAddr>>, index: int) -> bool {
    &&& 0 <= index < slots.len()
    &&& slots[index] is None
    &&& forall|i: int| 0 <= i < index ==> (#[trigger] slots[i]) is Some
}

/// The addresses of the sockets among the first `count` whose bit is set, in ascending order of
/// their numbers.
pub open spec fn ready_addresses(
    slots: Seq<Option<SocketAddr>>,
    ready: Seq<u64>,
    count: nat,
) -> Seq<SocketAddr>
    decreases count,
{
    if count == 0 {
        Seq::empty()
    } else {
        let before = ready_addresses(slots, ready, (count - 1) as nat);
        match slots[count - 1] {
            Some(addr) => if row_bit_set(ready, count - 1) {
                before.push(addr)
            } else {
                before
            },
            None => before,
        }
    }
}

proof fn none_ready_between(
    slots: Seq<Option<SocketAddr>>,
    ready: Seq<u64>,
    low: nat,
    high: nat,
)
    requires
        low <= high <= slots.len(),
        forall|i: int|
            low <= i < high && #[trigger] row_bit_set(ready, i) ==> slots[i] is None,
    ensures
        ready_addresses(slots, ready, high) == ready_addresses(slots, ready, low),
    decreases high - low,
{
    if low < high {
        none_ready_between(slots, ready, low, (high - 1) as nat);
        assert(row_bit_set(ready, high - 1) ==> slots[high - 1] is None);
    }
}

/// The sockets of an interface.
pub struct UdpManager {
    pub sockets: PortBindings,
    /// The addresses of the sockets, by their number.
    pub socket_ids: Vec<Option<SocketAddr>>,
    /// The addresses of the sockets whose readers are still to be woken.
    pub woken: Vec<SocketAddr>,
}

impl UdpManager {
    pub open spec fn wf(self) -> bool {
        self.sockets.wf() && self.socket_ids@.len() == MAX_SOCKETS
    }

    /// Whether a socket can be bound to an address.
    pub open spec fn can_bind(self, addr: SocketAddr) -> bool {
        bindable(self.sockets.on_port(addr.port), addr.ip, false, true)
    }

    /// What a new socket that is bound to an address looks like.
    pub open spec fn new_binding(addr: SocketAddr, mtu: int) -> BindingView {
        BindingView {
            target: target_of(addr.ip, true),
            original: addr,
            state: UdpSocketHandle::initial(addr, (mtu - 28) as usize),
            queued: Seq::empty(),
            capacity: RECV_RING_SIZE as nat,
            messages: Seq::empty(),
            message_capacity: SEND_RING_SIZE as nat,
        }
    }

    /// Whether no socket is bound.
    pub open spec fn is_empty(self) -> bool {
        &&& forall|port: u16| #[trigger]
            self.sockets.on_port(port) == Seq::<AddressBinding>::empty()
        &&& forall|i: int| 0 <= i < MAX_SOCKETS ==> (#[trigger] self.socket_ids@[i]) is None
        &&& self.woken@ == Seq::<SocketAddr>::empty()
    }

    /// Whether a socket was bound to an address.
    pub open spec fn bound(
        self,
        after: Self,
        addr: SocketAddr,
        mtu: int,
        socket: UdpSocket,
    ) -> bool {
        &&& socket.is_new(addr, mtu)
        &&& after.woken == self.woken
        &&& first_free_slot(self.socket_ids@, socket.context.socket_id as int)
        &&& after.socket_ids@ == self.socket_ids@.update(
            socket.context.socket_id as int,
            Some(addr),
        )
        &&& forall|port: u16| #[trigger]
            after.sockets.port_view(port) == (if port == addr.port {
                self.sockets.port_view(port).push(Self::new_binding(addr, mtu))
            } else {
                self.sockets.port_view(port)
            })
    }

    /// Whether ports were drawn from a range, and a socket can be bound to none of them.
    pub open spec fn drawn_in_vain(self, ip: IpAddr, range: (u16, u16), draws: Seq<u16>) -> bool {
        forall|i: int|
            0 <= i < draws.len() ==> range.0 <= #[trigger] draws[i] < range.1 && !self.can_bind(
                SocketAddr { ip, port: draws[i] },
            )
    }

    /// Whether this came of asking for a socket that is bound to an address.
    pub open spec fn asked_to_bind(
        self,
        after: Self,
        addr: SocketAddr,
        range: (u16, u16),
        mtu: int,
        result: Result<UdpSocket, Error>,
    ) -> bool {
        match result {
            Ok(socket) => {
                let chosen = socket.socket_addr;
                &&& addr.ip is V4
                &&& if addr.port != 0 {
                    chosen == addr
                } else {
                    &&& chosen.ip == addr.ip
                    &&& range.0 <= chosen.port < range.1
                    &&& exists|draws: Seq<u16>|
                        draws.len() < MAX_EPHEMERAL_PORT_ATTEMPTS && #[trigger] self.drawn_in_vain(
                            addr.ip,
                            range,
                            draws,
                        )
                }
                &&& self.can_bind(chosen)
                &&& self.bound(after, chosen, mtu, socket)
            },
            Err(error) => {
                &&& after == self
                &&& if addr.ip is V6 {
                    error@ == (ErrorKind::Unsupported, "ipv6 is not yet supported"@)
                } else if addr.port != 0 && !self.can_bind(addr) {
                    error@ == (ErrorKind::AddrInUse, "address already in use"@)
                } else {
                    ||| {
                        &&& addr.port == 0
                        &&& error@ == (ErrorKind::AddrInUse, "ephemeral ports exhausted"@)
                        &&& exists|draws: Seq<u16>|
                            draws.len() == MAX_EPHEMERAL_PORT_ATTEMPTS
                                && #[trigger] self.drawn_in_vain(addr.ip, range, draws)
                    }
                    ||| {
                        &&& error@ == (
                            ErrorKind::OutOfMemory,
                            "no available socket slots (max 1024)"@,
                        )
                        &&& forall|i: int| !first_free_slot(self.socket_ids@, i)
                        &&& addr.port == 0 ==> exists|port: u16|
                            range.0 <= port < range.1 && #[trigger] self.can_bind(
                                SocketAddr { ip: addr.ip, port },
                            )
                    }
                }
            },
        }
    }

    /// No sockets.
    pub fn new() -> (manager: Self)
        ensures
            manager.wf(),
            manager.is_empty(),
    {
        let mut socket_ids: Vec<Option<SocketAddr>> = Vec::new();
        while socket_ids.len() < MAX_SOCKETS
            invariant
                socket_ids@.len() <= MAX_SOCKETS,
                forall|i: int| 0 <= i < socket_ids@.len() ==> (#[trigger] socket_ids@[i]) is None,
            decreases MAX_SOCKETS - socket_ids@.len(),
        {
            socket_ids.push(None);
        }
        UdpManager { sockets: PortBindings::new(), socket_ids, woken: Vec::new() }
    }

    /// Draws ports until one is found to which a socket can be bound. Which ports are drawn is left
    /// to chance.
    pub fn draw_port(&self, ctx: &InterfaceContext, ip: IpAddr) -> (port: Option<u16>)
        requires
            self.wf(),
            ctx.ephemeral_ports.0 < ctx.ephemeral_ports.1,
        ensures
            match port {
                Some(port) => {
                    &&& ctx.ephemeral_ports.0 <= port < ctx.ephemeral_ports.1
                    &&& self.can_bind(SocketAddr { ip, port })
                    &&& exists|draws: Seq<u16>|
                        draws.len() < MAX_EPHEMERAL_PORT_ATTEMPTS && #[trigger] self.drawn_in_vain(
                            ip,
                            ctx.ephemeral_ports,
                            draws,
                        )
                },
                None => exists|draws: Seq<u16>|
                    draws.len() == MAX_EPHEMERAL_PORT_ATTEMPTS && #[trigger] self.drawn_in_vain(
                        ip,
                        ctx.ephemeral_ports,
                        draws,
                    ),
            },
    {
        let ghost mut draws: Seq<u16> = Seq::empty();
        let mut attempts: usize = 0;
        while attempts < MAX_EPHEMERAL_PORT_ATTEMPTS
            invariant
                self.wf(),
                ctx.ephemeral_ports.0 < ctx.ephemeral_ports.1,
                attempts <= MAX_EPHEMERAL_PORT_ATTEMPTS,
                draws.len() == attempts,
                self.drawn_in_vain(ip, ctx.ephemeral_ports, draws),
            decreases MAX_EPHEMERAL_PORT_ATTEMPTS - attempts,
        {
            let port: u16 = u16_between(
                ctx.ephemeral_ports.0,
                ctx.ephemeral_ports.1 - 1,
            );
            if self.sockets.is_bindable(&SocketAddr { ip, port }, false, true) {
                return Some(port);
            }
            assert(!self.can_bind(SocketAddr { ip, port }));
            proof {
                draws = draws.push(port);
            }
            attempts = attempts + 1;
        }
        None
    }

    /// Gives a socket to an address to which one can be bound.
    pub fn bind_to(&mut self, ctx: &InterfaceContext, addr: SocketAddr) -> (result: Result<
        UdpSocket,
        Error,
    >)
        requires
            old(self).wf(),
            ctx.wf(),
        ensures
            final(self).wf(),
            match result {
                Ok(socket) => old(self).bound(*final(self), addr, ctx@.mtu, socket),
                Err(error) => {
                    &&& error@ == (
                        ErrorKind::OutOfMemory,
                        "no available socket slots (max 1024)"@,
                    )
                    &&& forall|i: int| !first_free_slot(old(self).socket_ids@, i)
                    &&& *final(self) == *old(self)
                },
            },
    {
        let mut socket_id: usize = 0;
        while socket_id < self.socket_ids.len() && self.socket_ids[socket_id].is_some()
            invariant
                socket_id <= self.socket_ids@.len(),
                forall|i: int| 0 <= i < socket_id ==> (#[trigger] self.socket_ids@[i]) is Some,
            decreases self.socket_ids@.len() - socket_id,
        {
            socket_id = socket_id + 1;
        }
        if socket_id == self.socket_ids.len() {
            return Err(
                Error::new(ErrorKind::OutOfMemory, "no available socket slots (max 1024)"),
            );
        }
        let ghost before = *self;
        self.socket_ids.set(socket_id, Some(addr));
        let payload_max_size: usize = ctx.mtu - IPv4Header::LENGTH_NO_OPTIONS - UdpHeader::LENGTH;
        let handle = UdpSocketHandle::new(
            RecvRing::with_capacity(RECV_RING_SIZE),
            MessageRing::with_capacity(SEND_RING_SIZE),
            addr,
            payload_max_size,
        );
        let socket = UdpSocket::new(
            addr,
            UdpSocketContext::new(
                RecvRing::with_capacity(RECV_RING_SIZE),
                payload_max_size,
                BUFFER_POOL_SIZE,
                socket_id,
            ),
            payload_max_size,
        );
        self.sockets.insert(addr, handle, true);
        assert forall|port: u16| #[trigger]
            self.sockets.port_view(port) == (if port == addr.port {
                before.sockets.port_view(port).push(Self::new_binding(addr, ctx@.mtu))
            } else {
                before.sockets.port_view(port)
            }) by {
            assert(self.sockets.on_port(port) == self.sockets.on_port(port));
            if port == addr.port {
                assert(self.sockets.port_view(port) =~= before.sockets.port_view(port).push(
                    Self::new_binding(addr, ctx@.mtu),
                ));
            }
        }
        Ok(socket)
    }

    /// Binds a socket to an address. Port zero asks for any port.
    pub fn bind(&mut self, ctx: &InterfaceContext, addr: SocketAddr) -> (result: Result<
        UdpSocket,
        Error,
    >)
        requires
            old(self).wf(),
            ctx.wf(),
            addr.ip is V4 && addr.port == 0 ==> ctx.ephemeral_ports.0 < ctx.ephemeral_ports.1,
        ensures
            final(self).wf(),
            old(self).asked_to_bind(
                *final(self),
                addr,
                ctx.ephemeral_ports,
                ctx@.mtu,
                result,
            ),
    {
        if !addr.is_ipv4() {
            return Err(Error::new(ErrorKind::Unsupported, "ipv6 is not yet supported"));
        }
        let chosen = if addr.port == 0 {
            match self.draw_port(ctx, addr.ip) {
                Some(port) => SocketAddr { ip: addr.ip, port },
                None => {
                    return Err(Error::new(ErrorKind::AddrInUse, "ephemeral ports exhausted"));
                },
            }
        } else if !self.sockets.is_bindable(&addr, false, true) {
            return Err(Error::new(ErrorKind::AddrInUse, "address already in use"));
        } else {
            addr
        };
        self.bind_to(ctx, chosen)
    }

    /// Handles the messages of the socket with an address, and removes the socket if it is gone.
    pub fn process_socket(
        &mut self,
        ctx: &mut InterfaceContext,
        addr: SocketAddr,
        now: Instant,
    ) -> (processed: Processed)
        requires
            old(self).wf(),
            old(ctx).wf(),
            now.can_look_ahead(),
        ensures
            final(self).wf(),
            final(ctx).wf(),
            final(ctx).same_setup(*old(ctx)),
            final(self).socket_ids == old(self).socket_ids,
            final(self).woken == old(self).woken,
            processed.addr == addr,
            socket_processed(
                (old(ctx)@, old(self).sockets),
                (final(ctx)@, final(self).sockets),
                processed,
                now,
            ),
    {
        let ghost before = (ctx@, self.sockets);
        let ghost sockets = self.sockets.on_port(addr.port);
        let (actions, end, index, after) = match self.sockets.get_mut(&addr) {
            Some(handle) => {
                let ghost had = *handle;
                let (actions, end) = handle.drain_send(ctx, now);
                let ghost has = *handle;
                let ghost index = choose|index: int| #[trigger]
                    first_taking(sockets, addr.ip, index) && had == sockets[index].handle;
                (actions, end, Ghost(index), Ghost(has))
            },
            None => {
                return Processed { addr, drained: None };
            },
        };
        if end == DrainSendAction::Remove {
            self.sockets.remove(&addr);
        }
        proof {
            assert(drained_at(
                before,
                (ctx@, self.sockets),
                addr,
                index@,
                after@,
                actions@,
                end,
                now,
            ));
        }
        Processed { addr, drained: Some((actions, end)) }
    }

    /// Handles the messages of the sockets whose bit is set, in ascending order of their numbers,
    /// up to one with a message that cannot be handled.
    pub fn process_buffers(
        &mut self,
        ctx: &mut InterfaceContext,
        ready: [u64; 16],
        now: Instant,
    ) -> (processed: Vec<Processed>)
        requires
            old(self).wf(),
            old(ctx).wf(),
            now.can_look_ahead(),
        ensures
            final(self).wf(),
            final(ctx).wf(),
            final(ctx).same_setup(*old(ctx)),
            final(self).socket_ids@ == old(self).socket_ids@,
            final(self).woken == old(self).woken,
            in_turn(
                processed@,
                ready_addresses(old(self).socket_ids@, ready@, MAX_SOCKETS as nat),
            ),
            exists|states: Seq<(ContextView, PortBindings)>| #[trigger]
                sockets_processed(states, processed@, now) && states[0] == (
                    old(ctx)@,
                    old(self).sockets,
                ) && states.last() == (final(ctx)@, final(self).sockets),
    {
        let addresses = self.ready_sockets(ready);
        let ghost mut states: Seq<(ContextView, PortBindings)> = seq![(ctx@, self.sockets)];
        let mut processed: Vec<Processed> = Vec::new();
        let mut i: usize = 0;
        let mut stuck: bool = false;
        while i < addresses.len() && !stuck
            invariant
                self.wf(),
                ctx.wf(),
                ctx.same_setup(*old(ctx)),
                now.can_look_ahead(),
                self.socket_ids@ == old(self).socket_ids@,
                self.woken == old(self).woken,
                i <= addresses@.len(),
                processed@.len() == i,
                states[0] == (old(ctx)@, old(self).sockets),
                states.last() == (ctx@, self.sockets),
                sockets_processed(states, processed@, now),
                forall|j: int|
                    0 <= j < processed@.len() ==> (#[trigger] processed@[j]).addr == addresses@[j],
                forall|j: int|
                    0 <= j < processed@.len() - 1 ==> !(#[trigger] processed@[j]).stuck(),
                stuck == (processed@.len() > 0 && processed@.last().stuck()),
            decreases addresses@.len() - i,
        {
            let next = self.process_socket(ctx, addresses[i], now);
            stuck = match &next.drained {
                Some((_, end)) => *end == DrainSendAction::Unsendable,
                None => false,
            };
            proof {
                sockets_processed_extended(states, processed@, (ctx@, self.sockets), next, now);
                states = states.push((ctx@, self.sockets));
            }
            processed.push(next);
            i = i + 1;
        }
        processed
    }

    /// The addresses of the sockets whose bit is set, in ascending order of their numbers.
    pub fn ready_sockets(&mut self, ready: [u64; 16]) -> (addresses: Vec<SocketAddr>)
        requires
            old(self).wf(),
        ensures
            final(self).sockets == old(self).sockets,
            final(self).socket_ids@ == old(self).socket_ids@,
            final(self).woken == old(self).woken,
            addresses@ == ready_addresses(old(self).socket_ids@, ready@, MAX_SOCKETS as nat),
    {
        let ghost slots = self.socket_ids@;
        let ghost mut done: nat = 0;
        let mut addresses: Vec<SocketAddr> = Vec::new();
        let mut walk = ReadyByBits::new(self.socket_ids.as_mut_slice(), ready);
        loop
            invariant_except_break
                forall|i: int| #[trigger]
                    walk.pending(i) == (row_bit_set(ready@, i) && i >= done),
                addresses@ == ready_addresses(slots, ready@, done),
            invariant
                walk.wf(),
                walk.items@ == slots,
                after_borrow(self.socket_ids)@ == final(walk.items)@,
                slots.len() == MAX_SOCKETS,
                done <= slots.len(),
            ensures
                addresses@ == ready_addresses(slots, ready@, MAX_SOCKETS as nat),
            decreases slots.len() - done,
        {
            let ghost before = walk;
            match walk.next() {
                Some(addr) => {
                    addresses.push(*addr);
                    proof {
                        let index = choose|index: int| #[trigger]
                            before.is_next(index) && Some(*addr) == before.items@[index]
                                && forall|i: int|
                                walk.pending(i) == (#[trigger] before.pending(i) && i > index);
                        assert(before.pending(index));
                        assert forall|i: int|
                            done <= i < index && #[trigger] row_bit_set(ready@, i) implies slots[i]
                            is None by {
                            assert(before.pending(i));
                        }
                        none_ready_between(slots, ready@, done, index as nat);
                        let start = done;
                        done = (index + 1) as nat;
                        assert forall|i: int| #[trigger]
                            walk.pending(i) == (row_bit_set(ready@, i) && i >= done) by {
                            assert(before.pending(i) == (row_bit_set(ready@, i) && i >= start));
                        }
                    }
                },
                None => {
                    proof {
                        assert forall|i: int|
                            done <= i < slots.len() && #[trigger] row_bit_set(
                                ready@,
                                i,
                            ) implies slots[i] is None by {
                            assert(before.pending(i));
                        }
                        none_ready_between(slots, ready@, done, slots.len());
                    }
                    break ;
                },
            }
        }
        addresses
    }

    /// Whether a datagram is one that can be received.
    pub fn can_recv(source_addr: IpAddr, destination_addr: IpAddr, bytes: &Bytes) -> (result: bool)
        ensures
            result == udp_complete(source_addr, destination_addr, bytes_contents(*bytes)),
    {
        let slice = as_slice(bytes);
        match UdpHeader::from_bytes(slice) {
            Err(_) => true,
            Ok(header) => header.datagram_length() >= 8 && header.datagram_length() <= slice.len()
                && !(source_addr.is_ipv6() && destination_addr.is_ipv6()),
        }
    }

    /// Hands a datagram that was received to the socket that wants it.
    pub fn recv(
        &mut self,
        source_addr: IpAddr,
        destination_addr: IpAddr,
        bytes: &Bytes,
    ) -> (outcome: UdpRecvOutcome)
        requires
            old(self).wf(),
            udp_complete(source_addr, destination_addr, bytes_contents(*bytes)),
        ensures
            final(self).wf(),
            outcome == udp_received(
                old(self).sockets.on_port(udp_port(bytes_contents(*bytes))),
                source_addr,
                destination_addr,
                bytes_contents(*bytes),
            ).0,
            udp_taken(
                *old(self),
                *final(self),
                source_addr,
                destination_addr,
                bytes_contents(*bytes),
            ),
    {
        let ghost contents = bytes_contents(*bytes);
        let header = match UdpHeader::from_bytes(as_slice(bytes)) {
            Ok(header) => header,
            Err(_) => {
                return UdpRecvOutcome::Malformed;
            },
        };
        let payload = slice_bytes(bytes, UdpHeader::LENGTH, header.datagram_length());
        match (source_addr, destination_addr) {
            (IpAddr::V4(source), IpAddr::V4(destination)) => {
                if !header.validate_checksum_v4(&source, &destination, as_slice(&payload)) {
                    return UdpRecvOutcome::BadChecksum;
                }
            },
            _ => {
                return UdpRecvOutcome::MixedFamilies;
            },
        }
        let port: u16 = header.destination_port();
        let index: usize = match self.sockets.listener_position(
            &SocketAddr { ip: destination_addr, port },
        ) {
            Some(index) => index,
            None => {
                return UdpRecvOutcome::NoSocket;
            },
        };
        let state = self.sockets.state_at(port, index);
        let source = SocketAddr { ip: source_addr, port: header.source_port() };
        if let Some(peer) = state.peer_addr {
            if source != peer {
                return UdpRecvOutcome::NotFromPeer;
            }
        }
        if self.sockets.deliver(port, index, UdpRecvMessage::Packet { source, payload }) {
            if state.read_wake {
                self.woken.push(state.local_addr);
            }
            UdpRecvOutcome::Delivered { wake: state.read_wake }
        } else {
            assert forall|other: u16| #[trigger]
                self.sockets.port_view(other) == old(self).sockets.port_view(other) by {
                if other == port {
                    let views = old(self).sockets.port_view(port);
                    assert(views.update(index as int, views[index as int]) =~= views);
                }
            }
            UdpRecvOutcome::Full
        }
    }
}

/// A datagram that was sent from one socket to another is taken as it was sent: its checksum is
/// right, its port is the one of the other socket, and it comes with the address of the first
/// socket and the payload.
pub proof fn sent_datagram_is_received(
    source: (Ipv4Addr, u16),
    destination: (Ipv4Addr, u16),
    payload: Seq<u8>,
    identification: u16,
)
    requires
        payload.len() + 8 <= u16::MAX,
    ensures
        ({
            let sent = super::handle::udp_outgoing(
                source.0,
                source.1,
                destination.0,
                destination.1,
                payload,
                identification,
            ).payload;
            let from = IpAddr::V4(source.0);
            let to = IpAddr::V4(destination.0);
            &&& udp_complete(from, to, sent)
            &&& udp_checksum_ok(from, to, sent)
            &&& udp_port(sent) == destination.1
            &&& udp_datagram(from, sent) == (SocketAddr { ip: from, port: source.1 }, payload)
        }),
{
    super::handle::sent_datagram_is_valid(source, destination, payload, identification);
}

/// A socket that was asked for: the address, from which range a port was to be drawn and how long
/// frames were, what came of it, and the sockets afterwards.
pub struct BindStep {
    pub addr: SocketAddr,
    pub range: (u16, u16),
    pub mtu: int,
    pub result: Result<UdpSocket, Error>,
    pub after: UdpManager,
}

/// The sockets after some were asked for.
pub open spec fn after_binds(start: UdpManager, steps: Seq<BindStep>) -> UdpManager {
    if steps.len() == 0 {
        start
    } else {
        steps.last().after
    }
}

/// Whether sockets were asked for, one after the other, where there were none at first.
pub open spec fn bind_history(start: UdpManager, steps: Seq<BindStep>) -> bool
    decreases steps.len(),
{
    if steps.len() == 0 {
        start.wf() && start.is_empty()
    } else {
        let step = steps.last();
        &&& bind_history(start, steps.drop_last())
        &&& step.after.wf()
        &&& after_binds(start, steps.drop_last()).asked_to_bind(
            step.after,
            step.addr,
            step.range,
            step.mtu,
            step.result,
        )
    }
}

/// The addresses of the sockets that were given out, in their order.
pub open spec fn live_addresses(steps: Seq<BindStep>) -> Seq<SocketAddr>
    decreases steps.len(),
{
    if steps.len() == 0 {
        Seq::empty()
    } else {
        match steps.last().result {
            Ok(socket) => live_addresses(steps.drop_last()).push(socket.socket_addr),
            Err(_) => live_addresses(steps.drop_last()),
        }
    }
}

/// Whether two sockets cannot have these addresses side by side: the ports are the same, and so are
/// the addresses, or one of them is for any address.
pub open spec fn in_conflict(one: SocketAddr, other: SocketAddr) -> bool {
    one.port == other.port && (one.ip == other.ip || one.ip.is_unspecified()
        || other.ip.is_unspecified())
}

/// Whether some socket that was given out is in the way of an address.
pub open spec fn address_taken(live: Seq<SocketAddr>, addr: SocketAddr) -> bool {
    exists|i: int| 0 <= i < live.len() && in_conflict(#[trigger] live[i], addr)
}

/// Whether ports are from a range, and some socket that was given out is in the way on each.
pub open spec fn ports_taken(
    live: Seq<SocketAddr>,
    ip: IpAddr,
    range: (u16, u16),
    ports: Seq<u16>,
) -> bool {
    forall|i: int|
        0 <= i < ports.len() ==> range.0 <= #[trigger] ports[i] < range.1 && address_taken(
            live,
            SocketAddr { ip, port: ports[i] },
        )
}

/// The sockets on a port are those that were given out on it, and the first numbers are theirs.
proof fn history_is_kept(start: UdpManager, steps: Seq<BindStep>)
    requires
        bind_history(start, steps),
    ensures
        ({
            let manager = after_binds(start, steps);
            let live = live_addresses(steps);
            &&& manager.wf()
            &&& live.len() <= MAX_SOCKETS
            &&& forall|i: int|
                0 <= i < MAX_SOCKETS ==> ((#[trigger] manager.socket_ids@[i]) is Some <==> i
                    < live.len())
            &&& forall|i: int| 0 <= i < live.len() ==> (#[trigger] live[i]).ip is V4
            &&& forall|addr: SocketAddr|
                addr.ip is V4 ==> #[trigger] manager.can_bind(addr) == !address_taken(live, addr)
        }),
    decreases steps.len(),
{
    let manager = after_binds(start, steps);
    let live = live_addresses(steps);
    if steps.len() == 0 {
        assert forall|addr: SocketAddr| #[trigger] manager.can_bind(addr) by {
            assert(manager.sockets.on_port(addr.port).len() == 0);
        }
    } else {
        let before = after_binds(start, steps.drop_last());
        let had = live_addresses(steps.drop_last());
        history_is_kept(start, steps.drop_last());
        if let Ok(socket) = steps.last().result {
            let chosen = socket.socket_addr;
            let number = socket.context.socket_id as int;
            assert(number == had.len()) by {
                if number > had.len() {
                    assert(before.socket_ids@[had.len() as int] is Some);
                }
                assert(before.socket_ids@[number] is None);
            }
            assert forall|i: int| 0 <= i < MAX_SOCKETS implies ((
            #[trigger] manager.socket_ids@[i]) is Some <==> i < live.len()) by {
                assert(before.socket_ids@[i] is Some <==> i < had.len());
            }
            assert forall|addr: SocketAddr| addr.ip is V4 implies #[trigger] manager.can_bind(addr)
                == !address_taken(live, addr) by {
                bound_takes_its_address(
                    before,
                    manager,
                    chosen,
                    steps.last().mtu,
                    socket,
                    addr,
                );
                assert(before.can_bind(addr) == !address_taken(had, addr));
                if address_taken(had, addr) {
                    let i = choose|i: int|
                        0 <= i < had.len() && in_conflict(#[trigger] had[i], addr);
                    assert(in_conflict(live[i], addr));
                }
                if in_conflict(chosen, addr) {
                    assert(in_conflict(live[had.len() as int], addr));
                }
                if address_taken(live, addr) {
                    let i = choose|i: int|
                        0 <= i < live.len() && in_conflict(#[trigger] live[i], addr);
                    if i < had.len() {
                        assert(in_conflict(had[i], addr));
                    }
                }
            }
        }
    }
}

/// A socket that was bound is in the way of the addresses that are in conflict with its own, and of
/// no others.
proof fn bound_takes_its_address(
    before: UdpManager,
    after: UdpManager,
    chosen: SocketAddr,
    mtu: int,
    socket: UdpSocket,
    addr: SocketAddr,
)
    requires
        before.bound(after, chosen, mtu, socket),
        chosen.ip is V4,
        addr.ip is V4,
    ensures
        after.can_bind(addr) == (before.can_bind(addr) && !in_conflict(chosen, addr)),
{
    let had = before.sockets.port_view(addr.port);
    let has = after.sockets.port_view(addr.port);
    let old_sockets = before.sockets.on_port(addr.port);
    let new_sockets = after.sockets.on_port(addr.port);
    assert(has == (if addr.port == chosen.port {
        had.push(UdpManager::new_binding(chosen, mtu))
    } else {
        had
    }));
    assert(had.len() == old_sockets.len() && has.len() == new_sockets.len());
    assert forall|i: int| 0 <= i < old_sockets.len() implies (#[trigger] old_sockets[i]).target
        == new_sockets[i].target by {
        assert(had[i] == has[i]);
        assert(had[i] == old_sockets[i]@ && has[i] == new_sockets[i]@);
    }
    if addr.port == chosen.port {
        let last = old_sockets.len() as int;
        assert(has[last] == new_sockets[last]@);
        assert(new_sockets[last].target == target_of(chosen.ip, true));
        assert(target_of(chosen.ip, true).overlaps(addr.ip, true) == in_conflict(chosen, addr));
    }
    if after.can_bind(addr) {
        assert forall|i: int| 0 <= i < old_sockets.len() implies !(
        #[trigger] old_sockets[i]).target.overlaps(addr.ip, true) by {
            assert(!new_sockets[i].target.overlaps(addr.ip, true));
        }
        if addr.port == chosen.port {
            assert(!new_sockets[old_sockets.len() as int].target.overlaps(addr.ip, true));
        }
        assert(before.can_bind(addr));
        assert(!in_conflict(chosen, addr));
    }
    if before.can_bind(addr) && !in_conflict(chosen, addr) {
        assert forall|i: int| 0 <= i < new_sockets.len() implies !(
        #[trigger] new_sockets[i]).target.overlaps(addr.ip, true) by {
            if i < old_sockets.len() {
                assert(!old_sockets[i].target.overlaps(addr.ip, true));
            }
        }
    }
}

/// Of the sockets that were asked for, one on a port of its own choice is refused because its
/// address is in use exactly where one that was given out is in conflict with it, and one on any
/// port only where that many draws were all in vain. While fewer were given out than there can be,
/// each other one with an IPv4 address is given out, with the address that was asked for or a port
/// from the range. Where none is given out nothing changes.
pub proof fn binds_are_refused_for_conflicts(
    start: UdpManager,
    steps: Seq<BindStep>,
    next: BindStep,
)
    requires
        bind_history(start, steps.push(next)),
        live_addresses(steps).len() < MAX_SOCKETS,
    ensures
        ({
            let manager = after_binds(start, steps);
            let taken = address_taken(live_addresses(steps), next.addr);
            let any_port = next.addr.port == 0;
            &&& next.result is Err ==> next.after == manager
            &&& next.addr.ip is V6 ==> (next.result matches Err(error) && error@.0
                == ErrorKind::Unsupported)
            &&& next.addr.ip is V4 && !any_port ==> match next.result {
                Ok(socket) => !taken && socket.socket_addr == next.addr,
                Err(error) => taken && error@.0 == ErrorKind::AddrInUse,
            }
            &&& next.addr.ip is V4 && any_port ==> match next.result {
                Ok(socket) => {
                    &&& socket.socket_addr.ip == next.addr.ip
                    &&& next.range.0 <= socket.socket_addr.port < next.range.1
                    &&& !address_taken(live_addresses(steps), socket.socket_addr)
                },
                Err(error) => {
                    &&& error@.0 == ErrorKind::AddrInUse
                    &&& exists|draws: Seq<u16>|
                        draws.len() == MAX_EPHEMERAL_PORT_ATTEMPTS && #[trigger] ports_taken(
                            live_addresses(steps),
                            next.addr.ip,
                            next.range,
                            draws,
                        )
                },
            }
        }),
{
    let all = steps.push(next);
    let manager = after_binds(start, steps);
    let live = live_addresses(steps);
    assert(all.drop_last() =~= steps);
    assert(all.last() == next);
    history_is_kept(start, steps);
    assert(first_free_slot(manager.socket_ids@, live.len() as int));
    if next.addr.ip is V4 && next.addr.port == 0 {
        if let Err(error) = next.result {
            let draws = choose|draws: Seq<u16>|
                draws.len() == MAX_EPHEMERAL_PORT_ATTEMPTS && #[trigger] manager.drawn_in_vain(
                    next.addr.ip,
                    next.range,
                    draws,
                );
            assert(ports_taken(live, next.addr.ip, next.range, draws)) by {
                assert forall|i: int| 0 <= i < draws.len() implies next.range.0
                    <= #[trigger] draws[i] < next.range.1 && address_taken(
                    live,
                    SocketAddr { ip: next.addr.ip, port: draws[i] },
                ) by {
                    assert(!manager.can_bind(SocketAddr { ip: next.addr.ip, port: draws[i] }));
                }
            }
        }
    }
}

/// An address that a socket has cannot be bound again, whatever else was asked for in between. Port
/// zero is no port to ask for.
pub proof fn a_live_address_is_not_bound_again(
    start: UdpManager,
    steps: Seq<BindStep>,
    given: int,
    next: BindStep,
)
    requires
        bind_history(start, steps.push(next)),
        0 <= given < steps.len(),
        steps[given].result matches Ok(socket) && socket.socket_addr == next.addr,
        next.addr.port != 0,
    ensures
        next.result matches Err(error) && error@.0 == ErrorKind::AddrInUse,
        next.after == after_binds(start, steps),
{
    let all = steps.push(next);
    assert(all.drop_last() =~= steps);
    history_is_kept(start, steps);
    given_is_live(steps, given);
    let live = live_addresses(steps);
    let i = choose|i: int| 0 <= i < live.len() && live[i] == next.addr;
    assert(in_conflict(live[i], next.addr));
    assert(address_taken(live, next.addr));
}

proof fn given_is_live(steps: Seq<BindStep>, given: int)
    requires
        0 <= given < steps.len(),
        steps[given].result is Ok,
    ensures
        live_addresses(steps).contains(steps[given].result->Ok_0.socket_addr),
    decreases steps.len(),
{
    let live = live_addresses(steps);
    let had = live_addresses(steps.drop_last());
    if given < steps.len() - 1 {
        given_is_live(steps.drop_last(), given);
        let addr = steps[given].result->Ok_0.socket_addr;
        let i = choose|i: int| 0 <= i < had.len() && had[i] == addr;
        assert(live[i] == addr);
    } else {
        assert(live[had.len() as int] == steps[given].result->Ok_0.socket_addr);
    }
}

/// A datagram that is delivered comes behind all that wait in the socket that it is for. With those
/// that were taken over from there before, it is the last that is still to be read.
pub proof fn delivered_comes_last(
    before: UdpManager,
    after: UdpManager,
    source: IpAddr,
    destination: IpAddr,
    bytes: Seq<u8>,
    unread: Seq<ReceivedView>,
)
    requires
        udp_received(
            before.sockets.on_port(udp_port(bytes)),
            source,
            destination,
            bytes,
        ).0 is Delivered,
        udp_taken(before, after, source, destination, bytes),
    ensures
        ({
            let port = udp_port(bytes);
            let index = listener(before.sockets.on_port(port), destination)->0;
            unread + after.sockets.port_view(port)[index].queued == (unread
                + before.sockets.port_view(port)[index].queued).push(udp_datagram(source, bytes))
        }),
{
    let port = udp_port(bytes);
    let index = listener(before.sockets.on_port(port), destination)->0;
    let queued = before.sockets.port_view(port)[index].queued;
    assert(after.sockets.port_view(port)[index].queued == queued.push(
        udp_datagram(source, bytes),
    ));
    assert(unread + queued.push(udp_datagram(source, bytes)) =~= (unread + queued).push(
        udp_datagram(source, bytes),
    ));
}

/// A socket that has a peer hears nobody else: a datagram for it that comes from elsewhere is not
/// delivered.
pub proof fn only_the_peer_is_heard(
    sockets: Seq<AddressBinding>,
    source: IpAddr,
    destination: IpAddr,
    bytes: Seq<u8>,
    index: int,
    peer: SocketAddr,
)
    requires
        listener(sockets, destination) == Some(index),
        sockets[index]@.state.peer_addr == Some(peer),
        udp_datagram(source, bytes).0 != peer,
    ensures
        !(udp_received(sockets, source, destination, bytes).0 is Delivered),
{
}

} // verus!
