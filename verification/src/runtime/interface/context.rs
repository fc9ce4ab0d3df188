//! What an interface remembers.

use super::l2_ethernet::arp_table::{arp_in_range, ArpTable, ArpTableEntry};
use super::{SendError, SendResult};
use crate::buffer::{buffer_with_capacity, bytes_contents, freeze, max_buffer_len};
use crate::net::Ipv4Addr;
use crate::protocols::ethernet::mac::MacAddr;
use crate::protocols::ipv4::IPv4Header;
use crate::runtime::address_table::AddressTableIpv4;
use crate::runtime::channel::{NetworkSendPayload, NetworkSender, PayloadView};
use crate::runtime::route_table::{ordered, RouteInformation, RouteTable};
use crate::write_to_buffer::WriteToBuffer;
use bytes::Bytes;
use std::collections::HashMap;
use vstd::prelude::*;

verus! {

/// How many datagrams may wait for one link layer address.
pub const MAX_IPV4_PENDING_BUFFER_SIZE: usize = 5;

/// The least that an interface must be able to carry: an address resolution frame.
pub const MIN_MTU: usize = 42;

/// The most that an interface may carry: what one buffer can hold.
pub const MAX_MTU: usize = usize::MAX / 4;

/// What an interface remembers.
pub struct InterfaceContext {
    /// The longest frame that the interface carries.
    pub mtu: usize,
    pub mac_addr: MacAddr,
    pub network_tx: NetworkSender,
    pub arp_table: ArpTable,
    pub ipv4_addresses: AddressTableIpv4,
    pub ipv4_route_table: RouteTable<Ipv4Addr>,
    /// The datagrams that wait for the link layer address of their next hop.
    pub ipv4_send_buffer: HashMap<u32, Vec<(IPv4Header, Bytes)>>,
    /// The ports that are given to sockets that do not ask for one: from the first up to, without,
    /// the second.
    pub ephemeral_ports: (u16, u16),
}

/// A datagram: its header and its payload.
pub type DatagramView = (IPv4Header, Seq<u8>);

/// What an interface remembers, as far as sending and receiving goes.
#[verifier::ext_equal]
pub struct ContextView {
    pub mtu: int,
    pub mac: MacAddr,
    /// What is on its way to the network.
    pub sent: Seq<PayloadView>,
    /// How much can be on its way.
    pub capacity: nat,
    pub arp: Map<u32, ArpTableEntry>,
    pub addresses: Seq<(Ipv4Addr, Ipv4Addr)>,
    pub routes: Seq<RouteInformation<Ipv4Addr>>,
    /// The datagrams that wait, by the address of their next hop.
    pub waiting: Map<u32, Seq<DatagramView>>,
}

/// Datagrams, with their payloads taken by their contents.
pub open spec fn queue_view(queue: Seq<(IPv4Header, Bytes)>) -> Seq<DatagramView> {
    Seq::new(queue.len(), |i: int| (queue[i].0, bytes_contents(queue[i].1)))
}

/// The datagrams that wait, with their payloads taken by their contents.
pub open spec fn waiting_view(buffer: Map<u32, Vec<(IPv4Header, Bytes)>>) -> Map<
    u32,
    Seq<DatagramView>,
> {
    buffer.map_values(|queue: Vec<(IPv4Header, Bytes)>| queue_view(queue@))
}

/// Whether a datagram can be written and quoted.
pub open spec fn datagram_ok(datagram: DatagramView) -> bool {
    datagram.0.encodable() && datagram.1.len() >= 8
}

/// Whether a queue is one that can have come about: not too long, and of datagrams that can be
/// written and quoted.
pub open spec fn queue_ok(queue: Seq<DatagramView>) -> bool {
    &&& queue.len() <= MAX_IPV4_PENDING_BUFFER_SIZE
    &&& forall|i: int| 0 <= i < queue.len() ==> datagram_ok(#[trigger] queue[i])
}

/// Whether each queue is one that can have come about.
pub open spec fn waiting_ok(waiting: Map<u32, Seq<DatagramView>>) -> bool {
    forall|key: u32| #[trigger] waiting.contains_key(key) ==> queue_ok(waiting[key])
}

impl ContextView {
    pub open spec fn wf(self) -> bool {
        &&& MIN_MTU <= self.mtu <= MAX_MTU
        &&& arp_in_range(self.arp)
        &&& ordered(self.routes)
        &&& waiting_ok(self.waiting)
    }

    /// The datagrams that wait for an address.
    pub open spec fn queue(self, key: u32) -> Seq<DatagramView> {
        if self.waiting.contains_key(key) {
            self.waiting[key]
        } else {
            Seq::empty()
        }
    }

    /// Whether the datagrams that wait for an address fit in frames of the interface.
    pub open spec fn queue_fits(self, key: u32) -> bool {
        forall|i: int|
            0 <= i < self.queue(key).len() ==> 34 + (#[trigger] self.queue(key)[i]).1.len()
                <= self.mtu
    }
}

/// What comes of sending a frame: it is on its way, unless too much is already.
pub open spec fn send_frame(context: ContextView, frame: Seq<u8>) -> (ContextView, SendResult) {
    if context.sent.len() < context.capacity {
        (ContextView { sent: context.sent.push(PayloadView::Packet(frame)), ..context }, Ok(()))
    } else {
        (context, Err(SendError::BufferFull))
    }
}

impl View for InterfaceContext {
    type V = ContextView;

    open spec fn view(&self) -> ContextView {
        ContextView {
            mtu: self.mtu as int,
            mac: self.mac_addr,
            sent: self.network_tx.queued(),
            capacity: self.network_tx.capacity(),
            arp: self.arp_table@,
            addresses: self.ipv4_addresses@,
            routes: self.ipv4_route_table@,
            waiting: waiting_view(self.ipv4_send_buffer@),
        }
    }
}

impl InterfaceContext {
    pub open spec fn wf(self) -> bool {
        &&& self@.wf()
        &&& self.arp_table.wf()
        &&& self.ipv4_addresses.wf()
        &&& self.ipv4_route_table.wf()
    }

    /// What does not change while frames come and go.
    pub open spec fn same_setup(self, other: Self) -> bool {
        self.ephemeral_ports == other.ephemeral_ports && self.network_tx.id == other.network_tx.id
    }

    /// An interface that knows nothing yet.
    pub fn new(
        mtu: usize,
        mac_addr: MacAddr,
        network_tx: NetworkSender,
        ephemeral_ports: (u16, u16),
    ) -> (context: Self)
        requires
            MIN_MTU <= mtu <= MAX_MTU,
        ensures
            context.wf(),
            context.ephemeral_ports == ephemeral_ports,
            context.network_tx == network_tx,
            context@ == (ContextView {
                mtu: mtu as int,
                mac: mac_addr,
                sent: network_tx.queued(),
                capacity: network_tx.capacity(),
                arp: Map::empty(),
                addresses: Seq::empty(),
                routes: Seq::empty(),
                waiting: Map::empty(),
            }),
    {
        let context = InterfaceContext {
            mtu,
            mac_addr,
            network_tx,
            arp_table: ArpTable::new(),
            ipv4_addresses: AddressTableIpv4::new(),
            ipv4_route_table: RouteTable::new(),
            ipv4_send_buffer: HashMap::new(),
            ephemeral_ports,
        };
        assert(context@.waiting =~= Map::<u32, Seq<DatagramView>>::empty());
        context
    }

    /// Sends a frame.
    pub fn send<P: WriteToBuffer>(&mut self, packet: &P) -> (result: SendResult)
        requires
            old(self).wf(),
            packet.encodable(),
            packet.encoding().len() <= max_buffer_len(),
        ensures
            final(self).wf(),
            final(self).same_setup(*old(self)),
            (final(self)@, result) == send_frame(old(self)@, packet.encoding()),
    {
        let mut buffer = buffer_with_capacity(self.mtu);
        packet.write_to_buffer(&mut buffer);
        let frame = freeze(buffer);
        assert(bytes_contents(frame) =~= packet.encoding());
        match self.network_tx.try_send(NetworkSendPayload::Packet(frame)) {
            Ok(_) => Ok(()),
            Err(_) => Err(SendError::BufferFull),
        }
    }
}

} // verus!
