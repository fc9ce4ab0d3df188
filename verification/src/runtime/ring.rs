//! Rings in which things wait for whoever takes them next.

use super::channel::{NetworkRecvPayload, NetworkSendPayload, PayloadView};
use super::interface::l4_managers::udp::messages::{
    ReceivedView, SendMessageView, UdpRecvMessage, UdpSendMessage,
};
use ringbuf::traits::{Consumer, Observer, Producer};
use vstd::prelude::*;

verus! {

/// What can wait in a ring.
#[derive(Debug)]
pub enum RingItem {
    /// Something that an interface tells the network.
    Outgoing(NetworkSendPayload),
    /// Something that the network tells an interface.
    Incoming(NetworkRecvPayload),
    /// A datagram for a socket.
    Datagram(UdpRecvMessage),
    /// Something that a socket tells its interface.
    Message(UdpSendMessage),
}

/// What can wait in a ring, taken by its view.
pub enum RingItemView {
    Outgoing(PayloadView),
    Incoming(Seq<u8>),
    Datagram(ReceivedView),
    Message(SendMessageView),
}

impl View for RingItem {
    type V = RingItemView;

    open spec fn view(&self) -> RingItemView {
        match self {
            RingItem::Outgoing(payload) => RingItemView::Outgoing(payload@),
            RingItem::Incoming(payload) => RingItemView::Incoming(payload@),
            RingItem::Datagram(message) => RingItemView::Datagram(message@),
            RingItem::Message(message) => RingItemView::Message(message@),
        }
    }
}

/// A `ringbuf::HeapRb`.
#[verifier::external_body]
pub struct Ring {
    ring: ringbuf::HeapRb<RingItem>,
}

/// What a ring holds, the oldest first.
pub uninterp spec fn ring_contents(ring: Ring) -> Seq<RingItemView>;

/// How much a ring can hold.
pub uninterp spec fn ring_capacity(ring: Ring) -> nat;

/// `HeapRb::new`: an empty ring. It panics on a capacity of zero, and on one that cannot be
/// allocated.
#[verifier::external_body]
pub(crate) fn new_ring(capacity: usize) -> (ring: Ring)
    requires
        0 < capacity <= 0x1_0000,
    ensures
        ring_contents(ring) == Seq::<RingItemView>::empty(),
        ring_capacity(ring) == capacity,
{
    Ring { ring: ringbuf::HeapRb::new(capacity) }
}

/// `Producer::try_push`: adds an item at the end. A ring that is full gives the item back. It
/// does not panic.
#[verifier::external_body]
pub(crate) fn ring_try_push(ring: &mut Ring, item: RingItem) -> (result: Result<(), RingItem>)
    ensures
        ring_capacity(*final(ring)) == ring_capacity(*old(ring)),
        match result {
            Ok(_) => ring_contents(*old(ring)).len() < ring_capacity(*old(ring)) && ring_contents(
                *final(ring),
            ) == ring_contents(*old(ring)).push(item@),
            Err(returned) => returned == item && ring_contents(*old(ring)).len() >= ring_capacity(
                *old(ring),
            ) && ring_contents(*final(ring)) == ring_contents(*old(ring)),
        },
    no_unwind
{
    ring.ring.try_push(item)
}

/// `Consumer::try_pop`: takes the oldest item. It does not panic.
#[verifier::external_body]
pub(crate) fn ring_try_pop(ring: &mut Ring) -> (item: Option<RingItem>)
    ensures
        ring_capacity(*final(ring)) == ring_capacity(*old(ring)),
        match item {
            Some(item) => ring_contents(*old(ring)).len() > 0 && item@ == ring_contents(
                *old(ring),
            )[0] && ring_contents(*final(ring)) == ring_contents(*old(ring)).skip(1),
            None => ring_contents(*old(ring)).len() == 0 && ring_contents(*final(ring))
                == ring_contents(*old(ring)),
        },
    no_unwind
{
    ring.ring.try_pop()
}

/// `Consumer::try_peek`: the oldest item, which stays where it is.
#[verifier::external_body]
pub(crate) fn ring_try_peek(ring: &Ring) -> (item: Option<&RingItem>)
    ensures
        match item {
            Some(item) => ring_contents(*ring).len() > 0 && item@ == ring_contents(*ring)[0],
            None => ring_contents(*ring).len() == 0,
        },
{
    ring.ring.try_peek()
}

/// `Observer::is_full`: whether a ring can hold no more.
#[verifier::external_body]
pub(crate) fn ring_is_full(ring: &Ring) -> (full: bool)
    ensures
        full == (ring_contents(*ring).len() >= ring_capacity(*ring)),
{
    ring.ring.is_full()
}

/// `Observer::is_empty`: whether a ring holds nothing.
#[verifier::external_body]
pub(crate) fn ring_is_empty(ring: &Ring) -> (empty: bool)
    ensures
        empty == (ring_contents(*ring).len() == 0),
{
    ring.ring.is_empty()
}

} // verus!
