//! What goes between an interface and the network.

use super::ring::{
    new_ring, ring_capacity, ring_contents, ring_is_full, ring_try_pop, ring_try_push, Ring,
    RingItem,
};
use crate::bits::{bit_position, bit_set};
use crate::buffer::bytes_contents;
use crate::protocols::ethernet::mac::MacAddr;
use bytes::Bytes;
use vstd::prelude::*;

verus! {

/// What an interface tells the network.
#[derive(Debug)]
pub enum NetworkSendPayload {
    /// A frame to be sent.
    Packet(Bytes),
    /// The interface with this address is gone.
    Closed(MacAddr),
}

/// What the network tells an interface.
#[derive(Debug, PartialEq, Eq, Clone)]
pub enum NetworkRecvPayload {
    /// A frame that was received.
    Packet(Bytes),
}

/// What an interface tells the network, with a frame taken by its contents.
pub enum PayloadView {
    Packet(Seq<u8>),
    Closed(MacAddr),
}

impl View for NetworkSendPayload {
    type V = PayloadView;

    open spec fn view(&self) -> PayloadView {
        match self {
            NetworkSendPayload::Packet(bytes) => PayloadView::Packet(bytes_contents(*bytes)),
            NetworkSendPayload::Closed(mac) => PayloadView::Closed(*mac),
        }
    }
}

/// What is on its way from an interface to the network.
pub struct SendRing {
    ring: Ring,
}

impl SendRing {
    #[verifier::type_invariant]
    closed spec fn inv(self) -> bool {
        forall|i: int|
            0 <= i < ring_contents(self.ring).len() ==> #[trigger] ring_contents(self.ring)[i]
                is Outgoing
    }

    /// What is on its way, the oldest first.
    pub closed spec fn queued(self) -> Seq<PayloadView> {
        Seq::new(
            ring_contents(self.ring).len(),
            |i: int| ring_contents(self.ring)[i]->Outgoing_0,
        )
    }

    /// How much can be on its way.
    pub closed spec fn capacity(self) -> nat {
        ring_capacity(self.ring)
    }

    /// A ring for `capacity` payloads.
    pub fn with_capacity(capacity: usize) -> (ring: Self)
        requires
            0 < capacity <= 0x1_0000,
        ensures
            ring.queued() == Seq::<PayloadView>::empty(),
            ring.capacity() == capacity,
    {
        let ring = SendRing { ring: new_ring(capacity) };
        assert(ring.queued() =~= Seq::<PayloadView>::empty());
        ring
    }

    /// Adds a payload at the end, or gives it back where there is no room.
    pub fn try_push(&mut self, payload: NetworkSendPayload) -> (result: Result<
        (),
        NetworkSendPayload,
    >)
        ensures
            final(self).capacity() == old(self).capacity(),
            match result {
                Ok(_) => old(self).queued().len() < old(self).capacity() && final(self).queued()
                    == old(self).queued().push(payload@),
                Err(returned) => returned == payload && old(self).queued().len() >= old(
                    self,
                ).capacity() && final(self).queued() == old(self).queued(),
            },
    {
        proof {
            use_type_invariant(&*self);
        }
        match ring_try_push(&mut self.ring, RingItem::Outgoing(payload)) {
            Ok(_) => {
                assert(self.queued() =~= old(self).queued().push(payload@));
                Ok(())
            },
            Err(RingItem::Outgoing(returned)) => Err(returned),
            Err(_) => {
                assert(false);
                Ok(())
            },
        }
    }

    /// Takes the oldest payload.
    pub fn try_pop(&mut self) -> (payload: Option<NetworkSendPayload>)
        ensures
            final(self).capacity() == old(self).capacity(),
            match payload {
                Some(payload) => old(self).queued().len() > 0 && payload@ == old(self).queued()[0]
                    && final(self).queued() == old(self).queued().skip(1),
                None => old(self).queued().len() == 0 && final(self).queued()
                    == old(self).queued(),
            },
    {
        proof {
            use_type_invariant(&*self);
        }
        match ring_try_pop(&mut self.ring) {
            Some(RingItem::Outgoing(payload)) => {
                assert(self.queued() =~= old(self).queued().skip(1));
                Some(payload)
            },
            Some(_) => {
                assert(false);
                None
            },
            None => None,
        }
    }

    /// Whether there is no room for more.
    pub fn is_full(&self) -> (full: bool)
        ensures
            full == (self.queued().len() >= self.capacity()),
    {
        ring_is_full(&self.ring)
    }
}

impl View for NetworkRecvPayload {
    type V = Seq<u8>;

    open spec fn view(&self) -> Seq<u8> {
        match self {
            NetworkRecvPayload::Packet(bytes) => bytes_contents(*bytes),
        }
    }
}

/// What is on its way from the network to an interface.
pub struct ReceiveRing {
    ring: Ring,
}

impl ReceiveRing {
    #[verifier::type_invariant]
    closed spec fn inv(self) -> bool {
        forall|i: int|
            0 <= i < ring_contents(self.ring).len() ==> #[trigger] ring_contents(self.ring)[i]
                is Incoming
    }

    /// What is on its way, the oldest first.
    pub closed spec fn queued(self) -> Seq<Seq<u8>> {
        Seq::new(
            ring_contents(self.ring).len(),
            |i: int| ring_contents(self.ring)[i]->Incoming_0,
        )
    }

    /// How much can be on its way.
    pub closed spec fn capacity(self) -> nat {
        ring_capacity(self.ring)
    }

    /// A ring for `capacity` payloads.
    pub fn with_capacity(capacity: usize) -> (ring: Self)
        requires
            0 < capacity <= 0x1_0000,
        ensures
            ring.queued() == Seq::<Seq<u8>>::empty(),
            ring.capacity() == capacity,
    {
        let ring = ReceiveRing { ring: new_ring(capacity) };
        assert(ring.queued() =~= Seq::<Seq<u8>>::empty());
        ring
    }

    /// Adds a payload at the end, or gives it back where there is no room.
    pub fn try_push(&mut self, payload: NetworkRecvPayload) -> (result: Result<
        (),
        NetworkRecvPayload,
    >)
        ensures
            final(self).capacity() == old(self).capacity(),
            match result {
                Ok(_) => old(self).queued().len() < old(self).capacity() && final(self).queued()
                    == old(self).queued().push(payload@),
                Err(returned) => returned == payload && old(self).queued().len() >= old(
                    self,
                ).capacity() && final(self).queued() == old(self).queued(),
            },
    {
        proof {
            use_type_invariant(&*self);
        }
        match ring_try_push(&mut self.ring, RingItem::Incoming(payload)) {
            Ok(_) => {
                assert(self.queued() =~= old(self).queued().push(payload@));
                Ok(())
            },
            Err(RingItem::Incoming(returned)) => Err(returned),
            Err(_) => {
                assert(false);
                Ok(())
            },
        }
    }

    /// Takes the oldest payload.
    pub fn try_pop(&mut self) -> (payload: Option<NetworkRecvPayload>)
        ensures
            final(self).capacity() == old(self).capacity(),
            match payload {
                Some(payload) => old(self).queued().len() > 0 && payload@ == old(self).queued()[0]
                    && final(self).queued() == old(self).queued().skip(1),
                None => old(self).queued().len() == 0 && final(self).queued()
                    == old(self).queued(),
            },
    {
        proof {
            use_type_invariant(&*self);
        }
        match ring_try_pop(&mut self.ring) {
            Some(RingItem::Incoming(payload)) => {
                assert(self.queued() =~= old(self).queued().skip(1));
                Some(payload)
            },
            Some(_) => {
                assert(false);
                None
            },
            None => None,
        }
    }
}

/// Why nothing could be told to the network.
#[derive(Debug)]
pub enum NetworkSenderError {
    /// Too much is on its way already. Holds what could not be sent.
    SendError { payload: NetworkSendPayload },
}

/// The end of an interface that speaks to the network.
pub struct NetworkSender {
    pub ring: SendRing,
    /// By which number the network knows the interface.
    pub id: u8,
}

impl NetworkSender {
    /// What is on its way, the oldest first.
    pub open spec fn queued(self) -> Seq<PayloadView> {
        self.ring.queued()
    }

    /// How much can be on its way.
    pub open spec fn capacity(self) -> nat {
        self.ring.capacity()
    }

    /// A sender for which `capacity` payloads can be on their way.
    pub fn new(capacity: usize, id: u8) -> (sender: Self)
        requires
            0 < capacity <= 0x1_0000,
        ensures
            sender.queued() == Seq::<PayloadView>::empty(),
            sender.capacity() == capacity,
            sender.id == id,
    {
        NetworkSender { ring: SendRing::with_capacity(capacity), id }
    }

    /// Tells the network something, unless too much is on its way already.
    pub fn try_send(&mut self, payload: NetworkSendPayload) -> (result: Result<
        (),
        NetworkSenderError,
    >)
        ensures
            final(self).id == old(self).id,
            final(self).capacity() == old(self).capacity(),
            match result {
                Ok(_) => old(self).queued().len() < old(self).capacity() && final(self).queued()
                    == old(self).queued().push(payload@),
                Err(NetworkSenderError::SendError { payload: returned }) => returned == payload
                    && old(self).queued().len() >= old(self).capacity() && final(self).queued()
                    == old(self).queued(),
            },
    {
        match self.ring.try_push(payload) {
            Ok(_) => Ok(()),
            Err(payload) => Err(NetworkSenderError::SendError { payload }),
        }
    }

    /// Whether more can be on its way.
    pub fn has_room(&self) -> (result: bool)
        ensures
            result == (self.queued().len() < self.capacity()),
    {
        !self.ring.is_full()
    }

    /// Takes the oldest payload that is on its way.
    pub fn next_outgoing(&mut self) -> (payload: Option<NetworkSendPayload>)
        ensures
            final(self).id == old(self).id,
            final(self).capacity() == old(self).capacity(),
            match payload {
                Some(payload) => old(self).queued().len() > 0 && payload@ == old(self).queued()[0]
                    && final(self).queued() == old(self).queued().skip(1),
                None => old(self).queued().len() == 0 && final(self).queued()
                    == old(self).queued(),
            },
    {
        self.ring.try_pop()
    }

    /// By which bit the network learns that something is on its way: the word of the bit, and the
    /// word with this bit set.
    pub fn ready_bit(&self) -> (position: (usize, u64))
        ensures
            position.0 == self.id as int / 64,
            forall|bit: int| #[trigger] bit_set(position.1, bit) == (bit == self.id as int % 64),
    {
        bit_position(self.id as usize)
    }
}

/// Payloads leave in the order in which they were sent: what was sent into an empty ring comes out
/// first.
pub proof fn sent_first_leaves_first(before: Seq<PayloadView>, payload: PayloadView)
    ensures
        before.len() == 0 ==> before.push(payload)[0] == payload,
        before.len() > 0 ==> before.push(payload)[0] == before[0] && before.push(payload).skip(1)
            == before.skip(1).push(payload),
{
    if before.len() > 0 {
        assert(before.push(payload).skip(1) =~= before.skip(1).push(payload));
    }
}

} // verus!
