//! What a socket and the interface behind it tell each other.

use crate::buffer::bytes_contents;
use crate::net::SocketAddr;
use bytes::Bytes;
use crate::runtime::ring::{
    new_ring, ring_capacity, ring_contents, ring_is_empty, ring_is_full, ring_try_peek,
    ring_try_pop, ring_try_push, Ring, RingItem,
};
use vstd::prelude::*;

verus! {

/// What is left to do with a socket after its messages were handled.
#[derive(Debug, PartialEq, Eq, Clone, Copy, Structural)]
pub enum DrainSendAction {
    /// Nothing. There are no more messages.
    NoAction,
    /// The socket is gone. What it told after that is not looked at.
    Remove,
    /// The last message that was taken is one that cannot be handled.
    Unsendable,
}

/// Why a datagram was not sent.
#[derive(Debug, PartialEq, Eq, Clone, Copy, Structural)]
pub enum UdpSendError {
    PayloadTooLarge,
    NetworkUnreachable,
    HostUnreachable,
    Other,
}

pub type UdpSendResult = Result<(), UdpSendError>;

/// The number that stands for what came of a datagram. Zero stands for nothing yet.
pub open spec fn encode_result(result: UdpSendResult) -> u32 {
    match result {
        Ok(_) => u32::MAX,
        Err(UdpSendError::PayloadTooLarge) => 0x1,
        Err(UdpSendError::NetworkUnreachable) => 0x2,
        Err(UdpSendError::HostUnreachable) => 0x3,
        Err(UdpSendError::Other) => 0xff,
    }
}

/// What a number stands for.
pub open spec fn decode_result(value: u32) -> Option<UdpSendResult> {
    if value == 0 {
        None
    } else if value == u32::MAX {
        Some(Ok(()))
    } else {
        Some(
            Err(
                match value % 256 {
                    0x1 => UdpSendError::PayloadTooLarge,
                    0x2 => UdpSendError::NetworkUnreachable,
                    0x3 => UdpSendError::HostUnreachable,
                    _ => UdpSendError::Other,
                },
            ),
        )
    }
}

/// Whether a number stands for nothing, or for what came of a datagram.
pub open spec fn is_result_code(value: u32) -> bool {
    value <= 3 || value == 0xff || value == u32::MAX
}

/// What came of the last datagram, as one number that a socket and its interface can share.
#[derive(Debug, PartialEq, Eq, Clone, Copy, Structural)]
pub struct SharableUdpSendResult {
    pub state: u32,
}

impl SharableUdpSendResult {
    /// The number stands for something.
    pub open spec fn wf(self) -> bool {
        is_result_code(self.state)
    }

    /// What came of the last datagram, if anything did yet.
    pub open spec fn holds(self) -> Option<UdpSendResult> {
        decode_result(self.state)
    }

    /// Nothing came of a datagram yet.
    pub fn new() -> (shared: Self)
        ensures
            shared.wf(),
            shared.holds() is None,
    {
        SharableUdpSendResult { state: 0 }
    }

    /// The number that stands for what came of a datagram.
    pub fn encode(result: UdpSendResult) -> (value: u32)
        ensures
            value == encode_result(result),
            value != 0,
    {
        match result {
            Ok(_) => u32::MAX,
            Err(UdpSendError::PayloadTooLarge) => 0x1,
            Err(UdpSendError::NetworkUnreachable) => 0x2,
            Err(UdpSendError::HostUnreachable) => 0x3,
            Err(UdpSendError::Other) => 0xff,
        }
    }

    /// What a number stands for.
    pub fn decode(value: u32) -> (result: Option<UdpSendResult>)
        requires
            is_result_code(value),
        ensures
            result == decode_result(value),
    {
        if value == 0 {
            return None;
        }
        if value == u32::MAX {
            return Some(Ok(()));
        }
        // The low byte holds the code.
        let error = match value % 256 {
            0x1 => UdpSendError::PayloadTooLarge,
            0x2 => UdpSendError::NetworkUnreachable,
            0x3 => UdpSendError::HostUnreachable,
            _ => UdpSendError::Other,
        };
        Some(Err(error))
    }

    /// Records what came of a datagram.
    pub fn store(&mut self, result: UdpSendResult)
        ensures
            final(self).wf(),
            final(self).holds() == Some(result),
            *final(self) == spec_stored(result),
    {
        self.state = Self::encode(result);
        proof {
            results_told_apart(result);
        }
    }

    /// Takes what came of the last datagram.
    pub fn reset(&mut self) -> (result: Option<UdpSendResult>)
        requires
            old(self).wf(),
        ensures
            result == old(self).holds(),
            final(self).wf(),
            final(self).holds() is None,
    {
        let value: u32 = self.state;
        self.state = 0;
        Self::decode(value)
    }
}

/// The record of what came of a datagram.
pub open spec fn spec_stored(result: UdpSendResult) -> SharableUdpSendResult {
    SharableUdpSendResult { state: encode_result(result) }
}

/// What was recorded is what is taken: no two outcomes have the same number, and none has the
/// number of nothing.
pub proof fn results_told_apart(result: UdpSendResult)
    ensures
        encode_result(result) != 0,
        is_result_code(encode_result(result)),
        spec_stored(result).holds() == Some(result),
{
    if let Ok(unit) = result {
        assert(unit == ());
    }
}

/// Why a socket got no peer.
#[derive(Debug, PartialEq, Eq, Clone, Copy, Structural)]
pub enum UdpConnectError {
    NoRouteToHost,
    NoAddress,
    InvalidAddress,
}

pub type UdpConnectResult = Result<(), UdpConnectError>;

/// What a socket tells its interface.
#[derive(Debug)]
pub enum UdpSendMessage {
    /// Send a datagram. Nobody waits for what comes of it.
    NonBlocking { destination: SocketAddr, payload: Bytes },
    /// Send a datagram. The socket waits for what comes of it.
    Blocking { destination: SocketAddr, payload: Bytes },
    /// From now on somebody is to be woken when there is something to read.
    UpdateReadWakeHandle,
    /// From now on somebody is to be woken when there is room to write.
    UpdateWriteWakeHandle,
    /// Make the first of these that can be reached the peer.
    Connect(Vec<SocketAddr>),
    /// The socket is gone.
    Drop,
}

/// What a socket tells its interface, with payloads taken by their contents.
pub enum SendMessageView {
    NonBlocking { destination: SocketAddr, payload: Seq<u8> },
    Blocking { destination: SocketAddr, payload: Seq<u8> },
    UpdateReadWakeHandle,
    UpdateWriteWakeHandle,
    Connect(Seq<SocketAddr>),
    Drop,
}

impl View for UdpSendMessage {
    type V = SendMessageView;

    open spec fn view(&self) -> SendMessageView {
        match self {
            UdpSendMessage::NonBlocking { destination, payload } => SendMessageView::NonBlocking {
                destination: *destination,
                payload: bytes_contents(*payload),
            },
            UdpSendMessage::Blocking { destination, payload } => SendMessageView::Blocking {
                destination: *destination,
                payload: bytes_contents(*payload),
            },
            UdpSendMessage::UpdateReadWakeHandle => SendMessageView::UpdateReadWakeHandle,
            UdpSendMessage::UpdateWriteWakeHandle => SendMessageView::UpdateWriteWakeHandle,
            UdpSendMessage::Connect(potentials) => SendMessageView::Connect(potentials@),
            UdpSendMessage::Drop => SendMessageView::Drop,
        }
    }
}

/// What an interface tells a socket.
#[derive(Debug)]
pub enum UdpRecvMessage {
    /// A datagram that was received.
    Packet { source: SocketAddr, payload: Bytes },
}

/// A datagram that was received: where from, and what it carries.
pub type ReceivedView = (SocketAddr, Seq<u8>);

impl View for UdpRecvMessage {
    type V = ReceivedView;

    open spec fn view(&self) -> ReceivedView {
        match self {
            UdpRecvMessage::Packet { source, payload } => (*source, bytes_contents(*payload)),
        }
    }
}

/// The datagrams that wait to be read.
pub struct RecvRing {
    ring: Ring,
}

impl RecvRing {
    #[verifier::type_invariant]
    closed spec fn inv(self) -> bool {
        &&& ring_contents(self.ring).len() <= ring_capacity(self.ring)
        &&& forall|i: int|
            0 <= i < ring_contents(self.ring).len() ==> #[trigger] ring_contents(self.ring)[i]
                is Datagram
    }

    /// The datagrams that wait, the oldest first.
    pub closed spec fn queued(self) -> Seq<ReceivedView> {
        Seq::new(
            ring_contents(self.ring).len(),
            |i: int| ring_contents(self.ring)[i]->Datagram_0,
        )
    }

    /// How many datagrams can wait.
    pub closed spec fn capacity(self) -> nat {
        ring_capacity(self.ring)
    }

    /// A ring in which `capacity` datagrams can wait.
    pub fn with_capacity(capacity: usize) -> (ring: Self)
        requires
            0 < capacity <= 0x1_0000,
        ensures
            ring.queued() == Seq::<ReceivedView>::empty(),
            ring.capacity() == capacity,
    {
        let ring = RecvRing { ring: new_ring(capacity) };
        assert(ring.queued() =~= Seq::<ReceivedView>::empty());
        ring
    }

    /// Adds a datagram at the end. Returns whether there was room.
    pub fn try_push(&mut self, message: UdpRecvMessage) -> (pushed: bool)
        ensures
            final(self).capacity() == old(self).capacity(),
            pushed == (old(self).queued().len() < old(self).capacity()),
            final(self).queued() == (if pushed {
                old(self).queued().push(message@)
            } else {
                old(self).queued()
            }),
    {
        proof {
            use_type_invariant(&*self);
        }
        let pushed: bool = ring_try_push(&mut self.ring, RingItem::Datagram(message)).is_ok();
        if pushed {
            assert(self.queued() =~= old(self).queued().push(message@));
        }
        pushed
    }

    /// Takes the oldest datagram.
    pub fn try_pop(&mut self) -> (message: Option<UdpRecvMessage>)
        ensures
            final(self).capacity() == old(self).capacity(),
            match message {
                Some(message) => old(self).queued().len() > 0 && message@ == old(self).queued()[0]
                    && final(self).queued() == old(self).queued().skip(1),
                None => old(self).queued().len() == 0 && final(self).queued()
                    == old(self).queued(),
            },
    {
        proof {
            use_type_invariant(&*self);
        }
        match ring_try_pop(&mut self.ring) {
            Some(RingItem::Datagram(message)) => {
                assert(self.queued() =~= old(self).queued().skip(1));
                Some(message)
            },
            Some(_) => {
                assert(false);
                None
            },
            None => None,
        }
    }

    /// The oldest datagram, which stays where it is.
    pub fn try_peek(&self) -> (message: Option<&UdpRecvMessage>)
        ensures
            match message {
                Some(message) => self.queued().len() > 0 && message@ == self.queued()[0],
                None => self.queued().len() == 0,
            },
    {
        proof {
            use_type_invariant(&*self);
        }
        match ring_try_peek(&self.ring) {
            Some(RingItem::Datagram(message)) => Some(message),
            Some(_) => {
                assert(false);
                None
            },
            None => None,
        }
    }

    /// Whether no more datagrams can wait.
    pub fn is_full(&self) -> (full: bool)
        ensures
            self.queued().len() <= self.capacity(),
            full == (self.queued().len() == self.capacity()),
    {
        proof {
            use_type_invariant(&*self);
        }
        ring_is_full(&self.ring)
    }

    /// Whether no datagram waits.
    pub fn is_empty(&self) -> (empty: bool)
        ensures
            self.queued().len() <= self.capacity(),
            empty == (self.queued().len() == 0),
    {
        proof {
            use_type_invariant(&*self);
        }
        ring_is_empty(&self.ring)
    }
}

/// What a socket told its interface.
pub struct MessageRing {
    ring: Ring,
}

impl MessageRing {
    #[verifier::type_invariant]
    closed spec fn inv(self) -> bool {
        forall|i: int|
            0 <= i < ring_contents(self.ring).len() ==> #[trigger] ring_contents(self.ring)[i]
                is Message
    }

    /// The messages, the oldest first.
    pub closed spec fn queued(self) -> Seq<SendMessageView> {
        Seq::new(
            ring_contents(self.ring).len(),
            |i: int| ring_contents(self.ring)[i]->Message_0,
        )
    }

    /// How many messages there can be.
    pub closed spec fn capacity(self) -> nat {
        ring_capacity(self.ring)
    }

    /// A ring for `capacity` messages.
    pub fn with_capacity(capacity: usize) -> (ring: Self)
        requires
            0 < capacity <= 0x1_0000,
        ensures
            ring.queued() == Seq::<SendMessageView>::empty(),
            ring.capacity() == capacity,
    {
        let ring = MessageRing { ring: new_ring(capacity) };
        assert(ring.queued() =~= Seq::<SendMessageView>::empty());
        ring
    }

    /// Adds a message at the end, or gives it back where there is no room.
    pub fn try_push(&mut self, message: UdpSendMessage) -> (result: Result<(), UdpSendMessage>)
        ensures
            final(self).capacity() == old(self).capacity(),
            match result {
                Ok(_) => old(self).queued().len() < old(self).capacity() && final(self).queued()
                    == old(self).queued().push(message@),
                Err(returned) => returned == message && old(self).queued().len() >= old(
                    self,
                ).capacity() && final(self).queued() == old(self).queued(),
            },
    {
        proof {
            use_type_invariant(&*self);
        }
        match ring_try_push(&mut self.ring, RingItem::Message(message)) {
            Ok(_) => {
                assert(self.queued() =~= old(self).queued().push(message@));
                Ok(())
            },
            Err(RingItem::Message(returned)) => Err(returned),
            Err(_) => {
                assert(false);
                Ok(())
            },
        }
    }

    /// Takes the oldest message.
    pub fn try_pop(&mut self) -> (message: Option<UdpSendMessage>)
        ensures
            final(self).capacity() == old(self).capacity(),
            match message {
                Some(message) => old(self).queued().len() > 0 && message@ == old(self).queued()[0]
                    && final(self).queued() == old(self).queued().skip(1),
                None => old(self).queued().len() == 0 && final(self).queued()
                    == old(self).queued(),
            },
    {
        proof {
            use_type_invariant(&*self);
        }
        match ring_try_pop(&mut self.ring) {
            Some(RingItem::Message(message)) => {
                assert(self.queued() =~= old(self).queued().skip(1));
                Some(message)
            },
            Some(_) => {
                assert(false);
                None
            },
            None => None,
        }
    }

    /// Whether there is no room for another message.
    pub fn is_full(&self) -> (full: bool)
        ensures
            full == (self.queued().len() >= self.capacity()),
    {
        ring_is_full(&self.ring)
    }
}

} // verus!
