//! The socket's end of its interface.

use super::messages::{RecvRing, UdpRecvMessage};
use crate::bits::{bit_position, bit_set};
use crate::buffer::as_slice;
use crate::common::{Error, ErrorKind};
use crate::net::SocketAddr;
use crate::runtime::buffer_pool::{sized, zeroed, BufferPool, PooledBuffer, WriteTrackingBuffer};
use vstd::prelude::*;

verus! {

/// A buffer after as much of a payload as fits was copied to its start.
pub open spec fn copied(buffer: Seq<u8>, payload: Seq<u8>) -> Seq<u8> {
    if payload.len() < buffer.len() {
        payload + buffer.skip(payload.len() as int)
    } else {
        payload.take(buffer.len() as int)
    }
}

/// How much of a payload fits in a buffer.
pub open spec fn copied_len(buffer: Seq<u8>, payload: Seq<u8>) -> nat {
    if payload.len() < buffer.len() {
        payload.len()
    } else {
        buffer.len()
    }
}

/// Copies as much of a payload as fits to the start of a buffer.
fn copy_payload(payload: &[u8], buf: &mut [u8]) -> (count: usize)
    ensures
        count == copied_len(old(buf)@, payload@),
        final(buf)@ == copied(old(buf)@, payload@),
{
    let total: usize = buf.len();
    let count: usize = if payload.len() < total {
        payload.len()
    } else {
        total
    };
    let mut i: usize = 0;
    while i < count
        invariant
            i <= count <= payload@.len(),
            count <= total,
            total == buf@.len(),
            buf@.len() == old(buf)@.len(),
            buf@ == payload@.take(i as int) + old(buf)@.skip(i as int),
        decreases count - i,
    {
        buf[i] = payload[i];
        i = i + 1;
        assert(buf@ =~= payload@.take(i as int) + old(buf)@.skip(i as int));
    }
    assert(buf@ =~= copied(old(buf)@, payload@));
    count
}

/// The socket's end of its interface.
pub struct UdpSocketContext {
    /// The datagrams that wait to be read.
    pub recv: RecvRing,
    /// The buffers in which datagrams are sent.
    pub buffer_pool: BufferPool,
    pub socket_id: usize,
}

impl UdpSocketContext {
    /// The end of a socket for which nothing waits.
    pub fn new(
        recv: RecvRing,
        payload_max_size: usize,
        buffer_pool_size: usize,
        socket_id: usize,
    ) -> (context: Self)
        ensures
            context.recv == recv,
            context.socket_id == socket_id,
            context.buffer_pool.wf(),
            context.buffer_pool.buffer_size == payload_max_size,
            context.buffer_pool.capacity == buffer_pool_size,
            context.buffer_pool.free() == Seq::new(
                buffer_pool_size as nat,
                |i: int| zeroed(payload_max_size as nat),
            ),
    {
        UdpSocketContext {
            recv,
            buffer_pool: BufferPool::new(payload_max_size, buffer_pool_size),
            socket_id,
        }
    }

    /// Takes the oldest datagram, if one waits: copies as much of it as fits, and says how much
    /// that is and where it came from. The rest of it is lost.
    pub fn try_pop(&mut self, buf: &mut [u8]) -> (received: Option<(usize, SocketAddr)>)
        ensures
            final(self).buffer_pool == old(self).buffer_pool,
            final(self).socket_id == old(self).socket_id,
            final(self).recv.capacity() == old(self).recv.capacity(),
            match received {
                Some((count, source)) => {
                    let queued = old(self).recv.queued();
                    &&& queued.len() > 0
                    &&& final(self).recv.queued() == queued.skip(1)
                    &&& source == queued[0].0
                    &&& count == copied_len(old(buf)@, queued[0].1)
                    &&& final(buf)@ == copied(old(buf)@, queued[0].1)
                },
                None => {
                    &&& old(self).recv.queued().len() == 0
                    &&& final(self).recv.queued() == old(self).recv.queued()
                    &&& final(buf)@ == old(buf)@
                },
            },
    {
        match self.recv.try_pop() {
            Some(UdpRecvMessage::Packet { source, payload }) => {
                let count: usize = copy_payload(as_slice(&payload), buf);
                Some((count, source))
            },
            None => None,
        }
    }

    /// As [`UdpSocketContext::try_pop`], but the datagram stays where it is.
    pub fn try_peek(&self, buf: &mut [u8]) -> (received: Option<(usize, SocketAddr)>)
        ensures
            match received {
                Some((count, source)) => {
                    let queued = self.recv.queued();
                    &&& queued.len() > 0
                    &&& source == queued[0].0
                    &&& count == copied_len(old(buf)@, queued[0].1)
                    &&& final(buf)@ == copied(old(buf)@, queued[0].1)
                },
                None => self.recv.queued().len() == 0 && final(buf)@ == old(buf)@,
            },
    {
        match self.recv.try_peek() {
            Some(UdpRecvMessage::Packet { source, payload }) => {
                let count: usize = copy_payload(as_slice(payload), buf);
                Some((count, *source))
            },
            None => None,
        }
    }

    /// By which bit the interface learns that the socket told it something: the word of the bit,
    /// and the word with this bit set.
    pub fn ready_bit(&self) -> (position: (usize, u64))
        ensures
            position.0 == self.socket_id as int / 64,
            forall|bit: int| #[trigger]
                bit_set(position.1, bit) == (bit == self.socket_id as int % 64),
    {
        bit_position(self.socket_id)
    }

    /// Copies a payload into a buffer of the pool. `returned` holds the buffers that were given
    /// back.
    pub fn send_inner(&mut self, buf: &[u8], returned: &mut Vec<PooledBuffer>) -> (result: Result<
        WriteTrackingBuffer,
        Error,
    >)
        requires
            old(self).buffer_pool.wf(),
            sized(old(returned)@, old(self).buffer_pool.buffer_size),
        ensures
            final(self).recv == old(self).recv,
            final(self).socket_id == old(self).socket_id,
            final(self).buffer_pool.wf(),
            final(self).buffer_pool.buffer_size == old(self).buffer_pool.buffer_size,
            sized(final(returned)@, old(self).buffer_pool.buffer_size),
            ({
                let available = old(self).buffer_pool.available(old(returned)@);
                match result {
                    Ok(buffer) => {
                        &&& buf@.len() <= old(self).buffer_pool.buffer_size
                        &&& available.len() > 0
                        &&& buffer.written == buf@.len()
                        &&& buffer.buffer@ == copied(available[0], buf@)
                        &&& buffer.written_part() == buf@
                        &&& final(self).buffer_pool.free() == available.skip(1)
                    },
                    Err(error) => if buf@.len() > old(self).buffer_pool.buffer_size {
                        error@ == (ErrorKind::InvalidInput, "buffer too large"@)
                            && final(self).buffer_pool == old(self).buffer_pool
                    } else {
                        available.len() == 0 && final(self).buffer_pool.free().len() == 0 && error@ == (
                            ErrorKind::OutOfMemory,
                            "buffer pool exhausted"@,
                        )
                    },
                }
            }),
    {
        if buf.len() > self.buffer_pool.buffer_size() {
            return Err(Error::new(ErrorKind::InvalidInput, "buffer too large"));
        }
        match self.buffer_pool.acquire(returned) {
            None => Err(Error::new(ErrorKind::OutOfMemory, "buffer pool exhausted")),
            Some(pooled) => {
                let mut buffer = WriteTrackingBuffer::from_pooled(pooled);
                let written: usize = copy_payload(buf, buffer.rest_mut());
                buffer.advance(written);
                assert(buffer.written_part() =~= buf@);
                Ok(buffer)
            },
        }
    }
}

} // verus!
