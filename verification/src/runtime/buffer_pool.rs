//! Buffers that are used again and again.

use std::collections::VecDeque;
use vstd::prelude::*;
use vstd::slice::slice_subrange;

verus! {

/// A buffer out of a pool.
#[derive(Debug)]
pub struct PooledBuffer {
    pub bytes: Vec<u8>,
}

impl View for PooledBuffer {
    type V = Seq<u8>;

    open spec fn view(&self) -> Seq<u8> {
        self.bytes@
    }
}

impl PooledBuffer {
    /// The bytes of the buffer.
    pub fn as_slice(&self) -> (slice: &[u8])
        ensures
            slice@ == self@,
    {
        self.bytes.as_slice()
    }

    /// The bytes of the buffer, to be changed.
    pub fn as_slice_mut(&mut self) -> (slice: &mut [u8])
        ensures
            slice@ == old(self)@,
            final(self)@ == final(slice)@,
    {
        self.bytes.as_mut_slice()
    }
}

/// The contents of buffers.
pub open spec fn contents(buffers: Seq<PooledBuffer>) -> Seq<Seq<u8>> {
    Seq::new(buffers.len(), |i: int| buffers[i]@)
}

/// Whether all buffers have a size.
pub open spec fn sized(buffers: Seq<PooledBuffer>, size: usize) -> bool {
    forall|i: int| 0 <= i < buffers.len() ==> (#[trigger] buffers[i])@.len() == size
}

/// A queue of buffers that are not in use.
#[derive(Debug)]
pub struct BufferPool {
    pub buffer_size: usize,
    /// How many buffers the pool has made.
    pub capacity: usize,
    pub queue: VecDeque<PooledBuffer>,
}

/// A buffer of zeros.
pub open spec fn zeroed(size: nat) -> Seq<u8> {
    Seq::new(size, |i: int| 0u8)
}

impl BufferPool {
    /// The contents of the buffers that are not in use.
    pub open spec fn free(self) -> Seq<Seq<u8>> {
        contents(self.queue@)
    }

    /// All buffers that are not in use have the size of the pool.
    pub open spec fn wf(self) -> bool {
        sized(self.queue@, self.buffer_size)
    }

    /// The contents of the buffers that can be taken: those that wait or, only where none waits,
    /// those that were given back.
    pub open spec fn available(self, returned: Seq<PooledBuffer>) -> Seq<Seq<u8>> {
        if self.free().len() > 0 {
            self.free()
        } else {
            contents(returned)
        }
    }

    fn new_buffer(size: usize) -> (buffer: PooledBuffer)
        ensures
            buffer@ == zeroed(size as nat),
    {
        let bytes: Vec<u8> = vec![0u8; size];
        assert(bytes@ =~= zeroed(size as nat));
        PooledBuffer { bytes }
    }

    /// Adds new buffers to the queue.
    fn fill(&mut self, count: usize)
        ensures
            final(self).buffer_size == old(self).buffer_size,
            final(self).capacity == old(self).capacity,
            old(self).wf() ==> final(self).wf(),
            final(self).free() == old(self).free() + Seq::new(
                count as nat,
                |i: int| zeroed(old(self).buffer_size as nat),
            ),
    {
        let mut i: usize = 0;
        let ghost size = self.buffer_size as nat;
        assert(self.free() =~= old(self).free() + Seq::new(0, |j: int| zeroed(size)));
        while i < count
            invariant
                i <= count,
                size == self.buffer_size,
                self.buffer_size == old(self).buffer_size,
                self.capacity == old(self).capacity,
                old(self).wf() ==> self.wf(),
                self.free() == old(self).free() + Seq::new(i as nat, |j: int| zeroed(size)),
            decreases count - i,
        {
            let ghost before = self.free();
            self.queue.push_back(Self::new_buffer(self.buffer_size));
            assert(self.free() =~= before.push(zeroed(size)));
            i = i + 1;
            assert(self.free() =~= old(self).free() + Seq::new(i as nat, |j: int| zeroed(size)));
        }
    }

    /// A pool of `capacity` buffers of `size` bytes.
    pub fn new(size: usize, capacity: usize) -> (pool: Self)
        ensures
            pool.wf(),
            pool.buffer_size == size,
            pool.capacity == capacity,
            pool.free() == Seq::new(capacity as nat, |i: int| zeroed(size as nat)),
    {
        let mut pool = BufferPool { buffer_size: size, capacity, queue: VecDeque::new() };
        pool.fill(capacity);
        assert(pool.free() =~= Seq::new(capacity as nat, |i: int| zeroed(size as nat)));
        pool
    }

    /// Takes the buffer that has waited longest. Only where none waits, the buffers that were
    /// given back are queued first.
    pub fn acquire(&mut self, returned: &mut Vec<PooledBuffer>) -> (buffer: Option<PooledBuffer>)
        ensures
            final(self).buffer_size == old(self).buffer_size,
            final(self).capacity == old(self).capacity,
            old(self).wf() && sized(old(returned)@, old(self).buffer_size) ==> final(self).wf()
                && sized(final(returned)@, old(self).buffer_size),
            final(returned)@ == (if old(self).free().len() == 0 {
                Seq::<PooledBuffer>::empty()
            } else {
                old(returned)@
            }),
            ({
                let available = old(self).available(old(returned)@);
                match buffer {
                    Some(buffer) => available.len() > 0 && buffer@ == available[0] && final(self).free() == available.skip(1),
                    None => available.len() == 0 && final(self).free().len() == 0,
                }
            }),
    {
        if let Some(buffer) = self.queue.pop_front() {
            assert(self.free() =~= old(self).free().skip(1));
            return Some(buffer);
        }
        let ghost given = returned@;
        // The last one first, and each to the front.
        while returned.len() > 0
            invariant
                self.buffer_size == old(self).buffer_size,
                self.capacity == old(self).capacity,
                returned@ + self.queue@ == given,
            decreases returned@.len(),
        {
            let ghost before = self.queue@;
            if let Some(buffer) = returned.pop() {
                self.queue.push_front(buffer);
                assert(self.queue@ =~= seq![buffer] + before);
                assert(returned@ + self.queue@ =~= given);
            }
        }
        assert(self.queue@ =~= given);
        let buffer = self.queue.pop_front();
        assert(given.len() > 0 ==> self.free() =~= contents(given).skip(1));
        buffer
    }

    /// Makes more buffers.
    pub fn expand(&mut self, additional_capacity: usize)
        requires
            old(self).capacity + additional_capacity <= usize::MAX,
        ensures
            final(self).buffer_size == old(self).buffer_size,
            old(self).wf() ==> final(self).wf(),
            final(self).capacity == old(self).capacity + additional_capacity,
            final(self).free() == old(self).free() + Seq::new(
                additional_capacity as nat,
                |i: int| zeroed(old(self).buffer_size as nat),
            ),
    {
        self.capacity = self.capacity + additional_capacity;
        self.fill(additional_capacity);
    }

    /// Takes the buffer that has waited longest. Where there is none, more are made first.
    pub fn acquire_or_expand(
        &mut self,
        returned: &mut Vec<PooledBuffer>,
        additional_capacity: usize,
    ) -> (buffer: PooledBuffer)
        requires
            0 < additional_capacity,
            old(self).capacity + additional_capacity <= usize::MAX,
        ensures
            final(self).buffer_size == old(self).buffer_size,
            old(self).wf() && sized(old(returned)@, old(self).buffer_size) ==> final(self).wf()
                && sized(final(returned)@, old(self).buffer_size),
            final(returned)@ == (if old(self).free().len() == 0 {
                Seq::<PooledBuffer>::empty()
            } else {
                old(returned)@
            }),
            ({
                let waiting = old(self).available(old(returned)@);
                let made = Seq::new(
                    additional_capacity as nat,
                    |i: int| zeroed(old(self).buffer_size as nat),
                );
                let (all, capacity) = if waiting.len() > 0 {
                    (waiting, old(self).capacity as int)
                } else {
                    (made, old(self).capacity + additional_capacity)
                };
                &&& buffer@ == all[0]
                &&& final(self).free() == all.skip(1)
                &&& final(self).capacity == capacity
            }),
    {
        match self.acquire(returned) {
            Some(buffer) => buffer,
            None => {
                let ghost before = self.free();
                self.expand(additional_capacity);
                let ghost made = self.free();
                assert(before + made =~= made);
                assert(made =~= Seq::new(
                    additional_capacity as nat,
                    |i: int| zeroed(old(self).buffer_size as nat),
                ));
                let mut none: Vec<PooledBuffer> = Vec::new();
                match self.acquire(&mut none) {
                    Some(buffer) => buffer,
                    None => {
                        assert(false);
                        PooledBuffer { bytes: Vec::new() }
                    },
                }
            },
        }
    }

    /// The size of the buffers.
    pub fn buffer_size(&self) -> (size: usize)
        ensures
            size == self.buffer_size,
    {
        self.buffer_size
    }
}

/// A buffer that is written from its start on.
#[derive(Debug)]
pub struct WriteTrackingBuffer {
    pub buffer: PooledBuffer,
    pub written: usize,
}

impl WriteTrackingBuffer {
    /// What was written.
    pub open spec fn written_part(self) -> Seq<u8> {
        self.buffer@.take(self.written as int)
    }

    /// What is left to be written.
    pub open spec fn rest(self) -> Seq<u8> {
        self.buffer@.skip(self.written as int)
    }

    /// A buffer in which nothing was written.
    pub fn from_pooled(buffer: PooledBuffer) -> (result: Self)
        ensures
            result.buffer == buffer,
            result.written == 0,
    {
        WriteTrackingBuffer { buffer, written: 0 }
    }

    /// What is left to be written, to be changed. What was written is not given out again.
    pub fn rest_mut(&mut self) -> (rest: &mut [u8])
        requires
            old(self).written <= old(self).buffer@.len(),
        ensures
            rest@ == old(self).rest(),
            final(self).written == old(self).written,
            final(self).buffer@ == old(self).written_part() + final(rest)@,
    {
        let written: usize = self.written;
        let bytes = self.buffer.as_slice_mut();
        let (_, rest) = bytes.split_at_mut(written);
        rest
    }

    /// Records that more was written.
    pub fn advance(&mut self, written: usize)
        requires
            old(self).written + written <= usize::MAX,
        ensures
            final(self).written == old(self).written + written,
            final(self).buffer == old(self).buffer,
    {
        self.written = self.written + written;
    }

    /// What was written.
    pub fn as_ref(&self) -> (slice: &[u8])
        requires
            self.written <= self.buffer@.len(),
        ensures
            slice@ == self.written_part(),
    {
        let slice = slice_subrange(self.buffer.as_slice(), 0, self.written);
        assert(slice@ =~= self.written_part());
        slice
    }
}

/// What was written stays: after more was written to the start of what was left, and this was
/// recorded, what was written is what was there before with the new bytes behind it, and these are
/// not given out for writing again.
pub proof fn written_stays(
    before: WriteTrackingBuffer,
    data: Seq<u8>,
    changed: WriteTrackingBuffer,
    after: WriteTrackingBuffer,
)
    requires
        before.written + data.len() <= before.buffer@.len(),
        changed.written == before.written,
        changed.buffer@ == before.written_part() + (data + before.rest().skip(data.len() as int)),
        after.written == changed.written + data.len(),
        after.buffer == changed.buffer,
    ensures
        after.buffer@.len() == before.buffer@.len(),
        after.written_part() == before.written_part() + data,
        after.rest() == before.rest().skip(data.len() as int),
        after.rest().len() == before.buffer@.len() - before.written - data.len(),
{
    assert(after.written_part() =~= before.written_part() + data);
    assert(after.rest() =~= before.rest().skip(data.len() as int));
}

} // verus!
