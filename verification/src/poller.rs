//! Waiting for sockets to become ready: which of them are, in which order they are handed out, and
//! which slot a new one gets.

use crate::bits::{bit_set, clear_bit, lowest_bit, zero_has_no_bits};
use crate::time::{Duration, Instant};
use vstd::prelude::*;

verus! {

/// What a registration is told by: the number of its slot.
#[derive(Debug, PartialEq, Eq, Clone, Copy, Hash, Structural)]
pub struct Token {
    pub id: usize,
}

/// A wait that ended without anything becoming ready.
#[derive(Debug, PartialEq, Eq, Clone, Copy, Structural)]
pub enum PollerTimeoutError {
    Timeout,
}

/// For what a socket is ready.
#[derive(Debug, PartialEq, Eq, Clone, Copy, Structural)]
pub enum ReadyState {
    Read,
    Write,
    Both,
}

impl ReadyState {
    /// Whether there is something to read.
    pub fn has_read(&self) -> (result: bool)
        ensures
            result == (*self == ReadyState::Read || *self == ReadyState::Both),
    {
        matches!(*self, ReadyState::Read) || matches!(*self, ReadyState::Both)
    }

    /// Whether there is room to write.
    pub fn has_write(&self) -> (result: bool)
        ensures
            result == (*self == ReadyState::Write || *self == ReadyState::Both),
    {
        matches!(*self, ReadyState::Write) || matches!(*self, ReadyState::Both)
    }
}

/// Which of 64 slots were ready when the bits were taken.
#[derive(Debug, PartialEq, Eq, Clone, Copy, Structural)]
pub struct ReadyBitFrozen {
    pub read: u64,
    pub write: u64,
}

/// Whether a slot is ready to be read.
pub open spec fn read_ready(chunks: Seq<ReadyBitFrozen>, slot: int) -> bool {
    0 <= slot < chunks.len() * 64 && bit_set(chunks[slot / 64].read, slot % 64)
}

/// Whether a slot is ready to be written.
pub open spec fn write_ready(chunks: Seq<ReadyBitFrozen>, slot: int) -> bool {
    0 <= slot < chunks.len() * 64 && bit_set(chunks[slot / 64].write, slot % 64)
}

/// Whether a slot is ready.
pub open spec fn slot_ready(chunks: Seq<ReadyBitFrozen>, slot: int) -> bool {
    read_ready(chunks, slot) || write_ready(chunks, slot)
}

/// For what a slot is ready.
pub open spec fn slot_state(chunks: Seq<ReadyBitFrozen>, slot: int) -> ReadyState {
    if !write_ready(chunks, slot) {
        ReadyState::Read
    } else if !read_ready(chunks, slot) {
        ReadyState::Write
    } else {
        ReadyState::Both
    }
}

/// A walk over the slots that are ready, in ascending order.
#[derive(Debug)]
pub struct ReadyTokensByBits {
    /// The number of slots.
    pub slots: usize,
    pub ready_bits: Vec<ReadyBitFrozen>,
    pub current_chunk: usize,
}

impl ReadyTokensByBits {
    /// The chunks before the current one are done.
    pub open spec fn wf(self) -> bool {
        &&& self.ready_bits@.len() * 64 <= usize::MAX
        &&& self.current_chunk <= self.ready_bits@.len()
        &&& forall|chunk: int|
            0 <= chunk < self.current_chunk ==> (#[trigger] self.ready_bits@[chunk]).read == 0
                && self.ready_bits@[chunk].write == 0
    }

    /// Starts a walk.
    pub fn new(slots: usize, ready_bits: Vec<ReadyBitFrozen>) -> (walk: Self)
        requires
            ready_bits@.len() * 64 <= usize::MAX,
            ready_bits@.len() <= slots * 64,
        ensures
            walk.wf(),
            walk.slots == slots,
            walk.ready_bits == ready_bits,
    {
        ReadyTokensByBits { slots, ready_bits, current_chunk: 0 }
    }

    /// The next slot that is ready and that `alive` knows to be in use, and for what it is ready.
    pub fn next<F: Fn(usize) -> bool>(&mut self, alive: F) -> (next: Option<(Token, ReadyState)>)
        requires
            old(self).wf(),
            forall|slot: usize| alive.requires((slot,)),
        ensures
            final(self).wf(),
            final(self).slots == old(self).slots,
            match next {
                Some((token, state)) => {
                    &&& token.id < old(self).slots
                    &&& slot_ready(old(self).ready_bits@, token.id as int)
                    &&& state == slot_state(old(self).ready_bits@, token.id as int)
                    &&& alive.ensures((token.id,), true)
                    &&& forall|slot: usize|
                        slot < token.id && #[trigger] slot_ready(
                            old(self).ready_bits@,
                            slot as int,
                        ) ==> alive.ensures((slot,), false)
                    &&& forall|slot: int|
                        slot > token.id ==> #[trigger] slot_state(final(self).ready_bits@, slot)
                            == slot_state(old(self).ready_bits@, slot)
                    &&& forall|slot: int| #[trigger]
                        slot_ready(final(self).ready_bits@, slot) == (slot_ready(
                            old(self).ready_bits@,
                            slot,
                        ) && slot > token.id)
                },
                None => {
                    &&& forall|slot: usize|
                        slot < old(self).slots && #[trigger] slot_ready(
                            old(self).ready_bits@,
                            slot as int,
                        ) ==> alive.ensures((slot,), false)
                    &&& forall|slot: int|
                        slot < old(self).slots ==> !#[trigger] slot_ready(
                            final(self).ready_bits@,
                            slot,
                        )
                },
            },
    {
        let ghost before = self.ready_bits@;
        let ghost mut done: int = 0;
        while self.current_chunk < self.ready_bits.len()
            invariant
                self.wf(),
                self.slots == old(self).slots,
                before == old(self).ready_bits@,
                self.ready_bits@.len() == before.len(),
                forall|slot: usize| alive.requires((slot,)),
                forall|slot: int|
                    #![trigger read_ready(self.ready_bits@, slot)]
                    #![trigger read_ready(before, slot)]
                    read_ready(self.ready_bits@, slot) == (read_ready(before, slot) && slot >= done),
                forall|slot: int|
                    #![trigger write_ready(self.ready_bits@, slot)]
                    #![trigger write_ready(before, slot)]
                    write_ready(self.ready_bits@, slot) == (write_ready(before, slot) && slot
                        >= done),
                forall|slot: usize|
                    slot < done && #[trigger] slot_ready(before, slot as int) ==> alive.ensures(
                        (slot,),
                        false,
                    ),
            decreases
                    self.ready_bits@.len() - self.current_chunk,
                    self.ready_bits@[self.current_chunk as int].read
                        + self.ready_bits@[self.current_chunk as int].write,
        {
            let ghost words = self.ready_bits@;
            let ghost was_done = done;
            let chunk = self.ready_bits[self.current_chunk];
            if chunk.read == 0 && chunk.write == 0 {
                self.current_chunk = self.current_chunk + 1;
                continue;
            }
            let next_read: usize = if chunk.read == 0 {
                64
            } else {
                lowest_bit(chunk.read)
            };
            let next_write: usize = if chunk.write == 0 {
                64
            } else {
                lowest_bit(chunk.write)
            };
            proof {
                zero_has_no_bits(chunk.read);
                zero_has_no_bits(chunk.write);
            }
            // Whichever comes first is handled now, both where they come together.
            let (next, state) = if next_read < next_write {
                (next_read, ReadyState::Read)
            } else if next_read == next_write {
                (next_read, ReadyState::Both)
            } else {
                (next_write, ReadyState::Write)
            };
            let rest = ReadyBitFrozen {
                read: clear_bit(chunk.read, next),
                write: clear_bit(chunk.write, next),
            };
            let ghost current = self.current_chunk as int;
            self.ready_bits.set(self.current_chunk, rest);
            let index: usize = next + 64 * self.current_chunk;
            proof {
                done = index + 1;
                take_slot(words, current, next as int, chunk, rest);
                assert(self.ready_bits@ =~= words.update(current, rest));
                assert(read_ready(words, index as int) || write_ready(words, index as int));
                assert forall|slot: int|
                    #![trigger read_ready(self.ready_bits@, slot)]
                    #![trigger read_ready(before, slot)]
                    read_ready(self.ready_bits@, slot) == (read_ready(before, slot) && slot
                        >= done) by {
                    assert(read_ready(words, slot) == (read_ready(before, slot) && slot
                        >= was_done));
                    assert(read_ready(words.update(current, rest), slot) == (read_ready(words, slot)
                        && slot != index));
                }
                assert forall|slot: int|
                    #![trigger write_ready(self.ready_bits@, slot)]
                    #![trigger write_ready(before, slot)]
                    write_ready(self.ready_bits@, slot) == (write_ready(before, slot) && slot
                        >= done) by {
                    assert(write_ready(words, slot) == (write_ready(before, slot) && slot
                        >= was_done));
                    assert(write_ready(words.update(current, rest), slot) == (write_ready(
                        words,
                        slot,
                    ) && slot != index));
                }
                assert forall|slot: usize|
                    slot < index && #[trigger] slot_ready(before, slot as int) implies alive.ensures(
                    (slot,),
                    false,
                ) by {
                    assert(!read_ready(words, slot as int) && !write_ready(words, slot as int));
                }
            }
            if index >= self.slots {
                return None;
            }
            if alive(index) {
                return Some((Token { id: index }, state));
            }
        }
        proof {
            assert forall|slot: int| !slot_ready(self.ready_bits@, slot) by {
                if 0 <= slot < self.ready_bits@.len() * 64 {
                    zero_has_no_bits(self.ready_bits@[slot / 64].read);
                    zero_has_no_bits(self.ready_bits@[slot / 64].write);
                }
            }
            assert forall|slot: usize|
                slot < self.slots && #[trigger] slot_ready(before, slot as int) implies alive.ensures(
                (slot,),
                false,
            ) by {
                assert(!slot_ready(self.ready_bits@, slot as int));
            }
        }
        None
    }
}

/// What taking the first slot that is ready out of the chunks does.
proof fn take_slot(
    chunks: Seq<ReadyBitFrozen>,
    current: int,
    next: int,
    chunk: ReadyBitFrozen,
    rest: ReadyBitFrozen,
)
    requires
        0 <= current < chunks.len(),
        0 <= next < 64,
        chunk == chunks[current],
        forall|before: int|
            0 <= before < current ==> (#[trigger] chunks[before]).read == 0 && chunks[before].write
                == 0,
        forall|lower: int|
            0 <= lower < next ==> !bit_set(chunk.read, lower) && !bit_set(chunk.write, lower),
        forall|bit: int| #[trigger]
            bit_set(rest.read, bit) == (bit_set(chunk.read, bit) && bit != next),
        forall|bit: int| #[trigger]
            bit_set(rest.write, bit) == (bit_set(chunk.write, bit) && bit != next),
    ensures
        read_ready(chunks, next + 64 * current) == bit_set(chunk.read, next),
        write_ready(chunks, next + 64 * current) == bit_set(chunk.write, next),
        forall|slot: int|
            slot < next + 64 * current ==> !read_ready(chunks, slot) && !write_ready(chunks, slot),
        forall|slot: int| #[trigger]
            read_ready(chunks.update(current, rest), slot) == (read_ready(chunks, slot) && slot
                != next + 64 * current),
        forall|slot: int| #[trigger]
            write_ready(chunks.update(current, rest), slot) == (write_ready(chunks, slot) && slot
                != next + 64 * current),
{
    let index = next + 64 * current;
    assert(index / 64 == current && index % 64 == next);
    assert forall|slot: int| slot < index implies !read_ready(chunks, slot) && !write_ready(
        chunks,
        slot,
    ) by {
        if 0 <= slot {
            assert(slot / 64 <= current);
            zero_has_no_bits(chunks[slot / 64].read);
            zero_has_no_bits(chunks[slot / 64].write);
            if slot / 64 == current {
                assert(slot % 64 < next);
            }
        }
    }
    assert forall|slot: int| #[trigger]
        read_ready(chunks.update(current, rest), slot) == (read_ready(chunks, slot) && slot
            != index) by {
        if 0 <= slot < chunks.len() * 64 {
            assert(slot == 64 * (slot / 64) + slot % 64);
        }
    }
    assert forall|slot: int| #[trigger]
        write_ready(chunks.update(current, rest), slot) == (write_ready(chunks, slot) && slot
            != index) by {
        if 0 <= slot < chunks.len() * 64 {
            assert(slot == 64 * (slot / 64) + slot % 64);
        }
    }
}

/// What a wait does next.
#[derive(Debug, PartialEq, Eq, Clone, Copy, Structural)]
pub enum PollStep {
    /// Something is ready.
    Ready,
    /// Sleep until woken, no longer than the given span where there is one.
    Park(Option<Duration>),
    /// The time is up.
    Timeout(PollerTimeoutError),
}

/// Whether any slot is ready.
pub open spec fn any_slot_ready(chunks: Seq<ReadyBitFrozen>) -> bool {
    exists|chunk: int|
        0 <= chunk < chunks.len() && ((#[trigger] chunks[chunk]).read != 0 || chunks[chunk].write
            != 0)
}

/// The slots of a poller. They come in chunks of 64.
#[derive(Debug)]
pub struct Poller {
    pub chunks: usize,
}

/// Whether a slot is the first one that `alive` does not know to be in use.
pub open spec fn first_free<F: Fn(usize) -> bool>(alive: F, slots: int, index: int) -> bool {
    &&& 0 <= index <= slots
    &&& forall|slot: usize| slot < index ==> #[trigger] alive.ensures((slot,), true)
    &&& index < slots ==> alive.ensures((index as usize,), false)
}

impl Poller {
    /// A poller without slots.
    pub fn new() -> (poller: Self)
        ensures
            poller.chunks == 0,
    {
        Poller { chunks: 0 }
    }

    /// Whether any slot is ready.
    pub fn any_ready(ready_bits: &Vec<ReadyBitFrozen>) -> (result: bool)
        ensures
            result == any_slot_ready(ready_bits@),
    {
        let mut i: usize = 0;
        while i < ready_bits.len()
            invariant
                i <= ready_bits@.len(),
                forall|chunk: int|
                    0 <= chunk < i ==> (#[trigger] ready_bits@[chunk]).read == 0
                        && ready_bits@[chunk].write == 0,
            decreases ready_bits@.len() - i,
        {
            let chunk = ready_bits[i];
            if chunk.read != 0 || chunk.write != 0 {
                assert(ready_bits@[i as int].read != 0 || ready_bits@[i as int].write != 0);
                return true;
            }
            i = i + 1;
        }
        false
    }

    /// What a wait without a deadline does next.
    pub fn poll_step(ready_bits: &Vec<ReadyBitFrozen>) -> (step: PollStep)
        ensures
            step == (if any_slot_ready(ready_bits@) {
                PollStep::Ready
            } else {
                PollStep::Park(None)
            }),
    {
        if Poller::any_ready(ready_bits) {
            PollStep::Ready
        } else {
            PollStep::Park(None)
        }
    }

    /// What a wait with a deadline does next. At the deadline it ends, whatever is ready.
    pub fn poll_timeout_step(
        ready_bits: &Vec<ReadyBitFrozen>,
        deadline: Instant,
        now: Instant,
    ) -> (step: PollStep)
        ensures
            step == (if deadline.nanos <= now.nanos {
                PollStep::Timeout(PollerTimeoutError::Timeout)
            } else if any_slot_ready(ready_bits@) {
                PollStep::Ready
            } else {
                PollStep::Park(Some(Duration { nanos: (deadline.nanos - now.nanos) as u128 }))
            }),
    {
        if deadline.nanos <= now.nanos {
            return PollStep::Timeout(PollerTimeoutError::Timeout);
        }
        if Poller::any_ready(ready_bits) {
            PollStep::Ready
        } else {
            PollStep::Park(Some(deadline.duration_since(now)))
        }
    }

    /// Finds a slot for a new registration: the first one that is not in use, and a new chunk of
    /// slots where all are. Gives the chunk of the slot, its bit in the chunk, and its token.
    pub fn get_free_token<F: Fn(usize) -> bool>(&mut self, alive: F) -> (slot: (usize, u8, Token))
        requires
            (old(self).chunks + 1) * 64 <= usize::MAX,
            forall|slot: usize| alive.requires((slot,)),
        ensures
            ({
                let (chunk, bit, token) = slot;
                &&& first_free(alive, old(self).chunks * 64, token.id as int)
                &&& token.id == chunk * 64 + bit
                &&& bit < 64
                &&& final(self).chunks == (if chunk < old(self).chunks {
                    old(self).chunks as int
                } else {
                    chunk + 1
                })
            }),
    {
        let slots: usize = self.chunks * 64;
        let mut index: usize = 0;
        let mut free: bool = false;
        while index < slots && !free
            invariant
                index <= slots,
                slots == self.chunks * 64,
                self.chunks == old(self).chunks,
                forall|slot: usize| alive.requires((slot,)),
                forall|slot: usize| slot < index ==> #[trigger] alive.ensures((slot,), true),
                free ==> index < slots && alive.ensures((index,), false),
            decreases slots - index + (if free {
                0int
            } else {
                1
            }),
        {
            if alive(index) {
                index = index + 1;
            } else {
                free = true;
            }
        }
        let chunk: usize = index / 64;
        let bit: u8 = (index % 64) as u8;
        if self.chunks <= chunk {
            self.chunks = chunk + 1;
        }
        (chunk, bit, Token { id: index })
    }
}

} // verus!
