//! Walking over the items whose bit is set.

use crate::bits::{clear_bit, lowest_bit, row_bit_set, row_clear_bit, row_lowest_bit, row_of_zeros};
use std::sync::atomic::{AtomicU64, Ordering};
use vstd::prelude::*;

verus! {

/// A walk over the items that are ready, in ascending order. Each bit of `ready_bits` stands for
/// the item at its position. A bit without an item is passed over.
pub struct ReadyByBits<'a, T, const CHUNK_SIZE: usize> {
    pub items: &'a mut [Option<T>],
    pub ready_bits: [u64; CHUNK_SIZE],
    pub current_chunk: usize,
}

impl<'a, T, const CHUNK_SIZE: usize> ReadyByBits<'a, T, CHUNK_SIZE> {
    /// There is one item for each bit, and the chunks before the current one are done.
    pub open spec fn wf(self) -> bool {
        &&& self.items@.len() == CHUNK_SIZE * 64
        &&& self.current_chunk <= CHUNK_SIZE
        &&& forall|chunk: int|
            0 <= chunk < self.current_chunk ==> #[trigger] self.ready_bits@[chunk] == 0
    }

    /// Whether the item at a position is still to be visited.
    pub open spec fn pending(self, index: int) -> bool {
        row_bit_set(self.ready_bits@, index)
    }

    /// Whether the item at a position is the next one to visit.
    pub open spec fn is_next(self, index: int) -> bool {
        &&& self.pending(index)
        &&& self.items@[index] is Some
        &&& forall|lower: int|
            0 <= lower < index && #[trigger] self.pending(lower) ==> self.items@[lower] is None
    }

    /// Starts a walk.
    pub fn new(items: &'a mut [Option<T>], ready_bits: [u64; CHUNK_SIZE]) -> (walk: Self)
        requires
            old(items)@.len() == CHUNK_SIZE * 64,
        ensures
            walk.wf(),
            walk.items@ == old(items)@,
            walk.ready_bits == ready_bits,
            final(items)@ == final(walk.items)@,
    {
        ReadyByBits { items, ready_bits, current_chunk: 0 }
    }

    /// The next item that is ready.
    pub fn next(&mut self) -> (item: Option<&mut T>)
        requires
            old(self).wf(),
        ensures
            final(self).wf(),
            final(final(self).items)@ == final(old(self).items)@,
            match item {
                Some(item) => exists|index: int| #[trigger]
                    old(self).is_next(index) && Some(*item) == old(self).items@[index]
                        && final(self).items@ == old(self).items@.update(
                        index,
                        Some(*final(item)),
                    ) && forall|i: int|
                        final(self).pending(i) == (#[trigger] old(self).pending(i) && i > index),
                None => {
                    &&& forall|i: int| #[trigger]
                        old(self).pending(i) ==> old(self).items@[i] is None
                    &&& final(self).items@ == old(self).items@
                    &&& forall|i: int| !final(self).pending(i)
                },
            },
    {
        let ghost mut done: int = 0;
        let mut index: usize = 0;
        let mut found: bool = false;
        while !found && self.current_chunk < CHUNK_SIZE
            invariant
                self.wf(),
                self.items@ == old(self).items@,
                final(self.items)@ == final(old(self).items)@,
                forall|i: int|
                    #![trigger row_bit_set(self.ready_bits@, i)]
                    #![trigger old(self).pending(i)]
                    row_bit_set(self.ready_bits@, i) == (old(self).pending(i) && i >= done),
                !found ==> forall|i: int| #[trigger]
                    old(self).pending(i) && i < done ==> old(self).items@[i] is None,
                found ==> old(self).is_next(index as int) && done == index + 1,
            decreases CHUNK_SIZE - self.current_chunk, self.ready_bits@[self.current_chunk as int],
        {
            let ghost words = self.ready_bits@;
            let ghost before = done;
            let total: usize = self.items.len();
            assert(64 * self.current_chunk < total);
            let chunk_ready_bits: u64 = self.ready_bits[self.current_chunk];
            if chunk_ready_bits == 0 {
                self.current_chunk = self.current_chunk + 1;
                continue;
            }
            let next_ready: usize = lowest_bit(chunk_ready_bits);
            // This one is being handled now.
            let rest: u64 = clear_bit(chunk_ready_bits, next_ready);
            self.ready_bits[self.current_chunk] = rest;
            assert(self.ready_bits@ =~= words.update(self.current_chunk as int, rest));
            proof {
                row_lowest_bit(words, self.current_chunk as int, next_ready as int);
                row_clear_bit(words, self.current_chunk as int, next_ready as int, rest);
                done = 64 * self.current_chunk + next_ready + 1;
                assert(row_bit_set(words, done - 1));
                assert forall|i: int|
                    #![trigger row_bit_set(self.ready_bits@, i)]
                    #![trigger old(self).pending(i)]
                    row_bit_set(self.ready_bits@, i) == (old(self).pending(i) && i >= done) by {
                    assert(row_bit_set(words, i) == (old(self).pending(i) && i >= before));
                    assert(row_bit_set(words.update(self.current_chunk as int, rest), i) == (
                    row_bit_set(words, i) && i != done - 1));
                }
            }
            index = next_ready + 64 * self.current_chunk;
            // Without an item there is nothing to visit.
            if self.items[index].is_some() {
                found = true;
            }
        }
        proof {
            if !found {
                row_of_zeros(self.ready_bits@);
            }
        }
        if found {
            self.items[index].as_mut()
        } else {
            None
        }
    }
}

/// Items over which one can walk by the bits that others set.
pub trait IterReadyByBits<T> {
    /// The items.
    spec fn item_view(&self) -> Seq<Option<T>>;

    /// Takes the bits that are set, clears them, and starts a walk over their items. Which bits
    /// those are, other threads decide.
    fn iter_by_ready_bits<'a, const CHUNK_SIZE: usize>(
        &'a mut self,
        ready_bits: &[AtomicU64; CHUNK_SIZE],
    ) -> (walk: ReadyByBits<'a, T, CHUNK_SIZE>)
        requires
            old(self).item_view().len() == CHUNK_SIZE * 64,
        ensures
            walk.wf(),
            walk.items@ == old(self).item_view(),
            forall|i: int|
                0 <= i < CHUNK_SIZE ==> swapped_out(
                    &ready_bits@[i],
                    #[trigger] walk.ready_bits@[i],
                ),
            final(self).item_view() == final(walk.items)@,
    ;
}

impl<T> IterReadyByBits<T> for [Option<T>] {
    open spec fn item_view(&self) -> Seq<Option<T>> {
        self@
    }

    fn iter_by_ready_bits<'a, const CHUNK_SIZE: usize>(
        &'a mut self,
        ready_bits: &[AtomicU64; CHUNK_SIZE],
    ) -> (walk: ReadyByBits<'a, T, CHUNK_SIZE>) {
        ReadyByBits::new(self, capture_and_reset_ready_atomic(ready_bits))
    }
}

/// Whether a value is one that a word can have held when zero was swapped in for it.
pub open spec fn swapped_out(word: &AtomicU64, value: u64) -> bool {
    call_ensures(AtomicU64::swap, (word, 0u64, Ordering::Acquire), value)
}

/// Takes the bits that are set and clears them: each word is what came out when zero was swapped in
/// for the word at its place. Which bits those are, other threads decide.
pub fn capture_and_reset_ready_atomic<const SIZE: usize>(ready_bits: &[AtomicU64; SIZE]) -> (result:
    [u64; SIZE])
    ensures
        result@.len() == SIZE,
        forall|i: int|
            0 <= i < SIZE ==> swapped_out(&ready_bits@[i], #[trigger] result@[i]),
{
    let mut result: [u64; SIZE] = [0u64;SIZE];
    let mut i: usize = 0;
    while i < SIZE
        invariant
            i <= SIZE,
            forall|j: int| 0 <= j < i ==> swapped_out(&ready_bits@[j], #[trigger] result@[j]),
        decreases SIZE - i,
    {
        result[i] = ready_bits[i].swap(0, Ordering::Acquire);
        i = i + 1;
    }
    result
}

/// A walk goes up and visits nothing twice: with the bits as they are left after a visit, an item
/// that is still to be visited comes behind the one that was visited, and was to be visited before.
pub proof fn walk_ascends(before: Seq<u64>, after: Seq<u64>, visited: int, later: int)
    requires
        forall|i: int|
            #![trigger row_bit_set(before, i)]
            row_bit_set(after, i) == (row_bit_set(before, i) && i > visited),
        row_bit_set(after, later),
    ensures
        later > visited,
        row_bit_set(before, later),
        !row_bit_set(after, visited),
{
    let later_set = row_bit_set(before, later);
    let visited_set = row_bit_set(before, visited);
    assert(row_bit_set(after, later) == (later_set && later > visited));
    assert(row_bit_set(after, visited) == (visited_set && visited > visited));
}

} // verus!
