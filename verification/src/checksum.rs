//! The internet checksum: the complement of the ones' complement sum of 16-bit words.

use internet_checksum::Checksum;
use vstd::prelude::*;
use vstd::slice::slice_subrange;

verus! {

/// `internet_checksum::Checksum`: a checksum that takes its input piece by piece.
#[verifier::external_type_specification]
#[verifier::external_body]
pub struct ExChecksum(internet_checksum::Checksum);

/// The bytes that a `Checksum` was given so far, in order.
pub uninterp spec fn checksummed(checksum: Checksum) -> Seq<u8>;

/// The most bytes that are checksummed at once: their sum stays far below the 64 bits that the
/// accumulator has on every machine.
pub const MAX_CHECKSUMMED: u64 = 0xffff_ffff_ffff;

/// The sum of the big-endian 16-bit words of `bytes`. A byte left over at the end counts as the
/// high byte of a word.
pub open spec fn word_sum(bytes: Seq<u8>) -> nat
    decreases bytes.len(),
{
    if bytes.len() == 0 {
        0
    } else if bytes.len() == 1 {
        bytes[0] as nat * 256
    } else {
        bytes[0] as nat * 256 + bytes[1] as nat + word_sum(bytes.skip(2))
    }
}

/// A sum in ones' complement arithmetic on 16 bits: congruent to `sum` modulo 65535, and zero
/// only where `sum` is.
pub open spec fn ones_complement(sum: nat) -> nat {
    if sum == 0 {
        0
    } else {
        (sum - 1) as nat % 0xffff + 1
    }
}

/// The internet checksum of `bytes`.
pub open spec fn checksum_of(bytes: Seq<u8>) -> u16 {
    (0xffff - ones_complement(word_sum(bytes))) as u16
}

/// `Checksum::new`: no bytes given yet.
#[verifier::external_body]
fn new_checksum() -> (checksum: Checksum)
    ensures
        checksummed(checksum) == Seq::<u8>::empty(),
{
    Checksum::new()
}

/// `Checksum::add_bytes`: gives the checksum more bytes. A byte left over from an earlier piece
/// makes a word with the first byte of this one. A piece of fewer than 64 bytes is added word by
/// word; the summation of longer pieces can overflow on some inputs and is not used here.
#[verifier::external_body]
fn add_short_piece(checksum: &mut Checksum, bytes: &[u8])
    requires
        bytes@.len() < 64,
        checksummed(*old(checksum)).len() + bytes@.len() <= MAX_CHECKSUMMED,
    ensures
        checksummed(*final(checksum)) == checksummed(*old(checksum)) + bytes@,
{
    checksum.add_bytes(bytes);
}

/// `Checksum::checksum`: the internet checksum of the bytes given so far, high byte first.
#[verifier::external_body]
fn checksum_bytes(checksum: &Checksum) -> (bytes: [u8; 2])
    requires
        checksummed(*checksum).len() <= MAX_CHECKSUMMED,
    ensures
        bytes[0] * 256 + bytes[1] == checksum_of(checksummed(*checksum)),
{
    checksum.checksum()
}

/// A checksum under construction.
pub struct Summation {
    checksum: Checksum,
}

impl View for Summation {
    type V = Seq<u8>;

    closed spec fn view(&self) -> Seq<u8> {
        checksummed(self.checksum)
    }
}

impl Summation {
    /// A checksum of no bytes.
    pub fn new() -> (sum: Self)
        ensures
            sum@ == Seq::<u8>::empty(),
    {
        Summation { checksum: new_checksum() }
    }

    /// Gives the checksum more bytes.
    pub fn add_bytes(&mut self, bytes: &[u8])
        requires
            old(self)@.len() + bytes@.len() <= MAX_CHECKSUMMED,
        ensures
            final(self)@ == old(self)@ + bytes@,
    {
        let mut position: usize = 0;
        while position < bytes.len()
            invariant
                position <= bytes@.len(),
                old(self)@.len() + bytes@.len() <= MAX_CHECKSUMMED,
                self@ == old(self)@ + bytes@.take(position as int),
            decreases bytes@.len() - position,
        {
            let left: usize = bytes.len() - position;
            let step: usize = if left < 63 { left } else { 62 };
            let piece = slice_subrange(bytes, position, position + step);
            add_short_piece(&mut self.checksum, piece);
            assert(bytes@.take(position as int) + piece@ == bytes@.take(position + step));
            assert(self@ == old(self)@ + bytes@.take(position + step));
            position = position + step;
        }
        assert(bytes@.take(bytes@.len() as int) == bytes@);
    }

    /// The checksum of the bytes given so far.
    pub fn finish(&self) -> (value: u16)
        requires
            self@.len() <= MAX_CHECKSUMMED,
        ensures
            value == checksum_of(self@),
    {
        let bytes = checksum_bytes(&self.checksum);
        bytes[0] as u16 * 256 + bytes[1] as u16
    }
}

/// A slice that is written from its start on, with the checksum of what was written.
pub struct ChecksummingWriter<'a> {
    pub sum: Summation,
    pub buffer: &'a mut [u8],
    pub written: usize,
}

impl<'a> ChecksummingWriter<'a> {
    /// What was written is what was checksummed.
    pub open spec fn wf(self) -> bool {
        &&& self.written <= self.buffer@.len()
        &&& self.buffer@.len() <= MAX_CHECKSUMMED
        &&& self.sum@ == self.buffer@.take(self.written as int)
    }

    /// What was written.
    pub open spec fn written_part(self) -> Seq<u8> {
        self.buffer@.take(self.written as int)
    }

    /// A writer of which nothing was written yet.
    pub fn new(buffer: &'a mut [u8]) -> (writer: Self)
        requires
            old(buffer)@.len() <= MAX_CHECKSUMMED,
        ensures
            writer.wf(),
            writer.written == 0,
            writer.buffer@ == old(buffer)@,
            final(buffer)@ == final(writer.buffer)@,
    {
        assert(old(buffer)@.take(0) =~= Seq::<u8>::empty());
        ChecksummingWriter { sum: Summation::new(), buffer, written: 0 }
    }

    /// Writes bytes for which there is room. Returns how many these are.
    pub fn write(&mut self, bytes: &[u8]) -> (count: usize)
        requires
            old(self).wf(),
            old(self).written + bytes@.len() <= old(self).buffer@.len(),
        ensures
            final(self).wf(),
            count == bytes@.len(),
            final(self).written == old(self).written + count,
            final(self).buffer@ == old(self).buffer@.take(old(self).written as int) + bytes@
                + old(self).buffer@.skip(old(self).written + count),
            final(final(self).buffer)@ == final(old(self).buffer)@,
    {
        let ghost before = self.buffer@;
        let ghost start = self.written as int;
        self.sum.add_bytes(bytes);
        let total: usize = self.buffer.len();
        let mut i: usize = 0;
        while i < bytes.len()
            invariant
                i <= bytes@.len(),
                start == self.written,
                start + bytes@.len() <= total,
                total == self.buffer@.len(),
                before.len() == total,
                self.sum@ == before.take(start) + bytes@,
                self.buffer@ == before.take(start) + bytes@.take(i as int) + before.skip(start + i),
                final(self.buffer)@ == final(old(self).buffer)@,
            decreases bytes@.len() - i,
        {
            self.buffer[self.written + i] = bytes[i];
            i = i + 1;
            assert(self.buffer@ =~= before.take(start) + bytes@.take(i as int) + before.skip(
                start + i,
            ));
        }
        assert(bytes@.take(i as int) =~= bytes@);
        self.written = self.written + i;
        assert(self.buffer@.take(self.written as int) =~= before.take(start) + bytes@);
        i
    }

    /// The checksum of what was written.
    pub fn checksum(&self) -> (value: u16)
        requires
            self.wf(),
        ensures
            value == checksum_of(self.written_part()),
    {
        self.sum.finish()
    }
}

} // verus!
