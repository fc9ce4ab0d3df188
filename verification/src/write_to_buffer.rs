//! Values that know their wire format.

use crate::buffer::{as_slice, bytes_contents, bytes_mut_contents, has_room, put_slice};
use bytes::{Bytes, BytesMut};
use vstd::prelude::*;

verus! {

/// A value that can be written to a buffer.
pub trait WriteToBuffer {
    /// The bytes that the value is written as.
    spec fn encoding(&self) -> Seq<u8>;

    /// The length that [`WriteToBuffer::encoded_length`] reports.
    spec fn reported(&self) -> nat;

    /// Whether the value has a wire format.
    spec fn encodable(&self) -> bool;

    /// The length to reserve for this value. No more is written.
    fn encoded_length(&self) -> (length: usize)
        requires
            self.encodable(),
        ensures
            length == self.reported(),
            self.encoding().len() <= length,
    ;

    /// Appends this value to a buffer.
    fn write_to_buffer(&self, buffer: &mut BytesMut)
        requires
            self.encodable(),
            has_room(*old(buffer), self.encoding().len()),
        ensures
            bytes_mut_contents(*final(buffer)) == bytes_mut_contents(*old(buffer))
                + self.encoding(),
    ;
}

impl WriteToBuffer for Bytes {
    open spec fn encoding(&self) -> Seq<u8> {
        bytes_contents(*self)
    }

    open spec fn reported(&self) -> nat {
        bytes_contents(*self).len()
    }

    open spec fn encodable(&self) -> bool {
        true
    }

    fn encoded_length(&self) -> (length: usize) {
        as_slice(self).len()
    }

    fn write_to_buffer(&self, buffer: &mut BytesMut) {
        put_slice(buffer, as_slice(self));
    }
}

impl<T: ?Sized + WriteToBuffer> WriteToBuffer for &T {
    open spec fn encoding(&self) -> Seq<u8> {
        (**self).encoding()
    }

    open spec fn reported(&self) -> nat {
        (**self).reported()
    }

    open spec fn encodable(&self) -> bool {
        (**self).encodable()
    }

    fn encoded_length(&self) -> (length: usize) {
        (**self).encoded_length()
    }

    fn write_to_buffer(&self, buffer: &mut BytesMut) {
        (**self).write_to_buffer(buffer)
    }
}

impl<A: WriteToBuffer, B: WriteToBuffer> WriteToBuffer for (A, B) {
    open spec fn encoding(&self) -> Seq<u8> {
        self.0.encoding() + self.1.encoding()
    }

    open spec fn reported(&self) -> nat {
        self.0.reported() + self.1.reported()
    }

    open spec fn encodable(&self) -> bool {
        self.0.encodable() && self.1.encodable() && self.0.reported() + self.1.reported()
            <= usize::MAX
    }

    fn encoded_length(&self) -> (length: usize) {
        self.0.encoded_length() + self.1.encoded_length()
    }

    fn write_to_buffer(&self, buffer: &mut BytesMut) {
        self.0.write_to_buffer(buffer);
        self.1.write_to_buffer(buffer);
        assert(bytes_mut_contents(*buffer) =~= bytes_mut_contents(*old(buffer)) + self.encoding());
    }
}

impl<A: WriteToBuffer, B: WriteToBuffer, C: WriteToBuffer> WriteToBuffer for (A, B, C) {
    open spec fn encoding(&self) -> Seq<u8> {
        self.0.encoding() + self.1.encoding() + self.2.encoding()
    }

    open spec fn reported(&self) -> nat {
        self.0.reported() + self.1.reported() + self.2.reported()
    }

    open spec fn encodable(&self) -> bool {
        self.0.encodable() && self.1.encodable() && self.2.encodable() && self.0.reported()
            + self.1.reported() + self.2.reported() <= usize::MAX
    }

    fn encoded_length(&self) -> (length: usize) {
        self.0.encoded_length() + self.1.encoded_length() + self.2.encoded_length()
    }

    fn write_to_buffer(&self, buffer: &mut BytesMut) {
        self.0.write_to_buffer(buffer);
        self.1.write_to_buffer(buffer);
        self.2.write_to_buffer(buffer);
        assert(bytes_mut_contents(*buffer) =~= bytes_mut_contents(*old(buffer)) + self.encoding());
    }
}

} // verus!
