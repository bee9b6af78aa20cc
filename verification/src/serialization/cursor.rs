//! A cursor over a caller's byte buffer: sequential reads and writes that
//! advance a position, and a patch that overwrites earlier bytes in place.

use vstd::prelude::*;
use crate::error::Error;
use crate::layout::{le_bytes, le_value, overlay};
use crate::layout::{lemma_le_bytes_len, lemma_le_value_bound, lemma_radix_up_to_eight};
use crate::serialization::{Deserializable, Serializable};

verus! {

/// What a cursor is, told apart from how it is stored: the bytes of the
/// buffer and the offset of the next read or write.
pub struct CursorView {
    pub bytes: Seq<u8>,
    pub pos: nat,
}

impl CursorView {
    /// The number of bytes between the position and the end of the buffer.
    pub open spec fn room(self) -> nat {
        (self.bytes.len() - self.pos) as nat
    }

    /// The bytes from the position to the end of the buffer.
    pub open spec fn ahead(self) -> Seq<u8> {
        self.bytes.skip(self.pos as int)
    }

    /// The cursor after `data` was written at the position.
    pub open spec fn wrote(self, data: Seq<u8>) -> CursorView {
        CursorView {
            bytes: overlay(self.bytes, self.pos as int, data),
            pos: self.pos + data.len(),
        }
    }

    /// The cursor after `n` bytes were read.
    pub open spec fn skipped(self, n: nat) -> CursorView {
        CursorView { bytes: self.bytes, pos: self.pos + n }
    }

    /// The cursor after `data` was written over the bytes from `at` on, the
    /// position staying where it is.
    pub open spec fn patched(self, at: nat, data: Seq<u8>) -> CursorView {
        CursorView { bytes: overlay(self.bytes, at as int, data), pos: self.pos }
    }
}

/// A position inside a borrowed byte buffer.
///
/// The buffer never grows. An operation that would cross its end fails and
/// leaves the buffer and the position as they were.
///
/// The cursor stays on the buffer it was made for: every operation states
/// `final(final(self).slice)@ == final(old(self).slice)@`, which says that
/// what the caller finds in the buffer once the cursor is gone is what the
/// cursor last held. [`SliceCursor::new`] and [`SliceCursor::finish`] tie
/// the two ends of that chain to the caller's slice.
pub struct SliceCursor<'a> {
    /// The buffer.
    pub slice: &'a mut [u8],
    /// The offset of the next read or write.
    pub pos: usize,
}

impl<'a> View for SliceCursor<'a> {
    type V = CursorView;

    open spec fn view(&self) -> CursorView {
        CursorView { bytes: self.slice@, pos: self.pos as nat }
    }
}

impl<'a> SliceCursor<'a> {
    /// The position lies inside the buffer or at its end.
    pub open spec fn wf(&self) -> bool {
        self.pos <= self.slice@.len()
    }

    /// A cursor at the start of `slice`.
    pub fn new(slice: &'a mut [u8]) -> (cursor: Self)
        ensures
            cursor.wf(),
            cursor@.bytes == old(slice)@,
            cursor@.pos == 0,
            final(cursor.slice)@ == final(slice)@,
    {
        SliceCursor { slice, pos: 0 }
    }

    /// The offset of the next read or write.
    pub fn pos(&self) -> (pos: usize)
        ensures
            pos == self@.pos,
    {
        self.pos
    }

    /// The number of bytes left between the position and the end.
    pub fn remaining(&self) -> (n: usize)
        requires
            self.wf(),
        ensures
            n == self@.room(),
    {
        self.slice.len() - self.pos
    }

    /// Ends the use of the buffer and returns the number of bytes that lie
    /// before the position: on the writing side, the bytes written. The
    /// caller's buffer then holds what the cursor held.
    pub fn finish(self) -> (written: usize)
        ensures
            written == self@.pos,
            final(self.slice)@ == self@.bytes,
    {
        self.pos
    }

    /// Writes `value` at the position and moves past it. Where the bytes
    /// left are too few, nothing is written.
    pub fn write<T: Serializable>(&mut self, value: &T) -> (r: Result<(), Error>)
        requires
            old(self).wf(),
        ensures
            final(self).wf(),
            final(final(self).slice)@ == final(old(self).slice)@,
            r is Ok <==> value.wire().len() <= old(self)@.room(),
            r is Ok ==> final(self)@ == old(self)@.wrote(value.wire()),
            r matches Err(e) ==> e == Error::BufferOverflow && final(self)@ == old(self)@,
    {
        value.serialize(self)
    }

    /// Reads a value of type `T` at the position and moves past it. The
    /// value is the one that is written as the bytes read. Where the bytes
    /// left are too few, the position stays.
    pub fn read<T: Deserializable>(&mut self) -> (r: Result<T, Error>)
        requires
            old(self).wf(),
        ensures
            final(self).wf(),
            final(final(self).slice)@ == final(old(self).slice)@,
            r is Ok <==> T::width() <= old(self)@.room(),
            r matches Ok(value) ==> value.wire() == old(self)@.ahead().take(T::width() as int)
                && final(self)@ == old(self)@.skipped(T::width()),
            r matches Err(e) ==> e == Error::TruncatedInput && final(self)@ == old(self)@,
    {
        T::deserialize(self)
    }

    /// Writes `value` over the bytes that start at `position`, and leaves
    /// the cursor's own position where it is. No byte outside
    /// `[position, position + width)` changes, whether the patch succeeds
    /// or not; where it would cross the end of the buffer, no byte changes
    /// at all.
    pub fn rewrite<T: Serializable>(&mut self, position: usize, value: &T) -> (r: Result<
        (),
        Error,
    >)
        requires
            old(self).wf(),
        ensures
            final(self).wf(),
            final(final(self).slice)@ == final(old(self).slice)@,
            r is Ok <==> position + value.wire().len() <= old(self)@.bytes.len(),
            r is Ok ==> final(self)@ == old(self)@.patched(position as nat, value.wire()),
            r matches Err(e) ==> e == Error::BufferOverflow && final(self)@ == old(self)@,
            final(self)@.pos == old(self)@.pos,
            final(self)@.bytes.len() == old(self)@.bytes.len(),
            forall|i: int|
                0 <= i < old(self)@.bytes.len() && !(position <= i < position
                    + value.wire().len()) ==> final(self)@.bytes[i] == old(self)@.bytes[i],
    {
        if position > self.slice.len() {
            return Err(Error::BufferOverflow);
        }
        let resume = self.pos;
        self.pos = position;
        let r = value.serialize(self);
        self.pos = resume;
        r
    }

    /// Writes the bytes of `data` at the position and moves past them.
    /// Where the bytes left are too few, nothing is written.
    pub fn write_bytes(&mut self, data: &[u8]) -> (r: Result<(), Error>)
        requires
            old(self).wf(),
        ensures
            final(self).wf(),
            final(final(self).slice)@ == final(old(self).slice)@,
            r is Ok <==> data@.len() <= old(self)@.room(),
            r is Ok ==> final(self)@ == old(self)@.wrote(data@),
            r matches Err(e) ==> e == Error::BufferOverflow && final(self)@ == old(self)@,
    {
        if data.len() > self.slice.len() - self.pos {
            return Err(Error::BufferOverflow);
        }
        let start = self.pos;
        let mut i: usize = 0;
        while i < data.len()
            invariant
                i <= data@.len(),
                start == old(self).pos,
                self.pos == start + i,
                start + data@.len() <= self.slice@.len(),
                self.slice@ =~= overlay(old(self).slice@, start as int, data@.take(i as int)),
                final(self.slice)@ == final(old(self).slice)@,
            decreases data@.len() - i,
        {
            self.slice[self.pos] = data[i];
            self.pos = self.pos + 1;
            i = i + 1;
        }
        assert(data@.take(i as int) =~= data@);
        Ok(())
    }

    /// Reads the next `n` bytes and moves past them. Where fewer are left,
    /// the position stays.
    pub fn read_bytes(&mut self, n: usize) -> (r: Result<Vec<u8>, Error>)
        requires
            old(self).wf(),
        ensures
            final(self).wf(),
            final(final(self).slice)@ == final(old(self).slice)@,
            r is Ok <==> n <= old(self)@.room(),
            r matches Ok(data) ==> data@ == old(self)@.ahead().take(n as int) && final(self)@
                == old(self)@.skipped(n as nat),
            r matches Err(e) ==> e == Error::TruncatedInput && final(self)@ == old(self)@,
    {
        if n > self.slice.len() - self.pos {
            return Err(Error::TruncatedInput);
        }
        let mut data: Vec<u8> = Vec::new();
        let mut i: usize = 0;
        while i < n
            invariant
                i <= n,
                self.pos == old(self).pos + i,
                old(self).pos + n <= self.slice@.len(),
                self.slice@ == old(self).slice@,
                data@ =~= old(self)@.ahead().take(i as int),
                final(self.slice)@ == final(old(self).slice)@,
            decreases n - i,
        {
            data.push(self.slice[self.pos]);
            self.pos = self.pos + 1;
            i = i + 1;
        }
        Ok(data)
    }

    /// Writes the `width` low-order bytes of `value` at the position, least
    /// significant first, and moves past them. Where the bytes left are too
    /// few, nothing is written.
    pub fn write_le(&mut self, value: u64, width: usize) -> (r: Result<(), Error>)
        requires
            old(self).wf(),
            width <= 8,
        ensures
            final(self).wf(),
            final(final(self).slice)@ == final(old(self).slice)@,
            r is Ok <==> width <= old(self)@.room(),
            r is Ok ==> final(self)@ == old(self)@.wrote(le_bytes(value as nat, width as nat)),
            r matches Err(e) ==> e == Error::BufferOverflow && final(self)@ == old(self)@,
    {
        if width > self.slice.len() - self.pos {
            return Err(Error::BufferOverflow);
        }
        let start = self.pos;
        let ghost image = le_bytes(value as nat, width as nat);
        proof {
            lemma_le_bytes_len(value as nat, width as nat);
        }
        let mut rest: u64 = value;
        let mut i: usize = 0;
        while i < width
            invariant
                i <= width,
                start == old(self).pos,
                self.pos == start + i,
                start + width <= self.slice@.len(),
                image == le_bytes(value as nat, width as nat),
                image.len() == width,
                image.skip(i as int) == le_bytes(rest as nat, (width - i) as nat),
                self.slice@ =~= overlay(old(self).slice@, start as int, image.take(i as int)),
                final(self.slice)@ == final(old(self).slice)@,
            decreases width - i,
        {
            let digit: u8 = (rest % 256) as u8;
            proof {
                let tail = le_bytes((rest / 256) as nat, (width - i - 1) as nat);
                assert(image.skip(i as int) == seq![digit] + tail);
                assert(image[i as int] == image.skip(i as int)[0]);
                assert(image.skip(i as int + 1) =~= image.skip(i as int).skip(1));
                assert(image.skip(i as int).skip(1) =~= tail);
            }
            self.slice[self.pos] = digit;
            self.pos = self.pos + 1;
            rest = rest / 256;
            i = i + 1;
        }
        assert(image.take(i as int) =~= image);
        Ok(())
    }

    /// Reads `width` bytes at the position as one number, least significant
    /// byte first, and moves past them. Where fewer are left, the position
    /// stays.
    pub fn read_le(&mut self, width: usize) -> (r: Result<u64, Error>)
        requires
            old(self).wf(),
            width <= 8,
        ensures
            final(self).wf(),
            final(final(self).slice)@ == final(old(self).slice)@,
            r is Ok <==> width <= old(self)@.room(),
            r matches Ok(value) ==> value == le_value(old(self)@.ahead().take(width as int))
                && final(self)@ == old(self)@.skipped(width as nat),
            r matches Err(e) ==> e == Error::TruncatedInput && final(self)@ == old(self)@,
    {
        if width > self.slice.len() - self.pos {
            return Err(Error::TruncatedInput);
        }
        let start = self.pos;
        let ghost image = self@.ahead().take(width as int);
        let mut value: u64 = 0;
        let mut i: usize = width;
        while i > 0
            invariant
                i <= width <= 8,
                start == old(self).pos,
                self.pos == start,
                start + width <= self.slice@.len() <= usize::MAX,
                self.slice@ == old(self).slice@,
                image == old(self)@.ahead().take(width as int),
                image.len() == width,
                value == le_value(image.skip(i as int)),
                final(self.slice)@ == final(old(self).slice)@,
            decreases i,
        {
            i = i - 1;
            let digit: u8 = self.slice[start + i];
            proof {
                let done = image.skip(i as int + 1);
                assert(image.skip(i as int).skip(1) =~= done);
                assert(image.skip(i as int)[0] == digit);
                lemma_le_value_bound(done);
                lemma_le_value_bound(image.skip(i as int));
                lemma_radix_up_to_eight((width - i) as nat);
            }
            value = value * 256 + digit as u64;
        }
        assert(image.skip(0) =~= image);
        self.pos = start + width;
        Ok(value)
    }
}

} // verus!
