//! Cursors over a buffer made of two slices, as handed out by the push and
//! pop contexts of a shared-memory queue (the second slice is used when the
//! data wraps around the end of the queue).
use vstd::prelude::*;

verus! {

/// A read cursor over two byte slices that together form one logical buffer.
pub struct Bytes<'a> {
    slice: (&'a [u8], &'a [u8]),
    pos: usize,
}

impl<'a> Clone for Bytes<'a> {
    fn clone(&self) -> (r: Self)
        ensures
            r == *self,
    {
        Bytes { slice: self.slice, pos: self.pos }
    }
}

impl<'a> Bytes<'a> {
    /// The whole logical buffer: the first slice followed by the second.
    pub closed spec fn content(&self) -> Seq<u8> {
        self.slice.0@ + self.slice.1@
    }

    /// Length of the first slice.
    pub closed spec fn first_len(&self) -> nat {
        self.slice.0@.len()
    }

    /// The cursor position within the logical buffer.
    pub closed spec fn spec_pos(&self) -> nat {
        self.pos as nat
    }

    pub closed spec fn wf(&self) -> bool {
        &&& self.pos <= self.slice.0@.len() + self.slice.1@.len()
        &&& self.slice.0@.len() + self.slice.1@.len() <= usize::MAX
    }

    /// Create a cursor at the start of the buffer `slice.0 ++ slice.1`.
    pub fn new(slice: (&'a [u8], &'a [u8])) -> (r: Bytes<'a>)
        requires
            slice.0@.len() + slice.1@.len() <= usize::MAX,
        ensures
            r.wf(),
            r.content() == slice.0@ + slice.1@,
            r.first_len() == slice.0@.len(),
            r.spec_pos() == 0,
    {
        Bytes { slice, pos: 0 }
    }

    /// The cursor position.
    pub fn pos(&self) -> (r: usize)
        ensures
            r == self.spec_pos(),
    {
        self.pos
    }

    /// Total length of both slices.
    pub fn len(&self) -> (r: usize)
        requires
            self.wf(),
        ensures
            r == self.content().len(),
    {
        self.slice.0.len() + self.slice.1.len()
    }

    /// Move the cursor back to the start.
    pub fn rewind(&mut self)
        ensures
            final(self).content() == old(self).content(),
            final(self).first_len() == old(self).first_len(),
            final(self).spec_pos() == 0,
            old(self).wf() ==> final(self).wf(),
    {
        self.pos = 0;
    }

    /// Move the cursor to `pos`, which must lie within the buffer.
    pub fn set_pos(&mut self, pos: usize)
        requires
            old(self).wf(),
            pos <= old(self).content().len(),
        ensures
            final(self).wf(),
            final(self).content() == old(self).content(),
            final(self).first_len() == old(self).first_len(),
            final(self).spec_pos() == pos,
    {
        self.pos = pos;
    }

    /// The bytes from the cursor to the end, as two slices.
    pub fn as_slice(&self) -> (r: (&'a [u8], &'a [u8]))
        requires
            self.wf(),
        ensures
            r.0@ + r.1@ == self.content().skip(self.spec_pos() as int),
            self.spec_pos() < self.first_len() ==> r.1@ == self.content().skip(
                self.first_len() as int,
            ),
            self.spec_pos() >= self.first_len() && self.spec_pos() > 0 ==> r.1@.len() == 0,
            self.spec_pos() == 0 ==> r.0@ == self.content().take(self.first_len() as int),
    {
        if self.pos == 0 {
            assert(self.content().skip(0) =~= self.content());
            assert(self.slice.1@ =~= self.content().skip(self.slice.0@.len() as int));
            assert(self.slice.0@ =~= self.content().take(self.slice.0@.len() as int));
            self.slice
        } else if self.pos >= self.slice.0.len() {
            let empty: &'a [u8] = &[];
            let first = &self.slice.1[self.pos - self.slice.0.len()..self.slice.1.len()];
            assert(first@ + empty@ =~= self.content().skip(self.pos as int));
            (first, empty)
        } else {
            assert(self.slice.0@.subrange(self.pos as int, self.slice.0@.len() as int)
                + self.slice.1@ =~= self.content().skip(self.pos as int));
            assert(self.slice.1@ =~= self.content().skip(self.slice.0@.len() as int));
            (&self.slice.0[self.pos..self.slice.0.len()], self.slice.1)
        }
    }

    /// Number of bytes from the cursor to the end.
    pub fn remaining(&self) -> (r: usize)
        requires
            self.wf(),
        ensures
            r == self.content().len() - self.spec_pos(),
    {
        self.len().saturating_sub(self.pos)
    }

    /// The contiguous bytes from the cursor to the end of the slice it is in.
    pub fn chunk(&self) -> (r: &'a [u8])
        requires
            self.wf(),
        ensures
            self.spec_pos() < self.first_len() ==> r@ == self.content().subrange(
                self.spec_pos() as int,
                self.first_len() as int,
            ),
            self.spec_pos() >= self.first_len() ==> r@ == self.content().skip(
                self.spec_pos() as int,
            ),
    {
        if self.pos < self.slice.0.len() {
            let r = &self.slice.0[self.pos..self.slice.0.len()];
            assert(r@ =~= self.content().subrange(self.pos as int, self.slice.0@.len() as int));
            r
        } else {
            let r = &self.slice.1[self.pos - self.slice.0.len()..self.slice.1.len()];
            assert(r@ =~= self.content().skip(self.pos as int));
            r
        }
    }

    /// Move the cursor forward by `cnt` bytes.
    pub fn advance(&mut self, cnt: usize)
        requires
            old(self).wf(),
            old(self).spec_pos() + cnt <= old(self).content().len(),
        ensures
            final(self).wf(),
            final(self).content() == old(self).content(),
            final(self).first_len() == old(self).first_len(),
            final(self).spec_pos() == old(self).spec_pos() + cnt,
    {
        self.pos = self.pos + cnt;
    }
}

/// A write cursor over two mutable byte slices that together form one
/// logical buffer.
pub struct BytesMut<'a> {
    slice: (&'a mut [u8], &'a mut [u8]),
    pos: usize,
}

impl<'a> BytesMut<'a> {
    /// The whole logical buffer: the first slice followed by the second.
    pub closed spec fn content(&self) -> Seq<u8> {
        self.slice.0@ + self.slice.1@
    }

    /// Length of the first slice.
    pub closed spec fn first_len(&self) -> nat {
        self.slice.0@.len()
    }

    /// The cursor position within the logical buffer.
    pub closed spec fn spec_pos(&self) -> nat {
        self.pos as nat
    }

    pub closed spec fn wf(&self) -> bool {
        &&& self.pos <= self.slice.0@.len() + self.slice.1@.len()
        &&& self.slice.0@.len() + self.slice.1@.len() <= usize::MAX
    }

    /// Create a cursor at the start of the buffer `slice.0 ++ slice.1`.
    pub fn new(slice: (&'a mut [u8], &'a mut [u8])) -> (r: BytesMut<'a>)
        requires
            old(slice.0)@.len() + old(slice.1)@.len() <= usize::MAX,
        ensures
            r.wf(),
            r.content() == old(slice.0)@ + old(slice.1)@,
            r.first_len() == old(slice.0)@.len(),
            r.spec_pos() == 0,
    {
        BytesMut { slice, pos: 0 }
    }

    /// The cursor position.
    pub fn pos(&self) -> (r: usize)
        ensures
            r == self.spec_pos(),
    {
        self.pos
    }

    /// Total length of both slices.
    pub fn len(&self) -> (r: usize)
        requires
            self.wf(),
        ensures
            r == self.content().len(),
    {
        self.slice.0.len() + self.slice.1.len()
    }

    /// Move the cursor back to the start.
    pub fn rewind(&mut self)
        ensures
            final(self).content() == old(self).content(),
            final(self).first_len() == old(self).first_len(),
            final(self).spec_pos() == 0,
            old(self).wf() ==> final(self).wf(),
    {
        self.pos = 0;
    }

    /// The bytes from the cursor to the end, as two mutable slices. What is
    /// written through them becomes the buffer's content after the cursor.
    pub fn as_slice(&mut self) -> (r: (&mut [u8], &mut [u8]))
        requires
            old(self).wf(),
        ensures
            r.0@ + r.1@ == old(self).content().skip(old(self).spec_pos() as int),
            old(self).spec_pos() >= old(self).first_len() && old(self).spec_pos() > 0 ==> r.1@.len() == 0,
            final(self).content() == old(self).content().take(old(self).spec_pos() as int)
                + final(r.0)@ + final(r.1)@,
            final(self).spec_pos() == old(self).spec_pos(),
            final(r.0)@.len() == r.0@.len() && final(r.1)@.len() == r.1@.len() ==> final(self).wf(),
    {
        if self.pos == 0 {
            assert(old(self).content().take(0) =~= Seq::<u8>::empty());
            assert(old(self).content().skip(0) =~= old(self).content());
            (&mut *self.slice.0, &mut *self.slice.1)
        } else if self.pos < self.slice.0.len() {
            let (_a, b) = self.slice.0.split_at_mut(self.pos);
            (b, &mut *self.slice.1)
        } else {
            let off = self.pos - self.slice.0.len();
            let (_a, b) = self.slice.1.split_at_mut(off);
            let n = b.len();
            b.split_at_mut(n)
        }
    }

    /// Number of bytes from the cursor to the end.
    pub fn remaining_mut(&self) -> (r: usize)
        requires
            self.wf(),
        ensures
            r == self.content().len() - self.spec_pos(),
    {
        self.len().saturating_sub(self.pos)
    }

    /// Move the cursor forward by `cnt` bytes.
    pub fn advance_mut(&mut self, cnt: usize)
        requires
            old(self).wf(),
            old(self).spec_pos() + cnt <= old(self).content().len(),
        ensures
            final(self).wf(),
            final(self).content() == old(self).content(),
            final(self).first_len() == old(self).first_len(),
            final(self).spec_pos() == old(self).spec_pos() + cnt,
    {
        self.pos = self.pos + cnt;
    }

    /// The contiguous writable bytes from the cursor to the end of the slice
    /// it is in. What is written through it replaces those bytes.
    pub fn chunk_mut(&mut self) -> (r: &mut [u8])
        requires
            old(self).wf(),
        ensures
            old(self).spec_pos() < old(self).first_len() ==> r@ == old(self).content().subrange(
                old(self).spec_pos() as int,
                old(self).first_len() as int,
            ) && final(self).content() == old(self).content().take(old(self).spec_pos() as int)
                + final(r)@ + old(self).content().skip(old(self).first_len() as int),
            old(self).spec_pos() >= old(self).first_len() ==> r@ == old(self).content().skip(
                old(self).spec_pos() as int,
            ) && final(self).content() == old(self).content().take(old(self).spec_pos() as int)
                + final(r)@,
            final(self).spec_pos() == old(self).spec_pos(),
            final(r)@.len() == r@.len() ==> final(self).wf() && final(self).first_len()
                == old(self).first_len(),
    {
        if self.pos < self.slice.0.len() {
            let (_a, b) = self.slice.0.split_at_mut(self.pos);
            assert(b@ =~= old(self).content().subrange(old(self).pos as int, old(self).slice.0@.len() as int));
            b
        } else {
            let off = self.pos - self.slice.0.len();
            let (_a, b) = self.slice.1.split_at_mut(off);
            assert(b@ =~= old(self).content().skip(old(self).pos as int));
            b
        }
    }
}

} // verus!
