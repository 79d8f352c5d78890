//! Segments of block I/O requests.

use crate::disk_storage::page::Page;
use crate::util::PAGE_SIZE;
use vstd::prelude::*;

verus! {

/// A contiguous piece of memory of a request, consumed from its start.
pub struct Segment {
    offset: usize,
    data: Vec<u8>,
    pos: usize,
}

/// The state of a [`Segment`].
#[verifier::ext_equal]
pub struct SegmentState {
    /// Distance of the first byte from a page boundary.
    pub offset: int,
    /// All bytes of the segment.
    pub data: Seq<u8>,
    /// Number of bytes that have been consumed.
    pub pos: int,
}

impl SegmentState {
    /// The position lies in the segment and the segment has a length that fits 32 bits.
    pub open spec fn inv(self) -> bool {
        &&& 0 <= self.pos <= self.data.len() <= u32::MAX
        &&& 0 <= self.offset
        &&& self.offset + self.data.len() <= usize::MAX
    }

    /// Number of bytes that are left.
    pub open spec fn len(self) -> int {
        self.data.len() - self.pos
    }

    /// Number of bytes from the position to the next page boundary.
    pub open spec fn to_boundary(self) -> int {
        PAGE_SIZE - (self.offset + self.pos) % (PAGE_SIZE as int)
    }

    /// Number of bytes that one step can move: it stays in one page of the segment and takes at
    /// most `limit` bytes.
    pub open spec fn step(self, limit: int) -> int {
        let len = if self.len() <= self.to_boundary() { self.len() } else { self.to_boundary() };
        if len <= limit { len } else { limit }
    }

    /// The segment with `count` more bytes consumed.
    pub open spec fn advanced(self, count: int) -> SegmentState {
        SegmentState { pos: self.pos + count, ..self }
    }

    /// The segment with bytes written at the position and consumed.
    pub open spec fn filled(self, bytes: Seq<u8>) -> SegmentState {
        SegmentState {
            data: crate::disk_storage::page::splice(self.data, self.pos, bytes),
            pos: self.pos + bytes.len(),
            ..self
        }
    }
}

impl View for Segment {
    type V = SegmentState;

    closed spec fn view(&self) -> SegmentState {
        SegmentState { offset: self.offset as int, data: self.data@, pos: self.pos as int }
    }
}

impl Segment {
    /// The segment is well formed.
    pub open spec fn inv(&self) -> bool {
        self@.inv()
    }

    /// Creates a segment that starts `offset` bytes after a page boundary.
    pub fn new(offset: usize, data: Vec<u8>) -> (r: Self)
        requires
            data@.len() <= u32::MAX,
            offset + data@.len() <= usize::MAX,
        ensures
            r.inv(),
            r@ == (SegmentState { offset: offset as int, data: data@, pos: 0 }),
    {
        Segment { offset, data, pos: 0 }
    }

    /// All bytes of the segment.
    pub fn into_data(self) -> (r: Vec<u8>)
        ensures
            r@ == self@.data,
    {
        self.data
    }

    /// Number of bytes that are left.
    pub fn len(&self) -> (r: u32)
        requires
            self.inv(),
        ensures
            r == self@.len(),
            r <= self@.data.len(),
    {
        (self.data.len() - self.pos) as u32
    }

    /// Returns true if no byte is left.
    pub fn is_empty(&self) -> (r: bool)
        requires
            self.inv(),
        ensures
            r == (self@.len() == 0),
    {
        self.data.len() == self.pos
    }

    /// Number of bytes that one step moves.
    fn step_len(&self, limit: usize) -> (r: usize)
        requires
            self.inv(),
        ensures
            r == self@.step(limit as int),
            r <= limit,
            self.pos + r <= self.data@.len(),
    {
        let boundary: usize = PAGE_SIZE - (self.offset + self.pos) % PAGE_SIZE;
        let left: usize = self.data.len() - self.pos;
        let len: usize = if left <= boundary { left } else { boundary };
        if len <= limit { len } else { limit }
    }

    /// Copies bytes to `page` from position `dst_offset` on, at most `limit` of them, and stops at
    /// the end of either page. Returns the number of bytes that were copied.
    pub fn copy_to_page_limit(&mut self, page: &mut Page, dst_offset: usize, limit: usize) -> (r: usize)
        requires
            old(self).inv(),
            old(page).inv(),
            dst_offset <= PAGE_SIZE,
        ensures
            final(self).inv(),
            final(page).inv(),
            ({
                let room = PAGE_SIZE - dst_offset;
                r == old(self)@.step(if limit <= room { limit as int } else { room })
            }),
            final(self)@ == old(self)@.advanced(r as int),
            final(page)@ == crate::disk_storage::page::splice(
                old(page)@,
                dst_offset as int,
                old(self)@.data.subrange(old(self)@.pos, old(self)@.pos + r),
            ),
    {
        let room: usize = PAGE_SIZE - dst_offset;
        let count: usize = self.step_len(if limit <= room { limit } else { room });
        let mut i: usize = 0;
        while i < count
            invariant
                i <= count,
                *self == *old(self),
                self.inv(),
                page.inv(),
                dst_offset + count <= PAGE_SIZE,
                self.pos + count <= self.data@.len(),
                page@ =~= crate::disk_storage::page::splice(
                    old(page)@,
                    dst_offset as int,
                    self.data@.subrange(self.pos as int, self.pos + i),
                ),
            decreases count - i,
        {
            page.set_byte(dst_offset + i, self.data[self.pos + i]);
            i += 1;
        }
        self.pos = self.pos + count;
        count
    }

    /// Copies bytes from `page` from position `src_offset` on and stops at the end of either page.
    /// Returns the number of bytes that were copied.
    pub fn copy_from_page(&mut self, page: &Page, src_offset: usize) -> (r: usize)
        requires
            old(self).inv(),
            page.inv(),
            src_offset <= PAGE_SIZE,
        ensures
            final(self).inv(),
            r == old(self)@.step(PAGE_SIZE - src_offset),
            final(self)@ == old(self)@.filled(page@.subrange(src_offset as int, src_offset + r)),
    {
        let count: usize = self.step_len(PAGE_SIZE - src_offset);
        let mut i: usize = 0;
        while i < count
            invariant
                i <= count,
                self.inv(),
                self.pos == old(self).pos,
                self.offset == old(self).offset,
                self.data@.len() == old(self).data@.len(),
                page.inv(),
                src_offset + count <= PAGE_SIZE,
                self.pos + count <= self.data@.len(),
                self.data@ =~= crate::disk_storage::page::splice(
                    old(self).data@,
                    self.pos as int,
                    page@.subrange(src_offset as int, src_offset + i),
                ),
            decreases count - i,
        {
            let at: usize = self.pos + i;
            self.data.set(at, page.byte(src_offset + i));
            i += 1;
        }
        self.pos = self.pos + count;
        count
    }

    /// Fills the segment with zeros up to the end of its page. Returns the number of bytes that
    /// were written.
    pub fn zero_page(&mut self) -> (r: usize)
        requires
            old(self).inv(),
        ensures
            final(self).inv(),
            r == old(self)@.step(PAGE_SIZE as int),
            final(self)@ == old(self)@.filled(Seq::new(r as nat, |i: int| 0u8)),
    {
        let count: usize = self.step_len(PAGE_SIZE);
        let mut i: usize = 0;
        while i < count
            invariant
                i <= count,
                self.inv(),
                self.pos == old(self).pos,
                self.offset == old(self).offset,
                self.data@.len() == old(self).data@.len(),
                self.pos + count <= self.data@.len(),
                self.data@ =~= crate::disk_storage::page::splice(
                    old(self).data@,
                    self.pos as int,
                    Seq::new(i as nat, |j: int| 0u8),
                ),
            decreases count - i,
        {
            let at: usize = self.pos + i;
            self.data.set(at, 0);
            i += 1;
        }
        self.pos = self.pos + count;
        count
    }
}

} // verus!
