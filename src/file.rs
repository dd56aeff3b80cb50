//! Open file handles: a cursor over a file of known size.
use vstd::prelude::*;

use crate::error::FsError;

verus! {

/// Where a seek is measured from, as in `std::io::SeekFrom`.
#[derive(Clone, Copy, Debug, PartialEq, Eq, Structural)]
pub enum SeekFrom {
    Start(u64),
    End(i64),
    Current(i64),
}

/// The position a seek asks for, before any bound is applied.
pub open spec fn seek_target(cursor: u64, size: u64, pos: SeekFrom) -> int {
    match pos {
        SeekFrom::Start(n) => n as int,
        SeekFrom::End(d) => size as int + d as int,
        SeekFrom::Current(d) => cursor as int + d as int,
    }
}

/// Whether a position can be held as a cursor.
pub open spec fn is_offset(x: int) -> bool {
    0 <= x <= u64::MAX as int
}

/// The number of bytes a read of `count` bytes at `cursor` returns.
pub open spec fn read_len(cursor: u64, size: u64, count: u64) -> nat {
    if cursor >= size {
        0
    } else if count <= size - cursor {
        count as nat
    } else {
        (size - cursor) as nat
    }
}

/// A handle on one opened file: its size and the cursor of this handle.
///
/// Each handle owns its cursor; two handles on one file never share it.
#[derive(Clone, Copy, Debug, PartialEq, Eq, Structural)]
pub struct FileCursor {
    pub size: u64,
    pub cursor: u64,
}

/// The byte range a read covers: `len` bytes from `offset`.
#[derive(Clone, Copy, Debug, PartialEq, Eq, Structural)]
pub struct ReadRange {
    pub offset: u64,
    pub len: u64,
}

impl FileCursor {
    /// A fresh handle on a file of `size` bytes, at offset 0.
    pub fn new(size: u64) -> (r: FileCursor)
        ensures
            r.size == size,
            r.cursor == 0,
    {
        FileCursor { size, cursor: 0 }
    }

    /// Moves the cursor. A target below zero or beyond `u64` is refused
    /// with `InvalidSeek` and leaves the cursor where it was.
    pub fn seek(&mut self, pos: SeekFrom) -> (r: Result<u64, FsError>)
        ensures
            final(self).size == old(self).size,
            is_offset(seek_target(old(self).cursor, old(self).size, pos)) ==> {
                &&& r == Ok::<u64, FsError>(seek_target(old(self).cursor, old(self).size, pos) as u64)
                &&& final(self).cursor as int == seek_target(old(self).cursor, old(self).size, pos)
            },
            !is_offset(seek_target(old(self).cursor, old(self).size, pos)) ==> {
                &&& r == Err::<u64, FsError>(FsError::InvalidSeek)
                &&& final(self).cursor == old(self).cursor
            },
    {
        let base: i128 = match pos {
            SeekFrom::Start(n) => {
                self.cursor = n;
                return Ok(n);
            },
            SeekFrom::End(d) => self.size as i128 + d as i128,
            SeekFrom::Current(d) => self.cursor as i128 + d as i128,
        };
        if base < 0 || base > u64::MAX as i128 {
            Err(FsError::InvalidSeek)
        } else {
            self.cursor = base as u64;
            Ok(base as u64)
        }
    }

    /// The range that a read of at most `count` bytes covers: it starts at
    /// the cursor and stops at the end of the file.
    pub fn read_range(&self, count: u64) -> (r: ReadRange)
        ensures
            r.offset == self.cursor,
            r.len == read_len(self.cursor, self.size, count),
    {
        if self.cursor >= self.size {
            ReadRange { offset: self.cursor, len: 0 }
        } else if count <= self.size - self.cursor {
            ReadRange { offset: self.cursor, len: count }
        } else {
            ReadRange { offset: self.cursor, len: self.size - self.cursor }
        }
    }

    /// Records that a read returned `n` bytes: the cursor moves past them.
    pub fn advance(&mut self, n: u64)
        requires
            n <= u64::MAX - old(self).cursor,
        ensures
            final(self).size == old(self).size,
            final(self).cursor == old(self).cursor + n,
    {
        self.cursor = self.cursor + n;
    }
}

/// The cursor after a read of `count` bytes at `cursor`.
pub open spec fn next_cursor(cursor: u64, size: u64, count: u64) -> u64 {
    (cursor + read_len(cursor, size, count)) as u64
}

/// The bytes that reads of `count` bytes each return, from `cursor` until
/// a read comes back empty.
pub open spec fn bytes_until_eof(cursor: u64, size: u64, count: u64) -> nat
    decreases size - cursor,
{
    if count == 0 || cursor >= size {
        0
    } else {
        read_len(cursor, size, count) + bytes_until_eof(next_cursor(cursor, size, count), size, count)
    }
}

/// A seek to `n` bytes before the end, then a read of `n` bytes, covers
/// exactly the last `n` bytes of the file.
pub proof fn law_seek_end_reads_tail(h: FileCursor, n: u64)
    requires
        n <= h.size,
        n <= i64::MAX,
    ensures
        is_offset(seek_target(h.cursor, h.size, SeekFrom::End((-(n as int)) as i64))),
        seek_target(h.cursor, h.size, SeekFrom::End((-(n as int)) as i64)) == h.size - n,
        read_len((h.size - n) as u64, h.size, n) == n,
{
}

/// Reading with any positive count from `cursor` until a read comes back
/// empty returns the rest of the file: from offset 0, its size.
pub proof fn law_reads_cover_file(cursor: u64, size: u64, count: u64)
    requires
        count > 0,
        cursor <= size,
    ensures
        bytes_until_eof(cursor, size, count) == size - cursor,
    decreases size - cursor,
{
    if cursor < size {
        law_reads_cover_file(next_cursor(cursor, size, count), size, count);
    }
}

/// The cursor after a sequence of reads.
pub open spec fn after_reads(cursor: u64, size: u64, counts: Seq<u64>) -> u64
    decreases counts.len(),
{
    if counts.len() == 0 {
        cursor
    } else {
        let c = after_reads(cursor, size, counts.drop_last());
        next_cursor(c, size, counts.last())
    }
}

/// The counts of the reads made on the first handle (`true`) or the second.
pub open spec fn reads_of(ops: Seq<(bool, u64)>, first: bool) -> Seq<u64>
    decreases ops.len(),
{
    if ops.len() == 0 {
        Seq::empty()
    } else if ops.last().0 == first {
        reads_of(ops.drop_last(), first).push(ops.last().1)
    } else {
        reads_of(ops.drop_last(), first)
    }
}

/// The cursors of two handles after interleaved reads.
pub open spec fn interleaved(a: FileCursor, b: FileCursor, ops: Seq<(bool, u64)>) -> (u64, u64)
    decreases ops.len(),
{
    if ops.len() == 0 {
        (a.cursor, b.cursor)
    } else {
        let (ca, cb) = interleaved(a, b, ops.drop_last());
        if ops.last().0 {
            (next_cursor(ca, a.size, ops.last().1), cb)
        } else {
            (ca, next_cursor(cb, b.size, ops.last().1))
        }
    }
}

/// Two handles read in any interleaving end where each would have ended
/// reading alone: neither moves the other's cursor.
pub proof fn law_handles_independent(a: FileCursor, b: FileCursor, ops: Seq<(bool, u64)>)
    ensures
        interleaved(a, b, ops) == (after_reads(a.cursor, a.size, reads_of(ops, true)), after_reads(
            b.cursor,
            b.size,
            reads_of(ops, false),
        )),
    decreases ops.len(),
{
    if ops.len() > 0 {
        law_handles_independent(a, b, ops.drop_last());
        let ra = reads_of(ops, true);
        let rb = reads_of(ops, false);
        if ops.last().0 {
            assert(ra.drop_last() == reads_of(ops.drop_last(), true));
        } else {
            assert(rb.drop_last() == reads_of(ops.drop_last(), false));
        }
    }
}

} // verus!
