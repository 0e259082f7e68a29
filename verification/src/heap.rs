//! The bookkeeping of a heap that grows and shrinks at one end: a fixed
//! number of bytes, and a watermark below which the bytes are handed out.

use vstd::prelude::*;

verus! {

/// What a request to move the watermark comes to.
#[derive(Debug, Copy, Clone, PartialEq, Eq, Structural)]
pub enum Break {
    /// The watermark has moved. The bytes from `old` up to the new watermark
    /// are the caller's, where it moved up.
    Moved { old: usize },
    /// The watermark would pass the end of the heap. It has not moved.
    OutOfMemory,
    /// The watermark would go below the start of the heap. It has not moved.
    BelowStart,
}

/// Where a watermark at `watermark`, in a heap of `size` bytes, goes for a
/// request of `incr` bytes.
pub open spec fn break_after(size: int, watermark: int, incr: int) -> Break {
    if watermark + incr < 0 {
        Break::BelowStart
    } else if watermark + incr > size {
        Break::OutOfMemory
    } else {
        Break::Moved { old: watermark as usize }
    }
}

/// Decides a request of `incr` bytes, for a heap of `size` bytes with its
/// watermark at `watermark`: the new watermark, and what to tell the caller.
pub fn next_break(size: usize, watermark: usize, incr: i32) -> (r: (usize, Break))
    requires
        watermark <= size,
    ensures
        r.1 == break_after(size as int, watermark as int, incr as int),
        r.0 == if r.1 is Moved {
            watermark + incr
        } else {
            watermark as int
        },
        r.0 <= size,
{
    let target: i128 = watermark as i128 + incr as i128;
    if target < 0 {
        (watermark, Break::BelowStart)
    } else if target > size as i128 {
        (watermark, Break::OutOfMemory)
    } else {
        (target as usize, Break::Moved { old: watermark })
    }
}

/// A heap of `N` bytes, of which the first `watermark()` are handed out.
pub struct StaticHeap<const N: usize> {
    watermark: usize,
}

impl<const N: usize> StaticHeap<N> {
    /// The number of bytes handed out.
    pub closed spec fn watermark(&self) -> usize {
        self.watermark
    }

    /// The watermark lies within the heap.
    pub open spec fn wf(&self) -> bool {
        self.watermark() <= N
    }

    /// A heap of which nothing is handed out.
    pub fn new() -> (r: Self)
        ensures
            r.wf(),
            r.watermark() == 0,
    {
        StaticHeap { watermark: 0 }
    }

    pub fn size(&self) -> (r: usize)
        ensures
            r == N,
    {
        N
    }

    /// Moves the watermark by `incr` bytes, up or down, if it stays within the
    /// heap.
    pub fn sbrk(&mut self, incr: i32) -> (r: Break)
        requires
            old(self).wf(),
        ensures
            final(self).wf(),
            r == break_after(N as int, old(self).watermark() as int, incr as int),
            final(self).watermark() == if r is Moved {
                old(self).watermark() + incr
            } else {
                old(self).watermark() as int
            },
    {
        let (watermark, r) = next_break(N, self.watermark, incr);
        self.watermark = watermark;
        r
    }
}

/// A request that is granted can be taken back: after the watermark has moved
/// by `incr`, a request of `-incr` moves it to where it was.
pub proof fn lemma_break_is_undone(size: int, watermark: int, incr: int)
    requires
        0 <= watermark <= size,
        break_after(size, watermark, incr) is Moved,
    ensures
        break_after(size, watermark + incr, -incr) == (Break::Moved {
            old: (watermark + incr) as usize,
        }),
        (watermark + incr) + (-incr) == watermark,
{
}

} // verus!
