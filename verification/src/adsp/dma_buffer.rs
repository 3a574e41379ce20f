//! The bookkeeping of a buffer that the device reads by DMA.

use vstd::prelude::*;

verus! {

/// A buffer in memory that the device can reach: where it lies for the
/// program (`p`) and for the device (`phys_addr`), its size, and how much of
/// it is written.
#[derive(Debug, Clone, Copy, PartialEq, Eq, Structural)]
pub struct DMABuffer {
    pub p: usize,
    pub sz: usize,
    pub phys_addr: usize,
    pub pos: usize,
}

impl DMABuffer {
    /// No more is written than the buffer holds.
    pub open spec fn wf(&self) -> bool {
        self.pos <= self.sz
    }

    /// How many of `len` bytes still fit.
    pub open spec fn room_for(&self, len: usize) -> usize {
        if self.sz - self.pos < len {
            (self.sz - self.pos) as usize
        } else {
            len
        }
    }

    /// Starts writing from the beginning again.
    pub fn reset(&mut self)
        ensures
            *final(self) == (DMABuffer { pos: 0, ..*old(self) }),
            final(self).wf(),
    {
        self.pos = 0;
    }

    /// Claims room for `len` more bytes: returns how many of them fit, which
    /// go to offset `old(self).pos`, and counts them as written.
    pub fn write(&mut self, len: usize) -> (write_len: usize)
        requires
            old(self).wf(),
        ensures
            write_len == old(self).room_for(len),
            *final(self) == (DMABuffer { pos: (old(self).pos + write_len) as usize, ..*old(self) }),
            final(self).wf(),
    {
        let free_space = self.sz - self.pos;
        let write_len = if free_space < len { free_space } else { len };
        self.pos = self.pos + write_len;
        write_len
    }
}

/// What hands out DMA buffers.
pub trait DMAAllocator: Sized {
    /// The allocator's own bookkeeping is in order.
    spec fn wf(&self) -> bool;

    /// How many bytes can be handed out in any case.
    spec fn room(&self) -> nat;

    /// The buffer that a request for `sz` bytes is answered with.
    spec fn handed(&self, sz: usize) -> DMABuffer;

    /// The allocator after a request for `sz` bytes.
    spec fn taken(&self, sz: usize) -> Self;

    /// Whether `sz` more bytes can be handed out.
    fn has_room(&self, sz: usize) -> (r: bool)
        ensures
            r == (self.wf() && sz <= self.room()),
    ;

    /// Hands out a fresh buffer of `sz` bytes.
    fn allocate(&mut self, sz: usize) -> (r: DMABuffer)
        requires
            old(self).wf(),
            sz <= old(self).room(),
        ensures
            final(self).wf(),
            r == old(self).handed(sz),
            *final(self) == old(self).taken(sz),
            r.sz == sz,
            r.pos == 0,
            final(self).room() >= old(self).room() - sz,
    ;

    /// Takes a buffer back. By default nothing is done with it.
    fn free(&mut self, dma_buf: DMABuffer) {
    }
}

} // verus!
