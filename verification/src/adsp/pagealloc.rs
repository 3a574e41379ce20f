//! Handing out DMA buffers from one huge page.

use vstd::prelude::*;
use crate::adsp::dma_buffer::{DMAAllocator, DMABuffer};

verus! {

pub const PAGE_SIZE: u64 = 4096;

pub const HUGEPAGE_SIZE: u64 = 2 * 1024 * 1024;

/// The frame number in an entry of the kernel's page map: its low 55 bits.
pub open spec fn frame_of(entry: u64) -> u64 {
    entry & 0x7f_ffff_ffff_ffff
}

/// The physical address of the page that an entry of the kernel's page map
/// describes.
pub fn phys_addr_of(entry: u64) -> (r: u64)
    requires
        frame_of(entry) * PAGE_SIZE <= u64::MAX,
    ensures
        r == frame_of(entry) * PAGE_SIZE,
{
    (entry & 0x7f_ffff_ffff_ffff) * PAGE_SIZE
}

/// The index of the page map entry for a virtual address.
pub fn page_number(virt_addr: usize) -> (r: usize)
    ensures
        r == virt_addr / 4096,
{
    assert(virt_addr >> 12 == virt_addr / 4096) by (bit_vector);
    virt_addr >> 12
}

/// A huge page that is handed out piece by piece.
#[derive(Debug, Clone, Copy, PartialEq, Eq, Structural)]
pub struct HugePage {
    pub phys_addr: usize,
    pub virt_addr: usize,
    pub used: usize,
}

impl HugePage {
    /// The page at the given addresses, all of it free.
    pub fn open(phys_addr: usize, virt_addr: usize) -> (r: HugePage)
        ensures
            r == (HugePage { phys_addr, virt_addr, used: 0 }),
    {
        HugePage { phys_addr, virt_addr, used: 0 }
    }

    /// Hands out the next `sz` bytes of the page. The buffer starts where
    /// the last one ended; its device address is the page's plus `sz`.
    pub fn take(&mut self, sz: usize) -> (r: DMABuffer)
        requires
            old(self).wf(),
            sz <= old(self).room(),
        ensures
            final(self).wf(),
            final(self).room() >= old(self).room() - sz,
            r == (DMABuffer {
                p: (old(self).virt_addr + old(self).used) as usize,
                sz,
                phys_addr: (old(self).phys_addr + sz) as usize,
                pos: 0,
            }),
            *final(self) == (HugePage { used: (old(self).used + sz) as usize, ..*old(self) }),
    {
        let p = self.virt_addr + self.used;
        self.used = self.used + sz;
        let phys_addr = self.phys_addr + sz;
        DMABuffer { p, sz, phys_addr, pos: 0 }
    }
}

impl DMAAllocator for HugePage {
    /// What was handed out lies inside the address space.
    open spec fn wf(&self) -> bool {
        self.virt_addr + self.used <= usize::MAX
    }

    /// What can be handed out without an address beyond the address space.
    open spec fn room(&self) -> nat {
        let virt = usize::MAX - self.virt_addr - self.used;
        let phys = usize::MAX - self.phys_addr;
        if virt < 0 {
            0
        } else if virt < phys {
            virt as nat
        } else {
            phys as nat
        }
    }

    /// The next `sz` bytes of the page. The buffer starts where the last one
    /// ended; its device address is the page's plus `sz`.
    open spec fn handed(&self, sz: usize) -> DMABuffer {
        DMABuffer {
            p: (self.virt_addr + self.used) as usize,
            sz,
            phys_addr: (self.phys_addr + sz) as usize,
            pos: 0,
        }
    }

    open spec fn taken(&self, sz: usize) -> HugePage {
        HugePage { used: (self.used + sz) as usize, ..*self }
    }

    fn has_room(&self, sz: usize) -> (r: bool) {
        self.used <= usize::MAX - self.virt_addr && sz <= usize::MAX - self.virt_addr - self.used
            && sz <= usize::MAX - self.phys_addr
    }

    fn allocate(&mut self, sz: usize) -> (r: DMABuffer) {
        self.take(sz)
    }
}

} // verus!
