//! The arithmetic of an HDA stream's buffers.

use std::marker::PhantomData;
use vstd::prelude::*;
use crate::adsp::dma_buffer::{DMAAllocator, DMABuffer};

verus! {

/// The length that is handed to the stream for `len` bytes: the next
/// multiple of 128 above `len`.
pub open spec fn aligned_up(len: u32) -> int {
    len + (128 - len % 128)
}

/// Rounds a length up to the next multiple of 128 above it. A length that is
/// a multiple already gains 128.
pub fn align_up(len: u32) -> (r: u32)
    requires
        aligned_up(len) <= u32::MAX,
    ensures
        r == aligned_up(len),
        r % 128 == 0,
        len < r <= len + 128,
{
    let rem = len % 128;
    len + (128 - rem)
}

/// The sum of the first `k` lengths.
pub open spec fn total_upto(buf_lens: Seq<u32>, k: nat) -> nat
    decreases k,
{
    if k == 0 || k > buf_lens.len() {
        0
    } else {
        total_upto(buf_lens, (k - 1) as nat) + buf_lens[k - 1] as nat
    }
}

/// The lengths that a stream can be configured with: at least two buffers,
/// each a multiple of 128 bytes long, and together no longer than the
/// stream's length register can say.
pub open spec fn lengths_ok(buf_lens: Seq<u32>) -> bool {
    &&& buf_lens.len() >= 2
    &&& forall|i: int| 0 <= i < buf_lens.len() ==> #[trigger] buf_lens[i] % 128 == 0
    &&& total_upto(buf_lens, buf_lens.len()) <= u32::MAX
}

/// Whether a stream can be configured with these lengths.
pub fn check_lengths(buf_lens: &Vec<u32>) -> (r: bool)
    ensures
        r == lengths_ok(buf_lens@),
{
    if buf_lens.len() < 2 {
        return false;
    }
    let mut total: u32 = 0;
    let mut i: usize = 0;
    while i < buf_lens.len()
        invariant
            i <= buf_lens.len(),
            buf_lens.len() >= 2,
            total == total_upto(buf_lens@, i as nat),
            forall|j: int| 0 <= j < i ==> #[trigger] buf_lens[j] % 128 == 0,
        decreases buf_lens.len() - i,
    {
        if buf_lens[i] % 128 != 0 {
            return false;
        }
        if buf_lens[i] > u32::MAX - total {
            proof {
                lemma_total_grows(buf_lens@, i as nat + 1);
            }
            return false;
        }
        total = total + buf_lens[i];
        i = i + 1;
    }
    true
}

/// The sum only grows.
proof fn lemma_total_grows(buf_lens: Seq<u32>, k: nat)
    requires
        k <= buf_lens.len(),
    ensures
        total_upto(buf_lens, k) <= total_upto(buf_lens, buf_lens.len()),
    decreases buf_lens.len() - k,
{
    if k < buf_lens.len() {
        lemma_total_grows(buf_lens, k + 1);
    }
}

/// What the stream's registers are set to for a list of buffers.
#[derive(Debug, Clone, Copy, PartialEq, Eq, Structural)]
pub struct StreamSetup {
    /// The upper half of the address of the buffer descriptor list.
    pub bdl_upper: u32,
    /// The lower half of that address.
    pub bdl_lower: u32,
    /// The length of all buffers together.
    pub cyclic_length: u32,
    /// The index of the last buffer.
    pub last_valid_index: usize,
    /// The size of the buffer descriptor list: 16 bytes for each buffer.
    pub bdl_size: usize,
}

/// The two halves of an address fit together to the address.
pub open spec fn halves_of(addr: u64) -> (u32, u32) {
    ((addr / 0x1_0000_0000) as u32, (addr % 0x1_0000_0000) as u32)
}

/// Works out the register values for a stream over buffers of the given
/// lengths, with its buffer descriptor list at `bdl_phys_addr`.
pub fn plan_stream(bdl_phys_addr: u64, buf_lens: &Vec<u32>) -> (r: StreamSetup)
    requires
        lengths_ok(buf_lens@),
        buf_lens.len() * 16 <= usize::MAX,
    ensures
        (r.bdl_upper, r.bdl_lower) == halves_of(bdl_phys_addr),
        r.cyclic_length == total_upto(buf_lens@, buf_lens@.len()),
        r.last_valid_index == buf_lens.len() - 1,
        r.bdl_size == buf_lens.len() * 16,
{
    let mut buffer_length: u32 = 0;
    let mut i: usize = 0;
    while i < buf_lens.len()
        invariant
            i <= buf_lens.len(),
            buffer_length == total_upto(buf_lens@, i as nat),
            total_upto(buf_lens@, buf_lens@.len()) <= u32::MAX,
        decreases buf_lens.len() - i,
    {
        proof {
            lemma_total_grows(buf_lens@, i as nat + 1);
        }
        buffer_length = buffer_length + buf_lens[i];
        i = i + 1;
    }
    let upper = ((bdl_phys_addr >> 32) & 0xFFFF_FFFF) as u32;
    let lower = (bdl_phys_addr & 0xFFFF_FFFF) as u32;
    assert((bdl_phys_addr >> 32) & 0xFFFF_FFFF == bdl_phys_addr / 0x1_0000_0000) by (bit_vector);
    assert(bdl_phys_addr & 0xFFFF_FFFF == bdl_phys_addr % 0x1_0000_0000) by (bit_vector);
    StreamSetup {
        bdl_upper: upper,
        bdl_lower: lower,
        cyclic_length: buffer_length,
        last_valid_index: buf_lens.len() - 1,
        bdl_size: buf_lens.len() * 16,
    }
}

/// The state of a stream that was reset. A mark for the type of a stream; no value
/// of it is ever needed.
pub enum Reset {
    Mark,
}

/// The state of a stream that has its buffers. A mark for the type of a stream; no value
/// of it is ever needed.
pub enum Configured {
    Mark,
}

/// The state of a stream that runs. A mark for the type of a stream; no value
/// of it is ever needed.
pub enum Streaming {
    Mark,
}

/// The states of a stream.
pub trait HDAStreamState {
}

impl HDAStreamState for Reset {
}

impl HDAStreamState for Configured {
}

impl HDAStreamState for Streaming {
}

/// The direction of a stream into the device. A mark for the type of a stream; no value
/// of it is ever needed.
pub enum InStream {
    Mark,
}

/// The direction of a stream out to the device. A mark for the type of a stream; no value
/// of it is ever needed.
pub enum OutStream {
    Mark,
}

/// The directions of a stream.
pub trait HDAStreamDirection {
}

impl HDAStreamDirection for InStream {
}

impl HDAStreamDirection for OutStream {
}

/// The bookkeeping of one stream of the device: its number, its buffers and
/// the buffer that is written to. The state is part of the type: only a
/// stream that was reset can be configured, only a configured one started.
pub struct HDAStream<D: HDAStreamDirection, S: HDAStreamState> {
    pub stream_id: usize,
    pub buf_idx: usize,
    pub bufs: Vec<DMABuffer>,
    pub _state: PhantomData<S>,
    pub _direction: PhantomData<D>,
}

/// What configuring a stream asks of the device: the buffer that holds the
/// descriptor list, the stream number for the control register, and the
/// values of the address and length registers.
#[derive(Debug, Clone, Copy, PartialEq, Eq, Structural)]
pub struct Configuration {
    pub bdl_buf: DMABuffer,
    pub stream: u8,
    pub setup: StreamSetup,
}

/// What so many buffers of these lengths take from an allocator, their
/// descriptor list included.
pub open spec fn bytes_needed(buf_lens: Seq<u32>) -> nat {
    total_upto(buf_lens, buf_lens.len()) + 16 * buf_lens.len()
}

/// The allocator after the first `k` lengths were asked of it one after the
/// other, and the buffers that it handed out.
pub open spec fn handed_out<A: DMAAllocator>(allocator: A, buf_lens: Seq<u32>, k: nat) -> (
    A,
    Seq<DMABuffer>,
)
    decreases k,
{
    if k == 0 || k > buf_lens.len() {
        (allocator, Seq::empty())
    } else {
        let (before, bufs) = handed_out(allocator, buf_lens, (k - 1) as nat);
        (
            before.taken(buf_lens[k - 1] as usize),
            bufs.push(before.handed(buf_lens[k - 1] as usize)),
        )
    }
}

/// The buffers have the lengths asked for, and nothing is written to them.
pub open spec fn fresh_buffers(bufs: Seq<DMABuffer>, buf_lens: Seq<u32>) -> bool {
    &&& bufs.len() == buf_lens.len()
    &&& forall|i: int|
        0 <= i < bufs.len() ==> (#[trigger] bufs[i]).sz == buf_lens[i] && bufs[i].pos == 0
}

impl<D: HDAStreamDirection, S: HDAStreamState> HDAStream<D, S> {
    /// The stream's number fits the control register.
    pub open spec fn wf(&self) -> bool {
        self.stream_id <= u8::MAX
    }

    /// Resets the stream: it keeps its number and loses its buffers.
    pub fn reset(self) -> (r: HDAStream<D, Reset>)
        ensures
            r.stream_id == self.stream_id,
            r.buf_idx == 0,
            r.bufs@.len() == 0,
    {
        HDAStream {
            stream_id: self.stream_id,
            buf_idx: 0,
            bufs: Vec::new(),
            _direction: self._direction,
            _state: PhantomData,
        }
    }
}

/// The sum of the lengths.
pub fn total_length(buf_lens: &Vec<u32>) -> (r: u32)
    requires
        total_upto(buf_lens@, buf_lens@.len()) <= u32::MAX,
    ensures
        r == total_upto(buf_lens@, buf_lens@.len()),
{
    let mut total: u32 = 0;
    let mut i: usize = 0;
    while i < buf_lens.len()
        invariant
            i <= buf_lens.len(),
            total == total_upto(buf_lens@, i as nat),
            total_upto(buf_lens@, buf_lens@.len()) <= u32::MAX,
        decreases buf_lens.len() - i,
    {
        proof {
            lemma_total_grows(buf_lens@, i as nat + 1);
        }
        total = total + buf_lens[i];
        i = i + 1;
    }
    total
}

impl<D: HDAStreamDirection> HDAStream<D, Reset> {
    /// Whether the stream can be configured with buffers of these lengths
    /// from this allocator.
    pub fn can_configure<A: DMAAllocator>(&self, allocator: &A, buf_lens: &Vec<u32>) -> (r: bool)
        ensures
            r == (self.wf() && allocator.wf() && lengths_ok(buf_lens@) && bytes_needed(buf_lens@)
                <= allocator.room() && bytes_needed(buf_lens@) <= usize::MAX),
    {
        if self.stream_id > 255 || !check_lengths(buf_lens) {
            return false;
        }
        let total = total_length(buf_lens) as usize;
        if buf_lens.len() > (usize::MAX - total) / 16 {
            return false;
        }
        allocator.has_room(total + 16 * buf_lens.len())
    }

    /// The stream with the given number, without buffers.
    pub fn open(stream_id: u8) -> (r: Self)
        ensures
            r.stream_id == stream_id,
            r.buf_idx == 0,
            r.bufs@.len() == 0,
            r.wf(),
    {
        HDAStream {
            stream_id: stream_id as usize,
            buf_idx: 0,
            bufs: Vec::new(),
            _state: PhantomData,
            _direction: PhantomData,
        }
    }

    /// Configures the stream with buffers of the given lengths, taken from
    /// the allocator one after the other, and a buffer for their descriptor
    /// list taken last.
    pub fn configure<A: DMAAllocator>(self, allocator: &mut A, buf_lens: &Vec<u32>) -> (r: (
        HDAStream<D, Configured>,
        Configuration,
    ))
        requires
            self.wf(),
            old(allocator).wf(),
            lengths_ok(buf_lens@),
            bytes_needed(buf_lens@) <= old(allocator).room(),
            bytes_needed(buf_lens@) <= usize::MAX,
        ensures
            r.0.stream_id == self.stream_id,
            r.0.buf_idx == 0,
            r.0.bufs@ == handed_out(*old(allocator), buf_lens@, buf_lens@.len()).1,
            r.1.bdl_buf == handed_out(*old(allocator), buf_lens@, buf_lens@.len()).0.handed(
                (16 * buf_lens@.len()) as usize,
            ),
            *final(allocator) == handed_out(*old(allocator), buf_lens@, buf_lens@.len()).0.taken(
                (16 * buf_lens@.len()) as usize,
            ),
            fresh_buffers(r.0.bufs@, buf_lens@),
            r.1.bdl_buf.sz == 16 * buf_lens@.len(),
            r.1.bdl_buf.pos == 0,
            r.1.stream == self.stream_id,
            (r.1.setup.bdl_upper, r.1.setup.bdl_lower) == halves_of(r.1.bdl_buf.phys_addr as u64),
            r.1.setup.cyclic_length == total_upto(buf_lens@, buf_lens@.len()),
            r.1.setup.last_valid_index == buf_lens@.len() - 1,
            r.1.setup.bdl_size == 16 * buf_lens@.len(),
            final(allocator).wf(),
            final(allocator).room() >= old(allocator).room() - bytes_needed(buf_lens@),
    {
        let mut dma_bufs: Vec<DMABuffer> = Vec::new();
        let mut i: usize = 0;
        while i < buf_lens.len()
            invariant
                i <= buf_lens.len(),
                allocator.wf(),
                bytes_needed(buf_lens@) <= old(allocator).room(),
                bytes_needed(buf_lens@) <= usize::MAX,
                allocator.room() >= old(allocator).room() - total_upto(buf_lens@, i as nat),
                (*allocator, dma_bufs@) == handed_out(*old(allocator), buf_lens@, i as nat),
                dma_bufs@.len() == i,
                forall|j: int|
                    0 <= j < i ==> (#[trigger] dma_bufs@[j]).sz == buf_lens@[j] && dma_bufs@[j].pos
                        == 0,
            decreases buf_lens.len() - i,
        {
            proof {
                lemma_total_grows(buf_lens@, i as nat + 1);
            }
            let buf = allocator.allocate(buf_lens[i] as usize);
            dma_bufs.push(buf);
            i = i + 1;
        }
        // Each entry of the descriptor list is 16 bytes: the address of the
        // buffer, its size, and flags that stay clear.
        let bdl_buf = allocator.allocate(buf_lens.len() * 16);
        let setup = plan_stream(bdl_buf.phys_addr as u64, buf_lens);
        (
            HDAStream {
                stream_id: self.stream_id,
                buf_idx: 0,
                bufs: dma_bufs,
                _direction: self._direction,
                _state: PhantomData,
            },
            Configuration { bdl_buf, stream: self.stream_id as u8, setup },
        )
    }
}

impl<D: HDAStreamDirection> HDAStream<D, Configured> {
    /// Starts the stream: it keeps all it has.
    pub fn start(self) -> (r: HDAStream<D, Streaming>)
        ensures
            r.stream_id == self.stream_id,
            r.buf_idx == self.buf_idx,
            r.bufs@ == self.bufs@,
    {
        HDAStream {
            stream_id: self.stream_id,
            buf_idx: self.buf_idx,
            bufs: self.bufs,
            _direction: self._direction,
            _state: PhantomData,
        }
    }
}

/// What writing `len` bytes does to the buffers, from buffer `idx` on, with
/// `remaining` of the bytes not yet placed: every buffer is offered all
/// `len` bytes and takes what fits, and the next buffer is the one before.
/// The result is the buffers and what remains; `None` where a buffer takes
/// more than remains, or buffers run out.
pub open spec fn spread(bufs: Seq<DMABuffer>, idx: int, len: usize, remaining: int) -> Option<
    (Seq<DMABuffer>, int),
>
    decreases idx,
{
    if !(0 <= idx < bufs.len()) || !bufs[idx].wf() {
        None
    } else {
        let taken = bufs[idx].room_for(len);
        let after = bufs.update(
            idx,
            DMABuffer { pos: (bufs[idx].pos + taken) as usize, ..bufs[idx] },
        );
        if remaining < taken {
            None
        } else if remaining == taken || idx >= bufs.len() - 1 {
            Some((after, remaining - taken))
        } else if idx == 0 {
            None
        } else {
            spread(after, idx - 1, len, remaining - taken)
        }
    }
}

/// Whether a write succeeds depends on the buffers up to `idx` only.
proof fn lemma_spread_below(a: Seq<DMABuffer>, b: Seq<DMABuffer>, idx: int, len: usize, remaining: int)
    requires
        a.len() == b.len(),
        forall|i: int| 0 <= i <= idx && i < a.len() ==> a[i] == b[i],
    ensures
        spread(a, idx, len, remaining) is Some <==> spread(b, idx, len, remaining) is Some,
    decreases idx,
{
    if 0 <= idx < a.len() && a[idx].wf() {
        let taken = a[idx].room_for(len);
        if !(remaining < taken) && !(remaining == taken || idx >= a.len() - 1) && idx != 0 {
            let a2 = a.update(idx, DMABuffer { pos: (a[idx].pos + taken) as usize, ..a[idx] });
            let b2 = b.update(idx, DMABuffer { pos: (b[idx].pos + taken) as usize, ..b[idx] });
            lemma_spread_below(a2, b2, idx - 1, len, remaining - taken);
        }
    }
}

impl HDAStream<OutStream, Configured> {
    /// Whether `len` bytes can be written: no buffer on the way takes more
    /// than is left to place, and the buffers do not run out.
    pub fn can_write(&self, len: usize) -> (r: bool)
        ensures
            r == spread(self.bufs@, self.buf_idx as int, len, len as int) is Some,
    {
        let mut remaining = len;
        let mut idx = self.buf_idx;
        loop
            invariant
                remaining <= len,
                spread(self.bufs@, idx as int, len, remaining as int) is Some <==> spread(
                    self.bufs@,
                    self.buf_idx as int,
                    len,
                    len as int,
                ) is Some,
            decreases idx,
        {
            if idx >= self.bufs.len() {
                return false;
            }
            let buffer = self.bufs[idx];
            if buffer.pos > buffer.sz {
                return false;
            }
            let free_space = buffer.sz - buffer.pos;
            let taken = if free_space < len { free_space } else { len };
            if remaining < taken {
                return false;
            }
            if remaining == taken || idx >= self.bufs.len() - 1 {
                return true;
            }
            if idx == 0 {
                return false;
            }
            proof {
                let after = self.bufs@.update(
                    idx as int,
                    DMABuffer { pos: (buffer.pos + taken) as usize, ..buffer },
                );
                lemma_spread_below(after, self.bufs@, idx - 1, len, remaining - taken);
            }
            remaining = remaining - taken;
            idx = idx - 1;
        }
    }

    /// Places `len` bytes in the stream's buffers, and returns how many of
    /// them found a place. The device's position register moves on by `len`.
    pub fn write(&mut self, len: usize) -> (written: usize)
        requires
            spread(old(self).bufs@, old(self).buf_idx as int, len, len as int) is Some,
        ensures
            final(self).stream_id == old(self).stream_id,
            final(self).buf_idx == old(self).buf_idx,
            (final(self).bufs@, len - written) == spread(
                old(self).bufs@,
                old(self).buf_idx as int,
                len,
                len as int,
            )->0,
    {
        let mut write_len = len;
        let mut buf_idx = self.buf_idx;
        loop
            invariant_except_break
                spread(self.bufs@, buf_idx as int, len, write_len as int) is Some,
                spread(self.bufs@, buf_idx as int, len, write_len as int) == spread(
                    old(self).bufs@,
                    old(self).buf_idx as int,
                    len,
                    len as int,
                ),
            invariant
                self.stream_id == old(self).stream_id,
                self.buf_idx == old(self).buf_idx,
                write_len <= len,
            ensures
                self.stream_id == old(self).stream_id,
                self.buf_idx == old(self).buf_idx,
                write_len <= len,
                Some((self.bufs@, write_len as int)) == spread(
                    old(self).bufs@,
                    old(self).buf_idx as int,
                    len,
                    len as int,
                ),
            decreases buf_idx,
        {
            let mut buf = self.bufs[buf_idx];
            let ghost before = self.bufs@;
            let taken = buf.write(len);
            self.bufs.set(buf_idx, buf);
            assert(self.bufs@ == before.update(buf_idx as int, buf));
            write_len = write_len - taken;
            if write_len == 0 || buf_idx >= self.bufs.len() - 1 {
                break ;
            }
            buf_idx = buf_idx - 1;
        }
        len - write_len
    }
}

} // verus!
