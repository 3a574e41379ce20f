//! Reading the firmware's log window: a ring of bytes behind a header of
//! four words, which the firmware keeps writing to.

use vstd::prelude::*;

verus! {

/// The header of the window: the length of the ring, where its content
/// starts and ends, and how many bytes were written to it in all.
#[derive(Debug, Clone, Copy, PartialEq, Eq, Structural)]
pub struct Header {
    pub wlen: u32,
    pub start: u32,
    pub end: u32,
    pub seq: u32,
}

/// Two stretches of the window to be read one after the other, each given
/// by its offset from the window's start and its length.
#[derive(Debug, Clone, Copy, PartialEq, Eq, Structural)]
pub struct RingRead {
    pub first_offset: u32,
    pub first_len: u32,
    pub second_offset: u32,
    pub second_len: u32,
}

/// What to do with the window after a look at its header.
#[derive(Debug, Clone, Copy, PartialEq, Eq, Structural)]
pub enum Step {
    /// The reader fell behind by more than the ring holds: what was missed
    /// is dropped.
    Dropped,
    /// Read these stretches, then look at the header again.
    Read(RingRead),
}

/// How often the window is looked at for one message before the reader
/// gives up.
pub const TRIES: u32 = 2;

/// What to do after the stretches were read and the header was looked at
/// again.
#[derive(Debug, Clone, Copy, PartialEq, Eq, Structural)]
pub enum Verdict {
    /// The header is as it was: what was read stands and is handed on.
    Deliver,
    /// The header moved on: look and read once more.
    Retry,
    /// The header moved on at the last try: nothing is handed on.
    GiveUp,
}

/// The reader of a window, at the address `p`: it remembers up to where it
/// has read.
#[derive(Debug, Clone, Copy, PartialEq, Eq, Structural)]
pub struct Winstream {
    pub p: usize,
    pub last_seq: u32,
}

/// How many bytes lie in the ring from `start_idx` up to `end_idx`, around
/// the end of the ring where `end_idx` is the smaller.
pub open spec fn ring_distance(start_idx: u32, end_idx: u32, buf_len: u32) -> int {
    if end_idx < start_idx {
        (end_idx + buf_len) - start_idx
    } else {
        end_idx - start_idx
    }
}

/// The stretches that hold the bytes from `start_idx` up to `end_idx`. The
/// ring starts 16 bytes into the window.
pub open spec fn ring_read(start_idx: u32, end_idx: u32, buf_len: u32) -> RingRead {
    let len = ring_distance(start_idx, end_idx, buf_len);
    if start_idx + len >= buf_len {
        RingRead {
            first_offset: (start_idx + 16) as u32,
            first_len: (buf_len - start_idx) as u32,
            second_offset: 16,
            second_len: (len - (buf_len - start_idx)) as u32,
        }
    } else {
        RingRead {
            first_offset: (start_idx + 16) as u32,
            first_len: len as u32,
            second_offset: 16,
            second_len: 0,
        }
    }
}

/// Where the unread bytes start: `behind` bytes before `end`, around the
/// start of the ring where `end` is the smaller.
pub open spec fn unread_start(h: Header, behind: u32) -> int {
    if h.end < behind {
        (h.end + h.wlen) - behind
    } else {
        h.end - behind
    }
}

impl Winstream {
    /// A reader for the window at `p` that has read nothing yet.
    pub fn open(p: usize) -> (r: Winstream)
        ensures
            r == (Winstream { p, last_seq: 0 }),
    {
        Winstream { p, last_seq: 0 }
    }

    /// A header that the reader can work with: the count of bytes written
    /// has not gone back behind what was read and, unless the reader is so
    /// far behind that it drops what it missed, the content ends inside the
    /// ring and the window's offsets fit.
    pub open spec fn accepts(&self, h: Header) -> bool {
        &&& self.last_seq == 0 || self.last_seq <= h.seq
        &&& h.seq - self.synced(h).last_seq <= h.wlen ==> {
            &&& h.end <= h.wlen
            &&& h.wlen + h.wlen <= u32::MAX
            &&& h.wlen + 16 <= u32::MAX
        }
    }

    /// Whether the reader can work with the header.
    pub fn can_begin(&self, h: Header) -> (r: bool)
        ensures
            r == self.accepts(h),
    {
        if self.last_seq != 0 && self.last_seq > h.seq {
            return false;
        }
        let behind = if self.last_seq == 0 { 0 } else { h.seq - self.last_seq };
        behind > h.wlen || (h.end <= h.wlen && h.wlen <= u32::MAX - h.wlen && h.wlen <= u32::MAX
            - 16)
    }

    /// The reader after its first look at a header: a reader that has read
    /// nothing starts at the header's count.
    pub open spec fn synced(&self, h: Header) -> Winstream {
        if self.last_seq == 0 {
            Winstream { p: self.p, last_seq: h.seq }
        } else {
            *self
        }
    }

    /// The stretches of the ring to read: from `start_idx` up to `end_idx`.
    pub fn read_ring(&self, start_idx: u32, end_idx: u32, buf_len: u32) -> (r: RingRead)
        requires
            start_idx <= buf_len,
            end_idx <= buf_len,
            buf_len + buf_len <= u32::MAX,
            buf_len + 16 <= u32::MAX,
        ensures
            r == ring_read(start_idx, end_idx, buf_len),
            r.first_len + r.second_len == ring_distance(start_idx, end_idx, buf_len),
            16 <= r.first_offset && r.first_offset + r.first_len <= 16 + buf_len,
            r.second_offset == 16 && r.second_len <= buf_len,
    {
        let read_len = if end_idx < start_idx {
            (end_idx + buf_len) - start_idx
        } else {
            end_idx - start_idx
        };
        let mut first_len = read_len;
        let mut second_len: u32 = 0;
        if start_idx + first_len >= buf_len {
            first_len = buf_len - start_idx;
            second_len = read_len - first_len;
        }
        let start_offset = start_idx + 16;
        RingRead { first_offset: start_offset, first_len, second_offset: 16, second_len }
    }

    /// The reader and the step after a look at the header `h`. A reader that
    /// is behind by more than the ring holds skips to the header's count;
    /// else the unread bytes are those before the ring's end.
    pub open spec fn begun(&self, h: Header) -> (Winstream, Step) {
        let behind = h.seq - self.synced(h).last_seq;
        if behind > h.wlen {
            (Winstream { p: self.p, last_seq: h.seq }, Step::Dropped)
        } else {
            (
                self.synced(h),
                Step::Read(ring_read(unread_start(h, behind as u32) as u32, h.end, h.wlen)),
            )
        }
    }

    /// Decides from a header what to read.
    pub fn begin(&mut self, h: Header) -> (r: Step)
        requires
            old(self).accepts(h),
        ensures
            (*final(self), r) == old(self).begun(h),
    {
        if self.last_seq == 0 {
            self.last_seq = h.seq;
        }
        // Bytes we are behind is seq - last_seq
        let bytes_behind = h.seq - self.last_seq;
        if bytes_behind > h.wlen {
            self.last_seq = h.seq;
            return Step::Dropped;
        }
        let start_idx = if h.end < bytes_behind {
            (h.end + h.wlen) - bytes_behind
        } else {
            h.end - bytes_behind
        };
        Step::Read(self.read_ring(start_idx, h.end, h.wlen))
    }

    /// What follows the try with the number `attempt`, counted from 0,
    /// given the header before the read and after it: the read stands where
    /// the header is as it was; else another try follows, but after the last.
    pub open spec fn settled(attempt: u32, before: Header, after: Header) -> Verdict {
        if before.seq == after.seq && before.start == after.start && before.end == after.end {
            Verdict::Deliver
        } else if attempt + 1 < TRIES {
            Verdict::Retry
        } else {
            Verdict::GiveUp
        }
    }

    /// Decides what follows a try. Where the read stands the reader has read
    /// up to the header's count.
    pub fn settle(&mut self, attempt: u32, before: Header, after: Header) -> (r: Verdict)
        ensures
            r == Self::settled(attempt, before, after),
            r == Verdict::Deliver ==> *final(self) == (Winstream {
                p: old(self).p,
                last_seq: before.seq,
            }),
            r != Verdict::Deliver ==> *final(self) == *old(self),
    {
        if self.finish(before, after) {
            Verdict::Deliver
        } else if attempt < TRIES - 1 {
            Verdict::Retry
        } else {
            Verdict::GiveUp
        }
    }

    /// Decides after the read whether what was read stands: it does where
    /// the header is as it was before, and the reader has then read up to
    /// the header's count.
    pub fn finish(&mut self, before: Header, after: Header) -> (r: bool)
        ensures
            r == (before.seq == after.seq && before.start == after.start && before.end
                == after.end),
            r ==> *final(self) == (Winstream { p: old(self).p, last_seq: before.seq }),
            !r ==> *final(self) == *old(self),
    {
        if before.seq == after.seq && before.start == after.start && before.end == after.end {
            self.last_seq = before.seq;
            true
        } else {
            false
        }
    }
}

} // verus!
