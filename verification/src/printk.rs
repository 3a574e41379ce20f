//! Console output in pieces that fit the kernel's string-out call.
//!
//! Text is gathered in a small buffer and handed on whenever the next
//! character might not fit: a piece never ends inside a UTF-8 sequence.

use vstd::prelude::*;
use vstd::string::StringSliceAdditionalSpecFns;

verus! {

/// The size of the buffer, and so the most that one piece holds.
pub const BUF_SIZE: usize = 32;

/// How many bytes the UTF-8 sequence that starts with `byte` has. A byte
/// that starts none counts as one.
pub open spec fn utf8_len(byte: u8) -> nat {
    if byte < 0x80 {
        1
    } else if 0xC0 <= byte < 0xE0 {
        2
    } else if 0xE0 <= byte < 0xF0 {
        3
    } else if 0xF0 <= byte < 0xF8 {
        4
    } else {
        1
    }
}

/// How many bytes the UTF-8 sequence that starts with `byte` has.
pub fn utf8_byte_length(byte: u8) -> (r: usize)
    ensures
        r == utf8_len(byte),
        1 <= r <= 4,
{
    assert(byte & 0b1000_0000 == 0 <==> byte < 0x80) by (bit_vector);
    assert(byte & 0b1110_0000 == 0b1100_0000 <==> 0xC0 <= byte < 0xE0) by (bit_vector);
    assert(byte & 0b1111_0000 == 0b1110_0000 <==> 0xE0 <= byte < 0xF0) by (bit_vector);
    assert(byte & 0b1111_1000 == 0b1111_0000 <==> 0xF0 <= byte < 0xF8) by (bit_vector);
    if byte & 0b1000_0000 == 0 {
        // Single byte (0xxxxxxx)
        1
    } else if byte & 0b1110_0000 == 0b1100_0000 {
        // Two-byte sequence (110xxxxx)
        2
    } else if byte & 0b1111_0000 == 0b1110_0000 {
        // Three-byte sequence (1110xxxx)
        3
    } else if byte & 0b1111_1000 == 0b1111_0000 {
        // Four-byte sequence (11110xxx)
        4
    } else {
        // Continuation byte or invalid (10xxxxxx)
        1
    }
}

/// What has become of the bytes written so far: the pieces handed on, in
/// order, and the bytes still in the buffer.
pub struct Output {
    pub sent: Seq<Seq<u8>>,
    pub pending: Seq<u8>,
}

/// Nothing written yet.
pub open spec fn blank() -> Output {
    Output { sent: Seq::empty(), pending: Seq::empty() }
}

/// The output after the buffer was handed on, if it held anything.
pub open spec fn flushed(o: Output) -> Output {
    if o.pending.len() > 0 {
        Output { sent: o.sent.push(o.pending), pending: Seq::empty() }
    } else {
        o
    }
}

/// The output after one more byte: the buffer is handed on first where the
/// whole sequence that the byte starts would not fit.
pub open spec fn added(o: Output, b: u8) -> Output {
    let o2 = if o.pending.len() + utf8_len(b) > BUF_SIZE {
        flushed(o)
    } else {
        o
    };
    Output { sent: o2.sent, pending: o2.pending.push(b) }
}

/// The output after more bytes.
pub open spec fn written(o: Output, bytes: Seq<u8>) -> Output
    decreases bytes.len(),
{
    if bytes.len() == 0 {
        o
    } else {
        added(written(o, bytes.drop_last()), bytes.last())
    }
}

/// The pieces in which a message goes out.
pub open spec fn printed(bytes: Seq<u8>) -> Seq<Seq<u8>> {
    flushed(written(blank(), bytes)).sent
}

/// The pieces one after the other.
pub open spec fn joined(pieces: Seq<Seq<u8>>) -> Seq<u8>
    decreases pieces.len(),
{
    if pieces.len() == 0 {
        Seq::empty()
    } else {
        joined(pieces.drop_last()) + pieces.last()
    }
}

pub open spec fn pieces_view(pieces: Seq<Vec<u8>>) -> Seq<Seq<u8>> {
    pieces.map_values(|p: Vec<u8>| p@)
}

/// The buffer with what was handed on from it.
pub struct Context {
    /// How many bytes of the buffer are used.
    pub count: usize,
    /// Bytes written.
    pub buf: [u8; BUF_SIZE],
    /// The pieces handed on.
    pub sent: Vec<Vec<u8>>,
}

impl View for Context {
    type V = Output;

    open spec fn view(&self) -> Output {
        Output { sent: pieces_view(self.sent@), pending: self.buf@.take(self.count as int) }
    }
}

impl Context {
    /// No more bytes are used than the buffer has.
    pub open spec fn wf(&self) -> bool {
        self.count <= BUF_SIZE
    }

    /// An empty buffer.
    pub fn new() -> (r: Context)
        ensures
            r.wf(),
            r@ == blank(),
    {
        let r = Context { count: 0, buf: [0;BUF_SIZE], sent: Vec::new() };
        assert(r@.pending =~= Seq::empty());
        assert(r@.sent =~= Seq::empty());
        r
    }

    /// Takes one more byte, handing the buffer on first where the sequence
    /// that the byte starts would not fit.
    pub fn add_byte(&mut self, b: u8)
        requires
            old(self).wf(),
        ensures
            final(self).wf(),
            final(self)@ == added(old(self)@, b),
    {
        // Ensure we have room for an entire UTF-8 sequence.
        if self.count + utf8_byte_length(b) > BUF_SIZE {
            self.flush();
        }
        let ghost before = self@;
        self.buf[self.count] = b;
        self.count += 1;
        assert(self@.pending =~= before.pending.push(b));
    }

    /// Hands the buffer on, if it holds anything.
    pub fn flush(&mut self)
        requires
            old(self).wf(),
        ensures
            final(self).wf(),
            final(self).count == 0,
            final(self)@ == flushed(old(self)@),
    {
        if self.count > 0 {
            let mut piece: Vec<u8> = Vec::new();
            let mut i: usize = 0;
            while i < self.count
                invariant
                    i <= self.count <= BUF_SIZE,
                    *self == *old(self),
                    piece@ == self.buf@.take(i as int),
                decreases self.count - i,
            {
                piece.push(self.buf[i]);
                i = i + 1;
            }
            let ghost before = pieces_view(self.sent@);
            self.sent.push(piece);
            self.count = 0;
            assert(pieces_view(self.sent@) =~= before.push(piece@));
            assert(self@.pending =~= Seq::empty());
        }
    }

    /// Takes the bytes of a piece of text.
    pub fn write_str(&mut self, s: &str)
        requires
            old(self).wf(),
        ensures
            final(self).wf(),
            final(self)@ == written(old(self)@, s.spec_bytes()),
    {
        let bytes = s.as_bytes();
        let mut i: usize = 0;
        assert(bytes@.take(0) =~= Seq::empty());
        while i < bytes.len()
            invariant
                i <= bytes.len(),
                bytes@ == s.spec_bytes(),
                self.wf(),
                self@ == written(old(self)@, bytes@.take(i as int)),
            decreases bytes.len() - i,
        {
            proof {
                assert(bytes@.take(i as int + 1).drop_last() =~= bytes@.take(i as int));
            }
            self.add_byte(bytes[i]);
            i = i + 1;
        }
        assert(bytes@.take(i as int) =~= bytes@);
    }
}

/// The pieces in which `msg` goes to the console.
pub fn printk(msg: &str) -> (r: Vec<Vec<u8>>)
    ensures
        pieces_view(r@) == printed(msg.spec_bytes()),
{
    let mut context = Context::new();
    context.write_str(msg);
    context.flush();
    context.sent
}

/// The pieces in which `msg` and a line feed go to the console.
pub fn printkln(msg: &str) -> (r: Vec<Vec<u8>>)
    ensures
        pieces_view(r@) == printed(msg.spec_bytes().push(10u8)),
{
    let mut context = Context::new();
    context.write_str(msg);
    context.add_byte(10u8);
    context.flush();
    assert(msg.spec_bytes().push(10u8).drop_last() =~= msg.spec_bytes());
    context.sent
}

/// Every piece holds at least one byte and no more than the buffer does.
pub open spec fn pieces_fit(o: Output) -> bool {
    &&& o.pending.len() <= BUF_SIZE
    &&& forall|i: int| 0 <= i < o.sent.len() ==> 1 <= (#[trigger] o.sent[i]).len() <= BUF_SIZE
}

proof fn lemma_written(o: Output, bytes: Seq<u8>)
    requires
        pieces_fit(o),
    ensures
        pieces_fit(written(o, bytes)),
        joined(written(o, bytes).sent) + written(o, bytes).pending == joined(o.sent) + o.pending
            + bytes,
    decreases bytes.len(),
{
    if bytes.len() == 0 {
        assert(joined(o.sent) + o.pending + bytes =~= joined(o.sent) + o.pending);
    } else {
        let head = bytes.drop_last();
        lemma_written(o, head);
        let mid = written(o, head);
        let b = bytes.last();
        let out = added(mid, b);
        if mid.pending.len() + utf8_len(b) > BUF_SIZE && mid.pending.len() > 0 {
            assert(out.sent.drop_last() =~= mid.sent);
            assert(joined(out.sent) == joined(mid.sent) + mid.pending);
        }
        assert(joined(out.sent) + out.pending =~= joined(mid.sent) + mid.pending + seq![b]);
        assert(bytes =~= head + seq![b]);
        assert(joined(o.sent) + o.pending + bytes =~= joined(o.sent) + o.pending + head + seq![b]);
    }
}

/// Nothing is lost and nothing is too long: the pieces of a message, one
/// after the other, are the message, and each holds between one byte and
/// what the buffer holds.
pub proof fn law_pieces_make_the_message(bytes: Seq<u8>)
    ensures
        joined(printed(bytes)) == bytes,
        forall|i: int|
            0 <= i < printed(bytes).len() ==> 1 <= (#[trigger] printed(bytes)[i]).len()
                <= BUF_SIZE,
{
    lemma_written(blank(), bytes);
    let w = written(blank(), bytes);
    assert(joined(blank().sent) + blank().pending + bytes =~= bytes);
    if w.pending.len() > 0 {
        assert(flushed(w).sent.drop_last() =~= w.sent);
    } else {
        assert(joined(w.sent) + w.pending =~= joined(w.sent));
    }
}

/// A sequence stays whole: once the byte that starts a UTF-8 sequence is in
/// the buffer, the bytes that continue the sequence follow it there, and
/// nothing is handed on between them.
pub proof fn law_sequences_stay_whole(o: Output, lead: u8, rest: Seq<u8>)
    requires
        o.pending.len() <= BUF_SIZE,
        rest.len() < utf8_len(lead),
        forall|i: int| 0 <= i < rest.len() ==> utf8_len(#[trigger] rest[i]) == 1,
    ensures
        written(added(o, lead), rest) == (Output {
            sent: added(o, lead).sent,
            pending: added(o, lead).pending + rest,
        }),
    decreases rest.len(),
{
    let start = added(o, lead);
    if rest.len() == 0 {
        assert(start.pending + rest =~= start.pending);
    } else {
        law_sequences_stay_whole(o, lead, rest.drop_last());
        assert(start.pending + rest =~= (start.pending + rest.drop_last()).push(rest.last()));
    }
}

} // verus!
