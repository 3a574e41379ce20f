//! Thread stacks as the kernel wants them laid out.

use vstd::prelude::*;

verus! {

/// The smallest multiple of `align` that is not below `size`.
pub open spec fn rounded_up(size: int, align: int) -> int {
    if size % align == 0 {
        size
    } else {
        size + (align - size % align)
    }
}

/// Adjusts a stack size for the alignment that the kernel asks of stacks.
/// The reservation is not part of it: it has its own field in the stack.
pub fn stack_len(size: usize, align: usize) -> (r: usize)
    requires
        align > 0,
        rounded_up(size as int, align as int) <= usize::MAX,
    ensures
        r == rounded_up(size as int, align as int),
        r % align == 0,
        size <= r < size + align,
{
    let rem = size % align;
    let r = if rem == 0 {
        size
    } else {
        size + (align - rem)
    };
    assert(r % align == 0) by (nonlinear_arith)
        requires
            align > 0,
            rem == size % align,
            r == (if rem == 0 {
                size as int
            } else {
                size + (align - rem)
            }),
    ;
    r
}

/// The memory of a thread's stack, `SIZE` bytes of it.
pub struct ThreadStack<const SIZE: usize> {
    pub data: [u8; SIZE],
}

/// What the kernel is told of a stack: where it starts and how large it is.
#[derive(Debug, Clone, Copy, PartialEq, Eq, Structural)]
pub struct StackToken {
    pub base: usize,
    pub size: usize,
}

impl<const SIZE: usize> ThreadStack<SIZE> {
    /// The size of this stack, without any reservation.
    pub fn size(&self) -> (r: usize)
        ensures
            r == SIZE,
    {
        self.data.len()
    }

    /// The token for this stack, which lies at the address `base`.
    pub fn token(&self, base: usize) -> (r: StackToken)
        ensures
            r == (StackToken { base, size: SIZE }),
    {
        StackToken { base, size: self.size() }
    }
}

} // verus!
