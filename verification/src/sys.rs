//! Thin, safe forms of what the kernel works with.

pub mod thread;
