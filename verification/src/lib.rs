//! The verified core of Zephyr's Rust support.
//!
//! - [`devicetree`]: the devicetree front end of the build. It reads the
//!   ordinal index and the devicetree source that a build produces, builds
//!   the tree of nodes, and lowers the tree to Rust source text: one module
//!   for each node, with rules that add accessors for GPIO controllers and
//!   LEDs.
//! - [`kconfig`]: the kernel's configuration as compiler flags and as a
//!   module of constants.
//! - [`errno`], [`printk`], [`time`], [`random`], [`drivers`], [`sys`]: what
//!   the runtime computes before and after it calls the kernel.
//! - [`adsp`]: what the host tools for the audio DSP compute: buffers,
//!   streams, the log window.
//! - [`text`], [`pattern`]: reading and writing text.
//!
//! Every function states what it returns in terms of a mathematical model
//! of its arguments, and is proved to meet that statement. The few calls
//! into the standard library and the `regex` crate that the proofs rest on
//! are marked as trusted where they stand.

pub mod adsp;
pub mod devicetree;
pub mod drivers;
pub mod errno;
pub mod kconfig;
pub mod pattern;
pub mod printk;
pub mod random;
pub mod sys;
pub mod text;
pub mod time;
