//! GPIO pins and the flags that configure them.

use vstd::prelude::*;

verus! {

/// A pin as the devicetree gives it: the address of the controller's device
/// object, the pin's number there, and the flags of the devicetree.
#[derive(Debug, Clone, Copy, PartialEq, Eq, Structural)]
pub struct GpioDtSpec {
    pub port: usize,
    pub pin: u8,
    pub dt_flags: u16,
}

pub const GPIO_INPUT: u32 = 0x1_0000;

pub const GPIO_OUTPUT: u32 = 0x2_0000;

pub const GPIO_DISCONNECTED: u32 = 0;

pub const GPIO_OUTPUT_INIT_LOW: u32 = 0x4_0000;

pub const GPIO_OUTPUT_INIT_HIGH: u32 = 0x8_0000;

pub const GPIO_OUTPUT_INIT_LOGICAL: u32 = 0x10_0000;

/// A set of configuration flags, one bit each.
#[derive(Debug, Clone, Copy, PartialEq, Eq, Structural)]
pub struct GpioFlags {
    pub bits: u32,
}

impl GpioFlags {
    pub fn none() -> (r: GpioFlags)
        ensures
            r.bits == 0,
    {
        GpioFlags { bits: 0 }
    }

    pub fn input() -> (r: GpioFlags)
        ensures
            r.bits == GPIO_INPUT,
    {
        GpioFlags { bits: GPIO_INPUT }
    }

    pub fn output() -> (r: GpioFlags)
        ensures
            r.bits == GPIO_OUTPUT,
    {
        GpioFlags { bits: GPIO_OUTPUT }
    }

    pub fn disconnected() -> (r: GpioFlags)
        ensures
            r.bits == GPIO_DISCONNECTED,
    {
        GpioFlags { bits: GPIO_DISCONNECTED }
    }

    pub fn init_low() -> (r: GpioFlags)
        ensures
            r.bits == GPIO_OUTPUT_INIT_LOW,
    {
        GpioFlags { bits: GPIO_OUTPUT_INIT_LOW }
    }

    pub fn init_high() -> (r: GpioFlags)
        ensures
            r.bits == GPIO_OUTPUT_INIT_HIGH,
    {
        GpioFlags { bits: GPIO_OUTPUT_INIT_HIGH }
    }

    pub fn init_logical() -> (r: GpioFlags)
        ensures
            r.bits == GPIO_OUTPUT_INIT_LOGICAL,
    {
        GpioFlags { bits: GPIO_OUTPUT_INIT_LOGICAL }
    }

    /// An output that starts low.
    pub fn output_low() -> (r: GpioFlags)
        ensures
            r.bits == GPIO_OUTPUT | GPIO_OUTPUT_INIT_LOW,
    {
        GpioFlags { bits: GPIO_OUTPUT | GPIO_OUTPUT_INIT_LOW }
    }

    /// An output that starts high.
    pub fn output_high() -> (r: GpioFlags)
        ensures
            r.bits == GPIO_OUTPUT | GPIO_OUTPUT_INIT_HIGH,
    {
        GpioFlags { bits: GPIO_OUTPUT | GPIO_OUTPUT_INIT_HIGH }
    }

    /// An output that starts in its inactive state, whatever level that is.
    pub fn output_inactive() -> (r: GpioFlags)
        ensures
            r.bits == GPIO_OUTPUT | GPIO_OUTPUT_INIT_LOW | GPIO_OUTPUT_INIT_LOGICAL,
    {
        GpioFlags { bits: GPIO_OUTPUT | GPIO_OUTPUT_INIT_LOW | GPIO_OUTPUT_INIT_LOGICAL }
    }

    /// An output that starts in its active state, whatever level that is.
    pub fn output_active() -> (r: GpioFlags)
        ensures
            r.bits == GPIO_OUTPUT | GPIO_OUTPUT_INIT_HIGH | GPIO_OUTPUT_INIT_LOGICAL,
    {
        GpioFlags { bits: GPIO_OUTPUT | GPIO_OUTPUT_INIT_HIGH | GPIO_OUTPUT_INIT_LOGICAL }
    }

    /// The flags as one number.
    pub fn bits(&self) -> (r: u32)
        ensures
            r == self.bits,
    {
        self.bits
    }

    /// The flags of both sets.
    pub fn or(self, other: GpioFlags) -> (r: GpioFlags)
        ensures
            r.bits == self.bits | other.bits,
    {
        GpioFlags { bits: self.bits | other.bits }
    }

    /// Whether every flag of `other` is set here too.
    pub fn contains(&self, other: GpioFlags) -> (r: bool)
        ensures
            r == (self.bits & other.bits == other.bits),
    {
        self.bits & other.bits == other.bits
    }
}

/// The flags of a set stay set when more are added.
pub proof fn law_or_contains(a: GpioFlags, b: GpioFlags)
    ensures
        (a.bits | b.bits) & a.bits == a.bits,
        (a.bits | b.bits) & b.bits == b.bits,
{
    let x = a.bits;
    let y = b.bits;
    assert((x | y) & x == x) by (bit_vector);
    assert((x | y) & y == y) by (bit_vector);
}

/// A pin that can be configured and toggled.
#[derive(Debug, Clone, Copy, PartialEq, Eq, Structural)]
pub struct GpioPin {
    pub gpio_dt_spec: GpioDtSpec,
}

impl GpioPin {
    pub fn new(gpio_dt_spec: GpioDtSpec) -> (r: GpioPin)
        ensures
            r.gpio_dt_spec == gpio_dt_spec,
    {
        GpioPin { gpio_dt_spec }
    }
}

} // verus!
