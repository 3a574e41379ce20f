//! Timeouts as the kernel counts them: in ticks, with two values set apart
//! for "never" and "at once".

use vstd::prelude::*;

verus! {

/// A count of system ticks.
pub type Tick = u64;

/// The ticks that stand for a wait without end.
pub const K_FOREVER: i64 = -1;

/// The ticks that stand for no wait at all.
pub const K_NO_WAIT: i64 = 0;

/// A timeout in the kernel's form. Zero is no wait, a positive number a
/// wait of so many ticks from now, -1 a wait without end; numbers below
/// stand for points in time, counted from the start of the system.
#[derive(Debug, Clone, Copy, PartialEq, Eq, Structural)]
pub struct Timeout(pub i64);

/// A wait without end.
#[derive(Debug, Clone, Copy, PartialEq, Eq, Structural)]
pub struct Forever;

/// No wait at all.
#[derive(Debug, Clone, Copy, PartialEq, Eq, Structural)]
pub struct NoWait;

impl From<Forever> for Timeout {
    fn from(_value: Forever) -> (r: Timeout) {
        Timeout(K_FOREVER)
    }
}

impl vstd::std_specs::convert::FromSpecImpl<Forever> for Timeout {
    open spec fn obeys_from_spec() -> bool {
        true
    }

    open spec fn from_spec(v: Forever) -> Timeout {
        Timeout(-1i64)
    }
}

impl From<NoWait> for Timeout {
    fn from(_value: NoWait) -> (r: Timeout) {
        Timeout(K_NO_WAIT)
    }
}

impl vstd::std_specs::convert::FromSpecImpl<NoWait> for Timeout {
    open spec fn obeys_from_spec() -> bool {
        true
    }

    open spec fn from_spec(v: NoWait) -> Timeout {
        Timeout(0i64)
    }
}

/// Converts a count of ticks to the signed type of the kernel.
pub fn checked_cast(tick: Tick) -> (r: i64)
    requires
        tick <= i64::MAX,
    ensures
        r == tick,
{
    tick as i64
}

impl Timeout {
    /// The timeout that ends so many ticks from now. The count must not be
    /// zero, which stands for no wait.
    pub fn from_duration(ticks: Tick) -> (r: Timeout)
        requires
            0 < ticks <= i64::MAX,
        ensures
            r.0 == ticks,
            r.0 != K_FOREVER && r.0 != K_NO_WAIT,
    {
        Timeout(checked_cast(ticks))
    }

    /// The timeout that ends at the given count of ticks since the start of
    /// the system.
    pub fn from_instant(ticks: Tick) -> (r: Timeout)
        requires
            0 < ticks <= i64::MAX - 1,
        ensures
            r.0 == -2 - ticks,
            r.0 < K_FOREVER,
    {
        let ticks = checked_cast(ticks);
        Timeout(-1 - 1 - ticks)
    }
}

pub const NANOS_PER_SEC: u128 = 1_000_000_000;

/// The nanoseconds of the longest duration: `u64::MAX` seconds and all but
/// one nanosecond of a further second.
pub open spec fn longest_nanos() -> int {
    u64::MAX * 1_000_000_000 + 999_999_999
}

/// The ticks that a duration of so many nanoseconds takes, at the given
/// rate: a started tick counts.
pub open spec fn ticks_for(nanos: int, ticks_per_sec: int) -> int {
    (nanos * ticks_per_sec + 999_999_999) / 1_000_000_000
}

/// The kernel's ticks for a duration given in nanoseconds, with a clock of
/// `ticks_per_sec` ticks in the second. The longest duration there is
/// stands for a wait without end, zero for no wait; any other is rounded up
/// to whole ticks.
pub fn into_timeout(nanos: u128, ticks_per_sec: u32) -> (r: i64)
    requires
        nanos <= longest_nanos(),
        nanos != longest_nanos() ==> ticks_for(nanos as int, ticks_per_sec as int) <= i64::MAX,
    ensures
        r == (if nanos == longest_nanos() {
            -1
        } else if nanos == 0 {
            0
        } else {
            ticks_for(nanos as int, ticks_per_sec as int)
        }),
{
    if nanos == 18_446_744_073_709_551_615_999_999_999 {
        return K_FOREVER;
    }
    if nanos == 0 {
        return K_NO_WAIT;
    }
    assert(nanos * ticks_per_sec <= 18_446_744_073_709_551_615_999_999_999 * 0xffff_ffff)
        by (nonlinear_arith)
        requires
            nanos <= 18_446_744_073_709_551_615_999_999_999,
            ticks_per_sec <= 0xffff_ffff,
    ;
    let ticks = (nanos * (ticks_per_sec as u128) + (NANOS_PER_SEC - 1)) / NANOS_PER_SEC;
    ticks as i64
}

} // verus!
