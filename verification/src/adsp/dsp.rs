//! What the DSP's registers and its memory windows mean.

use vstd::prelude::*;
use crate::adsp::DeviceVariant;

verus! {

/// The message that asks the firmware loader to purge.
pub const IPC_FW_PURGE: u32 = 0x0100_4000;

/// The size of one memory window: 128 KiB.
pub const WINDOW_SIZE: usize = 0x20000;

/// Where the memory windows start in the DSP's address space.
pub open spec fn base_of(variant: DeviceVariant) -> usize {
    if variant == DeviceVariant::ACE15 {
        0x180000
    } else {
        0x80000
    }
}

/// Where the memory windows start in the DSP's address space.
pub fn window_base(variant: DeviceVariant) -> (r: usize)
    ensures
        r == base_of(variant),
{
    if variant == DeviceVariant::ACE15 {
        0x180000
    } else {
        0x80000
    }
}

/// The offset of a place in a memory window from the start of the DSP's
/// address space: the windows lie one after the other from `window_base`.
pub fn window(window_base: usize, index: u8, offset: u32) -> (r: isize)
    requires
        window_base + index * WINDOW_SIZE + offset <= isize::MAX,
    ensures
        r == window_base + index * WINDOW_SIZE + offset,
{
    assert(index * WINDOW_SIZE == index * 0x20000);
    (window_base as isize) + (index as isize) * (WINDOW_SIZE as isize) + (offset as isize)
}

/// Whether the status word says that the ROM has booted: its top byte is 5.
pub fn rom_booted(rom_status: u32) -> (r: bool)
    ensures
        r == (rom_status / 0x100_0000 == 5),
{
    assert(rom_status >> 24 == rom_status / 0x100_0000) by (bit_vector);
    (rom_status >> 24) == 5
}

/// Whether the status word says that the firmware was entered: its lower 28
/// bits are 5.
pub fn fw_entered(rom_status: u32) -> (r: bool)
    ensures
        r == (rom_status % 0x1000_0000 == 5),
{
    assert(rom_status & 0x0fff_ffff == rom_status % 0x1000_0000) by (bit_vector);
    rom_status & 0x0fff_ffff == 5
}

/// The word that sends a message: the message with the busy bit set.
pub fn ipc_send(msg: u32) -> (r: u32)
    ensures
        r == msg | 0x8000_0000,
{
    msg | 0x8000_0000
}

/// Whether the acknowledge register says that the message was taken.
pub fn is_ipc_done(hipcida: u32) -> (r: bool)
    ensures
        r == (hipcida >= 0x8000_0000),
{
    assert((hipcida & 0x8000_0000 != 0) == (hipcida >= 0x8000_0000)) by (bit_vector);
    hipcida & 0x8000_0000 != 0
}

} // verus!
