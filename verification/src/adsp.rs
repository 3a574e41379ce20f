//! Host tools for the audio DSP: telling the device apart, and the
//! arithmetic of its DMA buffers, streams and log window.

use vstd::prelude::*;
use crate::pattern::{captures, captures_view, group, group_text, regex_captures};
use crate::text::{chars_of, parse_unsigned, same_text, string_of, unsigned_value};

pub mod dma_buffer;
pub mod dsp;
pub mod hda_stream;
pub mod pagealloc;
pub mod winstream;

verus! {

/// The generations of the audio DSP.
#[derive(Debug, Clone, Copy, PartialEq, Eq, Structural)]
pub enum DeviceVariant {
    Unknown,
    CAVS15,
    CAVS18,
    CAVS25,
    ACE15,
}

/// The generation that a PCI device id stands for.
pub open spec fn variant_of(id: u32) -> DeviceVariant {
    if id == 0x5A98 || id == 0x1A98 || id == 0x3198 {
        DeviceVariant::CAVS15
    } else if id == 0x9DC8 || id == 0xA348 || id == 0x02C8 {
        DeviceVariant::CAVS18
    } else if id == 0xA0C8 || id == 0x43C8 || id == 0x4B55 || id == 0x4B58 || id == 0x7AD0 || id
        == 0x51C8 {
        DeviceVariant::CAVS25
    } else if id == 0x7E28 {
        DeviceVariant::ACE15
    } else {
        DeviceVariant::Unknown
    }
}

/// The generation that the content of a PCI `device` file stands for: the
/// four characters after the first two are the id in hexadecimal; where
/// they are no number the generation is unknown.
pub open spec fn variant_of_text(text: Seq<char>) -> DeviceVariant {
    match unsigned_value(text.subrange(2, 6), 16, 0xffff) {
        Some(id) => variant_of(id as u32),
        None => DeviceVariant::Unknown,
    }
}

impl DeviceVariant {
    /// Tells the generation from the PCI device id.
    pub fn from_device_id(id: u32) -> (r: DeviceVariant)
        ensures
            r == variant_of(id),
    {
        match id {
            0x5A98 | 0x1A98 | 0x3198 => DeviceVariant::CAVS15,
            0x9DC8 | 0xA348 | 0x02C8 => DeviceVariant::CAVS18,
            0xA0C8 | 0x43C8 | 0x4B55 | 0x4B58 | 0x7AD0 | 0x51C8 => DeviceVariant::CAVS25,
            0x7E28 => DeviceVariant::ACE15,
            _ => DeviceVariant::Unknown,
        }
    }

    /// Tells the generation from the content of the PCI `device` file, which
    /// reads like `0x5a98`.
    pub fn from_pci_device_text(text: &str) -> (r: DeviceVariant)
        requires
            text@.len() >= 6,
        ensures
            r == variant_of_text(text@),
    {
        let chars = chars_of(text);
        let digits = string_of(&chars, 2, 6);
        match parse_unsigned(digits.as_str(), 16, 0xffff) {
            Some(id) => DeviceVariant::from_device_id(id as u32),
            None => DeviceVariant::Unknown,
        }
    }
}

/// The pattern that the `uevent` file of an audio device matches.
pub open spec fn pci_class_pattern() -> Seq<char> {
    "PCI_CLASS=40(10|38)0"@
}

/// Whether the content of a PCI `uevent` file is that of an audio DSP.
pub fn is_adsp_class(uevent: &str) -> (r: bool)
    ensures
        r == regex_captures(pci_class_pattern(), uevent@) is Some,
{
    captures("PCI_CLASS=40(10|38)0", uevent).is_some()
}

/// The pattern that finds the number of free huge pages in `/proc/meminfo`.
pub open spec fn free_pattern() -> Seq<char> {
    "HugePages_Free:\\s+([0-9])+"@
}

/// The pattern that finds the number of huge pages in all.
pub open spec fn total_pattern() -> Seq<char> {
    "HugePages_Total:\\s+([0-9])+"@
}

/// Why `/proc/meminfo` could not be used.
#[derive(Clone, Copy, Debug, PartialEq, Eq, Structural)]
pub enum MeminfoError {
    /// No line gives the free huge pages.
    NoFree,
    /// No line gives the huge pages in all, or what it gives is no number
    /// that can be raised by one.
    NoTotal,
}

/// What is to be written to `nr_hugepages`, given what the two patterns
/// captured: nothing while the group for the free pages is not `0`;
/// else one more than the group for the pages in all.
pub open spec fn hugepages_wanted(
    free: Option<Seq<Option<Seq<char>>>>,
    total: Option<Seq<Option<Seq<char>>>>,
) -> Result<Option<u32>, MeminfoError> {
    match free {
        None => Err(MeminfoError::NoFree),
        Some(gs) => match group_text(gs, 1) {
            None => Err(MeminfoError::NoFree),
            Some(f) => if f != "0"@ {
                Ok(None)
            } else {
                match total {
                    None => Err(MeminfoError::NoTotal),
                    Some(ts) => match group_text(ts, 1) {
                        None => Err(MeminfoError::NoTotal),
                        Some(t) => match unsigned_value(t, 10, 0xffff_fffe) {
                            Some(n) => Ok(Some((n + 1) as u32)),
                            None => Err(MeminfoError::NoTotal),
                        },
                    },
                }
            },
        },
    }
}

/// Decides from what the two patterns captured in `/proc/meminfo` whether
/// one more huge page has to be asked for, and how many there will be then.
pub fn plan_hugepages(free: Option<Vec<Option<String>>>, total: Option<Vec<Option<String>>>) -> (r:
    Result<Option<u32>, MeminfoError>)
    ensures
        r == hugepages_wanted(captures_view(free), captures_view(total)),
{
    let gs = match free {
        Some(gs) => gs,
        None => {
            return Err(MeminfoError::NoFree);
        },
    };
    let f = match group(&gs, 1) {
        Some(f) => f,
        None => {
            return Err(MeminfoError::NoFree);
        },
    };
    if !same_text(f.as_str(), "0") {
        return Ok(None);
    }
    let ts = match total {
        Some(ts) => ts,
        None => {
            return Err(MeminfoError::NoTotal);
        },
    };
    let t = match group(&ts, 1) {
        Some(t) => t,
        None => {
            return Err(MeminfoError::NoTotal);
        },
    };
    match parse_unsigned(t.as_str(), 10, 0xffff_fffe) {
        Some(n) => Ok(Some((n + 1) as u32)),
        None => Err(MeminfoError::NoTotal),
    }
}

/// Decides from the content of `/proc/meminfo` whether one more huge page
/// has to be asked for.
pub fn hugepages_to_set(meminfo: &str) -> (r: Result<Option<u32>, MeminfoError>)
    ensures
        r == hugepages_wanted(
            regex_captures(free_pattern(), meminfo@),
            regex_captures(total_pattern(), meminfo@),
        ),
{
    let free = captures("HugePages_Free:\\s+([0-9])+", meminfo);
    let total = captures("HugePages_Total:\\s+([0-9])+", meminfo);
    plan_hugepages(free, total)
}

} // verus!
