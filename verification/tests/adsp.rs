use std::marker::PhantomData;

use zephyr_build::adsp::dma_buffer::{DMAAllocator, DMABuffer};
use zephyr_build::adsp::dsp::{
    fw_entered, ipc_send, is_ipc_done, rom_booted, window, window_base, IPC_FW_PURGE,
};
use zephyr_build::adsp::hda_stream::{
    align_up, check_lengths, plan_stream, total_length, Configuration, Configured, HDAStream, OutStream, Reset,
    StreamSetup,
};
use zephyr_build::adsp::pagealloc::{page_number, phys_addr_of, HugePage};
use zephyr_build::adsp::winstream::{Header, RingRead, Step, Verdict, Winstream, TRIES};
use zephyr_build::adsp::{hugepages_to_set, is_adsp_class, DeviceVariant, MeminfoError};

#[test]
fn device_ids() {
    for id in [0x5A98, 0x1A98, 0x3198] {
        assert_eq!(DeviceVariant::from_device_id(id), DeviceVariant::CAVS15);
    }
    for id in [0x9DC8, 0xA348, 0x02C8] {
        assert_eq!(DeviceVariant::from_device_id(id), DeviceVariant::CAVS18);
    }
    for id in [0xA0C8, 0x43C8, 0x4B55, 0x4B58, 0x7AD0, 0x51C8] {
        assert_eq!(DeviceVariant::from_device_id(id), DeviceVariant::CAVS25);
    }
    assert_eq!(DeviceVariant::from_device_id(0x7E28), DeviceVariant::ACE15);
    assert_eq!(DeviceVariant::from_device_id(0), DeviceVariant::Unknown);
    assert_eq!(DeviceVariant::from_device_id(0x15A98), DeviceVariant::Unknown);
}

#[test]
fn device_files() {
    assert_eq!(DeviceVariant::from_pci_device_text("0x5a98\n"), DeviceVariant::CAVS15);
    assert_eq!(DeviceVariant::from_pci_device_text("0x7E28"), DeviceVariant::ACE15);
    assert_eq!(DeviceVariant::from_pci_device_text("0x0000\n"), DeviceVariant::Unknown);
    assert_eq!(DeviceVariant::from_pci_device_text("0xzzzz\n"), DeviceVariant::Unknown);
    assert_eq!(DeviceVariant::from_pci_device_text("0x 5a9\n"), DeviceVariant::Unknown);
}

#[test]
fn pci_classes() {
    assert!(is_adsp_class("DRIVER=snd\nPCI_CLASS=40100\nPCI_ID=8086:5A98\n"));
    assert!(is_adsp_class("PCI_CLASS=40380"));
    assert!(!is_adsp_class("PCI_CLASS=40300"));
    assert!(!is_adsp_class("PCI_CLASS=30000"));
    assert!(!is_adsp_class(""));
}

#[test]
fn huge_pages() {
    assert_eq!(
        hugepages_to_set("MemTotal: 1 kB\nHugePages_Total:       4\nHugePages_Free:        0\n"),
        Ok(Some(5))
    );
    assert_eq!(
        hugepages_to_set("HugePages_Total:       4\nHugePages_Free:        3\n"),
        Ok(None)
    );
    // Each pattern keeps the last digit of its number only.
    assert_eq!(
        hugepages_to_set("HugePages_Total:      12\nHugePages_Free:       10\n"),
        Ok(Some(3))
    );
    assert_eq!(hugepages_to_set("HugePages_Total: 4\n"), Err(MeminfoError::NoFree));
    assert_eq!(hugepages_to_set("HugePages_Free: 0\n"), Err(MeminfoError::NoTotal));
    assert_eq!(hugepages_to_set(""), Err(MeminfoError::NoFree));
}

#[test]
fn lengths_are_rounded_up() {
    assert_eq!(align_up(0), 128);
    assert_eq!(align_up(1), 128);
    assert_eq!(align_up(127), 128);
    assert_eq!(align_up(128), 256);
    assert_eq!(align_up(129), 256);
    assert_eq!(align_up(1_000_000), 1_000_064);
    assert_eq!(align_up(u32::MAX - 128), u32::MAX - 127);
}

#[test]
fn stream_lengths() {
    assert!(check_lengths(&vec![128, 128]));
    assert!(check_lengths(&vec![0, 0]));
    assert!(check_lengths(&vec![4096, 128, 256]));
    assert!(!check_lengths(&vec![]));
    assert!(!check_lengths(&vec![128]));
    assert!(!check_lengths(&vec![128, 100]));
    assert!(!check_lengths(&vec![127, 128]));
    assert!(!check_lengths(&vec![0x8000_0000, 0x8000_0000]));
    assert!(check_lengths(&vec![0x8000_0000, 0x7fff_ff80]));
    assert_eq!(
        plan_stream(0x0000_0012_3456_7800, &vec![4096, 128, 256]),
        StreamSetup {
            bdl_upper: 0x12,
            bdl_lower: 0x3456_7800,
            cyclic_length: 4480,
            last_valid_index: 2,
            bdl_size: 48,
        }
    );
}

#[test]
fn dma_buffer() {
    let mut buffer = DMABuffer { p: 0x7000, sz: 10, phys_addr: 0x9000, pos: 0 };
    assert_eq!(buffer.write(4), 4);
    assert_eq!(buffer.pos, 4);
    assert_eq!(buffer.write(10), 6);
    assert_eq!(buffer.pos, 10);
    assert_eq!(buffer.write(1), 0);
    assert_eq!(buffer.write(0), 0);
    buffer.reset();
    assert_eq!(buffer, DMABuffer { p: 0x7000, sz: 10, phys_addr: 0x9000, pos: 0 });
    assert_eq!(buffer.write(10), 10);
}

#[test]
fn huge_page() {
    assert_eq!(phys_addr_of(0x8600_0000_0001_2345), 0x1_2345_000);
    assert_eq!(phys_addr_of(0), 0);
    assert_eq!(page_number(0x7f12_3456_7abc), 0x7_f123_4567);
    let mut page = HugePage::open(0x1000_0000, 0x7000_0000);
    assert_eq!(page.used, 0);
    assert!(page.has_room(4096));
    assert!(page.has_room(usize::MAX - 0x7000_0000));
    assert!(!page.has_room(usize::MAX - 0x7000_0000 + 1));
    assert!(!HugePage { phys_addr: usize::MAX - 10, virt_addr: 0, used: 0 }.has_room(11));
    assert!(!HugePage { phys_addr: 0, virt_addr: usize::MAX, used: 1 }.has_room(0));
    let first = page.allocate(4096);
    assert_eq!(first, DMABuffer { p: 0x7000_0000, sz: 4096, phys_addr: 0x1000_1000, pos: 0 });
    let second = page.take(128);
    assert_eq!(second, DMABuffer { p: 0x7000_1000, sz: 128, phys_addr: 0x1000_0080, pos: 0 });
    assert_eq!(page.used, 4224);
    page.free(second);
    assert_eq!(page.used, 4224);
}

#[test]
fn ring_reads() {
    let w = Winstream::open(0x5000);
    assert_eq!(w, Winstream { p: 0x5000, last_seq: 0 });
    assert_eq!(
        w.read_ring(10, 30, 100),
        RingRead { first_offset: 26, first_len: 20, second_offset: 16, second_len: 0 }
    );
    assert_eq!(
        w.read_ring(90, 10, 100),
        RingRead { first_offset: 106, first_len: 10, second_offset: 16, second_len: 10 }
    );
    assert_eq!(
        w.read_ring(5, 5, 100),
        RingRead { first_offset: 21, first_len: 0, second_offset: 16, second_len: 0 }
    );
    assert_eq!(
        w.read_ring(60, 100, 100),
        RingRead { first_offset: 76, first_len: 40, second_offset: 16, second_len: 0 }
    );
    assert_eq!(
        w.read_ring(100, 0, 100),
        RingRead { first_offset: 116, first_len: 0, second_offset: 16, second_len: 0 }
    );
}

#[test]
fn reader_follows_the_header() {
    let mut w = Winstream::open(0);
    let h = Header { wlen: 100, start: 0, end: 40, seq: 40 };
    assert!(w.can_begin(h));
    assert!(!w.can_begin(Header { wlen: 100, start: 0, end: 101, seq: 40 }));
    assert!(!w.can_begin(Header { wlen: u32::MAX / 2 + 1, start: 0, end: 0, seq: 40 }));
    assert!(!Winstream { p: 0, last_seq: 41 }.can_begin(h));
    assert!(Winstream { p: 0, last_seq: 40 }.can_begin(h));
    // The first look only takes the count over: nothing is behind.
    assert_eq!(
        w.begin(h),
        Step::Read(RingRead { first_offset: 56, first_len: 0, second_offset: 16, second_len: 0 })
    );
    assert_eq!(w.last_seq, 40);
    assert!(w.finish(h, h));
    let h2 = Header { wlen: 100, start: 0, end: 70, seq: 70 };
    assert_eq!(
        w.begin(h2),
        Step::Read(RingRead { first_offset: 56, first_len: 30, second_offset: 16, second_len: 0 })
    );
    // The header moved on while the ring was read: the read does not stand.
    assert!(!w.finish(h2, Header { wlen: 100, start: 0, end: 71, seq: 71 }));
    assert_eq!(w.last_seq, 40);
    assert!(w.finish(h2, h2));
    assert_eq!(w.last_seq, 70);
    // Around the end of the ring.
    let h3 = Header { wlen: 100, start: 20, end: 10, seq: 110 };
    assert_eq!(
        w.begin(h3),
        Step::Read(RingRead { first_offset: 86, first_len: 30, second_offset: 16, second_len: 10 })
    );
    assert!(w.finish(h3, h3));
    // More than the ring holds was written meanwhile.
    let h4 = Header { wlen: 100, start: 20, end: 15, seq: 315 };
    assert_eq!(w.begin(h4), Step::Dropped);
    assert_eq!(w.last_seq, 315);
    // A reader that is behind by the whole ring starts where the ring ends:
    // between equal indices nothing lies.
    let h5 = Header { wlen: 100, start: 15, end: 15, seq: 415 };
    assert_eq!(
        w.begin(h5),
        Step::Read(RingRead { first_offset: 31, first_len: 0, second_offset: 16, second_len: 0 })
    );
    // One byte less, and all of it is read.
    let mut w = Winstream { p: 0, last_seq: 316 };
    assert_eq!(
        w.begin(h5),
        Step::Read(RingRead { first_offset: 32, first_len: 84, second_offset: 16, second_len: 15 })
    );
}

#[test]
fn dsp_words() {
    assert_eq!(IPC_FW_PURGE, (1 << 24) | (1 << 14));
    assert_eq!(window_base(DeviceVariant::ACE15), 0x180000);
    assert_eq!(window_base(DeviceVariant::CAVS25), 0x80000);
    assert_eq!(window_base(DeviceVariant::Unknown), 0x80000);
    assert_eq!(window(0x80000, 0, 0), 0x80000);
    assert_eq!(window(0x80000, 3, 0x10), 0xe0010);
    assert_eq!(window(0x180000, 255, 0xffff_ffff), 0x180000 + 255 * 0x20000 + 0xffff_ffff);
    assert!(rom_booted(0x0500_0000));
    assert!(rom_booted(0x05ff_ffff));
    assert!(!rom_booted(0x0600_0000));
    assert!(!rom_booted(5));
    assert!(fw_entered(5));
    assert!(fw_entered(0xf000_0005));
    assert!(!fw_entered(0x0500_0000));
    assert_eq!(ipc_send(IPC_FW_PURGE), 0x8100_4000);
    assert_eq!(ipc_send(0xffff_ffff), 0xffff_ffff);
    assert!(is_ipc_done(0x8000_0000));
    assert!(!is_ipc_done(0x7fff_ffff));
}

#[test]
fn stream_goes_through_its_states() {
    let mut page = HugePage::open(0x1000_0000, 0x7000_0000);
    let stream = HDAStream::<OutStream, Reset>::open(3);
    assert_eq!(stream.stream_id, 3);
    assert!(stream.bufs.is_empty());
    let (mut stream, configuration) = stream.configure(&mut page, &vec![256, 128]);
    assert_eq!(
        stream.bufs,
        vec![
            DMABuffer { p: 0x7000_0000, sz: 256, phys_addr: 0x1000_0100, pos: 0 },
            DMABuffer { p: 0x7000_0100, sz: 128, phys_addr: 0x1000_0080, pos: 0 },
        ]
    );
    assert_eq!(
        configuration,
        Configuration {
            bdl_buf: DMABuffer { p: 0x7000_0180, sz: 32, phys_addr: 0x1000_0020, pos: 0 },
            stream: 3,
            setup: StreamSetup {
                bdl_upper: 0,
                bdl_lower: 0x1000_0020,
                cyclic_length: 384,
                last_valid_index: 1,
                bdl_size: 32,
            },
        }
    );
    assert_eq!(page.used, 416);
    assert!(stream.can_write(100));
    assert_eq!(stream.write(100), 100);
    // More than the first buffer has left cannot be placed: the walk would
    // leave the buffers.
    assert!(!stream.can_write(157));
    assert!(stream.can_write(156));
    assert_eq!(stream.write(156), 156);
    assert_eq!(stream.bufs[0].pos, 256);
    assert_eq!(stream.bufs[1].pos, 0);
    let stream = stream.start();
    assert_eq!(stream.bufs.len(), 2);
    assert_eq!(stream.bufs[0].pos, 256);
    let stream = stream.reset();
    assert_eq!(stream.stream_id, 3);
    assert_eq!(stream.buf_idx, 0);
    assert!(stream.bufs.is_empty());
}

#[test]
fn stream_writes_walk_down_the_buffers() {
    let buffer = |sz: usize| DMABuffer { p: 0, sz, phys_addr: 0, pos: 0 };
    let mut stream = HDAStream::<OutStream, Configured> {
        stream_id: 0,
        buf_idx: 1,
        bufs: vec![buffer(10), buffer(4), buffer(8)],
        _state: PhantomData,
        _direction: PhantomData,
    };
    // The first buffer would take all 6 where only 2 are left to place.
    assert!(!stream.can_write(6));
    // The middle buffer takes 4 of the 14, the first the other 10.
    assert!(stream.can_write(14));
    assert_eq!(stream.write(14), 14);
    assert_eq!(stream.bufs.iter().map(|b| b.pos).collect::<Vec<_>>(), vec![10, 4, 0]);
    // The last buffer is the end of the walk, whatever remains.
    let mut stream = HDAStream::<OutStream, Configured> {
        stream_id: 0,
        buf_idx: 2,
        bufs: vec![buffer(10), buffer(4), buffer(8)],
        _state: PhantomData,
        _direction: PhantomData,
    };
    assert!(stream.can_write(20));
    assert_eq!(stream.write(20), 8);
    assert_eq!(stream.bufs.iter().map(|b| b.pos).collect::<Vec<_>>(), vec![0, 0, 8]);
    assert_eq!(stream.write(1), 0);
}

#[test]
fn reader_drops_whatever_the_ring_says() {
    // The reader is behind by more than the ring holds: where the content
    // ends and how long the ring is plays no part.
    let mut w = Winstream { p: 0, last_seq: 10 };
    let h = Header { wlen: 100, start: 0, end: 5000, seq: 500 };
    assert!(w.can_begin(h));
    assert_eq!(w.begin(h), Step::Dropped);
    assert_eq!(w.last_seq, 500);
    let mut w = Winstream { p: 0, last_seq: 1 };
    let h = Header { wlen: u32::MAX - 1, start: 0, end: 7, seq: u32::MAX };
    assert!(!w.can_begin(h));
    let h = Header { wlen: u32::MAX - 2, start: 0, end: u32::MAX, seq: u32::MAX };
    assert!(w.can_begin(h));
    assert_eq!(w.begin(h), Step::Dropped);
}

#[test]
fn reader_gives_up_after_two_tries() {
    assert_eq!(TRIES, 2);
    let h = Header { wlen: 100, start: 0, end: 40, seq: 40 };
    let moved = Header { wlen: 100, start: 0, end: 41, seq: 41 };
    let mut w = Winstream { p: 0, last_seq: 30 };
    assert_eq!(w.settle(0, h, moved), Verdict::Retry);
    assert_eq!(w.last_seq, 30);
    assert_eq!(w.settle(1, h, moved), Verdict::GiveUp);
    assert_eq!(w.settle(u32::MAX, h, moved), Verdict::GiveUp);
    assert_eq!(w.last_seq, 30);
    assert_eq!(w.settle(1, h, h), Verdict::Deliver);
    assert_eq!(w.last_seq, 40);
    assert_eq!(w.settle(0, moved, moved), Verdict::Deliver);
    assert_eq!(w.last_seq, 41);
}

#[test]
fn stream_asks_the_allocator_first() {
    let stream = HDAStream::<OutStream, Reset>::open(3);
    let page = HugePage::open(0x1000_0000, 0x7000_0000);
    assert!(stream.can_configure(&page, &vec![256, 128]));
    assert!(!stream.can_configure(&page, &vec![256]));
    assert!(!stream.can_configure(&page, &vec![256, 100]));
    let nearly_full = HugePage { phys_addr: 0, virt_addr: usize::MAX - 415, used: 0 };
    assert!(!stream.can_configure(&nearly_full, &vec![256, 128]));
    let just_enough = HugePage { phys_addr: 0, virt_addr: usize::MAX - 416, used: 0 };
    assert!(stream.can_configure(&just_enough, &vec![256, 128]));
    assert_eq!(total_length(&vec![256, 128, 0]), 384);
}
