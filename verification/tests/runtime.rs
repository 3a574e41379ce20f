use zephyr_build::drivers::gpio::{GpioDtSpec, GpioFlags, GpioPin};
use zephyr_build::errno::{
    check_ptr, check_ptr_mut, check_result, check_value, EAGAIN, EINVAL, ENOMEM, EWOULDBLOCK,
};
use zephyr_build::printk::{printk, printkln, utf8_byte_length, Context, BUF_SIZE};
use zephyr_build::random::rand32_get;
use zephyr_build::sys::thread::{stack_len, StackToken, ThreadStack};
use zephyr_build::time::{checked_cast, into_timeout, Forever, NoWait, Timeout, K_FOREVER, K_NO_WAIT};

#[test]
fn negative_results_are_error_numbers() {
    assert_eq!(check_result(0), Ok(()));
    assert_eq!(check_result(17), Ok(()));
    assert_eq!(check_result(-5), Err(5));
    assert_eq!(check_result(-22), Err(EINVAL));
    assert_eq!(check_result(i32::MIN), Err(2147483648));
    assert_eq!(check_value(0), Ok(0));
    assert_eq!(check_value(i32::MAX), Ok(2147483647));
    assert_eq!(check_value(-11), Err(EAGAIN));
    assert_eq!(check_value(i32::MIN), Err(2147483648));
    assert_eq!(EWOULDBLOCK, EAGAIN);
}

#[test]
fn null_address_is_an_error() {
    assert_eq!(check_ptr(0, ENOMEM), Err(12));
    assert_eq!(check_ptr(0x2000_0000, ENOMEM), Ok(0x2000_0000));
    assert_eq!(check_ptr_mut(0, EINVAL), Err(22));
    assert_eq!(check_ptr_mut(8, EINVAL), Ok(8));
}

#[test]
fn sequence_lengths() {
    assert_eq!(utf8_byte_length(b'a'), 1);
    assert_eq!(utf8_byte_length(0x7f), 1);
    assert_eq!(utf8_byte_length(0x80), 1);
    assert_eq!(utf8_byte_length(0xbf), 1);
    assert_eq!(utf8_byte_length(0xc0), 2);
    assert_eq!(utf8_byte_length(0xdf), 2);
    assert_eq!(utf8_byte_length(0xe0), 3);
    assert_eq!(utf8_byte_length(0xef), 3);
    assert_eq!(utf8_byte_length(0xf0), 4);
    assert_eq!(utf8_byte_length(0xf7), 4);
    assert_eq!(utf8_byte_length(0xf8), 1);
    assert_eq!(utf8_byte_length(0xff), 1);
}

#[test]
fn messages_go_out_in_pieces() {
    assert_eq!(printk(""), Vec::<Vec<u8>>::new());
    assert_eq!(printk("hello"), vec![b"hello".to_vec()]);
    assert_eq!(printkln("hello"), vec![b"hello\n".to_vec()]);
    assert_eq!(printkln(""), vec![b"\n".to_vec()]);
    let long = "a".repeat(BUF_SIZE);
    assert_eq!(printk(&long), vec![long.as_bytes().to_vec()]);
    assert_eq!(printkln(&long), vec![long.as_bytes().to_vec(), b"\n".to_vec()]);
    let longer = "0123456789".repeat(7);
    let pieces = printk(&longer);
    assert_eq!(pieces.iter().map(|p| p.len()).collect::<Vec<_>>(), vec![32, 32, 6]);
    assert_eq!(pieces.concat(), longer.as_bytes());
}

#[test]
fn pieces_do_not_split_characters() {
    // 31 bytes, then a character of two: it does not fit the first piece whole.
    let text = format!("{}\u{e9}!", "a".repeat(31));
    let pieces = printk(&text);
    assert_eq!(pieces.len(), 2);
    assert_eq!(pieces[0], "a".repeat(31).as_bytes());
    assert_eq!(pieces[1], "\u{e9}!".as_bytes());
    // 29 bytes, then a character of four.
    let text = format!("{}\u{1f600}", "b".repeat(29));
    let pieces = printk(&text);
    assert_eq!(pieces.iter().map(|p| p.len()).collect::<Vec<_>>(), vec![29, 4]);
    // 28 bytes and a character of four fill the buffer exactly.
    let text = format!("{}\u{1f600}", "b".repeat(28));
    assert_eq!(printk(&text), vec![text.as_bytes().to_vec()]);
    for piece in printk(&"\u{4e2d}\u{6587}\u{1f600}x\u{e9}".repeat(20)) {
        assert!(std::str::from_utf8(&piece).is_ok());
        assert!(!piece.is_empty() && piece.len() <= BUF_SIZE);
    }
}

#[test]
fn context_by_hand() {
    let mut context = Context::new();
    context.flush();
    assert!(context.sent.is_empty());
    context.add_byte(b'x');
    assert_eq!(context.count, 1);
    context.write_str("yz");
    assert_eq!(context.count, 3);
    assert!(context.sent.is_empty());
    context.flush();
    assert_eq!(context.count, 0);
    assert_eq!(context.sent, vec![b"xyz".to_vec()]);
}

#[test]
fn timeouts() {
    assert_eq!(Timeout::from(Forever), Timeout(-1));
    assert_eq!(Timeout::from(NoWait), Timeout(0));
    assert_eq!(K_FOREVER, -1);
    assert_eq!(K_NO_WAIT, 0);
    assert_eq!(Timeout::from_duration(1), Timeout(1));
    assert_eq!(Timeout::from_duration(i64::MAX as u64), Timeout(i64::MAX));
    assert_eq!(Timeout::from_instant(1), Timeout(-3));
    assert_eq!(Timeout::from_instant(100), Timeout(-102));
    assert_eq!(checked_cast(0), 0);
    assert_eq!(checked_cast(1u64 << 62), 1i64 << 62);
}

#[test]
fn durations_become_ticks() {
    let longest = (u64::MAX as u128) * 1_000_000_000 + 999_999_999;
    assert_eq!(into_timeout(longest, 10_000), -1);
    assert_eq!(into_timeout(0, 10_000), 0);
    assert_eq!(into_timeout(1_000_000, 10_000), 10);
    assert_eq!(into_timeout(1, 100), 1);
    assert_eq!(into_timeout(10_000_000, 100), 1);
    assert_eq!(into_timeout(10_000_001, 100), 2);
    assert_eq!(into_timeout(2_500_000_000, 32_768), 81_920);
    assert_eq!(into_timeout(1_000_000_000, 0), 0);
}

#[test]
fn gpio_flags() {
    assert_eq!(GpioFlags::none().bits(), 0);
    assert_eq!(GpioFlags::disconnected().bits(), 0);
    assert_eq!(GpioFlags::input().bits(), 1 << 16);
    assert_eq!(GpioFlags::output().bits(), 1 << 17);
    assert_eq!(GpioFlags::init_low().bits(), 1 << 18);
    assert_eq!(GpioFlags::init_high().bits(), 1 << 19);
    assert_eq!(GpioFlags::init_logical().bits(), 1 << 20);
    assert_eq!(GpioFlags::output_low().bits(), 0x6_0000);
    assert_eq!(GpioFlags::output_high().bits(), 0xa_0000);
    assert_eq!(GpioFlags::output_inactive().bits(), 0x16_0000);
    assert_eq!(GpioFlags::output_active().bits(), 0x1a_0000);
    assert_eq!(GpioFlags::output().or(GpioFlags::init_high()), GpioFlags::output_high());
    assert!(GpioFlags::output_active().contains(GpioFlags::output()));
    assert!(GpioFlags::output_active().contains(GpioFlags::none()));
    assert!(!GpioFlags::output_active().contains(GpioFlags::input()));
    assert!(!GpioFlags::output().contains(GpioFlags::output_low()));
}

#[test]
fn gpio_pin() {
    let spec = GpioDtSpec { port: 0x1000, pin: 13, dt_flags: 1 };
    let pin = GpioPin::new(spec);
    assert_eq!(pin.gpio_dt_spec, spec);
}

#[test]
fn stacks() {
    assert_eq!(stack_len(0, 8), 0);
    assert_eq!(stack_len(1, 8), 8);
    assert_eq!(stack_len(1000, 8), 1000);
    assert_eq!(stack_len(1001, 8), 1008);
    assert_eq!(stack_len(1001, 32), 1024);
    assert_eq!(stack_len(5, 1), 5);
    assert_eq!(stack_len(7, 3), 9);
    let stack = ThreadStack::<64> { data: [0; 64] };
    assert_eq!(stack.size(), 64);
    assert_eq!(stack.token(0x2000), StackToken { base: 0x2000, size: 64 });
}

#[test]
fn random_numbers_stay_in_range() {
    assert_eq!(rand32_get(400, 800, 1234), 434);
    assert_eq!(rand32_get(400, 800, 0), 400);
    assert_eq!(rand32_get(400, 800, 399), 799);
    assert_eq!(rand32_get(400, 800, 400), 400);
    assert_eq!(rand32_get(0, u32::MAX, u32::MAX), 0);
    assert_eq!(rand32_get(7, 8, 12345), 7);
}
