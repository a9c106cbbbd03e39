use baremetal_rt::button::PressToggle;
use baremetal_rt::echo::{to_upper, uppercase_reply};
use baremetal_rt::registers::{
    configure_output, drive_high, drive_low, led_setup, led_switch, Pin, Register, RegisterWrite,
    COL1_PIN, GPIO_P0_OUTCLR, GPIO_P0_OUTSET, GPIO_P0_PIN_CNF, PIN_CNF_OUTPUT, ROW1_PIN,
};

#[test]
fn a_press_flips_the_output_once() {
    let mut toggle = PressToggle::new();
    assert!(!toggle.output());
    assert_eq!(toggle.poll(false), None);
    assert_eq!(toggle.poll(true), Some(true));
    assert!(toggle.output());
    assert_eq!(toggle.poll(true), None);
    assert_eq!(toggle.poll(true), None);
    assert_eq!(toggle.poll(false), None);
    assert!(toggle.output());
    assert_eq!(toggle.poll(true), Some(false));
    assert!(!toggle.output());
    assert_eq!(toggle.poll(false), None);
    assert_eq!(toggle.poll(true), Some(true));
}

#[test]
fn pins_exist_up_to_thirty_one() {
    assert_eq!(Pin::new(0).map(|p| p.number()), Some(0));
    assert_eq!(Pin::new(31).map(|p| p.number()), Some(31));
    assert_eq!(Pin::new(32), None);
    assert_eq!(Pin::new(u32::MAX), None);
}

#[test]
fn register_addresses() {
    let row = Pin::new(ROW1_PIN).unwrap();
    let column = Pin::new(COL1_PIN).unwrap();
    assert_eq!(Register::OutSet.address(), 0x5000_0508);
    assert_eq!(Register::OutClr.address(), 0x5000_050c);
    assert_eq!(Register::PinCnf(Pin::new(0).unwrap()).address(), 0x5000_0700);
    assert_eq!(Register::PinCnf(row).address(), 0x5000_0754);
    assert_eq!(Register::PinCnf(column).address(), 0x5000_0770);
    assert_eq!(Register::PinCnf(Pin::new(31).unwrap()).address(), 0x5000_077c);
    assert_eq!(GPIO_P0_PIN_CNF + 4 * ROW1_PIN, 0x5000_0754);
}

#[test]
fn pin_masks() {
    assert_eq!(Pin::new(0).unwrap().mask(), 1);
    assert_eq!(Pin::new(ROW1_PIN).unwrap().mask(), 0x0020_0000);
    assert_eq!(Pin::new(COL1_PIN).unwrap().mask(), 0x1000_0000);
    assert_eq!(Pin::new(31).unwrap().mask(), 0x8000_0000);
}

#[test]
fn stores_for_one_pin() {
    let row = Pin::new(ROW1_PIN).unwrap();
    assert_eq!(
        configure_output(row),
        RegisterWrite { address: 0x5000_0754, value: PIN_CNF_OUTPUT }
    );
    assert_eq!(drive_high(row), RegisterWrite { address: GPIO_P0_OUTSET, value: 1 << 21 });
    assert_eq!(drive_low(row), RegisterWrite { address: GPIO_P0_OUTCLR, value: 1 << 21 });
}

#[test]
fn stores_that_prepare_and_switch_the_led() {
    let row = Pin::new(ROW1_PIN).unwrap();
    let column = Pin::new(COL1_PIN).unwrap();
    assert_eq!(
        led_setup(row, column),
        vec![
            RegisterWrite { address: 0x5000_0754, value: 1 },
            RegisterWrite { address: 0x5000_0770, value: 1 },
            RegisterWrite { address: 0x5000_050c, value: 0x1000_0000 },
        ]
    );
    assert_eq!(led_switch(row, true), RegisterWrite { address: 0x5000_050c, value: 0x0020_0000 });
    assert_eq!(led_switch(row, false), RegisterWrite { address: 0x5000_0508, value: 0x0020_0000 });
}

#[test]
fn reply_is_the_input_in_upper_case() {
    assert_eq!(uppercase_reply(b"hello, World 123\n"), b"HELLO, WORLD 123\n".to_vec());
    assert_eq!(uppercase_reply(b"az`{AZ@["), b"AZ`{AZ@[".to_vec());
    assert_eq!(uppercase_reply(&[0xe9, 0xff, 0x00]), vec![0xe9, 0xff, 0x00]);
}

#[test]
fn nothing_received_nothing_sent() {
    assert_eq!(uppercase_reply(b""), Vec::<u8>::new());
}

#[test]
fn upper_case_of_every_byte() {
    for byte in 0..=255u8 {
        assert_eq!(to_upper(byte), byte.to_ascii_uppercase());
    }
    assert_eq!(to_upper(b'a'), b'A');
    assert_eq!(to_upper(b'z'), b'Z');
    assert_eq!(to_upper(0x60), 0x60);
    assert_eq!(to_upper(0x7b), 0x7b);
}
