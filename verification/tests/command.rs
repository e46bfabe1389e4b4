use led_matrix::command::{encode, Command, Register};

#[test]
fn encode_puts_the_register_address_first() {
    assert_eq!(encode(Register::NoOp, 0x5A)[0], 0x00);
    assert_eq!(encode(Register::Digit(0), 0x5A)[0], 0x01);
    assert_eq!(encode(Register::Digit(1), 0x5A)[0], 0x02);
    assert_eq!(encode(Register::Digit(2), 0x5A)[0], 0x03);
    assert_eq!(encode(Register::Digit(3), 0x5A)[0], 0x04);
    assert_eq!(encode(Register::Digit(4), 0x5A)[0], 0x05);
    assert_eq!(encode(Register::Digit(5), 0x5A)[0], 0x06);
    assert_eq!(encode(Register::Digit(6), 0x5A)[0], 0x07);
    assert_eq!(encode(Register::Digit(7), 0x5A)[0], 0x08);
    assert_eq!(encode(Register::DecodeMode, 0x5A)[0], 0x09);
    assert_eq!(encode(Register::Intensity, 0x5A)[0], 0x0A);
    assert_eq!(encode(Register::ScanLimit, 0x5A)[0], 0x0B);
    assert_eq!(encode(Register::Shutdown, 0x5A)[0], 0x0C);
    assert_eq!(encode(Register::DisplayTest, 0x5A)[0], 0x0F);
}

#[test]
fn encode_is_a_function_of_its_arguments() {
    for value in 0..=255u8 {
        assert_eq!(encode(Register::Intensity, value), encode(Register::Intensity, value));
        assert_eq!(encode(Register::Digit(value), value), encode(Register::Digit(value), value));
    }
}

#[test]
fn encode_intensity_masks_value() {
    assert_eq!(encode(Register::Intensity, 0x1F), [0x0A, 0x0F]);
    assert_eq!(encode(Register::Intensity, 0x07), [0x0A, 0x07]);
    assert_eq!(encode(Register::Intensity, 0xF0), [0x0A, 0x00]);
}

#[test]
fn encode_scan_limit_masks_value() {
    assert_eq!(encode(Register::ScanLimit, 7), [0x0B, 7]);
    assert_eq!(encode(Register::ScanLimit, 9), [0x0B, 1]);
    assert_eq!(encode(Register::ScanLimit, 0xFF), [0x0B, 7]);
}

#[test]
fn encode_switches_keep_one_bit() {
    assert_eq!(encode(Register::Shutdown, 1), [0x0C, 1]);
    assert_eq!(encode(Register::Shutdown, 2), [0x0C, 0]);
    assert_eq!(encode(Register::DisplayTest, 3), [0x0F, 1]);
}

#[test]
fn encode_digit_masks_row_and_keeps_value() {
    assert_eq!(encode(Register::Digit(3), 0xA5), [0x04, 0xA5]);
    assert_eq!(encode(Register::Digit(8), 0xFF), [0x01, 0xFF]);
    assert_eq!(encode(Register::Digit(255), 0x00), [0x08, 0x00]);
}

#[test]
fn encode_keeps_whole_bytes_where_the_chip_takes_them() {
    assert_eq!(encode(Register::DecodeMode, 0xFF), [0x09, 0xFF]);
    assert_eq!(encode(Register::NoOp, 0), [0x00, 0x00]);
}

#[test]
fn command_encodes_like_encode() {
    let command = Command::new(Register::Intensity, 0x2C);
    assert_eq!(command.register, Register::Intensity);
    assert_eq!(command.value, 0x2C);
    assert_eq!(command.encode(), [0x0A, 0x0C]);
    assert_eq!(Command::no_op().encode(), [0x00, 0x00]);
    assert_eq!(Command::no_op(), Command::new(Register::NoOp, 0));
}

#[test]
fn register_addr_and_mask() {
    assert_eq!(Register::DisplayTest.addr(), 0x0F);
    assert_eq!(Register::Digit(12).addr(), 0x05);
    assert_eq!(Register::Intensity.mask(0x3A), 0x0A);
    assert_eq!(Register::DecodeMode.mask(0x3A), 0x3A);
}
