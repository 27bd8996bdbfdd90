use servo_bus::bytes::{clamp, higher_byte, lower_byte, word};

#[test]
fn splits_and_joins_little_endian() {
    assert_eq!(lower_byte(500), 0xF4);
    assert_eq!(higher_byte(500), 0x01);
    assert_eq!(word(0x64, 0x00), 100);
    assert_eq!(word(0xFF, 0xFF) as i16, -1);
}

#[test]
fn clamps_speed() {
    assert_eq!(clamp(5000, -1000, 1000), 1000);
    assert_eq!(clamp(-5000, -1000, 1000), -1000);
    assert_eq!(clamp(250, -1000, 1000), 250);
}
