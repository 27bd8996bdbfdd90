use servo_bus::commands::{
    led_off_frame, motor_mode_frame, move_frame, move_prepare_frame, move_start_frame,
    move_stop_frame, position_from_frame, query_frame, servo_mode_frame, SERVO_POS_READ,
};
use servo_bus::frame::{decode_frame, encode_frame};
use servo_bus::reader::{read_frame, reader_next, ReadAction};

#[test]
fn move_writes_exact_bytes() {
    assert_eq!(
        move_frame(1, 500, 1000),
        vec![0x55, 0x55, 0x01, 0x07, 0x01, 0xF4, 0x01, 0xE8, 0x03, 0x16]
    );
}

#[test]
fn move_prepare_uses_wait_opcode() {
    let f = move_prepare_frame(1, 500, 1000);
    assert_eq!(f, vec![0x55, 0x55, 0x01, 0x07, 0x07, 0xF4, 0x01, 0xE8, 0x03, 0x10]);
}

#[test]
fn parameterless_frames() {
    assert_eq!(move_start_frame(0xFE), vec![0x55, 0x55, 0xFE, 0x03, 0x0B, 0xF3]);
    assert_eq!(move_stop_frame(1), vec![0x55, 0x55, 0x01, 0x03, 0x0C, 0xEF]);
    assert_eq!(query_frame(1, SERVO_POS_READ), vec![0x55, 0x55, 0x01, 0x03, 0x1C, 0xDF]);
}

#[test]
fn led_and_servo_mode_frames() {
    assert_eq!(led_off_frame(2), vec![0x55, 0x55, 0x02, 0x04, 0x21, 0x00, 0xD8]);
    assert_eq!(
        servo_mode_frame(1),
        vec![0x55, 0x55, 0x01, 0x07, 0x1D, 0x00, 0x00, 0x00, 0x00, 0xDA]
    );
}

#[test]
fn motor_speed_is_clamped() {
    assert_eq!(motor_mode_frame(1, 5000), motor_mode_frame(1, 1000));
    assert_eq!(motor_mode_frame(1, -5000), motor_mode_frame(1, -1000));
    assert_eq!(
        motor_mode_frame(1, 1000),
        vec![0x55, 0x55, 0x01, 0x07, 0x1D, 0x01, 0x00, 0xE8, 0x03, 0xEE]
    );
    let neg = motor_mode_frame(1, -1000);
    assert_eq!(&neg[5..9], &[0x01, 0x00, 0x18, 0xFC]);
    assert_ne!(motor_mode_frame(1, 200), motor_mode_frame(1, 1000));
}

#[test]
fn encode_then_decode_round_trips() {
    for params in [vec![], vec![7], vec![1, 2, 3], vec![0xFF, 0xFF, 0xFF, 0xFF]] {
        let f = encode_frame(9, 30, &params);
        assert_eq!(f[3] as usize, 3 + params.len());
        assert!(f[3] <= 7);
        let sum: u32 = 9 + f[3] as u32 + 30 + params.iter().map(|&b| b as u32).sum::<u32>();
        assert_eq!(*f.last().unwrap() as u32, 255 - sum % 256);
        assert_eq!(decode_frame(&f), Some((9, 30, params)));
    }
}

#[test]
fn decode_refuses_bad_frames() {
    let mut f = move_frame(1, 500, 1000);
    let last = f.len() - 1;
    f[last] ^= 1;
    assert_eq!(decode_frame(&f), None);
    assert_eq!(decode_frame(&vec![0x55, 0x55, 0x01, 0x03]), None);
    let mut g = move_frame(1, 500, 1000);
    g[0] = 0x54;
    assert_eq!(decode_frame(&g), None);
}

#[test]
fn position_sign() {
    let neg = vec![0x55, 0x55, 0x01, 0x05, 0x1C, 0xFF, 0xFF, 0xDF];
    assert_eq!(position_from_frame(&neg), Some(-1));
    let pos = vec![0x55, 0x55, 0x01, 0x05, 0x1C, 0x64, 0x00, 0x79];
    assert_eq!(position_from_frame(&pos), Some(100));
    assert_eq!(position_from_frame(&vec![0x55, 0x55, 0x01, 0x03, 0x1C, 0xDF]), None);
}

#[test]
fn position_read_end_to_end() {
    let stream = vec![0x55, 0x55, 0x01, 0x05, 0x1C, 0x64, 0x00, 0x79];
    let (frame, used) = read_frame(&stream).unwrap();
    assert_eq!(used, 8);
    assert_eq!(position_from_frame(&frame), Some(100));
}

#[test]
fn reader_skips_noise() {
    let mut stream = vec![0x00, 0x55, 0x13, 0x42, 0x55];
    stream.push(0x01);
    let frame = move_frame(3, 10, 20);
    stream.extend_from_slice(&frame);
    assert_eq!(read_frame(&stream), Some((frame, 16)));
}

#[test]
fn reader_skips_overlong_header() {
    let mut stream = vec![0x55, 0x55, 0x01, 0x08, 0x1C];
    let frame = query_frame(1, SERVO_POS_READ);
    stream.extend_from_slice(&frame);
    assert_eq!(read_frame(&stream), Some((frame, 11)));
}

#[test]
fn reader_waits_for_whole_frame() {
    let frame = move_frame(1, 500, 1000);
    assert_eq!(read_frame(&frame[..9].to_vec()), None);
    assert_eq!(read_frame(&vec![]), None);
}

#[test]
fn reader_step_actions() {
    assert_eq!(reader_next(&vec![]), ReadAction::ReadMore(1));
    assert_eq!(reader_next(&vec![0x10]), ReadAction::Discard);
    assert_eq!(reader_next(&vec![0x55]), ReadAction::ReadMore(1));
    assert_eq!(reader_next(&vec![0x55, 0x10]), ReadAction::Discard);
    assert_eq!(reader_next(&vec![0x55, 0x55]), ReadAction::ReadMore(3));
    assert_eq!(reader_next(&vec![0x55, 0x55, 1, 9, 1]), ReadAction::Discard);
    assert_eq!(reader_next(&vec![0x55, 0x55, 1, 2, 1]), ReadAction::Discard);
    assert_eq!(reader_next(&vec![0x55, 0x55, 1, 5, 0x1C]), ReadAction::ReadMore(3));
    assert_eq!(
        reader_next(&vec![0x55, 0x55, 1, 5, 0x1C, 0x64, 0x00, 0x79]),
        ReadAction::Frame
    );
}
