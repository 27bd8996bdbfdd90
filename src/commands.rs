//! The command catalog and the frames of the servo operations.

use vstd::prelude::*;
use crate::bytes::{clamp, clamp_spec, higher_byte, lower_byte, word};
use crate::frame::{encode_frame, frame_spec};

verus! {

/// The address that every servo on the bus answers to; commands sent to it
/// get no response.
pub const SERVO_ID_ALL: u8 = 0xfe;

pub const SERVO_MOVE_TIME_WRITE: u8 = 1;
pub const SERVO_MOVE_TIME_READ: u8 = 2;
pub const SERVO_MOVE_TIME_WAIT_WRITE: u8 = 7;
pub const SERVO_MOVE_TIME_WAIT_READ: u8 = 8;
pub const SERVO_MOVE_START: u8 = 11;
pub const SERVO_MOVE_STOP: u8 = 12;
pub const SERVO_ID_WRITE: u8 = 13;
pub const SERVO_ID_READ: u8 = 14;
pub const SERVO_ANGLE_OFFSET_ADJUST: u8 = 17;
pub const SERVO_ANGLE_OFFSET_WRITE: u8 = 18;
pub const SERVO_ANGLE_OFFSET_READ: u8 = 19;
pub const SERVO_ANGLE_LIMIT_WRITE: u8 = 20;
pub const SERVO_ANGLE_LIMIT_READ: u8 = 21;
pub const SERVO_VIN_LIMIT_WRITE: u8 = 22;
pub const SERVO_VIN_LIMIT_READ: u8 = 23;
pub const SERVO_TEMP_MAX_LIMIT_WRITE: u8 = 24;
pub const SERVO_TEMP_MAX_LIMIT_READ: u8 = 25;
pub const SERVO_TEMP_READ: u8 = 26;
pub const SERVO_VIN_READ: u8 = 27;
pub const SERVO_POS_READ: u8 = 28;
pub const SERVO_OR_MOTOR_MODE_WRITE: u8 = 29;
pub const SERVO_OR_MOTOR_MODE_READ: u8 = 30;
pub const SERVO_LOAD_OR_UNLOAD_WRITE: u8 = 31;
pub const SERVO_LOAD_OR_UNLOAD_READ: u8 = 32;
pub const SERVO_LED_CTRL_WRITE: u8 = 33;
pub const SERVO_LED_CTRL_READ: u8 = 34;
pub const SERVO_LED_ERROR_WRITE: u8 = 35;
pub const SERVO_LED_ERROR_READ: u8 = 36;

/// The fastest motor speed, in either direction.
pub const MAX_SPEED: i32 = 1000;

/// Position and time as four little-endian bytes.
pub open spec fn move_params(position: u16, time: u16) -> Seq<u8> {
    seq![(position % 256) as u8, (position / 256) as u8, (time % 256) as u8, (time / 256) as u8]
}

fn move_params_vec(position: u16, time: u16) -> (r: Vec<u8>)
    ensures
        r@ == move_params(position, time),
{
    let r = vec![lower_byte(position), higher_byte(position), lower_byte(time), higher_byte(time)];
    assert(r@ =~= move_params(position, time));
    r
}

/// The frame that moves servo `servo_id` to `position` within `time` ms.
pub fn move_frame(servo_id: u8, position: u16, time: u16) -> (r: Vec<u8>)
    ensures
        r@ == frame_spec(servo_id, SERVO_MOVE_TIME_WRITE, move_params(position, time)),
{
    encode_frame(servo_id, SERVO_MOVE_TIME_WRITE, &move_params_vec(position, time))
}

/// The frame that stores a move for servo `servo_id`, to run on move-start.
pub fn move_prepare_frame(servo_id: u8, position: u16, time: u16) -> (r: Vec<u8>)
    ensures
        r@ == frame_spec(servo_id, SERVO_MOVE_TIME_WAIT_WRITE, move_params(position, time)),
{
    encode_frame(servo_id, SERVO_MOVE_TIME_WAIT_WRITE, &move_params_vec(position, time))
}

/// The frame that switches the LED of servo `servo_id` off.
pub fn led_off_frame(servo_id: u8) -> (r: Vec<u8>)
    ensures
        r@ == frame_spec(servo_id, SERVO_LED_CTRL_WRITE, seq![0u8]),
{
    let params: Vec<u8> = vec![0u8];
    assert(params@ =~= seq![0u8]);
    encode_frame(servo_id, SERVO_LED_CTRL_WRITE, &params)
}

/// The frame that starts the stored move of servo `servo_id`.
pub fn move_start_frame(servo_id: u8) -> (r: Vec<u8>)
    ensures
        r@ == frame_spec(servo_id, SERVO_MOVE_START, Seq::<u8>::empty()),
{
    query_frame(servo_id, SERVO_MOVE_START)
}

/// The frame that stops servo `servo_id`.
pub fn move_stop_frame(servo_id: u8) -> (r: Vec<u8>)
    ensures
        r@ == frame_spec(servo_id, SERVO_MOVE_STOP, Seq::<u8>::empty()),
{
    query_frame(servo_id, SERVO_MOVE_STOP)
}

/// The frame of `command` with no parameters, as a read query sends it.
pub fn query_frame(servo_id: u8, command: u8) -> (r: Vec<u8>)
    ensures
        r@ == frame_spec(servo_id, command, Seq::<u8>::empty()),
{
    let params: Vec<u8> = Vec::new();
    assert(params@ =~= Seq::<u8>::empty());
    encode_frame(servo_id, command, &params)
}

/// The frame that puts servo `servo_id` back in position mode.
pub fn servo_mode_frame(servo_id: u8) -> (r: Vec<u8>)
    ensures
        r@ == frame_spec(servo_id, SERVO_OR_MOTOR_MODE_WRITE, seq![0u8, 0u8, 0u8, 0u8]),
{
    let params: Vec<u8> = vec![0u8, 0u8, 0u8, 0u8];
    assert(params@ =~= seq![0u8, 0u8, 0u8, 0u8]);
    encode_frame(servo_id, SERVO_OR_MOTOR_MODE_WRITE, &params)
}

/// The 16-bit two's complement word of `speed` clamped to `[-1000, 1000]`.
pub open spec fn speed_word(speed: i32) -> int {
    let c = clamp_spec(speed as int, -1000, 1000);
    if c < 0 { c + 65536 } else { c }
}

/// The parameters of motor mode at `speed`: mode 1, a zero byte, and the
/// clamped speed as a little-endian word.
pub open spec fn motor_mode_params(speed: i32) -> Seq<u8> {
    seq![1u8, 0u8, (speed_word(speed) % 256) as u8, (speed_word(speed) / 256) as u8]
}

/// The frame that puts servo `servo_id` in motor mode, turning at `speed`
/// clamped to `[-1000, 1000]`.
pub fn motor_mode_frame(servo_id: u8, speed: i32) -> (r: Vec<u8>)
    ensures
        r@ == frame_spec(servo_id, SERVO_OR_MOTOR_MODE_WRITE, motor_mode_params(speed)),
{
    let c = clamp(speed, -MAX_SPEED, MAX_SPEED);
    let raw: u16 = if c < 0 { (c + 65536) as u16 } else { c as u16 };
    let params: Vec<u8> = vec![1u8, 0u8, lower_byte(raw), higher_byte(raw)];
    assert(params@ =~= motor_mode_params(speed));
    encode_frame(servo_id, SERVO_OR_MOTOR_MODE_WRITE, &params)
}

/// Any speed above the maximum is sent as the maximum, and any speed below
/// its negation as the negation.
pub proof fn lemma_speed_clamp(servo_id: u8, speed: i32)
    ensures
        speed >= MAX_SPEED ==> frame_spec(
            servo_id,
            SERVO_OR_MOTOR_MODE_WRITE,
            motor_mode_params(speed),
        ) == frame_spec(servo_id, SERVO_OR_MOTOR_MODE_WRITE, motor_mode_params(MAX_SPEED)),
        speed <= -MAX_SPEED ==> frame_spec(
            servo_id,
            SERVO_OR_MOTOR_MODE_WRITE,
            motor_mode_params(speed),
        ) == frame_spec(servo_id, SERVO_OR_MOTOR_MODE_WRITE, motor_mode_params(-1000i32)),
{
}

/// A 16-bit word read as a signed 16-bit value.
pub open spec fn signed16(w: int) -> int {
    if w >= 32768 { w - 65536 } else { w }
}

/// The position in a position-read response: bytes 5 and 6, little-endian,
/// read as signed. There is one when the frame is complete, checksum
/// included; the checksum itself is not checked here.
pub fn position_from_frame(frame: &Vec<u8>) -> (r: Option<i16>)
    ensures
        r is Some <==> frame@.len() >= 8,
        r matches Some(p) ==> p as int == signed16(frame@[5] + 256 * frame@[6]),
{
    if frame.len() < 8 {
        return None;
    }
    let w = word(frame[5], frame[6]);
    let p: i16 = if w >= 32768 { (w as i32 - 65536) as i16 } else { w as i16 };
    Some(p)
}

} // verus!
