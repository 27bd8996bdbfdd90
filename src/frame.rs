//! The wire frame: `0x55 0x55 id length command params.. checksum`.

use vstd::prelude::*;

verus! {

/// The value of each of the two bytes that open a frame.
pub const SYNC: u8 = 0x55;

/// The largest length byte that a frame may declare (four parameter bytes).
pub const MAX_LENGTH: u8 = 7;

/// The sum of a byte sequence, as a mathematical integer.
pub open spec fn byte_sum(s: Seq<u8>) -> int
    decreases s.len(),
{
    if s.len() == 0 {
        0
    } else {
        byte_sum(s.drop_last()) + s.last()
    }
}

/// The checksum of a frame: 255 minus the sum of id, length, command and
/// parameters, modulo 256.
pub open spec fn checksum_spec(id: u8, command: u8, params: Seq<u8>) -> u8 {
    (255 - ((id + (3 + params.len()) + command + byte_sum(params)) % 256)) as u8
}

/// The bytes of the frame that carries `command` with `params` to servo `id`.
pub open spec fn frame_spec(id: u8, command: u8, params: Seq<u8>) -> Seq<u8> {
    seq![SYNC, SYNC, id, (3 + params.len()) as u8, command] + params + seq![
        checksum_spec(id, command, params),
    ]
}

/// Builds the frame that carries `command` with `params` to servo `servo_id`.
pub fn encode_frame(servo_id: u8, command: u8, params: &Vec<u8>) -> (r: Vec<u8>)
    requires
        params@.len() <= 4,
    ensures
        r@ == frame_spec(servo_id, command, params@),
{
    let length: u8 = 3 + params.len() as u8;
    let mut total: u32 = servo_id as u32 + length as u32 + command as u32;
    let mut out: Vec<u8> = vec![SYNC, SYNC, servo_id, length, command];
    let mut i: usize = 0;
    while i < params.len()
        invariant
            i <= params@.len() <= 4,
            length == 3 + params@.len(),
            total == servo_id + length + command + byte_sum(params@.subrange(0, i as int)),
            total <= 765 + 255 * i,
            out@ == seq![SYNC, SYNC, servo_id, length, command] + params@.subrange(0, i as int),
        decreases params@.len() - i,
    {
        assert(params@.subrange(0, i + 1).drop_last() =~= params@.subrange(0, i as int));
        total = total + params[i] as u32;
        out.push(params[i]);
        i = i + 1;
        assert(out@ =~= seq![SYNC, SYNC, servo_id, length, command] + params@.subrange(
            0,
            i as int,
        ));
    }
    assert(params@.subrange(0, i as int) =~= params@);
    let checksum: u8 = 255 - (total % 256) as u8;
    out.push(checksum);
    assert(out@ =~= frame_spec(servo_id, command, params@));
    out
}

/// Whether two byte vectors hold the same bytes.
fn same_bytes(a: &Vec<u8>, b: &Vec<u8>) -> (r: bool)
    ensures
        r == (a@ == b@),
{
    if a.len() != b.len() {
        return false;
    }
    let mut i: usize = 0;
    while i < a.len()
        invariant
            i <= a@.len() == b@.len(),
            forall|j: int| 0 <= j < i ==> a@[j] == b@[j],
        decreases a@.len() - i,
    {
        if a[i] != b[i] {
            return false;
        }
        i = i + 1;
    }
    assert(a@ =~= b@);
    true
}

/// Splits a complete frame into its servo id, command and parameters.
///
/// The checksum is checked: a frame whose last byte is not the checksum of
/// the others is refused, as is one whose length byte does not match its size
/// or lies outside `3..=7`.
pub fn decode_frame(bytes: &Vec<u8>) -> (r: Option<(u8, u8, Vec<u8>)>)
    ensures
        match r {
            Some((id, command, params)) => params@.len() <= 4 && bytes@ == frame_spec(
                id,
                command,
                params@,
            ),
            None => forall|id: u8, command: u8, params: Seq<u8>|
                params.len() <= 4 ==> bytes@ != #[trigger] frame_spec(id, command, params),
        },
{
    let n = bytes.len();
    if n < 6 || n > 10 || bytes[3] as usize + 3 != n {
        assert forall|id: u8, command: u8, params: Seq<u8>|
            params.len() <= 4 implies bytes@ != #[trigger] frame_spec(id, command, params) by {
            if bytes@ == frame_spec(id, command, params) {
                assert(bytes@[3] == frame_spec(id, command, params)[3]);
            }
        }
        return None;
    }
    let mut params: Vec<u8> = Vec::new();
    let mut i: usize = 5;
    while i < n - 1
        invariant
            n == bytes@.len(),
            6 <= n <= 10,
            5 <= i <= n - 1,
            params@ == bytes@.subrange(5, i as int),
        decreases n - 1 - i,
    {
        params.push(bytes[i]);
        i = i + 1;
        assert(params@ =~= bytes@.subrange(5, i as int));
    }
    let encoded = encode_frame(bytes[2], bytes[4], &params);
    if same_bytes(&encoded, bytes) {
        Some((bytes[2], bytes[4], params))
    } else {
        assert forall|id: u8, command: u8, params2: Seq<u8>|
            params2.len() <= 4 implies bytes@ != #[trigger] frame_spec(id, command, params2) by {
            if bytes@ == frame_spec(id, command, params2) {
                let f = frame_spec(id, command, params2);
                assert(f[2] == id);
                assert(f[4] == command);
                assert(params2 =~= bytes@.subrange(5, n - 1));
            }
        }
        None
    }
}

/// An encoded frame gives back its id, command and parameters, and its last
/// byte is the checksum `255 - ((id + length + command + sum) % 256)`.
pub proof fn lemma_round_trip(
    id: u8,
    command: u8,
    params: Seq<u8>,
    id2: u8,
    command2: u8,
    params2: Seq<u8>,
)
    requires
        params.len() <= 4,
        params2.len() <= 4,
        frame_spec(id, command, params) == frame_spec(id2, command2, params2),
    ensures
        id == id2,
        command == command2,
        params == params2,
        frame_spec(id, command, params).last() as int == 255 - ((id + (3 + params.len()) + command
            + byte_sum(params)) % 256),
{
    let f = frame_spec(id, command, params);
    let g = frame_spec(id2, command2, params2);
    assert(f[2] == id && g[2] == id2);
    assert(f[4] == command && g[4] == command2);
    assert(f[3] == g[3]);
    assert(params.len() == params2.len());
    assert(params =~= f.subrange(5, 5 + params.len() as int));
    assert(params2 =~= g.subrange(5, 5 + params2.len() as int));
    assert(0 <= (id + (3 + params.len()) + command + byte_sum(params)) % 256 < 256);
}

/// The length byte of an encoded frame counts the length, command, parameter
/// and checksum bytes, is at most 7, and the frame is three bytes longer.
pub proof fn lemma_length(id: u8, command: u8, params: Seq<u8>)
    requires
        params.len() <= 4,
    ensures
        frame_spec(id, command, params)[3] == 3 + params.len(),
        frame_spec(id, command, params)[3] <= MAX_LENGTH,
        frame_spec(id, command, params).len() == frame_spec(id, command, params)[3] + 3,
{
}

} // verus!
