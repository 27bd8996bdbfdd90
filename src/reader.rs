//! Finding frames in a byte stream that may have lost alignment.
//!
//! The reader gathers bytes one request at a time. After each request,
//! `reader_next` decides from the bytes gathered so far whether to read more,
//! to discard them and scan on, or to hand them out as a frame.

use vstd::prelude::*;
use crate::frame::{frame_spec, MAX_LENGTH, SYNC};

verus! {

/// What the reader does next with the bytes gathered so far.
#[derive(Debug, PartialEq, Eq, Structural)]
pub enum ReadAction {
    /// Read this many more bytes (always at least one).
    ReadMore(usize),
    /// Drop the gathered bytes and scan on from the next byte of the stream.
    Discard,
    /// The gathered bytes form a complete frame.
    Frame,
}

/// Whether a length byte lies in the range that a frame may declare.
pub open spec fn valid_length(length: u8) -> bool {
    3 <= length <= MAX_LENGTH
}

/// The action for the bytes gathered so far.
pub open spec fn next_action(d: Seq<u8>) -> ReadAction {
    if d.len() == 0 {
        ReadAction::ReadMore(1)
    } else if d[0] != SYNC {
        ReadAction::Discard
    } else if d.len() == 1 {
        ReadAction::ReadMore(1)
    } else if d[1] != SYNC {
        ReadAction::Discard
    } else if d.len() < 5 {
        ReadAction::ReadMore((5 - d.len()) as usize)
    } else if !valid_length(d[3]) {
        ReadAction::Discard
    } else if d.len() < d[3] + 3 {
        ReadAction::ReadMore((d[3] + 3 - d.len()) as usize)
    } else {
        ReadAction::Frame
    }
}

/// Decides what to do with the bytes gathered so far: a first byte that is
/// not a sync byte, a second that is not, or a header whose length byte lies
/// outside `3..=7` is discarded; a header is read whole before its length is
/// looked at; a frame is complete at `length + 3` bytes, checksum included.
pub fn reader_next(data: &Vec<u8>) -> (r: ReadAction)
    ensures
        r == next_action(data@),
{
    let n = data.len();
    if n == 0 {
        ReadAction::ReadMore(1)
    } else if data[0] != SYNC {
        ReadAction::Discard
    } else if n == 1 {
        ReadAction::ReadMore(1)
    } else if data[1] != SYNC {
        ReadAction::Discard
    } else if n < 5 {
        ReadAction::ReadMore(5 - n)
    } else if data[3] < 3 || data[3] > MAX_LENGTH {
        ReadAction::Discard
    } else if n < data[3] as usize + 3 {
        ReadAction::ReadMore(data[3] as usize + 3 - n)
    } else {
        ReadAction::Frame
    }
}

/// The reader run over the stream `s` from position `pos`, with `data`
/// gathered: the frame it hands out and the position after it, or `None`
/// where the stream ends first.
pub open spec fn run(s: Seq<u8>, pos: int, data: Seq<u8>) -> Option<(Seq<u8>, int)>
    decreases s.len() - pos, data.len(),
{
    if 0 <= pos <= s.len() {
        match next_action(data) {
            ReadAction::ReadMore(n) => {
                if pos + n > s.len() {
                    None
                } else {
                    run(s, pos + n, data + s.subrange(pos, pos + n))
                }
            },
            ReadAction::Discard => run(s, pos, Seq::empty()),
            ReadAction::Frame => Some((data, pos)),
        }
    } else {
        None
    }
}

/// The first frame in the stream `s`, and the number of bytes consumed up to
/// its end.
pub open spec fn scan(s: Seq<u8>) -> Option<(Seq<u8>, int)> {
    run(s, 0, Seq::empty())
}

/// Runs the reader over a buffered stream: the first frame and the number of
/// bytes consumed, or `None` where the stream ends before a frame is whole.
/// The reader frames bytes only: it checks neither the checksum nor which
/// servo answered, which `decode_frame` and the caller do where they need to.
pub fn read_frame(stream: &Vec<u8>) -> (r: Option<(Vec<u8>, usize)>)
    ensures
        scan(stream@) == (match r {
            Some((f, n)) => Some((f@, n as int)),
            None => None,
        }),
{
    let mut data: Vec<u8> = Vec::new();
    let mut pos: usize = 0;
    loop
        invariant
            pos <= stream@.len(),
            data@.len() <= 10,
            scan(stream@) == run(stream@, pos as int, data@),
        decreases 11 * (stream@.len() - pos) + data@.len(),
    {
        match reader_next(&data) {
            ReadAction::ReadMore(n) => {
                if n > stream.len() - pos {
                    return None;
                }
                let end = pos + n;
                let ghost d0 = data@;
                let ghost p0 = pos as int;
                while pos < end
                    invariant
                        0 <= p0 <= pos <= end <= stream@.len(),
                        data@ == d0 + stream@.subrange(p0, pos as int),
                    decreases end - pos,
                {
                    data.push(stream[pos]);
                    pos = pos + 1;
                    assert(data@ =~= d0 + stream@.subrange(p0, pos as int));
                }
            },
            ReadAction::Discard => {
                data = Vec::new();
            },
            ReadAction::Frame => {
                return Some((data, pos));
            },
        }
    }
}

/// Whether the bytes at `j` and `j + 1` of `s` are both sync bytes.
pub open spec fn sync_pair_at(s: Seq<u8>, j: int) -> bool {
    s[j] == SYNC && s[j + 1] == SYNC
}

/// From `i` on, bytes that start no sync pair before `k` are scanned past one
/// by one, up to `k` where a sync byte stands.
proof fn lemma_skip_noise(s: Seq<u8>, i: int, k: int)
    requires
        0 <= i <= k < s.len(),
        s[k] == SYNC,
        forall|j: int| i <= j < k ==> !#[trigger] sync_pair_at(s, j),
    ensures
        run(s, i, Seq::empty()) == run(s, k, Seq::empty()),
    decreases k - i,
{
    let e = Seq::<u8>::empty();
    if i < k {
        assert(!sync_pair_at(s, i));
        assert(e + s.subrange(i, i + 1) =~= seq![s[i]]);
        if s[i] != SYNC {
            assert(run(s, i + 1, seq![s[i]]) == run(s, i + 1, e));
            assert(run(s, i, e) == run(s, i + 1, seq![s[i]]));
            lemma_skip_noise(s, i + 1, k);
        } else {
            assert(i + 1 < k);
            assert(seq![s[i]] + s.subrange(i + 1, i + 2) =~= seq![s[i], s[i + 1]]);
            assert(run(s, i + 2, seq![s[i], s[i + 1]]) == run(s, i + 2, e));
            assert(run(s, i + 1, seq![s[i]]) == run(s, i + 2, seq![s[i], s[i + 1]]));
            assert(run(s, i, e) == run(s, i + 1, seq![s[i]]));
            lemma_skip_noise(s, i + 2, k);
        }
    }
}

/// A whole frame at `k` is read and handed out, ending the scan right after it.
proof fn lemma_read_frame_at(s: Seq<u8>, k: int, id: u8, command: u8, params: Seq<u8>)
    requires
        params.len() <= 4,
        0 <= k,
        k + frame_spec(id, command, params).len() <= s.len(),
        s.subrange(k, k + frame_spec(id, command, params).len()) == frame_spec(id, command, params),
    ensures
        run(s, k, Seq::empty()) == Some(
            (frame_spec(id, command, params), k + frame_spec(id, command, params).len()),
        ),
{
    let f = frame_spec(id, command, params);
    let n = f.len() as int;
    let e = Seq::<u8>::empty();
    assert(s.subrange(k, k + n)[0] == s[k]);
    assert(s.subrange(k, k + n)[1] == s[k + 1]);
    assert(s.subrange(k, k + n)[3] == s[k + 3]);
    assert(e + s.subrange(k, k + 1) =~= s.subrange(k, k + 1));
    assert(s.subrange(k, k + 1) + s.subrange(k + 1, k + 2) =~= s.subrange(k, k + 2));
    assert(s.subrange(k, k + 2) + s.subrange(k + 2, k + 5) =~= s.subrange(k, k + 5));
    assert(s.subrange(k, k + 5) + s.subrange(k + 5, k + n) =~= s.subrange(k, k + n));
    assert(s.subrange(k, k + 5)[3] == s[k + 3]);
    assert(run(s, k + n, s.subrange(k, k + n)) == Some((f, k + n)));
    assert(run(s, k + 5, s.subrange(k, k + 5)) == run(s, k + n, s.subrange(k, k + n)));
    assert(run(s, k + 2, s.subrange(k, k + 2)) == run(s, k + 5, s.subrange(k, k + 5)));
    assert(run(s, k + 1, s.subrange(k, k + 1)) == run(s, k + 2, s.subrange(k, k + 2)));
    assert(run(s, k, e) == run(s, k + 1, s.subrange(k, k + 1)));
}

/// A frame behind noise is found: where no byte of the noise starts a sync
/// pair (counting the frame's first byte as a partner), the reader hands out
/// the frame and stops right at its end, having passed each noise byte once.
pub proof fn lemma_resync(garbage: Seq<u8>, id: u8, command: u8, params: Seq<u8>)
    requires
        params.len() <= 4,
        forall|j: int|
            0 <= j < garbage.len() ==> !#[trigger] sync_pair_at(
                garbage + frame_spec(id, command, params),
                j,
            ),
    ensures
        scan(garbage + frame_spec(id, command, params)) == Some(
            (frame_spec(id, command, params), (garbage.len() + frame_spec(id, command, params).len()) as int),
        ),
{
    let f = frame_spec(id, command, params);
    let s = garbage + f;
    let k = garbage.len() as int;
    assert(s[k] == f[0]);
    lemma_skip_noise(s, 0, k);
    assert(s.subrange(k, k + f.len()) =~= f);
    lemma_read_frame_at(s, k, id, command, params);
}

/// A header that declares a length above 7 is dropped without an error, and
/// the scan goes on in the same stream right after the header.
pub proof fn lemma_skip_bad_length(s: Seq<u8>)
    requires
        s.len() >= 5,
        s[0] == SYNC,
        s[1] == SYNC,
        s[3] > MAX_LENGTH,
    ensures
        scan(s) == run(s, 5, Seq::empty()),
{
    let e = Seq::<u8>::empty();
    assert(e + s.subrange(0, 1) =~= s.subrange(0, 1));
    assert(s.subrange(0, 1) + s.subrange(1, 2) =~= s.subrange(0, 2));
    assert(s.subrange(0, 2) + s.subrange(2, 5) =~= s.subrange(0, 5));
    assert(s.subrange(0, 5)[3] == s[3]);
    assert(run(s, 5, s.subrange(0, 5)) == run(s, 5, e));
    assert(run(s, 2, s.subrange(0, 2)) == run(s, 5, s.subrange(0, 5)));
    assert(run(s, 1, s.subrange(0, 1)) == run(s, 2, s.subrange(0, 2)));
    assert(run(s, 0, e) == run(s, 1, s.subrange(0, 1)));
}

} // verus!
