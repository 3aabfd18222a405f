//! Frames: a message of bytes with its length in front.
//!
//! The length stands in four bytes, the least significant first.

use vstd::prelude::*;

verus! {

/// How many bytes the length takes.
pub const PREFIX_LEN: usize = 4;

/// The number below two to the thirty-two in four bytes, the least significant first.
pub open spec fn length_bytes(n: int) -> Seq<u8> {
    seq![
        (n % 256) as u8,
        (n / 256 % 256) as u8,
        (n / 65536 % 256) as u8,
        (n / 16777216 % 256) as u8,
    ]
}

/// The number that the first four bytes spell.
pub open spec fn length_of(b: Seq<u8>) -> int {
    b[0] + 256 * b[1] + 65536 * b[2] + 16777216 * b[3]
}

/// The frame of a message.
pub open spec fn frame(payload: Seq<u8>) -> Seq<u8> {
    length_bytes(payload.len() as int) + payload
}

/// A whole frame stands at the start of the bytes.
pub open spec fn holds_frame(b: Seq<u8>) -> bool {
    b.len() >= PREFIX_LEN && b.len() >= PREFIX_LEN + length_of(b)
}

/// The message of the frame at the start of the bytes.
pub open spec fn first_payload(b: Seq<u8>) -> Seq<u8> {
    b.subrange(PREFIX_LEN as int, PREFIX_LEN + length_of(b))
}

/// Puts a message into a frame. A message whose length does not fit in four bytes has none.
pub fn encode_frame(payload: &Vec<u8>) -> (r: Option<Vec<u8>>)
    ensures
        match r {
            Some(f) => payload@.len() <= u32::MAX && f@ == frame(payload@),
            None => payload@.len() > u32::MAX,
        },
{
    let n: usize = payload.len();
    if n as u64 > u32::MAX as u64 {
        return None;
    }
    let mut f: Vec<u8> = Vec::new();
    f.push((n % 256) as u8);
    f.push((n / 256 % 256) as u8);
    f.push((n / 65536 % 256) as u8);
    f.push((n / 16777216 % 256) as u8);
    let mut i: usize = 0;
    assert(f@ =~= length_bytes(n as int) + payload@.take(0));
    while i < n
        invariant
            n == payload@.len(),
            i <= n,
            f@ == length_bytes(n as int) + payload@.take(i as int),
        decreases n - i,
    {
        f.push(payload[i]);
        i += 1;
        assert(f@ =~= length_bytes(n as int) + payload@.take(i as int));
    }
    assert(payload@.take(n as int) =~= payload@);
    Some(f)
}

/// Takes the message out of the frame at the start of the bytes, and says how many bytes the frame
/// takes. Nothing comes out while the frame is not whole.
pub fn decode_frame(b: &Vec<u8>) -> (r: Option<(Vec<u8>, usize)>)
    ensures
        match r {
            Some((p, used)) => holds_frame(b@) && p@ == first_payload(b@) && used == PREFIX_LEN
                + length_of(b@),
            None => !holds_frame(b@),
        },
{
    if b.len() < PREFIX_LEN {
        return None;
    }
    let n: u64 = b[0] as u64 + 256 * (b[1] as u64) + 65536 * (b[2] as u64) + 16777216 * (b[3]
        as u64);
    if (b.len() - PREFIX_LEN) as u64 >= n {
        let used: usize = PREFIX_LEN + n as usize;
        let mut p: Vec<u8> = Vec::new();
        let mut i: usize = PREFIX_LEN;
        assert(p@ =~= b@.subrange(PREFIX_LEN as int, PREFIX_LEN as int));
        while i < used
            invariant
                PREFIX_LEN <= i <= used <= b@.len(),
                p@ == b@.subrange(PREFIX_LEN as int, i as int),
            decreases used - i,
        {
            p.push(b[i]);
            i += 1;
            assert(p@ =~= b@.subrange(PREFIX_LEN as int, i as int));
        }
        Some((p, used))
    } else {
        None
    }
}

/// A number below two to the thirty-two is spelled by its four bytes.
proof fn lemma_length_bytes(n: int)
    requires
        0 <= n <= u32::MAX,
    ensures
        length_of(length_bytes(n)) == n,
{
}

/// What is read back from a frame is the message that was put into it, whatever follows the frame.
pub proof fn frame_round_trip(payload: Seq<u8>, rest: Seq<u8>)
    requires
        payload.len() <= u32::MAX,
    ensures
        holds_frame(frame(payload) + rest),
        first_payload(frame(payload) + rest) == payload,
        (frame(payload) + rest).skip(PREFIX_LEN + length_of(frame(payload) + rest)) == rest,
{
    let n = payload.len() as int;
    let b = frame(payload) + rest;
    lemma_length_bytes(n);
    assert(length_of(b) == length_of(length_bytes(n)));
    assert(first_payload(b) =~= payload);
    assert(b.skip(PREFIX_LEN + n) =~= rest);
}

/// A part of a frame that lacks its end is not taken for a frame.
pub proof fn cut_frame_is_not_whole(payload: Seq<u8>, k: int)
    requires
        payload.len() <= u32::MAX,
        0 <= k < frame(payload).len(),
    ensures
        !holds_frame(frame(payload).take(k)),
{
    let b = frame(payload).take(k);
    lemma_length_bytes(payload.len() as int);
    if k >= PREFIX_LEN {
        assert(length_of(b) == length_of(length_bytes(payload.len() as int)));
    }
}

} // verus!
