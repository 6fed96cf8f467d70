//! The frame reader: the event stream is read four bytes at a time.

use vstd::prelude::*;
use crate::error::DecodeError;
use crate::input::read_u8;

verus! {

/// Four consecutive bytes of an event stream: the tag that selects the
/// event, and three bytes whose meaning depends on it.
#[derive(Debug, Clone, Copy, PartialEq, Eq, Structural)]
pub struct Frame {
    pub tag: u8,
    pub byte1: u8,
    pub byte2: u8,
    pub byte3: u8,
}

/// The frame that occupies `s[pos..pos + 4]`.
pub open spec fn spec_frame_at(s: Seq<u8>, pos: int) -> Frame
    recommends
        0 <= pos,
        pos + 4 <= s.len(),
{
    Frame { tag: s[pos], byte1: s[pos + 1], byte2: s[pos + 2], byte3: s[pos + 3] }
}

/// The tag of the frame of `s` with index `k`, counted from the front.
pub open spec fn spec_frame_tag(s: Seq<u8>, k: int) -> u8 {
    s[4 * k]
}

/// The payload of the first `frames` frames of `s`: the last two bytes of
/// each, in order.
pub open spec fn spec_payload(s: Seq<u8>, frames: int) -> Seq<u8> {
    Seq::new((2 * frames) as nat, |k: int| s[4 * (k / 2) + 2 + k % 2])
}

/// Reads the frame at the front of `i` and returns it with the input that
/// follows it. Fails, with `UnexpectedEndOfInput`, exactly when fewer than
/// four bytes are left.
pub fn read_frame<'a>(i: &'a [u8]) -> (r: Result<(&'a [u8], Frame), DecodeError>)
    ensures
        (match r {
            Ok((rest, frame)) => i@.len() >= 4 && rest@ == i@.skip(4) && frame == spec_frame_at(
                i@,
                0,
            ),
            Err(e) => i@.len() < 4 && e == DecodeError::UnexpectedEndOfInput,
        }),
{
    let (i1, tag) = read_u8(i)?;
    let (i2, byte1) = read_u8(i1)?;
    let (i3, byte2) = read_u8(i2)?;
    let (i4, byte3) = read_u8(i3)?;
    assert(i4@ =~= i@.skip(4));
    Ok((i4, Frame { tag, byte1, byte2, byte3 }))
}

} // verus!
