//! Decoding one logical event from the front of an event stream.

use vstd::prelude::*;
use crate::error::DecodeError;
use crate::event::aggregate::{lemma_run_bounds, spec_run, AggregatorView};
use crate::event::classify::{
    classify_frame,
    is_known_tag,
    lemma_pack14,
    spec_classify,
    spec_pack14,
    Classified,
    TAG_COMMENT_START,
    TAG_END_OF_TRACK,
    TAG_EXCLUSIVE_START,
};
use crate::event::comment_event::take_comment_event;
use crate::event::exclusive_event::take_track_exclusive_event;
use crate::event::frame::{read_frame, spec_frame_at};
use crate::event::types::{TrackEvent, TrackEventView};
use crate::input::{decoded, read_u8};

verus! {

/// The event at the front of `s` and the number of bytes it occupies, or the
/// failure that decoding it ends in. An unknown tag is reported with its
/// offset in `s`.
pub open spec fn spec_parse_track_event(s: Seq<u8>) -> Result<(TrackEventView, int), DecodeError> {
    spec_run(s, 0, AggregatorView::Idle)
}

/// The event that the frame at the front of `s` is by itself, and the four
/// bytes it occupies. Nothing but that frame is looked at.
///
/// An input shorter than a frame fails with `UnexpectedEndOfInput`, and a
/// tag that selects no event with `UnknownEventType` at offset 0. A frame
/// that is part of an event of several frames, one that starts a comment or
/// an exclusive message or one that continues either, is out of place as an
/// event of its own and fails with `MisplacedContinuationFrame`.
pub open spec fn spec_take_single_length_event(s: Seq<u8>) -> Result<
    (TrackEventView, int),
    DecodeError,
> {
    if s.len() < 4 {
        Err(DecodeError::UnexpectedEndOfInput)
    } else {
        match spec_classify(spec_frame_at(s, 0)) {
            None => Err(DecodeError::UnknownEventType(s[0], 0)),
            Some(Classified::Complete(event)) => Ok((event@, 4)),
            Some(_) => Err(DecodeError::MisplacedContinuationFrame),
        }
    }
}

/// Decodes the frame at the front of `i` as an event of its own, and returns
/// the event with the input after the frame. Where the frame does not start
/// a comment or an exclusive message, this is the event at the front of `i`.
pub fn take_single_length_event<'a>(i: &'a [u8]) -> (r: Result<(&'a [u8], TrackEvent), DecodeError>)
    ensures
        decoded(r, i@, spec_take_single_length_event(i@)),
        i@.len() == 0 || (i@[0] != TAG_EXCLUSIVE_START && i@[0] != TAG_COMMENT_START) ==> decoded(
            r,
            i@,
            spec_parse_track_event(i@),
        ),
        r matches Ok((rest, _)) ==> rest@ == i@.skip(4),
{
    let (rest, frame) = read_frame(i)?;
    match classify_frame(frame, 0) {
        Ok(Classified::Complete(event)) => Ok((rest, event)),
        Ok(_) => Err(DecodeError::MisplacedContinuationFrame),
        Err(e) => Err(e),
    }
}

/// What a frame is as an event of its own depends on that frame alone: two
/// inputs whose first four bytes agree give the same event or the same
/// failure, whatever follows the frame in either.
pub proof fn lemma_single_length_event_reads_one_frame(s: Seq<u8>, t: Seq<u8>)
    requires
        s.len() >= 4,
        t.len() >= 4,
        s.take(4) == t.take(4),
    ensures
        spec_take_single_length_event(s) == spec_take_single_length_event(t),
        spec_take_single_length_event(s) matches Ok((_, n)) ==> n == 4,
{
    assert forall|k: int| 0 <= k < 4 implies s[k] == t[k] by {
        assert(s.take(4)[k] == s[k]);
        assert(t.take(4)[k] == t[k]);
    }
}

/// Decodes the logical event at the front of `i`, which may span several
/// frames, and returns it with the input after its last frame.
///
/// Fails with `UnexpectedEndOfInput` if `i` holds no whole frame, with
/// `UnknownEventType` at a tag that selects no event, with
/// `MisplacedContinuationFrame` at a continuation frame that continues
/// nothing or at another frame where one is due, and with
/// `UnterminatedContinuation` if `i` ends within a comment or an exclusive
/// message.
pub fn parse_track_event<'a>(i: &'a [u8]) -> (r: Result<(&'a [u8], TrackEvent), DecodeError>)
    ensures
        decoded(r, i@, spec_parse_track_event(i@)),
        r matches Ok((rest, _)) ==> rest@.len() + 4 <= i@.len(),
        r matches Err(e) ==> e.within(i@.len() as int),
{
    proof {
        assert(i.len() == i@.len());
        lemma_run_bounds(i@, 0, AggregatorView::Idle);
    }
    let (_, tag) = read_u8(i)?;
    match tag {
        TAG_EXCLUSIVE_START => take_track_exclusive_event(i),
        TAG_COMMENT_START => take_comment_event(i),
        _ => take_single_length_event(i),
    }
}

/// A frame whose tag selects no event fails the decoding, whatever was being
/// collected, and the failure names the tag and where the frame starts.
pub proof fn lemma_unknown_tag_fails(s: Seq<u8>, pos: int, state: AggregatorView)
    requires
        0 <= pos,
        pos + 4 <= s.len(),
        !is_known_tag(s[pos]),
    ensures
        spec_run(s, pos, state) == Err::<(TrackEventView, int), _>(
            DecodeError::UnknownEventType(s[pos], pos as usize),
        ),
{
}

/// A frame with a tag up to `0x7F` is a note: the tag is its key number, and
/// the three bytes after it are its step time, gate time and velocity.
pub proof fn lemma_note_frame(s: Seq<u8>)
    requires
        s.len() >= 4,
        s[0] <= 0x7F,
    ensures
        spec_parse_track_event(s) == Ok::<_, DecodeError>(
            (
                TrackEventView::Note {
                    step_time: s[1],
                    key_number: s[0],
                    gate_time: s[2],
                    velocity: s[3],
                },
                4int,
            ),
        ),
{
}

/// A tempo frame holds its step time and then the tempo, low byte first:
/// `(high << 7) | low`, which of seven-bit bytes is `high * 128 + low`.
pub proof fn lemma_tempo_frame(s: Seq<u8>)
    requires
        s.len() >= 4,
        s[0] == 0xE7,
    ensures
        spec_parse_track_event(s) == Ok::<_, DecodeError>(
            (TrackEventView::Tempo { step_time: s[1], tempo: spec_pack14(s[2], s[3]) }, 4int),
        ),
        spec_pack14(s[2], s[3]) == ((s[3] as u16) << 7) | (s[2] as u16),
        s[2] < 128 && s[3] < 128 ==> spec_pack14(s[2], s[3]) == s[3] * 128 + s[2],
{
    lemma_pack14(s[2], s[3]);
}

/// A pitch bend frame holds its step time and then the bend, low byte first:
/// `(high << 7) | low` as a signed number, which is never negative and of
/// seven-bit bytes is `high * 128 + low`.
pub proof fn lemma_pitch_bend_frame(s: Seq<u8>)
    requires
        s.len() >= 4,
        s[0] == 0xEE,
    ensures
        spec_parse_track_event(s) == Ok::<_, DecodeError>(
            (
                TrackEventView::PitchBend {
                    step_time: s[1],
                    value: spec_pack14(s[2], s[3]) as i16,
                },
                4int,
            ),
        ),
        (spec_pack14(s[2], s[3]) as i16) as int == spec_pack14(s[2], s[3]) as int,
        s[2] < 128 && s[3] < 128 ==> (spec_pack14(s[2], s[3]) as i16) == s[3] * 128 + s[2],
{
    lemma_pack14(s[2], s[3]);
}

/// A frame that ends a track is an event by itself.
pub proof fn lemma_end_of_track_frame(s: Seq<u8>)
    requires
        s.len() >= 4,
        s[0] == TAG_END_OF_TRACK,
    ensures
        spec_parse_track_event(s) == Ok::<_, DecodeError>((TrackEventView::EndOfTrack, 4int)),
{
}

} // verus!
