//! Comments: twenty bytes of text, spread over ten frames.

use vstd::prelude::*;
use crate::error::DecodeError;
use crate::event::aggregate::{collect_event, spec_run, Aggregator, AggregatorView};
use crate::event::classify::{is_known_tag, TAG_COMMENT_START, TAG_CONTINUATION};
use crate::event::frame::{read_frame, spec_frame_tag, spec_payload};
use crate::event::parse::spec_parse_track_event;
use crate::event::types::{TrackEvent, TrackEventView};
use crate::input::decoded;

verus! {

/// The comment whose first frame is the frame at the front of `s`, and the
/// number of bytes it occupies. The tag of that first frame is not looked
/// at: where it is the tag that starts a comment, this is the event at the
/// front of `s`.
pub open spec fn spec_take_comment_event(s: Seq<u8>) -> Result<(TrackEventView, int), DecodeError> {
    if s.len() < 4 {
        Err(DecodeError::UnexpectedEndOfInput)
    } else {
        spec_run(s, 4, AggregatorView::CollectingComment { buffer: seq![s[2], s[3]] })
    }
}

/// Decodes the comment whose first frame is the frame at the front of `i`,
/// and returns it with the input after its last frame. The caller has seen
/// that the first frame starts a comment; its tag is not looked at again.
pub fn take_comment_event<'a>(i: &'a [u8]) -> (r: Result<(&'a [u8], TrackEvent), DecodeError>)
    ensures
        decoded(r, i@, spec_take_comment_event(i@)),
        i@.len() == 0 || i@[0] == TAG_COMMENT_START ==> decoded(
            r,
            i@,
            spec_parse_track_event(i@),
        ),
{
    let (_, frame) = read_frame(i)?;
    collect_event(i, 4, Aggregator::start_comment(frame.byte2, frame.byte3))
}

/// After the frame that starts a comment and continuation frames, `frames`
/// frames in all and fewer than ten, decoding goes on behind them with their
/// payload in the buffer.
pub proof fn lemma_comment_collected(s: Seq<u8>, frames: int)
    requires
        1 <= frames < 10,
        s.len() >= 4 * frames,
        s[0] == TAG_COMMENT_START,
        forall|k: int| 1 <= k < frames ==> #[trigger] spec_frame_tag(s, k) == TAG_CONTINUATION,
    ensures
        spec_parse_track_event(s) == spec_run(
            s,
            4 * frames,
            AggregatorView::CollectingComment { buffer: spec_payload(s, frames) },
        ),
    decreases frames,
{
    if frames == 1 {
        assert(seq![s[2], s[3]] =~= spec_payload(s, 1));
    } else {
        lemma_comment_collected(s, frames - 1);
        let before = spec_payload(s, frames - 1);
        assert(spec_frame_tag(s, frames - 1) == TAG_CONTINUATION);
        assert(before.push(s[4 * (frames - 1) + 2]).push(s[4 * (frames - 1) + 3]) =~= spec_payload(
            s,
            frames,
        ));
    }
}

/// A frame that starts a comment, followed by nine continuation frames, is a
/// comment whose text is the last two bytes of each of the ten frames in
/// order, whatever the second byte of each frame holds.
pub proof fn lemma_comment_event(s: Seq<u8>)
    requires
        s.len() >= 40,
        s[0] == TAG_COMMENT_START,
        forall|k: int| 1 <= k < 10 ==> #[trigger] spec_frame_tag(s, k) == TAG_CONTINUATION,
    ensures
        spec_parse_track_event(s) == Ok::<_, DecodeError>(
            (TrackEventView::Comment { text: spec_payload(s, 10) }, 40int),
        ),
        spec_payload(s, 10).len() == 20,
        forall|n: int|
            0 <= n < 20 ==> #[trigger] spec_payload(s, 10)[n] == s[4 * (n / 2) + 2 + n % 2],
{
    lemma_comment_collected(s, 9);
    assert(spec_frame_tag(s, 9) == TAG_CONTINUATION);
    assert(spec_payload(s, 9).push(s[38]).push(s[39]) =~= spec_payload(s, 10));
}

/// A comment that the input ends in, after fewer than ten whole frames, is
/// unterminated.
pub proof fn lemma_comment_cut_short(s: Seq<u8>, frames: int)
    requires
        1 <= frames < 10,
        4 * frames <= s.len() < 4 * (frames + 1),
        s[0] == TAG_COMMENT_START,
        forall|k: int| 1 <= k < frames ==> #[trigger] spec_frame_tag(s, k) == TAG_CONTINUATION,
    ensures
        spec_parse_track_event(s) == Err::<(TrackEventView, int), _>(
            DecodeError::UnterminatedContinuation,
        ),
{
    lemma_comment_collected(s, frames);
}

/// A comment in which another frame stands where a continuation frame is due
/// fails: with the unknown tag and the frame's offset if the tag selects no
/// event, and as a misplaced frame otherwise.
pub proof fn lemma_comment_interrupted(s: Seq<u8>, frames: int)
    requires
        1 <= frames < 10,
        s.len() >= 4 * (frames + 1),
        s[0] == TAG_COMMENT_START,
        forall|k: int| 1 <= k < frames ==> #[trigger] spec_frame_tag(s, k) == TAG_CONTINUATION,
        s[4 * frames] != TAG_CONTINUATION,
    ensures
        spec_parse_track_event(s) == Err::<(TrackEventView, int), _>(
            if is_known_tag(s[4 * frames]) {
                DecodeError::MisplacedContinuationFrame
            } else {
                DecodeError::UnknownEventType(s[4 * frames], (4 * frames) as usize)
            },
        ),
{
    lemma_comment_collected(s, frames);
}

} // verus!
