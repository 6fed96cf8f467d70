//! Exclusive messages: a step time and a body that runs over as many frames
//! as it needs, up to a sentinel byte.

use vstd::prelude::*;
use crate::error::DecodeError;
use crate::event::aggregate::{
    collect_event,
    spec_run,
    spec_strip_sentinels,
    Aggregator,
    AggregatorView,
};
use crate::event::classify::{is_known_tag, TAG_CONTINUATION, TAG_EXCLUSIVE_START};
use crate::event::frame::{read_frame, spec_frame_tag, spec_payload};
use crate::event::parse::spec_parse_track_event;
use crate::event::types::{TrackEvent, TrackEventView};
use crate::input::decoded;

verus! {

/// The exclusive message whose first frame is the frame at the front of `s`,
/// and the number of bytes it occupies. The tag of that first frame is not
/// looked at: where it is the tag that starts an exclusive message, this is
/// the event at the front of `s`.
pub open spec fn spec_take_track_exclusive_event(s: Seq<u8>) -> Result<
    (TrackEventView, int),
    DecodeError,
> {
    if s.len() < 4 {
        Err(DecodeError::UnexpectedEndOfInput)
    } else {
        spec_run(
            s,
            4,
            AggregatorView::CollectingExclusive { step_time: s[1], buffer: seq![s[2], s[3]] },
        )
    }
}

/// Decodes the exclusive message whose first frame is the frame at the front
/// of `i`, and returns it with the input after its last frame. The caller
/// has seen that the first frame starts an exclusive message; its tag is not
/// looked at again.
pub fn take_track_exclusive_event<'a>(i: &'a [u8]) -> (r: Result<
    (&'a [u8], TrackEvent),
    DecodeError,
>)
    ensures
        decoded(r, i@, spec_take_track_exclusive_event(i@)),
        i@.len() == 0 || i@[0] == TAG_EXCLUSIVE_START ==> decoded(
            r,
            i@,
            spec_parse_track_event(i@),
        ),
{
    let (_, frame) = read_frame(i)?;
    collect_event(i, 4, Aggregator::start_exclusive(frame.byte1, frame.byte2, frame.byte3))
}

/// Whether the frame of `s` with index `k` holds the sentinel in its payload.
pub open spec fn spec_ends_message(s: Seq<u8>, k: int) -> bool {
    s[4 * k + 2] == TAG_CONTINUATION || s[4 * k + 3] == TAG_CONTINUATION
}

/// After the frame that starts an exclusive message and continuation frames
/// without the sentinel, `frames` frames in all, decoding goes on behind them
/// with their payload in the buffer.
pub proof fn lemma_exclusive_collected(s: Seq<u8>, frames: int)
    requires
        1 <= frames,
        s.len() >= 4 * frames,
        s[0] == TAG_EXCLUSIVE_START,
        forall|k: int| 1 <= k < frames ==> #[trigger] spec_frame_tag(s, k) == TAG_CONTINUATION,
        forall|k: int| 1 <= k < frames ==> !spec_ends_message(s, k),
    ensures
        spec_parse_track_event(s) == spec_run(
            s,
            4 * frames,
            AggregatorView::CollectingExclusive {
                step_time: s[1],
                buffer: spec_payload(s, frames),
            },
        ),
    decreases frames,
{
    if frames == 1 {
        assert(seq![s[2], s[3]] =~= spec_payload(s, 1));
    } else {
        lemma_exclusive_collected(s, frames - 1);
        let before = spec_payload(s, frames - 1);
        assert(spec_frame_tag(s, frames - 1) == TAG_CONTINUATION);
        assert(!spec_ends_message(s, frames - 1));
        assert(before.push(s[4 * (frames - 1) + 2]).push(s[4 * (frames - 1) + 3]) =~= spec_payload(
            s,
            frames,
        ));
    }
}

/// A frame that starts an exclusive message, followed by continuation frames
/// of which the one with index `last` is the first to hold the sentinel, is
/// an exclusive message with the start frame's step time. Its body is the
/// payload of all these frames without the sentinels at its end.
pub proof fn lemma_exclusive_event(s: Seq<u8>, last: int)
    requires
        1 <= last,
        s.len() >= 4 * (last + 1),
        s[0] == TAG_EXCLUSIVE_START,
        forall|k: int| 1 <= k <= last ==> #[trigger] spec_frame_tag(s, k) == TAG_CONTINUATION,
        forall|k: int| 1 <= k < last ==> !spec_ends_message(s, k),
        spec_ends_message(s, last),
    ensures
        spec_parse_track_event(s) == Ok::<_, DecodeError>(
            (
                TrackEventView::TrackExclusive {
                    step_time: s[1],
                    message_body: spec_strip_sentinels(spec_payload(s, last + 1)),
                },
                4 * (last + 1),
            ),
        ),
{
    lemma_exclusive_collected(s, last);
    assert(spec_frame_tag(s, last) == TAG_CONTINUATION);
    assert(spec_payload(s, last).push(s[4 * last + 2]).push(s[4 * last + 3]) =~= spec_payload(
        s,
        last + 1,
    ));
}

/// An exclusive message that the input ends in before a frame with the
/// sentinel is unterminated.
pub proof fn lemma_exclusive_cut_short(s: Seq<u8>, frames: int)
    requires
        1 <= frames,
        4 * frames <= s.len() < 4 * (frames + 1),
        s[0] == TAG_EXCLUSIVE_START,
        forall|k: int| 1 <= k < frames ==> #[trigger] spec_frame_tag(s, k) == TAG_CONTINUATION,
        forall|k: int| 1 <= k < frames ==> !spec_ends_message(s, k),
    ensures
        spec_parse_track_event(s) == Err::<(TrackEventView, int), _>(
            DecodeError::UnterminatedContinuation,
        ),
{
    lemma_exclusive_collected(s, frames);
}

/// An exclusive message in which another frame stands where a continuation
/// frame is due fails: with the unknown tag and the frame's offset if the
/// tag selects no event, and as a misplaced frame otherwise.
pub proof fn lemma_exclusive_interrupted(s: Seq<u8>, frames: int)
    requires
        1 <= frames,
        s.len() >= 4 * (frames + 1),
        s[0] == TAG_EXCLUSIVE_START,
        forall|k: int| 1 <= k < frames ==> #[trigger] spec_frame_tag(s, k) == TAG_CONTINUATION,
        forall|k: int| 1 <= k < frames ==> !spec_ends_message(s, k),
        s[4 * frames] != TAG_CONTINUATION,
    ensures
        spec_parse_track_event(s) == Err::<(TrackEventView, int), _>(
            if is_known_tag(s[4 * frames]) {
                DecodeError::MisplacedContinuationFrame
            } else {
                DecodeError::UnknownEventType(s[4 * frames], (4 * frames) as usize)
            },
        ),
{
    lemma_exclusive_collected(s, frames);
}

/// Sentinels that follow a body which is empty or ends in another byte are
/// all stripped, however many there are, and nothing else is.
pub proof fn lemma_strip_trailing_run(body: Seq<u8>, tail: Seq<u8>)
    requires
        body.len() > 0 ==> body.last() != TAG_CONTINUATION,
        forall|j: int| 0 <= j < tail.len() ==> tail[j] == TAG_CONTINUATION,
    ensures
        spec_strip_sentinels(body + tail) == body,
    decreases tail.len(),
{
    if tail.len() == 0 {
        assert(body + tail =~= body);
    } else {
        assert((body + tail).drop_last() =~= body + tail.drop_last());
        lemma_strip_trailing_run(body, tail.drop_last());
    }
}

/// An exclusive message of two frames whose second ends in the sentinel,
/// after a byte that is none, has the three bytes before the sentinel as its
/// body.
pub proof fn lemma_exclusive_two_frames(s: Seq<u8>)
    requires
        s.len() >= 8,
        s[0] == TAG_EXCLUSIVE_START,
        s[4] == TAG_CONTINUATION,
        s[6] != TAG_CONTINUATION,
        s[7] == TAG_CONTINUATION,
    ensures
        spec_parse_track_event(s) == Ok::<_, DecodeError>(
            (
                TrackEventView::TrackExclusive {
                    step_time: s[1],
                    message_body: seq![s[2], s[3], s[6]],
                },
                8int,
            ),
        ),
{
    assert(spec_frame_tag(s, 1) == s[4]);
    lemma_exclusive_event(s, 1);
    let body = seq![s[2], s[3], s[6]];
    let tail = seq![s[7]];
    assert(spec_payload(s, 2) =~= body + tail);
    lemma_strip_trailing_run(body, tail);
}

} // verus!
