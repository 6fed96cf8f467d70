//! The continuation aggregator: comments and exclusive messages span several
//! frames, and this state machine puts them together again.

use vstd::prelude::*;
use vstd::slice::slice_subrange;
use crate::error::DecodeError;
use crate::event::classify::{
    classify_frame,
    spec_classify,
    Classified,
    TAG_CONTINUATION,
    TAG_END_OF_TRACK,
};
use crate::event::frame::{read_frame, spec_frame_at};
use crate::event::types::{TrackEvent, TrackEventView};
use crate::input::{decoded, to_array};

verus! {

/// The number of bytes in a comment: ten frames of two bytes each.
pub const COMMENT_LEN: usize = 20;

/// What has been collected of the event in progress, if there is one.
#[derive(Debug, PartialEq, Eq)]
pub enum Aggregator {
    /// No event is in progress.
    Idle,
    /// A comment is in progress; `buffer` holds its bytes so far.
    CollectingComment { buffer: Vec<u8> },
    /// An exclusive message is in progress; `buffer` holds its bytes so far.
    CollectingExclusive { step_time: u8, buffer: Vec<u8> },
}

/// An `Aggregator` with its buffer as a sequence.
pub ghost enum AggregatorView {
    Idle,
    CollectingComment { buffer: Seq<u8> },
    CollectingExclusive { step_time: u8, buffer: Seq<u8> },
}

impl View for Aggregator {
    type V = AggregatorView;

    open spec fn view(&self) -> AggregatorView {
        match *self {
            Aggregator::Idle => AggregatorView::Idle,
            Aggregator::CollectingComment { buffer } => AggregatorView::CollectingComment {
                buffer: buffer@,
            },
            Aggregator::CollectingExclusive {
                step_time,
                buffer,
            } => AggregatorView::CollectingExclusive { step_time, buffer: buffer@ },
        }
    }
}

impl AggregatorView {
    /// What holds of every state that decoding reaches: a buffer holds the
    /// payload of whole frames, of one at least, and a comment's buffer is
    /// not yet a full comment.
    pub open spec fn wf(self) -> bool {
        match self {
            AggregatorView::Idle => true,
            AggregatorView::CollectingComment { buffer } => 0 < buffer.len() < COMMENT_LEN
                && buffer.len() % 2 == 0,
            AggregatorView::CollectingExclusive { buffer, .. } => 0 < buffer.len()
                && buffer.len() % 2 == 0,
        }
    }

    /// The failure that running out of input means in this state.
    pub open spec fn end_of_input_error(self) -> DecodeError {
        match self {
            AggregatorView::Idle => DecodeError::UnexpectedEndOfInput,
            _ => DecodeError::UnterminatedContinuation,
        }
    }
}

/// `s` without the sentinel bytes at its end: the longest prefix of `s` that
/// is empty or ends in another byte.
pub open spec fn spec_strip_sentinels(s: Seq<u8>) -> Seq<u8>
    decreases s.len(),
{
    if s.len() > 0 && s.last() == TAG_CONTINUATION {
        spec_strip_sentinels(s.drop_last())
    } else {
        s
    }
}

/// The views of an event that may have been emitted.
pub open spec fn spec_emitted(event: Option<TrackEvent>) -> Option<TrackEventView> {
    match event {
        Some(e) => Some(e@),
        None => None,
    }
}

/// One step of the state machine: the state after `kind` and the event that
/// `kind` completes, if it completes one.
///
/// From `Idle`, a whole event passes through and a start frame begins a
/// collection. While collecting, only continuation frames are in order; each
/// adds its two bytes. A comment is complete at twenty bytes. An exclusive
/// message is complete with the first continuation frame that holds the
/// sentinel, and its body is what was collected without the sentinels at its
/// end.
pub open spec fn spec_feed(state: AggregatorView, kind: Classified) -> Result<
    (AggregatorView, Option<TrackEventView>),
    DecodeError,
> {
    match state {
        AggregatorView::Idle => match kind {
            Classified::Complete(event) => Ok((AggregatorView::Idle, Some(event@))),
            Classified::ExclusiveStart { step_time, first, second } => Ok(
                (
                    AggregatorView::CollectingExclusive { step_time, buffer: seq![first, second] },
                    None,
                ),
            ),
            Classified::CommentStart { first, second } => Ok(
                (AggregatorView::CollectingComment { buffer: seq![first, second] }, None),
            ),
            Classified::Continuation { .. } => Err(DecodeError::MisplacedContinuationFrame),
        },
        AggregatorView::CollectingComment { buffer } => match kind {
            Classified::Continuation { first, second } => {
                let text = buffer.push(first).push(second);
                if text.len() == COMMENT_LEN {
                    Ok((AggregatorView::Idle, Some(TrackEventView::Comment { text })))
                } else {
                    Ok((AggregatorView::CollectingComment { buffer: text }, None))
                }
            },
            _ => Err(DecodeError::MisplacedContinuationFrame),
        },
        AggregatorView::CollectingExclusive { step_time, buffer } => match kind {
            Classified::Continuation { first, second } => {
                let body = buffer.push(first).push(second);
                if first == TAG_CONTINUATION || second == TAG_CONTINUATION {
                    Ok(
                        (
                            AggregatorView::Idle,
                            Some(
                                TrackEventView::TrackExclusive {
                                    step_time,
                                    message_body: spec_strip_sentinels(body),
                                },
                            ),
                        ),
                    )
                } else {
                    Ok((AggregatorView::CollectingExclusive { step_time, buffer: body }, None))
                }
            },
            _ => Err(DecodeError::MisplacedContinuationFrame),
        },
    }
}

/// A step from a state that decoding reaches leads to such a state again.
pub proof fn lemma_feed_preserves_wf(state: AggregatorView, kind: Classified)
    requires
        state.wf(),
    ensures
        spec_feed(state, kind) matches Ok((next, _)) ==> next.wf(),
{
}

/// What stripping leaves is a prefix of `s`, is empty or ends in a byte that
/// is no sentinel, and is followed in `s` by sentinels only.
pub proof fn lemma_strip_sentinels(s: Seq<u8>)
    ensures
        spec_strip_sentinels(s).len() <= s.len(),
        spec_strip_sentinels(s) == s.take(spec_strip_sentinels(s).len() as int),
        spec_strip_sentinels(s).len() > 0 ==> spec_strip_sentinels(s).last() != TAG_CONTINUATION,
        forall|j: int| spec_strip_sentinels(s).len() <= j < s.len() ==> s[j] == TAG_CONTINUATION,
    decreases s.len(),
{
    if s.len() > 0 && s.last() == TAG_CONTINUATION {
        lemma_strip_sentinels(s.drop_last());
        let r = spec_strip_sentinels(s.drop_last());
        assert(r =~= s.take(r.len() as int));
        assert forall|j: int| r.len() <= j < s.len() implies s[j] == TAG_CONTINUATION by {
            if j < s.len() - 1 {
                assert(s.drop_last()[j] == s[j]);
            }
        }
    } else {
        assert(s =~= s.take(s.len() as int));
    }
}

/// Removes the sentinel bytes at the end of `buffer`.
pub fn strip_sentinels(buffer: Vec<u8>) -> (r: Vec<u8>)
    ensures
        r@ == spec_strip_sentinels(buffer@),
{
    let mut buffer = buffer;
    let ghost whole = buffer@;
    while buffer.len() > 0 && buffer[buffer.len() - 1] == TAG_CONTINUATION
        invariant
            spec_strip_sentinels(buffer@) == spec_strip_sentinels(whole),
        decreases buffer.len(),
    {
        let ghost before = buffer@;
        buffer.pop();
        assert(buffer@ =~= before.drop_last());
    }
    buffer
}

impl Aggregator {
    /// See [`AggregatorView::wf`].
    pub open spec fn wf(&self) -> bool {
        self@.wf()
    }

    /// The state in which no event is in progress.
    pub fn new() -> (r: Aggregator)
        ensures
            r@ == AggregatorView::Idle,
            r.wf(),
    {
        Aggregator::Idle
    }

    /// The state after the frame that starts a comment with these two bytes.
    pub fn start_comment(first: u8, second: u8) -> (r: Aggregator)
        ensures
            r@ == (AggregatorView::CollectingComment { buffer: seq![first, second] }),
            r.wf(),
    {
        let mut buffer: Vec<u8> = Vec::new();
        buffer.push(first);
        buffer.push(second);
        assert(buffer@ =~= seq![first, second]);
        Aggregator::CollectingComment { buffer }
    }

    /// The state after the frame that starts an exclusive message with this
    /// step time and these two bytes.
    pub fn start_exclusive(step_time: u8, first: u8, second: u8) -> (r: Aggregator)
        ensures
            r@ == (AggregatorView::CollectingExclusive { step_time, buffer: seq![first, second] }),
            r.wf(),
    {
        let mut buffer: Vec<u8> = Vec::new();
        buffer.push(first);
        buffer.push(second);
        assert(buffer@ =~= seq![first, second]);
        Aggregator::CollectingExclusive { step_time, buffer }
    }

    /// The failure to report when the input ends in this state.
    pub fn end_of_input_error(&self) -> (e: DecodeError)
        ensures
            e == self@.end_of_input_error(),
    {
        match self {
            Aggregator::Idle => DecodeError::UnexpectedEndOfInput,
            _ => DecodeError::UnterminatedContinuation,
        }
    }

    /// Takes one classified frame. Returns the next state, and the event that
    /// the frame completed if it completed one; fails with
    /// `MisplacedContinuationFrame` where the frame is out of place.
    pub fn feed(self, kind: Classified) -> (r: Result<(Aggregator, Option<TrackEvent>), DecodeError>)
        ensures
            (match r {
                Ok((next, event)) => spec_feed(self@, kind) == Ok::<_, DecodeError>(
                    (next@, spec_emitted(event)),
                ),
                Err(e) => spec_feed(self@, kind) == Err::<
                    (AggregatorView, Option<TrackEventView>),
                    _,
                >(e),
            }),
            self.wf() ==> (r matches Ok((next, _)) ==> next.wf()),
            r is Ok <==> (if self@ is Idle {
                !(kind is Continuation)
            } else {
                kind is Continuation
            }),
    {
        match self {
            Aggregator::Idle => match kind {
                Classified::Complete(event) => Ok((Aggregator::Idle, Some(event))),
                Classified::ExclusiveStart { step_time, first, second } => Ok(
                    (Aggregator::start_exclusive(step_time, first, second), None),
                ),
                Classified::CommentStart { first, second } => Ok(
                    (Aggregator::start_comment(first, second), None),
                ),
                Classified::Continuation { .. } => Err(DecodeError::MisplacedContinuationFrame),
            },
            Aggregator::CollectingComment { buffer } => match kind {
                Classified::Continuation { first, second } => {
                    let mut buffer = buffer;
                    buffer.push(first);
                    buffer.push(second);
                    if buffer.len() == COMMENT_LEN {
                        let text = to_array::<20>(buffer.as_slice());
                        Ok((Aggregator::Idle, Some(TrackEvent::Comment { text })))
                    } else {
                        Ok((Aggregator::CollectingComment { buffer }, None))
                    }
                },
                _ => Err(DecodeError::MisplacedContinuationFrame),
            },
            Aggregator::CollectingExclusive { step_time, buffer } => match kind {
                Classified::Continuation { first, second } => {
                    let mut buffer = buffer;
                    buffer.push(first);
                    buffer.push(second);
                    if first == TAG_CONTINUATION || second == TAG_CONTINUATION {
                        let message_body = strip_sentinels(buffer);
                        Ok(
                            (
                                Aggregator::Idle,
                                Some(TrackEvent::TrackExclusive { step_time, message_body }),
                            ),
                        )
                    } else {
                        Ok((Aggregator::CollectingExclusive { step_time, buffer }, None))
                    }
                },
                _ => Err(DecodeError::MisplacedContinuationFrame),
            },
        }
    }
}

/// The event that the frames of `s` from `pos` on complete, when the state
/// machine is in `state` before them, and the position after its last frame.
///
/// Frames are read, classified and fed to the state machine one after the
/// other until one completes an event. The input running out first is a
/// failure, as is a tag that selects no event (reported with the position of
/// its frame) and a frame that is out of place.
pub open spec fn spec_run(s: Seq<u8>, pos: int, state: AggregatorView) -> Result<
    (TrackEventView, int),
    DecodeError,
>
    decreases s.len() - pos,
{
    if pos < 0 || pos + 4 > s.len() {
        Err(state.end_of_input_error())
    } else {
        match spec_classify(spec_frame_at(s, pos)) {
            None => Err(DecodeError::UnknownEventType(s[pos], pos as usize)),
            Some(kind) => match spec_feed(state, kind) {
                Err(e) => Err(e),
                Ok((_, Some(event))) => Ok((event, pos + 4)),
                Ok((next, None)) => spec_run(s, pos + 4, next),
            },
        }
    }
}

/// An event occupies whole frames, at least one, and lies within the input;
/// an unknown tag is reported at a position from the start on and within the
/// input.
pub proof fn lemma_run_bounds(s: Seq<u8>, pos: int, state: AggregatorView)
    requires
        0 <= pos,
    ensures
        spec_run(s, pos, state) matches Ok((_, end)) ==> pos + 4 <= end <= s.len() && (end - pos)
            % 4 == 0,
        s.len() <= usize::MAX ==> (spec_run(s, pos, state) matches Err(
            DecodeError::UnknownEventType(_, offset),
        ) ==> pos <= offset < s.len()),
    decreases s.len() - pos,
{
    if pos + 4 <= s.len() {
        match spec_classify(spec_frame_at(s, pos)) {
            None => {},
            Some(kind) => match spec_feed(state, kind) {
                Ok((next, None)) => {
                    lemma_run_bounds(s, pos + 4, next);
                },
                _ => {},
            },
        }
    }
}

/// What is collected over several frames is a comment or an exclusive
/// message. From `Idle`, the event is the one that ends a track exactly when
/// the first frame has that tag, and it is that one frame then.
pub proof fn lemma_run_event_kind(s: Seq<u8>, pos: int, state: AggregatorView)
    requires
        0 <= pos,
    ensures
        spec_run(s, pos, state) matches Ok((event, end)) ==> ({
            &&& !(state is Idle) ==> event is Comment || event is TrackExclusive
            &&& state is Idle ==> (event is EndOfTrack <==> s[pos] == TAG_END_OF_TRACK)
            &&& event is EndOfTrack ==> end == pos + 4
        }),
    decreases s.len() - pos,
{
    if pos + 4 <= s.len() {
        match spec_classify(spec_frame_at(s, pos)) {
            None => {},
            Some(kind) => match spec_feed(state, kind) {
                Ok((next, None)) => {
                    lemma_run_event_kind(s, pos + 4, next);
                },
                _ => {},
            },
        }
    }
}

/// Reads frames of `i` from `pos` on, with the state machine in `state`
/// before them, until one completes an event. Returns the event and the
/// input after its last frame.
pub fn collect_event<'a>(i: &'a [u8], pos: usize, state: Aggregator) -> (r: Result<
    (&'a [u8], TrackEvent),
    DecodeError,
>)
    ensures
        decoded(r, i@, spec_run(i@, pos as int, state@)),
{
    if pos > i.len() {
        return Err(state.end_of_input_error());
    }
    let mut rest = slice_subrange(i, pos, i.len());
    let mut at = pos;
    let mut current = state;
    loop
        invariant
            at <= i@.len() <= usize::MAX,
            rest@ == i@.skip(at as int),
            spec_run(i@, at as int, current@) == spec_run(i@, pos as int, state@),
        decreases i@.len() - at,
    {
        let (after, frame) = match read_frame(rest) {
            Ok(read) => read,
            Err(_) => { return Err(current.end_of_input_error()); },
        };
        assert(frame == spec_frame_at(i@, at as int));
        assert(after@ =~= i@.skip(at + 4));
        let kind = classify_frame(frame, at)?;
        match current.feed(kind)? {
            (_, Some(event)) => { return Ok((after, event)); },
            (next, None) => {
                current = next;
                rest = after;
                at = at + 4;
            },
        }
    }
}

} // verus!
