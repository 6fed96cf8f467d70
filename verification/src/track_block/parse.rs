//! Decoding tracks: a fixed header, then events up to the one that ends the
//! track.

use vstd::prelude::*;
use crate::error::DecodeError;
use crate::event::aggregate::{lemma_run_bounds, lemma_run_event_kind, AggregatorView};
use crate::event::classify::TAG_END_OF_TRACK;
use crate::event::parse::{lemma_end_of_track_frame, parse_track_event, spec_parse_track_event};
use crate::event::types::{TrackEvent, TrackEventView};
use crate::input::{decoded, read_bytes, read_u16, read_u8, to_array};
use crate::track_block::types::{
    spec_event_views,
    spec_track_views,
    Track,
    TrackBlock,
    TrackBlockView,
    TrackHeader,
    TrackHeaderView,
    TrackType,
    TrackView,
};

verus! {

/// The number of bytes in a track header.
pub const TRACK_HEADER_LEN: usize = 44;

/// The track header at the front of `s`: a big-endian size, the track
/// number, the track type, the channel, the key bias, the step bias, the
/// mute flag and thirty-six bytes of comment.
///
/// An input shorter than the header fails first, then a track type that is
/// neither `0x00` nor `0x80`, then a mute flag that is neither `0x00` nor
/// `0x01`.
pub open spec fn spec_parse_track_header(s: Seq<u8>) -> Result<(TrackHeaderView, int), DecodeError> {
    if s.len() < TRACK_HEADER_LEN {
        Err(DecodeError::UnexpectedEndOfInput)
    } else if s[3] != 0x00 && s[3] != 0x80 {
        Err(DecodeError::InvalidTrackType(s[3]))
    } else if s[7] != 0x00 && s[7] != 0x01 {
        Err(DecodeError::InvalidMuteFlag(s[7]))
    } else {
        Ok(
            (
                TrackHeaderView {
                    size: (s[0] * 256 + s[1]) as u16,
                    track_number: s[2],
                    track_type: if s[3] == 0x00 {
                        TrackType::Normal
                    } else {
                        TrackType::Rhythm
                    },
                    channel: s[4],
                    key_bias: s[5],
                    step_bias: s[6],
                    muting: s[7] == 0x01,
                    comment: s.subrange(8, 44),
                },
                44,
            ),
        )
    }
}

/// `events` put before the events of `r`, where `r` has any.
pub open spec fn spec_prepend_events(
    events: Seq<TrackEventView>,
    r: Result<(Seq<TrackEventView>, int), DecodeError>,
) -> Result<(Seq<TrackEventView>, int), DecodeError> {
    match r {
        Ok((more, end)) => Ok((events + more, end)),
        Err(e) => Err(e),
    }
}

/// The events of `s` from `pos` up to the event that ends the track, and the
/// position after that event. Each event starts where the one before it
/// ended. The first failure is the result, with an unknown tag reported at
/// its offset in `s`.
pub open spec fn spec_track_events(s: Seq<u8>, pos: int) -> Result<
    (Seq<TrackEventView>, int),
    DecodeError,
>
    decreases s.len() - pos,
{
    if pos < 0 || pos > s.len() {
        Err(DecodeError::UnexpectedEndOfInput)
    } else {
        match spec_parse_track_event(s.skip(pos)) {
            Err(e) => Err(e.spec_shifted(pos)),
            Ok((event, n)) => if event is EndOfTrack {
                Ok((Seq::empty(), pos + n))
            } else {
                proof {
                    lemma_run_bounds(s.skip(pos), 0, AggregatorView::Idle);
                }
                spec_prepend_events(seq![event], spec_track_events(s, pos + n))
            },
        }
    }
}

/// The track at the front of `s` and the number of bytes it occupies: its
/// header, then its events up to the one that ends it.
pub open spec fn spec_parse_track(s: Seq<u8>) -> Result<(TrackView, int), DecodeError> {
    match spec_parse_track_header(s) {
        Err(e) => Err(e),
        Ok((track_header, n)) => match spec_track_events(s, n) {
            Err(e) => Err(e),
            Ok((track_events, end)) => Ok((TrackView { track_header, track_events }, end)),
        },
    }
}

/// `tracks` put before the tracks of `r`, where `r` has any.
pub open spec fn spec_prepend_tracks(
    tracks: Seq<TrackView>,
    r: Result<(Seq<TrackView>, int), DecodeError>,
) -> Result<(Seq<TrackView>, int), DecodeError> {
    match r {
        Ok((more, end)) => Ok((tracks + more, end)),
        Err(e) => Err(e),
    }
}

/// The next `count` tracks of `s` from `pos` on, and the position after the
/// last of them. Each track starts where the one before it ended, and is
/// decoded from the input from there on alone.
pub open spec fn spec_tracks(s: Seq<u8>, pos: int, count: nat) -> Result<
    (Seq<TrackView>, int),
    DecodeError,
>
    decreases count,
{
    if count == 0 {
        Ok((Seq::empty(), pos))
    } else {
        match spec_parse_track(s.skip(pos)) {
            Err(e) => Err(e.spec_shifted(pos)),
            Ok((track, n)) => spec_prepend_tracks(
                seq![track],
                spec_tracks(s, pos + n, (count - 1) as nat),
            ),
        }
    }
}

/// The block of `count` tracks at the front of `s` and the number of bytes
/// it occupies.
pub open spec fn spec_parse_track_block(s: Seq<u8>, count: nat) -> Result<
    (TrackBlockView, int),
    DecodeError,
> {
    match spec_tracks(s, 0, count) {
        Err(e) => Err(e),
        Ok((tracks, end)) => Ok((TrackBlockView { tracks }, end)),
    }
}

/// Decodes the track header at the front of `i` and returns it with the
/// input after it, where the track's events start.
///
/// Fails with `UnexpectedEndOfInput` if `i` is shorter than the header, else
/// with `InvalidTrackType` if the track type is neither `0x00` nor `0x80`,
/// else with `InvalidMuteFlag` if the mute flag is neither `0x00` nor `0x01`.
pub fn parse_track_header<'a>(i: &'a [u8]) -> (r: Result<(&'a [u8], TrackHeader), DecodeError>)
    ensures
        decoded(r, i@, spec_parse_track_header(i@)),
        r is Ok ==> i@.len() >= TRACK_HEADER_LEN,
        r matches Err(e) ==> !(e is UnknownEventType),
{
    let (i1, size) = read_u16(i)?;
    let (i2, track_number) = read_u8(i1)?;
    let (i3, track_type) = read_u8(i2)?;
    let (i4, channel) = read_u8(i3)?;
    let (i5, key_bias) = read_u8(i4)?;
    let (i6, step_bias) = read_u8(i5)?;
    let (i7, is_muting) = read_u8(i6)?;
    let (rest, comment) = read_bytes(i7, 36)?;
    assert(rest@ =~= i@.skip(44));
    assert(comment@ =~= i@.subrange(8, 44));

    let track_type = match track_type {
        0x00 => TrackType::Normal,
        0x80 => TrackType::Rhythm,
        other => { return Err(DecodeError::InvalidTrackType(other)); },
    };
    let muting = match is_muting {
        0x00 => false,
        0x01 => true,
        other => { return Err(DecodeError::InvalidMuteFlag(other)); },
    };
    Ok(
        (
            rest,
            TrackHeader {
                size,
                track_number,
                track_type,
                channel,
                key_bias,
                step_bias,
                muting,
                comment: to_array::<36>(comment),
            },
        ),
    )
}

/// Decodes the track at the front of `i`: its header, then its events up to
/// the event that ends the track, which is consumed and not kept.
///
/// Fails with the first failure of the header or of an event; an unknown tag
/// is reported at its offset in `i`. A track that the input ends before is a
/// failure too.
pub fn parse_track<'a>(i: &'a [u8]) -> (r: Result<(&'a [u8], Track), DecodeError>)
    ensures
        decoded(r, i@, spec_parse_track(i@)),
        r matches Ok((_, track)) ==> forall|k: int|
            0 <= k < track.track_events@.len() ==> !(#[trigger] track.track_events@[k]@
                is EndOfTrack),
        r matches Err(e) ==> e.within(i@.len() as int),
{
    let (after_header, track_header) = parse_track_header(i)?;
    let mut rest = after_header;
    let mut track_events: Vec<TrackEvent> = Vec::new();
    let ghost mut pos: int = 44;
    assert(spec_event_views(track_events@) + spec_track_events(i@, 44)->Ok_0.0
        =~= spec_track_events(i@, 44)->Ok_0.0);
    assert(i.len() == i@.len());
    loop
        invariant
            44 <= pos <= i@.len() <= usize::MAX,
            rest@ == i@.skip(pos),
            spec_parse_track_header(i@) == Ok::<_, DecodeError>((track_header@, 44int)),
            spec_track_events(i@, 44) == spec_prepend_events(
                spec_event_views(track_events@),
                spec_track_events(i@, pos),
            ),
        decreases i@.len() - pos,
    {
        let ghost events = spec_event_views(track_events@);
        let (after, event) = match parse_track_event(rest) {
            Ok(read) => read,
            Err(e) => { return Err(e.shifted(i.len() - rest.len())); },
        };
        let ghost n = rest@.len() - after@.len();
        assert(after@ =~= i@.skip(pos + n));
        if event.is_end_of_track() {
            proof {
                assert(events + Seq::<TrackEventView>::empty() =~= events);
                lemma_track_ends_with_end_of_track(i@);
                assert forall|k: int| 0 <= k < track_events@.len() implies !(
                #[trigger] track_events@[k]@ is EndOfTrack) by {
                    assert(events[k] == track_events@[k]@);
                }
            }
            return Ok((after, Track { track_header, track_events }));
        }
        track_events.push(event);
        proof {
            let more = spec_track_events(i@, pos + n);
            assert(spec_event_views(track_events@) =~= events + seq![event@]);
            if let Ok((later, _)) = more {
                assert(events + (seq![event@] + later) =~= (events + seq![event@]) + later);
            }
            pos = pos + n;
        }
        rest = after;
    }
}

/// Decodes `track_count` tracks from the front of `i`, each from where the
/// one before it ended, and returns them in order with the input after the
/// last.
///
/// Fails with the first failure of a track and returns no track then; an
/// unknown tag is reported at its offset in `i`.
pub fn parse_track_block<'a>(i: &'a [u8], track_count: usize) -> (r: Result<
    (&'a [u8], TrackBlock),
    DecodeError,
>)
    ensures
        decoded(r, i@, spec_parse_track_block(i@, track_count as nat)),
        r matches Ok((_, block)) ==> block.tracks@.len() == track_count,
        r matches Err(e) ==> e.within(i@.len() as int),
{
    let mut rest = i;
    let mut tracks: Vec<Track> = Vec::new();
    let mut done: usize = 0;
    let ghost mut pos: int = 0;
    assert(rest@ =~= i@.skip(0));
    assert(spec_track_views(tracks@) + spec_tracks(i@, 0, track_count as nat)->Ok_0.0
        =~= spec_tracks(i@, 0, track_count as nat)->Ok_0.0);
    assert(i.len() == i@.len());
    while done < track_count
        invariant
            done <= track_count,
            tracks@.len() == done,
            0 <= pos <= i@.len() <= usize::MAX,
            rest@ == i@.skip(pos),
            spec_tracks(i@, 0, track_count as nat) == spec_prepend_tracks(
                spec_track_views(tracks@),
                spec_tracks(i@, pos, (track_count - done) as nat),
            ),
        decreases track_count - done,
    {
        let ghost before = spec_track_views(tracks@);
        let (after, track) = match parse_track(rest) {
            Ok(read) => read,
            Err(e) => { return Err(e.shifted(i.len() - rest.len())); },
        };
        let ghost n = rest@.len() - after@.len();
        let ghost view = track@;
        assert(after@ =~= i@.skip(pos + n));
        tracks.push(track);
        done = done + 1;
        proof {
            let more = spec_tracks(i@, pos + n, (track_count - done) as nat);
            assert(spec_track_views(tracks@) =~= before + seq![view]);
            if let Ok((later, _)) = more {
                assert(before + (seq![view] + later) =~= (before + seq![view]) + later);
            }
            pos = pos + n;
        }
        rest = after;
    }
    assert(spec_track_views(tracks@) + Seq::<TrackView>::empty() =~= spec_track_views(tracks@));
    Ok((rest, TrackBlock { tracks }))
}

/// The events of a track occupy whole frames and end within the input, right
/// after a frame that ends the track, and the event that ends the track is
/// not among them.
pub proof fn lemma_track_events_end(s: Seq<u8>, pos: int)
    requires
        spec_track_events(s, pos) is Ok,
    ensures
        ({
            let (events, end) = spec_track_events(s, pos)->Ok_0;
            &&& 0 <= pos
            &&& pos + 4 <= end <= s.len()
            &&& (end - pos) % 4 == 0
            &&& s[end - 4] == TAG_END_OF_TRACK
            &&& forall|k: int| 0 <= k < events.len() ==> !(#[trigger] events[k] is EndOfTrack)
        }),
    decreases s.len() - pos,
{
    let (event, n) = spec_parse_track_event(s.skip(pos))->Ok_0;
    lemma_run_bounds(s.skip(pos), 0, AggregatorView::Idle);
    lemma_run_event_kind(s.skip(pos), 0, AggregatorView::Idle);
    if !(event is EndOfTrack) {
        lemma_track_events_end(s, pos + n);
    }
}

/// A track whose first frame after the header ends the track has no events
/// and occupies the header and that one frame.
pub proof fn lemma_empty_track(s: Seq<u8>)
    requires
        spec_parse_track_header(s) is Ok,
        s.len() >= TRACK_HEADER_LEN + 4,
        s[TRACK_HEADER_LEN as int] == TAG_END_OF_TRACK,
    ensures
        spec_parse_track(s) == Ok::<_, DecodeError>(
            (
                TrackView {
                    track_header: spec_parse_track_header(s)->Ok_0.0,
                    track_events: Seq::empty(),
                },
                TRACK_HEADER_LEN + 4,
            ),
        ),
{
    lemma_end_of_track_frame(s.skip(TRACK_HEADER_LEN as int));
}

/// A track that decodes occupies its header and whole frames, at least one,
/// lies within the input, and ends with a frame that ends the track; the
/// event that ends it is not among its events.
pub proof fn lemma_track_ends_with_end_of_track(s: Seq<u8>)
    requires
        spec_parse_track(s) is Ok,
    ensures
        ({
            let (track, n) = spec_parse_track(s)->Ok_0;
            &&& TRACK_HEADER_LEN + 4 <= n <= s.len()
            &&& (n - TRACK_HEADER_LEN) % 4 == 0
            &&& s[n - 4] == TAG_END_OF_TRACK
            &&& forall|k: int|
                0 <= k < track.track_events.len() ==> !(#[trigger] track.track_events[k]
                    is EndOfTrack)
        }),
{
    lemma_track_events_end(s, TRACK_HEADER_LEN as int);
}

/// Where the track with index `k` starts when tracks are decoded one after
/// the other from `pos` on: the first at `pos`, and each of the others
/// where the one before it ends. Past a track that fails it has no meaning.
pub open spec fn spec_track_start(s: Seq<u8>, pos: int, k: nat) -> int
    decreases k,
{
    if k == 0 {
        pos
    } else {
        match spec_parse_track(s.skip(pos)) {
            Ok((_, n)) => spec_track_start(s, pos + n, (k - 1) as nat),
            Err(_) => pos,
        }
    }
}

/// `count` tracks that decode are `count` tracks, and they end where a
/// further track would start.
pub proof fn lemma_tracks_count(s: Seq<u8>, pos: int, count: nat)
    requires
        spec_tracks(s, pos, count) is Ok,
    ensures
        spec_tracks(s, pos, count)->Ok_0.0.len() == count,
        spec_tracks(s, pos, count)->Ok_0.1 == spec_track_start(s, pos, count),
    decreases count,
{
    if count > 0 {
        let n = spec_parse_track(s.skip(pos))->Ok_0.1;
        lemma_tracks_count(s, pos + n, (count - 1) as nat);
    }
}

/// In a block that decodes, the track with index `k` is what decoding the
/// input from its start on gives, alone and whatever came before, and the
/// next track starts where it ends.
pub proof fn lemma_tracks_nth(s: Seq<u8>, pos: int, count: nat, k: nat)
    requires
        spec_tracks(s, pos, count) is Ok,
        k < count,
    ensures
        spec_parse_track(s.skip(spec_track_start(s, pos, k))) == Ok::<_, DecodeError>(
            (
                spec_tracks(s, pos, count)->Ok_0.0[k as int],
                spec_track_start(s, pos, k + 1) - spec_track_start(s, pos, k),
            ),
        ),
    decreases count,
{
    let (track, n) = spec_parse_track(s.skip(pos))->Ok_0;
    lemma_tracks_count(s, pos + n, (count - 1) as nat);
    if k == 0 {
        assert(spec_track_start(s, pos + n, 0) == pos + n);
    } else {
        lemma_tracks_nth(s, pos + n, (count - 1) as nat, (k - 1) as nat);
    }
}

/// A block decodes to exactly the number of tracks asked for, and its tracks
/// lie one after the other: the first starts at the front, each is what
/// decoding the input from its own start on gives, each ends with a frame
/// that ends the track, the next starts right after that frame, and the
/// block ends where the last track does.
pub proof fn lemma_track_block_layout(s: Seq<u8>, count: nat, k: nat)
    requires
        spec_parse_track_block(s, count) is Ok,
        k < count,
    ensures
        ({
            let (block, end) = spec_parse_track_block(s, count)->Ok_0;
            let start = spec_track_start(s, 0, k);
            let next = spec_track_start(s, 0, k + 1);
            &&& block.tracks.len() == count
            &&& spec_track_start(s, 0, 0) == 0
            &&& spec_track_start(s, 0, count) == end
            &&& spec_parse_track(s.skip(start)) == Ok::<_, DecodeError>(
                (block.tracks[k as int], next - start),
            )
            &&& 0 <= start
            &&& start + TRACK_HEADER_LEN + 4 <= next <= s.len()
            &&& s[next - 4] == TAG_END_OF_TRACK
        }),
{
    lemma_tracks_count(s, 0, count);
    lemma_tracks_nth(s, 0, count, k);
    lemma_track_starts_in_range(s, 0, count, k);
    let start = spec_track_start(s, 0, k);
    lemma_track_ends_with_end_of_track(s.skip(start));
}

/// In a block that decodes, every track starts within the input.
proof fn lemma_track_starts_in_range(s: Seq<u8>, pos: int, count: nat, k: nat)
    requires
        spec_tracks(s, pos, count) is Ok,
        k < count,
        0 <= pos <= s.len(),
    ensures
        pos <= spec_track_start(s, pos, k) <= s.len(),
    decreases count,
{
    if k > 0 {
        let n = spec_parse_track(s.skip(pos))->Ok_0.1;
        lemma_track_ends_with_end_of_track(s.skip(pos));
        lemma_track_starts_in_range(s, pos + n, (count - 1) as nat, (k - 1) as nat);
    }
}

/// Tracks decoded one after the other from `pos` on fail with the failure of
/// the first of them that fails, seen from the front of the input.
proof fn lemma_tracks_fail(s: Seq<u8>, pos: int, count: nat, k: nat)
    requires
        k < count,
        forall|j: nat| j < k ==> #[trigger] spec_parse_track(
            s.skip(spec_track_start(s, pos, j)),
        ) is Ok,
        spec_parse_track(s.skip(spec_track_start(s, pos, k))) is Err,
    ensures
        spec_tracks(s, pos, count) == Err::<(Seq<TrackView>, int), _>(
            spec_parse_track(s.skip(spec_track_start(s, pos, k)))->Err_0.spec_shifted(
                spec_track_start(s, pos, k),
            ),
        ),
    decreases count,
{
    if k > 0 {
        assert(spec_parse_track(s.skip(spec_track_start(s, pos, 0))) is Ok);
        let n = spec_parse_track(s.skip(pos))->Ok_0.1;
        assert forall|j: nat| j < k - 1 implies #[trigger] spec_parse_track(
            s.skip(spec_track_start(s, pos + n, j)),
        ) is Ok by {
            assert(spec_track_start(s, pos, j + 1) == spec_track_start(s, pos + n, j));
            assert(spec_parse_track(s.skip(spec_track_start(s, pos, j + 1))) is Ok);
        }
        lemma_tracks_fail(s, pos + n, (count - 1) as nat, (k - 1) as nat);
    }
}

/// A block whose track with index `k` is the first that fails, fails with
/// that track's failure, seen from the front of the block. No track is
/// handed out then, not those before it either.
pub proof fn lemma_track_block_fails(s: Seq<u8>, count: nat, k: nat)
    requires
        k < count,
        forall|j: nat| j < k ==> #[trigger] spec_parse_track(
            s.skip(spec_track_start(s, 0, j)),
        ) is Ok,
        spec_parse_track(s.skip(spec_track_start(s, 0, k))) is Err,
    ensures
        spec_parse_track_block(s, count) == Err::<(TrackBlockView, int), _>(
            spec_parse_track(s.skip(spec_track_start(s, 0, k)))->Err_0.spec_shifted(
                spec_track_start(s, 0, k),
            ),
        ),
{
    lemma_tracks_fail(s, 0, count, k);
}

} // verus!
