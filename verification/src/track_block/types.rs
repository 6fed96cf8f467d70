//! Tracks and the block of tracks that follows a file's header.

use vstd::prelude::*;
use crate::event::types::{TrackEvent, TrackEventView};

verus! {

/// The tracks of a file, in file order.
#[derive(Debug, PartialEq, Eq)]
pub struct TrackBlock {
    pub tracks: Vec<Track>,
}

/// One track: its header and its events in playback order. The event that
/// ends the track is not among them.
#[derive(Debug, PartialEq, Eq)]
pub struct Track {
    pub track_header: TrackHeader,
    pub track_events: Vec<TrackEvent>,
}

/// What kind of part a track plays.
#[derive(Debug, Clone, Copy, PartialEq, Eq, Structural)]
pub enum TrackType {
    Normal,
    Rhythm,
}

/// The fixed-size header at the start of each track.
#[derive(Debug, Clone, Copy, PartialEq, Eq)]
pub struct TrackHeader {
    pub size: u16,
    pub track_number: u8,
    pub track_type: TrackType,
    pub channel: u8,
    pub key_bias: u8,
    pub step_bias: u8,
    pub muting: bool,
    pub comment: [u8; 36],
}

/// A `TrackHeader` with its comment as a sequence.
pub ghost struct TrackHeaderView {
    pub size: u16,
    pub track_number: u8,
    pub track_type: TrackType,
    pub channel: u8,
    pub key_bias: u8,
    pub step_bias: u8,
    pub muting: bool,
    pub comment: Seq<u8>,
}

/// A `Track` with its events as a sequence of their views.
pub ghost struct TrackView {
    pub track_header: TrackHeaderView,
    pub track_events: Seq<TrackEventView>,
}

/// A `TrackBlock` with its tracks as a sequence of their views.
pub ghost struct TrackBlockView {
    pub tracks: Seq<TrackView>,
}

/// The views of a sequence of events.
pub open spec fn spec_event_views(events: Seq<TrackEvent>) -> Seq<TrackEventView> {
    Seq::new(events.len(), |k: int| events[k]@)
}

/// The views of a sequence of tracks.
pub open spec fn spec_track_views(tracks: Seq<Track>) -> Seq<TrackView> {
    Seq::new(tracks.len(), |k: int| tracks[k]@)
}

impl View for TrackHeader {
    type V = TrackHeaderView;

    open spec fn view(&self) -> TrackHeaderView {
        TrackHeaderView {
            size: self.size,
            track_number: self.track_number,
            track_type: self.track_type,
            channel: self.channel,
            key_bias: self.key_bias,
            step_bias: self.step_bias,
            muting: self.muting,
            comment: self.comment@,
        }
    }
}

impl View for Track {
    type V = TrackView;

    open spec fn view(&self) -> TrackView {
        TrackView {
            track_header: self.track_header@,
            track_events: spec_event_views(self.track_events@),
        }
    }
}

impl View for TrackBlock {
    type V = TrackBlockView;

    open spec fn view(&self) -> TrackBlockView {
        TrackBlockView { tracks: spec_track_views(self.tracks@) }
    }
}

} // verus!
