//! The header block: the fixed-layout data at the start of a file.

use vstd::prelude::*;

verus! {

/// The fixed-layout data that precedes the tracks.
#[derive(Debug, Clone, Copy, PartialEq, Eq)]
pub struct HeaderBlock {
    pub version: [u8; 32],
    pub title: [u8; 64],
    pub memo: [u8; 336],
    pub time_base: u8,
    pub tempo: u8,
    pub time_signature: TimeSignature,
    pub key: u8,
    pub play_bias: u8,
    pub cm6_file_name: [u8; 16],
    pub gsd_file_name: [u8; 16],
    pub number_of_tracks: u8,
    pub rhythm_notes: [RhythmNote; 32],
    pub user_exclusives: [UserExclusive; 8],
}

/// A time signature, as its two numbers.
#[derive(Debug, Clone, Copy, PartialEq, Eq, Structural)]
pub struct TimeSignature {
    pub numerator: u8,
    pub denominator: u8,
}

/// One entry of the rhythm part's note table.
#[derive(Debug, Clone, Copy, PartialEq, Eq)]
pub struct RhythmNote {
    pub name: [u8; 14],
    pub note_number: u8,
    pub gate_type: u8,
}

/// One of the exclusive messages that a file defines for its tracks to send.
#[derive(Debug, Clone, Copy, PartialEq, Eq)]
pub struct UserExclusive {
    pub message: [u8; 48],
}

/// A `RhythmNote` with its name as a sequence.
pub ghost struct RhythmNoteView {
    pub name: Seq<u8>,
    pub note_number: u8,
    pub gate_type: u8,
}

/// A `UserExclusive` with its message as a sequence.
pub ghost struct UserExclusiveView {
    pub message: Seq<u8>,
}

/// A `HeaderBlock` with its texts and tables as sequences.
pub ghost struct HeaderBlockView {
    pub version: Seq<u8>,
    pub title: Seq<u8>,
    pub memo: Seq<u8>,
    pub time_base: u8,
    pub tempo: u8,
    pub time_signature: TimeSignature,
    pub key: u8,
    pub play_bias: u8,
    pub cm6_file_name: Seq<u8>,
    pub gsd_file_name: Seq<u8>,
    pub number_of_tracks: u8,
    pub rhythm_notes: Seq<RhythmNoteView>,
    pub user_exclusives: Seq<UserExclusiveView>,
}

impl View for RhythmNote {
    type V = RhythmNoteView;

    open spec fn view(&self) -> RhythmNoteView {
        RhythmNoteView {
            name: self.name@,
            note_number: self.note_number,
            gate_type: self.gate_type,
        }
    }
}

impl View for UserExclusive {
    type V = UserExclusiveView;

    open spec fn view(&self) -> UserExclusiveView {
        UserExclusiveView { message: self.message@ }
    }
}

impl View for HeaderBlock {
    type V = HeaderBlockView;

    open spec fn view(&self) -> HeaderBlockView {
        HeaderBlockView {
            version: self.version@,
            title: self.title@,
            memo: self.memo@,
            time_base: self.time_base,
            tempo: self.tempo,
            time_signature: self.time_signature,
            key: self.key,
            play_bias: self.play_bias,
            cm6_file_name: self.cm6_file_name@,
            gsd_file_name: self.gsd_file_name@,
            number_of_tracks: self.number_of_tracks,
            rhythm_notes: Seq::new(32, |k: int| self.rhythm_notes@[k]@),
            user_exclusives: Seq::new(8, |k: int| self.user_exclusives@[k]@),
        }
    }
}

} // verus!
