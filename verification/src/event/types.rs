//! The events of a track.

use vstd::prelude::*;

verus! {

/// One logical event of a track, in playback order with its neighbours.
#[derive(Debug, PartialEq, Eq)]
#[allow(inconsistent_fields)]
pub enum TrackEvent {
    Note { step_time: u8, key_number: u8, gate_time: u8, velocity: u8 },
    UserExclusive { step_time: u8, number: u8 },
    TrackExclusive { step_time: u8, message_body: Vec<u8> },
    RolandBaseAddress { step_time: u8, gate_time: u8, velocity: u8 },
    RolandDeviceNumber { step_time: u8, gate_time: u8, velocity: u8 },
    RolandParameter { step_time: u8, gate_time: u8, velocity: u8 },
    BankPrg { step_time: u8, gate_time: u8, velocity: u8 },
    Keyin { step_time: u8, gate_time: u8, velocity: u8 },
    MidiChannel { step_time: u8, channel: u8 },
    Tempo { step_time: u8, tempo: u16 },
    AfterTouch { step_time: u8, pressure: u8 },
    ControlChange { step_time: u8, controller_number: u8, value: u8 },
    ProgramChange { step_time: u8, program_number: u8 },
    PolyphonicAfterTouch { step_time: u8, key_number: u8, pressure: u8 },
    PitchBend { step_time: u8, value: i16 },
    Key { offset: u8 },
    Comment { text: [u8; 20] },
    RepeatEnd { count: u8 },
    RepeatStart,
    SameMeasure { measure: u8, track_offset: u16 },
    BarLine,
    EndOfTrack,
}

/// What a `TrackEvent` stands for: the same variants, with the bytes of an
/// exclusive message and of a comment as sequences.
#[allow(inconsistent_fields)]
pub ghost enum TrackEventView {
    Note { step_time: u8, key_number: u8, gate_time: u8, velocity: u8 },
    UserExclusive { step_time: u8, number: u8 },
    TrackExclusive { step_time: u8, message_body: Seq<u8> },
    RolandBaseAddress { step_time: u8, gate_time: u8, velocity: u8 },
    RolandDeviceNumber { step_time: u8, gate_time: u8, velocity: u8 },
    RolandParameter { step_time: u8, gate_time: u8, velocity: u8 },
    BankPrg { step_time: u8, gate_time: u8, velocity: u8 },
    Keyin { step_time: u8, gate_time: u8, velocity: u8 },
    MidiChannel { step_time: u8, channel: u8 },
    Tempo { step_time: u8, tempo: u16 },
    AfterTouch { step_time: u8, pressure: u8 },
    ControlChange { step_time: u8, controller_number: u8, value: u8 },
    ProgramChange { step_time: u8, program_number: u8 },
    PolyphonicAfterTouch { step_time: u8, key_number: u8, pressure: u8 },
    PitchBend { step_time: u8, value: i16 },
    Key { offset: u8 },
    Comment { text: Seq<u8> },
    RepeatEnd { count: u8 },
    RepeatStart,
    SameMeasure { measure: u8, track_offset: u16 },
    BarLine,
    EndOfTrack,
}

impl View for TrackEvent {
    type V = TrackEventView;

    open spec fn view(&self) -> TrackEventView {
        match *self {
            TrackEvent::Note { step_time, key_number, gate_time, velocity } => TrackEventView::Note {
                step_time,
                key_number,
                gate_time,
                velocity,
            },
            TrackEvent::UserExclusive { step_time, number } => TrackEventView::UserExclusive {
                step_time,
                number,
            },
            TrackEvent::TrackExclusive { step_time, message_body } => TrackEventView::TrackExclusive {
                step_time,
                message_body: message_body@,
            },
            TrackEvent::RolandBaseAddress {
                step_time,
                gate_time,
                velocity,
            } => TrackEventView::RolandBaseAddress { step_time, gate_time, velocity },
            TrackEvent::RolandDeviceNumber {
                step_time,
                gate_time,
                velocity,
            } => TrackEventView::RolandDeviceNumber { step_time, gate_time, velocity },
            TrackEvent::RolandParameter {
                step_time,
                gate_time,
                velocity,
            } => TrackEventView::RolandParameter { step_time, gate_time, velocity },
            TrackEvent::BankPrg { step_time, gate_time, velocity } => TrackEventView::BankPrg {
                step_time,
                gate_time,
                velocity,
            },
            TrackEvent::Keyin { step_time, gate_time, velocity } => TrackEventView::Keyin {
                step_time,
                gate_time,
                velocity,
            },
            TrackEvent::MidiChannel { step_time, channel } => TrackEventView::MidiChannel {
                step_time,
                channel,
            },
            TrackEvent::Tempo { step_time, tempo } => TrackEventView::Tempo { step_time, tempo },
            TrackEvent::AfterTouch { step_time, pressure } => TrackEventView::AfterTouch {
                step_time,
                pressure,
            },
            TrackEvent::ControlChange {
                step_time,
                controller_number,
                value,
            } => TrackEventView::ControlChange { step_time, controller_number, value },
            TrackEvent::ProgramChange { step_time, program_number } => TrackEventView::ProgramChange {
                step_time,
                program_number,
            },
            TrackEvent::PolyphonicAfterTouch {
                step_time,
                key_number,
                pressure,
            } => TrackEventView::PolyphonicAfterTouch { step_time, key_number, pressure },
            TrackEvent::PitchBend { step_time, value } => TrackEventView::PitchBend {
                step_time,
                value,
            },
            TrackEvent::Key { offset } => TrackEventView::Key { offset },
            TrackEvent::Comment { text } => TrackEventView::Comment { text: text@ },
            TrackEvent::RepeatEnd { count } => TrackEventView::RepeatEnd { count },
            TrackEvent::RepeatStart => TrackEventView::RepeatStart,
            TrackEvent::SameMeasure { measure, track_offset } => TrackEventView::SameMeasure {
                measure,
                track_offset,
            },
            TrackEvent::BarLine => TrackEventView::BarLine,
            TrackEvent::EndOfTrack => TrackEventView::EndOfTrack,
        }
    }
}

impl TrackEvent {
    /// Whether this is the event that ends a track.
    pub fn is_end_of_track(&self) -> (r: bool)
        ensures
            r == (self@ is EndOfTrack),
    {
        match self {
            TrackEvent::EndOfTrack => true,
            _ => false,
        }
    }
}

} // verus!
