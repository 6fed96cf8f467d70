//! The frame classifier: what a single frame means, by its tag.

use vstd::prelude::*;
use crate::error::DecodeError;
use crate::event::frame::Frame;
use crate::event::types::TrackEvent;

verus! {

/// Tag of the frame that starts an exclusive message.
pub const TAG_EXCLUSIVE_START: u8 = 0x98;

/// Tag of the frame that starts a comment.
pub const TAG_COMMENT_START: u8 = 0xF6;

/// Tag of a frame that carries two more bytes of the event being collected.
/// The same byte ends an exclusive message when it occurs in its payload.
pub const TAG_CONTINUATION: u8 = 0xF7;

/// Tag of the frame that ends a track.
pub const TAG_END_OF_TRACK: u8 = 0xFE;

/// What one frame amounts to on its own.
#[derive(Debug, PartialEq, Eq)]
pub enum Classified {
    /// The frame is a whole event.
    Complete(TrackEvent),
    /// The frame opens an exclusive message and holds its first two bytes.
    ExclusiveStart { step_time: u8, first: u8, second: u8 },
    /// The frame opens a comment and holds its first two bytes.
    CommentStart { first: u8, second: u8 },
    /// The frame holds the next two bytes of the event being collected.
    Continuation { first: u8, second: u8 },
}

/// Two payload bytes as one number, `(high << 7) | low`: of bytes of seven
/// bits each, `low` gives the low seven bits and `high` the seven above them.
pub open spec fn spec_pack14(low: u8, high: u8) -> u16 {
    ((high as u16) << 7) | (low as u16)
}

/// Whether a tag selects an event.
pub open spec fn is_known_tag(tag: u8) -> bool {
    ||| tag <= 0x7F
    ||| 0x90 <= tag <= 0x98
    ||| 0xDD <= tag <= 0xDF
    ||| tag == 0xE2
    ||| 0xE5 <= tag <= 0xE7
    ||| 0xEA <= tag <= 0xEE
    ||| 0xF5 <= tag <= 0xF9
    ||| 0xFC <= tag <= 0xFE
}

/// The meaning of a frame, or `None` where its tag selects no event.
///
/// The step time, where the event has one, is the byte after the tag, and the
/// event's parameters follow it.
pub open spec fn spec_classify(f: Frame) -> Option<Classified> {
    let Frame { tag, byte1, byte2, byte3 } = f;
    if tag <= 0x7F {
        Some(
            Classified::Complete(
                TrackEvent::Note {
                    step_time: byte1,
                    key_number: tag,
                    gate_time: byte2,
                    velocity: byte3,
                },
            ),
        )
    } else if 0x90 <= tag <= 0x97 {
        Some(
            Classified::Complete(
                TrackEvent::UserExclusive { step_time: byte1, number: (tag % 16) as u8 },
            ),
        )
    } else if tag == 0x98 {
        Some(Classified::ExclusiveStart { step_time: byte1, first: byte2, second: byte3 })
    } else if tag == 0xDD {
        Some(
            Classified::Complete(
                TrackEvent::RolandBaseAddress {
                    step_time: byte1,
                    gate_time: byte2,
                    velocity: byte3,
                },
            ),
        )
    } else if tag == 0xDE {
        Some(
            Classified::Complete(
                TrackEvent::RolandParameter {
                    step_time: byte1,
                    gate_time: byte2,
                    velocity: byte3,
                },
            ),
        )
    } else if tag == 0xDF {
        Some(
            Classified::Complete(
                TrackEvent::RolandDeviceNumber {
                    step_time: byte1,
                    gate_time: byte2,
                    velocity: byte3,
                },
            ),
        )
    } else if tag == 0xE2 {
        Some(
            Classified::Complete(
                TrackEvent::BankPrg { step_time: byte1, gate_time: byte2, velocity: byte3 },
            ),
        )
    } else if tag == 0xE5 {
        Some(
            Classified::Complete(
                TrackEvent::Keyin { step_time: byte1, gate_time: byte2, velocity: byte3 },
            ),
        )
    } else if tag == 0xE6 {
        Some(Classified::Complete(TrackEvent::MidiChannel { step_time: byte1, channel: byte2 }))
    } else if tag == 0xE7 {
        Some(
            Classified::Complete(
                TrackEvent::Tempo { step_time: byte1, tempo: spec_pack14(byte2, byte3) },
            ),
        )
    } else if tag == 0xEA {
        Some(Classified::Complete(TrackEvent::AfterTouch { step_time: byte1, pressure: byte2 }))
    } else if tag == 0xEB {
        Some(
            Classified::Complete(
                TrackEvent::ControlChange {
                    step_time: byte1,
                    controller_number: byte2,
                    value: byte3,
                },
            ),
        )
    } else if tag == 0xEC {
        Some(
            Classified::Complete(
                TrackEvent::ProgramChange { step_time: byte1, program_number: byte2 },
            ),
        )
    } else if tag == 0xED {
        Some(
            Classified::Complete(
                TrackEvent::PolyphonicAfterTouch {
                    step_time: byte1,
                    key_number: byte2,
                    pressure: byte3,
                },
            ),
        )
    } else if tag == 0xEE {
        Some(
            Classified::Complete(
                TrackEvent::PitchBend {
                    step_time: byte1,
                    value: spec_pack14(byte2, byte3) as i16,
                },
            ),
        )
    } else if tag == 0xF5 {
        Some(Classified::Complete(TrackEvent::Key { offset: byte1 }))
    } else if tag == 0xF6 {
        Some(Classified::CommentStart { first: byte2, second: byte3 })
    } else if tag == 0xF7 {
        Some(Classified::Continuation { first: byte2, second: byte3 })
    } else if tag == 0xF8 {
        Some(Classified::Complete(TrackEvent::RepeatEnd { count: byte1 }))
    } else if tag == 0xF9 {
        Some(Classified::Complete(TrackEvent::RepeatStart))
    } else if tag == 0xFC {
        Some(
            Classified::Complete(
                TrackEvent::SameMeasure {
                    measure: byte1,
                    track_offset: spec_pack14(byte2, byte3),
                },
            ),
        )
    } else if tag == 0xFD {
        Some(Classified::Complete(TrackEvent::BarLine))
    } else if tag == 0xFE {
        Some(Classified::Complete(TrackEvent::EndOfTrack))
    } else {
        None
    }
}

/// Packs two payload bytes into one number.
pub fn pack14(low: u8, high: u8) -> (r: u16)
    ensures
        r == spec_pack14(low, high),
        r <= 0x7FFF,
        low < 128 && high < 128 ==> r == high * 128 + low,
{
    proof {
        lemma_pack14(low, high);
    }
    ((high as u16) << 7) | (low as u16)
}

/// On seven-bit payload bytes the packed number is `high * 128 + low`, which
/// is below `2^14`; on any bytes it fits a signed 16-bit number.
pub proof fn lemma_pack14(low: u8, high: u8)
    ensures
        spec_pack14(low, high) <= 0x7FFF,
        (spec_pack14(low, high) as i16) as int == spec_pack14(low, high) as int,
        low < 128 && high < 128 ==> spec_pack14(low, high) == high * 128 + low,
        low < 128 && high < 128 ==> spec_pack14(low, high) < 0x4000,
{
    assert((((high as u16) << 7) | (low as u16)) <= 0x7FFF) by (bit_vector);
    assert(low < 128 && high < 128 ==> (((high as u16) << 7) | (low as u16)) == high * 128 + low)
        by (bit_vector);
}

/// A tag selects an event exactly when a frame with it has a meaning.
pub proof fn lemma_known_tags(f: Frame)
    ensures
        is_known_tag(f.tag) <==> spec_classify(f) is Some,
{
}

/// Classifies one frame. `offset` is where the frame starts in the input, and
/// is what the failure reports when the tag selects no event.
pub fn classify_frame(frame: Frame, offset: usize) -> (r: Result<Classified, DecodeError>)
    ensures
        r == (match spec_classify(frame) {
            Some(kind) => Ok::<Classified, DecodeError>(kind),
            None => Err(DecodeError::UnknownEventType(frame.tag, offset)),
        }),
        r is Ok <==> is_known_tag(frame.tag),
        frame.tag <= 0x7F ==> r == Ok::<Classified, DecodeError>(
            Classified::Complete(
                TrackEvent::Note {
                    step_time: frame.byte1,
                    key_number: frame.tag,
                    gate_time: frame.byte2,
                    velocity: frame.byte3,
                },
            ),
        ),
        frame.tag == 0xE7 ==> r == Ok::<Classified, DecodeError>(
            Classified::Complete(
                TrackEvent::Tempo {
                    step_time: frame.byte1,
                    tempo: (((frame.byte3 as u16) << 7) | (frame.byte2 as u16)),
                },
            ),
        ),
        frame.tag == 0xEE ==> r == Ok::<Classified, DecodeError>(
            Classified::Complete(
                TrackEvent::PitchBend {
                    step_time: frame.byte1,
                    value: (((frame.byte3 as u16) << 7) | (frame.byte2 as u16)) as i16,
                },
            ),
        ),
        !is_known_tag(frame.tag) ==> r == Err::<Classified, DecodeError>(
            DecodeError::UnknownEventType(frame.tag, offset),
        ),
{
    let Frame { tag, byte1, byte2, byte3 } = frame;
    let kind = match tag {
        0x00..=0x7F => Classified::Complete(
            TrackEvent::Note { step_time: byte1, key_number: tag, gate_time: byte2, velocity: byte3 },
        ),
        0x90..=0x97 => {
            assert(tag & 0x0F == tag % 16) by (bit_vector);
            Classified::Complete(TrackEvent::UserExclusive { step_time: byte1, number: tag & 0x0F })
        },
        0x98 => Classified::ExclusiveStart { step_time: byte1, first: byte2, second: byte3 },
        0xDD => Classified::Complete(
            TrackEvent::RolandBaseAddress { step_time: byte1, gate_time: byte2, velocity: byte3 },
        ),
        0xDE => Classified::Complete(
            TrackEvent::RolandParameter { step_time: byte1, gate_time: byte2, velocity: byte3 },
        ),
        0xDF => Classified::Complete(
            TrackEvent::RolandDeviceNumber { step_time: byte1, gate_time: byte2, velocity: byte3 },
        ),
        0xE2 => Classified::Complete(
            TrackEvent::BankPrg { step_time: byte1, gate_time: byte2, velocity: byte3 },
        ),
        0xE5 => Classified::Complete(
            TrackEvent::Keyin { step_time: byte1, gate_time: byte2, velocity: byte3 },
        ),
        0xE6 => Classified::Complete(TrackEvent::MidiChannel { step_time: byte1, channel: byte2 }),
        0xE7 => Classified::Complete(
            TrackEvent::Tempo { step_time: byte1, tempo: pack14(byte2, byte3) },
        ),
        0xEA => Classified::Complete(TrackEvent::AfterTouch { step_time: byte1, pressure: byte2 }),
        0xEB => Classified::Complete(
            TrackEvent::ControlChange { step_time: byte1, controller_number: byte2, value: byte3 },
        ),
        0xEC => Classified::Complete(
            TrackEvent::ProgramChange { step_time: byte1, program_number: byte2 },
        ),
        0xED => Classified::Complete(
            TrackEvent::PolyphonicAfterTouch { step_time: byte1, key_number: byte2, pressure: byte3 },
        ),
        0xEE => Classified::Complete(
            TrackEvent::PitchBend { step_time: byte1, value: pack14(byte2, byte3) as i16 },
        ),
        0xF5 => Classified::Complete(TrackEvent::Key { offset: byte1 }),
        0xF6 => Classified::CommentStart { first: byte2, second: byte3 },
        0xF7 => Classified::Continuation { first: byte2, second: byte3 },
        0xF8 => Classified::Complete(TrackEvent::RepeatEnd { count: byte1 }),
        0xF9 => Classified::Complete(TrackEvent::RepeatStart),
        0xFC => Classified::Complete(
            TrackEvent::SameMeasure { measure: byte1, track_offset: pack14(byte2, byte3) },
        ),
        0xFD => Classified::Complete(TrackEvent::BarLine),
        0xFE => Classified::Complete(TrackEvent::EndOfTrack),
        _ => { return Err(DecodeError::UnknownEventType(tag, offset)); },
    };
    Ok(kind)
}

} // verus!
