use rcp_parser::error::DecodeError;
use rcp_parser::event::aggregate::{collect_event, strip_sentinels, Aggregator};
use rcp_parser::event::classify::{classify_frame, pack14, Classified};
use rcp_parser::event::comment_event::take_comment_event;
use rcp_parser::event::exclusive_event::take_track_exclusive_event;
use rcp_parser::event::frame::{read_frame, Frame};
use rcp_parser::event::parse::{parse_track_event, take_single_length_event};
use rcp_parser::event::TrackEvent;

fn frame(tag: u8, byte1: u8, byte2: u8, byte3: u8) -> Frame {
    Frame { tag, byte1, byte2, byte3 }
}

fn is_known(tag: u8) -> bool {
    matches!(
        tag,
        0x00..=0x7F
            | 0x90..=0x98
            | 0xDD
            | 0xDE
            | 0xDF
            | 0xE2
            | 0xE5
            | 0xE6
            | 0xE7
            | 0xEA
            | 0xEB
            | 0xEC
            | 0xED
            | 0xEE
            | 0xF5
            | 0xF6
            | 0xF7
            | 0xF8
            | 0xF9
            | 0xFC
            | 0xFD
            | 0xFE
    )
}

/// A comment of ten frames whose text is `text`, with `filler` in the second
/// byte of each frame.
fn comment_frames(text: &[u8; 20], filler: u8) -> Vec<u8> {
    let mut bytes = Vec::new();
    for k in 0..10 {
        bytes.push(if k == 0 { 0xF6 } else { 0xF7 });
        bytes.push(filler.wrapping_add(k as u8));
        bytes.push(text[2 * k]);
        bytes.push(text[2 * k + 1]);
    }
    bytes
}

#[test]
fn read_frame_takes_four_bytes() {
    let input = [1u8, 2, 3, 4, 5, 6];
    let (rest, f) = read_frame(&input).unwrap();
    assert_eq!(f, frame(1, 2, 3, 4));
    assert_eq!(rest, &[5u8, 6][..]);
}

#[test]
fn read_frame_of_exactly_four_bytes_leaves_nothing() {
    let input = [9u8, 8, 7, 6];
    let (rest, f) = read_frame(&input).unwrap();
    assert_eq!(f, frame(9, 8, 7, 6));
    assert!(rest.is_empty());
}

#[test]
fn read_frame_needs_four_bytes() {
    for len in 0..4 {
        let input = vec![0u8; len];
        assert_eq!(read_frame(&input), Err(DecodeError::UnexpectedEndOfInput));
    }
}

#[test]
fn every_note_tag_decodes_to_a_note() {
    for tag in 0x00..=0x7Fu8 {
        let a = tag.wrapping_mul(3);
        let b = tag.wrapping_add(100);
        let c = 255 - tag;
        assert_eq!(
            classify_frame(frame(tag, a, b, c), 0),
            Ok(Classified::Complete(TrackEvent::Note {
                step_time: a,
                key_number: tag,
                gate_time: b,
                velocity: c,
            }))
        );
        let input = [tag, a, b, c];
        let (rest, event) = parse_track_event(&input).unwrap();
        assert_eq!(
            event,
            TrackEvent::Note { step_time: a, key_number: tag, gate_time: b, velocity: c }
        );
        assert!(rest.is_empty());
    }
}

#[test]
fn note_frame_decodes_to_note() {
    let input = [0x3Cu8, 10, 20, 30, 0xFE, 0, 0, 0];
    let (rest, event) = parse_track_event(&input).unwrap();
    assert_eq!(
        event,
        TrackEvent::Note { step_time: 10, key_number: 0x3C, gate_time: 20, velocity: 30 }
    );
    assert_eq!(rest, &input[4..]);
}

#[test]
fn tempo_packs_two_seven_bit_bytes() {
    for low in 0..128u8 {
        for high in 0..128u8 {
            let expected = ((high as u16) << 7) | (low as u16);
            assert_eq!(expected, high as u16 * 128 + low as u16);
            assert_eq!(
                classify_frame(frame(0xE7, 5, low, high), 0),
                Ok(Classified::Complete(TrackEvent::Tempo { step_time: 5, tempo: expected }))
            );
        }
    }
}

#[test]
fn pitch_bend_packs_two_seven_bit_bytes() {
    for low in 0..128u8 {
        for high in 0..128u8 {
            let expected = ((high as i16) << 7) | (low as i16);
            assert_eq!(
                classify_frame(frame(0xEE, 7, low, high), 0),
                Ok(Classified::Complete(TrackEvent::PitchBend { step_time: 7, value: expected }))
            );
        }
    }
}

#[test]
fn packed_values_are_exact() {
    assert_eq!(pack14(0, 0), 0);
    assert_eq!(pack14(0x7F, 0), 127);
    assert_eq!(pack14(0, 1), 128);
    assert_eq!(pack14(0x40, 0x3C), 7744);
    assert_eq!(pack14(0x7F, 0x7F), 16383);
    assert_eq!(pack14(0x80, 0x01), 128);
    assert_eq!(pack14(0xFF, 0xFF), 0x7FFF);
}

#[test]
fn tempo_frame_has_exact_value() {
    let input = [0xE7u8, 0, 0x40, 0x3C];
    let (_, event) = parse_track_event(&input).unwrap();
    assert_eq!(event, TrackEvent::Tempo { step_time: 0, tempo: 7744 });
}

#[test]
fn pitch_bend_of_full_bytes_stays_positive() {
    let input = [0xEEu8, 1, 0xFF, 0xFF];
    let (_, event) = parse_track_event(&input).unwrap();
    assert_eq!(event, TrackEvent::PitchBend { step_time: 1, value: 32767 });
}

#[test]
fn user_exclusive_number_is_low_nibble() {
    for tag in 0x90..=0x97u8 {
        let input = [tag, 12, 34, 56];
        let (_, event) = parse_track_event(&input).unwrap();
        assert_eq!(event, TrackEvent::UserExclusive { step_time: 12, number: tag - 0x90 });
    }
}

#[test]
fn device_frames_keep_their_three_bytes() {
    let (_, event) = parse_track_event(&[0xDD, 1, 2, 3]).unwrap();
    assert_eq!(event, TrackEvent::RolandBaseAddress { step_time: 1, gate_time: 2, velocity: 3 });
    let (_, event) = parse_track_event(&[0xDE, 4, 5, 6]).unwrap();
    assert_eq!(event, TrackEvent::RolandParameter { step_time: 4, gate_time: 5, velocity: 6 });
    let (_, event) = parse_track_event(&[0xDF, 7, 8, 9]).unwrap();
    assert_eq!(event, TrackEvent::RolandDeviceNumber { step_time: 7, gate_time: 8, velocity: 9 });
    let (_, event) = parse_track_event(&[0xE2, 10, 11, 12]).unwrap();
    assert_eq!(event, TrackEvent::BankPrg { step_time: 10, gate_time: 11, velocity: 12 });
    let (_, event) = parse_track_event(&[0xE5, 13, 14, 15]).unwrap();
    assert_eq!(event, TrackEvent::Keyin { step_time: 13, gate_time: 14, velocity: 15 });
}

#[test]
fn channel_and_controller_frames() {
    let (_, event) = parse_track_event(&[0xE6, 1, 9, 99]).unwrap();
    assert_eq!(event, TrackEvent::MidiChannel { step_time: 1, channel: 9 });
    let (_, event) = parse_track_event(&[0xEA, 2, 64, 99]).unwrap();
    assert_eq!(event, TrackEvent::AfterTouch { step_time: 2, pressure: 64 });
    let (_, event) = parse_track_event(&[0xEB, 3, 7, 100]).unwrap();
    assert_eq!(event, TrackEvent::ControlChange { step_time: 3, controller_number: 7, value: 100 });
    let (_, event) = parse_track_event(&[0xEC, 4, 42, 99]).unwrap();
    assert_eq!(event, TrackEvent::ProgramChange { step_time: 4, program_number: 42 });
    let (_, event) = parse_track_event(&[0xED, 5, 60, 90]).unwrap();
    assert_eq!(event, TrackEvent::PolyphonicAfterTouch { step_time: 5, key_number: 60, pressure: 90 });
}

#[test]
fn marker_frames() {
    let (_, event) = parse_track_event(&[0xF5, 11, 0, 0]).unwrap();
    assert_eq!(event, TrackEvent::Key { offset: 11 });
    let (_, event) = parse_track_event(&[0xF8, 3, 0, 0]).unwrap();
    assert_eq!(event, TrackEvent::RepeatEnd { count: 3 });
    let (_, event) = parse_track_event(&[0xF9, 1, 2, 3]).unwrap();
    assert_eq!(event, TrackEvent::RepeatStart);
    let (_, event) = parse_track_event(&[0xFC, 2, 0x10, 0x01]).unwrap();
    assert_eq!(event, TrackEvent::SameMeasure { measure: 2, track_offset: 144 });
    let (_, event) = parse_track_event(&[0xFD, 1, 2, 3]).unwrap();
    assert_eq!(event, TrackEvent::BarLine);
    let (rest, event) = parse_track_event(&[0xFE, 0, 0, 0, 0x3C]).unwrap();
    assert_eq!(event, TrackEvent::EndOfTrack);
    assert!(event.is_end_of_track());
    assert_eq!(rest, &[0x3Cu8][..]);
    assert!(!TrackEvent::BarLine.is_end_of_track());
}

#[test]
fn start_and_continuation_frames_are_markers() {
    assert_eq!(
        classify_frame(frame(0x98, 1, 2, 3), 0),
        Ok(Classified::ExclusiveStart { step_time: 1, first: 2, second: 3 })
    );
    assert_eq!(
        classify_frame(frame(0xF6, 1, 2, 3), 0),
        Ok(Classified::CommentStart { first: 2, second: 3 })
    );
    assert_eq!(
        classify_frame(frame(0xF7, 1, 2, 3), 0),
        Ok(Classified::Continuation { first: 2, second: 3 })
    );
}

#[test]
fn every_unknown_tag_fails() {
    let mut unknown = 0;
    for tag in 0..=255u8 {
        let classified = classify_frame(frame(tag, 1, 2, 3), 40);
        let input = [tag, 1, 2, 3];
        if is_known(tag) {
            assert!(classified.is_ok());
            assert!(!matches!(
                parse_track_event(&input),
                Err(DecodeError::UnknownEventType(_, _))
            ));
        } else {
            unknown += 1;
            assert_eq!(classified, Err(DecodeError::UnknownEventType(tag, 40)));
            assert_eq!(parse_track_event(&input), Err(DecodeError::UnknownEventType(tag, 0)));
        }
    }
    assert_eq!(unknown, 256 - 128 - 9 - 3 - 1 - 3 - 5 - 5 - 3);
}

#[test]
fn unknown_tag_is_reported() {
    let input = [0xFFu8, 0, 0, 0];
    assert_eq!(parse_track_event(&input), Err(DecodeError::UnknownEventType(0xFF, 0)));
}

#[test]
fn unknown_tag_within_a_comment_is_reported_at_its_frame() {
    let mut input = comment_frames(&[7u8; 20], 0);
    input[12] = 0x80;
    assert_eq!(parse_track_event(&input), Err(DecodeError::UnknownEventType(0x80, 12)));
}

#[test]
fn short_input_is_unexpected_end() {
    for len in 0..4 {
        let input = vec![0x3Cu8; len];
        assert_eq!(parse_track_event(&input), Err(DecodeError::UnexpectedEndOfInput));
        let input = vec![0xF6u8; len];
        assert_eq!(parse_track_event(&input), Err(DecodeError::UnexpectedEndOfInput));
        let input = vec![0xF7u8; len];
        assert_eq!(parse_track_event(&input), Err(DecodeError::UnexpectedEndOfInput));
    }
}

#[test]
fn continuation_frame_alone_is_misplaced() {
    let input = [0xF7u8, 0, 1, 2];
    assert_eq!(parse_track_event(&input), Err(DecodeError::MisplacedContinuationFrame));
    assert_eq!(take_single_length_event(&input), Err(DecodeError::MisplacedContinuationFrame));
}

#[test]
fn comment_of_ten_frames_is_its_twenty_bytes() {
    let text = *b"Hello, sequencer!   ";
    for filler in [0u8, 1, 0x7F, 0xF7, 0xFF] {
        let mut input = comment_frames(&text, filler);
        input.extend_from_slice(&[0xFE, 0, 0, 0]);
        let (rest, event) = parse_track_event(&input).unwrap();
        assert_eq!(event, TrackEvent::Comment { text });
        assert_eq!(rest, &[0xFEu8, 0, 0, 0][..]);
        let (rest, event) = take_comment_event(&input).unwrap();
        assert_eq!(event, TrackEvent::Comment { text });
        assert_eq!(rest.len(), 4);
    }
}

#[test]
fn comment_text_may_hold_any_byte() {
    let mut text = [0u8; 20];
    for (k, byte) in text.iter_mut().enumerate() {
        *byte = 0xF0 + k as u8 % 16;
    }
    let input = comment_frames(&text, 0);
    let (rest, event) = parse_track_event(&input).unwrap();
    assert_eq!(event, TrackEvent::Comment { text });
    assert!(rest.is_empty());
}

#[test]
fn comment_cut_short_is_unterminated() {
    let input = comment_frames(&[1u8; 20], 0);
    for len in 4..40 {
        assert_eq!(
            parse_track_event(&input[..len]),
            Err(DecodeError::UnterminatedContinuation)
        );
    }
}

#[test]
fn comment_interrupted_is_misplaced() {
    for k in 1..10 {
        let mut input = comment_frames(&[1u8; 20], 0);
        input[4 * k] = 0x3C;
        assert_eq!(parse_track_event(&input), Err(DecodeError::MisplacedContinuationFrame));
        input[4 * k] = 0xF6;
        assert_eq!(parse_track_event(&input), Err(DecodeError::MisplacedContinuationFrame));
        input[4 * k] = 0xFE;
        assert_eq!(parse_track_event(&input), Err(DecodeError::MisplacedContinuationFrame));
    }
}

#[test]
fn exclusive_of_two_frames_drops_the_sentinel() {
    let input = [0x98u8, 33, 0x41, 0x10, 0xF7, 99, 0x42, 0xF7, 0xFE, 0, 0, 0];
    let (rest, event) = parse_track_event(&input).unwrap();
    assert_eq!(
        event,
        TrackEvent::TrackExclusive { step_time: 33, message_body: vec![0x41, 0x10, 0x42] }
    );
    assert_eq!(rest, &[0xFEu8, 0, 0, 0][..]);
    let (rest, event) = take_track_exclusive_event(&input).unwrap();
    assert_eq!(
        event,
        TrackEvent::TrackExclusive { step_time: 33, message_body: vec![0x41, 0x10, 0x42] }
    );
    assert_eq!(rest.len(), 4);
}

#[test]
fn exclusive_drops_three_trailing_sentinels() {
    let input = [0x98u8, 5, 0x42, 0xF7, 0xF7, 0, 0xF7, 0xF7];
    let (rest, event) = parse_track_event(&input).unwrap();
    assert_eq!(event, TrackEvent::TrackExclusive { step_time: 5, message_body: vec![0x42] });
    assert!(rest.is_empty());
}

#[test]
fn exclusive_over_several_frames() {
    let input = [
        0x98u8, 1, 10, 11, 0xF7, 0, 12, 13, 0xF7, 0, 14, 15, 0xF7, 0, 16, 0xF7, 0x3C, 1, 2, 3,
    ];
    let (rest, event) = parse_track_event(&input).unwrap();
    assert_eq!(
        event,
        TrackEvent::TrackExclusive {
            step_time: 1,
            message_body: vec![10, 11, 12, 13, 14, 15, 16],
        }
    );
    assert_eq!(rest, &[0x3Cu8, 1, 2, 3][..]);
}

#[test]
fn exclusive_ends_at_a_sentinel_in_either_byte() {
    let input = [0x98u8, 1, 10, 11, 0xF7, 0, 0xF7, 13, 0xF7, 0, 14, 0xF7];
    let (rest, event) = parse_track_event(&input).unwrap();
    assert_eq!(
        event,
        TrackEvent::TrackExclusive { step_time: 1, message_body: vec![10, 11, 0xF7, 13] }
    );
    assert_eq!(rest, &[0xF7u8, 0, 14, 0xF7][..]);
}

#[test]
fn exclusive_of_sentinels_only_is_empty() {
    let input = [0x98u8, 1, 0xF7, 0xF7, 0xF7, 0, 0xF7, 0xF7];
    let (_, event) = parse_track_event(&input).unwrap();
    assert_eq!(event, TrackEvent::TrackExclusive { step_time: 1, message_body: vec![] });
}

#[test]
fn exclusive_start_frame_does_not_end_the_message() {
    let input = [0x98u8, 1, 10, 0xF7];
    assert_eq!(parse_track_event(&input), Err(DecodeError::UnterminatedContinuation));
    let input = [0x98u8, 1, 10, 0xF7, 0xF7, 0, 20, 21];
    assert_eq!(parse_track_event(&input), Err(DecodeError::UnterminatedContinuation));
}

#[test]
fn exclusive_without_sentinel_is_unterminated() {
    let input = [0x98u8, 1, 10, 11, 0xF7, 0, 12, 13, 0xF7, 0, 14];
    assert_eq!(parse_track_event(&input), Err(DecodeError::UnterminatedContinuation));
}

#[test]
fn exclusive_interrupted_is_misplaced() {
    let input = [0x98u8, 1, 10, 11, 0x3C, 0, 12, 0xF7];
    assert_eq!(parse_track_event(&input), Err(DecodeError::MisplacedContinuationFrame));
    let input = [0x98u8, 1, 10, 11, 0x98, 0, 12, 0xF7];
    assert_eq!(parse_track_event(&input), Err(DecodeError::MisplacedContinuationFrame));
}

#[test]
fn unknown_tag_within_an_exclusive_is_reported_at_its_frame() {
    let input = [0x98u8, 1, 10, 11, 0xF7, 0, 12, 13, 0xFF, 0, 14, 0xF7];
    assert_eq!(parse_track_event(&input), Err(DecodeError::UnknownEventType(0xFF, 8)));
}

#[test]
fn strip_removes_only_the_trailing_run() {
    assert_eq!(strip_sentinels(vec![]), Vec::<u8>::new());
    assert_eq!(strip_sentinels(vec![0xF7]), Vec::<u8>::new());
    assert_eq!(strip_sentinels(vec![0xF7, 0xF7, 0xF7]), Vec::<u8>::new());
    assert_eq!(strip_sentinels(vec![1, 2, 3]), vec![1, 2, 3]);
    assert_eq!(strip_sentinels(vec![1, 0xF7, 3, 0xF7, 0xF7]), vec![1, 0xF7, 3]);
    assert_eq!(strip_sentinels(vec![0xF7, 1]), vec![0xF7, 1]);
}

#[test]
fn aggregator_passes_whole_events_through() {
    let event = TrackEvent::Note { step_time: 1, key_number: 2, gate_time: 3, velocity: 4 };
    let (next, emitted) = Aggregator::new().feed(Classified::Complete(event)).unwrap();
    assert_eq!(next, Aggregator::Idle);
    assert_eq!(
        emitted,
        Some(TrackEvent::Note { step_time: 1, key_number: 2, gate_time: 3, velocity: 4 })
    );
}

#[test]
fn aggregator_starts_collecting_on_start_frames() {
    let (next, emitted) =
        Aggregator::new().feed(Classified::CommentStart { first: 1, second: 2 }).unwrap();
    assert_eq!(next, Aggregator::CollectingComment { buffer: vec![1, 2] });
    assert_eq!(next, Aggregator::start_comment(1, 2));
    assert_eq!(emitted, None);
    let (next, emitted) = Aggregator::new()
        .feed(Classified::ExclusiveStart { step_time: 9, first: 1, second: 2 })
        .unwrap();
    assert_eq!(next, Aggregator::CollectingExclusive { step_time: 9, buffer: vec![1, 2] });
    assert_eq!(next, Aggregator::start_exclusive(9, 1, 2));
    assert_eq!(emitted, None);
}

#[test]
fn aggregator_appends_continuation_bytes() {
    let (next, emitted) = Aggregator::start_comment(1, 2)
        .feed(Classified::Continuation { first: 3, second: 4 })
        .unwrap();
    assert_eq!(next, Aggregator::CollectingComment { buffer: vec![1, 2, 3, 4] });
    assert_eq!(emitted, None);
    let (next, emitted) = Aggregator::start_exclusive(0, 1, 2)
        .feed(Classified::Continuation { first: 3, second: 4 })
        .unwrap();
    assert_eq!(next, Aggregator::CollectingExclusive { step_time: 0, buffer: vec![1, 2, 3, 4] });
    assert_eq!(emitted, None);
}

#[test]
fn aggregator_completes_a_comment_at_twenty_bytes() {
    let mut state = Aggregator::start_comment(0, 1);
    for k in 1..9u8 {
        let (next, emitted) =
            state.feed(Classified::Continuation { first: 2 * k, second: 2 * k + 1 }).unwrap();
        assert_eq!(emitted, None);
        state = next;
    }
    let (next, emitted) = state.feed(Classified::Continuation { first: 18, second: 19 }).unwrap();
    assert_eq!(next, Aggregator::Idle);
    let mut text = [0u8; 20];
    for (k, byte) in text.iter_mut().enumerate() {
        *byte = k as u8;
    }
    assert_eq!(emitted, Some(TrackEvent::Comment { text }));
}

#[test]
fn aggregator_rejects_frames_out_of_place() {
    assert_eq!(
        Aggregator::new().feed(Classified::Continuation { first: 1, second: 2 }),
        Err(DecodeError::MisplacedContinuationFrame)
    );
    assert_eq!(
        Aggregator::start_comment(1, 2).feed(Classified::Complete(TrackEvent::BarLine)),
        Err(DecodeError::MisplacedContinuationFrame)
    );
    assert_eq!(
        Aggregator::start_comment(1, 2).feed(Classified::CommentStart { first: 1, second: 2 }),
        Err(DecodeError::MisplacedContinuationFrame)
    );
    assert_eq!(
        Aggregator::start_exclusive(0, 1, 2).feed(Classified::Complete(TrackEvent::EndOfTrack)),
        Err(DecodeError::MisplacedContinuationFrame)
    );
    assert_eq!(
        Aggregator::start_exclusive(0, 1, 2)
            .feed(Classified::ExclusiveStart { step_time: 0, first: 1, second: 2 }),
        Err(DecodeError::MisplacedContinuationFrame)
    );
}

#[test]
fn aggregator_names_the_failure_at_end_of_input() {
    assert_eq!(Aggregator::new().end_of_input_error(), DecodeError::UnexpectedEndOfInput);
    assert_eq!(
        Aggregator::start_comment(1, 2).end_of_input_error(),
        DecodeError::UnterminatedContinuation
    );
    assert_eq!(
        Aggregator::start_exclusive(0, 1, 2).end_of_input_error(),
        DecodeError::UnterminatedContinuation
    );
}

#[test]
fn collect_event_continues_from_a_position() {
    let input = [0x98u8, 7, 1, 2, 0xF7, 0, 3, 0xF7, 0xFD, 0, 0, 0];
    let (rest, event) = collect_event(&input, 4, Aggregator::start_exclusive(7, 1, 2)).unwrap();
    assert_eq!(event, TrackEvent::TrackExclusive { step_time: 7, message_body: vec![1, 2, 3] });
    assert_eq!(rest, &[0xFDu8, 0, 0, 0][..]);
    let (rest, event) = collect_event(&input, 8, Aggregator::new()).unwrap();
    assert_eq!(event, TrackEvent::BarLine);
    assert!(rest.is_empty());
    assert_eq!(
        collect_event(&input, 12, Aggregator::new()),
        Err(DecodeError::UnexpectedEndOfInput)
    );
}

#[test]
fn shifted_moves_only_the_offset() {
    assert_eq!(
        DecodeError::UnknownEventType(0xFF, 8).shifted(44),
        DecodeError::UnknownEventType(0xFF, 52)
    );
    assert_eq!(DecodeError::UnexpectedEndOfInput.shifted(44), DecodeError::UnexpectedEndOfInput);
    assert_eq!(DecodeError::InvalidTrackType(3).shifted(44), DecodeError::InvalidTrackType(3));
    assert_eq!(DecodeError::InvalidMuteFlag(3).shifted(44), DecodeError::InvalidMuteFlag(3));
    assert_eq!(
        DecodeError::UnterminatedContinuation.shifted(1),
        DecodeError::UnterminatedContinuation
    );
    assert_eq!(
        DecodeError::MisplacedContinuationFrame.shifted(1),
        DecodeError::MisplacedContinuationFrame
    );
}

#[test]
fn take_functions_do_not_look_at_the_first_tag() {
    let text = *b"0123456789abcdefghij";
    let mut input = comment_frames(&text, 0);
    input[0] = 0x00;
    let (rest, event) = take_comment_event(&input).unwrap();
    assert_eq!(event, TrackEvent::Comment { text });
    assert!(rest.is_empty());
    let input = [0x00u8, 9, 1, 2, 0xF7, 0, 3, 0xF7];
    let (rest, event) = take_track_exclusive_event(&input).unwrap();
    assert_eq!(event, TrackEvent::TrackExclusive { step_time: 9, message_body: vec![1, 2, 3] });
    assert!(rest.is_empty());
}

#[test]
fn take_functions_need_a_whole_first_frame() {
    for len in 0..4 {
        let input = vec![0xF6u8; len];
        assert_eq!(take_comment_event(&input), Err(DecodeError::UnexpectedEndOfInput));
        let input = vec![0x98u8; len];
        assert_eq!(take_track_exclusive_event(&input), Err(DecodeError::UnexpectedEndOfInput));
    }
    assert_eq!(
        take_comment_event(&[0xF6, 0, 1, 2]),
        Err(DecodeError::UnterminatedContinuation)
    );
    assert_eq!(
        take_track_exclusive_event(&[0x98, 0, 1, 2]),
        Err(DecodeError::UnterminatedContinuation)
    );
}

#[test]
fn collect_event_past_the_end_is_end_of_input() {
    let input = [0xFDu8, 0, 0, 0];
    assert_eq!(collect_event(&input, 4, Aggregator::new()), Err(DecodeError::UnexpectedEndOfInput));
    assert_eq!(collect_event(&input, 5, Aggregator::new()), Err(DecodeError::UnexpectedEndOfInput));
    assert_eq!(
        collect_event(&input, 9, Aggregator::start_comment(1, 2)),
        Err(DecodeError::UnterminatedContinuation)
    );
}

#[test]
fn events_in_a_track_never_include_the_end() {
    let (_, event) = parse_track_event(&[0xFE, 1, 2, 3]).unwrap();
    assert_eq!(event, TrackEvent::EndOfTrack);
}

#[test]
fn single_frame_decoder_rejects_frames_of_longer_events() {
    assert_eq!(
        take_single_length_event(&[0x98, 0x10, 0x41, 0x42]),
        Err(DecodeError::MisplacedContinuationFrame)
    );
    assert_eq!(
        take_single_length_event(&[0xF6, 0, b'A', b'B']),
        Err(DecodeError::MisplacedContinuationFrame)
    );
    assert_eq!(
        take_single_length_event(&[0x98, 1, 2, 3, 0xF7, 0, 4, 0xF7]),
        Err(DecodeError::MisplacedContinuationFrame)
    );
    assert_eq!(
        take_single_length_event(&[0xFF, 1, 2, 3]),
        Err(DecodeError::UnknownEventType(0xFF, 0))
    );
    for len in 0..4 {
        let input = vec![0x98u8; len];
        assert_eq!(take_single_length_event(&input), Err(DecodeError::UnexpectedEndOfInput));
    }
}

#[test]
fn single_frame_decoder_reads_one_frame_only() {
    for tag in 0..=255u8 {
        let short = [tag, 1, 2, 3];
        let long = [tag, 1, 2, 3, 0xF7, 9, 8, 0xF7, 0xFF, 0xFF];
        match (take_single_length_event(&short), take_single_length_event(&long)) {
            (Ok((rest_short, a)), Ok((rest_long, b))) => {
                assert_eq!(a, b);
                assert!(rest_short.is_empty());
                assert_eq!(rest_long, &long[4..]);
            }
            (Err(a), Err(b)) => assert_eq!(a, b),
            _ => panic!("results differ for tag {}", tag),
        }
    }
}
