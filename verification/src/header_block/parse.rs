//! Decoding the header block.

use vstd::prelude::*;
use vstd::slice::slice_subrange;
use crate::error::DecodeError;
use crate::header_block::types::{
    HeaderBlock,
    HeaderBlockView,
    RhythmNote,
    RhythmNoteView,
    TimeSignature,
    UserExclusive,
    UserExclusiveView,
};
use crate::input::{decoded, read_bytes, read_u8, to_array};

verus! {

/// The number of bytes in the header block.
pub const HEADER_BLOCK_LEN: usize = 1414;

/// Where the table of rhythm notes starts in the header block.
pub const RHYTHM_NOTES_AT: usize = 518;

/// The number of bytes in an entry of the table of rhythm notes.
pub const RHYTHM_NOTE_LEN: usize = 16;

/// Where the table of user exclusive messages starts in the header block.
pub const USER_EXCLUSIVES_AT: usize = 1030;

/// The number of bytes in a user exclusive message.
pub const USER_EXCLUSIVE_LEN: usize = 48;

/// The entry of the rhythm note table in the sixteen bytes of `s` from `at`
/// on: fourteen bytes of `name`, then `note_number` and `gate_type`.
pub open spec fn spec_rhythm_note(s: Seq<u8>, at: int) -> RhythmNoteView {
    RhythmNoteView { name: s.subrange(at, at + 14), note_number: s[at + 14], gate_type: s[at + 15] }
}

/// The user exclusive message in the forty-eight bytes of `s` from `at` on.
pub open spec fn spec_user_exclusive(s: Seq<u8>, at: int) -> UserExclusiveView {
    UserExclusiveView { message: s.subrange(at, at + 48) }
}

/// The header block at the front of `s`, each field at its fixed place, and
/// the number of bytes it occupies. An input shorter than the block is the
/// one failure.
pub open spec fn spec_parse_header_block(s: Seq<u8>) -> Result<(HeaderBlockView, int), DecodeError> {
    if s.len() < HEADER_BLOCK_LEN {
        Err(DecodeError::UnexpectedEndOfInput)
    } else {
        Ok(
            (
                HeaderBlockView {
                    version: s.subrange(0, 32),
                    title: s.subrange(32, 96),
                    memo: s.subrange(96, 432),
                    time_base: s[448],
                    tempo: s[449],
                    time_signature: TimeSignature { numerator: s[450], denominator: s[451] },
                    key: s[452],
                    play_bias: s[453],
                    cm6_file_name: s.subrange(454, 470),
                    gsd_file_name: s.subrange(470, 486),
                    number_of_tracks: s[486],
                    rhythm_notes: Seq::new(
                        32,
                        |k: int| spec_rhythm_note(s, RHYTHM_NOTES_AT + RHYTHM_NOTE_LEN * k),
                    ),
                    user_exclusives: Seq::new(
                        8,
                        |k: int| spec_user_exclusive(s, USER_EXCLUSIVES_AT + USER_EXCLUSIVE_LEN * k),
                    ),
                },
                1414,
            ),
        )
    }
}

/// Decodes the rhythm note at the front of `i`.
fn parse_rhythm_note<'a>(i: &'a [u8]) -> (r: Result<(&'a [u8], RhythmNote), DecodeError>)
    ensures
        (match r {
            Ok((rest, note)) => i@.len() >= 16 && rest@ == i@.skip(16) && note@
                == spec_rhythm_note(i@, 0),
            Err(e) => i@.len() < 16 && e == DecodeError::UnexpectedEndOfInput,
        }),
{
    let (rest, entry) = read_bytes(i, RHYTHM_NOTE_LEN)?;
    let name = to_array::<14>(slice_subrange(entry, 0, 14));
    assert(name@ =~= i@.subrange(0, 14));
    Ok((rest, RhythmNote { name, note_number: entry[14], gate_type: entry[15] }))
}

/// Decodes the user exclusive message at the front of `i`.
fn parse_user_exclusive<'a>(i: &'a [u8]) -> (r: Result<(&'a [u8], UserExclusive), DecodeError>)
    ensures
        (match r {
            Ok((rest, exclusive)) => i@.len() >= 48 && rest@ == i@.skip(48) && exclusive@
                == spec_user_exclusive(i@, 0),
            Err(e) => i@.len() < 48 && e == DecodeError::UnexpectedEndOfInput,
        }),
{
    let (rest, message) = read_bytes(i, USER_EXCLUSIVE_LEN)?;
    assert(message@ =~= i@.subrange(0, 48));
    Ok((rest, UserExclusive { message: to_array::<48>(message) }))
}

/// Decodes the header block at the front of `file` and returns it with the
/// input after it, where the track block starts. Fails, with
/// `UnexpectedEndOfInput`, exactly when `file` is shorter than the block.
pub fn parse_header_block<'a>(file: &'a [u8]) -> (r: Result<(&'a [u8], HeaderBlock), DecodeError>)
    ensures
        decoded(r, file@, spec_parse_header_block(file@)),
        r is Ok <==> file@.len() >= HEADER_BLOCK_LEN,
        r matches Ok((rest, _)) ==> rest@ == file@.skip(HEADER_BLOCK_LEN as int),
        r matches Err(e) ==> e == DecodeError::UnexpectedEndOfInput,
{
    let ghost s = file@;
    let (i, version) = read_bytes(file, 32)?;
    let (i, title) = read_bytes(i, 64)?;
    let (i, memo) = read_bytes(i, 336)?;
    let (i, _) = read_bytes(i, 16)?;
    let (i, time_base) = read_u8(i)?;
    let (i, tempo) = read_u8(i)?;
    let (i, numerator) = read_u8(i)?;
    let (i, denominator) = read_u8(i)?;
    let (i, key) = read_u8(i)?;
    let (i, play_bias) = read_u8(i)?;
    let (i, cm6_file_name) = read_bytes(i, 16)?;
    let (i, gsd_file_name) = read_bytes(i, 16)?;
    let (i, number_of_tracks) = read_u8(i)?;
    let (i, _) = read_bytes(i, 31)?;
    assert(i@ =~= s.skip(518));
    assert(version@ =~= s.subrange(0, 32));
    assert(title@ =~= s.subrange(32, 96));
    assert(memo@ =~= s.subrange(96, 432));
    assert(cm6_file_name@ =~= s.subrange(454, 470));
    assert(gsd_file_name@ =~= s.subrange(470, 486));

    let mut rest = i;
    let mut rhythm_notes = [RhythmNote { name: [0u8;14], note_number: 0, gate_type: 0 };32];
    let mut k: usize = 0;
    while k < 32
        invariant
            k <= 32,
            s == file@,
            518 + 16 * k <= s.len(),
            rest@ == s.skip(518 + 16 * k),
            forall|j: int|
                0 <= j < k ==> (#[trigger] rhythm_notes@[j])@ == spec_rhythm_note(s, 518 + 16 * j),
        decreases 32 - k,
    {
        let (after, note) = parse_rhythm_note(rest)?;
        assert(after@ =~= s.skip(518 + 16 * (k + 1)));
        assert(note@.name =~= s.subrange(518 + 16 * k, 518 + 16 * k + 14));
        rhythm_notes[k] = note;
        rest = after;
        k += 1;
    }

    let mut user_exclusives = [UserExclusive { message: [0u8;48] };8];
    let mut k: usize = 0;
    while k < 8
        invariant
            k <= 8,
            s == file@,
            1030 + 48 * k <= s.len(),
            rest@ == s.skip(1030 + 48 * k),
            forall|j: int|
                0 <= j < k ==> (#[trigger] user_exclusives@[j])@ == spec_user_exclusive(
                    s,
                    1030 + 48 * j,
                ),
        decreases 8 - k,
    {
        let (after, exclusive) = parse_user_exclusive(rest)?;
        assert(after@ =~= s.skip(1030 + 48 * (k + 1)));
        assert(exclusive@.message =~= s.subrange(1030 + 48 * k, 1030 + 48 * k + 48));
        user_exclusives[k] = exclusive;
        rest = after;
        k += 1;
    }

    let header = HeaderBlock {
        version: to_array::<32>(version),
        title: to_array::<64>(title),
        memo: to_array::<336>(memo),
        time_base,
        tempo,
        time_signature: TimeSignature { numerator, denominator },
        key,
        play_bias,
        cm6_file_name: to_array::<16>(cm6_file_name),
        gsd_file_name: to_array::<16>(gsd_file_name),
        number_of_tracks,
        rhythm_notes,
        user_exclusives,
    };
    assert(header@.rhythm_notes =~= spec_parse_header_block(s)->Ok_0.0.rhythm_notes);
    assert(header@.user_exclusives =~= spec_parse_header_block(s)->Ok_0.0.user_exclusives);
    Ok((rest, header))
}

} // verus!
