//! Decoder for Roland RCP sequencer files.
//!
//! A file is a header block of fixed layout followed by a block of tracks.
//! Each track is a fixed header and a stream of 4-byte frames, which spell
//! the track's events; comments and exclusive messages span several frames.

use vstd::prelude::*;
use crate::error::DecodeError;
use crate::header_block::parse::{parse_header_block, spec_parse_header_block, HEADER_BLOCK_LEN};
use crate::header_block::types::{HeaderBlock, HeaderBlockView};
use crate::input::decoded;
use crate::track_block::parse::{parse_track_block, spec_parse_track_block};
use crate::track_block::types::{TrackBlock, TrackBlockView};

pub mod error;
pub mod event;
pub mod header_block;
pub mod input;
pub mod track_block;

verus! {

/// A decoded file.
#[derive(Debug, PartialEq, Eq)]
pub struct RcpFile {
    pub header_block: HeaderBlock,
    pub track_block: TrackBlock,
}

/// An `RcpFile` with its parts as their views.
pub ghost struct RcpFileView {
    pub header_block: HeaderBlockView,
    pub track_block: TrackBlockView,
}

impl View for RcpFile {
    type V = RcpFileView;

    open spec fn view(&self) -> RcpFileView {
        RcpFileView { header_block: self.header_block@, track_block: self.track_block@ }
    }
}

/// The file at the front of `s` and the number of bytes it occupies: the
/// header block, then as many tracks as the header block declares, from
/// where it ends. The first failure is the result, with an unknown tag
/// reported at its offset in `s`.
pub open spec fn spec_parse_file(s: Seq<u8>) -> Result<(RcpFileView, int), DecodeError> {
    match spec_parse_header_block(s) {
        Err(e) => Err(e),
        Ok((header_block, n)) => match spec_parse_track_block(
            s.skip(n),
            header_block.number_of_tracks as nat,
        ) {
            Err(e) => Err(e.spec_shifted(n)),
            Ok((track_block, m)) => Ok((RcpFileView { header_block, track_block }, n + m)),
        },
    }
}

/// The file that the bytes `s` hold, whatever follows its last track.
pub open spec fn spec_parse(s: Seq<u8>) -> Result<RcpFileView, DecodeError> {
    match spec_parse_file(s) {
        Err(e) => Err(e),
        Ok((file, _)) => Ok(file),
    }
}

/// Decodes the file at the front of `i` and returns it with the input after
/// its last track. The header block's count decides how many tracks are
/// read, so input may be left over.
pub fn parse_file<'a>(i: &'a [u8]) -> (r: Result<(&'a [u8], RcpFile), DecodeError>)
    ensures
        decoded(r, i@, spec_parse_file(i@)),
        r matches Ok((_, file)) ==> file.track_block.tracks@.len()
            == file.header_block.number_of_tracks,
        r matches Err(e) ==> e.within(i@.len() as int),
{
    let (after_header, header_block) = parse_header_block(i)?;
    assert(i.len() == i@.len());
    match parse_track_block(after_header, header_block.number_of_tracks as usize) {
        Ok((rest, track_block)) => {
            assert(rest@ =~= i@.skip(i@.len() - rest@.len()));
            Ok((rest, RcpFile { header_block, track_block }))
        },
        Err(e) => Err(e.shifted(HEADER_BLOCK_LEN)),
    }
}

/// Decodes a whole file. What follows the last track is ignored.
pub fn parse(i: &[u8]) -> (r: Result<RcpFile, DecodeError>)
    ensures
        (match r {
            Ok(file) => spec_parse(i@) == Ok::<_, DecodeError>(file@),
            Err(e) => spec_parse(i@) == Err::<RcpFileView, _>(e),
        }),
        r matches Ok(file) ==> file.track_block.tracks@.len() == file.header_block.number_of_tracks,
        r matches Err(e) ==> e.within(i@.len() as int),
{
    match parse_file(i) {
        Ok((_, file)) => Ok(file),
        Err(e) => Err(e),
    }
}

} // verus!
