//! The header block: the fixed-layout data at the start of a file.

pub mod parse;
pub mod types;

pub use types::HeaderBlock;
pub use types::RhythmNote;
pub use types::TimeSignature;
pub use types::UserExclusive;
