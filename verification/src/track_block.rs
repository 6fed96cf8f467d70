//! The track block: the tracks of a file, one after the other.

pub mod parse;
pub mod types;

pub use types::Track;
pub use types::TrackBlock;
pub use types::TrackHeader;
pub use types::TrackType;
