//! Track events and their decoding from 4-byte frames.

pub mod aggregate;
pub mod classify;
pub mod comment_event;
pub mod exclusive_event;
pub mod frame;
pub mod parse;
pub mod types;

pub use types::TrackEvent;
pub use types::TrackEventView;
