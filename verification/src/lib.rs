//! Decoder for ProTracker music modules.
//!
//! A module file is read front to back: the title, 31 instrument descriptors, the song
//! structure with its order list, a four-byte signature, the patterns, and last the sample
//! payloads of the instruments. [`module::ProTrackerModule::decode`] reads a whole file;
//! the other modules hold the readers of the single sections. Every reader either
//! succeeds or reports [`error::DecodeError::TruncatedInput`] and consumes nothing.

pub mod effect;
pub mod error;
pub mod instrument;
pub mod module;
pub mod pattern;
pub mod song;
pub mod stream;
pub mod text;
