//! An Xtream-Codes compatibility layer: normalizes heterogeneous
//! upstream category, stream and series payloads into a canonical
//! playlist model, and emulates the downstream-facing Player API under
//! an independently managed credential namespace. Every function here
//! carries a verified contract; I/O stays with the embedding program.

pub mod api;
pub mod config;
pub mod m3u_filter_error;
pub mod model;
pub mod pattern;
pub mod processing;
pub mod text_util;

pub use m3u_filter_error::{M3uFilterError, M3uFilterErrorKind};
