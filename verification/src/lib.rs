//! Catalog synchronization engine for a personal audio collection.
//!
//! The library models tracks, albums, playlists and the published catalog,
//! and proves the identity, grouping and cache invariants that the
//! synchronization engine relies on. File and network plumbing lives
//! outside the library and hands in plain values.

pub mod album;
pub mod color;
pub mod cover;
pub mod digest;
pub mod laws;
pub mod lyrics;
pub mod media;
pub mod playlist;
pub mod scan;
pub mod track;

pub use album::Album;
pub use color::Color;
pub use media::{Media, Songs};
pub use playlist::Playlist;
pub use track::{Cover, LyricLine, Track};
