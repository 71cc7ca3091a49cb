//! Synchronisation of a destination music library with a source library.
//!
//! The crate holds the decisions of a synchronisation run: which tracks of the
//! source are missing from the destination or differ from it, what has to be
//! done for each of them, and which bytes a decoded track is written as. All
//! of it works on plain values; reading directories, copying files and running
//! the transcoder are left to the caller, which reports back what happened.
//!
//! - [`fingerprint`] turns the entries of a directory walk into the
//!   fingerprints of a library.
//! - [`detect`] compares two libraries and finds the pending tracks.
//! - [`dispatch`] says, step by step, what is done for one pending track.
//! - [`sync`] plans a run and says what it came to.
//! - [`track`] writes the metadata of a decoded track into its audio, with
//!   [`id3`] for MP3 and [`flac`] for FLAC.

pub mod bytes;
pub mod config;
pub mod detect;
pub mod dispatch;
pub mod error;
pub mod fingerprint;
pub mod flac;
pub mod id3;
pub mod picture;
pub mod sync;
pub mod text;
pub mod track;

pub use config::{Cmd, Config, Mode};
