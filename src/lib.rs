//! Ubuntu desktop configuration helpers.
//!
//! The heart of the crate is `audio_speakers`: it parses the audio mixer's
//! sink listing, resolves a device, reads the current output configuration
//! and drives the apply / verify / roll back workflow that switches the
//! default output. The other modules hold the shared pieces of the
//! configuration scripts: log-line formatting (`logger`), configuration
//! records and validators (`schema`), argument parsing (`common`), the
//! decisions of the memory optimizer (`optimize_rust_dev`) and of the
//! dependency tools (`deps_manager`). Processes, files and the clock stay
//! with the caller; each module takes what they gave as plain values.
pub mod audio_speakers;
pub mod common;
pub mod deps_manager;
pub mod logger;
pub mod optimize_rust_dev;
pub mod schema;
pub mod text;
