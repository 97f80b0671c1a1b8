//! Core of a spoken-language practice service: a registry of recording
//! sessions with their lifecycle, the per-connection audio ingest state
//! machine, the header that finalizes a recording, and a word-level
//! comparison of a transcript with its reference text.
pub mod api;
pub mod diff;
pub mod ingest;
pub mod session;
pub mod wav;
