//! Playback pipeline for persisted n-body snapshots.
//!
//! A snapshot log is a sequence of textual records, one per simulated
//! instant, each encoding the full set of body states for that instant.
//! This crate decodes such records into frames and drives a playback
//! state machine that advances one record per render tick, freezing on
//! the last good frame when the log is exhausted or unreadable, and
//! skipping malformed records without halting playback.

pub mod body;
pub mod decode;
pub mod playback;
pub mod source;
