//! Rendering of time-coded speech transcriptions into SRT subtitle documents.
//!
//! A transcription result holds, per channel and per recognition alternative,
//! a sequence of timestamped words and utterances. This crate turns those into
//! subtitle documents: one cue per utterance, or one cue per word for
//! single-word burned-in caption styles, with exact `HH:MM:SS,mmm` timecodes.
//! All times are whole milliseconds; the surrounding program converts provider
//! timestamps to milliseconds before calling in, and performs all I/O.

pub mod beast_captions;
pub mod naming;
pub mod srt;
pub mod timecode;
pub mod transcript;
