//! Audio capture decisions: which device carries the system's sound, which
//! input configuration to record with, what a capture error means for the
//! user, and how samples are cut into frames; and the text rules applied to
//! a transcription.

pub mod framer;
pub mod loopback;
pub mod recorder;
pub mod replacements;
