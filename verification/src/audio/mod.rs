//! Audio sources as frame producers: a source decides what happens next, and
//! its driver performs the sending, the sleeping and the capturing.

pub mod microphone;
pub mod pacing;
pub mod source;
pub mod streamer;
pub mod wav;
