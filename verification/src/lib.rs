//! Streaming spectral analysis: framing of audio sources, the index plan of the
//! radix-2 fast Fourier transform, and a bounded rolling history buffer.

pub mod audio;
pub mod circular_vec;
pub mod fft;
pub mod fps_counter;
