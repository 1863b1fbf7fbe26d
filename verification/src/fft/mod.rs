//! Index arithmetic of the iterative radix-2 fast Fourier transform. The
//! arithmetic on the samples is left to the caller, so a frame may hold
//! samples of any kind.

pub mod bit_reversal;
pub mod schedule;
