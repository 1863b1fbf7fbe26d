//! Playing times in whole numbers: how long a run of samples lasts at a
//! sample rate, and when the next frame of a paced stream is due.

use super::source::{duration_from_parts, duration_parts};
use std::time::Duration;
use vstd::prelude::*;

verus! {

/// Nanoseconds in a second.
pub const NANOS_PER_SEC: u64 = 1_000_000_000;

/// The playing time of `count` samples at `sample_rate` samples per second,
/// in whole nanoseconds, capped at the largest `u64`.
pub open spec fn frame_nanos(count: nat, sample_rate: nat) -> nat {
    let exact = count * NANOS_PER_SEC as nat / sample_rate;
    if exact > u64::MAX {
        u64::MAX as nat
    } else {
        exact
    }
}

/// The time at which the frame after one of `nanos` nanoseconds is due, when
/// that one was due at `due`; capped at the largest `u64`.
pub open spec fn next_due(due: u64, nanos: u64) -> u64 {
    if due + nanos > u64::MAX {
        u64::MAX
    } else {
        (due + nanos) as u64
    }
}

/// The playing time of `length` samples at `sample_rate` samples per second,
/// as whole seconds and the nanoseconds beyond them, rounded down.
pub open spec fn playing_time(length: nat, sample_rate: nat) -> (u64, u32) {
    (
        (length / sample_rate) as u64,
        ((length % sample_rate) * NANOS_PER_SEC as nat / sample_rate) as u32,
    )
}

/// The remainder of a division, scaled to nanoseconds, is below one second.
proof fn lemma_subsec_below_second(remainder: nat, sample_rate: nat)
    requires
        remainder < sample_rate,
    ensures
        remainder * NANOS_PER_SEC as nat / sample_rate < NANOS_PER_SEC,
{
    let scaled = remainder * NANOS_PER_SEC as nat;
    assert(scaled < sample_rate * NANOS_PER_SEC as nat) by (nonlinear_arith)
        requires
            remainder < sample_rate,
            scaled == remainder * NANOS_PER_SEC as nat,
    ;
    vstd::arithmetic::div_mod::lemma_div_by_multiple_is_strongly_ordered(
        scaled as int,
        (sample_rate * NANOS_PER_SEC as nat) as int,
        NANOS_PER_SEC as int,
        sample_rate as int,
    );
    vstd::arithmetic::div_mod::lemma_div_multiples_vanish(NANOS_PER_SEC as int, sample_rate as int);
    assert(sample_rate * NANOS_PER_SEC as nat == NANOS_PER_SEC as nat * sample_rate)
        by (nonlinear_arith);
}

/// How long a frame of `count` samples plays.
pub fn frame_duration_nanos(count: usize, sample_rate: u32) -> (nanos: u64)
    requires
        sample_rate > 0,
    ensures
        nanos == frame_nanos(count as nat, sample_rate as nat),
{
    assert(count * NANOS_PER_SEC <= u128::MAX) by (nonlinear_arith)
        requires
            count <= u64::MAX,
            NANOS_PER_SEC == 1_000_000_000,
    ;
    let exact: u128 = (count as u128) * (NANOS_PER_SEC as u128) / (sample_rate as u128);
    if exact > u64::MAX as u128 {
        u64::MAX
    } else {
        exact as u64
    }
}

/// The playing time of a whole file.
pub fn file_duration(length: u64, sample_rate: u32) -> (duration: Duration)
    requires
        sample_rate > 0,
    ensures
        duration_parts(duration) == playing_time(length as nat, sample_rate as nat),
{
    let rate = sample_rate as u64;
    let secs = length / rate;
    let remainder = length % rate;
    proof {
        lemma_subsec_below_second(remainder as nat, rate as nat);
        assert(remainder * NANOS_PER_SEC <= u64::MAX) by (nonlinear_arith)
            requires
                remainder < 0x1_0000_0000,
                NANOS_PER_SEC == 1_000_000_000,
        ;
    }
    let nanos = (remainder * NANOS_PER_SEC / rate) as u32;
    duration_from_parts(secs, nanos)
}

} // verus!
