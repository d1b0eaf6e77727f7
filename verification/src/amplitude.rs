//! Fixed-point amplitudes and gains.

use vstd::prelude::*;

verus! {

/// The integer that stands for an amplitude of 1.0 (2^31).
pub const UNIT: i64 = 2147483648;

/// The integer that stands for a gain of 1.0 (2^16).
pub const GAIN_UNIT: i32 = 65536;

/// Division that rounds toward zero, for a positive divisor.
pub open spec fn quotient(a: int, b: int) -> int
    recommends
        b > 0,
{
    if a >= 0 {
        a / b
    } else {
        -((-a) / b)
    }
}

/// `v` limited to the closed range from `lo` to `hi`.
pub open spec fn clamped(v: int, lo: int, hi: int) -> int {
    if v < lo {
        lo
    } else if v > hi {
        hi
    } else {
        v
    }
}

/// A sample scaled by a gain: the product, brought back to amplitude units.
pub open spec fn gained(sample: int, gain: int) -> int {
    quotient(sample * gain, GAIN_UNIT as int)
}

/// The output amplitude for a given sum of voice outputs: the sum times twice
/// the master volume, limited to full scale.
pub open spec fn mixed(sum: int, master: int) -> int {
    clamped(quotient(sum * (2 * master), GAIN_UNIT as int), -(UNIT as int), UNIT as int)
}

/// Largest magnitude that one voice can contribute to a frame (2^46).
pub const VOICE_PEAK: i64 = 70368744177664;

/// A 32-bit sample under a 32-bit gain stays within `VOICE_PEAK`.
pub proof fn lemma_gained_bound(sample: int, gain: int)
    requires
        -0x8000_0000 <= sample <= 0x7fff_ffff,
        -0x8000_0000 <= gain <= 0x7fff_ffff,
    ensures
        -(VOICE_PEAK as int) <= gained(sample, gain) <= VOICE_PEAK as int,
{
    let p = sample * gain;
    assert(-0x4000_0000_0000_0000 <= p <= 0x4000_0000_0000_0000) by (nonlinear_arith)
        requires
            p == sample * gain,
            -0x8000_0000 <= sample <= 0x7fff_ffff,
            -0x8000_0000 <= gain <= 0x7fff_ffff,
    ;
}

/// Scales one sample by a gain.
pub fn apply_gain(sample: i32, gain: i32) -> (out: i64)
    ensures
        out == gained(sample as int, gain as int),
        -VOICE_PEAK <= out <= VOICE_PEAK,
{
    proof {
        lemma_gained_bound(sample as int, gain as int);
    }
    let p: i64 = (sample as i64) * (gain as i64);
    if p >= 0 {
        p / 65536
    } else {
        -((-p) / 65536)
    }
}

/// The magnitude of an amplitude.
pub open spec fn magnitude(sample: int) -> int {
    if sample >= 0 {
        sample
    } else {
        -sample
    }
}

/// Computes the magnitude of a sample.
pub fn abs_amplitude(sample: i32) -> (out: u32)
    ensures
        out == magnitude(sample as int),
{
    if sample >= 0 {
        sample as u32
    } else {
        (-(sample as i64)) as u32
    }
}

/// Limits a gain to the range from silence to unity.
pub fn clamp_gain(gain: i32) -> (out: i32)
    ensures
        out == clamped(gain as int, 0, GAIN_UNIT as int),
{
    if gain < 0 {
        0
    } else if gain > GAIN_UNIT {
        GAIN_UNIT
    } else {
        gain
    }
}

} // verus!
