//! The sample decoder: from the values of an audio stream to a mono sequence
//! of amplitudes at the playback rate.

use vstd::prelude::*;
use crate::amplitude::{clamped, quotient, UNIT};

verus! {

/// How the samples of a stream are encoded.
#[derive(Clone, Copy, Debug, PartialEq, Eq, Structural)]
pub enum SampleKind {
    /// Linear PCM in signed integers.
    Int,
    /// IEEE floating point.
    Float,
}

/// What the header of a stream says of it.
#[derive(Clone, Copy, Debug, PartialEq, Eq, Structural)]
pub struct StreamFormat {
    pub channels: u16,
    pub sample_rate: u32,
    pub bits_per_sample: u16,
    pub kind: SampleKind,
    /// The number of samples per channel.
    pub frames: u32,
}

/// Why a stream could not be decoded.
#[derive(Clone, Copy, Debug, PartialEq, Eq, Structural)]
pub enum DecodeError {
    /// The bytes are not a readable audio stream.
    Unreadable,
    /// The stream is encoded in a way that is not played.
    UnsupportedFormat,
}

/// The factor that brings an integer sample of `bits` bits to amplitude
/// units, for the depths that are played.
pub open spec fn scale_of(bits: u16) -> Option<int> {
    if bits == 16 {
        Some(65536int)
    } else if bits == 24 {
        Some(256int)
    } else if bits == 32 {
        Some(1int)
    } else {
        None
    }
}

/// Whether `raw` is a value that an integer sample of `bits` bits can take.
pub open spec fn in_depth(raw: int, bits: u16) -> bool {
    if bits == 16 {
        -32768 <= raw <= 32767
    } else if bits == 24 {
        -8388608 <= raw <= 8388607
    } else {
        -2147483648 <= raw <= 2147483647
    }
}

/// An integer sample as an amplitude: scaled, and held within what an
/// amplitude can be.
pub open spec fn normalized(raw: int, scale: int) -> int {
    clamped(raw * scale, -(UNIT as int), UNIT - 1)
}

/// The mean of a left and a right sample, rounded toward zero.
pub open spec fn mean(left: int, right: int) -> int {
    quotient(left + right, 2)
}

/// The sample at `index`, or silence past the end.
pub open spec fn picked(samples: Seq<i32>, index: int) -> i32 {
    if 0 <= index < samples.len() {
        samples[index]
    } else {
        0i32
    }
}

/// Interleaved stereo as mono: the mean of each pair. A last sample without
/// a partner is paired with silence.
pub open spec fn downmixed(samples: Seq<i32>) -> Seq<i32> {
    Seq::new(
        ((samples.len() + 1) / 2) as nat,
        |i: int| mean(samples[2 * i] as int, picked(samples, 2 * i + 1) as int) as i32,
    )
}

/// The interleaved samples of `channels` channels as mono.
pub open spec fn mono_of(samples: Seq<i32>, channels: u16) -> Result<Seq<i32>, DecodeError> {
    if channels == 1 {
        Ok(samples)
    } else if channels == 2 {
        Ok(downmixed(samples))
    } else {
        Err(DecodeError::UnsupportedFormat)
    }
}

/// The number of samples after a change of rate.
pub open spec fn resampled_len(len: nat, source_rate: int, target_rate: int) -> nat
    recommends
        source_rate > 0,
{
    ((len * target_rate) / source_rate) as nat
}

/// The source sample that output sample `i` is copied from.
pub open spec fn source_index(i: int, source_rate: int, target_rate: int) -> int
    recommends
        target_rate > 0,
{
    (i * source_rate) / target_rate
}

/// A mono sequence brought from one rate to another by copying the nearest
/// earlier sample.
pub open spec fn resampled(mono: Seq<i32>, source_rate: int, target_rate: int) -> Seq<i32> {
    if source_rate == target_rate {
        mono
    } else {
        Seq::new(
            resampled_len(mono.len(), source_rate, target_rate),
            |i: int| picked(mono, source_index(i, source_rate, target_rate)),
        )
    }
}

/// Whether a sequence of `len` samples can be brought from one rate to the
/// other: the source rate is not zero and the result's length is one that a
/// vector can have.
pub open spec fn can_resample(len: nat, source_rate: u32, target_rate: u32) -> bool {
    source_rate == target_rate || (source_rate > 0 && resampled_len(
        len,
        source_rate as int,
        target_rate as int,
    ) <= usize::MAX)
}

/// The values of a stream as amplitudes: integer samples are scaled by their
/// depth, floating-point streams arrive as amplitudes already.
pub open spec fn amplitudes_of(format: StreamFormat, raw: Seq<i32>) -> Result<
    Seq<i32>,
    DecodeError,
> {
    match format.kind {
        SampleKind::Float => Ok(raw),
        SampleKind::Int => match scale_of(format.bits_per_sample) {
            Some(scale) => Ok(Seq::new(raw.len(), |i: int| normalized(raw[i] as int, scale) as i32)),
            None => Err(DecodeError::UnsupportedFormat),
        },
    }
}

/// The mono amplitudes of a stream at its own rate.
pub open spec fn mono_amplitudes(format: StreamFormat, raw: Seq<i32>) -> Result<
    Seq<i32>,
    DecodeError,
> {
    match amplitudes_of(format, raw) {
        Ok(samples) => mono_of(samples, format.channels),
        Err(e) => Err(e),
    }
}

/// What decoding a stream for playback at `target_rate` gives.
pub open spec fn decoded(format: StreamFormat, raw: Seq<i32>, target_rate: u32) -> Result<
    Seq<i32>,
    DecodeError,
> {
    match mono_amplitudes(format, raw) {
        Ok(mono) => if can_resample(mono.len(), format.sample_rate, target_rate) {
            Ok(resampled(mono, format.sample_rate as int, target_rate as int))
        } else {
            Err(DecodeError::UnsupportedFormat)
        },
        Err(e) => Err(e),
    }
}

/// The scale for integer samples of `bits` bits, if that depth is played.
pub fn pcm_scale(bits: u16) -> (scale: Option<i64>)
    ensures
        scale.is_some() == scale_of(bits).is_some(),
        scale.is_some() ==> scale.unwrap() == scale_of(bits).unwrap(),
{
    if bits == 16 {
        Some(65536)
    } else if bits == 24 {
        Some(256)
    } else if bits == 32 {
        Some(1)
    } else {
        None
    }
}

/// An integer sample of a played depth becomes an amplitude within full
/// scale, and one that lies within its depth is scaled exactly.
pub proof fn law_pcm_within_full_scale(raw: int, bits: u16)
    requires
        scale_of(bits).is_some(),
    ensures
        -UNIT <= normalized(raw, scale_of(bits).unwrap()) <= UNIT,
        in_depth(raw, bits) ==> normalized(raw, scale_of(bits).unwrap()) == raw * scale_of(
            bits,
        ).unwrap(),
{
}

/// Brings integer samples of `bits` bits to amplitudes. A depth other than
/// 16, 24 or 32 bits is refused.
pub fn normalize_pcm(raw: &Vec<i32>, bits: u16) -> (result: Result<Vec<i32>, DecodeError>)
    ensures
        scale_of(bits).is_none() ==> result == Err::<Vec<i32>, DecodeError>(
            DecodeError::UnsupportedFormat,
        ),
        scale_of(bits).is_some() ==> result.is_ok() && result.unwrap()@ == Seq::new(
            raw@.len(),
            |i: int| normalized(raw@[i] as int, scale_of(bits).unwrap()) as i32,
        ),
        result.is_ok() ==> forall|i: int|
            0 <= i < result.unwrap()@.len() ==> -UNIT <= (#[trigger] result.unwrap()@[i]) <= UNIT,
{
    let scale = match pcm_scale(bits) {
        Some(scale) => scale,
        None => {
            return Err(DecodeError::UnsupportedFormat);
        },
    };
    let mut out: Vec<i32> = Vec::with_capacity(raw.len());
    let mut i: usize = 0;
    while i < raw.len()
        invariant
            i <= raw@.len(),
            out@.len() == i,
            scale_of(bits) == Some(scale as int),
            forall|j: int|
                0 <= j < i ==> (#[trigger] out@[j]) == normalized(raw@[j] as int, scale as int),
        decreases raw@.len() - i,
    {
        let wide: i64 = (raw[i] as i64) * scale;
        let value: i32 = if wide < -UNIT {
            i32::MIN
        } else if wide > UNIT - 1 {
            i32::MAX
        } else {
            wide as i32
        };
        out.push(value);
        i = i + 1;
    }
    proof {
        assert(out@ =~= Seq::new(
            raw@.len(),
            |i: int| normalized(raw@[i] as int, scale_of(bits).unwrap()) as i32,
        ));
    }
    Ok(out)
}

/// Averages interleaved stereo into mono.
pub fn downmix(samples: &Vec<i32>) -> (mono: Vec<i32>)
    ensures
        mono@ == downmixed(samples@),
{
    let n = samples.len();
    let pairs: usize = n / 2 + n % 2;
    let mut out: Vec<i32> = Vec::with_capacity(pairs);
    let mut j: usize = 0;
    while j < pairs
        invariant
            n == samples@.len(),
            pairs == (n + 1) / 2,
            j <= pairs,
            out@.len() == j,
            forall|k: int|
                0 <= k < j ==> (#[trigger] out@[k]) == mean(
                    samples@[2 * k] as int,
                    picked(samples@, 2 * k + 1) as int,
                ),
        decreases pairs - j,
    {
        let left: i64 = samples[2 * j] as i64;
        let right: i64 = if 2 * j + 1 < n {
            samples[2 * j + 1] as i64
        } else {
            0
        };
        let total: i64 = left + right;
        let half: i64 = if total >= 0 {
            total / 2
        } else {
            -((-total) / 2)
        };
        out.push(half as i32);
        j = j + 1;
    }
    proof {
        assert(out@ =~= downmixed(samples@));
    }
    out
}

/// Brings the interleaved samples of `channels` channels to mono. One
/// channel is taken as it is, two are averaged, any other count is refused.
pub fn to_mono(samples: Vec<i32>, channels: u16) -> (result: Result<Vec<i32>, DecodeError>)
    ensures
        match mono_of(samples@, channels) {
            Ok(mono) => result.is_ok() && result.unwrap()@ == mono,
            Err(e) => result == Err::<Vec<i32>, DecodeError>(e),
        },
{
    if channels == 1 {
        Ok(samples)
    } else if channels == 2 {
        Ok(downmix(&samples))
    } else {
        Err(DecodeError::UnsupportedFormat)
    }
}

/// Tests whether a sequence of `len` samples can be brought from one rate to
/// the other.
pub fn check_resample(len: usize, source_rate: u32, target_rate: u32) -> (ok: bool)
    ensures
        ok == can_resample(len as nat, source_rate, target_rate),
{
    if source_rate == target_rate {
        return true;
    }
    if source_rate == 0 {
        return false;
    }
    proof {
        assert(len * target_rate <= 0xffff_ffff_ffff_ffff * 0xffff_ffff) by (nonlinear_arith)
            requires
                0 <= len <= 0xffff_ffff_ffff_ffff,
                0 <= target_rate <= 0xffff_ffff,
        ;
    }
    let wide: u128 = (len as u128) * (target_rate as u128) / (source_rate as u128);
    wide <= usize::MAX as u128
}

/// Changes the rate of a mono sequence by copying, for each output sample,
/// the source sample at the truncated position. Equal rates leave the
/// sequence as it is.
pub fn resample(mono: Vec<i32>, source_rate: u32, target_rate: u32) -> (out: Vec<i32>)
    requires
        can_resample(mono@.len(), source_rate, target_rate),
    ensures
        out@ == resampled(mono@, source_rate as int, target_rate as int),
        source_rate == target_rate ==> out@ == mono@,
{
    if source_rate == target_rate {
        return mono;
    }
    let len = mono.len();
    proof {
        assert(len * target_rate <= 0xffff_ffff_ffff_ffff * 0xffff_ffff) by (nonlinear_arith)
            requires
                0 <= len <= 0xffff_ffff_ffff_ffff,
                0 <= target_rate <= 0xffff_ffff,
        ;
    }
    let new_len: usize = ((len as u128) * (target_rate as u128) / (source_rate as u128)) as usize;
    let mut out: Vec<i32> = Vec::with_capacity(new_len);
    let mut i: usize = 0;
    while i < new_len
        invariant
            i <= new_len,
            len == mono@.len(),
            new_len == resampled_len(len as nat, source_rate as int, target_rate as int),
            source_rate != target_rate,
            source_rate > 0,
            out@.len() == i,
            forall|j: int|
                0 <= j < i ==> (#[trigger] out@[j]) == picked(
                    mono@,
                    source_index(j, source_rate as int, target_rate as int),
                ),
        decreases new_len - i,
    {
        proof {
            assert(target_rate > 0) by (nonlinear_arith)
                requires
                    i < (len * target_rate) / (source_rate as int),
                    target_rate >= 0,
                    len >= 0,
                    source_rate > 0,
                    i >= 0,
            ;
            assert(i * source_rate <= 0xffff_ffff_ffff_ffff * 0xffff_ffff) by (nonlinear_arith)
                requires
                    0 <= i <= 0xffff_ffff_ffff_ffff,
                    0 <= source_rate <= 0xffff_ffff,
            ;
        }
        let index: u128 = (i as u128) * (source_rate as u128) / (target_rate as u128);
        let value: i32 = if index < len as u128 {
            mono[index as usize]
        } else {
            0
        };
        out.push(value);
        i = i + 1;
    }
    proof {
        assert(out@ =~= resampled(mono@, source_rate as int, target_rate as int));
    }
    out
}

/// Decodes the values of a stream into mono amplitudes at `target_rate`.
///
/// `raw` holds the interleaved samples: for an integer stream the integers as
/// read, for a floating-point stream the amplitudes. The stream is refused
/// where its depth or channel count is not played, and where the change of
/// rate cannot be made.
pub fn decode(format: &StreamFormat, raw: Vec<i32>, target_rate: u32) -> (result: Result<
    Vec<i32>,
    DecodeError,
>)
    ensures
        match decoded(*format, raw@, target_rate) {
            Ok(samples) => result.is_ok() && result.unwrap()@ == samples,
            Err(e) => result == Err::<Vec<i32>, DecodeError>(e),
        },
        result.is_ok() ==> forall|i: int|
            0 <= i < result.unwrap()@.len() ==> -UNIT <= (#[trigger] result.unwrap()@[i]) <= UNIT,
{
    let mono = match mono_samples(format, raw) {
        Ok(mono) => mono,
        Err(e) => {
            return Err(e);
        },
    };
    if !check_resample(mono.len(), format.sample_rate, target_rate) {
        return Err(DecodeError::UnsupportedFormat);
    }
    Ok(resample(mono, format.sample_rate, target_rate))
}

/// Brings the values of a stream to mono amplitudes at the stream's own rate.
pub fn mono_samples(format: &StreamFormat, raw: Vec<i32>) -> (result: Result<
    Vec<i32>,
    DecodeError,
>)
    ensures
        match mono_amplitudes(*format, raw@) {
            Ok(samples) => result.is_ok() && result.unwrap()@ == samples,
            Err(e) => result == Err::<Vec<i32>, DecodeError>(e),
        },
{
    let samples = match format.kind {
        SampleKind::Float => raw,
        SampleKind::Int => match normalize_pcm(&raw, format.bits_per_sample) {
            Ok(samples) => samples,
            Err(e) => {
                return Err(e);
            },
        },
    };
    to_mono(samples, format.channels)
}

/// Decoding a mono stream at its own rate changes nothing: the result is the
/// stream's amplitudes, sample for sample. For a floating-point stream these
/// are the values that were handed in.
pub proof fn law_same_rate_identity(format: StreamFormat, raw: Seq<i32>)
    requires
        format.channels == 1,
    ensures
        decoded(format, raw, format.sample_rate) == amplitudes_of(format, raw),
        format.kind == SampleKind::Float ==> decoded(format, raw, format.sample_rate) == Ok::<
            Seq<i32>,
            DecodeError,
        >(raw),
        resampled(raw, format.sample_rate as int, format.sample_rate as int) == raw,
{
}

/// Halving the rate keeps every second sample: the result has half as many
/// samples, rounded down, and sample `i` is the source's sample `2 * i`.
pub proof fn law_half_rate(mono: Seq<i32>, target_rate: int)
    requires
        target_rate > 0,
    ensures
        resampled(mono, 2 * target_rate, target_rate).len() == mono.len() / 2,
        forall|i: int|
            0 <= i < mono.len() / 2 ==> (#[trigger] resampled(mono, 2 * target_rate, target_rate)[i])
                == mono[2 * i],
{
    let len = mono.len();
    assert((len * target_rate) / (2 * target_rate) == len / 2) by (nonlinear_arith)
        requires
            target_rate > 0,
            len >= 0,
    ;
    assert forall|i: int| 0 <= i < len / 2 implies (#[trigger] resampled(
        mono,
        2 * target_rate,
        target_rate,
    )[i]) == mono[2 * i] by {
        assert((i * (2 * target_rate)) / target_rate == 2 * i) by (nonlinear_arith)
            requires
                target_rate > 0,
        ;
    }
}

} // verus!
