//! The peak extractor: a waveform summary of fixed width for display.

use vstd::prelude::*;
use crate::amplitude::{abs_amplitude, magnitude};
use crate::decode::{mono_amplitudes, mono_samples, DecodeError, StreamFormat};

verus! {

/// The number of display columns of a summary.
pub const COLUMNS: usize = 200;

/// The number of samples per column: the sample count divided by the column
/// count, and at least one.
pub open spec fn chunk_size(len: nat, columns: nat) -> nat {
    if columns == 0 || len / columns < 1 {
        1
    } else {
        len / columns
    }
}

/// The largest magnitude among the samples from `lo` up to `hi`, and zero
/// where there is none.
pub open spec fn window_peak(samples: Seq<i32>, lo: int, hi: int) -> int
    decreases hi - lo,
{
    if lo >= hi {
        0
    } else {
        let rest = window_peak(samples, lo, hi - 1);
        let last = magnitude(samples[hi - 1] as int);
        if last > rest {
            last
        } else {
            rest
        }
    }
}

/// A position, held back at the end of the samples.
pub open spec fn bounded(position: int, len: nat) -> int {
    if position > len {
        len as int
    } else {
        position
    }
}

/// The peak of display column `j`.
pub open spec fn column_peak(samples: Seq<i32>, columns: nat, j: int) -> int {
    let chunk = chunk_size(samples.len(), columns);
    window_peak(
        samples,
        bounded(j * chunk, samples.len()),
        bounded((j + 1) * chunk, samples.len()),
    )
}

/// The peaks of all display columns.
pub open spec fn peaks_of(samples: Seq<i32>, columns: nat) -> Seq<u32> {
    Seq::new(columns, |j: int| column_peak(samples, columns, j) as u32)
}

/// The length of `frames` frames at `sample_rate`, in microseconds.
pub open spec fn micros_of(frames: u32, sample_rate: u32) -> int {
    if sample_rate == 0 {
        0
    } else {
        (frames * 1000000) / (sample_rate as int)
    }
}

/// The peak of a window is no smaller than any magnitude in it, never
/// negative nor above full scale, and is the magnitude of one of its samples
/// unless the window is empty.
pub proof fn law_peak_is_maximum(samples: Seq<i32>, lo: int, hi: int)
    requires
        0 <= lo <= hi <= samples.len(),
    ensures
        0 <= window_peak(samples, lo, hi) <= 0x8000_0000,
        forall|i: int| lo <= i < hi ==> magnitude(#[trigger] samples[i] as int) <= window_peak(samples, lo, hi),
        lo < hi ==> exists|i: int|
            lo <= i < hi && magnitude(#[trigger] samples[i] as int) == window_peak(samples, lo, hi),
        lo == hi ==> window_peak(samples, lo, hi) == 0,
    decreases hi - lo,
{
    if lo < hi {
        law_peak_is_maximum(samples, lo, hi - 1);
        let rest = window_peak(samples, lo, hi - 1);
        let last = magnitude(samples[hi - 1] as int);
        if last > rest || lo == hi - 1 {
            assert(magnitude(samples[hi - 1] as int) == window_peak(samples, lo, hi));
        } else {
            let k = choose|k: int|
                lo <= k < hi - 1 && magnitude(#[trigger] samples[k] as int) == rest;
            assert(lo <= k < hi && magnitude(samples[k] as int) == window_peak(samples, lo, hi));
        }
    }
}

/// The peak of a display column is no smaller than any magnitude in the
/// column's chunk, and lies between silence and full scale.
pub proof fn law_column_peak(samples: Seq<i32>, columns: nat, j: int)
    requires
        0 <= j < columns,
    ensures
        0 <= column_peak(samples, columns, j) <= 0x8000_0000,
        forall|i: int|
            bounded(j * chunk_size(samples.len(), columns), samples.len()) <= i < bounded(
                (j + 1) * chunk_size(samples.len(), columns),
                samples.len(),
            ) ==> magnitude(#[trigger] samples[i] as int) <= column_peak(samples, columns, j),
{
    let chunk = chunk_size(samples.len(), columns);
    assert(0 <= j * chunk <= (j + 1) * chunk) by (nonlinear_arith)
        requires
            0 <= j,
            chunk >= 1,
    ;
    law_peak_is_maximum(
        samples,
        bounded(j * chunk, samples.len()),
        bounded((j + 1) * chunk, samples.len()),
    );
}

/// Finds the largest magnitude among the samples from `lo` up to `hi`.
pub fn window_max(samples: &Vec<i32>, lo: usize, hi: usize) -> (peak: u32)
    requires
        lo <= hi <= samples@.len(),
    ensures
        peak == window_peak(samples@, lo as int, hi as int),
{
    let mut peak: u32 = 0;
    let mut i: usize = lo;
    while i < hi
        invariant
            lo <= i <= hi,
            hi <= samples@.len(),
            peak == window_peak(samples@, lo as int, i as int),
        decreases hi - i,
    {
        let m = abs_amplitude(samples[i]);
        if m > peak {
            peak = m;
        }
        i = i + 1;
    }
    peak
}

/// Reduces a mono sequence to `columns` peaks. The samples are cut into
/// chunks of `chunk_size` samples, one per column from the start; a column
/// whose chunk lies past the end shows silence.
pub fn extract_peaks(samples: &Vec<i32>, columns: usize) -> (peaks: Vec<u32>)
    ensures
        peaks@ == peaks_of(samples@, columns as nat),
        peaks@.len() == columns,
{
    let len = samples.len();
    let mut out: Vec<u32> = Vec::with_capacity(columns);
    if columns == 0 {
        proof {
            assert(out@ =~= peaks_of(samples@, 0));
        }
        return out;
    }
    let chunk: usize = if len / columns < 1 {
        1
    } else {
        len / columns
    };
    let mut lo: usize = 0;
    let mut j: usize = 0;
    let ghost mut start: int = 0;
    while j < columns
        invariant
            len == samples@.len(),
            columns > 0,
            chunk == chunk_size(len as nat, columns as nat),
            chunk >= 1,
            j <= columns,
            start == j * chunk,
            lo == bounded(start, len as nat),
            out@.len() == j,
            forall|k: int|
                0 <= k < j ==> (#[trigger] out@[k]) == column_peak(samples@, columns as nat, k),
        decreases columns - j,
    {
        let hi: usize = if len - lo < chunk {
            len
        } else {
            lo + chunk
        };
        proof {
            assert((j + 1) * chunk == start + chunk) by (nonlinear_arith)
                requires
                    start == j * chunk,
            ;
            assert(hi == bounded(start + chunk, len as nat));
            law_peak_is_maximum(samples@, lo as int, hi as int);
        }
        let peak = window_max(samples, lo, hi);
        out.push(peak);
        lo = hi;
        j = j + 1;
        proof {
            start = start + chunk;
        }
    }
    proof {
        assert(out@ =~= peaks_of(samples@, columns as nat));
    }
    out
}

/// Computes the length of `frames` frames at `sample_rate` in microseconds.
/// A rate of zero gives zero.
pub fn duration_micros(frames: u32, sample_rate: u32) -> (micros: u64)
    ensures
        micros == micros_of(frames, sample_rate),
{
    if sample_rate == 0 {
        0
    } else {
        (frames as u64) * 1000000 / (sample_rate as u64)
    }
}

/// What is shown of one loaded sound: its pad, the peak of every display
/// column, and its length.
#[derive(Debug)]
pub struct WaveformSummary {
    pub pad_id: usize,
    pub peaks: Vec<u32>,
    pub duration_micros: u64,
}

/// Whether `summary` is what is shown of the mono sequence `mono` of a stream
/// of the given format on pad `pad_id`.
pub open spec fn is_summary_of(
    summary: WaveformSummary,
    pad_id: usize,
    format: StreamFormat,
    mono: Seq<i32>,
) -> bool {
    &&& summary.pad_id == pad_id
    &&& summary.peaks@ == peaks_of(mono, COLUMNS as nat)
    &&& summary.duration_micros == micros_of(format.frames, format.sample_rate)
}

/// Summarises the values of a stream for display. The stream is refused as
/// by the decoder; its rate is left as it is.
pub fn summarize(pad_id: usize, format: &StreamFormat, raw: Vec<i32>) -> (result: Result<
    WaveformSummary,
    DecodeError,
>)
    ensures
        match mono_amplitudes(*format, raw@) {
            Ok(mono) => result.is_ok() && is_summary_of(result.unwrap(), pad_id, *format, mono),
            Err(e) => result.is_err() && result.unwrap_err() == e,
        },
{
    let mono = match mono_samples(format, raw) {
        Ok(mono) => mono,
        Err(e) => {
            return Err(e);
        },
    };
    let peaks = extract_peaks(&mono, COLUMNS);
    Ok(WaveformSummary {
            pad_id,
            peaks,
            duration_micros: duration_micros(format.frames, format.sample_rate),
        })
}

} // verus!
