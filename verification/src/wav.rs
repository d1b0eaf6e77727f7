//! Reading WAV streams from bytes, by way of the `hound` crate.

use vstd::prelude::*;
use crate::decode::{decode, decoded, mono_amplitudes, DecodeError, SampleKind, StreamFormat};
use crate::peaks::{is_summary_of, summarize, WaveformSummary};

verus! {

/// The error type of `hound`.
#[verifier::external_type_specification]
#[verifier::external_body]
pub struct ExWavError(hound::Error);

/// What `hound::WavReader::new` makes of the header of a stream: its format,
/// or nothing where the reader refuses the bytes.
pub uninterp spec fn wav_header(bytes: Seq<u8>) -> Option<StreamFormat>;

/// What the sample iterator of `hound::WavReader` yields for a stream when
/// it is asked for 32-bit integers: one entry per sample that the header
/// announces, empty where that sample could not be read.
pub uninterp spec fn wav_samples(bytes: Seq<u8>) -> Seq<Option<i32>>;

/// Opens a reader on the bytes with `hound::WavReader::new` and copies what
/// its `spec` and `duration` report. Trusted: the result is the named header
/// of the bytes, and an error stands for a header that the reader refused.
#[verifier::external_body]
fn read_header(bytes: &Vec<u8>) -> (result: Result<StreamFormat, hound::Error>)
    ensures
        match result {
            Ok(format) => wav_header(bytes@) == Some(format),
            Err(_) => wav_header(bytes@).is_none(),
        },
{
    let reader = hound::WavReader::new(bytes.as_slice())?;
    let spec = reader.spec();
    let kind = match spec.sample_format {
        hound::SampleFormat::Int => SampleKind::Int,
        hound::SampleFormat::Float => SampleKind::Float,
    };
    Ok(StreamFormat {
            channels: spec.channels,
            sample_rate: spec.sample_rate,
            bits_per_sample: spec.bits_per_sample,
            kind,
            frames: reader.duration(),
        })
}

/// Opens a reader on the bytes with `hound::WavReader::new` and collects what
/// `samples::<i32>()` yields, each failed read as `None`. Trusted: the result
/// is the named sample sequence of the bytes, and an error stands for a
/// header that the reader refused.
#[verifier::external_body]
fn read_samples(bytes: &Vec<u8>) -> (result: Result<Vec<Option<i32>>, hound::Error>)
    ensures
        match result {
            Ok(read) => wav_header(bytes@).is_some() && read@ == wav_samples(bytes@),
            Err(_) => wav_header(bytes@).is_none(),
        },
{
    let mut reader = hound::WavReader::new(bytes.as_slice())?;
    Ok(reader.samples::<i32>().map(|sample| sample.ok()).collect())
}

/// The samples as read, with silence in place of each one that is missing.
pub open spec fn filled(read: Seq<Option<i32>>) -> Seq<i32> {
    Seq::new(
        read.len(),
        |i: int|
            match read[i] {
                Some(sample) => sample,
                None => 0i32,
            },
    )
}

/// Puts silence in place of every sample that could not be read.
pub fn fill_gaps(read: &Vec<Option<i32>>) -> (samples: Vec<i32>)
    ensures
        samples@ == filled(read@),
{
    let mut out: Vec<i32> = Vec::with_capacity(read.len());
    let mut i: usize = 0;
    while i < read.len()
        invariant
            i <= read@.len(),
            out@.len() == i,
            forall|j: int| 0 <= j < i ==> (#[trigger] out@[j]) == filled(read@)[j],
        decreases read@.len() - i,
    {
        let value: i32 = match read[i] {
            Some(sample) => sample,
            None => 0,
        };
        out.push(value);
        i = i + 1;
    }
    proof {
        assert(out@ =~= filled(read@));
    }
    out
}

/// What decoding an integer stream, as read, gives at `target_rate`.
/// Floating-point streams hold no integers to read and are refused here.
pub open spec fn decoded_stream(
    format: StreamFormat,
    read: Seq<Option<i32>>,
    target_rate: u32,
) -> Result<Seq<i32>, DecodeError> {
    if format.kind == SampleKind::Float {
        Err(DecodeError::UnsupportedFormat)
    } else {
        decoded(format, filled(read), target_rate)
    }
}

/// What decoding the bytes of a WAV stream gives at `target_rate`.
pub open spec fn decoded_wav(bytes: Seq<u8>, target_rate: u32) -> Result<Seq<i32>, DecodeError> {
    match wav_header(bytes) {
        Some(format) => decoded_stream(format, wav_samples(bytes), target_rate),
        None => Err(DecodeError::Unreadable),
    }
}

/// Decodes an integer stream from its format and its samples as read.
pub fn decode_stream(format: &StreamFormat, read: &Vec<Option<i32>>, target_rate: u32) -> (result:
    Result<Vec<i32>, DecodeError>)
    ensures
        match decoded_stream(*format, read@, target_rate) {
            Ok(samples) => result.is_ok() && result.unwrap()@ == samples,
            Err(e) => result == Err::<Vec<i32>, DecodeError>(e),
        },
{
    match format.kind {
        SampleKind::Float => Err(DecodeError::UnsupportedFormat),
        SampleKind::Int => decode(format, fill_gaps(read), target_rate),
    }
}

/// Reads the format of a WAV stream from its bytes.
pub fn read_format(bytes: &Vec<u8>) -> (result: Result<StreamFormat, DecodeError>)
    ensures
        match wav_header(bytes@) {
            Some(format) => result == Ok::<StreamFormat, DecodeError>(format),
            None => result == Err::<StreamFormat, DecodeError>(DecodeError::Unreadable),
        },
{
    match read_header(bytes) {
        Ok(format) => Ok(format),
        Err(_) => Err(DecodeError::Unreadable),
    }
}

/// Decodes the bytes of a WAV stream into mono amplitudes at `target_rate`.
pub fn decode_wav(bytes: &Vec<u8>, target_rate: u32) -> (result: Result<Vec<i32>, DecodeError>)
    ensures
        match decoded_wav(bytes@, target_rate) {
            Ok(samples) => result.is_ok() && result.unwrap()@ == samples,
            Err(e) => result == Err::<Vec<i32>, DecodeError>(e),
        },
{
    let format = match read_header(bytes) {
        Ok(format) => format,
        Err(_) => {
            return Err(DecodeError::Unreadable);
        },
    };
    let read = match read_samples(bytes) {
        Ok(read) => read,
        Err(_) => {
            return Err(DecodeError::Unreadable);
        },
    };
    decode_stream(&format, &read, target_rate)
}

/// The mono amplitudes that the summary of an integer stream, as read, is
/// made of. Floating-point streams are refused here as in decoding.
pub open spec fn summary_source(format: StreamFormat, read: Seq<Option<i32>>) -> Result<
    Seq<i32>,
    DecodeError,
> {
    if format.kind == SampleKind::Float {
        Err(DecodeError::UnsupportedFormat)
    } else {
        mono_amplitudes(format, filled(read))
    }
}

/// Summarises an integer stream from its format and its samples as read.
pub fn summarize_stream(pad_id: usize, format: &StreamFormat, read: &Vec<Option<i32>>) -> (result:
    Result<WaveformSummary, DecodeError>)
    ensures
        match summary_source(*format, read@) {
            Ok(mono) => result.is_ok() && is_summary_of(result.unwrap(), pad_id, *format, mono),
            Err(e) => result.is_err() && result.unwrap_err() == e,
        },
{
    match format.kind {
        SampleKind::Float => Err(DecodeError::UnsupportedFormat),
        SampleKind::Int => summarize(pad_id, format, fill_gaps(read)),
    }
}

/// Summarises the bytes of a WAV stream for display on pad `pad_id`.
pub fn summarize_wav(pad_id: usize, bytes: &Vec<u8>) -> (result: Result<
    WaveformSummary,
    DecodeError,
>)
    ensures
        match wav_header(bytes@) {
            None => result.is_err() && result.unwrap_err() == DecodeError::Unreadable,
            Some(format) => match summary_source(format, wav_samples(bytes@)) {
                Ok(mono) => result.is_ok() && is_summary_of(result.unwrap(), pad_id, format, mono),
                Err(e) => result.is_err() && result.unwrap_err() == e,
            },
        },
{
    let format = match read_header(bytes) {
        Ok(format) => format,
        Err(_) => {
            return Err(DecodeError::Unreadable);
        },
    };
    let read = match read_samples(bytes) {
        Ok(read) => read,
        Err(_) => {
            return Err(DecodeError::Unreadable);
        },
    };
    summarize_stream(pad_id, &format, &read)
}

} // verus!
