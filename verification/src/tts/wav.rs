//! WAV bookkeeping: durations, header metadata and PCM16 encoding.

use vstd::prelude::*;
use crate::tts::TtsError;

verus! {

/// Synthesized audio as PCM16 samples.
#[derive(Debug, Clone)]
pub struct TtsPcm16Result {
    pub sample_rate: u32,
    pub channels: u16,
    pub pcm16: Vec<i16>,
    pub duration_ms: u64,
}

/// Synthesized audio as WAV bytes.
#[derive(Debug, Clone)]
pub struct TtsWavResult {
    pub sample_rate: u32,
    pub channels: u16,
    pub wav_bytes: Vec<u8>,
    pub duration_ms: u64,
}

/// The length in milliseconds of `samples` samples at `sample_rate`, rounded
/// down and cut to 64 bits; 0 for a zero sample rate.
pub open spec fn duration_ms_spec(sample_rate: u32, samples: usize) -> u64 {
    if sample_rate == 0 {
        0
    } else {
        (samples as int * 1000 / sample_rate as int) as u64
    }
}

/// The length in milliseconds of `samples` samples at `sample_rate`.
pub fn duration_ms(sample_rate: u32, samples: usize) -> (r: u64)
    ensures
        r == duration_ms_spec(sample_rate, samples),
{
    if sample_rate == 0 {
        return 0;
    }
    assert(samples as u128 * 1000 <= 0xFFFF_FFFF_FFFF_FFFFu128 * 1000) by (nonlinear_arith);
    let ms: u128 = (samples as u128) * 1000u128 / (sample_rate as u128);
    ms as u64
}

/// Basic facts of a WAV file.
#[derive(Debug, Clone, Copy)]
pub struct WavMeta {
    pub sample_rate: u32,
    pub channels: u16,
    /// Samples per channel (frames).
    pub samples: u32,
}

/// What `hound` reads from a WAV header: sample rate, channels, the number of
/// samples of all channels, bits per sample, and whether the samples are
/// floats; `None` where it refuses the bytes.
pub uninterp spec fn wav_header_of(bytes: Seq<u8>) -> Option<(u32, u16, u32, u16, bool)>;

/// Reads a WAV header with `hound::WavReader::new` and returns its sample rate,
/// channel count, `len()` (samples of all channels), bits per sample and
/// whether the sample format is `Float`; a refusal is turned into an I/O
/// error. `hound` refuses a header with zero channels.
#[verifier::external_body]
fn read_wav_header(bytes: &[u8]) -> (r: Result<(u32, u16, u32, u16, bool), std::io::Error>)
    ensures
        r is Ok <==> wav_header_of(bytes@) is Some,
        r matches Ok(h) ==> wav_header_of(bytes@) == Some(h) && h.1 > 0,
{
    match hound::WavReader::new(std::io::Cursor::new(bytes)) {
        Ok(reader) => {
            let spec = reader.spec();
            let float = match spec.sample_format {
                hound::SampleFormat::Float => true,
                hound::SampleFormat::Int => false,
            };
            Ok((spec.sample_rate, spec.channels, reader.len(), spec.bits_per_sample, float))
        },
        Err(e) => Err(std::io::Error::other(e)),
    }
}

/// The sample rate, channels and samples per channel of WAV bytes, where
/// `hound` reads their header.
pub open spec fn wav_meta_of(b: Seq<u8>) -> Option<(u32, u16, u32)> {
    match wav_header_of(b) {
        Some((rate, ch, total, _, _)) => Some((rate, ch, (total / (ch as u32)) as u32)),
        None => None,
    }
}

/// The metadata of WAV bytes: sample rate, channels, and samples per channel.
pub fn read_wav_meta_from_bytes(wav_bytes: &[u8]) -> (r: Result<WavMeta, TtsError>)
    ensures
        match wav_meta_of(wav_bytes@) {
            None => r matches Err(TtsError::Io(_)),
            Some((rate, ch, n)) => r matches Ok(m) && m.sample_rate == rate && m.channels == ch
                && m.samples == n,
        },
{
    match read_wav_header(wav_bytes) {
        Err(e) => Err(TtsError::Io(e)),
        Ok((sample_rate, channels, total, _, _)) => {
            Ok(WavMeta { sample_rate, channels, samples: total / (channels as u32) })
        },
    }
}

/// The samples `hound` reads from WAV bytes as 16-bit integers
/// (`samples::<i16>()`, all of them); `None` where the header or a sample is
/// refused.
pub uninterp spec fn wav_int16_samples(bytes: Seq<u8>) -> Option<Seq<i16>>;

/// The samples `hound` reads from WAV bytes as 32-bit integers
/// (`samples::<i32>()`, all of them); `None` where the header or a sample is
/// refused.
pub uninterp spec fn wav_int32_samples(bytes: Seq<u8>) -> Option<Seq<i32>>;

/// Opens WAV bytes with `hound::WavReader::new` and collects
/// `samples::<i16>()`; the first refusal is turned into an I/O error.
#[verifier::external_body]
fn read_wav_samples_i16(bytes: &[u8]) -> (r: Result<Vec<i16>, std::io::Error>)
    ensures
        r is Ok <==> wav_int16_samples(bytes@) is Some,
        r matches Ok(v) ==> wav_int16_samples(bytes@) == Some(v@),
{
    let mut reader = hound::WavReader::new(std::io::Cursor::new(bytes)).map_err(std::io::Error::other)?;
    reader.samples::<i16>().map(|x| x.map_err(std::io::Error::other)).collect()
}

/// Opens WAV bytes with `hound::WavReader::new` and collects
/// `samples::<i32>()`; the first refusal is turned into an I/O error.
#[verifier::external_body]
fn read_wav_samples_i32(bytes: &[u8]) -> (r: Result<Vec<i32>, std::io::Error>)
    ensures
        r is Ok <==> wav_int32_samples(bytes@) is Some,
        r matches Ok(v) ==> wav_int32_samples(bytes@) == Some(v@),
{
    let mut reader = hound::WavReader::new(std::io::Cursor::new(bytes)).map_err(std::io::Error::other)?;
    reader.samples::<i32>().map(|x| x.map_err(std::io::Error::other)).collect()
}

/// A 32-bit sample brought to 16 bits: divided by 65536, rounding toward zero.
pub open spec fn sample_i32_to_i16(v: i32) -> i16 {
    (if v >= 0 {
        v as int / 65536
    } else {
        -((-(v as int)) / 65536)
    }) as i16
}

/// `sample_i32_to_i16`.
pub fn sample_i32_to_i16_exec(v: i32) -> (r: i16)
    ensures
        r == sample_i32_to_i16(v),
        r as int == (if v >= 0 {
            v as int / 65536
        } else {
            -((-(v as int)) / 65536)
        }),
{
    if v >= 0 {
        let q: u32 = (v as u32) / 65536;
        assert(q <= 32767);
        q as i16
    } else {
        let m: u32 = (-(v as i64)) as u32;
        let q: u32 = m / 65536;
        assert(q <= 32768);
        let n: i32 = -(q as i32);
        n as i16
    }
}

/// The samples of a 32-bit integer WAV brought to 16 bits.
pub fn samples_i32_to_i16(x: &[i32]) -> (r: Vec<i16>)
    ensures
        r@ == x@.map_values(|v: i32| sample_i32_to_i16(v)),
{
    let mut out: Vec<i16> = Vec::new();
    let mut i: usize = 0;
    while i < x.len()
        invariant
            i <= x@.len(),
            out@ == x@.take(i as int).map_values(|v: i32| sample_i32_to_i16(v)),
        decreases x@.len() - i,
    {
        let s = sample_i32_to_i16_exec(x[i]);
        out.push(s);
        assert(x@.take(i + 1) =~= x@.take(i as int).push(x@[i as int]));
        assert(out@ =~= x@.take(i + 1).map_values(|v: i32| sample_i32_to_i16(v)));
        i = i + 1;
    }
    assert(x@.take(x@.len() as int) =~= x@);
    out
}

/// What decoding mono WAV bytes gives: PCM16, or the sample rate of a file of
/// 32-bit float samples, whose conversion is left to the caller.
#[derive(Debug, Clone)]
pub enum WavPcm16Decode {
    Pcm16(TtsPcm16Result),
    Float32 { sample_rate: u32 },
}

/// The mono PCM16 of WAV samples read at `rate`.
pub open spec fn pcm16_of(rate: u32, s: Seq<i16>, p: TtsPcm16Result) -> bool {
    &&& p.sample_rate == rate
    &&& p.channels == 1
    &&& p.pcm16@ == s
    &&& p.duration_ms == duration_ms_spec(rate, s.len() as usize)
}

/// The rate and PCM16 samples that decoding WAV bytes gives, where it gives
/// PCM16: a mono header with a nonzero rate, and 16-bit or 32-bit integer
/// samples that all read.
pub open spec fn wav_pcm16_decoded(b: Seq<u8>) -> Option<(u32, Seq<i16>)> {
    match wav_header_of(b) {
        Some((rate, ch, _, bits, float)) => if ch == 1 && rate != 0 && !float && bits == 16 {
            match wav_int16_samples(b) {
                Some(s) => Some((rate, s)),
                None => None,
            }
        } else if ch == 1 && rate != 0 && !float && bits == 32 {
            match wav_int32_samples(b) {
                Some(s) => Some((rate, s.map_values(|v: i32| sample_i32_to_i16(v)))),
                None => None,
            }
        } else {
            None
        },
        None => None,
    }
}

/// Decodes mono WAV bytes of 16-bit or 32-bit integer samples to PCM16 (32-bit
/// samples divided by 65536); 32-bit float samples are reported with their
/// sample rate. Other channel counts, a zero sample rate and other sample
/// formats are refused.
pub fn decode_wav_bytes_to_pcm16_mono(wav_bytes: &[u8]) -> (r: Result<WavPcm16Decode, TtsError>)
    ensures
        match wav_header_of(wav_bytes@) {
            None => r matches Err(TtsError::Io(_)),
            Some((rate, ch, _, bits, float)) => if ch != 1 {
                r matches Err(TtsError::NotImplemented(_))
            } else if rate == 0 {
                r matches Err(TtsError::InvalidArg(_))
            } else if !float && bits == 16 {
                match wav_int16_samples(wav_bytes@) {
                    None => r matches Err(TtsError::Io(_)),
                    Some(s) => r matches Ok(WavPcm16Decode::Pcm16(p)) && pcm16_of(rate, s, p),
                }
            } else if !float && bits == 32 {
                match wav_int32_samples(wav_bytes@) {
                    None => r matches Err(TtsError::Io(_)),
                    Some(s) => r matches Ok(WavPcm16Decode::Pcm16(p)) && pcm16_of(
                        rate,
                        s.map_values(|v: i32| sample_i32_to_i16(v)),
                        p,
                    ),
                }
            } else if float && bits == 32 {
                r matches Ok(WavPcm16Decode::Float32 { sample_rate }) && sample_rate == rate
            } else {
                r matches Err(TtsError::NotImplemented(_))
            },
        },
        match wav_pcm16_decoded(wav_bytes@) {
            Some((rate, s)) => r matches Ok(WavPcm16Decode::Pcm16(p)) && pcm16_of(rate, s, p),
            None => !(r matches Ok(WavPcm16Decode::Pcm16(_))),
        },
{
    let (sample_rate, channels, _, bits, float) = match read_wav_header(wav_bytes) {
        Err(e) => {
            return Err(TtsError::Io(e));
        },
        Ok(h) => h,
    };
    if channels != 1 {
        return Err(TtsError::NotImplemented("only mono wav is supported"));
    }
    if sample_rate == 0 {
        return Err(TtsError::InvalidArg("wav sample_rate must be > 0".to_owned()));
    }
    let pcm16: Vec<i16> = if !float && bits == 16 {
        match read_wav_samples_i16(wav_bytes) {
            Err(e) => {
                return Err(TtsError::Io(e));
            },
            Ok(v) => v,
        }
    } else if !float && bits == 32 {
        match read_wav_samples_i32(wav_bytes) {
            Err(e) => {
                return Err(TtsError::Io(e));
            },
            Ok(v) => samples_i32_to_i16(v.as_slice()),
        }
    } else if float && bits == 32 {
        return Ok(WavPcm16Decode::Float32 { sample_rate });
    } else {
        return Err(TtsError::NotImplemented("unsupported wav sample format (expected int16/int32/float32)"));
    };
    let duration_ms = duration_ms(sample_rate, pcm16.len());
    Ok(WavPcm16Decode::Pcm16(TtsPcm16Result { sample_rate, channels: 1, pcm16, duration_ms }))
}

/// The bytes `hound` writes for a mono 16-bit integer WAV with these samples.
pub uninterp spec fn wav_pcm16_mono_bytes(sample_rate: u32, pcm: Seq<i16>) -> Seq<u8>;

/// What `hound` can write as a mono 16-bit WAV without its 32-bit counters
/// overflowing: the byte rate (twice the sample rate) and the file size (44
/// header bytes and two bytes per sample, less the first 8) fit in `u32`.
pub open spec fn wav_pcm16_mono_fits(sample_rate: u32, samples: int) -> bool {
    sample_rate <= 0x7FFF_FFFF && samples * 2 + 36 <= 0xFFFF_FFFF
}

/// Writes mono 16-bit samples as WAV with `hound::WavWriter` into memory.
/// With a nonzero rate (hound divides by it while writing the header) and
/// sizes that fit its counters, writing into a `Cursor<Vec<u8>>` does not
/// fail. What is written reads back with `hound::WavReader` as a mono 16-bit
/// integer WAV of the same rate and samples.
#[verifier::external_body]
fn write_wav_pcm16_mono(sample_rate: u32, pcm: &[i16]) -> (r: Result<Vec<u8>, std::io::Error>)
    requires
        sample_rate > 0,
        wav_pcm16_mono_fits(sample_rate, pcm@.len() as int),
    ensures
        r is Ok,
        r matches Ok(b) ==> b@ == wav_pcm16_mono_bytes(sample_rate, pcm@) && wav_header_of(b@) == Some(
            (sample_rate, 1u16, pcm@.len() as u32, 16u16, false),
        ) && wav_int16_samples(b@) == Some(pcm@),
{
    let spec = hound::WavSpec {
        channels: 1,
        sample_rate,
        bits_per_sample: 16,
        sample_format: hound::SampleFormat::Int,
    };
    let mut buf = std::io::Cursor::new(Vec::<u8>::new());
    let mut w = hound::WavWriter::new(&mut buf, spec).map_err(std::io::Error::other)?;
    for &s in pcm {
        w.write_sample(s).map_err(std::io::Error::other)?;
    }
    w.finalize().map_err(std::io::Error::other)?;
    Ok(buf.into_inner())
}

/// Encodes mono PCM16 samples as a WAV file; a zero sample rate is refused,
/// any other succeeds. The bytes decode back to the same rate and samples.
pub fn encode_wav_pcm16_mono(sample_rate: u32, pcm: &[i16]) -> (r: Result<Vec<u8>, TtsError>)
    requires
        wav_pcm16_mono_fits(sample_rate, pcm@.len() as int),
    ensures
        sample_rate == 0 ==> r matches Err(TtsError::InvalidArg(_)),
        sample_rate > 0 ==> (r matches Ok(b) && b@ == wav_pcm16_mono_bytes(sample_rate, pcm@)),
        r matches Ok(b) ==> wav_header_of(b@) == Some(
            (sample_rate, 1u16, pcm@.len() as u32, 16u16, false),
        ) && wav_int16_samples(b@) == Some(pcm@),
{
    if sample_rate == 0 {
        return Err(TtsError::InvalidArg("sample_rate must be > 0".to_owned()));
    }
    match write_wav_pcm16_mono(sample_rate, pcm) {
        Ok(b) => Ok(b),
        Err(e) => Err(TtsError::Io(e)),
    }
}

/// What encoding writes, decoding reads back: WAV bytes as `encode_wav_pcm16_mono`
/// describes them decode to PCM16 of the same rate and samples, and their
/// metadata gives that rate, one channel and the number of samples.
pub proof fn lemma_wav_roundtrip(sample_rate: u32, pcm: Seq<i16>, b: Seq<u8>)
    requires
        sample_rate > 0,
        wav_pcm16_mono_fits(sample_rate, pcm.len() as int),
        wav_header_of(b) == Some((sample_rate, 1u16, pcm.len() as u32, 16u16, false)),
        wav_int16_samples(b) == Some(pcm),
    ensures
        wav_pcm16_decoded(b) == Some((sample_rate, pcm)),
        wav_meta_of(b) == Some((sample_rate, 1u16, pcm.len() as u32)),
{
    let n = pcm.len() as u32;
    assert(n / (1u16 as u32) == n);
}

/// Where the output starts once a prefix of `drop` samples (the prompt's
/// share) is cut from `len` samples.
pub fn prompt_trim_start(len: usize, drop: usize) -> (r: usize)
    ensures
        r == (if drop < len {
            drop
        } else {
            len
        }),
{
    if drop < len {
        drop
    } else {
        len
    }
}

/// The samples kept around the speech found in `start..end` (of `len`
/// samples): from `pad` samples before the first segment's start to `pad`
/// samples after the last segment's end, both relative to `start` and kept
/// within the range.
pub open spec fn vad_window_spec(
    start: int,
    end: int,
    len: int,
    first_start: int,
    last_end: int,
    pad: int,
) -> (int, int) {
    let n = end - start;
    let s = if first_start - pad < 0 {
        0
    } else {
        first_start - pad
    };
    let e = if last_end + pad < n {
        last_end + pad
    } else {
        n
    };
    let start2 = start + if s < n {
        s
    } else {
        n
    };
    let span = if e > s {
        e - s
    } else {
        0
    };
    let room = if len > start2 {
        len - start2
    } else {
        0
    };
    (start2, start2 + if span < room {
        span
    } else {
        room
    })
}

/// The window of output kept around the speech found in `start..end`.
pub fn vad_trim_window(start: usize, end: usize, len: usize, first_start: usize, last_end: usize, pad: u64) -> (r: (
    usize,
    usize,
))
    requires
        start < end <= len,
        last_end + pad <= usize::MAX,
    ensures
        (r.0 as int, r.1 as int) == vad_window_spec(
            start as int,
            end as int,
            len as int,
            first_start as int,
            last_end as int,
            pad as int,
        ),
        r.1 <= len,
{
    let n = end - start;
    let s: usize = if (first_start as u64) < pad {
        0
    } else {
        first_start - (pad as usize)
    };
    let e: usize = if ((last_end as u64) + pad) < (n as u64) {
        last_end + (pad as usize)
    } else {
        n
    };
    let start2 = start + if s < n {
        s
    } else {
        n
    };
    let span = if e > s {
        e - s
    } else {
        0
    };
    let room = if len > start2 {
        len - start2
    } else {
        0
    };
    (start2, start2 + if span < room {
        span
    } else {
        room
    })
}

/// The samples `start..end`, or none when the window is empty.
pub fn window_samples(pcm: &[i16], start: usize, end: usize) -> (r: Vec<i16>)
    requires
        end <= pcm@.len(),
    ensures
        start >= end ==> r@.len() == 0,
        start < end ==> r@ == pcm@.subrange(start as int, end as int),
{
    let mut out: Vec<i16> = Vec::new();
    if start >= end {
        return out;
    }
    let mut i = start;
    while i < end
        invariant
            start <= i <= end <= pcm@.len(),
            out@ == pcm@.subrange(start as int, i as int),
        decreases end - i,
    {
        out.push(pcm[i]);
        i = i + 1;
    }
    out
}

} // verus!
