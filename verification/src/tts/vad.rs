//! Voice activity segmentation.
//!
//! The energy detector decides, frame by frame, whether a frame holds speech
//! (an RMS threshold, computed where floating point is available); this module
//! turns those per-frame verdicts into speech segments.

use vstd::prelude::*;

verus! {

/// Errors of voice activity detection.
#[derive(Debug, Clone)]
pub enum VadError {
    InvalidArg(String),
    Backend(String),
}

impl VadError {
    /// The error's message.
    pub fn message(&self) -> (r: String)
        ensures
            r@ == match self {
                VadError::InvalidArg(m) => "invalid argument: "@ + m@,
                VadError::Backend(m) => "vad backend error: "@ + m@,
            },
    {
        let (head, m) = match self {
            VadError::InvalidArg(m) => ("invalid argument: ", m),
            VadError::Backend(m) => ("vad backend error: ", m),
        };
        let mut v = crate::textops::chars_of(head);
        crate::textops::push_all(&mut v, &crate::textops::chars_of(m.as_str()));
        crate::textops::string_of(v.as_slice())
    }
}

/// A run of speech, in samples: `start_sample..end_sample`.
#[derive(Debug, Clone, Copy)]
pub struct VadSegment {
    pub start_sample: usize,
    pub end_sample: usize,
}

/// The short-time energy detector.
#[derive(Debug, Default)]
pub struct EnergyVad;

/// The segmentation parameters, in samples and frames.
pub struct SegmentParams {
    /// Samples per frame (at least one).
    pub frame: u64,
    /// Samples of input.
    pub n_samples: u64,
    /// Shortest segment kept, in samples.
    pub min_speech: u64,
    /// Frames of silence that end a segment.
    pub silence_frames: u64,
}

/// The segment of frames `s..=e`, in samples, if it is long enough.
pub open spec fn emit(s: int, e: int, p: SegmentParams) -> Seq<VadSegment> {
    let start = s * p.frame;
    let end = if (e + 1) * p.frame < p.n_samples {
        (e + 1) * p.frame
    } else {
        p.n_samples as int
    };
    if end - start >= p.min_speech {
        seq![VadSegment { start_sample: start as usize, end_sample: end as usize }]
    } else {
        Seq::empty()
    }
}

/// The segments found from frame `i` on, with `open` the segment being grown:
/// its first and last speech frames and the silence frames seen since. A
/// segment grows over silences shorter than `silence_frames` and ends at the
/// last speech frame before a longer one, or at the end of the input.
pub open spec fn scan(speech: Seq<bool>, i: int, open: Option<(int, int, int)>, p: SegmentParams) -> Seq<
    VadSegment,
>
    decreases speech.len() - i,
{
    if i >= speech.len() || i < 0 {
        match open {
            None => Seq::empty(),
            Some((s, e, _)) => emit(s, e, p),
        }
    } else {
        match open {
            None => if speech[i] {
                scan(speech, i + 1, Some((i, i, 0)), p)
            } else {
                scan(speech, i + 1, None, p)
            },
            Some((s, e, run)) => if speech[i] {
                scan(speech, i + 1, Some((s, i, 0)), p)
            } else if run + 1 >= p.silence_frames {
                emit(s, e, p) + scan(speech, i + 1, None, p)
            } else {
                scan(speech, i + 1, Some((s, e, run + 1)), p)
            },
        }
    }
}

/// Samples per frame: `sample_rate * frame_ms / 1000`, at least one.
pub open spec fn frame_len_spec(sample_rate: u32, frame_ms: u32) -> int {
    let f = sample_rate as int * frame_ms as int / 1000;
    if f < 1 {
        1
    } else {
        f
    }
}

/// Samples per frame for a sample rate and a frame length in milliseconds.
pub fn frame_len(sample_rate: u32, frame_ms: u32) -> (r: u64)
    ensures
        r == frame_len_spec(sample_rate, frame_ms),
{
    assert(sample_rate as u64 * frame_ms as u64 <= 0xFFFF_FFFFu64 * 0xFFFF_FFFFu64) by (nonlinear_arith);
    let f = (sample_rate as u64) * (frame_ms as u64) / 1000;
    if f < 1 {
        1
    } else {
        f
    }
}

/// Number of frames covering `n` samples.
pub open spec fn frame_count(n: int, frame: int) -> int {
    (n + frame - 1) / frame
}

proof fn lemma_frame_bounds(s: int, e: int, f: int, n: int)
    requires
        f >= 1,
        0 <= s <= e,
        n >= 0,
        e < (n + f - 1) / f,
    ensures
        (e + 1) * f < n + f,
        (e + 1) * f == e * f + f,
        0 <= s * f <= e * f,
        e * f < n,
{
    assert((e + 1) * f <= ((n + f - 1) / f) * f) by (nonlinear_arith)
        requires
            e + 1 <= (n + f - 1) / f,
            f >= 1,
    ;
    assert(((n + f - 1) / f) * f <= n + f - 1) by (nonlinear_arith)
        requires
            f >= 1,
    ;
    assert(0 <= s * f <= e * f) by (nonlinear_arith)
        requires
            0 <= s <= e,
            f >= 1,
    ;
    assert((e + 1) * f == e * f + f) by (nonlinear_arith);
}

/// The segment of frames `s..=e`, if long enough, appended to `out`.
fn push_segment(out: &mut Vec<VadSegment>, s: u64, e: u64, p: &SegmentParams)
    requires
        p.frame >= 1,
        s <= e,
        e < frame_count(p.n_samples as int, p.frame as int),
        p.n_samples <= usize::MAX,
    ensures
        final(out)@ == old(out)@ + emit(s as int, e as int, *p),
{
    proof {
        lemma_frame_bounds(s as int, e as int, p.frame as int, p.n_samples as int);
    }
    let start: u64 = s * p.frame;
    let ef: u64 = e * p.frame;
    let end: u64 = if p.n_samples - ef > p.frame {
        ef + p.frame
    } else {
        p.n_samples
    };
    if end - start >= p.min_speech {
        out.push(VadSegment { start_sample: start as usize, end_sample: end as usize });
    }
    assert(out@ =~= old(out)@ + emit(s as int, e as int, *p));
}

/// The speech segments given the per-frame verdicts (see `scan`).
pub fn segments_from_frames(speech: &[bool], p: &SegmentParams) -> (r: Vec<VadSegment>)
    requires
        p.frame >= 1,
        p.n_samples <= usize::MAX,
        speech@.len() == frame_count(p.n_samples as int, p.frame as int),
    ensures
        r@ == scan(speech@, 0, None, *p),
{
    let n = speech.len();
    let mut out: Vec<VadSegment> = Vec::new();
    let mut open = false;
    let mut s: u64 = 0;
    let mut e: u64 = 0;
    let mut run: u64 = 0;
    let mut i: usize = 0;
    while i < n
        invariant
            i <= n,
            n == speech@.len(),
            p.frame >= 1,
            p.n_samples <= usize::MAX,
            n == frame_count(p.n_samples as int, p.frame as int),
            open ==> s <= e < i && run <= i,
            scan(speech@, 0, None, *p) == out@ + scan(
                speech@,
                i as int,
                if open {
                    Some((s as int, e as int, run as int))
                } else {
                    None
                },
                *p,
            ),
        decreases n - i,
    {
        if !open {
            if speech[i] {
                open = true;
                s = i as u64;
                e = i as u64;
                run = 0;
            }
        } else if speech[i] {
            e = i as u64;
            run = 0;
        } else if run + 1 >= p.silence_frames {
            push_segment(&mut out, s, e, p);
            open = false;
        } else {
            run = run + 1;
        }
        i = i + 1;
    }
    if open {
        push_segment(&mut out, s, e, p);
    }
    out
}

impl EnergyVad {
    /// Segments speech given which frames hold speech: validates the timing
    /// parameters, converts them to samples and frames, and merges the
    /// speech frames into segments.
    pub fn segments_from_frames(
        &self,
        speech: &[bool],
        n_samples: usize,
        sample_rate: u32,
        frame_ms: u32,
        min_speech_ms: u32,
        min_silence_ms: u32,
    ) -> (r: Result<Vec<VadSegment>, VadError>)
        requires
            sample_rate > 0 && frame_ms > 0 ==> speech@.len() == frame_count(
                n_samples as int,
                frame_len_spec(sample_rate, frame_ms),
            ),
        ensures
            sample_rate == 0 ==> r matches Err(VadError::InvalidArg(_)),
            sample_rate > 0 && frame_ms == 0 ==> r matches Err(VadError::InvalidArg(_)),
            sample_rate > 0 && frame_ms > 0 ==> (r matches Ok(v) && v@ == scan(
                speech@,
                0,
                None,
                vad_params(n_samples, sample_rate, frame_ms, min_speech_ms, min_silence_ms),
            )),
    {
        if sample_rate == 0 {
            return Err(VadError::InvalidArg("sample_rate must be > 0".to_owned()));
        }
        if frame_ms == 0 {
            return Err(VadError::InvalidArg("frame_ms must be > 0".to_owned()));
        }
        let p = make_params(n_samples, sample_rate, frame_ms, min_speech_ms, min_silence_ms);
        Ok(segments_from_frames(speech, &p))
    }
}

/// The segmentation parameters for a sample rate and timings in milliseconds:
/// frame length, minimum speech length in samples, and the silence that ends
/// a segment rounded up to whole frames.
pub open spec fn vad_params(
    n_samples: usize,
    sample_rate: u32,
    frame_ms: u32,
    min_speech_ms: u32,
    min_silence_ms: u32,
) -> SegmentParams {
    let frame = frame_len_spec(sample_rate, frame_ms);
    let min_silence = sample_rate as int * min_silence_ms as int / 1000;
    SegmentParams {
        frame: frame as u64,
        n_samples: n_samples as u64,
        min_speech: (sample_rate as int * min_speech_ms as int / 1000) as u64,
        silence_frames: ((min_silence + frame - 1) / frame) as u64,
    }
}

/// `vad_params` computed.
fn make_params(
    n_samples: usize,
    sample_rate: u32,
    frame_ms: u32,
    min_speech_ms: u32,
    min_silence_ms: u32,
) -> (p: SegmentParams)
    ensures
        p == vad_params(n_samples, sample_rate, frame_ms, min_speech_ms, min_silence_ms),
        p.frame == frame_len_spec(sample_rate, frame_ms),
        p.n_samples == n_samples,
        p.frame >= 1,
        p.n_samples <= usize::MAX,
{
    let frame = frame_len(sample_rate, frame_ms);
    assert(sample_rate as u64 * min_speech_ms as u64 <= 0xFFFF_FFFFu64 * 0xFFFF_FFFFu64) by (nonlinear_arith);
    assert(sample_rate as u64 * min_silence_ms as u64 <= 0xFFFF_FFFFu64 * 0xFFFF_FFFFu64) by (nonlinear_arith);
    let min_speech = (sample_rate as u64) * (min_speech_ms as u64) / 1000;
    let min_silence = (sample_rate as u64) * (min_silence_ms as u64) / 1000;
    assert(frame <= 0xFFFF_FFFFu64 * 0xFFFF_FFFFu64 / 1000 + 1) by (nonlinear_arith)
        requires
            frame == frame_len_spec(sample_rate, frame_ms),
    ;
    let silence_frames = (min_silence + frame - 1) / frame;
    SegmentParams { frame, n_samples: n_samples as u64, min_speech, silence_frames }
}

/// A segment lies within the input, is not empty, and is at least the
/// minimum speech length.
pub open spec fn segment_ok(seg: VadSegment, p: SegmentParams) -> bool {
    seg.start_sample < seg.end_sample <= p.n_samples && seg.end_sample - seg.start_sample
        >= p.min_speech
}

proof fn lemma_emit_ok(s: int, e: int, p: SegmentParams)
    requires
        p.frame >= 1,
        p.n_samples <= usize::MAX,
        0 <= s <= e < frame_count(p.n_samples as int, p.frame as int),
    ensures
        forall|k: int| 0 <= k < emit(s, e, p).len() ==> segment_ok(#[trigger] emit(s, e, p)[k], p),
{
    lemma_frame_bounds(s, e, p.frame as int, p.n_samples as int);
}

proof fn lemma_scan_ok(speech: Seq<bool>, i: int, open: Option<(int, int, int)>, p: SegmentParams)
    requires
        p.frame >= 1,
        p.n_samples <= usize::MAX,
        speech.len() == frame_count(p.n_samples as int, p.frame as int),
        0 <= i <= speech.len(),
        open matches Some((s, e, run)) ==> 0 <= s <= e < i,
    ensures
        forall|k: int|
            0 <= k < scan(speech, i, open, p).len() ==> segment_ok(
                #[trigger] scan(speech, i, open, p)[k],
                p,
            ),
    decreases speech.len() - i,
{
    let r = scan(speech, i, open, p);
    if i >= speech.len() {
        match open {
            None => {
                assert(r =~= Seq::<VadSegment>::empty());
            },
            Some((s, e, x)) => {
                assert(r == emit(s, e, p));
                lemma_emit_ok(s, e, p);
            },
        }
    } else {
        match open {
            None => {
                if speech[i] {
                    assert(r == scan(speech, i + 1, Some((i, i, 0)), p));
                    lemma_scan_ok(speech, i + 1, Some((i, i, 0)), p);
                } else {
                    assert(r == scan(speech, i + 1, None, p));
                    lemma_scan_ok(speech, i + 1, None, p);
                }
            },
            Some((s, e, run)) => {
                if speech[i] {
                    assert(r == scan(speech, i + 1, Some((s, i, 0)), p));
                    lemma_scan_ok(speech, i + 1, Some((s, i, 0)), p);
                } else if run + 1 >= p.silence_frames {
                    lemma_emit_ok(s, e, p);
                    lemma_scan_ok(speech, i + 1, None, p);
                    let a = emit(s, e, p);
                    let b = scan(speech, i + 1, None, p);
                    assert(r == a + b);
                    assert forall|k: int| 0 <= k < r.len() implies segment_ok(#[trigger] r[k], p) by {
                        if k >= a.len() {
                            assert(r[k] == b[k - a.len()]);
                        } else {
                            assert(r[k] == a[k]);
                        }
                    }
                } else {
                    assert(r == scan(speech, i + 1, Some((s, e, run + 1)), p));
                    lemma_scan_ok(speech, i + 1, Some((s, e, run + 1)), p);
                }
            },
        }
    }
}

/// Every speech segment lies within the input, is not empty, and lasts at
/// least the minimum speech length.
pub proof fn lemma_segments_ok(speech: Seq<bool>, p: SegmentParams)
    requires
        p.frame >= 1,
        p.n_samples <= usize::MAX,
        speech.len() == frame_count(p.n_samples as int, p.frame as int),
    ensures
        forall|k: int|
            0 <= k < scan(speech, 0, None, p).len() ==> segment_ok(#[trigger] scan(speech, 0, None, p)[k], p),
{
    lemma_scan_ok(speech, 0, None, p);
}

/// Where the segments found from frame `i` on can start at the earliest: the
/// first frame of the open segment, or frame `i`.
pub open spec fn scan_floor(i: int, open: Option<(int, int, int)>) -> int {
    match open {
        Some((s, _, _)) => s,
        None => i,
    }
}

/// The segments of frames `s..=e` start on a frame boundary no earlier than
/// frame `s` and end by frame `e + 1`.
proof fn lemma_emit_ordered(s: int, e: int, p: SegmentParams)
    requires
        p.frame >= 1,
        p.n_samples <= usize::MAX,
        0 <= s <= e < frame_count(p.n_samples as int, p.frame as int),
    ensures
        forall|k: int|
            0 <= k < emit(s, e, p).len() ==> {
                &&& (#[trigger] emit(s, e, p)[k]).start_sample as int % p.frame as int == 0
                &&& emit(s, e, p)[k].start_sample as int >= s * p.frame
                &&& emit(s, e, p)[k].end_sample as int <= (e + 1) * p.frame
            },
{
    lemma_frame_bounds(s, e, p.frame as int, p.n_samples as int);
    vstd::arithmetic::div_mod::lemma_mod_multiples_basic(s, p.frame as int);
}

proof fn lemma_scan_ordered(speech: Seq<bool>, i: int, open: Option<(int, int, int)>, p: SegmentParams)
    requires
        p.frame >= 1,
        p.n_samples <= usize::MAX,
        speech.len() == frame_count(p.n_samples as int, p.frame as int),
        0 <= i <= speech.len(),
        open matches Some((s, e, run)) ==> 0 <= s <= e < i,
    ensures
        forall|k: int|
            0 <= k < scan(speech, i, open, p).len() ==> {
                &&& (#[trigger] scan(speech, i, open, p)[k]).start_sample as int % p.frame as int == 0
                &&& scan(speech, i, open, p)[k].start_sample as int >= scan_floor(i, open) * p.frame
            },
        forall|k: int, l: int|
            0 <= k < l < scan(speech, i, open, p).len() ==> (#[trigger] scan(speech, i, open, p)[k]).end_sample
                <= (#[trigger] scan(speech, i, open, p)[l]).start_sample,
    decreases speech.len() - i,
{
    let r = scan(speech, i, open, p);
    let f = p.frame as int;
    assert(i * f <= (i + 1) * f) by (nonlinear_arith)
        requires
            f >= 1,
    ;
    if i >= speech.len() {
        match open {
            None => {
                assert(r =~= Seq::<VadSegment>::empty());
            },
            Some((s, e, x)) => {
                assert(r == emit(s, e, p));
                lemma_emit_ordered(s, e, p);
            },
        }
    } else {
        match open {
            None => {
                if speech[i] {
                    assert(r == scan(speech, i + 1, Some((i, i, 0)), p));
                    lemma_scan_ordered(speech, i + 1, Some((i, i, 0)), p);
                } else {
                    assert(r == scan(speech, i + 1, None, p));
                    lemma_scan_ordered(speech, i + 1, None, p);
                }
            },
            Some((s, e, run)) => {
                assert(s * f <= i * f) by (nonlinear_arith)
                    requires
                        f >= 1,
                        s <= i,
                ;
                assert((e + 1) * f <= (i + 1) * f) by (nonlinear_arith)
                    requires
                        f >= 1,
                        e < i,
                ;
                if speech[i] {
                    assert(r == scan(speech, i + 1, Some((s, i, 0)), p));
                    lemma_scan_ordered(speech, i + 1, Some((s, i, 0)), p);
                } else if run + 1 >= p.silence_frames {
                    lemma_emit_ordered(s, e, p);
                    lemma_scan_ordered(speech, i + 1, None, p);
                    let a = emit(s, e, p);
                    let b = scan(speech, i + 1, None, p);
                    assert(r == a + b);
                    assert forall|k: int| 0 <= k < r.len() implies {
                        &&& (#[trigger] r[k]).start_sample as int % f == 0
                        &&& r[k].start_sample as int >= s * f
                    } by {
                        if k >= a.len() {
                            assert(r[k] == b[k - a.len()]);
                        } else {
                            assert(r[k] == a[k]);
                        }
                    }
                    assert forall|k: int, l: int| 0 <= k < l < r.len() implies (#[trigger] r[k]).end_sample
                        <= (#[trigger] r[l]).start_sample by {
                        if k >= a.len() {
                            assert(r[k] == b[k - a.len()] && r[l] == b[l - a.len()]);
                        } else if l >= a.len() {
                            assert(r[k] == a[k] && r[l] == b[l - a.len()]);
                        } else {
                            assert(a.len() <= 1);
                        }
                    }
                } else {
                    assert(r == scan(speech, i + 1, Some((s, e, run + 1)), p));
                    lemma_scan_ordered(speech, i + 1, Some((s, e, run + 1)), p);
                }
            },
        }
    }
}

/// The speech segments start on frame boundaries and come in order, each
/// ending no later than the next one starts.
pub proof fn lemma_segments_ordered(speech: Seq<bool>, p: SegmentParams)
    requires
        p.frame >= 1,
        p.n_samples <= usize::MAX,
        speech.len() == frame_count(p.n_samples as int, p.frame as int),
    ensures
        forall|k: int|
            0 <= k < scan(speech, 0, None, p).len() ==> (#[trigger] scan(speech, 0, None, p)[k]).start_sample
                as int % p.frame as int == 0,
        forall|k: int, l: int|
            0 <= k < l < scan(speech, 0, None, p).len() ==> (#[trigger] scan(speech, 0, None, p)[k]).end_sample
                <= (#[trigger] scan(speech, 0, None, p)[l]).start_sample,
{
    lemma_scan_ordered(speech, 0, None, p);
}

/// No speech frame from `i` on: nothing more is found.
proof fn lemma_scan_silent_tail(speech: Seq<bool>, i: int, p: SegmentParams)
    requires
        0 <= i <= speech.len(),
        forall|m: int| i <= m < speech.len() ==> !speech[m],
    ensures
        scan(speech, i, None, p) == Seq::<VadSegment>::empty(),
    decreases speech.len() - i,
{
    if i < speech.len() {
        lemma_scan_silent_tail(speech, i + 1, p);
    }
}

/// Frames `j..=k` are all silent.
pub open spec fn all_silent(speech: Seq<bool>, j: int, k: int) -> bool {
    forall|m: int| j <= m <= k ==> !speech[m]
}

/// Every run of silent frames within `a..=b` is shorter than `limit`.
pub open spec fn no_long_silence(speech: Seq<bool>, a: int, b: int, limit: int) -> bool {
    forall|j: int, k: int| a <= j <= k <= b && #[trigger] all_silent(speech, j, k) ==> k - j + 1 < limit
}

/// With a segment open from frame `s`, its last speech frame `e` and the
/// silent frames since counted, the segment grows to the last speech frame
/// `b` when no silence on the way is long enough to end it.
proof fn lemma_scan_grows(speech: Seq<bool>, i: int, s: int, e: int, run: int, b: int, p: SegmentParams)
    requires
        0 <= s <= e < i <= speech.len(),
        speech[e],
        forall|m: int| e < m < i ==> !speech[m],
        run == i - 1 - e,
        e <= b < speech.len(),
        speech[b],
        forall|m: int| b < m < speech.len() ==> !speech[m],
        no_long_silence(speech, e, b, p.silence_frames as int),
    ensures
        scan(speech, i, Some((s, e, run)), p) == emit(s, b, p),
    decreases speech.len() - i,
{
    if i >= speech.len() {
        if b > e {
            assert(!speech[b]);
        }
    } else if speech[i] {
        assert(i <= b);
        assert(no_long_silence(speech, i, b, p.silence_frames as int));
        lemma_scan_grows(speech, i + 1, s, i, 0, b, p);
    } else if run + 1 >= p.silence_frames {
        if b > e {
            assert(b > i) by {
                if b <= i {
                    assert(!speech[b]);
                }
            }
            assert(all_silent(speech, e + 1, i));
            assert(i - (e + 1) + 1 < p.silence_frames);
        }
        assert(b == e);
        lemma_scan_silent_tail(speech, i + 1, p);
        assert(emit(s, e, p) + Seq::<VadSegment>::empty() =~= emit(s, e, p));
    } else {
        lemma_scan_grows(speech, i + 1, s, e, run + 1, b, p);
    }
}

/// Silent frames before the first speech frame `a` open nothing.
proof fn lemma_scan_lead(speech: Seq<bool>, j: int, a: int, p: SegmentParams)
    requires
        0 <= j <= a < speech.len(),
        speech[a],
        forall|m: int| j <= m < a ==> !speech[m],
    ensures
        scan(speech, j, None, p) == scan(speech, a + 1, Some((a, a, 0)), p),
    decreases a - j,
{
    if j < a {
        lemma_scan_lead(speech, j + 1, a, p);
    }
}

/// Speech is cut into separate segments only by silence: when every pause
/// between the first speech frame `a` and the last one `b` is shorter than
/// the silence that ends a segment (the silence counted afresh after each
/// speech frame), the speech gives exactly one segment, from the start of
/// frame `a` to the end of frame `b` (or of the input), if it is long enough,
/// and none otherwise.
pub proof fn lemma_short_pauses_one_segment(speech: Seq<bool>, p: SegmentParams, a: int, b: int)
    requires
        p.frame >= 1,
        p.n_samples <= usize::MAX,
        speech.len() == frame_count(p.n_samples as int, p.frame as int),
        0 <= a <= b < speech.len(),
        speech[a],
        speech[b],
        forall|m: int| 0 <= m < a ==> !speech[m],
        forall|m: int| b < m < speech.len() ==> !speech[m],
        forall|j: int, k: int|
            a <= j <= k <= b && #[trigger] all_silent(speech, j, k) ==> k - j + 1 < p.silence_frames,
    ensures
        ({
            let r = scan(speech, 0, None, p);
            let start = a * p.frame;
            let end = if (b + 1) * p.frame < p.n_samples {
                (b + 1) * p.frame
            } else {
                p.n_samples as int
            };
            &&& end - start >= p.min_speech ==> r.len() == 1 && r[0].start_sample as int == start
                && r[0].end_sample as int == end
            &&& end - start < p.min_speech ==> r.len() == 0
        }),
{
    lemma_scan_lead(speech, 0, a, p);
    assert(no_long_silence(speech, a, b, p.silence_frames as int));
    lemma_scan_grows(speech, a + 1, a, a, 0, b, p);
    lemma_frame_bounds(a, b, p.frame as int, p.n_samples as int);
}

} // verus!
