//! CosyVoice pack layout and engine bookkeeping that do not need the model
//! runtime.

use vstd::prelude::*;
use crate::textops;
use crate::tts::wav::TtsWavResult;
use crate::tts::TtsError;

verus! {

/// The stage a synthesis job is in.
#[derive(Debug, Clone, Copy, PartialEq, Eq, Structural)]
pub enum TtsJobStage {
    Loading,
    Tokenizing,
    Llm,
    Flow,
    Vocoder,
    Encoding,
}

/// A synthesized WAV with the speech tokens it was made from and the size of
/// the language model's vocabulary (for debugging and alignment).
#[derive(Debug, Clone)]
pub struct TtsWavDebugResult {
    pub wav: TtsWavResult,
    pub speech_tokens: Vec<i64>,
    pub llm_logits_vocab_size: usize,
}

/// The files of a CosyVoice pack, relative to its directory.
#[derive(Debug, Clone, Default)]
pub struct PackFiles {
    pub tokenizer_json: String,
    pub spk2info_json: String,
    pub llm_prefill_onnx: String,
    pub llm_decode_onnx: String,
    pub flow_infer_onnx: String,
    pub hift_infer_onnx: String,
}

/// The input and output names of an ONNX model, in model order.
#[derive(Debug, Clone)]
pub struct PackOnnxIo {
    pub inputs: Vec<String>,
    pub outputs: Vec<String>,
}

/// Whether a tokenizer adds special tokens when the pack does not say.
pub fn default_tokenizer_add_special_tokens() -> (r: bool)
    ensures
        r,
{
    true
}

/// The text normalization a pack uses when it does not say.
pub fn default_text_normalize() -> (r: String)
    ensures
        r@ == "basic"@,
{
    "basic".to_owned()
}

/// The pack file names used when the pack does not name them:
/// `tokenizer.json`, `spk2info.json`, `llm_prefill.onnx`, `llm_decode.onnx`,
/// `flow_infer.onnx`, `hift_infer.onnx`.
pub fn default_pack_files() -> (r: PackFiles)
    ensures
        r.tokenizer_json@ == "tokenizer.json"@,
        r.spk2info_json@ == "spk2info.json"@,
        r.llm_prefill_onnx@ == "llm_prefill.onnx"@,
        r.llm_decode_onnx@ == "llm_decode.onnx"@,
        r.flow_infer_onnx@ == "flow_infer.onnx"@,
        r.hift_infer_onnx@ == "hift_infer.onnx"@,
{
    PackFiles {
        tokenizer_json: "tokenizer.json".to_owned(),
        spk2info_json: "spk2info.json".to_owned(),
        llm_prefill_onnx: "llm_prefill.onnx".to_owned(),
        llm_decode_onnx: "llm_decode.onnx".to_owned(),
        flow_infer_onnx: "flow_infer.onnx".to_owned(),
        hift_infer_onnx: "hift_infer.onnx".to_owned(),
    }
}

/// The configuration of the CosyVoice3 diffusion transformer.
#[derive(Debug, Clone)]
pub struct CosyVoice3DiTConfig {
    pub dim: usize,
    pub depth: usize,
    pub heads: usize,
    pub dim_head: usize,
    pub ff_mult: usize,
    pub mel_dim: usize,
    pub spk_dim: usize,
}

/// How CosyVoice3 uses the prompt.
#[derive(Debug, Clone, Copy, PartialEq, Eq, Structural)]
pub enum CosyVoice3Mode {
    /// The language model gets the prompt text and the prompt speech tokens.
    ZeroShot,
    /// The language model gets neither (the flow still uses the prompt features).
    CrossLingual,
    /// The language model gets the instruction text, without prompt speech tokens.
    Instruct,
}

/// A synthesized WAV with the speech tokens it was made from.
#[derive(Debug, Clone)]
pub struct CosyVoice3WavDebugResult {
    pub wav: TtsWavResult,
    pub speech_tokens: Vec<u32>,
}

/// `v` with `s` appended unless it is there already.
pub open spec fn push_new(v: Seq<Seq<char>>, s: Seq<char>) -> Seq<Seq<char>> {
    if v.contains(s) {
        v
    } else {
        v.push(s)
    }
}

/// The names a KV-cache output may have for a past input, in the order they
/// are tried, each once: the name itself, then `past_key_values` renamed to
/// `present` and to `present_key_values`, `past_` to `present_`, `past.` to
/// `present.`, and `past` to `present`.
pub open spec fn kv_output_candidates(p: Seq<char>) -> Seq<Seq<char>> {
    let c0 = seq![p];
    let c1 = push_new(c0, textops::replace_all(p, "past_key_values"@, "present"@));
    let c2 = push_new(c1, textops::replace_all(p, "past_key_values"@, "present_key_values"@));
    let c3 = push_new(c2, textops::replace_all(p, "past_"@, "present_"@));
    let c4 = push_new(c3, textops::replace_all(p, "past."@, "present."@));
    push_new(c4, textops::replace_all(p, "past"@, "present"@))
}

/// Appends `s` to `out` unless it is there already.
fn push_unique(out: &mut Vec<Vec<char>>, s: Vec<char>)
    ensures
        final(out)@.map_values(|x: Vec<char>| x@) == push_new(old(out)@.map_values(|x: Vec<char>| x@), s@),
{
    let ghost vs = out@.map_values(|x: Vec<char>| x@);
    let mut i: usize = 0;
    while i < out.len()
        invariant
            i <= out@.len(),
            vs == out@.map_values(|x: Vec<char>| x@),
            forall|j: int| 0 <= j < i ==> (#[trigger] out@[j])@ != s@,
        decreases out.len() - i,
    {
        if textops::eq_vec(&out[i], &s) {
            assert(vs[i as int] == s@);
            return;
        }
        i = i + 1;
    }
    assert(!vs.contains(s@)) by {
        if vs.contains(s@) {
            let k = choose|k: int| 0 <= k < vs.len() && vs[k] == s@;
            assert(out@[k]@ == s@);
        }
    }
    out.push(s);
    assert(out@.map_values(|x: Vec<char>| x@) =~= vs.push(s@));
}

/// `p` with every `from` replaced by `to` (both non-empty literals).
fn renamed(p: &Vec<char>, from: &str, to: &str) -> (r: Vec<char>)
    requires
        from@.len() > 0,
    ensures
        r@ == textops::replace_all(p@, from@, to@),
{
    textops::replace_vec(p, &textops::chars_of(from), &textops::chars_of(to))
}

/// The names a KV-cache output may have for a past input (see
/// `kv_output_candidates`).
pub fn ort_kv_output_candidates_from_past_input(past_in: &str) -> (r: Vec<String>)
    ensures
        r.deep_view() == kv_output_candidates(past_in@),
{
    proof {
        reveal_strlit("past_key_values");
        reveal_strlit("past_");
        reveal_strlit("past.");
        reveal_strlit("past");
    }
    let p = textops::chars_of(past_in);
    let mut out: Vec<Vec<char>> = Vec::new();
    out.push(textops::chars_of(past_in));
    assert(out@.map_values(|x: Vec<char>| x@) =~= seq![past_in@]);
    push_unique(&mut out, renamed(&p, "past_key_values", "present"));
    push_unique(&mut out, renamed(&p, "past_key_values", "present_key_values"));
    push_unique(&mut out, renamed(&p, "past_", "present_"));
    push_unique(&mut out, renamed(&p, "past.", "present."));
    push_unique(&mut out, renamed(&p, "past", "present"));
    let ghost vs = out@.map_values(|x: Vec<char>| x@);
    let mut r: Vec<String> = Vec::new();
    let mut i: usize = 0;
    while i < out.len()
        invariant
            i <= out@.len(),
            vs == out@.map_values(|x: Vec<char>| x@),
            r@.len() == i,
            forall|j: int| 0 <= j < i ==> (#[trigger] r@[j])@ == vs[j],
        decreases out.len() - i,
    {
        assert(vs[i as int] == out@[i as int]@);
        r.push(textops::string_of(out[i].as_slice()));
        i = i + 1;
    }
    assert(r.deep_view() =~= vs);
    r
}

/// The error a pack's `pack.json` values are refused with, checked in order:
/// a version other than 1, a zero sample rate, a zero speaker embedding size.
pub open spec fn pack_config_error(pack_version: u32, sample_rate: u32, spk_embed_dim: u32) -> Option<
    Seq<char>,
> {
    if pack_version != 1 {
        Some("unsupported packVersion="@ + textops::decimal(pack_version as nat) + " (expected 1)"@)
    } else if sample_rate == 0 {
        Some("sampleRate must be > 0"@)
    } else if spk_embed_dim == 0 {
        Some("spkEmbedDim must be > 0"@)
    } else {
        None
    }
}

/// Checks the values of a pack's `pack.json`: version 1, a nonzero sample
/// rate and a nonzero speaker embedding size.
pub fn validate_pack_config(pack_version: u32, sample_rate: u32, spk_embed_dim: u32) -> (r: Result<(), TtsError>)
    ensures
        match pack_config_error(pack_version, sample_rate, spk_embed_dim) {
            None => r is Ok,
            Some(m) => r matches Err(TtsError::InvalidArg(e)) && e@ == m,
        },
{
    if pack_version != 1 {
        let mut v = textops::chars_of("unsupported packVersion=");
        textops::push_decimal(&mut v, pack_version as u64);
        textops::push_all(&mut v, &textops::chars_of(" (expected 1)"));
        return Err(TtsError::InvalidArg(textops::string_of(v.as_slice())));
    }
    if sample_rate == 0 {
        return Err(TtsError::InvalidArg("sampleRate must be > 0".to_owned()));
    }
    if spk_embed_dim == 0 {
        return Err(TtsError::InvalidArg("spkEmbedDim must be > 0".to_owned()));
    }
    Ok(())
}

} // verus!
