use chaos_core::tts::cosyvoice::{
    default_pack_files, default_text_normalize, default_tokenizer_add_special_tokens,
    ort_kv_output_candidates_from_past_input, TtsJobStage,
};
use chaos_core::tts::text::{resolve_tts_text_basic, PromptStrategy, END_OF_PROMPT};
use chaos_core::tts::vad::{frame_len, EnergyVad, VadError};
use chaos_core::tts::wav::{
    decode_wav_bytes_to_pcm16_mono, duration_ms, encode_wav_pcm16_mono, read_wav_meta_from_bytes, WavPcm16Decode,
};
use chaos_core::tts::TtsError;

#[test]
fn inject_appends_endofprompt_when_missing() {
    let r = resolve_tts_text_basic("你好", "我是提示", PromptStrategy::Inject, "。 ", false).unwrap();
    assert_eq!(r.spoken_text, "你好");
    assert!(r.prompt_inject_text.ends_with(END_OF_PROMPT));
    assert!(r.prompt_inject_text.contains("我是提示"));
}

#[test]
fn empty_prompt_requires_marker_in_spoken_text() {
    let err = resolve_tts_text_basic("你好", "", PromptStrategy::Inject, " ", false).unwrap_err();
    assert!(matches!(err, TtsError::InvalidArg(_)));
}

#[test]
fn guide_prefix_prepends_guide_and_injects_marker_only() {
    let r = resolve_tts_text_basic(
        "看到码头就发马头",
        "我在抖音上老刷那种...<|endofprompt|>",
        PromptStrategy::GuidePrefix,
        "。 ",
        false,
    )
    .unwrap();
    assert!(r.spoken_text.starts_with("我在抖音上老刷那种..."));
    assert!(r.spoken_text.contains("。 "));
    assert_eq!(r.prompt_inject_text, END_OF_PROMPT);
}

#[test]
fn basic_normalize_keeps_marker_and_adds_chinese_period() {
    let r = resolve_tts_text_basic("你好", "<|endofprompt|>", PromptStrategy::Inject, " ", true).unwrap();
    assert_eq!(r.spoken_text, "你好。");
    assert_eq!(r.prompt_inject_text, END_OF_PROMPT);
}

#[test]
fn blank_text_is_refused() {
    match resolve_tts_text_basic("   ", "x<|endofprompt|>", PromptStrategy::Inject, " ", false) {
        Err(TtsError::InvalidArg(m)) => assert_eq!(m, "text is empty"),
        _ => panic!("expected InvalidArg"),
    }
}

#[test]
fn marker_in_spoken_text_is_enough() {
    let r = resolve_tts_text_basic("hi<|endofprompt|>", "", PromptStrategy::Inject, " ", false).unwrap();
    assert_eq!(r.spoken_text, "hi<|endofprompt|>");
    assert_eq!(r.prompt_inject_text, "");
}

#[test]
fn frontend_normalizes_punctuation_and_asides() {
    let r = resolve_tts_text_basic(
        "a  b\nc - d. (aside)【x】e",
        "",
        PromptStrategy::GuidePrefix,
        "|",
        true,
    )
    .unwrap();
    assert_eq!(r.spoken_text, "a bc，d。 e");
    assert_eq!(r.prompt_inject_text, END_OF_PROMPT);
}

#[test]
fn prompt_strategy_names() {
    assert_eq!(PromptStrategy::Inject.as_str(), "inject");
    assert_eq!(PromptStrategy::GuidePrefix.as_str(), "guide_prefix");
}

#[test]
fn duration_is_rounded_down_and_zero_rate_is_zero() {
    assert_eq!(duration_ms(24_000, 24_000), 1000);
    assert_eq!(duration_ms(24_000, 12_001), 500);
    assert_eq!(duration_ms(0, 12_000), 0);
}

#[test]
fn wav_roundtrip_is_readable() {
    let pcm = [0i16, 1000, -1000, 0, 32767, -32768];
    let bytes = encode_wav_pcm16_mono(24000, &pcm).unwrap();
    let mut reader = hound::WavReader::new(std::io::Cursor::new(bytes.clone())).unwrap();
    let spec = reader.spec();
    assert_eq!(spec.channels, 1);
    assert_eq!(spec.sample_rate, 24000);
    let decoded: Vec<i16> = reader.samples::<i16>().map(|x| x.unwrap()).collect();
    assert_eq!(decoded, pcm);
    let meta = read_wav_meta_from_bytes(&bytes).expect("meta");
    assert_eq!((meta.sample_rate, meta.channels, meta.samples), (24000, 1, 6));
    match decode_wav_bytes_to_pcm16_mono(&bytes).expect("decode") {
        WavPcm16Decode::Pcm16(p) => assert_eq!(p.pcm16, pcm),
        other => panic!("unexpected {other:?}"),
    }
}

#[test]
fn wav_zero_rate_and_garbage_are_errors() {
    assert!(matches!(encode_wav_pcm16_mono(0, &[1, 2]), Err(TtsError::InvalidArg(_))));
    assert!(matches!(read_wav_meta_from_bytes(b"not a wav"), Err(TtsError::Io(_))));
}

#[test]
fn vad_merges_short_silences_and_drops_short_speech() {
    let vad = EnergyVad;
    // 10 frames of 100 samples; silence_frames = 2 (150 ms at 1000 Hz over 100-sample frames).
    let speech = [false, true, true, false, true, false, false, false, true, false];
    let segs = vad.segments_from_frames(&speech, 1000, 1000, 100, 200, 150).expect("segments");
    assert_eq!(segs.len(), 1);
    assert_eq!(segs[0].start_sample, 100);
    assert_eq!(segs[0].end_sample, 500);
}

#[test]
fn vad_keeps_a_tail_segment_cut_at_the_input_end() {
    let vad = EnergyVad;
    let speech = [false, false, true];
    let segs = vad.segments_from_frames(&speech, 250, 1000, 100, 0, 150).expect("segments");
    assert_eq!(segs.len(), 1);
    assert_eq!(segs[0].start_sample, 200);
    assert_eq!(segs[0].end_sample, 250);
}

#[test]
fn vad_refuses_zero_rate_and_zero_frame() {
    let vad = EnergyVad;
    assert!(matches!(vad.segments_from_frames(&[], 0, 0, 30, 200, 150), Err(VadError::InvalidArg(_))));
    assert!(matches!(vad.segments_from_frames(&[], 0, 16_000, 0, 200, 150), Err(VadError::InvalidArg(_))));
    assert_eq!(frame_len(16_000, 30), 480);
    assert_eq!(frame_len(10, 30), 1);
}

#[test]
fn kv_output_candidates_rename_past_names() {
    let c = ort_kv_output_candidates_from_past_input("past_key_values.0.key");
    assert_eq!(
        c,
        vec![
            "past_key_values.0.key".to_string(),
            "present.0.key".to_string(),
            "present_key_values.0.key".to_string(),
        ]
    );
    let d = ort_kv_output_candidates_from_past_input("past.1");
    assert_eq!(d, vec!["past.1".to_string(), "present.1".to_string()]);
}

#[test]
fn pack_defaults() {
    let f = default_pack_files();
    assert_eq!(f.tokenizer_json, "tokenizer.json");
    assert_eq!(f.hift_infer_onnx, "hift_infer.onnx");
    assert!(default_tokenizer_add_special_tokens());
    assert_eq!(default_text_normalize(), "basic");
    assert_ne!(TtsJobStage::Loading, TtsJobStage::Llm);
}
