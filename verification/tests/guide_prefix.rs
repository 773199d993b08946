use chaos_core::tts::text::{guide_prefix_texts, guide_prefix_tokens};
use chaos_core::tts::TtsError;

#[test]
fn guide_prefix_texts_differ_with_guide() {
    let (full, tail) = guide_prefix_texts("你好", "参考<|endofprompt|>", "。", false).unwrap().unwrap();
    assert_eq!(full, "参考。你好");
    assert_eq!(tail, "你好");
}

#[test]
fn guide_prefix_texts_same_without_guide() {
    assert!(guide_prefix_texts("hello", "<|endofprompt|>", " ", false).unwrap().is_none());
}

#[test]
fn guide_prefix_texts_errors() {
    match guide_prefix_texts("  ", "x", " ", false) {
        Err(TtsError::InvalidArg(m)) => assert_eq!(m, "text is empty"),
        other => panic!("unexpected {other:?}"),
    }
}

#[test]
fn guide_prefix_token_counts() {
    assert_eq!(guide_prefix_tokens(&[1, 2, 3, 4], &[3, 4]), Some(2));
    assert_eq!(guide_prefix_tokens(&[1, 2, 3, 9], &[3, 4]), Some(2));
    assert_eq!(guide_prefix_tokens(&[5, 2, 3], &[7, 2, 3]), Some(1));
    assert_eq!(guide_prefix_tokens(&[1], &[1, 2]), None);
    assert_eq!(guide_prefix_tokens(&[], &[]), None);
    assert_eq!(guide_prefix_tokens(&[3, 4], &[3, 4]), None);
}
