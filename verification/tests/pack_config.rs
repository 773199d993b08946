use std::collections::BTreeMap;

use chaos_core::music::providers::signature_register_params;
use chaos_core::tts::cosyvoice::validate_pack_config;
use chaos_core::tts::TtsError;

#[test]
fn pack_config_checks_in_order() {
    assert!(validate_pack_config(1, 24000, 192).is_ok());
    match validate_pack_config(2, 0, 0) {
        Err(TtsError::InvalidArg(m)) => assert_eq!(m, "unsupported packVersion=2 (expected 1)"),
        other => panic!("unexpected {other:?}"),
    }
    match validate_pack_config(1, 0, 0) {
        Err(TtsError::InvalidArg(m)) => assert_eq!(m, "sampleRate must be > 0"),
        other => panic!("unexpected {other:?}"),
    }
    match validate_pack_config(1, 24000, 0) {
        Err(TtsError::InvalidArg(m)) => assert_eq!(m, "spkEmbedDim must be > 0"),
        other => panic!("unexpected {other:?}"),
    }
}

#[test]
fn register_signature_ignores_keys() {
    let mut a = BTreeMap::new();
    a.insert("x".to_string(), "b".to_string());
    a.insert("y".to_string(), "a".to_string());
    let mut b = BTreeMap::new();
    b.insert("k1".to_string(), "a".to_string());
    b.insert("k2".to_string(), "b".to_string());
    let sa = signature_register_params(&a);
    assert_eq!(sa, signature_register_params(&b));
    assert_eq!(sa.len(), 32);
    assert_eq!(sa, format!("{:x}", md5::compute("1014ab1014")));
}
