use std::collections::BTreeMap;

use chaos_core::music::error::MusicError;
use chaos_core::music::model::{
    default_concurrency, default_retries, loose_string, AuthState, KugouUserInfo, LooseValue,
    MusicLoginQrState, MusicQuality, MusicService, ProviderConfig,
};
use chaos_core::music::providers::{
    add_timestamp, anonymous_cookie_path, append_timestamp, auth_token_userid, bases, calculate_mid,
    kugou_qr_user, map_br, map_quality_to_songtype, md5_hex_lower, parse_nm_info_to_qualities,
    pick_quality_id, qq_qr_state, qualities_from_file, qualities_from_item, qualities_from_song,
    sig_hash, sign_key, sign_key_lite, sign_request_payload, signature_android_params,
    signature_register_params, signature_web_params, ua, wechat_qr_result, KugouEndpoints,
};
use chaos_core::music::util::{
    pick_primary_artist, quality_fallback_order, render_brace_template, sanitize_component,
    template_path_components, track_path_components, TemplateValues,
};

fn ids(v: &[MusicQuality]) -> Vec<String> {
    v.iter().map(|q| q.id.clone()).collect()
}

fn strings(v: &[&str]) -> Vec<String> {
    v.iter().map(|s| s.to_string()).collect()
}

#[test]
fn service_names_and_defaults() {
    assert_eq!(MusicService::Qq.as_str(), "qq");
    assert_eq!(MusicService::Kuwo.as_str(), "kuwo");
    assert_eq!(default_concurrency(), 3);
    assert_eq!(default_retries(), 2);
}

#[test]
fn loose_strings() {
    assert_eq!(loose_string(&LooseValue::Str("  42 ".to_string())).unwrap(), Some("42".to_string()));
    assert_eq!(loose_string(&LooseValue::Str("   ".to_string())).unwrap(), None);
    assert_eq!(loose_string(&LooseValue::Number("7".to_string())).unwrap(), Some("7".to_string()));
    assert_eq!(loose_string(&LooseValue::Bool(true)).unwrap(), Some("true".to_string()));
    assert_eq!(loose_string(&LooseValue::Null).unwrap(), None);
    assert!(loose_string(&LooseValue::Other).is_err());
}

#[test]
fn music_sanitize_component() {
    assert_eq!(sanitize_component("  AC/DC: Live?  "), "AC_DC_ Live_");
    assert_eq!(sanitize_component("..."), "unknown");
    assert_eq!(sanitize_component("   "), "unknown");
    assert_eq!(sanitize_component("name. "), "name");
    assert_eq!(sanitize_component(&"x".repeat(200)).chars().count(), 150);
}

#[test]
fn primary_artist_is_first_non_blank() {
    assert_eq!(pick_primary_artist(&strings(&["  ", " Adele ", "B"])), "Adele");
    assert_eq!(pick_primary_artist(&[]), "unknown");
}

#[test]
fn default_track_layout() {
    let p = track_path_components(&strings(&["Adele"]), Some("25"), Some(3), "Hello", ".flac");
    assert_eq!(p, strings(&["Adele", "25", "03 - Hello.flac"]));
    let q = track_path_components(&[], None, None, "Song", " ");
    assert_eq!(q, strings(&["unknown", "Single", "Song"]));
    let r = track_path_components(&strings(&["A"]), Some(" "), Some(123), "T", "mp3");
    assert_eq!(r, strings(&["A", "unknown", "123 - T.mp3"]));
}

#[test]
fn template_layout() {
    let p = template_path_components(
        "{{artist}}/{{ album }}\\{{track_no}}. {{title}}.{{ext}}",
        &strings(&["Adele"]),
        Some(" 25 "),
        Some(1),
        "Hello",
        "flac",
    );
    assert_eq!(p, strings(&["Adele", "25", "01. Hello.flac"]));
    let t = template_path_components("../{{unknown}}/./x", &[], None, None, "T", "mp3");
    assert_eq!(t, strings(&["unknown", "unknown", "x"]));
    let blank = template_path_components("  ", &strings(&["A"]), None, None, "T", "mp3");
    assert_eq!(blank, strings(&["A", "Single", "T.mp3"]));
    let empty = template_path_components("{{nope}}//", &strings(&["A"]), None, None, "T", "mp3");
    assert_eq!(empty, strings(&["A", "Single", "T.mp3"]));
}

#[test]
fn template_paths_cannot_climb() {
    let a = template_path_components("{{title}}", &[], None, None, ".. .", "mp3");
    assert_eq!(a, strings(&["unknown"]));
    let b = template_path_components(".. ./x", &[], None, None, "T", "mp3");
    assert_eq!(b, strings(&["unknown", "x"]));
    let c = template_path_components("../../{{title}}", &[], None, None, "x", "mp3");
    assert_eq!(c, strings(&["unknown", "unknown", "x"]));
    let d = template_path_components(" ", &strings(&[". ."]), None, None, ".. .", "");
    assert_eq!(d, strings(&["unknown", "Single", "unknown"]));
}

#[test]
fn brace_templates() {
    let v = TemplateValues {
        artist: "A".to_string(),
        album: "B".to_string(),
        title: "T".to_string(),
        ext: "e".to_string(),
        track_no: "01".to_string(),
    };
    assert_eq!(render_brace_template("x{{title}}y{{ bad }}z", &v), "xTyz");
    assert_eq!(render_brace_template("a{{title", &v), "atitle");
    assert_eq!(render_brace_template("plain", &v), "plain");
}

#[test]
fn quality_tables() {
    assert_eq!(quality_fallback_order(), ["flac", "mp3_320", "mp3_192", "mp3_128"]);
    assert_eq!(ids(&qualities_from_item(1, 0, 5)), strings(&["mp3_128", "flac"]));
    assert_eq!(ids(&qualities_from_file(1, 1, 1)), strings(&["flac", "mp3_320", "mp3_128"]));
    let song = qualities_from_song(true, true, true, false, true);
    assert_eq!(ids(&song), strings(&["mp3_128", "mp3_320", "flac"]));
    assert_eq!(song[2].label, "Hi-Res");
    assert_eq!(song[2].bitrate_kbps, Some(3000));
    assert_eq!(qualities_from_song(false, true, false, false, false)[0].label, "FLAC");
    assert_eq!(map_br("flac"), "2000kflac");
    assert_eq!(map_br("mp3_128"), "128kmp3");
    assert_eq!(map_br("other"), "320kmp3");
    assert_eq!(map_quality_to_songtype("flac"), ("F000", "flac"));
    assert_eq!(map_quality_to_songtype("mp3_128"), ("M500", "mp3"));
    assert_eq!(map_quality_to_songtype("x"), ("M800", "mp3"));
}

#[test]
fn kuwo_nm_info_is_parsed() {
    let q = parse_nm_info_to_qualities("level:hq,bitrate:320,format:mp3;bitrate:128 ;bitrate: 2000,x:y;bitrate:320");
    assert_eq!(ids(&q), strings(&["flac", "mp3_128", "mp3_320"]));
    assert!(parse_nm_info_to_qualities("").is_empty());
    assert!(parse_nm_info_to_qualities("rate:320").is_empty());
}

#[test]
fn quality_is_picked_from_what_is_offered() {
    let offered = qualities_from_file(0, 1, 1);
    assert_eq!(pick_quality_id(&offered, " mp3_128 "), Some("mp3_128".to_string()));
    assert_eq!(pick_quality_id(&offered, "flac"), Some("mp3_320".to_string()));
    let odd = vec![MusicQuality {
        id: "ogg".to_string(),
        label: "OGG".to_string(),
        format: "ogg".to_string(),
        bitrate_kbps: None,
        lossless: false,
    }];
    assert_eq!(pick_quality_id(&odd, ""), Some("ogg".to_string()));
    assert_eq!(pick_quality_id(&[], "flac"), None);
}

#[test]
fn md5_based_keys() {
    assert_eq!(md5_hex_lower("hello"), "5d41402abc4b2a76b9719d911017c592");
    assert_eq!(sign_key("h", "m", "u", "a"), "d3a0d8a8e0510d70db284d0bbdd18e56");
    assert_eq!(sign_key_lite("h", "m", "u", "a"), "04749422dd53effbc9073843d21b7873");
    assert_eq!(calculate_mid("abc"), "191415658344158766168031473277922803570");
}

#[test]
fn kugou_signatures_use_key_order() {
    let mut m = BTreeMap::new();
    m.insert("b".to_string(), "2".to_string());
    m.insert("a".to_string(), "1".to_string());
    assert_eq!(signature_web_params(&m), "70ccbef64fdcc9271fe883d1d7f07395");
    assert_eq!(signature_android_params(&m, Some("{\"x\":1}")), "4b8732650b581102e39e3543da1d15f9");
    let mut r = BTreeMap::new();
    r.insert("x".to_string(), "b".to_string());
    r.insert("y".to_string(), "a".to_string());
    assert_eq!(signature_register_params(&r), "0dfa039a86952b0cc33a1b2f312f5c9c");
}

#[test]
fn qq_payload_signature() {
    assert_eq!(sign_request_payload("{}").unwrap(), "zzb54b0bca3tbwb1hw2zskxzu8buwbpq83199399");
    assert_eq!(
        sign_request_payload("{\"comm\":{\"ct\":24}}").unwrap(),
        "zzba27afc2ebpj21eqqdulnyzrlf2s4ab3fd0093"
    );
}

#[test]
fn qq_login_hash() {
    assert_eq!(sig_hash("abc", 0), 108966);
    assert_eq!(sig_hash("qrsig_value_with_some_length_1234567890", 0), 1647562205);
    assert_eq!(sig_hash("x", 5381), 177693);
    assert_eq!(sig_hash("", -1), 0x7fff_ffff);
}

#[test]
fn netease_configuration() {
    let cfg = ProviderConfig {
        kugou_base_url: None,
        netease_base_urls: strings(&[" http://a/ ", "", "http://a", "http://b//"]),
        netease_anonymous_cookie_url: None,
    };
    assert_eq!(bases(&cfg).unwrap(), strings(&["http://a", "http://b"]));
    assert!(matches!(bases(&ProviderConfig::default()), Err(MusicError::NotConfigured(_))));
    assert_eq!(anonymous_cookie_path(&cfg), "/register/anonimous");
    let c2 = ProviderConfig { netease_anonymous_cookie_url: Some(" /x ".to_string()), ..ProviderConfig::default() };
    assert_eq!(anonymous_cookie_path(&c2), "/x");
    assert_eq!(add_timestamp("http://h/p", 5), "http://h/p?timestamp=5");
    assert_eq!(add_timestamp("http://h/p?a=1", 12), "http://h/p?a=1&timestamp=12");
    assert!(append_timestamp("http://h").starts_with("http://h?timestamp="));
    assert!(ua().starts_with("QQ%E9%9F%B3"));
}

#[test]
fn login_states() {
    assert_eq!(qq_qr_state(66), MusicLoginQrState::Scan);
    assert_eq!(qq_qr_state(0), MusicLoginQrState::Done);
    assert_eq!(qq_qr_state(99), MusicLoginQrState::Other);
    assert_eq!(wechat_qr_result(405, " code "), (MusicLoginQrState::Done, Some(" code ".to_string())));
    assert_eq!(wechat_qr_result(405, "  "), (MusicLoginQrState::Done, None));
    assert_eq!(wechat_qr_result(408, "c"), (MusicLoginQrState::Scan, None));
    let u = kugou_qr_user(1, 4, " tok ", "7").unwrap();
    assert_eq!((u.token.as_str(), u.userid.as_str()), ("tok", "7"));
    assert!(kugou_qr_user(1, 2, "t", "u").is_none());
    assert!(kugou_qr_user(1, 4, "t", " ").is_none());
}

#[test]
fn kugou_auth_and_endpoints() {
    let auth = AuthState {
        qq: None,
        kugou: Some(KugouUserInfo { token: " t ".to_string(), userid: "".to_string() }),
        netease_cookie: None,
    };
    assert_eq!(auth_token_userid(Some(&auth)), (Some("t".to_string()), None));
    assert_eq!(auth_token_userid(None), (None, None));
    let e = KugouEndpoints::default();
    assert_eq!(e.gateway_base, "https://gateway.kugou.com");
}
