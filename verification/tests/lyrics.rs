use std::io::Write;

use chaos_core::lyrics::error::LyricsError;
use chaos_core::lyrics::model::{
    LyricsSearchOptions, LyricsSearchRequest, LyricsSearchResult, LyricsSearchTerm, LyricsService,
};
use chaos_core::lyrics::providers::{
    decrypt_kugou_krc, fix_netease_time_tag, looks_like_lrc, GecimiProvider, GecimiToken,
    KugouProvider, KugouToken, LrcLibProvider, LrcLibToken, NeteaseProvider, NeteaseToken, Provider,
    ProviderToken, QqMusicProvider, QqToken, SyairProvider, SyairToken,
};
use chaos_core::lyrics::quality::{artist_quality, is_case_insensitive_similar, is_matched, title_quality, QualityTerm};
use chaos_core::lyrics::search::{build_providers, keep_matched, mark_matched, result_limit, service_order_index};
use chaos_core::lyrics::util::{
    decode_xml_entities, extract_json_from_jsonp, extract_json_from_jsonp_str, html_to_text,
    percent_encode_component,
};

fn info(title: &str, artist: &str) -> LyricsSearchTerm {
    LyricsSearchTerm::Info { title: title.to_string(), artist: artist.to_string(), album: None }
}

fn result(title: Option<&str>, artist: Option<&str>) -> LyricsSearchResult {
    LyricsSearchResult {
        service: LyricsService::Netease,
        service_token: "1".to_string(),
        title: title.map(|s| s.to_string()),
        artist: artist.map(|s| s.to_string()),
        album: None,
        duration_ms: None,
        match_percentage: 0,
        matched: false,
        has_translation: false,
        has_inline_timetags: false,
        lyrics_original: String::new(),
        lyrics_translation: None,
    }
}

#[test]
fn service_names_parse_back() {
    for s in [LyricsService::Netease, LyricsService::QQMusic, LyricsService::Kugou, LyricsService::Gecimi, LyricsService::Syair] {
        assert_eq!(LyricsService::parse(s.as_str()).unwrap(), s);
    }
    assert_eq!(LyricsService::parse(" 163 ").unwrap(), LyricsService::Netease);
    assert_eq!(LyricsService::parse("QQ_Music").unwrap(), LyricsService::QQMusic);
    assert_eq!(LyricsService::parse("nope").unwrap_err(), "unknown lyrics service: nope");
    assert!(LyricsService::parse("lrclib").is_err());
}

#[test]
fn search_defaults() {
    let req = LyricsSearchRequest::new(info("a", "b"));
    assert_eq!(req.limit, 6);
    assert_eq!(req.duration_ms, None);
    let opt = LyricsSearchOptions::default();
    assert_eq!(opt.timeout_ms, 10_000);
    assert!(!opt.strict_match);
    assert_eq!(
        opt.services,
        vec![LyricsService::Netease, LyricsService::QQMusic, LyricsService::Kugou, LyricsService::Gecimi, LyricsService::Syair]
    );
}

#[test]
fn term_description_and_title_artist() {
    assert_eq!(info("  Hello ", " Adele").description(), "Hello Adele");
    assert_eq!(info("Hello", "  ").description(), "Hello");
    let kw = LyricsSearchTerm::Keyword { keyword: "x y".to_string() };
    assert_eq!(kw.description(), "x y");
    assert_eq!(kw.title_artist(), (None, None));
    assert_eq!(info("t", "a").title_artist(), (Some("t"), Some("a")));
}

#[test]
fn similarity_is_symmetric_containment_ignoring_case() {
    assert!(is_case_insensitive_similar("Hello World", "hello"));
    assert!(is_case_insensitive_similar("hello", "Hello World"));
    assert!(!is_case_insensitive_similar("abc", "abd"));
}

#[test]
fn matched_needs_title_and_artist() {
    let req = LyricsSearchRequest::new(info("Hello", "Adele"));
    assert!(is_matched(&result(Some("hello (live)"), Some("ADELE")), &req));
    assert!(!is_matched(&result(Some("hello"), None), &req));
    assert!(!is_matched(&result(Some("bye"), Some("Adele")), &req));
}

#[test]
fn quality_terms() {
    let req = LyricsSearchRequest::new(info("Hello", "Adele"));
    assert!(matches!(title_quality(&result(Some("Hello"), Some("Adele")), &req), QualityTerm::Matched));
    assert!(matches!(artist_quality(&result(Some("Hello"), None), &req), QualityTerm::Missing));
    match title_quality(&result(Some("Hallo"), Some("Adele")), &req) {
        QualityTerm::Similar(f) => {
            assert_eq!(f.den, 5);
            assert_eq!(f.num, 4);
        }
        _ => panic!("expected a similarity"),
    }
}

#[test]
fn jsonp_payload_is_sliced_out() {
    assert_eq!(extract_json_from_jsonp_str("cb({\"a\":[1]});"), Some("{\"a\":[1]}"));
    assert_eq!(extract_json_from_jsonp_str("x[1,2]y"), Some("[1,2]"));
    assert_eq!(extract_json_from_jsonp_str("no json"), None);
    assert_eq!(extract_json_from_jsonp_str("}{"), None);
    assert_eq!(extract_json_from_jsonp(b"MusicJsonCallback({\"x\":1})"), Some("{\"x\":1}".to_string()));
}

#[test]
fn xml_entities_are_decoded() {
    assert_eq!(decode_xml_entities("a &amp; b &lt;c&gt; &quot;d&quot; &apos;e&apos;"), "a & b <c> \"d\" 'e'");
    assert_eq!(decode_xml_entities("&#65;&#x42;&#X43;&#+68;"), "ABCD");
    assert_eq!(decode_xml_entities("&bogus; &#xD800; & alone"), "&bogus; &#xD800; & alone");
    assert_eq!(decode_xml_entities("歌词&amp;歌"), "歌词&歌");
    assert_eq!(decode_xml_entities("Tom & Jerry &amp; friends"), "Tom & Jerry & friends");
    assert_eq!(decode_xml_entities("&&lt;"), "&<");
    assert_eq!(decode_xml_entities("&amp;lt;"), "&lt;");
    assert_eq!(decode_xml_entities("a &foo; b"), "a &foo; b");
    assert_eq!(decode_xml_entities("plain text"), "plain text");
}

#[test]
fn html_is_turned_into_text() {
    assert_eq!(html_to_text("a<br>b<p>c</p>d &amp; e<b>f</b>"), "a\nb\nc\nd & ef");
    assert_eq!(html_to_text("x< BR />y<unclosed"), "x\ny");
}

#[test]
fn form_encoding_of_components() {
    assert_eq!(percent_encode_component("a b/ç*-._~"), "a+b%2F%C3%A7*-._%7E");
    assert_eq!(percent_encode_component(""), "");
}

#[test]
fn providers_keep_their_endpoints() {
    assert_eq!(GecimiProvider::with_base_url("http://x/api//").base_url, "http://x/api");
    assert_eq!(LrcLibProvider::with_base_url("https://l/").search_url, "https://l");
    let n = NeteaseProvider::with_base_url("http://s/", "http://l//");
    assert_eq!(n.search_base_url, "http://s");
    assert_eq!(n.lyric_base_url, "http://l");
    assert_eq!(n.user_agent, NeteaseProvider::default().user_agent);
    assert_eq!(KugouProvider::with_base_url("s/", "l/").search_url, "s/");
    assert_eq!(QqMusicProvider::with_base_url("s", "l").lyric_url, "l");
    assert_eq!(SyairProvider::with_base_url("s", "b/").base_url, "b/");
    assert_eq!(GecimiProvider::default().base_url, "http://gecimi.com/api/lyric");
}

#[test]
fn providers_serve_their_services() {
    let ps = build_providers(&[LyricsService::Kugou, LyricsService::LrcLib, LyricsService::Netease]);
    let services: Vec<LyricsService> = ps.iter().map(|p| p.service()).collect();
    assert_eq!(services, vec![LyricsService::Kugou, LyricsService::LrcLib, LyricsService::Netease]);
    let p = Provider::Syair(SyairProvider::default());
    assert!(p.check_token(&ProviderToken::Syair(SyairToken { link: "/x".to_string() })).is_ok());
    assert!(matches!(
        p.check_token(&ProviderToken::Gecimi(GecimiToken { aid: 1, lrc_url: String::new() })),
        Err(LyricsError::Parse(_))
    ));
}

#[test]
fn service_order_ranks_last_position() {
    let order = [LyricsService::Netease, LyricsService::Kugou, LyricsService::Netease];
    assert_eq!(service_order_index(&order, LyricsService::Netease), 2);
    assert_eq!(service_order_index(&order, LyricsService::Kugou), 1);
    assert_eq!(service_order_index(&order, LyricsService::Syair), usize::MAX);
}

#[test]
fn strict_mode_keeps_matched_results() {
    let req = LyricsSearchRequest::new(info("Hello", "Adele"));
    let rs = vec![result(Some("Hello"), Some("Adele")), result(Some("Other"), Some("X")), result(None, None)];
    let marked = mark_matched(rs, &req);
    assert_eq!(marked.iter().map(|r| r.matched).collect::<Vec<_>>(), vec![true, false, false]);
    let kept = keep_matched(marked);
    assert_eq!(kept.len(), 1);
    assert_eq!(kept[0].title.as_deref(), Some("Hello"));
    let mut req0 = req.clone();
    req0.limit = 0;
    assert_eq!(result_limit(&req0), 1);
    assert_eq!(result_limit(&req), 6);
}

#[test]
fn gecimi_result_from_body() {
    let r = GecimiProvider::lyrics_result(GecimiToken { aid: -7, lrc_url: "u".to_string() }, b"[00:01]x").unwrap();
    assert_eq!(r.service_token, "-7,u");
    assert_eq!(r.lyrics_original, "[00:01]x");
    assert_eq!(r.service, LyricsService::Gecimi);
    assert!(matches!(
        GecimiProvider::lyrics_result(GecimiToken { aid: 1, lrc_url: "u".to_string() }, b"  "),
        Err(LyricsError::Parse(_))
    ));
}

fn kugou_token() -> KugouToken {
    KugouToken { id: "1".to_string(), accesskey: "k".to_string(), title: "t".to_string(), artist: "a".to_string(), duration_ms: 5 }
}

fn krc_bytes(text: &str) -> Vec<u8> {
    let key: [u8; 16] = [64, 71, 97, 119, 94, 50, 116, 71, 81, 54, 49, 45, 206, 210, 110, 105];
    let mut enc = flate2::write::GzEncoder::new(Vec::new(), flate2::Compression::default());
    enc.write_all(text.as_bytes()).unwrap();
    let gz = enc.finish().unwrap();
    let mut out = b"krc1".to_vec();
    for (i, b) in gz.iter().enumerate() {
        out.push(b ^ key[i & 15]);
    }
    out
}

#[test]
fn kugou_krc_is_decrypted() {
    assert_eq!(decrypt_kugou_krc(&krc_bytes("[0,100]<0,50,0>hi")), Some("[0,100]<0,50,0>hi".to_string()));
    assert_eq!(decrypt_kugou_krc(b"krc"), None);
    assert_eq!(decrypt_kugou_krc(b"abcd1234"), None);
}

#[test]
fn kugou_result_from_content() {
    let r = KugouProvider::lyrics_result(kugou_token(), " WzAwOjAxLjAwXWhp ", "lrc").unwrap();
    assert_eq!(r.lyrics_original, "[00:01.00]hi");
    assert_eq!(r.service_token, "1,k");
    assert!(!r.has_inline_timetags);
    assert_eq!(r.duration_ms, Some(5));
    let b64 = base64::Engine::encode(&base64::engine::general_purpose::STANDARD, krc_bytes("line"));
    let k = KugouProvider::lyrics_result(kugou_token(), &b64, "krc").unwrap();
    assert_eq!(k.lyrics_original, "line");
    assert!(k.has_inline_timetags);
    assert!(matches!(KugouProvider::lyrics_result(kugou_token(), "!!", "lrc"), Err(LyricsError::Parse(_))));
    assert!(matches!(KugouProvider::lyrics_result(kugou_token(), "eA==", "txt"), Err(LyricsError::Parse(_))));
    assert!(matches!(KugouProvider::lyrics_result(kugou_token(), "ICA=", "lrc"), Err(LyricsError::Parse(_))));
    assert!(matches!(KugouProvider::lyrics_result(kugou_token(), "//4=", "lrc"), Err(LyricsError::Parse(_))));
}

#[test]
fn netease_tags_are_fixed() {
    assert_eq!(fix_netease_time_tag("[00:12:34]a [1:2:3]b"), "[00:12.34]a [1:2.3]b");
    assert_eq!(fix_netease_time_tag("[00:12.34]a"), "[00:12.34]a");
}

fn netease_token() -> NeteaseToken {
    NeteaseToken { id: 42, title: "t".to_string(), artist: "a".to_string(), album: "b".to_string(), duration_ms: 9 }
}

#[test]
fn netease_result_prefers_word_timed_lyrics() {
    let r = NeteaseProvider::lyrics_result(
        netease_token(),
        Some("[00:01:00]plain".to_string()),
        Some("[00:01:00]timed".to_string()),
        Some("  ".to_string()),
    )
    .unwrap();
    assert_eq!(r.lyrics_original, "[00:01.00]timed");
    assert!(r.has_inline_timetags);
    assert!(r.lyrics_translation.is_none());
    assert!(!r.has_translation);
    assert_eq!(r.service_token, "42");
    let p = NeteaseProvider::lyrics_result(netease_token(), Some("x".to_string()), None, Some("tr".to_string())).unwrap();
    assert_eq!(p.lyrics_original, "x");
    assert_eq!(p.lyrics_translation.as_deref(), Some("tr"));
    assert!(p.has_translation);
    assert!(matches!(NeteaseProvider::lyrics_result(netease_token(), None, None, None), Err(LyricsError::Parse(_))));
}

fn qq_token() -> QqToken {
    QqToken { songmid: "mid".to_string(), title: "t".to_string(), artist: "a".to_string(), album: "b".to_string(), duration_ms: 3000 }
}

#[test]
fn qq_result_decodes_base64_and_entities() {
    let r = QqMusicProvider::lyrics_result(qq_token(), "YSAmYW1wOyBi", Some("eA==")).unwrap();
    assert_eq!(r.lyrics_original, "a & b");
    assert_eq!(r.lyrics_translation.as_deref(), Some("x"));
    assert!(r.has_translation);
    assert_eq!(r.service_token, "mid");
    let n = QqMusicProvider::lyrics_result(qq_token(), "YSAmYW1wOyBi", Some("  ")).unwrap();
    assert!(n.lyrics_translation.is_none());
    assert!(matches!(QqMusicProvider::lyrics_result(qq_token(), "ICA=", None), Err(LyricsError::Parse(_))));
    assert!(matches!(QqMusicProvider::lyrics_result(qq_token(), "%%", None), Err(LyricsError::Parse(_))));
    assert!(matches!(QqMusicProvider::lyrics_result(qq_token(), "eA==", Some("%%")), Err(LyricsError::Parse(_))));
}

#[test]
fn syair_page_and_result() {
    let p = SyairProvider::with_base_url("s", "https://syair.info//");
    assert_eq!(p.page_url(&SyairToken { link: "/lirik/x".to_string() }), "https://syair.info/lirik/x");
    assert_eq!(p.page_url(&SyairToken { link: "http://o/x".to_string() }), "http://o/x");
    let html = b"<html><div class=\"entry\">line one<br>line &amp; two<div>rest</div>";
    let r = SyairProvider::lyrics_result(SyairToken { link: "/x".to_string() }, html).unwrap();
    assert_eq!(r.lyrics_original, "line one\nline & two");
    assert!(matches!(
        SyairProvider::lyrics_result(SyairToken { link: "/x".to_string() }, b"<div>none</div>"),
        Err(LyricsError::Parse(_))
    ));
}

#[test]
fn lrclib_result_flags_synced_lyrics() {
    assert!(looks_like_lrc("[00:12.34]x"));
    assert!(looks_like_lrc("[1:02]x"));
    assert!(!looks_like_lrc("plain"));
    let r = LrcLibProvider::lyrics_result(LrcLibToken {
        id: "9".to_string(),
        track_name: "T".to_string(),
        artist_name: " ".to_string(),
        album_name: String::new(),
        duration_ms: Some(1000),
        synced_lyrics: "[00:01.00]a".to_string(),
    });
    assert_eq!(r.title.as_deref(), Some("T"));
    assert!(r.artist.is_none());
    assert!(r.album.is_none());
    assert!(r.has_inline_timetags);
    assert_eq!(r.service, LyricsService::LrcLib);
}

#[test]
fn search_queries() {
    let req = LyricsSearchRequest { term: info("Hello", "Adele"), duration_ms: Some(1234), limit: 6 };
    let g = GecimiProvider::default().search_url(&req).unwrap();
    assert_eq!(g, "http://gecimi.com/api/lyric/Hello/Adele");
    let kw = LyricsSearchRequest::new(LyricsSearchTerm::Keyword { keyword: "a b".to_string() });
    assert!(matches!(GecimiProvider::default().search_url(&kw), Err(LyricsError::UnsupportedTerm)));
    let k = KugouProvider::search_query(&req).unwrap();
    assert_eq!(k[0], ("keyword".to_string(), "Hello Adele".to_string()));
    assert_eq!(k[1], ("duration".to_string(), "1234".to_string()));
    assert_eq!(k.len(), 5);
    let blank = LyricsSearchRequest::new(info(" ", " "));
    assert!(KugouProvider::search_query(&blank).is_none());
    assert!(NeteaseProvider::search_query(&blank).is_none());
    assert!(QqMusicProvider::search_query(&blank).is_none());
    assert_eq!(NeteaseProvider::search_query(&req).unwrap()[0].1, "Hello Adele");
    assert_eq!(QqMusicProvider::search_query(&req).unwrap(), vec![("w".to_string(), "Hello Adele".to_string())]);
    let l = LrcLibProvider::search_query(&req).unwrap();
    assert_eq!(l.len(), 4);
    assert_eq!(l[3], ("durationMs".to_string(), "1234".to_string()));
    assert!(LrcLibProvider::search_query(&blank).is_none());
    let s = SyairProvider::search_query(&kw);
    assert_eq!(s, vec![("page".to_string(), "1".to_string()), ("q".to_string(), "a b".to_string())]);
}
