use chaos_core::lyrics::match_score::{
    duration_gap_ms, fingerprint, join_space_vec, match_texts, similarity_inputs, words_vec, MatchTexts,
    SimilarityInputs,
};
use chaos_core::lyrics::model::{LyricsSearchRequest, LyricsSearchResult, LyricsSearchTerm, LyricsService};
use chaos_core::lyrics::providers::{
    kugou_token, lrclib_tokens, netease_search_cookie, netease_token, qq_token, LrcLibHit, SyairProvider,
};

fn req_info(title: &str, artist: &str, album: Option<&str>) -> LyricsSearchRequest {
    LyricsSearchRequest::new(LyricsSearchTerm::Info {
        title: title.to_string(),
        artist: artist.to_string(),
        album: album.map(|s| s.to_string()),
    })
}

fn res(title: Option<&str>, artist: Option<&str>, album: Option<&str>) -> LyricsSearchResult {
    LyricsSearchResult {
        service: LyricsService::QQMusic,
        service_token: "t".to_string(),
        title: title.map(|s| s.to_string()),
        artist: artist.map(|s| s.to_string()),
        album: album.map(|s| s.to_string()),
        duration_ms: None,
        match_percentage: 0,
        matched: false,
        has_translation: false,
        has_inline_timetags: false,
        lyrics_original: "x".to_string(),
        lyrics_translation: None,
    }
}

fn chars(s: &str) -> Vec<char> {
    s.chars().collect()
}

#[test]
fn words_split_on_whitespace_runs() {
    let w = words_vec(&chars("  a bb\t c  "));
    assert_eq!(w, vec![chars("a"), chars("bb"), chars("c")]);
    assert!(words_vec(&chars(" \n ")).is_empty());
    assert_eq!(join_space_vec(&w), chars("a bb c"));
}

#[test]
fn fingerprint_sorts_lowercased_tokens_without_punctuation() {
    assert_eq!(fingerprint("Hello, Adele!"), "adele hello");
    assert_eq!(fingerprint("b-a  C"), "a b c");
    assert_eq!(fingerprint("?!"), "");
}

#[test]
fn similarity_inputs_cases() {
    assert!(matches!(similarity_inputs("  ", ""), SimilarityInputs::BothEmpty));
    assert!(matches!(similarity_inputs("x", " "), SimilarityInputs::OneEmpty));
    match similarity_inputs(" AbC ", "abd") {
        SimilarityInputs::Texts(a, b) => {
            assert_eq!(a, "abc");
            assert_eq!(b, "abd");
        }
        other => panic!("unexpected {other:?}"),
    }
}

#[test]
fn keyword_query_falls_back_to_fingerprints() {
    let req = LyricsSearchRequest::new(LyricsSearchTerm::Keyword { keyword: "Hello Adele".to_string() });
    match match_texts(&req, &res(Some("Hello"), Some("Adele"), None)) {
        MatchTexts::Fingerprints { local, remote } => {
            assert_eq!(local, "adele hello");
            assert_eq!(remote, "adele hello");
        }
        other => panic!("unexpected {other:?}"),
    }
    assert!(matches!(match_texts(&req, &res(None, Some("Adele"), None)), MatchTexts::Unmatched));
}

#[test]
fn metadata_is_compared_pairwise() {
    let req = req_info(" Hello ", "Adele", Some(" 25 "));
    match match_texts(&req, &res(Some("Hello"), None, Some("  "))) {
        MatchTexts::Meta { title, artist, album } => {
            assert_eq!(title, ("Hello".to_string(), "Hello".to_string()));
            assert_eq!(artist, ("Adele".to_string(), String::new()));
            assert_eq!(album, ("25".to_string(), String::new()));
        }
        other => panic!("unexpected {other:?}"),
    }
}

#[test]
fn duration_gap_needs_both_nonzero() {
    assert_eq!(duration_gap_ms(Some(300_000), Some(299_500)), Some(500));
    assert_eq!(duration_gap_ms(Some(1), Some(5)), Some(4));
    assert_eq!(duration_gap_ms(Some(0), Some(5)), None);
    assert_eq!(duration_gap_ms(None, Some(5)), None);
}

#[test]
fn provider_hits_become_tokens() {
    let k = kugou_token("1".into(), "k".into(), "s".into(), "a".into(), -5);
    assert_eq!(k.duration_ms, 0);
    assert_eq!(k.title, "s");
    let n = netease_token(7, "t".into(), &vec!["x".to_string(), "y".to_string()], "al".into(), 1234);
    assert_eq!(n.artist, "x");
    assert_eq!(n.duration_ms, 1234);
    let q = qq_token("mid".into(), "t".into(), "al".into(), &vec![], 200);
    assert_eq!(q.artist, "");
    assert_eq!(q.duration_ms, 200_000);
}

#[test]
fn lrclib_keeps_first_twenty_with_synced_lyrics() {
    let mut hits = Vec::new();
    for i in 0..25 {
        hits.push(LrcLibHit {
            id: if i == 1 { None } else { Some(format!("id{i}")) },
            track_name: Some("t".into()),
            artist_name: None,
            album_name: None,
            duration_ms: Some(1000),
            synced_lyrics: if i == 2 { Some("  ".into()) } else { Some("[00:01]x".into()) },
        });
    }
    let toks = lrclib_tokens(&hits);
    assert_eq!(toks.len(), 19);
    assert_eq!(toks[0].id, "id0");
    assert!(toks[1].id.starts_with("lrclib:1:"));
    assert_eq!(toks[2].id, "id3");
    assert_eq!(toks[1].artist_name, "");
}

#[test]
fn netease_cookie_is_first_piece() {
    assert_eq!(netease_search_cookie(Some("a=b; Path=/".into())), Some("a=b".to_string()));
    assert_eq!(netease_search_cookie(Some("a=b".into())), Some("a=b".to_string()));
    assert_eq!(netease_search_cookie(None), None);
}

#[test]
fn syair_search_page_links() {
    let html = br#"<div class="title"><a href="/lyrics/a">A</a></div><div class="title"><a href="https://x/b">B</a>"#;
    let hits = SyairProvider::search_hits(html);
    let links: Vec<String> = hits.into_iter().map(|h| h.link).collect();
    assert_eq!(links, vec!["/lyrics/a".to_string(), "https://x/b".to_string()]);
}
