use chaos_core::music::error::MusicError;
use chaos_core::music::model::{AuthState, KugouUserInfo, QqMusicCookie};
use chaos_core::music::requests::{
    kugou_download_plan, kugou_pick_download, kugou_reply_ok, kugou_search_params,
    kuwo_album_url, kuwo_artist_albums_url, kuwo_download_result, kuwo_download_url,
    kuwo_search_url, netease_download_params, netease_download_result, netease_offset,
    netease_reply_ok, qq_guid, qq_vkey_request, qq_vkey_url, search_paging, search_query,
    QqUrlInfo, QqVkeyReply,
};

fn s(x: &str) -> Option<String> {
    Some(x.to_string())
}

#[test]
fn search_query_and_paging() {
    assert_eq!(search_query("  hi  ").as_deref(), Some("hi"));
    assert_eq!(search_query(" \t"), None);
    assert_eq!(search_paging(0, 0, 50), (1, 1));
    assert_eq!(search_paging(3, 80, 50), (3, 50));
    assert_eq!(netease_offset(3, 20), 40);
    assert_eq!(netease_offset(0, 20), 0);
}

#[test]
fn kugou_search_params_in_key_order() {
    let p = kugou_search_params("love", 0, 99);
    let keys: Vec<&str> = p.iter().map(|(k, _)| k.as_str()).collect();
    assert_eq!(keys, vec!["albumhide", "iscorrection", "keyword", "nocollect", "page", "pagesize", "platform"]);
    assert_eq!(p[2].1, "love");
    assert_eq!(p[4].1, "1");
    assert_eq!(p[5].1, "50");
}

fn kugou_auth(token: &str, userid: &str) -> AuthState {
    AuthState {
        qq: None,
        kugou: Some(KugouUserInfo { token: token.to_string(), userid: userid.to_string() }),
        netease_cookie: None,
    }
}

#[test]
fn kugou_download_plan_checks() {
    match kugou_download_plan(" ", "flac", &kugou_auth("t", "u")) {
        Err(MusicError::InvalidInput(m)) => assert_eq!(m, "empty track_id"),
        other => panic!("unexpected {other:?}"),
    }
    match kugou_download_plan("h", "flac", &kugou_auth(" ", "u")) {
        Err(MusicError::Unauthorized(m)) => assert_eq!(m, "kugou: missing token/userid"),
        other => panic!("unexpected {other:?}"),
    }
    match kugou_download_plan("h", "flac", &AuthState::default()) {
        Err(MusicError::Unauthorized(m)) => assert_eq!(m, "kugou: missing token/userid"),
        other => panic!("unexpected {other:?}"),
    }
    let p = kugou_download_plan(" h ", " flac ", &kugou_auth(" t ", " u ")).unwrap();
    assert_eq!((p.hash.as_str(), p.token.as_str(), p.userid.as_str()), ("h", "t", "u"));
    assert_eq!(p.desired_ext, "flac");
    assert_eq!(p.qualities, vec!["flac", "320", "128"]);
    let p = kugou_download_plan("h", "mp3_128", &kugou_auth("t", "u")).unwrap();
    assert_eq!((p.desired_ext, p.qualities), ("mp3", vec!["128"]));
    let p = kugou_download_plan("h", "other", &kugou_auth("t", "u")).unwrap();
    assert_eq!(p.qualities, vec!["320", "128"]);
}

#[test]
fn kugou_pick_download_prefers_extension() {
    let leaves = vec![
        "not a link".to_string(),
        " http://a/x.mp3 ".to_string(),
        "http://b/y.FLAC".to_string(),
    ];
    let (u, e) = kugou_pick_download(&leaves, "flac").unwrap();
    assert_eq!((u.as_str(), e.as_str()), ("http://b/y.FLAC", "flac"));
    let (u, e) = kugou_pick_download(&leaves, "ogg").unwrap();
    assert_eq!((u.as_str(), e.as_str()), ("http://a/x.mp3", "mp3"));
    let (u, e) = kugou_pick_download(&vec!["https://c/z".to_string()], "mp3").unwrap();
    assert_eq!((u.as_str(), e.as_str()), ("https://c/z", "mp3"));
    match kugou_pick_download(&vec!["ftp://x".to_string()], "mp3") {
        Err(MusicError::Other(m)) => assert_eq!(m, "kugou: empty download url"),
        other => panic!("unexpected {other:?}"),
    }
}

fn qq_auth() -> AuthState {
    AuthState {
        qq: Some(QqMusicCookie {
            musicid: s(" 123 "),
            musickey: s("key"),
            login_type: Some(2),
            ..Default::default()
        }),
        kugou: None,
        netease_cookie: None,
    }
}

#[test]
fn qq_vkey_request_checks() {
    let q = qq_vkey_request(" mid ", "flac", &qq_auth()).unwrap();
    assert_eq!(q.file_name, "F000midmid.flac");
    assert_eq!((q.qq.as_str(), q.musickey.as_str(), q.login_type.as_str(), q.ext), ("123", "key", "2", "flac"));
    let q = qq_vkey_request("m", "mp3_320", &qq_auth()).unwrap();
    assert_eq!(q.file_name, "M800mm.mp3");
    match qq_vkey_request("m", "flac", &AuthState::default()) {
        Err(MusicError::Unauthorized(m)) => assert_eq!(m, "missing qq cookie"),
        other => panic!("unexpected {other:?}"),
    }
    let mut a = qq_auth();
    a.qq.as_mut().unwrap().login_type = None;
    match qq_vkey_request("m", "flac", &a) {
        Err(MusicError::Unauthorized(m)) => assert_eq!(m, "qq cookie missing musickey/musicid/loginType"),
        other => panic!("unexpected {other:?}"),
    }
}

#[test]
fn qq_vkey_url_outcomes() {
    let info = QqUrlInfo { wifiurl: s(" "), purl: s("C400abc.m4a?vkey=1") };
    let mut r = QqVkeyReply { has_node: true, code: Some(0), url_info: Some(info), sip: vec![] };
    assert_eq!(qq_vkey_url(&r).unwrap(), "https://isure.stream.qqmusic.qq.com/C400abc.m4a?vkey=1");
    r.sip = vec![s(" http://s1/ "), None, s("")];
    assert_eq!(qq_vkey_url(&r).unwrap(), "http://s1/C400abc.m4a?vkey=1");
    r.code = Some(104003);
    match qq_vkey_url(&r) {
        Err(MusicError::Other(m)) => assert_eq!(m, "qq vkey code=104003"),
        other => panic!("unexpected {other:?}"),
    }
    r.code = None;
    match qq_vkey_url(&r) {
        Err(MusicError::Other(m)) => assert_eq!(m, "qq vkey code=-1"),
        other => panic!("unexpected {other:?}"),
    }
    r.code = Some(0);
    r.url_info = Some(QqUrlInfo { wifiurl: None, purl: s("") });
    match qq_vkey_url(&r) {
        Err(MusicError::Other(m)) => assert_eq!(m, "qq: empty purl"),
        other => panic!("unexpected {other:?}"),
    }
    r.url_info = None;
    assert!(matches!(qq_vkey_url(&r), Err(MusicError::Parse(_))));
    r.has_node = false;
    match qq_vkey_url(&r) {
        Err(MusicError::Parse(m)) => assert_eq!(m, "missing vkey response"),
        other => panic!("unexpected {other:?}"),
    }
}

#[test]
fn qq_guid_shape() {
    let g = qq_guid();
    assert_eq!(g.len(), 32);
    assert!(g.chars().all(|c| "abcdef1234567890".contains(c)));
}

#[test]
fn netease_download() {
    assert_eq!(netease_download_params("mp3_128"), (128000, false));
    assert_eq!(netease_download_params(" flac"), (999000, true));
    assert_eq!(netease_download_params("x"), (320000, false));
    assert_eq!(netease_download_result(&s(" http://u "), "flac").unwrap(), ("http://u".to_string(), "flac".to_string()));
    assert!(matches!(netease_download_result(&None, "flac"), Err(MusicError::Other(_))));
    assert!(netease_reply_ok(Some(200)));
    assert!(!netease_reply_ok(None));
    assert!(kugou_reply_ok(Some(1)));
    assert!(!kugou_reply_ok(Some(0)));
}

#[test]
fn kuwo_requests() {
    assert_eq!(kuwo_download_url("x?rid={rid}&br={br}", " 42 ", "flac").unwrap(), "x?rid=42&br=2000kflac");
    assert!(matches!(kuwo_download_url("x", " ", "flac"), Err(MusicError::InvalidInput(_))));
    assert_eq!(kuwo_download_result(&s(" u "), &None).unwrap(), ("u".to_string(), "mp3".to_string()));
    assert_eq!(kuwo_download_result(&s("u"), &s(" flac ")).unwrap(), ("u".to_string(), "flac".to_string()));
    let u = kuwo_search_url("周 杰伦&x", 2, 500, "music");
    assert_eq!(
        u,
        "http://search.kuwo.cn/r.s?client=kt&encoding=utf8&rformat=json&mobi=1&vipver=1&pn=1&rn=100&correct=1&all=%E5%91%A8%20%E6%9D%B0%E4%BC%A6%26x&ft=music"
    );
    assert!(kuwo_album_url("77").contains("pn=0&rn=10000&albumid=77&"));
    assert!(kuwo_artist_albums_url("5").contains("artistid=5&"));
}
