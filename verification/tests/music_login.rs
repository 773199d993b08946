use std::collections::BTreeMap;

use chaos_core::music::error::MusicError;
use chaos_core::music::kugou_client::{
    appid, default_params, headers, new_device, random_text, request_url, sign_params, srcappid,
    KugouDevice,
};
use chaos_core::music::model::{AuthState, KugouUserInfo, MusicLoginQrState, QqMusicCookie};
use chaos_core::music::providers::{signature_web_params, EncryptType};
use chaos_core::music::qq_login::{
    authorize_code, authorize_form, authorize_inputs, check_login_reply, extract_cookie,
    login_code, p_skey_cookie, qq_poll_outcome, qrsig_cookie, refresh_request,
    wechat_poll_outcome, wechat_uuid, LoginCall, LoginReply,
};

fn s(x: &str) -> Option<String> {
    Some(x.to_string())
}

#[test]
fn qq_poll_outcome_states() {
    let (st, msg, a, b) = qq_poll_outcome("ptuiCB('66','0','','0','waiting', '')");
    assert_eq!(st, MusicLoginQrState::Scan);
    assert_eq!((msg, a, b), (None, None, None));
    let done = "ptuiCB('0','0','https://ssl.ptlogin2.graph.qq.com/check_sig?pttype=1&uin=12345&service=ptqrlogin&nodirect=0&ptsigx=abcdef&s_url=https%3A%2F%2Fgraph.qq.com','0','ok', 'nick')";
    let (st, msg, a, b) = qq_poll_outcome(done);
    assert_eq!(st, MusicLoginQrState::Done);
    assert_eq!(msg, None);
    assert_eq!(a.as_deref(), Some("abcdef"));
    assert_eq!(b.as_deref(), Some("12345"));
    let (st, msg, _, _) = qq_poll_outcome("no callback here");
    assert_eq!(st, MusicLoginQrState::Other);
    assert_eq!(msg.as_deref(), Some("invalid response"));
    let (st, _, _, _) = qq_poll_outcome("ptuiCB('x')");
    assert_eq!(st, MusicLoginQrState::Other);
    let (st, _, _, _) = qq_poll_outcome("ptuiCB(\"65\",\"0\")");
    assert_eq!(st, MusicLoginQrState::Timeout);
}

#[test]
fn wechat_poll_outcome_states() {
    let (st, msg, code) = wechat_poll_outcome("window.wx_errcode=405;window.wx_code='CODE123';");
    assert_eq!((st, msg, code.as_deref()), (MusicLoginQrState::Done, None, Some("CODE123")));
    let (st, _, code) = wechat_poll_outcome("window.wx_errcode=408;window.wx_code='';");
    assert_eq!((st, code), (MusicLoginQrState::Scan, None));
    let (st, msg, _) = wechat_poll_outcome("nothing");
    assert_eq!((st, msg.as_deref()), (MusicLoginQrState::Other, Some("invalid wechat response")));
    assert_eq!(wechat_uuid("<img src=\"/connect/qrcode/abc?uuid=061xyz\" />").unwrap(), "061xyz");
    assert!(matches!(wechat_uuid("none"), Err(MusicError::Parse(_))));
}

#[test]
fn cookies_from_headers() {
    let h = vec![s("a=1; Path=/"), s("qrsig= ; Path=/"), s("qrsig=XYZ; Path=/")];
    assert_eq!(extract_cookie(&h, "qrsig").as_deref(), Some("XYZ"));
    assert_eq!(qrsig_cookie(&h).unwrap(), "XYZ");
    assert_eq!(extract_cookie(&vec![None, s("qrsig=1")], "qrsig"), None);
    match p_skey_cookie(&h) {
        Err(MusicError::Other(m)) => assert_eq!(m, "missing p_skey"),
        other => panic!("unexpected {other:?}"),
    }
    match qrsig_cookie(&vec![]) {
        Err(MusicError::Parse(m)) => assert_eq!(m, "missing qrsig cookie"),
        other => panic!("unexpected {other:?}"),
    }
}

#[test]
fn authorize_steps() {
    assert_eq!(
        authorize_code("https://y.qq.com/portal/wx_redirect.html?login_type=1&code=ABC&state=state").unwrap(),
        "ABC"
    );
    match authorize_code("") {
        Err(MusicError::Other(m)) => assert_eq!(m, "missing Location"),
        other => panic!("unexpected {other:?}"),
    }
    match authorize_code("https://x/") {
        Err(MusicError::Other(m)) => assert_eq!(m, "missing code in redirect"),
        other => panic!("unexpected {other:?}"),
    }
    assert_eq!(authorize_inputs(" s ", " u ").unwrap(), ("s".to_string(), "u".to_string()));
    assert!(matches!(authorize_inputs("s", " "), Err(MusicError::InvalidInput(_))));
    let form = authorize_form("skey123", 1_700_000_000_000);
    assert_eq!(form.len(), 12);
    assert_eq!(form[9], ("g_tk".to_string(), "422035255".to_string()));
    assert_eq!(form[10], ("auth_time".to_string(), "1700000000000".to_string()));
    assert_eq!(form[11], ("ui".to_string(), "faa48af05e71e97fade8497f01a2bddf".to_string()));
    assert_eq!(login_code(" c ").unwrap(), "c");
    match login_code("") {
        Err(MusicError::InvalidInput(m)) => assert_eq!(m, "empty code"),
        other => panic!("unexpected {other:?}"),
    }
}

#[test]
fn refresh_and_login_replies() {
    let mut c = QqMusicCookie { login_type: Some(2), musicid: s("1"), musickey: s("k"), refresh_key: s("r"), ..Default::default() };
    let q = refresh_request(&c).unwrap();
    assert_eq!((q.login_type, q.str_musicid.as_str(), q.musickey.as_str(), q.refresh_key.as_str()), (2, "1", "k", "r"));
    c.str_musicid = s(" 9 ");
    assert_eq!(refresh_request(&c).unwrap().str_musicid, "9");
    c.str_musicid = s("");
    assert!(matches!(refresh_request(&c), Err(MusicError::InvalidInput(_))));
    c.login_type = None;
    match refresh_request(&c) {
        Err(MusicError::InvalidInput(m)) => assert_eq!(m, "cookie.loginType missing"),
        other => panic!("unexpected {other:?}"),
    }

    let ok = LoginReply { code: Some(0), has_req: true, req_code: Some(0), req_msg: None, has_data: true };
    assert!(check_login_reply(LoginCall::Exchange, &ok).is_ok());
    let mut r = ok.clone();
    r.code = Some(1000);
    match check_login_reply(LoginCall::Exchange, &r) {
        Err(MusicError::Other(m)) => assert_eq!(m, "qq login code=1000"),
        other => panic!("unexpected {other:?}"),
    }
    match check_login_reply(LoginCall::Refresh, &r) {
        Err(MusicError::Other(m)) => assert_eq!(m, "refresh code=1000"),
        other => panic!("unexpected {other:?}"),
    }
    let mut r = ok.clone();
    r.has_req = false;
    match check_login_reply(LoginCall::Refresh, &r) {
        Err(MusicError::Parse(m)) => assert_eq!(m, "missing req1"),
        other => panic!("unexpected {other:?}"),
    }
    let mut r = ok.clone();
    r.req_code = None;
    match check_login_reply(LoginCall::Exchange, &r) {
        Err(MusicError::Other(m)) => assert_eq!(m, "login failed"),
        other => panic!("unexpected {other:?}"),
    }
    r.req_msg = s("bad code");
    match check_login_reply(LoginCall::Exchange, &r) {
        Err(MusicError::Other(m)) => assert_eq!(m, "bad code"),
        other => panic!("unexpected {other:?}"),
    }
    let mut r = ok;
    r.has_data = false;
    match check_login_reply(LoginCall::Exchange, &r) {
        Err(MusicError::Parse(m)) => assert_eq!(m, "missing cookie data"),
        other => panic!("unexpected {other:?}"),
    }
}

#[test]
fn kugou_client_conventions() {
    assert_eq!((appid(), srcappid()), ("1005", "2919"));
    let t = random_text(24, "AB");
    assert_eq!(t.len(), 24);
    assert!(t.chars().all(|c| c == 'A' || c == 'B'));
    let d = new_device();
    assert_eq!(d.dfid.len(), 24);
    assert_eq!(d.uuid, "-");
    assert!(!d.mid.is_empty() && d.mid.chars().all(|c| c.is_ascii_digit()));

    let dev = KugouDevice { dfid: "DF".into(), mid: "M".into(), uuid: "-".into() };
    let auth = AuthState { qq: None, kugou: Some(KugouUserInfo { token: " tk ".into(), userid: "0".into() }), netease_cookie: None };
    let p = default_params(&dev, 1700000000, Some(&auth));
    let keys: Vec<&str> = p.iter().map(|(k, _)| k.as_str()).collect();
    assert_eq!(keys, vec!["dfid", "mid", "uuid", "appid", "clientver", "clienttime", "token"]);
    assert_eq!(p[5].1, "1700000000");
    assert_eq!(p[6].1, "tk");
    assert_eq!(default_params(&dev, 1, None).len(), 6);

    let h = headers(&dev, "123", Some(" complexsearch.kugou.com "), Some("  "));
    assert_eq!(h.len(), 9);
    assert_eq!(h[8], ("x-router".to_string(), "complexsearch.kugou.com".to_string()));
    assert_eq!(request_url("https://a.com//", "/x"), "https://a.com/x");

    let mut m = BTreeMap::new();
    m.insert("b".to_string(), "2".to_string());
    m.insert("a".to_string(), "1".to_string());
    assert_eq!(sign_params(&m, None, EncryptType::Web), signature_web_params(&m));
}
