//! The rules of the QQ Music QR login: how poll replies, cookies and
//! redirects are read, and what the login replies must hold. The requests
//! themselves are sent outside this library.

use vstd::prelude::*;
use crate::textops;
use crate::lyrics::util::{digits_value, is_radix_digit, parse_u32_radix, parse_u32_radix_exec};
use crate::music::catalog::{or_empty, required_id};
use crate::music::error::MusicError;
use crate::music::model::{MusicLoginQrState, QqMusicCookie};
use crate::music::providers::{qq_qr_state, qq_qr_state_spec, wechat_qr_result, wechat_qr_state_spec};
use crate::regexes::{opt_seq, regex_capture, regex_captures, regex_first_group};

verus! {

/// The `ptuiCB(...)` call of a QQ poll reply.
pub open spec fn ptui_pattern() -> Seq<char> {
    "ptuiCB\\((.*?)\\)"@
}

/// The `ptsigx` of a confirmed QQ login.
pub open spec fn ptsigx_pattern() -> Seq<char> {
    "&ptsigx=([^&]+)&s_url"@
}

/// The `uin` of a confirmed QQ login.
pub open spec fn uin_pattern() -> Seq<char> {
    "&uin=([^&]+)&service"@
}

/// The error code and authorization code of a WeChat poll reply.
pub open spec fn wechat_poll_pattern() -> Seq<char> {
    "window\\.wx_errcode=(\\d+);window\\.wx_code='([^']*)'"@
}

/// The `uuid` of a WeChat login page.
pub open spec fn wechat_uuid_pattern() -> Seq<char> {
    "uuid=([^\"]+)\""@
}

/// The authorization code of a login redirect.
pub open spec fn location_code_pattern() -> Seq<char> {
    "code=([^&]+)"@
}

/// `str::parse::<i32>`: an optional sign, then at least one decimal digit,
/// and a value within 32 bits.
pub open spec fn parse_i32(s: Seq<char>) -> Option<i32> {
    if s.len() > 0 && s[0] == '-' {
        let d = s.drop_first();
        if d.len() > 0 && (forall|i: int| 0 <= i < d.len() ==> is_radix_digit(#[trigger] d[i], 10))
            && digits_value(d, 10) <= 0x8000_0000 {
            Some((-digits_value(d, 10)) as i32)
        } else {
            None
        }
    } else {
        match parse_u32_radix(s, 10) {
            Some(v) => if v <= 0x7FFF_FFFF {
                Some(v as i32)
            } else {
                None
            },
            None => None,
        }
    }
}

proof fn lemma_digits_nonneg(d: Seq<char>)
    requires
        forall|i: int| 0 <= i < d.len() ==> is_radix_digit(#[trigger] d[i], 10),
    ensures
        digits_value(d, 10) >= 0,
    decreases d.len(),
{
    if d.len() > 0 {
        let p = d.drop_last();
        assert forall|i: int| 0 <= i < p.len() implies is_radix_digit(#[trigger] p[i], 10) by {
            assert(p[i] == d[i]);
        }
        lemma_digits_nonneg(p);
        assert(is_radix_digit(d[d.len() - 1], 10));
    }
}

fn parse_i32_exec(s: &Vec<char>) -> (r: Option<i32>)
    ensures
        r == parse_i32(s@),
{
    if s.len() > 0 && s[0] == '-' {
        let d = textops::slice_vec(s, 1, s.len());
        assert(d@ =~= s@.drop_first());
        if d.len() == 0 || d[0] == '+' {
            assert(d.len() > 0 ==> !is_radix_digit(d@[0], 10));
            return None;
        }
        assert(crate::lyrics::util::sign_stripped(d@) == d@);
        proof {
            if forall|i: int| 0 <= i < d@.len() ==> is_radix_digit(#[trigger] d@[i], 10) {
                lemma_digits_nonneg(d@);
            }
        }
        match parse_u32_radix_exec(&d, 10) {
            Some(v) => if v <= 0x8000_0000 {
                let w: i64 = 0 - (v as i64);
                assert(parse_u32_radix(d@, 10) == Some(v));
                assert(d@.len() > 0);
                assert(digits_value(d@, 10) <= u32::MAX);
                proof {
                    lemma_digits_nonneg(d@);
                }
                assert(digits_value(d@, 10) == v);
                assert(-0x8000_0000 <= w <= 0);
                Some(w as i32)
            } else {
                None
            },
            None => {
                assert(d@.len() > 0);
                assert(!(forall|i: int| 0 <= i < d@.len() ==> is_radix_digit(#[trigger] d@[i], 10))
                    || digits_value(d@, 10) > u32::MAX);
                None
            },
        }
    } else {
        match parse_u32_radix_exec(s, 10) {
            Some(v) => if v <= 0x7FFF_FFFF {
                Some(v as i32)
            } else {
                None
            },
            None => None,
        }
    }
}

/// The text of a QQ poll reply's `ptuiCB` call up to its first comma, without
/// quotes, trimmed: the status code.
pub open spec fn ptui_code_text(inner: Seq<char>) -> Seq<char> {
    let cleaned = textops::remove_char(textops::remove_char(inner, '\''), '"');
    textops::trim(
        match textops::first_index_of(cleaned, ',') {
            Some(i) => cleaned.take(i),
            None => cleaned,
        },
    )
}

/// The status code of a QQ poll reply's `ptuiCB` call: 99 when unreadable.
pub open spec fn ptui_code(inner: Seq<char>) -> i32 {
    match parse_i32(ptui_code_text(inner)) {
        Some(c) => c,
        None => 99,
    }
}

/// The outcome of polling a QQ login QR code: its state, a message, and, once
/// done, the `ptsigx` and `uin` of the login.
pub open spec fn qq_poll_spec(text: Seq<char>) -> (MusicLoginQrState, Option<Seq<char>>, Option<Seq<char>>, Option<Seq<char>>) {
    match regex_capture(ptui_pattern(), text, 0) {
        None => (MusicLoginQrState::Other, Some("invalid response"@), None, None),
        Some(_) => {
            let inner = match regex_capture(ptui_pattern(), text, 1) {
                Some(g) => g,
                None => Seq::empty(),
            };
            let state = qq_qr_state_spec(ptui_code(inner));
            if state != MusicLoginQrState::Done {
                (state, None, None, None)
            } else {
                (
                    state,
                    None,
                    regex_capture(ptsigx_pattern(), text, 1),
                    regex_capture(uin_pattern(), text, 1),
                )
            }
        },
    }
}

/// Reads the reply of a QQ login poll.
pub fn qq_poll_outcome(text: &str) -> (r: (MusicLoginQrState, Option<String>, Option<String>, Option<String>))
    ensures
        (r.0, opt_seq(r.1), opt_seq(r.2), opt_seq(r.3)) == qq_poll_spec(text@),
{
    let pat = "ptuiCB\\((.*?)\\)";
    proof {
        reveal_strlit("ptuiCB\\((.*?)\\)");
    }
    let caps = match regex_captures(pat, text) {
        Some(c) => c,
        None => {
            return (MusicLoginQrState::Other, Some("invalid response".to_owned()), None, None);
        },
    };
    let inner: Vec<char> = match &caps.0 {
        Some(g) => textops::chars_of(g.as_str()),
        None => Vec::new(),
    };
    let cleaned = textops::remove_char_vec(&textops::remove_char_vec(&inner, '\''), '"');
    let first: Vec<char> = match textops::find_char(&cleaned, ',') {
        Some(i) => textops::slice_vec(&cleaned, 0, i),
        None => cleaned,
    };
    proof {
        assert(cleaned@.subrange(0, cleaned@.len() as int) =~= cleaned@);
    }
    let code_text = textops::trim_vec(&first);
    let code: i32 = match parse_i32_exec(&code_text) {
        Some(c) => c,
        None => 99,
    };
    let state = qq_qr_state(code);
    if state != MusicLoginQrState::Done {
        return (state, None, None, None);
    }
    let sp = "&ptsigx=([^&]+)&s_url";
    let up = "&uin=([^&]+)&service";
    proof {
        reveal_strlit("&ptsigx=([^&]+)&s_url");
        reveal_strlit("&uin=([^&]+)&service");
    }
    let sigx = regex_first_group(sp, text);
    let uin = regex_first_group(up, text);
    (state, None, sigx, uin)
}

/// The outcome of polling a WeChat login QR code: its state, a message, and,
/// once done, the authorization code.
pub open spec fn wechat_poll_spec(text: Seq<char>) -> (MusicLoginQrState, Option<Seq<char>>, Option<Seq<char>>) {
    match regex_capture(wechat_poll_pattern(), text, 0) {
        None => (MusicLoginQrState::Other, Some("invalid wechat response"@), None),
        Some(_) => {
            let err = match regex_capture(wechat_poll_pattern(), text, 1) {
                Some(g) => match parse_i32(g) {
                    Some(e) => e,
                    None => 0,
                },
                None => 0,
            };
            let code = match regex_capture(wechat_poll_pattern(), text, 2) {
                Some(g) => g,
                None => Seq::empty(),
            };
            let state = wechat_qr_state_spec(err);
            (
                state,
                None,
                if state == MusicLoginQrState::Done && textops::trim(code).len() > 0 {
                    Some(code)
                } else {
                    None
                },
            )
        },
    }
}

/// Reads the reply of a WeChat login poll.
pub fn wechat_poll_outcome(text: &str) -> (r: (MusicLoginQrState, Option<String>, Option<String>))
    ensures
        (r.0, opt_seq(r.1), opt_seq(r.2)) == wechat_poll_spec(text@),
{
    let pat = "window\\.wx_errcode=(\\d+);window\\.wx_code='([^']*)'";
    proof {
        reveal_strlit("window\\.wx_errcode=(\\d+);window\\.wx_code='([^']*)'");
    }
    let caps = match regex_captures(pat, text) {
        Some(c) => c,
        None => {
            return (MusicLoginQrState::Other, Some("invalid wechat response".to_owned()), None);
        },
    };
    let err: i32 = match &caps.0 {
        Some(g) => match parse_i32_exec(&textops::chars_of(g.as_str())) {
            Some(e) => e,
            None => 0,
        },
        None => 0,
    };
    let code: String = match &caps.1 {
        Some(g) => g.clone(),
        None => String::new(),
    };
    let (state, sig) = wechat_qr_result(err, code.as_str());
    (state, None, sig)
}

/// The `uuid` of a WeChat login page; an error when it has none.
pub fn wechat_uuid(html: &str) -> (r: Result<String, MusicError>)
    ensures
        regex_capture(wechat_uuid_pattern(), html@, 1) is None ==> (r matches Err(
            MusicError::Parse(m),
        ) && m@ == "missing wechat uuid"@),
        regex_capture(wechat_uuid_pattern(), html@, 1) matches Some(u) ==> (r matches Ok(v) && v@
            == u),
{
    let pat = "uuid=([^\"]+)\"";
    proof {
        reveal_strlit("uuid=([^\"]+)\"");
    }
    match regex_first_group(pat, html) {
        Some(u) => Ok(u),
        None => Err(MusicError::Parse("missing wechat uuid".to_owned())),
    }
}

/// The authorization code of a login redirect's `Location`; an error when
/// there is none or it holds no code.
pub fn authorize_code(location: &str) -> (r: Result<String, MusicError>)
    ensures
        location@.len() == 0 ==> (r matches Err(MusicError::Other(m)) && m@ == "missing Location"@),
        location@.len() > 0 && regex_capture(location_code_pattern(), location@, 1) is None ==> (
        r matches Err(MusicError::Other(m)) && m@ == "missing code in redirect"@),
        location@.len() > 0 ==> (regex_capture(location_code_pattern(), location@, 1) matches Some(c)
            ==> (r matches Ok(v) && v@ == c)),
{
    if location.is_empty() {
        return Err(MusicError::Other("missing Location".to_owned()));
    }
    let pat = "code=([^&]+)";
    proof {
        reveal_strlit("code=([^&]+)");
    }
    match regex_first_group(pat, location) {
        Some(c) => Ok(c),
        None => Err(MusicError::Other("missing code in redirect".to_owned())),
    }
}

/// The value of cookie `name` set by `Set-Cookie` headers (`None` for a
/// header that is not visible ASCII): the text after `name=` up to the first
/// `;`, from the first such header where it is not blank. A header that is
/// not readable ends the search with nothing.
pub open spec fn cookie_value(headers: Seq<Option<String>>, name: Seq<char>) -> Option<Seq<char>>
    decreases headers.len(),
{
    if headers.len() == 0 {
        None
    } else {
        match headers[0] {
            None => None,
            Some(h) => {
                let p = name + "="@;
                if textops::starts_with(h@, p) {
                    let rest = h@.subrange(p.len() as int, h@.len() as int);
                    let value = match textops::first_index_of(rest, ';') {
                        Some(i) => rest.take(i),
                        None => rest,
                    };
                    if textops::trim(value).len() > 0 {
                        Some(value)
                    } else {
                        cookie_value(headers.drop_first(), name)
                    }
                } else {
                    cookie_value(headers.drop_first(), name)
                }
            },
        }
    }
}

/// The value of cookie `name` set by `Set-Cookie` headers.
pub fn extract_cookie(headers: &Vec<Option<String>>, name: &str) -> (r: Option<String>)
    ensures
        opt_seq(r) == cookie_value(headers@, name@),
{
    let mut p = textops::chars_of(name);
    p.push('=');
    proof {
        reveal_strlit("=");
        assert(p@ =~= name@ + "="@);
    }
    let mut i: usize = 0;
    assert(headers@.subrange(0, headers@.len() as int) =~= headers@);
    while i < headers.len()
        invariant
            i <= headers.len(),
            p@ == name@ + "="@,
            cookie_value(headers@, name@) == cookie_value(
                headers@.subrange(i as int, headers@.len() as int),
                name@,
            ),
        decreases headers.len() - i,
    {
        let ghost rest = headers@.subrange(i as int, headers@.len() as int);
        assert(rest[0] == headers@[i as int]);
        assert(rest.drop_first() =~= headers@.subrange(i + 1, headers@.len() as int));
        match &headers[i] {
            None => {
                return None;
            },
            Some(h) => {
                let hv = textops::chars_of(h.as_str());
                if p.len() <= hv.len() && textops::starts_with_exec(&hv, &p) {
                    let tail = textops::slice_vec(&hv, p.len(), hv.len());
                    let value: Vec<char> = match textops::find_char(&tail, ';') {
                        Some(k) => textops::slice_vec(&tail, 0, k),
                        None => tail,
                    };
                    proof {
                        assert(tail@.subrange(0, tail@.len() as int) =~= tail@);
                    }
                    if !textops::is_blank(&value) {
                        return Some(textops::string_of(value.as_slice()));
                    }
                }
            },
        }
        i = i + 1;
    }
    None
}

/// The `qrsig` cookie of a QQ QR code reply; an error when it has none.
pub fn qrsig_cookie(headers: &Vec<Option<String>>) -> (r: Result<String, MusicError>)
    ensures
        cookie_value(headers@, "qrsig"@) is None ==> (r matches Err(MusicError::Parse(m)) && m@
            == "missing qrsig cookie"@),
        cookie_value(headers@, "qrsig"@) matches Some(v) ==> (r matches Ok(s) && s@ == v),
{
    match extract_cookie(headers, "qrsig") {
        Some(v) => Ok(v),
        None => Err(MusicError::Parse("missing qrsig cookie".to_owned())),
    }
}

/// The `p_skey` cookie after the signature check; an error when it has none.
pub fn p_skey_cookie(headers: &Vec<Option<String>>) -> (r: Result<String, MusicError>)
    ensures
        cookie_value(headers@, "p_skey"@) is None ==> (r matches Err(MusicError::Other(m)) && m@
            == "missing p_skey"@),
        cookie_value(headers@, "p_skey"@) matches Some(v) ==> (r matches Ok(s) && s@ == v),
{
    match extract_cookie(headers, "p_skey") {
        Some(v) => Ok(v),
        None => Err(MusicError::Other("missing p_skey".to_owned())),
    }
}

/// The `ptsigx` and `uin` of a confirmed QQ login, trimmed; an error when
/// either is blank.
pub fn authorize_inputs(sigx: &str, uin: &str) -> (r: Result<(String, String), MusicError>)
    ensures
        textops::trim(sigx@).len() == 0 || textops::trim(uin@).len() == 0 ==> (r matches Err(
            MusicError::InvalidInput(m),
        ) && m@ == "missing sigx/uin"@),
        textops::trim(sigx@).len() > 0 && textops::trim(uin@).len() > 0 ==> (r matches Ok((s, u))
            && s@ == textops::trim(sigx@) && u@ == textops::trim(uin@)),
{
    let s = textops::trim_vec(&textops::chars_of(sigx));
    let u = textops::trim_vec(&textops::chars_of(uin));
    if s.len() == 0 || u.len() == 0 {
        return Err(MusicError::InvalidInput("missing sigx/uin".to_owned()));
    }
    Ok((textops::string_of(s.as_slice()), textops::string_of(u.as_slice())))
}

/// The code of an authorization, trimmed; an error when it is blank.
pub fn login_code(code: &str) -> (r: Result<String, MusicError>)
    ensures
        textops::trim(code@).len() == 0 ==> (r matches Err(MusicError::InvalidInput(m)) && m@
            == "empty code"@),
        textops::trim(code@).len() > 0 ==> (r matches Ok(c) && c@ == textops::trim(code@)),
{
    proof {
        reveal_strlit("empty code");
        reveal_strlit("empty ");
        reveal_strlit("code");
        assert("empty "@ + "code"@ =~= "empty code"@);
    }
    required_id(code, "code")
}

/// What a cookie refresh is made of: the login type, the music id, the music
/// key and the refresh key.
#[derive(Debug, Clone)]
pub struct RefreshRequest {
    pub login_type: i64,
    pub str_musicid: String,
    pub musickey: String,
    pub refresh_key: String,
}

/// The music id a refresh uses: `str_musicid`, else `musicid`, trimmed.
pub open spec fn refresh_musicid(c: QqMusicCookie) -> Seq<char> {
    textops::trim(
        match c.str_musicid {
            Some(s) => s@,
            None => or_empty(c.musicid),
        },
    )
}

/// Checks a cookie before a refresh and gathers what the refresh is made of.
pub fn refresh_request(cookie: &QqMusicCookie) -> (r: Result<RefreshRequest, MusicError>)
    ensures
        cookie.login_type is None ==> (r matches Err(MusicError::InvalidInput(m)) && m@
            == "cookie.loginType missing"@),
        cookie.login_type is Some && (refresh_musicid(*cookie).len() == 0 || textops::trim(
            or_empty(cookie.musickey),
        ).len() == 0 || textops::trim(or_empty(cookie.refresh_key)).len() == 0) ==> (r matches Err(
            MusicError::InvalidInput(m),
        ) && m@ == "cookie missing strMusicid/musickey/refreshKey"@),
        cookie.login_type matches Some(t) ==> (refresh_musicid(*cookie).len() > 0 && textops::trim(
            or_empty(cookie.musickey),
        ).len() > 0 && textops::trim(or_empty(cookie.refresh_key)).len() > 0 ==> (r matches Ok(q)
            && q.login_type == t && q.str_musicid@ == refresh_musicid(*cookie) && q.musickey@
            == textops::trim(or_empty(cookie.musickey)) && q.refresh_key@ == textops::trim(
            or_empty(cookie.refresh_key),
        ))),
{
    let login_type = match cookie.login_type {
        Some(t) => t,
        None => return Err(MusicError::InvalidInput("cookie.loginType missing".to_owned())),
    };
    let id_src: String = match &cookie.str_musicid {
        Some(s) => s.clone(),
        None => crate::music::catalog::string_or_empty_pub(&cookie.musicid),
    };
    let id = textops::trim_vec(&textops::chars_of(id_src.as_str()));
    let key = textops::trim_vec(
        &textops::chars_of(crate::music::catalog::string_or_empty_pub(&cookie.musickey).as_str()),
    );
    let rk = textops::trim_vec(
        &textops::chars_of(crate::music::catalog::string_or_empty_pub(&cookie.refresh_key).as_str()),
    );
    if id.len() == 0 || key.len() == 0 || rk.len() == 0 {
        return Err(MusicError::InvalidInput("cookie missing strMusicid/musickey/refreshKey".to_owned()));
    }
    Ok(
        RefreshRequest {
            login_type,
            str_musicid: textops::string_of(id.as_slice()),
            musickey: textops::string_of(key.as_slice()),
            refresh_key: textops::string_of(rk.as_slice()),
        },
    )
}

/// Which login call a reply answers.
#[derive(Debug, Clone, Copy, PartialEq, Eq, Structural)]
pub enum LoginCall {
    /// Exchanging an authorization code for a cookie.
    Exchange,
    /// Refreshing a cookie.
    Refresh,
}

/// A login reply, as read: its outer code, whether it holds the request node
/// (`req`, or `req1`), that node's code and message, and whether it holds
/// the cookie data.
#[derive(Debug, Clone)]
pub struct LoginReply {
    pub code: Option<i64>,
    pub has_req: bool,
    pub req_code: Option<i64>,
    pub req_msg: Option<String>,
    pub has_data: bool,
}

/// A code, -1 when absent.
pub open spec fn code_or_minus_one(c: Option<i64>) -> int {
    match c {
        Some(v) => v as int,
        None => -1,
    }
}

/// The error a login reply stands for, if any.
pub open spec fn login_reply_error(call: LoginCall, r: LoginReply) -> Option<(int, Seq<char>)> {
    if code_or_minus_one(r.code) != 0 {
        Some((0, (if call == LoginCall::Exchange { "qq login code="@ } else { "refresh code="@ })
            + textops::signed_decimal(code_or_minus_one(r.code))))
    } else if !r.has_req {
        Some((1, if call == LoginCall::Exchange { "missing req"@ } else { "missing req1"@ }))
    } else if code_or_minus_one(r.req_code) != 0 {
        Some((0, match r.req_msg {
            Some(m) => m@,
            None => if call == LoginCall::Exchange { "login failed"@ } else { "refresh failed"@ },
        }))
    } else if !r.has_data {
        Some((1, "missing cookie data"@))
    } else {
        None
    }
}

/// Checks a login reply: `Ok` when it holds cookie data, else the error it
/// stands for (kind 0 is `Other`, kind 1 is `Parse`).
pub fn check_login_reply(call: LoginCall, r: &LoginReply) -> (res: Result<(), MusicError>)
    ensures
        match login_reply_error(call, *r) {
            None => res is Ok,
            Some((kind, m)) => if kind == 0 {
                res matches Err(MusicError::Other(e)) && e@ == m
            } else {
                res matches Err(MusicError::Parse(e)) && e@ == m
            },
        },
{
    let outer: i64 = match r.code {
        Some(c) => c,
        None => -1,
    };
    if outer != 0 {
        let mut m = match call {
            LoginCall::Exchange => textops::chars_of("qq login code="),
            LoginCall::Refresh => textops::chars_of("refresh code="),
        };
        textops::push_signed_decimal(&mut m, outer);
        return Err(MusicError::Other(textops::string_of(m.as_slice())));
    }
    if !r.has_req {
        return Err(
            MusicError::Parse(
                match call {
                    LoginCall::Exchange => "missing req".to_owned(),
                    LoginCall::Refresh => "missing req1".to_owned(),
                },
            ),
        );
    }
    let inner: i64 = match r.req_code {
        Some(c) => c,
        None => -1,
    };
    if inner != 0 {
        let msg: String = match &r.req_msg {
            Some(m) => m.clone(),
            None => match call {
                LoginCall::Exchange => "login failed".to_owned(),
                LoginCall::Refresh => "refresh failed".to_owned(),
            },
        };
        return Err(MusicError::Other(msg));
    }
    if !r.has_data {
        return Err(MusicError::Parse("missing cookie data".to_owned()));
    }
    Ok(())
}

/// The form of the QQ authorization request, with the `g_tk` token, the
/// authorization time and its MD5.
pub open spec fn authorize_form_pairs(gtk: Seq<char>, auth_time: Seq<char>, ui: Seq<char>) -> Seq<(Seq<char>, Seq<char>)> {
    seq![
        ("response_type"@, "code"@),
        ("client_id"@, "100497308"@),
        ("redirect_uri"@, "https://y.qq.com/portal/wx_redirect.html?login_type=1&surl=https://y.qq.com"@),
        ("state"@, "state"@),
        ("switch"@, ""@),
        ("from_ptlogin"@, "1"@),
        ("src"@, "1"@),
        ("update_auth"@, "1"@),
        ("openapi"@, "1010_1030"@),
        ("g_tk"@, gtk),
        ("auth_time"@, auth_time),
        ("ui"@, ui),
    ]
}

/// The form of the QQ authorization request: `g_tk` is the hash of the
/// `p_skey` cookie (seed 5381), `ui` the MD5 of the authorization time.
pub fn authorize_form(p_skey: &str, auth_time_ms: i64) -> (r: Vec<(String, String)>)
    ensures
        crate::music::providers::pair_views(r@) == authorize_form_pairs(
            textops::signed_decimal(crate::music::providers::sig_hash_value(p_skey@, 5381) % 0x8000_0000),
            textops::signed_decimal(auth_time_ms as int),
            crate::music::providers::md5_digest_hex(vstd::utf8::encode_utf8(textops::signed_decimal(auth_time_ms as int))),
        ),
{
    let gtk = crate::music::providers::sig_hash(p_skey, 5381);
    let mut g: Vec<char> = Vec::new();
    textops::push_signed_decimal(&mut g, gtk);
    let mut t: Vec<char> = Vec::new();
    textops::push_signed_decimal(&mut t, auth_time_ms);
    let auth_time = textops::string_of(t.as_slice());
    let ui = crate::music::providers::md5_hex_lower(auth_time.as_str());
    let mut out: Vec<(String, String)> = Vec::new();
    out.push(("response_type".to_owned(), "code".to_owned()));
    out.push(("client_id".to_owned(), "100497308".to_owned()));
    out.push(
        (
            "redirect_uri".to_owned(),
            "https://y.qq.com/portal/wx_redirect.html?login_type=1&surl=https://y.qq.com".to_owned(),
        ),
    );
    out.push(("state".to_owned(), "state".to_owned()));
    out.push(("switch".to_owned(), "".to_owned()));
    out.push(("from_ptlogin".to_owned(), "1".to_owned()));
    out.push(("src".to_owned(), "1".to_owned()));
    out.push(("update_auth".to_owned(), "1".to_owned()));
    out.push(("openapi".to_owned(), "1010_1030".to_owned()));
    out.push(("g_tk".to_owned(), textops::string_of(g.as_slice())));
    out.push(("auth_time".to_owned(), auth_time));
    out.push(("ui".to_owned(), ui));
    out
}

} // verus!
