//! The Kugou request conventions: the device identity sent with every
//! request, the default query parameters and headers, how parameters are
//! signed, and where requests go.

use vstd::prelude::*;
use std::collections::BTreeMap;
use crate::textops;
use crate::music::catalog::or_empty;
use crate::music::error::MusicError;
use crate::music::model::AuthState;
use crate::music::providers::{
    auth_token_userid, calculate_mid, is_android_signature, is_register_signature, is_web_signature,
    mid_of, pair_views, signature_android_params,
    signature_register_params, signature_web_params, trimmed_or_none, EncryptType, KugouQr,
};
use crate::music::requests::random_below;

verus! {

/// The Kugou application id.
pub open spec fn kugou_appid() -> Seq<char> {
    "1005"@
}

/// The Kugou application id.
pub fn appid() -> (r: &'static str)
    ensures
        r@ == kugou_appid(),
{
    "1005"
}

/// The Kugou source application id of login requests.
pub fn srcappid() -> (r: &'static str)
    ensures
        r@ == "2919"@,
{
    "2919"
}

/// A device of this client, made up once per process.
#[derive(Debug, Clone)]
pub struct KugouDevice {
    pub dfid: String,
    pub mid: String,
    pub uuid: String,
}

/// `len` characters drawn at random from `alphabet`.
pub fn random_text(len: usize, alphabet: &str) -> (r: String)
    requires
        alphabet@.len() > 0,
    ensures
        r@.len() == len,
        forall|i: int| 0 <= i < len ==> alphabet@.contains(#[trigger] r@[i]),
{
    let a = textops::chars_of(alphabet);
    let mut v: Vec<char> = Vec::new();
    let mut i: usize = 0;
    while i < len
        invariant
            i <= len,
            v@.len() == i,
            a@ == alphabet@,
            a@.len() > 0,
            forall|j: int| 0 <= j < i ==> alphabet@.contains(#[trigger] v@[j]),
        decreases len - i,
    {
        let k = random_below(a.len());
        v.push(a[k]);
        assert(alphabet@[k as int] == v@[i as int]);
        i = i + 1;
    }
    textops::string_of(v.as_slice())
}

/// The characters of a device's `dfid`.
pub open spec fn dfid_chars() -> Seq<char> {
    "1234567890ABCDEFGHIJKLMNOPQRSTUVWXYZ"@
}

/// Lower-case hexadecimal digits.
pub open spec fn hex_chars() -> Seq<char> {
    "0123456789abcdef"@
}

/// A new device: a random 24-character `dfid`, the `mid` of a random
/// 32-digit hexadecimal guid, and `-` as its uuid.
pub fn new_device() -> (d: KugouDevice)
    ensures
        d.dfid@.len() == 24,
        forall|i: int| 0 <= i < 24 ==> dfid_chars().contains(#[trigger] d.dfid@[i]),
        exists|g: Seq<char>|
            g.len() == 32 && (forall|i: int| 0 <= i < 32 ==> hex_chars().contains(#[trigger] g[i]))
                && d.mid@ == mid_of(g),
        d.uuid@ == "-"@,
{
    proof {
        reveal_strlit("1234567890ABCDEFGHIJKLMNOPQRSTUVWXYZ");
        reveal_strlit("0123456789abcdef");
    }
    let guid = random_text(32, "0123456789abcdef");
    let dfid = random_text(24, "1234567890ABCDEFGHIJKLMNOPQRSTUVWXYZ");
    let mid = calculate_mid(guid.as_str());
    KugouDevice { dfid, mid, uuid: "-".to_owned() }
}

/// The login parameters of a request: the token when present, the user id
/// when present and not `0`.
pub open spec fn login_pairs(auth: Option<&AuthState>) -> Seq<(Seq<char>, Seq<char>)> {
    match auth {
        Some(a) => match a.kugou {
            Some(u) => (match trimmed_or_none(u.token@) {
                Some(t) => seq![("token"@, t)],
                None => Seq::empty(),
            }) + (match trimmed_or_none(u.userid@) {
                Some(t) => if t == "0"@ {
                    Seq::empty()
                } else {
                    seq![("userid"@, t)]
                },
                None => Seq::empty(),
            }),
            None => Seq::empty(),
        },
        None => Seq::empty(),
    }
}

/// The default parameters of a Kugou request at `clienttime` (in seconds).
pub open spec fn default_pairs(dev: KugouDevice, clienttime: i64, auth: Option<&AuthState>) -> Seq<
    (Seq<char>, Seq<char>),
> {
    seq![
        ("dfid"@, dev.dfid@),
        ("mid"@, dev.mid@),
        ("uuid"@, dev.uuid@),
        ("appid"@, kugou_appid()),
        ("clientver"@, "20489"@),
        ("clienttime"@, textops::signed_decimal(clienttime as int)),
    ] + login_pairs(auth)
}

/// The default parameters of a Kugou request.
pub fn default_params(dev: &KugouDevice, clienttime: i64, auth: Option<&AuthState>) -> (r: Vec<
    (String, String),
>)
    ensures
        pair_views(r@) == default_pairs(*dev, clienttime, auth),
{
    let mut out: Vec<(String, String)> = Vec::new();
    out.push(("dfid".to_owned(), dev.dfid.clone()));
    out.push(("mid".to_owned(), dev.mid.clone()));
    out.push(("uuid".to_owned(), dev.uuid.clone()));
    out.push(("appid".to_owned(), "1005".to_owned()));
    out.push(("clientver".to_owned(), "20489".to_owned()));
    let mut t: Vec<char> = Vec::new();
    textops::push_signed_decimal(&mut t, clienttime);
    out.push(("clienttime".to_owned(), textops::string_of(t.as_slice())));
    let ghost base = pair_views(out@);
    assert(base =~= seq![
        ("dfid"@, dev.dfid@),
        ("mid"@, dev.mid@),
        ("uuid"@, dev.uuid@),
        ("appid"@, kugou_appid()),
        ("clientver"@, "20489"@),
        ("clienttime"@, textops::signed_decimal(clienttime as int)),
    ]);
    let (token, userid) = auth_token_userid(auth);
    match token {
        Some(tk) => {
            out.push(("token".to_owned(), tk));
        },
        None => {},
    }
    let ghost with_token = pair_views(out@);
    match userid {
        Some(u) => {
            let zero = textops::chars_of("0");
            if !textops::eq_vec(&textops::chars_of(u.as_str()), &zero) {
                out.push(("userid".to_owned(), u));
            }
        },
        None => {},
    }
    assert(pair_views(out@) =~= default_pairs(*dev, clienttime, auth));
    out
}

/// The user agent of Kugou requests.
pub open spec fn kugou_ua() -> Seq<char> {
    "Android15-1070-11083-46-0-DiscoveryDRADProtocol-wifi"@
}

/// The headers of a Kugou request: user agent, device, time and the fixed
/// `kg-*` headers, then the router and the tid when given and not blank.
pub open spec fn header_pairs(
    dev: KugouDevice,
    clienttime: Seq<char>,
    router: Option<Seq<char>>,
    kg_tid: Option<Seq<char>>,
) -> Seq<(Seq<char>, Seq<char>)> {
    seq![
        ("user-agent"@, kugou_ua()),
        ("dfid"@, dev.dfid@),
        ("mid"@, dev.mid@),
        ("clienttime"@, clienttime),
        ("kg-rc"@, "1"@),
        ("kg-thash"@, "5d816a0"@),
        ("kg-rec"@, "1"@),
        ("kg-rf"@, "B9EDA08A64250DEFFBCADDEE00F8F25F"@),
    ] + (match router {
        Some(r) => match trimmed_or_none(r) {
            Some(t) => seq![("x-router"@, t)],
            None => Seq::empty(),
        },
        None => Seq::empty(),
    }) + (match kg_tid {
        Some(r) => match trimmed_or_none(r) {
            Some(t) => seq![("kg-tid"@, t)],
            None => Seq::empty(),
        },
        None => Seq::empty(),
    })
}

/// The view of an optional `&str`.
pub open spec fn ostr(o: Option<&str>) -> Option<Seq<char>> {
    match o {
        Some(s) => Some(s@),
        None => None,
    }
}

/// The trimmed text, none when blank.
fn trimmed(s: &str) -> (r: Option<String>)
    ensures
        match trimmed_or_none(s@) {
            Some(t) => r matches Some(x) && x@ == t,
            None => r is None,
        },
{
    let t = textops::trim_vec(&textops::chars_of(s));
    if t.len() == 0 {
        None
    } else {
        Some(textops::string_of(t.as_slice()))
    }
}

/// The headers of a Kugou request, as names and values.
pub fn headers(dev: &KugouDevice, clienttime: &str, router: Option<&str>, kg_tid: Option<&str>) -> (r: Vec<
    (String, String),
>)
    ensures
        pair_views(r@) == header_pairs(*dev, clienttime@, ostr(router), ostr(kg_tid)),
{
    let mut out: Vec<(String, String)> = Vec::new();
    out.push(("user-agent".to_owned(), "Android15-1070-11083-46-0-DiscoveryDRADProtocol-wifi".to_owned()));
    out.push(("dfid".to_owned(), dev.dfid.clone()));
    out.push(("mid".to_owned(), dev.mid.clone()));
    out.push(("clienttime".to_owned(), clienttime.to_owned()));
    out.push(("kg-rc".to_owned(), "1".to_owned()));
    out.push(("kg-thash".to_owned(), "5d816a0".to_owned()));
    out.push(("kg-rec".to_owned(), "1".to_owned()));
    out.push(("kg-rf".to_owned(), "B9EDA08A64250DEFFBCADDEE00F8F25F".to_owned()));
    match router {
        Some(r) => match trimmed(r) {
            Some(t) => out.push(("x-router".to_owned(), t)),
            None => {},
        },
        None => {},
    }
    match kg_tid {
        Some(k) => match trimmed(k) {
            Some(t) => out.push(("kg-tid".to_owned(), t)),
            None => {},
        },
        None => {},
    }
    assert(pair_views(out@) =~= header_pairs(*dev, clienttime@, ostr(router), ostr(kg_tid)));
    out
}

/// The signature of a request's parameters (and body), by its signing scheme.
pub fn sign_params(params: &BTreeMap<String, String>, data: Option<&str>, encrypt: EncryptType) -> (r: String)
    ensures
        encrypt == EncryptType::Android ==> is_android_signature(
            r@,
            params.deep_view(),
            match data {
                Some(d) => d@,
                None => Seq::empty(),
            },
        ),
        encrypt == EncryptType::Web ==> is_web_signature(r@, params.deep_view()),
        encrypt == EncryptType::Register ==> is_register_signature(r@, params.deep_view()),
{
    match encrypt {
        EncryptType::Android => signature_android_params(params, data),
        EncryptType::Web => signature_web_params(params),
        EncryptType::Register => signature_register_params(params),
    }
}

/// Where a request goes: the base without trailing slashes, then the path.
pub fn request_url(base: &str, path: &str) -> (r: String)
    ensures
        r@ == textops::rstrip_char(base@, '/') + path@,
{
    let b = textops::rstrip_char_vec(&textops::chars_of(base), '/');
    let mut v = b;
    textops::push_all(&mut v, &textops::chars_of(path));
    textops::string_of(v.as_slice())
}

/// The login app id of a QR login: 1001 for QQ, 1014 for WeChat.
pub open spec fn qr_login_appid(wechat: bool) -> Seq<char> {
    if wechat {
        "1014"@
    } else {
        "1001"@
    }
}

/// The parameters that ask Kugou for a login QR code.
pub open spec fn qr_create_pairs(wechat: bool) -> Seq<(Seq<char>, Seq<char>)> {
    seq![
        ("appid"@, qr_login_appid(wechat)),
        ("type"@, "1"@),
        ("plat"@, "4"@),
        ("qrcode_txt"@, "https://h5.kugou.com/apps/loginQRCode/html/index.html?appid=1005&"@),
        ("srcappid"@, "2919"@),
    ]
}

/// The parameters that ask Kugou for a login QR code (QQ or WeChat login).
pub fn qr_create_params(wechat: bool) -> (r: Vec<(String, String)>)
    ensures
        pair_views(r@) == qr_create_pairs(wechat),
{
    let mut out: Vec<(String, String)> = Vec::new();
    out.push(("appid".to_owned(), if wechat { "1014".to_owned() } else { "1001".to_owned() }));
    out.push(("type".to_owned(), "1".to_owned()));
    out.push(("plat".to_owned(), "4".to_owned()));
    out.push(
        ("qrcode_txt".to_owned(), "https://h5.kugou.com/apps/loginQRCode/html/index.html?appid=1005&".to_owned()),
    );
    out.push(("srcappid".to_owned(), "2919".to_owned()));
    assert(pair_views(out@) =~= qr_create_pairs(wechat));
    out
}

/// The parameters that poll a Kugou login QR code; an error when the key is
/// blank.
pub fn qr_poll_params(wechat: bool, key: &str) -> (r: Result<Vec<(String, String)>, MusicError>)
    ensures
        textops::trim(key@).len() == 0 ==> (r matches Err(MusicError::InvalidInput(m)) && m@ == "empty key"@),
        textops::trim(key@).len() > 0 ==> (r matches Ok(v) && pair_views(v@) == seq![
            ("plat"@, "4"@),
            ("appid"@, qr_login_appid(wechat)),
            ("srcappid"@, "2919"@),
            ("qrcode"@, textops::trim(key@)),
        ]),
{
    let k = textops::trim_vec(&textops::chars_of(key));
    if k.len() == 0 {
        return Err(MusicError::InvalidInput("empty key".to_owned()));
    }
    let mut out: Vec<(String, String)> = Vec::new();
    out.push(("plat".to_owned(), "4".to_owned()));
    out.push(("appid".to_owned(), if wechat { "1014".to_owned() } else { "1001".to_owned() }));
    out.push(("srcappid".to_owned(), "2919".to_owned()));
    out.push(("qrcode".to_owned(), textops::string_of(k.as_slice())));
    assert(pair_views(out@) =~= seq![
        ("plat"@, "4"@),
        ("appid"@, qr_login_appid(wechat)),
        ("srcappid"@, "2919"@),
        ("qrcode"@, textops::trim(key@)),
    ]);
    Ok(out)
}

/// A status, 0 when absent.
pub open spec fn status_or_zero(s: Option<i64>) -> int {
    match s {
        Some(v) => v as int,
        None => 0,
    }
}

/// The QR code of a Kugou reply: its key and image, trimmed; an error when
/// the reply failed or either is blank.
pub fn qr_created(status: Option<i64>, key: &Option<String>, image: &Option<String>) -> (r: Result<KugouQr, MusicError>)
    ensures
        status_or_zero(status) != 1 ==> (r matches Err(MusicError::Other(m)) && m@
            == "kugou: qrcode status="@ + textops::signed_decimal(status_or_zero(status))),
        status_or_zero(status) == 1 && (textops::trim(or_empty(*key)).len() == 0 || textops::trim(
            or_empty(*image),
        ).len() == 0) ==> (r matches Err(MusicError::Parse(m)) && m@
            == "kugou: missing qrcode/qrcode_img"@),
        status_or_zero(status) == 1 && textops::trim(or_empty(*key)).len() > 0 && textops::trim(
            or_empty(*image),
        ).len() > 0 ==> (r matches Ok(q) && q.key@ == textops::trim(or_empty(*key)) && q.image_base64@
            == textops::trim(or_empty(*image))),
{
    let st: i64 = match status {
        Some(v) => v,
        None => 0,
    };
    if st != 1 {
        let mut m = textops::chars_of("kugou: qrcode status=");
        textops::push_signed_decimal(&mut m, st);
        return Err(MusicError::Other(textops::string_of(m.as_slice())));
    }
    let k = textops::trim_vec(&textops::chars_of(crate::music::catalog::string_or_empty_pub(key).as_str()));
    let i = textops::trim_vec(&textops::chars_of(crate::music::catalog::string_or_empty_pub(image).as_str()));
    if k.len() == 0 || i.len() == 0 {
        return Err(MusicError::Parse("kugou: missing qrcode/qrcode_img".to_owned()));
    }
    Ok(KugouQr { key: textops::string_of(k.as_slice()), image_base64: textops::string_of(i.as_slice()) })
}

/// A WeChat login QR code: its key and its image as a PNG data URI.
pub fn wx_qr_created(status: Option<i64>, key: &Option<String>, image: &Option<String>) -> (r: Result<(String, String), MusicError>)
    ensures
        match qr_created_spec(status, *key, *image) {
            Ok((k, i)) => r matches Ok((a, b)) && a@ == k && b@ == "data:image/png;base64,"@ + i,
            Err(()) => r is Err,
        },
{
    match qr_created(status, key, image) {
        Ok(q) => {
            let mut v = textops::chars_of("data:image/png;base64,");
            textops::push_all(&mut v, &textops::chars_of(q.image_base64.as_str()));
            Ok((q.key, textops::string_of(v.as_slice())))
        },
        Err(e) => Err(e),
    }
}

/// The key and image of a Kugou QR reply, when it succeeded.
pub open spec fn qr_created_spec(status: Option<i64>, key: Option<String>, image: Option<String>) -> Result<(Seq<char>, Seq<char>), ()> {
    if status_or_zero(status) == 1 && textops::trim(or_empty(key)).len() > 0 && textops::trim(
        or_empty(image),
    ).len() > 0 {
        Ok((textops::trim(or_empty(key)), textops::trim(or_empty(image))))
    } else {
        Err(())
    }
}

} // verus!
