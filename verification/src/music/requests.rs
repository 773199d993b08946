//! What is sent to the providers for a search or a download, and what is
//! made of their download replies. The requests themselves are sent outside
//! this library.

use vstd::prelude::*;
use vstd::utf8::encode_utf8;
use crate::textops;
use crate::lyrics::util::hex_upper;
use crate::music::catalog::{is_empty_id_error, or_empty, ov, required_id};
use crate::music::error::MusicError;
use crate::music::model::{AuthState, QqMusicCookie};
use crate::music::providers::{kuwo_br, map_br, map_quality_to_songtype, pair_views, qq_songtype};

verus! {

/// The keyword of a search, trimmed; `None` when blank (nothing is searched).
pub fn search_query(keyword: &str) -> (r: Option<String>)
    ensures
        textops::trim(keyword@).len() == 0 ==> r is None,
        textops::trim(keyword@).len() > 0 ==> (r matches Some(q) && q@ == textops::trim(keyword@)),
{
    let t = textops::trim_vec(&textops::chars_of(keyword));
    if t.len() == 0 {
        None
    } else {
        Some(textops::string_of(t.as_slice()))
    }
}

/// The page number sent for a search: at least 1.
pub open spec fn page_number(page: u32) -> u32 {
    if page < 1 {
        1
    } else {
        page
    }
}

/// The page size sent for a search: between 1 and `max_size`.
pub open spec fn page_limit(page_size: u32, max_size: u32) -> u32 {
    if page_size < 1 {
        1
    } else if page_size > max_size {
        max_size
    } else {
        page_size
    }
}

/// The page number and page size sent for a search.
pub fn search_paging(page: u32, page_size: u32, max_size: u32) -> (r: (u32, u32))
    requires
        max_size >= 1,
    ensures
        r == (page_number(page), page_limit(page_size, max_size)),
{
    let p = if page < 1 {
        1
    } else {
        page
    };
    let s = if page_size < 1 {
        1
    } else if page_size > max_size {
        max_size
    } else {
        page_size
    };
    (p, s)
}

/// The zero-based index of a page counted from 1.
pub open spec fn page_index(page: u32) -> int {
    if page > 0 {
        page - 1
    } else {
        0
    }
}

/// The NetEase search offset: the entries of the pages before `page`.
pub fn netease_offset(page: u32, page_size: u32) -> (r: u32)
    requires
        page_index(page) * page_size <= u32::MAX,
    ensures
        r == page_index(page) * page_size,
{
    let p = if page > 0 {
        page - 1
    } else {
        0
    };
    p * page_size
}

/// The decimal notation of a number as a string.
fn decimal_text(n: u32) -> (r: String)
    ensures
        r@ == textops::decimal(n as nat),
{
    let mut v: Vec<char> = Vec::new();
    textops::push_decimal(&mut v, n as u64);
    assert(v@ =~= textops::decimal(n as nat));
    textops::string_of(v.as_slice())
}

/// The parameters of a Kugou search.
pub open spec fn kugou_search_pairs(query: Seq<char>, page: u32, page_size: u32) -> Seq<(Seq<char>, Seq<char>)> {
    seq![
        ("albumhide"@, "0"@),
        ("iscorrection"@, "1"@),
        ("keyword"@, query),
        ("nocollect"@, "0"@),
        ("page"@, textops::decimal(page_number(page) as nat)),
        ("pagesize"@, textops::decimal(page_limit(page_size, 50) as nat)),
        ("platform"@, "AndroidFilter"@),
    ]
}

/// The parameters of a Kugou search for `query`, in key order.
pub fn kugou_search_params(query: &str, page: u32, page_size: u32) -> (r: Vec<(String, String)>)
    ensures
        pair_views(r@) == kugou_search_pairs(query@, page, page_size),
{
    let (p, s) = search_paging(page, page_size, 50);
    let mut out: Vec<(String, String)> = Vec::new();
    out.push(("albumhide".to_owned(), "0".to_owned()));
    out.push(("iscorrection".to_owned(), "1".to_owned()));
    out.push(("keyword".to_owned(), query.to_owned()));
    out.push(("nocollect".to_owned(), "0".to_owned()));
    out.push(("page".to_owned(), decimal_text(p)));
    out.push(("pagesize".to_owned(), decimal_text(s)));
    out.push(("platform".to_owned(), "AndroidFilter".to_owned()));
    assert(pair_views(out@) =~= kugou_search_pairs(query@, page, page_size));
    out
}

/// The extension asked of Kugou for a quality id: `flac` or `mp3`.
pub open spec fn kugou_desired_ext(quality_id: Seq<char>) -> Seq<char> {
    if textops::trim(quality_id) == "flac"@ {
        "flac"@
    } else {
        "mp3"@
    }
}

/// The qualities asked of Kugou for a quality id, best first.
pub open spec fn kugou_quality_list(quality_id: Seq<char>) -> Seq<Seq<char>> {
    let t = textops::trim(quality_id);
    if t == "flac"@ {
        seq!["flac"@, "320"@, "128"@]
    } else if t == "mp3_320"@ {
        seq!["320"@, "128"@]
    } else if t == "mp3_128"@ {
        seq!["128"@]
    } else {
        seq!["320"@, "128"@]
    }
}

/// Whether the Kugou login is missing or blank.
pub open spec fn kugou_login_missing(auth: AuthState) -> bool {
    match auth.kugou {
        Some(u) => textops::trim(u.token@).len() == 0 || textops::trim(u.userid@).len() == 0,
        None => true,
    }
}

/// What a Kugou download request is made of.
#[derive(Debug, Clone)]
pub struct KugouDownloadPlan {
    pub hash: String,
    pub token: String,
    pub userid: String,
    pub desired_ext: &'static str,
    pub qualities: Vec<&'static str>,
}

/// The views of a list of static strings.
pub open spec fn str_views(v: Seq<&'static str>) -> Seq<Seq<char>> {
    v.map_values(|s: &'static str| s@)
}

/// Checks a Kugou download request and gathers what it is made of: the
/// track hash and the login, both trimmed, the extension and the qualities
/// to ask for.
pub fn kugou_download_plan(track_hash: &str, quality_id: &str, auth: &AuthState) -> (r: Result<
    KugouDownloadPlan,
    MusicError,
>)
    ensures
        textops::trim(track_hash@).len() == 0 ==> (r matches Err(e) && is_empty_id_error(e, "track_id"@)),
        textops::trim(track_hash@).len() > 0 && kugou_login_missing(*auth) ==> (r matches Err(
            MusicError::Unauthorized(m),
        ) && m@ == "kugou: missing token/userid"@),
        textops::trim(track_hash@).len() > 0 && !kugou_login_missing(*auth) ==> (r matches Ok(p) && {
            &&& p.hash@ == textops::trim(track_hash@)
            &&& p.token@ == textops::trim(auth.kugou.unwrap().token@)
            &&& p.userid@ == textops::trim(auth.kugou.unwrap().userid@)
            &&& p.desired_ext@ == kugou_desired_ext(quality_id@)
            &&& str_views(p.qualities@) == kugou_quality_list(quality_id@)
        }),
{
    let hash = match required_id(track_hash, "track_id") {
        Ok(h) => h,
        Err(e) => return Err(e),
    };
    let user = match &auth.kugou {
        Some(u) => u,
        None => return Err(MusicError::Unauthorized("kugou: missing token/userid".to_owned())),
    };
    let token = textops::trim_vec(&textops::chars_of(user.token.as_str()));
    let userid = textops::trim_vec(&textops::chars_of(user.userid.as_str()));
    if token.len() == 0 || userid.len() == 0 {
        return Err(MusicError::Unauthorized("kugou: missing token/userid".to_owned()));
    }
    let q = textops::trim_vec(&textops::chars_of(quality_id));
    let flac = textops::chars_of("flac");
    let mp3_320 = textops::chars_of("mp3_320");
    let mp3_128 = textops::chars_of("mp3_128");
    let is_flac = textops::eq_vec(&q, &flac);
    let desired_ext: &'static str = if is_flac {
        "flac"
    } else {
        "mp3"
    };
    let qualities: Vec<&'static str> = if is_flac {
        vec!["flac", "320", "128"]
    } else if textops::eq_vec(&q, &mp3_320) {
        vec!["320", "128"]
    } else if textops::eq_vec(&q, &mp3_128) {
        vec!["128"]
    } else {
        vec!["320", "128"]
    };
    assert(str_views(qualities@) =~= kugou_quality_list(quality_id@));
    Ok(
        KugouDownloadPlan {
            hash,
            token: textops::string_of(token.as_slice()),
            userid: textops::string_of(userid.as_slice()),
            desired_ext,
            qualities,
        },
    )
}

/// What `str::to_lowercase` returns for `s` (full Unicode lower-casing).
pub uninterp spec fn unicode_lower(s: Seq<char>) -> Seq<char>;

/// Calls `str::to_lowercase`.
#[verifier::external_body]
pub(crate) fn to_lowercase(s: &str) -> (r: String)
    ensures
        r@ == unicode_lower(s@),
{
    s.to_lowercase()
}

/// The strings of a reply that are links: each trimmed, those that start
/// with `http` kept, in order.
pub open spec fn http_links(leaves: Seq<String>) -> Seq<Seq<char>>
    decreases leaves.len(),
{
    if leaves.len() == 0 {
        Seq::empty()
    } else {
        let t = textops::trim(leaves.last()@);
        http_links(leaves.drop_last()) + if textops::starts_with(t, "http"@) {
            seq![t]
        } else {
            Seq::empty()
        }
    }
}

/// The first link whose lower-cased text contains `pat`.
pub open spec fn first_containing(links: Seq<Seq<char>>, pat: Seq<char>) -> Option<Seq<char>>
    decreases links.len(),
{
    if links.len() == 0 {
        None
    } else if textops::contains_sub(unicode_lower(links[0]), pat) {
        Some(links[0])
    } else {
        first_containing(links.drop_first(), pat)
    }
}

/// The Kugou download link: the first link with the desired extension, else
/// the first link, else nothing.
pub open spec fn kugou_chosen(links: Seq<Seq<char>>, desired_ext: Seq<char>) -> Seq<char> {
    match first_containing(links, "."@ + desired_ext) {
        Some(u) => u,
        None => if links.len() > 0 {
            links[0]
        } else {
            Seq::empty()
        },
    }
}

/// The extension of a Kugou download link: `flac` or `mp3` when the link
/// says so, else the desired one.
pub open spec fn kugou_link_ext(link: Seq<char>, desired_ext: Seq<char>) -> Seq<char> {
    if textops::contains_sub(unicode_lower(link), ".flac"@) {
        "flac"@
    } else if textops::contains_sub(unicode_lower(link), ".mp3"@) {
        "mp3"@
    } else {
        desired_ext
    }
}

fn contains_lower(s: &String, pat: &Vec<char>) -> (b: bool)
    ensures
        b == textops::contains_sub(unicode_lower(s@), pat@),
{
    let l = to_lowercase(s.as_str());
    textops::contains_sub_exec(&textops::chars_of(l.as_str()), pat)
}

/// Picks the download link out of the strings of a Kugou reply (in the order
/// the reply holds them) and names its extension.
pub fn kugou_pick_download(leaves: &Vec<String>, desired_ext: &str) -> (r: Result<(String, String), MusicError>)
    ensures
        kugou_chosen(http_links(leaves@), desired_ext@).len() == 0 ==> (r matches Err(
            MusicError::Other(m),
        ) && m@ == "kugou: empty download url"@),
        kugou_chosen(http_links(leaves@), desired_ext@).len() > 0 ==> (r matches Ok((u, e)) && u@
            == kugou_chosen(http_links(leaves@), desired_ext@) && e@ == kugou_link_ext(
            kugou_chosen(http_links(leaves@), desired_ext@),
            desired_ext@,
        )),
{
    let http = textops::chars_of("http");
    let mut links: Vec<String> = Vec::new();
    let mut i: usize = 0;
    while i < leaves.len()
        invariant
            i <= leaves.len(),
            http@ == "http"@,
            links.deep_view() == http_links(leaves@.take(i as int)),
        decreases leaves.len() - i,
    {
        assert(leaves@.take(i + 1).drop_last() =~= leaves@.take(i as int));
        assert(leaves@.take(i + 1).last() == leaves@[i as int]);
        let t = textops::trim_vec(&textops::chars_of(leaves[i].as_str()));
        if textops::starts_with_exec(&t, &http) {
            let ghost before = links.deep_view();
            links.push(textops::string_of(t.as_slice()));
            assert(links.deep_view() =~= before.push(t@));
        }
        i = i + 1;
    }
    assert(leaves@.take(leaves.len() as int) =~= leaves@);
    let ghost all = links.deep_view();
    let pat = textops::chars_of(&concat_ext(".", desired_ext));
    let mut k: usize = 0;
    let mut found: Option<usize> = None;
    assert(all.subrange(0, all.len() as int) =~= all);
    while k < links.len() && found.is_none()
        invariant
            k <= links.len(),
            all == links.deep_view(),
            pat@ == "."@ + desired_ext@,
            found is None ==> first_containing(all, pat@) == first_containing(
                all.subrange(k as int, all.len() as int),
                pat@,
            ),
            found matches Some(j) ==> j < links.len() && first_containing(all, pat@) == Some(
                all[j as int],
            ),
        decreases links.len() - k + if found is None {
            1int
        } else {
            0int
        },
    {
        assert(all.subrange(k as int, all.len() as int)[0] == all[k as int]);
        assert(all.subrange(k as int, all.len() as int).drop_first() =~= all.subrange(
            k + 1,
            all.len() as int,
        ));
        if contains_lower(&links[k], &pat) {
            found = Some(k);
        } else {
            k = k + 1;
        }
    }
    assert(found is None ==> all.subrange(k as int, all.len() as int) =~= Seq::<Seq<char>>::empty());
    let chosen: String = match found {
        Some(j) => links[j].clone(),
        None => if links.len() > 0 {
            links[0].clone()
        } else {
            String::new()
        },
    };
    if chosen.as_str().is_empty() {
        return Err(MusicError::Other("kugou: empty download url".to_owned()));
    }
    let ext: String = if contains_lower(&chosen, &textops::chars_of(".flac")) {
        "flac".to_owned()
    } else if contains_lower(&chosen, &textops::chars_of(".mp3")) {
        "mp3".to_owned()
    } else {
        desired_ext.to_owned()
    };
    Ok((chosen, ext))
}

/// `a + b`.
fn concat_ext(a: &str, b: &str) -> (r: String)
    ensures
        r@ == a@ + b@,
{
    let mut v = textops::chars_of(a);
    textops::push_all(&mut v, &textops::chars_of(b));
    textops::string_of(v.as_slice())
}

/// The login type of a QQ Music cookie in decimal, or nothing.
pub open spec fn qq_login_type_text(c: QqMusicCookie) -> Seq<char> {
    match c.login_type {
        Some(n) => textops::signed_decimal(n as int),
        None => Seq::empty(),
    }
}

/// Whether a QQ Music cookie lacks its music key, music id or login type.
pub open spec fn qq_cookie_incomplete(c: QqMusicCookie) -> bool {
    textops::trim(or_empty(c.musickey)).len() == 0 || textops::trim(or_empty(c.musicid)).len() == 0
        || qq_login_type_text(c).len() == 0
}

/// What a QQ Music download request is made of.
#[derive(Debug, Clone)]
pub struct QqVkeyRequest {
    pub mid: String,
    pub musickey: String,
    /// The account's music id.
    pub qq: String,
    pub login_type: String,
    /// `<prefix><mid><mid>.<ext>`.
    pub file_name: String,
    pub ext: &'static str,
}

/// The file name asked of QQ Music for a song and quality.
pub open spec fn qq_file_name(mid: Seq<char>, quality_id: Seq<char>) -> Seq<char> {
    qq_songtype(textops::trim(quality_id)).0 + mid + mid + "."@ + qq_songtype(textops::trim(quality_id)).1
}

fn decimal_i64(n: i64) -> (r: String)
    ensures
        r@ == textops::signed_decimal(n as int),
{
    let mut v: Vec<char> = Vec::new();
    textops::push_signed_decimal(&mut v, n);
    assert(v@ =~= textops::signed_decimal(n as int));
    textops::string_of(v.as_slice())
}

/// Checks a QQ Music download request and gathers what it is made of.
pub fn qq_vkey_request(track_mid: &str, quality_id: &str, auth: &AuthState) -> (r: Result<
    QqVkeyRequest,
    MusicError,
>)
    ensures
        textops::trim(track_mid@).len() == 0 ==> (r matches Err(e) && is_empty_id_error(e, "track_id"@)),
        textops::trim(track_mid@).len() > 0 && auth.qq is None ==> (r matches Err(
            MusicError::Unauthorized(m),
        ) && m@ == "missing qq cookie"@),
        auth.qq matches Some(c) ==> (textops::trim(track_mid@).len() > 0 && qq_cookie_incomplete(c)
            ==> (r matches Err(MusicError::Unauthorized(m)) && m@
            == "qq cookie missing musickey/musicid/loginType"@)),
        auth.qq matches Some(c) ==> (textops::trim(track_mid@).len() > 0 && !qq_cookie_incomplete(c)
            ==> (r matches Ok(q) && {
            &&& q.mid@ == textops::trim(track_mid@)
            &&& q.musickey@ == textops::trim(or_empty(c.musickey))
            &&& q.qq@ == textops::trim(or_empty(c.musicid))
            &&& q.login_type@ == qq_login_type_text(c)
            &&& q.file_name@ == qq_file_name(textops::trim(track_mid@), quality_id@)
            &&& q.ext@ == qq_songtype(textops::trim(quality_id@)).1
        })),
{
    let mid = match required_id(track_mid, "track_id") {
        Ok(m) => m,
        Err(e) => return Err(e),
    };
    let cookie = match &auth.qq {
        Some(c) => c,
        None => return Err(MusicError::Unauthorized("missing qq cookie".to_owned())),
    };
    let musickey = textops::trim_vec(&textops::chars_of(crate::music::catalog::string_or_empty_pub(&cookie.musickey).as_str()));
    let qq = textops::trim_vec(&textops::chars_of(crate::music::catalog::string_or_empty_pub(&cookie.musicid).as_str()));
    let login_type: String = match cookie.login_type {
        Some(n) => decimal_i64(n),
        None => String::new(),
    };
    if musickey.len() == 0 || qq.len() == 0 || login_type.as_str().is_empty() {
        return Err(MusicError::Unauthorized("qq cookie missing musickey/musicid/loginType".to_owned()));
    }
    let q = textops::trim_vec(&textops::chars_of(quality_id));
    let (prefix, ext) = map_quality_to_songtype(&textops::string_of(q.as_slice()));
    let mut f = textops::chars_of(prefix);
    textops::push_all(&mut f, &textops::chars_of(mid.as_str()));
    textops::push_all(&mut f, &textops::chars_of(mid.as_str()));
    f.push('.');
    textops::push_all(&mut f, &textops::chars_of(ext));
    proof {
        reveal_strlit(".");
        assert(f@ =~= qq_file_name(textops::trim(track_mid@), quality_id@));
    }
    Ok(
        QqVkeyRequest {
            mid,
            musickey: textops::string_of(musickey.as_slice()),
            qq: textops::string_of(qq.as_slice()),
            login_type,
            file_name: textops::string_of(f.as_slice()),
            ext,
        },
    )
}

/// The first entry of `midurlinfo` in a QQ Music download reply.
#[derive(Debug, Clone)]
pub struct QqUrlInfo {
    pub wifiurl: Option<String>,
    pub purl: Option<String>,
}

/// A QQ Music download reply, as read.
#[derive(Debug, Clone)]
pub struct QqVkeyReply {
    /// Whether the reply holds the `UrlGetVkey` node.
    pub has_node: bool,
    pub code: Option<i64>,
    pub url_info: Option<QqUrlInfo>,
    /// The `sip` server list.
    pub sip: Vec<Option<String>>,
}

/// The path of a QQ Music download: `wifiurl`, else `purl` when it is blank.
pub open spec fn qq_purl(info: QqUrlInfo) -> Seq<char> {
    if textops::all_ws(or_empty(info.wifiurl)) {
        or_empty(info.purl)
    } else {
        or_empty(info.wifiurl)
    }
}

/// The download servers of a reply: the `sip` entries trimmed, blank ones
/// dropped.
pub open spec fn qq_servers(sip: Seq<Option<String>>) -> Seq<Seq<char>>
    decreases sip.len(),
{
    if sip.len() == 0 {
        Seq::empty()
    } else {
        qq_servers(sip.drop_last()) + match sip.last() {
            Some(s) => if textops::trim(s@).len() > 0 {
                seq![textops::trim(s@)]
            } else {
                Seq::empty()
            },
            None => Seq::empty(),
        }
    }
}

/// The code of a QQ Music reply; -1 when it has none.
pub open spec fn qq_code(code: Option<i64>) -> int {
    match code {
        Some(c) => c as int,
        None => -1,
    }
}

/// A number drawn by `fastrand::u64(..)`; any `u64` may come.
#[verifier::external_body]
pub(crate) fn random_u64() -> (r: u64) {
    fastrand::u64(..)
}

/// An index below `n`, drawn by `fastrand::usize(..n)`.
#[verifier::external_body]
pub(crate) fn random_below(n: usize) -> (r: usize)
    requires
        n > 0,
    ensures
        r < n,
{
    fastrand::usize(..n)
}

/// The download link of a QQ Music reply: one of its servers, chosen at
/// random (the default server when it lists none), followed by the path.
pub fn qq_vkey_url(reply: &QqVkeyReply) -> (r: Result<String, MusicError>)
    ensures
        !reply.has_node ==> (r matches Err(MusicError::Parse(m)) && m@ == "missing vkey response"@),
        reply.has_node && qq_code(reply.code) != 0 ==> (r matches Err(MusicError::Other(m)) && m@ == "qq vkey code="@ + textops::signed_decimal(
            qq_code(reply.code),
        )),
        reply.has_node && reply.code == Some(0i64) && reply.url_info is None ==> (r matches Err(
            MusicError::Parse(m),
        ) && m@ == "missing midurlinfo"@),
        reply.url_info matches Some(info) ==> (reply.has_node && reply.code == Some(0i64)
            && textops::all_ws(qq_purl(info)) ==> (r matches Err(MusicError::Other(m)) && m@
            == "qq: empty purl"@)),
        reply.url_info matches Some(info) ==> (reply.has_node && reply.code == Some(0i64)
            && !textops::all_ws(qq_purl(info)) ==> (r matches Ok(u) && if qq_servers(reply.sip@).len()
            == 0 {
            u@ == "https://isure.stream.qqmusic.qq.com/"@ + qq_purl(info)
        } else {
            exists|i: int|
                0 <= i < qq_servers(reply.sip@).len() && u@ == #[trigger] qq_servers(reply.sip@)[i]
                    + qq_purl(info)
        })),
{
    if !reply.has_node {
        return Err(MusicError::Parse("missing vkey response".to_owned()));
    }
    let code: i64 = match reply.code {
        Some(c) => c,
        None => -1,
    };
    if code != 0 {
        let mut m = textops::chars_of("qq vkey code=");
        textops::push_signed_decimal(&mut m, code);
        return Err(MusicError::Other(textops::string_of(m.as_slice())));
    }
    let info = match &reply.url_info {
        Some(i) => i,
        None => return Err(MusicError::Parse("missing midurlinfo".to_owned())),
    };
    let wifi = crate::music::catalog::string_or_empty_pub(&info.wifiurl);
    let purl: String = if textops::is_blank(&textops::chars_of(wifi.as_str())) {
        crate::music::catalog::string_or_empty_pub(&info.purl)
    } else {
        wifi
    };
    if textops::is_blank(&textops::chars_of(purl.as_str())) {
        return Err(MusicError::Other("qq: empty purl".to_owned()));
    }
    let mut servers: Vec<String> = Vec::new();
    let mut i: usize = 0;
    while i < reply.sip.len()
        invariant
            i <= reply.sip.len(),
            servers.deep_view() == qq_servers(reply.sip@.take(i as int)),
        decreases reply.sip.len() - i,
    {
        assert(reply.sip@.take(i + 1).drop_last() =~= reply.sip@.take(i as int));
        assert(reply.sip@.take(i + 1).last() == reply.sip@[i as int]);
        match &reply.sip[i] {
            Some(s) => {
                let t = textops::trim_vec(&textops::chars_of(s.as_str()));
                if t.len() > 0 {
                    let ghost before = servers.deep_view();
                    servers.push(textops::string_of(t.as_slice()));
                    assert(servers.deep_view() =~= before.push(t@));
                }
            },
            None => {},
        }
        i = i + 1;
    }
    assert(reply.sip@.take(reply.sip.len() as int) =~= reply.sip@);
    let base: String = if servers.len() == 0 {
        "https://isure.stream.qqmusic.qq.com/".to_owned()
    } else {
        let k = random_below(servers.len());
        assert(servers.deep_view()[k as int] == servers@[k as int]@);
        servers[k].clone()
    };
    let mut u = textops::chars_of(base.as_str());
    textops::push_all(&mut u, &textops::chars_of(purl.as_str()));
    Ok(textops::string_of(u.as_slice()))
}

/// The characters of a QQ Music device guid.
pub open spec fn guid_chars() -> Seq<char> {
    "abcdef1234567890"@
}

/// A random QQ Music device guid: 32 characters drawn from `guid_chars`.
pub fn qq_guid() -> (r: String)
    ensures
        r@.len() == 32,
        forall|i: int| 0 <= i < 32 ==> guid_chars().contains(#[trigger] r@[i]),
{
    let allowed = textops::chars_of("abcdef1234567890");
    proof {
        reveal_strlit("abcdef1234567890");
    }
    let mut v: Vec<char> = Vec::new();
    let mut i: usize = 0;
    while i < 32
        invariant
            i <= 32,
            v@.len() == i,
            allowed@ == guid_chars(),
            allowed@.len() == 16,
            forall|j: int| 0 <= j < i ==> guid_chars().contains(#[trigger] v@[j]),
        decreases 32 - i,
    {
        let k = random_below(allowed.len());
        v.push(allowed[k]);
        assert(guid_chars()[k as int] == v@[i as int]);
        i = i + 1;
    }
    textops::string_of(v.as_slice())
}

/// The bitrate asked of NetEase for a quality id, and whether the FLAC type
/// is asked for.
pub open spec fn netease_br(quality_id: Seq<char>) -> (u32, bool) {
    let q = textops::trim(quality_id);
    if q == "mp3_128"@ {
        (128000, false)
    } else if q == "mp3_192"@ {
        (192000, false)
    } else if q == "flac"@ {
        (999000, true)
    } else {
        (320000, false)
    }
}

/// The bitrate and FLAC flag of a NetEase download request.
pub fn netease_download_params(quality_id: &str) -> (r: (u32, bool))
    ensures
        r == netease_br(quality_id@),
{
    let q = textops::trim_vec(&textops::chars_of(quality_id));
    if textops::eq_vec(&q, &textops::chars_of("mp3_128")) {
        (128000, false)
    } else if textops::eq_vec(&q, &textops::chars_of("mp3_192")) {
        (192000, false)
    } else if textops::eq_vec(&q, &textops::chars_of("flac")) {
        (999000, true)
    } else {
        (320000, false)
    }
}

/// The extension of a NetEase download: `flac` for the FLAC quality, else `mp3`.
pub open spec fn netease_ext(quality_id: Seq<char>) -> Seq<char> {
    if textops::trim(quality_id) == "flac"@ {
        "flac"@
    } else {
        "mp3"@
    }
}

/// The NetEase download link (`data.url`, else `url`) trimmed, with its
/// extension; an error when it is blank.
pub fn netease_download_result(url: &Option<String>, quality_id: &str) -> (r: Result<(String, String), MusicError>)
    ensures
        textops::trim(or_empty(*url)).len() == 0 ==> (r matches Err(MusicError::Other(m)) && m@
            == "netease: empty download url (may require login or different API)"@),
        textops::trim(or_empty(*url)).len() > 0 ==> (r matches Ok((u, e)) && u@ == textops::trim(
            or_empty(*url),
        ) && e@ == netease_ext(quality_id@)),
{
    let u = textops::trim_vec(&textops::chars_of(crate::music::catalog::string_or_empty_pub(url).as_str()));
    if u.len() == 0 {
        return Err(
            MusicError::Other("netease: empty download url (may require login or different API)".to_owned()),
        );
    }
    let q = textops::trim_vec(&textops::chars_of(quality_id));
    let ext: String = if textops::eq_vec(&q, &textops::chars_of("flac")) {
        "flac".to_owned()
    } else {
        "mp3".to_owned()
    };
    Ok((textops::string_of(u.as_slice()), ext))
}

fn replace_in(s: &Vec<char>, p: &str, r: &str) -> (out: Vec<char>)
    requires
        p@.len() > 0,
    ensures
        out@ == textops::replace_all(s@, p@, r@),
{
    textops::replace_vec(s, &textops::chars_of(p), &textops::chars_of(r))
}

/// The Kuwo download request for a track: the template with `{rid}` and
/// `{br}` filled in.
pub open spec fn kuwo_download_link(template: Seq<char>, id: Seq<char>, quality_id: Seq<char>) -> Seq<char> {
    textops::replace_all(
        textops::replace_all(template, "{rid}"@, id),
        "{br}"@,
        kuwo_br(textops::trim(quality_id)),
    )
}

/// The Kuwo download request for a track; an error when the id is blank.
pub fn kuwo_download_url(template: &str, track_id: &str, quality_id: &str) -> (r: Result<String, MusicError>)
    ensures
        textops::trim(track_id@).len() == 0 ==> (r matches Err(e) && is_empty_id_error(e, "track_id"@)),
        textops::trim(track_id@).len() > 0 ==> (r matches Ok(u) && u@ == kuwo_download_link(
            template@,
            textops::trim(track_id@),
            quality_id@,
        )),
{
    let id = match required_id(track_id, "track_id") {
        Ok(i) => i,
        Err(e) => return Err(e),
    };
    let q = textops::trim_vec(&textops::chars_of(quality_id));
    let br = map_br(&textops::string_of(q.as_slice()));
    proof {
        reveal_strlit("{rid}");
        reveal_strlit("{br}");
    }
    let a = replace_in(&textops::chars_of(template), "{rid}", id.as_str());
    let b = replace_in(&a, "{br}", br);
    Ok(textops::string_of(b.as_slice()))
}

/// The Kuwo download link (`data.url`) trimmed, with its format
/// (`data.format` trimmed, `mp3` when absent); an error when the link is blank.
pub fn kuwo_download_result(url: &Option<String>, format: &Option<String>) -> (r: Result<(String, String), MusicError>)
    ensures
        textops::trim(or_empty(*url)).len() == 0 ==> (r matches Err(MusicError::Other(m)) && m@
            == "kuwo: empty download url"@),
        textops::trim(or_empty(*url)).len() > 0 ==> (r matches Ok((u, f)) && u@ == textops::trim(
            or_empty(*url),
        ) && f@ == textops::trim(
            match *format {
                Some(s) => s@,
                None => "mp3"@,
            },
        )),
{
    let u = textops::trim_vec(&textops::chars_of(crate::music::catalog::string_or_empty_pub(url).as_str()));
    if u.len() == 0 {
        return Err(MusicError::Other("kuwo: empty download url".to_owned()));
    }
    let f: Vec<char> = match format {
        Some(s) => textops::trim_vec(&textops::chars_of(s.as_str())),
        None => textops::trim_vec(&textops::chars_of("mp3")),
    };
    Ok((textops::string_of(u.as_slice()), textops::string_of(f.as_slice())))
}

/// Bytes that `urlencoding::encode` keeps: ASCII letters and digits, `-`,
/// `.`, `_` and `~`.
pub open spec fn url_keeps(b: u8) -> bool {
    (48 <= b && b <= 57) || (65 <= b && b <= 90) || (97 <= b && b <= 122) || b == 45 || b == 46
        || b == 95 || b == 126
}

/// How `urlencoding::encode` writes a byte: kept, else `%XX` in upper case.
pub open spec fn url_byte(b: u8) -> Seq<char> {
    if url_keeps(b) {
        seq![b as char]
    } else {
        seq!['%', hex_upper(b as int / 16), hex_upper(b as int % 16)]
    }
}

/// `urlencoding::encode` of a byte string.
pub open spec fn url_encoded(bytes: Seq<u8>) -> Seq<char>
    decreases bytes.len(),
{
    if bytes.len() == 0 {
        Seq::empty()
    } else {
        url_byte(bytes[0]) + url_encoded(bytes.drop_first())
    }
}

/// Calls `urlencoding::encode`: each UTF-8 byte of `s` kept or percent-encoded.
#[verifier::external_body]
fn url_encode(s: &str) -> (r: String)
    ensures
        r@ == url_encoded(encode_utf8(s@)),
{
    urlencoding::encode(s).into_owned()
}

/// The Kuwo search request template.
pub open spec fn kuwo_search_template() -> Seq<char> {
    "http://search.kuwo.cn/r.s?client=kt&encoding=utf8&rformat=json&mobi=1&vipver=1&pn={pn}&rn={rn}&correct=1&all={q}&ft={ft}"@
}

/// The Kuwo search request: page index and size (at most 100), the encoded
/// query and the kind of result (`music`, `artist` or `album`).
pub open spec fn kuwo_search_link(query: Seq<char>, page: u32, page_size: u32, ft: Seq<char>) -> Seq<char> {
    textops::replace_all(
        textops::replace_all(
            textops::replace_all(
                textops::replace_all(
                    kuwo_search_template(),
                    "{pn}"@,
                    textops::decimal(page_index(page) as nat),
                ),
                "{rn}"@,
                textops::decimal(page_limit(page_size, 100) as nat),
            ),
            "{q}"@,
            url_encoded(encode_utf8(query)),
        ),
        "{ft}"@,
        ft,
    )
}

/// The Kuwo search request for `query`.
pub fn kuwo_search_url(query: &str, page: u32, page_size: u32, ft: &str) -> (r: String)
    ensures
        r@ == kuwo_search_link(query@, page, page_size, ft@),
{
    let pn: u32 = if page > 0 {
        page - 1
    } else {
        0
    };
    let (_, rn) = search_paging(page, page_size, 100);
    let q = url_encode(query);
    proof {
        reveal_strlit("{pn}");
        reveal_strlit("{rn}");
        reveal_strlit("{q}");
        reveal_strlit("{ft}");
    }
    let t = textops::chars_of(
        "http://search.kuwo.cn/r.s?client=kt&encoding=utf8&rformat=json&mobi=1&vipver=1&pn={pn}&rn={rn}&correct=1&all={q}&ft={ft}",
    );
    let a = replace_in(&t, "{pn}", decimal_text(pn).as_str());
    let b = replace_in(&a, "{rn}", decimal_text(rn).as_str());
    let c = replace_in(&b, "{q}", q.as_str());
    let d = replace_in(&c, "{ft}", ft);
    textops::string_of(d.as_slice())
}

/// The Kuwo album request template.
pub open spec fn kuwo_album_template() -> Seq<char> {
    "https://search.kuwo.cn/r.s?pn={pn}&rn={rn}&albumid={albumid}&stype=albuminfo&show_copyright_off=1&alflac=1&pcmp4=1&encoding=utf8&plat=pc&vipver=MUSIC_9.1.1.2_BCS2&devid=38668888&newver=1&pcjson=1"@
}

/// The Kuwo request for the songs of an album (all on one page).
pub fn kuwo_album_url(album_id: &str) -> (r: String)
    ensures
        r@ == textops::replace_all(
            textops::replace_all(textops::replace_all(kuwo_album_template(), "{pn}"@, "0"@), "{rn}"@, "10000"@),
            "{albumid}"@,
            album_id@,
        ),
{
    proof {
        reveal_strlit("{pn}");
        reveal_strlit("{rn}");
        reveal_strlit("{albumid}");
    }
    let t = textops::chars_of(
        "https://search.kuwo.cn/r.s?pn={pn}&rn={rn}&albumid={albumid}&stype=albuminfo&show_copyright_off=1&alflac=1&pcmp4=1&encoding=utf8&plat=pc&vipver=MUSIC_9.1.1.2_BCS2&devid=38668888&newver=1&pcjson=1",
    );
    let a = replace_in(&t, "{pn}", "0");
    let b = replace_in(&a, "{rn}", "10000");
    let c = replace_in(&b, "{albumid}", album_id);
    textops::string_of(c.as_slice())
}

/// The Kuwo artist albums request template.
pub open spec fn kuwo_artist_albums_template() -> Seq<char> {
    "https://search.kuwo.cn/r.s?pn=0&rn=10000&artistid={artistid}&stype=albumlist&sortby=1&alflac=1&show_copyright_off=1&pcmp4=1&encoding=utf8&plat=pc&thost=search.kuwo.cn&vipver=MUSIC_9.1.1.2_BCS2&devid=38668888&pcjson=1"@
}

/// The Kuwo request for the albums of an artist.
pub fn kuwo_artist_albums_url(artist_id: &str) -> (r: String)
    ensures
        r@ == textops::replace_all(kuwo_artist_albums_template(), "{artistid}"@, artist_id@),
{
    proof {
        reveal_strlit("{artistid}");
    }
    let t = textops::chars_of(
        "https://search.kuwo.cn/r.s?pn=0&rn=10000&artistid={artistid}&stype=albumlist&sortby=1&alflac=1&show_copyright_off=1&pcmp4=1&encoding=utf8&plat=pc&thost=search.kuwo.cn&vipver=MUSIC_9.1.1.2_BCS2&devid=38668888&pcjson=1",
    );
    let a = replace_in(&t, "{artistid}", artist_id);
    textops::string_of(a.as_slice())
}

/// Whether a Kugou reply succeeded: its `status` is 1.
pub fn kugou_reply_ok(status: Option<i64>) -> (b: bool)
    ensures
        b == (status == Some(1i64)),
{
    match status {
        Some(s) => s == 1,
        None => false,
    }
}

/// Whether a NetEase reply succeeded: its `code` is 200.
pub fn netease_reply_ok(code: Option<i64>) -> (b: bool)
    ensures
        b == (code == Some(200i64)),
{
    match code {
        Some(c) => c == 200,
        None => false,
    }
}

/// A NetEase request: the base, then the path with a leading slash.
pub fn netease_url(base: &str, path: &str) -> (r: String)
    ensures
        textops::starts_with(path@, "/"@) ==> r@ == base@ + path@,
        !textops::starts_with(path@, "/"@) ==> r@ == base@ + "/"@ + path@,
{
    let p = textops::chars_of(path);
    let slash = textops::chars_of("/");
    let mut v = textops::chars_of(base);
    if !textops::starts_with_exec(&p, &slash) {
        v.push('/');
        proof {
            reveal_strlit("/");
        }
    }
    textops::push_all(&mut v, &p);
    textops::string_of(v.as_slice())
}

/// The anonymous NetEase cookie of a reply: its `cookie` trimmed, when the
/// reply's code is 200 and the cookie is not blank.
pub fn netease_anon_cookie(code: Option<i64>, cookie: &Option<String>) -> (r: Result<String, MusicError>)
    ensures
        (match code {
            Some(c) => c,
            None => 0,
        }) != 200 ==> (r matches Err(MusicError::Other(m)) && m@ == "netease anon code="@
            + textops::signed_decimal(
            match code {
                Some(c) => c as int,
                None => 0,
            },
        )),
        code == Some(200i64) && textops::trim(or_empty(*cookie)).len() == 0 ==> (r matches Err(
            MusicError::Parse(m),
        ) && m@ == "netease anon: missing cookie"@),
        code == Some(200i64) && textops::trim(or_empty(*cookie)).len() > 0 ==> (r matches Ok(c) && c@
            == textops::trim(or_empty(*cookie))),
{
    let c: i64 = match code {
        Some(v) => v,
        None => 0,
    };
    if c != 200 {
        let mut m = textops::chars_of("netease anon code=");
        textops::push_signed_decimal(&mut m, c);
        return Err(MusicError::Other(textops::string_of(m.as_slice())));
    }
    let t = textops::trim_vec(&textops::chars_of(crate::music::catalog::string_or_empty_pub(cookie).as_str()));
    if t.len() == 0 {
        return Err(MusicError::Parse("netease anon: missing cookie".to_owned()));
    }
    Ok(textops::string_of(t.as_slice()))
}

/// The pause before download attempt `attempt` (from 1), in milliseconds.
pub fn retry_backoff_ms(attempt: u32) -> (r: u64)
    ensures
        r == (if attempt == 1 {
            200u64
        } else if attempt == 2 {
            500u64
        } else {
            1200u64
        }),
{
    if attempt == 1 {
        200
    } else if attempt == 2 {
        500
    } else {
        1200
    }
}

/// Whether an HTTP status is a success (2xx).
pub fn http_success(status: u16) -> (b: bool)
    ensures
        b == (200 <= status && status < 300),
{
    200 <= status && status < 300
}

/// The extension of a download's temporary file: the target's extension
/// (empty when it has none) followed by `.part`.
pub fn part_extension(ext: Option<&str>) -> (r: String)
    ensures
        r@ == match ext {
            Some(e) => e@,
            None => Seq::empty(),
        } + ".part"@,
{
    let mut v: Vec<char> = match ext {
        Some(e) => textops::chars_of(e),
        None => Vec::new(),
    };
    textops::push_all(&mut v, &textops::chars_of(".part"));
    textops::string_of(v.as_slice())
}

} // verus!
