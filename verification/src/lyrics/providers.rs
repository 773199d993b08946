//! The lyrics providers: their endpoints, the tokens a search returns, and the
//! turning of fetched content into search results. The HTTP exchanges
//! themselves happen in the application layer.

use vstd::prelude::*;
use vstd::utf8::{decode_utf8, encode_utf8, valid_utf8};
use crate::textops;
use crate::music::requests::random_u64;
use crate::lyrics::error::LyricsError;
use crate::lyrics::model::{
    LyricsSearchRequest, LyricsSearchResult, LyricsSearchTerm, LyricsService, description_spec,
};
use crate::lyrics::util;
use crate::regexes::{
    opt_seq, opt_seqs, regex_capture, regex_first_group, regex_found, regex_groups_all, regex_groups_each,
    regex_is_match, regex_replace_all, regex_replaced,
};

verus! {

/// `s` with trailing slashes removed.
pub open spec fn no_trailing_slash(s: Seq<char>) -> Seq<char> {
    textops::rstrip_char(s, '/')
}

/// `s` with trailing slashes removed, as a `String`.
fn strip_trailing_slashes(s: &str) -> (r: String)
    ensures
        r@ == no_trailing_slash(s@),
{
    let v = textops::rstrip_char_vec(&textops::chars_of(s), '/');
    textops::string_of(v.as_slice())
}

/// The gecimi.com provider.
#[derive(Debug, Clone)]
pub struct GecimiProvider {
    pub base_url: String,
}

impl Default for GecimiProvider {
    fn default() -> (r: Self)
        ensures
            r.base_url@ == "http://gecimi.com/api/lyric"@,
    {
        GecimiProvider { base_url: "http://gecimi.com/api/lyric".to_owned() }
    }
}

impl GecimiProvider {
    /// A provider at another base URL (trailing slashes dropped).
    pub fn with_base_url(base_url: &str) -> (r: Self)
        ensures
            r.base_url@ == no_trailing_slash(base_url@),
    {
        GecimiProvider { base_url: strip_trailing_slashes(base_url) }
    }
}

/// A gecimi search hit.
#[derive(Debug, Clone)]
pub struct GecimiToken {
    pub aid: i64,
    pub lrc_url: String,
}

/// The Kugou lyrics provider.
#[derive(Debug, Clone)]
pub struct KugouProvider {
    pub search_url: String,
    pub lyric_url: String,
}

impl Default for KugouProvider {
    fn default() -> (r: Self)
        ensures
            r.search_url@ == "http://lyrics.kugou.com/search"@,
            r.lyric_url@ == "http://lyrics.kugou.com/download"@,
    {
        KugouProvider {
            search_url: "http://lyrics.kugou.com/search".to_owned(),
            lyric_url: "http://lyrics.kugou.com/download".to_owned(),
        }
    }
}

impl KugouProvider {
    /// A provider at other endpoints, taken as given.
    pub fn with_base_url(search_url: &str, lyric_url: &str) -> (r: Self)
        ensures
            r.search_url@ == search_url@,
            r.lyric_url@ == lyric_url@,
    {
        KugouProvider { search_url: search_url.to_owned(), lyric_url: lyric_url.to_owned() }
    }
}

/// A Kugou search hit.
#[derive(Debug, Clone)]
pub struct KugouToken {
    pub id: String,
    pub accesskey: String,
    pub title: String,
    pub artist: String,
    pub duration_ms: u64,
}

/// The LRCLIB provider.
#[derive(Debug, Clone)]
pub struct LrcLibProvider {
    pub search_url: String,
}

impl Default for LrcLibProvider {
    fn default() -> (r: Self)
        ensures
            r.search_url@ == "https://lrclib.net/api/search"@,
    {
        LrcLibProvider { search_url: "https://lrclib.net/api/search".to_owned() }
    }
}

impl LrcLibProvider {
    /// A provider at another search URL (trailing slashes dropped).
    pub fn with_base_url(search_url: &str) -> (r: Self)
        ensures
            r.search_url@ == no_trailing_slash(search_url@),
    {
        LrcLibProvider { search_url: strip_trailing_slashes(search_url) }
    }
}

/// An LRCLIB search hit, with its synced lyrics.
#[derive(Debug, Clone)]
pub struct LrcLibToken {
    pub id: String,
    pub track_name: String,
    pub artist_name: String,
    pub album_name: String,
    pub duration_ms: Option<u64>,
    pub synced_lyrics: String,
}

/// The NetEase Cloud Music provider.
#[derive(Debug, Clone)]
pub struct NeteaseProvider {
    pub search_base_url: String,
    pub lyric_base_url: String,
    pub user_agent: String,
}

/// The desktop user agent NetEase is queried with.
pub open spec fn netease_user_agent() -> Seq<char> {
    "Mozilla/5.0 (Macintosh; Intel Mac OS X 10_15_7) AppleWebKit/605.1.15 (KHTML, like Gecko) Version/15.4 Safari/605.1.15"@
}

impl Default for NeteaseProvider {
    fn default() -> (r: Self)
        ensures
            r.search_base_url@ == "http://music.163.com/api/search/pc"@,
            r.lyric_base_url@ == "http://music.163.com/api/song/lyric"@,
            r.user_agent@ == netease_user_agent(),
    {
        NeteaseProvider {
            search_base_url: "http://music.163.com/api/search/pc".to_owned(),
            lyric_base_url: "http://music.163.com/api/song/lyric".to_owned(),
            user_agent: "Mozilla/5.0 (Macintosh; Intel Mac OS X 10_15_7) AppleWebKit/605.1.15 (KHTML, like Gecko) Version/15.4 Safari/605.1.15".to_owned(),
        }
    }
}

impl NeteaseProvider {
    /// A provider at other endpoints (trailing slashes dropped), with the
    /// default user agent.
    pub fn with_base_url(search_base_url: &str, lyric_base_url: &str) -> (r: Self)
        ensures
            r.search_base_url@ == no_trailing_slash(search_base_url@),
            r.lyric_base_url@ == no_trailing_slash(lyric_base_url@),
            r.user_agent@ == netease_user_agent(),
    {
        let d = NeteaseProvider::default();
        NeteaseProvider {
            search_base_url: strip_trailing_slashes(search_base_url),
            lyric_base_url: strip_trailing_slashes(lyric_base_url),
            user_agent: d.user_agent,
        }
    }
}

/// A NetEase search hit.
#[derive(Debug, Clone)]
pub struct NeteaseToken {
    pub id: i64,
    pub title: String,
    pub artist: String,
    pub album: String,
    pub duration_ms: u64,
}

/// The QQ Music provider.
#[derive(Debug, Clone)]
pub struct QqMusicProvider {
    pub search_url: String,
    pub lyric_url: String,
}

impl Default for QqMusicProvider {
    fn default() -> (r: Self)
        ensures
            r.search_url@ == "https://c.y.qq.com/soso/fcgi-bin/client_search_cp"@,
            r.lyric_url@ == "https://c.y.qq.com/lyric/fcgi-bin/fcg_query_lyric_new.fcg"@,
    {
        QqMusicProvider {
            search_url: "https://c.y.qq.com/soso/fcgi-bin/client_search_cp".to_owned(),
            lyric_url: "https://c.y.qq.com/lyric/fcgi-bin/fcg_query_lyric_new.fcg".to_owned(),
        }
    }
}

impl QqMusicProvider {
    /// A provider at other endpoints, taken as given.
    pub fn with_base_url(search_url: &str, lyric_url: &str) -> (r: Self)
        ensures
            r.search_url@ == search_url@,
            r.lyric_url@ == lyric_url@,
    {
        QqMusicProvider { search_url: search_url.to_owned(), lyric_url: lyric_url.to_owned() }
    }
}

/// A QQ Music search hit.
#[derive(Debug, Clone)]
pub struct QqToken {
    pub songmid: String,
    pub title: String,
    pub artist: String,
    pub album: String,
    pub duration_ms: u64,
}

/// The syair.info provider.
#[derive(Debug, Clone)]
pub struct SyairProvider {
    pub search_base_url: String,
    pub base_url: String,
}

impl Default for SyairProvider {
    fn default() -> (r: Self)
        ensures
            r.search_base_url@ == "https://syair.info/search"@,
            r.base_url@ == "https://syair.info"@,
    {
        SyairProvider {
            search_base_url: "https://syair.info/search".to_owned(),
            base_url: "https://syair.info".to_owned(),
        }
    }
}

impl SyairProvider {
    /// A provider at other endpoints, taken as given.
    pub fn with_base_url(search_base_url: &str, base_url: &str) -> (r: Self)
        ensures
            r.search_base_url@ == search_base_url@,
            r.base_url@ == base_url@,
    {
        SyairProvider { search_base_url: search_base_url.to_owned(), base_url: base_url.to_owned() }
    }
}

/// A syair search hit: the link of a lyrics page.
#[derive(Debug, Clone)]
pub struct SyairToken {
    pub link: String,
}

/// A search hit of any provider.
#[derive(Debug, Clone)]
pub enum ProviderToken {
    Netease(NeteaseToken),
    QQ(QqToken),
    Kugou(KugouToken),
    LrcLib(LrcLibToken),
    Gecimi(GecimiToken),
    Syair(SyairToken),
}

/// Any lyrics provider.
#[derive(Debug, Clone)]
pub enum Provider {
    Netease(NeteaseProvider),
    QQ(QqMusicProvider),
    Kugou(KugouProvider),
    LrcLib(LrcLibProvider),
    Gecimi(GecimiProvider),
    Syair(SyairProvider),
}

/// The service a provider serves.
pub open spec fn provider_service(p: Provider) -> LyricsService {
    match p {
        Provider::Netease(_) => LyricsService::Netease,
        Provider::QQ(_) => LyricsService::QQMusic,
        Provider::Kugou(_) => LyricsService::Kugou,
        Provider::LrcLib(_) => LyricsService::LrcLib,
        Provider::Gecimi(_) => LyricsService::Gecimi,
        Provider::Syair(_) => LyricsService::Syair,
    }
}

/// Whether a token comes from the given provider's kind.
pub open spec fn token_fits(p: Provider, t: ProviderToken) -> bool {
    match (p, t) {
        (Provider::Netease(_), ProviderToken::Netease(_)) => true,
        (Provider::QQ(_), ProviderToken::QQ(_)) => true,
        (Provider::Kugou(_), ProviderToken::Kugou(_)) => true,
        (Provider::LrcLib(_), ProviderToken::LrcLib(_)) => true,
        (Provider::Gecimi(_), ProviderToken::Gecimi(_)) => true,
        (Provider::Syair(_), ProviderToken::Syair(_)) => true,
        _ => false,
    }
}

impl Provider {
    /// The service this provider serves.
    pub fn service(&self) -> (r: LyricsService)
        ensures
            r == provider_service(*self),
    {
        match self {
            Provider::Netease(_) => LyricsService::Netease,
            Provider::QQ(_) => LyricsService::QQMusic,
            Provider::Kugou(_) => LyricsService::Kugou,
            Provider::LrcLib(_) => LyricsService::LrcLib,
            Provider::Gecimi(_) => LyricsService::Gecimi,
            Provider::Syair(_) => LyricsService::Syair,
        }
    }

    /// Checks that a token was produced by this kind of provider; a token of
    /// another kind is a parse error.
    pub fn check_token(&self, token: &ProviderToken) -> (r: Result<(), LyricsError>)
        ensures
            token_fits(*self, *token) <==> r is Ok,
            !token_fits(*self, *token) ==> r matches Err(LyricsError::Parse(_)),
    {
        let fits = match (self, token) {
            (Provider::Netease(_), ProviderToken::Netease(_)) => true,
            (Provider::QQ(_), ProviderToken::QQ(_)) => true,
            (Provider::Kugou(_), ProviderToken::Kugou(_)) => true,
            (Provider::LrcLib(_), ProviderToken::LrcLib(_)) => true,
            (Provider::Gecimi(_), ProviderToken::Gecimi(_)) => true,
            (Provider::Syair(_), ProviderToken::Syair(_)) => true,
            _ => false,
        };
        if fits {
            Ok(())
        } else {
            Err(LyricsError::Parse("provider token does not match provider".to_owned()))
        }
    }
}

/// The result fields every provider fills the same way before scoring.
pub open spec fn unscored(r: LyricsSearchResult) -> bool {
    r.match_percentage == 0 && !r.matched
}

/// What the standard base64 alphabet (with padding) decodes `s` to; `None`
/// where `base64` refuses it.
pub uninterp spec fn base64_decoded(s: Seq<char>) -> Option<Seq<u8>>;

/// Decodes standard base64 with `base64::engine::general_purpose::STANDARD`;
/// the error is returned as its message.
#[verifier::external_body]
fn base64_decode(s: &str) -> (r: Result<Vec<u8>, String>)
    ensures
        r is Ok <==> base64_decoded(s@) is Some,
        r matches Ok(v) ==> base64_decoded(s@) == Some(v@),
{
    base64::Engine::decode(&base64::engine::general_purpose::STANDARD, s).map_err(|e| e.to_string())
}

/// What gzip decompression of `data` gives as UTF-8 text; `None` where the
/// data is no valid gzip stream or its content is no valid UTF-8.
pub uninterp spec fn gunzipped_text(data: Seq<u8>) -> Option<Seq<char>>;

/// Decompresses gzip data with `flate2::read::GzDecoder` and reads it as UTF-8
/// text (`read_to_string`).
#[verifier::external_body]
fn gunzip_text(data: &[u8]) -> (r: Option<String>)
    ensures
        r is Some <==> gunzipped_text(data@) is Some,
        r matches Some(t) ==> gunzipped_text(data@) == Some(t@),
{
    let mut gz = flate2::read::GzDecoder::new(data);
    let mut out = String::new();
    match std::io::Read::read_to_string(&mut gz, &mut out) {
        Ok(_) => Some(out),
        Err(_) => None,
    }
}

/// The NetEase time tag with a colon before the hundredths: `[mm:ss:xx]`.
pub open spec fn netease_tag_pattern() -> Seq<char> {
    "(\\[\\d+:\\d+):(\\d+\\])"@
}

/// An LRC time tag `[m:ss]` or `[mm:ss.xxx]`.
pub open spec fn lrc_tag_pattern() -> Seq<char> {
    "\\[\\d{1,2}:\\d{2}(?:\\.\\d{1,3})?\\]"@
}

/// The lyrics block of a syair.info page.
pub open spec fn syair_entry_pattern() -> Seq<char> {
    "<div class=\"entry\">(.+?)<div"@
}

/// The link of each hit on a syair.info search page.
pub open spec fn syair_link_pattern() -> Seq<char> {
    "<div class=\"title\"><a href=\"([^\"]+)\">"@
}

/// The links that matched, in order.
pub open spec fn present_links(v: Seq<Option<Seq<char>>>) -> Seq<Seq<char>>
    decreases v.len(),
{
    if v.len() == 0 {
        Seq::empty()
    } else {
        present_links(v.drop_last()) + match v.last() {
            Some(l) => seq![l],
            None => Seq::empty(),
        }
    }
}

/// Whether `s` is blank (empty after trimming).
fn blank(s: &str) -> (b: bool)
    ensures
        b == (textops::trim(s@).len() == 0),
{
    textops::trim_vec(&textops::chars_of(s)).len() == 0
}

/// `s` followed by `,` and `t`.
fn comma_joined(s: Vec<char>, t: &str) -> (r: String)
    ensures
        r@ == s@ + ","@ + t@,
{
    let mut v = s;
    v.push(',');
    textops::push_all(&mut v, &textops::chars_of(t));
    proof {
        reveal_strlit(",");
    }
    assert(v@ =~= s@ + ","@ + t@);
    textops::string_of(v.as_slice())
}

impl GecimiProvider {
    /// The search result for a gecimi hit, given the fetched lyrics file.
    /// Blank content is a parse error.
    pub fn lyrics_result(token: GecimiToken, body: &[u8]) -> (r: Result<
        LyricsSearchResult,
        LyricsError,
    >)
        ensures
            textops::trim(util::utf8_lossy(body@)).len() == 0 ==> r matches Err(
                LyricsError::Parse(_),
            ),
            textops::trim(util::utf8_lossy(body@)).len() > 0 ==> (r matches Ok(v) && unscored(v)
                && v.service == LyricsService::Gecimi && v.service_token@ == textops::signed_decimal(
                token.aid as int,
            ) + ","@ + token.lrc_url@ && v.title is None && v.artist is None && v.album is None
                && v.duration_ms is None && !v.has_translation && !v.has_inline_timetags
                && v.lyrics_original@ == util::utf8_lossy(body@) && v.lyrics_translation is None),
    {
        let s = util::decode_utf8_lossy(body);
        if blank(s.as_str()) {
            return Err(LyricsError::Parse("gecimi: empty lyric content".to_owned()));
        }
        let mut id: Vec<char> = Vec::new();
        textops::push_signed_decimal(&mut id, token.aid);
        Ok(
            LyricsSearchResult {
                service: LyricsService::Gecimi,
                service_token: comma_joined(id, token.lrc_url.as_str()),
                title: None,
                artist: None,
                album: None,
                duration_ms: None,
                match_percentage: 0,
                matched: false,
                has_translation: false,
                has_inline_timetags: false,
                lyrics_original: s,
                lyrics_translation: None,
            },
        )
    }
}

/// The key Kugou XORs KRC lyrics with.
pub open spec fn krc_key(i: int) -> u8 {
    seq![64u8, 71, 97, 119, 94, 50, 116, 71, 81, 54, 49, 45, 206, 210, 110, 105][i % 16]
}

/// KRC payload bytes after the `krc1` magic, XORed with the key.
pub open spec fn krc_unmasked(data: Seq<u8>) -> Seq<u8> {
    Seq::new((data.len() - 4) as nat, |i: int| data[i + 4] ^ krc_key(i))
}

/// The text of KRC lyrics: after the `krc1` magic, XOR with the key, then gzip.
pub open spec fn krc_text(data: Seq<u8>) -> Option<Seq<char>> {
    if data.len() >= 4 && data.take(4) == seq![107u8, 114, 99, 49] {
        gunzipped_text(krc_unmasked(data))
    } else {
        None
    }
}

/// Decrypts KRC lyrics (see `krc_text`).
pub fn decrypt_kugou_krc(data: &[u8]) -> (r: Option<String>)
    ensures
        match krc_text(data@) {
            Some(t) => r matches Some(s) && s@ == t,
            None => r is None,
        },
{
    let key: [u8; 16] = [64, 71, 97, 119, 94, 50, 116, 71, 81, 54, 49, 45, 206, 210, 110, 105];
    if data.len() < 4 || !(data[0] == 107 && data[1] == 114 && data[2] == 99 && data[3] == 49) {
        proof {
            if data@.len() >= 4 && data@.take(4) == seq![107u8, 114, 99, 49] {
                assert(data@.take(4)[0] == data@[0]);
                assert(data@.take(4)[1] == data@[1]);
                assert(data@.take(4)[2] == data@[2]);
                assert(data@.take(4)[3] == data@[3]);
            }
        }
        return None;
    }
    assert(data@.take(4) =~= seq![107u8, 114, 99, 49]);
    let mut xored: Vec<u8> = Vec::new();
    let mut i: usize = 4;
    while i < data.len()
        invariant
            4 <= i <= data.len(),
            key@ == seq![64u8, 71, 97, 119, 94, 50, 116, 71, 81, 54, 49, 45, 206, 210, 110, 105],
            xored@ == krc_unmasked(data@).take(i - 4),
        decreases data.len() - i,
    {
        let k = key[(i - 4) % 16];
        xored.push(data[i] ^ k);
        i = i + 1;
        assert(xored@ =~= krc_unmasked(data@).take(i - 4));
    }
    assert(xored@ =~= krc_unmasked(data@));
    gunzip_text(xored.as_slice())
}

/// The lyrics text of a Kugou download of format `fmt` (`krc` or `lrc`).
pub open spec fn kugou_text(content: Seq<char>, fmt: Seq<char>) -> Option<Seq<char>> {
    match base64_decoded(textops::trim(content)) {
        None => None,
        Some(bytes) => if fmt == "krc"@ {
            krc_text(bytes)
        } else if fmt == "lrc"@ {
            if valid_utf8(bytes) {
                Some(decode_utf8(bytes))
            } else {
                None
            }
        } else {
            None
        },
    }
}

impl KugouProvider {
    /// The search result for a Kugou hit, given the downloaded `content`
    /// (base64) and its format: KRC is decrypted, LRC read as UTF-8. A content
    /// that cannot be decoded, an unknown format and blank lyrics are parse
    /// errors.
    pub fn lyrics_result(token: KugouToken, content: &str, fmt: &str) -> (r: Result<
        LyricsSearchResult,
        LyricsError,
    >)
        ensures
            match kugou_text(content@, fmt@) {
                None => r matches Err(LyricsError::Parse(_)),
                Some(t) => if textops::trim(t).len() == 0 {
                    r matches Err(LyricsError::Parse(_))
                } else {
                    r matches Ok(v) && unscored(v) && v.service == LyricsService::Kugou
                        && v.service_token@ == token.id@ + ","@ + token.accesskey@ && v.title
                        == Some(token.title) && v.artist == Some(token.artist) && v.album is None
                        && v.duration_ms == Some(token.duration_ms) && !v.has_translation
                        && v.has_inline_timetags == (fmt@ == "krc"@) && v.lyrics_original@ == t
                        && v.lyrics_translation is None
                },
            },
    {
        let trimmed = textops::string_of(textops::trim_vec(&textops::chars_of(content)).as_slice());
        let bytes = match base64_decode(trimmed.as_str()) {
            Ok(b) => b,
            Err(_) => {
                return Err(LyricsError::Parse("kugou: base64 content decode failed".to_owned()));
            },
        };
        let fv = textops::chars_of(fmt);
        let is_krc = textops::eq_vec(&fv, &textops::chars_of("krc"));
        let is_lrc = textops::eq_vec(&fv, &textops::chars_of("lrc"));
        let text = if is_krc {
            match decrypt_kugou_krc(bytes.as_slice()) {
                Some(t) => t,
                None => {
                    return Err(LyricsError::Parse("kugou: failed to decrypt krc".to_owned()));
                },
            }
        } else if is_lrc {
            match textops::utf8_strict(bytes) {
                Some(t) => t,
                None => {
                    return Err(LyricsError::Parse("kugou: lrc utf8 decode failed".to_owned()));
                },
            }
        } else {
            return Err(LyricsError::Parse("kugou: unknown fmt".to_owned()));
        };
        if blank(text.as_str()) {
            return Err(LyricsError::Parse("kugou: empty lyric content".to_owned()));
        }
        let service_token = comma_joined(textops::chars_of(token.id.as_str()), token.accesskey.as_str());
        Ok(
            LyricsSearchResult {
                service: LyricsService::Kugou,
                service_token,
                title: Some(token.title),
                artist: Some(token.artist),
                album: None,
                duration_ms: Some(token.duration_ms),
                match_percentage: 0,
                matched: false,
                has_translation: false,
                has_inline_timetags: is_krc,
                lyrics_original: text,
                lyrics_translation: None,
            },
        )
    }
}

/// NetEase writes `[mm:ss:xx]`; the colon before the hundredths becomes a dot.
pub open spec fn fixed_time_tags(s: Seq<char>) -> Seq<char> {
    regex_replaced(netease_tag_pattern(), s, "$1.$2"@)
}

/// Rewrites NetEase time tags `[mm:ss:xx]` as `[mm:ss.xx]`.
pub fn fix_netease_time_tag(s: &str) -> (r: String)
    ensures
        r@ == fixed_time_tags(s@),
{
    let pattern = "(\\[\\d+:\\d+):(\\d+\\])";
    proof {
        reveal_strlit("(\\[\\d+:\\d+):(\\d+\\])");
    }
    regex_replace_all(pattern, s, "$1.$2")
}

/// The fixed text of an optional lyric.
pub open spec fn fixed_opt(s: Option<String>) -> Option<Seq<char>> {
    match s {
        Some(t) => Some(fixed_time_tags(t@)),
        None => None,
    }
}

impl NeteaseProvider {
    /// The search result for a NetEase hit, given the fetched lyric texts:
    /// the word-timed `klyric` is preferred over the plain `lrc`, the
    /// translation `tlyric` is kept when not blank, and time tags are fixed in
    /// all three. Missing both lyrics is a parse error.
    pub fn lyrics_result(
        token: NeteaseToken,
        lrc: Option<String>,
        klyric: Option<String>,
        tlyric: Option<String>,
    ) -> (r: Result<LyricsSearchResult, LyricsError>)
        ensures
            lrc is None && klyric is None ==> r matches Err(LyricsError::Parse(_)),
            !(lrc is None && klyric is None) ==> (r matches Ok(v) && unscored(v) && v.service
                == LyricsService::Netease && v.service_token@ == textops::signed_decimal(
                token.id as int,
            ) && v.title == Some(token.title) && v.artist == Some(token.artist) && v.album == Some(
                token.album,
            ) && v.duration_ms == Some(token.duration_ms) && (match fixed_opt(klyric) {
                Some(k) => v.lyrics_original@ == k && v.has_inline_timetags == (textops::trim(
                    k,
                ).len() > 0),
                None => v.lyrics_original@ == fixed_opt(lrc)->0 && !v.has_inline_timetags,
            }) && (match fixed_opt(tlyric) {
                Some(t) => if textops::trim(t).len() > 0 {
                    v.lyrics_translation matches Some(x) && x@ == t
                } else {
                    v.lyrics_translation is None
                },
                None => v.lyrics_translation is None,
            }) && v.has_translation == v.lyrics_translation is Some),
    {
        let klyric_fixed: Option<String> = match &klyric {
            Some(k) => Some(fix_netease_time_tag(k.as_str())),
            None => None,
        };
        let lrc_fixed: Option<String> = match &lrc {
            Some(l) => Some(fix_netease_time_tag(l.as_str())),
            None => None,
        };
        let mut has_inline_timetags = false;
        let lyrics_original = if let Some(k) = klyric_fixed {
            has_inline_timetags = !blank(k.as_str());
            k
        } else if let Some(l) = lrc_fixed {
            l
        } else {
            return Err(LyricsError::Parse("netease: missing lyric content".to_owned()));
        };
        let lyrics_translation: Option<String> = match &tlyric {
            Some(t) => {
                let f = fix_netease_time_tag(t.as_str());
                if blank(f.as_str()) {
                    None
                } else {
                    Some(f)
                }
            },
            None => None,
        };
        let mut id: Vec<char> = Vec::new();
        textops::push_signed_decimal(&mut id, token.id);
        let has_translation = lyrics_translation.is_some();
        Ok(
            LyricsSearchResult {
                service: LyricsService::Netease,
                service_token: textops::string_of(id.as_slice()),
                title: Some(token.title),
                artist: Some(token.artist),
                album: Some(token.album),
                duration_ms: Some(token.duration_ms),
                match_percentage: 0,
                matched: false,
                has_translation,
                has_inline_timetags,
                lyrics_original,
                lyrics_translation,
            },
        )
    }
}

/// The text of a QQ lyric field: base64 (trimmed) of UTF-8, decoded lossily,
/// entities decoded; `None` when the base64 is refused.
pub open spec fn qq_text(b64: Seq<char>) -> Option<Seq<char>> {
    match base64_decoded(textops::trim(b64)) {
        None => None,
        Some(bytes) => Some(util::decode_entities(util::utf8_lossy(bytes))),
    }
}

/// Decodes a QQ lyric field (see `qq_text`).
fn qq_decode(b64: &str) -> (r: Option<String>)
    ensures
        match qq_text(b64@) {
            None => r is None,
            Some(t) => r matches Some(x) && x@ == t,
        },
{
    let trimmed = textops::string_of(textops::trim_vec(&textops::chars_of(b64)).as_slice());
    match base64_decode(trimmed.as_str()) {
        Ok(raw) => {
            let s = util::decode_utf8_lossy(raw.as_slice());
            Some(util::decode_xml_entities(s.as_str()))
        },
        Err(_) => None,
    }
}

impl QqMusicProvider {
    /// The search result for a QQ Music hit, given the fetched `lyric` and
    /// optional `trans` fields (base64): both decoded, entities decoded; a
    /// blank translation is dropped. Undecodable fields and blank lyrics are
    /// parse errors.
    pub fn lyrics_result(token: QqToken, lyric: &str, trans: Option<&str>) -> (r: Result<
        LyricsSearchResult,
        LyricsError,
    >)
        ensures
            match qq_text(lyric@) {
                None => r matches Err(LyricsError::Parse(_)),
                Some(l) => if textops::trim(l).len() == 0 {
                    r matches Err(LyricsError::Parse(_))
                } else {
                    match trans {
                        Some(t) if textops::trim(t@).len() > 0 => match qq_text(t@) {
                            None => r matches Err(LyricsError::Parse(_)),
                            Some(tt) => r matches Ok(v) && unscored(v) && v.lyrics_original@ == l
                                && v.service == LyricsService::QQMusic && v.service_token@
                                == token.songmid@ && v.title == Some(token.title) && v.artist
                                == Some(token.artist) && v.album == Some(token.album)
                                && v.duration_ms == Some(token.duration_ms)
                                && !v.has_inline_timetags && (if textops::trim(tt).len() > 0 {
                                v.lyrics_translation matches Some(x) && x@ == tt
                            } else {
                                v.lyrics_translation is None
                            }) && v.has_translation == v.lyrics_translation is Some,
                        },
                        _ => r matches Ok(v) && unscored(v) && v.lyrics_original@ == l && v.service
                            == LyricsService::QQMusic && v.service_token@ == token.songmid@
                            && v.title == Some(token.title) && v.artist == Some(token.artist)
                            && v.album == Some(token.album) && v.duration_ms == Some(
                            token.duration_ms,
                        ) && !v.has_inline_timetags && v.lyrics_translation is None
                            && !v.has_translation,
                    }
                },
            },
    {
        let lyric_str = match qq_decode(lyric) {
            Some(s) => s,
            None => {
                return Err(LyricsError::Parse("qq: base64 lyric decode failed".to_owned()));
            },
        };
        if blank(lyric_str.as_str()) {
            return Err(LyricsError::Parse("qq: empty lyric content".to_owned()));
        }
        let trans_str: Option<String> = match trans {
            Some(t) => {
                if blank(t) {
                    None
                } else {
                    match qq_decode(t) {
                        Some(x) => {
                            if blank(x.as_str()) {
                                None
                            } else {
                                Some(x)
                            }
                        },
                        None => {
                            return Err(
                                LyricsError::Parse("qq: base64 trans decode failed".to_owned()),
                            );
                        },
                    }
                }
            },
            None => None,
        };
        let has_translation = trans_str.is_some();
        Ok(
            LyricsSearchResult {
                service: LyricsService::QQMusic,
                service_token: token.songmid.clone(),
                title: Some(token.title),
                artist: Some(token.artist),
                album: Some(token.album),
                duration_ms: Some(token.duration_ms),
                match_percentage: 0,
                matched: false,
                has_translation,
                has_inline_timetags: false,
                lyrics_original: lyric_str,
                lyrics_translation: trans_str,
            },
        )
    }
}

/// The address of a syair lyrics page: the link itself when absolute, else
/// appended to the base URL without its trailing slashes.
pub open spec fn syair_page_url(base_url: Seq<char>, link: Seq<char>) -> Seq<char> {
    if textops::starts_with(link, "http://"@) || textops::starts_with(link, "https://"@) {
        link
    } else {
        no_trailing_slash(base_url) + link
    }
}

impl SyairProvider {
    /// The address of the lyrics page of a syair hit.
    pub fn page_url(&self, token: &SyairToken) -> (r: String)
        ensures
            r@ == syair_page_url(self.base_url@, token.link@),
    {
        let link = textops::chars_of(token.link.as_str());
        if textops::starts_with_exec(&link, &textops::chars_of("http://"))
            || textops::starts_with_exec(&link, &textops::chars_of("https://")) {
            return token.link.clone();
        }
        let mut v = textops::rstrip_char_vec(&textops::chars_of(self.base_url.as_str()), '/');
        textops::push_all(&mut v, &link);
        textops::string_of(v.as_slice())
    }

    /// The search result for a syair hit, given the fetched page: the lyrics
    /// block is taken out of the HTML and turned into text. A page without
    /// one, and blank lyrics, are parse errors.
    pub fn lyrics_result(token: SyairToken, body: &[u8]) -> (r: Result<
        LyricsSearchResult,
        LyricsError,
    >)
        ensures
            match regex_capture(syair_entry_pattern(), util::utf8_lossy(body@), 1) {
                None => r matches Err(LyricsError::Parse(_)),
                Some(h) => {
                    let t = util::decode_entities(util::strip_tags(h, false, Seq::empty()));
                    if textops::trim(t).len() == 0 {
                        r matches Err(LyricsError::Parse(_))
                    } else {
                        r matches Ok(v) && unscored(v) && v.service == LyricsService::Syair
                            && v.service_token@ == token.link@ && v.title is None && v.artist is None
                            && v.album is None && v.duration_ms is None && !v.has_translation
                            && !v.has_inline_timetags && v.lyrics_original@ == t
                            && v.lyrics_translation is None
                    }
                },
            },
    {
        let html = util::decode_utf8_lossy(body);
        let pattern = "<div class=\"entry\">(.+?)<div";
        proof {
            reveal_strlit("<div class=\"entry\">(.+?)<div");
        }
        let block = match regex_first_group(pattern, html.as_str()) {
            Some(b) => b,
            None => {
                return Err(LyricsError::Parse("syair: missing lyric content".to_owned()));
            },
        };
        let text = util::html_to_text(block.as_str());
        if blank(text.as_str()) {
            return Err(LyricsError::Parse("syair: empty lyric content".to_owned()));
        }
        Ok(
            LyricsSearchResult {
                service: LyricsService::Syair,
                service_token: token.link,
                title: None,
                artist: None,
                album: None,
                duration_ms: None,
                match_percentage: 0,
                matched: false,
                has_translation: false,
                has_inline_timetags: false,
                lyrics_original: text,
                lyrics_translation: None,
            },
        )
    }
}

/// Whether a text holds an LRC time tag.
pub open spec fn looks_like_lrc_spec(s: Seq<char>) -> bool {
    regex_found(lrc_tag_pattern(), s)
}

/// Whether a text holds an LRC time tag `[m:ss]` or `[mm:ss.xxx]`.
pub fn looks_like_lrc(s: &str) -> (r: bool)
    ensures
        r == looks_like_lrc_spec(s@),
{
    let pattern = "\\[\\d{1,2}:\\d{2}(?:\\.\\d{1,3})?\\]";
    proof {
        reveal_strlit("\\[\\d{1,2}:\\d{2}(?:\\.\\d{1,3})?\\]");
    }
    regex_is_match(pattern, s)
}

/// A non-blank text, or nothing.
pub open spec fn non_blank(s: String) -> Option<String> {
    if textops::trim(s@).len() > 0 {
        Some(s)
    } else {
        None
    }
}

impl LrcLibProvider {
    /// The search result for an LRCLIB hit: its synced lyrics, with blank
    /// names dropped.
    pub fn lyrics_result(token: LrcLibToken) -> (r: LyricsSearchResult)
        ensures
            unscored(r),
            r.service == LyricsService::LrcLib,
            r.service_token == token.id,
            r.title == non_blank(token.track_name),
            r.artist == non_blank(token.artist_name),
            r.album == non_blank(token.album_name),
            r.duration_ms == token.duration_ms,
            !r.has_translation,
            r.has_inline_timetags == looks_like_lrc_spec(token.synced_lyrics@),
            r.lyrics_original == token.synced_lyrics,
            r.lyrics_translation is None,
    {
        let has_inline_timetags = looks_like_lrc(token.synced_lyrics.as_str());
        let title = if blank(token.track_name.as_str()) {
            None
        } else {
            Some(token.track_name)
        };
        let artist = if blank(token.artist_name.as_str()) {
            None
        } else {
            Some(token.artist_name)
        };
        let album = if blank(token.album_name.as_str()) {
            None
        } else {
            Some(token.album_name)
        };
        LyricsSearchResult {
            service: LyricsService::LrcLib,
            service_token: token.id,
            title,
            artist,
            album,
            duration_ms: token.duration_ms,
            match_percentage: 0,
            matched: false,
            has_translation: false,
            has_inline_timetags,
            lyrics_original: token.synced_lyrics,
            lyrics_translation: None,
        }
    }
}

/// The texts of query parameters.
pub open spec fn query_views(q: Seq<(String, String)>) -> Seq<(Seq<char>, Seq<char>)> {
    q.map_values(|p: (String, String)| (p.0@, p.1@))
}

/// A query parameter.
fn param(k: &str, v: String) -> (r: (String, String))
    ensures
        r.0@ == k@,
        r.1@ == v@,
{
    (k.to_owned(), v)
}

/// The decimal text of a number.
fn decimal_string(n: u64) -> (r: String)
    ensures
        r@ == textops::decimal(n as nat),
{
    let mut v: Vec<char> = Vec::new();
    textops::push_decimal(&mut v, n);
    textops::string_of(v.as_slice())
}

/// The gecimi search address: the base URL, then the encoded title and artist
/// as path segments.
pub open spec fn gecimi_search_url(base: Seq<char>, title: Seq<char>, artist: Seq<char>) -> Seq<char> {
    base + "/"@ + util::form_urlencoded(encode_utf8(title)) + "/"@ + util::form_urlencoded(
        encode_utf8(artist),
    )
}

impl GecimiProvider {
    /// The search address for a request; gecimi needs a title and an artist,
    /// so a keyword search is unsupported.
    pub fn search_url(&self, req: &LyricsSearchRequest) -> (r: Result<String, LyricsError>)
        ensures
            match req.term {
                LyricsSearchTerm::Info { title, artist, .. } => r matches Ok(u) && u@
                    == gecimi_search_url(self.base_url@, title@, artist@),
                LyricsSearchTerm::Keyword { .. } => r matches Err(LyricsError::UnsupportedTerm),
            },
    {
        let (title, artist) = req.term.title_artist();
        let (title, artist) = match (title, artist) {
            (Some(t), Some(a)) => (t, a),
            _ => {
                return Err(LyricsError::UnsupportedTerm);
            },
        };
        let mut v = textops::chars_of(self.base_url.as_str());
        v.push('/');
        textops::push_all(&mut v, &textops::chars_of(util::percent_encode_component(title).as_str()));
        v.push('/');
        textops::push_all(&mut v, &textops::chars_of(util::percent_encode_component(artist).as_str()));
        proof {
            reveal_strlit("/");
        }
        assert(v@ =~= gecimi_search_url(self.base_url@, title@, artist@));
        Ok(textops::string_of(v.as_slice()))
    }
}

/// The query of a keyword search (`keyword`, `duration`, client fields), none
/// for a blank query.
pub open spec fn kugou_query(req: LyricsSearchRequest) -> Option<Seq<(Seq<char>, Seq<char>)>> {
    let term = description_spec(req.term);
    if textops::trim(term).len() == 0 {
        None
    } else {
        Some(
            seq![
                ("keyword"@, term),
                ("duration"@, textops::decimal(
                    match req.duration_ms {
                        Some(d) => d as nat,
                        None => 0,
                    },
                )),
                ("client"@, "pc"@),
                ("ver"@, "1"@),
                ("man"@, "yes"@),
            ],
        )
    }
}

impl KugouProvider {
    /// The query parameters of a search; nothing is searched for a blank query.
    pub fn search_query(req: &LyricsSearchRequest) -> (r: Option<Vec<(String, String)>>)
        ensures
            match kugou_query(*req) {
                None => r is None,
                Some(q) => r matches Some(v) && query_views(v@) == q,
            },
    {
        let term = req.term.description();
        if blank(term.as_str()) {
            return None;
        }
        let d: u64 = match req.duration_ms {
            Some(d) => d,
            None => 0,
        };
        let v = vec![
            param("keyword", term),
            param("duration", decimal_string(d)),
            param("client", "pc".to_owned()),
            param("ver", "1".to_owned()),
            param("man", "yes".to_owned()),
        ];
        assert(query_views(v@) =~= kugou_query(*req)->0);
        Some(v)
    }
}

/// The query of a NetEase song search, none for a blank query.
pub open spec fn netease_query(req: LyricsSearchRequest) -> Option<Seq<(Seq<char>, Seq<char>)>> {
    let term = description_spec(req.term);
    if textops::trim(term).len() == 0 {
        None
    } else {
        Some(seq![("s"@, term), ("offset"@, "0"@), ("limit"@, "10"@), ("type"@, "1"@)])
    }
}

impl NeteaseProvider {
    /// The query parameters of a search; nothing is searched for a blank query.
    pub fn search_query(req: &LyricsSearchRequest) -> (r: Option<Vec<(String, String)>>)
        ensures
            match netease_query(*req) {
                None => r is None,
                Some(q) => r matches Some(v) && query_views(v@) == q,
            },
    {
        let term = req.term.description();
        if blank(term.as_str()) {
            return None;
        }
        let v = vec![
            param("s", term),
            param("offset", "0".to_owned()),
            param("limit", "10".to_owned()),
            param("type", "1".to_owned()),
        ];
        assert(query_views(v@) =~= netease_query(*req)->0);
        Some(v)
    }
}

/// The query of a QQ Music search, none for a blank query.
pub open spec fn qq_query(req: LyricsSearchRequest) -> Option<Seq<(Seq<char>, Seq<char>)>> {
    let term = description_spec(req.term);
    if textops::trim(term).len() == 0 {
        None
    } else {
        Some(seq![("w"@, term)])
    }
}

impl QqMusicProvider {
    /// The query parameters of a search; nothing is searched for a blank query.
    pub fn search_query(req: &LyricsSearchRequest) -> (r: Option<Vec<(String, String)>>)
        ensures
            match qq_query(*req) {
                None => r is None,
                Some(q) => r matches Some(v) && query_views(v@) == q,
            },
    {
        let term = req.term.description();
        if blank(term.as_str()) {
            return None;
        }
        let v = vec![param("w", term)];
        assert(query_views(v@) =~= qq_query(*req)->0);
        Some(v)
    }
}

/// The title, artist and album LRCLIB is asked for: trimmed, from the keyword
/// alone for a keyword search.
pub open spec fn lrclib_fields(term: LyricsSearchTerm) -> (Seq<char>, Seq<char>, Seq<char>) {
    match term {
        LyricsSearchTerm::Info { title, artist, album } => (
            textops::trim(title@),
            textops::trim(artist@),
            match album {
                Some(a) => textops::trim(a@),
                None => Seq::empty(),
            },
        ),
        LyricsSearchTerm::Keyword { keyword } => (textops::trim(keyword@), Seq::empty(), Seq::empty()),
    }
}

/// The query of an LRCLIB search, none without a title; the duration is sent
/// when known and positive.
pub open spec fn lrclib_query(req: LyricsSearchRequest) -> Option<Seq<(Seq<char>, Seq<char>)>> {
    let (t, a, al) = lrclib_fields(req.term);
    if t.len() == 0 {
        None
    } else {
        let base = seq![("track_name"@, t), ("artist_name"@, a), ("album_name"@, al)];
        match req.duration_ms {
            Some(d) => if d > 0 {
                Some(base.push(("durationMs"@, textops::decimal(d as nat))))
            } else {
                Some(base)
            },
            None => Some(base),
        }
    }
}

/// The trimmed text as a `String`.
fn trimmed(s: &str) -> (r: String)
    ensures
        r@ == textops::trim(s@),
{
    textops::string_of(textops::trim_vec(&textops::chars_of(s)).as_slice())
}

impl LrcLibProvider {
    /// The query parameters of a search; nothing is searched without a title.
    pub fn search_query(req: &LyricsSearchRequest) -> (r: Option<Vec<(String, String)>>)
        ensures
            match lrclib_query(*req) {
                None => r is None,
                Some(q) => r matches Some(v) && query_views(v@) == q,
            },
    {
        let (t, a, al): (String, String, String) = match &req.term {
            LyricsSearchTerm::Info { title, artist, album } => (
                trimmed(title.as_str()),
                trimmed(artist.as_str()),
                match album {
                    Some(x) => trimmed(x.as_str()),
                    None => String::new(),
                },
            ),
            LyricsSearchTerm::Keyword { keyword } => (
                trimmed(keyword.as_str()),
                String::new(),
                String::new(),
            ),
        };
        if textops::chars_of(t.as_str()).len() == 0 {
            return None;
        }
        let mut v = vec![param("track_name", t), param("artist_name", a), param("album_name", al)];
        match req.duration_ms {
            Some(d) => {
                if d > 0 {
                    v.push(param("durationMs", decimal_string(d)));
                }
            },
            None => {},
        }
        assert(query_views(v@) =~= lrclib_query(*req)->0);
        Some(v)
    }
}

/// The query of a syair search: the first page, by artist and title or by
/// keyword.
pub open spec fn syair_query(req: LyricsSearchRequest) -> Seq<(Seq<char>, Seq<char>)> {
    match req.term {
        LyricsSearchTerm::Info { title, artist, .. } => seq![
            ("page"@, "1"@),
            ("artist"@, artist@),
            ("title"@, title@),
        ],
        LyricsSearchTerm::Keyword { keyword } => seq![("page"@, "1"@), ("q"@, keyword@)],
    }
}

impl SyairProvider {
    /// The query parameters of a search.
    pub fn search_query(req: &LyricsSearchRequest) -> (r: Vec<(String, String)>)
        ensures
            query_views(r@) == syair_query(*req),
    {
        let mut v = vec![param("page", "1".to_owned())];
        match &req.term {
            LyricsSearchTerm::Info { title, artist, .. } => {
                v.push(param("artist", artist.clone()));
                v.push(param("title", title.clone()));
            },
            LyricsSearchTerm::Keyword { keyword } => {
                v.push(param("q", keyword.clone()));
            },
        }
        assert(query_views(v@) =~= syair_query(*req));
        v
    }
}

/// The artist of a hit: the first one listed, or none.
pub open spec fn first_or_empty(v: Seq<String>) -> Seq<char> {
    if v.len() > 0 {
        v[0]@
    } else {
        Seq::empty()
    }
}

/// The first of a list of names, or the empty name.
fn first_name(v: &Vec<String>) -> (r: String)
    ensures
        r@ == first_or_empty(v@),
{
    if v.len() > 0 {
        v[0].clone()
    } else {
        String::new()
    }
}

/// A duration that cannot be negative.
pub open spec fn non_negative(d: i64) -> u64 {
    if d < 0 {
        0
    } else {
        d as u64
    }
}

/// A Kugou search hit; a negative duration counts as zero.
pub fn kugou_token(id: String, accesskey: String, song: String, singer: String, duration: i64) -> (r: KugouToken)
    ensures
        r.id == id,
        r.accesskey == accesskey,
        r.title == song,
        r.artist == singer,
        r.duration_ms == non_negative(duration),
{
    let d: u64 = if duration < 0 {
        0
    } else {
        duration as u64
    };
    KugouToken { id, accesskey, title: song, artist: singer, duration_ms: d }
}

/// A NetEase search hit: its first artist, and a negative duration counting
/// as zero.
pub fn netease_token(id: i64, name: String, artists: &Vec<String>, album: String, duration: i64) -> (r: NeteaseToken)
    ensures
        r.id == id,
        r.title == name,
        r.artist@ == first_or_empty(artists@),
        r.album == album,
        r.duration_ms == non_negative(duration),
{
    let d: u64 = if duration < 0 {
        0
    } else {
        duration as u64
    };
    NeteaseToken { id, title: name, artist: first_name(artists), album, duration_ms: d }
}

/// A QQ Music search hit: its first singer, and its length in seconds (a
/// negative one counting as zero) in milliseconds.
pub fn qq_token(songmid: String, songname: String, albumname: String, singers: &Vec<String>, interval: i64) -> (r: QqToken)
    requires
        non_negative(interval) * 1000 <= u64::MAX,
    ensures
        r.songmid == songmid,
        r.title == songname,
        r.album == albumname,
        r.artist@ == first_or_empty(singers@),
        r.duration_ms == non_negative(interval) * 1000,
{
    let d: u64 = if interval < 0 {
        0
    } else {
        interval as u64
    };
    QqToken { songmid, title: songname, artist: first_name(singers), album: albumname, duration_ms: d * 1000 }
}

/// An LRCLIB search hit as read from the reply, its duration already in
/// milliseconds.
#[derive(Debug, Clone)]
pub struct LrcLibHit {
    pub id: Option<String>,
    pub track_name: Option<String>,
    pub artist_name: Option<String>,
    pub album_name: Option<String>,
    pub duration_ms: Option<u64>,
    pub synced_lyrics: Option<String>,
}

/// A text, or the empty one.
pub open spec fn text_or_empty(o: Option<String>) -> Seq<char> {
    match o {
        Some(s) => s@,
        None => Seq::empty(),
    }
}

/// An optional text, or the empty one.
fn text_or_default(o: &Option<String>) -> (r: String)
    ensures
        r@ == text_or_empty(*o),
{
    match o {
        Some(s) => s.clone(),
        None => String::new(),
    }
}

/// The hits of an LRCLIB reply that are kept: among the first 20, those
/// with synced lyrics that are not blank.
pub open spec fn kept_lrclib(hits: Seq<LrcLibHit>) -> Seq<int>
    decreases hits.len(),
{
    if hits.len() == 0 {
        Seq::empty()
    } else {
        let k = hits.len() - 1;
        kept_lrclib(hits.drop_last()) + if k < 20 && textops::trim(text_or_empty(hits.last().synced_lyrics)).len() > 0 {
            seq![k]
        } else {
            Seq::empty()
        }
    }
}

/// `t` is the token made of hit `h`, the `k`-th of the reply: its fields,
/// with `lrclib:<k>:<n>` for a random `n` as the id of a hit without one.
pub open spec fn lrclib_token_of(h: LrcLibHit, k: int, t: LrcLibToken) -> bool {
    &&& match h.id {
        Some(i) => t.id@ == i@,
        None => exists|n: u64| t.id@ == "lrclib:"@ + textops::decimal(k as nat) + ":"@ + #[trigger] textops::decimal(n as nat),
    }
    &&& t.track_name@ == text_or_empty(h.track_name)
    &&& t.artist_name@ == text_or_empty(h.artist_name)
    &&& t.album_name@ == text_or_empty(h.album_name)
    &&& t.duration_ms == h.duration_ms
    &&& t.synced_lyrics@ == text_or_empty(h.synced_lyrics)
}

/// The tokens of an LRCLIB reply: the first 20 hits with synced lyrics that
/// are not blank, in order.
pub fn lrclib_tokens(hits: &Vec<LrcLibHit>) -> (r: Vec<LrcLibToken>)
    ensures
        r@.len() == kept_lrclib(hits@).len(),
        forall|j: int| 0 <= j < r@.len() ==> lrclib_token_of(
            hits@[kept_lrclib(hits@)[j]],
            kept_lrclib(hits@)[j],
            #[trigger] r@[j],
        ),
{
    let mut out: Vec<LrcLibToken> = Vec::new();
    let mut i: usize = 0;
    while i < hits.len()
        invariant
            i <= hits@.len(),
            out@.len() == kept_lrclib(hits@.take(i as int)).len(),
            forall|j: int| 0 <= j < out@.len() ==> lrclib_token_of(
                hits@[kept_lrclib(hits@.take(i as int))[j]],
                kept_lrclib(hits@.take(i as int))[j],
                #[trigger] out@[j],
            ),
            forall|j: int| 0 <= j < kept_lrclib(hits@.take(i as int)).len() ==> 0 <= #[trigger] kept_lrclib(hits@.take(i as int))[j] < i,
        decreases hits@.len() - i,
    {
        let ghost prev = kept_lrclib(hits@.take(i as int));
        assert(hits@.take(i + 1).drop_last() =~= hits@.take(i as int));
        assert(hits@.take(i + 1).last() == hits@[i as int]);
        let h = &hits[i];
        let synced = text_or_default(&h.synced_lyrics);
        let blank = textops::is_blank(&textops::chars_of(synced.as_str()));
        if i < 20 && !blank {
            let id = match &h.id {
                Some(x) => x.clone(),
                None => {
                    let n = random_u64();
                    let mut v = textops::chars_of("lrclib:");
                    textops::push_decimal(&mut v, i as u64);
                    v.push(':');
                    textops::push_decimal(&mut v, n);
                    proof {
                        reveal_strlit("lrclib:");
                        reveal_strlit(":");
                        assert(v@ =~= "lrclib:"@ + textops::decimal(i as nat) + ":"@ + textops::decimal(n as nat));
                    }
                    textops::string_of(v.as_slice())
                },
            };
            let t = LrcLibToken {
                id,
                track_name: text_or_default(&h.track_name),
                artist_name: text_or_default(&h.artist_name),
                album_name: text_or_default(&h.album_name),
                duration_ms: h.duration_ms,
                synced_lyrics: synced,
            };
            assert(lrclib_token_of(hits@[i as int], i as int, t));
            out.push(t);
            assert(kept_lrclib(hits@.take(i + 1)) =~= prev.push(i as int));
        } else {
            assert(kept_lrclib(hits@.take(i + 1)) =~= prev);
        }
        i = i + 1;
    }
    assert(hits@.take(hits@.len() as int) =~= hits@);
    out
}

/// The cookie a NetEase search reply sets: its first `;`-separated piece.
pub open spec fn first_cookie_piece(h: Seq<char>) -> Seq<char> {
    match textops::first_index_of(h, ';') {
        Some(k) => h.take(k),
        None => h,
    }
}

/// The cookie to send again with a NetEase search, from the reply's
/// `Set-Cookie` header when it has one.
pub fn netease_search_cookie(set_cookie: Option<String>) -> (r: Option<String>)
    ensures
        match set_cookie {
            Some(h) => r matches Some(c) && c@ == first_cookie_piece(h@),
            None => r is None,
        },
{
    match set_cookie {
        Some(h) => {
            let v = textops::chars_of(h.as_str());
            match textops::find_char(&v, ';') {
                Some(k) => Some(textops::string_of(textops::slice_vec(&v, 0, k).as_slice())),
                None => Some(h),
            }
        },
        None => None,
    }
}

impl SyairProvider {
    /// The hits of a search page: the link of every result title, in order.
    pub fn search_hits(body: &[u8]) -> (r: Vec<SyairToken>)
        ensures
            r@.map_values(|t: SyairToken| t.link@) == present_links(
                regex_groups_each(syair_link_pattern(), util::utf8_lossy(body@)),
            ),
    {
        let html = util::decode_utf8_lossy(body);
        let pattern = "<div class=\"title\"><a href=\"([^\"]+)\">";
        let caps = regex_groups_all(pattern, html.as_str());
        let ghost g = opt_seqs(caps@);
        let mut out: Vec<SyairToken> = Vec::new();
        let mut i: usize = 0;
        while i < caps.len()
            invariant
                i <= caps@.len(),
                g == opt_seqs(caps@),
                out@.map_values(|t: SyairToken| t.link@) == present_links(g.take(i as int)),
            decreases caps@.len() - i,
        {
            assert(g.take(i + 1).drop_last() =~= g.take(i as int));
            assert(g.take(i + 1).last() == opt_seq(caps@[i as int]));
            let ghost before = out@.map_values(|t: SyairToken| t.link@);
            match &caps[i] {
                Some(l) => {
                    out.push(SyairToken { link: l.clone() });
                    assert(out@.map_values(|t: SyairToken| t.link@) =~= before + seq![l@]);
                },
                None => {
                    assert(before + Seq::<Seq<char>>::empty() =~= before);
                },
            }
            i = i + 1;
        }
        assert(g.take(caps@.len() as int) =~= g);
        out
    }
}

} // verus!
