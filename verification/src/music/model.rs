//! Music catalogue, download and login model.

use vstd::prelude::*;
use crate::textops;

verus! {

/// A music backend.
#[derive(Debug, Clone, Copy, PartialEq, Eq, Hash, Structural)]
pub enum MusicService {
    Qq,
    Kugou,
    Netease,
    Kuwo,
}

/// Canonical (lower-case) name of a music service.
pub open spec fn music_service_name(s: MusicService) -> Seq<char> {
    match s {
        MusicService::Qq => "qq"@,
        MusicService::Kugou => "kugou"@,
        MusicService::Netease => "netease"@,
        MusicService::Kuwo => "kuwo"@,
    }
}

impl MusicService {
    pub fn as_str(self) -> (r: &'static str)
        ensures
            r@ == music_service_name(self),
    {
        match self {
            MusicService::Qq => "qq",
            MusicService::Kugou => "kugou",
            MusicService::Netease => "netease",
            MusicService::Kuwo => "kuwo",
        }
    }
}

/// A downloadable quality of a track.
#[derive(Debug, Clone)]
pub struct MusicQuality {
    /// Stable id used by UI/daemon (e.g. "mp3_128", "mp3_320", "flac").
    pub id: String,
    pub label: String,
    pub format: String,
    pub bitrate_kbps: Option<u32>,
    pub lossless: bool,
}

#[derive(Debug, Clone)]
pub struct MusicTrack {
    pub service: MusicService,
    pub id: String,
    pub title: String,
    pub artists: Vec<String>,
    pub artist_ids: Vec<String>,
    pub album: Option<String>,
    pub album_id: Option<String>,
    pub duration_ms: Option<u64>,
    pub cover_url: Option<String>,
    pub qualities: Vec<MusicQuality>,
}

#[derive(Debug, Clone)]
pub struct MusicAlbum {
    pub service: MusicService,
    pub id: String,
    pub title: String,
    pub artist: Option<String>,
    pub artist_id: Option<String>,
    pub cover_url: Option<String>,
    pub publish_time: Option<String>,
    pub track_count: Option<u32>,
}

#[derive(Debug, Clone)]
pub struct MusicArtist {
    pub service: MusicService,
    pub id: String,
    pub name: String,
    pub cover_url: Option<String>,
    pub album_count: Option<u32>,
}

#[derive(Debug, Clone, Default)]
pub struct ProviderConfig {
    /// For "kugou" service. When empty, kugou provider is disabled.
    pub kugou_base_url: Option<String>,
    /// For "netease" service: the base URLs tried in order.
    pub netease_base_urls: Vec<String>,
    /// For "netease" anonymous login endpoint.
    pub netease_anonymous_cookie_url: Option<String>,
}

#[derive(Debug, Clone, Default)]
pub struct QqMusicCookie {
    pub openid: Option<String>,
    pub refresh_token: Option<String>,
    pub access_token: Option<String>,
    pub expired_at: Option<i64>,
    /// `musicid` of the account.
    pub musicid: Option<String>,
    /// `musickey` of the account (`authst`).
    pub musickey: Option<String>,
    pub musickey_create_time: Option<i64>,
    pub first_login: Option<i64>,
    pub refresh_key: Option<String>,
    pub login_type: Option<i64>,
    pub str_musicid: Option<String>,
    pub nick: Option<String>,
    pub logo: Option<String>,
    pub encrypt_uin: Option<String>,
}

/// A JSON scalar as read for a loosely typed string field of a login reply.
#[derive(Debug, Clone)]
pub enum LooseValue {
    Null,
    Str(String),
    /// A number, as `serde_json` prints it.
    Number(String),
    Bool(bool),
    /// An array or an object.
    Other,
}

/// What a loosely typed string field holds: trimmed text (none when blank), a
/// number's text, `true`/`false`; `None` for an error.
pub open spec fn loose_string_spec(v: LooseValue) -> Option<Option<Seq<char>>> {
    match v {
        LooseValue::Null => Some(None),
        LooseValue::Str(s) => if textops::trim(s@).len() == 0 {
            Some(None)
        } else {
            Some(Some(textops::trim(s@)))
        },
        LooseValue::Number(n) => Some(Some(n@)),
        LooseValue::Bool(b) => Some(Some(if b {
            "true"@
        } else {
            "false"@
        })),
        LooseValue::Other => None,
    }
}

/// Reads a loosely typed string field: login replies write some ids as JSON
/// numbers, and the library keeps them as strings. Arrays and objects are an
/// error.
pub fn loose_string(v: &LooseValue) -> (r: Result<Option<String>, String>)
    ensures
        match (r, loose_string_spec(*v)) {
            (Ok(Some(s)), Some(Some(t))) => s@ == t,
            (Ok(None), Some(None)) => true,
            (Err(_), None) => true,
            _ => false,
        },
{
    match v {
        LooseValue::Null => Ok(None),
        LooseValue::Str(s) => {
            let t = textops::trim_vec(&textops::chars_of(s.as_str()));
            if t.len() == 0 {
                Ok(None)
            } else {
                Ok(Some(textops::string_of(t.as_slice())))
            }
        },
        LooseValue::Number(n) => Ok(Some(n.clone())),
        LooseValue::Bool(b) => {
            let t = if *b {
                "true"
            } else {
                "false"
            };
            Ok(Some(t.to_owned()))
        },
        LooseValue::Other => Err("expected string/number".to_owned()),
    }
}

#[derive(Debug, Clone)]
pub struct KugouUserInfo {
    pub token: String,
    pub userid: String,
}

#[derive(Debug, Clone, Default)]
pub struct AuthState {
    pub qq: Option<QqMusicCookie>,
    pub kugou: Option<KugouUserInfo>,
    pub netease_cookie: Option<String>,
}

#[derive(Debug, Clone)]
pub enum MusicDownloadTarget {
    Track { track: MusicTrack },
    Album { service: MusicService, album_id: String },
    ArtistAll { service: MusicService, artist_id: String },
}

#[derive(Debug, Clone)]
pub struct MusicDownloadOptions {
    pub quality_id: String,
    pub out_dir: String,
    pub path_template: Option<String>,
    pub overwrite: bool,
    pub concurrency: u32,
    pub retries: u32,
}

/// Parallel downloads when the options do not say.
pub fn default_concurrency() -> (r: u32)
    ensures
        r == 3,
{
    3
}

/// Retries per download when the options do not say.
pub fn default_retries() -> (r: u32)
    ensures
        r == 2,
{
    2
}

#[derive(Debug, Clone)]
pub struct MusicDownloadTotals {
    pub total: u32,
    pub done: u32,
    pub failed: u32,
    pub skipped: u32,
    pub canceled: u32,
}

#[derive(Debug, Clone, Copy, PartialEq, Eq, Structural)]
pub enum MusicJobState {
    Pending,
    Running,
    Done,
    Failed,
    Skipped,
    Canceled,
}

#[derive(Debug, Clone)]
pub struct MusicDownloadJobResult {
    pub index: u32,
    pub track_id: Option<String>,
    pub state: MusicJobState,
    pub path: Option<String>,
    pub bytes: Option<u64>,
    pub error: Option<String>,
}

#[derive(Debug, Clone)]
pub struct MusicDownloadStatus {
    pub done: bool,
    pub totals: MusicDownloadTotals,
    pub jobs: Vec<MusicDownloadJobResult>,
}

#[derive(Debug, Clone, Copy, PartialEq, Eq, Structural)]
pub enum MusicLoginType {
    Qq,
    Wechat,
}

#[derive(Debug, Clone, Copy, PartialEq, Eq, Structural)]
pub enum MusicLoginQrState {
    Scan,
    Confirm,
    Done,
    Timeout,
    Refuse,
    Other,
}

#[derive(Debug, Clone)]
pub struct MusicLoginQr {
    pub session_id: String,
    pub login_type: MusicLoginType,
    pub mime: String,
    pub base64: String,
    /// Internal identifier (qrsig/uuid).
    pub identifier: String,
    pub created_at_unix_ms: i64,
}

#[derive(Debug, Clone)]
pub struct MusicLoginQrPollResult {
    pub session_id: String,
    pub state: MusicLoginQrState,
    pub message: Option<String>,
    pub cookie: Option<QqMusicCookie>,
}

} // verus!
