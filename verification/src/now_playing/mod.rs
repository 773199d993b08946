//! "Now playing" snapshot of the system media sessions.
//!
//! Only Windows exposes the media sessions; elsewhere the snapshot reports
//! that the feature is unsupported.

use vstd::prelude::*;
use crate::textops;

verus! {

#[derive(Debug, Clone)]
pub struct NowPlayingOptions {
    pub include_thumbnail: bool,
    pub max_thumbnail_bytes: usize,
    pub max_sessions: usize,
}

impl Default for NowPlayingOptions {
    fn default() -> (r: Self)
        ensures
            r.include_thumbnail,
            r.max_thumbnail_bytes == 262_144,
            r.max_sessions == 32,
    {
        NowPlayingOptions { include_thumbnail: true, max_thumbnail_bytes: 262_144, max_sessions: 32 }
    }
}

#[derive(Debug, Clone)]
pub struct NowPlayingThumbnail {
    pub mime: String,
    pub base64: String,
}

#[derive(Debug, Clone)]
pub struct NowPlayingSession {
    pub app_id: String,
    pub is_current: bool,
    pub playback_status: String,
    pub title: Option<String>,
    pub artist: Option<String>,
    pub album_title: Option<String>,
    pub position_ms: Option<u64>,
    pub duration_ms: Option<u64>,
    pub thumbnail: Option<NowPlayingThumbnail>,
    pub error: Option<String>,
}

#[derive(Debug, Clone)]
pub struct NowPlayingSnapshot {
    pub supported: bool,
    pub now_playing: Option<NowPlayingSession>,
    pub sessions: Vec<NowPlayingSession>,
    pub picked_app_id: Option<String>,
    pub retrieved_at_unix_ms: u64,
}

#[derive(Debug, Clone)]
pub enum NowPlayingError {
    Unsupported,
    Other(String),
}

/// The session's status reads `Playing`, ignoring ASCII case.
pub open spec fn is_playing(s: NowPlayingSession) -> bool {
    textops::lower(s.playback_status@) == textops::lower("Playing"@)
}

/// The session to show: the first playing one, else the first current one.
pub open spec fn picks(sessions: Seq<NowPlayingSession>, r: Option<usize>) -> bool {
    match r {
        Some(i) => i < sessions.len() && ((is_playing(sessions[i as int]) && forall|j: int|
            0 <= j < i ==> !is_playing(#[trigger] sessions[j])) || ((forall|j: int|
            0 <= j < sessions.len() ==> !is_playing(#[trigger] sessions[j]))
            && sessions[i as int].is_current && forall|j: int|
            0 <= j < i ==> !(#[trigger] sessions[j]).is_current)),
        None => forall|j: int|
            0 <= j < sessions.len() ==> !is_playing(#[trigger] sessions[j])
                && !sessions[j].is_current,
    }
}

/// Whether a session's status is `Playing`, ignoring ASCII case.
fn is_playing_exec(s: &NowPlayingSession) -> (b: bool)
    ensures
        b == is_playing(*s),
{
    let a = textops::lower_vec(&textops::chars_of(s.playback_status.as_str()));
    let p = textops::lower_vec(&textops::chars_of("Playing"));
    textops::eq_vec(&a, &p)
}

/// Index of the session to show: the first whose status is `Playing`
/// (ignoring ASCII case), else the first current one.
pub fn pick_now_playing_index(sessions: &[NowPlayingSession]) -> (r: Option<usize>)
    ensures
        picks(sessions@, r),
{
    let mut i: usize = 0;
    while i < sessions.len()
        invariant
            i <= sessions.len(),
            forall|j: int| 0 <= j < i ==> !is_playing(#[trigger] sessions@[j]),
        decreases sessions.len() - i,
    {
        if is_playing_exec(&sessions[i]) {
            return Some(i);
        }
        i = i + 1;
    }
    let mut k: usize = 0;
    while k < sessions.len()
        invariant
            k <= sessions.len(),
            forall|j: int| 0 <= j < sessions.len() ==> !is_playing(#[trigger] sessions@[j]),
            forall|j: int| 0 <= j < k ==> !(#[trigger] sessions@[j]).is_current,
        decreases sessions.len() - k,
    {
        if sessions[k].is_current {
            return Some(k);
        }
        k = k + 1;
    }
    None
}

/// The media type of a thumbnail, told by its leading bytes.
pub open spec fn mime_of(bytes: Seq<u8>) -> Seq<char> {
    if bytes.len() >= 8 && bytes.take(8) == seq![0x89u8, 0x50, 0x4e, 0x47, 0x0d, 0x0a, 0x1a, 0x0a] {
        "image/png"@
    } else if bytes.len() >= 3 && bytes[0] == 0xff && bytes[1] == 0xd8 && bytes[2] == 0xff {
        "image/jpeg"@
    } else {
        "application/octet-stream"@
    }
}

/// The PNG signature is the first eight bytes exactly when they match one by one.
proof fn lemma_png_signature(b: Seq<u8>)
    requires
        b.len() >= 8,
    ensures
        (b.take(8) == seq![0x89u8, 0x50, 0x4e, 0x47, 0x0d, 0x0a, 0x1a, 0x0a]) == (b[0] == 0x89
            && b[1] == 0x50 && b[2] == 0x4e && b[3] == 0x47 && b[4] == 0x0d && b[5] == 0x0a && b[6]
            == 0x1a && b[7] == 0x0a),
{
    let sig = seq![0x89u8, 0x50, 0x4e, 0x47, 0x0d, 0x0a, 0x1a, 0x0a];
    assert forall|i: int| 0 <= i < 8 implies b.take(8)[i] == b[i] by {}
    if b[0] == 0x89 && b[1] == 0x50 && b[2] == 0x4e && b[3] == 0x47 && b[4] == 0x0d && b[5] == 0x0a
        && b[6] == 0x1a && b[7] == 0x0a {
        assert(b.take(8) =~= sig);
    }
    if b.take(8) == sig {
        assert(b.take(8)[0] == sig[0]);
        assert(b.take(8)[7] == sig[7]);
    }
}

/// Guesses a thumbnail's media type: PNG and JPEG by their signatures, else
/// `application/octet-stream`.
pub fn sniff_mime(bytes: &[u8]) -> (r: &'static str)
    ensures
        r@ == mime_of(bytes@),
{
    if bytes.len() >= 8 {
        proof {
            lemma_png_signature(bytes@);
        }
        if bytes[0] == 0x89 && bytes[1] == 0x50 && bytes[2] == 0x4e && bytes[3] == 0x47 && bytes[4]
            == 0x0d && bytes[5] == 0x0a && bytes[6] == 0x1a && bytes[7] == 0x0a {
            return "image/png";
        }
    }
    if bytes.len() >= 3 && bytes[0] == 0xff && bytes[1] == 0xd8 && bytes[2] == 0xff {
        return "image/jpeg";
    }
    "application/octet-stream"
}

/// The limits a snapshot reads with: sessions between 1 and 128, thumbnail
/// bytes between 1 and 2 500 000.
pub fn snapshot_limits(opt: &NowPlayingOptions) -> (r: (usize, usize))
    ensures
        r.0 == (if opt.max_sessions < 1 {
            1
        } else if opt.max_sessions > 128 {
            128
        } else {
            opt.max_sessions
        }),
        r.1 == (if opt.max_thumbnail_bytes < 1 {
            1
        } else if opt.max_thumbnail_bytes > 2_500_000 {
            2_500_000
        } else {
            opt.max_thumbnail_bytes
        }),
{
    let s = if opt.max_sessions < 1 {
        1
    } else if opt.max_sessions > 128 {
        128
    } else {
        opt.max_sessions
    };
    let t = if opt.max_thumbnail_bytes < 1 {
        1
    } else if opt.max_thumbnail_bytes > 2_500_000 {
        2_500_000
    } else {
        opt.max_thumbnail_bytes
    };
    (s, t)
}

/// A media time span (in units of 100 ns) in milliseconds; none unless it
/// is positive.
pub open spec fn span_ms_spec(d: i64) -> Option<u64> {
    if d <= 0 {
        None
    } else {
        Some((d / 10_000) as u64)
    }
}

/// A media time span in milliseconds.
pub fn span_ms(d: i64) -> (r: Option<u64>)
    ensures
        r == span_ms_spec(d),
{
    if d <= 0 {
        None
    } else {
        Some((d as u64) / 10_000)
    }
}

/// The position and duration of a session's timeline (spans in units of
/// 100 ns): the duration runs from start to end when both are positive and
/// the end comes later.
pub fn timeline_ms(position: i64, start: i64, end: i64) -> (r: (Option<u64>, Option<u64>))
    ensures
        r.0 == span_ms_spec(position),
        r.1 == match (span_ms_spec(start), span_ms_spec(end)) {
            (Some(a), Some(b)) => if b > a {
                Some((b - a) as u64)
            } else {
                None
            },
            _ => None,
        },
{
    let duration = match (span_ms(start), span_ms(end)) {
        (Some(a), Some(b)) => if b > a {
            Some(b - a)
        } else {
            None
        },
        _ => None,
    };
    (span_ms(position), duration)
}

/// A media property: the text when it is not blank.
pub fn non_blank_text(s: String) -> (r: Option<String>)
    ensures
        textops::all_ws(s@) ==> r is None,
        !textops::all_ws(s@) ==> (r matches Some(t) && t@ == s@),
{
    if textops::is_blank(&textops::chars_of(s.as_str())) {
        None
    } else {
        Some(s)
    }
}

/// Whether a session is the system's current one: the current app id is
/// known, not empty, and the session's.
pub fn is_current_session(current_app_id: Option<&str>, app_id: &str) -> (b: bool)
    ensures
        b == match current_app_id {
            Some(c) => c@.len() > 0 && c@ == app_id@,
            None => false,
        },
{
    match current_app_id {
        Some(c) => !c.is_empty() && textops::eq_vec(&textops::chars_of(c), &textops::chars_of(app_id)),
        None => false,
    }
}

/// A session's errors with `msg` added: `prev; msg`, or `msg` alone.
pub fn append_error(prev: Option<String>, msg: &str) -> (r: String)
    ensures
        r@ == match prev {
            Some(p) => p@ + "; "@ + msg@,
            None => msg@,
        },
{
    match prev {
        Some(p) => {
            let mut v = textops::chars_of(p.as_str());
            textops::push_all(&mut v, &textops::chars_of("; "));
            textops::push_all(&mut v, &textops::chars_of(msg));
            textops::string_of(v.as_slice())
        },
        None => msg.to_owned(),
    }
}

/// A thumbnail of image bytes: its sniffed media type and its base64 text,
/// which decodes back to the bytes; none when there are no bytes.
pub fn thumbnail_of(bytes: &[u8]) -> (r: Option<NowPlayingThumbnail>)
    ensures
        bytes@.len() == 0 ==> r is None,
        bytes@.len() > 0 ==> (r matches Some(t) && t.mime@ == mime_of(bytes@) && t.base64@
            == crate::music::providers::base64_encoded(bytes@)),
        r matches Some(t) ==> crate::lyrics::providers::base64_decoded(t.base64@) == Some(bytes@),
{
    if bytes.len() == 0 {
        return None;
    }
    Some(
        NowPlayingThumbnail {
            mime: sniff_mime(bytes).to_owned(),
            base64: crate::music::providers::base64_encode(bytes),
        },
    )
}

/// Two sessions hold the same values.
pub open spec fn same_session(a: NowPlayingSession, b: NowPlayingSession) -> bool {
    &&& a.app_id@ == b.app_id@
    &&& a.is_current == b.is_current
    &&& a.playback_status@ == b.playback_status@
    &&& crate::music::catalog::ov(a.title) == crate::music::catalog::ov(b.title)
    &&& crate::music::catalog::ov(a.artist) == crate::music::catalog::ov(b.artist)
    &&& crate::music::catalog::ov(a.album_title) == crate::music::catalog::ov(b.album_title)
    &&& a.position_ms == b.position_ms
    &&& a.duration_ms == b.duration_ms
    &&& match (a.thumbnail, b.thumbnail) {
        (Some(x), Some(y)) => x.mime@ == y.mime@ && x.base64@ == y.base64@,
        (None, None) => true,
        _ => false,
    }
    &&& crate::music::catalog::ov(a.error) == crate::music::catalog::ov(b.error)
}

fn copy_opt_string(o: &Option<String>) -> (r: Option<String>)
    ensures
        crate::music::catalog::ov(r) == crate::music::catalog::ov(*o),
{
    match o {
        Some(s) => Some(s.clone()),
        None => None,
    }
}

/// A copy of a session.
fn copy_session(s: &NowPlayingSession) -> (r: NowPlayingSession)
    ensures
        same_session(r, *s),
{
    NowPlayingSession {
        app_id: s.app_id.clone(),
        is_current: s.is_current,
        playback_status: s.playback_status.clone(),
        title: copy_opt_string(&s.title),
        artist: copy_opt_string(&s.artist),
        album_title: copy_opt_string(&s.album_title),
        position_ms: s.position_ms,
        duration_ms: s.duration_ms,
        thumbnail: match &s.thumbnail {
            Some(t) => Some(NowPlayingThumbnail { mime: t.mime.clone(), base64: t.base64.clone() }),
            None => None,
        },
        error: copy_opt_string(&s.error),
    }
}

/// The snapshot of the sessions read at `retrieved_at`: all of them, and the
/// one to show (see `picks`) with its app id.
pub fn assemble_snapshot(sessions: Vec<NowPlayingSession>, retrieved_at: u64) -> (r: NowPlayingSnapshot)
    ensures
        r.supported,
        r.sessions@ == sessions@,
        r.retrieved_at_unix_ms == retrieved_at,
        exists|i: Option<usize>|
            picks(sessions@, i) && match i {
                Some(k) => (r.now_playing matches Some(s) && same_session(s, sessions@[k as int]))
                    && (r.picked_app_id matches Some(a) && a@ == sessions@[k as int].app_id@),
                None => r.now_playing is None && r.picked_app_id is None,
            },
{
    let idx = pick_now_playing_index(sessions.as_slice());
    let (now_playing, picked_app_id) = match idx {
        Some(k) => (Some(copy_session(&sessions[k])), Some(sessions[k].app_id.clone())),
        None => (None, None),
    };
    NowPlayingSnapshot { supported: true, now_playing, sessions, picked_app_id, retrieved_at_unix_ms: retrieved_at }
}

/// Milliseconds since the Unix epoch by the system clock, cut to 64 bits.
fn unix_ms_now() -> (ms: u64) {
    let ms = crate::clock::unix_time_ms();
    ms as u64
}

/// A snapshot of the media sessions. This build reads none: it reports the
/// feature as unsupported, with the time it was taken.
pub fn snapshot(_opt: NowPlayingOptions) -> (r: Result<NowPlayingSnapshot, NowPlayingError>)
    ensures
        r matches Ok(s) && !s.supported && s.now_playing is None && s.sessions@.len() == 0
            && s.picked_app_id is None,
{
    Ok(
        NowPlayingSnapshot {
            supported: false,
            now_playing: None,
            sessions: Vec::new(),
            picked_app_id: None,
            retrieved_at_unix_ms: unix_ms_now(),
        },
    )
}

} // verus!
