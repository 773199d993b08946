use serde::ser::SerializeStruct;

use chaos_core::now_playing::{
    pick_now_playing_index, sniff_mime, snapshot, thumbnail_of, NowPlayingOptions,
    NowPlayingSession, NowPlayingSnapshot, NowPlayingThumbnail,
};

fn session(app: &str, current: bool, status: &str) -> NowPlayingSession {
    NowPlayingSession {
        app_id: app.to_string(),
        is_current: current,
        playback_status: status.to_string(),
        title: None,
        artist: None,
        album_title: None,
        position_ms: None,
        duration_ms: None,
        thumbnail: None,
        error: None,
    }
}

#[test]
fn pick_now_playing_prefers_playing_over_current() {
    let sessions = vec![session("a", true, "Paused"), session("b", false, "Playing")];
    assert_eq!(pick_now_playing_index(&sessions), Some(1));
}

#[test]
fn mime_sniff_png_jpeg_unknown() {
    assert_eq!(sniff_mime(b"\x89PNG\r\n\x1a\nxxxx"), "image/png");
    assert_eq!(sniff_mime(b"\xff\xd8\xff\xe0xxxx"), "image/jpeg");
    assert_eq!(sniff_mime(b"nope"), "application/octet-stream");
    assert_eq!(sniff_mime(b""), "application/octet-stream");
}

#[test]
fn pick_now_playing_ignores_ascii_case_of_status() {
    let sessions = vec![session("a", false, "paused"), session("b", false, "PLAYING")];
    assert_eq!(pick_now_playing_index(&sessions), Some(1));
}

#[test]
fn pick_now_playing_falls_back_to_current_then_none() {
    let sessions = vec![session("a", false, "Paused"), session("b", true, "Stopped")];
    assert_eq!(pick_now_playing_index(&sessions), Some(1));
    let none = vec![session("a", false, "Paused")];
    assert_eq!(pick_now_playing_index(&none), None);
    assert_eq!(pick_now_playing_index(&[]), None);
}

#[test]
fn mime_sniff_needs_the_whole_png_signature() {
    assert_eq!(sniff_mime(b"\x89PNG\r\n\x1a"), "application/octet-stream");
    assert_eq!(sniff_mime(b"\xff\xd8"), "application/octet-stream");
}

#[test]
fn snapshot_reports_unsupported_without_sessions() {
    let s = snapshot(NowPlayingOptions { include_thumbnail: false, max_thumbnail_bytes: 64, max_sessions: 4 })
        .expect("snapshot");
    assert!(!s.supported);
    assert!(s.now_playing.is_none());
    assert!(s.sessions.is_empty());
    assert!(s.picked_app_id.is_none());
    assert!(s.retrieved_at_unix_ms > 0);
}

#[test]
fn now_playing_options_default_values() {
    let o = NowPlayingOptions::default();
    assert!(o.include_thumbnail);
    assert_eq!(o.max_thumbnail_bytes, 262_144);
    assert_eq!(o.max_sessions, 32);
}

#[test]
fn thumbnail_base64_roundtrip_length_nonzero() {
    let bytes = b"\x89PNG\r\n\x1a\nfake";
    let thumb = thumbnail_of(bytes).expect("thumbnail");
    assert_eq!(thumb.mime, "image/png");
    let out = base64::Engine::decode(&base64::engine::general_purpose::STANDARD, &thumb.base64).expect("decode");
    assert!(!out.is_empty());
    assert_eq!(out, bytes);
}

struct ThumbOut<'a>(&'a NowPlayingThumbnail);
struct SessionOut<'a>(&'a NowPlayingSession);
struct SnapshotOut<'a>(&'a NowPlayingSnapshot);

impl serde::Serialize for ThumbOut<'_> {
    fn serialize<S: serde::Serializer>(&self, ser: S) -> Result<S::Ok, S::Error> {
        let mut st = ser.serialize_struct("NowPlayingThumbnail", 2)?;
        st.serialize_field("mime", &self.0.mime)?;
        st.serialize_field("base64", &self.0.base64)?;
        st.end()
    }
}

impl serde::Serialize for SessionOut<'_> {
    fn serialize<S: serde::Serializer>(&self, ser: S) -> Result<S::Ok, S::Error> {
        let s = self.0;
        let mut st = ser.serialize_struct("NowPlayingSession", 10)?;
        st.serialize_field("app_id", &s.app_id)?;
        st.serialize_field("is_current", &s.is_current)?;
        st.serialize_field("playback_status", &s.playback_status)?;
        st.serialize_field("title", &s.title)?;
        st.serialize_field("artist", &s.artist)?;
        st.serialize_field("album_title", &s.album_title)?;
        st.serialize_field("position_ms", &s.position_ms)?;
        st.serialize_field("duration_ms", &s.duration_ms)?;
        st.serialize_field("thumbnail", &s.thumbnail.as_ref().map(ThumbOut))?;
        st.serialize_field("error", &s.error)?;
        st.end()
    }
}

impl serde::Serialize for SnapshotOut<'_> {
    fn serialize<S: serde::Serializer>(&self, ser: S) -> Result<S::Ok, S::Error> {
        let s = self.0;
        let sessions: Vec<SessionOut> = s.sessions.iter().map(SessionOut).collect();
        let mut st = ser.serialize_struct("NowPlayingSnapshot", 5)?;
        st.serialize_field("supported", &s.supported)?;
        st.serialize_field("now_playing", &s.now_playing.as_ref().map(SessionOut))?;
        st.serialize_field("sessions", &sessions)?;
        st.serialize_field("picked_app_id", &s.picked_app_id)?;
        st.serialize_field("retrieved_at_unix_ms", &s.retrieved_at_unix_ms)?;
        st.end()
    }
}

#[test]
fn snapshot_serializes_and_has_supported_field() {
    let s = snapshot(NowPlayingOptions {
        include_thumbnail: false,
        max_thumbnail_bytes: 64,
        max_sessions: 4,
    })
    .expect("snapshot");
    let json = serde_json::to_string(&SnapshotOut(&s)).expect("serialize");
    assert!(json.contains("\"supported\""));
    assert!(!s.supported);
    let v: serde_json::Value = serde_json::from_str(&json).expect("parse");
    assert_eq!(v["supported"], serde_json::Value::Bool(s.supported));
    assert_eq!(v["sessions"], serde_json::Value::Array(vec![]));
    assert_eq!(v["retrieved_at_unix_ms"], serde_json::Value::from(s.retrieved_at_unix_ms));
}
