use chaos_core::now_playing::{
    append_error, assemble_snapshot, is_current_session, non_blank_text, snapshot_limits,
    span_ms, thumbnail_of, timeline_ms, NowPlayingOptions, NowPlayingSession,
};

fn session(app: &str, current: bool, status: &str) -> NowPlayingSession {
    NowPlayingSession {
        app_id: app.to_string(),
        is_current: current,
        playback_status: status.to_string(),
        title: Some("t".to_string()),
        artist: None,
        album_title: None,
        position_ms: Some(5),
        duration_ms: None,
        thumbnail: None,
        error: None,
    }
}

#[test]
fn snapshot_limits_clamp() {
    let o = NowPlayingOptions { include_thumbnail: true, max_thumbnail_bytes: 0, max_sessions: 500 };
    assert_eq!(snapshot_limits(&o), (128, 1));
    let o = NowPlayingOptions { include_thumbnail: true, max_thumbnail_bytes: 9_000_000, max_sessions: 0 };
    assert_eq!(snapshot_limits(&o), (1, 2_500_000));
    assert_eq!(snapshot_limits(&NowPlayingOptions::default()), (32, 262_144));
}

#[test]
fn timeline_spans() {
    assert_eq!(span_ms(0), None);
    assert_eq!(span_ms(-5), None);
    assert_eq!(span_ms(25_000_000), Some(2500));
    assert_eq!(timeline_ms(10_000, 10_000, 30_000), (Some(1), Some(2)));
    assert_eq!(timeline_ms(0, 30_000, 10_000), (None, None));
    assert_eq!(timeline_ms(0, 0, 10_000), (None, None));
}

#[test]
fn session_texts_and_errors() {
    assert_eq!(non_blank_text("  ".to_string()), None);
    assert_eq!(non_blank_text(" a ".to_string()).as_deref(), Some(" a "));
    assert!(is_current_session(Some("app"), "app"));
    assert!(!is_current_session(Some(""), ""));
    assert!(!is_current_session(None, "app"));
    assert_eq!(append_error(None, "timeline: x"), "timeline: x");
    assert_eq!(append_error(Some("a".to_string()), "b"), "a; b");
}

#[test]
fn thumbnails() {
    assert!(thumbnail_of(&[]).is_none());
    let t = thumbnail_of(b"\xff\xd8\xffabc").unwrap();
    assert_eq!(t.mime, "image/jpeg");
    assert_eq!(t.base64, "/9j/YWJj");
}

#[test]
fn assembled_snapshot_picks_playing() {
    let s = assemble_snapshot(vec![session("a", true, "Paused"), session("b", false, "PLAYING")], 42);
    assert!(s.supported);
    assert_eq!(s.sessions.len(), 2);
    assert_eq!(s.picked_app_id.as_deref(), Some("b"));
    assert_eq!(s.now_playing.unwrap().app_id, "b");
    assert_eq!(s.retrieved_at_unix_ms, 42);
    let none = assemble_snapshot(vec![session("a", false, "Paused")], 1);
    assert!(none.now_playing.is_none() && none.picked_app_id.is_none());
}
