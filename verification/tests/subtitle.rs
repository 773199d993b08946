use chaos_core::subtitle::util::{numbered_file_name, sanitize_component};

#[test]
fn sanitize_component_basic() {
    assert_eq!(sanitize_component("  a/b  ", 80), "a_b");
    assert_eq!(sanitize_component("<>:\\\"|?*", 80), "________");
    assert_eq!(sanitize_component("", 80), "untitled");
}

#[test]
fn sanitize_component_truncate() {
    let s = "a".repeat(200);
    let out = sanitize_component(&s, 120);
    assert_eq!(out.len(), 120);
}

#[test]
fn sanitize_component_drops_controls_and_collapses_whitespace() {
    assert_eq!(sanitize_component("a\u{7}b \t c\n", 80), "ab c");
    assert_eq!(sanitize_component("\u{1}\u{2}", 80), "untitled");
}

#[test]
fn sanitize_component_cuts_on_bytes_and_trims() {
    // "你" is three bytes: six bytes hold exactly two of them.
    assert_eq!(sanitize_component("你好吗", 6), "你好");
    assert_eq!(sanitize_component("ab cd", 3), "ab");
}

#[test]
fn numbered_file_names_count_up() {
    assert_eq!(numbered_file_name("x", 1, "srt"), "x (1).srt");
    assert_eq!(numbered_file_name("x", 2, "srt"), "x (2).srt");
    assert_eq!(numbered_file_name("movie", 12, ""), "movie (12)");
}
