//! File-name and path rules for downloaded tracks.
//!
//! Paths are computed as lists of components relative to the output
//! directory; every component is a sanitized, non-empty file name.

use vstd::prelude::*;
use crate::textops;

verus! {

/// Characters Windows forbids in file names: `<>:"/\|?*` and ASCII controls.
pub open spec fn is_forbidden(c: char) -> bool {
    c == '<' || c == '>' || c == ':' || c == '"' || c == '/' || c == '\\' || c == '|' || c == '?'
        || c == '*' || (c as u32) < 0x20
}

/// `s` with every forbidden character replaced by `_`.
pub open spec fn replace_forbidden(s: Seq<char>) -> Seq<char> {
    s.map_values(|c: char| if is_forbidden(c) { '_' } else { c })
}

/// The file name standing in for a blank one.
pub open spec fn unknown_name() -> Seq<char> {
    "unknown"@
}

/// A file-name component made of `s`: trimmed, forbidden characters replaced by
/// `_`, trailing dots and spaces removed, at most 150 characters, and
/// `unknown` when nothing is left.
pub open spec fn sanitize_spec(s: Seq<char>) -> Seq<char> {
    let t = textops::trim(s);
    if t.len() == 0 {
        unknown_name()
    } else {
        let o = textops::trim(textops::rstrip_char(textops::trim(replace_forbidden(t)), '.'));
        if o.len() == 0 {
            unknown_name()
        } else if o.len() > 150 {
            o.take(150)
        } else {
            o
        }
    }
}

/// Whether `c` is forbidden in a file name.
fn is_forbidden_exec(c: char) -> (b: bool)
    ensures
        b == is_forbidden(c),
{
    c == '<' || c == '>' || c == ':' || c == '"' || c == '/' || c == '\\' || c == '|' || c == '?'
        || c == '*' || (c as u32) < 0x20
}

/// `sanitize_spec` on a character vector.
fn sanitize_vec(s: &Vec<char>) -> (r: Vec<char>)
    ensures
        r@ == sanitize_spec(s@),
{
    let t = textops::trim_vec(s);
    if t.len() == 0 {
        return textops::chars_of("unknown");
    }
    let mut m: Vec<char> = Vec::new();
    let mut i: usize = 0;
    while i < t.len()
        invariant
            i <= t.len(),
            m@ == replace_forbidden(t@).take(i as int),
        decreases t.len() - i,
    {
        let c = t[i];
        if is_forbidden_exec(c) {
            m.push('_');
        } else {
            m.push(c);
        }
        i = i + 1;
        assert(m@ =~= replace_forbidden(t@).take(i as int));
    }
    assert(m@ =~= replace_forbidden(t@));
    let o = textops::trim_vec(&textops::rstrip_char_vec(&textops::trim_vec(&m), '.'));
    if o.len() == 0 {
        textops::chars_of("unknown")
    } else if o.len() > 150 {
        textops::slice_vec(&o, 0, 150)
    } else {
        o
    }
}

/// Makes `s` safe as one file-name component (see `sanitize_spec`).
pub fn sanitize_component(s: &str) -> (r: String)
    ensures
        r@ == sanitize_spec(s@),
{
    let v = sanitize_vec(&textops::chars_of(s));
    textops::string_of(v.as_slice())
}

/// The first artist name that is not blank, trimmed; `unknown` when none is.
pub open spec fn primary_artist(artists: Seq<String>) -> Seq<char>
    decreases artists.len(),
{
    if artists.len() == 0 {
        unknown_name()
    } else if textops::trim(artists[0]@).len() > 0 {
        textops::trim(artists[0]@)
    } else {
        primary_artist(artists.drop_first())
    }
}

/// The artist a track is filed under (see `primary_artist`).
pub fn pick_primary_artist(artists: &[String]) -> (r: String)
    ensures
        r@ == primary_artist(artists@),
{
    let n = artists.len();
    let mut i: usize = 0;
    assert(artists@.subrange(0, n as int) =~= artists@);
    while i < n
        invariant
            i <= n,
            n == artists@.len(),
            primary_artist(artists@) == primary_artist(artists@.subrange(i as int, n as int)),
        decreases n - i,
    {
        let t = textops::trim_vec(&textops::chars_of(artists[i].as_str()));
        assert(artists@.subrange(i as int, n as int)[0] == artists@[i as int]);
        if t.len() > 0 {
            return textops::string_of(t.as_slice());
        }
        assert(artists@.subrange(i as int, n as int).drop_first() =~= artists@.subrange(
            i + 1,
            n as int,
        ));
        i = i + 1;
    }
    "unknown".to_owned()
}

/// Decimal notation of `n` with at least two digits (`{:02}`).
pub open spec fn two_digits(n: nat) -> Seq<char> {
    if n < 10 {
        seq!['0', textops::digit_char(n as int)]
    } else {
        textops::decimal(n)
    }
}

/// Appends the notation of `n` with at least two digits to `out`.
pub fn push_two_digits(out: &mut Vec<char>, n: u64)
    ensures
        final(out)@ == old(out)@ + two_digits(n as nat),
{
    if n < 10 {
        out.push('0');
    }
    textops::push_decimal(out, n);
    assert(out@ =~= old(out)@ + two_digits(n as nat));
}

/// The view of an optional string.
pub open spec fn opt_view(o: Option<&str>) -> Option<Seq<char>> {
    match o {
        Some(s) => Some(s@),
        None => None,
    }
}

/// The album directory: the sanitized album name, `Single` without one.
pub open spec fn album_dir(album: Option<Seq<char>>) -> Seq<char> {
    match album {
        Some(a) => if textops::trim(sanitize_spec(a)).len() > 0 {
            sanitize_spec(a)
        } else {
            "Single"@
        },
        None => "Single"@,
    }
}

/// The extension as written after the dot: trimmed, leading dots removed.
pub open spec fn ext_text(ext: Seq<char>) -> Seq<char> {
    textops::lstrip_char(textops::trim(ext), '.')
}

/// `NN - ` for a track number, nothing without one.
pub open spec fn track_no_prefix(track_no: Option<u32>) -> Seq<char> {
    match track_no {
        Some(n) => two_digits(n as nat) + " - "@,
        None => Seq::empty(),
    }
}

/// The file name of a track: optional number prefix, sanitized title, and the
/// extension after a dot when one is given.
pub open spec fn track_file_name(track_no: Option<u32>, title: Seq<char>, ext: Seq<char>) -> Seq<
    char,
> {
    track_no_prefix(track_no) + sanitize_spec(title) + if textops::trim(ext).len() > 0 {
        seq!['.'] + ext_text(ext)
    } else {
        Seq::empty()
    }
}

/// The default layout `<artist>/<album>/<file>` below the output directory.
pub open spec fn track_components(
    artists: Seq<String>,
    album: Option<Seq<char>>,
    track_no: Option<u32>,
    title: Seq<char>,
    ext: Seq<char>,
) -> Seq<Seq<char>> {
    seq![
        sanitize_spec(primary_artist(artists)),
        album_dir(album),
        track_file_name(track_no, title, ext),
    ]
}

/// The path of a downloaded track below the output directory, as its
/// components: primary artist, album (`Single` without one), and the file name
/// `NN - <title>.<ext>`.
pub fn track_path_components(
    artists: &[String],
    album: Option<&str>,
    track_no_1based: Option<u32>,
    title: &str,
    ext: &str,
) -> (r: Vec<String>)
    ensures
        r.deep_view() == track_components(artists@, opt_view(album), track_no_1based, title@, ext@),
{
    let artist = sanitize_component(pick_primary_artist(artists).as_str());
    let album_name: String = match album {
        Some(a) => {
            let s = sanitize_component(a);
            if textops::trim_vec(&textops::chars_of(s.as_str())).len() > 0 {
                s
            } else {
                "Single".to_owned()
            }
        },
        None => "Single".to_owned(),
    };
    let mut file: Vec<char> = Vec::new();
    if let Some(n) = track_no_1based {
        push_two_digits(&mut file, n as u64);
        let sep = textops::chars_of(" - ");
        textops::push_all(&mut file, &sep);
    }
    let t = textops::chars_of(sanitize_component(title).as_str());
    textops::push_all(&mut file, &t);
    let e = textops::trim_vec(&textops::chars_of(ext));
    if e.len() > 0 {
        file.push('.');
        let x = textops::lstrip_char_vec(&e, '.');
        textops::push_all(&mut file, &x);
    }
    assert(file@ =~= track_file_name(track_no_1based, title@, ext@));
    let r = vec![artist, album_name, textops::string_of(file.as_slice())];
    assert(r.deep_view() =~= track_components(
        artists@,
        opt_view(album),
        track_no_1based,
        title@,
        ext@,
    ));
    r
}

/// What a template placeholder stands for, given the values
/// `(artist, album, title, ext, track_no)`.
pub open spec fn template_lookup(
    key: Seq<char>,
    vals: (Seq<char>, Seq<char>, Seq<char>, Seq<char>, Seq<char>),
) -> Seq<char> {
    if key == "artist"@ {
        vals.0
    } else if key == "album"@ {
        vals.1
    } else if key == "title"@ {
        vals.2
    } else if key == "ext"@ {
        vals.3
    } else if key == "track_no"@ {
        vals.4
    } else {
        Seq::empty()
    }
}

/// `t` with every `{{ key }}` placeholder replaced by its value (unknown keys by
/// nothing); an unclosed `{{` keeps the rest of the text as it is, without
/// the braces.
#[verifier::opaque]
pub open spec fn render_template(
    t: Seq<char>,
    vals: (Seq<char>, Seq<char>, Seq<char>, Seq<char>, Seq<char>),
) -> Seq<char>
    decreases t.len(),
{
    match textops::first_occurrence(t, seq!['{', '{']) {
        None => t,
        Some(start) => if 0 <= start && start + 2 <= t.len() {
            let after = t.subrange(start + 2, t.len() as int);
            t.take(start) + match textops::first_occurrence(after, seq!['}', '}']) {
                None => after,
                Some(end) => if 0 <= end && end + 2 <= after.len() {
                    template_lookup(textops::trim(after.take(end)), vals) + render_template(
                        after.subrange(end + 2, after.len() as int),
                        vals,
                    )
                } else {
                    after
                },
            }
        } else {
            t
        },
    }
}

/// The values a path template can refer to.
pub struct TemplateValues {
    pub artist: String,
    pub album: String,
    pub title: String,
    pub ext: String,
    pub track_no: String,
}

/// The values of a `TemplateValues`, in the order `template_lookup` takes them.
pub open spec fn template_vals(v: TemplateValues) -> (
    Seq<char>,
    Seq<char>,
    Seq<char>,
    Seq<char>,
    Seq<char>,
) {
    (v.artist@, v.album@, v.title@, v.ext@, v.track_no@)
}

/// The value of a placeholder key.
fn lookup_exec(key: &Vec<char>, v: &TemplateValues) -> (r: Vec<char>)
    ensures
        r@ == template_lookup(key@, template_vals(*v)),
{
    if textops::eq_vec(key, &textops::chars_of("artist")) {
        textops::chars_of(v.artist.as_str())
    } else if textops::eq_vec(key, &textops::chars_of("album")) {
        textops::chars_of(v.album.as_str())
    } else if textops::eq_vec(key, &textops::chars_of("title")) {
        textops::chars_of(v.title.as_str())
    } else if textops::eq_vec(key, &textops::chars_of("ext")) {
        textops::chars_of(v.ext.as_str())
    } else if textops::eq_vec(key, &textops::chars_of("track_no")) {
        textops::chars_of(v.track_no.as_str())
    } else {
        Vec::new()
    }
}

proof fn lemma_render_plain(
    t: Seq<char>,
    vals: (Seq<char>, Seq<char>, Seq<char>, Seq<char>, Seq<char>),
)
    requires
        textops::first_occurrence(t, seq!['{', '{']) is None,
    ensures
        render_template(t, vals) == t,
{
    reveal(render_template);
}

proof fn lemma_render_unclosed(
    t: Seq<char>,
    vals: (Seq<char>, Seq<char>, Seq<char>, Seq<char>, Seq<char>),
    start: int,
)
    requires
        textops::first_occurrence(t, seq!['{', '{']) == Some(start),
        0 <= start,
        start + 2 <= t.len(),
        textops::first_occurrence(t.subrange(start + 2, t.len() as int), seq!['}', '}']) is None,
    ensures
        render_template(t, vals) == t.take(start) + t.subrange(start + 2, t.len() as int),
{
    reveal(render_template);
}

proof fn lemma_render_placeholder(
    t: Seq<char>,
    vals: (Seq<char>, Seq<char>, Seq<char>, Seq<char>, Seq<char>),
    start: int,
    end: int,
)
    requires
        textops::first_occurrence(t, seq!['{', '{']) == Some(start),
        0 <= start,
        start + 2 <= t.len(),
        textops::first_occurrence(t.subrange(start + 2, t.len() as int), seq!['}', '}']) == Some(
            end,
        ),
        0 <= end,
        start + 2 + end + 2 <= t.len(),
    ensures
        ({
            let after = t.subrange(start + 2, t.len() as int);
            render_template(t, vals) == t.take(start) + template_lookup(
                textops::trim(after.take(end)),
                vals,
            ) + render_template(after.subrange(end + 2, after.len() as int), vals)
        }),
{
    reveal(render_template);
}

/// Fills the `{{ key }}` placeholders of a template (see `render_template`).
pub fn render_brace_template(template: &str, v: &TemplateValues) -> (r: String)
    ensures
        r@ == render_template(template@, template_vals(*v)),
{
    let t = textops::chars_of(template);
    let n = t.len();
    let open = vec!['{', '{'];
    let close = vec!['}', '}'];
    assert(open@ =~= seq!['{', '{']);
    assert(close@ =~= seq!['}', '}']);
    let ghost vals = template_vals(*v);
    let mut out: Vec<char> = Vec::new();
    let mut pos: usize = 0;
    assert(t@.subrange(0, n as int) =~= t@);
    loop
        invariant
            pos <= n,
            n == t.len(),
            t@ == template@,
            open@ == seq!['{', '{'],
            close@ == seq!['}', '}'],
            vals == template_vals(*v),
            render_template(t@, vals) == out@ + render_template(t@.subrange(pos as int, n as int), vals),
        decreases n - pos,
    {
        let rest = textops::slice_vec(&t, pos, n);
        match textops::find_sub(&rest, &open) {
            None => {
                proof {
                    lemma_render_plain(rest@, vals);
                }
                textops::push_all(&mut out, &rest);
                return textops::string_of(out.as_slice());
            },
            Some(start) => {
                let head = textops::slice_vec(&rest, 0, start);
                textops::push_all(&mut out, &head);
                let after = textops::slice_vec(&rest, start + 2, rest.len());
                match textops::find_sub(&after, &close) {
                    None => {
                        proof {
                            lemma_render_unclosed(rest@, vals, start as int);
                        }
                        textops::push_all(&mut out, &after);
                        return textops::string_of(out.as_slice());
                    },
                    Some(end) => {
                        let inner = textops::slice_vec(&after, 0, end);
                        let key = textops::trim_vec(&inner);
                        let val = lookup_exec(&key, v);
                        proof {
                            lemma_render_placeholder(rest@, vals, start as int, end as int);
                            assert(after@.subrange(end + 2, after@.len() as int)
                                =~= t@.subrange(pos + start + 2 + end + 2, n as int));
                        }
                        textops::push_all(&mut out, &val);
                        pos = pos + start + 2 + end + 2;
                    },
                }
            },
        }
    }
}

/// `s` with backslashes turned into slashes.
pub open spec fn slashes_normalized(s: Seq<char>) -> Seq<char> {
    s.map_values(|c: char| if c == '\\' { '/' } else { c })
}

/// The pieces of `cur + s` between slashes.
pub open spec fn split_slash(s: Seq<char>, cur: Seq<char>) -> Seq<Seq<char>>
    decreases s.len(),
{
    if s.len() == 0 {
        seq![cur]
    } else if s[0] == '/' {
        seq![cur] + split_slash(s.drop_first(), Seq::empty())
    } else {
        split_slash(s.drop_first(), cur.push(s[0]))
    }
}

/// Whether a component is `.` or `..`, a step that stays or climbs.
pub open spec fn is_dot_name(t: Seq<char>) -> bool {
    t == seq!['.'] || t == seq!['.', '.']
}

/// `.` and `..` become `unknown`, so that a path cannot leave the output
/// directory.
pub open spec fn safe_segment(t: Seq<char>) -> Seq<char> {
    if is_dot_name(t) {
        unknown_name()
    } else {
        t
    }
}

/// Components with `.` and `..` replaced by `unknown`.
pub open spec fn safe_components(cs: Seq<Seq<char>>) -> Seq<Seq<char>> {
    cs.map_values(|c: Seq<char>| safe_segment(c))
}

/// The path components made of raw pieces: each trimmed, blank ones dropped,
/// the others sanitized and then kept from being `.` or `..` (sanitizing can
/// leave them, as it strips trailing dots and spaces).
pub open spec fn path_segments(segs: Seq<Seq<char>>) -> Seq<Seq<char>>
    decreases segs.len(),
{
    if segs.len() == 0 {
        Seq::empty()
    } else {
        let t = textops::trim(segs[0]);
        (if t.len() == 0 {
            Seq::empty()
        } else {
            seq![safe_segment(sanitize_spec(t))]
        }) + path_segments(segs.drop_first())
    }
}

/// The album value of a template: trimmed, `Single` when blank or absent.
pub open spec fn album_value(album: Option<Seq<char>>) -> Seq<char> {
    match album {
        Some(a) => if textops::trim(a).len() > 0 {
            textops::trim(a)
        } else {
            "Single"@
        },
        None => "Single"@,
    }
}

/// The track number of a template: two digits at least, empty without one.
pub open spec fn track_no_value(track_no: Option<u32>) -> Seq<char> {
    match track_no {
        Some(n) => two_digits(n as nat),
        None => Seq::empty(),
    }
}

/// The path below the output directory that a template gives: the rendered
/// template split at `/` and `\`, each piece made a component; the default
/// layout when the template is blank or renders to no component. No
/// component is `.` or `..`.
pub open spec fn template_components(
    template: Seq<char>,
    artists: Seq<String>,
    album: Option<Seq<char>>,
    track_no: Option<u32>,
    title: Seq<char>,
    ext: Seq<char>,
) -> Seq<Seq<char>> {
    let tpl = textops::trim(template);
    if tpl.len() == 0 {
        safe_components(track_components(artists, album, track_no, title, ext))
    } else {
        let vals = (
            primary_artist(artists),
            album_value(album),
            title,
            ext_text(ext),
            track_no_value(track_no),
        );
        let parts = path_segments(
            split_slash(slashes_normalized(render_template(tpl, vals)), Seq::empty()),
        );
        if parts.len() == 0 {
            safe_components(track_components(artists, album, track_no, title, ext))
        } else {
            parts
        }
    }
}

/// The component made of a single raw piece, if it is not blank.
proof fn lemma_path_segments_one(x: Seq<char>)
    ensures
        path_segments(seq![x]) == (if textops::trim(x).len() == 0 {
            Seq::<Seq<char>>::empty()
        } else {
            seq![safe_segment(sanitize_spec(textops::trim(x)))]
        }),
{
    reveal_with_fuel(path_segments, 2);
    assert(seq![x].drop_first() =~= Seq::<Seq<char>>::empty());
    assert(path_segments(seq![x]) =~= (if textops::trim(x).len() == 0 {
        Seq::<Seq<char>>::empty()
    } else {
        seq![safe_segment(sanitize_spec(textops::trim(x)))]
    }));
}

/// `safe_segment` on a character vector.
fn safe_segment_vec(t: Vec<char>) -> (r: Vec<char>)
    ensures
        r@ == safe_segment(t@),
{
    let dot = vec!['.'];
    let dotdot = vec!['.', '.'];
    assert(dot@ =~= seq!['.']);
    assert(dotdot@ =~= seq!['.', '.']);
    if textops::eq_vec(&t, &dot) || textops::eq_vec(&t, &dotdot) {
        proof {
            reveal_strlit("unknown");
        }
        textops::chars_of("unknown")
    } else {
        t
    }
}

/// The components with `.` and `..` replaced by `unknown`.
fn safe_components_vec(v: Vec<String>) -> (r: Vec<String>)
    ensures
        r.deep_view() == safe_components(v.deep_view()),
{
    let mut out: Vec<String> = Vec::new();
    let mut i: usize = 0;
    while i < v.len()
        invariant
            i <= v@.len(),
            out.deep_view() == safe_components(v.deep_view()).take(i as int),
        decreases v@.len() - i,
    {
        let c = safe_segment_vec(textops::chars_of(v[i].as_str()));
        let ghost before = out.deep_view();
        out.push(textops::string_of(c.as_slice()));
        assert(out.deep_view() =~= before.push(safe_segment(v.deep_view()[i as int])));
        assert(safe_components(v.deep_view()).take(i + 1) =~= safe_components(v.deep_view()).take(
            i as int,
        ).push(safe_segment(v.deep_view()[i as int])));
        i = i + 1;
    }
    assert(safe_components(v.deep_view()).take(v@.len() as int) =~= safe_components(v.deep_view()));
    out
}

/// Appends the component made of the raw piece `cur`, if it is not blank.
fn push_segment(out: &mut Vec<String>, cur: &Vec<char>)
    ensures
        final(out).deep_view() == old(out).deep_view() + path_segments(seq![cur@]),
{
    let t = textops::trim_vec(cur);
    let ghost segs = seq![cur@];
    proof {
        lemma_path_segments_one(cur@);
    }
    if t.len() > 0 {
        let c = safe_segment_vec(sanitize_vec(&t));
        out.push(textops::string_of(c.as_slice()));
        assert(out.deep_view() =~= old(out).deep_view() + path_segments(segs));
    } else {
        assert(out.deep_view() =~= old(out).deep_view() + path_segments(segs));
    }
}

/// The components made of `s`: split at slashes and backslashes.
fn split_components(s: &Vec<char>) -> (r: Vec<String>)
    ensures
        r.deep_view() == path_segments(split_slash(slashes_normalized(s@), Seq::empty())),
{
    let n = s.len();
    let ghost ns = slashes_normalized(s@);
    let mut out: Vec<String> = Vec::new();
    let mut cur: Vec<char> = Vec::new();
    let mut i: usize = 0;
    assert(ns.subrange(0, n as int) =~= ns);
    while i < n
        invariant
            i <= n,
            n == s.len(),
            ns == slashes_normalized(s@),
            path_segments(split_slash(ns, Seq::empty())) == out.deep_view() + path_segments(
                split_slash(ns.subrange(i as int, n as int), cur@),
            ),
        decreases n - i,
    {
        let c = s[i];
        let ghost rest = ns.subrange(i as int, n as int);
        assert(rest.drop_first() =~= ns.subrange(i + 1, n as int));
        assert(rest[0] == (if c == '\\' { '/' } else { c }));
        if c == '/' || c == '\\' {
            let ghost tail = split_slash(rest.drop_first(), Seq::empty());
            assert((seq![cur@] + tail).drop_first() =~= tail);
            assert((seq![cur@] + tail)[0] == cur@);
            assert(path_segments(seq![cur@] + tail) == path_segments(seq![cur@]) + path_segments(tail)) by {
                lemma_path_segments_one(cur@);
            }
            push_segment(&mut out, &cur);
            cur = Vec::new();
        } else {
            cur.push(c);
        }
        i = i + 1;
    }
    assert(ns.subrange(n as int, n as int) =~= Seq::<char>::empty());
    push_segment(&mut out, &cur);
    out
}

/// The path of a downloaded track below the output directory, laid out by a
/// template with the placeholders `{{artist}}`, `{{album}}`, `{{title}}`,
/// `{{ext}}` and `{{track_no}}` (see `template_components`). The path never
/// leaves the output directory: a component that is `.` or `..` once
/// sanitized (sanitizing strips trailing dots and spaces, so `.. .` becomes
/// `..`) is replaced by `unknown`, and so is one of the default layout when
/// the template falls back to it; `track_path_components` itself applies no
/// such guard.
pub fn template_path_components(
    template: &str,
    artists: &[String],
    album: Option<&str>,
    track_no_1based: Option<u32>,
    title: &str,
    ext: &str,
) -> (r: Vec<String>)
    ensures
        r.deep_view() == template_components(
            template@,
            artists@,
            opt_view(album),
            track_no_1based,
            title@,
            ext@,
        ),
{
    let tpl = textops::trim_vec(&textops::chars_of(template));
    if tpl.len() == 0 {
        return safe_components_vec(track_path_components(artists, album, track_no_1based, title, ext));
    }
    let album_v: String = match album {
        Some(a) => {
            let t = textops::trim_vec(&textops::chars_of(a));
            if t.len() > 0 {
                textops::string_of(t.as_slice())
            } else {
                "Single".to_owned()
            }
        },
        None => "Single".to_owned(),
    };
    let mut track_no_v: Vec<char> = Vec::new();
    if let Some(n) = track_no_1based {
        push_two_digits(&mut track_no_v, n as u64);
    }
    let ext_v = textops::lstrip_char_vec(&textops::trim_vec(&textops::chars_of(ext)), '.');
    let vals = TemplateValues {
        artist: pick_primary_artist(artists),
        album: album_v,
        title: title.to_owned(),
        ext: textops::string_of(ext_v.as_slice()),
        track_no: textops::string_of(track_no_v.as_slice()),
    };
    assert(track_no_v@ =~= track_no_value(track_no_1based));
    let rendered = render_brace_template(textops::string_of(tpl.as_slice()).as_str(), &vals);
    let parts = split_components(&textops::chars_of(rendered.as_str()));
    if parts.len() == 0 {
        return safe_components_vec(track_path_components(artists, album, track_no_1based, title, ext));
    }
    parts
}

/// The quality ids tried, best first, when the wanted quality is missing.
pub fn quality_fallback_order() -> (r: [&'static str; 4])
    ensures
        r@.len() == 4,
        r@[0]@ == "flac"@,
        r@[1]@ == "mp3_320"@,
        r@[2]@ == "mp3_192"@,
        r@[3]@ == "mp3_128"@,
{
    ["flac", "mp3_320", "mp3_192", "mp3_128"]
}

/// A safe file-name component: not empty, at most 150 characters, and
/// without any character Windows forbids (so without path separators).
pub open spec fn is_safe_component(c: Seq<char>) -> bool {
    0 < c.len() <= 150 && forall|i: int| 0 <= i < c.len() ==> !is_forbidden(#[trigger] c[i])
}

/// A sanitized component is safe.
pub proof fn lemma_sanitize_safe(s: Seq<char>)
    ensures
        is_safe_component(sanitize_spec(s)),
{
    reveal_strlit("unknown");
    let t = textops::trim(s);
    if t.len() > 0 {
        let m = replace_forbidden(t);
        let a = textops::trim(m);
        let b = textops::rstrip_char(a, '.');
        let o = textops::trim(b);
        textops::lemma_trim_chars(m);
        textops::lemma_rstrip_chars(a, '.');
        textops::lemma_trim_chars(b);
        assert forall|i: int| 0 <= i < o.len() implies !is_forbidden(#[trigger] o[i]) by {
            let x = o[i];
            let kb = choose|k: int| 0 <= k < b.len() && b[k] == x;
            let ka = choose|k: int| 0 <= k < a.len() && a[k] == b[kb];
            let km = choose|k: int| 0 <= k < m.len() && m[k] == a[ka];
            assert(!is_forbidden(m[km]));
        }
        if o.len() > 150 {
            assert forall|i: int| 0 <= i < o.take(150).len() implies !is_forbidden(
                #[trigger] o.take(150)[i],
            ) by {
                assert(o.take(150)[i] == o[i]);
            }
        }
    }
}

/// `unknown` is a safe component.
proof fn lemma_unknown_safe()
    ensures
        is_safe_component(unknown_name()),
        !is_dot_name(unknown_name()),
{
    reveal_strlit("unknown");
    assert(unknown_name().len() == 7);
    assert(unknown_name()[0] == 'u');
}

/// Keeping a safe component from `.` and `..` leaves it safe, and what
/// `safe_segment` gives is never `.` or `..`.
proof fn lemma_safe_segment_safe(c: Seq<char>)
    ensures
        is_safe_component(c) ==> is_safe_component(safe_segment(c)),
        !is_dot_name(safe_segment(c)),
{
    lemma_unknown_safe();
}

/// Every component made of raw path pieces is safe.
pub proof fn lemma_path_segments_safe(segs: Seq<Seq<char>>)
    ensures
        forall|i: int|
            0 <= i < path_segments(segs).len() ==> is_safe_component(#[trigger] path_segments(segs)[i]),
    decreases segs.len(),
{
    if segs.len() > 0 {
        lemma_path_segments_safe(segs.drop_first());
        let t = textops::trim(segs[0]);
        let rest = path_segments(segs.drop_first());
        lemma_sanitize_safe(t);
        lemma_safe_segment_safe(sanitize_spec(t));
        assert forall|i: int|
            0 <= i < path_segments(segs).len() implies is_safe_component(
            #[trigger] path_segments(segs)[i],
        ) by {
            if t.len() == 0 {
                assert(path_segments(segs) =~= rest);
            } else {
                assert(path_segments(segs) =~= seq![safe_segment(sanitize_spec(t))] + rest);
                if i > 0 {
                    assert(path_segments(segs)[i] == rest[i - 1]);
                }
            }
        }
    }
}

/// When a template renders to some component, every component of the path is
/// safe; in particular none holds a path separator.
pub proof fn lemma_template_components_safe(
    template: Seq<char>,
    artists: Seq<String>,
    album: Option<Seq<char>>,
    track_no: Option<u32>,
    title: Seq<char>,
    ext: Seq<char>,
)
    requires
        textops::trim(template).len() > 0,
        path_segments(
            split_slash(
                slashes_normalized(
                    render_template(
                        textops::trim(template),
                        (
                            primary_artist(artists),
                            album_value(album),
                            title,
                            ext_text(ext),
                            track_no_value(track_no),
                        ),
                    ),
                ),
                Seq::empty(),
            ),
        ).len() > 0,
    ensures
        forall|i: int|
            0 <= i < template_components(template, artists, album, track_no, title, ext).len()
                ==> is_safe_component(
                #[trigger] template_components(template, artists, album, track_no, title, ext)[i],
            ),
{
    let vals = (
        primary_artist(artists),
        album_value(album),
        title,
        ext_text(ext),
        track_no_value(track_no),
    );
    lemma_path_segments_safe(
        split_slash(slashes_normalized(render_template(textops::trim(template), vals)), Seq::empty()),
    );
}

/// No component made of raw path pieces is `.` or `..`.
proof fn lemma_path_segments_no_dots(segs: Seq<Seq<char>>)
    ensures
        forall|i: int|
            0 <= i < path_segments(segs).len() ==> !is_dot_name(#[trigger] path_segments(segs)[i]),
    decreases segs.len(),
{
    if segs.len() > 0 {
        lemma_path_segments_no_dots(segs.drop_first());
        let t = textops::trim(segs[0]);
        let rest = path_segments(segs.drop_first());
        lemma_safe_segment_safe(sanitize_spec(t));
        assert forall|i: int|
            0 <= i < path_segments(segs).len() implies !is_dot_name(#[trigger] path_segments(segs)[i]) by {
            if t.len() == 0 {
                assert(path_segments(segs) =~= rest);
            } else {
                assert(path_segments(segs) =~= seq![safe_segment(sanitize_spec(t))] + rest);
                if i > 0 {
                    assert(path_segments(segs)[i] == rest[i - 1]);
                }
            }
        }
    }
}

/// A template path never leaves the output directory: no component is `.`
/// or `..`, whatever the template and the values put into it.
pub proof fn lemma_template_no_traversal(
    template: Seq<char>,
    artists: Seq<String>,
    album: Option<Seq<char>>,
    track_no: Option<u32>,
    title: Seq<char>,
    ext: Seq<char>,
)
    ensures
        forall|i: int|
            0 <= i < template_components(template, artists, album, track_no, title, ext).len()
                ==> !is_dot_name(
                #[trigger] template_components(template, artists, album, track_no, title, ext)[i],
            ),
{
    let vals = (
        primary_artist(artists),
        album_value(album),
        title,
        ext_text(ext),
        track_no_value(track_no),
    );
    lemma_path_segments_no_dots(
        split_slash(slashes_normalized(render_template(textops::trim(template), vals)), Seq::empty()),
    );
    let d = safe_components(track_components(artists, album, track_no, title, ext));
    assert forall|i: int| 0 <= i < d.len() implies !is_dot_name(#[trigger] d[i]) by {
        lemma_safe_segment_safe(track_components(artists, album, track_no, title, ext)[i]);
    }
}

} // verus!
