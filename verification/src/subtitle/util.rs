//! File names for downloaded subtitles.

use vstd::prelude::*;
use crate::textops;

verus! {

/// Unicode control characters (general category Cc).
pub open spec fn is_control(c: char) -> bool {
    (c as u32) < 0x20 || (0x7f <= (c as u32) && (c as u32) <= 0x9f)
}

/// Path separators and reserved characters become `_`.
pub open spec fn name_char(c: char) -> char {
    if c == '\\' || c == '/' || c == '<' || c == '>' || c == ':' || c == '"' || c == '|' || c == '?'
        || c == '*' {
        '_'
    } else {
        c
    }
}

/// `s` without control characters, with separators and reserved characters
/// replaced by `_`.
pub open spec fn cleaned(s: Seq<char>) -> Seq<char>
    decreases s.len(),
{
    if s.len() == 0 {
        s
    } else if is_control(s.last()) {
        cleaned(s.drop_last())
    } else {
        cleaned(s.drop_last()).push(name_char(s.last()))
    }
}

/// The name standing in for an empty one.
pub open spec fn untitled() -> Seq<char> {
    "untitled"@
}

/// The cleaned name with whitespace collapsed, before any truncation.
pub open spec fn collapsed_name(s: Seq<char>) -> Seq<char> {
    let o = textops::collapse_ws(cleaned(s));
    if o.len() == 0 {
        untitled()
    } else {
        o
    }
}

/// A subtitle file name made of `s`: control characters dropped, separators and
/// reserved characters replaced by `_`, whitespace collapsed, `untitled` when
/// empty, and cut to at most `max_len` bytes of UTF-8 (then right-trimmed).
pub open spec fn subtitle_name(s: Seq<char>, max_len: int) -> Seq<char> {
    let o = collapsed_name(s);
    if textops::utf8_len(o) > max_len {
        let t = textops::rtrim(textops::prefix_within(o, max_len));
        if t.len() == 0 {
            untitled()
        } else {
            t
        }
    } else {
        o
    }
}

/// Whether `c` is a control character.
fn is_control_exec(c: char) -> (b: bool)
    ensures
        b == is_control(c),
{
    (c as u32) < 0x20 || (0x7f <= (c as u32) && (c as u32) <= 0x9f)
}

/// `cleaned` on a character vector.
fn cleaned_vec(s: &Vec<char>) -> (r: Vec<char>)
    ensures
        r@ == cleaned(s@),
{
    let mut out: Vec<char> = Vec::new();
    let mut i: usize = 0;
    assert(s@.take(0) =~= Seq::<char>::empty());
    while i < s.len()
        invariant
            i <= s.len(),
            out@ == cleaned(s@.take(i as int)),
        decreases s.len() - i,
    {
        let c = s[i];
        assert(s@.take(i + 1).drop_last() =~= s@.take(i as int));
        assert(s@.take(i + 1).last() == c);
        if !is_control_exec(c) {
            let r = if c == '\\' || c == '/' || c == '<' || c == '>' || c == ':' || c == '"' || c
                == '|' || c == '?' || c == '*' {
                '_'
            } else {
                c
            };
            out.push(r);
        }
        i = i + 1;
    }
    assert(s@.take(s.len() as int) =~= s@);
    out
}

/// Makes a subtitle title safe as a file name of at most `max_len` bytes (see
/// `subtitle_name`). The cut must fall between two characters, as
/// `String::truncate` demands.
pub fn sanitize_component(s: &str, max_len: usize) -> (r: String)
    requires
        textops::utf8_len(collapsed_name(s@)) > max_len ==> textops::utf8_len(
            textops::prefix_within(collapsed_name(s@), max_len as int),
        ) == max_len,
    ensures
        r@ == subtitle_name(s@, max_len as int),
{
    let c = cleaned_vec(&textops::chars_of(s));
    let o = textops::collapse_ws_vec(&c);
    let out: String = if o.len() == 0 {
        "untitled".to_owned()
    } else {
        textops::string_of(o.as_slice())
    };
    let ov = textops::chars_of(out.as_str());
    let p = textops::prefix_within_vec(&ov, max_len);
    proof {
        textops::lemma_prefix_within_len(ov@, max_len as int);
    }
    if p.len() < ov.len() {
        let t = textops::rtrim_vec(&p);
        if t.len() == 0 {
            return "untitled".to_owned();
        }
        return textops::string_of(t.as_slice());
    }
    out
}

/// The name tried for the `i`-th duplicate of `stem.suffix`: `stem (i).suffix`
/// (`stem (i)` without a suffix).
pub open spec fn numbered_name(stem: Seq<char>, i: u32, suffix: Seq<char>) -> Seq<char> {
    stem + " ("@ + textops::decimal(i as nat) + ")"@ + if suffix.len() == 0 {
        Seq::empty()
    } else {
        seq!['.'] + suffix
    }
}

/// The file name `stem (i).suffix` tried for the `i`-th duplicate of a subtitle.
pub fn numbered_file_name(stem: &str, i: u32, suffix: &str) -> (r: String)
    ensures
        r@ == numbered_name(stem@, i, suffix@),
{
    let mut v = textops::chars_of(stem);
    textops::push_all(&mut v, &textops::chars_of(" ("));
    textops::push_decimal(&mut v, i as u64);
    v.push(')');
    let sfx = textops::chars_of(suffix);
    if sfx.len() > 0 {
        v.push('.');
        textops::push_all(&mut v, &sfx);
    }
    proof {
        reveal_strlit(")");
    }
    assert(v@ =~= numbered_name(stem@, i, suffix@));
    textops::string_of(v.as_slice())
}

/// A character a subtitle name may hold: no control character, separator or
/// reserved character.
pub open spec fn name_char_ok(c: char) -> bool {
    !is_control(c) && !(c == '\\' || c == '/' || c == '<' || c == '>' || c == ':' || c == '"' || c
        == '|' || c == '?' || c == '*')
}

proof fn lemma_cleaned_ok(s: Seq<char>)
    ensures
        forall|i: int| 0 <= i < cleaned(s).len() ==> name_char_ok(#[trigger] cleaned(s)[i]),
    decreases s.len(),
{
    if s.len() > 0 {
        lemma_cleaned_ok(s.drop_last());
        let p = cleaned(s.drop_last());
        assert forall|i: int| 0 <= i < cleaned(s).len() implies name_char_ok(#[trigger] cleaned(s)[i]) by {
            if i < p.len() {
                assert(cleaned(s)[i] == p[i]);
            }
        }
    }
}

/// A subtitle name is never empty and holds no control, separator or
/// reserved character; with a limit of at least 8 bytes (the length of
/// `untitled`) it fits the limit.
pub proof fn lemma_subtitle_name_safe(s: Seq<char>, max_len: int)
    requires
        max_len >= 0,
        textops::utf8_len(collapsed_name(s)) > max_len ==> textops::utf8_len(
            textops::prefix_within(collapsed_name(s), max_len),
        ) == max_len,
    ensures
        subtitle_name(s, max_len).len() > 0,
        forall|i: int|
            0 <= i < subtitle_name(s, max_len).len() ==> name_char_ok(
                #[trigger] subtitle_name(s, max_len)[i],
            ),
        max_len >= 8 ==> textops::utf8_len(subtitle_name(s, max_len)) <= max_len,
{
    reveal_strlit("untitled");
    let c = cleaned(s);
    lemma_cleaned_ok(s);
    textops::lemma_collapse_chars(c, false, false);
    let o = collapsed_name(s);
    assert forall|i: int| 0 <= i < o.len() implies name_char_ok(#[trigger] o[i]) by {
        if textops::collapse_ws(c).len() > 0 {
            let x = o[i];
            if x != ' ' {
                let k = choose|k: int| 0 <= k < c.len() && c[k] == x;
                assert(name_char_ok(c[k]));
            }
        }
    }
    assert(textops::utf8_len(untitled()) == 8) by {
        reveal_with_fuel(vstd::utf8::encode_utf8, 9);
    }
    if textops::utf8_len(o) > max_len {
        let pw = textops::prefix_within(o, max_len);
        textops::lemma_prefix_within_fits(o, max_len);
        textops::lemma_rtrim_prefix(pw);
        textops::lemma_rtrim_chars(pw);
        textops::lemma_utf8_len_prefix(pw, textops::rtrim(pw).len() as int);
        let t = textops::rtrim(pw);
        assert forall|i: int| 0 <= i < t.len() implies name_char_ok(#[trigger] t[i]) by {
            let k = choose|k: int| 0 <= k < pw.len() && pw[k] == t[i];
            assert(pw[k] == o[k]);
        }
    }
}

} // verus!
