//! Text frontend of the CosyVoice3 pipeline: which text is spoken and which is
//! injected as the prompt.

use vstd::prelude::*;
use crate::textops;
use crate::tts::TtsError;

verus! {

/// How the prompt text is used.
#[derive(Debug, Clone, Copy, PartialEq, Eq, Structural)]
pub enum PromptStrategy {
    /// The prompt text is injected as the prompt.
    Inject,
    /// The prompt text is spoken before the text, and only the marker is injected.
    GuidePrefix,
}

/// Name of a prompt strategy.
pub open spec fn strategy_name(p: PromptStrategy) -> Seq<char> {
    match p {
        PromptStrategy::Inject => "inject"@,
        PromptStrategy::GuidePrefix => "guide_prefix"@,
    }
}

impl PromptStrategy {
    pub fn as_str(&self) -> (r: &'static str)
        ensures
            r@ == strategy_name(*self),
    {
        match self {
            PromptStrategy::Inject => "inject",
            PromptStrategy::GuidePrefix => "guide_prefix",
        }
    }
}

/// The text to speak and the text to inject as the prompt.
#[derive(Debug, Clone)]
pub struct ResolvedTtsText {
    pub spoken_text: String,
    pub prompt_inject_text: String,
}

/// The marker that ends the prompt.
pub const END_OF_PROMPT: &'static str = "<|endofprompt|>";

/// The characters of the end-of-prompt marker.
pub open spec fn eop() -> Seq<char> {
    "<|endofprompt|>"@
}

/// Whether `c` is a CJK unified ideograph (U+4E00 to U+9FFF).
pub open spec fn is_chinese(c: char) -> bool {
    '\u{4E00}' <= c && c <= '\u{9FFF}'
}

/// Sentence-ending punctuation after which no `。` is added.
pub open spec fn ends_sentence(c: char) -> bool {
    c == '。' || c == '！' || c == '？' || c == '!' || c == '?' || c == '…'
}

/// Bracket depths `(round, square, cjk square, cjk round)` while removing asides.
pub open spec fn aside_depths_zero(d: (nat, nat, nat, nat)) -> bool {
    d.0 == 0 && d.1 == 0 && d.2 == 0 && d.3 == 0
}

/// One less, not below zero.
pub open spec fn dec(n: nat) -> nat {
    if n == 0 {
        0
    } else {
        (n - 1) as nat
    }
}

/// `s` without bracketed asides: brackets `()`, `[]`, `【】`, `（）` are dropped,
/// as is every other character inside any of them; a closing bracket without
/// an opening one is dropped and closes nothing.
pub open spec fn remove_asides_from(s: Seq<char>, d: (nat, nat, nat, nat)) -> Seq<char>
    decreases s.len(),
{
    if s.len() == 0 {
        Seq::empty()
    } else {
        let c = s[0];
        let rest = s.drop_first();
        if c == '(' {
            remove_asides_from(rest, (d.0 + 1, d.1, d.2, d.3))
        } else if c == ')' {
            remove_asides_from(rest, (dec(d.0), d.1, d.2, d.3))
        } else if c == '[' {
            remove_asides_from(rest, (d.0, d.1 + 1, d.2, d.3))
        } else if c == ']' {
            remove_asides_from(rest, (d.0, dec(d.1), d.2, d.3))
        } else if c == '【' {
            remove_asides_from(rest, (d.0, d.1, d.2 + 1, d.3))
        } else if c == '】' {
            remove_asides_from(rest, (d.0, d.1, dec(d.2), d.3))
        } else if c == '（' {
            remove_asides_from(rest, (d.0, d.1, d.2, d.3 + 1))
        } else if c == '）' {
            remove_asides_from(rest, (d.0, d.1, d.2, dec(d.3)))
        } else if aside_depths_zero(d) {
            seq![c] + remove_asides_from(rest, d)
        } else {
            remove_asides_from(rest, d)
        }
    }
}

/// `s` without bracketed asides.
pub open spec fn remove_asides(s: Seq<char>) -> Seq<char> {
    remove_asides_from(s, (0, 0, 0, 0))
}

/// The basic text frontend: line breaks removed, whitespace collapsed, ` - `
/// turned into `，` and `.` into `。`, bracketed asides removed, and a `。`
/// added after Chinese text that does not end a sentence.
pub open spec fn normalize_spec(s: Seq<char>) -> Seq<char> {
    let a = textops::collapse_ws(textops::remove_char(textops::remove_char(s, '\n'), '\r'));
    let b = textops::replace_all(a, " - "@, "，"@);
    let c = b.map_values(|ch: char| if ch == '.' { '。' } else { ch });
    let d = remove_asides(c);
    let e = if (exists|i: int| 0 <= i < d.len() && is_chinese(#[trigger] d[i])) && d.len() > 0
        && !ends_sentence(d.last()) {
        d.push('。')
    } else {
        d
    };
    textops::trim(e)
}

/// `remove_asides` on a character vector.
fn remove_asides_vec(s: &Vec<char>) -> (r: Vec<char>)
    ensures
        r@ == remove_asides(s@),
{
    let n = s.len();
    let mut out: Vec<char> = Vec::new();
    let mut d0: usize = 0;
    let mut d1: usize = 0;
    let mut d2: usize = 0;
    let mut d3: usize = 0;
    let mut i: usize = 0;
    assert(s@.subrange(0, n as int) =~= s@);
    while i < n
        invariant
            i <= n,
            n == s.len(),
            d0 <= i && d1 <= i && d2 <= i && d3 <= i,
            remove_asides(s@) == out@ + remove_asides_from(
                s@.subrange(i as int, n as int),
                (d0 as nat, d1 as nat, d2 as nat, d3 as nat),
            ),
        decreases n - i,
    {
        let c = s[i];
        assert(s@.subrange(i as int, n as int).drop_first() =~= s@.subrange(i + 1, n as int));
        if c == '(' {
            d0 = d0 + 1;
        } else if c == ')' {
            d0 = if d0 == 0 { 0 } else { d0 - 1 };
        } else if c == '[' {
            d1 = d1 + 1;
        } else if c == ']' {
            d1 = if d1 == 0 { 0 } else { d1 - 1 };
        } else if c == '【' {
            d2 = d2 + 1;
        } else if c == '】' {
            d2 = if d2 == 0 { 0 } else { d2 - 1 };
        } else if c == '（' {
            d3 = d3 + 1;
        } else if c == '）' {
            d3 = if d3 == 0 { 0 } else { d3 - 1 };
        } else if d0 == 0 && d1 == 0 && d2 == 0 && d3 == 0 {
            out.push(c);
        }
        i = i + 1;
    }
    assert(s@.subrange(n as int, n as int) =~= Seq::<char>::empty());
    out
}

/// Whether `s` holds a CJK unified ideograph.
fn contains_chinese(s: &Vec<char>) -> (b: bool)
    ensures
        b == exists|i: int| 0 <= i < s@.len() && is_chinese(#[trigger] s@[i]),
{
    let mut i: usize = 0;
    while i < s.len()
        invariant
            i <= s.len(),
            forall|j: int| 0 <= j < i ==> !is_chinese(#[trigger] s@[j]),
        decreases s.len() - i,
    {
        if '\u{4E00}' <= s[i] && s[i] <= '\u{9FFF}' {
            return true;
        }
        i = i + 1;
    }
    false
}

/// The basic text frontend (see `normalize_spec`).
fn normalize_basic(s: &Vec<char>) -> (r: Vec<char>)
    ensures
        r@ == normalize_spec(s@),
{
    let a0 = textops::remove_char_vec(&textops::remove_char_vec(s, '\n'), '\r');
    let a = textops::collapse_ws_vec(&a0);
    let dash = textops::chars_of(" - ");
    let comma = textops::chars_of("，");
    proof {
        reveal_strlit(" - ");
    }
    let b = textops::replace_vec(&a, &dash, &comma);
    let mut c: Vec<char> = Vec::new();
    let mut i: usize = 0;
    while i < b.len()
        invariant
            i <= b.len(),
            c@ == b@.map_values(|ch: char| if ch == '.' { '。' } else { ch }).take(i as int),
        decreases b.len() - i,
    {
        c.push(if b[i] == '.' { '。' } else { b[i] });
        i = i + 1;
        assert(c@ =~= b@.map_values(|ch: char| if ch == '.' { '。' } else { ch }).take(i as int));
    }
    assert(c@ =~= b@.map_values(|ch: char| if ch == '.' { '。' } else { ch }));
    let mut d = remove_asides_vec(&c);
    if contains_chinese(&d) && d.len() > 0 {
        let last = d[d.len() - 1];
        if !(last == '。' || last == '！' || last == '？' || last == '!' || last == '?' || last
            == '…') {
            d.push('。');
        }
    }
    textops::trim_vec(&d)
}

/// The prompt text with the end-of-prompt marker removed and trimmed.
pub open spec fn guide_text(prompt: Seq<char>) -> Seq<char> {
    textops::trim(textops::replace_all(prompt, eop(), Seq::empty()))
}

/// The spoken and injected texts before the marker check, or `None` when the
/// text is blank.
pub open spec fn resolve_parts(
    text: Seq<char>,
    prompt: Seq<char>,
    strategy: PromptStrategy,
    guide_sep: Seq<char>,
    text_frontend: bool,
) -> Option<(Seq<char>, Seq<char>)> {
    let t0 = textops::trim(text);
    if t0.len() == 0 {
        None
    } else {
        let p0 = textops::trim(prompt);
        let t = if text_frontend {
            normalize_spec(t0)
        } else {
            t0
        };
        let p = if text_frontend && p0.len() > 0 {
            normalize_spec(p0)
        } else {
            p0
        };
        let (spoken, inject) = match strategy {
            PromptStrategy::Inject => (t, p),
            PromptStrategy::GuidePrefix => {
                let g = guide_text(p);
                (
                    if g.len() == 0 {
                        t
                    } else {
                        g + guide_sep + t
                    },
                    eop(),
                )
            },
        };
        let inject2 = if inject.len() > 0 && !textops::contains_sub(inject, eop()) {
            inject + eop()
        } else {
            inject
        };
        Some((spoken, inject2))
    }
}

/// Resolves what the model speaks and what it is prompted with.
///
/// With `Inject` the (trimmed) text is spoken and the prompt text injected,
/// the marker appended when missing. With `GuidePrefix` the prompt text,
/// without its marker, is spoken before the text, joined by `guide_sep`, and
/// only the marker is injected. `text_frontend` first normalizes both texts.
/// A blank text, and a request with neither an injected prompt nor a marker in
/// the spoken text, are refused with `InvalidArg`.
pub fn resolve_tts_text_basic(
    text: &str,
    prompt_text: &str,
    prompt_strategy: PromptStrategy,
    guide_sep: &str,
    text_frontend: bool,
) -> (r: Result<ResolvedTtsText, TtsError>)
    ensures
        match resolve_parts(text@, prompt_text@, prompt_strategy, guide_sep@, text_frontend) {
            None => r matches Err(TtsError::InvalidArg(m)) && m@ == "text is empty"@,
            Some((spoken, inject)) => if inject.len() == 0 && !textops::contains_sub(spoken, eop()) {
                r matches Err(TtsError::InvalidArg(m)) && m@
                    == "CosyVoice3 requires <|endofprompt|> in prompt_text or text"@
            } else {
                r matches Ok(v) && v.spoken_text@ == spoken && v.prompt_inject_text@ == inject
            },
        },
{
    let t0 = textops::trim_vec(&textops::chars_of(text));
    if t0.len() == 0 {
        return Err(TtsError::InvalidArg("text is empty".to_owned()));
    }
    let p0 = textops::trim_vec(&textops::chars_of(prompt_text));
    let t = if text_frontend {
        normalize_basic(&t0)
    } else {
        t0
    };
    let p = if text_frontend && p0.len() > 0 {
        normalize_basic(&p0)
    } else {
        p0
    };
    let marker = textops::chars_of(END_OF_PROMPT);
    proof {
        reveal_strlit("<|endofprompt|>");
    }
    let (spoken, inject): (Vec<char>, Vec<char>) = match prompt_strategy {
        PromptStrategy::Inject => (t, p),
        PromptStrategy::GuidePrefix => {
            let g = textops::trim_vec(&textops::replace_vec(&p, &marker, &Vec::new()));
            let spoken = if g.len() == 0 {
                t
            } else {
                let mut v = g;
                textops::push_all(&mut v, &textops::chars_of(guide_sep));
                textops::push_all(&mut v, &t);
                v
            };
            (spoken, textops::chars_of(END_OF_PROMPT))
        },
    };
    let mut inject2 = inject;
    if inject2.len() > 0 && !textops::contains_sub_exec(&inject2, &marker) {
        textops::push_all(&mut inject2, &marker);
    }
    if inject2.len() == 0 && !textops::contains_sub_exec(&spoken, &marker) {
        return Err(
            TtsError::InvalidArg(
                "CosyVoice3 requires <|endofprompt|> in prompt_text or text".to_owned(),
            ),
        );
    }
    Ok(
        ResolvedTtsText {
            spoken_text: textops::string_of(spoken.as_slice()),
            prompt_inject_text: textops::string_of(inject2.as_slice()),
        },
    )
}

/// A resolved request always carries the end-of-prompt marker: in the injected
/// prompt when there is one, else in the spoken text; and the guide-prefix
/// strategy injects exactly the marker.
pub proof fn lemma_resolved_has_marker(
    text: Seq<char>,
    prompt: Seq<char>,
    strategy: PromptStrategy,
    guide_sep: Seq<char>,
    text_frontend: bool,
)
    requires
        resolve_parts(text, prompt, strategy, guide_sep, text_frontend) is Some,
    ensures
        ({
            let (spoken, inject) = resolve_parts(text, prompt, strategy, guide_sep, text_frontend)->0;
            &&& inject.len() > 0 ==> textops::contains_sub(inject, eop())
            &&& strategy == PromptStrategy::GuidePrefix ==> inject == eop()
        }),
{
    let t0 = textops::trim(text);
    let p0 = textops::trim(prompt);
    let t = if text_frontend {
        normalize_spec(t0)
    } else {
        t0
    };
    let p = if text_frontend && p0.len() > 0 {
        normalize_spec(p0)
    } else {
        p0
    };
    reveal_strlit("<|endofprompt|>");
    match strategy {
        PromptStrategy::Inject => {
            if p.len() > 0 && !textops::contains_sub(p, eop()) {
                textops::lemma_contains_appended(p, eop());
            }
        },
        PromptStrategy::GuidePrefix => {
            assert(eop().subrange(0, eop().len() as int) =~= eop());
            assert(textops::occurs_at(eop(), eop(), 0));
        },
    }
}

/// What resolving a request gives: the spoken text, or the message of the
/// argument error.
pub open spec fn resolve_outcome(
    text: Seq<char>,
    prompt: Seq<char>,
    strategy: PromptStrategy,
    guide_sep: Seq<char>,
    text_frontend: bool,
) -> Result<Seq<char>, Seq<char>> {
    match resolve_parts(text, prompt, strategy, guide_sep, text_frontend) {
        None => Err("text is empty"@),
        Some((spoken, inject)) => if inject.len() == 0 && !textops::contains_sub(spoken, eop()) {
            Err("CosyVoice3 requires <|endofprompt|> in prompt_text or text"@)
        } else {
            Ok(spoken)
        },
    }
}

/// The two spoken texts whose token counts give the share of the guide
/// prefix: with the prompt spoken before the text (guide prefix), and with
/// only the marker injected; `None` when they are the same (no guide).
pub fn guide_prefix_texts(text: &str, prompt_text: &str, guide_sep: &str, text_frontend: bool) -> (r: Result<
    Option<(String, String)>,
    TtsError,
>)
    ensures
        match (
            resolve_outcome(text@, prompt_text@, PromptStrategy::GuidePrefix, guide_sep@, text_frontend),
            resolve_outcome(text@, eop(), PromptStrategy::Inject, guide_sep@, text_frontend),
        ) {
            (Err(m), _) => r matches Err(TtsError::InvalidArg(e)) && e@ == m,
            (Ok(_), Err(m)) => r matches Err(TtsError::InvalidArg(e)) && e@ == m,
            (Ok(f), Ok(t)) => if f == t {
                r matches Ok(None)
            } else {
                r matches Ok(Some((a, b))) && a@ == f && b@ == t
            },
        },
{
    let full = match resolve_tts_text_basic(text, prompt_text, PromptStrategy::GuidePrefix, guide_sep, text_frontend) {
        Ok(v) => v,
        Err(e) => return Err(e),
    };
    let tail = match resolve_tts_text_basic(text, END_OF_PROMPT, PromptStrategy::Inject, guide_sep, text_frontend) {
        Ok(v) => v,
        Err(e) => return Err(e),
    };
    if textops::eq_vec(
        &textops::chars_of(full.spoken_text.as_str()),
        &textops::chars_of(tail.spoken_text.as_str()),
    ) {
        return Ok(None);
    }
    Ok(Some((full.spoken_text, tail.spoken_text)))
}

/// The length of the longest common suffix of `a` and `b`.
pub open spec fn common_suffix_len(a: Seq<u32>, b: Seq<u32>) -> nat
    decreases a.len(),
{
    if a.len() == 0 || b.len() == 0 || a.last() != b.last() {
        0
    } else {
        1 + common_suffix_len(a.drop_last(), b.drop_last())
    }
}

/// The number of leading tokens of the full text that belong to the guide:
/// the full length less the common suffix with the tail, or less the tail's
/// length (not below 0) when they share no suffix.
pub open spec fn guide_prefix_tokens_spec(full: Seq<u32>, tail: Seq<u32>) -> int {
    let s = common_suffix_len(full, tail);
    if s > 0 {
        full.len() - s
    } else if full.len() > tail.len() {
        full.len() - tail.len()
    } else {
        0
    }
}

/// The `i`-th elements from the end of `a` and `b` are equal.
pub open spec fn same_from_end(a: Seq<u32>, b: Seq<u32>, i: int) -> bool {
    a[a.len() - i] == b[b.len() - i]
}

/// The common suffix of `a` and `b` taken `k` from each end.
proof fn lemma_common_suffix_drop(a: Seq<u32>, b: Seq<u32>, k: int)
    requires
        0 <= k <= a.len(),
        k <= b.len(),
        forall|i: int| 0 < i <= k ==> #[trigger] same_from_end(a, b, i),
    ensures
        common_suffix_len(a, b) == k + common_suffix_len(a.take(a.len() - k), b.take(b.len() - k)),
    decreases k,
{
    if k > 0 {
        assert(same_from_end(a, b, 1));
        assert(a.last() == b.last());
        let a1 = a.drop_last();
        let b1 = b.drop_last();
        assert forall|i: int| 0 < i <= k - 1 implies #[trigger] same_from_end(a1, b1, i) by {
            assert(same_from_end(a, b, i + 1));
            assert(a1[a1.len() - i] == a[a.len() - (i + 1)]);
            assert(b1[b1.len() - i] == b[b.len() - (i + 1)]);
        }
        lemma_common_suffix_drop(a1, b1, k - 1);
        assert(a1.take(a1.len() - (k - 1)) =~= a.take(a.len() - k));
        assert(b1.take(b1.len() - (k - 1)) =~= b.take(b.len() - k));
    } else {
        assert(a.take(a.len() as int) =~= a);
        assert(b.take(b.len() as int) =~= b);
    }
}

/// The guide's share of the full text in tokens, as a count: `None` when the
/// full text has no tokens or no guide token is found.
pub fn guide_prefix_tokens(full_ids: &[u32], tail_ids: &[u32]) -> (r: Option<usize>)
    ensures
        full_ids@.len() == 0 || guide_prefix_tokens_spec(full_ids@, tail_ids@) == 0 ==> r is None,
        full_ids@.len() > 0 && guide_prefix_tokens_spec(full_ids@, tail_ids@) > 0 ==> r == Some(
            guide_prefix_tokens_spec(full_ids@, tail_ids@) as usize,
        ),
{
    let fl = full_ids.len();
    let tl = tail_ids.len();
    if fl == 0 {
        return None;
    }
    let mut k: usize = 0;
    while k < fl && k < tl && full_ids[fl - 1 - k] == tail_ids[tl - 1 - k]
        invariant
            fl == full_ids@.len(),
            tl == tail_ids@.len(),
            k <= fl,
            k <= tl,
            forall|i: int| 0 < i <= k ==> #[trigger] same_from_end(full_ids@, tail_ids@, i),
        decreases fl - k,
    {
        assert(same_from_end(full_ids@, tail_ids@, k + 1));
        k = k + 1;
    }
    proof {
        lemma_common_suffix_drop(full_ids@, tail_ids@, k as int);
        let a = full_ids@.take(fl - k);
        let b = tail_ids@.take(tl - k);
        if a.len() > 0 && b.len() > 0 {
            assert(a.last() == full_ids@[fl - k - 1]);
            assert(b.last() == tail_ids@[tl - k - 1]);
        }
        assert(common_suffix_len(a, b) == 0);
    }
    let prefix: usize = if k > 0 {
        fl - k
    } else if fl > tl {
        fl - tl
    } else {
        0
    };
    if prefix == 0 {
        None
    } else {
        Some(prefix)
    }
}

/// One of the brackets that delimit an aside.
pub open spec fn is_aside_bracket(c: char) -> bool {
    c == '(' || c == ')' || c == '[' || c == ']' || c == '【' || c == '】' || c == '（' || c == '）'
}

/// Text without any aside bracket.
pub open spec fn bracket_free(s: Seq<char>) -> bool {
    forall|i: int| 0 <= i < s.len() ==> !is_aside_bracket(#[trigger] s[i])
}

/// An opening aside bracket and its closing one.
pub open spec fn aside_pair(o: char, c: char) -> bool {
    (o == '(' && c == ')') || (o == '[' && c == ']') || (o == '【' && c == '】') || (o == '（' && c == '）')
}

/// Bracket-free text is kept when no bracket is open and dropped when one is.
proof fn lemma_asides_plain(x: Seq<char>, rest: Seq<char>, d: (nat, nat, nat, nat))
    requires
        bracket_free(x),
    ensures
        remove_asides_from(x + rest, d) == (if aside_depths_zero(d) {
            x
        } else {
            Seq::empty()
        }) + remove_asides_from(rest, d),
    decreases x.len(),
{
    if x.len() == 0 {
        assert(x + rest =~= rest);
        assert(x =~= Seq::<char>::empty());
        assert(Seq::<char>::empty() + remove_asides_from(rest, d) =~= remove_asides_from(rest, d));
    } else {
        let xs = x.drop_first();
        assert(bracket_free(xs)) by {
            assert forall|i: int| 0 <= i < xs.len() implies !is_aside_bracket(#[trigger] xs[i]) by {
                assert(xs[i] == x[i + 1]);
            }
        }
        assert(!is_aside_bracket(x[0]));
        assert((x + rest)[0] == x[0]);
        assert((x + rest).drop_first() =~= xs + rest);
        lemma_asides_plain(xs, rest, d);
        if aside_depths_zero(d) {
            assert(seq![x[0]] + (xs + remove_asides_from(rest, d)) =~= x + remove_asides_from(rest, d));
        }
    }
}

/// An aside is removed whole: text with a bracketed aside in it reads as if
/// the aside and its brackets were not there, for each kind of bracket.
pub proof fn lemma_aside_removed(x: Seq<char>, o: char, y: Seq<char>, c: char, z: Seq<char>)
    requires
        aside_pair(o, c),
        bracket_free(x),
        bracket_free(y),
        bracket_free(z),
    ensures
        remove_asides(x + seq![o] + y + seq![c] + z) == x + z,
{
    let zero: (nat, nat, nat, nat) = (0, 0, 0, 0);
    let tail = seq![c] + z;
    let after = seq![o] + (y + tail);
    assert(x + seq![o] + y + seq![c] + z =~= x + after);
    lemma_asides_plain(x, after, zero);
    assert(after[0] == o);
    assert(after.drop_first() =~= y + tail);
    let d1: (nat, nat, nat, nat) = if o == '(' {
        (1, 0, 0, 0)
    } else if o == '[' {
        (0, 1, 0, 0)
    } else if o == '【' {
        (0, 0, 1, 0)
    } else {
        (0, 0, 0, 1)
    };
    assert(remove_asides_from(after, zero) == remove_asides_from(y + tail, d1));
    lemma_asides_plain(y, tail, d1);
    assert(!aside_depths_zero(d1));
    assert(tail[0] == c);
    assert(tail.drop_first() =~= z);
    assert(remove_asides_from(tail, d1) == remove_asides_from(z, zero));
    lemma_asides_plain(z, Seq::empty(), zero);
    assert(z + Seq::<char>::empty() =~= z);
    assert(remove_asides_from(Seq::<char>::empty(), zero) =~= Seq::<char>::empty());
    assert(Seq::<char>::empty() + remove_asides_from(z, zero) =~= remove_asides_from(z, zero));
    assert(z + Seq::<char>::empty() =~= z);
}

} // verus!
