//! Text helpers used by the lyrics providers: JSONP unwrapping, XML entity
//! decoding, HTML stripping and form URL encoding.

use vstd::prelude::*;
use vstd::utf8::encode_utf8;
use crate::textops;

verus! {

/// Which bracket a JSONP payload opens with and where: the first `{` or `[`,
/// whichever comes first, paired with its closing bracket.
pub open spec fn jsonp_open(s: Seq<char>) -> Option<(char, int)> {
    match (textops::first_index_of(s, '{'), textops::first_index_of(s, '[')) {
        (Some(o), Some(a)) => if o < a {
            Some(('}', o))
        } else {
            Some((']', a))
        },
        (Some(o), None) => Some(('}', o)),
        (None, Some(a)) => Some((']', a)),
        (None, None) => None,
    }
}

/// The JSON payload of a JSONP-like text: from the first opening bracket to the
/// last matching closing bracket, both included.
pub open spec fn jsonp_payload(s: Seq<char>) -> Option<Seq<char>> {
    match jsonp_open(s) {
        None => None,
        Some((close, start)) => match textops::last_index_of(s, close) {
            None => None,
            Some(end) => if end <= start {
                None
            } else {
                Some(s.subrange(start, end + 1))
            },
        },
    }
}

/// Extracts the JSON payload of a JSONP-like response: the slice from the first
/// opening brace or bracket to the last closing one of the same kind.
pub fn extract_json_from_jsonp_str(s: &str) -> (r: Option<&str>)
    ensures
        match r {
            Some(t) => jsonp_payload(s@) == Some(t@),
            None => jsonp_payload(s@) is None,
        },
{
    let v = textops::chars_of(s);
    let obj_idx = textops::find_char(&v, '{');
    let arr_idx = textops::find_char(&v, '[');
    let (close, start): (char, usize) = match (obj_idx, arr_idx) {
        (Some(o), Some(a)) => if o < a {
            ('}', o)
        } else {
            (']', a)
        },
        (Some(o), None) => ('}', o),
        (None, Some(a)) => (']', a),
        (None, None) => {
            return None;
        },
    };
    let end = match textops::rfind_char(&v, close) {
        Some(e) => e,
        None => {
            return None;
        },
    };
    if end <= start {
        return None;
    }
    Some(s.substring_char(start, end + 1))
}

/// What `String::from_utf8_lossy` gives for the given bytes.
pub uninterp spec fn utf8_lossy(bytes: Seq<u8>) -> Seq<char>;

/// Calls `String::from_utf8_lossy`. Valid UTF-8 decodes to the characters it
/// encodes; the replacement of invalid sequences is left unstated.
#[verifier::external_body]
pub(crate) fn decode_utf8_lossy(bytes: &[u8]) -> (s: String)
    ensures
        s@ == utf8_lossy(bytes@),
        forall|cs: Seq<char>| bytes@ == encode_utf8(cs) ==> s@ == cs,
{
    String::from_utf8_lossy(bytes).into_owned()
}

/// Extracts the JSON payload of a JSONP-like response given as raw bytes, which
/// are decoded as UTF-8 with invalid sequences replaced.
pub fn extract_json_from_jsonp(input: &[u8]) -> (r: Option<String>)
    ensures
        match r {
            Some(t) => jsonp_payload(utf8_lossy(input@)) == Some(t@),
            None => jsonp_payload(utf8_lossy(input@)) is None,
        },
{
    let s = decode_utf8_lossy(input);
    match extract_json_from_jsonp_str(s.as_str()) {
        Some(t) => Some(t.to_owned()),
        None => None,
    }
}

/// Value of `c` as a hexadecimal digit, or -1.
pub open spec fn hex_digit_value(c: char) -> int {
    if '0' <= c && c <= '9' {
        c as int - '0' as int
    } else if 'a' <= c && c <= 'f' {
        c as int - 'a' as int + 10
    } else if 'A' <= c && c <= 'F' {
        c as int - 'A' as int + 10
    } else {
        -1
    }
}

/// `c` is a digit in the given radix (10 or 16).
pub open spec fn is_radix_digit(c: char, radix: int) -> bool {
    0 <= hex_digit_value(c) < radix
}

/// The number written by the digits `d` in the given radix.
pub open spec fn digits_value(d: Seq<char>, radix: int) -> int
    decreases d.len(),
{
    if d.len() == 0 {
        0
    } else {
        digits_value(d.drop_last(), radix) * radix + hex_digit_value(d.last())
    }
}

/// `s` without a leading `+`.
pub open spec fn sign_stripped(s: Seq<char>) -> Seq<char> {
    if s.len() > 0 && s[0] == '+' {
        s.drop_first()
    } else {
        s
    }
}

/// `u32::from_str_radix`: an optional `+`, then at least one digit, and a value
/// that fits in 32 bits.
pub open spec fn parse_u32_radix(s: Seq<char>, radix: int) -> Option<u32> {
    let d = sign_stripped(s);
    if d.len() > 0 && (forall|i: int| 0 <= i < d.len() ==> is_radix_digit(#[trigger] d[i], radix))
        && digits_value(d, radix) <= u32::MAX {
        Some(digits_value(d, radix) as u32)
    } else {
        None
    }
}

/// The character a named entity (`amp`, `lt`, `gt`, `quot`, `apos`) stands for.
pub open spec fn named_entity(e: Seq<char>) -> Option<char> {
    if e == seq!['a', 'm', 'p'] {
        Some('&')
    } else if e == seq!['l', 't'] {
        Some('<')
    } else if e == seq!['g', 't'] {
        Some('>')
    } else if e == seq!['q', 'u', 'o', 't'] {
        Some('"')
    } else if e == seq!['a', 'p', 'o', 's'] {
        Some('\'')
    } else {
        None
    }
}

/// The code point of a numeric entity: `#x` or `#X` then hexadecimal digits,
/// or `#` then decimal digits.
pub open spec fn numeric_entity(e: Seq<char>) -> Option<u32> {
    if e.len() >= 2 && e[0] == '#' && (e[1] == 'x' || e[1] == 'X') {
        parse_u32_radix(e.subrange(2, e.len() as int), 16)
    } else if e.len() >= 1 && e[0] == '#' {
        parse_u32_radix(e.drop_first(), 10)
    } else {
        None
    }
}

/// A Unicode scalar value (what `char::from_u32` accepts).
pub open spec fn is_scalar(v: u32) -> bool {
    v < 0xD800 || (0xE000 <= v && v <= 0x10FFFF)
}

/// What the entity `&e;` decodes to; unknown entities are kept as written.
pub open spec fn entity_text(e: Seq<char>) -> Seq<char> {
    match named_entity(e) {
        Some(c) => seq![c],
        None => match numeric_entity(e) {
            Some(v) => if is_scalar(v) {
                seq![v as char]
            } else {
                seq!['&'] + e + seq![';']
            },
            None => seq!['&'] + e + seq![';'],
        },
    }
}

/// `s` with every `&...;` entity decoded, scanning left to right. An `&` that
/// starts no entity stays as it is and the scan goes on after it: one with no
/// later `;`, or one followed by another `&` before the next `;`.
#[verifier::opaque]
pub open spec fn decode_entities(s: Seq<char>) -> Seq<char>
    decreases s.len(),
{
    if s.len() == 0 {
        s
    } else if s[0] != '&' {
        seq![s[0]] + decode_entities(s.drop_first())
    } else {
        match textops::first_index_of(s, ';') {
            None => seq!['&'] + decode_entities(s.drop_first()),
            Some(k) => if 0 < k < s.len() {
                if s.subrange(1, k).contains('&') {
                    seq!['&'] + decode_entities(s.drop_first())
                } else {
                    entity_text(s.subrange(1, k)) + decode_entities(s.subrange(k + 1, s.len() as int))
                }
            } else {
                s
            },
        }
    }
}

proof fn lemma_digits_value_nonneg(d: Seq<char>, radix: int)
    requires
        radix >= 1,
        forall|i: int| 0 <= i < d.len() ==> is_radix_digit(#[trigger] d[i], radix),
    ensures
        digits_value(d, radix) >= 0,
    decreases d.len(),
{
    if d.len() > 0 {
        lemma_digits_value_nonneg(d.drop_last(), radix);
        let x = digits_value(d.drop_last(), radix);
        assert(x * radix >= 0) by (nonlinear_arith)
            requires
                x >= 0,
                radix >= 1,
        ;
        assert(is_radix_digit(d[d.len() - 1], radix));
    }
}

/// The value of a digit string is at least that of any of its prefixes.
pub(crate) proof fn lemma_digits_value_prefix(d: Seq<char>, radix: int, k: int)
    requires
        radix >= 1,
        0 <= k <= d.len(),
        forall|i: int| 0 <= i < d.len() ==> is_radix_digit(#[trigger] d[i], radix),
    ensures
        digits_value(d.take(k), radix) <= digits_value(d, radix),
    decreases d.len(),
{
    if k < d.len() {
        let p = d.drop_last();
        assert forall|i: int| 0 <= i < p.len() implies is_radix_digit(#[trigger] p[i], radix) by {
            assert(p[i] == d[i]);
        }
        lemma_digits_value_prefix(p, radix, k);
        assert(p.take(k) =~= d.take(k));
        lemma_digits_value_nonneg(p, radix);
        let x = digits_value(p, radix);
        assert(x * radix >= x) by (nonlinear_arith)
            requires
                x >= 0,
                radix >= 1,
        ;
        assert(is_radix_digit(d[d.len() - 1], radix));
    } else {
        assert(d.take(k) =~= d);
    }
}

/// Value of `c` as a hexadecimal digit, or -1.
pub(crate) fn hex_digit_value_exec(c: char) -> (r: i64)
    ensures
        r == hex_digit_value(c),
{
    if '0' <= c && c <= '9' {
        (c as u32 - '0' as u32) as i64
    } else if 'a' <= c && c <= 'f' {
        (c as u32 - 'a' as u32 + 10) as i64
    } else if 'A' <= c && c <= 'F' {
        (c as u32 - 'A' as u32 + 10) as i64
    } else {
        -1
    }
}

/// `u32::from_str_radix` on the characters of `s` (radix 10 or 16).
pub(crate) fn parse_u32_radix_exec(s: &Vec<char>, radix: u32) -> (r: Option<u32>)
    requires
        radix == 10 || radix == 16,
    ensures
        r == parse_u32_radix(s@, radix as int),
{
    let start: usize = if s.len() > 0 && s[0] == '+' {
        1
    } else {
        0
    };
    let ghost d = sign_stripped(s@);
    assert(d =~= s@.subrange(start as int, s.len() as int));
    if start == s.len() {
        return None;
    }
    let mut acc: u64 = 0;
    let mut i: usize = start;
    while i < s.len()
        invariant
            start <= i <= s.len(),
            d == s@.subrange(start as int, s.len() as int),
            d == sign_stripped(s@),
            radix == 10 || radix == 16,
            forall|j: int| 0 <= j < i - start ==> is_radix_digit(#[trigger] d[j], radix as int),
            acc == digits_value(d.take(i - start), radix as int),
            acc <= u32::MAX,
        decreases s.len() - i,
    {
        let dv = hex_digit_value_exec(s[i]);
        assert(s@[i as int] == d[i - start]);
        if dv < 0 || dv >= radix as i64 {
            assert(!is_radix_digit(d[i - start], radix as int));
            assert(!(forall|j: int| 0 <= j < d.len() ==> is_radix_digit(#[trigger] d[j], radix as int)));
            return None;
        }
        assert(acc * radix <= 0xFFFF_FFFFu64 * 16) by (nonlinear_arith)
            requires
                acc <= 0xFFFF_FFFFu64,
                radix <= 16,
        ;
        let next: u64 = acc * (radix as u64) + (dv as u64);
        proof {
            let t = d.take(i - start + 1);
            assert(t.drop_last() =~= d.take(i - start));
            assert(t.last() == d[i - start]);
        }
        if next > 0xFFFF_FFFF {
            proof {
                if forall|j: int| 0 <= j < d.len() ==> is_radix_digit(#[trigger] d[j], radix as int) {
                    lemma_digits_value_prefix(d, radix as int, i - start + 1);
                }
            }
            return None;
        }
        acc = next;
        i = i + 1;
    }
    assert(d.take(i - start) =~= d);
    Some(acc as u32)
}

/// `char::from_u32`.
#[verifier::external_body]
fn char_from_code(v: u32) -> (r: Option<char>)
    ensures
        is_scalar(v) ==> r == Some(v as char),
        !is_scalar(v) ==> r is None,
{
    char::from_u32(v)
}

/// What the entity `&e;` decodes to.
fn entity_text_exec(e: &Vec<char>) -> (r: Vec<char>)
    ensures
        r@ == entity_text(e@),
{
    if textops::eq_vec(e, &vec!['a', 'm', 'p']) {
        return vec!['&'];
    }
    if textops::eq_vec(e, &vec!['l', 't']) {
        return vec!['<'];
    }
    if textops::eq_vec(e, &vec!['g', 't']) {
        return vec!['>'];
    }
    if textops::eq_vec(e, &vec!['q', 'u', 'o', 't']) {
        return vec!['"'];
    }
    if textops::eq_vec(e, &vec!['a', 'p', 'o', 's']) {
        return vec!['\''];
    }
    assert(named_entity(e@) is None);
    let n = e.len();
    let num: Option<u32> = if n >= 2 && e[0] == '#' && (e[1] == 'x' || e[1] == 'X') {
        let digits = textops::slice_vec(e, 2, n);
        parse_u32_radix_exec(&digits, 16)
    } else if n >= 1 && e[0] == '#' {
        let digits = textops::slice_vec(e, 1, n);
        assert(digits@ =~= e@.drop_first());
        parse_u32_radix_exec(&digits, 10)
    } else {
        None
    };
    if let Some(v) = num {
        if let Some(c) = char_from_code(v) {
            return vec![c];
        }
    }
    let mut r: Vec<char> = vec!['&'];
    textops::push_all(&mut r, e);
    r.push(';');
    assert(r@ =~= seq!['&'] + e@ + seq![';']);
    r
}

/// Decodes the entity references in `s`: the named ones `&amp;`, `&lt;`,
/// `&gt;`, `&quot;`, `&apos;`, decimal `&#N;` and hexadecimal `&#xN;`. Anything
/// else, including an unknown or invalid entity, is kept as written.
pub fn decode_xml_entities(input: &str) -> (r: String)
    ensures
        r@ == decode_entities(input@),
{
    let s = textops::chars_of(input);
    let out = decode_entities_vec(&s);
    textops::string_of(out.as_slice())
}

proof fn lemma_decode_plain(s: Seq<char>)
    requires
        s.len() > 0,
        s[0] != '&',
    ensures
        decode_entities(s) == seq![s[0]] + decode_entities(s.drop_first()),
{
    reveal(decode_entities);
}

proof fn lemma_decode_unclosed(s: Seq<char>)
    requires
        s.len() > 0,
        s[0] == '&',
        forall|j: int| 0 <= j < s.len() ==> s[j] != ';',
    ensures
        decode_entities(s) == seq!['&'] + decode_entities(s.drop_first()),
{
    reveal(decode_entities);
}

proof fn lemma_decode_entity(s: Seq<char>, k: int)
    requires
        0 < k < s.len(),
        s[0] == '&',
        s[k] == ';',
        forall|j: int| 0 <= j < k ==> s[j] != ';',
        forall|j: int| 1 <= j < k ==> s[j] != '&',
    ensures
        decode_entities(s) == entity_text(s.subrange(1, k)) + decode_entities(
            s.subrange(k + 1, s.len() as int),
        ),
{
    reveal(decode_entities);
    textops::lemma_first_index_of(s, ';', k);
    assert(!s.subrange(1, k).contains('&')) by {
        if s.subrange(1, k).contains('&') {
            let j = choose|j: int| 0 <= j < k - 1 && s.subrange(1, k)[j] == '&';
            assert(s[j + 1] == '&');
        }
    }
}

proof fn lemma_decode_bare_amp(s: Seq<char>, k: int, a: int)
    requires
        0 < a < k < s.len(),
        s[0] == '&',
        s[k] == ';',
        s[a] == '&',
        forall|j: int| 0 <= j < k ==> s[j] != ';',
    ensures
        decode_entities(s) == seq!['&'] + decode_entities(s.drop_first()),
{
    reveal(decode_entities);
    textops::lemma_first_index_of(s, ';', k);
    assert(s.subrange(1, k)[a - 1] == '&');
}

/// `decode_entities` on a character vector.
fn decode_entities_vec(s: &Vec<char>) -> (out: Vec<char>)
    ensures
        out@ == decode_entities(s@),
{
    let n = s.len();
    let mut out: Vec<char> = Vec::new();
    let mut i: usize = 0;
    assert(s@.subrange(0, n as int) =~= s@);
    while i < n
        invariant
            i <= n,
            n == s.len(),
            decode_entities(s@) == out@ + decode_entities(s@.subrange(i as int, n as int)),
        decreases n - i,
    {
        let ghost rest = s@.subrange(i as int, n as int);
        assert(rest.drop_first() =~= s@.subrange(i + 1, n as int));
        if s[i] != '&' {
            proof {
                lemma_decode_plain(rest);
            }
            out.push(s[i]);
            i = i + 1;
        } else {
            match textops::find_char_from(s, ';', i) {
                None => {
                    assert forall|j: int| 0 <= j < rest.len() implies rest[j] != ';' by {
                        assert(rest[j] == s@[i + j]);
                    }
                    proof {
                        lemma_decode_unclosed(rest);
                    }
                    out.push('&');
                    i = i + 1;
                },
                Some(k) => {
                    proof {
                        assert forall|j: int| 0 <= j < k - i implies rest[j] != ';' by {
                            assert(rest[j] == s@[i + j]);
                        }
                    }
                    let amp = textops::find_char_from(s, '&', i + 1);
                    if let Some(a) = amp {
                        if a < k {
                            proof {
                                assert(rest[a - i] == '&');
                                lemma_decode_bare_amp(rest, k - i, a - i);
                            }
                            out.push('&');
                            i = i + 1;
                            continue;
                        }
                    }
                    proof {
                        assert forall|j: int| 1 <= j < k - i implies rest[j] != '&' by {
                            assert(rest[j] == s@[i + j]);
                        }
                        lemma_decode_entity(rest, k - i);
                    }
                    let e = textops::slice_vec(s, i + 1, k);
                    assert(rest.subrange(1, k - i) =~= e@);
                    assert(rest.subrange(k - i + 1, rest.len() as int) =~= s@.subrange(
                        k + 1,
                        n as int,
                    ));
                    let t = entity_text_exec(&e);
                    textops::push_all(&mut out, &t);
                    i = k + 1;
                },
            }
        }
    }
    assert(s@.subrange(n as int, n as int) =~= Seq::<char>::empty());
    reveal(decode_entities);
    out
}

/// A tag whose (trimmed, lower-cased) text starts with `br`, `/p` or `p` marks
/// a line break.
pub open spec fn tag_breaks_line(tag: Seq<char>) -> bool {
    let t = textops::lower(textops::trim(tag));
    textops::starts_with(t, seq!['b', 'r']) || textops::starts_with(t, seq!['/', 'p'])
        || textops::starts_with(t, seq!['p'])
}

/// The text of `s` with tags removed, where `in_tag` and `tag` describe a tag
/// opened before `s`: each tag is dropped, a line-breaking tag leaves a `\n`,
/// and a tag that is never closed is dropped with the rest of the input.
pub open spec fn strip_tags(s: Seq<char>, in_tag: bool, tag: Seq<char>) -> Seq<char>
    decreases s.len(),
{
    if s.len() == 0 {
        Seq::empty()
    } else if in_tag {
        if s[0] == '>' {
            (if tag_breaks_line(tag) {
                seq!['\n']
            } else {
                Seq::empty()
            }) + strip_tags(s.drop_first(), false, Seq::empty())
        } else {
            strip_tags(s.drop_first(), true, tag.push(s[0]))
        }
    } else if s[0] == '<' {
        strip_tags(s.drop_first(), true, Seq::empty())
    } else {
        seq![s[0]] + strip_tags(s.drop_first(), false, Seq::empty())
    }
}

/// Whether the text of a tag marks a line break.
fn tag_breaks_line_exec(tag: &Vec<char>) -> (b: bool)
    ensures
        b == tag_breaks_line(tag@),
{
    let t = textops::lower_vec(&textops::trim_vec(tag));
    let br = vec!['b', 'r'];
    let close_p = vec!['/', 'p'];
    let p = vec!['p'];
    assert(br@ =~= seq!['b', 'r']);
    assert(close_p@ =~= seq!['/', 'p']);
    assert(p@ =~= seq!['p']);
    textops::starts_with_exec(&t, &br) || textops::starts_with_exec(&t, &close_p)
        || textops::starts_with_exec(&t, &p)
}

/// Strips the tags of an HTML fragment, keeping a line break for `<br>` and
/// `<p>`/`</p>` tags, then decodes its entities.
pub fn html_to_text(html: &str) -> (r: String)
    ensures
        r@ == decode_entities(strip_tags(html@, false, Seq::empty())),
{
    let s = textops::chars_of(html);
    let n = s.len();
    let mut out: Vec<char> = Vec::new();
    let mut in_tag = false;
    let mut tag_buf: Vec<char> = Vec::new();
    let mut i: usize = 0;
    assert(s@.subrange(0, n as int) =~= s@);
    while i < n
        invariant
            i <= n,
            n == s.len(),
            !in_tag ==> tag_buf@ == Seq::<char>::empty(),
            strip_tags(s@, false, Seq::empty()) == out@ + strip_tags(
                s@.subrange(i as int, n as int),
                in_tag,
                tag_buf@,
            ),
        decreases n - i,
    {
        let ch = s[i];
        let ghost rest = s@.subrange(i as int, n as int);
        assert(rest.drop_first() =~= s@.subrange(i + 1, n as int));
        if in_tag {
            if ch == '>' {
                in_tag = false;
                if tag_breaks_line_exec(&tag_buf) {
                    out.push('\n');
                }
                tag_buf = Vec::new();
            } else {
                tag_buf.push(ch);
            }
        } else if ch == '<' {
            in_tag = true;
            tag_buf = Vec::new();
        } else {
            out.push(ch);
        }
        i = i + 1;
    }
    assert(s@.subrange(n as int, n as int) =~= Seq::<char>::empty());
    let decoded = decode_entities_vec(&out);
    textops::string_of(decoded.as_slice())
}

/// Bytes that form URL encoding keeps as they are: `*`, `-`, `.`, `_` and ASCII
/// letters and digits.
pub open spec fn form_keeps(b: u8) -> bool {
    b == 42 || b == 45 || b == 46 || (48 <= b && b <= 57) || (65 <= b && b <= 90) || b == 95 || (
    97 <= b && b <= 122)
}

/// Upper-case hexadecimal digit of a value below 16.
pub open spec fn hex_upper(n: int) -> char {
    if n < 10 {
        (48 + n) as char
    } else {
        (55 + n) as char
    }
}

/// How form URL encoding writes one byte: kept, `+` for a space, else `%XX`.
pub open spec fn form_byte(b: u8) -> Seq<char> {
    if form_keeps(b) {
        seq![b as char]
    } else if b == 32 {
        seq!['+']
    } else {
        seq!['%', hex_upper(b as int / 16), hex_upper(b as int % 16)]
    }
}

/// `application/x-www-form-urlencoded` serialization of a byte string.
pub open spec fn form_urlencoded(bytes: Seq<u8>) -> Seq<char>
    decreases bytes.len(),
{
    if bytes.len() == 0 {
        Seq::empty()
    } else {
        form_byte(bytes[0]) + form_urlencoded(bytes.drop_first())
    }
}

/// Calls `url::form_urlencoded::byte_serialize` and collects its pieces: each
/// byte is kept, turned into `+` (a space) or written as `%XX` in upper case.
#[verifier::external_body]
fn form_serialize(bytes: &[u8]) -> (r: String)
    ensures
        r@ == form_urlencoded(bytes@),
{
    url::form_urlencoded::byte_serialize(bytes).collect()
}

/// Encodes a query component: the UTF-8 bytes of `s`, form URL encoded.
pub fn percent_encode_component(s: &str) -> (r: String)
    ensures
        r@ == form_urlencoded(encode_utf8(s@)),
{
    form_serialize(s.as_bytes())
}

/// Text without `&` has no entity and decodes to itself.
pub proof fn lemma_decode_plain_text(s: Seq<char>)
    requires
        !s.contains('&'),
    ensures
        decode_entities(s) == s,
    decreases s.len(),
{
    reveal(decode_entities);
    if s.len() > 0 {
        assert(s[0] != '&');
        assert(!s.drop_first().contains('&')) by {
            if s.drop_first().contains('&') {
                let k = choose|k: int| 0 <= k < s.drop_first().len() && s.drop_first()[k] == '&';
                assert(s[k + 1] == '&');
            }
        }
        lemma_decode_plain_text(s.drop_first());
        assert(seq![s[0]] + s.drop_first() =~= s);
    }
}

/// The JSON payload of a JSONP text starts with `{` and ends with `}`, or
/// starts with `[` and ends with `]`.
pub proof fn lemma_jsonp_payload_brackets(s: Seq<char>)
    requires
        jsonp_payload(s) is Some,
    ensures
        ({
            let t = jsonp_payload(s)->0;
            t.len() >= 2 && ((t[0] == '{' && t.last() == '}') || (t[0] == '[' && t.last() == ']'))
        }),
{
    textops::lemma_first_index_of_props(s, '{');
    textops::lemma_first_index_of_props(s, '[');
    textops::lemma_last_index_of_props(s, '}');
    textops::lemma_last_index_of_props(s, ']');
}

/// A character form URL encoding may write: ASCII letters and digits, `*`,
/// `-`, `.`, `_`, `+` and `%`.
pub open spec fn is_form_char(c: char) -> bool {
    ('A' <= c && c <= 'Z') || ('a' <= c && c <= 'z') || ('0' <= c && c <= '9') || c == '*' || c
        == '-' || c == '.' || c == '_' || c == '+' || c == '%'
}

/// Form URL encoding writes only unreserved characters, `+` and `%`.
pub proof fn lemma_form_urlencoded_chars(bytes: Seq<u8>)
    ensures
        forall|i: int|
            0 <= i < form_urlencoded(bytes).len() ==> is_form_char(#[trigger] form_urlencoded(bytes)[i]),
    decreases bytes.len(),
{
    if bytes.len() > 0 {
        lemma_form_urlencoded_chars(bytes.drop_first());
        let b = bytes[0];
        let head = form_byte(b);
        let rest = form_urlencoded(bytes.drop_first());
        assert forall|i: int| 0 <= i < head.len() implies is_form_char(#[trigger] head[i]) by {
            if form_keeps(b) {
                assert(head[i] == b as char);
            } else if b == 32 {
            } else {
                assert(b as int / 16 < 16);
                assert(b as int % 16 < 16);
            }
        }
        assert forall|i: int|
            0 <= i < form_urlencoded(bytes).len() implies is_form_char(
            #[trigger] form_urlencoded(bytes)[i],
        ) by {
            if i < head.len() {
                assert(form_urlencoded(bytes)[i] == head[i]);
            } else {
                assert(form_urlencoded(bytes)[i] == rest[i - head.len()]);
            }
        }
    }
}

} // verus!
