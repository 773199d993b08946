//! Character-sequence primitives shared by the text-processing modules.
//!
//! Strings are handled as `Vec<char>` inside the library; the views of `str` and
//! `String` are `Seq<char>`, so every function here is specified over `Seq<char>`.

use vstd::prelude::*;
use vstd::utf8::{
    char_is_scalar, decode_utf8, encode_scalar, encode_utf8, encode_utf8_decode_utf8,
    encode_utf8_valid_utf8, valid_utf8,
};

verus! {

/// Unicode `White_Space` property (the set `char::is_whitespace` tests).
pub open spec fn is_ws(c: char) -> bool {
    ||| ('\u{9}' <= c && c <= '\u{d}')
    ||| c == ' '
    ||| c == '\u{85}'
    ||| c == '\u{a0}'
    ||| c == '\u{1680}'
    ||| ('\u{2000}' <= c && c <= '\u{200a}')
    ||| c == '\u{2028}'
    ||| c == '\u{2029}'
    ||| c == '\u{202f}'
    ||| c == '\u{205f}'
    ||| c == '\u{3000}'
}

/// `s` with leading whitespace removed.
pub open spec fn ltrim(s: Seq<char>) -> Seq<char>
    decreases s.len(),
{
    if s.len() > 0 && is_ws(s[0]) {
        ltrim(s.drop_first())
    } else {
        s
    }
}

/// `s` with trailing whitespace removed.
pub open spec fn rtrim(s: Seq<char>) -> Seq<char>
    decreases s.len(),
{
    if s.len() > 0 && is_ws(s.last()) {
        rtrim(s.drop_last())
    } else {
        s
    }
}

/// `str::trim`.
pub open spec fn trim(s: Seq<char>) -> Seq<char> {
    rtrim(ltrim(s))
}

/// Whether every character of `s` is whitespace (equivalently, `trim(s)` is empty).
pub open spec fn all_ws(s: Seq<char>) -> bool {
    forall|i: int| 0 <= i < s.len() ==> is_ws(#[trigger] s[i])
}

/// `char::to_ascii_lowercase`.
pub open spec fn lower_char(c: char) -> char {
    if 'A' <= c && c <= 'Z' {
        ((c as u32) + 32) as char
    } else {
        c
    }
}

/// `str::to_ascii_lowercase`.
pub open spec fn lower(s: Seq<char>) -> Seq<char> {
    s.map_values(|c: char| lower_char(c))
}

/// `p` occurs in `s` at position `i`.
pub open spec fn occurs_at(s: Seq<char>, p: Seq<char>, i: int) -> bool {
    0 <= i && i + p.len() <= s.len() && s.subrange(i, i + p.len()) == p
}

/// `str::contains` with a string pattern.
pub open spec fn contains_sub(s: Seq<char>, p: Seq<char>) -> bool {
    exists|i: int| occurs_at(s, p, i)
}

/// `str::starts_with` with a string pattern.
pub open spec fn starts_with(s: Seq<char>, p: Seq<char>) -> bool {
    occurs_at(s, p, 0)
}

/// `str::ends_with` with a string pattern.
pub open spec fn ends_with(s: Seq<char>, p: Seq<char>) -> bool {
    occurs_at(s, p, s.len() - p.len())
}

/// `str::replace` with a non-empty pattern: leftmost, non-overlapping occurrences.
pub open spec fn replace_all(s: Seq<char>, p: Seq<char>, r: Seq<char>) -> Seq<char>
    decreases s.len(),
{
    if p.len() == 0 || s.len() < p.len() {
        s
    } else if s.subrange(0, p.len() as int) == p {
        r + replace_all(s.subrange(p.len() as int, s.len() as int), p, r)
    } else {
        seq![s[0]] + replace_all(s.drop_first(), p, r)
    }
}

/// `s` with every occurrence of `c` removed.
pub open spec fn remove_char(s: Seq<char>, c: char) -> Seq<char>
    decreases s.len(),
{
    if s.len() == 0 {
        s
    } else if s.last() == c {
        remove_char(s.drop_last(), c)
    } else {
        remove_char(s.drop_last(), c).push(s.last())
    }
}

/// Index of the first occurrence of `c` in `s`, if any.
pub open spec fn first_index_of(s: Seq<char>, c: char) -> Option<int> {
    if exists|i: int| 0 <= i < s.len() && s[i] == c {
        Some(choose|i: int| 0 <= i < s.len() && s[i] == c && forall|j: int| 0 <= j < i ==> s[j] != c)
    } else {
        None
    }
}

/// Index of the last occurrence of `c` in `s`, if any.
pub open spec fn last_index_of(s: Seq<char>, c: char) -> Option<int> {
    if exists|i: int| 0 <= i < s.len() && s[i] == c {
        Some(choose|i: int| 0 <= i < s.len() && s[i] == c && forall|j: int| i < j < s.len() ==> s[j] != c)
    } else {
        None
    }
}

/// A position holding the first `c` is what `first_index_of` picks.
pub proof fn lemma_first_index_of(s: Seq<char>, c: char, i: int)
    requires
        0 <= i < s.len(),
        s[i] == c,
        forall|j: int| 0 <= j < i ==> s[j] != c,
    ensures
        first_index_of(s, c) == Some(i),
{
    let k = choose|k: int| 0 <= k < s.len() && s[k] == c && forall|j: int| 0 <= j < k ==> s[j] != c;
    assert(0 <= k < s.len() && s[k] == c && forall|j: int| 0 <= j < k ==> s[j] != c);
    if k < i {
        assert(s[k] != c);
    }
    if i < k {
        assert(s[i] != c);
    }
}

/// A position holding the last `c` is what `last_index_of` picks.
pub proof fn lemma_last_index_of(s: Seq<char>, c: char, i: int)
    requires
        0 <= i < s.len(),
        s[i] == c,
        forall|j: int| i < j < s.len() ==> s[j] != c,
    ensures
        last_index_of(s, c) == Some(i),
{
    let k = choose|k: int| 0 <= k < s.len() && s[k] == c && forall|j: int| k < j < s.len() ==> s[j] != c;
    assert(0 <= k < s.len() && s[k] == c && forall|j: int| k < j < s.len() ==> s[j] != c);
    if k < i {
        assert(s[i] != c);
    }
    if i < k {
        assert(s[k] != c);
    }
}

/// Position of the first `c` in `s` at or after `from`.
pub fn find_char_from(s: &Vec<char>, c: char, from: usize) -> (r: Option<usize>)
    ensures
        match r {
            Some(i) => from <= i < s.len() && s@[i as int] == c && forall|k: int|
                from <= k < i ==> s@[k] != c,
            None => forall|k: int| from <= k < s.len() ==> s@[k] != c,
        },
{
    let mut i: usize = from;
    while i < s.len()
        invariant
            from <= i,
            forall|k: int| from <= k < i && k < s.len() ==> s@[k] != c,
        decreases s.len() - i,
    {
        if s[i] == c {
            return Some(i);
        }
        i = i + 1;
    }
    None
}

/// `str::find` with a character pattern, as a character index.
pub fn find_char(s: &Vec<char>, c: char) -> (r: Option<usize>)
    ensures
        match r {
            Some(i) => i < s.len() && first_index_of(s@, c) == Some(i as int),
            None => first_index_of(s@, c) is None,
        },
{
    let r = find_char_from(s, c, 0);
    proof {
        match r {
            Some(i) => lemma_first_index_of(s@, c, i as int),
            None => {},
        }
    }
    r
}

/// `str::rfind` with a character pattern, as a character index.
pub fn rfind_char(s: &Vec<char>, c: char) -> (r: Option<usize>)
    ensures
        match r {
            Some(i) => i < s.len() && last_index_of(s@, c) == Some(i as int),
            None => last_index_of(s@, c) is None,
        },
{
    let mut k: usize = s.len();
    while k > 0
        invariant
            k <= s.len(),
            forall|j: int| k <= j < s.len() ==> s@[j] != c,
        decreases k,
    {
        if s[k - 1] == c {
            proof {
                lemma_last_index_of(s@, c, k - 1);
            }
            return Some(k - 1);
        }
        k = k - 1;
    }
    None
}

/// `s` with every trailing `c` removed (`trim_end_matches` with a character).
pub open spec fn rstrip_char(s: Seq<char>, c: char) -> Seq<char>
    decreases s.len(),
{
    if s.len() > 0 && s.last() == c {
        rstrip_char(s.drop_last(), c)
    } else {
        s
    }
}

/// `s` with every leading `c` removed (`trim_start_matches` with a character).
pub open spec fn lstrip_char(s: Seq<char>, c: char) -> Seq<char>
    decreases s.len(),
{
    if s.len() > 0 && s[0] == c {
        lstrip_char(s.drop_first(), c)
    } else {
        s
    }
}

/// Position of the first occurrence of `p` in `s`, if any.
#[verifier::opaque]
pub open spec fn first_occurrence(s: Seq<char>, p: Seq<char>) -> Option<int> {
    if exists|i: int| occurs_at(s, p, i) {
        Some(choose|i: int| occurs_at(s, p, i) && forall|j: int| 0 <= j < i ==> !occurs_at(s, p, j))
    } else {
        None
    }
}

/// A first occurrence is what `first_occurrence` picks.
pub proof fn lemma_first_occurrence(s: Seq<char>, p: Seq<char>, i: int)
    requires
        occurs_at(s, p, i),
        forall|j: int| 0 <= j < i ==> !occurs_at(s, p, j),
    ensures
        first_occurrence(s, p) == Some(i),
{
    reveal(first_occurrence);
    let k = choose|k: int| occurs_at(s, p, k) && forall|j: int| 0 <= j < k ==> !occurs_at(s, p, j);
    assert(occurs_at(s, p, k) && forall|j: int| 0 <= j < k ==> !occurs_at(s, p, j));
    if k < i {
        assert(!occurs_at(s, p, k));
    }
    if i < k {
        assert(!occurs_at(s, p, i));
    }
}

/// `str::find` with a string pattern, as a character index.
pub fn find_sub(s: &Vec<char>, p: &Vec<char>) -> (r: Option<usize>)
    ensures
        match r {
            Some(i) => i + p.len() <= s.len() && first_occurrence(s@, p@) == Some(i as int),
            None => first_occurrence(s@, p@) is None,
        },
{
    let r = find_sub_from(s, p, 0);
    proof {
        match r {
            Some(i) => lemma_first_occurrence(s@, p@, i as int),
            None => {
                assert forall|k: int| !occurs_at(s@, p@, k) by {
                    if k < 0 {
                    }
                }
                reveal(first_occurrence);
            },
        }
    }
    r
}

/// `rstrip_char` on a character vector.
pub fn rstrip_char_vec(s: &Vec<char>, c: char) -> (r: Vec<char>)
    ensures
        r@ == rstrip_char(s@, c),
{
    let mut k: usize = s.len();
    proof {
        assert(s@.subrange(0, k as int) =~= s@);
    }
    while k > 0 && s[k - 1] == c
        invariant
            k <= s.len(),
            rstrip_char(s@, c) == rstrip_char(s@.subrange(0, k as int), c),
        decreases k,
    {
        assert(s@.subrange(0, k as int).drop_last() =~= s@.subrange(0, k - 1));
        k = k - 1;
    }
    slice_vec(s, 0, k)
}

/// `rtrim` on a character vector.
pub fn rtrim_vec(s: &Vec<char>) -> (r: Vec<char>)
    ensures
        r@ == rtrim(s@),
{
    let mut k: usize = s.len();
    proof {
        assert(s@.subrange(0, k as int) =~= s@);
    }
    while k > 0 && is_ws_char(s[k - 1])
        invariant
            k <= s.len(),
            rtrim(s@) == rtrim(s@.subrange(0, k as int)),
        decreases k,
    {
        assert(s@.subrange(0, k as int).drop_last() =~= s@.subrange(0, k - 1));
        k = k - 1;
    }
    slice_vec(s, 0, k)
}

/// `lstrip_char` on a character vector.
pub fn lstrip_char_vec(s: &Vec<char>, c: char) -> (r: Vec<char>)
    ensures
        r@ == lstrip_char(s@, c),
{
    let n = s.len();
    let mut k: usize = 0;
    proof {
        assert(s@.subrange(0, n as int) =~= s@);
    }
    while k < n && s[k] == c
        invariant
            k <= n,
            n == s.len(),
            lstrip_char(s@, c) == lstrip_char(s@.subrange(k as int, n as int), c),
        decreases n - k,
    {
        assert(s@.subrange(k as int, n as int).drop_first() =~= s@.subrange(k + 1, n as int));
        k = k + 1;
    }
    slice_vec(s, k, n)
}

/// Whitespace runs collapsed to one space and removed at both ends, scanning
/// `s` with `started` (a word was written) and `gap` (a space is due before
/// the next word).
pub open spec fn collapse_ws_from(s: Seq<char>, started: bool, gap: bool) -> Seq<char>
    decreases s.len(),
{
    if s.len() == 0 {
        Seq::empty()
    } else if is_ws(s[0]) {
        collapse_ws_from(s.drop_first(), started, started)
    } else {
        (if gap {
            seq![' ']
        } else {
            Seq::empty()
        }) + seq![s[0]] + collapse_ws_from(s.drop_first(), true, false)
    }
}

/// The words of `s` joined by single spaces (`split_whitespace` then
/// `join(" ")`).
pub open spec fn collapse_ws(s: Seq<char>) -> Seq<char> {
    collapse_ws_from(s, false, false)
}

/// `collapse_ws` on a character vector.
pub fn collapse_ws_vec(s: &Vec<char>) -> (r: Vec<char>)
    ensures
        r@ == collapse_ws(s@),
{
    let n = s.len();
    let mut out: Vec<char> = Vec::new();
    let mut started = false;
    let mut gap = false;
    let mut i: usize = 0;
    assert(s@.subrange(0, n as int) =~= s@);
    while i < n
        invariant
            i <= n,
            n == s.len(),
            collapse_ws(s@) == out@ + collapse_ws_from(s@.subrange(i as int, n as int), started, gap),
        decreases n - i,
    {
        let c = s[i];
        assert(s@.subrange(i as int, n as int).drop_first() =~= s@.subrange(i + 1, n as int));
        if is_ws_char(c) {
            gap = started;
        } else {
            if gap {
                out.push(' ');
            }
            out.push(c);
            started = true;
            gap = false;
        }
        i = i + 1;
    }
    assert(s@.subrange(n as int, n as int) =~= Seq::<char>::empty());
    out
}

/// Number of bytes of the UTF-8 encoding of `c`.
pub open spec fn utf8_width(c: char) -> int {
    encode_scalar(c as u32).len() as int
}

/// Number of bytes of the UTF-8 encoding of `s`.
pub open spec fn utf8_len(s: Seq<char>) -> int {
    encode_utf8(s).len() as int
}

/// The longest prefix of `s` whose UTF-8 encoding has at most `n` bytes.
pub open spec fn prefix_within(s: Seq<char>, n: int) -> Seq<char>
    decreases s.len(),
{
    if s.len() == 0 {
        s
    } else if utf8_width(s[0]) <= n {
        seq![s[0]] + prefix_within(s.drop_first(), n - utf8_width(s[0]))
    } else {
        Seq::empty()
    }
}

/// `prefix_within` keeps all of `s` exactly when its encoding fits.
pub proof fn lemma_prefix_within_len(s: Seq<char>, n: int)
    requires
        n >= 0,
    ensures
        prefix_within(s, n).len() <= s.len(),
        (prefix_within(s, n).len() == s.len()) == (utf8_len(s) <= n),
    decreases s.len(),
{
    if s.len() > 0 {
        let w = utf8_width(s[0]);
        assert(1 <= w <= 4);
        assert(encode_utf8(s) == encode_scalar(s[0] as u32) + encode_utf8(s.drop_first()));
        if w <= n {
            lemma_prefix_within_len(s.drop_first(), n - w);
        }
    }
}

/// `utf8_width` of a character.
pub fn utf8_width_exec(c: char) -> (w: usize)
    ensures
        w == utf8_width(c),
        1 <= w <= 4,
{
    let v = c as u32;
    if v < 0x80 {
        1
    } else if v < 0x800 {
        2
    } else if v < 0x10000 {
        3
    } else {
        4
    }
}

/// `prefix_within` on a character vector.
pub fn prefix_within_vec(s: &Vec<char>, n: usize) -> (r: Vec<char>)
    ensures
        r@ == prefix_within(s@, n as int),
{
    let len = s.len();
    let mut out: Vec<char> = Vec::new();
    let mut left: usize = n;
    let mut i: usize = 0;
    assert(s@.subrange(0, len as int) =~= s@);
    while i < len
        invariant
            i <= len,
            len == s.len(),
            left <= n,
            prefix_within(s@, n as int) == out@ + prefix_within(s@.subrange(i as int, len as int), left as int),
        decreases len - i,
    {
        let w = utf8_width_exec(s[i]);
        assert(s@.subrange(i as int, len as int).drop_first() =~= s@.subrange(i + 1, len as int));
        if w > left {
            return out;
        }
        out.push(s[i]);
        left = left - w;
        i = i + 1;
    }
    assert(s@.subrange(len as int, len as int) =~= Seq::<char>::empty());
    out
}

/// The decimal digit of a value below 10.
pub open spec fn digit_char(d: int) -> char {
    (48 + d) as char
}

/// Decimal notation of `n`.
pub open spec fn decimal(n: nat) -> Seq<char>
    decreases n,
{
    if n < 10 {
        seq![digit_char(n as int)]
    } else {
        decimal(n / 10).push(digit_char((n % 10) as int))
    }
}

/// Appends the decimal notation of `n` to `out`.
pub fn push_decimal(out: &mut Vec<char>, n: u64)
    ensures
        final(out)@ == old(out)@ + decimal(n as nat),
    decreases n,
{
    if n >= 10 {
        push_decimal(out, n / 10);
    }
    let d: u8 = (n % 10) as u8;
    out.push((48u8 + d) as char);
}

/// Decimal notation of a signed number.
pub open spec fn signed_decimal(n: int) -> Seq<char> {
    if n < 0 {
        seq!['-'] + decimal((-n) as nat)
    } else {
        decimal(n as nat)
    }
}

/// Appends the decimal notation of a signed number to `out`.
pub fn push_signed_decimal(out: &mut Vec<char>, n: i64)
    ensures
        final(out)@ == old(out)@ + signed_decimal(n as int),
{
    if n < 0 {
        out.push('-');
        let m: u64 = (-(n as i128)) as u64;
        push_decimal(out, m);
    } else {
        push_decimal(out, n as u64);
    }
}

pub exec fn is_ws_char(c: char) -> (b: bool)
    ensures
        b == is_ws(c),
{
    ('\u{9}' <= c && c <= '\u{d}') || c == ' ' || c == '\u{85}' || c == '\u{a0}'
        || c == '\u{1680}' || ('\u{2000}' <= c && c <= '\u{200a}') || c == '\u{2028}'
        || c == '\u{2029}' || c == '\u{202f}' || c == '\u{205f}' || c == '\u{3000}'
}

pub exec fn lower_char_exec(c: char) -> (r: char)
    ensures
        r == lower_char(c),
{
    if 'A' <= c && c <= 'Z' {
        let u: u32 = (c as u32) + 32;
        proof {
            assert(0x61 <= u <= 0x7a);
        }
        char_from_ascii(u)
    } else {
        c
    }
}

/// Converts a code point below 0x80 into its character.
exec fn char_from_ascii(u: u32) -> (c: char)
    requires
        u < 0x80,
    ensures
        c == u as char,
{
    let b: u8 = u as u8;
    b as char
}

/// The characters of `s`, in order.
pub fn chars_of(s: &str) -> (v: Vec<char>)
    ensures
        v@ == s@,
{
    let mut v: Vec<char> = Vec::new();
    for c in it: s.chars()
        invariant
            v@ == it.seq().take(it.index() as int),
    {
        v.push(c);
    }
    assert(v@ == s@);
    v
}

/// The UTF-8 encoding of a sequence with one more character at its end.
proof fn lemma_encode_utf8_push(s: Seq<char>, c: char)
    ensures
        encode_utf8(s.push(c)) == encode_utf8(s) + encode_scalar(c as u32),
    decreases s.len(),
{
    if s.len() == 0 {
        assert(s.push(c).drop_first() =~= Seq::<char>::empty());
        assert(s.push(c)[0] == c);
        assert(encode_utf8(Seq::<char>::empty()) =~= Seq::<u8>::empty());
        assert(encode_utf8(s) =~= Seq::<u8>::empty());
        assert(encode_utf8(s.push(c)) =~= encode_utf8(s) + encode_scalar(c as u32));
    } else {
        assert(s.push(c).drop_first() =~= s.drop_first().push(c));
        lemma_encode_utf8_push(s.drop_first(), c);
        assert(encode_utf8(s.push(c)) =~= encode_utf8(s) + encode_scalar(c as u32));
    }
}

/// Appends the UTF-8 encoding of `c` to `bytes`.
fn push_utf8(bytes: &mut Vec<u8>, c: char)
    ensures
        final(bytes)@ == old(bytes)@ + encode_scalar(c as u32),
{
    let u = c as u32;
    proof {
        char_is_scalar(c);
    }
    if u <= 0x7F {
        bytes.push((u & 0x7F) as u8);
    } else if u <= 0x7FF {
        bytes.push(0xC0 | ((u >> 6) & 0x1F) as u8);
        bytes.push(0x80 | (u & 0x3F) as u8);
    } else if u <= 0xFFFF {
        bytes.push(0xE0 | ((u >> 12) & 0x0F) as u8);
        bytes.push(0x80 | ((u >> 6) & 0x3F) as u8);
        bytes.push(0x80 | (u & 0x3F) as u8);
    } else {
        bytes.push(0xF0 | ((u >> 18) & 0x7) as u8);
        bytes.push(0x80 | ((u >> 12) & 0x3F) as u8);
        bytes.push(0x80 | ((u >> 6) & 0x3F) as u8);
        bytes.push(0x80 | (u & 0x3F) as u8);
    }
    assert(bytes@ =~= old(bytes)@ + encode_scalar(c as u32));
}

/// `String::from_utf8`: the text the bytes encode, when they are valid UTF-8.
#[verifier::external_body]
pub(crate) fn utf8_strict(bytes: Vec<u8>) -> (r: Option<String>)
    ensures
        r is Some <==> valid_utf8(bytes@),
        r matches Some(t) ==> t@ == decode_utf8(bytes@),
{
    String::from_utf8(bytes).ok()
}

/// The string made of the characters of `v`, in order.
pub fn string_of(v: &[char]) -> (s: String)
    ensures
        s@ == v@,
{
    let mut bytes: Vec<u8> = Vec::new();
    let mut i: usize = 0;
    while i < v.len()
        invariant
            i <= v.len(),
            bytes@ == encode_utf8(v@.take(i as int)),
        decreases v.len() - i,
    {
        proof {
            lemma_encode_utf8_push(v@.take(i as int), v@[i as int]);
            assert(v@.take(i + 1) =~= v@.take(i as int).push(v@[i as int]));
        }
        push_utf8(&mut bytes, v[i]);
        i += 1;
    }
    proof {
        assert(v@.take(v.len() as int) =~= v@);
        encode_utf8_valid_utf8(v@);
        encode_utf8_decode_utf8(v@);
    }
    match utf8_strict(bytes) {
        Some(t) => t,
        None => String::new(),
    }
}

pub proof fn lemma_ltrim_skip(s: Seq<char>, i: int)
    requires
        0 <= i <= s.len(),
        forall|j: int| 0 <= j < i ==> is_ws(#[trigger] s[j]),
    ensures
        ltrim(s) == ltrim(s.subrange(i, s.len() as int)),
    decreases i,
{
    if i > 0 {
        assert(s.drop_first() =~= s.subrange(1, s.len() as int));
        lemma_ltrim_skip(s.drop_first(), i - 1);
        assert(s.drop_first().subrange(i - 1, s.drop_first().len() as int) =~= s.subrange(
            i,
            s.len() as int,
        ));
    } else {
        assert(s.subrange(0, s.len() as int) =~= s);
    }
}

pub proof fn lemma_rtrim_take(s: Seq<char>, k: int)
    requires
        0 <= k <= s.len(),
        forall|j: int| k <= j < s.len() ==> is_ws(#[trigger] s[j]),
    ensures
        rtrim(s) == rtrim(s.subrange(0, k)),
    decreases s.len() - k,
{
    if k < s.len() {
        assert(s.drop_last() =~= s.subrange(0, s.len() - 1));
        lemma_rtrim_take(s.drop_last(), k);
        assert(s.drop_last().subrange(0, k) =~= s.subrange(0, k));
    } else {
        assert(s.subrange(0, s.len() as int) =~= s);
    }
}

/// Bounds `(a, b)` such that `trim(s) == s[a..b]`.
pub fn trim_bounds(s: &Vec<char>) -> (r: (usize, usize))
    ensures
        r.0 <= r.1 <= s.len(),
        trim(s@) == s@.subrange(r.0 as int, r.1 as int),
        ltrim(s@) == s@.subrange(r.0 as int, s.len() as int),
        r.0 == r.1 <==> all_ws(s@),
{
    let n = s.len();
    let mut a: usize = 0;
    while a < n && is_ws_char(s[a])
        invariant
            a <= n,
            n == s.len(),
            forall|j: int| 0 <= j < a ==> is_ws(#[trigger] s@[j]),
        decreases n - a,
    {
        a = a + 1;
    }
    proof {
        lemma_ltrim_skip(s@, a as int);
        if a < n {
            assert(!is_ws(s@[a as int]));
        }
    }
    let ghost t = s@.subrange(a as int, n as int);
    assert(ltrim(t) == t) by {
        if t.len() > 0 {
            assert(t[0] == s@[a as int]);
        }
    }
    let mut b: usize = n;
    while b > a && is_ws_char(s[b - 1])
        invariant
            a <= b <= n,
            n == s.len(),
            forall|j: int| b <= j < n ==> is_ws(#[trigger] s@[j]),
        decreases b,
    {
        b = b - 1;
    }
    proof {
        let u = s@.subrange(a as int, n as int);
        lemma_rtrim_take(u, (b - a) as int);
        assert(u.subrange(0, (b - a) as int) =~= s@.subrange(a as int, b as int));
        let w = s@.subrange(a as int, b as int);
        if b > a {
            assert(w.last() == s@[b - 1]);
        }
        assert(rtrim(w) == w);
        if a == b {
            assert(all_ws(s@));
        } else {
            assert(!is_ws(s@[a as int]));
        }
    }
    (a, b)
}

/// `v[a..b]` as a new vector.
pub fn slice_vec(v: &Vec<char>, a: usize, b: usize) -> (r: Vec<char>)
    requires
        a <= b <= v.len(),
    ensures
        r@ == v@.subrange(a as int, b as int),
{
    let mut r: Vec<char> = Vec::new();
    let mut i: usize = a;
    while i < b
        invariant
            a <= i <= b,
            b <= v.len(),
            r@ == v@.subrange(a as int, i as int),
        decreases b - i,
    {
        r.push(v[i]);
        i = i + 1;
    }
    r
}

/// `str::trim` on a character vector.
pub fn trim_vec(s: &Vec<char>) -> (r: Vec<char>)
    ensures
        r@ == trim(s@),
{
    let (a, b) = trim_bounds(s);
    slice_vec(s, a, b)
}

/// `str::trim_start` on a character vector.
pub fn ltrim_vec(s: &Vec<char>) -> (r: Vec<char>)
    ensures
        r@ == ltrim(s@),
{
    let (a, _b) = trim_bounds(s);
    slice_vec(s, a, s.len())
}

/// Whether `trim(s)` is empty.
pub fn is_blank(s: &Vec<char>) -> (b: bool)
    ensures
        b == all_ws(s@),
        b == (trim(s@).len() == 0),
{
    let (a, b) = trim_bounds(s);
    a == b
}

/// `str::to_ascii_lowercase`.
pub fn lower_vec(s: &Vec<char>) -> (r: Vec<char>)
    ensures
        r@ == lower(s@),
{
    let mut r: Vec<char> = Vec::new();
    let mut i: usize = 0;
    while i < s.len()
        invariant
            i <= s.len(),
            r@ == lower(s@.subrange(0, i as int)),
        decreases s.len() - i,
    {
        let c = lower_char_exec(s[i]);
        r.push(c);
        i = i + 1;
        assert(lower(s@.subrange(0, i as int)) =~= lower(s@.subrange(0, i - 1)).push(c));
    }
    assert(s@.subrange(0, s.len() as int) =~= s@);
    r
}

/// Whether `p` occurs in `s` at position `i`.
pub fn occurs_at_exec(s: &Vec<char>, p: &Vec<char>, i: usize) -> (b: bool)
    ensures
        b == occurs_at(s@, p@, i as int),
{
    if i > s.len() || p.len() > s.len() - i {
        return false;
    }
    let mut j: usize = 0;
    while j < p.len()
        invariant
            j <= p.len(),
            i + p.len() <= s.len(),
            forall|k: int| 0 <= k < j ==> s@[i + k] == p@[k],
        decreases p.len() - j,
    {
        if s[i + j] != p[j] {
            assert(s@.subrange(i as int, i + p.len())[j as int] != p@[j as int]);
            return false;
        }
        j = j + 1;
    }
    assert(s@.subrange(i as int, i + p.len()) =~= p@);
    true
}

/// Position of the first occurrence of `p` in `s` at or after `from`.
pub fn find_sub_from(s: &Vec<char>, p: &Vec<char>, from: usize) -> (r: Option<usize>)
    ensures
        match r {
            Some(i) => from <= i && occurs_at(s@, p@, i as int) && forall|k: int|
                from <= k < i ==> !occurs_at(s@, p@, k),
            None => forall|k: int| from <= k ==> !occurs_at(s@, p@, k),
        },
{
    if from > s.len() {
        return None;
    }
    let mut i: usize = from;
    while i < s.len()
        invariant
            from <= i <= s.len(),
            forall|k: int| from <= k < i ==> !occurs_at(s@, p@, k),
        decreases s.len() - i,
    {
        if occurs_at_exec(s, p, i) {
            return Some(i);
        }
        i = i + 1;
    }
    if occurs_at_exec(s, p, i) {
        return Some(i);
    }
    None
}

/// `str::contains` with a string pattern.
pub fn contains_sub_exec(s: &Vec<char>, p: &Vec<char>) -> (b: bool)
    ensures
        b == contains_sub(s@, p@),
{
    match find_sub_from(s, p, 0) {
        Some(i) => true,
        None => {
            assert forall|k: int| !occurs_at(s@, p@, k) by {
                if k < 0 {
                }
            }
            false
        },
    }
}

/// `str::starts_with` with a string pattern.
pub fn starts_with_exec(s: &Vec<char>, p: &Vec<char>) -> (b: bool)
    ensures
        b == starts_with(s@, p@),
{
    occurs_at_exec(s, p, 0)
}

/// `str::ends_with` with a string pattern.
pub fn ends_with_exec(s: &Vec<char>, p: &Vec<char>) -> (b: bool)
    ensures
        b == ends_with(s@, p@),
{
    if p.len() > s.len() {
        return false;
    }
    occurs_at_exec(s, p, s.len() - p.len())
}

/// `str::replace` with a non-empty pattern.
pub fn replace_vec(s: &Vec<char>, p: &Vec<char>, r: &Vec<char>) -> (out: Vec<char>)
    requires
        p.len() > 0,
    ensures
        out@ == replace_all(s@, p@, r@),
{
    let mut out: Vec<char> = Vec::new();
    let mut i: usize = 0;
    assert(s@.subrange(0, s.len() as int) =~= s@);
    while i < s.len()
        invariant
            i <= s.len(),
            p.len() > 0,
            out@ + replace_all(s@.subrange(i as int, s.len() as int), p@, r@) == replace_all(
                s@,
                p@,
                r@,
            ),
        decreases s.len() - i,
    {
        let ghost rest = s@.subrange(i as int, s.len() as int);
        if occurs_at_exec(s, p, i) {
            assert(rest.subrange(0, p.len() as int) =~= s@.subrange(i as int, i + p.len()));
            assert(rest.subrange(p.len() as int, rest.len() as int) =~= s@.subrange(
                i + p.len(),
                s.len() as int,
            ));
            let mut k: usize = 0;
            let ghost before = out@;
            while k < r.len()
                invariant
                    k <= r.len(),
                    out@ == before + r@.subrange(0, k as int),
                decreases r.len() - k,
            {
                out.push(r[k]);
                k = k + 1;
                assert(r@.subrange(0, k as int) =~= r@.subrange(0, k - 1).push(r@[k - 1]));
            }
            assert(r@.subrange(0, r.len() as int) =~= r@);
            assert(out@ + replace_all(s@.subrange(i + p.len(), s.len() as int), p@, r@) =~= before
                + replace_all(rest, p@, r@));
            i = i + p.len();
        } else {
            proof {
                if rest.len() >= p@.len() {
                    assert(rest.subrange(0, p@.len() as int) =~= s@.subrange(i as int, i + p@.len()));
                }
                assert(rest.drop_first() =~= s@.subrange(i + 1, s.len() as int));
            }
            let ghost before = out@;
            out.push(s[i]);
            proof {
                if rest.len() < p@.len() {
                    assert(replace_all(rest, p@, r@) == rest);
                    assert(replace_all(rest.drop_first(), p@, r@) == rest.drop_first());
                    assert(rest =~= seq![rest[0]] + rest.drop_first());
                }
            }
            assert(out@ + replace_all(s@.subrange(i + 1, s.len() as int), p@, r@) =~= before
                + replace_all(rest, p@, r@));
            i = i + 1;
        }
    }
    assert(s@.subrange(s.len() as int, s.len() as int) =~= Seq::<char>::empty());
    assert(out@ + Seq::<char>::empty() =~= out@);
    out
}

/// Removes every occurrence of `c`.
pub fn remove_char_vec(s: &Vec<char>, c: char) -> (out: Vec<char>)
    ensures
        out@ == remove_char(s@, c),
{
    let mut out: Vec<char> = Vec::new();
    let mut i: usize = 0;
    while i < s.len()
        invariant
            i <= s.len(),
            out@ == remove_char(s@.subrange(0, i as int), c),
        decreases s.len() - i,
    {
        proof {
            let t = s@.subrange(0, i + 1);
            assert(t.drop_last() =~= s@.subrange(0, i as int));
        }
        if s[i] != c {
            out.push(s[i]);
        }
        i = i + 1;
    }
    assert(s@.subrange(0, s.len() as int) =~= s@);
    out
}

/// Appends all characters of `t` to `out`.
pub fn push_all(out: &mut Vec<char>, t: &Vec<char>)
    ensures
        final(out)@ == old(out)@ + t@,
{
    let mut k: usize = 0;
    while k < t.len()
        invariant
            k <= t.len(),
            out@ == old(out)@ + t@.subrange(0, k as int),
        decreases t.len() - k,
    {
        out.push(t[k]);
        k = k + 1;
        assert(t@.subrange(0, k as int) =~= t@.subrange(0, k - 1).push(t@[k - 1]));
    }
    assert(t@.subrange(0, t.len() as int) =~= t@);
}

/// Whether two character vectors are equal.
pub fn eq_vec(a: &Vec<char>, b: &Vec<char>) -> (r: bool)
    ensures
        r == (a@ == b@),
{
    if a.len() != b.len() {
        return false;
    }
    let r = occurs_at_exec(a, b, 0);
    proof {
        if r {
            assert(a@.subrange(0, b.len() as int) =~= a@);
        } else {
            if a@ == b@ {
                assert(a@.subrange(0, b.len() as int) =~= a@);
            }
        }
    }
    r
}

/// Every character of `ltrim(s)` is a character of `s`.
pub proof fn lemma_ltrim_chars(s: Seq<char>)
    ensures
        forall|i: int| 0 <= i < ltrim(s).len() ==> s.contains(#[trigger] ltrim(s)[i]),
        ltrim(s).len() <= s.len(),
    decreases s.len(),
{
    if s.len() > 0 && is_ws(s[0]) {
        lemma_ltrim_chars(s.drop_first());
        assert forall|i: int| 0 <= i < ltrim(s).len() implies s.contains(#[trigger] ltrim(s)[i]) by {
            let c = ltrim(s)[i];
            let k = choose|k: int| 0 <= k < s.drop_first().len() && s.drop_first()[k] == c;
            assert(s[k + 1] == c);
        }
    } else {
        assert forall|i: int| 0 <= i < ltrim(s).len() implies s.contains(#[trigger] ltrim(s)[i]) by {
            assert(s[i] == ltrim(s)[i]);
        }
    }
}

/// Every character of `rtrim(s)` is a character of `s`.
pub proof fn lemma_rtrim_chars(s: Seq<char>)
    ensures
        forall|i: int| 0 <= i < rtrim(s).len() ==> s.contains(#[trigger] rtrim(s)[i]),
        rtrim(s).len() <= s.len(),
    decreases s.len(),
{
    if s.len() > 0 && is_ws(s.last()) {
        lemma_rtrim_chars(s.drop_last());
        assert forall|i: int| 0 <= i < rtrim(s).len() implies s.contains(#[trigger] rtrim(s)[i]) by {
            let c = rtrim(s)[i];
            let k = choose|k: int| 0 <= k < s.drop_last().len() && s.drop_last()[k] == c;
            assert(s[k] == c);
        }
    } else {
        assert forall|i: int| 0 <= i < rtrim(s).len() implies s.contains(#[trigger] rtrim(s)[i]) by {
            assert(s[i] == rtrim(s)[i]);
        }
    }
}

/// Every character of `trim(s)` is a character of `s`.
pub proof fn lemma_trim_chars(s: Seq<char>)
    ensures
        forall|i: int| 0 <= i < trim(s).len() ==> s.contains(#[trigger] trim(s)[i]),
        trim(s).len() <= s.len(),
{
    lemma_ltrim_chars(s);
    lemma_rtrim_chars(ltrim(s));
    assert forall|i: int| 0 <= i < trim(s).len() implies s.contains(#[trigger] trim(s)[i]) by {
        let c = trim(s)[i];
        let k = choose|k: int| 0 <= k < ltrim(s).len() && ltrim(s)[k] == c;
        assert(ltrim(s)[k] == c);
    }
}

/// Every character of `rstrip_char(s, c)` is a character of `s`.
pub proof fn lemma_rstrip_chars(s: Seq<char>, c: char)
    ensures
        forall|i: int| 0 <= i < rstrip_char(s, c).len() ==> s.contains(#[trigger] rstrip_char(s, c)[i]),
        rstrip_char(s, c).len() <= s.len(),
    decreases s.len(),
{
    if s.len() > 0 && s.last() == c {
        lemma_rstrip_chars(s.drop_last(), c);
        assert forall|i: int| 0 <= i < rstrip_char(s, c).len() implies s.contains(
            #[trigger] rstrip_char(s, c)[i],
        ) by {
            let x = rstrip_char(s, c)[i];
            let k = choose|k: int| 0 <= k < s.drop_last().len() && s.drop_last()[k] == x;
            assert(s[k] == x);
        }
    } else {
        assert forall|i: int| 0 <= i < rstrip_char(s, c).len() implies s.contains(
            #[trigger] rstrip_char(s, c)[i],
        ) by {
            assert(s[i] == rstrip_char(s, c)[i]);
        }
    }
}

/// A text whose ends are not whitespace is its own trim.
pub proof fn lemma_trim_noop(s: Seq<char>)
    requires
        s.len() > 0 ==> !is_ws(s[0]) && !is_ws(s.last()),
    ensures
        trim(s) == s,
{
}

/// A text without upper-case ASCII letters is its own lower-case form.
pub proof fn lemma_lower_noop(s: Seq<char>)
    requires
        forall|i: int| 0 <= i < s.len() ==> !('A' <= #[trigger] s[i] && s[i] <= 'Z'),
    ensures
        lower(s) == s,
{
    assert(lower(s) =~= s);
}

/// `p` occurs in `s + p` at its end.
pub proof fn lemma_contains_appended(s: Seq<char>, p: Seq<char>)
    ensures
        contains_sub(s + p, p),
{
    assert((s + p).subrange(s.len() as int, (s.len() + p.len()) as int) =~= p);
    assert(occurs_at(s + p, p, s.len() as int));
}

/// An occurrence of `c` at or before `k` means a first occurrence exists.
proof fn lemma_first_occurrence_exists(s: Seq<char>, c: char, k: int)
    requires
        0 <= k < s.len(),
        s[k] == c,
    ensures
        exists|i: int| 0 <= i < s.len() && s[i] == c && forall|j: int| 0 <= j < i ==> s[j] != c,
    decreases k,
{
    if exists|j: int| 0 <= j < k && s[j] == c {
        let j = choose|j: int| 0 <= j < k && s[j] == c;
        lemma_first_occurrence_exists(s, c, j);
    } else {
        assert(forall|j: int| 0 <= j < k ==> s[j] != c);
    }
}

/// An occurrence of `c` at or after `k` means a last occurrence exists.
proof fn lemma_last_occurrence_exists(s: Seq<char>, c: char, k: int)
    requires
        0 <= k < s.len(),
        s[k] == c,
    ensures
        exists|i: int| 0 <= i < s.len() && s[i] == c && forall|j: int| i < j < s.len() ==> s[j] != c,
    decreases s.len() - k,
{
    if exists|j: int| k < j < s.len() && s[j] == c {
        let j = choose|j: int| k < j < s.len() && s[j] == c;
        lemma_last_occurrence_exists(s, c, j);
    } else {
        assert(forall|j: int| k < j < s.len() ==> s[j] != c);
    }
}

/// What `first_index_of` gives is the first position of `c`, if any.
pub proof fn lemma_first_index_of_props(s: Seq<char>, c: char)
    ensures
        match first_index_of(s, c) {
            Some(i) => 0 <= i < s.len() && s[i] == c && forall|j: int| 0 <= j < i ==> s[j] != c,
            None => forall|j: int| 0 <= j < s.len() ==> s[j] != c,
        },
{
    if exists|i: int| 0 <= i < s.len() && s[i] == c {
        let k = choose|i: int| 0 <= i < s.len() && s[i] == c;
        lemma_first_occurrence_exists(s, c, k);
    }
}

/// What `last_index_of` gives is the last position of `c`, if any.
pub proof fn lemma_last_index_of_props(s: Seq<char>, c: char)
    ensures
        match last_index_of(s, c) {
            Some(i) => 0 <= i < s.len() && s[i] == c && forall|j: int| i < j < s.len() ==> s[j] != c,
            None => forall|j: int| 0 <= j < s.len() ==> s[j] != c,
        },
{
    if exists|i: int| 0 <= i < s.len() && s[i] == c {
        let k = choose|i: int| 0 <= i < s.len() && s[i] == c;
        lemma_last_occurrence_exists(s, c, k);
    }
}

/// Every character of `collapse_ws_from(s, ..)` is a space or a character of `s`.
pub proof fn lemma_collapse_chars(s: Seq<char>, started: bool, gap: bool)
    ensures
        forall|i: int|
            0 <= i < collapse_ws_from(s, started, gap).len() ==> #[trigger] collapse_ws_from(
                s,
                started,
                gap,
            )[i] == ' ' || s.contains(collapse_ws_from(s, started, gap)[i]),
    decreases s.len(),
{
    if s.len() > 0 {
        let r = collapse_ws_from(s, started, gap);
        if is_ws(s[0]) {
            lemma_collapse_chars(s.drop_first(), started, started);
            let t = collapse_ws_from(s.drop_first(), started, started);
            assert(r == t);
            assert forall|i: int| 0 <= i < r.len() implies #[trigger] r[i] == ' ' || s.contains(r[i]) by {
                assert(r[i] == t[i]);
                if r[i] != ' ' {
                    let k = choose|k: int| 0 <= k < s.drop_first().len() && s.drop_first()[k] == r[i];
                    assert(s[k + 1] == r[i]);
                }
            }
        } else {
            lemma_collapse_chars(s.drop_first(), true, false);
            let head = (if gap {
                seq![' ']
            } else {
                Seq::empty()
            }) + seq![s[0]];
            let tail = collapse_ws_from(s.drop_first(), true, false);
            assert(r == head + tail);
            assert forall|i: int| 0 <= i < r.len() implies #[trigger] r[i] == ' ' || s.contains(r[i]) by {
                if i < head.len() {
                    if r[i] != ' ' {
                        assert(r[i] == s[0]);
                    }
                } else {
                    assert(r[i] == tail[i - head.len()]);
                    if r[i] != ' ' {
                        let k = choose|k: int| 0 <= k < s.drop_first().len() && s.drop_first()[k] == r[i];
                        assert(s[k + 1] == r[i]);
                    }
                }
            }
        }
    }
}

/// The UTF-8 length of `prefix_within(s, n)` is at most `n`, and it is a prefix of `s`.
pub proof fn lemma_prefix_within_fits(s: Seq<char>, n: int)
    requires
        n >= 0,
    ensures
        utf8_len(prefix_within(s, n)) <= n,
        prefix_within(s, n).len() <= s.len(),
        prefix_within(s, n) == s.take(prefix_within(s, n).len() as int),
    decreases s.len(),
{
    if s.len() > 0 {
        let w = utf8_width(s[0]);
        if w <= n {
            lemma_prefix_within_fits(s.drop_first(), n - w);
            let t = prefix_within(s.drop_first(), n - w);
            assert(encode_utf8(seq![s[0]] + t) == encode_scalar(s[0] as u32) + encode_utf8(t)) by {
                assert((seq![s[0]] + t)[0] == s[0]);
                assert((seq![s[0]] + t).drop_first() =~= t);
            }
            assert(seq![s[0]] + t =~= s.take((t.len() + 1) as int)) by {
                assert(t =~= s.drop_first().take(t.len() as int));
            }
        } else {
            assert(s.take(0) =~= Seq::<char>::empty());
        }
    } else {
        assert(s.take(0) =~= s);
    }
}

/// A prefix encodes to no more bytes than the whole.
pub proof fn lemma_utf8_len_prefix(s: Seq<char>, k: int)
    requires
        0 <= k <= s.len(),
    ensures
        utf8_len(s.take(k)) <= utf8_len(s),
    decreases s.len(),
{
    if k > 0 {
        lemma_utf8_len_prefix(s.drop_first(), k - 1);
        assert(s.take(k).drop_first() =~= s.drop_first().take(k - 1));
        assert(s.take(k)[0] == s[0]);
    } else {
        assert(s.take(0) =~= Seq::<char>::empty());
    }
}

/// Cutting at the byte length of a prefix gives back that prefix.
pub proof fn lemma_prefix_within_boundary(s: Seq<char>, k: int)
    requires
        0 <= k <= s.len(),
    ensures
        prefix_within(s, utf8_len(s.take(k))) == s.take(k),
    decreases k,
{
    if k == 0 {
        assert(s.take(0) =~= Seq::<char>::empty());
        if s.len() > 0 {
            assert(1 <= utf8_width(s[0]));
        }
    } else {
        let t = s.drop_first();
        lemma_prefix_within_boundary(t, k - 1);
        assert(s.take(k).drop_first() =~= t.take(k - 1));
        assert(s.take(k)[0] == s[0]);
        assert(encode_utf8(s.take(k)) == encode_scalar(s[0] as u32) + encode_utf8(t.take(k - 1)));
        assert(seq![s[0]] + t.take(k - 1) =~= s.take(k));
    }
}

/// `rtrim(s)` is a prefix of `s`.
pub proof fn lemma_rtrim_prefix(s: Seq<char>)
    ensures
        rtrim(s) == s.take(rtrim(s).len() as int),
        rtrim(s).len() <= s.len(),
    decreases s.len(),
{
    if s.len() > 0 && is_ws(s.last()) {
        lemma_rtrim_prefix(s.drop_last());
        assert(s.drop_last().take(rtrim(s).len() as int) =~= s.take(rtrim(s).len() as int));
    } else {
        assert(s.take(s.len() as int) =~= s);
    }
}

} // verus!
