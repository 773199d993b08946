//! What the match percentage of a lyrics candidate compares: the text pairs of
//! the metadata, or token fingerprints of the two queries. The similarity
//! measure itself is floating point and is applied by the caller.

use vstd::prelude::*;
use crate::textops;
use crate::textops::is_ws;
use crate::lyrics::model::{description_spec, LyricsSearchRequest, LyricsSearchResult, LyricsSearchTerm};
use crate::music::providers::{sort_strings, sorted_strs, views};
use crate::music::requests::{to_lowercase, unicode_lower};
use crate::regexes::{regex_replace_all, regex_replaced};

verus! {

/// The whitespace-separated words of `s` after the word `cur` being read.
pub open spec fn words_from(s: Seq<char>, cur: Seq<char>) -> Seq<Seq<char>>
    decreases s.len(),
{
    if s.len() == 0 {
        if cur.len() > 0 {
            seq![cur]
        } else {
            Seq::empty()
        }
    } else if is_ws(s[0]) {
        (if cur.len() > 0 {
            seq![cur]
        } else {
            Seq::empty()
        }) + words_from(s.drop_first(), Seq::empty())
    } else {
        words_from(s.drop_first(), cur.push(s[0]))
    }
}

/// The whitespace-separated words of `s`, in order (`str::split_whitespace`).
pub open spec fn words(s: Seq<char>) -> Seq<Seq<char>> {
    words_from(s, Seq::empty())
}

/// The words joined by single spaces.
pub open spec fn join_space(t: Seq<Seq<char>>) -> Seq<char>
    decreases t.len(),
{
    if t.len() == 0 {
        Seq::empty()
    } else if t.len() == 1 {
        t[0]
    } else {
        join_space(t.drop_last()) + seq![' '] + t.last()
    }
}

/// The views of character vectors.
pub open spec fn char_views(v: Seq<Vec<char>>) -> Seq<Seq<char>> {
    v.map_values(|x: Vec<char>| x@)
}

/// The words of `s`.
pub fn words_vec(s: &Vec<char>) -> (r: Vec<Vec<char>>)
    ensures
        char_views(r@) == words(s@),
{
    let n = s.len();
    let mut out: Vec<Vec<char>> = Vec::new();
    let mut cur: Vec<char> = Vec::new();
    let mut i: usize = 0;
    assert(s@.subrange(0, n as int) =~= s@);
    assert(char_views(out@) =~= Seq::<Seq<char>>::empty());
    while i < n
        invariant
            i <= n,
            n == s@.len(),
            char_views(out@) + words_from(s@.subrange(i as int, n as int), cur@) == words(s@),
        decreases n - i,
    {
        let c = s[i];
        let ghost rest = s@.subrange(i + 1, n as int);
        assert(s@.subrange(i as int, n as int).drop_first() =~= rest);
        assert(s@.subrange(i as int, n as int)[0] == c);
        if textops::is_ws_char(c) {
            if cur.len() > 0 {
                let ghost before = char_views(out@);
                let w = cur;
                out.push(w);
                assert(char_views(out@) =~= before.push(w@));
                assert(before + seq![w@] =~= before.push(w@));
                assert(char_views(out@) + words_from(rest, Seq::empty()) =~= before + (seq![w@]
                    + words_from(rest, Seq::empty())));
                cur = Vec::new();
            } else {
                assert(Seq::<Seq<char>>::empty() + words_from(rest, Seq::empty()) =~= words_from(
                    rest,
                    Seq::empty(),
                ));
            }
            assert(cur@ =~= Seq::<char>::empty());
        } else {
            let ghost old_cur = cur@;
            cur.push(c);
            assert(cur@ =~= old_cur.push(c));
        }
        i = i + 1;
    }
    assert(s@.subrange(n as int, n as int) =~= Seq::<char>::empty());
    if cur.len() > 0 {
        let ghost before = char_views(out@);
        let w = cur;
        out.push(w);
        assert(char_views(out@) =~= before.push(w@));
    } else {
        assert(char_views(out@) + Seq::<Seq<char>>::empty() =~= char_views(out@));
    }
    out
}

/// The words joined by single spaces.
pub fn join_space_vec(t: &Vec<Vec<char>>) -> (r: Vec<char>)
    ensures
        r@ == join_space(char_views(t@)),
{
    let mut out: Vec<char> = Vec::new();
    let mut i: usize = 0;
    while i < t.len()
        invariant
            i <= t@.len(),
            out@ == join_space(char_views(t@).take(i as int)),
        decreases t@.len() - i,
    {
        let ghost tv = char_views(t@);
        assert(tv.take(i + 1).drop_last() =~= tv.take(i as int));
        assert(tv.take(i + 1).last() == t@[i as int]@);
        if i > 0 {
            out.push(' ');
        } else {
            assert(tv.take(1) =~= seq![t@[0]@]);
        }
        textops::push_all(&mut out, &t[i]);
        i = i + 1;
    }
    assert(char_views(t@).take(t@.len() as int) =~= char_views(t@));
    out
}

/// Punctuation and symbols, as the `regex` crate's Unicode classes.
pub open spec fn fingerprint_pattern() -> Seq<char> {
    "[\\p{P}\\p{S}]"@
}

/// The tokens of a query: its words once lower-cased (Unicode) with every
/// punctuation or symbol character turned into a space.
pub open spec fn fingerprint_tokens(q: Seq<char>) -> Seq<Seq<char>> {
    words(regex_replaced(fingerprint_pattern(), unicode_lower(q), " "@))
}

/// `fp` is the fingerprint of the query `q`: its tokens sorted and joined by
/// single spaces.
pub open spec fn is_fingerprint(q: Seq<char>, fp: Seq<char>) -> bool {
    exists|t: Seq<Seq<char>>|
        sorted_strs(t) && t.to_multiset() == fingerprint_tokens(q).to_multiset() && fp == join_space(t)
}

/// The fingerprint of a query and whether it has any token.
fn fingerprint_with_count(q: &str) -> (r: (String, bool))
    ensures
        is_fingerprint(q@, r.0@),
        r.1 == (fingerprint_tokens(q@).len() > 0),
{
    let lower = to_lowercase(q);
    let pattern = "[\\p{P}\\p{S}]";
    let cleaned = regex_replace_all(pattern, lower.as_str(), " ");
    let tokens = words_vec(&textops::chars_of(cleaned.as_str()));
    let any = tokens.len() > 0;
    let sorted = sort_strings(tokens);
    assert(views(sorted@) =~= char_views(sorted@));
    assert(views(tokens@) =~= char_views(tokens@));
    let joined = join_space_vec(&sorted);
    (textops::string_of(joined.as_slice()), any)
}

/// The fingerprint of a query: its tokens sorted and joined by single spaces.
pub fn fingerprint(q: &str) -> (r: String)
    ensures
        is_fingerprint(q@, r@),
{
    fingerprint_with_count(q).0
}

/// What a similarity of two texts compares: both trimmed and lower-cased
/// (Unicode). Two empty texts are alike, and an empty text is unlike a
/// non-empty one; other pairs are handed over for measuring.
#[derive(Debug)]
pub enum SimilarityInputs {
    BothEmpty,
    OneEmpty,
    Texts(String, String),
}

/// A text trimmed and lower-cased.
pub open spec fn folded(s: Seq<char>) -> Seq<char> {
    unicode_lower(textops::trim(s))
}

/// `s` trimmed and lower-cased.
fn fold(s: &str) -> (r: String)
    ensures
        r@ == folded(s@),
{
    let t = textops::string_of(textops::trim_vec(&textops::chars_of(s)).as_slice());
    to_lowercase(t.as_str())
}

/// What comparing `a` and `b` asks for.
pub fn similarity_inputs(a: &str, b: &str) -> (r: SimilarityInputs)
    ensures
        folded(a@).len() == 0 && folded(b@).len() == 0 ==> r is BothEmpty,
        (folded(a@).len() == 0) != (folded(b@).len() == 0) ==> r is OneEmpty,
        folded(a@).len() > 0 && folded(b@).len() > 0 ==> (r matches SimilarityInputs::Texts(x, y)
            && x@ == folded(a@) && y@ == folded(b@)),
{
    let x = fold(a);
    let y = fold(b);
    let ex = x.as_str().is_empty();
    let ey = y.as_str().is_empty();
    if ex && ey {
        SimilarityInputs::BothEmpty
    } else if ex || ey {
        SimilarityInputs::OneEmpty
    } else {
        SimilarityInputs::Texts(x, y)
    }
}

/// What the match percentage of a candidate compares.
#[derive(Debug)]
pub enum MatchTexts {
    /// Both sides have metadata: the requested and the found title, artist
    /// and album (empty where missing), each trimmed; and the durations.
    Meta { title: (String, String), artist: (String, String), album: (String, String) },
    /// The fingerprints of the two queries, both with tokens.
    Fingerprints { local: String, remote: String },
    /// A query without tokens: nothing matches.
    Unmatched,
}

/// A text trimmed, or none when it is blank or missing.
pub open spec fn present(o: Option<String>) -> Option<Seq<char>> {
    match o {
        Some(s) => if textops::trim(s@).len() > 0 {
            Some(textops::trim(s@))
        } else {
            None
        },
        None => None,
    }
}

/// A text, or the empty one.
pub open spec fn or_empty(o: Option<Seq<char>>) -> Seq<char> {
    match o {
        Some(s) => s,
        None => Seq::empty(),
    }
}

/// The trimmed title, artist and album (empty when missing) of a title and
/// artist search whose title and artist are not blank.
pub open spec fn local_meta(term: LyricsSearchTerm) -> Option<(Seq<char>, Seq<char>, Seq<char>)> {
    match term {
        LyricsSearchTerm::Info { title, artist, album } => {
            let t = textops::trim(title@);
            let a = textops::trim(artist@);
            if t.len() > 0 && a.len() > 0 {
                Some(
                    (
                        t,
                        a,
                        match album {
                            Some(x) => textops::trim(x@),
                            None => Seq::empty(),
                        },
                    ),
                )
            } else {
                None
            }
        },
        LyricsSearchTerm::Keyword { .. } => None,
    }
}

/// The query of the request when the metadata is not compared: title and
/// artist, or the description of the term.
pub open spec fn local_query(term: LyricsSearchTerm) -> Seq<char> {
    match local_meta(term) {
        Some((t, a, _)) => t + " "@ + a,
        None => description_spec(term),
    }
}

/// The query of a candidate: its title and artist, or nothing without a title.
pub open spec fn remote_query(result: LyricsSearchResult) -> Seq<char> {
    match present(result.title) {
        Some(t) => t + " "@ + or_empty(present(result.artist)),
        None => Seq::empty(),
    }
}

/// `r` is what the match percentage of `result` for `req` compares.
pub open spec fn match_texts_spec(req: LyricsSearchRequest, result: LyricsSearchResult, r: MatchTexts) -> bool {
    match (local_meta(req.term), present(result.title)) {
        (Some((t, a, al)), Some(rt)) => r matches MatchTexts::Meta { title, artist, album } && title.0@
            == t && title.1@ == rt && artist.0@ == a && artist.1@ == or_empty(present(result.artist))
            && album.0@ == al && album.1@ == or_empty(present(result.album)),
        _ => if fingerprint_tokens(local_query(req.term)).len() > 0 && fingerprint_tokens(
            remote_query(result),
        ).len() > 0 {
            r matches MatchTexts::Fingerprints { local, remote } && is_fingerprint(
                local_query(req.term),
                local@,
            ) && is_fingerprint(remote_query(result), remote@)
        } else {
            r is Unmatched
        },
    }
}

/// A text trimmed, or none when it is blank or missing.
fn present_exec(o: &Option<String>) -> (r: Option<String>)
    ensures
        match present(*o) {
            Some(t) => r matches Some(x) && x@ == t,
            None => r is None,
        },
{
    match o {
        Some(s) => {
            let t = textops::trim_vec(&textops::chars_of(s.as_str()));
            if t.len() > 0 {
                Some(textops::string_of(t.as_slice()))
            } else {
                None
            }
        },
        None => None,
    }
}

/// `a`, a space and `b`.
fn spaced(a: &str, b: &str) -> (r: String)
    ensures
        r@ == a@ + " "@ + b@,
{
    let mut v = textops::chars_of(a);
    v.push(' ');
    textops::push_all(&mut v, &textops::chars_of(b));
    proof {
        reveal_strlit(" ");
    }
    assert(v@ =~= a@ + " "@ + b@);
    textops::string_of(v.as_slice())
}

/// What the match percentage of `result` for `req` compares: the metadata
/// pairs when both sides have a title and an artist (the candidate a title),
/// else the fingerprints of the two queries.
pub fn match_texts(req: &LyricsSearchRequest, result: &LyricsSearchResult) -> (r: MatchTexts)
    ensures
        match_texts_spec(*req, *result, r),
{
    let local: Option<(String, String, String)> = match &req.term {
        LyricsSearchTerm::Info { title, artist, album } => {
            let t = textops::trim_vec(&textops::chars_of(title.as_str()));
            let a = textops::trim_vec(&textops::chars_of(artist.as_str()));
            if t.len() > 0 && a.len() > 0 {
                let al = match album {
                    Some(x) => textops::string_of(textops::trim_vec(&textops::chars_of(x.as_str())).as_slice()),
                    None => String::new(),
                };
                Some((textops::string_of(t.as_slice()), textops::string_of(a.as_slice()), al))
            } else {
                None
            }
        },
        LyricsSearchTerm::Keyword { .. } => None,
    };
    let remote_title = present_exec(&result.title);
    let remote_artist = match present_exec(&result.artist) {
        Some(x) => x,
        None => String::new(),
    };
    match (&local, &remote_title) {
        (Some((t, a, al)), Some(rt)) => {
            let remote_album = match present_exec(&result.album) {
                Some(x) => x,
                None => String::new(),
            };
            return MatchTexts::Meta {
                title: (t.clone(), rt.clone()),
                artist: (a.clone(), remote_artist),
                album: (al.clone(), remote_album),
            };
        },
        _ => {},
    }
    let lq = match &local {
        Some((t, a, _)) => spaced(t.as_str(), a.as_str()),
        None => req.term.description(),
    };
    let rq = match &remote_title {
        Some(rt) => spaced(rt.as_str(), remote_artist.as_str()),
        None => String::new(),
    };
    assert(lq@ == local_query(req.term));
    assert(rq@ == remote_query(*result));
    let (fp1, any1) = fingerprint_with_count(lq.as_str());
    let (fp2, any2) = fingerprint_with_count(rq.as_str());
    if any1 && any2 {
        MatchTexts::Fingerprints { local: fp1, remote: fp2 }
    } else {
        MatchTexts::Unmatched
    }
}

/// The gap between two durations, when both are known and neither is zero.
pub fn duration_gap_ms(local: Option<u64>, remote: Option<u64>) -> (r: Option<u64>)
    ensures
        match (local, remote) {
            (Some(a), Some(b)) => if a == 0 || b == 0 {
                r is None
            } else {
                r == Some((if a >= b {
                    a - b
                } else {
                    b - a
                }) as u64)
            },
            _ => r is None,
        },
{
    match (local, remote) {
        (Some(a), Some(b)) => if a == 0 || b == 0 {
            None
        } else if a >= b {
            Some(a - b)
        } else {
            Some(b - a)
        },
        _ => None,
    }
}

/// A field given as optional text, trimmed; empty where missing.
pub open spec fn field_text(o: Option<String>) -> Seq<char> {
    match o {
        Some(x) => textops::trim(x@),
        None => Seq::empty(),
    }
}

/// When the metadata is compared, each pair holds the same field on both
/// sides: the requested title, artist and album against the candidate's
/// title, artist and album, each trimmed (empty where missing or blank).
pub proof fn lemma_meta_pairs_same_fields(
    req: LyricsSearchRequest,
    result: LyricsSearchResult,
    m: MatchTexts,
    title: String,
    artist: String,
    album: Option<String>,
)
    requires
        match_texts_spec(req, result, m),
        req.term == (LyricsSearchTerm::Info { title, artist, album }),
        m is Meta,
    ensures
        m matches MatchTexts::Meta { title: tp, artist: ap, album: lp } && tp.0@ == textops::trim(title@)
            && tp.1@ == field_text(result.title) && ap.0@ == textops::trim(artist@) && ap.1@ == field_text(
            result.artist,
        ) && lp.0@ == field_text(album) && lp.1@ == field_text(result.album),
{
}

} // verus!
