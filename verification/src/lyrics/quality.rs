//! Match verdicts and the integer parts of the quality score of a lyrics candidate.

use vstd::prelude::*;
use crate::textops;
use crate::lyrics::model::{LyricsSearchRequest, LyricsSearchResult, LyricsSearchTerm};

verus! {

/// Case-insensitive (ASCII) mutual containment.
pub open spec fn similar_spec(a: Seq<char>, b: Seq<char>) -> bool {
    let la = textops::lower(a);
    let lb = textops::lower(b);
    textops::contains_sub(la, lb) || textops::contains_sub(lb, la)
}

/// Whether one string contains the other, ignoring ASCII case.
pub fn is_case_insensitive_similar(a: &str, b: &str) -> (r: bool)
    ensures
        r == similar_spec(a@, b@),
{
    let la = textops::lower_vec(&textops::chars_of(a));
    let lb = textops::lower_vec(&textops::chars_of(b));
    textops::contains_sub_exec(&la, &lb) || textops::contains_sub_exec(&lb, &la)
}

/// A candidate matches when it has a title and an artist, and both are similar to the
/// requested ones (to the keyword, for a keyword search).
pub open spec fn is_matched_spec(result: LyricsSearchResult, req: LyricsSearchRequest) -> bool {
    match (result.title, result.artist) {
        (Some(title), Some(artist)) => match req.term {
            LyricsSearchTerm::Info { title: st, artist: sa, .. } => similar_spec(title@, st@)
                && similar_spec(artist@, sa@),
            LyricsSearchTerm::Keyword { keyword } => similar_spec(title@, keyword@)
                && similar_spec(artist@, keyword@),
        },
        _ => false,
    }
}

pub fn is_matched(result: &LyricsSearchResult, req: &LyricsSearchRequest) -> (r: bool)
    ensures
        r == is_matched_spec(*result, *req),
{
    let title = match &result.title {
        Some(t) => t,
        None => return false,
    };
    let artist = match &result.artist {
        Some(a) => a,
        None => return false,
    };
    match &req.term {
        LyricsSearchTerm::Info { title: st, artist: sa, .. } => is_case_insensitive_similar(
            title.as_str(),
            st.as_str(),
        ) && is_case_insensitive_similar(artist.as_str(), sa.as_str()),
        LyricsSearchTerm::Keyword { keyword } => is_case_insensitive_similar(
            title.as_str(),
            keyword.as_str(),
        ) && is_case_insensitive_similar(artist.as_str(), keyword.as_str()),
    }
}

pub open spec fn min3(x: int, y: int, z: int) -> int {
    if x <= y && x <= z {
        x
    } else if y <= z {
        y
    } else {
        z
    }
}

/// Weighted edit distance between `a[..i]` and `b[..j]`: a mismatched pair costs `sub`, an
/// insertion `ins`, a deletion `del`; equal characters are carried over at no cost.
pub open spec fn edit_dist(a: Seq<char>, b: Seq<char>, i: nat, j: nat, sub: int, ins: int, del: int) -> int
    decreases i + j,
{
    if i == 0 {
        j * ins
    } else if j == 0 {
        i * del
    } else if a[i - 1] == b[j - 1] {
        edit_dist(a, b, (i - 1) as nat, (j - 1) as nat, sub, ins, del)
    } else {
        min3(
            edit_dist(a, b, (i - 1) as nat, (j - 1) as nat, sub, ins, del) + sub,
            edit_dist(a, b, i, (j - 1) as nat, sub, ins, del) + ins,
            edit_dist(a, b, (i - 1) as nat, j, sub, ins, del) + del,
        )
    }
}

proof fn lemma_edit_dist_bounds(a: Seq<char>, b: Seq<char>, i: nat, j: nat, sub: int, ins: int, del: int)
    requires
        0 <= sub <= 1,
        0 <= ins <= 1,
        0 <= del <= 1,
    ensures
        0 <= edit_dist(a, b, i, j, sub, ins, del) <= i + j,
    decreases i + j,
{
    if i == 0 {
        assert(0 <= j * ins <= j) by (nonlinear_arith)
            requires
                0 <= ins <= 1,
        ;
    } else if j == 0 {
        assert(0 <= i * del <= i) by (nonlinear_arith)
            requires
                0 <= del <= 1,
        ;
    } else if a[i - 1] == b[j - 1] {
        lemma_edit_dist_bounds(a, b, (i - 1) as nat, (j - 1) as nat, sub, ins, del);
    } else {
        lemma_edit_dist_bounds(a, b, (i - 1) as nat, (j - 1) as nat, sub, ins, del);
        lemma_edit_dist_bounds(a, b, i, (j - 1) as nat, sub, ins, del);
        lemma_edit_dist_bounds(a, b, (i - 1) as nat, j, sub, ins, del);
    }
}

/// Weighted Levenshtein distance over Unicode scalar values.
fn distance(s1: &str, s2: &str, sub_cost: usize, ins_cost: usize, del_cost: usize) -> (r: usize)
    requires
        sub_cost <= 1,
        ins_cost <= 1,
        del_cost <= 1,
        s1@.len() + s2@.len() < usize::MAX,
    ensures
        r == edit_dist(s1@, s2@, s1@.len(), s2@.len(), sub_cost as int, ins_cost as int, del_cost as int),
{
    let a = textops::chars_of(s1);
    let b = textops::chars_of(s2);
    let ghost sc = sub_cost as int;
    let ghost ic = ins_cost as int;
    let ghost dc = del_cost as int;
    if b.len() == 0 {
        assert(a.len() * del_cost <= a.len()) by (nonlinear_arith)
            requires
                del_cost <= 1,
        ;
        return a.len() * del_cost;
    }
    let n = b.len();
    let mut d: Vec<usize> = Vec::new();
    let mut k: usize = 0;
    while k <= n
        invariant
            k <= n + 1,
            n == b.len(),
            ins_cost <= 1,
            d.len() == k,
            a@ == s1@,
            b@ == s2@,
            forall|x: int| 0 <= x < k ==> d@[x] == edit_dist(a@, b@, 0, x as nat, sc, ic, dc),
            sc == sub_cost,
            ic == ins_cost,
            dc == del_cost,
            s1@.len() + s2@.len() < usize::MAX,
        decreases n + 1 - k,
    {
        assert(k * ins_cost <= k) by (nonlinear_arith)
            requires
                ins_cost <= 1,
        ;
        d.push(k * ins_cost);
        k = k + 1;
    }
    let mut i: usize = 0;
    while i < a.len()
        invariant
            i <= a.len(),
            n == b.len(),
            d.len() == n + 1,
            a@ == s1@,
            b@ == s2@,
            sub_cost <= 1,
            ins_cost <= 1,
            del_cost <= 1,
            sc == sub_cost,
            ic == ins_cost,
            dc == del_cost,
            s1@.len() + s2@.len() < usize::MAX,
            forall|x: int| 0 <= x <= n ==> d@[x] == edit_dist(a@, b@, i as nat, x as nat, sc, ic, dc),
        decreases a.len() - i,
    {
        let mut prev = d[0];
        assert((i + 1) * del_cost <= i + 1) by (nonlinear_arith)
            requires
                del_cost <= 1,
        ;
        d.set(0, (i + 1) * del_cost);
        let mut j: usize = 0;
        while j < n
            invariant
                i < a.len(),
                j <= n,
                n == b.len(),
                d.len() == n + 1,
                a@ == s1@,
                b@ == s2@,
                sub_cost <= 1,
                ins_cost <= 1,
                del_cost <= 1,
                sc == sub_cost,
                ic == ins_cost,
                dc == del_cost,
                s1@.len() + s2@.len() < usize::MAX,
                prev == edit_dist(a@, b@, i as nat, j as nat, sc, ic, dc),
                forall|x: int| 0 <= x <= j ==> d@[x] == edit_dist(a@, b@, (i + 1) as nat, x as nat, sc, ic, dc),
                forall|x: int| j < x <= n ==> d@[x] == edit_dist(a@, b@, i as nat, x as nat, sc, ic, dc),
            decreases n - j,
        {
            let tmp = d[j + 1];
            proof {
                lemma_edit_dist_bounds(a@, b@, i as nat, j as nat, sc, ic, dc);
                lemma_edit_dist_bounds(a@, b@, (i + 1) as nat, j as nat, sc, ic, dc);
                lemma_edit_dist_bounds(a@, b@, i as nat, (j + 1) as nat, sc, ic, dc);
            }
            if a[i] == b[j] {
                d.set(j + 1, prev);
            } else {
                let s = prev + sub_cost;
                let ins = d[j] + ins_cost;
                let del = tmp + del_cost;
                let m = if s <= ins && s <= del {
                    s
                } else if ins <= del {
                    ins
                } else {
                    del
                };
                d.set(j + 1, m);
            }
            prev = tmp;
            j = j + 1;
        }
        i = i + 1;
    }
    d[n]
}

/// A ratio `num / den` (the application layer turns it into a float).
#[derive(Debug, Clone, Copy, PartialEq, Eq, Structural)]
pub struct Fraction {
    pub num: usize,
    pub den: usize,
}

pub open spec fn char_count(s: Seq<char>) -> nat {
    s.len()
}

/// Share of the shorter string left after the cheaper of two one-sided edit distances.
pub open spec fn similarity_spec(s1: Seq<char>, s2: Seq<char>) -> Fraction {
    let len = if s1.len() <= s2.len() { s1.len() } else { s2.len() };
    if len == 0 {
        Fraction { num: 0, den: 1 }
    } else {
        let d1 = edit_dist(s1, s2, s1.len(), s2.len(), 1, 0, 1);
        let d2 = edit_dist(s1, s2, s1.len(), s2.len(), 1, 1, 0);
        let diff = if d1 <= d2 { d1 } else { d2 };
        Fraction { num: (if len >= diff { len - diff } else { 0 }) as usize, den: len as usize }
    }
}

/// Share of the longer string left after the edit distance without insertions.
pub open spec fn similarity_in_spec(s1: Seq<char>, s2: Seq<char>) -> Fraction {
    let len = if s1.len() >= s2.len() { s1.len() } else { s2.len() };
    if len == 0 {
        Fraction { num: 1, den: 1 }
    } else {
        let diff = edit_dist(s1, s2, s1.len(), s2.len(), 1, 0, 1);
        Fraction { num: (if len >= diff { len - diff } else { 0 }) as usize, den: len as usize }
    }
}

fn similarity(s1: &str, s2: &str) -> (r: Fraction)
    requires
        s1@.len() + s2@.len() < usize::MAX,
    ensures
        r == similarity_spec(s1@, s2@),
{
    let l1 = textops::chars_of(s1).len();
    let l2 = textops::chars_of(s2).len();
    let len = if l1 <= l2 { l1 } else { l2 };
    if len == 0 {
        return Fraction { num: 0, den: 1 };
    }
    let d1 = distance(s1, s2, 1, 0, 1);
    let d2 = distance(s1, s2, 1, 1, 0);
    let diff = if d1 <= d2 { d1 } else { d2 };
    Fraction { num: len.saturating_sub(diff), den: len }
}

fn similarity_in(s1: &str, s2: &str) -> (r: Fraction)
    requires
        s1@.len() + s2@.len() < usize::MAX,
    ensures
        r == similarity_in_spec(s1@, s2@),
{
    let l1 = textops::chars_of(s1).len();
    let l2 = textops::chars_of(s2).len();
    let len = if l1 >= l2 { l1 } else { l2 };
    if len == 0 {
        return Fraction { num: 1, den: 1 };
    }
    let diff = distance(s1, s2, 1, 0, 1);
    Fraction { num: len.saturating_sub(diff), den: len }
}

/// One component of the quality score: an exact match, a missing field, or a similarity.
#[derive(Debug, Clone, Copy, PartialEq, Eq, Structural)]
pub enum QualityTerm {
    Matched,
    Missing,
    Similar(Fraction),
}

/// Quality component of a candidate field (`found`) against the requested value
/// (`wanted`, from structured metadata) or the keyword.
pub open spec fn field_quality_spec(found: Option<String>, term: LyricsSearchTerm, is_title: bool) -> QualityTerm {
    match found {
        None => QualityTerm::Missing,
        Some(f) => match term {
            LyricsSearchTerm::Info { title, artist, .. } => {
                let want = if is_title { title@ } else { artist@ };
                if f@ == want {
                    QualityTerm::Matched
                } else {
                    QualityTerm::Similar(similarity_spec(f@, want))
                }
            },
            LyricsSearchTerm::Keyword { keyword } => {
                if textops::contains_sub(keyword@, f@) {
                    QualityTerm::Matched
                } else {
                    QualityTerm::Similar(similarity_in_spec(f@, keyword@))
                }
            },
        },
    }
}

/// Total length of the fields a quality computation compares, which must fit in `usize`.
pub open spec fn quality_inputs_fit(result: LyricsSearchResult, req: LyricsSearchRequest) -> bool {
    let t = match result.title { Some(x) => x@.len(), None => 0 };
    let a = match result.artist { Some(x) => x@.len(), None => 0 };
    let q = match req.term {
        LyricsSearchTerm::Info { title, artist, .. } => title@.len() + artist@.len(),
        LyricsSearchTerm::Keyword { keyword } => keyword@.len(),
    };
    t + a + q < usize::MAX
}

fn field_quality(found: &Option<String>, term: &LyricsSearchTerm, is_title: bool) -> (r: QualityTerm)
    requires
        (match *found { Some(x) => x@.len(), None => 0 }) + (match *term {
            LyricsSearchTerm::Info { title, artist, .. } => title@.len() + artist@.len(),
            LyricsSearchTerm::Keyword { keyword } => keyword@.len(),
        }) < usize::MAX,
    ensures
        r == field_quality_spec(*found, *term, is_title),
{
    let f = match found {
        None => return QualityTerm::Missing,
        Some(f) => f,
    };
    match term {
        LyricsSearchTerm::Info { title, artist, .. } => {
            let want = if is_title { title } else { artist };
            let fv = textops::chars_of(f.as_str());
            let wv = textops::chars_of(want.as_str());
            if textops::eq_vec(&fv, &wv) {
                QualityTerm::Matched
            } else {
                QualityTerm::Similar(similarity(f.as_str(), want.as_str()))
            }
        },
        LyricsSearchTerm::Keyword { keyword } => {
            let fv = textops::chars_of(f.as_str());
            let kv = textops::chars_of(keyword.as_str());
            if textops::contains_sub_exec(&kv, &fv) {
                QualityTerm::Matched
            } else {
                QualityTerm::Similar(similarity_in(f.as_str(), keyword.as_str()))
            }
        },
    }
}

/// Artist component of the quality score.
pub fn artist_quality(result: &LyricsSearchResult, req: &LyricsSearchRequest) -> (r: QualityTerm)
    requires
        quality_inputs_fit(*result, *req),
    ensures
        r == field_quality_spec(result.artist, req.term, false),
{
    field_quality(&result.artist, &req.term, false)
}

/// Title component of the quality score.
pub fn title_quality(result: &LyricsSearchResult, req: &LyricsSearchRequest) -> (r: QualityTerm)
    requires
        quality_inputs_fit(*result, *req),
    ensures
        r == field_quality_spec(result.title, req.term, true),
{
    field_quality(&result.title, &req.term, true)
}

/// Similarity ignores the order of its arguments.
pub proof fn lemma_similar_symmetric(a: Seq<char>, b: Seq<char>)
    ensures
        similar_spec(a, b) == similar_spec(b, a),
{
}

/// A keyword search matches a candidate exactly when it has a title and an
/// artist and both are similar to the keyword; one similar field is not
/// enough.
pub proof fn lemma_keyword_match_needs_both(result: LyricsSearchResult, req: LyricsSearchRequest, keyword: String)
    requires
        req.term == (LyricsSearchTerm::Keyword { keyword }),
    ensures
        is_matched_spec(result, req) <==> (result.title matches Some(t) && result.artist matches Some(a)
            && similar_spec(t@, keyword@) && similar_spec(a@, keyword@)),
{
}

/// A title and artist search matches a candidate exactly when its title is
/// similar to the requested title and its artist to the requested artist.
pub proof fn lemma_info_match_needs_both(
    result: LyricsSearchResult,
    req: LyricsSearchRequest,
    title: String,
    artist: String,
    album: Option<String>,
)
    requires
        req.term == (LyricsSearchTerm::Info { title, artist, album }),
    ensures
        is_matched_spec(result, req) <==> (result.title matches Some(t) && result.artist matches Some(a)
            && similar_spec(t@, title@) && similar_spec(a@, artist@)),
{
}

} // verus!
