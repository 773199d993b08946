//! The regular expressions of the library, run by the `regex` crate. Each
//! wrapper is only called with patterns listed here, all of which compile.

use vstd::prelude::*;
use crate::lyrics::match_score::fingerprint_pattern;
use crate::lyrics::providers::{
    lrc_tag_pattern, netease_tag_pattern, syair_entry_pattern, syair_link_pattern,
};
use crate::music::qq_login::{
    location_code_pattern, ptsigx_pattern, ptui_pattern, uin_pattern, wechat_poll_pattern,
    wechat_uuid_pattern,
};

verus! {

/// What `Regex::new(pattern).replace_all(text, rep)` gives.
pub uninterp spec fn regex_replaced(pattern: Seq<char>, text: Seq<char>, rep: Seq<char>) -> Seq<
    char,
>;

/// What `Regex::new(pattern).is_match(text)` gives.
pub uninterp spec fn regex_found(pattern: Seq<char>, text: Seq<char>) -> bool;

/// Capture group `k` of the first match of `pattern` in `text`, as
/// `Regex::captures` finds it (group 0 is the whole match); `None` when there
/// is no match or the group takes no part in it.
pub uninterp spec fn regex_capture(pattern: Seq<char>, text: Seq<char>, k: int) -> Option<Seq<char>>;

/// The patterns whose matches are replaced.
pub open spec fn replace_pattern(p: Seq<char>) -> bool {
    p == netease_tag_pattern() || p == fingerprint_pattern()
}

/// Capture group 1 of every match of `pattern` in `text`, in order, as
/// `Regex::captures_iter` finds them; `None` for a match where the group
/// takes no part.
pub uninterp spec fn regex_groups_each(pattern: Seq<char>, text: Seq<char>) -> Seq<Option<Seq<char>>>;

/// The views of optional strings.
pub open spec fn opt_seqs(v: Seq<Option<String>>) -> Seq<Option<Seq<char>>> {
    v.map_values(|o: Option<String>| opt_seq(o))
}

/// The patterns whose first capture group is asked for.
pub open spec fn group_pattern(p: Seq<char>) -> bool {
    p == syair_entry_pattern() || p == ptsigx_pattern() || p == uin_pattern() || p
        == wechat_uuid_pattern() || p == location_code_pattern()
}

/// The patterns whose match and first two capture groups are asked for.
pub open spec fn captures_pattern(p: Seq<char>) -> bool {
    p == ptui_pattern() || p == wechat_poll_pattern()
}

/// The view of an optional string.
pub open spec fn opt_seq(o: Option<String>) -> Option<Seq<char>> {
    match o {
        Some(s) => Some(s@),
        None => None,
    }
}

/// Calls `Regex::replace_all`.
#[verifier::external_body]
pub(crate) fn regex_replace_all(pattern: &str, text: &str, rep: &str) -> (r: String)
    requires
        replace_pattern(pattern@),
    ensures
        r@ == regex_replaced(pattern@, text@, rep@),
{
    regex::Regex::new(pattern).unwrap().replace_all(text, rep).into_owned()
}

/// Calls `Regex::is_match` with the LRC time tag pattern.
#[verifier::external_body]
pub(crate) fn regex_is_match(pattern: &str, text: &str) -> (r: bool)
    requires
        pattern@ == lrc_tag_pattern(),
    ensures
        r == regex_found(pattern@, text@),
{
    regex::Regex::new(pattern).unwrap().is_match(text)
}

/// Calls `Regex::captures` and takes the first capture group.
#[verifier::external_body]
pub(crate) fn regex_first_group(pattern: &str, text: &str) -> (r: Option<String>)
    requires
        group_pattern(pattern@),
    ensures
        opt_seq(r) == regex_capture(pattern@, text@, 1),
{
    regex::Regex::new(pattern).unwrap().captures(text).and_then(|c| c.get(1)).map(
        |m| m.as_str().to_owned(),
    )
}

/// Calls `Regex::captures_iter` with the syair link pattern and takes the
/// first capture group of each match.
#[verifier::external_body]
pub(crate) fn regex_groups_all(pattern: &str, text: &str) -> (r: Vec<Option<String>>)
    requires
        pattern@ == syair_link_pattern(),
    ensures
        opt_seqs(r@) == regex_groups_each(pattern@, text@),
{
    regex::Regex::new(pattern).unwrap().captures_iter(text).map(|c| c.get(1).map(|m| m.as_str().to_owned())).collect()
}

/// Calls `Regex::captures`: `None` without a match, else its first two
/// capture groups.
#[verifier::external_body]
pub(crate) fn regex_captures(pattern: &str, text: &str) -> (r: Option<(Option<String>, Option<String>)>)
    requires
        captures_pattern(pattern@),
    ensures
        r is Some <==> regex_capture(pattern@, text@, 0) is Some,
        r matches Some((a, b)) ==> opt_seq(a) == regex_capture(pattern@, text@, 1) && opt_seq(b)
            == regex_capture(pattern@, text@, 2),
{
    regex::Regex::new(pattern).unwrap().captures(text).map(
        |c| (c.get(1).map(|m| m.as_str().to_owned()), c.get(2).map(|m| m.as_str().to_owned())),
    )
}

} // verus!
