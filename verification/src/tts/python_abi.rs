//! The Python version a PyTorch install was built for, read from the name of
//! one of its binary extensions (`_C.cp310-win_amd64.pyd` is Python 3.10).

use vstd::prelude::*;
use crate::textops;
use crate::lyrics::util::digits_value;

verus! {

/// An ASCII decimal digit.
pub open spec fn is_digit(c: char) -> bool {
    '0' <= c && c <= '9'
}

/// Where the run of digits starting at `j` ends.
pub open spec fn digit_run_end(s: Seq<char>, j: int) -> int
    decreases s.len() - j,
{
    if 0 <= j < s.len() && is_digit(s[j]) {
        digit_run_end(s, j + 1)
    } else {
        j
    }
}

/// At `i` stands `cp` followed by a run of two or three digits.
pub open spec fn abi_tag_at(s: Seq<char>, i: int) -> bool {
    let n = digit_run_end(s, i + 2) - (i + 2);
    s[i] == 'c' && s[i + 1] == 'p' && (n == 2 || n == 3)
}

/// The first position from `i` on (with at least three characters after it)
/// where an ABI tag stands.
pub open spec fn first_abi_tag(s: Seq<char>, i: int) -> Option<int>
    decreases s.len() - i,
{
    if i < 0 || i + 3 >= s.len() {
        None
    } else if abi_tag_at(s, i) {
        Some(i)
    } else {
        first_abi_tag(s, i + 1)
    }
}

/// The Python version and tag of an ABI tag's digits: `39` is 3.9, `310` is
/// 3.10.
pub open spec fn abi_version(digits: Seq<char>) -> (u8, u8, Seq<char>) {
    let v = digits_value(digits, 10);
    if digits.len() == 2 {
        (3u8, (v % 10) as u8, "cp"@ + digits)
    } else {
        ((v / 100) as u8, (v % 100) as u8, "cp"@ + digits)
    }
}

/// The Python version named by a file name, if it holds an ABI tag.
pub open spec fn abi_of_name(s: Seq<char>) -> Option<(u8, u8, Seq<char>)> {
    match first_abi_tag(s, 0) {
        Some(i) => Some(abi_version(s.subrange(i + 2, digit_run_end(s, i + 2)))),
        None => None,
    }
}

proof fn lemma_digit_run_bounds(s: Seq<char>, j: int)
    requires
        0 <= j <= s.len(),
    ensures
        j <= digit_run_end(s, j) <= s.len(),
        forall|k: int| j <= k < digit_run_end(s, j) ==> is_digit(#[trigger] s[k]),
    decreases s.len() - j,
{
    if j < s.len() && is_digit(s[j]) {
        lemma_digit_run_bounds(s, j + 1);
    }
}

fn digit_run_end_exec(s: &Vec<char>, j: usize) -> (r: usize)
    requires
        j <= s@.len(),
    ensures
        r == digit_run_end(s@, j as int),
        j <= r <= s@.len(),
{
    let mut k = j;
    while k < s.len() && '0' <= s[k] && s[k] <= '9'
        invariant
            j <= k <= s@.len(),
            digit_run_end(s@, k as int) == digit_run_end(s@, j as int),
        decreases s@.len() - k,
    {
        k = k + 1;
    }
    k
}

/// The value of two or three decimal digits.
fn small_digits_value(d: &Vec<char>) -> (r: u16)
    requires
        d@.len() == 2 || d@.len() == 3,
        forall|k: int| 0 <= k < d@.len() ==> is_digit(#[trigger] d@[k]),
    ensures
        r == digits_value(d@, 10),
        r <= 999,
{
    let mut v: u16 = 0;
    let mut i: usize = 0;
    while i < d.len()
        invariant
            i <= d@.len(),
            d@.len() <= 3,
            forall|k: int| 0 <= k < d@.len() ==> is_digit(#[trigger] d@[k]),
            v == digits_value(d@.take(i as int), 10),
            i == 0 ==> v == 0,
            i == 1 ==> v <= 9,
            i == 2 ==> v <= 99,
            i == 3 ==> v <= 999,
        decreases d@.len() - i,
    {
        assert(d@.take(i + 1).drop_last() =~= d@.take(i as int));
        assert(d@.take(i + 1).last() == d@[i as int]);
        assert(is_digit(d@[i as int]));
        let dv = (d[i] as u32 - '0' as u32) as u16;
        v = v * 10 + dv;
        i = i + 1;
    }
    assert(d@.take(d@.len() as int) =~= d@);
    v
}

/// The Python version of a PyTorch binary extension named `name` (`_C.cp39-
/// win_amd64.pyd` gives `(3, 9, "cp39")`): the first `cp` followed by two or
/// three digits.
pub fn torch_abi_of_name(name: &str) -> (r: Option<(u8, u8, String)>)
    ensures
        match abi_of_name(name@) {
            None => r is None,
            Some((major, minor, tag)) => r matches Some((a, b, t)) && a == major && b == minor
                && t@ == tag,
        },
{
    let s = textops::chars_of(name);
    let n = s.len();
    if n < 4 {
        return None;
    }
    let mut i: usize = 0;
    while i + 3 < n
        invariant
            n == s@.len(),
            s@ == name@,
            n >= 4,
            i + 3 <= n,
            first_abi_tag(s@, 0) == first_abi_tag(s@, i as int),
        decreases n - i,
    {
        if s[i] == 'c' && s[i + 1] == 'p' {
            let j = digit_run_end_exec(&s, i + 2);
            let len = j - (i + 2);
            if len == 2 || len == 3 {
                proof {
                    lemma_digit_run_bounds(s@, i + 2);
                }
                let digits = textops::slice_vec(&s, i + 2, j);
                assert forall|k: int| 0 <= k < digits@.len() implies is_digit(#[trigger] digits@[k]) by {
                    assert(digits@[k] == s@[i + 2 + k]);
                }
                let v = small_digits_value(&digits);
                proof {
                    assert(abi_tag_at(s@, i as int));
                    assert(first_abi_tag(s@, i as int) == Some(i as int));
                    assert(digits@ == s@.subrange(i + 2, j as int));
                }
                let mut tag = vec!['c', 'p'];
                textops::push_all(&mut tag, &digits);
                proof {
                    reveal_strlit("cp");
                    assert(tag@ =~= "cp"@ + digits@);
                }
                let t = textops::string_of(tag.as_slice());
                proof {
                    assert(s@ == name@);
                    assert(first_abi_tag(s@, 0) == Some(i as int));
                    assert(digit_run_end(s@, i + 2) == j);
                    assert(abi_of_name(s@) == Some(abi_version(s@.subrange(i + 2, j as int))));
                    assert(abi_of_name(name@) == Some(abi_version(digits@)));
                    assert(digits_value(digits@, 10) == v as int);
                }
                if len == 2 {
                    assert(abi_version(digits@).0 == 3u8);
                    assert(abi_version(digits@).1 == (v % 10) as u8);
                    assert(abi_version(digits@).2 == t@);
                    return Some((3, (v % 10) as u8, t));
                } else {
                    return Some(((v / 100) as u8, (v % 100) as u8, t));
                }
            }
        }
        i = i + 1;
    }
    None
}

} // verus!
