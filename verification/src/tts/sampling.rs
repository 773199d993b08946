//! The integer part of repetition-aware sampling: how often a token occurs
//! among the most recently decoded ones. The sampling itself works on
//! floating-point scores outside this library.

use vstd::prelude::*;

verus! {

/// The number of occurrences of `token` in `s`.
pub open spec fn occurrences(s: Seq<u32>, token: u32) -> nat
    decreases s.len(),
{
    if s.len() == 0 {
        0
    } else {
        occurrences(s.drop_last(), token) + if s.last() == token {
            1nat
        } else {
            0nat
        }
    }
}

/// The last `win` tokens of `s` (all of them when there are fewer).
pub open spec fn last_window(s: Seq<u32>, win: int) -> Seq<u32> {
    if win < s.len() {
        s.subrange(s.len() - win, s.len() as int)
    } else {
        s
    }
}

/// How often `token` occurs among the last `win_size` decoded tokens.
pub fn recent_repeats(decoded: &[u32], win_size: usize, token: u32) -> (r: usize)
    ensures
        r == occurrences(last_window(decoded@, win_size as int), token),
{
    let n = decoded.len();
    let from: usize = if win_size < n {
        n - win_size
    } else {
        0
    };
    let ghost w = last_window(decoded@, win_size as int);
    assert(w =~= decoded@.subrange(from as int, n as int));
    let mut count: usize = 0;
    let mut i: usize = from;
    while i < n
        invariant
            from <= i <= n,
            n == decoded@.len(),
            count == occurrences(decoded@.subrange(from as int, i as int), token),
            count <= i - from,
        decreases n - i,
    {
        assert(decoded@.subrange(from as int, i + 1).drop_last() =~= decoded@.subrange(from as int, i as int));
        if decoded[i] == token {
            count = count + 1;
        }
        i = i + 1;
    }
    count
}

} // verus!
