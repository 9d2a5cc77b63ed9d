//! Substring matching on strings, specified over their `Seq<char>` views.

use vstd::prelude::*;

verus! {

/// `sub` occurs as a contiguous run of characters somewhere in `s`.
/// The empty sequence occurs in every string (witness `i == 0`).
pub open spec fn has_substr(s: Seq<char>, sub: Seq<char>) -> bool {
    exists|i: int|
        0 <= i && i + sub.len() <= s.len() && #[trigger] s.subrange(i, i + sub.len() as int) == sub
}

/// Character-by-character comparison of `sub` against `s` starting at `off`.
fn match_at(s: &str, sub: &str, off: usize, n: usize, m: usize) -> (r: bool)
    requires
        n == s@.len(),
        m == sub@.len(),
        off + m <= n,
    ensures
        r == (s@.subrange(off as int, off + m) == sub@),
{
    let mut j: usize = 0;
    while j < m
        invariant
            j <= m,
            n == s@.len(),
            m == sub@.len(),
            off + m <= n,
            forall|k: int| 0 <= k < j ==> s@[off + k] == sub@[k],
        decreases m - j,
    {
        if s.get_char(off + j) != sub.get_char(j) {
            assert(s@.subrange(off as int, off + m)[j as int] != sub@[j as int]);
            return false;
        }
        j += 1;
    }
    assert(s@.subrange(off as int, off + m) =~= sub@);
    true
}

/// Case-sensitive substring search: does `s` contain `sub`?
pub fn contains_str(s: &str, sub: &str) -> (r: bool)
    ensures
        r == has_substr(s@, sub@),
{
    let n = s.unicode_len();
    let m = sub.unicode_len();
    if m > n {
        assert(!has_substr(s@, sub@));
        return false;
    }
    if m == 0 {
        assert(has_substr(s@, sub@)) by {
            assert(s@.subrange(0, 0 + sub@.len() as int) =~= sub@);
        }
        return true;
    }
    let mut i: usize = 0;
    while i <= n - m
        invariant
            1 <= m <= n,
            n == s@.len(),
            m == sub@.len(),
            i <= n - m + 1,
            forall|k: int| 0 <= k < i ==> #[trigger] s@.subrange(k, k + m) != sub@,
        decreases n - m - i + 1,
    {
        if match_at(s, sub, i, n, m) {
            return true;
        }
        i += 1;
    }
    false
}

} // verus!
