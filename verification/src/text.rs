//! Character-level substring matching, used as the fallback rule when
//! correlating a registry entry's spawn command with a reported instance.

use vstd::prelude::*;
use vstd::string::StrSliceExecFns;

verus! {

/// `pat` occurs in `text` starting at position `k`.
pub open spec fn matches_at(pat: Seq<char>, text: Seq<char>, k: int) -> bool {
    &&& 0 <= k
    &&& k + pat.len() <= text.len()
    &&& forall|j: int| 0 <= j < pat.len() ==> text[k + j] == pat[j]
}

/// `pat` occurs somewhere in `text`. The empty pattern occurs in every text.
pub open spec fn is_substr(pat: Seq<char>, text: Seq<char>) -> bool {
    exists|k: int| matches_at(pat, text, k)
}

/// Whether `pat` occurs as a contiguous run of characters in `text`.
pub fn contains_sub(pat: &str, text: &str) -> (b: bool)
    ensures
        b == is_substr(pat@, text@),
{
    let n: usize = text.unicode_len();
    let m: usize = pat.unicode_len();
    if m > n {
        assert(!is_substr(pat@, text@));
        return false;
    }
    let mut k: usize = 0;
    while k <= n - m
        invariant
            m <= n,
            n == text@.len(),
            m == pat@.len(),
            k <= n - m + 1,
            forall|k2: int| 0 <= k2 < k ==> !matches_at(pat@, text@, k2),
        decreases n - m + 1 - k,
    {
        let mut j: usize = 0;
        let mut all_equal = true;
        while j < m
            invariant
                k + m <= n,
                n == text@.len(),
                m == pat@.len(),
                j <= m,
                all_equal == forall|j2: int| 0 <= j2 < j ==> text@[k + j2] == pat@[j2],
            decreases m - j,
        {
            if text.get_char(k + j) != pat.get_char(j) {
                all_equal = false;
                assert(!(forall|j2: int| 0 <= j2 < j + 1 ==> text@[k + j2] == pat@[j2]));
            }
            j += 1;
        }
        if all_equal {
            assert(matches_at(pat@, text@, k as int));
            return true;
        }
        k += 1;
    }
    assert forall|k2: int| !matches_at(pat@, text@, k2) by {
        if 0 <= k2 <= n - m {
            assert(!matches_at(pat@, text@, k2));
        }
    }
    false
}

} // verus!
