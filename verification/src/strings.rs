//! Verified character-level string predicates used across the crate.

use vstd::prelude::*;

verus! {

/// `sfx` is a suffix of `s`.
pub open spec fn spec_ends_with(s: Seq<char>, sfx: Seq<char>) -> bool {
    sfx.len() <= s.len() && s.subrange(s.len() - sfx.len(), s.len() as int) == sfx
}

/// `pfx` is a prefix of `s`.
pub open spec fn spec_starts_with(s: Seq<char>, pfx: Seq<char>) -> bool {
    pfx.len() <= s.len() && s.subrange(0, pfx.len() as int) == pfx
}

/// `needle` occurs contiguously somewhere in `s`.
pub open spec fn spec_contains(s: Seq<char>, needle: Seq<char>) -> bool {
    exists|i: int|
        0 <= i && i + needle.len() <= s.len() && #[trigger] s.subrange(i, i + needle.len())
            == needle
}

/// Blank characters removed by trimming.
pub open spec fn is_blank(c: char) -> bool {
    c == ' ' || c == '\t' || c == '\n' || c == '\r'
}

/// The first position at or after `i` holding no blank.
pub open spec fn trim_start_idx(s: Seq<char>, i: int) -> int
    decreases s.len() - i,
{
    if 0 <= i < s.len() && is_blank(s[i]) {
        trim_start_idx(s, i + 1)
    } else {
        i
    }
}

/// The position after the last non-blank below `i`.
pub open spec fn trim_end_idx(s: Seq<char>, i: int) -> int
    decreases i,
{
    if 0 < i <= s.len() && is_blank(s[i - 1]) {
        trim_end_idx(s, i - 1)
    } else {
        i
    }
}

/// `s` without leading and trailing blanks.
pub open spec fn spec_trim(s: Seq<char>) -> Seq<char> {
    let a = trim_start_idx(s, 0);
    let b = trim_end_idx(s, s.len() as int);
    if a < b {
        s.subrange(a, b)
    } else {
        Seq::empty()
    }
}

/// `s` without leading and trailing blanks.
pub fn trim(s: &str) -> (r: String)
    ensures
        r@ == spec_trim(s@),
{
    let n = s.unicode_len();
    let mut a: usize = 0;
    while a < n
        invariant
            n == s@.len(),
            a <= n,
            trim_start_idx(s@, 0) == trim_start_idx(s@, a as int),
        ensures
            a <= n,
            trim_start_idx(s@, 0) == a,
        decreases n - a,
    {
        let c = s.get_char(a);
        if !(c == ' ' || c == '\t' || c == '\n' || c == '\r') {
            proof {
                assert(!is_blank(s@[a as int]));
                assert(trim_start_idx(s@, a as int) == a);
            }
            break;
        }
        a = a + 1;
    }
    let mut b: usize = n;
    while b > 0
        invariant
            n == s@.len(),
            b <= n,
            trim_end_idx(s@, n as int) == trim_end_idx(s@, b as int),
        ensures
            b <= n,
            trim_end_idx(s@, n as int) == b,
        decreases b,
    {
        let c = s.get_char(b - 1);
        if !(c == ' ' || c == '\t' || c == '\n' || c == '\r') {
            proof {
                assert(!is_blank(s@[b - 1]));
                assert(trim_end_idx(s@, b as int) == b);
            }
            break;
        }
        b = b - 1;
    }
    if a < b {
        s.substring_char(a, b).to_owned()
    } else {
        let r = String::new();
        proof {
            assert(r@ =~= spec_trim(s@));
        }
        r
    }
}

/// Character-for-character string equality.
pub fn str_eq(a: &str, b: &str) -> (r: bool)
    ensures
        r == (a@ == b@),
{
    let n = a.unicode_len();
    let m = b.unicode_len();
    if n != m {
        proof {
            if a@ == b@ {
                assert(a@.len() == b@.len());
            }
        }
        return false;
    }
    let mut i: usize = 0;
    while i < n
        invariant
            a@.len() == n,
            b@.len() == m,
            n == m,
            i <= n,
            forall|k: int| 0 <= k < i ==> a@[k] == b@[k],
        decreases n - i,
    {
        if a.get_char(i) != b.get_char(i) {
            proof {
                assert(a@[i as int] != b@[i as int]);
            }
            return false;
        }
        i = i + 1;
    }
    proof {
        assert(a@ =~= b@);
    }
    true
}

/// Whether `s` ends with `sfx`.
pub fn ends_with(s: &str, sfx: &str) -> (r: bool)
    ensures
        r == spec_ends_with(s@, sfx@),
{
    let n = s.unicode_len();
    let m = sfx.unicode_len();
    if m > n {
        return false;
    }
    let start = n - m;
    let mut k: usize = 0;
    while k < m
        invariant
            s@.len() == n,
            sfx@.len() == m,
            m <= n,
            start == n - m,
            k <= m,
            forall|j: int| 0 <= j < k ==> s@[start + j] == sfx@[j],
        decreases m - k,
    {
        if s.get_char(start + k) != sfx.get_char(k) {
            proof {
                let tail = s@.subrange(n - m, n as int);
                assert(tail[k as int] == s@[start + k]);
            }
            return false;
        }
        k = k + 1;
    }
    proof {
        assert(s@.subrange(n - m, n as int) =~= sfx@);
    }
    true
}

/// Whether `s` starts with `pfx`.
pub fn starts_with(s: &str, pfx: &str) -> (r: bool)
    ensures
        r == spec_starts_with(s@, pfx@),
{
    let n = s.unicode_len();
    let m = pfx.unicode_len();
    if m > n {
        return false;
    }
    let mut k: usize = 0;
    while k < m
        invariant
            s@.len() == n,
            pfx@.len() == m,
            m <= n,
            k <= m,
            forall|j: int| 0 <= j < k ==> s@[j] == pfx@[j],
        decreases m - k,
    {
        if s.get_char(k) != pfx.get_char(k) {
            proof {
                let head = s@.subrange(0, m as int);
                assert(head[k as int] == s@[k as int]);
            }
            return false;
        }
        k = k + 1;
    }
    proof {
        assert(s@.subrange(0, m as int) =~= pfx@);
    }
    true
}

/// Whether `needle` occurs at position `i` of `s`.
fn matches_at(s: &str, i: usize, needle: &str) -> (r: bool)
    requires
        i + needle@.len() <= s@.len(),
        s@.len() <= usize::MAX,
    ensures
        r == (s@.subrange(i as int, i + needle@.len()) == needle@),
{
    let m = needle.unicode_len();
    let mut k: usize = 0;
    while k < m
        invariant
            needle@.len() == m,
            i + m <= s@.len() <= usize::MAX,
            k <= m,
            forall|j: int| 0 <= j < k ==> s@[i + j] == needle@[j],
        decreases m - k,
    {
        if s.get_char(i + k) != needle.get_char(k) {
            proof {
                let win = s@.subrange(i as int, i + needle@.len());
                assert(win[k as int] == s@[i + k]);
            }
            return false;
        }
        k = k + 1;
    }
    proof {
        assert(s@.subrange(i as int, i + needle@.len()) =~= needle@);
    }
    true
}

/// Whether `needle` occurs contiguously somewhere in `s`.
pub fn contains_sub(s: &str, needle: &str) -> (r: bool)
    ensures
        r == spec_contains(s@, needle@),
{
    let n = s.unicode_len();
    let m = needle.unicode_len();
    if m > n {
        proof {
            assert(!spec_contains(s@, needle@));
        }
        return false;
    }
    if m == 0 {
        proof {
            assert(s@.subrange(0, 0 + needle@.len() as int) =~= needle@);
        }
        return true;
    }
    let mut i: usize = 0;
    let last = n - m;
    while i <= last
        invariant
            s@.len() == n,
            needle@.len() == m,
            1 <= m <= n,
            last == n - m,
            i <= last + 1,
            forall|p: int|
                0 <= p < i ==> #[trigger] s@.subrange(p, p + needle@.len()) != needle@,
        decreases last + 1 - i,
    {
        if matches_at(s, i, needle) {
            return true;
        }
        i = i + 1;
    }
    proof {
        assert forall|p: int| 0 <= p && p + needle@.len() <= s@.len() implies
            #[trigger] s@.subrange(p, p + needle@.len()) != needle@ by {
            assert(p < i);
        }
    }
    false
}

} // verus!
