//! Character-level text helpers shared by the geometry extractor, the
//! upstream resolver and the content negotiator: first-occurrence search for
//! a character or a pattern, and copies of character ranges.

use vstd::prelude::*;

verus! {

use vstd::string::StrSliceExecFns;

/// The pattern `pat` occurs in `s` starting at index `i`.
pub open spec fn matches_at(s: Seq<char>, pat: Seq<char>, i: int) -> bool {
    0 <= i && i + pat.len() <= s.len() && s.subrange(i, i + pat.len() as int) == pat
}

/// The pattern `pat` occurs somewhere in `s`.
pub open spec fn contains_seq(s: Seq<char>, pat: Seq<char>) -> bool {
    exists|i: int| matches_at(s, pat, i)
}

/// The characters of `s`, in order, as a vector.
pub fn chars_of(s: &str) -> (r: Vec<char>)
    ensures
        r@ == s@,
{
    let n = s.unicode_len();
    let mut v: Vec<char> = Vec::new();
    let mut i: usize = 0;
    while i < n
        invariant
            i <= n,
            n == s@.len(),
            v@ == s@.take(i as int),
        decreases n - i,
    {
        v.push(s.get_char(i));
        proof {
            assert(v@ =~= s@.take(i + 1));
        }
        i = i + 1;
    }
    proof {
        assert(v@ =~= s@);
    }
    v
}

/// First occurrence of the character `c` in `v` at or after `from`.
pub fn find_char_from(v: &Vec<char>, from: usize, c: char) -> (r: Option<usize>)
    requires
        from <= v@.len(),
    ensures
        match r {
            Some(j) => from <= j < v@.len() && v@[j as int] == c && forall|k: int|
                from <= k < j ==> v@[k] != c,
            None => forall|k: int| from <= k < v@.len() ==> v@[k] != c,
        },
{
    let mut i: usize = from;
    while i < v.len()
        invariant
            from <= i <= v@.len(),
            forall|k: int| from <= k < i ==> v@[k] != c,
        decreases v@.len() - i,
    {
        if v[i] == c {
            return Some(i);
        }
        i = i + 1;
    }
    None
}

/// Whether `pat` occurs in `v` starting exactly at `i`.
pub fn match_at(v: &Vec<char>, pat: &Vec<char>, i: usize) -> (r: bool)
    requires
        i + pat@.len() <= v@.len(),
    ensures
        r == matches_at(v@, pat@, i as int),
{
    let n = v.len();
    let m = pat.len();
    let mut j: usize = 0;
    while j < m
        invariant
            j <= m,
            m == pat@.len(),
            n == v@.len(),
            i + m <= n,
            forall|k: int| 0 <= k < j ==> v@[i + k] == pat@[k],
        decreases m - j,
    {
        if v[i + j] != pat[j] {
            proof {
                assert(v@.subrange(i as int, i + pat@.len() as int)[j as int] == v@[i + j]);
            }
            return false;
        }
        j = j + 1;
    }
    proof {
        assert(v@.subrange(i as int, i + pat@.len() as int) =~= pat@);
    }
    true
}

/// First occurrence of the pattern `pat` in `v` at or after `from`;
/// meaningful only for a non-empty pattern.
pub fn find_pat_from(v: &Vec<char>, from: usize, pat: &Vec<char>) -> (r: Option<usize>)
    requires
        from <= v@.len(),
        pat@.len() >= 1,
    ensures
        match r {
            Some(j) => from <= j && matches_at(v@, pat@, j as int) && forall|k: int|
                from <= k < j ==> !matches_at(v@, pat@, k),
            None => forall|k: int| from <= k ==> !matches_at(v@, pat@, k),
        },
{
    let n = v.len();
    let m = pat.len();
    if m > n {
        proof {
            assert forall|k: int| from <= k implies !matches_at(v@, pat@, k) by {}
        }
        return None;
    }
    let mut i: usize = from;
    while i <= n - m
        invariant
            from <= i,
            i <= n + 1,
            m <= n,
            m == pat@.len(),
            n == v@.len(),
            m >= 1,
            forall|k: int| from <= k < i ==> !matches_at(v@, pat@, k),
        decreases n - i,
    {
        if match_at(v, pat, i) {
            return Some(i);
        }
        i = i + 1;
    }
    proof {
        assert forall|k: int| from <= k implies !matches_at(v@, pat@, k) by {
            if k < i {
            } else {
                assert(k + pat@.len() > v@.len());
            }
        }
    }
    None
}

/// Whether `pat` occurs anywhere in `v`.
pub fn contains_pat(v: &Vec<char>, pat: &Vec<char>) -> (r: bool)
    requires
        pat@.len() >= 1,
    ensures
        r == contains_seq(v@, pat@),
{
    let r = find_pat_from(v, 0, pat);
    match r {
        Some(j) => {
            proof {
                assert(matches_at(v@, pat@, j as int));
            }
            true
        },
        None => {
            proof {
                assert forall|k: int| !matches_at(v@, pat@, k) by {
                    if k >= 0 {
                        assert(!matches_at(v@, pat@, k));
                    }
                }
            }
            false
        },
    }
}

/// The characters of `v` from `lo` (inclusive) to `hi` (exclusive).
pub fn copy_range(v: &Vec<char>, lo: usize, hi: usize) -> (r: Vec<char>)
    requires
        lo <= hi <= v@.len(),
    ensures
        r@ == v@.subrange(lo as int, hi as int),
{
    let mut out: Vec<char> = Vec::new();
    let mut i: usize = lo;
    while i < hi
        invariant
            lo <= i <= hi <= v@.len(),
            out@ == v@.subrange(lo as int, i as int),
        decreases hi - i,
    {
        out.push(v[i]);
        proof {
            assert(out@ =~= v@.subrange(lo as int, i + 1));
        }
        i = i + 1;
    }
    out
}

} // verus!
