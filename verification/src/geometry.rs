//! Geometry extraction from the inbound query string.
//!
//! The accepted wire form is a `&`-separated pair shaped `im=Resize=(W,H)`.
//! The first qualifying pair wins.  From its value the first and last
//! characters are stripped, the remainder is split on `,` into exactly two
//! fields, and each field must trim and parse to a strictly positive
//! integer.  Malformed input never raises an error: it degrades to `None`,
//! meaning "no geometry requested".

use vstd::prelude::*;

verus! {

use crate::text::{matches_at, chars_of, find_char_from, find_pat_from, match_at, copy_range};

/// A Unicode whitespace character (the White_Space set, as `str::trim`
/// counts it), ignored around a numeric field.
pub open spec fn is_space(c: char) -> bool {
    let u = c as u32;
    (9 <= u && u <= 13) || u == 32 || u == 0x85 || u == 0xA0 || u == 0x1680 || (0x2000 <= u && u
        <= 0x200A) || u == 0x2028 || u == 0x2029 || u == 0x202F || u == 0x205F || u == 0x3000
}

/// An ASCII decimal digit.
pub open spec fn is_digit(c: char) -> bool {
    48 <= c as u32 <= 57
}

/// The value of a digit string read in base ten; meaningful when every
/// character is a digit.
pub open spec fn digits_val(s: Seq<char>) -> int
    decreases s.len(),
{
    if s.len() == 0 {
        0
    } else {
        digits_val(s.drop_last()) * 10 + (s.last() as u32) - 48
    }
}

/// `s` with leading whitespace removed.
pub open spec fn trim_left(s: Seq<char>) -> Seq<char>
    decreases s.len(),
{
    if s.len() > 0 && is_space(s[0]) {
        trim_left(s.drop_first())
    } else {
        s
    }
}

/// `s` with trailing whitespace removed.
pub open spec fn trim_right(s: Seq<char>) -> Seq<char>
    decreases s.len(),
{
    if s.len() > 0 && is_space(s.last()) {
        trim_right(s.drop_last())
    } else {
        s
    }
}

/// `s` with surrounding whitespace removed.
pub open spec fn trim_spec(s: Seq<char>) -> Seq<char> {
    trim_right(trim_left(s))
}

/// Every character of `s` is a decimal digit.
pub open spec fn all_digits(s: Seq<char>) -> bool {
    forall|k: int| 0 <= k < s.len() ==> is_digit(s[k])
}

/// What parsing `s` as an unsigned 32-bit integer yields: an optional
/// leading `+`, then at least one digit, no other characters, and a value
/// that fits.
pub open spec fn parse_u32_spec(s: Seq<char>) -> Option<u32> {
    let digits = if s.len() > 0 && s[0] == '+' {
        s.drop_first()
    } else {
        s
    };
    if digits.len() == 0 {
        None
    } else if !all_digits(digits) {
        None
    } else if digits_val(digits) > 0xFFFF_FFFF {
        None
    } else {
        Some(digits_val(digits) as u32)
    }
}

/// A field that fails to parse counts as zero.
pub open spec fn parse_or_zero(s: Seq<char>) -> u32 {
    match parse_u32_spec(s) {
        Some(v) => v,
        None => 0,
    }
}

/// `s` split on the separator character, keeping empty pieces, as
/// `str::split` does.  The result always has at least one piece.
pub open spec fn split_on(s: Seq<char>, sep: char) -> Seq<Seq<char>>
    decreases s.len(),
{
    if s.len() == 0 {
        seq![s]
    } else if s[0] == sep {
        seq![Seq::<char>::empty()] + split_on(s.drop_first(), sep)
    } else {
        let rest = split_on(s.drop_first(), sep);
        seq![seq![s[0]] + rest[0]] + rest.drop_first()
    }
}

/// Index of the first occurrence of `pat` in `s`, if any.
pub open spec fn find_pat_spec(s: Seq<char>, pat: Seq<char>) -> Option<int>
    decreases s.len(),
{
    if pat.len() == 0 {
        Some(0)
    } else if s.len() < pat.len() {
        None
    } else if matches_at(s, pat, 0) {
        Some(0)
    } else {
        match find_pat_spec(s.drop_first(), pat) {
            None => None,
            Some(i) => Some(i + 1),
        }
    }
}

/// The literal marker that must open a qualifying pair.
pub open spec fn im_prefix() -> Seq<char> {
    "im=Resize="@
}

/// The token a pair is split on.
pub open spec fn resize_token() -> Seq<char> {
    "Resize="@
}

/// A pair qualifies when the piece before its first `Resize=` token is
/// exactly `im=` and a second piece exists, i.e. it opens with
/// `im=Resize=`.
pub open spec fn pair_qualifies(p: Seq<char>) -> bool {
    p.len() >= im_prefix().len() && p.take(im_prefix().len() as int) == im_prefix()
}

/// The raw size value of a qualifying pair: everything after `im=Resize=`
/// up to the next `Resize=` token, if one follows.
pub open spec fn pair_value(p: Seq<char>) -> Seq<char> {
    let tail = p.skip(im_prefix().len() as int);
    match find_pat_spec(tail, resize_token()) {
        Some(j) => tail.take(j),
        None => tail,
    }
}

/// The raw value of the first qualifying pair, if any.
pub open spec fn first_qualifying_value(pairs: Seq<Seq<char>>) -> Option<Seq<char>>
    decreases pairs.len(),
{
    if pairs.len() == 0 {
        None
    } else if pair_qualifies(pairs[0]) {
        Some(pair_value(pairs[0]))
    } else {
        first_qualifying_value(pairs.drop_first())
    }
}

/// Geometry read from a raw size value: strip the first and last
/// characters (the expected parentheses), split on `,` into exactly two
/// fields, and require both to parse to strictly positive integers.
pub open spec fn geometry_of_value(v: Seq<char>) -> Option<(u32, u32)> {
    if v.len() < 2 {
        None
    } else {
        let inner = v.subrange(1, v.len() - 1);
        let fields = split_on(inner, ',');
        if fields.len() != 2 {
            None
        } else {
            let w = parse_or_zero(trim_spec(fields[0]));
            let h = parse_or_zero(trim_spec(fields[1]));
            if w == 0 || h == 0 {
                None
            } else {
                Some((w, h))
            }
        }
    }
}

/// The desired geometry named by a query string, if any.
pub open spec fn geometry_of_query(q: Seq<char>) -> Option<(u32, u32)> {
    match first_qualifying_value(split_on(q, '&')) {
        None => None,
        Some(v) => geometry_of_value(v),
    }
}

// ------------------------------------------------------------------
// Proofs connecting the recursive specifications to first-occurrence
// scanning, the shape the executable code takes.
// ------------------------------------------------------------------

/// Shifting an occurrence across the first character.
proof fn lemma_matches_shift(s: Seq<char>, pat: Seq<char>, k: int)
    requires
        s.len() >= 1,
        k >= 0,
    ensures
        matches_at(s.drop_first(), pat, k) == matches_at(s, pat, k + 1),
{
    if 0 <= k && k + pat.len() <= s.drop_first().len() {
        assert(s.drop_first().subrange(k, k + pat.len() as int) =~= s.subrange(
            k + 1,
            k + 1 + pat.len() as int,
        ));
    }
}

/// `find_pat_spec` returns the first occurrence of the pattern.
proof fn lemma_find_pat_spec(s: Seq<char>, pat: Seq<char>)
    requires
        pat.len() >= 1,
    ensures
        match find_pat_spec(s, pat) {
            Some(j) => matches_at(s, pat, j) && forall|k: int| 0 <= k < j ==> !matches_at(s, pat, k),
            None => forall|k: int| !matches_at(s, pat, k),
        },
    decreases s.len(),
{
    if s.len() < pat.len() {
        assert forall|k: int| !matches_at(s, pat, k) by {}
    } else if matches_at(s, pat, 0) {
    } else {
        lemma_find_pat_spec(s.drop_first(), pat);
        assert forall|k: int| k >= 0 implies matches_at(s.drop_first(), pat, k) == matches_at(
            s,
            pat,
            k + 1,
        ) by {
            lemma_matches_shift(s, pat, k);
        }
        match find_pat_spec(s.drop_first(), pat) {
            None => {
                assert forall|k: int| !matches_at(s, pat, k) by {
                    if k >= 1 {
                        assert(!matches_at(s.drop_first(), pat, k - 1));
                    }
                }
            },
            Some(i) => {
                assert(matches_at(s, pat, i + 1));
                assert forall|k: int| 0 <= k < i + 1 implies !matches_at(s, pat, k) by {
                    if k >= 1 {
                        assert(!matches_at(s.drop_first(), pat, k - 1));
                    }
                }
            },
        }
    }
}

/// A first occurrence pins `find_pat_spec` down.
proof fn lemma_find_pat_agree(s: Seq<char>, pat: Seq<char>, r: Option<int>)
    requires
        pat.len() >= 1,
        match r {
            Some(j) => matches_at(s, pat, j) && forall|k: int| 0 <= k < j ==> !matches_at(s, pat, k),
            None => forall|k: int| !matches_at(s, pat, k),
        },
    ensures
        find_pat_spec(s, pat) == r,
{
    lemma_find_pat_spec(s, pat);
    match r {
        Some(j) => {
            match find_pat_spec(s, pat) {
                Some(i) => {
                    if i < j {
                        assert(!matches_at(s, pat, i));
                    } else if j < i {
                        assert(!matches_at(s, pat, j));
                    }
                },
                None => {
                    assert(!matches_at(s, pat, j));
                },
            }
        },
        None => {
            match find_pat_spec(s, pat) {
                Some(i) => {
                    assert(!matches_at(s, pat, i));
                },
                None => {},
            }
        },
    }
}

/// Splitting at the first separator occurrence peels off one piece.
proof fn lemma_split_on_first(s: Seq<char>, sep: char, a: int)
    requires
        0 <= a <= s.len(),
        forall|k: int| 0 <= k < a ==> s[k] != sep,
        a < s.len() ==> s[a] == sep,
    ensures
        a < s.len() ==> split_on(s, sep) == seq![s.take(a)] + split_on(s.skip(a + 1), sep),
        a == s.len() ==> split_on(s, sep) == seq![s],
    decreases a,
{
    if a == 0 {
        if a < s.len() {
            assert(s[0] == sep);
            assert(s.take(0) =~= Seq::<char>::empty());
            assert(s.skip(1) =~= s.drop_first());
            assert(split_on(s, sep) == seq![s.take(0)] + split_on(s.skip(1), sep));
        } else {
            assert(s.len() == 0);
        }
    } else {
        assert(s[0] != sep);
        let d = s.drop_first();
        lemma_split_on_first(d, sep, a - 1);
        let rest = split_on(d, sep);
        if a < s.len() {
            assert(rest == seq![d.take(a - 1)] + split_on(d.skip(a), sep));
            assert(rest[0] == d.take(a - 1));
            assert(seq![s[0]] + d.take(a - 1) =~= s.take(a));
            assert(rest.drop_first() =~= split_on(d.skip(a), sep));
            assert(d.skip(a) =~= s.skip(a + 1));
            assert(split_on(s, sep) == seq![seq![s[0]] + rest[0]] + rest.drop_first());
            assert(seq![s.take(a)] + split_on(s.skip(a + 1), sep) =~= seq![seq![s[0]] + rest[0]]
                + rest.drop_first());
        } else {
            assert(rest == seq![d]);
            assert(rest[0] == d);
            assert(seq![s[0]] + d =~= s);
            assert(rest.drop_first() =~= Seq::<Seq<char>>::empty());
            assert(split_on(s, sep) == seq![seq![s[0]] + rest[0]] + rest.drop_first());
            assert(split_on(s, sep) =~= seq![s]);
        }
    }
}

/// Every split has at least one piece.
proof fn lemma_split_on_len(s: Seq<char>, sep: char)
    ensures
        split_on(s, sep).len() >= 1,
    decreases s.len(),
{
    if s.len() == 0 {
    } else if s[0] == sep {
        lemma_split_on_len(s.drop_first(), sep);
    } else {
        lemma_split_on_len(s.drop_first(), sep);
    }
}

/// Dropping whitespace on the left reaches the first non-space index.
proof fn lemma_trim_left_skip(s: Seq<char>, lo: int)
    requires
        0 <= lo <= s.len(),
        forall|k: int| 0 <= k < lo ==> is_space(s[k]),
        lo < s.len() ==> !is_space(s[lo]),
    ensures
        trim_left(s) == s.skip(lo),
    decreases lo,
{
    if lo == 0 {
        assert(s.skip(0) =~= s);
    } else {
        assert(is_space(s[0]));
        lemma_trim_left_skip(s.drop_first(), lo - 1);
        assert(s.drop_first().skip(lo - 1) =~= s.skip(lo));
    }
}

/// Dropping whitespace on the right reaches the last non-space index.
proof fn lemma_trim_right_take(s: Seq<char>, hi: int)
    requires
        0 <= hi <= s.len(),
        forall|k: int| hi <= k < s.len() ==> is_space(s[k]),
        hi > 0 ==> !is_space(s[hi - 1]),
    ensures
        trim_right(s) == s.take(hi),
    decreases s.len(),
{
    if hi == s.len() {
        if s.len() > 0 && is_space(s.last()) {
            assert(false);
        }
        assert(s.take(hi) =~= s);
    } else {
        assert(is_space(s.last()));
        lemma_trim_right_take(s.drop_last(), hi);
        assert(s.drop_last().take(hi) =~= s.take(hi));
    }
}

/// A digit string is worth at least its prefix.
proof fn lemma_digits_val_nonneg(s: Seq<char>)
    requires
        forall|k: int| 0 <= k < s.len() ==> is_digit(s[k]),
    ensures
        digits_val(s) >= 0,
    decreases s.len(),
{
    if s.len() > 0 {
        lemma_digits_val_nonneg(s.drop_last());
        assert(is_digit(s.last()));
    }
}

/// Extending a digit string never lowers its value.
proof fn lemma_digits_val_mono(s: Seq<char>, i: int)
    requires
        0 <= i <= s.len(),
        forall|k: int| 0 <= k < s.len() ==> is_digit(s[k]),
    ensures
        digits_val(s) >= digits_val(s.take(i)),
    decreases s.len() - i,
{
    if i == s.len() {
        assert(s.take(i) =~= s);
    } else {
        assert(s.take(i + 1).drop_last() =~= s.take(i));
        assert(s.take(i + 1).last() == s[i]);
        assert(forall|k: int| 0 <= k < s.take(i).len() ==> is_digit(s.take(i)[k]));
        lemma_digits_val_nonneg(s.take(i));
        assert(is_digit(s[i]));
        assert(digits_val(s.take(i + 1)) == digits_val(s.take(i)) * 10 + (s[i] as u32) - 48);
        lemma_digits_val_mono(s, i + 1);
    }
}

/// The first qualifying value comes from some qualifying pair; with no
/// qualifying pair there is no value.
proof fn lemma_fqv_witness(pairs: Seq<Seq<char>>)
    ensures
        match first_qualifying_value(pairs) {
            Some(v) => exists|p: int|
                0 <= p < pairs.len() && pair_qualifies(#[trigger] pairs[p]) && pair_value(pairs[p])
                    == v,
            None => forall|p: int| 0 <= p < pairs.len() ==> !pair_qualifies(#[trigger] pairs[p]),
        },
    decreases pairs.len(),
{
    if pairs.len() == 0 {
    } else if pair_qualifies(pairs[0]) {
        assert(pair_qualifies(pairs[0]) && pair_value(pairs[0]) == first_qualifying_value(
            pairs,
        ).unwrap());
    } else {
        lemma_fqv_witness(pairs.drop_first());
        match first_qualifying_value(pairs.drop_first()) {
            Some(v) => {
                let p = choose|p: int|
                    0 <= p < pairs.drop_first().len() && pair_qualifies(
                        #[trigger] pairs.drop_first()[p],
                    ) && pair_value(pairs.drop_first()[p]) == v;
                assert(pairs[p + 1] == pairs.drop_first()[p]);
                assert(pair_qualifies(pairs[p + 1]) && pair_value(pairs[p + 1]) == v);
            },
            None => {
                assert forall|p: int| 0 <= p < pairs.len() implies !pair_qualifies(pairs[p]) by {
                    if p >= 1 {
                        assert(pairs.drop_first()[p - 1] == pairs[p]);
                        assert(!pair_qualifies(pairs.drop_first()[p - 1]));
                    }
                }
            },
        }
    }
}

/// A query string yields a geometry only when one of its `&`-separated
/// pairs qualifies (opens with `im=Resize=`) and that pair's value reads
/// as two strictly positive dimensions; and any geometry it yields is
/// strictly positive.
pub proof fn lemma_geometry_requires_valid_pair(q: Seq<char>)
    ensures
        geometry_of_query(q) matches Some(g) ==> exists|p: int|
            0 <= p < split_on(q, '&').len() && pair_qualifies(#[trigger] split_on(q, '&')[p])
                && geometry_of_value(pair_value(split_on(q, '&')[p])) == Some(g),
        geometry_of_query(q) matches Some(g) ==> g.0 >= 1 && g.1 >= 1,
{
    let pairs = split_on(q, '&');
    lemma_fqv_witness(pairs);
    match first_qualifying_value(pairs) {
        Some(v) => {
            match geometry_of_query(q) {
                Some(g) => {
                    let p = choose|p: int|
                        0 <= p < pairs.len() && pair_qualifies(#[trigger] pairs[p]) && pair_value(
                            pairs[p],
                        ) == v;
                    assert(geometry_of_value(pair_value(pairs[p])) == Some(g));
                },
                None => {},
            }
        },
        None => {},
    }
}

// ------------------------------------------------------------------
// Executable extraction.
// ------------------------------------------------------------------

fn is_space_exec(c: char) -> (r: bool)
    ensures
        r == is_space(c),
{
    let u = c as u32;
    (9 <= u && u <= 13) || u == 32 || u == 0x85 || u == 0xA0 || u == 0x1680 || (0x2000 <= u && u
        <= 0x200A) || u == 0x2028 || u == 0x2029 || u == 0x202F || u == 0x205F || u == 0x3000
}

/// Parse one numeric field: trim surrounding whitespace, then read an
/// unsigned integer; anything malformed counts as zero.
fn parse_field(v: &Vec<char>) -> (r: u32)
    ensures
        r == parse_or_zero(trim_spec(v@)),
{
    let n = v.len();
    let mut lo: usize = 0;
    while lo < n && is_space_exec(v[lo])
        invariant
            lo <= n,
            n == v@.len(),
            forall|k: int| 0 <= k < lo ==> is_space(v@[k]),
        decreases n - lo,
    {
        lo = lo + 1;
    }
    let mut hi: usize = n;
    while hi > lo && is_space_exec(v[hi - 1])
        invariant
            lo <= hi <= n,
            n == v@.len(),
            forall|k: int| hi <= k < n ==> is_space(v@[k]),
        decreases hi,
    {
        hi = hi - 1;
    }
    proof {
        lemma_trim_left_skip(v@, lo as int);
        lemma_trim_right_take(v@.skip(lo as int), hi - lo);
        assert(v@.skip(lo as int).take(hi - lo) =~= v@.subrange(lo as int, hi as int));
    }
    let t = copy_range(v, lo, hi);
    parse_u32_or_zero(&t)
}

/// Read an unsigned integer: an optional leading `+`, then digits only,
/// fitting in 32 bits; anything else counts as zero.
fn parse_u32_or_zero(d: &Vec<char>) -> (r: u32)
    ensures
        r == parse_or_zero(d@),
{
    let ghost digits: Seq<char> = if d@.len() > 0 && d@[0] == '+' {
        d@.drop_first()
    } else {
        d@
    };
    let n = d.len();
    let start: usize = if n > 0 && d[0] == '+' {
        1
    } else {
        0
    };
    proof {
        assert(digits =~= d@.subrange(start as int, n as int));
    }
    if n == start {
        assert(digits.len() == 0);
        return 0;
    }
    let mut acc: u64 = 0;
    let mut i: usize = start;
    while i < n
        invariant
            start <= i <= n,
            n == d@.len(),
            digits == (if d@.len() > 0 && d@[0] == '+' {
                d@.drop_first()
            } else {
                d@
            }),
            digits =~= d@.subrange(start as int, n as int),
            forall|k: int| 0 <= k < i - start ==> is_digit(digits[k]),
            acc as int == digits_val(digits.take(i - start)),
            acc <= 0xFFFF_FFFF,
        decreases n - i,
    {
        let c = d[i];
        let u = c as u32;
        proof {
            assert(digits[i - start] == d@[i as int]);
        }
        if u < 48 || u > 57 {
            proof {
                assert(0 <= i - start < digits.len());
                assert(!is_digit(digits[i - start]));
                assert(!all_digits(digits));
                assert(parse_u32_spec(d@) is None);
            }
            return 0;
        }
        let na: u64 = acc * 10 + ((u - 48) as u64);
        proof {
            let j = i - start;
            assert(digits.take(j + 1).drop_last() =~= digits.take(j as int));
            assert(digits.take(j + 1).last() == digits[j as int]);
            assert(digits_val(digits.take(j + 1)) == digits_val(digits.take(j as int)) * 10 + (
            digits[j as int] as u32) - 48);
        }
        if na > 0xFFFF_FFFF {
            proof {
                if all_digits(digits) {
                    lemma_digits_val_mono(digits, i - start + 1);
                    assert(digits_val(digits) > 0xFFFF_FFFF);
                    assert(parse_u32_spec(d@) is None);
                } else {
                    assert(parse_u32_spec(d@) is None);
                }
            }
            return 0;
        }
        acc = na;
        i = i + 1;
    }
    proof {
        assert(digits.take(n - start) =~= digits);
        assert(digits.len() > 0);
        assert(all_digits(digits));
        assert(parse_u32_spec(d@) == Some(digits_val(digits) as u32));
    }
    acc as u32
}

/// Geometry read from a raw size value.
fn geometry_value_exec(value: &Vec<char>) -> (r: Option<(u32, u32)>)
    ensures
        r == geometry_of_value(value@),
{
    let n = value.len();
    if n < 2 {
        return None;
    }
    let inner = copy_range(value, 1, n - 1);
    let ghost inner_s = value@.subrange(1, n - 1);
    let c1 = find_char_from(&inner, 0, ',');
    match c1 {
        None => {
            proof {
                lemma_split_on_first(inner_s, ',', inner_s.len() as int);
            }
            None
        },
        Some(i) => {
            proof {
                lemma_split_on_first(inner_s, ',', i as int);
            }
            let c2 = find_char_from(&inner, i + 1, ',');
            match c2 {
                Some(j) => {
                    proof {
                        let rest = inner_s.skip(i + 1);
                        assert(rest[j - i - 1] == inner_s[j as int]);
                        assert forall|k: int| 0 <= k < j - i - 1 implies rest[k] != ',' by {
                            assert(rest[k] == inner_s[k + i + 1]);
                        }
                        lemma_split_on_first(rest, ',', j - i - 1);
                        lemma_split_on_len(rest.skip(j - i), ',');
                        assert(split_on(inner_s, ',').len() >= 3);
                    }
                    None
                },
                None => {
                    proof {
                        let rest = inner_s.skip(i + 1);
                        assert forall|k: int| 0 <= k < rest.len() implies rest[k] != ',' by {
                            assert(rest[k] == inner_s[k + i + 1]);
                        }
                        lemma_split_on_first(rest, ',', rest.len() as int);
                        assert(split_on(inner_s, ',') =~= seq![inner_s.take(i as int), rest]);
                    }
                    let f0 = copy_range(&inner, 0, i);
                    let f1 = copy_range(&inner, i + 1, inner.len());
                    proof {
                        assert(f0@ =~= inner_s.take(i as int));
                        assert(f1@ =~= inner_s.skip(i + 1));
                    }
                    let w = parse_field(&f0);
                    let h = parse_field(&f1);
                    if w == 0 || h == 0 {
                        None
                    } else {
                        Some((w, h))
                    }
                },
            }
        },
    }
}

/// Extract the desired geometry from the query string; the first pair
/// shaped `im=Resize=(W,H)` wins, and malformed input degrades to `None`.
pub fn extract_geometry(uri_string: String) -> (r: Option<(u32, u32)>)
    ensures
        r == geometry_of_query(uri_string@),
{
    let q = chars_of(uri_string.as_str());
    let prefix = chars_of("im=Resize=");
    let token = chars_of("Resize=");
    proof {
        reveal_strlit("im=Resize=");
        reveal_strlit("Resize=");
        assert(prefix@.len() == 10);
        assert(token@.len() == 7);
    }
    let ghost qs = q@;
    let mut from: usize = 0;
    proof {
        assert(qs.skip(0) =~= qs);
    }
    loop
        invariant
            from <= qs.len(),
            qs == q@,
            qs == uri_string@,
            prefix@ == im_prefix(),
            token@ == resize_token(),
            prefix@.len() == 10,
            token@.len() == 7,
            geometry_of_query(uri_string@) == match first_qualifying_value(
                split_on(qs.skip(from as int), '&'),
            ) {
                None => None,
                Some(v) => geometry_of_value(v),
            },
        decreases qs.len() - from,
    {
        let ghost tail = qs.skip(from as int);
        let a_opt = find_char_from(&q, from, '&');
        let a: usize = match a_opt {
            Some(x) => x,
            None => q.len(),
        };
        proof {
            assert forall|k: int| 0 <= k < a - from implies tail[k] != '&' by {
                assert(tail[k] == qs[k + from]);
            }
            if a < qs.len() {
                assert(tail[a - from] == qs[a as int]);
            }
            lemma_split_on_first(tail, '&', a - from);
        }
        let ghost pair = tail.take(a - from);
        let qualifies: bool = if a - from >= prefix.len() {
            match_at(&q, &prefix, from)
        } else {
            false
        };
        proof {
            if a - from >= 10 {
                assert(pair.take(10) =~= qs.subrange(from as int, from + 10));
                assert(matches_at(qs, prefix@, from as int) == (qs.subrange(from as int, from + 10)
                    == im_prefix()));
            }
            assert(qualifies == pair_qualifies(pair));
        }
        if qualifies {
            let tail_v = copy_range(&q, from + prefix.len(), a);
            proof {
                assert(tail_v@ =~= pair.skip(10));
            }
            let j_opt = find_pat_from(&tail_v, 0, &token);
            let value = match j_opt {
                Some(j) => copy_range(&tail_v, 0, j),
                None => tail_v,
            };
            proof {
                match j_opt {
                    Some(j) => {
                        lemma_find_pat_agree(pair.skip(10), resize_token(), Some(j as int));
                        assert(value@ =~= pair.skip(10).take(j as int));
                    },
                    None => {
                        lemma_find_pat_agree(pair.skip(10), resize_token(), None);
                    },
                }
                assert(value@ == pair_value(pair));
                if a < q.len() {
                    assert(split_on(tail, '&') == seq![pair] + split_on(
                        tail.skip(a - from + 1),
                        '&',
                    ));
                    assert(split_on(tail, '&')[0] == pair);
                } else {
                    assert(a - from == tail.len());
                    assert(pair =~= tail);
                    assert(split_on(tail, '&') == seq![tail]);
                    assert(split_on(tail, '&')[0] == pair);
                }
                assert(first_qualifying_value(split_on(tail, '&')) == Some(pair_value(pair)));
            }
            return geometry_value_exec(&value);
        } else if a < q.len() {
            proof {
                assert(split_on(tail, '&') == seq![pair] + split_on(tail.skip(a - from + 1), '&'));
                assert((seq![pair] + split_on(tail.skip(a - from + 1), '&'))[0] == pair);
                assert((seq![pair] + split_on(tail.skip(a - from + 1), '&')).drop_first()
                    =~= split_on(tail.skip(a - from + 1), '&'));
                lemma_split_on_len(tail.skip(a - from + 1), '&');
                assert(tail.skip(a - from + 1) =~= qs.skip(a + 1));
            }
            from = a + 1;
        } else {
            proof {
                assert(a - from == tail.len());
                assert(split_on(tail, '&') == seq![tail]);
                assert(pair =~= tail);
                assert(seq![tail].drop_first() =~= Seq::<Seq<char>>::empty());
                assert(first_qualifying_value(Seq::<Seq<char>>::empty()) is None);
                assert(first_qualifying_value(seq![tail]) is None);
            }
            return None;
        }
    }
}

} // verus!
