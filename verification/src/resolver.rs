//! Upstream URL resolution: match the request path, in its entirety,
//! against the ordered rule table (first match wins) and build the
//! upstream URL by alternating the template's literal fragments with the
//! captured groups, positionally, truncating at the shorter sequence.
//!
//! Pattern matching itself is done by the `regex` crate behind a trusted
//! wrapper; the template splitting and interleaving are verified.

use vstd::prelude::*;

verus! {

use crate::config::Upstreams;
use crate::errors::PipelineError;
use crate::text::chars_of;
use vstd::string::StrSliceExecFns;

/// Whether a rule pattern, anchored to cover the whole text, compiles
/// as a regular expression.
pub uninterp spec fn regex_pattern_ok(pattern: Seq<char>) -> bool;

/// The capture groups (group 0, the whole match, excluded) of the match
/// of `pattern` against the entirety of `text`, or `None` when the
/// pattern does not match the whole text.
pub uninterp spec fn regex_caps_of(pattern: Seq<char>, text: Seq<char>) -> Option<Seq<Seq<char>>>;

#[verifier::external_type_specification]
#[verifier::external_body]
pub struct ExRegexError(regex::Error);

/// Relies on `regex::Regex::new` for pattern compilation and
/// `regex::Regex::captures` for the capture groups.  The pattern is
/// wrapped in `^(?:...)$` first, so only a match of the entire text
/// counts; the groups, full match excluded and non-participating groups
/// skipped, are handed out as plain strings.
#[verifier::external_body]
fn regex_captures(pattern: &str, text: &str) -> (r: Result<Option<Vec<String>>, regex::Error>)
    ensures
        match r {
            Err(_) => !regex_pattern_ok(pattern@),
            Ok(None) => regex_pattern_ok(pattern@) && regex_caps_of(pattern@, text@) is None,
            Ok(Some(g)) => regex_pattern_ok(pattern@) && regex_caps_of(pattern@, text@) == Some(
                g.deep_view(),
            ),
        },
{
    let anchored = format!("^(?:{})$", pattern);
    match regex::Regex::new(&anchored) {
        Err(e) => Err(e),
        Ok(re) => match re.captures(text) {
            None => Ok(None),
            Some(caps) => Ok(
                Some(caps.iter().flatten().skip(1).map(|m| m.as_str().to_string()).collect()),
            ),
        },
    }
}

/// A `{}` placeholder opens at index `k` of `s`.
pub open spec fn is_ph_at(s: Seq<char>, k: int) -> bool {
    0 <= k && k + 2 <= s.len() && s[k] == '{' && s[k + 1] == '}'
}

/// The literal fragments of a template, split on `{}` placeholders; a
/// template with N placeholders yields N+1 fragments.
pub open spec fn split_placeholders(t: Seq<char>) -> Seq<Seq<char>>
    decreases t.len(),
{
    if t.len() < 2 {
        seq![t]
    } else if t[0] == '{' && t[1] == '}' {
        seq![Seq::<char>::empty()] + split_placeholders(t.skip(2))
    } else {
        let rest = split_placeholders(t.drop_first());
        seq![seq![t[0]] + rest[0]] + rest.drop_first()
    }
}

/// Fragments and captures alternated positionally — fragment, capture,
/// fragment, capture, ... — stopping as soon as the next needed element
/// is missing from either sequence.
pub open spec fn interleave(frags: Seq<Seq<char>>, caps: Seq<Seq<char>>) -> Seq<char>
    decreases frags.len(),
{
    if frags.len() == 0 {
        Seq::empty()
    } else if caps.len() == 0 {
        frags[0]
    } else if frags.len() == 1 {
        frags[0] + caps[0]
    } else {
        frags[0] + caps[0] + interleave(frags.drop_first(), caps.drop_first())
    }
}

/// Captures beyond one per fragment are silently dropped: the
/// interleaving only ever reads the first N+1 captures of an
/// N-placeholder template.
pub proof fn lemma_interleave_drops_extra_captures(frags: Seq<Seq<char>>, caps: Seq<Seq<char>>)
    requires
        frags.len() >= 1,
        caps.len() >= frags.len(),
    ensures
        interleave(frags, caps) == interleave(frags, caps.take(frags.len() as int)),
    decreases frags.len(),
{
    if frags.len() == 1 {
        assert(caps.take(1)[0] == caps[0]);
    } else {
        lemma_interleave_drops_extra_captures(frags.drop_first(), caps.drop_first());
        assert(caps.drop_first().take(frags.len() - 1) =~= caps.take(
            frags.len() as int,
        ).drop_first());
        assert(caps.take(frags.len() as int)[0] == caps[0]);
    }
}

/// With fewer captures than placeholders, trailing fragments are
/// silently dropped: only the first K+1 fragments are ever read when K
/// captures are available.
pub proof fn lemma_interleave_drops_extra_fragments(frags: Seq<Seq<char>>, caps: Seq<Seq<char>>)
    requires
        caps.len() + 1 <= frags.len(),
    ensures
        interleave(frags, caps) == interleave(frags.take(caps.len() + 1 as int), caps),
    decreases frags.len(),
{
    if caps.len() == 0 {
        assert(frags.take(1)[0] == frags[0]);
    } else {
        lemma_interleave_drops_extra_fragments(frags.drop_first(), caps.drop_first());
        assert(frags.drop_first().take(caps.len() as int) =~= frags.take(
            caps.len() + 1 as int,
        ).drop_first());
        assert(frags.take(caps.len() + 1 as int)[0] == frags[0]);
    }
}

/// Peeling the first placeholder off a template.
proof fn lemma_split_ph_first(s: Seq<char>, a: int)
    requires
        0 <= a <= s.len(),
        forall|k: int| 0 <= k < a ==> !is_ph_at(s, k),
        a < s.len() ==> is_ph_at(s, a),
    ensures
        a < s.len() ==> split_placeholders(s) == seq![s.take(a)] + split_placeholders(s.skip(a + 2)),
        a == s.len() ==> split_placeholders(s) == seq![s],
    decreases a,
{
    if a == 0 {
        if a < s.len() {
            assert(is_ph_at(s, 0));
            assert(s.take(0) =~= Seq::<char>::empty());
            assert(split_placeholders(s) == seq![s.take(0)] + split_placeholders(s.skip(2)));
        } else {
            assert(s.len() == 0);
        }
    } else {
        assert(!is_ph_at(s, 0));
        if s.len() < 2 {
            assert(a == s.len());
            assert(split_placeholders(s) == seq![s]);
        } else {
            assert(!(s[0] == '{' && s[1] == '}'));
            let d = s.drop_first();
            assert forall|k: int| 0 <= k implies is_ph_at(d, k) == is_ph_at(s, k + 1) by {
                if 0 <= k && k + 2 <= d.len() {
                    assert(d[k] == s[k + 1]);
                    assert(d[k + 1] == s[k + 2]);
                }
            }
            lemma_split_ph_first(d, a - 1);
            let rest = split_placeholders(d);
            if a < s.len() {
                assert(rest == seq![d.take(a - 1)] + split_placeholders(d.skip(a + 1)));
                assert(rest[0] == d.take(a - 1));
                assert(seq![s[0]] + d.take(a - 1) =~= s.take(a));
                assert(rest.drop_first() =~= split_placeholders(d.skip(a + 1)));
                assert(d.skip(a + 1) =~= s.skip(a + 2));
                assert(split_placeholders(s) == seq![seq![s[0]] + rest[0]] + rest.drop_first());
                assert(seq![s.take(a)] + split_placeholders(s.skip(a + 2)) =~= seq![seq![s[0]]
                    + rest[0]] + rest.drop_first());
            } else {
                assert(rest == seq![d]);
                assert(rest[0] == d);
                assert(seq![s[0]] + d =~= s);
                assert(rest.drop_first() =~= Seq::<Seq<char>>::empty());
                assert(split_placeholders(s) == seq![seq![s[0]] + rest[0]] + rest.drop_first());
                assert(split_placeholders(s) =~= seq![s]);
            }
        }
    }
}

/// First placeholder at or after `from`.
fn find_ph_from(v: &Vec<char>, from: usize) -> (r: Option<usize>)
    requires
        from <= v@.len(),
    ensures
        match r {
            Some(j) => from <= j && is_ph_at(v@, j as int) && forall|k: int|
                from <= k < j ==> !is_ph_at(v@, k),
            None => forall|k: int| from <= k ==> !is_ph_at(v@, k),
        },
{
    let n = v.len();
    if n < 2 {
        return None;
    }
    let mut i: usize = from;
    while i <= n - 2
        invariant
            from <= i,
            i <= n,
            n == v@.len(),
            n >= 2,
            forall|k: int| from <= k < i ==> !is_ph_at(v@, k),
        decreases n - i,
    {
        if v[i] == '{' && v[i + 1] == '}' {
            return Some(i);
        }
        i = i + 1;
    }
    proof {
        assert forall|k: int| from <= k implies !is_ph_at(v@, k) by {
            if k < i {
            } else {
                assert(k + 2 > n);
            }
        }
    }
    None
}

/// The literal fragments of a template, in order.
fn split_template(t: &str) -> (r: Vec<String>)
    ensures
        r.deep_view() == split_placeholders(t@),
        r@.len() >= 1,
{
    let tv = chars_of(t);
    let n = tv.len();
    let mut frags: Vec<String> = Vec::new();
    let mut from: usize = 0;
    proof {
        assert(t@.skip(0) =~= t@);
        assert(frags.deep_view() + split_placeholders(t@.skip(0)) =~= split_placeholders(t@));
    }
    loop
        invariant
            from <= n,
            n == t@.len(),
            tv@ == t@,
            split_placeholders(t@) == frags.deep_view() + split_placeholders(t@.skip(from as int)),
        decreases n - from,
    {
        let ghost tail = t@.skip(from as int);
        let a_opt = find_ph_from(&tv, from);
        match a_opt {
            Some(a) => {
                proof {
                    assert forall|k: int| 0 <= k < a - from implies !is_ph_at(tail, k) by {
                        assert(tail[k] == t@[k + from]);
                        if k + 2 <= tail.len() {
                            assert(tail[k + 1] == t@[k + 1 + from]);
                            assert(is_ph_at(tail, k) == is_ph_at(t@, k + from));
                        }
                    }
                    assert(tail[a - from] == t@[a as int]);
                    assert(tail[a - from + 1] == t@[a + 1]);
                    assert(is_ph_at(tail, a - from));
                    lemma_split_ph_first(tail, a - from);
                }
                let piece = t.substring_char(from, a);
                frags.push(String::from_str(piece));
                proof {
                    assert(piece@ =~= tail.take(a - from));
                    assert(frags.deep_view() =~= frags.deep_view().drop_last() + seq![
                        tail.take(a - from),
                    ]);
                    assert(tail.skip(a - from + 2) =~= t@.skip(a + 2));
                    assert(split_placeholders(t@) =~= frags.deep_view() + split_placeholders(
                        t@.skip(a + 2),
                    ));
                }
                from = a + 2;
            },
            None => {
                proof {
                    assert forall|k: int| 0 <= k implies !is_ph_at(tail, k) by {
                        if k + 2 <= tail.len() {
                            assert(tail[k] == t@[k + from]);
                            assert(tail[k + 1] == t@[k + 1 + from]);
                            assert(is_ph_at(t@, k + from) == is_ph_at(tail, k));
                        }
                    }
                    lemma_split_ph_first(tail, tail.len() as int);
                }
                let piece = t.substring_char(from, n);
                frags.push(String::from_str(piece));
                proof {
                    assert(piece@ =~= tail);
                    assert(frags.deep_view() =~= frags.deep_view().drop_last() + seq![tail]);
                    assert(split_placeholders(t@) =~= frags.deep_view());
                }
                return frags;
            },
        }
    }
}

/// Interleave fragments and captures from position `i` on.
fn interleave_from(frags: &Vec<String>, caps: &Vec<String>, i: usize) -> (r: String)
    requires
        i < frags@.len(),
        i <= caps@.len(),
    ensures
        r@ == interleave(frags.deep_view().skip(i as int), caps.deep_view().skip(i as int)),
    decreases frags@.len() - i,
{
    let ghost fs = frags.deep_view().skip(i as int);
    let ghost cs = caps.deep_view().skip(i as int);
    proof {
        assert(fs.len() == frags@.len() - i);
        assert(cs.len() == caps@.len() - i);
        assert(fs[0] == frags.deep_view()[i as int]);
    }
    if i >= caps.len() {
        let r = frags[i].clone();
        proof {
            assert(r@ == frags.deep_view()[i as int]);
        }
        r
    } else if i >= frags.len() - 1 {
        let mut out = frags[i].clone();
        out.append(caps[i].as_str());
        proof {
            assert(fs.len() == 1);
            assert(cs[0] == caps.deep_view()[i as int]);
            assert(interleave(fs, cs) == fs[0] + cs[0]);
        }
        out
    } else {
        let mut out = frags[i].clone();
        out.append(caps[i].as_str());
        let rest = interleave_from(frags, caps, i + 1);
        out.append(rest.as_str());
        proof {
            assert(cs[0] == caps.deep_view()[i as int]);
            assert(fs.drop_first() =~= frags.deep_view().skip(i + 1));
            assert(cs.drop_first() =~= caps.deep_view().skip(i + 1));
            assert(interleave(fs, cs) == fs[0] + cs[0] + interleave(
                fs.drop_first(),
                cs.drop_first(),
            ));
        }
        out
    }
}

/// Build the upstream URL from a rule template and the captured groups.
pub fn resolve_template(template: &str, captures: &Vec<String>) -> (r: String)
    ensures
        r@ == interleave(split_placeholders(template@), captures.deep_view()),
{
    let frags = split_template(template);
    proof {
        assert(frags.deep_view().skip(0) =~= frags.deep_view());
        assert(captures.deep_view().skip(0) =~= captures.deep_view());
    }
    interleave_from(&frags, captures, 0)
}

/// The view of a rule table: (pattern, template) pairs.
pub open spec fn rules_view(rs: Seq<Upstreams>) -> Seq<(Seq<char>, Seq<char>)> {
    rs.map_values(|u: Upstreams| (u.path@, u.upstream@))
}

/// What resolution yields on a rule table, first match winning: the
/// interleaved URL, `None` when no rule matches, or an error for a rule
/// whose pattern does not compile before any match.
pub open spec fn resolve_spec(path: Seq<char>, rules: Seq<(Seq<char>, Seq<char>)>) -> Result<
    Option<Seq<char>>,
    (),
>
    decreases rules.len(),
{
    if rules.len() == 0 {
        Ok(None)
    } else if !regex_pattern_ok(rules[0].0) {
        Err(())
    } else {
        match regex_caps_of(rules[0].0, path) {
            Some(caps) => Ok(Some(interleave(split_placeholders(rules[0].1), caps))),
            None => resolve_spec(path, rules.drop_first()),
        }
    }
}

/// Resolve the request path against the rule table.  `Ok(None)` means no
/// rule matched (the caller answers 404); a malformed pattern fails the
/// whole resolution with an internal error.
pub fn get_upstream(uri: &str, map: &Vec<Upstreams>) -> (r: Result<Option<String>, PipelineError>)
    ensures
        match r {
            Ok(None) => resolve_spec(uri@, rules_view(map@)) == Ok::<Option<Seq<char>>, ()>(None),
            Ok(Some(u)) => resolve_spec(uri@, rules_view(map@)) == Ok::<Option<Seq<char>>, ()>(
                Some(u@),
            ),
            Err(e) => e == PipelineError::InternalError && resolve_spec(
                uri@,
                rules_view(map@),
            ) is Err,
        },
{
    let ghost rv = rules_view(map@);
    let mut i: usize = 0;
    proof {
        assert(rv.skip(0) =~= rv);
    }
    while i < map.len()
        invariant
            i <= map@.len(),
            rv == rules_view(map@),
            rv.len() == map@.len(),
            resolve_spec(uri@, rv) == resolve_spec(uri@, rv.skip(i as int)),
        decreases map@.len() - i,
    {
        proof {
            assert(rv.skip(i as int)[0] == rv[i as int]);
            assert(rv[i as int] == (map@[i as int].path@, map@[i as int].upstream@));
        }
        match regex_captures(map[i].path.as_str(), uri) {
            Err(_) => {
                return Err(PipelineError::InternalError);
            },
            Ok(Some(g)) => {
                let url = resolve_template(map[i].upstream.as_str(), &g);
                return Ok(Some(url));
            },
            Ok(None) => {
                proof {
                    assert(rv.skip(i as int).drop_first() =~= rv.skip(i + 1));
                }
            },
        }
        i = i + 1;
    }
    proof {
        assert(rv.skip(map@.len() as int) =~= Seq::<(Seq<char>, Seq<char>)>::empty());
    }
    Ok(None)
}

} // verus!
