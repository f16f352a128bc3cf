//! Response-header translation: of the upstream response headers only
//! `content-type`, `last-modified` and `etag` (last value wins) and
//! `cache-control` (every value kept, in order) are forwarded, every
//! other header is dropped, and a `vary: Accept` marker is always
//! appended.  Header names are expected in their canonical lower-case
//! form, as HTTP header maps hand them out.

use vstd::prelude::*;

verus! {

/// The views of a header list.
pub open spec fn header_views(h: Seq<(String, String)>) -> Seq<(Seq<char>, Seq<char>)> {
    h.map_values(|p: (String, String)| (p.0@, p.1@))
}

/// The last value carried for `name`, if any; later entries overwrite
/// earlier ones, as a header-map insert does.
pub open spec fn last_value_of(h: Seq<(Seq<char>, Seq<char>)>, name: Seq<char>) -> Option<
    Seq<char>,
>
    decreases h.len(),
{
    if h.len() == 0 {
        None
    } else if h.last().0 == name {
        Some(h.last().1)
    } else {
        last_value_of(h.drop_last(), name)
    }
}

/// Every value carried for `name`, in order of appearance.
pub open spec fn values_of(h: Seq<(Seq<char>, Seq<char>)>, name: Seq<char>) -> Seq<Seq<char>>
    decreases h.len(),
{
    if h.len() == 0 {
        Seq::empty()
    } else if h.last().0 == name {
        values_of(h.drop_last(), name) + seq![h.last().1]
    } else {
        values_of(h.drop_last(), name)
    }
}

/// Zero or one entry for `name`.
pub open spec fn opt_entry(name: Seq<char>, v: Option<Seq<char>>) -> Seq<(Seq<char>, Seq<char>)> {
    match v {
        Some(x) => seq![(name, x)],
        None => Seq::empty(),
    }
}

/// One entry under `name` for each value.
pub open spec fn with_name(name: Seq<char>, vs: Seq<Seq<char>>) -> Seq<(Seq<char>, Seq<char>)> {
    vs.map_values(|v: Seq<char>| (name, v))
}

/// The translated response header set built from the upstream headers.
pub open spec fn translated(h: Seq<(Seq<char>, Seq<char>)>) -> Seq<(Seq<char>, Seq<char>)> {
    opt_entry("content-type"@, last_value_of(h, "content-type"@)) + opt_entry(
        "last-modified"@,
        last_value_of(h, "last-modified"@),
    ) + opt_entry("etag"@, last_value_of(h, "etag"@)) + with_name(
        "cache-control"@,
        values_of(h, "cache-control"@),
    ) + seq![("vary"@, "Accept"@)]
}

/// A header name the translation can ever emit.
pub open spec fn allowed_response_header(name: Seq<char>) -> bool {
    name == "content-type"@ || name == "last-modified"@ || name == "etag"@ || name
        == "cache-control"@ || name == "vary"@
}

/// Only the four allowlisted upstream names and the `vary` marker ever
/// appear in a translated header set; every other upstream header is
/// dropped.
pub proof fn lemma_translate_allowlist(h: Seq<(Seq<char>, Seq<char>)>)
    ensures
        forall|i: int|
            0 <= i < translated(h).len() ==> allowed_response_header(
                #[trigger] translated(h)[i].0,
            ),
{
    let t = translated(h);
    let a = opt_entry("content-type"@, last_value_of(h, "content-type"@));
    let b = opt_entry("last-modified"@, last_value_of(h, "last-modified"@));
    let c = opt_entry("etag"@, last_value_of(h, "etag"@));
    let d = with_name("cache-control"@, values_of(h, "cache-control"@));
    let e = seq![("vary"@, "Accept"@)];
    assert forall|i: int| 0 <= i < t.len() implies allowed_response_header(t[i].0) by {
        if i < a.len() {
            assert(t[i] == a[i]);
        } else if i < a.len() + b.len() {
            assert(t[i] == b[i - a.len()]);
        } else if i < a.len() + b.len() + c.len() {
            assert(t[i] == c[i - a.len() - b.len()]);
        } else if i < a.len() + b.len() + c.len() + d.len() {
            assert(t[i] == d[i - a.len() - b.len() - c.len()]);
        } else {
            assert(t[i] == e[i - a.len() - b.len() - c.len() - d.len()]);
        }
    }
}

/// The translated set with its `content-type` value overwritten.
pub open spec fn with_content_type(h: Seq<(Seq<char>, Seq<char>)>, mime: Seq<char>) -> Seq<
    (Seq<char>, Seq<char>),
> {
    h.map_values(
        |p: (Seq<char>, Seq<char>)|
            if p.0 == "content-type"@ {
                (p.0, mime)
            } else {
                p
            },
    )
}

/// The last value carried for `name` in `h`, cloned out.
pub fn find_last(h: &Vec<(String, String)>, name: &String) -> (r: Option<String>)
    ensures
        match r {
            Some(v) => last_value_of(header_views(h@), name@) == Some(v@),
            None => last_value_of(header_views(h@), name@) is None,
        },
{
    let ghost hv = header_views(h@);
    let mut i: usize = h.len();
    proof {
        assert(hv.take(h@.len() as int) =~= hv);
    }
    while i > 0
        invariant
            i <= h@.len(),
            hv == header_views(h@),
            hv.len() == h@.len(),
            last_value_of(hv, name@) == last_value_of(hv.take(i as int), name@),
        decreases i,
    {
        proof {
            assert(hv.take(i as int).last() == hv[i - 1]);
            assert(hv.take(i as int).drop_last() =~= hv.take(i - 1));
        }
        if h[i - 1].0.eq(name) {
            return Some(h[i - 1].1.clone());
        }
        i = i - 1;
    }
    proof {
        assert(hv.take(0) =~= Seq::<(Seq<char>, Seq<char>)>::empty());
    }
    None
}

/// Every value carried for `name` in `h`, in order, cloned out.
fn collect_values(h: &Vec<(String, String)>, name: &String) -> (r: Vec<String>)
    ensures
        r@.map_values(|v: String| v@) == values_of(header_views(h@), name@),
{
    let ghost hv = header_views(h@);
    let mut out: Vec<String> = Vec::new();
    let mut i: usize = 0;
    proof {
        assert(hv.take(0) =~= Seq::<(Seq<char>, Seq<char>)>::empty());
        assert(out@.map_values(|v: String| v@) =~= values_of(hv.take(0), name@));
    }
    while i < h.len()
        invariant
            i <= h@.len(),
            hv == header_views(h@),
            hv.len() == h@.len(),
            out@.map_values(|v: String| v@) == values_of(hv.take(i as int), name@),
        decreases h@.len() - i,
    {
        proof {
            assert(hv.take(i + 1).last() == hv[i as int]);
            assert(hv.take(i + 1).drop_last() =~= hv.take(i as int));
        }
        if h[i].0.eq(name) {
            out.push(h[i].1.clone());
            proof {
                assert(out@.map_values(|v: String| v@) =~= values_of(hv.take(i + 1), name@));
            }
        } else {
            proof {
                assert(out@.map_values(|v: String| v@) =~= values_of(hv.take(i + 1), name@));
            }
        }
        i = i + 1;
    }
    proof {
        assert(hv.take(hv.len() as int) =~= hv);
    }
    out
}

/// Build the response header set from the upstream headers: forward only
/// `content-type`, `last-modified`, `etag` (last value wins) and every
/// `cache-control` value, then append the `vary: Accept` marker.
pub fn convert_headers(headers: &Vec<(String, String)>) -> (r: Vec<(String, String)>)
    ensures
        header_views(r@) == translated(header_views(headers@)),
{
    let ghost hv = header_views(headers@);
    let mut out: Vec<(String, String)> = Vec::new();
    match find_last(headers, &String::from_str("content-type")) {
        Some(v) => out.push((String::from_str("content-type"), v)),
        None => (),
    }
    proof {
        assert(header_views(out@) =~= opt_entry(
            "content-type"@,
            last_value_of(hv, "content-type"@),
        ));
    }
    let ghost done1 = header_views(out@);
    match find_last(headers, &String::from_str("last-modified")) {
        Some(v) => out.push((String::from_str("last-modified"), v)),
        None => (),
    }
    proof {
        assert(header_views(out@) =~= done1 + opt_entry(
            "last-modified"@,
            last_value_of(hv, "last-modified"@),
        ));
    }
    let ghost done2 = header_views(out@);
    match find_last(headers, &String::from_str("etag")) {
        Some(v) => out.push((String::from_str("etag"), v)),
        None => (),
    }
    proof {
        assert(header_views(out@) =~= done2 + opt_entry("etag"@, last_value_of(hv, "etag"@)));
    }
    let ghost done3 = header_views(out@);
    let ccs = collect_values(headers, &String::from_str("cache-control"));
    let mut j: usize = 0;
    proof {
        let vs = values_of(hv, "cache-control"@);
        assert(vs.take(0) =~= Seq::<Seq<char>>::empty());
        assert(with_name("cache-control"@, vs.take(0)) =~= Seq::<(Seq<char>, Seq<char>)>::empty());
        assert(header_views(out@) =~= done3 + with_name("cache-control"@, vs.take(0)));
    }
    while j < ccs.len()
        invariant
            j <= ccs@.len(),
            ccs@.map_values(|v: String| v@) == values_of(hv, "cache-control"@),
            header_views(out@) == done3 + with_name(
                "cache-control"@,
                values_of(hv, "cache-control"@).take(j as int),
            ),
        decreases ccs@.len() - j,
    {
        let ghost prev = header_views(out@);
        let cname = String::from_str("cache-control");
        let cval = ccs[j].clone();
        proof {
            assert(cname@ == "cache-control"@);
            assert(cval@ == ccs@.map_values(|v: String| v@)[j as int]);
            assert(cval@ == values_of(hv, "cache-control"@)[j as int]);
        }
        out.push((cname, cval));
        proof {
            let vs = values_of(hv, "cache-control"@);
            assert(header_views(out@) =~= prev + seq![("cache-control"@, vs[j as int])]);
            assert(with_name("cache-control"@, vs.take(j + 1)) =~= with_name(
                "cache-control"@,
                vs.take(j as int),
            ) + seq![("cache-control"@, vs[j as int])]);
            assert(header_views(out@) =~= done3 + with_name("cache-control"@, vs.take(j + 1)));
        }
        j = j + 1;
    }
    proof {
        let vs = values_of(hv, "cache-control"@);
        assert(vs.take(vs.len() as int) =~= vs);
    }
    let ghost done4 = header_views(out@);
    out.push((String::from_str("vary"), String::from_str("Accept")));
    proof {
        assert(header_views(out@) =~= done4 + seq![("vary"@, "Accept"@)]);
        assert(header_views(out@) =~= translated(hv));
    }
    out
}

/// Overwrite the `content-type` value in a translated header set.
pub fn set_content_type(headers: &Vec<(String, String)>, mime: &String) -> (r: Vec<
    (String, String),
>)
    ensures
        header_views(r@) == with_content_type(header_views(headers@), mime@),
{
    let ghost hv = header_views(headers@);
    let ct = String::from_str("content-type");
    let mut out: Vec<(String, String)> = Vec::new();
    let mut i: usize = 0;
    proof {
        assert(hv.take(0) =~= Seq::<(Seq<char>, Seq<char>)>::empty());
        assert(with_content_type(hv.take(0), mime@) =~= Seq::<(Seq<char>, Seq<char>)>::empty());
        assert(header_views(out@) =~= with_content_type(hv.take(0), mime@));
    }
    while i < headers.len()
        invariant
            i <= headers@.len(),
            hv == header_views(headers@),
            hv.len() == headers@.len(),
            ct@ == "content-type"@,
            header_views(out@) == with_content_type(hv.take(i as int), mime@),
        decreases headers@.len() - i,
    {
        if headers[i].0.eq(&ct) {
            out.push((headers[i].0.clone(), mime.clone()));
        } else {
            out.push((headers[i].0.clone(), headers[i].1.clone()));
        }
        proof {
            assert(with_content_type(hv.take(i + 1), mime@) =~= with_content_type(
                hv.take(i as int),
                mime@,
            ) + with_content_type(seq![hv[i as int]], mime@));
            assert(header_views(out@) =~= with_content_type(hv.take(i + 1), mime@));
        }
        i = i + 1;
    }
    proof {
        assert(hv.take(hv.len() as int) =~= hv);
    }
    out
}

} // verus!
