//! Content negotiation: pick an output format from the client's `Accept`
//! header by plain substring containment — `image/avif` wins over
//! `image/webp`, and anything else keeps the upstream-declared format.

use vstd::prelude::*;

verus! {

use crate::engine::TargetFormat;
use crate::text::{contains_seq, contains_pat, chars_of};

/// The format negotiated from an `Accept` header, if any.
pub open spec fn negotiated_format(accept: Option<Seq<char>>) -> Option<TargetFormat> {
    match accept {
        None => None,
        Some(a) => if contains_seq(a, "image/avif"@) {
            Some(TargetFormat::Avif)
        } else if contains_seq(a, "image/webp"@) {
            Some(TargetFormat::WebP)
        } else {
            None
        },
    }
}

/// AVIF takes precedence: whenever the header names `image/avif` at all,
/// negotiation picks AVIF, whatever else the header offers.
pub proof fn lemma_avif_precedence(a: Seq<char>)
    ensures
        contains_seq(a, "image/avif"@) ==> negotiated_format(Some(a)) == Some(TargetFormat::Avif),
        !contains_seq(a, "image/avif"@) && contains_seq(a, "image/webp"@) ==> negotiated_format(
            Some(a),
        ) == Some(TargetFormat::WebP),
{
}

/// Pick the target media type from the client's `Accept` header; `None`
/// keeps the upstream-declared format.
pub fn get_target_mime(accept: &Option<String>) -> (r: Option<TargetFormat>)
    ensures
        r == negotiated_format(accept.deep_view()),
{
    match accept {
        None => None,
        Some(a) => {
            let av = chars_of(a.as_str());
            let avif = chars_of("image/avif");
            let webp = chars_of("image/webp");
            proof {
                reveal_strlit("image/avif");
                reveal_strlit("image/webp");
                assert(avif@.len() == 10);
                assert(webp@.len() == 10);
            }
            if contains_pat(&av, &avif) {
                Some(TargetFormat::Avif)
            } else if contains_pat(&av, &webp) {
                Some(TargetFormat::WebP)
            } else {
                None
            }
        },
    }
}

} // verus!
