//! The request pipeline: resolve the upstream URL, and — once the caller
//! has fetched the upstream response — validate the status, translate the
//! headers, decode, conditionally resize, negotiate the output format and
//! encode.  Each request is a single linear traversal failing fast on the
//! first error; failures map to HTTP statuses through `PipelineError`.

use vstd::prelude::*;

verus! {

use crate::config::Upstreams;
use crate::engine::{
    TargetFormat,
    DecodedImage,
    decode,
    resize_to_fit,
    imagers_decode,
    format_from_mime,
    format_of_mime,
    mime_name,
    mime_of,
    needs_resize,
    load_ok,
    load_dims,
    loaded_image,
    resized_image,
    fit_dims_of,
    primary_encoding,
};
use crate::errors::PipelineError;
use crate::geometry::{extract_geometry, geometry_of_query, lemma_geometry_requires_valid_pair};
use crate::headers::{
    convert_headers,
    find_last,
    set_content_type,
    header_views,
    last_value_of,
    translated,
    with_content_type,
};
use crate::negotiate::{get_target_mime, negotiated_format};
use crate::resolver::{get_upstream, resolve_spec, rules_view};

/// The default desired geometry when the query names none.
pub open spec fn spec_desired_of(g: Option<(u32, u32)>) -> (u32, u32) {
    match g {
        Some(p) => p,
        None => (800, 800),
    }
}

/// The desired geometry: the one the query named, else the 800x800
/// default.
pub fn desired_of(g: Option<(u32, u32)>) -> (r: (u32, u32))
    ensures
        r == spec_desired_of(g),
{
    match g {
        Some(p) => p,
        None => (800, 800),
    }
}

/// A successful upstream status, as HTTP counts success.
pub open spec fn status_success(s: u16) -> bool {
    200 <= s < 300
}

/// Gate on the upstream status: anything outside 2xx is a bad gateway.
pub fn check_upstream_status(status: u16) -> (r: Result<(), PipelineError>)
    ensures
        match r {
            Ok(_) => status_success(status),
            Err(e) => !status_success(status) && e == PipelineError::BadGateway,
        },
{
    if 200 <= status && status < 300 {
        Ok(())
    } else {
        Err(PipelineError::BadGateway)
    }
}

/// What the resolver decided for one request: the upstream URL to fetch
/// and the geometry the query asked for.
#[derive(Debug)]
pub struct RequestPlan {
    pub upstream_url: String,
    pub geometry: Option<(u32, u32)>,
}

/// Resolve the request path and read the desired geometry from the query
/// string.  `NotFound` when no rule matches; `InternalError` when a rule
/// pattern is malformed.
pub fn plan_request(path: &str, query: String, rules: &Vec<Upstreams>) -> (r: Result<
    RequestPlan,
    PipelineError,
>)
    ensures
        match r {
            Ok(plan) => resolve_spec(path@, rules_view(rules@)) == Ok::<Option<Seq<char>>, ()>(
                Some(plan.upstream_url@),
            ) && plan.geometry == geometry_of_query(query@) && (plan.geometry matches Some(g)
                ==> g.0 >= 1 && g.1 >= 1),
            Err(e) => (e == PipelineError::NotFound && resolve_spec(path@, rules_view(rules@))
                == Ok::<Option<Seq<char>>, ()>(None)) || (e == PipelineError::InternalError
                && resolve_spec(path@, rules_view(rules@)) is Err),
        },
{
    match get_upstream(path, rules) {
        Err(e) => Err(e),
        Ok(None) => Err(PipelineError::NotFound),
        Ok(Some(url)) => {
            let g = extract_geometry(query);
            proof {
                lemma_geometry_requires_valid_pair(query@);
            }
            Ok(RequestPlan { upstream_url: url, geometry: g })
        },
    }
}

/// A per-request image: the decoded (and possibly resized) pixels, the
/// format it will be encoded in, and the translated response headers.
/// Owned exclusively by the request that built it.
pub struct Image {
    pub data: DecodedImage,
    pub mime: TargetFormat,
    pub headers: Vec<(String, String)>,
}

/// The no-upscale policy's outcome on the final dimensions: either the
/// image was resized to fit the desired box, or it was already smaller
/// than the box in some dimension and left alone.
pub open spec fn no_upscale_outcome(w: u32, h: u32, dw: u32, dh: u32) -> bool {
    (w <= dw && h <= dh) || (w < dw || h < dh)
}

/// The image the engine holds after decoding and the conditional resize:
/// the backend's resize of the decoded image when it is at least as
/// large as the desired box in both dimensions, else the decoded image
/// unchanged.
pub open spec fn pipeline_image(
    bytes: Seq<u8>,
    format: TargetFormat,
    dw: u32,
    dh: u32,
) -> image::DynamicImage {
    let dims = load_dims(bytes, format);
    if needs_resize(dims.0, dims.1, dw, dh) {
        resized_image(loaded_image(bytes, format), dw, dh)
    } else {
        loaded_image(bytes, format)
    }
}

/// That image's dimensions.
pub open spec fn pipeline_dims(bytes: Seq<u8>, format: TargetFormat, dw: u32, dh: u32) -> (
    u32,
    u32,
) {
    let dims = load_dims(bytes, format);
    if needs_resize(dims.0, dims.1, dw, dh) {
        fit_dims_of(loaded_image(bytes, format), dw, dh)
    } else {
        dims
    }
}

impl Image {
    /// Build the per-request image from the upstream bytes: translate the
    /// headers, read the declared format from the upstream content type,
    /// decode, and conditionally resize to the desired geometry (the
    /// 800x800 default when none was asked for).  A missing or unusable
    /// content type, like a failed decode, is a `DecodeError`.
    pub fn new(
        bytes: &Vec<u8>,
        upstream_headers: &Vec<(String, String)>,
        geometry: Option<(u32, u32)>,
    ) -> (r: Result<Image, PipelineError>)
        requires
            geometry matches Some(g) ==> g.0 >= 1 && g.1 >= 1,
        ensures
            match r {
                Ok(img) => {
                    let hv = header_views(upstream_headers@);
                    let ct = last_value_of(hv, "content-type"@);
                    let d = spec_desired_of(geometry);
                    &&& ct is Some
                    &&& format_of_mime(ct.unwrap()) == Some(img.mime)
                    &&& header_views(img.headers@) == translated(hv)
                    &&& load_ok(bytes@, img.mime)
                    &&& img.data.handle == pipeline_image(bytes@, img.mime, d.0, d.1)
                    &&& (img.data.width, img.data.height) == pipeline_dims(
                        bytes@,
                        img.mime,
                        d.0,
                        d.1,
                    )
                    &&& no_upscale_outcome(img.data.width, img.data.height, d.0, d.1)
                },
                Err(e) => e == PipelineError::DecodeError,
            },
            ({
                let ct = last_value_of(header_views(upstream_headers@), "content-type"@);
                ct is None || format_of_mime(ct.unwrap()) is None
            }) ==> r is Err,
            ({
                let ct = last_value_of(header_views(upstream_headers@), "content-type"@);
                ct is Some && format_of_mime(ct.unwrap()) is Some && load_ok(
                    bytes@,
                    format_of_mime(ct.unwrap()).unwrap(),
                )
            }) ==> r is Ok,
    {
        let translated_headers = convert_headers(upstream_headers);
        let ct = find_last(upstream_headers, &String::from_str("content-type"));
        let mime = match ct {
            None => {
                return Err(PipelineError::DecodeError);
            },
            Some(v) => match format_from_mime(&v) {
                None => {
                    return Err(PipelineError::DecodeError);
                },
                Some(m) => m,
            },
        };
        let raw = match decode(bytes, mime) {
            Ok(d) => d,
            Err(e) => {
                return Err(e);
            },
        };
        let (dw, dh) = desired_of(geometry);
        let data = resize_to_fit(raw, dw, dh);
        Ok(Image { data, mime, headers: translated_headers })
    }

    /// The response headers, cloned out.
    pub fn get_headers(&self) -> (r: Vec<(String, String)>)
        ensures
            r@ == self.headers@,
    {
        let mut out: Vec<(String, String)> = Vec::new();
        let mut i: usize = 0;
        proof {
            assert(out@ =~= self.headers@.take(0));
        }
        while i < self.headers.len()
            invariant
                i <= self.headers@.len(),
                out@ == self.headers@.take(i as int),
            decreases self.headers@.len() - i,
        {
            out.push((self.headers[i].0.clone(), self.headers[i].1.clone()));
            proof {
                assert(out@ =~= self.headers@.take(i + 1));
            }
            i = i + 1;
        }
        proof {
            assert(self.headers@.take(self.headers@.len() as int) =~= self.headers@);
        }
        out
    }

    /// Override the target format after negotiation; the `content-type`
    /// response header is overwritten to match.
    pub fn set_mime(&mut self, mime: TargetFormat)
        ensures
            final(self).mime == mime,
            final(self).data == old(self).data,
            header_views(final(self).headers@) == with_content_type(
                header_views(old(self).headers@),
                mime_of(mime),
            ),
    {
        self.mime = mime;
        let name = mime_name(mime);
        let updated = set_content_type(&self.headers, &name);
        self.headers = updated;
    }

    /// Encode the image in its target format: succeeds exactly when the
    /// backend encoder does, and returns its bytes.
    pub fn save(&self) -> (r: Result<Vec<u8>, PipelineError>)
        ensures
            r is Ok <==> primary_encoding(self.data.handle, self.mime) is Some,
            r matches Ok(b) ==> primary_encoding(self.data.handle, self.mime) == Some(b@),
            r is Err ==> r == Err::<Vec<u8>, PipelineError>(PipelineError::EncodeError),
    {
        imagers_decode(&self.data.handle, self.mime)
    }
}

/// Run the compute half of the pipeline on a fetched upstream response:
/// validate the status, translate the headers, decode, conditionally
/// resize, negotiate the output format from the `Accept` header and
/// encode.  Returns the response headers and body, or the failure to map
/// to an HTTP status.
pub fn process_upstream_response(
    status: u16,
    upstream_headers: &Vec<(String, String)>,
    body: &Vec<u8>,
    accept: &Option<String>,
    geometry: Option<(u32, u32)>,
) -> (r: Result<(Vec<(String, String)>, Vec<u8>), PipelineError>)
    requires
        geometry matches Some(g) ==> g.0 >= 1 && g.1 >= 1,
    ensures
        !status_success(status) ==> (r matches Err(e) && e == PipelineError::BadGateway),
        status_success(status) ==> ({
            let hv = header_views(upstream_headers@);
            let ct = last_value_of(hv, "content-type"@);
            let declared = format_of_mime(ct.unwrap());
            let d = spec_desired_of(geometry);
            let fmt = match negotiated_format(accept.deep_view()) {
                Some(f) => f,
                None => declared.unwrap(),
            };
            &&& ((ct is None || format_of_mime(ct.unwrap()) is None) ==> (r matches Err(e) && e
                == PipelineError::DecodeError))
            &&& ((ct is Some && declared is Some && load_ok(body@, declared.unwrap())
                && primary_encoding(
                pipeline_image(body@, declared.unwrap(), d.0, d.1),
                fmt,
            ) is Some) ==> r is Ok)
            &&& match r {
                Ok(p) => {
                    &&& header_views(p.0@) == (match negotiated_format(accept.deep_view()) {
                        Some(f) => with_content_type(translated(hv), mime_of(f)),
                        None => translated(hv),
                    })
                    &&& ct is Some
                    &&& declared is Some
                    &&& load_ok(body@, declared.unwrap())
                    &&& Some(p.1@) == primary_encoding(
                        pipeline_image(body@, declared.unwrap(), d.0, d.1),
                        fmt,
                    )
                },
                Err(e) => e == PipelineError::DecodeError || e == PipelineError::EncodeError,
            }
        }),
{
    match check_upstream_status(status) {
        Err(e) => {
            return Err(e);
        },
        Ok(_) => (),
    }
    let mut image = match Image::new(body, upstream_headers, geometry) {
        Ok(i) => i,
        Err(e) => {
            return Err(e);
        },
    };
    match get_target_mime(accept) {
        Some(f) => image.set_mime(f),
        None => (),
    }
    let encoded = match image.save() {
        Ok(b) => b,
        Err(e) => {
            return Err(e);
        },
    };
    let headers = image.get_headers();
    Ok((headers, encoded))
}

} // verus!
