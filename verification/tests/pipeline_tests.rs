use resizeimg::engine::{plan_resize, TargetFormat};
use resizeimg::errors::PipelineError;
use resizeimg::headers::convert_headers;
use resizeimg::negotiate::get_target_mime;
use resizeimg::pipeline::{check_upstream_status, process_upstream_response};

fn h(name: &str, value: &str) -> (String, String) {
    (name.to_string(), value.to_string())
}

fn png_bytes(w: u32, h: u32) -> Vec<u8> {
    let img = image::DynamicImage::new_rgb8(w, h);
    let mut buf: Vec<u8> = Vec::new();
    img.write_to(&mut std::io::Cursor::new(&mut buf), image::ImageFormat::Png)
        .unwrap();
    buf
}

fn decoded_dims(bytes: &[u8]) -> (u32, u32) {
    let img = image::load_from_memory(bytes).unwrap();
    (img.width(), img.height())
}

#[test]
fn negotiate_webp_from_weighted_accept() {
    let accept = Some("text/html, image/webp;q=0.9".to_string());
    assert_eq!(get_target_mime(&accept), Some(TargetFormat::WebP));
}

#[test]
fn negotiate_avif_wins_over_webp() {
    let accept = Some("image/avif, image/webp".to_string());
    assert_eq!(get_target_mime(&accept), Some(TargetFormat::Avif));
}

#[test]
fn negotiate_none_keeps_declared_format() {
    assert_eq!(get_target_mime(&None), None);
    assert_eq!(get_target_mime(&Some("text/html".to_string())), None);
}

#[test]
fn custom_headers_are_dropped_and_cache_control_appended() {
    let upstream = vec![
        h("x-custom", "foo"),
        h("content-type", "image/png"),
        h("cache-control", "public"),
        h("cache-control", "max-age=10"),
    ];
    let out = convert_headers(&upstream);
    assert!(!out.iter().any(|p| p.0 == "x-custom"));
    let ccs: Vec<&str> = out
        .iter()
        .filter(|p| p.0 == "cache-control")
        .map(|p| p.1.as_str())
        .collect();
    assert_eq!(ccs, vec!["public", "max-age=10"]);
    assert!(out.iter().any(|p| p.0 == "vary" && p.1 == "Accept"));
    assert!(out.iter().any(|p| p.0 == "content-type" && p.1 == "image/png"));
}

#[test]
fn repeated_singleton_headers_keep_last_value() {
    let upstream = vec![h("etag", "a"), h("etag", "b"), h("last-modified", "x")];
    let out = convert_headers(&upstream);
    let etags: Vec<&str> = out
        .iter()
        .filter(|p| p.0 == "etag")
        .map(|p| p.1.as_str())
        .collect();
    assert_eq!(etags, vec!["b"]);
    let lms: Vec<&str> = out
        .iter()
        .filter(|p| p.0 == "last-modified")
        .map(|p| p.1.as_str())
        .collect();
    assert_eq!(lms, vec!["x"]);
}

#[test]
fn upstream_failure_status_maps_to_bad_gateway() {
    let upstream = vec![h("content-type", "image/png")];
    let body = png_bytes(10, 10);
    let r = process_upstream_response(503, &upstream, &body, &None, None);
    let e = r.unwrap_err();
    assert_eq!(e, PipelineError::BadGateway);
    assert_eq!(e.status_code(), 502);
    assert!(!e.message().is_empty());
}

#[test]
fn status_check_accepts_only_2xx() {
    assert!(check_upstream_status(200).is_ok());
    assert!(check_upstream_status(204).is_ok());
    assert!(check_upstream_status(299).is_ok());
    assert_eq!(
        check_upstream_status(199).unwrap_err(),
        PipelineError::BadGateway
    );
    assert_eq!(
        check_upstream_status(302).unwrap_err(),
        PipelineError::BadGateway
    );
    assert_eq!(
        check_upstream_status(404).unwrap_err(),
        PipelineError::BadGateway
    );
}

#[test]
fn small_source_is_never_upscaled() {
    // Source smaller than the desired geometry in both dimensions:
    // resize is skipped, output geometry equals input geometry.
    let upstream = vec![h("content-type", "image/png")];
    let body = png_bytes(100, 100);
    let (_, out) =
        process_upstream_response(200, &upstream, &body, &None, Some((200, 200))).unwrap();
    assert_eq!(decoded_dims(&out), (100, 100));
}

#[test]
fn smaller_in_one_dimension_skips_resize() {
    let upstream = vec![h("content-type", "image/png")];
    let body = png_bytes(300, 100);
    let (_, out) =
        process_upstream_response(200, &upstream, &body, &None, Some((200, 200))).unwrap();
    assert_eq!(decoded_dims(&out), (300, 100));
}

#[test]
fn large_source_fits_within_desired_box() {
    // Primary backend: aspect-preserving fit, both dimensions end up
    // within the desired box.
    let upstream = vec![h("content-type", "image/png")];
    let body = png_bytes(100, 80);
    let (_, out) =
        process_upstream_response(200, &upstream, &body, &None, Some((50, 50))).unwrap();
    let (w, hh) = decoded_dims(&out);
    assert!(w <= 50 && hh <= 50);
    assert_eq!((w, hh), (50, 40));
}

#[test]
fn default_geometry_is_800_by_800() {
    let upstream = vec![h("content-type", "image/png")];
    let body = png_bytes(1000, 1000);
    let (_, out) = process_upstream_response(200, &upstream, &body, &None, None).unwrap();
    assert_eq!(decoded_dims(&out), (800, 800));
}

#[test]
fn negotiation_overrides_content_type_and_encoding() {
    let upstream = vec![h("content-type", "image/png")];
    let body = png_bytes(10, 10);
    let accept = Some("image/webp".to_string());
    let (headers, out) =
        process_upstream_response(200, &upstream, &body, &accept, None).unwrap();
    let cts: Vec<&str> = headers
        .iter()
        .filter(|p| p.0 == "content-type")
        .map(|p| p.1.as_str())
        .collect();
    assert_eq!(cts, vec!["image/webp"]);
    assert_eq!(image::guess_format(&out).unwrap(), image::ImageFormat::WebP);
}

#[test]
fn missing_content_type_is_a_decode_error() {
    let body = png_bytes(10, 10);
    let e = process_upstream_response(200, &Vec::new(), &body, &None, None).unwrap_err();
    assert_eq!(e, PipelineError::DecodeError);
    assert_eq!(e.status_code(), 500);
}

#[test]
fn unusable_content_type_is_a_decode_error() {
    let upstream = vec![h("content-type", "text/plain")];
    let body = png_bytes(10, 10);
    let e = process_upstream_response(200, &upstream, &body, &None, None).unwrap_err();
    assert_eq!(e, PipelineError::DecodeError);
}

#[test]
fn corrupt_bytes_are_a_decode_error() {
    let upstream = vec![h("content-type", "image/png")];
    let body = vec![1u8, 2, 3, 4, 5];
    let e = process_upstream_response(200, &upstream, &body, &None, None).unwrap_err();
    assert_eq!(e, PipelineError::DecodeError);
    assert_eq!(e.message(), "Error processing image\n".to_string());
}

#[test]
fn resize_decision_matches_policy() {
    assert_eq!(plan_resize(100, 100, 200, 200), None);
    assert_eq!(plan_resize(100, 300, 200, 200), None);
    assert_eq!(plan_resize(300, 100, 200, 200), None);
    assert_eq!(plan_resize(300, 300, 200, 200), Some((200, 200)));
    assert_eq!(plan_resize(200, 200, 200, 200), Some((200, 200)));
}

#[test]
fn error_status_codes_follow_the_taxonomy() {
    assert_eq!(PipelineError::NotFound.status_code(), 404);
    assert_eq!(PipelineError::InternalError.status_code(), 500);
    assert_eq!(PipelineError::BadGateway.status_code(), 502);
    assert_eq!(PipelineError::DecodeError.status_code(), 500);
    assert_eq!(PipelineError::EncodeError.status_code(), 500);
    assert!(!PipelineError::NotFound.message().is_empty());
    assert!(!PipelineError::BadGateway.message().is_empty());
    assert!(!PipelineError::EncodeError.message().is_empty());
}
