use resizeimg::engine::{
    alt_encode_params, decode, encode_jpeg, encode_png, imagers_decode, resize_to_fit,
    AltEncodeParams, EngineType, TargetFormat,
};

fn png_bytes(w: u32, h: u32) -> Vec<u8> {
    let img = image::DynamicImage::new_rgb8(w, h);
    let mut buf: Vec<u8> = Vec::new();
    img.write_to(&mut std::io::Cursor::new(&mut buf), image::ImageFormat::Png)
        .unwrap();
    buf
}

#[test]
fn decode_reads_intrinsic_geometry() {
    let bytes = png_bytes(31, 17);
    let d = decode(&bytes, TargetFormat::Png).unwrap();
    assert_eq!((d.width, d.height), (31, 17));
}

#[test]
fn decode_rejects_mismatched_format() {
    let bytes = png_bytes(4, 4);
    assert!(decode(&bytes, TargetFormat::Jpeg).is_err());
}

#[test]
fn resize_to_fit_keeps_smaller_sources() {
    let bytes = png_bytes(10, 30);
    let d = decode(&bytes, TargetFormat::Png).unwrap();
    let r = resize_to_fit(d, 20, 20);
    assert_eq!((r.width, r.height), (10, 30));
}

#[test]
fn resize_to_fit_fits_larger_sources() {
    let bytes = png_bytes(40, 20);
    let d = decode(&bytes, TargetFormat::Png).unwrap();
    let r = resize_to_fit(d, 10, 10);
    assert!(r.width <= 10 && r.height <= 10);
    assert_eq!((r.width, r.height), (10, 5));
}

#[test]
fn encode_round_trips_through_each_format() {
    let bytes = png_bytes(6, 5);
    let d = decode(&bytes, TargetFormat::Png).unwrap();
    let jpg = encode_jpeg(&d.handle).unwrap();
    assert_eq!(image::guess_format(&jpg).unwrap(), image::ImageFormat::Jpeg);
    let png = encode_png(&d.handle).unwrap();
    assert_eq!(image::guess_format(&png).unwrap(), image::ImageFormat::Png);
    let webp = imagers_decode(&d.handle, TargetFormat::WebP).unwrap();
    assert_eq!(image::guess_format(&webp).unwrap(), image::ImageFormat::WebP);
    let back = image::load_from_memory(&png).unwrap();
    assert_eq!((back.width(), back.height()), (6, 5));
}

#[test]
fn avif_encode_produces_avif() {
    let bytes = png_bytes(4, 4);
    let d = decode(&bytes, TargetFormat::Png).unwrap();
    let avif = imagers_decode(&d.handle, TargetFormat::Avif).unwrap();
    assert!(!avif.is_empty());
    // AVIF bytes carry the ISO-BMFF "ftyp" brand.
    assert_eq!(&avif[4..8], b"ftyp");
}

#[test]
fn default_engine_is_the_primary_backend() {
    assert_eq!(EngineType::default(), EngineType::ImageRs);
}

#[test]
fn alternate_backend_parameters_match_the_table() {
    assert_eq!(
        alt_encode_params(TargetFormat::Jpeg),
        AltEncodeParams::Jpeg {
            quality: 90,
            interlace: true,
            optimize_coding: true
        }
    );
    assert_eq!(
        alt_encode_params(TargetFormat::Png),
        AltEncodeParams::Png {
            quality: 90,
            interlace: true,
            bitdepth: 8
        }
    );
    assert_eq!(
        alt_encode_params(TargetFormat::WebP),
        AltEncodeParams::Webp { quality: 90 }
    );
    assert_eq!(
        alt_encode_params(TargetFormat::Avif),
        AltEncodeParams::Avif { av1: true }
    );
}
