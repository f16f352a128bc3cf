//! The image engine: backend selection, the declared-format mapping, the
//! aspect-preserving no-upscale resize policy, and format-dispatched
//! encoding through the primary backend.
//!
//! The pixel-level decode/resize/encode algorithms are supplied by the
//! `image` crate and are trusted at the narrow wrapper functions below;
//! everything around them is verified.

use vstd::prelude::*;

verus! {

use crate::errors::PipelineError;

/// Which backend decodes and encodes; fixed for the process lifetime via
/// configuration, never per-request.
#[derive(Debug, Clone, Copy, PartialEq, Eq, Structural)]
pub enum EngineType {
    ImageRs,
    Vips,
}

impl Default for EngineType {
    fn default() -> (r: Self)
        ensures
            r == EngineType::ImageRs,
    {
        EngineType::ImageRs
    }
}

/// The closed set of output formats the gateway can produce.
#[derive(Debug, Clone, Copy, PartialEq, Eq, Structural)]
pub enum TargetFormat {
    Jpeg,
    Png,
    WebP,
    Avif,
}

/// The format declared by an upstream content type, if it is one the
/// gateway handles.
pub open spec fn format_of_mime(ct: Seq<char>) -> Option<TargetFormat> {
    if ct == "image/jpeg"@ {
        Some(TargetFormat::Jpeg)
    } else if ct == "image/png"@ {
        Some(TargetFormat::Png)
    } else if ct == "image/webp"@ {
        Some(TargetFormat::WebP)
    } else if ct == "image/avif"@ {
        Some(TargetFormat::Avif)
    } else {
        None
    }
}

pub fn format_from_mime(ct: &String) -> (r: Option<TargetFormat>)
    ensures
        r == format_of_mime(ct@),
{
    if ct.eq(&String::from_str("image/jpeg")) {
        Some(TargetFormat::Jpeg)
    } else if ct.eq(&String::from_str("image/png")) {
        Some(TargetFormat::Png)
    } else if ct.eq(&String::from_str("image/webp")) {
        Some(TargetFormat::WebP)
    } else if ct.eq(&String::from_str("image/avif")) {
        Some(TargetFormat::Avif)
    } else {
        None
    }
}

/// The media type written into the response for each format.
pub open spec fn mime_of(f: TargetFormat) -> Seq<char> {
    match f {
        TargetFormat::Jpeg => "image/jpeg"@,
        TargetFormat::Png => "image/png"@,
        TargetFormat::WebP => "image/webp"@,
        TargetFormat::Avif => "image/avif"@,
    }
}

pub fn mime_name(f: TargetFormat) -> (r: String)
    ensures
        r@ == mime_of(f),
{
    match f {
        TargetFormat::Jpeg => String::from_str("image/jpeg"),
        TargetFormat::Png => String::from_str("image/png"),
        TargetFormat::WebP => String::from_str("image/webp"),
        TargetFormat::Avif => String::from_str("image/avif"),
    }
}

#[verifier::external_type_specification]
#[verifier::external_body]
pub struct ExDynamicImage(image::DynamicImage);

#[verifier::external_type_specification]
#[verifier::external_body]
pub struct ExImageError(image::ImageError);

/// Whether the primary backend decodes these bytes in the declared
/// format; decoding is a function of the bytes and the format alone.
pub uninterp spec fn load_ok(bytes: Seq<u8>, format: TargetFormat) -> bool;

/// The image the primary backend decodes these bytes to.
pub uninterp spec fn loaded_image(bytes: Seq<u8>, format: TargetFormat) -> image::DynamicImage;

/// The intrinsic (width, height) of the decoded image.
pub uninterp spec fn load_dims(bytes: Seq<u8>, format: TargetFormat) -> (u32, u32);

/// Relies on `image::load_from_memory_with_format` to decode the bytes in
/// the declared format, and on `DynamicImage::width` / `height` for the
/// intrinsic geometry of the decoded image; success, the image and its
/// dimensions depend on the bytes and the format alone.
#[verifier::external_body]
fn imagers_load(bytes: &Vec<u8>, format: TargetFormat) -> (r: Result<
    (image::DynamicImage, u32, u32),
    image::ImageError,
>)
    ensures
        match r {
            Ok(t) => load_ok(bytes@, format) && t.0 == loaded_image(bytes@, format) && (t.1, t.2)
                == load_dims(bytes@, format),
            Err(_) => !load_ok(bytes@, format),
        },
{
    let fmt = match format {
        TargetFormat::Jpeg => image::ImageFormat::Jpeg,
        TargetFormat::Png => image::ImageFormat::Png,
        TargetFormat::WebP => image::ImageFormat::WebP,
        TargetFormat::Avif => image::ImageFormat::Avif,
    };
    let img = image::load_from_memory_with_format(bytes.as_slice(), fmt)?;
    let w = img.width();
    let h = img.height();
    Ok((img, w, h))
}

/// The image `DynamicImage::resize` scales `img` to within a `w` by `h`
/// box; a function of the image and the bounds alone.
pub uninterp spec fn resized_image(img: image::DynamicImage, w: u32, h: u32) -> image::DynamicImage;

/// The dimensions of that resized image.
pub uninterp spec fn fit_dims_of(img: image::DynamicImage, w: u32, h: u32) -> (u32, u32);

/// Relies on `DynamicImage::resize`: an aspect-preserving scale to the
/// largest size that fits within the given bounds, with the Triangle
/// filter; the returned dimensions are read back from the result and
/// stay within the bounds.  (Aspect-ratio preservation and maximality
/// hold only up to the crate's floating-point rounding, so they are not
/// claimed exactly here.)
#[verifier::external_body]
fn imagers_resize(img: &image::DynamicImage, w: u32, h: u32) -> (r: (image::DynamicImage, u32, u32))
    requires
        w >= 1,
        h >= 1,
    ensures
        r.0 == resized_image(*img, w, h),
        (r.1, r.2) == fit_dims_of(*img, w, h),
        r.1 <= w,
        r.2 <= h,
{
    let out = img.resize(w, h, image::imageops::FilterType::Triangle);
    let ow = out.width();
    let oh = out.height();
    (out, ow, oh)
}

/// The JPEG bytes the primary backend encodes `img` to at `quality`, or
/// `None` when encoding fails; a function of the image and the quality
/// alone.
pub uninterp spec fn jpeg_encoding(img: image::DynamicImage, quality: u8) -> Option<Seq<u8>>;

/// The PNG bytes the primary backend encodes `img` to, with default
/// compression and no scanline filter, or `None` when encoding fails.
pub uninterp spec fn png_encoding(img: image::DynamicImage) -> Option<Seq<u8>>;

/// The lossless WebP bytes the primary backend encodes `img` to, or
/// `None` when encoding fails.
pub uninterp spec fn webp_encoding(img: image::DynamicImage) -> Option<Seq<u8>>;

/// The AVIF bytes the primary backend encodes `img` to at the given
/// speed and quality, or `None` when encoding fails.
pub uninterp spec fn avif_encoding(img: image::DynamicImage, speed: u8, quality: u8) -> Option<
    Seq<u8>,
>;

/// Relies on `JpegEncoder::new_with_quality` and
/// `DynamicImage::write_with_encoder` to produce JPEG bytes at the given
/// quality; the result depends on the image and the quality alone.
#[verifier::external_body]
fn imagers_write_jpeg(img: &image::DynamicImage, quality: u8) -> (r: Result<
    Vec<u8>,
    image::ImageError,
>)
    ensures
        match r {
            Ok(b) => jpeg_encoding(*img, quality) == Some(b@),
            Err(_) => jpeg_encoding(*img, quality) is None,
        },
{
    let mut buffer: Vec<u8> = Vec::new();
    let encoder = image::codecs::jpeg::JpegEncoder::new_with_quality(&mut buffer, quality);
    img.write_with_encoder(encoder)?;
    Ok(buffer)
}

/// Relies on `PngEncoder::new_with_quality` with default compression and
/// no scanline filter, and `DynamicImage::write_with_encoder`; the
/// result depends on the image alone.
#[verifier::external_body]
fn imagers_write_png(img: &image::DynamicImage) -> (r: Result<Vec<u8>, image::ImageError>)
    ensures
        match r {
            Ok(b) => png_encoding(*img) == Some(b@),
            Err(_) => png_encoding(*img) is None,
        },
{
    let mut buffer: Vec<u8> = Vec::new();
    let encoder = image::codecs::png::PngEncoder::new_with_quality(
        &mut buffer,
        image::codecs::png::CompressionType::Default,
        image::codecs::png::FilterType::NoFilter,
    );
    img.write_with_encoder(encoder)?;
    Ok(buffer)
}

/// Relies on `WebPEncoder::new_lossless` and
/// `DynamicImage::write_with_encoder` to produce lossless WebP bytes;
/// the result depends on the image alone.
#[verifier::external_body]
fn imagers_write_webp(img: &image::DynamicImage) -> (r: Result<Vec<u8>, image::ImageError>)
    ensures
        match r {
            Ok(b) => webp_encoding(*img) == Some(b@),
            Err(_) => webp_encoding(*img) is None,
        },
{
    let mut buffer: Vec<u8> = Vec::new();
    let encoder = image::codecs::webp::WebPEncoder::new_lossless(&mut buffer);
    img.write_with_encoder(encoder)?;
    Ok(buffer)
}

/// Relies on `AvifEncoder::new_with_speed_quality` and
/// `DynamicImage::write_with_encoder` to produce AVIF bytes at the given
/// speed and quality; the result depends on the arguments alone.  The
/// underlying AV1 encoder asserts both parameters are at least 1 (the
/// image crate caps only the top), so zero is kept out.
#[verifier::external_body]
fn imagers_write_avif(img: &image::DynamicImage, speed: u8, quality: u8) -> (r: Result<
    Vec<u8>,
    image::ImageError,
>)
    requires
        1 <= speed <= 10,
        1 <= quality <= 100,
    ensures
        match r {
            Ok(b) => avif_encoding(*img, speed, quality) == Some(b@),
            Err(_) => avif_encoding(*img, speed, quality) is None,
        },
{
    let mut buffer: Vec<u8> = Vec::new();
    let encoder = image::codecs::avif::AvifEncoder::new_with_speed_quality(
        &mut buffer,
        speed,
        quality,
    );
    img.write_with_encoder(encoder)?;
    Ok(buffer)
}

/// What the primary backend encodes an image to in each target format,
/// with the fixed parameters: JPEG quality 95; PNG default compression,
/// no scanline filter; WebP lossless; AVIF speed 10, quality 95.
pub open spec fn primary_encoding(img: image::DynamicImage, format: TargetFormat) -> Option<
    Seq<u8>,
> {
    match format {
        TargetFormat::Jpeg => jpeg_encoding(img, 95),
        TargetFormat::Png => png_encoding(img),
        TargetFormat::WebP => webp_encoding(img),
        TargetFormat::Avif => avif_encoding(img, 10, 95),
    }
}

/// Encode as JPEG at quality 95.
pub fn encode_jpeg(image: &image::DynamicImage) -> (r: Result<Vec<u8>, PipelineError>)
    ensures
        r is Ok <==> jpeg_encoding(*image, 95) is Some,
        r matches Ok(b) ==> jpeg_encoding(*image, 95) == Some(b@),
        r is Err ==> r == Err::<Vec<u8>, PipelineError>(PipelineError::EncodeError),
{
    match imagers_write_jpeg(image, 95) {
        Ok(b) => Ok(b),
        Err(_) => Err(PipelineError::EncodeError),
    }
}

/// Encode as PNG with default compression and no scanline filter.
pub fn encode_png(image: &image::DynamicImage) -> (r: Result<Vec<u8>, PipelineError>)
    ensures
        r is Ok <==> png_encoding(*image) is Some,
        r matches Ok(b) ==> png_encoding(*image) == Some(b@),
        r is Err ==> r == Err::<Vec<u8>, PipelineError>(PipelineError::EncodeError),
{
    match imagers_write_png(image) {
        Ok(b) => Ok(b),
        Err(_) => Err(PipelineError::EncodeError),
    }
}

/// Encode as lossless WebP.
pub fn encode_webp(image: &image::DynamicImage) -> (r: Result<Vec<u8>, PipelineError>)
    ensures
        r is Ok <==> webp_encoding(*image) is Some,
        r matches Ok(b) ==> webp_encoding(*image) == Some(b@),
        r is Err ==> r == Err::<Vec<u8>, PipelineError>(PipelineError::EncodeError),
{
    match imagers_write_webp(image) {
        Ok(b) => Ok(b),
        Err(_) => Err(PipelineError::EncodeError),
    }
}

/// Encode as AVIF at speed 10, quality 95.
pub fn encode_avif(image: &image::DynamicImage) -> (r: Result<Vec<u8>, PipelineError>)
    ensures
        r is Ok <==> avif_encoding(*image, 10, 95) is Some,
        r matches Ok(b) ==> avif_encoding(*image, 10, 95) == Some(b@),
        r is Err ==> r == Err::<Vec<u8>, PipelineError>(PipelineError::EncodeError),
{
    match imagers_write_avif(image, 10, 95) {
        Ok(b) => Ok(b),
        Err(_) => Err(PipelineError::EncodeError),
    }
}

/// Encode through the primary backend, dispatching on the target format:
/// succeeds exactly when the per-format encoder does, and returns its
/// bytes.
pub fn imagers_decode(image: &image::DynamicImage, format: TargetFormat) -> (r: Result<
    Vec<u8>,
    PipelineError,
>)
    ensures
        r is Ok <==> primary_encoding(*image, format) is Some,
        r matches Ok(b) ==> primary_encoding(*image, format) == Some(b@),
        r is Err ==> r == Err::<Vec<u8>, PipelineError>(PipelineError::EncodeError),
{
    match format {
        TargetFormat::Jpeg => encode_jpeg(image),
        TargetFormat::Png => encode_png(image),
        TargetFormat::WebP => encode_webp(image),
        TargetFormat::Avif => encode_avif(image),
    }
}

/// The fixed per-format encode parameters of the alternate backend; every
/// encode flattens alpha onto an opaque white background.
#[derive(Debug, Clone, Copy, PartialEq, Eq, Structural)]
pub enum AltEncodeParams {
    Jpeg { quality: i32, interlace: bool, optimize_coding: bool },
    Png { quality: i32, interlace: bool, bitdepth: i32 },
    Webp { quality: i32 },
    Avif { av1: bool },
}

/// The alternate backend's encode parameters for each target format:
/// JPEG quality 90, progressive, optimized entropy coding; PNG quality
/// 90, interlaced, 8-bit depth; WebP quality 90; AVIF with AV1
/// compression.
pub fn alt_encode_params(f: TargetFormat) -> (r: AltEncodeParams)
    ensures
        r == match f {
            TargetFormat::Jpeg => AltEncodeParams::Jpeg {
                quality: 90,
                interlace: true,
                optimize_coding: true,
            },
            TargetFormat::Png => AltEncodeParams::Png {
                quality: 90,
                interlace: true,
                bitdepth: 8,
            },
            TargetFormat::WebP => AltEncodeParams::Webp { quality: 90 },
            TargetFormat::Avif => AltEncodeParams::Avif { av1: true },
        },
{
    match f {
        TargetFormat::Jpeg => AltEncodeParams::Jpeg {
            quality: 90,
            interlace: true,
            optimize_coding: true,
        },
        TargetFormat::Png => AltEncodeParams::Png { quality: 90, interlace: true, bitdepth: 8 },
        TargetFormat::WebP => AltEncodeParams::Webp { quality: 90 },
        TargetFormat::Avif => AltEncodeParams::Avif { av1: true },
    }
}

/// A decoded image handle together with its intrinsic geometry, owned
/// exclusively by the request that decoded it.
pub struct DecodedImage {
    pub handle: image::DynamicImage,
    pub width: u32,
    pub height: u32,
}

impl DecodedImage {
    /// The intrinsic width and height of the decoded image.
    pub fn get_geometry(&self) -> (r: (u32, u32))
        ensures
            r == (self.width, self.height),
    {
        (self.width, self.height)
    }
}

/// Decode bytes declared to be in `format` through the primary backend:
/// succeeds exactly when the backend decodes them, and carries the
/// decoded image with its intrinsic geometry.
pub fn decode(bytes: &Vec<u8>, format: TargetFormat) -> (r: Result<DecodedImage, PipelineError>)
    ensures
        r is Ok <==> load_ok(bytes@, format),
        r matches Ok(d) ==> d.handle == loaded_image(bytes@, format) && (d.width, d.height)
            == load_dims(bytes@, format),
        r is Err ==> r == Err::<DecodedImage, PipelineError>(PipelineError::DecodeError),
{
    match imagers_load(bytes, format) {
        Ok((handle, width, height)) => Ok(DecodedImage { handle, width, height }),
        Err(_) => Err(PipelineError::DecodeError),
    }
}

/// The resize policy compares intrinsic against desired geometry: a
/// source already smaller than desired in either dimension is left alone.
pub open spec fn needs_resize(w: u32, h: u32, dw: u32, dh: u32) -> bool {
    w >= dw && h >= dh
}

/// The resize decision shared by both backends: `None` means skip (the
/// gateway never upscales), `Some` gives the geometry to resize to.
pub fn plan_resize(w: u32, h: u32, dw: u32, dh: u32) -> (r: Option<(u32, u32)>)
    ensures
        r == (if needs_resize(w, h, dw, dh) {
            Some((dw, dh))
        } else {
            None::<(u32, u32)>
        }),
{
    if w < dw || h < dh {
        None
    } else {
        Some((dw, dh))
    }
}

/// Conditionally resize through the primary backend: a source smaller
/// than desired in either dimension is returned unchanged, and a resized
/// result is the backend's resize of the source, fitting entirely
/// within the desired box.
pub fn resize_to_fit(img: DecodedImage, dw: u32, dh: u32) -> (r: DecodedImage)
    requires
        dw >= 1,
        dh >= 1,
    ensures
        !needs_resize(img.width, img.height, dw, dh) ==> r == img,
        needs_resize(img.width, img.height, dw, dh) ==> r.handle == resized_image(
            img.handle,
            dw,
            dh,
        ) && (r.width, r.height) == fit_dims_of(img.handle, dw, dh) && r.width <= dw && r.height
            <= dh,
{
    if img.width < dw || img.height < dh {
        img
    } else {
        let (handle, width, height) = imagers_resize(&img.handle, dw, dh);
        DecodedImage { handle, width, height }
    }
}

} // verus!
