use vstd::prelude::*;
use crate::sanitize::{sanitize_name, sanitize_spec};
use crate::validate::{
    ascii_lowercase, extension_of, extract_extension, lowered_extension, UploadError,
};
use vstd::string::StringExecFns;

verus! {

// ----------------------------------------------------------------------------
// The opaque decoded image and its trusted boundary into the image crate.
// ----------------------------------------------------------------------------

#[verifier::external_type_specification]
#[verifier::external_body]
pub struct ExDynamicImage(image::DynamicImage);

/// A decoded single-frame image. The pixel data itself is opaque; `width` and
/// `height` mirror the wrapped image's dimensions, which is what every
/// contract of this module speaks about. Values of this type come only out of
/// the trusted decode and resize boundary below, which keeps that mirror
/// honest.
pub struct DecodedImage {
    img: image::DynamicImage,
    /// The wrapped image's width in pixels.
    pub width: u32,
    /// The wrapped image's height in pixels.
    pub height: u32,
}

impl DecodedImage {
    /// The width the contracts speak about.
    pub closed spec fn spec_width(&self) -> u32 {
        self.width
    }

    /// The height the contracts speak about.
    pub closed spec fn spec_height(&self) -> u32 {
        self.height
    }
}

/// The dimensions of the image that the given bytes decode to, under the
/// built-in magic-byte format detection and the built-in codecs with their
/// default limits; `None` when detection or decoding fails. Stated of that
/// fixed path only, the result depends on the bytes alone.
pub uninterp spec fn decoded_image_of(bytes: Seq<u8>) -> Option<(u32, u32)>;

/// Relies on `image::guess_format` (built-in magic bytes only) and on
/// `image::ImageReader::with_format(..).decode()`: an explicit built-in
/// format dispatches straight to the built-in codec, so neither step
/// consults the crate's global hook registry, and the result depends on the
/// bytes alone. The decoded image reports its own pixel dimensions.
#[verifier::external_body]
fn decode_image(bytes: &Vec<u8>) -> (r: Result<DecodedImage, UploadError>)
    ensures
        match r {
            Ok(d) => decoded_image_of(bytes@) == Some((d.width, d.height)),
            Err(e) => decoded_image_of(bytes@) is None && (e is InvalidFormat
                || e is DecodeError),
        },
{
    let format = image::guess_format(bytes.as_slice())
        .map_err(|e| UploadError::InvalidFormat { message: e.to_string() })?;
    let img = image::ImageReader::with_format(std::io::Cursor::new(bytes.as_slice()), format)
        .decode()
        .map_err(|e| UploadError::DecodeError { message: e.to_string() })?;
    let width = img.width();
    let height = img.height();
    Ok(DecodedImage { img, width, height })
}

/// Relies on `image::DynamicImage::resize_exact` with the Lanczos3 filter:
/// the result is an image of exactly the requested dimensions, aspect ratio
/// not preserved.
#[verifier::external_body]
fn resize_exact_image(img: &DecodedImage, nw: u32, nh: u32) -> (r: DecodedImage)
    requires
        nw >= 1,
        nh >= 1,
    ensures
        r.width == nw,
        r.height == nh,
{
    DecodedImage {
        img: img.img.resize_exact(nw, nh, image::imageops::FilterType::Lanczos3),
        width: nw,
        height: nh,
    }
}

/// Relies on `image::codecs::png::PngEncoder::write_image`: encodes the RGBA8
/// pixels under the image's own dimensions, so decoding its output within the
/// supported bounds reads the same dimensions back. Writing to an in-memory
/// buffer fails only for a zero-sized image, which the png encoder rejects.
#[verifier::external_body]
fn encode_png(img: &DecodedImage) -> (r: Result<Vec<u8>, UploadError>)
    ensures
        match r {
            Ok(out) => encode_supported(TargetFormat::Png, img.width as int, img.height as int)
                ==> decoded_image_of(out@) == Some((img.width, img.height)),
            Err(e) => e is EncodeError && !encode_supported(
                TargetFormat::Png,
                img.width as int,
                img.height as int,
            ),
        },
{
    let mut buf: Vec<u8> = Vec::new();
    let encoder = image::codecs::png::PngEncoder::new(&mut buf);
    image::ImageEncoder::write_image(
        encoder,
        &img.img.to_rgba8(),
        img.width,
        img.height,
        image::ExtendedColorType::Rgba8,
    ).map_err(|e| UploadError::EncodeError { message: e.to_string() })?;
    Ok(buf)
}

/// Relies on `image::codecs::jpeg::JpegEncoder::write_image`: encodes the
/// RGB8 pixels (alpha dropped) under the image's own dimensions, so decoding
/// its output within the supported bounds reads the same dimensions back.
/// Writing to an in-memory buffer fails only when a side falls outside
/// 1..=65535, which the jpeg encoder rejects as an invalid size.
#[verifier::external_body]
fn encode_jpeg(img: &DecodedImage) -> (r: Result<Vec<u8>, UploadError>)
    ensures
        match r {
            Ok(out) => encode_supported(TargetFormat::Jpeg, img.width as int, img.height as int)
                ==> decoded_image_of(out@) == Some((img.width, img.height)),
            Err(e) => e is EncodeError && !encode_supported(
                TargetFormat::Jpeg,
                img.width as int,
                img.height as int,
            ),
        },
{
    let mut buf: Vec<u8> = Vec::new();
    let encoder = image::codecs::jpeg::JpegEncoder::new(&mut buf);
    image::ImageEncoder::write_image(
        encoder,
        &img.img.to_rgb8(),
        img.width,
        img.height,
        image::ExtendedColorType::Rgb8,
    ).map_err(|e| UploadError::EncodeError { message: e.to_string() })?;
    Ok(buf)
}

/// Relies on `image::codecs::gif::GifEncoder::encode_frame`: writes one RGBA8
/// frame under the image's own dimensions, so decoding its output within the
/// supported bounds reads the same dimensions back. Writing to an in-memory
/// buffer fails only when a side exceeds 65535, which the gif dimension
/// conversion rejects.
#[verifier::external_body]
fn encode_gif(img: &DecodedImage) -> (r: Result<Vec<u8>, UploadError>)
    ensures
        match r {
            Ok(out) => encode_supported(TargetFormat::Gif, img.width as int, img.height as int)
                ==> decoded_image_of(out@) == Some((img.width, img.height)),
            Err(e) => e is EncodeError && !encode_supported(
                TargetFormat::Gif,
                img.width as int,
                img.height as int,
            ),
        },
{
    let mut buf: Vec<u8> = Vec::new();
    let mut encoder = image::codecs::gif::GifEncoder::new(&mut buf);
    let frame = image::Frame::new(img.img.to_rgba8());
    encoder.encode_frame(frame).map_err(
        |e| UploadError::EncodeError { message: e.to_string() },
    )?;
    drop(encoder);
    Ok(buf)
}

// ----------------------------------------------------------------------------
// The target formats and the allow-list of the image uploader.
// ----------------------------------------------------------------------------

/// The closed set of encoder targets, selected once from the validated
/// extension.
#[derive(Clone, Copy, Debug, PartialEq, Eq, Structural)]
pub enum TargetFormat {
    Png,
    Jpeg,
    Gif,
}

/// The encoder target a lower-cased extension names, if any.
pub open spec fn format_of_ext(ext: Seq<char>) -> Option<TargetFormat> {
    if ext == seq!['p', 'n', 'g'] {
        Some(TargetFormat::Png)
    } else if ext == seq!['j', 'p', 'g'] || ext == seq!['j', 'p', 'e', 'g'] {
        Some(TargetFormat::Jpeg)
    } else if ext == seq!['g', 'i', 'f'] {
        Some(TargetFormat::Gif)
    } else {
        None
    }
}

/// The fixed allow-list of the image uploader: exactly the extensions that
/// name an encoder target.
pub open spec fn image_type_allowed(ext: Seq<char>) -> bool {
    format_of_ext(ext) is Some
}

/// The dimensions for which an encoder target is owed a clean run: both
/// sides positive (the png encoder rejects zero width or height), each side
/// within the format's own cap (JPEG and GIF hold sides in 16 bits), and a
/// total pixel count comfortably inside the built-in decoders' default
/// allocation limits, so that the encoded output also decodes back.
pub open spec fn encode_supported(fmt: TargetFormat, w: int, h: int) -> bool {
    match fmt {
        TargetFormat::Png => 1 <= w && 1 <= h && w * h <= 0x1000000,
        TargetFormat::Jpeg => 1 <= w <= 65535 && 1 <= h <= 65535 && w * h <= 0x1000000,
        TargetFormat::Gif => 1 <= w <= 65535 && 1 <= h <= 65535 && w * h <= 0x1000000,
    }
}

/// Compares a string against a short literal, character sequence by
/// character sequence.
fn string_is(s: &String, lit: &str) -> (r: bool)
    ensures
        r == (s@ == lit@),
{
    s.eq(&String::from_str(lit))
}

/// Selects the encoder target that the lower-cased extension names.
pub fn target_format_of(ext: &String) -> (r: Option<TargetFormat>)
    ensures
        r == format_of_ext(ext@),
{
    proof {
        reveal_strlit("png");
        reveal_strlit("jpg");
        reveal_strlit("jpeg");
        reveal_strlit("gif");
        assert("png"@ =~= seq!['p', 'n', 'g']);
        assert("jpg"@ =~= seq!['j', 'p', 'g']);
        assert("jpeg"@ =~= seq!['j', 'p', 'e', 'g']);
        assert("gif"@ =~= seq!['g', 'i', 'f']);
    }
    if string_is(ext, "png") {
        Some(TargetFormat::Png)
    } else if string_is(ext, "jpg") || string_is(ext, "jpeg") {
        Some(TargetFormat::Jpeg)
    } else if string_is(ext, "gif") {
        Some(TargetFormat::Gif)
    } else {
        None
    }
}

/// Encodes the image for the format its extension names; the defensive
/// `UnsupportedFormat` arm answers every extension outside the closed set.
/// Within the format's supported dimensions, success is owed and the output
/// decodes back to the image's dimensions.
pub fn encode_for_extension(img: &DecodedImage, ext: &String) -> (r: Result<
    Vec<u8>,
    UploadError,
>)
    ensures
        match r {
            Ok(out) => image_type_allowed(ext@) && (encode_supported(
                format_of_ext(ext@)->0,
                img.spec_width() as int,
                img.spec_height() as int,
            ) ==> decoded_image_of(out@) == Some((img.spec_width(), img.spec_height()))),
            Err(e) => match e {
                UploadError::UnsupportedFormat => !image_type_allowed(ext@),
                UploadError::EncodeError { .. } => image_type_allowed(ext@)
                    && !encode_supported(
                    format_of_ext(ext@)->0,
                    img.spec_width() as int,
                    img.spec_height() as int,
                ),
                _ => false,
            },
        },
{
    match target_format_of(ext) {
        None => Err(UploadError::UnsupportedFormat),
        Some(TargetFormat::Png) => encode_png(img),
        Some(TargetFormat::Jpeg) => encode_jpeg(img),
        Some(TargetFormat::Gif) => encode_gif(img),
    }
}

// ----------------------------------------------------------------------------
// The resize policy.
// ----------------------------------------------------------------------------

/// The four resize behaviours, selected once from the requested (width,
/// height) pair.
#[derive(Clone, Copy, Debug, PartialEq, Eq, Structural)]
pub enum ResizePolicy {
    /// Pass the image through unchanged.
    NoResize,
    /// Shrink proportionally to this width, when the image is wider.
    ScaleToWidth(u32),
    /// Shrink proportionally to this height, when the image is taller.
    ScaleToHeight(u32),
    /// Force exactly these dimensions, aspect ratio ignored.
    ForceExact(u32, u32),
}

/// Which policy a requested (width, height) pair selects: one positive axis
/// bounds that axis proportionally; two positive axes force an exact size;
/// anything else (both zero, or a negative value) means no resize.
pub open spec fn policy_of(width: i32, height: i32) -> ResizePolicy {
    if width > 0 && height == 0 {
        ResizePolicy::ScaleToWidth(width as u32)
    } else if width == 0 && height > 0 {
        ResizePolicy::ScaleToHeight(height as u32)
    } else if width > 0 && height > 0 {
        ResizePolicy::ForceExact(width as u32, height as u32)
    } else {
        ResizePolicy::NoResize
    }
}

/// Every policy that `policy_of` selects keeps its target sides positive.
pub open spec fn policy_wf(p: ResizePolicy) -> bool {
    match p {
        ResizePolicy::NoResize => true,
        ResizePolicy::ScaleToWidth(w) => w >= 1,
        ResizePolicy::ScaleToHeight(h) => h >= 1,
        ResizePolicy::ForceExact(w, h) => w >= 1 && h >= 1,
    }
}

/// Selects the resize policy for a requested (width, height) pair.
pub fn select_resize_policy(width: i32, height: i32) -> (p: ResizePolicy)
    ensures
        p == policy_of(width, height),
        policy_wf(p),
{
    if width > 0 && height == 0 {
        ResizePolicy::ScaleToWidth(width as u32)
    } else if width == 0 && height > 0 {
        ResizePolicy::ScaleToHeight(height as u32)
    } else if width > 0 && height > 0 {
        ResizePolicy::ForceExact(width as u32, height as u32)
    } else {
        ResizePolicy::NoResize
    }
}

/// The proportionally scaled side: `side * bound / other`, rounded to the
/// nearest whole pixel, and never below one.
pub open spec fn scaled_side(side: u32, bound: u32, other: u32) -> int
    recommends
        other > 0,
{
    let exact = ((side as int) * (bound as int) + (other as int) / 2) / (other as int);
    if exact < 1 {
        1
    } else {
        exact
    }
}

/// The dimensions an image of size (ow, oh) has after a policy is applied.
/// A proportional bound only ever shrinks: an image already within it passes
/// through unchanged.
pub open spec fn output_dims(ow: u32, oh: u32, p: ResizePolicy) -> (int, int) {
    match p {
        ResizePolicy::NoResize => (ow as int, oh as int),
        ResizePolicy::ScaleToWidth(w) => if ow > w {
            (w as int, scaled_side(oh, w, ow))
        } else {
            (ow as int, oh as int)
        },
        ResizePolicy::ScaleToHeight(h) => if oh > h {
            (scaled_side(ow, h, oh), h as int)
        } else {
            (ow as int, oh as int)
        },
        ResizePolicy::ForceExact(w, h) => (w as int, h as int),
    }
}

/// Computes the proportionally scaled side for a shrink.
fn scale_side(side: u32, bound: u32, other: u32) -> (r: u32)
    requires
        0 < other,
        bound < other,
    ensures
        r as int == scaled_side(side, bound, other),
        r >= 1,
{
    proof {
        assert(((side as int) * (bound as int) + (other as int) / 2) / (other as int)
            <= side as int) by (nonlinear_arith)
            requires
                0 < other,
                bound < other,
        ;
        assert((side as int) * (bound as int) <= 0xffff_ffff * 0xffff_ffff)
            by (nonlinear_arith)
            requires
                0 <= side <= 0xffff_ffff,
                0 <= bound <= 0xffff_ffff,
        ;
    }
    let num: u64 = (side as u64) * (bound as u64) + (other as u64) / 2;
    let exact: u64 = num / (other as u64);
    let r: u64 = if exact < 1 {
        1
    } else {
        exact
    };
    r as u32
}

/// Applies a resize policy to a decoded image; the result's dimensions are
/// exactly what `output_dims` states.
pub fn apply_resize(img: DecodedImage, p: ResizePolicy) -> (r: DecodedImage)
    requires
        policy_wf(p),
    ensures
        r.spec_width() as int == output_dims(img.spec_width(), img.spec_height(), p).0,
        r.spec_height() as int == output_dims(img.spec_width(), img.spec_height(), p).1,
{
    match p {
        ResizePolicy::NoResize => img,
        ResizePolicy::ScaleToWidth(w) => {
            if img.width > w {
                let nh = scale_side(img.height, w, img.width);
                resize_exact_image(&img, w, nh)
            } else {
                img
            }
        },
        ResizePolicy::ScaleToHeight(h) => {
            if img.height > h {
                let nw = scale_side(img.width, h, img.height);
                resize_exact_image(&img, nw, h)
            } else {
                img
            }
        },
        ResizePolicy::ForceExact(w, h) => resize_exact_image(&img, w, h),
    }
}

// ----------------------------------------------------------------------------
// The image uploader's compute core: validate, decode, resize, re-encode.
// ----------------------------------------------------------------------------

/// The outcome of a successful image intake: the sanitized destination file
/// name, the re-encoded bytes, and the output dimensions they decode to.
pub struct ProcessedImage {
    /// The sanitized destination file name.
    pub file_name: String,
    /// The re-encoded image, ready to be written out.
    pub data: Vec<u8>,
    /// The output image's width in pixels.
    pub width: u32,
    /// The output image's height in pixels.
    pub height: u32,
}

/// The compute core of the image uploader. In order: the inclusive size
/// bound on the input bytes (checked before anything else), the extension
/// allow-list, the sanitized destination name, decoding with format
/// auto-detection, the resize policy, and re-encoding for the extension's
/// format. It touches no filesystem; the caller writes `data` to
/// `base_dir/file_name`.
pub fn process_image_upload(
    original_name: &str,
    file_bytes: &Vec<u8>,
    max_size: usize,
    width: i32,
    height: i32,
) -> (r: Result<ProcessedImage, UploadError>)
    ensures
        match r {
            Ok(p) => {
                &&& file_bytes@.len() <= max_size
                &&& lowered_extension(original_name@) is Some
                &&& image_type_allowed(lowered_extension(original_name@)->0)
                &&& decoded_image_of(file_bytes@) is Some
                &&& p.width as int == output_dims(
                    (decoded_image_of(file_bytes@)->0).0,
                    (decoded_image_of(file_bytes@)->0).1,
                    policy_of(width, height),
                ).0
                &&& p.height as int == output_dims(
                    (decoded_image_of(file_bytes@)->0).0,
                    (decoded_image_of(file_bytes@)->0).1,
                    policy_of(width, height),
                ).1
                &&& (encode_supported(
                    format_of_ext(lowered_extension(original_name@)->0)->0,
                    p.width as int,
                    p.height as int,
                ) ==> decoded_image_of(p.data@) == Some((p.width, p.height)))
                &&& p.file_name@ == sanitize_spec(original_name@)
            },
            Err(e) => match e {
                UploadError::TooLarge { size, max_size: bound } => {
                    &&& size == file_bytes@.len()
                    &&& bound == max_size
                    &&& file_bytes@.len() > max_size
                },
                UploadError::NoExtension => {
                    &&& file_bytes@.len() <= max_size
                    &&& extension_of(original_name@) is None
                },
                UploadError::DisallowedType { ext } => {
                    &&& file_bytes@.len() <= max_size
                    &&& lowered_extension(original_name@) == Some(ext@)
                    &&& !image_type_allowed(ext@)
                },
                UploadError::InvalidFormat { .. } => {
                    &&& file_bytes@.len() <= max_size
                    &&& lowered_extension(original_name@) is Some
                    &&& image_type_allowed(lowered_extension(original_name@)->0)
                    &&& decoded_image_of(file_bytes@) is None
                },
                UploadError::DecodeError { .. } => {
                    &&& file_bytes@.len() <= max_size
                    &&& lowered_extension(original_name@) is Some
                    &&& image_type_allowed(lowered_extension(original_name@)->0)
                    &&& decoded_image_of(file_bytes@) is None
                },
                UploadError::EncodeError { .. } => {
                    &&& file_bytes@.len() <= max_size
                    &&& lowered_extension(original_name@) is Some
                    &&& image_type_allowed(lowered_extension(original_name@)->0)
                    &&& decoded_image_of(file_bytes@) is Some
                    &&& !encode_supported(
                        format_of_ext(lowered_extension(original_name@)->0)->0,
                        output_dims(
                            (decoded_image_of(file_bytes@)->0).0,
                            (decoded_image_of(file_bytes@)->0).1,
                            policy_of(width, height),
                        ).0,
                        output_dims(
                            (decoded_image_of(file_bytes@)->0).0,
                            (decoded_image_of(file_bytes@)->0).1,
                            policy_of(width, height),
                        ).1,
                    )
                },
                _ => false,
            },
        },
{
    if file_bytes.len() > max_size {
        return Err(UploadError::TooLarge { size: file_bytes.len(), max_size });
    }
    let ext = match extract_extension(original_name) {
        None => {
            return Err(UploadError::NoExtension);
        },
        Some(e) => e,
    };
    let ext = ascii_lowercase(ext.as_str());
    if target_format_of(&ext).is_none() {
        return Err(UploadError::DisallowedType { ext });
    }
    let file_name = sanitize_name(original_name);
    let decoded = match decode_image(file_bytes) {
        Err(e) => {
            return Err(e);
        },
        Ok(d) => d,
    };
    let policy = select_resize_policy(width, height);
    let resized = apply_resize(decoded, policy);
    let out_w = resized.width;
    let out_h = resized.height;
    match encode_for_extension(&resized, &ext) {
        Err(e) => Err(e),
        Ok(data) => Ok(ProcessedImage { file_name, data, width: out_w, height: out_h }),
    }
}

} // verus!
