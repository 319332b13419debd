//! Checking uploaded problem images and naming where they are stored.
//!
//! The `image` crate recognises, measures and decodes the data; `sha2`
//! digests it.
use vstd::prelude::*;

use crate::ids::{uuid_text, uuid_text_of};
use crate::text::{all_white_space, char_count, concat_str, from_chars, to_chars, trim_chars, trim_seq};

verus! {

/// The largest image accepted, in bytes.
pub const MAX_IMAGE_FILE_BYTES: usize = 5242880;
/// The longest edge accepted, in pixels.
pub const MAX_IMAGE_EDGE: u32 = 4096;
/// The most pixels accepted.
pub const MAX_IMAGE_PIXELS: u64 = 16777216;
/// The longest alternative text accepted, in characters.
pub const MAX_ALT_CHARACTERS: usize = 200;
/// The seconds an upload may take before storage counts as unavailable.
pub const IMAGE_STORAGE_TIMEOUT_SECS: u64 = 10;
/// The `Cache-Control` stored with an image.
pub const IMAGE_CACHE_CONTROL: &'static str = "public, max-age=31536000, immutable";

/// The format the `image` crate reads from the start of some data.
#[derive(Clone, Copy, Debug, PartialEq, Eq, Structural)]
pub enum GuessedFormat {
    Png,
    Jpeg,
    WebP,
    /// A format that uploads do not accept.
    Other,
}

/// An uploaded image that passed every check.
#[derive(Clone, Debug, PartialEq, Eq)]
pub struct ValidatedImage {
    pub bytes: Vec<u8>,
    pub alt: String,
    pub extension: &'static str,
    pub content_type: &'static str,
    pub sha256: [u8; 32],
}

/// Why an uploaded image was refused.
#[derive(Clone, Copy, Debug, PartialEq, Eq, Structural)]
pub enum ImageValidationError {
    EmptyFile,
    ImageTooLarge,
    UnsupportedImageType,
    InvalidImage,
    ImageDimensionsExceeded,
    InvalidAlt,
}

/// An image to store, under its object key.
#[derive(Clone, Debug, PartialEq, Eq)]
pub struct ImageStorageUpload {
    pub object_key: String,
    pub bytes: Vec<u8>,
    pub content_type: &'static str,
}

/// Why storing an image failed.
#[derive(Clone, Copy, Debug, PartialEq, Eq, Structural)]
pub enum ImageStorageError {
    /// The provider refused the upload (a 4xx status).
    ProviderError,
    /// The provider did not answer, or failed (any other status).
    Unavailable,
}

/// What `image::guess_format` reads from `bytes`: `None` where it recognises
/// no format.
pub uninterp spec fn guessed_format_of(bytes: Seq<u8>) -> Option<GuessedFormat>;

/// The width and height that the `image` crate reads from the header of
/// `bytes` in `format`, or `None` where it fails.
pub uninterp spec fn dimensions_of(bytes: Seq<u8>, format: GuessedFormat) -> Option<(u32, u32)>;

/// Whether the `image` crate decodes `bytes` as `format`.
pub uninterp spec fn decodes_as(bytes: Seq<u8>, format: GuessedFormat) -> bool;

/// The SHA-256 digest of `bytes`.
pub uninterp spec fn sha256_of(bytes: Seq<u8>) -> Seq<u8>;

/// Calls `image::guess_format`, which matches the start of `bytes` against
/// the signatures of the formats it knows.
///
/// Trusted: the result is a function of `bytes` alone, named
/// `guessed_format_of`; PNG, JPEG and WebP are told apart, every other format
/// is `Other`, and an error is `None`.
#[verifier::external_body]
fn guess_format(bytes: &[u8]) -> (r: Option<GuessedFormat>)
    ensures
        r == guessed_format_of(bytes@),
{
    match image::guess_format(bytes) {
        Ok(image::ImageFormat::Png) => Some(GuessedFormat::Png),
        Ok(image::ImageFormat::Jpeg) => Some(GuessedFormat::Jpeg),
        Ok(image::ImageFormat::WebP) => Some(GuessedFormat::WebP),
        Ok(_) => Some(GuessedFormat::Other),
        Err(_) => None,
    }
}

/// Calls `ImageReader::with_format(..).into_dimensions()` of the `image`
/// crate, which reads the width and height from the image's header.
///
/// Trusted: the result is a function of `bytes` and `format` alone, named
/// `dimensions_of`; an error is `None`.
#[verifier::external_body]
fn read_dimensions(bytes: &[u8], format: GuessedFormat) -> (r: Option<(u32, u32)>)
    requires
        format != GuessedFormat::Other,
    ensures
        r == dimensions_of(bytes@, format),
{
    let f = match format {
        GuessedFormat::Png => image::ImageFormat::Png,
        GuessedFormat::Jpeg => image::ImageFormat::Jpeg,
        _ => image::ImageFormat::WebP,
    };
    match image::ImageReader::with_format(std::io::Cursor::new(bytes), f).into_dimensions() {
        Ok(d) => Some(d),
        Err(_) => None,
    }
}

/// Calls `ImageReader::with_format(..).decode()` of the `image` crate, which
/// decodes the whole image under the reader's default limits.
///
/// Trusted: whether it succeeds is a function of `bytes` and `format` alone,
/// named `decodes_as`.
#[verifier::external_body]
fn decode_image(bytes: &[u8], format: GuessedFormat) -> (r: bool)
    requires
        format != GuessedFormat::Other,
    ensures
        r == decodes_as(bytes@, format),
{
    let f = match format {
        GuessedFormat::Png => image::ImageFormat::Png,
        GuessedFormat::Jpeg => image::ImageFormat::Jpeg,
        _ => image::ImageFormat::WebP,
    };
    image::ImageReader::with_format(std::io::Cursor::new(bytes), f).decode().is_ok()
}

/// Calls `Sha256::digest` of the `sha2` crate.
///
/// Trusted: the digest is a function of `bytes` alone, named `sha256_of`.
#[verifier::external_body]
fn sha256_digest(bytes: &[u8]) -> (r: [u8; 32])
    ensures
        r@ == sha256_of(bytes@),
{
    <sha2::Sha256 as sha2::Digest>::digest(bytes).into()
}

/// The file extension and content type of an accepted format.
pub open spec fn format_names(format: GuessedFormat) -> Option<(Seq<char>, Seq<char>)> {
    match format {
        GuessedFormat::Png => Some(("png"@, "image/png"@)),
        GuessedFormat::Jpeg => Some(("jpg"@, "image/jpeg"@)),
        GuessedFormat::WebP => Some(("webp"@, "image/webp"@)),
        GuessedFormat::Other => None,
    }
}

/// Why `bytes` with the alternative text `alt` would be refused, if they
/// would. The checks run in this order: emptiness, size, format, header
/// dimensions, limits on them, decoding, alternative text.
pub open spec fn image_refusal(bytes: Seq<u8>, alt: Seq<char>) -> Option<ImageValidationError> {
    if bytes.len() == 0 {
        Some(ImageValidationError::EmptyFile)
    } else if bytes.len() > MAX_IMAGE_FILE_BYTES {
        Some(ImageValidationError::ImageTooLarge)
    } else {
        match guessed_format_of(bytes) {
            None => Some(ImageValidationError::UnsupportedImageType),
            Some(format) => if format_names(format) is None {
                Some(ImageValidationError::UnsupportedImageType)
            } else {
                match dimensions_of(bytes, format) {
                    None => Some(ImageValidationError::InvalidImage),
                    Some((w, h)) => if w == 0 || h == 0 {
                        Some(ImageValidationError::InvalidImage)
                    } else if w > MAX_IMAGE_EDGE || h > MAX_IMAGE_EDGE || w * h > MAX_IMAGE_PIXELS {
                        Some(ImageValidationError::ImageDimensionsExceeded)
                    } else if !decodes_as(bytes, format) {
                        Some(ImageValidationError::InvalidImage)
                    } else if trim_seq(alt).len() == 0 || trim_seq(alt).len() > MAX_ALT_CHARACTERS {
                        Some(ImageValidationError::InvalidAlt)
                    } else {
                        None
                    }
                }
            },
        }
    }
}

/// Checks an uploaded image and its alternative text: the data must be a
/// PNG, JPEG or WebP image of at most 5 MiB, with both edges between 1 and
/// 4096 pixels and at most 16,777,216 pixels, that decodes; the trimmed text
/// must hold between 1 and 200 characters.
#[verifier::rlimit(20)]
pub fn validate_image(bytes: Vec<u8>, alt: &str) -> (r: Result<ValidatedImage, ImageValidationError>)
    ensures
        match image_refusal(bytes@, alt@) {
            Some(e) => r == Err::<ValidatedImage, ImageValidationError>(e),
            None => r matches Ok(v) && v.bytes@ == bytes@ && v.alt@ == trim_seq(alt@)
                && format_names(guessed_format_of(bytes@)->0) == Some((v.extension@, v.content_type@))
                && v.sha256@ == sha256_of(bytes@),
        },
{
    if bytes.len() == 0 {
        return Err(ImageValidationError::EmptyFile);
    }
    if bytes.len() > MAX_IMAGE_FILE_BYTES {
        return Err(ImageValidationError::ImageTooLarge);
    }
    let format = match guess_format(bytes.as_slice()) {
        Some(f) => f,
        None => {
            return Err(ImageValidationError::UnsupportedImageType);
        },
    };
    let (extension, content_type): (&'static str, &'static str) = match format {
        GuessedFormat::Png => ("png", "image/png"),
        GuessedFormat::Jpeg => ("jpg", "image/jpeg"),
        GuessedFormat::WebP => ("webp", "image/webp"),
        GuessedFormat::Other => {
            return Err(ImageValidationError::UnsupportedImageType);
        },
    };
    let (width, height) = match read_dimensions(bytes.as_slice(), format) {
        Some(d) => d,
        None => {
            return Err(ImageValidationError::InvalidImage);
        },
    };
    if width == 0 || height == 0 {
        return Err(ImageValidationError::InvalidImage);
    }
    assert((width as u64) * (height as u64) <= 0xffff_ffffu64 * 0xffff_ffffu64) by (nonlinear_arith)
        requires
            width <= 0xffff_ffffu32,
            height <= 0xffff_ffffu32,
    ;
    let pixel_count: u64 = width as u64 * height as u64;
    if width > MAX_IMAGE_EDGE || height > MAX_IMAGE_EDGE || pixel_count > MAX_IMAGE_PIXELS {
        return Err(ImageValidationError::ImageDimensionsExceeded);
    }
    if !decode_image(bytes.as_slice(), format) {
        return Err(ImageValidationError::InvalidImage);
    }
    let alt_chars = to_chars(alt);
    let trimmed = trim_chars(&alt_chars);
    if trimmed.len() == 0 || trimmed.len() > MAX_ALT_CHARACTERS {
        return Err(ImageValidationError::InvalidAlt);
    }
    let sha256 = sha256_digest(bytes.as_slice());
    Ok(ValidatedImage { bytes, alt: from_chars(&trimmed), extension, content_type, sha256 })
}

/// The object key of an uploaded problem image:
/// `v1/problems/{room}/{problem}/{asset}.{extension}`.
pub open spec fn image_object_key(room_id: u128, problem_id: u128, asset_id: u128, extension: Seq<
    char,
>) -> Seq<char> {
    "v1/problems/"@ + uuid_text_of(room_id) + "/"@ + uuid_text_of(problem_id) + "/"@
        + uuid_text_of(asset_id) + "."@ + extension
}

/// The object key of an uploaded problem image.
pub fn build_image_object_key(room_id: u128, problem_id: u128, asset_id: u128, extension: &str) -> (r:
    String)
    ensures
        r@ == image_object_key(room_id, problem_id, asset_id, extension@),
{
    let mut key = concat_str("v1/problems/", uuid_text(room_id).as_str());
    key = concat_str(key.as_str(), "/");
    key = concat_str(key.as_str(), uuid_text(problem_id).as_str());
    key = concat_str(key.as_str(), "/");
    key = concat_str(key.as_str(), uuid_text(asset_id).as_str());
    key = concat_str(key.as_str(), ".");
    concat_str(key.as_str(), extension)
}

/// What a failed upload means, from the provider's HTTP status if there was
/// one: a 4xx status is a refusal, anything else an outage.
pub fn classify_storage_error(status: Option<u16>) -> (r: ImageStorageError)
    ensures
        r == match status {
            Some(s) => if 400 <= s <= 499 {
                ImageStorageError::ProviderError
            } else {
                ImageStorageError::Unavailable
            },
            None => ImageStorageError::Unavailable,
        },
{
    match status {
        Some(s) => {
            if 400 <= s && s <= 499 {
                ImageStorageError::ProviderError
            } else {
                ImageStorageError::Unavailable
            }
        },
        None => ImageStorageError::Unavailable,
    }
}

} // verus!
