use std::io::Cursor;

use image::{DynamicImage, ImageFormat};
use sha2::{Digest, Sha256};

use server::image_upload::{
    ImageStorageError, ImageValidationError, MAX_ALT_CHARACTERS, MAX_IMAGE_EDGE,
    MAX_IMAGE_FILE_BYTES, build_image_object_key, classify_storage_error, validate_image,
};

fn encoded_image(width: u32, height: u32, format: ImageFormat) -> Vec<u8> {
    let image = DynamicImage::new_rgb8(width, height);
    let mut output = Cursor::new(Vec::new());
    image
        .write_to(&mut output, format)
        .expect("test image should be encoded");

    output.into_inner()
}

fn uuid_value(text: &str) -> u128 {
    uuid::Uuid::parse_str(text).expect("test UUID should be valid").as_u128()
}

#[test]
fn accepts_png_jpeg_and_webp_from_actual_contents() {
    let cases = [
        (ImageFormat::Png, "png", "image/png"),
        (ImageFormat::Jpeg, "jpg", "image/jpeg"),
        (ImageFormat::WebP, "webp", "image/webp"),
    ];

    for (format, expected_extension, expected_content_type) in cases {
        let bytes = encoded_image(1, 1, format);
        let expected_sha256: [u8; 32] = Sha256::digest(&bytes).into();

        let image = validate_image(bytes.clone(), "  ろうそくが立った誕生日ケーキ  ")
            .expect("supported image should be valid");

        assert_eq!(image.bytes, bytes);
        assert_eq!(image.alt, "ろうそくが立った誕生日ケーキ");
        assert_eq!(image.extension, expected_extension);
        assert_eq!(image.content_type, expected_content_type);
        assert_eq!(image.sha256, expected_sha256);
    }
}

#[test]
fn rejects_empty_and_oversized_files() {
    assert_eq!(
        validate_image(Vec::new(), "画像"),
        Err(ImageValidationError::EmptyFile)
    );

    assert_eq!(
        validate_image(vec![0; MAX_IMAGE_FILE_BYTES + 1], "画像",),
        Err(ImageValidationError::ImageTooLarge)
    );
}

#[test]
fn rejects_unsupported_and_broken_image_contents() {
    assert_eq!(
        validate_image(b"GIF89a unsupported".to_vec(), "画像"),
        Err(ImageValidationError::UnsupportedImageType)
    );

    let mut broken_png = encoded_image(1, 1, ImageFormat::Png);
    broken_png.truncate(20);

    assert_eq!(
        validate_image(broken_png, "画像"),
        Err(ImageValidationError::InvalidImage)
    );
}

#[test]
fn rejects_image_edge_over_limit() {
    let image = encoded_image(MAX_IMAGE_EDGE + 1, 1, ImageFormat::Png);

    assert_eq!(
        validate_image(image, "横幅が大きすぎる画像"),
        Err(ImageValidationError::ImageDimensionsExceeded)
    );
}

#[test]
fn trims_alt_and_counts_unicode_characters() {
    let image = encoded_image(1, 1, ImageFormat::Png);
    let maximum_alt = "あ".repeat(MAX_ALT_CHARACTERS);

    let validated = validate_image(image.clone(), &format!("\u{3000}{maximum_alt}\n"))
        .expect("200 Unicode characters should be accepted");

    assert_eq!(validated.alt, maximum_alt);

    assert_eq!(
        validate_image(image.clone(), &"あ".repeat(MAX_ALT_CHARACTERS + 1),),
        Err(ImageValidationError::InvalidAlt)
    );

    assert_eq!(
        validate_image(image, " \n\t\u{3000} "),
        Err(ImageValidationError::InvalidAlt)
    );
}

#[test]
fn builds_versioned_problem_asset_object_key() {
    let room_id = uuid_value("11111111-1111-4111-8111-111111111111");
    let problem_id = uuid_value("22222222-2222-4222-8222-222222222221");
    let asset_id = uuid_value("33333333-3333-4333-8333-333333333333");

    assert_eq!(
        build_image_object_key(room_id, problem_id, asset_id, "png"),
        "v1/problems/11111111-1111-4111-8111-111111111111/22222222-2222-4222-8222-222222222221/33333333-3333-4333-8333-333333333333.png"
    );
}

#[test]
fn object_key_uses_lower_case_hex_with_leading_zeros() {
    assert_eq!(
        build_image_object_key(0, 0xABCDEFu128, u128::MAX, "webp"),
        "v1/problems/00000000-0000-0000-0000-000000000000/00000000-0000-0000-0000-000000abcdef/ffffffff-ffff-ffff-ffff-ffffffffffff.webp"
    );
}

#[test]
fn classifies_storage_provider_statuses() {
    assert_eq!(
        classify_storage_error(Some(400)),
        ImageStorageError::ProviderError
    );
    assert_eq!(
        classify_storage_error(Some(412)),
        ImageStorageError::ProviderError
    );
    assert_eq!(
        classify_storage_error(Some(499)),
        ImageStorageError::ProviderError
    );

    assert_eq!(
        classify_storage_error(Some(500)),
        ImageStorageError::Unavailable
    );
    assert_eq!(
        classify_storage_error(Some(503)),
        ImageStorageError::Unavailable
    );
    assert_eq!(classify_storage_error(None), ImageStorageError::Unavailable);
}

#[test]
fn storage_statuses_around_the_client_error_range() {
    assert_eq!(classify_storage_error(Some(399)), ImageStorageError::Unavailable);
    assert_eq!(classify_storage_error(Some(200)), ImageStorageError::Unavailable);
}

#[test]
fn image_of_the_maximum_edge_is_accepted() {
    let image = encoded_image(MAX_IMAGE_EDGE, 1, ImageFormat::Png);
    assert!(validate_image(image, "画像").is_ok());
}
