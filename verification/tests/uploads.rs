use server::config::AuthMode;
use server::error::AppError;
use server::image_upload::{ImageStorageError, ImageValidationError, MAX_IMAGE_FILE_BYTES};
use server::problem::asset_url::PublicBaseAssetUrlResolver;
use server::problem::authoring::ProblemAuthoringError;
use server::problem::model::Asset;
use server::repository::RepositoryError;
use server::uploads::{
    AssetRoutes, AssetUploadClaimOutcome, AssetUploadTarget, ClaimStep,
    CreateProblemRecordOutcome, UploadPart, UploadParts, asset_request_path, asset_routes,
    check_file_chunk, check_upload_target, claim_step, completion_error, created_problem_id,
    image_storage_error, image_validation_error, invalid_multipart_error, map_alt_multipart_error,
    map_multipart_error, new_image_asset, parse_idempotency_key, problem_repository_error,
    problem_request_path, problem_validation_error, public_asset_response,
};

const V4_TEXT: &str = "550e8400-e29b-41d4-a716-446655440000";
const V4_ID: u128 = 0x550e8400_e29b_41d4_a716_446655440000;
const V1_TEXT: &str = "6ba7b810-9dad-11d1-80b4-00c04fd430c8";
const PROBLEM_TEXT: &str = "7c9e6679-7425-40de-944b-e07fc1f90ae7";
const PROBLEM_ID: u128 = 0x7c9e6679_7425_40de_944b_e07fc1f90ae7;

fn api(status: u16, code: &'static str, message: &str) -> AppError {
    AppError::Api { status, code, message: message.to_owned() }
}

#[test]
fn idempotency_key_must_be_one_uuid_v4() {
    assert_eq!(
        parse_idempotency_key(&vec![]),
        Err(api(400, "IDEMPOTENCY_KEY_REQUIRED", "Idempotency-Key header is required"))
    );
    assert_eq!(
        parse_idempotency_key(&vec![Some(V4_TEXT.to_owned()), Some(V4_TEXT.to_owned())]),
        Err(api(
            400,
            "INVALID_IDEMPOTENCY_KEY",
            "multiple Idempotency-Key headers are not allowed"
        ))
    );
    assert_eq!(
        parse_idempotency_key(&vec![None]),
        Err(api(400, "INVALID_IDEMPOTENCY_KEY", "Idempotency-Key header is invalid"))
    );
    let not_v4 = Err(api(400, "INVALID_IDEMPOTENCY_KEY", "Idempotency-Key must be a UUID v4"));
    assert_eq!(parse_idempotency_key(&vec![Some("key-1".to_owned())]), not_v4);
    assert_eq!(parse_idempotency_key(&vec![Some(V1_TEXT.to_owned())]), not_v4);
    assert_eq!(parse_idempotency_key(&vec![Some(V4_TEXT.to_owned())]), Ok(V4_ID));
}

#[test]
fn refusals_reply_with_their_status_and_code() {
    let error = api(400, "INVALID_IDEMPOTENCY_KEY", "Idempotency-Key header is invalid");
    assert_eq!(
        error.reply(),
        (400, "INVALID_IDEMPOTENCY_KEY", "Idempotency-Key header is invalid".to_owned())
    );
    assert_eq!(AppError::api(409, "CONFLICT_X", "x"), api(409, "CONFLICT_X", "x"));
}

#[test]
fn multipart_bodies_take_one_file_and_one_alt() {
    let mut parts = UploadParts::new();
    assert_eq!(parts.part_for(Some("file")), Ok(UploadPart::File));
    parts.set_file(vec![1, 2, 3]);
    assert_eq!(parts.part_for(Some("file")), Err(invalid_multipart_error()));
    assert_eq!(parts.part_for(Some("alt")), Ok(UploadPart::Alt));
    assert_eq!(parts.part_for(Some("caption")), Err(invalid_multipart_error()));
    assert_eq!(parts.part_for(None), Err(invalid_multipart_error()));
    parts.set_alt("a cat".to_owned());
    assert_eq!(parts.part_for(Some("alt")), Err(invalid_multipart_error()));
    assert_eq!(parts.finish(), Ok((vec![1, 2, 3], "a cat".to_owned())));

    let mut only_file = UploadParts::new();
    only_file.set_file(vec![]);
    assert_eq!(only_file.finish(), Err(invalid_multipart_error()));
    assert_eq!(UploadParts::new().finish(), Err(invalid_multipart_error()));
    assert_eq!(
        invalid_multipart_error(),
        api(
            400,
            "INVALID_MULTIPART",
            "multipart body must contain one file field and one alt field"
        )
    );
}

#[test]
fn file_chunks_stop_at_the_size_limit() {
    assert_eq!(check_file_chunk(0, MAX_IMAGE_FILE_BYTES), Ok(()));
    assert_eq!(check_file_chunk(MAX_IMAGE_FILE_BYTES - 10, 10), Ok(()));
    let too_large = Err(api(413, "IMAGE_TOO_LARGE", "image file is too large"));
    assert_eq!(check_file_chunk(MAX_IMAGE_FILE_BYTES - 10, 11), too_large);
    assert_eq!(check_file_chunk(MAX_IMAGE_FILE_BYTES + 1, 0), too_large);
    assert_eq!(check_file_chunk(usize::MAX, usize::MAX), too_large);
}

#[test]
fn unreadable_multipart_bodies_are_refused() {
    assert_eq!(map_multipart_error(413), api(413, "IMAGE_TOO_LARGE", "image file is too large"));
    assert_eq!(map_multipart_error(400), invalid_multipart_error());
    assert_eq!(
        map_alt_multipart_error(413),
        api(422, "INVALID_ALT", "image alt text is invalid")
    );
    assert_eq!(map_alt_multipart_error(500), invalid_multipart_error());
}

#[test]
fn refused_images_have_their_own_replies() {
    let cases = [
        (ImageValidationError::EmptyFile, 422, "EMPTY_FILE", "image file is empty"),
        (ImageValidationError::ImageTooLarge, 413, "IMAGE_TOO_LARGE", "image file is too large"),
        (
            ImageValidationError::UnsupportedImageType,
            415,
            "UNSUPPORTED_IMAGE_TYPE",
            "image type is not supported",
        ),
        (ImageValidationError::InvalidImage, 422, "INVALID_IMAGE", "image data is invalid"),
        (
            ImageValidationError::ImageDimensionsExceeded,
            422,
            "IMAGE_DIMENSIONS_EXCEEDED",
            "image dimensions exceed the limit",
        ),
        (ImageValidationError::InvalidAlt, 422, "INVALID_ALT", "image alt text is invalid"),
    ];
    for (error, status, code, message) in cases {
        assert_eq!(image_validation_error(error), api(status, code, message));
    }
    assert_eq!(
        image_storage_error(ImageStorageError::ProviderError),
        api(502, "STORAGE_PROVIDER_ERROR", "storage provider rejected the upload")
    );
    assert_eq!(
        image_storage_error(ImageStorageError::Unavailable),
        api(503, "STORAGE_UNAVAILABLE", "storage provider is unavailable")
    );
}

#[test]
fn uploads_need_an_unpublished_room() {
    assert_eq!(
        check_upload_target(None),
        Err(api(404, "ROOM_OR_PROBLEM_NOT_FOUND", "room or problem was not found"))
    );
    assert_eq!(
        check_upload_target(Some(AssetUploadTarget { is_published: true })),
        Err(api(409, "PUBLISHED_ROOM_IMMUTABLE", "published room cannot be modified"))
    );
    assert_eq!(check_upload_target(Some(AssetUploadTarget { is_published: false })), Ok(()));
}

#[test]
fn request_paths_name_room_and_problem() {
    assert_eq!(
        asset_request_path(V4_ID, PROBLEM_ID),
        format!("/api/rooms/{V4_TEXT}/problems/{PROBLEM_TEXT}/assets")
    );
    assert_eq!(problem_request_path(V4_ID), format!("/api/rooms/{V4_TEXT}/problems"));
}

fn asset() -> Asset {
    Asset {
        asset_type: "image".to_owned(),
        object_key: "v1/problems/a/b/c.png".to_owned(),
        alt: "a cat".to_owned(),
    }
}

#[test]
fn claims_replay_refuse_or_go_on() {
    assert_eq!(
        claim_step(AssetUploadClaimOutcome::Completed { asset: asset() }),
        Ok(ClaimStep::Replay(asset()))
    );
    assert_eq!(
        claim_step(AssetUploadClaimOutcome::Reused),
        Err(api(
            409,
            "IDEMPOTENCY_KEY_REUSED",
            "Idempotency-Key was reused with different request data"
        ))
    );
    assert_eq!(
        claim_step(AssetUploadClaimOutcome::InProgress),
        Err(api(
            409,
            "IDEMPOTENCY_REQUEST_IN_PROGRESS",
            "request with this Idempotency-Key is still being processed"
        ))
    );
    assert_eq!(
        claim_step(AssetUploadClaimOutcome::Acquired { claim_token: 77 }),
        Ok(ClaimStep::Upload(77))
    );
}

#[test]
fn new_assets_are_images_under_versioned_keys() {
    let stored = new_image_asset(V4_ID, PROBLEM_ID, V4_ID, "webp", "alt".to_owned());
    assert_eq!(stored.asset_type, "image");
    assert_eq!(
        stored.object_key,
        format!("v1/problems/{V4_TEXT}/{PROBLEM_TEXT}/{V4_TEXT}.webp")
    );
    assert_eq!(stored.alt, "alt");
}

#[test]
fn failed_completions_keep_only_the_published_room() {
    assert_eq!(
        completion_error(RepositoryError::PublishedRoomImmutable),
        api(409, "PUBLISHED_ROOM_IMMUTABLE", "published room cannot be modified")
    );
    assert_eq!(
        completion_error(RepositoryError::RunNotFound),
        api(500, "INTERNAL_SERVER_ERROR", "failed to complete image upload")
    );
}

#[test]
fn stored_assets_are_shown_with_their_urls() {
    let resolver = PublicBaseAssetUrlResolver::new("https://cdn.example/".to_owned());
    let shown = public_asset_response(&resolver, asset()).expect("resolvable");
    assert_eq!(shown.r_type, "image");
    assert_eq!(shown.url, "https://cdn.example/v1/problems/a/b/c.png");
    assert_eq!(shown.alt, "a cat");
}

#[test]
fn refused_problems_have_their_own_replies() {
    let error = ProblemAuthoringError::Validation { field: "title".to_owned(), message: "x" };
    assert_eq!(
        problem_validation_error(error),
        api(422, "INVALID_PROBLEM", "problem data is invalid")
    );
    assert_eq!(
        problem_repository_error(RepositoryError::RoomNotFound),
        api(404, "ROOM_NOT_FOUND", "room was not found")
    );
    assert_eq!(
        problem_repository_error(RepositoryError::PublishedRoomImmutable),
        api(409, "PUBLISHED_ROOM_IMMUTABLE", "published room cannot be modified")
    );
    assert_eq!(
        problem_repository_error(RepositoryError::ProblemNumberConflict),
        api(409, "PROBLEM_NUMBER_CONFLICT", "problem number is already used in the room")
    );
    assert_eq!(
        problem_repository_error(RepositoryError::InvalidProblemDependency),
        api(422, "INVALID_PROBLEM", "problem dependency is invalid")
    );
    assert_eq!(
        problem_repository_error(RepositoryError::RunUpdateConflict),
        AppError::Internal {
            source: "run update affected an unexpected number of rows".to_owned()
        }
    );
}

#[test]
fn created_problems_are_replayed_or_refused() {
    assert_eq!(created_problem_id(CreateProblemRecordOutcome::Created { problem_id: 4 }), Ok(4));
    assert_eq!(created_problem_id(CreateProblemRecordOutcome::Replayed { problem_id: 5 }), Ok(5));
    assert_eq!(
        created_problem_id(CreateProblemRecordOutcome::Reused),
        Err(api(
            409,
            "IDEMPOTENCY_KEY_REUSED",
            "Idempotency-Key was reused with different request data"
        ))
    );
}

#[test]
fn asset_routes_depend_on_mode_storage_and_signer() {
    assert_eq!(
        asset_routes(AuthMode::Demo, true, true),
        AssetRoutes { download: true, upload: true }
    );
    assert_eq!(
        asset_routes(AuthMode::NeoShowcase, true, false),
        AssetRoutes { download: false, upload: false }
    );
    assert_eq!(
        asset_routes(AuthMode::Demo, false, true),
        AssetRoutes { download: true, upload: false }
    );
}
