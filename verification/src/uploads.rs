//! What the image upload and problem authoring requests decide between their
//! reads and writes: the idempotency key, the parts of a multipart body, the
//! replies to refused images and store outcomes, and which asset routes a
//! server offers.
use vstd::prelude::*;

use crate::config::AuthMode;
use crate::error::{AppError, is_api_error};
use crate::ids::{parse_uuid_text, uuid_is_random, uuid_parse_of, uuid_text, uuid_text_of, uuid_version_of};
use crate::image_upload::{
    ImageStorageError,
    ImageValidationError,
    MAX_IMAGE_FILE_BYTES,
    build_image_object_key,
    image_object_key,
};
use crate::openapi;
use crate::problem::asset_url::AssetUrlResolver;
use crate::problem::authoring::ProblemAuthoringError;
use crate::problem::model::Asset;
use crate::repository::RepositoryError;
use crate::text::concat_str;

verus! {

/// The method of the requests that upload images and create problems.
pub const REQUEST_METHOD: &'static str = "POST";
/// How long an idempotency key is remembered, in hours.
pub const IDEMPOTENCY_TTL_HOURS: i64 = 24;

/// The refusal of a request whose idempotency key is not a version 4 UUID.
pub open spec fn not_v4_key(e: AppError) -> bool {
    is_api_error(e, 400, "INVALID_IDEMPOTENCY_KEY"@, "Idempotency-Key must be a UUID v4"@)
}

/// The idempotency key of a request, from the values of its
/// `Idempotency-Key` headers, each as text, or `None` where a value is not
/// visible ASCII. Exactly one header is allowed, and it must hold a version 4
/// UUID.
pub fn parse_idempotency_key(values: &Vec<Option<String>>) -> (r: Result<u128, AppError>)
    ensures
        values@.len() == 0 ==> (r matches Err(e) && is_api_error(
            e,
            400,
            "IDEMPOTENCY_KEY_REQUIRED"@,
            "Idempotency-Key header is required"@,
        )),
        values@.len() > 1 ==> (r matches Err(e) && is_api_error(
            e,
            400,
            "INVALID_IDEMPOTENCY_KEY"@,
            "multiple Idempotency-Key headers are not allowed"@,
        )),
        values@.len() == 1 ==> match values@[0] {
            None => r matches Err(e) && is_api_error(
                e,
                400,
                "INVALID_IDEMPOTENCY_KEY"@,
                "Idempotency-Key header is invalid"@,
            ),
            Some(v) => match uuid_parse_of(v@) {
                Some(id) => if uuid_version_of(id) == 4 {
                    r == Ok::<u128, AppError>(id)
                } else {
                    r matches Err(e) && not_v4_key(e)
                },
                None => r matches Err(e) && not_v4_key(e),
            },
        },
{
    if values.len() == 0 {
        return Err(
            AppError::api(400, "IDEMPOTENCY_KEY_REQUIRED", "Idempotency-Key header is required"),
        );
    }
    if values.len() > 1 {
        return Err(
            AppError::api(
                400,
                "INVALID_IDEMPOTENCY_KEY",
                "multiple Idempotency-Key headers are not allowed",
            ),
        );
    }
    match &values[0] {
        None => Err(
            AppError::api(400, "INVALID_IDEMPOTENCY_KEY", "Idempotency-Key header is invalid"),
        ),
        Some(v) => match parse_uuid_text(v.as_str()) {
            Some(id) => {
                if uuid_is_random(id) {
                    Ok(id)
                } else {
                    Err(
                        AppError::api(
                            400,
                            "INVALID_IDEMPOTENCY_KEY",
                            "Idempotency-Key must be a UUID v4",
                        ),
                    )
                }
            },
            None => Err(
                AppError::api(400, "INVALID_IDEMPOTENCY_KEY", "Idempotency-Key must be a UUID v4"),
            ),
        },
    }
}

/// The refusal of a multipart body that does not hold exactly one file part
/// and one alternative text part.
pub open spec fn is_invalid_multipart(e: AppError) -> bool {
    is_api_error(
        e,
        400,
        "INVALID_MULTIPART"@,
        "multipart body must contain one file field and one alt field"@,
    )
}

/// The refusal of an image over the size limit.
pub open spec fn is_image_too_large(e: AppError) -> bool {
    is_api_error(e, 413, "IMAGE_TOO_LARGE"@, "image file is too large"@)
}

/// The refusal of a multipart body that does not hold exactly one file part
/// and one alternative text part.
pub fn invalid_multipart_error() -> (r: AppError)
    ensures
        is_invalid_multipart(r),
{
    AppError::api(
        400,
        "INVALID_MULTIPART",
        "multipart body must contain one file field and one alt field",
    )
}

/// The refusal for a multipart body that could not be read, given the status
/// the reading failed with: a body over the size limit is an image too large.
pub fn map_multipart_error(status: u16) -> (r: AppError)
    ensures
        status == 413 ==> is_image_too_large(r),
        status != 413 ==> is_invalid_multipart(r),
{
    if status == 413 {
        AppError::api(413, "IMAGE_TOO_LARGE", "image file is too large")
    } else {
        invalid_multipart_error()
    }
}

/// The refusal for an alternative text part that could not be read, given
/// the status the reading failed with: one over the size limit is an invalid
/// alternative text.
pub fn map_alt_multipart_error(status: u16) -> (r: AppError)
    ensures
        status == 413 ==> is_api_error(r, 422, "INVALID_ALT"@, "image alt text is invalid"@),
        status != 413 ==> is_invalid_multipart(r),
{
    if status == 413 {
        AppError::api(422, "INVALID_ALT", "image alt text is invalid")
    } else {
        invalid_multipart_error()
    }
}

/// The part of an upload that a multipart field fills.
#[derive(Clone, Copy, Debug, PartialEq, Eq, Structural)]
pub enum UploadPart {
    File,
    Alt,
}

/// The parts of an image upload read so far.
#[derive(Clone, Debug, PartialEq, Eq)]
pub struct UploadParts {
    pub file: Option<Vec<u8>>,
    pub alt: Option<String>,
}

impl UploadParts {
    /// No part read yet.
    pub fn new() -> (r: UploadParts)
        ensures
            r.file is None,
            r.alt is None,
    {
        UploadParts { file: None, alt: None }
    }

    /// The part a field named `name` fills: a first `file` or a first `alt`.
    /// A field without a name, with another name, or naming a part already
    /// read ends the upload.
    pub fn part_for(&self, name: Option<&str>) -> (r: Result<UploadPart, AppError>)
        ensures
            match name {
                Some(n) => if n@ == "file"@ && self.file is None {
                    r == Ok::<UploadPart, AppError>(UploadPart::File)
                } else if n@ == "alt"@ && self.alt is None {
                    r == Ok::<UploadPart, AppError>(UploadPart::Alt)
                } else {
                    r matches Err(e) && is_invalid_multipart(e)
                },
                None => r matches Err(e) && is_invalid_multipart(e),
            },
    {
        proof {
            reveal_strlit("file");
            reveal_strlit("alt");
            assert("file"@.len() != "alt"@.len());
        }
        match name {
            Some(n) => {
                if crate::text::str_eq(n, "file") {
                    if self.file.is_some() {
                        return Err(invalid_multipart_error());
                    }
                    Ok(UploadPart::File)
                } else if crate::text::str_eq(n, "alt") {
                    if self.alt.is_some() {
                        return Err(invalid_multipart_error());
                    }
                    Ok(UploadPart::Alt)
                } else {
                    Err(invalid_multipart_error())
                }
            },
            None => Err(invalid_multipart_error()),
        }
    }

    /// Records the file read.
    pub fn set_file(&mut self, bytes: Vec<u8>)
        ensures
            final(self).file == Some(bytes),
            final(self).alt == old(self).alt,
    {
        self.file = Some(bytes);
    }

    /// Records the alternative text read.
    pub fn set_alt(&mut self, alt: String)
        ensures
            final(self).alt == Some(alt),
            final(self).file == old(self).file,
    {
        self.alt = Some(alt);
    }

    /// The file and the alternative text, once both were read.
    pub fn finish(self) -> (r: Result<(Vec<u8>, String), AppError>)
        ensures
            match (self.file, self.alt) {
                (Some(file), Some(alt)) => r == Ok::<(Vec<u8>, String), AppError>((file, alt)),
                _ => r matches Err(e) && is_invalid_multipart(e),
            },
    {
        match (self.file, self.alt) {
            (Some(file), Some(alt)) => Ok((file, alt)),
            _ => Err(invalid_multipart_error()),
        }
    }
}

/// Whether a chunk of `chunk_len` bytes may follow the `received` bytes of a
/// file already read: the file must not grow over the size limit.
pub fn check_file_chunk(received: usize, chunk_len: usize) -> (r: Result<(), AppError>)
    ensures
        received + chunk_len <= MAX_IMAGE_FILE_BYTES ==> r is Ok,
        received + chunk_len > MAX_IMAGE_FILE_BYTES ==> (r matches Err(e) && is_image_too_large(e)),
{
    if received > MAX_IMAGE_FILE_BYTES || chunk_len > MAX_IMAGE_FILE_BYTES - received {
        return Err(AppError::api(413, "IMAGE_TOO_LARGE", "image file is too large"));
    }
    Ok(())
}

/// The status, error code and message of the refusal of an image.
pub open spec fn image_refusal(e: ImageValidationError) -> (u16, Seq<char>, Seq<char>) {
    match e {
        ImageValidationError::EmptyFile => (422, "EMPTY_FILE"@, "image file is empty"@),
        ImageValidationError::ImageTooLarge => (413, "IMAGE_TOO_LARGE"@, "image file is too large"@),
        ImageValidationError::UnsupportedImageType => (
            415,
            "UNSUPPORTED_IMAGE_TYPE"@,
            "image type is not supported"@,
        ),
        ImageValidationError::InvalidImage => (422, "INVALID_IMAGE"@, "image data is invalid"@),
        ImageValidationError::ImageDimensionsExceeded => (
            422,
            "IMAGE_DIMENSIONS_EXCEEDED"@,
            "image dimensions exceed the limit"@,
        ),
        ImageValidationError::InvalidAlt => (422, "INVALID_ALT"@, "image alt text is invalid"@),
    }
}

/// The refusal of an image the checks refused.
pub fn image_validation_error(error: ImageValidationError) -> (r: AppError)
    ensures
        is_api_error(r, image_refusal(error).0, image_refusal(error).1, image_refusal(error).2),
{
    match error {
        ImageValidationError::EmptyFile => AppError::api(422, "EMPTY_FILE", "image file is empty"),
        ImageValidationError::ImageTooLarge => AppError::api(
            413,
            "IMAGE_TOO_LARGE",
            "image file is too large",
        ),
        ImageValidationError::UnsupportedImageType => AppError::api(
            415,
            "UNSUPPORTED_IMAGE_TYPE",
            "image type is not supported",
        ),
        ImageValidationError::InvalidImage => AppError::api(
            422,
            "INVALID_IMAGE",
            "image data is invalid",
        ),
        ImageValidationError::ImageDimensionsExceeded => AppError::api(
            422,
            "IMAGE_DIMENSIONS_EXCEEDED",
            "image dimensions exceed the limit",
        ),
        ImageValidationError::InvalidAlt => AppError::api(
            422,
            "INVALID_ALT",
            "image alt text is invalid",
        ),
    }
}

/// The reply to a failed upload to storage: a refusal by the provider is a
/// bad gateway, anything else an unavailable service.
pub fn image_storage_error(error: ImageStorageError) -> (r: AppError)
    ensures
        error == ImageStorageError::ProviderError ==> is_api_error(
            r,
            502,
            "STORAGE_PROVIDER_ERROR"@,
            "storage provider rejected the upload"@,
        ),
        error == ImageStorageError::Unavailable ==> is_api_error(
            r,
            503,
            "STORAGE_UNAVAILABLE"@,
            "storage provider is unavailable"@,
        ),
{
    match error {
        ImageStorageError::ProviderError => AppError::api(
            502,
            "STORAGE_PROVIDER_ERROR",
            "storage provider rejected the upload",
        ),
        ImageStorageError::Unavailable => AppError::api(
            503,
            "STORAGE_UNAVAILABLE",
            "storage provider is unavailable",
        ),
    }
}

/// The refusal of a room that may no longer change.
pub open spec fn is_published_immutable(e: AppError) -> bool {
    is_api_error(e, 409, "PUBLISHED_ROOM_IMMUTABLE"@, "published room cannot be modified"@)
}

/// Where an upload goes: whether the room of the problem is published.
#[derive(Clone, Copy, Debug, PartialEq, Eq, Structural)]
pub struct AssetUploadTarget {
    pub is_published: bool,
}

/// Whether an image may be added to the problem the store found: the room
/// and problem must exist, and the room must not be published.
pub fn check_upload_target(target: Option<AssetUploadTarget>) -> (r: Result<(), AppError>)
    ensures
        match target {
            None => r matches Err(e) && is_api_error(
                e,
                404,
                "ROOM_OR_PROBLEM_NOT_FOUND"@,
                "room or problem was not found"@,
            ),
            Some(t) => if t.is_published {
                r matches Err(e) && is_published_immutable(e)
            } else {
                r is Ok
            },
        },
{
    match target {
        None => Err(
            AppError::api(404, "ROOM_OR_PROBLEM_NOT_FOUND", "room or problem was not found"),
        ),
        Some(t) => {
            if t.is_published {
                Err(
                    AppError::api(
                        409,
                        "PUBLISHED_ROOM_IMMUTABLE",
                        "published room cannot be modified",
                    ),
                )
            } else {
                Ok(())
            }
        },
    }
}

/// The path of the request that uploads an image of a problem.
pub open spec fn asset_request_path_of(room_id: u128, problem_id: u128) -> Seq<char> {
    "/api/rooms/"@ + uuid_text_of(room_id) + "/problems/"@ + uuid_text_of(problem_id)
        + "/assets"@
}

/// The path of the request that uploads an image of a problem, under which
/// its idempotency key is remembered.
pub fn asset_request_path(room_id: u128, problem_id: u128) -> (r: String)
    ensures
        r@ == asset_request_path_of(room_id, problem_id),
{
    let mut path = concat_str("/api/rooms/", uuid_text(room_id).as_str());
    path = concat_str(path.as_str(), "/problems/");
    path = concat_str(path.as_str(), uuid_text(problem_id).as_str());
    concat_str(path.as_str(), "/assets")
}

/// The path of the request that creates a problem in a room.
pub fn problem_request_path(room_id: u128) -> (r: String)
    ensures
        r@ == "/api/rooms/"@ + uuid_text_of(room_id) + "/problems"@,
{
    let path = concat_str("/api/rooms/", uuid_text(room_id).as_str());
    concat_str(path.as_str(), "/problems")
}

/// What the store answered to a claim of an idempotency key for an upload.
#[derive(Clone, Debug, PartialEq, Eq)]
pub enum AssetUploadClaimOutcome {
    /// An earlier request with the key and the same data stored this asset.
    Completed { asset: Asset },
    /// The key was used with other data.
    Reused,
    /// An earlier request with the key is still running.
    InProgress,
    /// The key is this request's, under the token.
    Acquired { claim_token: u128 },
}

/// What an upload does after its claim.
#[derive(Clone, Debug, PartialEq, Eq)]
pub enum ClaimStep {
    /// Reply with the asset an earlier request stored.
    Replay(Asset),
    /// Store the image, holding the claim under the token.
    Upload(u128),
}

/// What an upload does after the store answered its claim: replay a
/// completed request, refuse a reused or running key, or go on.
pub fn claim_step(outcome: AssetUploadClaimOutcome) -> (r: Result<ClaimStep, AppError>)
    ensures
        match outcome {
            AssetUploadClaimOutcome::Completed { asset } => r == Ok::<ClaimStep, AppError>(
                ClaimStep::Replay(asset),
            ),
            AssetUploadClaimOutcome::Reused => r matches Err(e) && is_api_error(
                e,
                409,
                "IDEMPOTENCY_KEY_REUSED"@,
                "Idempotency-Key was reused with different request data"@,
            ),
            AssetUploadClaimOutcome::InProgress => r matches Err(e) && is_api_error(
                e,
                409,
                "IDEMPOTENCY_REQUEST_IN_PROGRESS"@,
                "request with this Idempotency-Key is still being processed"@,
            ),
            AssetUploadClaimOutcome::Acquired { claim_token } => r == Ok::<ClaimStep, AppError>(
                ClaimStep::Upload(claim_token),
            ),
        },
{
    match outcome {
        AssetUploadClaimOutcome::Completed { asset } => Ok(ClaimStep::Replay(asset)),
        AssetUploadClaimOutcome::Reused => Err(
            AppError::api(
                409,
                "IDEMPOTENCY_KEY_REUSED",
                "Idempotency-Key was reused with different request data",
            ),
        ),
        AssetUploadClaimOutcome::InProgress => Err(
            AppError::api(
                409,
                "IDEMPOTENCY_REQUEST_IN_PROGRESS",
                "request with this Idempotency-Key is still being processed",
            ),
        ),
        AssetUploadClaimOutcome::Acquired { claim_token } => Ok(ClaimStep::Upload(claim_token)),
    }
}

/// The asset an upload stores: an image under its versioned object key.
pub fn new_image_asset(
    room_id: u128,
    problem_id: u128,
    asset_id: u128,
    extension: &str,
    alt: String,
) -> (r: Asset)
    ensures
        r.asset_type@ == "image"@,
        r.object_key@ == image_object_key(room_id, problem_id, asset_id, extension@),
        r.alt == alt,
{
    Asset {
        asset_type: String::from_str("image"),
        object_key: build_image_object_key(room_id, problem_id, asset_id, extension),
        alt,
    }
}

/// The reply to an upload whose stored image could not be linked to its
/// problem: a room published meanwhile may no longer change; anything else
/// is a failure of the server.
pub fn completion_error(error: RepositoryError) -> (r: AppError)
    ensures
        error == RepositoryError::PublishedRoomImmutable ==> is_published_immutable(r),
        error != RepositoryError::PublishedRoomImmutable ==> is_api_error(
            r,
            500,
            "INTERNAL_SERVER_ERROR"@,
            "failed to complete image upload"@,
        ),
{
    match error {
        RepositoryError::PublishedRoomImmutable => AppError::api(
            409,
            "PUBLISHED_ROOM_IMMUTABLE",
            "published room cannot be modified",
        ),
        _ => AppError::api(500, "INTERNAL_SERVER_ERROR", "failed to complete image upload"),
    }
}

/// The public form of a stored asset, with the URL the resolver makes of its
/// object key; a URL that cannot be made is a failure of the server.
pub fn public_asset_response<R: AssetUrlResolver>(resolver: &R, asset: Asset) -> (r: Result<
    openapi::Asset,
    AppError,
>)
    ensures
        match r {
            Ok(a) => a.r_type == asset.asset_type && a.alt == asset.alt && resolver.resolves_to(
                asset.object_key@,
                a.url@,
            ),
            Err(e) => e matches AppError::Internal { source } && source@
                == "asset URL could not be resolved"@,
        },
        resolver.succeeds_for(asset.object_key@) ==> r is Ok,
        resolver.fails_for(asset.object_key@) ==> r is Err,
{
    match resolver.resolve(asset.object_key.as_str()) {
        Ok(url) => Ok(openapi::Asset::new(asset.asset_type, url, asset.alt)),
        Err(_) => Err(
            AppError::Internal { source: String::from_str("asset URL could not be resolved") },
        ),
    }
}

/// The refusal of a problem draft the checks refused.
pub fn problem_validation_error(error: ProblemAuthoringError) -> (r: AppError)
    ensures
        is_api_error(r, 422, "INVALID_PROBLEM"@, "problem data is invalid"@),
{
    AppError::api(422, "INVALID_PROBLEM", "problem data is invalid")
}

/// The reply to a problem the store would not create: a missing room, a
/// published room, a taken problem number and a bad dependency each have
/// their own; anything else is a failure of the server.
pub fn problem_repository_error(error: RepositoryError) -> (r: AppError)
    ensures
        match error {
            RepositoryError::RoomNotFound => is_api_error(
                r,
                404,
                "ROOM_NOT_FOUND"@,
                "room was not found"@,
            ),
            RepositoryError::PublishedRoomImmutable => is_published_immutable(r),
            RepositoryError::ProblemNumberConflict => is_api_error(
                r,
                409,
                "PROBLEM_NUMBER_CONFLICT"@,
                "problem number is already used in the room"@,
            ),
            RepositoryError::InvalidProblemDependency => is_api_error(
                r,
                422,
                "INVALID_PROBLEM"@,
                "problem dependency is invalid"@,
            ),
            _ => r matches AppError::Internal { source } && source@
                == crate::error::repository_error_text(error),
        },
{
    match error {
        RepositoryError::RoomNotFound => AppError::api(404, "ROOM_NOT_FOUND", "room was not found"),
        RepositoryError::PublishedRoomImmutable => AppError::api(
            409,
            "PUBLISHED_ROOM_IMMUTABLE",
            "published room cannot be modified",
        ),
        RepositoryError::ProblemNumberConflict => AppError::api(
            409,
            "PROBLEM_NUMBER_CONFLICT",
            "problem number is already used in the room",
        ),
        RepositoryError::InvalidProblemDependency => AppError::api(
            422,
            "INVALID_PROBLEM",
            "problem dependency is invalid",
        ),
        _ => AppError::Internal { source: crate::error::repository_error_message(&error) },
    }
}

/// What the store answered to a request to create a problem.
#[derive(Clone, Copy, Debug, PartialEq, Eq, Structural)]
pub enum CreateProblemRecordOutcome {
    /// The problem was created under this ID.
    Created { problem_id: u128 },
    /// An earlier request with the key and the same data created it.
    Replayed { problem_id: u128 },
    /// The key was used with other data.
    Reused,
}

/// The ID of the problem a creation request made or replayed; a reused key
/// is refused.
pub fn created_problem_id(outcome: CreateProblemRecordOutcome) -> (r: Result<u128, AppError>)
    ensures
        match outcome {
            CreateProblemRecordOutcome::Created { problem_id } => r == Ok::<u128, AppError>(
                problem_id,
            ),
            CreateProblemRecordOutcome::Replayed { problem_id } => r == Ok::<u128, AppError>(
                problem_id,
            ),
            CreateProblemRecordOutcome::Reused => r matches Err(e) && is_api_error(
                e,
                409,
                "IDEMPOTENCY_KEY_REUSED"@,
                "Idempotency-Key was reused with different request data"@,
            ),
        },
{
    match outcome {
        CreateProblemRecordOutcome::Created { problem_id } => Ok(problem_id),
        CreateProblemRecordOutcome::Replayed { problem_id } => Ok(problem_id),
        CreateProblemRecordOutcome::Reused => Err(
            AppError::api(
                409,
                "IDEMPOTENCY_KEY_REUSED",
                "Idempotency-Key was reused with different request data",
            ),
        ),
    }
}

/// The methods a server offers on the asset route of a problem.
#[derive(Clone, Copy, Debug, PartialEq, Eq, Structural)]
pub struct AssetRoutes {
    /// Whether images can be fetched.
    pub download: bool,
    /// Whether images can be uploaded.
    pub upload: bool,
}

/// The asset routes of a server: downloads need a URL signer; uploads need
/// the demo mode and a storage.
pub fn asset_routes(auth_mode: AuthMode, has_storage: bool, has_url_signer: bool) -> (r:
    AssetRoutes)
    ensures
        r.download == has_url_signer,
        r.upload == (auth_mode == AuthMode::Demo && has_storage),
{
    let upload = match auth_mode {
        AuthMode::Demo => has_storage,
        _ => false,
    };
    AssetRoutes { download: has_url_signer, upload }
}

} // verus!
