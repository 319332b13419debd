//! The replies each API operation may give, one variant per status code.
use vstd::prelude::*;

use crate::openapi::{
    ActiveRunResponse,
    AnswerResponse,
    Asset,
    ErrorResponse,
    GuestLoginResponse,
    MeResponse,
    ProblemHintResponse,
    ProblemResponse,
    QueryResponse,
};

verus! {

/// The replies to submitting an answer.
#[allow(non_camel_case_types)]
#[derive(Debug)]
pub enum SubmitAnswerResponse {
    /// The judgement; a wrong answer is judged too.
    Status200(AnswerResponse),
    /// A malformed body or path parameter.
    Status400_JSON(ErrorResponse),
    /// Not signed in.
    Status401(ErrorResponse),
    /// No such resource, or the route is off in this sign-in mode.
    Status404(ErrorResponse),
    /// The problem is still locked.
    Status409(ErrorResponse),
    /// The input is invalid.
    Status422(ErrorResponse),
    /// The server failed.
    Status500_Server(ErrorResponse),
}

/// The replies to asking who is signed in.
#[allow(non_camel_case_types)]
#[derive(Debug)]
pub enum GetMeResponse {
    /// The sign-in state.
    Status200(MeResponse),
    /// The server failed.
    Status500_Server(ErrorResponse),
}

/// The replies to a guest sign-in.
#[allow(non_camel_case_types)]
#[derive(Debug)]
pub enum LoginGuestResponse {
    /// The guest, and the session cookie that was set.
    Status200 { body: GuestLoginResponse, set_cookie: Option<String> },
    /// A malformed body.
    Status400_JSON(ErrorResponse),
    /// The route is off in this sign-in mode.
    Status404(ErrorResponse),
    /// The input is invalid.
    Status422(ErrorResponse),
    /// The server failed.
    Status500_Server(ErrorResponse),
}

/// The replies to signing out.
#[allow(non_camel_case_types)]
#[derive(Debug)]
pub enum LogoutLocalResponse {
    /// Signed out; the cookie that clears the session.
    Status204 { set_cookie: Option<String> },
    /// The server failed.
    Status500_Server(ErrorResponse),
}

/// The replies to showing a problem.
#[allow(non_camel_case_types)]
#[derive(Debug)]
pub enum GetProblemResponse {
    /// The problem as players see it.
    Status200(ProblemResponse),
    /// A malformed path parameter.
    Status400_JSON(ErrorResponse),
    /// Not signed in.
    Status401(ErrorResponse),
    /// No such resource.
    Status404(ErrorResponse),
    /// The problem is still locked.
    Status409(ErrorResponse),
    /// The server failed.
    Status500_Server(ErrorResponse),
}

/// The replies to showing a hint.
#[allow(non_camel_case_types)]
#[derive(Debug)]
pub enum GetProblemHintResponse {
    /// The hint.
    Status200(ProblemHintResponse),
    /// A malformed path parameter.
    Status400_JSON(ErrorResponse),
    /// Not signed in.
    Status401(ErrorResponse),
    /// No such resource.
    Status404(ErrorResponse),
    /// The problem is still locked.
    Status409(ErrorResponse),
    /// The server failed.
    Status500_Server(ErrorResponse),
}

/// The replies to uploading an image of a problem.
#[allow(non_camel_case_types)]
#[derive(Debug)]
pub enum UploadProblemAssetResponse {
    /// The image was stored and linked to the problem.
    Status201(Asset),
    /// A malformed path, multipart body or idempotency key.
    Status400_UploadRequest(ErrorResponse),
    /// No such room or problem.
    Status404_Room(ErrorResponse),
    /// A published room, or a reused or running idempotency key.
    Status409(ErrorResponse),
    /// The file is over the size limit.
    Status413_FileSize(ErrorResponse),
    /// The file is not a PNG, JPEG or WebP image.
    Status415(ErrorResponse),
    /// The file, its dimensions or its alternative text are invalid.
    Status422_File(ErrorResponse),
    /// The database failed.
    Status500_DB(ErrorResponse),
    /// The storage provider refused the upload.
    Status502_StorageProvider(ErrorResponse),
    /// The storage provider could not be reached or failed.
    Status503_StorageProvider(ErrorResponse),
}

/// The replies to submitting a query.
#[allow(non_camel_case_types)]
#[derive(Debug)]
pub enum SubmitQueryResponse {
    /// The judgement; a wrong query is judged too.
    Status200(QueryResponse),
    /// A malformed body or path parameter.
    Status400_JSON(ErrorResponse),
    /// Not signed in.
    Status401(ErrorResponse),
    /// No such resource.
    Status404(ErrorResponse),
    /// The problem is still locked.
    Status409(ErrorResponse),
    /// The input is invalid.
    Status422(ErrorResponse),
    /// The server failed.
    Status500_Server(ErrorResponse),
}

/// The replies to showing the current run.
#[allow(non_camel_case_types)]
#[derive(Debug)]
pub enum GetCurrentRunResponse {
    /// The active run.
    Status200(ActiveRunResponse),
    /// A malformed path parameter.
    Status400_JSON(ErrorResponse),
    /// Not signed in.
    Status401(ErrorResponse),
    /// There is no active run.
    Status404_Active(ErrorResponse),
    /// The server failed.
    Status500_Server(ErrorResponse),
}

/// The replies to starting or resuming a run.
#[allow(non_camel_case_types)]
#[derive(Debug)]
pub enum StartOrResumeRunResponse {
    /// The active run.
    Status200_Active(ActiveRunResponse),
    /// A malformed path parameter.
    Status400_JSON(ErrorResponse),
    /// Not signed in.
    Status401(ErrorResponse),
    /// No such room.
    Status404(ErrorResponse),
    /// The server failed.
    Status500_Server(ErrorResponse),
}

/// The replies to fetching the OpenAPI document.
#[derive(Debug)]
pub enum GetOpenApiResponse {
    /// The document this server was built with.
    Status200(String),
}

} // verus!
