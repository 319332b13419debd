//! The public view of a stored problem: what players are shown of it.
use vstd::prelude::*;

use super::asset_url::{AssetUrlResolveError, AssetUrlResolver};
use super::model::{Asset, InputSchema};
use crate::openapi;
use crate::text::{concat_str, str_eq};

verus! {

/// A problem as the store reads it for a run, with its progress status.
#[derive(Clone, Debug, PartialEq, Eq)]
pub struct ProblemDetailRecord {
    pub id: u128,
    pub number: i32,
    pub problem_type: String,
    pub title: String,
    pub body_markdown: String,
    pub submission_type: String,
    pub assets: Vec<Asset>,
    pub input_schema: InputSchema,
    pub status: String,
    pub hint_count: i64,
}

/// Why a stored problem could not be shown.
#[derive(Debug, PartialEq, Eq)]
pub enum ProblemProjectionError {
    /// A stored field holds a value that has no public form. Only the field's
    /// name is kept, never the value.
    InvalidStoredField { field: &'static str },
    /// An asset's URL could not be made.
    AssetUrl(AssetUrlResolveError),
}

/// The description of a projection error.
pub open spec fn projection_error_text(e: ProblemProjectionError) -> Seq<char> {
    match e {
        ProblemProjectionError::InvalidStoredField { field } => "stored problem field is invalid: "@
            + field@,
        ProblemProjectionError::AssetUrl(_) => "asset URL could not be resolved"@,
    }
}

/// The description of a projection error.
pub fn projection_error_message(e: &ProblemProjectionError) -> (r: String)
    ensures
        r@ == projection_error_text(*e),
{
    match e {
        ProblemProjectionError::InvalidStoredField { field } => concat_str(
            "stored problem field is invalid: ",
            field,
        ),
        ProblemProjectionError::AssetUrl(_) => String::from_str("asset URL could not be resolved"),
    }
}

/// The public problem type a stored name denotes.
pub open spec fn public_problem_type(name: Seq<char>) -> Option<openapi::ProblemType> {
    if name == "small"@ {
        Some(openapi::ProblemType::Small)
    } else if name == "final"@ {
        Some(openapi::ProblemType::Final)
    } else {
        None
    }
}

/// The public submission type a stored name denotes.
pub open spec fn public_submission_type(name: Seq<char>) -> Option<openapi::SubmissionType> {
    if name == "operation_sequence"@ {
        Some(openapi::SubmissionType::OperationSequence)
    } else if name == "string"@ {
        Some(openapi::SubmissionType::String)
    } else {
        None
    }
}

/// The public problem status a stored name denotes.
pub open spec fn public_status(name: Seq<char>) -> Option<openapi::ProblemStatus> {
    if name == "locked"@ {
        Some(openapi::ProblemStatus::Locked)
    } else if name == "available"@ {
        Some(openapi::ProblemStatus::Available)
    } else if name == "cleared"@ {
        Some(openapi::ProblemStatus::Cleared)
    } else {
        None
    }
}

/// The public status shown for a stored status is the API status whose wire
/// name is the stored name: `cleared` is shown as cleared, `available` as
/// available and `locked` as locked, and no two stored names are shown as the
/// same status.
pub proof fn lemma_public_status_keeps_name(name: Seq<char>, other: Seq<char>)
    ensures
        public_status(name) == openapi::ProblemStatus::from_name(name),
        public_status(name) matches Some(s) ==> s.name_of() == name,
        public_status(name) is Some && public_status(name) == public_status(other) ==> name == other,
{
    reveal_strlit("locked");
    reveal_strlit("available");
    reveal_strlit("cleared");
}

/// The name of the first stored field, in the order problem type,
/// submission type, status, that has no public form.
pub open spec fn invalid_enum_field(record: ProblemDetailRecord) -> Option<Seq<char>> {
    if public_problem_type(record.problem_type@) is None {
        Some("problem_type"@)
    } else if public_submission_type(record.submission_type@) is None {
        Some("submission_type"@)
    } else if public_status(record.status@) is None {
        Some("status"@)
    } else {
        None
    }
}

/// `a` is the public form of the stored asset `s` under `resolver`.
pub open spec fn public_asset<R: AssetUrlResolver>(resolver: &R, s: Asset, a: openapi::Asset) -> bool {
    a.r_type == s.asset_type && a.alt == s.alt && resolver.resolves_to(s.object_key@, a.url@)
}

/// `resp` is the public form of `record` under `resolver`.
pub open spec fn public_problem<R: AssetUrlResolver>(
    resolver: &R,
    record: ProblemDetailRecord,
    resp: openapi::ProblemResponse,
) -> bool {
    &&& resp.id == record.id
    &&& resp.number == record.number
    &&& Some(resp.r_type) == public_problem_type(record.problem_type@)
    &&& resp.title == record.title
    &&& resp.body_markdown == record.body_markdown
    &&& Some(resp.submission_type) == public_submission_type(record.submission_type@)
    &&& Some(resp.status) == public_status(record.status@)
    &&& resp.assets@.len() == record.assets@.len()
    &&& forall|i: int|
        0 <= i < resp.assets@.len() ==> public_asset(resolver, record.assets@[i], #[trigger] resp.assets@[i])
    &&& resp.input_schema.query.r_type@ == "operation_sequence"@
    &&& resp.input_schema.query.allowed_controls == record.input_schema.query.allowed_controls
    &&& resp.input_schema.query.max_operations == record.input_schema.query.max_operations
    &&& resp.input_schema.answer.r_type@ == "string"@
    &&& resp.input_schema.answer.max_length == record.input_schema.answer.max_length
    &&& resp.hint_count == record.hint_count
}

/// Every stored asset's key is one `resolver` is bound to make a URL for.
pub open spec fn all_urls_made<R: AssetUrlResolver>(resolver: &R, assets: Seq<Asset>) -> bool {
    forall|i: int| 0 <= i < assets.len() ==> resolver.succeeds_for(#[trigger] assets[i].object_key@)
}

/// Some stored asset's key is one `resolver` is bound to fail for.
pub open spec fn some_url_refused<R: AssetUrlResolver>(resolver: &R, assets: Seq<Asset>) -> bool {
    exists|i: int| 0 <= i < assets.len() && resolver.fails_for(#[trigger] assets[i].object_key@)
}

/// Whether `r` is the refusal for an asset URL that could not be made.
pub open spec fn is_asset_url_error(r: Result<openapi::ProblemResponse, ProblemProjectionError>) -> bool {
    match r {
        Err(ProblemProjectionError::AssetUrl(_)) => true,
        _ => false,
    }
}

/// The public form of the stored assets, each URL made by `resolver`, in
/// order; the first failure stops the conversion.
fn public_assets<R: AssetUrlResolver>(resolver: &R, assets: Vec<Asset>) -> (r: Result<
    Vec<openapi::Asset>,
    ProblemProjectionError,
>)
    ensures
        r matches Ok(out) ==> out@.len() == assets@.len() && forall|i: int|
            0 <= i < out@.len() ==> public_asset(resolver, assets@[i], #[trigger] out@[i]),
        r matches Ok(_) ==> !some_url_refused(resolver, assets@),
        r matches Err(e) ==> e is AssetUrl && !all_urls_made(resolver, assets@),
        all_urls_made(resolver, assets@) ==> r is Ok,
        some_url_refused(resolver, assets@) ==> r is Err,
{
    let ghost stored = assets@;
    let mut out: Vec<openapi::Asset> = Vec::new();
    for asset in it: assets
        invariant
            it.seq() == stored,
            out@.len() == it.index(),
            forall|i: int| 0 <= i < out@.len() ==> public_asset(resolver, stored[i], #[trigger] out@[i]),
            forall|i: int| 0 <= i < out@.len() ==> !resolver.fails_for(#[trigger] stored[i].object_key@),
    {
        let ghost k = it.index();
        let url = match resolver.resolve(asset.object_key.as_str()) {
            Ok(url) => url,
            Err(e) => {
                proof {
                    assert(stored[k] == asset);
                    assert(!resolver.succeeds_for(stored[k].object_key@));
                }
                return Err(ProblemProjectionError::AssetUrl(e));
            },
        };
        proof {
            assert(stored[k] == asset);
        }
        out.push(openapi::Asset::new(asset.asset_type, url, asset.alt));
    }
    proof {
        assert forall|i: int| 0 <= i < stored.len() implies !resolver.fails_for(
            #[trigger] stored[i].object_key@,
        ) by {
            assert(!resolver.fails_for(stored[i].object_key@));
        }
    }
    Ok(out)
}

/// The public view of a stored problem. The stored problem type,
/// submission type and status must be known names (checked in that order),
/// then every asset URL must be made by `resolver`, in asset order, and last
/// the hint count must lie between 0 and `i32::MAX`.
pub fn build_problem_response<R: AssetUrlResolver>(record: ProblemDetailRecord, resolver: &R) -> (r:
    Result<openapi::ProblemResponse, ProblemProjectionError>)
    ensures
        match invalid_enum_field(record) {
            Some(field) => r matches Err(ProblemProjectionError::InvalidStoredField { field: f })
                && f@ == field,
            None => if is_asset_url_error(r) {
                !all_urls_made(resolver, record.assets@)
            } else {
                &&& !some_url_refused(resolver, record.assets@)
                &&& if 0 <= record.hint_count <= i32::MAX {
                    r matches Ok(resp) && public_problem(resolver, record, resp)
                } else {
                    r matches Err(ProblemProjectionError::InvalidStoredField { field: f }) && f@
                        == "hint_count"@
                }
            },
        },
        invalid_enum_field(record) is None && all_urls_made(resolver, record.assets@)
            ==> !is_asset_url_error(r),
{
    let problem_type = if str_eq(record.problem_type.as_str(), "small") {
        openapi::ProblemType::Small
    } else if str_eq(record.problem_type.as_str(), "final") {
        openapi::ProblemType::Final
    } else {
        return Err(ProblemProjectionError::InvalidStoredField { field: "problem_type" });
    };
    let submission_type = if str_eq(record.submission_type.as_str(), "operation_sequence") {
        openapi::SubmissionType::OperationSequence
    } else if str_eq(record.submission_type.as_str(), "string") {
        openapi::SubmissionType::String
    } else {
        return Err(ProblemProjectionError::InvalidStoredField { field: "submission_type" });
    };
    let status = if str_eq(record.status.as_str(), "locked") {
        openapi::ProblemStatus::Locked
    } else if str_eq(record.status.as_str(), "available") {
        openapi::ProblemStatus::Available
    } else if str_eq(record.status.as_str(), "cleared") {
        openapi::ProblemStatus::Cleared
    } else {
        return Err(ProblemProjectionError::InvalidStoredField { field: "status" });
    };
    let ghost stored = record;
    let assets = public_assets(resolver, record.assets)?;
    let query = openapi::QueryInputSchema::new(
        String::from_str("operation_sequence"),
        record.input_schema.query.allowed_controls,
        record.input_schema.query.max_operations,
    );
    let answer = openapi::AnswerInputSchema::new(
        String::from_str("string"),
        record.input_schema.answer.max_length,
    );
    let input_schema = openapi::ProblemInputSchema::new(query, answer);
    if record.hint_count < 0 || record.hint_count > 2147483647i64 {
        return Err(ProblemProjectionError::InvalidStoredField { field: "hint_count" });
    }
    let hint_count = record.hint_count as i32;
    Ok(
        openapi::ProblemResponse::new(
            record.id,
            record.number,
            problem_type,
            record.title,
            record.body_markdown,
            submission_type,
            assets,
            status,
            input_schema,
            hint_count,
        ),
    )
}

} // verus!
