//! What a refused request is answered.
use vstd::prelude::*;
use vstd::string::*;

use crate::resumable::{RangeError, UploadError};
use crate::text;

verus! {

/// What is wrong with a request that breaks a static rule.
#[derive(Debug, Clone, Copy, PartialEq, Eq, Structural)]
pub enum InvalidRequest {
    ApplicationId,
    MaxFiles,
    MaxFileBytes,
    ExpiresInSeconds,
    Accept,
    FileName,
    Sha256,
    Body,
}

/// What is wrong with the range or the body of an upload.
#[derive(Debug, Clone, Copy, PartialEq, Eq, Structural)]
pub enum RangeProblem {
    NotAscii,
    Header(RangeError),
    BodyExceeds { limit: u64 },
    BodyLength { received: u64, required: u64 },
    Upload(UploadError),
}

/// Why a request is refused.
#[derive(Debug, Clone, Copy, PartialEq, Eq, Structural)]
pub enum ApiError {
    Invalid(InvalidRequest),
    InvalidRange(RangeProblem),
    UploadConflict(UploadError),
    Unauthorized,
    NotFound,
    Expired,
    Conflict,
    TooLarge,
    UnsupportedMedia,
}

/// The body of a problem response.
#[derive(Debug, Clone, PartialEq, Eq)]
pub struct Problem {
    pub kind: String,
    pub title: &'static str,
    pub status: u16,
    pub detail: String,
    pub code: &'static str,
}

impl InvalidRequest {
    /// The rule in words.
    pub open spec fn message_text(self) -> Seq<char> {
        match self {
            InvalidRequest::ApplicationId => "application_id must be 1..128 bytes"@,
            InvalidRequest::MaxFiles => "max_files must be between 1 and 100"@,
            InvalidRequest::MaxFileBytes => "max_file_bytes is outside the supported range"@,
            InvalidRequest::ExpiresInSeconds => "expires_in_seconds must be 60..3600"@,
            InvalidRequest::Accept => "accept must contain 1..32 media patterns"@,
            InvalidRequest::FileName => "name must be printable and at most 255 bytes"@,
            InvalidRequest::Sha256 => "sha256 must be 64 hexadecimal characters"@,
            InvalidRequest::Body => "invalid request body"@,
        }
    }

    /// The rule that the request breaks.
    pub fn message(&self) -> (text: &'static str)
        ensures
            text@ == self.message_text(),
    {
        match *self {
            InvalidRequest::ApplicationId => "application_id must be 1..128 bytes",
            InvalidRequest::MaxFiles => "max_files must be between 1 and 100",
            InvalidRequest::MaxFileBytes => "max_file_bytes is outside the supported range",
            InvalidRequest::ExpiresInSeconds => "expires_in_seconds must be 60..3600",
            InvalidRequest::Accept => "accept must contain 1..32 media patterns",
            InvalidRequest::FileName => "name must be printable and at most 255 bytes",
            InvalidRequest::Sha256 => "sha256 must be 64 hexadecimal characters",
            InvalidRequest::Body => "invalid request body",
        }
    }
}

impl RangeProblem {
    /// The problem in words.
    pub open spec fn message_text(self) -> Seq<char> {
        match self {
            RangeProblem::NotAscii => "Content-Range is not ASCII"@,
            RangeProblem::Header(error) => error.message_text(),
            RangeProblem::BodyExceeds { limit } => "request body exceeds declared range length "@
                + text::decimal(limit as nat),
            RangeProblem::BodyLength { received, required } => "request body contains "@
                + text::decimal(received as nat) + " bytes; range requires "@ + text::decimal(
                required as nat,
            ),
            RangeProblem::Upload(error) => error.message_text(),
        }
    }

    /// What is wrong, for a person to read.
    pub fn message(&self) -> (text: String)
        ensures
            text@ == self.message_text(),
    {
        match *self {
            RangeProblem::NotAscii => "Content-Range is not ASCII".to_owned(),
            RangeProblem::Header(error) => error.message(),
            RangeProblem::BodyExceeds { limit } => {
                let mut text: String = "request body exceeds declared range length ".to_owned();
                text::push_decimal(&mut text, limit);
                text
            },
            RangeProblem::BodyLength { received, required } => {
                let mut text: String = "request body contains ".to_owned();
                text::push_decimal(&mut text, received);
                text.append(" bytes; range requires ");
                text::push_decimal(&mut text, required);
                text
            },
            RangeProblem::Upload(error) => error.message(),
        }
    }
}

impl ApiError {
    /// The HTTP status of the answer.
    pub open spec fn http_status(self) -> u16 {
        match self {
            ApiError::Invalid(_) | ApiError::InvalidRange(_) => 400,
            ApiError::Unauthorized => 401,
            ApiError::NotFound => 404,
            ApiError::UploadConflict(_) | ApiError::Conflict => 409,
            ApiError::Expired => 410,
            ApiError::TooLarge => 413,
            ApiError::UnsupportedMedia => 415,
        }
    }

    /// The title of the answer.
    pub open spec fn title_text(self) -> Seq<char> {
        match self {
            ApiError::Invalid(_) | ApiError::InvalidRange(_) => "Invalid request"@,
            ApiError::UploadConflict(_) => "Upload offset conflict"@,
            ApiError::Unauthorized => "Unauthorized capability"@,
            ApiError::NotFound => "Not found"@,
            ApiError::Expired => "Tunnel expired"@,
            ApiError::Conflict => "State conflict"@,
            ApiError::TooLarge => "File too large"@,
            ApiError::UnsupportedMedia => "Unsupported media type"@,
        }
    }

    /// The machine-readable name of the error.
    pub open spec fn code_text(self) -> Seq<char> {
        match self {
            ApiError::Invalid(_) | ApiError::InvalidRange(_) => "invalid_request"@,
            ApiError::UploadConflict(_) => "upload_offset_conflict"@,
            ApiError::Unauthorized => "unauthorized"@,
            ApiError::NotFound => "not_found"@,
            ApiError::Expired => "tunnel_expired"@,
            ApiError::Conflict => "state_conflict"@,
            ApiError::TooLarge => "file_too_large"@,
            ApiError::UnsupportedMedia => "unsupported_media_type"@,
        }
    }

    /// The refusal in words.
    pub open spec fn message_text(self) -> Seq<char> {
        match self {
            ApiError::Invalid(rule) => "invalid request: "@ + rule.message_text(),
            ApiError::InvalidRange(problem) => "invalid upload range: "@ + problem.message_text(),
            ApiError::UploadConflict(error) => "upload offset conflict: "@ + error.message_text(),
            ApiError::Unauthorized => "capability is missing or invalid"@,
            ApiError::NotFound => "tunnel or file was not found"@,
            ApiError::Expired => "tunnel has expired"@,
            ApiError::Conflict => "resource state conflicts with this operation"@,
            ApiError::TooLarge => "declared upload is too large"@,
            ApiError::UnsupportedMedia => "media type is not accepted"@,
        }
    }

    /// The refusal in words.
    pub fn message(&self) -> (text: String)
        ensures
            text@ == self.message_text(),
    {
        match *self {
            ApiError::Invalid(rule) => {
                let mut text: String = "invalid request: ".to_owned();
                text.append(rule.message());
                text
            },
            ApiError::InvalidRange(problem) => {
                let mut text: String = "invalid upload range: ".to_owned();
                let detail: String = problem.message();
                text.append(detail.as_str());
                text
            },
            ApiError::UploadConflict(error) => {
                let mut text: String = "upload offset conflict: ".to_owned();
                let detail: String = error.message();
                text.append(detail.as_str());
                text
            },
            ApiError::Unauthorized => "capability is missing or invalid".to_owned(),
            ApiError::NotFound => "tunnel or file was not found".to_owned(),
            ApiError::Expired => "tunnel has expired".to_owned(),
            ApiError::Conflict => "resource state conflicts with this operation".to_owned(),
            ApiError::TooLarge => "declared upload is too large".to_owned(),
            ApiError::UnsupportedMedia => "media type is not accepted".to_owned(),
        }
    }

    /// The problem document that answers the request.
    pub fn into_problem(self) -> (problem: Problem)
        ensures
            problem.status == self.http_status(),
            problem.title@ == self.title_text(),
            problem.code@ == self.code_text(),
            problem.kind@ == "https://file-tunnel.dev/problems/"@ + self.code_text(),
            problem.detail@ == self.message_text(),
    {
        let (status, title, code): (u16, &'static str, &'static str) = match self {
            ApiError::Invalid(_) | ApiError::InvalidRange(_) => (
                400,
                "Invalid request",
                "invalid_request",
            ),
            ApiError::UploadConflict(_) => (
                409,
                "Upload offset conflict",
                "upload_offset_conflict",
            ),
            ApiError::Unauthorized => (401, "Unauthorized capability", "unauthorized"),
            ApiError::NotFound => (404, "Not found", "not_found"),
            ApiError::Expired => (410, "Tunnel expired", "tunnel_expired"),
            ApiError::Conflict => (409, "State conflict", "state_conflict"),
            ApiError::TooLarge => (413, "File too large", "file_too_large"),
            ApiError::UnsupportedMedia => (
                415,
                "Unsupported media type",
                "unsupported_media_type",
            ),
        };
        let mut kind: String = "https://file-tunnel.dev/problems/".to_owned();
        kind.append(code);
        Problem { kind, title, status, detail: self.message(), code }
    }
}

/// How a refused chunk is answered: a body that does not fit its range is an
/// invalid request, everything else a conflict with what is committed.
pub open spec fn upload_refusal(error: UploadError) -> ApiError {
    match error {
        UploadError::BodyLength { .. } | UploadError::ChunkTooLarge => ApiError::InvalidRange(
            RangeProblem::Upload(error),
        ),
        _ => ApiError::UploadConflict(error),
    }
}

/// How a refused chunk is answered.
pub fn map_upload_error(error: UploadError) -> (refusal: ApiError)
    ensures
        refusal == upload_refusal(error),
{
    match error {
        UploadError::BodyLength { .. } | UploadError::ChunkTooLarge => ApiError::InvalidRange(
            RangeProblem::Upload(error),
        ),
        UploadError::TotalChanged { .. }
        | UploadError::Gap { .. }
        | UploadError::PartialOverlap { .. }
        | UploadError::ConflictingReplay { .. } => ApiError::UploadConflict(error),
    }
}

} // verus!
