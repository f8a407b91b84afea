//! Errors of the API handlers and the HTTP answers they become.

use vstd::prelude::*;
use crate::text::owned;

verus! {

/// What can go wrong in a handler of the video API.
pub enum AppError {
    /// The upload form held no field named `file`.
    MissingFile,
    /// The requested object does not exist.
    NotFound,
    /// Object storage (or the stream feeding it) failed, with its message.
    S3(String),
}

/// The error as plain values.
pub enum ErrorView {
    MissingFile,
    NotFound,
    S3(Seq<char>),
}

impl View for AppError {
    type V = ErrorView;

    open spec fn view(&self) -> ErrorView {
        match self {
            AppError::MissingFile => ErrorView::MissingFile,
            AppError::NotFound => ErrorView::NotFound,
            AppError::S3(m) => ErrorView::S3(m@),
        }
    }
}

/// The HTTP answer for an error: a status code and the message that goes
/// into the JSON body `{"error": message}`.
pub struct ErrorResponse {
    pub status: u16,
    pub message: String,
}

/// The status code that answers an error.
pub open spec fn error_status(e: ErrorView) -> u16 {
    match e {
        ErrorView::MissingFile => 400,
        ErrorView::NotFound => 404,
        ErrorView::S3(_) => 502,
    }
}

/// The message that answers an error.
pub open spec fn error_message(e: ErrorView) -> Seq<char> {
    match e {
        ErrorView::MissingFile => "Missing file field"@,
        ErrorView::NotFound => "not found"@,
        ErrorView::S3(m) => "S3 upload failed: "@ + m,
    }
}

/// Builds an object-storage error from a message.
pub fn s3_error(message: &str) -> (e: AppError)
    ensures
        e@ == ErrorView::S3(message@),
{
    AppError::S3(owned(message))
}

impl AppError {
    /// The status code and message with which the API answers this error.
    pub fn into_response(self) -> (r: ErrorResponse)
        ensures
            r.status == error_status(self@),
            r.message@ == error_message(self@),
    {
        match self {
            AppError::MissingFile => ErrorResponse { status: 400, message: owned("Missing file field") },
            AppError::NotFound => ErrorResponse { status: 404, message: owned("not found") },
            AppError::S3(m) => {
                let mut message = owned("S3 upload failed: ");
                message.append(m.as_str());
                ErrorResponse { status: 502, message }
            },
        }
    }
}

/// What a successful upload answers: the new video's id and its object key.
pub struct UploadSuccess {
    pub id: String,
    pub key: String,
}

} // verus!
