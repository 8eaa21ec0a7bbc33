//! The errors that a client of the proxy sees.

use vstd::prelude::*;

verus! {

/// The S3 error codes that the proxy answers with.
#[derive(Debug, Clone, Copy, PartialEq, Eq, Structural)]
pub enum S3ErrorCode {
    InternalError,
    NoSuchKey,
}

/// An S3 error: a code and a message.
#[derive(Debug, PartialEq, Eq)]
pub struct S3Error {
    pub code: S3ErrorCode,
    pub message: String,
}

/// The text by which `s3s::S3Error` displays an error of that code and message.
pub uninterp spec fn displayed_error(code: S3ErrorCode, message: Seq<char>) -> Seq<char>;

impl S3Error {
    /// The error has this code and this message.
    pub open spec fn says(&self, code: S3ErrorCode, message: Seq<char>) -> bool {
        self.code == code && self.message@ == message
    }

    /// An error of the given code and message.
    pub fn with_message(code: S3ErrorCode, message: &str) -> (error: Self)
        ensures
            error.says(code, message@),
    {
        S3Error { code, message: message.to_string() }
    }

    /// The error as text.
    pub fn to_text(&self) -> (text: String)
        ensures
            text@ == displayed_error(self.code, self.message@),
    {
        display_error(self.code, self.message.as_str())
    }
}

/// Calls `s3s::S3Error::with_message` and the `Display` of what it returns. The
/// text is a function of the code and the message alone: `s3s` writes the name of
/// the code and the quoted message, and an error built this way has no request
/// id, status code or source.
#[verifier::external_body]
fn display_error(code: S3ErrorCode, message: &str) -> (text: String)
    ensures
        text@ == displayed_error(code, message@),
{
    let outside = match code {
        S3ErrorCode::InternalError => s3s::S3ErrorCode::InternalError,
        S3ErrorCode::NoSuchKey => s3s::S3ErrorCode::NoSuchKey,
    };
    s3s::S3Error::with_message(outside, message.to_string()).to_string()
}

} // verus!
