//! Failure to read or decode a stream.

use vstd::prelude::*;
use vstd::string::*;

use crate::text;
use crate::text::decimal;

verus! {

/// The error of the standard library's I/O operations.
#[verifier::external_type_specification]
#[verifier::external_body]
pub struct ExIoError(std::io::Error);

/// The error of a JSON document that does not decode.
#[verifier::external_type_specification]
#[verifier::external_body]
pub struct ExJsonError(serde_json::Error);

/// Failure to read or decode an input stream.
#[derive(Debug)]
pub enum AuditError {
    Io(std::io::Error),
    InvalidJson { line: usize, source: serde_json::Error },
}

impl From<std::io::Error> for AuditError {
    fn from(value: std::io::Error) -> (error: Self) {
        AuditError::Io(value)
    }
}

impl vstd::std_specs::convert::FromSpecImpl<std::io::Error> for AuditError {
    open spec fn obeys_from_spec() -> bool {
        true
    }

    open spec fn from_spec(value: std::io::Error) -> Self {
        AuditError::Io(value)
    }
}

/// The I/O error of kind `InvalidData` that carries `message`.
pub uninterp spec fn invalid_data_error(message: Seq<char>) -> std::io::Error;

/// The error for a stream that holds data which it should not, with the given message.
///
/// Trusted: calls `std::io::Error::new` with the kind `InvalidData`. The contract claims only that
/// the error depends on the characters of `message` and nothing else; how the error reads is not
/// visible to the proofs.
#[verifier::external_body]
pub(crate) fn invalid_data(message: &str) -> (error: std::io::Error)
    ensures
        error == invalid_data_error(message@),
{
    std::io::Error::new(std::io::ErrorKind::InvalidData, message)
}

/// The error of a stream that is not UTF-8.
pub open spec fn not_utf8_error() -> std::io::Error {
    invalid_data_error("stream did not contain valid UTF-8"@)
}

/// What a user is told when the stream cannot be read because of `cause`.
pub open spec fn unreadable_text(cause: Seq<char>) -> Seq<char> {
    "could not read event stream: "@ + cause
}

/// What a user is told when the JSON on `line` does not decode because of `cause`.
pub open spec fn invalid_json_text(line: nat, cause: Seq<char>) -> Seq<char> {
    "invalid JSON on non-empty line "@ + text::decimal_text(line) + ": "@ + cause
}

/// Builds [`unreadable_text`].
pub fn describe_unreadable(cause: &str) -> (text: String)
    ensures
        text@ == unreadable_text(cause@),
        text@ == "could not read event stream: "@ + cause@,
{
    let mut text = "could not read event stream: ".to_owned();
    text.append(cause);
    text
}

/// Builds [`invalid_json_text`].
pub fn describe_invalid_json(line: usize, cause: &str) -> (text: String)
    ensures
        text@ == invalid_json_text(line as nat, cause@),
        text@ == "invalid JSON on non-empty line "@ + text::decimal_text(line as nat) + ": "@
            + cause@,
{
    let mut text = "invalid JSON on non-empty line ".to_owned();
    text.append(decimal(line as u64).as_str());
    text.append(": ");
    text.append(cause);
    text
}

impl AuditError {
    /// Describes the error for a user, ending in the text that the underlying error displays.
    pub fn describe(&self) -> (text: String)
        ensures
            match self {
                AuditError::Io(error) => exists|cause: String| #[trigger]
                    to_string_from_display_ensures(error, cause) && text@ == unreadable_text(
                        cause@,
                    ),
                AuditError::InvalidJson { line, source } => exists|cause: String| #[trigger]
                    to_string_from_display_ensures(source, cause) && text@ == invalid_json_text(
                        *line as nat,
                        cause@,
                    ),
            },
    {
        match self {
            AuditError::Io(error) => {
                let cause = error.to_string();
                describe_unreadable(cause.as_str())
            },
            AuditError::InvalidJson { line, source } => {
                let cause = source.to_string();
                describe_invalid_json(*line, cause.as_str())
            },
        }
    }
}

} // verus!
