//! The failures of a translation.

use crate::text::{decimal, signed_decimal, signed_text, unsigned_text};
use vstd::prelude::*;
use vstd::string::StringExecFns;

verus! {

/// Why a request could not be answered with a model. Each failure ends the
/// request it arose in; nothing is retried and no partial model is returned.
#[derive(Debug, PartialEq, Eq)]
pub enum TranslateError {
    /// The external command could not be run at all.
    InvocationFailed { message: String },
    /// The external command ran and reported failure.
    NonZeroExit { status: i32 },
    /// The output of the external command is not UTF-8 text; `reason` says
    /// where it goes wrong.
    OutputDecodeError { reason: String },
    /// The text is not a JSON document.
    InvalidJson { message: String },
    /// The member `field` that the model needs is missing from `object`, or
    /// holds a value of the wrong kind.
    SchemaError { object: String, field: String },
    /// The kind of a state is not one of the known kinds.
    UnknownVariant { found: String },
    /// A timestamp could not be brought into the canonical form.
    FormatError,
    /// The timestamp of the event `event_id` could not be brought into the
    /// canonical form.
    TranslationError { event_id: u64 },
}

/// The mathematical value of a [`TranslateError`].
pub enum ErrorView {
    InvocationFailed { message: Seq<char> },
    NonZeroExit { status: i32 },
    OutputDecodeError { reason: Seq<char> },
    InvalidJson { message: Seq<char> },
    SchemaError { object: Seq<char>, field: Seq<char> },
    UnknownVariant { found: Seq<char> },
    FormatError,
    TranslationError { event_id: u64 },
}

impl View for TranslateError {
    type V = ErrorView;

    open spec fn view(&self) -> ErrorView {
        match self {
            TranslateError::InvocationFailed { message } => ErrorView::InvocationFailed {
                message: message@,
            },
            TranslateError::NonZeroExit { status } => ErrorView::NonZeroExit { status: *status },
            TranslateError::OutputDecodeError { reason } => ErrorView::OutputDecodeError {
                reason: reason@,
            },
            TranslateError::InvalidJson { message } => ErrorView::InvalidJson {
                message: message@,
            },
            TranslateError::SchemaError { object, field } => ErrorView::SchemaError {
                object: object@,
                field: field@,
            },
            TranslateError::UnknownVariant { found } => ErrorView::UnknownVariant {
                found: found@,
            },
            TranslateError::FormatError => ErrorView::FormatError,
            TranslateError::TranslationError { event_id } => ErrorView::TranslationError {
                event_id: *event_id,
            },
        }
    }
}

impl ErrorView {
    /// The one-line description of the failure.
    pub open spec fn message(self) -> Seq<char> {
        match self {
            ErrorView::InvocationFailed { message } => "Executing Step Function CLI command. "@
                + message,
            ErrorView::NonZeroExit { status } => "Step Function exited with status code: "@
                + signed_decimal(status as int),
            ErrorView::OutputDecodeError { reason } => "Output convert failed due to: "@ + reason,
            ErrorView::InvalidJson { message } => "invalid JSON: "@ + message,
            ErrorView::SchemaError { object, field } => "schema error in "@ + object + ": "@
                + field,
            ErrorView::UnknownVariant { found } => "unknown variant: "@ + found,
            ErrorView::FormatError => "timestamp cannot be formatted"@,
            ErrorView::TranslationError { event_id } => "timestamp cannot be formatted in event "@
                + decimal(event_id as nat),
        }
    }
}

impl TranslateError {
    /// The failure for a member of `object` that is missing or of the wrong
    /// kind.
    pub fn schema(object: &str, field: &str) -> (out: TranslateError)
        ensures
            out@ == (ErrorView::SchemaError { object: object@, field: field@ }),
    {
        TranslateError::SchemaError {
            object: String::from_str(object),
            field: String::from_str(field),
        }
    }

    /// The one-line description of the failure.
    pub fn describe(&self) -> (out: String)
        ensures
            out@ == self@.message(),
    {
        match self {
            TranslateError::InvocationFailed { message } => {
                String::from_str("Executing Step Function CLI command. ").concat(message.as_str())
            },
            TranslateError::NonZeroExit { status } => {
                let digits = signed_text(*status as i64);
                String::from_str("Step Function exited with status code: ").concat(
                    digits.as_str(),
                )
            },
            TranslateError::OutputDecodeError { reason } => {
                String::from_str("Output convert failed due to: ").concat(reason.as_str())
            },
            TranslateError::InvalidJson { message } => {
                String::from_str("invalid JSON: ").concat(message.as_str())
            },
            TranslateError::SchemaError { object, field } => {
                String::from_str("schema error in ").concat(object.as_str()).concat(": ").concat(
                    field.as_str(),
                )
            },
            TranslateError::UnknownVariant { found } => {
                String::from_str("unknown variant: ").concat(found.as_str())
            },
            TranslateError::FormatError => String::from_str("timestamp cannot be formatted"),
            TranslateError::TranslationError { event_id } => {
                let digits = unsigned_text(*event_id);
                String::from_str("timestamp cannot be formatted in event ").concat(
                    digits.as_str(),
                )
            },
        }
    }
}

} // verus!
