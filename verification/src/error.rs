//! The error type of the library and its messages.
use vstd::prelude::*;
use vstd::string::*;

use crate::text::{cat2, cat3, cat4, cat5, decimal, decimal_spec, str_eq};

verus! {

/// Result type returned by the operations of this crate.
pub type Result<T> = core::result::Result<T, Error>;

/// The kinds of I/O failure that callers tell apart.
#[derive(Clone, Copy, Debug, PartialEq, Eq, Structural)]
pub enum IoErrorKind {
    /// A parameter was out of range.
    InvalidInput,
    /// Data did not have the expected form.
    InvalidData,
    /// The data ended before the expected number of bytes.
    UnexpectedEof,
    /// The item does not exist.
    NotFound,
    /// The item exists already.
    AlreadyExists,
    /// The reader side of a stream is gone.
    BrokenPipe,
    /// Any other failure.
    Other,
}

/// An I/O failure: its kind and what it says.
#[derive(Debug)]
pub struct IoError {
    pub kind: IoErrorKind,
    pub message: String,
}

/// What an [`IoError`] says, as plain values.
pub struct IoErrorView {
    pub kind: IoErrorKind,
    pub message: Seq<char>,
}

impl View for IoError {
    type V = IoErrorView;

    open spec fn view(&self) -> IoErrorView {
        IoErrorView { kind: self.kind, message: self.message@ }
    }
}

impl IoError {
    pub fn new(kind: IoErrorKind, message: &str) -> (error: IoError)
        ensures
            error.kind == kind,
            error.message@ == message@,
    {
        IoError { kind, message: message.to_owned() }
    }
}

impl Clone for IoError {
    fn clone(&self) -> (copy: IoError)
        ensures
            copy@ == self@,
    {
        IoError { kind: self.kind, message: self.message.clone() }
    }
}

/// Error type returned by the operations of this crate.
#[derive(Debug)]
pub enum Error {
    /// An `s3://` URI could not be parsed.
    InvalidS3Uri {
        /// Original URI string.
        uri: String,
        /// Human-readable parse failure.
        reason: String,
    },
    /// A local path is invalid or unsupported.
    InvalidLocalPath {
        /// Local path that failed validation.
        path: String,
        /// Human-readable validation failure.
        reason: String,
    },
    /// An option value is invalid.
    InvalidOption(String),
    /// A ZIP entry path is invalid or unsupported.
    InvalidZipEntry {
        /// ZIP entry path that failed validation.
        path: String,
        /// Human-readable validation failure.
        reason: String,
    },
    /// The source ZIP contains the same normalized path more than once.
    DuplicateZipPath(String),
    /// A ZIP entry is larger than the supported single-`PutObject` limit.
    EntryTooLarge {
        /// ZIP entry path.
        path: String,
        /// Entry size in bytes.
        size: u64,
    },
    /// An AWS S3 operation failed.
    S3 {
        /// S3 operation name.
        operation: &'static str,
        /// S3 bucket used by the failed operation.
        bucket: String,
        /// S3 key used by the failed operation.
        key: String,
        /// Error message from the AWS SDK.
        message: String,
    },
    /// A conditional destination write failed because the destination changed after listing.
    ConditionalConflict {
        /// Destination bucket.
        bucket: String,
        /// Destination key.
        key: String,
        /// Conflict message from S3.
        message: String,
    },
    /// A multipart upload failed, and aborting it also failed.
    MultipartAbort {
        /// Original upload failure.
        original: Box<Error>,
        /// Abort failure that may leave an orphaned multipart upload.
        abort: Box<Error>,
    },
    /// Reading or writing ZIP data failed.
    Zip(String),
    /// Local I/O failed while reading upload sources or streaming data.
    Io(IoError),
    /// A background task failed.
    Join(String),
    /// Building an AWS SDK request failed before it was sent.
    Build(String),
}

/// What an [`Error`] says, as plain values.
pub enum ErrorView {
    InvalidS3Uri { uri: Seq<char>, reason: Seq<char> },
    InvalidLocalPath { path: Seq<char>, reason: Seq<char> },
    InvalidOption(Seq<char>),
    InvalidZipEntry { path: Seq<char>, reason: Seq<char> },
    DuplicateZipPath(Seq<char>),
    EntryTooLarge { path: Seq<char>, size: u64 },
    S3 { operation: Seq<char>, bucket: Seq<char>, key: Seq<char>, message: Seq<char> },
    ConditionalConflict { bucket: Seq<char>, key: Seq<char>, message: Seq<char> },
    MultipartAbort { original: Box<ErrorView>, abort: Box<ErrorView> },
    Zip(Seq<char>),
    Io(IoErrorView),
    Join(Seq<char>),
    Build(Seq<char>),
}

pub open spec fn error_view(error: Error) -> ErrorView
    decreases error,
{
    match error {
        Error::InvalidS3Uri { uri, reason } => ErrorView::InvalidS3Uri {
            uri: uri@,
            reason: reason@,
        },
        Error::InvalidLocalPath { path, reason } => ErrorView::InvalidLocalPath {
            path: path@,
            reason: reason@,
        },
        Error::InvalidOption(reason) => ErrorView::InvalidOption(reason@),
        Error::InvalidZipEntry { path, reason } => ErrorView::InvalidZipEntry {
            path: path@,
            reason: reason@,
        },
        Error::DuplicateZipPath(path) => ErrorView::DuplicateZipPath(path@),
        Error::EntryTooLarge { path, size } => ErrorView::EntryTooLarge { path: path@, size },
        Error::S3 { operation, bucket, key, message } => ErrorView::S3 {
            operation: operation@,
            bucket: bucket@,
            key: key@,
            message: message@,
        },
        Error::ConditionalConflict { bucket, key, message } => ErrorView::ConditionalConflict {
            bucket: bucket@,
            key: key@,
            message: message@,
        },
        Error::MultipartAbort { original, abort } => ErrorView::MultipartAbort {
            original: Box::new(error_view(*original)),
            abort: Box::new(error_view(*abort)),
        },
        Error::Zip(message) => ErrorView::Zip(message@),
        Error::Io(error) => ErrorView::Io(error@),
        Error::Join(message) => ErrorView::Join(message@),
        Error::Build(message) => ErrorView::Build(message@),
    }
}

impl View for Error {
    type V = ErrorView;

    open spec fn view(&self) -> ErrorView {
        error_view(*self)
    }
}

/// The message of an error.
pub open spec fn error_text(error: ErrorView) -> Seq<char>
    decreases error,
{
    match error {
        ErrorView::InvalidS3Uri { uri, reason } => "invalid S3 URI `"@ + uri + "`: "@ + reason,
        ErrorView::InvalidLocalPath { path, reason } => "invalid local path `"@ + path + "`: "@
            + reason,
        ErrorView::InvalidOption(reason) => "invalid option: "@ + reason,
        ErrorView::InvalidZipEntry { path, reason } => "invalid ZIP entry `"@ + path + "`: "@
            + reason,
        ErrorView::DuplicateZipPath(path) => "duplicate ZIP file path `"@ + path + "`"@,
        ErrorView::EntryTooLarge { path, size } => "entry `"@ + path + "` is "@ + decimal_spec(
            size as nat,
        ) + " bytes, larger than the S3 single PutObject limit"@,
        ErrorView::S3 { operation, bucket, key, message } => "S3 "@ + operation
            + " failed for s3://"@ + bucket + "/"@ + key + ": "@ + message,
        ErrorView::ConditionalConflict { bucket, key, message } =>
        "conditional write failed for s3://"@ + bucket + "/"@ + key + ": "@ + message,
        ErrorView::MultipartAbort { original, abort } => error_text(*original)
            + "; additionally failed to abort multipart upload: "@ + error_text(*abort),
        ErrorView::Zip(message) => "ZIP operation failed: "@ + message,
        ErrorView::Io(error) => "I/O failed: "@ + error.message,
        ErrorView::Join(message) => "worker task failed: "@ + message,
        ErrorView::Build(message) => "AWS SDK build failed: "@ + message,
    }
}

impl Error {
    /// Renders the error for display.
    pub fn to_string(&self) -> (text: String)
        ensures
            text@ == error_text(self@),
        decreases self,
    {
        match self {
            Error::InvalidS3Uri { uri, reason } => cat4("invalid S3 URI `", uri, "`: ", reason),
            Error::InvalidLocalPath { path, reason } => cat4(
                "invalid local path `",
                path,
                "`: ",
                reason,
            ),
            Error::InvalidOption(reason) => cat2("invalid option: ", reason),
            Error::InvalidZipEntry { path, reason } => cat4(
                "invalid ZIP entry `",
                path,
                "`: ",
                reason,
            ),
            Error::DuplicateZipPath(path) => cat3("duplicate ZIP file path `", path, "`"),
            Error::EntryTooLarge { path, size } => cat5(
                "entry `",
                path,
                "` is ",
                &decimal(*size),
                " bytes, larger than the S3 single PutObject limit",
            ),
            Error::S3 { operation, bucket, key, message } => cat5(
                "S3 ",
                operation,
                " failed for s3://",
                bucket,
                "/",
            ).concat(key).concat(": ").concat(message),
            Error::ConditionalConflict { bucket, key, message } => cat5(
                "conditional write failed for s3://",
                bucket,
                "/",
                key,
                ": ",
            ).concat(message),
            Error::MultipartAbort { original, abort } => cat3(
                &original.to_string(),
                "; additionally failed to abort multipart upload: ",
                &abort.to_string(),
            ),
            Error::Zip(message) => cat2("ZIP operation failed: ", message),
            Error::Io(error) => cat2("I/O failed: ", &error.message),
            Error::Join(message) => cat2("worker task failed: ", message),
            Error::Build(message) => cat2("AWS SDK build failed: ", message),
        }
    }
}

/// The message drawn from an AWS error's code, its message and its display form.
pub open spec fn aws_error_text(
    code: Option<Seq<char>>,
    message: Option<Seq<char>>,
    display: Seq<char>,
) -> Seq<char> {
    match (code, message) {
        (Some(code), Some(message)) => if message.len() > 0 && message != code {
            code + ": "@ + message
        } else {
            code
        },
        (Some(code), None) => code,
        (None, Some(message)) => if message.len() > 0 {
            message
        } else {
            display
        },
        (None, None) => display,
    }
}

/// Prefers an AWS error's code and message, and falls back to its display form.
pub fn aws_error_message(code: Option<&str>, message: Option<&str>, display: &str) -> (text: String)
    ensures
        text@ == aws_error_text(
            match code {
                Some(code) => Some(code@),
                None => None,
            },
            match message {
                Some(message) => Some(message@),
                None => None,
            },
            display@,
        ),
{
    match (code, message) {
        (Some(code), Some(message)) => if !message.is_empty() && !str_eq(message, code) {
            cat3(code, ": ", message)
        } else {
            code.to_owned()
        },
        (Some(code), None) => code.to_owned(),
        (None, Some(message)) => if !message.is_empty() {
            message.to_owned()
        } else {
            display.to_owned()
        },
        (None, None) => display.to_owned(),
    }
}

} // verus!
