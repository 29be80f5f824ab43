//! The errors that the operations of the store report.

use vstd::prelude::*;
use vstd::string::*;

verus! {

/// One file on which a sync found the remote version to differ from the
/// version the local change was based on. `None` stands for "no such file".
#[derive(Debug)]
pub struct Conflict {
    pub filename: String,
    pub local: Option<u128>,
    pub remote: Option<u128>,
}

/// A `Conflict`, as the contracts speak of it.
pub struct ConflictView {
    pub filename: Seq<char>,
    pub local: Option<u128>,
    pub remote: Option<u128>,
}

impl View for Conflict {
    type V = ConflictView;

    open spec fn view(&self) -> ConflictView {
        ConflictView { filename: self.filename@, local: self.local, remote: self.remote }
    }
}

impl DeepView for Conflict {
    type V = ConflictView;

    open spec fn deep_view(&self) -> ConflictView {
        self@
    }
}

/// Why an operation failed.
#[derive(Debug)]
pub enum Error {
    /// The path, or the version of it that was asked for, is not in the
    /// content store.
    NotFound { path: String, version: Option<u128> },
    /// The caller asked for something that the state of the store forbids.
    UsageError { message: String },
    /// A manifest or a record is missing or malformed.
    PackageError { message: String },
    /// A sync found divergent versions.
    ConflictError { conflicts: Vec<Conflict> },
}

/// An `Error`, as the contracts speak of it.
pub enum ErrorView {
    NotFound { path: Seq<char>, version: Option<u128> },
    UsageError { message: Seq<char> },
    PackageError { message: Seq<char> },
    ConflictError { conflicts: Seq<ConflictView> },
}

impl View for Error {
    type V = ErrorView;

    open spec fn view(&self) -> ErrorView {
        match self {
            Error::NotFound { path, version } => ErrorView::NotFound {
                path: path@,
                version: *version,
            },
            Error::UsageError { message } => ErrorView::UsageError { message: message@ },
            Error::PackageError { message } => ErrorView::PackageError { message: message@ },
            Error::ConflictError { conflicts } => ErrorView::ConflictError {
                conflicts: conflicts.deep_view(),
            },
        }
    }
}

impl ErrorView {
    /// The name of the kind of error.
    pub open spec fn kind(self) -> Seq<char> {
        match self {
            ErrorView::NotFound { .. } => "NotFound"@,
            ErrorView::UsageError { .. } => "UsageError"@,
            ErrorView::PackageError { .. } => "PackageError"@,
            ErrorView::ConflictError { .. } => "ConflictError"@,
        }
    }

    /// The status with which a service answers a request that failed so:
    /// 404 for what is not there, 400 for a request that the state of the
    /// store forbids, 409 for a conflict, and 500 for a package that is
    /// broken.
    pub open spec fn status_code(self) -> u16 {
        match self {
            ErrorView::NotFound { .. } => 404,
            ErrorView::UsageError { .. } => 400,
            ErrorView::PackageError { .. } => 500,
            ErrorView::ConflictError { .. } => 409,
        }
    }
}

impl Error {
    /// The name of the kind of error.
    pub fn kind(&self) -> (r: &'static str)
        ensures
            r@ == self@.kind(),
    {
        match self {
            Error::NotFound { .. } => "NotFound",
            Error::UsageError { .. } => "UsageError",
            Error::PackageError { .. } => "PackageError",
            Error::ConflictError { .. } => "ConflictError",
        }
    }

    /// The status with which a service answers a request that failed so.
    pub fn status_code(&self) -> (r: u16)
        ensures
            r == self@.status_code(),
    {
        match self {
            Error::NotFound { .. } => 404,
            Error::UsageError { .. } => 400,
            Error::PackageError { .. } => 500,
            Error::ConflictError { .. } => 409,
        }
    }
}

/// A usage error with the given message.
pub fn usage_error<T>(message: String) -> (r: Result<T, Error>)
    ensures
        r is Err,
        r->Err_0@ == (ErrorView::UsageError { message: message@ }),
{
    Err(Error::UsageError { message })
}

/// What is reported of a response that tells of a failure without saying why.
pub open spec fn some_error_occurred() -> Seq<char> {
    "Some Error occurred"@
}

/// What the answer of a remote service comes to: its data where it tells of
/// success and has data, else an error with the message of the service, or
/// with a message that says what is missing.
pub open spec fn response_of<T>(success: bool, message: Option<Seq<char>>, data: Option<T>) -> Result<
    T,
    ErrorView,
> {
    if !success {
        Err(
            ErrorView::PackageError {
                message: match message {
                    Some(m) => m,
                    None => some_error_occurred(),
                },
            },
        )
    } else {
        match data {
            Some(d) => Ok(d),
            None => Err(ErrorView::PackageError { message: "Unexpected API behaviour"@ }),
        }
    }
}

/// Checks the answer of a remote service.
pub fn checked_response<T>(success: bool, message: Option<String>, data: Option<T>) -> (r: Result<
    T,
    Error,
>)
    ensures
        match response_of(success, message.deep_view(), data) {
            Ok(d) => r is Ok && r->Ok_0 == d,
            Err(e) => r is Err && r->Err_0@ == e,
        },
{
    if !success {
        return Err(
            Error::PackageError {
                message: match message {
                    Some(m) => m,
                    None => "Some Error occurred".to_owned(),
                },
            },
        );
    }
    match data {
        Some(d) => Ok(d),
        None => Err(Error::PackageError { message: "Unexpected API behaviour".to_owned() }),
    }
}

} // verus!
