//! The failures that the provider, a request or the configuration can cause.

use crate::text::join;
use vstd::prelude::*;

verus! {

/// Any failure of the webhook.  Each variant carries its detail as text.
#[derive(Debug, Clone, PartialEq, Eq)]
pub enum Error {
    /// The provider's API answered with a failure.
    NjallaApi(String),
    /// The request lacks something or cannot be understood.
    InvalidRequest(String),
    /// The zone is outside the configured allow-list.
    DomainNotAllowed(String),
    /// A record that was asked for does not exist.
    RecordNotFound(String),
    /// The process was started with unusable settings.
    Configuration(String),
    /// The provider could not be reached.
    Network(String),
    /// A body was not the JSON that was expected.
    Json(String),
    /// A whole batch of changes failed.
    Internal(String),
    /// A failure from elsewhere, shown as it came.
    Other(String),
}

/// An [`Error`] with its detail as a sequence of characters.
pub enum ErrorView {
    NjallaApi(Seq<char>),
    InvalidRequest(Seq<char>),
    DomainNotAllowed(Seq<char>),
    RecordNotFound(Seq<char>),
    Configuration(Seq<char>),
    Network(Seq<char>),
    Json(Seq<char>),
    Internal(Seq<char>),
    Other(Seq<char>),
}

impl View for Error {
    type V = ErrorView;

    open spec fn view(&self) -> ErrorView {
        match self {
            Error::NjallaApi(m) => ErrorView::NjallaApi(m@),
            Error::InvalidRequest(m) => ErrorView::InvalidRequest(m@),
            Error::DomainNotAllowed(m) => ErrorView::DomainNotAllowed(m@),
            Error::RecordNotFound(m) => ErrorView::RecordNotFound(m@),
            Error::Configuration(m) => ErrorView::Configuration(m@),
            Error::Network(m) => ErrorView::Network(m@),
            Error::Json(m) => ErrorView::Json(m@),
            Error::Internal(m) => ErrorView::Internal(m@),
            Error::Other(m) => ErrorView::Other(m@),
        }
    }
}

impl DeepView for Error {
    type V = ErrorView;

    open spec fn deep_view(&self) -> ErrorView {
        self@
    }
}

impl ErrorView {
    /// The detail that the failure carries.
    pub open spec fn detail(self) -> Seq<char> {
        match self {
            ErrorView::NjallaApi(m) => m,
            ErrorView::InvalidRequest(m) => m,
            ErrorView::DomainNotAllowed(m) => m,
            ErrorView::RecordNotFound(m) => m,
            ErrorView::Configuration(m) => m,
            ErrorView::Network(m) => m,
            ErrorView::Json(m) => m,
            ErrorView::Internal(m) => m,
            ErrorView::Other(m) => m,
        }
    }

    /// The words that introduce the detail when the failure is written out.
    pub open spec fn prefix(self) -> Seq<char> {
        match self {
            ErrorView::NjallaApi(_) => "Njalla API error: "@,
            ErrorView::InvalidRequest(_) => "Invalid request: "@,
            ErrorView::DomainNotAllowed(_) => "Domain not allowed: "@,
            ErrorView::RecordNotFound(_) => "Record not found: "@,
            ErrorView::Configuration(_) => "Configuration error: "@,
            ErrorView::Network(_) => "Network error: "@,
            ErrorView::Json(_) => "JSON error: "@,
            ErrorView::Internal(_) => "Internal error: "@,
            ErrorView::Other(_) => ""@,
        }
    }

    /// The failure written out for a reader: its kind, then its detail.
    pub open spec fn text(self) -> Seq<char> {
        self.prefix() + self.detail()
    }

    /// The HTTP status that reports the failure: 400 for a bad request or
    /// body, 403 for a zone that is not allowed, 404 for a missing record,
    /// 502 for a failure of the provider or the way to it, 500 otherwise.
    pub open spec fn status_code(self) -> u16 {
        match self {
            ErrorView::NjallaApi(_) => 502,
            ErrorView::InvalidRequest(_) => 400,
            ErrorView::DomainNotAllowed(_) => 403,
            ErrorView::RecordNotFound(_) => 404,
            ErrorView::Configuration(_) => 500,
            ErrorView::Network(_) => 502,
            ErrorView::Json(_) => 400,
            ErrorView::Internal(_) => 500,
            ErrorView::Other(_) => 500,
        }
    }
}

/// What the HTTP boundary sends for a failure: the status line's code and
/// the body's two members.
#[derive(Debug, Clone, PartialEq, Eq)]
pub struct ErrorResponse {
    pub status: u16,
    pub error: String,
}

impl Error {
    /// The detail that the failure carries.
    pub fn detail(&self) -> (m: &String)
        ensures
            m@ == self@.detail(),
    {
        match self {
            Error::NjallaApi(m) => m,
            Error::InvalidRequest(m) => m,
            Error::DomainNotAllowed(m) => m,
            Error::RecordNotFound(m) => m,
            Error::Configuration(m) => m,
            Error::Network(m) => m,
            Error::Json(m) => m,
            Error::Internal(m) => m,
            Error::Other(m) => m,
        }
    }

    /// The HTTP status that reports the failure.
    pub fn status_code(&self) -> (code: u16)
        ensures
            code == self@.status_code(),
    {
        match self {
            Error::NjallaApi(_) => 502,
            Error::InvalidRequest(_) => 400,
            Error::DomainNotAllowed(_) => 403,
            Error::RecordNotFound(_) => 404,
            Error::Configuration(_) => 500,
            Error::Network(_) => 502,
            Error::Json(_) => 400,
            Error::Internal(_) => 500,
            Error::Other(_) => 500,
        }
    }

    /// The failure written out for a reader.
    pub fn to_text(&self) -> (s: String)
        ensures
            s@ == self@.text(),
    {
        let prefix = match self {
            Error::NjallaApi(_) => "Njalla API error: ",
            Error::InvalidRequest(_) => "Invalid request: ",
            Error::DomainNotAllowed(_) => "Domain not allowed: ",
            Error::RecordNotFound(_) => "Record not found: ",
            Error::Configuration(_) => "Configuration error: ",
            Error::Network(_) => "Network error: ",
            Error::Json(_) => "JSON error: ",
            Error::Internal(_) => "Internal error: ",
            Error::Other(_) => "",
        };
        join(prefix, self.detail().as_str())
    }

    /// The status and the body that answer a request that failed.
    pub fn into_response(self) -> (response: ErrorResponse)
        ensures
            response.status == self@.status_code(),
            response.error@ == self@.detail(),
    {
        let status = self.status_code();
        let error = match self {
            Error::NjallaApi(m) => m,
            Error::InvalidRequest(m) => m,
            Error::DomainNotAllowed(m) => m,
            Error::RecordNotFound(m) => m,
            Error::Configuration(m) => m,
            Error::Network(m) => m,
            Error::Json(m) => m,
            Error::Internal(m) => m,
            Error::Other(m) => m,
        };
        ErrorResponse { status, error }
    }
}

/// The text of a result that is a string or a failure.
pub open spec fn text_result(r: Result<String, Error>) -> Result<Seq<char>, ErrorView> {
    match r {
        Ok(s) => Ok(s@),
        Err(e) => Err(e@),
    }
}

} // verus!
