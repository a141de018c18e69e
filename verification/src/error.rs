//! The errors of the client and what a backend-neutral caller sees of them.

use crate::path::ObjectLocation;
use crate::text::{copy_text, decimal, decimal_text, join};
use vstd::prelude::*;

verus! {

/// A failure below HTTP: no response was received. The three flags say
/// what the transport reported of it; `message` is its description.
#[derive(Debug)]
pub struct TransportError {
    pub timeout: bool,
    pub connect: bool,
    pub request: bool,
    pub message: String,
}

/// [`TransportError`] as a mathematical value.
pub struct TransportErrorView {
    pub timeout: bool,
    pub connect: bool,
    pub request: bool,
    pub message: Seq<char>,
}

impl View for TransportError {
    type V = TransportErrorView;

    open spec fn view(&self) -> TransportErrorView {
        TransportErrorView {
            timeout: self.timeout,
            connect: self.connect,
            request: self.request,
            message: self.message@,
        }
    }
}

impl TransportError {
    /// A copy of this error.
    pub fn duplicate(&self) -> (copy: TransportError)
        ensures
            copy@ == self@,
    {
        TransportError {
            timeout: self.timeout,
            connect: self.connect,
            request: self.request,
            message: copy_text(self.message.as_str()),
        }
    }
}

/// Everything that an operation of the client can fail with.
#[derive(Debug)]
pub enum AiStoreError {
    /// 404: the object does not exist.
    NotFound { message: String },
    /// 403.
    Forbidden { message: String },
    /// 401.
    Unauthorized { message: String },
    /// 409.
    AlreadyExists { message: String },
    /// Any other status outside 2xx, with the body of the response.
    Http { status: u16, message: String },
    /// The transport failed before a response arrived.
    Request { source: TransportError },
    /// Malformed XML, or a header that the protocol makes mandatory is absent.
    InvalidResponse { message: String },
    /// 304 to a conditional get.
    NotModified { path: ObjectLocation },
    /// 412 to a conditional get.
    PreconditionFailed { path: ObjectLocation },
    /// The client was set up wrongly.
    Configuration { message: String },
    /// More redirections in a row than the policy allows.
    TooManyRedirects { limit: u32 },
    /// A redirection that names no usable target.
    RedirectWithoutLocation { status: u16 },
}

/// [`AiStoreError`] as a mathematical value.
pub enum ErrorView {
    NotFound { message: Seq<char> },
    Forbidden { message: Seq<char> },
    Unauthorized { message: Seq<char> },
    AlreadyExists { message: Seq<char> },
    Http { status: u16, message: Seq<char> },
    Request { source: TransportErrorView },
    InvalidResponse { message: Seq<char> },
    NotModified { path: Seq<char> },
    PreconditionFailed { path: Seq<char> },
    Configuration { message: Seq<char> },
    TooManyRedirects { limit: u32 },
    RedirectWithoutLocation { status: u16 },
}

impl View for AiStoreError {
    type V = ErrorView;

    open spec fn view(&self) -> ErrorView {
        match self {
            AiStoreError::NotFound { message } => ErrorView::NotFound { message: message@ },
            AiStoreError::Forbidden { message } => ErrorView::Forbidden { message: message@ },
            AiStoreError::Unauthorized { message } => ErrorView::Unauthorized {
                message: message@,
            },
            AiStoreError::AlreadyExists { message } => ErrorView::AlreadyExists {
                message: message@,
            },
            AiStoreError::Http { status, message } => ErrorView::Http {
                status: *status,
                message: message@,
            },
            AiStoreError::Request { source } => ErrorView::Request { source: source@ },
            AiStoreError::InvalidResponse { message } => ErrorView::InvalidResponse {
                message: message@,
            },
            AiStoreError::NotModified { path } => ErrorView::NotModified { path: path@ },
            AiStoreError::PreconditionFailed { path } => ErrorView::PreconditionFailed {
                path: path@,
            },
            AiStoreError::Configuration { message } => ErrorView::Configuration {
                message: message@,
            },
            AiStoreError::TooManyRedirects { limit } => ErrorView::TooManyRedirects {
                limit: *limit,
            },
            AiStoreError::RedirectWithoutLocation { status } => ErrorView::RedirectWithoutLocation {
                status: *status,
            },
        }
    }
}

/// Whether `status` is in the 2xx class.
pub open spec fn is_success(status: u16) -> bool {
    200 <= status <= 299
}

/// Whether `status` is in the 3xx class.
pub open spec fn is_redirection(status: u16) -> bool {
    300 <= status <= 399
}

/// The error that a response outside 2xx stands for, given its status and
/// the text of its body.
pub open spec fn error_of_status(status: u16, body: Seq<char>) -> ErrorView {
    if status == 404 {
        ErrorView::NotFound { message: body }
    } else if status == 403 {
        ErrorView::Forbidden { message: body }
    } else if status == 401 {
        ErrorView::Unauthorized { message: body }
    } else if status == 409 {
        ErrorView::AlreadyExists { message: body }
    } else {
        ErrorView::Http { status, message: body }
    }
}

/// The sentence that describes an error.
pub open spec fn error_text(e: ErrorView) -> Seq<char> {
    match e {
        ErrorView::NotFound { message } => "Object not found: "@ + message,
        ErrorView::Forbidden { message } => "Access forbidden: "@ + message,
        ErrorView::Unauthorized { message } => "Unauthorized: "@ + message,
        ErrorView::AlreadyExists { message } => "Object already exists: "@ + message,
        ErrorView::Http { status, message } => "HTTP error "@ + decimal(status as nat) + ": "@
            + message,
        ErrorView::Request { source } => "Request error: "@ + source.message,
        ErrorView::InvalidResponse { message } => "Invalid response: "@ + message,
        ErrorView::NotModified { path } => "Not modified: "@ + path,
        ErrorView::PreconditionFailed { path } => "Precondition failed: "@ + path,
        ErrorView::Configuration { message } => "Configuration error: "@ + message,
        ErrorView::TooManyRedirects { limit } => "Too many redirects (max: "@ + decimal(
            limit as nat,
        ) + ")"@,
        ErrorView::RedirectWithoutLocation { status } => decimal(status as nat)
            + " redirect without Location header"@,
    }
}

impl AiStoreError {
    /// The error for a response whose status is outside 2xx.
    pub fn handle_error_response(status: u16, body: String) -> (error: AiStoreError)
        ensures
            error@ == error_of_status(status, body@),
    {
        if status == 404 {
            AiStoreError::NotFound { message: body }
        } else if status == 403 {
            AiStoreError::Forbidden { message: body }
        } else if status == 401 {
            AiStoreError::Unauthorized { message: body }
        } else if status == 409 {
            AiStoreError::AlreadyExists { message: body }
        } else {
            AiStoreError::Http { status, message: body }
        }
    }

    /// A copy of this error.
    pub fn duplicate(&self) -> (copy: AiStoreError)
        ensures
            copy@ == self@,
    {
        match self {
            AiStoreError::NotFound { message } => AiStoreError::NotFound {
                message: copy_text(message.as_str()),
            },
            AiStoreError::Forbidden { message } => AiStoreError::Forbidden {
                message: copy_text(message.as_str()),
            },
            AiStoreError::Unauthorized { message } => AiStoreError::Unauthorized {
                message: copy_text(message.as_str()),
            },
            AiStoreError::AlreadyExists { message } => AiStoreError::AlreadyExists {
                message: copy_text(message.as_str()),
            },
            AiStoreError::Http { status, message } => AiStoreError::Http {
                status: *status,
                message: copy_text(message.as_str()),
            },
            AiStoreError::Request { source } => AiStoreError::Request {
                source: source.duplicate(),
            },
            AiStoreError::InvalidResponse { message } => AiStoreError::InvalidResponse {
                message: copy_text(message.as_str()),
            },
            AiStoreError::NotModified { path } => AiStoreError::NotModified {
                path: path.duplicate(),
            },
            AiStoreError::PreconditionFailed { path } => AiStoreError::PreconditionFailed {
                path: path.duplicate(),
            },
            AiStoreError::Configuration { message } => AiStoreError::Configuration {
                message: copy_text(message.as_str()),
            },
            AiStoreError::TooManyRedirects { limit } => AiStoreError::TooManyRedirects {
                limit: *limit,
            },
            AiStoreError::RedirectWithoutLocation { status } => {
                AiStoreError::RedirectWithoutLocation { status: *status }
            },
        }
    }

    /// The sentence that describes this error.
    pub fn to_string(&self) -> (out: String)
        ensures
            out@ == error_text(self@),
    {
        match self {
            AiStoreError::NotFound { message } => join("Object not found: ", message.as_str()),
            AiStoreError::Forbidden { message } => join("Access forbidden: ", message.as_str()),
            AiStoreError::Unauthorized { message } => join("Unauthorized: ", message.as_str()),
            AiStoreError::AlreadyExists { message } => join(
                "Object already exists: ",
                message.as_str(),
            ),
            AiStoreError::Http { status, message } => {
                let head = join("HTTP error ", decimal_text(*status as u128).as_str());
                let head = join(head.as_str(), ": ");
                join(head.as_str(), message.as_str())
            },
            AiStoreError::Request { source } => join(
                "Request error: ",
                source.message.as_str(),
            ),
            AiStoreError::InvalidResponse { message } => join(
                "Invalid response: ",
                message.as_str(),
            ),
            AiStoreError::NotModified { path } => join("Not modified: ", path.as_str()),
            AiStoreError::PreconditionFailed { path } => join(
                "Precondition failed: ",
                path.as_str(),
            ),
            AiStoreError::Configuration { message } => join(
                "Configuration error: ",
                message.as_str(),
            ),
            AiStoreError::TooManyRedirects { limit } => {
                let head = join(
                    "Too many redirects (max: ",
                    decimal_text(*limit as u128).as_str(),
                );
                join(head.as_str(), ")")
            },
            AiStoreError::RedirectWithoutLocation { status } => join(
                decimal_text(*status as u128).as_str(),
                " redirect without Location header",
            ),
        }
    }
}

// ---------------------------------------------------------------------
// What a backend-neutral caller sees
// ---------------------------------------------------------------------

/// The name under which this backend reports errors of no special kind.
pub const STORE_NAME: &'static str = "aistore";

/// An error in the categories that every storage backend shares. Each one
/// keeps the client's own error as its source.
#[derive(Debug)]
pub enum StoreError {
    NotFound { path: String, source: AiStoreError },
    AlreadyExists { path: String, source: AiStoreError },
    NotModified { path: String, source: AiStoreError },
    Precondition { path: String, source: AiStoreError },
    Generic { store: &'static str, source: AiStoreError },
}

/// [`StoreError`] as a mathematical value.
pub enum StoreErrorView {
    NotFound { path: Seq<char>, source: ErrorView },
    AlreadyExists { path: Seq<char>, source: ErrorView },
    NotModified { path: Seq<char>, source: ErrorView },
    Precondition { path: Seq<char>, source: ErrorView },
    Generic { store: Seq<char>, source: ErrorView },
}

impl View for StoreError {
    type V = StoreErrorView;

    open spec fn view(&self) -> StoreErrorView {
        match self {
            StoreError::NotFound { path, source } => StoreErrorView::NotFound {
                path: path@,
                source: source@,
            },
            StoreError::AlreadyExists { path, source } => StoreErrorView::AlreadyExists {
                path: path@,
                source: source@,
            },
            StoreError::NotModified { path, source } => StoreErrorView::NotModified {
                path: path@,
                source: source@,
            },
            StoreError::Precondition { path, source } => StoreErrorView::Precondition {
                path: path@,
                source: source@,
            },
            StoreError::Generic { store, source } => StoreErrorView::Generic {
                store: store@,
                source: source@,
            },
        }
    }
}

/// The shared category of each error of the client. The four kinds that
/// every backend knows keep their kind; all others are generic.
pub open spec fn store_error_of(e: ErrorView) -> StoreErrorView {
    match e {
        ErrorView::NotFound { message } => StoreErrorView::NotFound { path: message, source: e },
        ErrorView::AlreadyExists { message } => StoreErrorView::AlreadyExists {
            path: message,
            source: e,
        },
        ErrorView::NotModified { path } => StoreErrorView::NotModified { path, source: e },
        ErrorView::PreconditionFailed { path } => StoreErrorView::Precondition {
            path,
            source: e,
        },
        _ => StoreErrorView::Generic { store: STORE_NAME@, source: e },
    }
}

impl StoreError {
    /// Sorts an error of the client into the shared categories.
    pub fn from_error(err: AiStoreError) -> (out: StoreError)
        ensures
            out@ == store_error_of(err@),
    {
        match &err {
            AiStoreError::NotFound { message } => {
                let path = copy_text(message.as_str());
                StoreError::NotFound { path, source: err }
            },
            AiStoreError::AlreadyExists { message } => {
                let path = copy_text(message.as_str());
                StoreError::AlreadyExists { path, source: err }
            },
            AiStoreError::NotModified { path } => {
                let path = copy_text(path.as_str());
                StoreError::NotModified { path, source: err }
            },
            AiStoreError::PreconditionFailed { path } => {
                let path = copy_text(path.as_str());
                StoreError::Precondition { path, source: err }
            },
            _ => StoreError::Generic { store: STORE_NAME, source: err },
        }
    }
}

} // verus!
