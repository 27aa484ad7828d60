//! The library's error type and its JSON-RPC error object.
use vstd::prelude::*;
use crate::text::{decimal, push_decimal, push_signed_decimal, signed_decimal};

verus! {

/// Declares `serde_json::Value` as an opaque type: JSON values (tool
/// schemas, event parameters, error data) are carried through the library
/// unchanged, and nothing here reads inside one.
#[verifier::external_type_specification]
#[verifier::external_body]
pub struct ExJsonValue(serde_json::Value);

/// `<serde_json::Value as Clone>::clone`, which serde_json derives: the copy
/// is the same value.
pub assume_specification[ <serde_json::Value as Clone>::clone ](v: &serde_json::Value) -> (r: serde_json::Value)
    ensures
        r == *v,
;

/// JSON-RPC code for invalid parameters.
pub const INVALID_PARAMS: i64 = -32602;
/// JSON-RPC code for an internal error.
pub const INTERNAL_ERROR: i64 = -32603;

/// A failure reported by the native engine: its status code and last error text.
#[derive(Debug, Clone)]
pub struct NativeError {
    pub code: i32,
    pub message: String,
}

/// A JSON-RPC error object.
#[derive(Debug, Clone)]
pub struct RpcError {
    pub code: i64,
    pub message: String,
    pub data: Option<serde_json::Value>,
}

/// Every failure the harness reports. The I/O and JSON variants carry the
/// rendered message of the underlying error.
#[derive(Debug, Clone)]
pub enum Error {
    Native(NativeError),
    Io(String),
    Json(String),
    Rpc(RpcError),
    Closed,
    Invalid(String),
    Busy,
    Lagged(u64),
    Timeout,
}

pub type Result<T> = core::result::Result<T, Error>;

/// The mathematical form of an [`Error`]: texts as character sequences.
#[allow(inconsistent_fields)]
pub enum ErrorView {
    Native { code: i32, message: Seq<char> },
    Io(Seq<char>),
    Json(Seq<char>),
    Rpc { code: i64, message: Seq<char> },
    Closed,
    Invalid(Seq<char>),
    Busy,
    Lagged(u64),
    Timeout,
}

impl View for Error {
    type V = ErrorView;

    open spec fn view(&self) -> ErrorView {
        match self {
            Error::Native(e) => ErrorView::Native { code: e.code, message: e.message@ },
            Error::Io(m) => ErrorView::Io(m@),
            Error::Json(m) => ErrorView::Json(m@),
            Error::Rpc(e) => ErrorView::Rpc { code: e.code, message: e.message@ },
            Error::Closed => ErrorView::Closed,
            Error::Invalid(m) => ErrorView::Invalid(m@),
            Error::Busy => ErrorView::Busy,
            Error::Lagged(n) => ErrorView::Lagged(*n),
            Error::Timeout => ErrorView::Timeout,
        }
    }
}

/// The text that the error displays.
pub open spec fn error_text(e: ErrorView) -> Seq<char> {
    match e {
        ErrorView::Native { code, message } => "native runtime error "@ + signed_decimal(
            code as int,
        ) + ": "@ + message,
        ErrorView::Io(m) => m,
        ErrorView::Json(m) => m,
        ErrorView::Rpc { code, message } => message + " (RPC "@ + signed_decimal(code as int)
            + ")"@,
        ErrorView::Closed => "harness is closed"@,
        ErrorView::Invalid(m) => m,
        ErrorView::Busy => "request capacity exceeded"@,
        ErrorView::Lagged(n) => "event subscriber missed "@ + decimal(n as nat) + " events"@,
        ErrorView::Timeout => "request timed out"@,
    }
}

/// Builds an `Invalid` error from a message.
pub fn invalid(message: &str) -> (e: Error)
    ensures
        e@ == ErrorView::Invalid(message@),
{
    Error::Invalid(message.to_owned())
}

impl Error {
    /// The text the error displays.
    pub fn message(&self) -> (s: String)
        ensures
            s@ == error_text(self@),
    {
        match self {
            Error::Native(e) => {
                let mut s = String::from_str("native runtime error ");
                push_signed_decimal(&mut s, e.code as i64);
                s.append(": ");
                s.append(e.message.as_str());
                s
            },
            Error::Io(m) => m.clone(),
            Error::Json(m) => m.clone(),
            Error::Rpc(e) => {
                let mut s = e.message.clone();
                s.append(" (RPC ");
                push_signed_decimal(&mut s, e.code);
                s.append(")");
                s
            },
            Error::Closed => String::from_str("harness is closed"),
            Error::Invalid(m) => m.clone(),
            Error::Busy => String::from_str("request capacity exceeded"),
            Error::Lagged(n) => {
                let mut s = String::from_str("event subscriber missed ");
                push_decimal(&mut s, *n);
                s.append(" events");
                s
            },
            Error::Timeout => String::from_str("request timed out"),
        }
    }

    /// The JSON-RPC error object sent to a peer for this error: an RPC error
    /// passes through, an invalid request is an invalid-parameters error, and
    /// anything else is an internal error carrying the displayed text.
    pub fn rpc(self) -> (r: RpcError)
        ensures
            self matches Error::Rpc(e) ==> r == e,
            self matches Error::Invalid(m) ==> r.code == INVALID_PARAMS && r.message@ == m@
                && r.data is None,
            !(self is Rpc) && !(self is Invalid) ==> r.code == INTERNAL_ERROR && r.message@
                == error_text(self@) && r.data is None,
    {
        match self {
            Error::Rpc(e) => e,
            Error::Invalid(message) => RpcError { code: INVALID_PARAMS, message, data: None },
            error => {
                let message = error.message();
                RpcError { code: INTERNAL_ERROR, message, data: None }
            },
        }
    }
}

} // verus!
