//! Failure taxonomy of the node: the flow conditions a forwarding cycle can
//! report, and the structured error used for bad stream locations.

use vstd::prelude::*;

verus! {

/// What a forwarding cycle reports when it does not succeed.  `Flushing` is
/// the normal termination of a cancelled wait, not a defect; the others are
/// downstream conditions propagated unchanged.
#[derive(Clone, Debug, PartialEq, Eq)]
pub enum FlowError {
    Flushing,
    Eos,
    NotNegotiated(String),
    Error(String),
}

/// The bare flow condition, with any message stripped: what the host
/// pipeline's flow-return code retains of a `FlowError`.
#[derive(Clone, Copy, Debug, PartialEq, Eq)]
pub enum FlowReturn {
    Flushing,
    Eos,
    NotNegotiated,
    Error,
}

impl FlowError {
    /// The flow-return code this error collapses to.
    pub fn flow_return(&self) -> (r: FlowReturn)
        ensures
            r == (match self {
                FlowError::Flushing => FlowReturn::Flushing,
                FlowError::Eos => FlowReturn::Eos,
                FlowError::NotNegotiated(_) => FlowReturn::NotNegotiated,
                FlowError::Error(_) => FlowReturn::Error,
            }),
    {
        match self {
            FlowError::Flushing => FlowReturn::Flushing,
            FlowError::Eos => FlowReturn::Eos,
            FlowError::NotNegotiated(_) => FlowReturn::NotNegotiated,
            FlowError::Error(_) => FlowReturn::Error,
        }
    }

    /// A short name for the condition.
    pub fn description(&self) -> (r: &'static str)
        ensures
            r@ == (match self {
                FlowError::Flushing => "Flushing"@,
                FlowError::Eos => "Eos"@,
                FlowError::NotNegotiated(_) => "Not Negotiated"@,
                FlowError::Error(_) => "Error"@,
            }),
    {
        match self {
            FlowError::Flushing => "Flushing",
            FlowError::Eos => "Eos",
            FlowError::NotNegotiated(_) => "Not Negotiated",
            FlowError::Error(_) => "Error",
        }
    }
}

/// The kinds of failure a stream location can be rejected for.
#[derive(Clone, Copy, Debug, PartialEq, Eq)]
pub enum UriErrorKind {
    UnsupportedProtocol,
    BadUri,
    BadState,
    BadReference,
}

/// A structured error for a bad stream location: a kind plus a free-form
/// message.
#[derive(Clone, Debug, PartialEq, Eq)]
pub struct UriError {
    error: UriErrorKind,
    message: String,
}

impl UriError {
    pub fn new(error: UriErrorKind, message: String) -> (r: UriError)
        ensures
            r.spec_error() == error,
            r.spec_message() == message@,
    {
        UriError { error, message }
    }

    pub closed spec fn spec_error(self) -> UriErrorKind {
        self.error
    }

    pub closed spec fn spec_message(self) -> Seq<char> {
        self.message@
    }

    pub fn message(&self) -> (r: &String)
        ensures
            r@ == self.spec_message(),
    {
        &self.message
    }

    pub fn error(&self) -> (r: UriErrorKind)
        ensures
            r == self.spec_error(),
    {
        self.error
    }

    /// A short name for the kind.
    pub fn description(&self) -> (r: &'static str)
        ensures
            r@ == (match self.spec_error() {
                UriErrorKind::UnsupportedProtocol => "Unsupported protocol"@,
                UriErrorKind::BadUri => "Bad URI"@,
                UriErrorKind::BadState => "Bad State"@,
                UriErrorKind::BadReference => "Bad Reference"@,
            }),
    {
        match self.error {
            UriErrorKind::UnsupportedProtocol => "Unsupported protocol",
            UriErrorKind::BadUri => "Bad URI",
            UriErrorKind::BadState => "Bad State",
            UriErrorKind::BadReference => "Bad Reference",
        }
    }
}

} // verus!
