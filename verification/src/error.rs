//! The failures of construction and lookup.

use crate::details::{copy_text, text_of, Text};
use vstd::prelude::*;

verus! {

/// The kinds of failure.
#[derive(Debug, Clone, Copy, PartialEq, Eq, Structural, Hash)]
pub enum IpErrorKind {
    /// The exchange with the service failed: no connection, a timeout.
    HTTPClientError,
    /// The service answered that the request quota is used up.
    RateLimitExceededError,
    /// The service refused the request: it answered with a failure status or
    /// with an error report.
    IpRequestError,
    /// The service answered with what is no batch of records.
    ParseError,
    /// The reference tables are malformed, or lack a country that a record
    /// names.
    ReferenceDataError,
}

/// A failure: its kind, the message that came with it, and the status of the
/// reply where the status is the reason.
#[derive(Debug, PartialEq, Eq)]
pub struct IpError {
    kind: IpErrorKind,
    description: Option<String>,
    status: Option<u16>,
}

pub struct IpErrorView {
    pub kind: IpErrorKind,
    pub description: Option<Text>,
    pub status: Option<u16>,
}

impl View for IpError {
    type V = IpErrorView;

    closed spec fn view(&self) -> IpErrorView {
        IpErrorView {
            kind: self.kind,
            description: text_of(self.description),
            status: self.status,
        }
    }
}

/// The failure of a kind without message or status.
pub open spec fn failure(kind: IpErrorKind) -> IpErrorView {
    IpErrorView { kind, description: None, status: None }
}

/// The failure of a kind with a message.
pub open spec fn failure_with(kind: IpErrorKind, message: Text) -> IpErrorView {
    IpErrorView { kind, description: Some(message), status: None }
}

/// The refusal of a request by its status.
pub open spec fn refusal(status: u16) -> IpErrorView {
    IpErrorView { kind: IpErrorKind::IpRequestError, description: None, status: Some(status) }
}

impl IpError {
    /// A failure of the given kind, with a message or without.
    pub fn new(kind: IpErrorKind, description: Option<&str>) -> (error: IpError)
        ensures
            error@ == (IpErrorView {
                kind,
                description: match description {
                    Some(message) => Some(message@),
                    None => None,
                },
                status: None,
            }),
    {
        let description = match description {
            Some(message) => Some(message.to_owned()),
            None => None,
        };
        IpError { kind, description, status: None }
    }

    /// The refusal of a request with the given status.
    pub fn from_status(status: u16) -> (error: IpError)
        ensures
            error@ == refusal(status),
    {
        IpError { kind: IpErrorKind::IpRequestError, description: None, status: Some(status) }
    }

    /// The kind of the failure.
    pub fn kind(&self) -> (kind: IpErrorKind)
        ensures
            kind == self@.kind,
    {
        self.kind
    }

    /// The message that came with the failure.
    pub fn description(&self) -> (description: Option<String>)
        ensures
            text_of(description) == self@.description,
    {
        copy_text(&self.description)
    }

    /// The status of the reply, where the failure is a refused request.
    pub fn status(&self) -> (status: Option<u16>)
        ensures
            status == self@.status,
    {
        self.status
    }
}

impl Clone for IpError {
    fn clone(&self) -> (copy: Self)
        ensures
            copy@ == self@,
    {
        IpError {
            kind: self.kind,
            description: copy_text(&self.description),
            status: self.status,
        }
    }
}

} // verus!
