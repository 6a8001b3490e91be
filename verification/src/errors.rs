//! The library's failure taxonomy.
//!
//! Lookups and the change engine return typed failures rather than aborting;
//! the actor logs and continues past any single-message failure except a
//! closed mailbox of its own, which is fatal to it.

use crate::ident::Identifier;
use vstd::prelude::*;

verus! {

/// Why an operation failed.
#[derive(Debug)]
pub enum Error {
    /// A node, parent or client id that the operation requires is absent.
    NotFound(Identifier),
    /// There is no child at the requested position.
    NoSuchChild(usize),
    /// An unexpected message for the current state: an id mismatch on
    /// registration, traffic from an unregistered client, or a trigger on a
    /// node that is not a button.
    ProtocolViolation,
    /// The target node's permission does not admit the caller's credential.
    PermissionDenied,
    /// The peer side of a mailbox was dropped.
    ChannelClosed,
    /// A malformed or incompatible wire frame; carries what was expected.
    DecodeError(&'static str),
    /// A failure of foreign code, carried as its debug text.
    Foreign(String),
}

impl Error {
    /// Adapts any foreign result into the library's error type: successes
    /// pass through unchanged, failures become `Foreign` with the failure's
    /// debug text.
    pub fn from<M, E: core::fmt::Debug>(err: Result<M, E>) -> (r: Result<M, Error>)
        ensures
            r is Ok <==> err is Ok,
            err is Ok ==> r->Ok_0 == err->Ok_0,
            err is Err ==> r->Err_0 is Foreign,
    {
        match err {
            Ok(v) => Ok(v),
            Err(e) => Err(Error::Foreign(debug_text(&e))),
        }
    }

    /// A short fixed description of the failure, fit for a log line.
    pub fn describe(&self) -> (r: &'static str)
        ensures
            (match self {
                Error::NotFound(_) => r@ == "target not found"@,
                Error::NoSuchChild(_) => r@ == "this child does not exist"@,
                Error::ProtocolViolation => r@ == "protocol violation"@,
                Error::PermissionDenied => r@ == "permission denied"@,
                Error::ChannelClosed => r@ == "channel closed"@,
                Error::DecodeError(_) => r@ == "malformed frame"@,
                Error::Foreign(_) => r@ == "foreign failure"@,
            }),
    {
        match self {
            Error::NotFound(_) => "target not found",
            Error::NoSuchChild(_) => "this child does not exist",
            Error::ProtocolViolation => "protocol violation",
            Error::PermissionDenied => "permission denied",
            Error::ChannelClosed => "channel closed",
            Error::DecodeError(_) => "malformed frame",
            Error::Foreign(_) => "foreign failure",
        }
    }
}

/// Relies on `core::fmt`'s `Debug` formatting to render a foreign failure as
/// text; what the text holds depends on the foreign `Debug` implementation,
/// so nothing is promised of it.
#[verifier::external_body]
fn debug_text<E: core::fmt::Debug>(e: &E) -> String {
    format!("{:?}", e)
}

} // verus!
