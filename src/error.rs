use vstd::prelude::*;

verus! {

/// The kinds of failure that the service reports.
#[derive(Clone, Copy, Debug, PartialEq, Eq, Structural)]
pub enum ErrorKind {
    /// A malformed address, a missing filter, a bad date or range.
    InvalidArgument,
    /// A group, recipient, template or event that does not exist.
    NotFound,
    /// A duplicate of a value that must be unique.
    Conflict,
    /// The transport could not deliver the message.
    DeliveryError,
    /// The store could not complete the operation.
    StoreError,
}

/// An error with its kind and a message for people.
#[derive(Clone, Debug)]
pub struct MailerError {
    pub kind: ErrorKind,
    pub message: String,
}

impl MailerError {
    pub fn new(kind: ErrorKind, message: &str) -> (r: MailerError)
        ensures
            r.kind == kind,
            r.message@ == message@,
    {
        MailerError { kind, message: String::from_str(message) }
    }
}

/// An error for a request that the service cannot accept.
pub fn new_rmcp_error(message: &str) -> (r: MailerError)
    ensures
        r.kind == ErrorKind::InvalidArgument,
        r.message@ == "RMCP error: "@ + message@,
{
    let prefix = String::from_str("RMCP error: ");
    MailerError { kind: ErrorKind::InvalidArgument, message: prefix.concat(message) }
}

} // verus!
