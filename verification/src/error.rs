//! Errors of the durable record log, and the I/O error type that the
//! provider adapters carry through from the files and sockets they use.
use vstd::prelude::*;

verus! {

#[derive(Clone, Copy, Debug, PartialEq, Eq, Structural)]
pub enum CanonError {
    /// A line of the log is not a well-formed, self-consistent record.
    InvalidTlogRecord,
    /// The log could not be read or written.
    TlogIo,
}

/// `std::io::Error`, carried opaquely by the adapter error types.
#[verifier::external_type_specification]
#[verifier::external_body]
pub struct ExIoError(std::io::Error);

/// `<std::io::Error as Display>::fmt`, through `format!("{}")`: the error's
/// text. For an error from the operating system the text is the system's
/// message for its code, which differs between systems, so the contract
/// says nothing of it.
#[verifier::external_body]
pub(crate) fn io_error_text(error: &std::io::Error) -> (r: String) {
    format!("{}", error)
}

} // verus!
