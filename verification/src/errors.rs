//! Error kinds shared by the resolver and the discovery engine.

use vstd::prelude::*;

verus! {

/// Error variants returned by the fallible operations of this crate.
#[derive(Debug, Clone, Copy, PartialEq, Eq, Structural)]
pub enum Error {
    /// The session closed before a matching response arrived; carries the
    /// transaction id of the abandoned lookup.
    LookupCanceled(u16),
    /// The packet is shorter than the 12-byte DNS header.
    TooShort,
    /// The operation was attempted on a closed session.
    InvalidState,
    /// The bytes could not be used as a DNS message or name.
    Malformed,
    /// A text record held bytes that are not valid UTF-8.
    Utf8,
    /// The server reported a failure; carries the wire response code.
    ServerError(u16),
    /// A message arrived that is not tagged as a response.
    InvalidType,
    /// No nameserver stands in the system-wide configuration.
    SysWideNameServer,
}

} // verus!
