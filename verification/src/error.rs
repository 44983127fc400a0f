//! The error taxonomy surfaced by the poller.

use vstd::prelude::*;

verus! {

/// Every failure the poller can report.
///
/// `InvalidAddress` is raised before any network attempt; the three others
/// are raised per poll and end the run.
#[derive(Clone, Copy, Debug, PartialEq, Eq, Structural)]
pub enum ProtocolError {
    /// The host string is neither an IP literal nor a valid hostname.
    InvalidAddress,
    /// The transport refused the connection or the host was unreachable.
    ConnectionFailure,
    /// The round trip exceeded the configured budget.
    Timeout,
    /// The reply did not conform to the expected protocol shape.
    DecodeFailure,
}

impl ProtocolError {
    /// A short description of the error, for display by a caller.
    pub fn message(&self) -> (r: &'static str)
        ensures
            r@ == self.message_spec(),
    {
        match self {
            ProtocolError::InvalidAddress => "invalid server address",
            ProtocolError::ConnectionFailure => "connection failed",
            ProtocolError::Timeout => "timed out waiting for the server",
            ProtocolError::DecodeFailure => "malformed reply from the server",
        }
    }

    pub open spec fn message_spec(&self) -> Seq<char> {
        match self {
            ProtocolError::InvalidAddress => "invalid server address"@,
            ProtocolError::ConnectionFailure => "connection failed"@,
            ProtocolError::Timeout => "timed out waiting for the server"@,
            ProtocolError::DecodeFailure => "malformed reply from the server"@,
        }
    }
}

} // verus!
