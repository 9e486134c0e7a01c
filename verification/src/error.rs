//! The error taxonomy of the attestation protocol.

use vstd::prelude::*;

verus! {

/// Every failure the library reports, from device discovery through
/// evidence verification.
#[derive(Clone, Copy, Debug, PartialEq, Eq, Structural)]
pub enum Error {
    /// The secure-processor device node is missing or inaccessible; fatal
    /// for the whole request.
    DeviceUnavailable,
    /// A topology file or directory could not be read; the node is skipped.
    IOFailure,
    /// A topology file did not hold a valid non-negative integer.
    ParseFailure,
    /// The privileged exchange call failed at the OS or firmware level.
    ExchangeFailure,
    /// A response buffer did not have the exact page-sized layout.
    MalformedResponse,
    /// The digest or keyed-digest primitive was unavailable.
    CryptoFailure,
    /// The evidence authentication tag did not match; a hard failure.
    BadSignature,
    /// Every discovered node's exchange failed.
    AllNodesFailed,
    /// The public-key group identifier is not recognized.
    UnsupportedGroup,
    /// The coordinates do not lie on the requested curve.
    InvalidPoint,
}

} // verus!
