//! Error taxonomy of the socket layer.
//!
//! Host-reported status codes (any nonzero primitive return) are carried as
//! `Os` errors; the remaining variants are synthesized locally by this layer.

use vstd::prelude::*;

verus! {

/// An error returned by an operation of the socket layer.
#[derive(Clone, Copy, Debug, PartialEq, Eq, Structural)]
pub enum SockError {
    /// A host primitive reported this nonzero status code.
    Os(u32),
    /// An address family other than the supported IPv4 form was seen where
    /// a structured address had to be produced.
    UnsupportedAddressType,
    /// A candidate address list was empty.
    NoAddress,
    /// A textual socket address did not parse.
    MalformedAddress,
    /// The operation has no implemented path.
    Unimplemented,
}

} // verus!
