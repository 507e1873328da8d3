//! A socket abstraction layer over a minimal, capability-oriented set of
//! host socket primitives.
//!
//! The host exposes sockets as opaque integer handles and speaks a flat
//! buffer-and-length calling convention; this crate bridges that ABI into
//! structured stream, listener and datagram types.  The primitive surface is
//! taken as an explicit capability provider value (`host::Host`), threaded
//! through every operation, so the whole handle lifecycle and every
//! translation step is stated and checked against a precise model of the
//! host's behaviour.

pub mod addr;
pub mod addrinfo;
pub mod error;
pub mod fdflags;
pub mod host;
pub mod tcp;
pub mod text;
pub mod udp;
