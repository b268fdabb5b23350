//! The library's failure taxonomy.

use vstd::prelude::*;
use vstd::string::StringSliceAdditionalSpecFns;

verus! {

/// The three failure kinds.  Textual payloads are carried as UTF-8 bytes,
/// uninterpreted.
#[derive(Debug, PartialEq)]
pub enum Error {
    /// An operating-system I/O failure (filesystem, pipe, poller), observed
    /// at the unverified edge or as a truncated frame on a byte stream.
    Io,
    /// An internal or protocol violation: an unknown tag, a protocol-version
    /// mismatch, a missing thread for an event, a malformed frame.
    Library(Vec<u8>),
    /// The peer answered a request with an error response; the payload is
    /// the peer's message.
    Request(Vec<u8>),
}

/// Copies a message literal into the byte form the error payloads carry.
pub fn msg_bytes(s: &str) -> (r: Vec<u8>)
    ensures
        r@ == s.spec_bytes(),
{
    vstd::slice::slice_to_vec(s.as_bytes())
}


} // verus!
