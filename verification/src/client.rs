//! The HTTP transport abstraction.
//!
//! One capability: post a serialized JSON body to a URL and hand back
//! the response body as text.  Keeping the transport behind a trait
//! lets an embedding program supply a real HTTP client and lets tests
//! substitute a canned response; no decoding happens here, so a
//! registrar that answers 200 with a failure envelope is still handed
//! to the decoder unchanged.

use vstd::prelude::*;

verus! {

/// An opaque transport failure: network, name resolution, TLS, or a
/// response whose body could not be retrieved.  The distinction is
/// deliberately collapsed.
#[derive(Debug, Clone, Copy, PartialEq, Eq, Structural)]
pub struct TransportFailure;

/// A capability to post a JSON body and receive the response text.
///
/// Nothing is assumed of an implementation: the endpoint operations
/// state what they return for *every* text a transport can hand back.
pub trait HttpClient {
    /// Post `body` (already serialized JSON) to `url`; return the
    /// response body as text.
    fn post_json(&self, url: &str, body: &str) -> Result<String, TransportFailure>;
}

} // verus!
