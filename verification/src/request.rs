//! The parts of a request that the guard reads.
use vstd::prelude::*;

use http::{Extensions, HeaderMap, Uri};

verus! {

/// A client address, as its octets in network order.
#[derive(Debug, Clone, Copy, PartialEq, Eq)]
pub enum ClientIp {
    V4([u8; 4]),
    V6([u8; 16]),
}

/// The client IP the IP gate evaluates, carried in request extensions.
///
/// There is no single place a peer address lives in a framework-neutral
/// request: insert this extension upstream and the configured gate evaluates
/// it. Without the extension the request is not attributed and the IP gate does
/// not run; the request still goes through detection.
#[derive(Debug, Clone, Copy, PartialEq, Eq)]
pub struct GuardClientIp(pub ClientIp);

/// The parts of a request that the guard reads: its target, its headers and
/// its extensions.
#[derive(Debug)]
pub struct RequestParts {
    pub uri: Uri,
    pub headers: HeaderMap,
    pub extensions: Extensions,
}

} // verus!
