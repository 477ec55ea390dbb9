//! Configuration holders for the transports that fetch the raw
//! statistics text.
//!
//! Connecting, reading and closing sockets is transport work that
//! lives outside this crate; these types only carry the addresses the
//! serving layer hands them.

use vstd::prelude::*;

verus! {

/// The remote-control TCP transport: the host to connect to.
#[derive(Debug)]
pub struct TextTransport {
    pub host: String,
}

impl TextTransport {
    /// A transport for the given host.
    pub fn new(host: String) -> (r: TextTransport)
        ensures
            r.host@ == host@,
    {
        TextTransport { host }
    }
}

/// The remote-control Unix-socket transport: the socket path.
#[derive(Debug)]
pub struct UdsTransport {
    pub path: String,
}

impl UdsTransport {
    /// A transport for the given socket path.
    pub fn new(path: String) -> (r: UdsTransport)
        ensures
            r.path@ == path@,
    {
        UdsTransport { path }
    }
}

/// The direct Unix-socket statistics source: the socket path.
#[derive(Debug)]
pub struct UdsSource {
    pub path: String,
}

impl UdsSource {
    /// A source reading from the given socket path.
    pub fn new(path: String) -> (r: UdsSource)
        ensures
            r.path@ == path@,
    {
        UdsSource { path }
    }
}

} // verus!
