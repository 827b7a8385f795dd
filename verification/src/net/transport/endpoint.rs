//! The address of a server.

use vstd::prelude::*;

verus! {

/// A host and a port.
#[derive(Debug)]
pub struct Endpoint {
    host: String,
    port: u16,
}

impl Endpoint {
    /// The host, as its characters.
    pub closed spec fn host(&self) -> Seq<char> {
        self.host@
    }

    /// The port.
    pub closed spec fn port(&self) -> u16 {
        self.port
    }

    /// The endpoint of `host` and `port`.
    pub fn new(host: String, port: u16) -> (endpoint: Self)
        ensures
            endpoint.host() == host@,
            endpoint.port() == port,
    {
        Endpoint { host, port }
    }

    /// The host.
    pub fn get_host(&self) -> (host: &str)
        ensures
            host@ == self.host(),
    {
        self.host.as_str()
    }

    /// The port.
    #[verifier::when_used_as_spec(port)]
    pub fn get_port(&self) -> (port: u16)
        ensures
            port == self.port(),
    {
        self.port
    }
}

impl Clone for Endpoint {
    /// An endpoint of the same host and port.
    fn clone(&self) -> (endpoint: Self)
        ensures
            endpoint == *self,
    {
        Endpoint { host: self.host.clone(), port: self.port }
    }
}

} // verus!
