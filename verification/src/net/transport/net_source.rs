//! Where the links connect to.

use super::endpoint::Endpoint;
use vstd::prelude::*;

verus! {

/// The endpoints that were set for the long link and for short links.
pub struct NetSource {
    long: Option<Endpoint>,
    short: Option<Endpoint>,
}

impl NetSource {
    /// The endpoint of the long link, where one was set.
    pub closed spec fn long(&self) -> Option<Endpoint> {
        self.long
    }

    /// The endpoint of short links, where one was set.
    pub closed spec fn short(&self) -> Option<Endpoint> {
        self.short
    }

    /// A source with no endpoint set.
    pub fn new() -> (source: Self)
        ensures
            source.long().is_none(),
            source.short().is_none(),
    {
        NetSource { long: None, short: None }
    }

    /// Sets the endpoint of the long link.
    pub fn set_long_link_endpoint(&mut self, endpoint: Endpoint)
        ensures
            final(self).long() == Some(endpoint),
            final(self).short() == old(self).short(),
    {
        self.long = Some(endpoint);
    }

    /// A copy of the endpoint of the long link, where one was set.
    pub fn get_long_link_endpoint(&self) -> (endpoint: Option<Endpoint>)
        ensures
            endpoint == self.long(),
    {
        match &self.long {
            Some(endpoint) => Some(endpoint.clone()),
            None => None,
        }
    }

    /// Sets the endpoint of short links.
    pub fn set_short_link_endpoint(&mut self, endpoint: Endpoint)
        ensures
            final(self).short() == Some(endpoint),
            final(self).long() == old(self).long(),
    {
        self.short = Some(endpoint);
    }

    /// A copy of the endpoint of short links, where one was set.
    pub fn get_short_link_endpoint(&self) -> (endpoint: Option<Endpoint>)
        ensures
            endpoint == self.short(),
    {
        match &self.short {
            Some(endpoint) => Some(endpoint.clone()),
            None => None,
        }
    }
}

} // verus!
