//! A short link: one connection per request. Only its parts are there yet.

use super::net_source::NetSource;
use crate::codec::short_link::Codec;
use vstd::prelude::*;

verus! {

/// A short link over a source of endpoints and a codec.
pub struct ShortLink<C: Codec> {
    source: NetSource,
    codec: C,
}

impl<C: Codec> ShortLink<C> {
    /// The endpoints that the link connects to.
    pub closed spec fn source(&self) -> NetSource {
        self.source
    }

    /// The codec of the link.
    pub closed spec fn codec(&self) -> C {
        self.codec
    }

    /// A short link over `source` and `codec`.
    pub fn new(source: NetSource, codec: C) -> (link: Self)
        ensures
            link.source() == source,
            link.codec() == codec,
    {
        ShortLink { source, codec }
    }
}

} // verus!
