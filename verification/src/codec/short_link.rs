//! The short-link codec. Short links are not specified yet: the default codec
//! leaves its buffers as they are.

use crate::buffer::AutoBuffer;
use vstd::prelude::*;

verus! {

/// The protocol version of short links.
pub const DEFAULT_VERSION: u32 = 100;

/// A codec of short-link messages.
pub trait Codec: Send {
    fn encode(&self, task_id: u32, out_buffer: &mut AutoBuffer, extend_buffer: &mut AutoBuffer);

    fn decode(&self, task_id: u32, in_buffer: &AutoBuffer, extend_buffer: &mut AutoBuffer);
}

/// The short-link codec that does nothing.
pub struct DefaultCodec {
    version: u32,
}

impl DefaultCodec {
    /// The protocol version that this codec was made for.
    pub closed spec fn version(&self) -> u32 {
        self.version
    }

    /// A codec for protocol version `version`.
    pub fn new(version: u32) -> (codec: Self)
        ensures
            codec.version() == version,
    {
        DefaultCodec { version }
    }
}

impl Codec for DefaultCodec {
    fn encode(&self, task_id: u32, out_buffer: &mut AutoBuffer, extend_buffer: &mut AutoBuffer)
        ensures
            final(out_buffer).same_as(*old(out_buffer)),
            final(extend_buffer).same_as(*old(extend_buffer)),
    {
    }

    fn decode(&self, task_id: u32, in_buffer: &AutoBuffer, extend_buffer: &mut AutoBuffer)
        ensures
            final(extend_buffer).same_as(*old(extend_buffer)),
    {
    }
}

} // verus!
