//! The network side: the codecs of the link layer and the transport that
//! keeps one long link alive.

pub mod codec;
pub mod transport;
