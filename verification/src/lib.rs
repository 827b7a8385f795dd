//! Transport core of an instant-messaging link: a growable byte buffer, the
//! long-link framing codec, and the state machines of one persistent
//! connection and of the façade that drives it.
//!
//! Nothing here reads or writes a socket. The engine of a link and its
//! façade take what happened as values and return what is to be done, so
//! that every decision of the transport is verified.

pub mod buffer;
pub mod codec;
pub mod net;

pub use crate::buffer::AutoBuffer;
pub use crate::net::transport::endpoint::Endpoint;
pub use crate::net::transport::transport::Transport;
