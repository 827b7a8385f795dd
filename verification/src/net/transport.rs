//! One persistent connection, the handshake that opens it, and the façade
//! that a caller drives.

pub mod callback;
pub mod endpoint;
pub mod identify_mode;
pub mod identify_step;
pub mod long_link;
pub mod net_source;
pub mod read_buffer;
pub mod short_link;
pub mod transport;
