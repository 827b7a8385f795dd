//! The codecs as the link layer names them.

pub mod long_link;
pub mod short_link;
