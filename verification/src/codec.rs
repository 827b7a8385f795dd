//! Framing codecs: how messages become bytes on a link and back.

pub mod long_link;
pub mod short_link;
