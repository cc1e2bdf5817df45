//! The companion protocol: byte framing and payload decoding.

pub mod buffer;
pub mod decode;
pub mod fields;
pub mod frame;
pub mod wire;
