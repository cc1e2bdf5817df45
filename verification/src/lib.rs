//! A client multiplexer for the MeshCore companion protocol: framing, payload
//! decoding, the radio request router with its cache, and the node identity.

pub mod protocol;
pub mod text;
pub mod multiplexer;
pub mod frontend;
pub mod node;
pub mod cli;
