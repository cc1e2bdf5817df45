//! What the proxy knows of the mesh node: cached records and its identity.

pub mod identity;
pub mod state;
