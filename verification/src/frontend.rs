//! Clients of the TCP frontend, as the router knows them.

use vstd::prelude::*;

verus! {

/// A connected client. Every connection gets a number of its own, from 1
/// up; number 0 stands for the proxy itself, which owns the commands that
/// fill its cache.
#[derive(Debug, Clone, Copy, PartialEq, Eq, Hash, Structural)]
pub struct ClientId(pub u64);

impl ClientId {
    /// The client with number `n`.
    pub fn new(n: u64) -> (id: Self)
        ensures
            id.0 == n,
    {
        ClientId(n)
    }

    /// The proxy itself, as the owner of its own commands.
    pub fn proxy() -> (id: Self)
        ensures
            id.0 == 0,
    {
        ClientId(0)
    }

    /// The number of this client.
    pub fn value(&self) -> (n: u64)
        ensures
            n == self.0,
    {
        self.0
    }
}

/// A command payload that a client sent.
#[derive(Debug)]
pub struct ClientCommand {
    pub client_id: ClientId,
    pub payload: Vec<u8>,
}

} // verus!
