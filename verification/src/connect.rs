use vstd::prelude::*;

verus! {

/// Which way a packet travels; each direction owns its own id table within a
/// phase.
#[derive(Clone, Copy, Debug, PartialEq, Eq, Structural)]
pub enum PacketFlow {
    /// Serverbound: client to server.
    ClientToServer,
    /// Clientbound: server to client.
    ServerToClient,
}

} // verus!
