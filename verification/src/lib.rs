use vstd::prelude::*;

pub mod connect;
pub mod error;
pub mod game;
pub mod handshake;
pub mod login;
pub mod mc_buf;
pub mod packets;
pub mod position;
pub mod profile;
pub mod status;
pub mod strings;
pub mod varint;

verus! {

/// Fixed protocol version this codec targets; ids in the per-phase tables
/// are assigned relative to this version.
pub const PROTOCOL_VERSION: u32 = 758;

} // verus!
