//! Networking core of a peer-to-peer node: rendezvous codes, node identities
//! and addresses, the command/event bridge and the operator console.
pub mod text;
pub mod identity;
pub mod codec;
pub mod bridge;
pub mod console;
pub mod bootstrap;
pub mod vault;
pub mod tunnel;
