//! What the wallet learns from the peer-to-peer network.
pub mod compact;
pub mod history;
pub mod node;
pub mod proto;
pub mod verify;
