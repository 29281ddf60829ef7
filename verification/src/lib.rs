//! Veil, a minimal Ironwood wallet.
pub mod bytes;
pub mod chain;
pub mod config;
pub mod daemon;
pub mod error;
pub mod keys;
pub mod network;
pub mod rpc;
pub mod scan;
pub mod send;
pub mod shape;
pub mod storage;
pub mod sync;
pub mod text;
pub mod wallet;
