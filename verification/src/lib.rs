//! A peer-to-peer mesh networking node: message framing, node configuration,
//! node identities, the peer table and the decisions of the mesh event loop.
pub mod config;
pub mod error;
pub mod identity;
pub mod mesh;
pub mod message;
pub mod peers;
pub mod service;
pub mod wire;
