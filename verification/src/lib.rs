//! A minimal WebSocket server core: frame codec, upgrade handshake,
//! connection registry, event queue and the per-connection state machine,
//! with every rule stated as a contract and proved.

pub mod error;
pub mod event;
pub mod frame;
pub mod handshake;
pub mod http;
pub mod json;
pub mod laws;
pub mod registry;
pub mod roc;
pub mod scan;
pub mod server;
pub mod text;
