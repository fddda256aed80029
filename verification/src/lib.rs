//! The control plane of an overlay mesh VPN: node identities and signed
//! claims, the framed wire codec, the link handshake, RTT-based link
//! metrics, the routing adapter and the hop-by-hop packet courier, all
//! driven by a single-threaded actor over an event queue.

pub mod bytes;
pub mod claim;
pub mod codec;
pub mod config;
pub mod courier;
pub mod entity;
pub mod metric;
pub mod network;
pub mod routing;
pub mod state;
pub mod timing;
