//! jrok: a distributed tunnel server. This crate holds its verified core:
//! the STUN wire format, NAT classification and hole-punch planning,
//! connection tracking and relaying, the in-memory agent registry, the
//! cluster's leader-election decisions and the data model shared with the
//! database layer.
pub mod text;
pub mod ids;
pub mod error;
pub mod stun;
pub mod nat_traversal;
pub mod table;
pub mod relay;
pub mod codec;
pub mod db;
pub mod config;
pub mod proto;
pub mod agent;
pub mod cluster;
pub mod tcp;
pub mod tunnel;
pub mod session;
pub mod client;
