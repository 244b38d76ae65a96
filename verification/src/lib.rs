//! A multi-protocol forwarding proxy core: SOCKS5 and HTTP CONNECT
//! handshake logic, access-control evaluation, connection statistics,
//! relay byte accounting, and the management-surface data model.
//!
//! Network I/O lives outside this crate; every decision the proxy makes
//! on bytes and configuration values is implemented and verified here.

pub mod api;
pub mod base64;
mod clock;
pub mod config;
pub mod connection;
pub mod error;
pub mod http_connect;
pub mod relay;
pub mod session;
pub mod socks5;
pub mod stats;
pub mod text;
