//! The decisions of a local HTTPS/WSS proxy: which requests go where, with which headers, and how the
//! proxy gets a certificate that the system trusts.
pub mod auth;
pub mod certificates;
pub mod config;
pub mod directory;
pub mod error;
pub mod forward;
pub mod guarantees;
pub mod headers;
pub mod linux;
pub mod preview;
pub mod proxy;
pub mod text;
pub mod tls;
pub mod trust;
pub mod upstream;
pub mod websocket;
