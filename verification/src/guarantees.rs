//! What the library promises, stated over the arguments and the results of its functions alone.
//!
//! A function is named here by what it ensures: `call_ensures(f, arguments, result)` says that
//! `result` can come of calling `f` with these arguments.
pub mod certificates;
pub mod config;
pub mod errors;
pub mod headers;
pub mod linux;
pub mod login;
pub mod preview;
pub mod proxy;
pub mod setup;
pub mod text;
pub mod tokens;
pub mod trust;
pub mod upstream;
pub mod websocket;
