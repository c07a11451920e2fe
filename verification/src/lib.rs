//! PassClip: a clipboard guard that moves high-entropy secrets into an
//! in-memory vault and hands them back only through an authenticated session.
pub mod seal;
pub mod vault;
pub mod rules;
pub mod logs;
pub mod text;
pub mod monitor;
pub mod session;
pub mod ipc;
pub mod client;
pub mod daemon;
pub mod config;
