//! Core of a loopback reverse proxy that keeps cookies on behalf of an
//! embedded web client.

pub mod config;
pub mod cookie;
pub mod header;
pub mod laws;
pub mod method;
pub mod proxy;
pub mod text;
