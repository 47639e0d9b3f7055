//! Verified core of the fydia chat server: configuration, the crypto
//! envelope, the federation frame, the test runner's text processing,
//! the typing and websocket registries and the request checks.
pub mod text;
pub mod config;
pub mod crypto;
pub mod dispatcher;
pub mod manager;
pub mod websocket;
pub mod libtest;
pub mod router;
pub mod client;
