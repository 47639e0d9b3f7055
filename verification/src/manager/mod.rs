//! The registries behind the websocket and typing managers.
pub mod websockets;
pub mod typing;
