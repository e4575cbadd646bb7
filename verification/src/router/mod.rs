//! Decisions behind the HTTP and websocket routes.

pub mod events;
pub mod media;
