//! Event bus, pollers and push-subscription logic of the WeChat agent server,
//! with their contracts proved by Verus.

pub mod config;
pub mod events;
pub mod execution;
pub mod router;
pub mod str_map;
pub mod text;
pub mod tools;
pub mod types;
