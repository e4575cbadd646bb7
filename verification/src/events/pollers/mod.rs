//! Pollers that turn changes in WeChat's databases into events.

pub mod contact_diff;
pub mod friend_request;
pub mod message;
pub mod session_emitter;
pub mod media;
pub mod wechat_dbs;
