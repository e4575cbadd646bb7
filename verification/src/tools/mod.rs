//! Helpers around WeChat and the desktop session.

pub mod a11y_daemon;
pub mod wechat_chatroom_members;
