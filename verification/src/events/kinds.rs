//! Event type names, the `type` field of every event envelope.

use vstd::prelude::*;

verus! {

pub const MESSAGE_NEW: &'static str = "message.new";

pub const MESSAGE_MEDIA_READY: &'static str = "message.media_ready";

pub const SESSION_LOGIN: &'static str = "session.login";

pub const SESSION_LOGOUT: &'static str = "session.logout";

pub const SESSION_QR_REFRESH: &'static str = "session.qr_refresh";

pub const SESSION_SCAN: &'static str = "session.scan";

pub const CONTACT_FRIEND_REQUEST: &'static str = "contact.friend_request";

pub const CONTACT_ADDED: &'static str = "contact.added";

pub const CONTACT_REMOVED: &'static str = "contact.removed";

pub const CHATROOM_MEMBER_JOINED: &'static str = "chatroom.member_joined";

pub const CHATROOM_MEMBER_LEFT: &'static str = "chatroom.member_left";

} // verus!
