//! Session lifecycle events, published from the login and logout flows.

use crate::events::bus::{published_new, EventBus};
use crate::events::{kinds, JsonValue, JsonView, Payload};
use vstd::prelude::*;

verus! {

/// Publishes `session.login` with the logged-in `wxid` and the session name.
pub fn emit_login(bus: &mut EventBus, wxid: &str, session_id: &str)
    ensures
        published_new(
            *old(bus),
            *final(bus),
            kinds::SESSION_LOGIN@,
            seq![("wxid"@, JsonView::Str(wxid@)), ("sessionName"@, JsonView::Str(session_id@))],
        ),
{
    let data = Payload::new().with("wxid", JsonValue::Str(wxid.to_string())).with(
        "sessionName",
        JsonValue::Str(session_id.to_string()),
    );
    assert(data@ =~= seq![("wxid"@, JsonView::Str(wxid@)), ("sessionName"@, JsonView::Str(session_id@))]);
    bus.publish_new(kinds::SESSION_LOGIN, data);
}

/// Publishes `session.logout` with the `wxid` that was logged in and the reason.
pub fn emit_logout(bus: &mut EventBus, wxid: &str, reason: &str)
    ensures
        published_new(
            *old(bus),
            *final(bus),
            kinds::SESSION_LOGOUT@,
            seq![("wxid"@, JsonView::Str(wxid@)), ("reason"@, JsonView::Str(reason@))],
        ),
{
    let data = Payload::new().with("wxid", JsonValue::Str(wxid.to_string())).with(
        "reason",
        JsonValue::Str(reason.to_string()),
    );
    assert(data@ =~= seq![("wxid"@, JsonView::Str(wxid@)), ("reason"@, JsonView::Str(reason@))]);
    bus.publish_new(kinds::SESSION_LOGOUT, data);
}

/// Publishes `session.qr_refresh` with the QR payload and its expiry.
pub fn emit_qr_refresh(bus: &mut EventBus, qr_payload: &str, expires_at: &str)
    ensures
        published_new(
            *old(bus),
            *final(bus),
            kinds::SESSION_QR_REFRESH@,
            seq![
                ("qrPayload"@, JsonView::Str(qr_payload@)),
                ("expiresAt"@, JsonView::Str(expires_at@)),
            ],
        ),
{
    let data = Payload::new().with("qrPayload", JsonValue::Str(qr_payload.to_string())).with(
        "expiresAt",
        JsonValue::Str(expires_at.to_string()),
    );
    assert(data@ =~= seq![
        ("qrPayload"@, JsonView::Str(qr_payload@)),
        ("expiresAt"@, JsonView::Str(expires_at@)),
    ]);
    bus.publish_new(kinds::SESSION_QR_REFRESH, data);
}

/// The payload of `session.scan`: the stage, and the `wxid` only when known.
pub open spec fn scan_payload(stage: Seq<char>, wxid: Option<Seq<char>>) -> Seq<
    (Seq<char>, JsonView),
> {
    match wxid {
        Some(w) => seq![("stage"@, JsonView::Str(stage)), ("wxid"@, JsonView::Str(w))],
        None => seq![("stage"@, JsonView::Str(stage))],
    }
}

/// Publishes `session.scan` with the scan stage and, when known, the `wxid`.
pub fn emit_scan(bus: &mut EventBus, stage: &str, wxid: Option<&str>)
    ensures
        published_new(
            *old(bus),
            *final(bus),
            kinds::SESSION_SCAN@,
            scan_payload(stage@, crate::events::bus::opt_str_view(wxid)),
        ),
{
    let mut data = Payload::new().with("stage", JsonValue::Str(stage.to_string()));
    if let Some(v) = wxid {
        data.push("wxid", JsonValue::Str(v.to_string()));
    }
    assert(data@ =~= scan_payload(stage@, crate::events::bus::opt_str_view(wxid)));
    bus.publish_new(kinds::SESSION_SCAN, data);
}

} // verus!
