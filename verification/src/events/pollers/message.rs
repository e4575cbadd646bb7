//! New chat messages. The cursor of each chat is the largest `local_id`
//! seen: the row id of the chat's message table, which only grows (the
//! server id does not, and would lose messages). A cold start only records
//! the cursors, so history is not replayed.

use crate::events::bus::{publish_all, published_all_new, EventBus};
use crate::events::{kinds, lemma_lookup_at, lookup, Event, EventShape, EventView, JsonValue, JsonView, Payload};
use crate::str_map::StrMap;
use crate::text::{find_seq, is_suffix_of, signed_decimal, trim};
use crate::types::{is_stable_sort_by_local_id, sort_by_local_id, Message};
use vstd::prelude::*;

verus! {

broadcast use vstd::string::group_string_axioms;

/// The message type of a system message (joins, leaves, recalls, ...).
pub const SYSTEM_MSG_TYPE: i32 = 10000;

/// Polls every chat for messages newer than its cursor.
pub struct MessagePoller {
    /// chat id to the largest `local_id` seen in it.
    pub last_seen: StrMap<i64>,
    pub interval_ms: u64,
    /// Set until the first poll ends; the first poll only records cursors.
    pub cold_start: bool,
}

/// The cursor after scanning `msgs` from `start`.
pub open spec fn scan_latest(msgs: Seq<Message>, start: i64) -> i64
    decreases msgs.len(),
{
    if msgs.len() == 0 {
        start
    } else {
        let before = scan_latest(msgs.drop_last(), start);
        if msgs.last().local_id > before {
            msgs.last().local_id
        } else {
            before
        }
    }
}

/// The messages that a scan from `start` finds new: each one newer than
/// every message before it and than `start`.
pub open spec fn scan_new(msgs: Seq<Message>, start: i64) -> Seq<Message>
    decreases msgs.len(),
{
    if msgs.len() == 0 {
        Seq::empty()
    } else {
        let before = scan_new(msgs.drop_last(), start);
        if msgs.last().local_id > scan_latest(msgs.drop_last(), start) {
            before.push(msgs.last())
        } else {
            before
        }
    }
}

/// The default of an optional string: empty when absent.
pub open spec fn str_or_empty(s: Option<String>) -> Seq<char> {
    match s {
        Some(t) => t@,
        None => Seq::empty(),
    }
}

/// The payload of `message.new`.
pub open spec fn message_payload(m: Message) -> Seq<(Seq<char>, JsonView)> {
    seq![
        ("chatId"@, JsonView::Str(m.chat_id@)),
        ("sender"@, JsonView::Str(str_or_empty(m.sender))),
        ("senderName"@, JsonView::Str(str_or_empty(m.sender_name))),
        ("msgType"@, JsonView::Int(m.msg_type as i64)),
        ("content"@, JsonView::Str(m.content@)),
        ("serverId"@, JsonView::Str(signed_decimal(m.server_id as int))),
        ("localId"@, JsonView::Int(m.local_id)),
        ("isSelf"@, JsonView::Bool(
            match m.is_self {
                Some(b) => b,
                None => false,
            },
        )),
        ("timestamp"@, JsonView::Str(m.timestamp@)),
    ]
}

/// The `message.new` payload carries the message itself: its chat, sender
/// and sender name (empty when unknown), type, content, server id in decimal,
/// local id, whether it is the user's own (false when unknown), and
/// timestamp, each under its own name.
pub proof fn law_message_payload_fields(m: Message)
    ensures
        lookup(message_payload(m), "chatId"@) == Some(JsonView::Str(m.chat_id@)),
        lookup(message_payload(m), "sender"@) == Some(
            JsonView::Str(
                match m.sender {
                    Some(s) => s@,
                    None => Seq::<char>::empty(),
                },
            ),
        ),
        lookup(message_payload(m), "senderName"@) == Some(
            JsonView::Str(
                match m.sender_name {
                    Some(s) => s@,
                    None => Seq::<char>::empty(),
                },
            ),
        ),
        lookup(message_payload(m), "msgType"@) == Some(JsonView::Int(m.msg_type as i64)),
        lookup(message_payload(m), "content"@) == Some(JsonView::Str(m.content@)),
        lookup(message_payload(m), "serverId"@) == Some(JsonView::Str(signed_decimal(m.server_id as int))),
        lookup(message_payload(m), "localId"@) == Some(JsonView::Int(m.local_id)),
        lookup(message_payload(m), "isSelf"@) == Some(JsonView::Bool(m.is_self == Some(true))),
        lookup(message_payload(m), "timestamp"@) == Some(JsonView::Str(m.timestamp@)),
        message_payload(m).len() == 9,
{
    reveal_strlit("chatId");
    reveal_strlit("sender");
    reveal_strlit("senderName");
    reveal_strlit("msgType");
    reveal_strlit("content");
    reveal_strlit("serverId");
    reveal_strlit("localId");
    reveal_strlit("isSelf");
    reveal_strlit("timestamp");
    let p = message_payload(m);
    match m.sender {
        Some(s) => assert(str_or_empty(m.sender) == s@),
        None => assert(str_or_empty(m.sender) == Seq::<char>::empty()),
    }
    match m.sender_name {
        Some(s) => assert(str_or_empty(m.sender_name) == s@),
        None => assert(str_or_empty(m.sender_name) == Seq::<char>::empty()),
    }
    lemma_lookup_at(p, "chatId"@, 0);
    assert forall|j: int| 0 <= j < 1 implies #[trigger] p[j].0 != "sender"@ by {
        if j == 0 {
            assert("chatId"@.len() != "sender"@.len() || "chatId"@[0] != "sender"@[0]);
        }
    }
    lemma_lookup_at(p, "sender"@, 1);
    assert forall|j: int| 0 <= j < 2 implies #[trigger] p[j].0 != "senderName"@ by {
        if j == 0 {
            assert("chatId"@.len() != "senderName"@.len() || "chatId"@[0] != "senderName"@[0]);
        } else if j == 1 {
            assert("sender"@.len() != "senderName"@.len() || "sender"@[0] != "senderName"@[0]);
        }
    }
    lemma_lookup_at(p, "senderName"@, 2);
    assert forall|j: int| 0 <= j < 3 implies #[trigger] p[j].0 != "msgType"@ by {
        if j == 0 {
            assert("chatId"@.len() != "msgType"@.len() || "chatId"@[0] != "msgType"@[0]);
        } else if j == 1 {
            assert("sender"@.len() != "msgType"@.len() || "sender"@[0] != "msgType"@[0]);
        } else if j == 2 {
            assert("senderName"@.len() != "msgType"@.len() || "senderName"@[0] != "msgType"@[0]);
        }
    }
    lemma_lookup_at(p, "msgType"@, 3);
    assert forall|j: int| 0 <= j < 4 implies #[trigger] p[j].0 != "content"@ by {
        if j == 0 {
            assert("chatId"@.len() != "content"@.len() || "chatId"@[0] != "content"@[0]);
        } else if j == 1 {
            assert("sender"@.len() != "content"@.len() || "sender"@[0] != "content"@[0]);
        } else if j == 2 {
            assert("senderName"@.len() != "content"@.len() || "senderName"@[0] != "content"@[0]);
        } else if j == 3 {
            assert("msgType"@.len() != "content"@.len() || "msgType"@[0] != "content"@[0]);
        }
    }
    lemma_lookup_at(p, "content"@, 4);
    assert forall|j: int| 0 <= j < 5 implies #[trigger] p[j].0 != "serverId"@ by {
        if j == 0 {
            assert("chatId"@.len() != "serverId"@.len() || "chatId"@[0] != "serverId"@[0]);
        } else if j == 1 {
            assert("sender"@.len() != "serverId"@.len() || "sender"@[0] != "serverId"@[0]);
        } else if j == 2 {
            assert("senderName"@.len() != "serverId"@.len() || "senderName"@[0] != "serverId"@[0]);
        } else if j == 3 {
            assert("msgType"@.len() != "serverId"@.len() || "msgType"@[0] != "serverId"@[0]);
        } else if j == 4 {
            assert("content"@.len() != "serverId"@.len() || "content"@[0] != "serverId"@[0]);
        }
    }
    lemma_lookup_at(p, "serverId"@, 5);
    assert forall|j: int| 0 <= j < 6 implies #[trigger] p[j].0 != "localId"@ by {
        if j == 0 {
            assert("chatId"@.len() != "localId"@.len() || "chatId"@[0] != "localId"@[0]);
        } else if j == 1 {
            assert("sender"@.len() != "localId"@.len() || "sender"@[0] != "localId"@[0]);
        } else if j == 2 {
            assert("senderName"@.len() != "localId"@.len() || "senderName"@[0] != "localId"@[0]);
        } else if j == 3 {
            assert("msgType"@.len() != "localId"@.len() || "msgType"@[0] != "localId"@[0]);
        } else if j == 4 {
            assert("content"@.len() != "localId"@.len() || "content"@[0] != "localId"@[0]);
        } else if j == 5 {
            assert("serverId"@.len() != "localId"@.len() || "serverId"@[0] != "localId"@[0]);
        }
    }
    lemma_lookup_at(p, "localId"@, 6);
    assert forall|j: int| 0 <= j < 7 implies #[trigger] p[j].0 != "isSelf"@ by {
        if j == 0 {
            assert("chatId"@.len() != "isSelf"@.len() || "chatId"@[0] != "isSelf"@[0]);
        } else if j == 1 {
            assert("sender"@.len() != "isSelf"@.len() || "sender"@[0] != "isSelf"@[0]);
        } else if j == 2 {
            assert("senderName"@.len() != "isSelf"@.len() || "senderName"@[0] != "isSelf"@[0]);
        } else if j == 3 {
            assert("msgType"@.len() != "isSelf"@.len() || "msgType"@[0] != "isSelf"@[0]);
        } else if j == 4 {
            assert("content"@.len() != "isSelf"@.len() || "content"@[0] != "isSelf"@[0]);
        } else if j == 5 {
            assert("serverId"@.len() != "isSelf"@.len() || "serverId"@[0] != "isSelf"@[0]);
        } else if j == 6 {
            assert("localId"@.len() != "isSelf"@.len() || "localId"@[0] != "isSelf"@[0]);
        }
    }
    lemma_lookup_at(p, "isSelf"@, 7);
    assert forall|j: int| 0 <= j < 8 implies #[trigger] p[j].0 != "timestamp"@ by {
        if j == 0 {
            assert("chatId"@.len() != "timestamp"@.len() || "chatId"@[0] != "timestamp"@[0]);
        } else if j == 1 {
            assert("sender"@.len() != "timestamp"@.len() || "sender"@[0] != "timestamp"@[0]);
        } else if j == 2 {
            assert("senderName"@.len() != "timestamp"@.len() || "senderName"@[0] != "timestamp"@[0]);
        } else if j == 3 {
            assert("msgType"@.len() != "timestamp"@.len() || "msgType"@[0] != "timestamp"@[0]);
        } else if j == 4 {
            assert("content"@.len() != "timestamp"@.len() || "content"@[0] != "timestamp"@[0]);
        } else if j == 5 {
            assert("serverId"@.len() != "timestamp"@.len() || "serverId"@[0] != "timestamp"@[0]);
        } else if j == 6 {
            assert("localId"@.len() != "timestamp"@.len() || "localId"@[0] != "timestamp"@[0]);
        } else if j == 7 {
            assert("isSelf"@.len() != "timestamp"@.len() || "isSelf"@[0] != "timestamp"@[0]);
        }
    }
    lemma_lookup_at(p, "timestamp"@, 8);
}

/// The text before the first `marker` in `content`, trimmed, when there is a
/// marker and the text is not empty.
pub open spec fn name_before(content: Seq<char>, marker: Seq<char>) -> Option<Seq<char>> {
    match find_seq(content, marker) {
        Some(i) => {
            let t = trim(content.subrange(0, i));
            if t.len() > 0 {
                Some(t)
            } else {
                None
            }
        },
        None => None,
    }
}

/// The payload of a chatroom membership event.
pub open spec fn member_payload(chat_id: Seq<char>, name: Seq<char>) -> Seq<(Seq<char>, JsonView)> {
    seq![
        ("chatId"@, JsonView::Str(chat_id)),
        ("wxid"@, JsonView::Str(Seq::empty())),
        ("name"@, JsonView::Str(name)),
    ]
}

/// The membership event a chatroom system message announces: a join
/// (`...加入了群聊`) is recognised before a leave (`...退出了群聊`); none for
/// chats that are not chatrooms.
pub open spec fn chatroom_event(chat_id: Seq<char>, content: Seq<char>) -> Option<EventShape> {
    if !is_suffix_of("@chatroom"@, chat_id) {
        None
    } else {
        match name_before(content, "加入了群聊"@) {
            Some(name) => Some(
                EventShape { kind: kinds::CHATROOM_MEMBER_JOINED@, data: member_payload(chat_id, name) },
            ),
            None => match name_before(content, "退出了群聊"@) {
                Some(name) => Some(
                    EventShape { kind: kinds::CHATROOM_MEMBER_LEFT@, data: member_payload(chat_id, name) },
                ),
                None => None,
            },
        }
    }
}

/// The events for one new message of chat `chat_id`: `message.new`, then
/// the membership event a system message announces.
pub open spec fn events_for_message(chat_id: Seq<char>, m: Message) -> Seq<EventShape> {
    let first = seq![EventShape { kind: kinds::MESSAGE_NEW@, data: message_payload(m) }];
    if m.msg_type == SYSTEM_MSG_TYPE {
        match chatroom_event(chat_id, m.content@) {
            Some(s) => first.push(s),
            None => first,
        }
    } else {
        first
    }
}

/// The events for the new messages `msgs` of a chat, in order.
pub open spec fn events_for_messages(chat_id: Seq<char>, msgs: Seq<Message>) -> Seq<EventShape>
    decreases msgs.len(),
{
    if msgs.len() == 0 {
        Seq::empty()
    } else {
        events_for_messages(chat_id, msgs.drop_last()) + events_for_message(chat_id, msgs.last())
    }
}

/// The cursor a chat starts from.
pub open spec fn cursor_of(cursors: Map<Seq<char>, i64>, chat_id: Seq<char>) -> i64 {
    if cursors.contains_key(chat_id) {
        cursors[chat_id]
    } else {
        0
    }
}

impl MessagePoller {
    /// A poller that polls every `interval_ms`, starts cold and knows no chat.
    pub fn new(interval_ms: u64) -> (r: MessagePoller)
        ensures
            r.last_seen.map() == Map::<Seq<char>, i64>::empty(),
            r.interval_ms == interval_ms,
            r.cold_start,
    {
        let last_seen = StrMap::new();
        assert(last_seen.map() =~= Map::<Seq<char>, i64>::empty());
        MessagePoller { last_seen, interval_ms, cold_start: true }
    }

    /// Handles the latest messages of chat `chat_id`: sorted by `local_id`,
    /// those newer than the chat's cursor are published (not on a cold start)
    /// with the membership events of system messages, and the cursor moves to
    /// the newest; a chat seen for the first time gets a cursor only when it
    /// has messages.
    pub fn process_chat(&mut self, chat_id: String, messages: Vec<Message>, bus: &mut EventBus)
        ensures
            final(self).interval_ms == old(self).interval_ms,
            final(self).cold_start == old(self).cold_start,
            exists|sorted: Seq<Message>|
                #![trigger scan_new(sorted, cursor_of(old(self).last_seen.map(), chat_id@))]
                {
                    let start = cursor_of(old(self).last_seen.map(), chat_id@);
                    let fresh = scan_new(sorted, start);
                    &&& is_stable_sort_by_local_id(messages@, sorted)
                    &&& final(self).last_seen.map() == if fresh.len() > 0
                        || old(self).last_seen.map().contains_key(chat_id@) {
                        old(self).last_seen.map().insert(chat_id@, scan_latest(sorted, start))
                    } else {
                        old(self).last_seen.map()
                    }
                    &&& published_all_new(
                        *old(bus),
                        *final(bus),
                        if old(self).cold_start {
                            Seq::empty()
                        } else {
                            events_for_messages(chat_id@, fresh)
                        },
                    )
                },
    {
        let mut messages = messages;
        sort_by_local_id(&mut messages);
        let start = match self.last_seen.get(chat_id.as_str()) {
            Some(v) => *v,
            None => 0,
        };
        let ghost sorted = messages@;
        let ghost cid = chat_id@;
        let ghost old_map = self.last_seen.map();
        assert(start == cursor_of(old_map, cid));
        let cold = self.cold_start;
        let mut latest = start;
        let mut updated = false;
        let mut events: Vec<Event> = Vec::new();
        let mut i: usize = 0;
        assert(sorted.take(0) =~= Seq::<Message>::empty());
        assert(events@.map_values(|e: Event| e@) =~= Seq::<EventView>::empty());
        while i < messages.len()
            invariant
                i <= sorted.len(),
                sorted == messages@,
                latest == scan_latest(sorted.take(i as int), start),
                updated == (scan_new(sorted.take(i as int), start).len() > 0),
                crate::events::bus::new_events_of(
                    events@.map_values(|e: Event| e@),
                    if cold {
                        Seq::empty()
                    } else {
                        events_for_messages(chat_id@, scan_new(sorted.take(i as int), start))
                    },
                ),
            decreases messages.len() - i,
        {
            assert(sorted.take(i + 1).drop_last() =~= sorted.take(i as int));
            assert(sorted.take(i + 1).last() == sorted[i as int]);
            let msg = &messages[i];
            if msg.local_id > latest {
                latest = msg.local_id;
                updated = true;
                if !cold {
                    let ghost before = events@.map_values(|e: Event| e@);
                    let ghost prev_new = scan_new(sorted.take(i as int), start);
                    let e = message_event(msg);
                    events.push(e);
                    if msg.msg_type == SYSTEM_MSG_TYPE {
                        if let Some(evt) = derive_chatroom_event(chat_id.as_str(), msg.content.as_str()) {
                            events.push(evt);
                        }
                    }
                    proof {
                        let now = events@.map_values(|e: Event| e@);
                        let added = events_for_message(chat_id@, sorted[i as int]);
                        assert(scan_new(sorted.take(i + 1), start) =~= prev_new.push(sorted[i as int]));
                        assert(events_for_messages(chat_id@, prev_new.push(sorted[i as int]))
                            =~= events_for_messages(chat_id@, prev_new) + added) by {
                            assert(prev_new.push(sorted[i as int]).drop_last() =~= prev_new);
                        }
                        assert(now.len() == before.len() + added.len());
                        assert forall|k: int| 0 <= k < now.len() implies crate::events::is_new_event(
                            #[trigger] now[k],
                            (events_for_messages(chat_id@, prev_new) + added)[k].kind,
                            (events_for_messages(chat_id@, prev_new) + added)[k].data,
                        ) by {
                            if k < before.len() {
                                assert(now[k] == before[k]);
                            }
                        }
                    }
                }
            }
            i = i + 1;
        }
        assert(sorted.take(sorted.len() as int) =~= sorted);
        let ghost es = events@.map_values(|e: Event| e@);
        let ghost before_bus = *bus;
        if !cold {
            bus.publish_all(events);
        } else {
            assert(es =~= Seq::<EventView>::empty());
        }
        assert(bus.ring_view() == publish_all(before_bus.ring_view(), before_bus.capacity(), es));
        let ghost shapes = if cold {
            Seq::<EventShape>::empty()
        } else {
            events_for_messages(cid, scan_new(sorted, start))
        };
        assert(crate::events::bus::new_events_of(es, shapes));
        assert(published_all_new(*old(bus), *bus, shapes));
        if updated || self.last_seen.contains_key(chat_id.as_str()) {
            self.last_seen.insert(chat_id, latest);
        }
        assert(self.last_seen.map() == if scan_new(sorted, start).len() > 0 || old_map.contains_key(cid) {
            old_map.insert(cid, scan_latest(sorted, start))
        } else {
            old_map
        });
    }

    /// Ends a poll: later polls publish.
    pub fn finish_poll(&mut self)
        ensures
            !final(self).cold_start,
            final(self).interval_ms == old(self).interval_ms,
            final(self).last_seen.map() == old(self).last_seen.map(),
    {
        self.cold_start = false;
    }
}

/// The `message.new` event of a message.
pub fn message_event(message: &Message) -> (r: Event)
    ensures
        crate::events::is_new_event(r@, kinds::MESSAGE_NEW@, message_payload(*message)),
{
    let sender = match &message.sender {
        Some(s) => s.clone(),
        None => String::new(),
    };
    let sender_name = match &message.sender_name {
        Some(s) => s.clone(),
        None => String::new(),
    };
    let is_self = match message.is_self {
        Some(b) => b,
        None => false,
    };
    let data = Payload::new().with("chatId", JsonValue::Str(message.chat_id.clone())).with(
        "sender",
        JsonValue::Str(sender),
    ).with("senderName", JsonValue::Str(sender_name)).with(
        "msgType",
        JsonValue::Int(message.msg_type as i64),
    ).with("content", JsonValue::Str(message.content.clone())).with(
        "serverId",
        JsonValue::Str(crate::text::i64_to_decimal(message.server_id)),
    ).with("localId", JsonValue::Int(message.local_id)).with("isSelf", JsonValue::Bool(is_self)).with(
        "timestamp",
        JsonValue::Str(message.timestamp.clone()),
    );
    assert(data@ =~= message_payload(*message));
    Event::new(kinds::MESSAGE_NEW, data)
}

/// The membership event a chatroom's system message announces, if any.
pub fn derive_chatroom_event(chat_id: &str, content: &str) -> (r: Option<Event>)
    ensures
        match chatroom_event(chat_id@, content@) {
            Some(s) => r is Some && crate::events::is_new_event(r->0@, s.kind, s.data),
            None => r is None,
        },
{
    if !crate::text::ends_with(chat_id, "@chatroom") {
        return None;
    }
    if let Some(name) = extract_name_before(content, "加入了群聊") {
        let data = member_data(chat_id, name);
        return Some(Event::new(kinds::CHATROOM_MEMBER_JOINED, data));
    }
    if let Some(name) = extract_name_before(content, "退出了群聊") {
        let data = member_data(chat_id, name);
        return Some(Event::new(kinds::CHATROOM_MEMBER_LEFT, data));
    }
    None
}

fn member_data(chat_id: &str, name: String) -> (r: Payload)
    ensures
        r@ == member_payload(chat_id@, name@),
{
    let r = Payload::new().with("chatId", JsonValue::Str(chat_id.to_string())).with(
        "wxid",
        JsonValue::Str(String::new()),
    ).with("name", JsonValue::Str(name));
    assert(r@ =~= member_payload(chat_id@, name@));
    r
}

/// The trimmed text before the first `marker` in `content`, when the marker
/// occurs and that text is not empty.
pub fn extract_name_before(content: &str, marker: &str) -> (r: Option<String>)
    ensures
        match r {
            Some(s) => name_before(content@, marker@) == Some(s@),
            None => name_before(content@, marker@) is None,
        },
{
    match crate::text::find(content, marker) {
        Some(i) => {
            proof {
                crate::text::lemma_find_from(content@, marker@, 0);
            }
            let prefix = content.substring_char(0, i);
            let t = crate::text::trim_str(prefix);
            if t.is_empty() {
                None
            } else {
                Some(t.to_string())
            }
        },
        None => None,
    }
}

/// The messages of `msgs` newer than `start`, in order.
pub open spec fn newer_than(msgs: Seq<Message>, start: i64) -> Seq<Message>
    decreases msgs.len(),
{
    if msgs.len() == 0 {
        Seq::empty()
    } else if msgs.last().local_id > start {
        newer_than(msgs.drop_last(), start).push(msgs.last())
    } else {
        newer_than(msgs.drop_last(), start)
    }
}

/// The local ids of `msgs` strictly increase.
pub open spec fn strictly_increasing(msgs: Seq<Message>) -> bool {
    forall|i: int, j: int| 0 <= i < j < msgs.len() ==> msgs[i].local_id < msgs[j].local_id
}

/// The cursor never moves back and ends at or above every local id scanned.
pub proof fn lemma_scan_latest_bounds(msgs: Seq<Message>, start: i64)
    ensures
        scan_latest(msgs, start) >= start,
        forall|i: int| 0 <= i < msgs.len() ==> msgs[i].local_id <= scan_latest(msgs, start),
    decreases msgs.len(),
{
    if msgs.len() > 0 {
        lemma_scan_latest_bounds(msgs.drop_last(), start);
        assert forall|i: int| 0 <= i < msgs.len() implies msgs[i].local_id <= scan_latest(msgs, start) by {
            if i < msgs.len() - 1 {
                assert(msgs[i] == msgs.drop_last()[i]);
            }
        }
    }
}

proof fn lemma_scan_from_above(msgs: Seq<Message>, start: i64)
    requires
        forall|i: int| 0 <= i < msgs.len() ==> msgs[i].local_id <= start,
    ensures
        scan_latest(msgs, start) == start,
        scan_new(msgs, start) == Seq::<Message>::empty(),
    decreases msgs.len(),
{
    if msgs.len() > 0 {
        assert forall|i: int| 0 <= i < msgs.drop_last().len() implies msgs.drop_last()[i].local_id
            <= start by {
            assert(msgs.drop_last()[i] == msgs[i]);
        }
        lemma_scan_from_above(msgs.drop_last(), start);
    }
}

/// No message is published twice: scanning the same messages again from the
/// cursor the first scan left finds nothing new.
pub proof fn law_rescan_finds_nothing(msgs: Seq<Message>, start: i64)
    ensures
        scan_new(msgs, scan_latest(msgs, start)) == Seq::<Message>::empty(),
        scan_latest(msgs, scan_latest(msgs, start)) == scan_latest(msgs, start),
{
    lemma_scan_latest_bounds(msgs, start);
    lemma_scan_from_above(msgs, scan_latest(msgs, start));
}

proof fn lemma_scan_increasing(msgs: Seq<Message>, start: i64)
    requires
        strictly_increasing(msgs),
    ensures
        scan_new(msgs, start) == newer_than(msgs, start),
        msgs.len() > 0 && msgs.last().local_id > start ==> scan_latest(msgs, start) == msgs.last().local_id,
        msgs.len() == 0 || msgs.last().local_id <= start ==> scan_latest(msgs, start) == start,
    decreases msgs.len(),
{
    if msgs.len() > 0 {
        let prev = msgs.drop_last();
        assert(strictly_increasing(prev)) by {
            assert forall|i: int, j: int| 0 <= i < j < prev.len() implies prev[i].local_id < prev[j].local_id by {
                assert(prev[i] == msgs[i] && prev[j] == msgs[j]);
            }
        }
        lemma_scan_increasing(prev, start);
        if prev.len() > 0 {
            assert(prev.last() == msgs[msgs.len() - 2]);
        }
    }
}

/// No message is skipped: when the local ids of a chat's messages increase
/// (they are the table's row ids), the scan finds every message newer than
/// the cursor, in order, and the cursor moves to the newest of them.
pub proof fn law_scan_finds_every_newer_message(msgs: Seq<Message>, start: i64)
    requires
        strictly_increasing(msgs),
    ensures
        scan_new(msgs, start) == newer_than(msgs, start),
        newer_than(msgs, start).len() > 0 ==> scan_latest(msgs, start) == msgs.last().local_id,
{
    lemma_scan_increasing(msgs, start);
    if newer_than(msgs, start).len() > 0 && msgs.last().local_id <= start {
        lemma_newer_than_empty(msgs, start);
    }
}

proof fn lemma_newer_than_empty(msgs: Seq<Message>, start: i64)
    requires
        strictly_increasing(msgs),
        msgs.len() > 0 ==> msgs.last().local_id <= start,
    ensures
        newer_than(msgs, start).len() == 0,
    decreases msgs.len(),
{
    if msgs.len() > 0 {
        let prev = msgs.drop_last();
        if prev.len() > 0 {
            assert(prev.last() == msgs[msgs.len() - 2]);
        }
        assert(strictly_increasing(prev)) by {
            assert forall|i: int, j: int| 0 <= i < j < prev.len() implies prev[i].local_id < prev[j].local_id by {
                assert(prev[i] == msgs[i] && prev[j] == msgs[j]);
            }
        }
        lemma_newer_than_empty(prev, start);
    }
}

} // verus!
