//! Friend requests: the `fmessage` chat holds one message of type 37 per
//! request, whose XML `<msg ...>` tag carries the requester in attributes.
//! The cursor is the `local_id` within that chat, so nothing is sent twice
//! and nothing is skipped.

use crate::events::bus::{publish_all, published_all_new, EventBus};
use crate::events::{kinds, lemma_lookup_at, lookup, Event, EventShape, EventView, JsonValue, JsonView, Payload};
use crate::text::{chars_of, find_chars, find_from, find_seq};
use crate::types::{is_stable_sort_by_local_id, sort_by_local_id, Message};
use vstd::prelude::*;

verus! {

broadcast use vstd::string::group_string_axioms;

/// The message type of a friend request.
pub const FRIEND_REQUEST_MSG_TYPE: i32 = 37;

/// Polls the `fmessage` chat for friend requests.
pub struct FriendRequestPoller {
    /// The largest `local_id` of a friend request seen so far.
    pub last_seen_local_id: i64,
    pub interval_ms: u64,
    /// Set until the first poll, which only records the cursor.
    pub cold_start: bool,
}

/// The requester's details, as the request's XML gives them.
#[derive(Debug, Clone)]
pub struct FriendRequest {
    pub from_wxid: String,
    pub from_name: String,
    pub alias: String,
    pub scene: String,
    pub content: String,
}

/// The `<msg ...>` tag of `s`, from `<msg` through the first `>` after it;
/// all of `s` when there is no such tag.
pub open spec fn msg_tag(s: Seq<char>) -> Seq<char> {
    match find_seq(s, "<msg"@) {
        Some(start) => match find_from(s, ">"@, start) {
            Some(gt) => s.subrange(start, gt + 1),
            None => s,
        },
        None => s,
    }
}

/// The value of attribute `key` quoted with `q`: what follows the first
/// `key=q` up to the next `q`, if both are there.
pub open spec fn attr_quoted(xml: Seq<char>, key: Seq<char>, q: char) -> Option<Seq<char>> {
    let marker = key + seq!['=', q];
    match find_seq(xml, marker) {
        Some(start) => match find_from(xml, seq![q], start + marker.len()) {
            Some(end) => Some(xml.subrange(start + marker.len(), end)),
            None => None,
        },
        None => None,
    }
}

/// The value of attribute `key`: double quotes tried first, then single
/// quotes; empty when neither form is found.
pub open spec fn attr_value(xml: Seq<char>, key: Seq<char>) -> Seq<char> {
    match attr_quoted(xml, key, '"') {
        Some(v) => v,
        None => match attr_quoted(xml, key, '\'') {
            Some(v) => v,
            None => Seq::empty(),
        },
    }
}

/// The payload of a `contact.friend_request` event for a request message.
pub open spec fn friend_request_payload(content: Seq<char>) -> Seq<(Seq<char>, JsonView)> {
    let tag = msg_tag(content);
    seq![
        ("fromWxid"@, JsonView::Str(attr_value(tag, "fromusername"@))),
        ("fromName"@, JsonView::Str(attr_value(tag, "fromnickname"@))),
        ("alias"@, JsonView::Str(attr_value(tag, "alias"@))),
        ("scene"@, JsonView::Str(attr_value(tag, "scene"@))),
        ("content"@, JsonView::Str(attr_value(tag, "content"@))),
    ]
}

/// A request event's payload holds the attributes of the request's `<msg>`
/// tag, not the raw message: `fromWxid` is its `fromusername`, `fromName` its
/// `fromnickname`, and `alias`, `scene` and `content` the attributes of those
/// names (each empty when the tag lacks it).
pub proof fn law_request_payload_fields(content: Seq<char>)
    ensures
        lookup(friend_request_payload(content), "fromWxid"@) == Some(JsonView::Str(attr_value(msg_tag(content), "fromusername"@))),
        lookup(friend_request_payload(content), "fromName"@) == Some(JsonView::Str(attr_value(msg_tag(content), "fromnickname"@))),
        lookup(friend_request_payload(content), "alias"@) == Some(JsonView::Str(attr_value(msg_tag(content), "alias"@))),
        lookup(friend_request_payload(content), "scene"@) == Some(JsonView::Str(attr_value(msg_tag(content), "scene"@))),
        lookup(friend_request_payload(content), "content"@) == Some(JsonView::Str(attr_value(msg_tag(content), "content"@))),
        friend_request_payload(content).len() == 5,
{
    reveal_strlit("fromWxid");
    reveal_strlit("fromName");
    reveal_strlit("alias");
    reveal_strlit("scene");
    reveal_strlit("content");
    let p = friend_request_payload(content);
    lemma_lookup_at(p, "fromWxid"@, 0);
    assert forall|j: int| 0 <= j < 1 implies #[trigger] p[j].0 != "fromName"@ by {
        if j == 0 {
            assert("fromWxid"@[4] != "fromName"@[4]);
        }
    }
    lemma_lookup_at(p, "fromName"@, 1);
    assert forall|j: int| 0 <= j < 2 implies #[trigger] p[j].0 != "alias"@ by {
        if j == 0 {
            assert("fromWxid"@.len() != "alias"@.len());
        } else if j == 1 {
            assert("fromName"@.len() != "alias"@.len());
        }
    }
    lemma_lookup_at(p, "alias"@, 2);
    assert forall|j: int| 0 <= j < 3 implies #[trigger] p[j].0 != "scene"@ by {
        if j == 0 {
            assert("fromWxid"@.len() != "scene"@.len());
        } else if j == 1 {
            assert("fromName"@.len() != "scene"@.len());
        } else if j == 2 {
            assert("alias"@[0] != "scene"@[0]);
        }
    }
    lemma_lookup_at(p, "scene"@, 3);
    assert forall|j: int| 0 <= j < 4 implies #[trigger] p[j].0 != "content"@ by {
        if j == 0 {
            assert("fromWxid"@.len() != "content"@.len());
        } else if j == 1 {
            assert("fromName"@.len() != "content"@.len());
        } else if j == 2 {
            assert("alias"@.len() != "content"@.len());
        } else if j == 3 {
            assert("scene"@.len() != "content"@.len());
        }
    }
    lemma_lookup_at(p, "content"@, 4);
}

/// An attribute written `key="value"` reads as its value: when the tag holds
/// `key="` at position `i`, with no earlier `key="`, followed by a value
/// without `"` and a closing `"`, the attribute's value is exactly that text.
pub proof fn law_attr_value_reads_double_quoted(xml: Seq<char>, key: Seq<char>, i: int, v: Seq<char>)
    requires
        0 <= i,
        i + key.len() + 3 + v.len() <= xml.len(),
        xml.subrange(i, i + key.len() + 3 + v.len()) == key + seq!['=', '"'] + v + seq!['"'],
        forall|j: int| 0 <= j < i ==> !crate::text::occurs_at(xml, key + seq!['=', '"'], j),
        forall|j: int| 0 <= j < v.len() ==> v[j] != '"',
    ensures
        attr_value(xml, key) == v,
{
    let marker = key + seq!['=', '"'];
    let whole = key + seq!['=', '"'] + v + seq!['"'];
    let start = i + marker.len();
    let end = start + v.len();
    assert(xml.subrange(i, i + marker.len()) =~= marker) by {
        assert forall|k: int| 0 <= k < marker.len() implies xml.subrange(i, i + marker.len())[k] == marker[k] by {
            assert(xml.subrange(i, i + key.len() + 3 + v.len())[k] == whole[k]);
        }
    }
    crate::text::lemma_find_from_first(xml, marker, 0, i);
    assert(xml.subrange(end, end + 1) =~= seq!['"']) by {
        assert(xml.subrange(i, i + key.len() + 3 + v.len())[end - i] == whole[end - i]);
    }
    assert forall|k: int| start <= k < end implies !crate::text::occurs_at(xml, seq!['"'], k) by {
        assert(xml.subrange(i, i + key.len() + 3 + v.len())[k - i] == whole[k - i]);
        assert(xml.subrange(k, k + 1)[0] == xml[k]);
    }
    crate::text::lemma_find_from_first(xml, seq!['"'], start, end);
    assert(xml.subrange(start, end) =~= v) by {
        assert forall|k: int| 0 <= k < v.len() implies xml.subrange(start, end)[k] == v[k] by {
            assert(xml.subrange(i, i + key.len() + 3 + v.len())[marker.len() + k] == whole[marker.len() + k]);
        }
    }
}

/// The events of a scan are one per friend request newer than the cursor,
/// in the order of the messages, each carrying its own message's payload,
/// whatever the messages around it; a cold start gives none.
pub proof fn law_request_events_one_per_new_request(msgs: Seq<Message>, c: i64)
    ensures
        request_events(msgs, c, false) == msgs.filter(|m: Message| is_new_request(m, c)).map_values(
            |m: Message|
                EventShape { kind: kinds::CONTACT_FRIEND_REQUEST@, data: friend_request_payload(m.content@) },
        ),
        request_events(msgs, c, true) == Seq::<EventShape>::empty(),
    decreases msgs.len(),
{
    reveal(Seq::filter);
    if msgs.len() > 0 {
        law_request_events_one_per_new_request(msgs.drop_last(), c);
        let f = |m: Message|
            EventShape { kind: kinds::CONTACT_FRIEND_REQUEST@, data: friend_request_payload(m.content@) };
        let sub = msgs.drop_last().filter(|m: Message| is_new_request(m, c));
        assert(sub.push(msgs.last()).map_values(f) =~= sub.map_values(f).push(f(msgs.last())));
    }
}

/// A message that is a friend request newer than the cursor `c`.
pub open spec fn is_new_request(m: Message, c: i64) -> bool {
    m.msg_type == FRIEND_REQUEST_MSG_TYPE && m.local_id > c
}

/// The cursor after scanning `msgs` from cursor `c`: the largest `local_id`
/// among the new requests, or `c`.
pub open spec fn request_cursor(msgs: Seq<Message>, c: i64) -> i64
    decreases msgs.len(),
{
    if msgs.len() == 0 {
        c
    } else {
        let before = request_cursor(msgs.drop_last(), c);
        let m = msgs.last();
        if is_new_request(m, c) && m.local_id > before {
            m.local_id
        } else {
            before
        }
    }
}

/// The events for `msgs` scanned from cursor `c`: one per new request, in
/// order; none on a cold start.
pub open spec fn request_events(msgs: Seq<Message>, c: i64, cold_start: bool) -> Seq<EventShape>
    decreases msgs.len(),
{
    if msgs.len() == 0 || cold_start {
        Seq::empty()
    } else {
        let before = request_events(msgs.drop_last(), c, cold_start);
        let m = msgs.last();
        if is_new_request(m, c) {
            before.push(
                EventShape {
                    kind: kinds::CONTACT_FRIEND_REQUEST@,
                    data: friend_request_payload(m.content@),
                },
            )
        } else {
            before
        }
    }
}

impl FriendRequestPoller {
    /// A poller that polls every `interval_ms` and starts cold.
    pub fn new(interval_ms: u64) -> (r: FriendRequestPoller)
        ensures
            r.last_seen_local_id == 0,
            r.interval_ms == interval_ms,
            r.cold_start,
    {
        FriendRequestPoller { last_seen_local_id: 0, interval_ms, cold_start: true }
    }

    /// One poll over the `fmessage` chat's latest messages: they are sorted by
    /// `local_id`, the new requests are published (except on a cold start),
    /// the cursor moves to the newest request, and the poller is warm.
    pub fn process_messages(&mut self, messages: Vec<Message>, bus: &mut EventBus)
        ensures
            final(self).interval_ms == old(self).interval_ms,
            !final(self).cold_start,
            exists|sorted: Seq<Message>|
                #![trigger request_cursor(sorted, old(self).last_seen_local_id)]
                {
                    &&& is_stable_sort_by_local_id(messages@, sorted)
                    &&& final(self).last_seen_local_id == request_cursor(
                        sorted,
                        old(self).last_seen_local_id,
                    )
                    &&& published_all_new(
                        *old(bus),
                        *final(bus),
                        request_events(sorted, old(self).last_seen_local_id, old(self).cold_start),
                    )
                },
    {
        let mut messages = messages;
        sort_by_local_id(&mut messages);
        let ghost c0 = self.last_seen_local_id;
        let cold = self.cold_start;
        let events = collect_friend_request_events(&messages, &mut self.last_seen_local_id, cold);
        let ghost es = events@.map_values(|e: Event| e@);
        let ghost before_bus = *bus;
        if !cold {
            bus.publish_all(events);
        } else {
            assert(es =~= Seq::<EventView>::empty());
            assert(publish_all(before_bus.ring_view(), before_bus.capacity(), es) == before_bus.ring_view());
        }
        self.cold_start = false;
        assert(bus.ring_view() == publish_all(before_bus.ring_view(), before_bus.capacity(), es));
        assert(crate::events::bus::new_events_of(es, request_events(messages@, c0, cold)));
        assert(published_all_new(*old(bus), *bus, request_events(messages@, c0, cold)));
    }
}

/// Scans `messages` (sorted by `local_id`) from the cursor: moves the cursor
/// to the newest friend request and returns one event per request newer than
/// the old cursor, unless `cold_start`.
pub fn collect_friend_request_events(messages: &Vec<Message>, cursor: &mut i64, cold_start: bool) -> (r: Vec<Event>)
    ensures
        *final(cursor) == request_cursor(messages@, *old(cursor)),
        crate::events::bus::new_events_of(
            r@.map_values(|e: Event| e@),
            request_events(messages@, *old(cursor), cold_start),
        ),
{
    let c0 = *cursor;
    let mut events: Vec<Event> = Vec::new();
    let mut latest = c0;
    let mut i: usize = 0;
    while i < messages.len()
        invariant
            i <= messages@.len(),
            latest == request_cursor(messages@.take(i as int), c0),
            crate::events::bus::new_events_of(
                events@.map_values(|e: Event| e@),
                request_events(messages@.take(i as int), c0, cold_start),
            ),
        decreases messages.len() - i,
    {
        let ghost prefix = messages@.take(i as int);
        assert(messages@.take(i + 1).drop_last() =~= prefix);
        assert(messages@.take(i + 1).last() == messages@[i as int]);
        let msg = &messages[i];
        if msg.msg_type == FRIEND_REQUEST_MSG_TYPE && msg.local_id > c0 {
            if msg.local_id > latest {
                latest = msg.local_id;
            }
            if !cold_start {
                let parsed = parse_friend_request_xml(msg.content.as_str());
                let data = friend_request_data(parsed);
                let ghost before = events@.map_values(|e: Event| e@);
                let e = Event::new(kinds::CONTACT_FRIEND_REQUEST, data);
                events.push(e);
                assert(events@.map_values(|e: Event| e@) =~= before.push(e@));
            }
        }
        i = i + 1;
    }
    assert(messages@.take(messages@.len() as int) =~= messages@);
    *cursor = latest;
    events
}

/// The payload of a friend-request event.
fn friend_request_data(parsed: FriendRequest) -> (r: Payload)
    ensures
        r@ == seq![
            ("fromWxid"@, JsonView::Str(parsed.from_wxid@)),
            ("fromName"@, JsonView::Str(parsed.from_name@)),
            ("alias"@, JsonView::Str(parsed.alias@)),
            ("scene"@, JsonView::Str(parsed.scene@)),
            ("content"@, JsonView::Str(parsed.content@)),
        ],
{
    let r = Payload::new().with("fromWxid", JsonValue::Str(parsed.from_wxid)).with(
        "fromName",
        JsonValue::Str(parsed.from_name),
    ).with("alias", JsonValue::Str(parsed.alias)).with("scene", JsonValue::Str(parsed.scene)).with(
        "content",
        JsonValue::Str(parsed.content),
    );
    assert(r@ =~= seq![
        ("fromWxid"@, JsonView::Str(parsed.from_wxid@)),
        ("fromName"@, JsonView::Str(parsed.from_name@)),
        ("alias"@, JsonView::Str(parsed.alias@)),
        ("scene"@, JsonView::Str(parsed.scene@)),
        ("content"@, JsonView::Str(parsed.content@)),
    ]);
    r
}

/// The requester's details read from the request's `<msg>` tag; a missing
/// attribute reads as empty.
pub fn parse_friend_request_xml(content: &str) -> (r: FriendRequest)
    ensures
        r.from_wxid@ == attr_value(msg_tag(content@), "fromusername"@),
        r.from_name@ == attr_value(msg_tag(content@), "fromnickname"@),
        r.alias@ == attr_value(msg_tag(content@), "alias"@),
        r.scene@ == attr_value(msg_tag(content@), "scene"@),
        r.content@ == attr_value(msg_tag(content@), "content"@),
{
    let snippet = extract_msg_tag(content);
    FriendRequest {
        from_wxid: extract_attr(snippet.as_str(), "fromusername"),
        from_name: extract_attr(snippet.as_str(), "fromnickname"),
        alias: extract_attr(snippet.as_str(), "alias"),
        scene: extract_attr(snippet.as_str(), "scene"),
        content: extract_attr(snippet.as_str(), "content"),
    }
}

/// The `<msg ...>` tag of `content` (through its first `>`), or all of
/// `content` when it has none.
pub fn extract_msg_tag(content: &str) -> (r: String)
    ensures
        r@ == msg_tag(content@),
{
    let cv = chars_of(content);
    let open = chars_of("<msg");
    let close = chars_of(">");
    proof {
        reveal_strlit("<msg");
        reveal_strlit(">");
    }
    if let Some(start) = find_chars(&cv, &open, 0) {
        proof {
            crate::text::lemma_find_from(cv@, open@, 0);
        }
        if start <= cv.len() {
            if let Some(gt) = find_chars(&cv, &close, start) {
                proof {
                    crate::text::lemma_find_from(cv@, close@, start as int);
                    assert(crate::text::occurs_at(cv@, close@, gt as int));
                }
                return content.substring_char(start, gt + 1).to_string();
            }
        }
    }
    content.to_string()
}

/// The value of attribute `key` in `xml`, quoted with `"` or `'`; empty when
/// absent.
pub fn extract_attr(xml: &str, key: &str) -> (r: String)
    ensures
        r@ == attr_value(xml@, key@),
{
    if let Some(v) = attr_quoted_exec(xml, key, '"') {
        return v;
    }
    if let Some(v) = attr_quoted_exec(xml, key, '\'') {
        return v;
    }
    String::new()
}

fn attr_quoted_exec(xml: &str, key: &str, q: char) -> (r: Option<String>)
    ensures
        match r {
            Some(v) => attr_quoted(xml@, key@, q) == Some(v@),
            None => attr_quoted(xml@, key@, q) is None,
        },
{
    let xv = chars_of(xml);
    let mut marker = chars_of(key);
    marker.push('=');
    marker.push(q);
    assert(marker@ =~= key@ + seq!['=', q]);
    let mut quote: Vec<char> = Vec::new();
    quote.push(q);
    assert(quote@ =~= seq![q]);
    match find_chars(&xv, &marker, 0) {
        Some(start) => {
            proof {
                crate::text::lemma_find_from(xv@, marker@, 0);
                assert(crate::text::occurs_at(xv@, marker@, start as int));
                assert(start + marker@.len() <= xv@.len());
            }
            assert(xv@.len() == xv.len());
            let body = start + marker.len();
            match find_chars(&xv, &quote, body) {
                Some(end) => {
                    proof {
                        crate::text::lemma_find_from(xv@, quote@, body as int);
                        assert(crate::text::occurs_at(xv@, quote@, end as int));
                    }
                    Some(xml.substring_char(body, end).to_string())
                },
                None => None,
            }
        },
        None => None,
    }
}

proof fn lemma_request_cursor_bounds(msgs: Seq<Message>, c: i64)
    ensures
        request_cursor(msgs, c) >= c,
        forall|i: int|
            0 <= i < msgs.len() && #[trigger] is_new_request(msgs[i], c) ==> msgs[i].local_id
                <= request_cursor(msgs, c),
    decreases msgs.len(),
{
    if msgs.len() > 0 {
        lemma_request_cursor_bounds(msgs.drop_last(), c);
        assert forall|i: int|
            0 <= i < msgs.len() && #[trigger] is_new_request(msgs[i], c) implies msgs[i].local_id
                <= request_cursor(msgs, c) by {
            if i < msgs.len() - 1 {
                assert(msgs[i] == msgs.drop_last()[i]);
            }
        }
    }
}

proof fn lemma_no_new_requests(msgs: Seq<Message>, c: i64, cold_start: bool)
    requires
        forall|i: int| 0 <= i < msgs.len() ==> !#[trigger] is_new_request(msgs[i], c),
    ensures
        request_cursor(msgs, c) == c,
        request_events(msgs, c, cold_start) == Seq::<EventShape>::empty(),
    decreases msgs.len(),
{
    if msgs.len() > 0 {
        assert forall|i: int| 0 <= i < msgs.drop_last().len() implies !#[trigger] is_new_request(
            msgs.drop_last()[i],
            c,
        ) by {
            assert(msgs.drop_last()[i] == msgs[i]);
        }
        lemma_no_new_requests(msgs.drop_last(), c, cold_start);
        assert(!is_new_request(msgs[msgs.len() - 1], c));
    }
}

/// No request is announced twice: scanning the same messages again from the
/// cursor the first scan left announces nothing and leaves the cursor where
/// it is.
pub proof fn law_request_rescan_announces_nothing(msgs: Seq<Message>, c: i64, cold_start: bool)
    ensures
        request_events(msgs, request_cursor(msgs, c), cold_start) == Seq::<EventShape>::empty(),
        request_cursor(msgs, request_cursor(msgs, c)) == request_cursor(msgs, c),
{
    let c2 = request_cursor(msgs, c);
    lemma_request_cursor_bounds(msgs, c);
    assert forall|i: int| 0 <= i < msgs.len() implies !#[trigger] is_new_request(msgs[i], c2) by {
        if msgs[i].msg_type == FRIEND_REQUEST_MSG_TYPE && msgs[i].local_id > c {
            assert(is_new_request(msgs[i], c));
        }
    }
    lemma_no_new_requests(msgs, c2, cold_start);
}

} // verus!
