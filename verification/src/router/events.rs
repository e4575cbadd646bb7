//! The event subscription websocket: which events a subscriber asked for,
//! who may subscribe, and what the connection does on each thing that
//! happens to it.

use crate::events::bus::ReplayGap;
use crate::events::{event_chat_id, Event, EventView, JsonValue, JsonView, Payload};
use crate::text::{is_prefix_of, is_suffix_of, split_on, string_views, trim};
use vstd::prelude::*;

verus! {

broadcast use vstd::string::group_string_axioms;

/// The query string of a subscription request.
#[derive(Debug, Clone)]
pub struct EventsWsQuery {
    pub token: Option<String>,
    pub topics: Option<String>,
    pub chats: Option<String>,
    pub since: Option<String>,
}

/// The trimmed, non-empty pieces among `pieces`, in order; also without the
/// pieces that are `*` when `drop_star` holds.
pub open spec fn kept_pieces(pieces: Seq<Seq<char>>, drop_star: bool) -> Seq<Seq<char>>
    decreases pieces.len(),
{
    if pieces.len() == 0 {
        Seq::empty()
    } else {
        let rest = kept_pieces(pieces.drop_last(), drop_star);
        let t = trim(pieces.last());
        if t.len() > 0 && !(drop_star && t == "*"@) {
            rest.push(t)
        } else {
            rest
        }
    }
}

/// The topics of a subscription: the comma-separated list, trimmed, empty
/// entries dropped; `*` (everything) when absent or empty.
pub open spec fn topics_of(value: Option<Seq<char>>) -> Seq<Seq<char>> {
    match value {
        None => seq!["*"@],
        Some(raw) => {
            let t = kept_pieces(split_on(raw, ','), false);
            if t.len() == 0 {
                seq!["*"@]
            } else {
                t
            }
        },
    }
}

/// The chats of a subscription: the comma-separated list, trimmed, empty
/// entries and `*` dropped; none when absent.
pub open spec fn chats_of(value: Option<Seq<char>>) -> Seq<Seq<char>> {
    match value {
        None => Seq::empty(),
        Some(raw) => kept_pieces(split_on(raw, ','), true),
    }
}

/// Whether one topic selects the event type: `*` selects all, `p.*` selects
/// the types that start with `p`, any other topic selects itself.
pub open spec fn topic_selects(event_type: Seq<char>, topic: Seq<char>) -> bool {
    if topic == "*"@ {
        true
    } else if is_suffix_of(".*"@, topic) {
        is_prefix_of(topic.subrange(0, topic.len() - ".*"@.len()), event_type)
    } else {
        event_type == topic
    }
}

/// Whether a topic list selects the event type: an empty list selects all.
pub open spec fn topics_select(event_type: Seq<char>, topics: Seq<Seq<char>>) -> bool {
    topics.len() == 0 || exists|i: int| 0 <= i < topics.len() && topic_selects(event_type, #[trigger] topics[i])
}

/// Whether a subscription with these topics and chats receives the event:
/// its type must be selected, and when chats are listed and the event names a
/// chat, that chat must be listed.
pub open spec fn filter_accepts(e: EventView, topics: Seq<Seq<char>>, chats: Seq<Seq<char>>) -> bool {
    &&& topics_select(e.kind, topics)
    &&& (chats.len() == 0 || event_chat_id(e) is None || chats.contains(event_chat_id(e)->0))
}

/// The token of an `Authorization: Bearer <token>` header value.
pub open spec fn bearer_token(header: Option<Seq<char>>) -> Option<Seq<char>> {
    match header {
        Some(h) => if is_prefix_of("Bearer "@, h) {
            Some(h.subrange("Bearer "@.len() as int, h.len() as int))
        } else {
            None
        },
        None => None,
    }
}

/// A request is authorized when its `token` parameter or its bearer token is
/// the expected token.
pub open spec fn authorized(token: Option<Seq<char>>, header: Option<Seq<char>>, expected: Seq<char>) -> bool {
    token == Some(expected) || bearer_token(header) == Some(expected)
}

/// The chat filter is membership in the whole chat list: an event of a
/// selected type that names chat `c` is accepted exactly when no chats are
/// listed or `c` is one of the listed chats, at whatever position.
pub proof fn law_chat_filter_is_membership(
    e: EventView,
    topics: Seq<Seq<char>>,
    chats: Seq<Seq<char>>,
    c: Seq<char>,
)
    requires
        topics_select(e.kind, topics),
        event_chat_id(e) == Some(c),
    ensures
        filter_accepts(e, topics, chats) <==> (chats.len() == 0 || exists|i: int|
            0 <= i < chats.len() && chats[i] == c),
{
    if exists|i: int| 0 <= i < chats.len() && chats[i] == c {
        let i = choose|i: int| 0 <= i < chats.len() && chats[i] == c;
        assert(chats.contains(c));
    }
}

/// An event of a type the topics do not select is never accepted; one that
/// names no chat is accepted exactly when its type is selected.
pub proof fn law_filter_by_topic_first(e: EventView, topics: Seq<Seq<char>>, chats: Seq<Seq<char>>)
    ensures
        !topics_select(e.kind, topics) ==> !filter_accepts(e, topics, chats),
        event_chat_id(e) is None ==> (filter_accepts(e, topics, chats) <==> topics_select(e.kind, topics)),
{
}

/// Every kept piece is non-empty and already trimmed, and is not `*` when
/// `*` is dropped.
proof fn lemma_kept_pieces(pieces: Seq<Seq<char>>, drop_star: bool)
    ensures
        forall|i: int|
            0 <= i < kept_pieces(pieces, drop_star).len() ==> {
                let t = #[trigger] kept_pieces(pieces, drop_star)[i];
                &&& t.len() > 0
                &&& trim(t) == t
                &&& drop_star ==> t != "*"@
            },
    decreases pieces.len(),
{
    if pieces.len() > 0 {
        lemma_kept_pieces(pieces.drop_last(), drop_star);
        crate::text::lemma_trim_ends(pieces.last());
        let rest = kept_pieces(pieces.drop_last(), drop_star);
        let kept = kept_pieces(pieces, drop_star);
        assert forall|i: int| 0 <= i < kept.len() implies {
            let t = #[trigger] kept[i];
            &&& t.len() > 0
            &&& trim(t) == t
            &&& drop_star ==> t != "*"@
        } by {
            if i < rest.len() {
                assert(kept[i] == rest[i]);
            }
        }
    }
}

/// A subscription always has at least one topic, and each topic is
/// non-empty with no surrounding whitespace.
pub proof fn law_topics_nonempty_and_trimmed(value: Option<Seq<char>>)
    ensures
        topics_of(value).len() > 0,
        forall|i: int|
            0 <= i < topics_of(value).len() ==> (#[trigger] topics_of(value)[i]).len() > 0 && trim(
                topics_of(value)[i],
            ) == topics_of(value)[i],
{
    reveal_strlit("*");
    if let Some(raw) = value {
        lemma_kept_pieces(split_on(raw, ','), false);
    }
    let t = topics_of(value);
    if t == seq!["*"@] {
        assert(trim("*"@) == "*"@) by {
            crate::text::lemma_trim_fixed_pub("*"@);
        }
    }
}

/// The chats of a subscription are non-empty, trimmed, and never `*`.
pub proof fn law_chats_trimmed_without_star(value: Option<Seq<char>>)
    ensures
        forall|i: int|
            0 <= i < chats_of(value).len() ==> {
                let c = #[trigger] chats_of(value)[i];
                c.len() > 0 && trim(c) == c && c != "*"@
            },
{
    if let Some(raw) = value {
        lemma_kept_pieces(split_on(raw, ','), true);
    }
}

/// The topic `*` selects every event type, so a subscription that names no
/// topics receives every type.
pub proof fn law_star_selects_every_type(event_type: Seq<char>)
    ensures
        topics_select(event_type, seq!["*"@]),
        topics_select(event_type, topics_of(None)),
{
    assert(topic_selects(event_type, seq!["*"@][0]));
}

/// The topic `p.*` selects exactly the event types that start with `p`.
pub proof fn law_prefix_topic(p: Seq<char>, event_type: Seq<char>)
    ensures
        topic_selects(event_type, p + ".*"@) == is_prefix_of(p, event_type),
{
    reveal_strlit("*");
    reveal_strlit(".*");
    let topic = p + ".*"@;
    assert(topic.len() >= 2);
    assert(topic != "*"@);
    assert(topic.subrange(topic.len() - 2, topic.len() as int) =~= ".*"@);
    assert(topic.subrange(0, topic.len() - 2) =~= p);
}

/// Any other topic selects only the event type it names.
pub proof fn law_exact_topic(topic: Seq<char>, event_type: Seq<char>)
    requires
        topic != "*"@,
        !is_suffix_of(".*"@, topic),
    ensures
        topic_selects(event_type, topic) == (event_type == topic),
{
}

/// The trimmed, non-empty (and, when `drop_star`, non-`*`) pieces of the
/// comma-separated `raw`.
fn kept_comma_pieces(raw: &str, drop_star: bool) -> (r: Vec<String>)
    ensures
        string_views(r@) == kept_pieces(split_on(raw@, ','), drop_star),
{
    let pieces = crate::text::split_commas(raw);
    let ghost pv = pieces@.map_values(|t: &str| t@);
    let mut out: Vec<String> = Vec::new();
    let mut i: usize = 0;
    assert(pv.take(0) =~= Seq::<Seq<char>>::empty());
    assert(string_views(out@) =~= Seq::<Seq<char>>::empty());
    while i < pieces.len()
        invariant
            i <= pieces@.len(),
            pv == pieces@.map_values(|t: &str| t@),
            pv == split_on(raw@, ','),
            string_views(out@) == kept_pieces(pv.take(i as int), drop_star),
        decreases pieces.len() - i,
    {
        assert(pv.take(i + 1).drop_last() =~= pv.take(i as int));
        assert(pv.take(i + 1).last() == pieces@[i as int]@);
        let t = crate::text::trim_str(pieces[i]);
        if !t.is_empty() && !(drop_star && crate::text::str_eq(t, "*")) {
            let ghost before = string_views(out@);
            out.push(t.to_string());
            assert(string_views(out@) =~= before.push(t@));
        }
        i = i + 1;
    }
    assert(pv.take(pieces@.len() as int) =~= pv);
    out
}

/// The optional string's view.
pub open spec fn opt_string_view(s: Option<String>) -> Option<Seq<char>> {
    match s {
        Some(t) => Some(t@),
        None => None,
    }
}

/// The topics a subscriber asked for.
pub fn parse_topics(value: Option<String>) -> (r: Vec<String>)
    ensures
        string_views(r@) == topics_of(opt_string_view(value)),
{
    let mut topics = match value {
        Some(raw) => kept_comma_pieces(raw.as_str(), false),
        None => Vec::new(),
    };
    if topics.len() == 0 {
        let mut all: Vec<String> = Vec::new();
        all.push("*".to_string());
        assert(string_views(all@) =~= seq!["*"@]);
        all
    } else {
        topics
    }
}

/// The chats a subscriber asked for.
pub fn parse_chats(value: Option<String>) -> (r: Vec<String>)
    ensures
        string_views(r@) == chats_of(opt_string_view(value)),
{
    match value {
        Some(raw) => kept_comma_pieces(raw.as_str(), true),
        None => {
            let v: Vec<String> = Vec::new();
            assert(string_views(v@) =~= Seq::<Seq<char>>::empty());
            v
        },
    }
}

/// Whether one topic selects the event type.
fn topic_selects_exec(event_type: &str, topic: &str) -> (r: bool)
    ensures
        r == topic_selects(event_type@, topic@),
{
    if crate::text::str_eq(topic, "*") {
        return true;
    }
    if let Some(prefix) = crate::text::strip_suffix(topic, ".*") {
        return crate::text::starts_with(event_type, prefix);
    }
    crate::text::str_eq(event_type, topic)
}

/// Whether the topics select the event type.
pub fn topic_matches(event_type: &str, topics: &Vec<String>) -> (r: bool)
    ensures
        r == topics_select(event_type@, string_views(topics@)),
{
    let ghost tv = string_views(topics@);
    if topics.len() == 0 {
        return true;
    }
    let mut i: usize = 0;
    while i < topics.len()
        invariant
            i <= topics@.len(),
            tv == string_views(topics@),
            forall|k: int| 0 <= k < i ==> !topic_selects(event_type@, #[trigger] tv[k]),
        decreases topics.len() - i,
    {
        if topic_selects_exec(event_type, topics[i].as_str()) {
            assert(topic_selects(event_type@, tv[i as int]));
            return true;
        }
        i = i + 1;
    }
    false
}

/// Whether a subscription with these topics and chats receives the event.
pub fn matches_filter(event: &Event, topics: &Vec<String>, chats: &Vec<String>) -> (r: bool)
    ensures
        r == filter_accepts(event@, string_views(topics@), string_views(chats@)),
{
    if !topic_matches(event.kind.as_str(), topics) {
        return false;
    }
    let chat_id = match event.chat_id() {
        Some(c) => c,
        None => return true,
    };
    if chats.len() == 0 {
        return true;
    }
    let ghost cv = string_views(chats@);
    let mut i: usize = 0;
    while i < chats.len()
        invariant
            i <= chats@.len(),
            cv == string_views(chats@),
            forall|k: int| 0 <= k < i ==> cv[k] != chat_id@,
            topics_select(event@.kind, string_views(topics@)),
            event_chat_id(event@) == Some(chat_id@),
            cv.len() > 0,
        decreases chats.len() - i,
    {
        if crate::text::str_eq(chats[i].as_str(), chat_id) {
            assert(cv[i as int] == chat_id@);
            assert(cv.contains(chat_id@));
            return true;
        }
        i = i + 1;
    }
    false
}

/// The token of an `Authorization` header value of the form `Bearer <token>`.
pub fn extract_bearer(header: Option<&str>) -> (r: Option<&str>)
    ensures
        crate::events::bus::opt_str_view(r) == bearer_token(crate::events::bus::opt_str_view(header)),
{
    match header {
        Some(h) => crate::text::strip_prefix(h, "Bearer "),
        None => None,
    }
}

/// Whether a subscription request is authorized by its `token` parameter or
/// its `Authorization` header.
pub fn is_authorized(token: Option<&str>, auth_header: Option<&str>, expected: &str) -> (r: bool)
    ensures
        r == authorized(
            crate::events::bus::opt_str_view(token),
            crate::events::bus::opt_str_view(auth_header),
            expected@,
        ),
{
    if let Some(t) = token {
        if crate::text::str_eq(t, expected) {
            return true;
        }
    }
    match extract_bearer(auth_header) {
        Some(v) => crate::text::str_eq(v, expected),
        None => false,
    }
}

// ---------------------------------------------------------------------------
// The connection
// ---------------------------------------------------------------------------

/// Why the server closes a subscription: the websocket close codes
/// 1001 (going away), 1008 (policy), 1011 (server error), 1013 (try again).
#[derive(Debug, Clone, Copy, PartialEq, Eq)]
pub enum CloseCode {
    Away,
    Policy,
    Error,
    Again,
}

/// A close frame to send.
#[derive(Debug)]
pub struct ClosePlan {
    pub code: CloseCode,
    pub reason: String,
}

/// A control message, sent as `{"type": kind, "data": data}`.
#[derive(Debug)]
pub struct ControlMessage {
    pub kind: String,
    pub data: Payload,
}

/// A subscription as requested: who asked, for what, and from where.
#[derive(Debug)]
pub struct Subscription {
    pub authorized: bool,
    pub topics: Vec<String>,
    pub chats: Vec<String>,
    pub since: Option<String>,
}

/// The replay cursor of a request: an empty `since` counts as none.
pub open spec fn since_of(value: Option<Seq<char>>) -> Option<Seq<char>> {
    match value {
        Some(s) => if s.len() > 0 {
            Some(s)
        } else {
            None
        },
        None => None,
    }
}

/// Reads a subscription request: whether its token is `expected_token`, its
/// topics and chats, and its replay cursor.
pub fn prepare_subscription(query: EventsWsQuery, auth_header: Option<&str>, expected_token: &str) -> (r: Subscription)
    ensures
        r.authorized == authorized(
            opt_string_view(query.token),
            crate::events::bus::opt_str_view(auth_header),
            expected_token@,
        ),
        string_views(r.topics@) == topics_of(opt_string_view(query.topics)),
        string_views(r.chats@) == chats_of(opt_string_view(query.chats)),
        opt_string_view(r.since) == since_of(opt_string_view(query.since)),
{
    let authorized = match &query.token {
        Some(t) => is_authorized(Some(t.as_str()), auth_header, expected_token),
        None => is_authorized(None, auth_header, expected_token),
    };
    let topics = parse_topics(query.topics);
    let chats = parse_chats(query.chats);
    let since = match query.since {
        Some(s) => if s.as_str().is_empty() {
            None
        } else {
            Some(s)
        },
        None => None,
    };
    Subscription { authorized, topics, chats, since }
}

/// The close frame that refuses a connection, if it is refused: an
/// unauthorized one with code 1008 `unauthorized`, then one that finds no
/// event bus with code 1011 `event bus unavailable`.
pub fn connect_decision(authorized: bool, bus_available: bool) -> (r: Option<ClosePlan>)
    ensures
        match r {
            None => authorized && bus_available,
            Some(c) => if !authorized {
                c.code == CloseCode::Policy && c.reason@ == "unauthorized"@
            } else {
                !bus_available && c.code == CloseCode::Error && c.reason@ == "event bus unavailable"@
            },
        },
{
    if !authorized {
        return Some(ClosePlan { code: CloseCode::Policy, reason: "unauthorized".to_string() });
    }
    if !bus_available {
        return Some(ClosePlan { code: CloseCode::Error, reason: "event bus unavailable".to_string() });
    }
    None
}

/// The events of `v` that the subscription accepts, in order.
pub open spec fn accepted(v: Seq<EventView>, topics: Seq<Seq<char>>, chats: Seq<Seq<char>>) -> Seq<EventView>
    decreases v.len(),
{
    if v.len() == 0 {
        Seq::empty()
    } else {
        let rest = accepted(v.drop_last(), topics, chats);
        if filter_accepts(v.last(), topics, chats) {
            rest.push(v.last())
        } else {
            rest
        }
    }
}

/// Replay filters each replayed event on its own: what is sent after a
/// replay is exactly the replayed events that the subscription accepts, in
/// their order, whatever the events before them (an event the filter
/// rejects never stops the ones after it).
pub proof fn law_replay_filters_each_event(v: Seq<EventView>, topics: Seq<Seq<char>>, chats: Seq<Seq<char>>)
    ensures
        accepted(v, topics, chats) == v.filter(|e: EventView| filter_accepts(e, topics, chats)),
    decreases v.len(),
{
    reveal(Seq::filter);
    if v.len() > 0 {
        law_replay_filters_each_event(v.drop_last(), topics, chats);
    }
}

/// What the connection sends after replaying: the replayed events it accepts,
/// then the control message, then a close frame when the replay had a gap.
#[derive(Debug)]
pub struct ReplayPlan {
    pub events: Vec<Event>,
    pub control: ControlMessage,
    pub close: Option<ClosePlan>,
}

/// The payload of `replay.done`: how many events were replayed and from
/// which cursor (empty when none).
pub open spec fn replay_done_data(count: nat, since: Option<Seq<char>>) -> Seq<(Seq<char>, JsonView)> {
    seq![
        ("count"@, JsonView::UInt(count as u64)),
        ("since"@, JsonView::Str(
            match since {
                Some(s) => s,
                None => Seq::empty(),
            },
        )),
    ]
}

/// The payload of `replay.gap` for a cursor older than the ring: the oldest
/// id still held and the cursor (null when none).
pub open spec fn replay_gap_data(earliest: Seq<char>, since: Option<Seq<char>>) -> Seq<(Seq<char>, JsonView)> {
    seq![
        ("reason"@, JsonView::Str("gap"@)),
        ("earliest"@, JsonView::Str(earliest)),
        ("since"@, match since {
            Some(s) => JsonView::Str(s),
            None => JsonView::Null,
        }),
    ]
}

/// What to send after the replay from `since`, given what the bus replayed.
pub fn plan_replay(
    replayed: Result<Vec<Event>, ReplayGap>,
    topics: &Vec<String>,
    chats: &Vec<String>,
    since: Option<String>,
) -> (r: ReplayPlan)
    ensures
        match replayed {
            Ok(v) => {
                &&& r.events@.map_values(|e: Event| e@) == accepted(
                    v@.map_values(|e: Event| e@),
                    string_views(topics@),
                    string_views(chats@),
                )
                &&& r.control.kind@ == "replay.done"@
                &&& r.control.data@ == replay_done_data(r.events@.len(), opt_string_view(since))
                &&& r.close is None
            },
            Err(g) => {
                &&& r.events@.len() == 0
                &&& r.control.kind@ == "replay.gap"@
                &&& r.control.data@ == replay_gap_data(g.earliest_in_buffer@, opt_string_view(since))
                &&& close_view(r.close) == Some((CloseCode::Error, "replay gap"@))
            },
        },
{
    match replayed {
        Ok(v) => {
            let ghost vv = v@.map_values(|e: Event| e@);
            let mut events: Vec<Event> = Vec::new();
            let mut i: usize = 0;
            assert(vv.take(0) =~= Seq::<EventView>::empty());
            assert(events@.map_values(|e: Event| e@) =~= Seq::<EventView>::empty());
            while i < v.len()
                invariant
                    i <= v@.len(),
                    vv == v@.map_values(|e: Event| e@),
                    events@.map_values(|e: Event| e@) == accepted(
                        vv.take(i as int),
                        string_views(topics@),
                        string_views(chats@),
                    ),
                    events@.len() <= i,
                decreases v.len() - i,
            {
                assert(vv.take(i + 1).drop_last() =~= vv.take(i as int));
                assert(vv.take(i + 1).last() == v@[i as int]@);
                if matches_filter(&v[i], topics, chats) {
                    let ghost before = events@.map_values(|e: Event| e@);
                    let e = v[i].clone();
                    events.push(e);
                    assert(events@.map_values(|e: Event| e@) =~= before.push(v@[i as int]@));
                }
                i = i + 1;
            }
            assert(vv.take(v@.len() as int) =~= vv);
            let count = events.len() as u64;
            let since_text = match since {
                Some(s) => s,
                None => String::new(),
            };
            let data = Payload::new().with("count", JsonValue::UInt(count)).with(
                "since",
                JsonValue::Str(since_text),
            );
            proof {
                assert(data@ =~= replay_done_data(events@.len(), opt_string_view(since)));
            }
            ReplayPlan {
                events,
                control: ControlMessage { kind: "replay.done".to_string(), data },
                close: None,
            }
        },
        Err(gap) => {
            let since_value = match since {
                Some(s) => JsonValue::Str(s),
                None => JsonValue::Null,
            };
            let data = Payload::new().with("reason", JsonValue::Str("gap".to_string())).with(
                "earliest",
                JsonValue::Str(gap.earliest_in_buffer),
            ).with("since", since_value);
            proof {
                assert(data@ =~= replay_gap_data(gap.earliest_in_buffer@, opt_string_view(since)));
            }
            ReplayPlan {
                events: Vec::new(),
                control: ControlMessage { kind: "replay.gap".to_string(), data },
                close: Some(ClosePlan { code: CloseCode::Error, reason: "replay gap".to_string() }),
            }
        },
    }
}

/// Something that happens to a live subscription.
#[derive(Debug)]
pub enum WsInput {
    /// The bus delivered an event.
    Published(Event),
    /// The subscription fell behind the channel by this many events.
    Lagged(u64),
    /// The bus closed its channel.
    BusClosed,
    /// The heartbeat timer fired.
    HeartbeatTick,
    /// The client answered a ping.
    Pong,
    /// The client sent some other frame.
    OtherFrame,
    /// The client disconnected or the socket failed.
    SocketClosed,
}

/// What the connection does next.
#[derive(Debug)]
pub enum WsStep {
    /// Nothing; keep waiting.
    Wait,
    /// Send this event to the client.
    Forward(Event),
    /// Send a ping to the client.
    Ping,
    /// Send the control message and close frame, where given, and end.
    Finish { control: Option<ControlMessage>, close: Option<ClosePlan> },
}

/// The heartbeat state of a live subscription and its filter.
pub struct WsSession {
    topics: Vec<String>,
    chats: Vec<String>,
    missed_pongs: u8,
}

/// The payload of `replay.gap` when a live subscription lags.
pub open spec fn lagged_data(lagged: u64) -> Seq<(Seq<char>, JsonView)> {
    seq![("reason"@, JsonView::Str("lagged"@)), ("lagged"@, JsonView::UInt(lagged))]
}

/// The view of an optional control message: its type and payload.
pub open spec fn control_view(c: Option<ControlMessage>) -> Option<(Seq<char>, Seq<(Seq<char>, JsonView)>)> {
    match c {
        Some(m) => Some((m.kind@, m.data@)),
        None => None,
    }
}

/// The view of an optional close frame: its code and reason.
pub open spec fn close_view(c: Option<ClosePlan>) -> Option<(CloseCode, Seq<char>)> {
    match c {
        Some(p) => Some((p.code, p.reason@)),
        None => None,
    }
}

/// `r` ends the session, sending the given control message and close frame.
pub open spec fn finishes_with(
    r: WsStep,
    control: Option<(Seq<char>, Seq<(Seq<char>, JsonView)>)>,
    close: Option<(CloseCode, Seq<char>)>,
) -> bool {
    match r {
        WsStep::Finish { control: c, close: cl } => control_view(c) == control && close_view(cl) == close,
        _ => false,
    }
}

/// Two heartbeats in a row without a pong end the connection.
pub open spec fn max_missed_pongs() -> int {
    2
}

/// The count of unanswered heartbeats after one more heartbeat, or none
/// when that heartbeat ends the session.
pub open spec fn after_heartbeat(missed: nat) -> Option<nat> {
    if missed + 1 >= max_missed_pongs() {
        None
    } else {
        Some((missed + 1) as nat)
    }
}

impl WsSession {
    #[verifier::type_invariant]
    spec fn missed_below_limit(self) -> bool {
        self.missed_pongs < 2
    }

    /// The heartbeats since the last pong.
    pub closed spec fn missed(self) -> nat {
        self.missed_pongs as nat
    }

    /// The topics this session forwards.
    pub closed spec fn topics_view(self) -> Seq<Seq<char>> {
        string_views(self.topics@)
    }

    /// The chats this session forwards.
    pub closed spec fn chats_view(self) -> Seq<Seq<char>> {
        string_views(self.chats@)
    }

    /// A live session filtering by `topics` and `chats`.
    pub fn new(topics: Vec<String>, chats: Vec<String>) -> (r: WsSession)
        ensures
            r.missed() == 0,
            r.topics_view() == string_views(topics@),
            r.chats_view() == string_views(chats@),
    {
        WsSession { topics, chats, missed_pongs: 0 }
    }

    /// The next step of a live session: accepted events are forwarded; a
    /// lag reports `replay.gap` and closes with 1013; a closed bus or socket
    /// ends; a heartbeat pings, or closes with 1001 `missed pong` when the
    /// previous ping went unanswered; a pong clears the count.
    pub fn step(&mut self, input: WsInput) -> (r: WsStep)
        ensures
            final(self).topics_view() == old(self).topics_view(),
            final(self).chats_view() == old(self).chats_view(),
            match input {
                WsInput::Published(e) => {
                    &&& final(self).missed() == old(self).missed()
                    &&& if filter_accepts(e@, old(self).topics_view(), old(self).chats_view()) {
                        r matches WsStep::Forward(f) && f@ == e@
                    } else {
                        r is Wait
                    }
                },
                WsInput::Lagged(n) => finishes_with(
                    r,
                    Some(("replay.gap"@, lagged_data(n))),
                    Some((CloseCode::Again, "lagged by "@ + crate::text::decimal(n as nat) + " messages"@)),
                ),
                WsInput::BusClosed => finishes_with(r, None, None),
                WsInput::HeartbeatTick => match after_heartbeat(old(self).missed()) {
                    None => finishes_with(r, None, Some((CloseCode::Away, "missed pong"@))),
                    Some(m) => r is Ping && final(self).missed() == m,
                },
                WsInput::Pong => r is Wait && final(self).missed() == 0,
                WsInput::OtherFrame => r is Wait && final(self).missed() == old(self).missed(),
                WsInput::SocketClosed => finishes_with(r, None, None),
            },
    {
        proof {
            use_type_invariant(&*self);
        }
        match input {
            WsInput::Published(e) => {
                if matches_filter(&e, &self.topics, &self.chats) {
                    WsStep::Forward(e)
                } else {
                    WsStep::Wait
                }
            },
            WsInput::Lagged(n) => {
                let data = Payload::new().with("reason", JsonValue::Str("lagged".to_string())).with(
                    "lagged",
                    JsonValue::UInt(n),
                );
                assert(data@ =~= lagged_data(n));
                let mut reason = "lagged by ".to_string();
                let digits = crate::text::u64_to_decimal(n);
                reason.append(digits.as_str());
                reason.append(" messages");
                WsStep::Finish {
                    control: Some(ControlMessage { kind: "replay.gap".to_string(), data }),
                    close: Some(ClosePlan { code: CloseCode::Again, reason }),
                }
            },
            WsInput::BusClosed => WsStep::Finish { control: None, close: None },
            WsInput::HeartbeatTick => {
                let missed = self.missed_pongs + 1;
                if missed >= 2 {
                    WsStep::Finish {
                        control: None,
                        close: Some(ClosePlan { code: CloseCode::Away, reason: "missed pong".to_string() }),
                    }
                } else {
                    self.missed_pongs = missed;
                    WsStep::Ping
                }
            },
            WsInput::Pong => {
                self.missed_pongs = 0;
                WsStep::Wait
            },
            WsInput::OtherFrame => WsStep::Wait,
            WsInput::SocketClosed => WsStep::Finish { control: None, close: None },
        }
    }
}

/// Two heartbeats in a row with no pong between them end the session:
/// whatever the count of unanswered heartbeats a live session has, either the
/// next heartbeat ends it or the one after does; after a pong (a count of 0)
/// the first heartbeat only pings.
pub proof fn law_two_silent_heartbeats_end_session(session: WsSession)
    ensures
        match after_heartbeat(session.missed()) {
            None => true,
            Some(m) => after_heartbeat(m) is None,
        },
        after_heartbeat(0) == Some(1nat),
{
}

} // verus!
