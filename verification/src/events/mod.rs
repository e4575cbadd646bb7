//! The event envelope shared by every subscriber, and its payload.

pub mod bus;
pub mod id;
pub mod kinds;
pub mod pollers;

use vstd::prelude::*;

verus! {

/// A JSON value as event payloads hold it.
#[derive(Debug)]
pub enum JsonValue {
    Null,
    Bool(bool),
    Int(i64),
    UInt(u64),
    Str(String),
}

/// The mathematical value of a `JsonValue`.
pub enum JsonView {
    Null,
    Bool(bool),
    Int(i64),
    UInt(u64),
    Str(Seq<char>),
}

impl View for JsonValue {
    type V = JsonView;

    open spec fn view(&self) -> JsonView {
        match self {
            JsonValue::Null => JsonView::Null,
            JsonValue::Bool(b) => JsonView::Bool(*b),
            JsonValue::Int(n) => JsonView::Int(*n),
            JsonValue::UInt(n) => JsonView::UInt(*n),
            JsonValue::Str(s) => JsonView::Str(s@),
        }
    }
}

impl Clone for JsonValue {
    fn clone(&self) -> (r: Self)
        ensures
            r == *self,
    {
        match self {
            JsonValue::Null => JsonValue::Null,
            JsonValue::Bool(b) => JsonValue::Bool(*b),
            JsonValue::Int(n) => JsonValue::Int(*n),
            JsonValue::UInt(n) => JsonValue::UInt(*n),
            JsonValue::Str(s) => JsonValue::Str(s.clone()),
        }
    }
}

impl JsonValue {
    /// The string this value holds, if it is a string (`serde_json::Value::as_str`).
    pub fn as_str(&self) -> (r: Option<&str>)
        ensures
            match self@ {
                JsonView::Str(s) => r is Some && r->0@ == s,
                _ => r is None,
            },
    {
        match self {
            JsonValue::Str(s) => Some(s.as_str()),
            _ => None,
        }
    }
}

/// One member of a JSON object.
#[derive(Debug)]
pub struct Field {
    pub key: String,
    pub value: JsonValue,
}

impl View for Field {
    type V = (Seq<char>, JsonView);

    open spec fn view(&self) -> (Seq<char>, JsonView) {
        (self.key@, self.value@)
    }
}

impl Clone for Field {
    fn clone(&self) -> (r: Self)
        ensures
            r == *self,
    {
        Field { key: self.key.clone(), value: self.value.clone() }
    }
}

/// The value of the first member named `key` in a JSON object given as a
/// sequence of members (what `serde_json::Value::get` returns on an object).
pub open spec fn lookup(fields: Seq<(Seq<char>, JsonView)>, key: Seq<char>) -> Option<JsonView>
    decreases fields.len(),
{
    if fields.len() == 0 {
        None
    } else if fields[0].0 == key {
        Some(fields[0].1)
    } else {
        lookup(fields.drop_first(), key)
    }
}

/// The member found under `key` is the first one with that name.
pub proof fn lemma_lookup_at(fields: Seq<(Seq<char>, JsonView)>, key: Seq<char>, i: int)
    requires
        0 <= i < fields.len(),
        fields[i].0 == key,
        forall|k: int| 0 <= k < i ==> #[trigger] fields[k].0 != key,
    ensures
        lookup(fields, key) == Some(fields[i].1),
    decreases i,
{
    if i > 0 {
        assert(fields[0].0 != key);
        assert forall|k: int| 0 <= k < i - 1 implies #[trigger] fields.drop_first()[k].0 != key by {
            assert(fields.drop_first()[k] == fields[k + 1]);
        }
        lemma_lookup_at(fields.drop_first(), key, i - 1);
    }
}

/// The string held under `key`, if there is one and it is a string.
pub open spec fn lookup_str(fields: Seq<(Seq<char>, JsonView)>, key: Seq<char>) -> Option<
    Seq<char>,
> {
    match lookup(fields, key) {
        Some(JsonView::Str(s)) => Some(s),
        _ => None,
    }
}

/// A JSON object: its members in the order they were added.
#[derive(Debug)]
pub struct Payload {
    pub fields: Vec<Field>,
}

impl View for Payload {
    type V = Seq<(Seq<char>, JsonView)>;

    open spec fn view(&self) -> Seq<(Seq<char>, JsonView)> {
        self.fields@.map_values(|f: Field| f@)
    }
}

impl Clone for Payload {
    fn clone(&self) -> (r: Self)
        ensures
            r@ == self@,
    {
        let fields = self.fields.clone();
        assert(fields@ =~= self.fields@);
        Payload { fields }
    }
}

impl Payload {
    /// The empty object.
    pub fn new() -> (r: Payload)
        ensures
            r@ == Seq::<(Seq<char>, JsonView)>::empty(),
    {
        Payload { fields: Vec::new() }
    }

    /// Adds the member `key: value` after the others.
    pub fn push(&mut self, key: &str, value: JsonValue)
        ensures
            final(self)@ == old(self)@.push((key@, value@)),
    {
        self.fields.push(Field { key: key.to_string(), value });
        assert(self@ =~= old(self)@.push((key@, value@)));
    }

    /// Adds the member `key: value` and returns the object (a builder step).
    pub fn with(self, key: &str, value: JsonValue) -> (r: Payload)
        ensures
            r@ == self@.push((key@, value@)),
    {
        let mut p = self;
        p.push(key, value);
        p
    }

    /// The value of the first member named `key`.
    pub fn get(&self, key: &str) -> (r: Option<&JsonValue>)
        ensures
            match r {
                Some(v) => lookup(self@, key@) == Some(v@),
                None => lookup(self@, key@) is None,
            },
    {
        let mut i: usize = 0;
        assert(self@.skip(0) =~= self@);
        while i < self.fields.len()
            invariant
                i <= self.fields@.len(),
                lookup(self@, key@) == lookup(self@.skip(i as int), key@),
            decreases self.fields.len() - i,
        {
            assert(self@.skip(i as int)[0] == self.fields@[i as int]@);
            assert(self@.skip(i as int).drop_first() =~= self@.skip(i + 1));
            if crate::text::str_eq(self.fields[i].key.as_str(), key) {
                return Some(&self.fields[i].value);
            }
            i = i + 1;
        }
        None
    }

    /// The string held under `key`, if it is a string.
    pub fn get_str(&self, key: &str) -> (r: Option<&str>)
        ensures
            match r {
                Some(s) => lookup_str(self@, key@) == Some(s@),
                None => lookup_str(self@, key@) is None,
            },
    {
        match self.get(key) {
            Some(v) => v.as_str(),
            None => None,
        }
    }

    /// The number of members.
    pub fn len(&self) -> (r: usize)
        ensures
            r == self@.len(),
    {
        self.fields.len()
    }
}

/// The event envelope delivered to every subscriber.
#[derive(Debug)]
pub struct Event {
    /// Schema version, always 1.
    pub v: u8,
    /// Globally unique event id (see `id`).
    pub id: String,
    /// Creation time, RFC 3339 in UTC.
    pub ts: String,
    /// Event type (see `kinds`).
    pub kind: String,
    /// Event payload, a JSON object.
    pub data: Payload,
}

/// The mathematical value of an `Event`.
pub struct EventView {
    pub v: u8,
    pub id: Seq<char>,
    pub ts: Seq<char>,
    pub kind: Seq<char>,
    pub data: Seq<(Seq<char>, JsonView)>,
}

impl View for Event {
    type V = EventView;

    open spec fn view(&self) -> EventView {
        EventView { v: self.v, id: self.id@, ts: self.ts@, kind: self.kind@, data: self.data@ }
    }
}

impl Clone for Event {
    fn clone(&self) -> (r: Self)
        ensures
            r@ == self@,
    {
        Event {
            v: self.v,
            id: self.id.clone(),
            ts: self.ts.clone(),
            kind: self.kind.clone(),
            data: self.data.clone(),
        }
    }
}

/// The chat an event concerns: its `chatId` member, when that is a string.
pub open spec fn event_chat_id(e: EventView) -> Option<Seq<char>> {
    lookup_str(e.data, "chatId"@)
}

/// What is fixed of an event before it is stamped with an id and a time:
/// its type and payload.
pub struct EventShape {
    pub kind: Seq<char>,
    pub data: Seq<(Seq<char>, JsonView)>,
}

/// `e` is a freshly created event of the given type and payload.
pub open spec fn is_new_event(e: EventView, kind: Seq<char>, data: Seq<(Seq<char>, JsonView)>) -> bool {
    &&& e.v == 1
    &&& id::is_event_id(e.id)
    &&& e.kind == kind
    &&& e.data == data
}

/// An ASCII decimal digit.
pub open spec fn is_ascii_digit(c: char) -> bool {
    '0' <= c && c <= '9'
}

/// The year as RFC 3339 text from chrono: four digits for the years 0 to
/// 9999, otherwise a sign followed by at least four digits.
pub open spec fn is_year_text(y: Seq<char>) -> bool {
    ||| y.len() == 4 && forall|i: int| 0 <= i < 4 ==> is_ascii_digit(#[trigger] y[i])
    ||| y.len() >= 5 && (y[0] == '+' || y[0] == '-') && forall|i: int|
        1 <= i < y.len() ==> is_ascii_digit(#[trigger] y[i])
}

/// What follows the year: `-MM-DDTHH:MM:SS.mmmZ`, each letter a digit.
pub open spec fn is_utc_millis_tail(t: Seq<char>) -> bool {
    &&& t.len() == 20
    &&& t[0] == '-' && t[3] == '-' && t[6] == 'T' && t[9] == ':' && t[12] == ':' && t[15] == '.'
    &&& t[19] == 'Z'
    &&& is_ascii_digit(t[1]) && is_ascii_digit(t[2])
    &&& is_ascii_digit(t[4]) && is_ascii_digit(t[5])
    &&& is_ascii_digit(t[7]) && is_ascii_digit(t[8])
    &&& is_ascii_digit(t[10]) && is_ascii_digit(t[11])
    &&& is_ascii_digit(t[13]) && is_ascii_digit(t[14])
    &&& is_ascii_digit(t[16]) && is_ascii_digit(t[17]) && is_ascii_digit(t[18])
}

/// A UTC time in RFC 3339 with milliseconds and a `Z`:
/// `YYYY-MM-DDTHH:MM:SS.mmmZ` (a signed, longer year outside 0 to 9999).
pub open spec fn is_utc_millis_timestamp(s: Seq<char>) -> bool {
    &&& s.len() >= 24
    &&& is_year_text(s.subrange(0, s.len() - 20))
    &&& is_utc_millis_tail(s.subrange(s.len() - 20, s.len() as int))
}

/// Calls `chrono::Utc::now().to_rfc3339_opts(SecondsFormat::Millis, true)`.
/// The time is the clock's. chrono's `write_rfc3339` writes the year (four
/// digits in 0 to 9999, else signed with at least four), then `-MM-DD`, `T`,
/// `HH:MM:SS`, three digits of milliseconds, and `Z` for the zero offset.
#[verifier::external_body]
fn utc_now_rfc3339_millis() -> (r: String)
    ensures
        is_utc_millis_timestamp(r@),
{
    chrono::Utc::now().to_rfc3339_opts(chrono::SecondsFormat::Millis, true)
}

impl Event {
    /// A new event of type `kind` carrying `data`, with a fresh id and the
    /// current time.
    pub fn new(kind: &str, data: Payload) -> (r: Event)
        ensures
            is_new_event(r@, kind@, data@),
            is_utc_millis_timestamp(r.ts@),
            r.ts@.last() == 'Z',
            is_ascii_digit(r.ts@[0]) ==> r.ts@.len() == 24,
    {
        let ts = utc_now_rfc3339_millis();
        proof {
            let n = ts@.len();
            assert(ts@.subrange(n - 20, n as int)[19] == ts@.last());
            assert(ts@.subrange(0, n - 20)[0] == ts@[0]);
        }
        Event { v: 1, id: id::next_event_id(), ts, kind: kind.to_string(), data }
    }

    /// The `chatId` of the payload, used by chat filters.
    pub fn chat_id(&self) -> (r: Option<&str>)
        ensures
            match r {
                Some(s) => event_chat_id(self@) == Some(s@),
                None => event_chat_id(self@) is None,
            },
    {
        self.data.get_str("chatId")
    }
}

} // verus!
