//! Contact changes: the contact table is compared with the previous
//! snapshot; contacts that appeared are announced as added, contacts that
//! disappeared as removed.

use crate::events::bus::{publish_all, published_all_new, EventBus};
use crate::events::{kinds, lookup_str, Event, EventShape, EventView, JsonValue, JsonView, Payload};
use crate::str_map::{has_key, pairs_to_map, StrMap};
use vstd::prelude::*;

verus! {

broadcast use vstd::string::group_string_axioms;

/// What the snapshot keeps of a contact.
#[derive(Debug)]
pub struct ContactInfo {
    pub nick_name: String,
    pub remark: String,
}

/// Polls the contact table for added and removed contacts.
pub struct ContactDiffPoller {
    pub last_snapshot: StrMap<ContactInfo>,
    pub interval_secs: u64,
    /// Set until the first poll, which only records the snapshot.
    pub cold_start: bool,
}

/// The events for contacts of `cur` (in order) that `prev` lacks.
pub open spec fn added_events(cur: Seq<(Seq<char>, ContactInfo)>, prev: Map<Seq<char>, ContactInfo>) -> Seq<EventShape>
    decreases cur.len(),
{
    if cur.len() == 0 {
        Seq::empty()
    } else {
        let rest = added_events(cur.drop_last(), prev);
        let (wxid, info) = cur.last();
        if !prev.contains_key(wxid) {
            rest.push(
                EventShape {
                    kind: kinds::CONTACT_ADDED@,
                    data: seq![
                        ("wxid"@, JsonView::Str(wxid)),
                        ("nickName"@, JsonView::Str(info.nick_name@)),
                        ("remark"@, JsonView::Str(info.remark@)),
                    ],
                },
            )
        } else {
            rest
        }
    }
}

/// The events for contacts of `prev` (in order) that `cur` lacks.
pub open spec fn removed_events(prev: Seq<(Seq<char>, ContactInfo)>, cur: Map<Seq<char>, ContactInfo>) -> Seq<EventShape>
    decreases prev.len(),
{
    if prev.len() == 0 {
        Seq::empty()
    } else {
        let rest = removed_events(prev.drop_last(), cur);
        let wxid = prev.last().0;
        if !cur.contains_key(wxid) {
            rest.push(EventShape { kind: kinds::CONTACT_REMOVED@, data: seq![("wxid"@, JsonView::Str(wxid))] })
        } else {
            rest
        }
    }
}

/// All diff events: additions in the current snapshot's order, then removals
/// in the previous snapshot's order.
pub open spec fn diff_events(cur: Seq<(Seq<char>, ContactInfo)>, prev: Seq<(Seq<char>, ContactInfo)>) -> Seq<EventShape> {
    added_events(cur, pairs_to_map(prev)) + removed_events(prev, pairs_to_map(cur))
}

/// The text of a row's column, empty when missing or not a string.
pub open spec fn column_text(row: Seq<(Seq<char>, JsonView)>, key: Seq<char>) -> Seq<char> {
    match lookup_str(row, key) {
        Some(s) => s,
        None => Seq::empty(),
    }
}

/// The snapshot a sequence of contact rows makes: each row with a non-empty
/// `username`, in order, a later row replacing an earlier one of the same
/// username.
pub open spec fn snapshot_map(rows: Seq<Seq<(Seq<char>, JsonView)>>) -> Map<Seq<char>, (Seq<char>, Seq<char>)>
    decreases rows.len(),
{
    if rows.len() == 0 {
        Map::empty()
    } else {
        let rest = snapshot_map(rows.drop_last());
        let row = rows.last();
        let name = column_text(row, "username"@);
        if name.len() == 0 {
            rest
        } else {
            rest.insert(name, (column_text(row, "nick_name"@), column_text(row, "remark"@)))
        }
    }
}

/// The names and details a snapshot holds.
pub open spec fn snapshot_details(m: Map<Seq<char>, ContactInfo>) -> Map<Seq<char>, (Seq<char>, Seq<char>)> {
    m.map_values(|c: ContactInfo| (c.nick_name@, c.remark@))
}

/// The text of column `key` of `row`.
fn column(row: &Payload, key: &str) -> (r: String)
    ensures
        r@ == column_text(row@, key@),
{
    match row.get_str(key) {
        Some(s) => s.to_string(),
        None => String::new(),
    }
}

/// The snapshot of the contact rows `rows` (each a JSON object with
/// `username`, `nick_name` and `remark`).
pub fn snapshot_from_rows(rows: &Vec<Payload>) -> (r: StrMap<ContactInfo>)
    ensures
        snapshot_details(r.map()) == snapshot_map(rows@.map_values(|p: Payload| p@)),
{
    let ghost rv = rows@.map_values(|p: Payload| p@);
    let mut snap: StrMap<ContactInfo> = StrMap::new();
    assert(snapshot_details(snap.map()) =~= Map::<Seq<char>, (Seq<char>, Seq<char>)>::empty());
    let mut i: usize = 0;
    while i < rows.len()
        invariant
            i <= rows@.len(),
            rv == rows@.map_values(|p: Payload| p@),
            snapshot_details(snap.map()) == snapshot_map(rv.take(i as int)),
        decreases rows.len() - i,
    {
        assert(rv.take(i + 1).drop_last() =~= rv.take(i as int));
        assert(rv.take(i + 1).last() == rows@[i as int]@);
        let row = &rows[i];
        let username = column(row, "username");
        if !username.as_str().is_empty() {
            let info = ContactInfo { nick_name: column(row, "nick_name"), remark: column(row, "remark") };
            let ghost before = snap.map();
            let ghost details = (info.nick_name@, info.remark@);
            let ghost name = username@;
            snap.insert(username, info);
            assert(snapshot_details(snap.map()) =~= snapshot_details(before).insert(name, details));
        }
        i = i + 1;
    }
    assert(rv.take(rows@.len() as int) =~= rv);
    snap
}

impl ContactDiffPoller {
    /// A poller that polls every `interval_secs` and starts cold with an
    /// empty snapshot.
    pub fn new(interval_secs: u64) -> (r: ContactDiffPoller)
        ensures
            r.snapshot() == Seq::<(Seq<char>, ContactInfo)>::empty(),
            r.interval_secs == interval_secs,
            r.cold_start,
    {
        ContactDiffPoller { last_snapshot: StrMap::new(), interval_secs, cold_start: true }
    }

    /// The last snapshot's contacts, in order.
    pub closed spec fn snapshot(self) -> Seq<(Seq<char>, ContactInfo)> {
        self.last_snapshot.pairs()
    }

    /// One poll with the current snapshot: on a cold start it is only
    /// recorded; afterwards the differences from the last snapshot are
    /// published and it becomes the last snapshot.
    pub fn process_snapshot(&mut self, snapshot: StrMap<ContactInfo>, bus: &mut EventBus)
        ensures
            final(self).snapshot() == snapshot.pairs(),
            !final(self).cold_start,
            final(self).interval_secs == old(self).interval_secs,
            published_all_new(
                *old(bus),
                *final(bus),
                if old(self).cold_start {
                    Seq::empty()
                } else {
                    diff_events(snapshot.pairs(), old(self).snapshot())
                },
            ),
    {
        if self.cold_start {
            let ghost es = Seq::<EventView>::empty();
            assert(publish_all(bus.ring_view(), bus.capacity(), es) == bus.ring_view());
            assert(crate::events::bus::new_events_of(es, Seq::<EventShape>::empty()));
            self.last_snapshot = snapshot;
            self.cold_start = false;
            return;
        }
        emit_diff_events(&snapshot, &self.last_snapshot, bus);
        self.last_snapshot = snapshot;
    }
}

/// Publishes `contact.added` for each contact of `current` missing from
/// `previous`, then `contact.removed` for each contact of `previous` missing
/// from `current`.
pub fn emit_diff_events(current: &StrMap<ContactInfo>, previous: &StrMap<ContactInfo>, bus: &mut EventBus)
    ensures
        published_all_new(*old(bus), *final(bus), diff_events(current.pairs(), previous.pairs())),
{
    let ghost cur = current.pairs();
    let ghost prev = previous.pairs();
    let mut events: Vec<Event> = Vec::new();
    let mut i: usize = 0;
    assert(cur.take(0) =~= Seq::<(Seq<char>, ContactInfo)>::empty());
    assert(events@.map_values(|e: Event| e@) =~= Seq::<EventView>::empty());
    while i < current.len()
        invariant
            i <= cur.len(),
            cur == current.pairs(),
            prev == previous.pairs(),
            crate::events::bus::new_events_of(
                events@.map_values(|e: Event| e@),
                added_events(cur.take(i as int), pairs_to_map(prev)),
            ),
        decreases cur.len() - i,
    {
        assert(cur.take(i + 1).drop_last() =~= cur.take(i as int));
        assert(cur.take(i + 1).last() == cur[i as int]);
        let entry = current.entry(i);
        if !previous.contains_key(entry.key.as_str()) {
            let data = Payload::new().with("wxid", JsonValue::Str(entry.key.clone())).with(
                "nickName",
                JsonValue::Str(entry.value.nick_name.clone()),
            ).with("remark", JsonValue::Str(entry.value.remark.clone()));
            assert(data@ =~= seq![
                ("wxid"@, JsonView::Str(cur[i as int].0)),
                ("nickName"@, JsonView::Str(cur[i as int].1.nick_name@)),
                ("remark"@, JsonView::Str(cur[i as int].1.remark@)),
            ]);
            let ghost before = events@.map_values(|e: Event| e@);
            let e = Event::new(kinds::CONTACT_ADDED, data);
            events.push(e);
            assert(events@.map_values(|e: Event| e@) =~= before.push(e@));
        }
        i = i + 1;
    }
    assert(cur.take(cur.len() as int) =~= cur);
    let ghost n_added = events@.len();
    let mut j: usize = 0;
    assert(prev.take(0) =~= Seq::<(Seq<char>, ContactInfo)>::empty());
    assert(added_events(cur, pairs_to_map(prev)) + removed_events(prev.take(0), pairs_to_map(cur))
        =~= added_events(cur, pairs_to_map(prev)));
    while j < previous.len()
        invariant
            j <= prev.len(),
            cur == current.pairs(),
            prev == previous.pairs(),
            crate::events::bus::new_events_of(
                events@.map_values(|e: Event| e@),
                added_events(cur, pairs_to_map(prev)) + removed_events(prev.take(j as int), pairs_to_map(cur)),
            ),
        decreases prev.len() - j,
    {
        assert(prev.take(j + 1).drop_last() =~= prev.take(j as int));
        assert(prev.take(j + 1).last() == prev[j as int]);
        let entry = previous.entry(j);
        if !current.contains_key(entry.key.as_str()) {
            let data = Payload::new().with("wxid", JsonValue::Str(entry.key.clone()));
            assert(data@ =~= seq![("wxid"@, JsonView::Str(prev[j as int].0))]);
            let ghost before = events@.map_values(|e: Event| e@);
            let e = Event::new(kinds::CONTACT_REMOVED, data);
            events.push(e);
            assert(events@.map_values(|e: Event| e@) =~= before.push(e@));
            let ghost a = added_events(cur, pairs_to_map(prev));
            let ghost r0 = removed_events(prev.take(j as int), pairs_to_map(cur));
            let ghost r1 = removed_events(prev.take(j + 1), pairs_to_map(cur));
            assert(a + r1 =~= (a + r0).push(r1.last()));
        } else {
            assert(removed_events(prev.take(j + 1), pairs_to_map(cur)) == removed_events(prev.take(j as int), pairs_to_map(cur)));
        }
        j = j + 1;
    }
    assert(prev.take(prev.len() as int) =~= prev);
    let ghost es = events@.map_values(|e: Event| e@);
    bus.publish_all(events);
    assert(published_all_new(*old(bus), *bus, diff_events(cur, prev)));
}

proof fn lemma_added_none(cur: Seq<(Seq<char>, ContactInfo)>, m: Map<Seq<char>, ContactInfo>)
    requires
        forall|i: int| 0 <= i < cur.len() ==> m.contains_key(#[trigger] cur[i].0),
    ensures
        added_events(cur, m) == Seq::<EventShape>::empty(),
    decreases cur.len(),
{
    if cur.len() > 0 {
        let prev = cur.drop_last();
        assert forall|i: int| 0 <= i < prev.len() implies m.contains_key(#[trigger] prev[i].0) by {
            assert(prev[i] == cur[i]);
        }
        lemma_added_none(prev, m);
        assert(m.contains_key(cur[cur.len() - 1].0));
    }
}

proof fn lemma_removed_none(prev: Seq<(Seq<char>, ContactInfo)>, m: Map<Seq<char>, ContactInfo>)
    requires
        forall|i: int| 0 <= i < prev.len() ==> m.contains_key(#[trigger] prev[i].0),
    ensures
        removed_events(prev, m) == Seq::<EventShape>::empty(),
    decreases prev.len(),
{
    if prev.len() > 0 {
        let p = prev.drop_last();
        assert forall|i: int| 0 <= i < p.len() implies m.contains_key(#[trigger] p[i].0) by {
            assert(p[i] == prev[i]);
        }
        lemma_removed_none(p, m);
        assert(m.contains_key(prev[prev.len() - 1].0));
    }
}

/// A contact list that did not change announces nothing.
pub proof fn law_unchanged_contacts_announce_nothing(snapshot: Seq<(Seq<char>, ContactInfo)>)
    ensures
        diff_events(snapshot, snapshot) == Seq::<EventShape>::empty(),
{
    let m = pairs_to_map(snapshot);
    assert forall|i: int| 0 <= i < snapshot.len() implies m.contains_key(#[trigger] snapshot[i].0) by {
        assert(has_key(snapshot, snapshot[i].0));
    }
    lemma_added_none(snapshot, m);
    lemma_removed_none(snapshot, m);
}

} // verus!
