//! The event bus: every published event goes to the live subscribers through
//! a broadcast channel and into a ring buffer of the latest events, from
//! which a reconnecting subscriber replays what it missed (at-least-once
//! delivery).

use crate::events::{is_new_event, Event, Payload, EventShape, EventView, JsonView};
use crate::text::lex_lt;
use std::collections::VecDeque;
use tokio::sync::broadcast::{Receiver, Sender};
use vstd::prelude::*;

verus! {

#[verifier::external_type_specification]
#[verifier::external_body]
#[verifier::reject_recursive_types(T)]
pub struct ExBroadcastSender<T>(tokio::sync::broadcast::Sender<T>);

#[verifier::external_type_specification]
#[verifier::external_body]
#[verifier::reject_recursive_types(T)]
pub struct ExBroadcastReceiver<T>(tokio::sync::broadcast::Receiver<T>);

/// The events sent on the channel of `sender`, in the order of the sends,
/// whether or not a receiver was there to take them. A receiver receives, in
/// this order, the sends made from its start on (see `receiver_start`), unless
/// it falls more than the channel's capacity behind.
pub uninterp spec fn channel_sends(sender: Sender<Event>) -> Seq<EventView>;

/// Which channel a sender sends on.
pub uninterp spec fn sender_channel(sender: Sender<Event>) -> int;

/// Which channel a receiver receives from.
pub uninterp spec fn receiver_channel(receiver: Receiver<Event>) -> int;

/// How many sends had been made on its channel when the receiver was made:
/// the first send it receives is the send at this position.
pub uninterp spec fn receiver_start(receiver: Receiver<Event>) -> nat;

/// Calls `tokio::sync::broadcast::channel(capacity)` and keeps its sender:
/// nothing has been sent on the new channel. tokio panics when `capacity` is
/// 0 or above `usize::MAX / 2`; those are left out.
#[verifier::external_body]
fn broadcast_sender(capacity: usize) -> (r: Sender<Event>)
    requires
        0 < capacity <= usize::MAX / 2,
    ensures
        channel_sends(r) == Seq::<EventView>::empty(),
{
    tokio::sync::broadcast::channel(capacity).0
}

/// Calls `tokio::sync::broadcast::Sender::send`: the event is the next send
/// on the sender's channel (tokio writes it at the channel's tail position for
/// every receiver; with no receiver it is handed back, and no receiver ever
/// sees it). The outcome is ignored as it is by every caller.
#[verifier::external_body]
fn broadcast_send(sender: &mut Sender<Event>, event: Event)
    ensures
        channel_sends(*final(sender)) == channel_sends(*old(sender)).push(event@),
        sender_channel(*final(sender)) == sender_channel(*old(sender)),
{
    let _ = sender.send(event);
}

/// Calls `tokio::sync::broadcast::Sender::subscribe`: a receiver on the
/// sender's channel that starts at the channel's tail, so it receives the
/// events sent after this call (tokio's `new_receiver` sets its position to
/// the tail).
#[verifier::external_body]
fn broadcast_subscribe(sender: &Sender<Event>) -> (r: Receiver<Event>)
    ensures
        receiver_channel(r) == sender_channel(*sender),
        receiver_start(r) == channel_sends(*sender).len(),
{
    sender.subscribe()
}

/// The ring after one publish: with a capacity of 0 nothing is kept; when the
/// ring is full its oldest event makes room.
pub open spec fn publish_ring(ring: Seq<EventView>, cap: nat, e: EventView) -> Seq<EventView> {
    if cap == 0 {
        ring
    } else if ring.len() >= cap {
        ring.drop_first().push(e)
    } else {
        ring.push(e)
    }
}

/// The ring after publishing `es` in order.
pub open spec fn publish_all(ring: Seq<EventView>, cap: nat, es: Seq<EventView>) -> Seq<
    EventView,
>
    decreases es.len(),
{
    if es.len() == 0 {
        ring
    } else {
        publish_ring(publish_all(ring, cap, es.drop_last()), cap, es.last())
    }
}

/// The first position at or after `i` of an event whose id is `id`.
pub open spec fn id_position_from(ring: Seq<EventView>, id: Seq<char>, i: int) -> Option<int>
    decreases ring.len() - i,
{
    if i < 0 || i >= ring.len() {
        None
    } else if ring[i].id == id {
        Some(i)
    } else {
        id_position_from(ring, id, i + 1)
    }
}

/// The first position of an event whose id is `id`.
pub open spec fn id_position(ring: Seq<EventView>, id: Seq<char>) -> Option<int> {
    id_position_from(ring, id, 0)
}

/// Whether some event of `ring` has the id `id`.
pub open spec fn has_id(ring: Seq<EventView>, id: Seq<char>) -> bool {
    exists|k: int| 0 <= k < ring.len() && ring[k].id == id
}

/// What a replay from the cursor `since` gives: nothing without a cursor; the
/// events after the cursor's event when it is in the ring; a gap naming the
/// oldest id when the cursor sorts before it; nothing otherwise.
pub open spec fn replay_result(ring: Seq<EventView>, since: Option<Seq<char>>) -> Result<
    Seq<EventView>,
    Seq<char>,
> {
    match since {
        None => Ok(Seq::empty()),
        Some(s) => match id_position(ring, s) {
            Some(i) => Ok(ring.skip(i + 1)),
            None => if ring.len() > 0 && lex_lt(s, ring[0].id) {
                Err(ring[0].id)
            } else {
                Ok(Seq::empty())
            },
        },
    }
}

/// The view of an optional string.
pub open spec fn opt_str_view(s: Option<&str>) -> Option<Seq<char>> {
    match s {
        Some(t) => Some(t@),
        None => None,
    }
}

/// The last `n` elements of `s`.
pub open spec fn last_n(s: Seq<EventView>, n: int) -> Seq<EventView> {
    s.subrange(s.len() - n, s.len() as int)
}

/// The smaller of two integers.
pub open spec fn min_int(a: int, b: int) -> int {
    if a <= b {
        a
    } else {
        b
    }
}

/// The ring keeps exactly the latest events: after publishing `es` into a
/// ring of capacity `cap` (at least 1) holding `ring`, it holds the last
/// `min(cap, |ring| + |es|)` events of `ring` followed by `es`.
pub proof fn law_ring_keeps_latest(ring: Seq<EventView>, cap: nat, es: Seq<EventView>)
    requires
        cap > 0,
        ring.len() <= cap,
    ensures
        publish_all(ring, cap, es) == last_n(
            ring + es,
            min_int(cap as int, (ring.len() + es.len()) as int),
        ),
        publish_all(ring, cap, es).len() <= cap,
    decreases es.len(),
{
    if es.len() == 0 {
        assert(ring + es =~= ring);
        assert(last_n(ring, ring.len() as int) =~= ring);
    } else {
        let prev = es.drop_last();
        law_ring_keeps_latest(ring, cap, prev);
        let p = publish_all(ring, cap, prev);
        let m = min_int(cap as int, (ring.len() + prev.len()) as int);
        assert(ring + es =~= (ring + prev).push(es.last()));
        if p.len() >= cap {
            assert(p.drop_first().push(es.last()) =~= last_n(ring + es, cap as int));
        } else {
            assert(p.push(es.last()) =~= last_n(ring + es, m + 1));
        }
    }
}

proof fn lemma_id_position_first(ring: Seq<EventView>, id: Seq<char>, i: int, p: int)
    requires
        0 <= i <= p < ring.len(),
        ring[p].id == id,
        forall|k: int| i <= k < p ==> ring[k].id != id,
    ensures
        id_position_from(ring, id, i) == Some(p),
    decreases p - i,
{
    if i < p {
        lemma_id_position_first(ring, id, i + 1, p);
    }
}

/// What a replay gives back of what was published: when the event `e`, with
/// an id that the ring does not hold yet, is published and then the events
/// `es`, and the ring has room for all of them, a replay from `e`'s id gives
/// exactly `es`, in order.
pub proof fn law_replay_after_publish(
    ring: Seq<EventView>,
    cap: nat,
    e: EventView,
    es: Seq<EventView>,
)
    requires
        ring.len() <= cap,
        es.len() + 1 <= cap,
        !has_id(ring, e.id),
    ensures
        replay_result(publish_all(ring, cap, seq![e] + es), Some(e.id)) == Ok::<
            Seq<EventView>,
            Seq<char>,
        >(es),
{
    let all = seq![e] + es;
    law_ring_keeps_latest(ring, cap, all);
    let fin = publish_all(ring, cap, all);
    let whole = ring + all;
    let m = min_int(cap as int, (ring.len() + all.len()) as int);
    let x = whole.len() - m;
    assert(fin =~= whole.subrange(x, whole.len() as int));
    let p = ring.len() - x;
    assert(fin[p] == e);
    assert forall|k: int| 0 <= k < p implies fin[k].id != e.id by {
        assert(fin[k] == ring[x + k]);
    }
    lemma_id_position_first(fin, e.id, 0, p);
    assert(fin.skip(p + 1) =~= es);
}

/// No two events of `s` share an id.
pub open spec fn distinct_ids(s: Seq<EventView>) -> bool {
    forall|i: int, j: int| 0 <= i < j < s.len() ==> s[i].id != s[j].id
}

proof fn lemma_id_position_none(ring: Seq<EventView>, id: Seq<char>, i: int)
    requires
        0 <= i,
        forall|k: int| i <= k < ring.len() ==> ring[k].id != id,
    ensures
        id_position_from(ring, id, i) is None,
    decreases ring.len() - i,
{
    if i < ring.len() {
        lemma_id_position_none(ring, id, i + 1);
    }
}

proof fn lemma_publish_all_zero(ring: Seq<EventView>, es: Seq<EventView>)
    ensures
        publish_all(ring, 0, es) == ring,
    decreases es.len(),
{
    if es.len() > 0 {
        lemma_publish_all_zero(ring, es.drop_last());
    }
}

/// Replay over the ring as publishing leaves it: after `es` are published
/// into a ring holding `ring` (ids all distinct), the ring is the window of
/// the latest `min(cap, |ring| + |es|)` events (nothing at all kept with
/// capacity 0); a replay from the id of the window's `j`-th event gives the
/// events after it in the window, in order; a replay from any id not in the
/// window gives a gap naming the window's oldest id exactly when the window
/// is not empty and the cursor sorts before that id, and nothing otherwise.
pub proof fn law_replay_window(ring: Seq<EventView>, cap: nat, es: Seq<EventView>)
    requires
        ring.len() <= cap,
        distinct_ids(ring + es),
    ensures
        cap > 0 ==> publish_all(ring, cap, es) == last_n(
            ring + es,
            min_int(cap as int, (ring.len() + es.len()) as int),
        ),
        cap == 0 ==> publish_all(ring, cap, es) == ring,
        forall|j: int|
            0 <= j < publish_all(ring, cap, es).len() ==> replay_result(
                publish_all(ring, cap, es),
                Some(#[trigger] publish_all(ring, cap, es)[j].id),
            ) == Ok::<Seq<EventView>, Seq<char>>(publish_all(ring, cap, es).skip(j + 1)),
        forall|s: Seq<char>|
            !has_id(publish_all(ring, cap, es), s) ==> #[trigger] replay_result(
                publish_all(ring, cap, es),
                Some(s),
            ) == if publish_all(ring, cap, es).len() > 0 && lex_lt(s, publish_all(ring, cap, es)[0].id) {
                Err::<Seq<EventView>, Seq<char>>(publish_all(ring, cap, es)[0].id)
            } else {
                Ok::<Seq<EventView>, Seq<char>>(Seq::empty())
            },
{
    let whole = ring + es;
    let w = publish_all(ring, cap, es);
    let x: int;
    if cap > 0 {
        law_ring_keeps_latest(ring, cap, es);
        x = whole.len() - min_int(cap as int, (ring.len() + es.len()) as int);
        assert(w =~= whole.subrange(x, whole.len() as int));
    } else {
        lemma_publish_all_zero(ring, es);
        x = 0;
        assert(w =~= whole.subrange(0, ring.len() as int));
    }
    assert(distinct_ids(w)) by {
        assert forall|i: int, j: int| 0 <= i < j < w.len() implies w[i].id != w[j].id by {
            assert(w[i] == whole[x + i] && w[j] == whole[x + j]);
        }
    }
    assert forall|j: int| 0 <= j < w.len() implies replay_result(w, Some(#[trigger] w[j].id))
        == Ok::<Seq<EventView>, Seq<char>>(w.skip(j + 1)) by {
        assert forall|k: int| 0 <= k < j implies w[k].id != w[j].id by {}
        lemma_id_position_first(w, w[j].id, 0, j);
    }
    assert forall|s: Seq<char>| !has_id(w, s) implies #[trigger] replay_result(w, Some(s)) == if w.len()
        > 0 && lex_lt(s, w[0].id) {
        Err::<Seq<EventView>, Seq<char>>(w[0].id)
    } else {
        Ok::<Seq<EventView>, Seq<char>>(Seq::empty())
    } by {
        assert forall|k: int| 0 <= k < w.len() implies w[k].id != s by {}
        lemma_id_position_none(w, s, 0);
    }
}

/// Without a cursor a replay gives nothing, whatever the ring holds.
pub proof fn law_replay_without_cursor(ring: Seq<EventView>)
    ensures
        replay_result(ring, None) == Ok::<Seq<EventView>, Seq<char>>(Seq::empty()),
{
}

/// `after` is `before` with one freshly created event of type `kind` carrying
/// `data` published into it.
pub open spec fn published_new(
    before: EventBus,
    after: EventBus,
    kind: Seq<char>,
    data: Seq<(Seq<char>, JsonView)>,
) -> bool {
    &&& after.capacity() == before.capacity()
    &&& after.channel() == before.channel()
    &&& exists|e: EventView|
        #![trigger publish_ring(before.ring_view(), before.capacity(), e)]
        {
            &&& is_new_event(e, kind, data)
            &&& after.ring_view() == publish_ring(before.ring_view(), before.capacity(), e)
            &&& after.sent() == before.sent().push(e)
        }
}

/// `es` are fresh events of the given types and payloads, in order.
pub open spec fn new_events_of(es: Seq<EventView>, shapes: Seq<EventShape>) -> bool {
    &&& es.len() == shapes.len()
    &&& forall|i: int|
        0 <= i < es.len() ==> is_new_event(#[trigger] es[i], shapes[i].kind, shapes[i].data)
}

/// `after` is `before` with fresh events of the given types and payloads
/// published into it, in order.
pub open spec fn published_all_new(before: EventBus, after: EventBus, shapes: Seq<EventShape>) -> bool {
    &&& after.capacity() == before.capacity()
    &&& after.channel() == before.channel()
    &&& exists|es: Seq<EventView>|
        #![trigger publish_all(before.ring_view(), before.capacity(), es)]
        {
            &&& new_events_of(es, shapes)
            &&& after.ring_view() == publish_all(before.ring_view(), before.capacity(), es)
            &&& after.sent() == before.sent() + es
        }
}

/// The events a receiver is due from a bus: those sent on the bus's channel
/// from the receiver's start on, in order (none for a receiver of another
/// channel).
pub open spec fn due_to(bus: EventBus, receiver: Receiver<Event>) -> Seq<EventView> {
    if receiver_channel(receiver) == bus.channel() && receiver_start(receiver) <= bus.sent().len() {
        bus.sent().skip(receiver_start(receiver) as int)
    } else {
        Seq::empty()
    }
}

/// A subscriber receives what is published after it subscribed: when fresh
/// events of the given types and payloads are published into a bus, a
/// receiver that subscribed to the bus before is due exactly those events, in
/// order (on top of whatever it was due already).
pub proof fn law_subscriber_receives_published(
    before: EventBus,
    after: EventBus,
    shapes: Seq<EventShape>,
    receiver: Receiver<Event>,
)
    requires
        published_all_new(before, after, shapes),
        receiver_channel(receiver) == before.channel(),
        receiver_start(receiver) <= before.sent().len(),
    ensures
        exists|es: Seq<EventView>|
            #![trigger new_events_of(es, shapes)]
            new_events_of(es, shapes) && due_to(after, receiver) == due_to(before, receiver) + es,
{
    let es = choose|es: Seq<EventView>|
        #![trigger publish_all(before.ring_view(), before.capacity(), es)]
        {
            &&& new_events_of(es, shapes)
            &&& after.ring_view() == publish_all(before.ring_view(), before.capacity(), es)
            &&& after.sent() == before.sent() + es
        };
    let k = receiver_start(receiver) as int;
    assert(after.sent().skip(k) =~= before.sent().skip(k) + es);
    assert(new_events_of(es, shapes));
}

/// The same for one published event: a receiver that subscribed before is
/// due that event next.
pub proof fn law_subscriber_receives_new_event(
    before: EventBus,
    after: EventBus,
    kind: Seq<char>,
    data: Seq<(Seq<char>, JsonView)>,
    receiver: Receiver<Event>,
)
    requires
        published_new(before, after, kind, data),
        receiver_channel(receiver) == before.channel(),
        receiver_start(receiver) <= before.sent().len(),
    ensures
        exists|e: EventView|
            #![trigger is_new_event(e, kind, data)]
            is_new_event(e, kind, data) && due_to(after, receiver) == due_to(before, receiver).push(e),
{
    let e = choose|e: EventView|
        #![trigger publish_ring(before.ring_view(), before.capacity(), e)]
        {
            &&& is_new_event(e, kind, data)
            &&& after.ring_view() == publish_ring(before.ring_view(), before.capacity(), e)
            &&& after.sent() == before.sent().push(e)
        };
    let k = receiver_start(receiver) as int;
    assert(after.sent().skip(k) =~= before.sent().skip(k).push(e));
    assert(is_new_event(e, kind, data));
}

/// A replay cursor older than everything the ring still holds.
#[derive(Debug)]
pub struct ReplayGap {
    pub earliest_in_buffer: String,
}

/// The latest events, never more than `capacity` of them.
struct EventRing {
    events: VecDeque<Event>,
    capacity: usize,
}

impl EventRing {
    #[verifier::type_invariant]
    spec fn within_capacity(self) -> bool {
        self.events@.len() <= self.capacity
    }

    spec fn events_view(self) -> Seq<EventView> {
        self.events@.map_values(|e: Event| e@)
    }

    /// Keeps `event`, evicting the oldest event when full; keeps nothing
    /// with a capacity of 0.
    fn push(&mut self, event: Event)
        ensures
            final(self).capacity == old(self).capacity,
            final(self).events_view() == publish_ring(
                old(self).events_view(),
                old(self).capacity as nat,
                event@,
            ),
    {
        proof {
            use_type_invariant(&*self);
        }
        let ghost old_ring = self.events_view();
        if self.capacity > 0 {
            let mut ring: VecDeque<Event> = VecDeque::new();
            std::mem::swap(&mut ring, &mut self.events);
            if ring.len() >= self.capacity {
                let _ = ring.pop_front();
            }
            ring.push_back(event);
            self.events = ring;
            assert(self.events_view() =~= publish_ring(old_ring, self.capacity as nat, event@));
        }
    }
}

/// The broadcast channel plus the ring of the latest events.
pub struct EventBus {
    sender: Sender<Event>,
    ring: EventRing,
}

impl EventBus {
    /// The events the ring holds, oldest first.
    pub closed spec fn ring_view(self) -> Seq<EventView> {
        self.ring.events_view()
    }

    /// How many events the ring keeps.
    pub closed spec fn capacity(self) -> nat {
        self.ring.capacity as nat
    }

    /// The events sent to subscribers so far, in order.
    pub closed spec fn sent(self) -> Seq<EventView> {
        channel_sends(self.sender)
    }

    /// The bus's broadcast channel.
    pub closed spec fn channel(self) -> int {
        sender_channel(self.sender)
    }

    /// A bus whose channel buffers `broadcast_capacity` events per lagging
    /// subscriber and whose ring keeps the latest `ring_capacity` events.
    pub fn new(broadcast_capacity: usize, ring_capacity: usize) -> (r: EventBus)
        requires
            0 < broadcast_capacity <= usize::MAX / 2,
        ensures
            r.ring_view() == Seq::<EventView>::empty(),
            r.capacity() == ring_capacity,
            r.sent() == Seq::<EventView>::empty(),
    {
        let sender = broadcast_sender(broadcast_capacity);
        let r = EventBus { sender, ring: EventRing { events: VecDeque::with_capacity(ring_capacity), capacity: ring_capacity } };
        assert(r.ring_view() =~= Seq::<EventView>::empty());
        r
    }

    /// Publishes `event`: it enters the ring, evicting the oldest event when
    /// the ring is full, and goes to every live subscriber.
    pub fn publish(&mut self, event: Event)
        ensures
            final(self).capacity() == old(self).capacity(),
            final(self).ring_view() == publish_ring(
                old(self).ring_view(),
                old(self).capacity(),
                event@,
            ),
            final(self).sent() == old(self).sent().push(event@),
            final(self).channel() == old(self).channel(),
            final(self).ring_view().len() <= final(self).capacity(),
    {
        if self.ring.capacity > 0 {
            let copy = event.clone();
            self.ring.push(copy);
        }
        broadcast_send(&mut self.sender, event);
        proof {
            use_type_invariant(&self.ring);
        }
    }

    /// Publishes a fresh event of type `kind` carrying `data`.
    pub fn publish_new(&mut self, kind: &str, data: Payload)
        ensures
            published_new(*old(self), *final(self), kind@, data@),
    {
        let e = Event::new(kind, data);
        let ghost ev = e@;
        self.publish(e);
        assert(is_new_event(ev, kind@, data@));
    }

    /// Publishes `events` in order.
    pub fn publish_all(&mut self, events: Vec<Event>)
        ensures
            final(self).capacity() == old(self).capacity(),
            final(self).ring_view() == publish_all(
                old(self).ring_view(),
                old(self).capacity(),
                events@.map_values(|e: Event| e@),
            ),
            final(self).sent() == old(self).sent() + events@.map_values(|e: Event| e@),
            final(self).channel() == old(self).channel(),
    {
        let ghost es = events@.map_values(|e: Event| e@);
        let ghost start = self.ring_view();
        let mut i: usize = 0;
        let n = events.len();
        assert(es.take(0) =~= Seq::<EventView>::empty());
        while i < n
            invariant
                i <= n,
                n == es.len(),
                self.capacity() == old(self).capacity(),
                start == old(self).ring_view(),
                self.ring_view() == publish_all(start, self.capacity(), es.take(i as int)),
                self.sent() == old(self).sent() + es.take(i as int),
                self.channel() == old(self).channel(),
                es == events@.map_values(|e: Event| e@),
            decreases n - i,
        {
            assert(es.take(i + 1).drop_last() =~= es.take(i as int));
            let e = events[i].clone();
            assert(e@ == es[i as int]);
            self.publish(e);
            assert(old(self).sent() + es.take(i + 1) =~= (old(self).sent() + es.take(i as int)).push(es[i as int]));
            i = i + 1;
        }
        assert(es.take(n as int) =~= es);
    }

    /// A receiver on the bus's channel of the events published after this
    /// call: it starts at the current end of what was sent.
    pub fn subscribe(&self) -> (r: Receiver<Event>)
        ensures
            receiver_channel(r) == self.channel(),
            receiver_start(r) == self.sent().len(),
    {
        broadcast_subscribe(&self.sender)
    }

    /// How many events the ring holds.
    pub fn ring_len(&self) -> (r: usize)
        ensures
            r == self.ring_view().len(),
    {
        self.ring.events.len()
    }

    /// The events published after the one with id `since`, oldest first.
    pub fn replay_since(&self, since: Option<&str>) -> (r: Result<Vec<Event>, ReplayGap>)
        ensures
            match r {
                Ok(v) => replay_result(self.ring_view(), opt_str_view(since)) == Ok::<
                    Seq<EventView>,
                    Seq<char>,
                >(v@.map_values(|e: Event| e@)),
                Err(g) => replay_result(self.ring_view(), opt_str_view(since)) == Err::<
                    Seq<EventView>,
                    Seq<char>,
                >(g.earliest_in_buffer@),
            },
    {
        let ghost ring = self.ring_view();
        let cursor = match since {
            None => {
                let v: Vec<Event> = Vec::new();
                assert(v@.map_values(|e: Event| e@) =~= Seq::<EventView>::empty());
                return Ok(v);
            },
            Some(c) => c,
        };
        let n = self.ring.events.len();
        let mut i: usize = 0;
        while i < n
            invariant
                i <= n,
                n == ring.len(),
                ring == self.ring_view(),
                id_position(ring, cursor@) == id_position_from(ring, cursor@, i as int),
                opt_str_view(since) == Some(cursor@),
            decreases n - i,
        {
            assert(ring[i as int] == self.ring.events@[i as int]@);
            if crate::text::str_eq(self.ring.events[i].id.as_str(), cursor) {
                assert(id_position_from(ring, cursor@, i as int) == Some(i as int));
                let mut out: Vec<Event> = Vec::new();
                let mut k: usize = i + 1;
                assert(out@.map_values(|e: Event| e@) =~= ring.subrange(i + 1, k as int));
                while k < n
                    invariant
                        i < k <= n,
                        n == ring.len(),
                        ring == self.ring_view(),
                        out@.map_values(|e: Event| e@) == ring.subrange(i + 1, k as int),
                        id_position(ring, cursor@) == Some(i as int),
                        out@.len() == k - (i + 1),
                        opt_str_view(since) == Some(cursor@),
                    decreases n - k,
                {
                    let e = self.ring.events[k].clone();
                    assert(e@ == ring[k as int]);
                    let ghost before = out@;
                    out.push(e);
                    assert(out@ == before.push(e));
                    assert forall|j: int| 0 <= j < out@.len() implies #[trigger] out@[j]@ == ring.subrange(i + 1, k + 1)[j] by {
                        if j < before.len() {
                            assert(before.map_values(|e: Event| e@)[j] == ring.subrange(i + 1, k as int)[j]);
                        }
                    }
                    assert(out@.map_values(|e: Event| e@) =~= ring.subrange(i + 1, k + 1));
                    k = k + 1;
                }
                assert(ring.skip(i + 1) =~= ring.subrange(i + 1, n as int));
                assert(opt_str_view(since) == Some(cursor@));
                assert(replay_result(ring, Some(cursor@)) == Ok::<Seq<EventView>, Seq<char>>(
                    ring.skip(i + 1),
                ));
                return Ok(out);
            }
            i = i + 1;
        }
        if n > 0 {
            assert(ring[0] == self.ring.events@[0]@);
        }
        if n > 0 && crate::text::str_lt(cursor, self.ring.events[0].id.as_str()) {
            return Err(ReplayGap { earliest_in_buffer: self.ring.events[0].id.clone() });
        }
        let v: Vec<Event> = Vec::new();
        assert(v@.map_values(|e: Event| e@) =~= Seq::<EventView>::empty());
        Ok(v)
    }
}

} // verus!
