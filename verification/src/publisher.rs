use vstd::prelude::*;

use std::collections::{HashMap, VecDeque};

use crate::event::EventView;
use crate::types::{Event, WsIdentifyBody, WsOp};

verus! {

/// The values of a sequence of events.
pub open spec fn events_view(es: Seq<Event>) -> Seq<EventView> {
    es.map_values(|e: Event| e.view())
}

/// The events of `es` whose serial number is above `sn`, in order.
pub open spec fn events_after(es: Seq<EventView>, sn: u32) -> Seq<EventView>
    decreases es.len(),
{
    if es.len() == 0 {
        Seq::empty()
    } else {
        let prev = events_after(es.drop_last(), sn);
        if es.last().sn > sn {
            prev.push(es.last())
        } else {
            prev
        }
    }
}

/// An event with another serial number.
pub open spec fn with_sn(v: EventView, sn: u32) -> EventView {
    EventView {
        sn,
        event_type: v.event_type,
        timestamp: v.timestamp,
        login: v.login,
        argv: v.argv,
        button: v.button,
        channel: v.channel,
        guild: v.guild,
        member: v.member,
        message: v.message,
        operator: v.operator,
        role: v.role,
        user: v.user,
    }
}

/// The most events a queue of the given capacity holds: the capacity, and at least the
/// last event.
pub open spec fn queue_bound(capacity: usize) -> nat {
    if capacity == 0 {
        1
    } else {
        capacity as nat
    }
}

/// What a queue of the given capacity keeps after one more event: the oldest event
/// leaves where the queue is full, and the new one comes last.
pub open spec fn send_step(es: Seq<EventView>, capacity: usize, e: EventView) -> Seq<EventView> {
    (if es.len() >= capacity && es.len() > 0 {
        es.drop_first()
    } else {
        es
    }).push(e)
}

/// The events `evs` as a new queue gives them out: the `i`-th gets serial number `i`.
pub open spec fn numbered(evs: Seq<EventView>) -> Seq<EventView> {
    Seq::new(evs.len(), |i: int| with_sn(evs[i], i as u32))
}

/// What a new queue of the given capacity keeps after the events `evs` were sent into it,
/// one after the other.
pub open spec fn sent_into_new(capacity: usize, evs: Seq<EventView>) -> Seq<EventView>
    decreases evs.len(),
{
    if evs.len() == 0 {
        Seq::empty()
    } else {
        let k = (evs.len() - 1) as int;
        send_step(sent_into_new(capacity, evs.drop_last()), capacity, with_sn(evs.last(), k as u32))
    }
}

/// How many of `k` sent events a queue of the given capacity still keeps.
pub open spec fn kept_count(capacity: usize, k: int) -> int {
    if k < queue_bound(capacity) {
        k
    } else {
        queue_bound(capacity) as int
    }
}

/// The events published so far, as far as they are kept for clients that reconnect: each
/// event gets the next serial number, and the oldest events leave once the queue is full.
pub struct EventQueue {
    events: VecDeque<Event>,
    next_sn: u32,
    capacity: usize,
}

impl EventQueue {
    /// The kept events, oldest first.
    pub closed spec fn events(&self) -> Seq<EventView> {
        events_view(self.events@)
    }

    /// The serial number that the next event gets.
    pub closed spec fn next_sn(&self) -> u32 {
        self.next_sn
    }

    /// How many events the queue keeps.
    pub closed spec fn capacity(&self) -> usize {
        self.capacity
    }

    /// The queue keeps at most `queue_bound(capacity)` events, their serial numbers rise
    /// from the oldest to the newest, and all lie below the next one.
    pub open spec fn wf(&self) -> bool {
        &&& self.events().len() <= queue_bound(self.capacity())
        &&& forall|i: int, j: int|
            0 <= i < j < self.events().len() ==> #[trigger] self.events()[i].sn < #[trigger] self.events()[j].sn
        &&& forall|i: int| 0 <= i < self.events().len() ==> #[trigger] self.events()[i].sn < self.next_sn()
    }

    /// An empty queue that keeps `capacity` events.
    pub fn new(capacity: usize) -> (q: EventQueue)
        ensures
            q.wf(),
            q.events() == Seq::<EventView>::empty(),
            q.next_sn() == 0,
            q.capacity() == capacity,
    {
        let q = EventQueue { events: VecDeque::new(), next_sn: 0, capacity };
        assert(q.events() =~= Seq::<EventView>::empty());
        q
    }

    /// Whether another serial number is left to give (the next one is below `u32::MAX`).
    pub fn sn_available(&self) -> (r: bool)
        ensures
            r == (self.next_sn() < u32::MAX),
    {
        self.next_sn < u32::MAX
    }

    /// Gives the event the next serial number and keeps it, dropping the oldest event
    /// where the queue is full; returns the event as it was kept.
    pub fn send(&mut self, event: Event) -> (r: Event)
        requires
            old(self).wf(),
            old(self).next_sn() < u32::MAX,
        ensures
            final(self).wf(),
            r.view() == with_sn(event.view(), old(self).next_sn()),
            final(self).next_sn() == old(self).next_sn() + 1,
            final(self).capacity() == old(self).capacity(),
            final(self).events() == send_step(old(self).events(), old(self).capacity(), r.view()),
    {
        let ghost old_events = self.events@;
        let mut event = event;
        event.sn = self.next_sn;
        self.next_sn = self.next_sn + 1;
        if self.events.len() >= self.capacity {
            let _ = self.events.pop_front();
            proof {
                if old_events.len() > 0 {
                    assert(events_view(self.events@) =~= events_view(old_events).drop_first());
                } else {
                    assert(events_view(old_events) =~= Seq::<EventView>::empty());
                    assert(events_view(self.events@) =~= Seq::<EventView>::empty());
                }
            }
        }
        let ghost kept = self.events@;
        let copy = event.duplicate();
        self.events.push_back(event);
        assert(events_view(self.events@) =~= events_view(kept).push(event.view()));
        copy
    }

    /// The kept events whose serial number is above `sn`, oldest first: what a client that
    /// saw the events up to `sn` has missed.
    pub fn get_events_from(&self, sn: u32) -> (r: Vec<Event>)
        ensures
            events_view(r@) == events_after(self.events(), sn),
    {
        let mut out: Vec<Event> = Vec::new();
        let ghost es = self.events();
        let mut i: usize = 0;
        assert(es.take(0) =~= Seq::<EventView>::empty());
        assert(events_view(out@) =~= Seq::<EventView>::empty());
        while i < self.events.len()
            invariant
                i <= self.events@.len(),
                es == self.events(),
                es.len() == self.events@.len(),
                events_view(out@) == events_after(es.take(i as int), sn),
            decreases self.events@.len() - i,
        {
            let e = &self.events[i];
            assert(es.take(i + 1).drop_last() =~= es.take(i as int));
            assert(es[i as int] == e.view());
            if e.sn > sn {
                let ghost before = out@;
                out.push(e.duplicate());
                assert(events_view(out@) =~= events_view(before).push(e.view()));
            }
            i = i + 1;
        }
        assert(es.take(es.len() as int) =~= es);
        out
    }
}

/// A replay gives only events newer than `sn`, keeps their order, misses none of them,
/// and gives everything where all kept events are newer.
pub proof fn lemma_events_after(es: Seq<EventView>, sn: u32)
    ensures
        forall|i: int| 0 <= i < events_after(es, sn).len() ==> #[trigger] events_after(es, sn)[i].sn > sn,
        forall|i: int| 0 <= i < es.len() && #[trigger] es[i].sn > sn ==> events_after(es, sn).contains(es[i]),
        events_after(es, sn).len() <= es.len(),
        (forall|i: int| 0 <= i < es.len() ==> #[trigger] es[i].sn > sn) ==> events_after(es, sn) == es,
    decreases es.len(),
{
    if es.len() > 0 {
        let d = es.drop_last();
        lemma_events_after(d, sn);
        let prev = events_after(d, sn);
        assert forall|i: int| 0 <= i < es.len() && #[trigger] es[i].sn > sn implies events_after(
            es,
            sn,
        ).contains(es[i]) by {
            if i < d.len() {
                assert(d[i] == es[i]);
                let k = choose|k: int| 0 <= k < prev.len() && prev[k] == d[i];
                if es.last().sn > sn {
                    assert(prev.push(es.last())[k] == es[i]);
                }
            } else {
                assert(es[i] == es.last());
                assert(prev.push(es.last())[prev.len() as int] == es[i]);
            }
        }
        if forall|i: int| 0 <= i < es.len() ==> #[trigger] es[i].sn > sn {
            assert forall|i: int| 0 <= i < d.len() implies #[trigger] d[i].sn > sn by {
                assert(d[i] == es[i]);
            }
            assert(es.last() == es[es.len() - 1]);
            assert(es =~= d.push(es.last()));
        }
    }
}

proof fn lemma_sent_into_new(capacity: usize, evs: Seq<EventView>)
    requires
        evs.len() <= u32::MAX,
    ensures
        sent_into_new(capacity, evs) == numbered(evs).skip(evs.len() - kept_count(capacity, evs.len() as int)),
    decreases evs.len(),
{
    if evs.len() > 0 {
        let d = evs.drop_last();
        let k = evs.len() as int;
        lemma_sent_into_new(capacity, d);
        let pre = sent_into_new(capacity, d);
        let n = numbered(evs);
        assert(numbered(d) =~= n.drop_last());
        assert(n.last() == with_sn(evs.last(), (k - 1) as u32));
        let m1 = kept_count(capacity, k - 1);
        assert(pre.len() == m1);
        if pre.len() >= capacity && pre.len() > 0 {
            assert(send_step(pre, capacity, n.last()) =~= n.skip(k - kept_count(capacity, k)));
        } else {
            assert(send_step(pre, capacity, n.last()) =~= n.skip(k - kept_count(capacity, k)));
        }
    }
}

proof fn lemma_numbered_after(evs: Seq<EventView>, a: int, k: int, s: u32)
    requires
        evs.len() <= u32::MAX,
        0 <= a <= k <= evs.len(),
    ensures
        events_after(numbered(evs).subrange(a, k), s) == numbered(evs).subrange(
            if a < s + 1 { if s + 1 < k { s + 1 } else { k } } else { a },
            k,
        ),
    decreases k - a,
{
    let n = numbered(evs);
    if a < k {
        lemma_numbered_after(evs, a, k - 1, s);
        assert(n.subrange(a, k).drop_last() =~= n.subrange(a, k - 1));
        assert(n.subrange(a, k).last() == n[k - 1]);
        assert(n[k - 1].sn == (k - 1) as u32);
        let lo = if a < s + 1 { if s + 1 < k - 1 { s + 1 } else { k - 1 } } else { a };
        if k - 1 > s {
            assert(n.subrange(lo, k - 1).push(n[k - 1]) =~= n.subrange(lo, k));
        } else {
            assert(n.subrange(k - 1, k - 1) =~= n.subrange(k, k));
        }
    } else {
        assert(n.subrange(a, k) =~= Seq::<EventView>::empty());
    }
}

/// Event recovery: after `k` events were sent into a new queue of capacity `n`, the queue
/// keeps the last `min(k, n)` of them (at least the last one), numbered from 0 in the
/// order they were sent, and a client that saw up to `sn` gets back, in order, exactly
/// those kept ones numbered above `sn`.
pub proof fn lemma_event_recovery(capacity: usize, evs: Seq<EventView>, sn: u32)
    requires
        evs.len() <= u32::MAX,
    ensures
        sent_into_new(capacity, evs) == numbered(evs).skip(evs.len() - kept_count(capacity, evs.len() as int)),
        events_after(sent_into_new(capacity, evs), sn) == numbered(evs).subrange(
            if evs.len() - kept_count(capacity, evs.len() as int) < sn + 1 {
                if sn + 1 < evs.len() { sn + 1 } else { evs.len() as int }
            } else {
                evs.len() - kept_count(capacity, evs.len() as int)
            },
            evs.len() as int,
        ),
{
    lemma_sent_into_new(capacity, evs);
    let a = evs.len() - kept_count(capacity, evs.len() as int);
    assert(numbered(evs).skip(a) =~= numbered(evs).subrange(a, evs.len() as int));
    lemma_numbered_after(evs, a, evs.len() as int, sn);
}

/// How many of the events carry a serial number up to `sn`.
pub open spec fn count_upto(es: Seq<EventView>, sn: u32) -> int
    decreases es.len(),
{
    if es.len() == 0 {
        0
    } else {
        count_upto(es.drop_last(), sn) + if es.last().sn <= sn {
            1int
        } else {
            0int
        }
    }
}

proof fn lemma_all_old(es: Seq<EventView>, sn: u32)
    requires
        forall|i: int| 0 <= i < es.len() ==> #[trigger] es[i].sn <= sn,
    ensures
        events_after(es, sn) == Seq::<EventView>::empty(),
        count_upto(es, sn) == es.len(),
    decreases es.len(),
{
    if es.len() > 0 {
        let d = es.drop_last();
        assert forall|i: int| 0 <= i < d.len() implies #[trigger] d[i].sn <= sn by {
            assert(d[i] == es[i]);
        }
        assert(es.last() == es[es.len() - 1]);
        lemma_all_old(d, sn);
    }
}

/// In a queue, whose serial numbers rise, the events a client missed are the newest
/// ones: all kept events after the first `count_upto` of them.
pub proof fn lemma_replay_is_suffix(q: &EventQueue, sn: u32)
    requires
        q.wf(),
    ensures
        events_after(q.events(), sn) == q.events().skip(count_upto(q.events(), sn)),
{
    lemma_rising_replay_suffix(q.events(), sn);
}

proof fn lemma_rising_replay_suffix(es: Seq<EventView>, sn: u32)
    requires
        forall|i: int, j: int| 0 <= i < j < es.len() ==> #[trigger] es[i].sn < #[trigger] es[j].sn,
    ensures
        0 <= count_upto(es, sn) <= es.len(),
        events_after(es, sn) == es.skip(count_upto(es, sn)),
    decreases es.len(),
{
    if es.len() == 0 {
        assert(es.skip(0) =~= es);
    } else {
        let d = es.drop_last();
        let l = es.last();
        assert(l == es[es.len() - 1]);
        assert forall|i: int, j: int| 0 <= i < j < d.len() implies #[trigger] d[i].sn < #[trigger] d[j].sn by {
            assert(d[i] == es[i] && d[j] == es[j]);
        }
        lemma_rising_replay_suffix(d, sn);
        if l.sn > sn {
            assert(es.skip(count_upto(d, sn)) =~= d.skip(count_upto(d, sn)).push(l));
        } else {
            assert forall|i: int| 0 <= i < d.len() implies #[trigger] d[i].sn <= sn by {
                assert(d[i] == es[i]);
            }
            lemma_all_old(d, sn);
            assert(es.skip(es.len() as int) =~= Seq::<EventView>::empty());
        }
    }
}

/// Whether a client token is accepted: every token is when none is configured; else the
/// token must be given and equal the configured one.
pub open spec fn token_accepted(expected: Seq<char>, token: Option<Seq<char>>) -> bool {
    expected.len() == 0 || token == Some(expected)
}

/// With no token configured every client is accepted, and a client that gives the
/// configured token is accepted.
pub proof fn lemma_token_accepted(expected: Seq<char>, token: Option<Seq<char>>)
    ensures
        expected.len() == 0 ==> token_accepted(expected, token),
        token == Some(expected) ==> token_accepted(expected, token),
        expected.len() > 0 && token != Some(expected) ==> !token_accepted(expected, token),
{
}

/// Checks a client token against the configured one (`expected`).
pub fn authorize_token(expected: &str, token: &Option<String>) -> (r: bool)
    ensures
        r == token_accepted(expected@, crate::convert::opt_view(*token)),
{
    if expected.unicode_len() == 0 {
        true
    } else {
        match token {
            Some(t) => crate::text::str_eq(t.as_str(), expected),
            None => false,
        }
    }
}

/// How long a client may stay silent before it counts as gone: 30 seconds, in
/// nanoseconds.
pub const HEARTBEAT_TIMEOUT_NANOS: u64 = 30_000_000_000;

/// The time left before a client whose last PING came at `last` counts as gone, at time
/// `now` (nanoseconds on a monotonic clock); none where no PING came or the time is up.
pub open spec fn heartbeat_left(last: Option<u64>, now: u64) -> Option<u64> {
    match last {
        Some(t) => {
            let elapsed: int = if now >= t {
                now - t
            } else {
                0
            };
            if elapsed > HEARTBEAT_TIMEOUT_NANOS {
                None
            } else {
                Some((HEARTBEAT_TIMEOUT_NANOS - elapsed) as u64)
            }
        },
        None => None,
    }
}

/// After a PING at `t`, a client is given until `t` plus 30 seconds: at any time up to
/// then, the time left is what remains to that deadline; after it, the client is gone; a
/// client that never sent a PING is gone at once.
pub proof fn lemma_heartbeat_deadline(t: u64, now: u64)
    ensures
        t <= now <= t + 30_000_000_000u64 ==> heartbeat_left(Some(t), now) == Some(
            (t + 30_000_000_000u64 - now) as u64,
        ),
        now > t + 30_000_000_000u64 ==> heartbeat_left(Some(t), now) is None,
        now < t ==> heartbeat_left(Some(t), now) == Some(30_000_000_000u64),
        heartbeat_left(None, now) is None,
{
}

/// What the server knows of one WebSocket client.
pub struct ClientState {
    pub authorized: bool,
    /// When the last PING came (nanoseconds on a monotonic clock).
    pub last_heartbeat: Option<u64>,
}

/// What to do with an IDENTIFY signal.
pub enum IdentifyOutcome {
    /// The client was authorized before: nothing to do.
    AlreadyAuthorized,
    /// The token is accepted: send READY, then the events after `recover_from` if given.
    Accepted { recover_from: Option<u32> },
    /// The token is refused: close the connection.
    Rejected,
}

impl ClientState {
    /// A client that has sent nothing yet.
    pub fn new() -> (s: ClientState)
        ensures
            !s.authorized,
            s.last_heartbeat is None,
    {
        ClientState { authorized: false, last_heartbeat: None }
    }

    /// The time left before the client counts as gone.
    pub fn check_heartbeat(&self, now: u64) -> (r: Option<u64>)
        ensures
            r == heartbeat_left(self.last_heartbeat, now),
    {
        match self.last_heartbeat {
            Some(t) => {
                let elapsed: u64 = if now >= t {
                    now - t
                } else {
                    0
                };
                if elapsed > HEARTBEAT_TIMEOUT_NANOS {
                    None
                } else {
                    Some(HEARTBEAT_TIMEOUT_NANOS - elapsed)
                }
            },
            None => None,
        }
    }

    /// Handles an IDENTIFY signal: a client is authorized once, by an accepted token.
    pub fn identify(&mut self, expected_token: &str, body: &WsIdentifyBody) -> (r: IdentifyOutcome)
        ensures
            old(self).authorized ==> r is AlreadyAuthorized && *final(self) == *old(self),
            !old(self).authorized && token_accepted(expected_token@, crate::convert::opt_view(body.token))
                ==> r == (IdentifyOutcome::Accepted { recover_from: body.sn }) && final(self).authorized
                && final(self).last_heartbeat == old(self).last_heartbeat,
            !old(self).authorized && !token_accepted(expected_token@, crate::convert::opt_view(body.token))
                ==> r is Rejected && *final(self) == *old(self),
    {
        if self.authorized {
            IdentifyOutcome::AlreadyAuthorized
        } else if authorize_token(expected_token, &body.token) {
            self.authorized = true;
            IdentifyOutcome::Accepted { recover_from: body.sn }
        } else {
            IdentifyOutcome::Rejected
        }
    }

    /// Records a PING at time `now`.
    pub fn ping(&mut self, now: u64)
        ensures
            final(self).authorized == old(self).authorized,
            final(self).last_heartbeat == Some(now),
    {
        self.last_heartbeat = Some(now);
    }
}


/// Places `x` in an id-ordered sequence, after every item whose id is not greater.
pub open spec fn insert_by_id<M>(sorted: Seq<(i32, M)>, x: (i32, M)) -> Seq<(i32, M)>
    decreases sorted.len(),
{
    if sorted.len() == 0 || sorted.last().0 <= x.0 {
        sorted.push(x)
    } else {
        insert_by_id(sorted.drop_last(), x).push(sorted.last())
    }
}

/// The items ordered by id; items with equal ids keep their order.
pub open spec fn sort_by_id<M>(s: Seq<(i32, M)>) -> Seq<(i32, M)>
    decreases s.len(),
{
    if s.len() == 0 {
        s
    } else {
        insert_by_id(sort_by_id(s.drop_last()), s.last())
    }
}

proof fn lemma_insert_at<M>(sorted: Seq<(i32, M)>, x: (i32, M), j: int)
    requires
        0 <= j <= sorted.len(),
        forall|k: int| j <= k < sorted.len() ==> (#[trigger] sorted[k]).0 > x.0,
        j == 0 || sorted[j - 1].0 <= x.0,
    ensures
        insert_by_id(sorted, x) == sorted.take(j).push(x) + sorted.skip(j),
    decreases sorted.len(),
{
    if j == sorted.len() {
        assert(sorted.take(j) =~= sorted);
        assert(sorted.skip(j) =~= Seq::<(i32, M)>::empty());
        assert(sorted.take(j).push(x) + sorted.skip(j) =~= sorted.push(x));
    } else {
        let d = sorted.drop_last();
        assert(sorted.last() == sorted[sorted.len() - 1]);
        lemma_insert_at(d, x, j);
        assert(d.take(j) =~= sorted.take(j));
        assert((d.take(j).push(x) + d.skip(j)).push(sorted.last()) =~= sorted.take(j).push(x) + sorted.skip(j));
    }
}

/// The ids of the items never decrease.
pub open spec fn id_sorted<M>(s: Seq<(i32, M)>) -> bool {
    forall|i: int, j: int| #![trigger s[i], s[j]] 0 <= i < j < s.len() ==> s[i].0 <= s[j].0
}

proof fn lemma_insert_bounded<M>(s: Seq<(i32, M)>, x: (i32, M), b: i32)
    requires
        forall|i: int| 0 <= i < s.len() ==> (#[trigger] s[i]).0 <= b,
        x.0 <= b,
    ensures
        forall|k: int| 0 <= k < insert_by_id(s, x).len() ==> (#[trigger] insert_by_id(s, x)[k]).0 <= b,
        insert_by_id(s, x).len() == s.len() + 1,
    decreases s.len(),
{
    if s.len() == 0 || s.last().0 <= x.0 {
        assert forall|k: int| 0 <= k < s.push(x).len() implies (#[trigger] s.push(x)[k]).0 <= b by {
            if k < s.len() {
                assert(s.push(x)[k] == s[k]);
            }
        }
    } else {
        let d = s.drop_last();
        assert forall|i: int| 0 <= i < d.len() implies (#[trigger] d[i]).0 <= b by {
            assert(d[i] == s[i]);
        }
        lemma_insert_bounded(d, x, b);
        let r = insert_by_id(d, x);
        assert(s.last() == s[s.len() - 1]);
        assert forall|k: int| 0 <= k < r.push(s.last()).len() implies (#[trigger] r.push(s.last())[k]).0 <= b by {
            if k < r.len() {
                assert(r.push(s.last())[k] == r[k]);
            }
        }
    }
}

proof fn lemma_insert_sorted<M>(s: Seq<(i32, M)>, x: (i32, M))
    requires
        id_sorted(s),
    ensures
        id_sorted(insert_by_id(s, x)),
        insert_by_id(s, x).to_multiset() == s.to_multiset().insert(x),
        insert_by_id(s, x).len() == s.len() + 1,
    decreases s.len(),
{
    broadcast use vstd::seq_lib::group_to_multiset_ensures;

    if s.len() == 0 || s.last().0 <= x.0 {
        let r = s.push(x);
        assert forall|i: int, j: int| #![trigger r[i], r[j]] 0 <= i < j < r.len() implies r[i].0 <= r[j].0 by {
            if j < s.len() {
                assert(r[i] == s[i] && r[j] == s[j]);
            } else {
                assert(r[i] == s[i]);
                if i < s.len() - 1 {
                    assert(s[i].0 <= s[s.len() - 1].0);
                }
            }
        }
    } else {
        let d = s.drop_last();
        let last = s.last();
        assert(last == s[s.len() - 1]);
        assert(id_sorted(d)) by {
            assert forall|i: int, j: int| #![trigger d[i], d[j]] 0 <= i < j < d.len() implies d[i].0 <= d[j].0 by {
                assert(d[i] == s[i] && d[j] == s[j]);
            }
        }
        lemma_insert_sorted(d, x);
        assert forall|i: int| 0 <= i < d.len() implies (#[trigger] d[i]).0 <= last.0 by {
            assert(d[i] == s[i]);
        }
        lemma_insert_bounded(d, x, last.0);
        let r0 = insert_by_id(d, x);
        let r = r0.push(last);
        assert forall|i: int, j: int| #![trigger r[i], r[j]] 0 <= i < j < r.len() implies r[i].0 <= r[j].0 by {
            assert(r[i] == r0[i]);
            if j < r0.len() {
                assert(r[j] == r0[j]);
            }
        }
        assert(s =~= d.push(last));
        assert(r.to_multiset() =~= s.to_multiset().insert(x));
    }
}

/// The items of an album come out ordered by id, each item exactly once: sorting keeps
/// the multiset of items and puts their ids in order.
pub proof fn lemma_sort_by_id<M>(s: Seq<(i32, M)>)
    ensures
        id_sorted(sort_by_id(s)),
        sort_by_id(s).to_multiset() == s.to_multiset(),
        sort_by_id(s).len() == s.len(),
    decreases s.len(),
{
    broadcast use vstd::seq_lib::group_to_multiset_ensures;

    if s.len() > 0 {
        let d = s.drop_last();
        lemma_sort_by_id(d);
        lemma_insert_sorted(sort_by_id(d), s.last());
        assert(s =~= d.push(s.last()));
    }
}

/// What happens to the album of one group: a message arrives at a time, with its id;
/// or the waiter of the arrival at a time comes back.
pub enum GroupOp<M> {
    Add { time: u64, id: i32, message: M },
    Settle { time: u64 },
}

/// The messages of an album ordered by id, equal ids in their order.
pub open spec fn album_order<M>(ms: Seq<(i32, M)>) -> Seq<M> {
    sort_by_id(ms).map_values(|p: (i32, M)| p.1)
}

/// The group (its stamp and messages) after one event, and the album that comes out:
/// an arrival joins the group and stamps it; a waiter whose stamp is still the group's
/// takes the group out, ordered by id; any other waiter changes nothing.
pub open spec fn group_step<M>(g: Option<(u64, Seq<(i32, M)>)>, op: GroupOp<M>) -> (
    Option<(u64, Seq<(i32, M)>)>,
    Option<Seq<M>>,
) {
    match op {
        GroupOp::Add { time, id, message } => (
            Some(
                (
                    time,
                    match g {
                        Some(x) => x.1,
                        None => Seq::empty(),
                    }.push((id, message)),
                ),
            ),
            None,
        ),
        GroupOp::Settle { time } => match g {
            Some(x) => if x.0 == time {
                (None, Some(album_order(x.1)))
            } else {
                (g, None)
            },
            None => (g, None),
        },
    }
}

/// The group after a series of events, starting from `g0`.
pub open spec fn run_group<M>(g0: Option<(u64, Seq<(i32, M)>)>, ops: Seq<GroupOp<M>>) -> Option<
    (u64, Seq<(i32, M)>),
>
    decreases ops.len(),
{
    if ops.len() == 0 {
        g0
    } else {
        group_step(run_group(g0, ops.drop_last()), ops.last()).0
    }
}

/// The album that comes out at the `p`-th event of a series, where one does.
pub open spec fn album_at<M>(g0: Option<(u64, Seq<(i32, M)>)>, ops: Seq<GroupOp<M>>, p: int) -> Option<Seq<M>> {
    group_step(run_group(g0, ops.take(p)), ops[p]).1
}

/// The arrivals among a series of events, in order: time, id and message.
pub open spec fn arrivals_of<M>(ops: Seq<GroupOp<M>>) -> Seq<(u64, i32, M)>
    decreases ops.len(),
{
    if ops.len() == 0 {
        Seq::empty()
    } else {
        match ops.last() {
            GroupOp::Add { time, id, message } => arrivals_of(ops.drop_last()).push((time, id, message)),
            GroupOp::Settle { .. } => arrivals_of(ops.drop_last()),
        }
    }
}

/// The ids and messages of some arrivals.
pub open spec fn arrival_messages<M>(arrivals: Seq<(u64, i32, M)>) -> Seq<(i32, M)> {
    arrivals.map_values(|a: (u64, i32, M)| (a.1, a.2))
}

proof fn lemma_arrivals_prefix<M>(ops: Seq<GroupOp<M>>, p: int)
    requires
        0 <= p <= ops.len(),
    ensures
        arrivals_of(ops.take(p)).len() <= arrivals_of(ops).len(),
        arrivals_of(ops.take(p)) == arrivals_of(ops).take(arrivals_of(ops.take(p)).len() as int),
    decreases ops.len(),
{
    if p == ops.len() {
        assert(ops.take(p) =~= ops);
        assert(arrivals_of(ops).take(arrivals_of(ops).len() as int) =~= arrivals_of(ops));
    } else {
        let d = ops.drop_last();
        assert(ops.take(p) =~= d.take(p));
        lemma_arrivals_prefix(d, p);
        let a = arrivals_of(d);
        let c = arrivals_of(d.take(p)).len() as int;
        match ops.last() {
            GroupOp::Add { time, id, message } => {
                assert(a.push((time, id, message)).take(c) =~= a.take(c));
            },
            GroupOp::Settle { .. } => {},
        }
    }
}

/// The arrivals are `arrivals` in order, their times rise, the series ends with the
/// waiter of the last arrival, and every earlier waiter comes back only after the arrival
/// that follows its own.
pub open spec fn merge_schedule<M>(ops: Seq<GroupOp<M>>, arrivals: Seq<(u64, i32, M)>) -> bool {
    &&& arrivals.len() > 0
    &&& forall|i: int, j: int| 0 <= i < j < arrivals.len() ==> #[trigger] arrivals[i].0 < #[trigger] arrivals[j].0
    &&& arrivals_of(ops) == arrivals
    &&& ops.len() > 0
    &&& ops.last() == GroupOp::<M>::Settle { time: arrivals.last().0 }
    &&& forall|p: int| 0 <= p < ops.len() - 1 && (#[trigger] ops[p]) is Settle ==> exists|i: int|
        0 <= i && i + 1 < arrivals_of(ops.take(p)).len() && ops[p]->Settle_time == #[trigger] arrivals[i].0
}

proof fn lemma_merge_prefix<M>(ops: Seq<GroupOp<M>>, arrivals: Seq<(u64, i32, M)>, p: int)
    requires
        merge_schedule(ops, arrivals),
        0 <= p < ops.len(),
    ensures
        ({
            let c = arrivals_of(ops.take(p)).len() as int;
            &&& c <= arrivals.len()
            &&& arrivals_of(ops.take(p)) == arrivals.take(c)
            &&& run_group(None, ops.take(p)) == if c == 0 {
                None
            } else {
                Some((arrivals[c - 1].0, arrival_messages(arrivals.take(c))))
            }
        }),
        forall|q: int| 0 <= q < p ==> album_at(None, ops, q) is None,
    decreases p,
{
    lemma_arrivals_prefix(ops, p);
    if p == 0 {
        assert(ops.take(0) =~= Seq::<GroupOp<M>>::empty());
        assert(arrivals.take(0) =~= Seq::<(u64, i32, M)>::empty());
    } else {
        let q = p - 1;
        lemma_merge_prefix(ops, arrivals, q);
        lemma_arrivals_prefix(ops, q);
        let c = arrivals_of(ops.take(q)).len() as int;
        assert(ops.take(p).drop_last() =~= ops.take(q));
        assert(ops.take(p).last() == ops[q]);
        let st = run_group(None, ops.take(q));
        match ops[q] {
            GroupOp::Add { time, id, message } => {
                assert(arrivals_of(ops.take(p)) == arrivals_of(ops.take(q)).push((time, id, message)));
                assert(arrivals.take(c + 1)[c] == (time, id, message));
                assert(arrival_messages(arrivals.take(c + 1)) =~= arrival_messages(arrivals.take(c)).push((id, message)));
                if c == 0 {
                    assert(arrival_messages(arrivals.take(0)) =~= Seq::<(i32, M)>::empty());
                }
            },
            GroupOp::Settle { time } => {
                assert(ops[q] is Settle);
                let i = choose|i: int| 0 <= i && i + 1 < c && ops[q]->Settle_time == #[trigger] arrivals[i].0;
                assert(arrivals[i].0 < arrivals[c - 1].0);
            },
        }
        assert forall|r: int| 0 <= r < p implies album_at(None, ops, r) is None by {
            if r == q {
                if ops[q] is Settle {
                    let i = choose|i: int| 0 <= i && i + 1 < c && ops[q]->Settle_time == #[trigger] arrivals[i].0;
                    assert(arrivals[i].0 < arrivals[c - 1].0);
                }
            }
        }
    }
}

/// Merging an album: when the messages of one group arrive one after the other, each
/// before the waiter of the one before it comes back, and the waiter of the last comes
/// back after all of them, exactly one album comes out, at that last waiter: all the
/// messages, ordered by id; and the group is gone.
pub proof fn lemma_album_merge<M>(ops: Seq<GroupOp<M>>, arrivals: Seq<(u64, i32, M)>)
    requires
        merge_schedule(ops, arrivals),
    ensures
        forall|p: int| 0 <= p < ops.len() - 1 ==> album_at(None, ops, p) is None,
        album_at(None, ops, ops.len() - 1) == Some(album_order(arrival_messages(arrivals))),
        run_group(None, ops) is None,
{
    let p = ops.len() - 1;
    lemma_merge_prefix(ops, arrivals, p);
    assert(ops.drop_last() =~= ops.take(p));
    let c = arrivals_of(ops.take(p)).len() as int;
    assert(arrivals_of(ops) == arrivals_of(ops.take(p)));
    assert(arrivals.take(c) =~= arrivals);
}

/// A group of messages sent together as an album, gathered as they arrive.
struct MediaGroup<M> {
    /// When its last message arrived.
    time: u64,
    /// Its messages with their ids, in the order they arrived.
    messages: Vec<(i32, M)>,
}

/// The albums being gathered, by group id.  An album is published once no message has
/// joined it for a while: each arrival stamps the group with its time, and only the
/// waiter holding the latest stamp takes the group out.
pub struct MediaGroups<M> {
    groups: HashMap<i64, MediaGroup<M>>,
}

impl<M> MediaGroups<M> {
    /// The group with the given id, where one is being gathered: its stamp and its
    /// messages in the order they arrived.
    pub closed spec fn group(&self, id: i64) -> Option<(u64, Seq<(i32, M)>)> {
        if self.groups@.contains_key(id) {
            Some((self.groups@[id].time, self.groups@[id].messages@))
        } else {
            None
        }
    }

    /// No group is being gathered.
    pub fn new() -> (r: MediaGroups<M>)
        ensures
            forall|id: i64| r.group(id) is None,
    {
        MediaGroups { groups: HashMap::new() }
    }

    /// A message with the id `msg_id` of the group `group_id` arrives at time `now`: it
    /// joins the group, which is stamped `now`.
    pub fn add(&mut self, group_id: i64, now: u64, msg_id: i32, message: M)
        ensures
            final(self).group(group_id) == group_step(
                old(self).group(group_id),
                GroupOp::Add { time: now, id: msg_id, message },
            ).0,
            forall|id: i64| id != group_id ==> final(self).group(id) == old(self).group(id),
    {
        broadcast use vstd::std_specs::hash::group_hash_axioms;

        let mut messages = match self.groups.remove(&group_id) {
            Some(g) => g.messages,
            None => Vec::new(),
        };
        messages.push((msg_id, message));
        self.groups.insert(group_id, MediaGroup { time: now, messages });
    }

    /// The waiter of the arrival stamped `time` comes back: where the group still carries
    /// that stamp, it leaves the gathering and its messages come out ordered by id (equal
    /// ids in arrival order); else nothing changes.
    pub fn settle(&mut self, group_id: i64, time: u64) -> (r: Option<Vec<M>>)
        ensures
            match r {
                Some(ms) => Some(ms@),
                None => None,
            } == group_step(old(self).group(group_id), GroupOp::Settle { time }).1,
            final(self).group(group_id) == group_step(old(self).group(group_id), GroupOp::Settle { time }).0,
            forall|id: i64| id != group_id ==> final(self).group(id) == old(self).group(id),
    {
        broadcast use vstd::std_specs::hash::group_hash_axioms;

        let current = match self.groups.get(&group_id) {
            Some(g) => g.time == time,
            None => false,
        };
        if !current {
            return None;
        }
        let group = match self.groups.remove(&group_id) {
            Some(g) => g,
            None => {
                return None;
            },
        };
        Some(sorted_messages(group.messages))
    }
}

/// The album a new message is gathered into: its group, where albums are merged (the
/// wait `receive_ms` is above zero) and the message belongs to one; else none, and it is
/// published alone.
pub fn album_of(receive_ms: u64, grouped_id: Option<i64>) -> (r: Option<i64>)
    ensures
        r == (if receive_ms > 0 {
            grouped_id
        } else {
            None
        }),
{
    if receive_ms > 0 {
        grouped_id
    } else {
        None
    }
}

/// The messages ordered by id, equal ids in their order.
fn sorted_messages<M>(messages: Vec<(i32, M)>) -> (r: Vec<M>)
    ensures
        r@ == sort_by_id(messages@).map_values(|p: (i32, M)| p.1),
{
    let ghost all = messages@;
    let mut rest = messages;
    let n: usize = rest.len();
    let mut sorted: Vec<(i32, M)> = Vec::new();
    let mut i: usize = 0;
    assert(all.take(0) =~= Seq::<(i32, M)>::empty());
    while rest.len() > 0
        invariant
            all.len() == n,
            i + rest@.len() == all.len(),
            rest@ == all.skip(i as int),
            sorted@ == sort_by_id(all.take(i as int)),
        decreases rest@.len(),
    {
        let x = rest.remove(0);
        assert(x == all[i as int]);
        assert(rest@ =~= all.skip(i + 1));
        let mut j: usize = sorted.len();
        while j > 0 && sorted[j - 1].0 > x.0
            invariant
                j <= sorted@.len(),
                forall|k: int| j <= k < sorted@.len() ==> (#[trigger] sorted@[k]).0 > x.0,
            decreases j,
        {
            j = j - 1;
        }
        proof {
            lemma_insert_at(sorted@, x, j as int);
            let t = all.take(i + 1);
            assert(t.drop_last() =~= all.take(i as int));
            assert(t.last() == x);
            assert(sorted@.insert(j as int, x) =~= sorted@.take(j as int).push(x) + sorted@.skip(j as int));
        }
        sorted.insert(j, x);
        i = i + 1;
    }
    assert(all.take(i as int) =~= all);
    let ghost ordered = sorted@;
    let m: usize = sorted.len();
    let mut out: Vec<M> = Vec::new();
    let mut k: usize = 0;
    assert(ordered.take(0).map_values(|p: (i32, M)| p.1) =~= Seq::<M>::empty());
    while sorted.len() > 0
        invariant
            ordered.len() == m,
            k + sorted@.len() == ordered.len(),
            sorted@ == ordered.skip(k as int),
            out@ == ordered.take(k as int).map_values(|p: (i32, M)| p.1),
        decreases sorted@.len(),
    {
        let p = sorted.remove(0);
        assert(p == ordered[k as int]);
        out.push(p.1);
        assert(sorted@ =~= ordered.skip(k + 1));
        assert(ordered.take(k + 1).map_values(|p: (i32, M)| p.1) =~= ordered.take(k as int).map_values(
            |p: (i32, M)| p.1,
        ).push(ordered[k as int].1));
        k = k + 1;
    }
    assert(ordered.take(k as int) =~= ordered);
    out
}

/// How long the account's own information stays fresh: one minute, in nanoseconds.
pub const SELF_INFO_TTL_NANOS: u64 = 60_000_000_000;

/// Whether information fetched at `last` (or never) must be fetched again at `now`: more
/// than a minute has passed since it was fetched.
pub open spec fn update_due(last: Option<u64>, now: u64) -> bool {
    match last {
        Some(t) => t + SELF_INFO_TTL_NANOS < now,
        None => true,
    }
}

/// Fetched information stays fresh for a minute, and invalidated information is due at
/// once.
pub proof fn lemma_update_due(t: u64, now: u64)
    ensures
        now <= t + 60_000_000_000u64 ==> !update_due(Some(t), now),
        now > t + 60_000_000_000u64 ==> update_due(Some(t), now),
        update_due(None, now),
{
}

/// The account's own information, fetched again once it is a minute old or invalidated.
pub struct SelfInfoCache<T> {
    info: T,
    last_updated: Option<u64>,
}

impl<T> SelfInfoCache<T> {
    /// The cached information.
    pub closed spec fn cached(&self) -> T {
        self.info
    }

    /// When it was fetched (nanoseconds on a monotonic clock); none once invalidated.
    pub closed spec fn last_updated(&self) -> Option<u64> {
        self.last_updated
    }

    /// A cache holding `info`, fetched at `now`.
    pub fn new(info: T, now: u64) -> (r: SelfInfoCache<T>)
        ensures
            r.cached() == info,
            r.last_updated() == Some(now),
    {
        SelfInfoCache { info, last_updated: Some(now) }
    }

    /// Whether the information must be fetched again at `now`.
    pub fn should_update(&self, now: u64) -> (r: bool)
        ensures
            r == update_due(self.last_updated(), now),
    {
        match self.last_updated {
            Some(t) => now >= SELF_INFO_TTL_NANOS && t < now - SELF_INFO_TTL_NANOS,
            None => true,
        }
    }

    /// Keeps `info`, fetched at `now`.
    pub fn store(&mut self, info: T, now: u64)
        ensures
            final(self).cached() == info,
            final(self).last_updated() == Some(now),
    {
        self.info = info;
        self.last_updated = Some(now);
    }

    /// Marks the information as stale, so that the next use fetches it again.
    pub fn invalidate(&mut self)
        ensures
            final(self).cached() == old(self).cached(),
            final(self).last_updated() is None,
    {
        self.last_updated = None;
    }

    /// The cached information.
    pub fn info(&self) -> (r: &T)
        ensures
            *r == self.cached(),
    {
        &self.info
    }
}


/// The kinds of signals of the Satori WebSocket protocol.
#[derive(Clone, Copy, PartialEq, Eq, Structural)]
pub enum WsOpKind {
    Event,
    Ping,
    Pong,
    Identify,
    Ready,
    Meta,
}

/// The number (`op`) of each kind of signal: EVENT 0, PING 1, PONG 2, IDENTIFY 3,
/// READY 4, META 5.
pub open spec fn op_code(k: WsOpKind) -> u8 {
    match k {
        WsOpKind::Event => 0,
        WsOpKind::Ping => 1,
        WsOpKind::Pong => 2,
        WsOpKind::Identify => 3,
        WsOpKind::Ready => 4,
        WsOpKind::Meta => 5,
    }
}

pub open spec fn op_kind(op: WsOp) -> WsOpKind {
    match op {
        WsOp::Event(_) => WsOpKind::Event,
        WsOp::Ping => WsOpKind::Ping,
        WsOp::Pong => WsOpKind::Pong,
        WsOp::Identify(_) => WsOpKind::Identify,
        WsOp::Ready(_) => WsOpKind::Ready,
        WsOp::Meta(_) => WsOpKind::Meta,
    }
}

impl WsOp {
    /// The number a signal is sent with.
    pub fn code(&self) -> (r: u8)
        ensures
            r == op_code(op_kind(*self)),
    {
        match self {
            WsOp::Event(_) => 0,
            WsOp::Ping => 1,
            WsOp::Pong => 2,
            WsOp::Identify(_) => 3,
            WsOp::Ready(_) => 4,
            WsOp::Meta(_) => 5,
        }
    }
}

/// The number a kind of signal is sent with.
pub fn ws_op_code(kind: WsOpKind) -> (r: u8)
    ensures
        r == op_code(kind),
{
    match kind {
        WsOpKind::Event => 0,
        WsOpKind::Ping => 1,
        WsOpKind::Pong => 2,
        WsOpKind::Identify => 3,
        WsOpKind::Ready => 4,
        WsOpKind::Meta => 5,
    }
}

/// The kind of signal a number stands for; `None` for a number that stands for none.
pub fn ws_op_kind(code: u8) -> (r: Option<WsOpKind>)
    ensures
        match r {
            Some(k) => op_code(k) == code,
            None => code > 5,
        },
{
    if code == 0 {
        Some(WsOpKind::Event)
    } else if code == 1 {
        Some(WsOpKind::Ping)
    } else if code == 2 {
        Some(WsOpKind::Pong)
    } else if code == 3 {
        Some(WsOpKind::Identify)
    } else if code == 4 {
        Some(WsOpKind::Ready)
    } else if code == 5 {
        Some(WsOpKind::Meta)
    } else {
        None
    }
}

/// Reading a signal's number gives back its kind.
pub proof fn lemma_op_code_reads_back(k: WsOpKind, j: WsOpKind)
    ensures
        op_code(k) <= 5,
        op_code(k) == op_code(j) ==> k == j,
{
}

} // verus!
