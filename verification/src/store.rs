use vstd::prelude::*;

use crate::event::{Event, EventType, EventView, NewEvent, spec_with_id};
use crate::messages::{spec_map_message, ShishaMessage};

verus! {

/// Why the store refused a write: the surrogate-key counter has no next
/// value left to assign.
#[derive(Clone, Copy, Debug, PartialEq, Eq, Structural)]
pub enum StoreError {
    IdsExhausted,
}

/// How many events of `s` have type `t`.
pub open spec fn count_type(s: Seq<EventView>, t: EventType) -> int
    decreases s.len(),
{
    if s.len() == 0 {
        0
    } else {
        count_type(s.drop_last(), t) + (if s.last().event_type == t {
            1int
        } else {
            0int
        })
    }
}

/// The sum of the `amount` fields of the events of `s` with type `t`;
/// events without an amount are left out, and no events at all sum to 0.
pub open spec fn sum_amount(s: Seq<EventView>, t: EventType) -> int
    decreases s.len(),
{
    if s.len() == 0 {
        0
    } else {
        sum_amount(s.drop_last(), t) + (match s.last().amount {
            Some(a) => if s.last().event_type == t {
                a as int
            } else {
                0int
            },
            None => 0int,
        })
    }
}

/// How many events of `s` have type `t` and actor `a`.
pub open spec fn count_actor(s: Seq<EventView>, t: EventType, a: Seq<char>) -> int
    decreases s.len(),
{
    if s.len() == 0 {
        0
    } else {
        count_actor(s.drop_last(), t, a) + (if s.last().event_type == t && s.last().actor == a {
            1int
        } else {
            0int
        })
    }
}

/// Ids are unique and assigned in insertion order, starting at 1.
pub open spec fn ids_ok(s: Seq<EventView>) -> bool {
    &&& forall|i: int, j: int| 0 <= i < j < s.len() ==> s[i].id < s[j].id
    &&& forall|i: int| 0 <= i < s.len() ==> 1 <= s[i].id
}

proof fn lemma_ids_ok_min(s: Seq<EventView>, i: int)
    requires
        ids_ok(s),
        0 <= i < s.len(),
    ensures
        s[i].id >= i + 1,
    decreases i,
{
    if i > 0 {
        lemma_ids_ok_min(s, i - 1);
    }
}

proof fn lemma_count_type_take_step(s: Seq<EventView>, t: EventType, i: int)
    requires
        0 <= i < s.len(),
    ensures
        count_type(s.take(i + 1), t) == count_type(s.take(i), t) + (if s[i].event_type == t {
            1int
        } else {
            0int
        }),
{
    assert(s.take(i + 1).drop_last() =~= s.take(i));
    assert(s.take(i + 1).last() == s[i]);
}

proof fn lemma_sum_amount_take_step(s: Seq<EventView>, t: EventType, i: int)
    requires
        0 <= i < s.len(),
    ensures
        sum_amount(s.take(i + 1), t) == sum_amount(s.take(i), t) + (match s[i].amount {
            Some(a) => if s[i].event_type == t {
                a as int
            } else {
                0int
            },
            None => 0int,
        }),
{
    assert(s.take(i + 1).drop_last() =~= s.take(i));
    assert(s.take(i + 1).last() == s[i]);
}

proof fn lemma_count_actor_take_step(s: Seq<EventView>, t: EventType, a: Seq<char>, i: int)
    requires
        0 <= i < s.len(),
    ensures
        count_actor(s.take(i + 1), t, a) == count_actor(s.take(i), t, a) + (if s[i].event_type == t
            && s[i].actor == a {
            1int
        } else {
            0int
        }),
{
    assert(s.take(i + 1).drop_last() =~= s.take(i));
    assert(s.take(i + 1).last() == s[i]);
}

proof fn lemma_count_actor_bound(s: Seq<EventView>, t: EventType, a: Seq<char>)
    ensures
        0 <= count_actor(s, t, a) <= s.len(),
    decreases s.len(),
{
    if s.len() > 0 {
        lemma_count_actor_bound(s.drop_last(), t, a);
    }
}

proof fn lemma_count_actor_pos(s: Seq<EventView>, t: EventType, k: int)
    requires
        0 <= k < s.len(),
        s[k].event_type == t,
    ensures
        count_actor(s, t, s[k].actor) >= 1,
    decreases s.len(),
{
    if k == s.len() - 1 {
        lemma_count_actor_bound(s.drop_last(), t, s[k].actor);
    } else {
        lemma_count_actor_pos(s.drop_last(), t, k);
        assert(s.drop_last()[k] == s[k]);
    }
}

/// The views of a sequence of returned (actor, count) rows.
pub open spec fn pairs_of(r: Seq<(String, i64)>) -> Seq<(Seq<char>, i64)> {
    r.map_values(|p: (String, i64)| (p.0@, p.1))
}

/// Whether some row of `rv` names actor `a`.
pub open spec fn has_actor(rv: Seq<(Seq<char>, i64)>, a: Seq<char>) -> bool {
    exists|i: int| 0 <= i < rv.len() && rv[i].0 == a
}

/// What `top_actor_by_type(t, n)` returns over a store holding `sv`: at most
/// `n` rows, each naming a distinct actor with its exact, positive count of
/// type-`t` events, counts non-increasing; when fewer than `n` rows come
/// back every type-`t` actor is among them; and an actor left out has at
/// most the last row's count. Among equal counts the order is not pinned.
pub open spec fn is_top_result(
    sv: Seq<EventView>,
    t: EventType,
    n: int,
    rv: Seq<(Seq<char>, i64)>,
) -> bool {
    &&& rv.len() <= n
    &&& forall|i: int|
        0 <= i < rv.len() ==> rv[i].1 == count_actor(sv, t, rv[i].0) && rv[i].1 > 0
    &&& forall|i: int, j: int| 0 <= i < j < rv.len() ==> rv[i].0 != rv[j].0
    &&& forall|i: int, j: int| 0 <= i < j < rv.len() ==> rv[j].1 <= rv[i].1
    &&& rv.len() < n ==> forall|k: int|
        0 <= k < sv.len() && sv[k].event_type == t ==> has_actor(rv, sv[k].actor)
    &&& forall|k: int|
        0 <= k < sv.len() && sv[k].event_type == t ==> has_actor(rv, sv[k].actor) || (rv.len() == n
            && (n == 0 || count_actor(sv, t, sv[k].actor) <= rv[n - 1].1))
}

/// What a top-actor façade returns over a store holding `sv`: the name of
/// an actor with the most type-`t` events when there is any such event
/// (ties in no promised order), and nothing at all otherwise.
pub open spec fn is_top_name(sv: Seq<EventView>, t: EventType, r: Option<Seq<char>>) -> bool {
    match r {
        Some(a) => count_actor(sv, t, a) > 0 && forall|k: int|
            0 <= k < sv.len() && sv[k].event_type == t ==> count_actor(sv, t, sv[k].actor)
                <= count_actor(sv, t, a),
        None => forall|k: int| 0 <= k < sv.len() ==> sv[k].event_type != t,
    }
}

/// Orders events oldest-to-newest: `a` comes strictly before `b` when `a`
/// was ingested earlier, ties on the date broken by the insertion id.
pub open spec fn key_lt(a: EventView, b: EventView) -> bool {
    a.event_date < b.event_date || (a.event_date == b.event_date && a.id < b.id)
}

fn key_lt_exec(a: &Event, b: &Event) -> (r: bool)
    ensures
        r == key_lt(a@, b@),
{
    a.event_date < b.event_date || (a.event_date == b.event_date && a.id < b.id)
}

/// The views of a sequence of returned events.
pub open spec fn views_of(r: Seq<Event>) -> Seq<EventView> {
    r.map_values(|e: Event| e@)
}

fn contains_actor(cand: &Vec<(String, i64)>, actor: &String) -> (r: bool)
    ensures
        r == has_actor(pairs_of(cand@), actor@),
{
    let mut j: usize = 0;
    while j < cand.len()
        invariant
            0 <= j <= cand@.len(),
            forall|k: int| 0 <= k < j ==> pairs_of(cand@)[k].0 != actor@,
        decreases cand@.len() - j,
    {
        if cand[j].0 == *actor {
            proof {
                assert(pairs_of(cand@)[j as int].0 == actor@);
            }
            return true;
        }
        j = j + 1;
    }
    false
}

/// Whether `e` may still be taken by the newest-first selection once `rv`
/// has been taken: everything, at the start; afterwards only events strictly
/// older than the last one taken.
pub open spec fn still_open(rv: Seq<EventView>, e: EventView) -> bool {
    rv.len() == 0 || key_lt(e, rv[rv.len() - 1])
}

/// What `recent(n)` returns over a store holding `sv`: at most `n` events,
/// strictly newest first (ties on the date broken by id), all drawn from
/// `sv`; when fewer than `n` come back, everything is back; and nothing of
/// `sv` is missing unless it is older than everything returned.
pub open spec fn is_recent_result(sv: Seq<EventView>, n: int, rv: Seq<EventView>) -> bool {
    &&& rv.len() <= n
    &&& forall|i: int, j: int| 0 <= i < j < rv.len() ==> key_lt(rv[j], rv[i])
    &&& forall|i: int| 0 <= i < rv.len() ==> sv.contains(rv[i])
    &&& rv.len() < n ==> forall|k: int| 0 <= k < sv.len() ==> rv.contains(sv[k])
    &&& forall|k: int| 0 <= k < sv.len() ==> rv.contains(sv[k]) || still_open(rv, sv[k])
}

/// The append-only event store: the single source of truth the aggregation
/// queries read. Events are never updated or deleted; the store assigns each
/// insert the next surrogate id.
pub struct EventStore {
    events: Vec<Event>,
    next_id: i64,
}

impl View for EventStore {
    type V = Seq<EventView>;

    closed spec fn view(&self) -> Seq<EventView> {
        self.events@.map_values(|e: Event| e@)
    }
}

impl EventStore {
    /// The store keeps ids unique, in insertion order, and below the counter.
    pub closed spec fn wf(&self) -> bool {
        &&& 1 <= self.next_id
        &&& ids_ok(self@)
        &&& forall|i: int| 0 <= i < self@.len() ==> self@[i].id < self.next_id
    }

    /// The id the next successful insert will assign.
    pub closed spec fn spec_next_id(&self) -> i64 {
        self.next_id
    }

    /// Whether an id is left to assign: the one way a write can fail.
    pub open spec fn can_insert(&self) -> bool {
        self.spec_next_id() < i64::MAX
    }

    /// The persisted history carries unique ids, assigned in insertion
    /// order starting at 1: the record of an event is never reassigned.
    pub proof fn lemma_wf_ids(&self)
        requires
            self.wf(),
        ensures
            ids_ok(self@),
    {
    }

    /// An empty store can hold fewer than `i64::MAX` events, so counts fit.
    pub proof fn lemma_len_bound(&self)
        requires
            self.wf(),
        ensures
            self@.len() < self.spec_next_id(),
            self@.len() <= i64::MAX - 1,
    {
        if self@.len() > 0 {
            lemma_ids_ok_min(self@, self@.len() - 1);
        }
    }

    /// A fresh, empty store whose first insert will assign id 1.
    pub fn new() -> (s: EventStore)
        ensures
            s.wf(),
            s@ == Seq::<EventView>::empty(),
            s.spec_next_id() == 1,
    {
        let s = EventStore { events: Vec::new(), next_id: 1 };
        proof {
            assert(s@ =~= Seq::<EventView>::empty());
        }
        s
    }

    /// An empty store whose id counter is seeded to `next_id`, as a table
    /// whose auto-increment column was seeded would be.
    pub fn with_next_id(next_id: i64) -> (s: EventStore)
        requires
            1 <= next_id,
        ensures
            s.wf(),
            s@ == Seq::<EventView>::empty(),
            s.spec_next_id() == next_id,
    {
        let s = EventStore { events: Vec::new(), next_id };
        proof {
            assert(s@ =~= Seq::<EventView>::empty());
        }
        s
    }

    /// How many events the store holds.
    pub fn len(&self) -> (n: usize)
        ensures
            n == self@.len(),
    {
        self.events.len()
    }

    /// Persists one event, all or nothing: on success the event is appended
    /// with the next id; on failure the store is unchanged.
    pub fn insert(&mut self, event: NewEvent) -> (r: Result<i64, StoreError>)
        requires
            old(self).wf(),
        ensures
            final(self).wf(),
            match r {
                Ok(id) => {
                    &&& old(self).can_insert()
                    &&& id == old(self).spec_next_id()
                    &&& final(self)@ == old(self)@.push(spec_with_id(event@, id))
                    &&& final(self).spec_next_id() == id + 1
                },
                Err(e) => {
                    &&& e == StoreError::IdsExhausted
                    &&& !old(self).can_insert()
                    &&& final(self)@ == old(self)@
                    &&& final(self).spec_next_id() == old(self).spec_next_id()
                },
            },
    {
        if self.next_id == i64::MAX {
            return Err(StoreError::IdsExhausted);
        }
        let id = self.next_id;
        self.next_id = id + 1;
        let e = Event {
            id,
            actor: event.actor,
            event_type: event.event_type,
            event_date: event.event_date,
            image: event.image,
            amount: event.amount,
            target: event.target,
        };
        self.events.push(e);
        proof {
            assert(self@ =~= old(self)@.push(spec_with_id(event@, id)));
        }
        Ok(id)
    }

    /// Maps a validated message (stamped `now_micros`) and persists it.
    pub fn insert_message_at(&mut self, message: ShishaMessage, now_micros: i64) -> (r: Result<
        i64,
        StoreError,
    >)
        requires
            old(self).wf(),
        ensures
            final(self).wf(),
            match r {
                Ok(id) => {
                    &&& old(self).can_insert()
                    &&& id == old(self).spec_next_id()
                    &&& final(self)@ == old(self)@.push(
                        spec_with_id(spec_map_message(message@, now_micros), id),
                    )
                    &&& final(self).spec_next_id() == id + 1
                },
                Err(e) => {
                    &&& e == StoreError::IdsExhausted
                    &&& !old(self).can_insert()
                    &&& final(self)@ == old(self)@
                    &&& final(self).spec_next_id() == old(self).spec_next_id()
                },
            },
    {
        let e = crate::messages::map_message(message, now_micros);
        self.insert(e)
    }

    /// Persists one inbound message stamped with the current UTC time: the
    /// store, not the message, decides the id, and the clock, not the
    /// payload, decides the date, which is all that is promised of it.
    pub fn insert_message(&mut self, message: ShishaMessage) -> (r: Result<i64, StoreError>)
        requires
            old(self).wf(),
        ensures
            final(self).wf(),
            match r {
                Ok(id) => {
                    &&& old(self).can_insert()
                    &&& id == old(self).spec_next_id()
                    &&& exists|now: i64|
                        final(self)@ == old(self)@.push(
                            #[trigger] spec_with_id(spec_map_message(message@, now), id),
                        )
                },
                Err(e) => {
                    &&& e == StoreError::IdsExhausted
                    &&& !old(self).can_insert()
                    &&& final(self)@ == old(self)@
                },
            },
    {
        let now = crate::messages::now_micros();
        let r = self.insert_message_at(message, now);
        proof {
            if r is Ok {
                let id = r->Ok_0;
                assert(self@ == old(self)@.push(
                    spec_with_id(spec_map_message(message@, now), id),
                ));
            }
        }
        r
    }

    /// Total count of events of the given type over the full history.
    pub fn count_by_type(&self, t: EventType) -> (n: i64)
        requires
            self.wf(),
        ensures
            n == count_type(self@, t),
    {
        proof {
            self.lemma_len_bound();
        }
        let mut n: i64 = 0;
        let mut i: usize = 0;
        while i < self.events.len()
            invariant
                self.wf(),
                0 <= i <= self@.len(),
                self@.len() <= i64::MAX - 1,
                0 <= n <= i,
                n == count_type(self@.take(i as int), t),
            decreases self@.len() - i,
        {
            proof {
                lemma_count_type_take_step(self@, t, i as int);
            }
            if self.events[i].event_type == t {
                n = n + 1;
            }
            i = i + 1;
        }
        proof {
            assert(self@.take(self@.len() as int) =~= self@);
        }
        n
    }

    /// Sum of the amounts of the events of the given type, over the full
    /// history: events without an amount are left out, and no matching
    /// events sum to 0. Wide enough that no history can overflow it.
    pub fn sum_amount_by_type(&self, t: EventType) -> (s: i128)
        requires
            self.wf(),
        ensures
            s == sum_amount(self@, t),
    {
        let mut acc: i128 = 0;
        let mut i: usize = 0;
        while i < self.events.len()
            invariant
                self.wf(),
                0 <= i <= self@.len(),
                acc == sum_amount(self@.take(i as int), t),
                -((i as int) * 0x8000_0000_0000_0000) <= acc <= (i as int) * 0x8000_0000_0000_0000,
            decreases self@.len() - i,
        {
            proof {
                lemma_sum_amount_take_step(self@, t, i as int);
            }
            if self.events[i].event_type == t {
                match self.events[i].amount {
                    Some(a) => {
                        acc = acc + (a as i128);
                    },
                    None => {},
                }
            }
            i = i + 1;
        }
        proof {
            assert(self@.take(self@.len() as int) =~= self@);
        }
        acc
    }

    /// The "money earned" figure: the sum of the amounts of the buy events,
    /// as the `i64` the presentation layer expects. The bound is the one the
    /// narrower type forces, nothing more.
    pub fn count_money(&self) -> (s: i64)
        requires
            self.wf(),
            i64::MIN <= sum_amount(self@, EventType::BUY) <= i64::MAX,
        ensures
            s == sum_amount(self@, EventType::BUY),
    {
        let total = self.sum_amount_by_type(EventType::BUY);
        total as i64
    }

    /// Total count of upload events, the "shisha uploads" figure.
    pub fn count_uploads(&self) -> (n: i64)
        requires
            self.wf(),
        ensures
            n == count_type(self@, EventType::UPLOAD),
    {
        self.count_by_type(EventType::UPLOAD)
    }

    /// Up to `n` of the most recently ingested events, newest first by
    /// event date, ties broken by insertion id descending.
    pub fn recent(&self, n: usize) -> (r: Vec<Event>)
        requires
            self.wf(),
        ensures
            is_recent_result(self@, n as int, views_of(r@)),
    {
        let ghost sv = self@;
        let mut out: Vec<Event> = Vec::new();
        let mut done: bool = false;
        proof {
            assert(views_of(out@) =~= Seq::<EventView>::empty());
        }
        while !done && out.len() < n
            invariant
                self.wf(),
                sv == self@,
                out@.len() <= n,
                forall|i: int, j: int|
                    0 <= i < j < out@.len() ==> key_lt(views_of(out@)[j], views_of(out@)[i]),
                forall|i: int| 0 <= i < out@.len() ==> sv.contains(views_of(out@)[i]),
                forall|k: int|
                    0 <= k < sv.len() ==> views_of(out@).contains(sv[k]) || still_open(
                        views_of(out@),
                        sv[k],
                    ),
                done ==> forall|k: int| 0 <= k < sv.len() ==> views_of(out@).contains(sv[k]),
            decreases n - out@.len() + (if done {
                0int
            } else {
                1int
            }),
        {
            let ghost rv0 = views_of(out@);
            let mut j: usize = 0;
            let mut found: bool = false;
            let mut best: usize = 0;
            while j < self.events.len()
                invariant
                    self.wf(),
                    sv == self@,
                    rv0 == views_of(out@),
                    out@.len() > 0 ==> rv0.len() == out@.len(),
                    0 <= j <= sv.len(),
                    found ==> best < j && still_open(rv0, sv[best as int]),
                    found ==> forall|k: int|
                        0 <= k < j && still_open(rv0, sv[k]) ==> k == best || key_lt(
                            sv[k],
                            sv[best as int],
                        ),
                    !found ==> forall|k: int| 0 <= k < j ==> !still_open(rv0, sv[k]),
                decreases sv.len() - j,
            {
                let open_j = if out.len() == 0 {
                    true
                } else {
                    key_lt_exec(&self.events[j], &out[out.len() - 1])
                };
                proof {
                    assert(open_j == still_open(rv0, sv[j as int]));
                }
                if open_j {
                    if !found {
                        found = true;
                        best = j;
                    } else if key_lt_exec(&self.events[best], &self.events[j]) {
                        best = j;
                    } else {
                        proof {
                            assert(sv[best as int].id < sv[j as int].id);
                            assert(key_lt(sv[j as int], sv[best as int]));
                        }
                    }
                }
                j = j + 1;
            }
            if found {
                let picked = self.events[best].duplicate();
                out.push(picked);
                proof {
                    let rv = views_of(out@);
                    assert(rv =~= rv0.push(sv[best as int]));
                    assert(rv[rv0.len() as int] == sv[best as int]);
                    assert(rv.contains(sv[best as int]));
                    assert(sv.contains(sv[best as int]));
                    assert forall|i: int, j2: int| 0 <= i < j2 < rv.len() implies key_lt(
                        rv[j2],
                        rv[i],
                    ) by {
                        if j2 == rv0.len() {
                            assert(still_open(rv0, sv[best as int]));
                            if i < rv0.len() - 1 {
                                assert(key_lt(rv0[rv0.len() - 1], rv0[i]));
                            }
                        }
                    };
                    assert forall|k: int| 0 <= k < sv.len() implies rv.contains(sv[k])
                        || still_open(rv, sv[k]) by {
                        if !rv.contains(sv[k]) {
                            if rv0.contains(sv[k]) {
                                let w = choose|w: int| 0 <= w < rv0.len() && rv0[w] == sv[k];
                                assert(rv[w] == sv[k]);
                                assert(rv.contains(sv[k]));
                            } else {
                                assert(still_open(rv0, sv[k]));
                                if k == best {
                                    assert(rv.contains(sv[k]));
                                } else {
                                    assert(key_lt(sv[k], sv[best as int]));
                                    assert(still_open(rv, sv[k]));
                                }
                            }
                        }
                    };
                }
            } else {
                done = true;
                proof {
                    assert forall|k: int| 0 <= k < sv.len() implies views_of(out@).contains(
                        sv[k],
                    ) by {
                        if !views_of(out@).contains(sv[k]) {
                            assert(still_open(rv0, sv[k]));
                            assert(!still_open(rv0, sv[k]));
                        }
                    };
                }
            }
        }
        out
    }

    /// How many events of the given type name `actor`.
    fn count_actor_of(&self, t: EventType, actor: &String) -> (c: i64)
        requires
            self.wf(),
        ensures
            c == count_actor(self@, t, actor@),
    {
        proof {
            self.lemma_len_bound();
        }
        let mut c: i64 = 0;
        let mut i: usize = 0;
        while i < self.events.len()
            invariant
                self.wf(),
                0 <= i <= self@.len(),
                self@.len() <= i64::MAX - 1,
                0 <= c <= i,
                c == count_actor(self@.take(i as int), t, actor@),
            decreases self@.len() - i,
        {
            proof {
                lemma_count_actor_take_step(self@, t, actor@, i as int);
            }
            if self.events[i].event_type == t && self.events[i].actor == *actor {
                c = c + 1;
            }
            i = i + 1;
        }
        proof {
            assert(self@.take(self@.len() as int) =~= self@);
        }
        c
    }

    /// The ten newest events, as the dashboard's activity pane shows them.
    pub fn last_10_events(&self) -> (r: Vec<Event>)
        requires
            self.wf(),
        ensures
            is_recent_result(self@, 10, views_of(r@)),
    {
        self.recent(10)
    }

    /// Groups the events of the given type by actor, counts them, and
    /// returns the top `n` actors by count, highest first. Ties are broken
    /// deterministically but in no promised order.
    pub fn top_actor_by_type(&self, t: EventType, n: usize) -> (r: Vec<(String, i64)>)
        requires
            self.wf(),
        ensures
            is_top_result(self@, t, n as int, pairs_of(r@)),
    {
        let ghost sv = self@;
        let mut cand: Vec<(String, i64)> = Vec::new();
        proof {
            assert(pairs_of(cand@) =~= Seq::<(Seq<char>, i64)>::empty());
        }
        let mut i: usize = 0;
        while i < self.events.len()
            invariant
                self.wf(),
                sv == self@,
                0 <= i <= sv.len(),
                forall|ci: int|
                    0 <= ci < cand@.len() ==> pairs_of(cand@)[ci].1 == count_actor(
                        sv,
                        t,
                        pairs_of(cand@)[ci].0,
                    ) && pairs_of(cand@)[ci].1 > 0,
                forall|ci: int, cj: int|
                    0 <= ci < cj < cand@.len() ==> pairs_of(cand@)[ci].0 != pairs_of(cand@)[cj].0,
                forall|k: int|
                    0 <= k < i && sv[k].event_type == t ==> has_actor(pairs_of(cand@), sv[k].actor),
            decreases sv.len() - i,
        {
            if self.events[i].event_type == t && !contains_actor(&cand, &self.events[i].actor) {
                let a = self.events[i].actor.clone();
                let c = self.count_actor_of(t, &a);
                proof {
                    lemma_count_actor_pos(sv, t, i as int);
                }
                let ghost pc0 = pairs_of(cand@);
                cand.push((a, c));
                proof {
                    assert(pairs_of(cand@) =~= pc0.push((a@, c)));
                    assert(pairs_of(cand@)[pc0.len() as int].0 == sv[i as int].actor);
                    assert forall|k: int|
                        0 <= k < i + 1 && sv[k].event_type == t implies has_actor(
                        pairs_of(cand@),
                        sv[k].actor,
                    ) by {
                        if k < i {
                            let w = choose|w: int| 0 <= w < pc0.len() && pc0[w].0 == sv[k].actor;
                            assert(pairs_of(cand@)[w].0 == sv[k].actor);
                        } else {
                            assert(pairs_of(cand@)[pc0.len() as int].0 == sv[k].actor);
                        }
                    };
                }
            } else {
                proof {
                    if sv[i as int].event_type == t {
                        assert(has_actor(pairs_of(cand@), sv[i as int].actor));
                    }
                }
            }
            i = i + 1;
        }
        let mut outp: Vec<(String, i64)> = Vec::new();
        proof {
            assert(pairs_of(outp@) =~= Seq::<(Seq<char>, i64)>::empty());
        }
        while outp.len() < n && cand.len() > 0
            invariant
                self.wf(),
                sv == self@,
                outp@.len() <= n,
                forall|ci: int|
                    0 <= ci < cand@.len() ==> pairs_of(cand@)[ci].1 == count_actor(
                        sv,
                        t,
                        pairs_of(cand@)[ci].0,
                    ) && pairs_of(cand@)[ci].1 > 0,
                forall|ci: int, cj: int|
                    0 <= ci < cj < cand@.len() ==> pairs_of(cand@)[ci].0 != pairs_of(cand@)[cj].0,
                forall|oi: int|
                    0 <= oi < outp@.len() ==> pairs_of(outp@)[oi].1 == count_actor(
                        sv,
                        t,
                        pairs_of(outp@)[oi].0,
                    ) && pairs_of(outp@)[oi].1 > 0,
                forall|oi: int, oj: int|
                    0 <= oi < oj < outp@.len() ==> pairs_of(outp@)[oi].0 != pairs_of(outp@)[oj].0,
                forall|oi: int, cj: int|
                    0 <= oi < outp@.len() && 0 <= cj < cand@.len() ==> pairs_of(outp@)[oi].0
                        != pairs_of(cand@)[cj].0,
                forall|oi: int, oj: int|
                    0 <= oi < oj < outp@.len() ==> pairs_of(outp@)[oj].1 <= pairs_of(outp@)[oi].1,
                forall|cj: int|
                    0 <= cj < cand@.len() ==> outp@.len() == 0 || pairs_of(cand@)[cj].1 <= pairs_of(
                        outp@,
                    )[outp@.len() - 1].1,
                forall|k: int|
                    0 <= k < sv.len() && sv[k].event_type == t ==> has_actor(
                        pairs_of(outp@),
                        sv[k].actor,
                    ) || has_actor(pairs_of(cand@), sv[k].actor),
            decreases cand@.len(),
        {
            let mut b: usize = 0;
            let mut j: usize = 1;
            while j < cand.len()
                invariant
                    cand@.len() > 0,
                    b < j <= cand@.len(),
                    forall|k: int| 0 <= k < j ==> pairs_of(cand@)[k].1 <= pairs_of(cand@)[b as int].1,
                decreases cand@.len() - j,
            {
                if cand[j].1 > cand[b].1 {
                    b = j;
                }
                j = j + 1;
            }
            let ghost c0 = cand@;
            let ghost pc0 = pairs_of(cand@);
            let ghost po0 = pairs_of(outp@);
            let picked = cand.remove(b);
            outp.push(picked);
            proof {
                let pc = pairs_of(cand@);
                let po = pairs_of(outp@);
                c0.remove_ensures(b as int);
                assert(po =~= po0.push((picked.0@, picked.1)));
                assert(po[po0.len() as int] == pc0[b as int]);
                assert forall|x: int| 0 <= x < pc.len() implies pc[x] == (if x < b {
                    pc0[x]
                } else {
                    pc0[x + 1]
                }) by {
                    assert(cand@[x] == (if x < b {
                        c0[x]
                    } else {
                        c0[x + 1]
                    }));
                };
                assert forall|k: int|
                    0 <= k < sv.len() && sv[k].event_type == t implies has_actor(po, sv[k].actor)
                    || has_actor(pc, sv[k].actor) by {
                    if has_actor(po0, sv[k].actor) {
                        let w = choose|w: int| 0 <= w < po0.len() && po0[w].0 == sv[k].actor;
                        assert(po[w].0 == sv[k].actor);
                    } else if has_actor(pc0, sv[k].actor) {
                        let w = choose|w: int| 0 <= w < pc0.len() && pc0[w].0 == sv[k].actor;
                        if w == b {
                            assert(po[po0.len() as int].0 == sv[k].actor);
                        } else if w < b {
                            assert(pc[w].0 == sv[k].actor);
                        } else {
                            assert(pc[w - 1].0 == sv[k].actor);
                        }
                    }
                };
            }
        }
        proof {
            let po = pairs_of(outp@);
            assert forall|k: int|
                0 <= k < sv.len() && sv[k].event_type == t && !has_actor(po, sv[k].actor) implies (
            po.len() == n as int && (n as int == 0 || count_actor(sv, t, sv[k].actor) <= po[n as int
                - 1].1)) by {
                assert(has_actor(pairs_of(cand@), sv[k].actor));
                let w = choose|w: int|
                    0 <= w < pairs_of(cand@).len() && pairs_of(cand@)[w].0 == sv[k].actor;
                assert(pairs_of(cand@)[w].1 == count_actor(sv, t, sv[k].actor));
            };
        }
        outp
    }

    fn top_name(&self, t: EventType) -> (r: Option<String>)
        requires
            self.wf(),
        ensures
            is_top_name(self@, t, crate::event::opt_str_view(r)),
    {
        let ghost sv = self@;
        let mut top = self.top_actor_by_type(t, 1);
        if top.len() > 0 {
            let ghost tv = pairs_of(top@);
            let p = top.remove(0);
            proof {
                assert(p.0@ == tv[0].0 && p.1 == tv[0].1);
                assert forall|k: int|
                    0 <= k < sv.len() && sv[k].event_type == t implies count_actor(
                    sv,
                    t,
                    sv[k].actor,
                ) <= count_actor(sv, t, p.0@) by {
                    if has_actor(tv, sv[k].actor) {
                        let w = choose|w: int| 0 <= w < tv.len() && tv[w].0 == sv[k].actor;
                        assert(w == 0);
                    }
                };
            }
            Some(p.0)
        } else {
            None
        }
    }

    /// The actor with the most buy events, when any buy event exists.
    pub fn top_buyer_name(&self) -> (r: Option<String>)
        requires
            self.wf(),
        ensures
            is_top_name(self@, EventType::BUY, crate::event::opt_str_view(r)),
    {
        self.top_name(EventType::BUY)
    }

    /// The actor with the most upload events, when any upload event exists.
    pub fn top_uploader(&self) -> (r: Option<String>)
        requires
            self.wf(),
        ensures
            is_top_name(self@, EventType::UPLOAD, crate::event::opt_str_view(r)),
    {
        self.top_name(EventType::UPLOAD)
    }

    /// One analytics snapshot, as the dashboard page shows it. The five
    /// figures are computed one after the other over the same in-memory
    /// history, so unlike independent store reads they are mutually
    /// consistent here.
    pub fn analytics(&self) -> (a: Analytics)
        requires
            self.wf(),
        ensures
            is_top_name(self@, EventType::BUY, crate::event::opt_str_view(a.top_buyer)),
            is_top_name(self@, EventType::UPLOAD, crate::event::opt_str_view(a.top_uploader)),
            is_recent_result(self@, 10, views_of(a.last_10_events@)),
            a.money_earned == sum_amount(self@, EventType::BUY),
            a.shisha_uploads == count_type(self@, EventType::UPLOAD),
    {
        Analytics {
            top_buyer: self.top_buyer_name(),
            top_uploader: self.top_uploader(),
            last_10_events: self.last_10_events(),
            money_earned: self.sum_amount_by_type(EventType::BUY),
            shisha_uploads: self.count_uploads(),
        }
    }
}

/// Everything the dashboard page renders: the top buyer, the top uploader,
/// the ten newest events, the money earned from buys, and the upload count.
pub struct Analytics {
    pub top_buyer: Option<String>,
    pub top_uploader: Option<String>,
    pub last_10_events: Vec<Event>,
    pub money_earned: i128,
    pub shisha_uploads: i64,
}

} // verus!
