//! The queue of pending events. It is kept as a delta list: the events stand in
//! the order in which they come due, and each holds the ticks between the one
//! before it and itself, so that a tick touches the head of the list only.

use vstd::prelude::*;
use crate::events::Event;

verus! {

/// A pending event as the queue's users see it: what it is, and the ticks
/// until it is due.
pub struct Pending {
    pub owner: [u64; 2],
    pub event_type: u64,
    pub ranch_id: u64,
    pub elf_id: u64,
    pub due: nat,
}

impl Pending {
    /// Whether this is the pending event that `event` names.
    pub open spec fn is(self, event: Event) -> bool {
        &&& self.owner == event.owner
        &&& self.event_type == event.event_type
        &&& self.ranch_id == event.ranch_id
        &&& self.elf_id == event.elf_id
    }

    /// The event as it is handed to its handler when it is due.
    pub open spec fn event(self) -> Event {
        Event {
            owner: self.owner,
            event_type: self.event_type,
            ranch_id: self.ranch_id,
            elf_id: self.elf_id,
            delta: 0,
        }
    }
}

/// The pending event that `event` names, due in `due` ticks.
pub open spec fn pending(event: Event, due: nat) -> Pending {
    Pending {
        owner: event.owner,
        event_type: event.event_type,
        ranch_id: event.ranch_id,
        elf_id: event.elf_id,
        due,
    }
}

/// Sum of the countdowns of the first `n` entries of a delta list.
pub open spec fn prefix_delta(list: Seq<Event>, n: int) -> nat
    decreases n,
{
    if n <= 0 {
        0
    } else {
        prefix_delta(list, n - 1) + list[n - 1].delta as nat
    }
}

/// The pending events of a delta list, each with the ticks until it is due.
pub open spec fn pending_of(list: Seq<Event>) -> Seq<Pending> {
    Seq::new(list.len(), |i: int| pending(list[i], prefix_delta(list, i + 1)))
}

/// Whether the events name a pending event that `event` names too.
pub open spec fn spec_contains(events: Seq<Pending>, event: Event) -> bool {
    exists|i: int| 0 <= i < events.len() && (#[trigger] events[i]).is(event)
}

/// Number of leading events that are due within `due` ticks: where an event
/// due in `due` ticks goes, behind those that are due no later.
pub open spec fn insert_position(events: Seq<Pending>, due: nat) -> int
    decreases events.len(),
{
    if events.len() == 0 {
        0
    } else if events[0].due > due {
        0
    } else {
        1 + insert_position(events.drop_first(), due)
    }
}

/// The events with `event` put in, due in as many ticks as its countdown says.
pub open spec fn spec_insert(events: Seq<Pending>, event: Event) -> Seq<Pending> {
    events.insert(insert_position(events, event.delta as nat), pending(event, event.delta as nat))
}

/// The events with `event` put in unless they name it already.
pub open spec fn spec_register(events: Seq<Pending>, event: Event) -> Seq<Pending> {
    if spec_contains(events, event) {
        events
    } else {
        spec_insert(events, event)
    }
}

/// The events one tick later, where none is due now.
pub open spec fn spec_advance(events: Seq<Pending>) -> Seq<Pending> {
    if events.len() > 0 && events[0].due > 0 {
        Seq::new(
            events.len(),
            |i: int|
                Pending {
                    owner: events[i].owner,
                    event_type: events[i].event_type,
                    ranch_id: events[i].ranch_id,
                    elf_id: events[i].elf_id,
                    due: (events[i].due - 1) as nat,
                },
        )
    } else {
        events
    }
}

/// The count one higher, up to the largest number.
pub open spec fn spec_next_counter(counter: u64) -> u64 {
    if counter < u64::MAX {
        (counter + 1) as u64
    } else {
        counter
    }
}

/// The events stand in the order in which they come due.
pub open spec fn sorted_by_due(events: Seq<Pending>) -> bool {
    forall|i: int, j: int| 0 <= i <= j < events.len() ==> (#[trigger] events[i]).due <= (#[trigger] events[j]).due
}

pub proof fn lemma_prefix_delta_monotone(list: Seq<Event>, m: int, n: int)
    requires
        m <= n,
    ensures
        prefix_delta(list, m) <= prefix_delta(list, n),
    decreases n - m,
{
    if m < n {
        lemma_prefix_delta_monotone(list, m, n - 1);
    }
}

/// The pending events of a delta list stand in the order in which they come
/// due.
pub proof fn lemma_pending_sorted(list: Seq<Event>)
    ensures
        sorted_by_due(pending_of(list)),
{
    assert forall|i: int, j: int| 0 <= i <= j < pending_of(list).len() implies (#[trigger] pending_of(
        list,
    )[i]).due <= (#[trigger] pending_of(list)[j]).due by {
        lemma_prefix_delta_monotone(list, i + 1, j + 1);
    }
}

pub proof fn lemma_insert_position_bounds(events: Seq<Pending>, due: nat)
    ensures
        0 <= insert_position(events, due) <= events.len(),
        forall|k: int| 0 <= k < insert_position(events, due) ==> (#[trigger] events[k]).due <= due,
        insert_position(events, due) < events.len() ==> events[insert_position(events, due)].due > due,
    decreases events.len(),
{
    if events.len() == 0 {
    } else if events[0].due > due {
    } else {
        let rest = events.drop_first();
        lemma_insert_position_bounds(rest, due);
        assert forall|k: int| 0 <= k < insert_position(events, due) implies (#[trigger] events[k]).due
            <= due by {
            if k > 0 {
                assert(events[k] == rest[k - 1]);
            }
        }
    }
}

/// The insert position is the one place with only earlier events before it
/// and a later event at it.
pub proof fn lemma_insert_position_is(events: Seq<Pending>, due: nat, p: int)
    requires
        0 <= p <= events.len(),
        forall|k: int| 0 <= k < p ==> (#[trigger] events[k]).due <= due,
        p < events.len() ==> events[p].due > due,
    ensures
        insert_position(events, due) == p,
{
    lemma_insert_position_bounds(events, due);
    let q = insert_position(events, due);
    if q < p {
        assert(events[q].due <= due);
    } else if p < q {
        assert(events[p].due <= due);
    }
}

/// A delta list of pending events, and the count of the ticks so far.
#[derive(Debug)]
pub struct EventQueue {
    pub counter: u64,
    pub list: Vec<Event>,
}

/// A queue as its users see it.
pub struct EventQueueView {
    pub counter: u64,
    pub events: Seq<Pending>,
}

impl View for EventQueue {
    type V = EventQueueView;

    open spec fn view(&self) -> EventQueueView {
        EventQueueView { counter: self.counter, events: pending_of(self.list@) }
    }
}

impl EventQueue {
    /// An empty queue before the first tick.
    pub fn new() -> (queue: Self)
        ensures
            queue@ == (EventQueueView { counter: 0, events: Seq::empty() }),
    {
        let queue = EventQueue { counter: 0, list: Vec::new() };
        assert(queue@.events =~= Seq::empty());
        queue
    }

    /// Number of pending events.
    pub fn len(&self) -> (len: usize)
        ensures
            len == self@.events.len(),
    {
        self.list.len()
    }

    /// Whether the queue holds the pending event that `event` names, whatever
    /// its countdown.
    pub fn contains(&self, event: &Event) -> (found: bool)
        ensures
            found == spec_contains(self@.events, *event),
    {
        let mut i: usize = 0;
        while i < self.list.len()
            invariant
                i <= self.list.len(),
                forall|k: int| 0 <= k < i ==> !(#[trigger] self@.events[k]).is(*event),
            decreases self.list.len() - i,
        {
            if self.list[i] == *event {
                assert(self@.events[i as int].is(*event));
                return true;
            }
            assert(!self@.events[i as int].is(*event));
            i += 1;
        }
        false
    }

    /// Puts the event in, due after its countdown and behind the events that
    /// are due no later. The queue is not asked whether it names the event
    /// already.
    pub fn insert(&mut self, event: Event)
        ensures
            final(self)@.counter == old(self)@.counter,
            final(self)@.events == spec_insert(old(self)@.events, event),
    {
        let mut remaining: usize = event.delta;
        let mut p: usize = 0;
        while p < self.list.len() && self.list[p].delta <= remaining
            invariant
                p <= self.list.len(),
                *self == *old(self),
                remaining + prefix_delta(self.list@, p as int) == event.delta,
            decreases self.list.len() - p,
        {
            remaining -= self.list[p].delta;
            p += 1;
        }
        let ghost before = self.list@;
        let ghost events = pending_of(before);
        proof {
            assert forall|k: int| 0 <= k < p implies (#[trigger] events[k]).due <= event.delta by {
                lemma_prefix_delta_monotone(before, k + 1, p as int);
            }
            lemma_insert_position_is(events, event.delta as nat, p as int);
        }
        if p < self.list.len() {
            self.list[p].delta -= remaining;
        }
        self.list.insert(p, Event { delta: remaining, ..event });
        proof {
            let after = self.list@;
            let want = spec_insert(events, event);
            assert(after.len() == before.len() + 1);
            assert forall|k: int| 0 <= k < after.len() implies pending_of(after)[k] == want[k] by {
                lemma_insert_shifts_sums(before, after, p as int, k + 1);
            }
            assert(pending_of(after) =~= want);
        }
    }

    /// Puts the event in unless the queue names it already, and says whether it
    /// was put in.
    pub fn register(&mut self, event: Event) -> (added: bool)
        ensures
            added == !spec_contains(old(self)@.events, event),
            final(self)@.counter == old(self)@.counter,
            final(self)@.events == spec_register(old(self)@.events, event),
    {
        if self.contains(&event) {
            false
        } else {
            self.insert(event);
            true
        }
    }

    /// Takes the first event out if it is due now.
    pub fn pop_due(&mut self) -> (due: Option<Event>)
        ensures
            final(self)@.counter == old(self)@.counter,
            match due {
                Some(event) => {
                    &&& old(self)@.events.len() > 0
                    &&& old(self)@.events[0].due == 0
                    &&& event == old(self)@.events[0].event()
                    &&& final(self)@.events == old(self)@.events.drop_first()
                },
                None => {
                    &&& old(self)@.events.len() > 0 ==> old(self)@.events[0].due > 0
                    &&& final(self)@.events == old(self)@.events
                },
            },
    {
        if self.list.len() > 0 && self.list[0].delta == 0 {
            let ghost before = self.list@;
            let head: Event = self.list.remove(0);
            proof {
                let after = self.list@;
                assert(prefix_delta(before, 1) == prefix_delta(before, 0) + before[0].delta);
                assert(pending_of(before)[0].event() == (Event { delta: 0, ..head }));
                assert forall|k: int| 0 <= k < after.len() implies pending_of(after)[k] == pending_of(
                    before,
                ).drop_first()[k] by {
                    lemma_drop_zero_head_keeps_sums(before, after, k + 1);
                }
                assert(pending_of(after) =~= pending_of(before).drop_first());
            }
            Some(Event { delta: 0, ..head })
        } else {
            proof {
                if self.list.len() > 0 {
                    assert(prefix_delta(self.list@, 1) == prefix_delta(self.list@, 0) + self.list@[0].delta);
                }
            }
            None
        }
    }

    /// Lets one tick pass: every pending event is due one tick sooner, and the
    /// count of ticks goes up. Where the first event is due now, the events
    /// stay as they are.
    pub fn advance(&mut self)
        ensures
            final(self)@.counter == spec_next_counter(old(self)@.counter),
            final(self)@.events == spec_advance(old(self)@.events),
    {
        let ghost before = self.list@;
        proof {
            if self.list.len() > 0 {
                assert(prefix_delta(before, 1) == prefix_delta(before, 0) + before[0].delta);
            }
        }
        if self.list.len() > 0 && self.list[0].delta > 0 {
            self.list[0].delta -= 1;
            proof {
                let after = self.list@;
                assert forall|k: int| 0 <= k < after.len() implies pending_of(after)[k] == spec_advance(
                    pending_of(before),
                )[k] by {
                    lemma_head_less_one_shifts_sums(before, after, k + 1);
                }
                assert(pending_of(after) =~= spec_advance(pending_of(before)));
            }
        }
        if self.counter < u64::MAX {
            self.counter += 1;
        }
    }
}

/// Putting an entry in at `p`, with the countdown that is left after the
/// entries before it, and taking that countdown off the entry behind it, leaves
/// every other entry due when it was.
pub proof fn lemma_insert_shifts_sums(before: Seq<Event>, after: Seq<Event>, p: int, n: int)
    requires
        0 <= p <= before.len(),
        after.len() == before.len() + 1,
        forall|k: int| 0 <= k < p ==> (#[trigger] after[k]) == before[k],
        p < before.len() ==> after[p].delta <= before[p].delta,
        p < before.len() ==> after[p + 1] == before[p].with_delta((before[p].delta - after[p].delta) as usize),
        forall|k: int| p + 1 < k < after.len() ==> (#[trigger] after[k]) == before[k - 1],
        0 <= n <= after.len(),
    ensures
        n <= p ==> prefix_delta(after, n) == prefix_delta(before, n),
        n == p + 1 ==> prefix_delta(after, n) == prefix_delta(before, p) + after[p].delta,
        n > p + 1 ==> prefix_delta(after, n) == prefix_delta(before, n - 1),
        n > p + 1 ==> pending(after[n - 1], prefix_delta(after, n)) == pending(
            before[n - 2],
            prefix_delta(before, n - 1),
        ),
        1 <= n <= p ==> pending(after[n - 1], prefix_delta(after, n)) == pending(
            before[n - 1],
            prefix_delta(before, n),
        ),
    decreases n,
{
    if n > 0 {
        lemma_insert_shifts_sums(before, after, p, n - 1);
        if n <= p {
            assert(after[n - 1] == before[n - 1]);
        } else if n == p + 1 {
        } else if n == p + 2 {
            assert(after[p + 1] == before[p].with_delta((before[p].delta - after[p].delta) as usize));
        } else {
            assert(after[n - 1] == before[n - 2]);
        }
    }
}

/// Taking a head that is due now off a delta list leaves every other entry due
/// when it was.
pub proof fn lemma_drop_zero_head_keeps_sums(before: Seq<Event>, after: Seq<Event>, n: int)
    requires
        before.len() > 0,
        before[0].delta == 0,
        after == before.remove(0),
        0 <= n <= after.len(),
    ensures
        prefix_delta(after, n) == prefix_delta(before, n + 1),
    decreases n,
{
    if n > 0 {
        lemma_drop_zero_head_keeps_sums(before, after, n - 1);
        assert(after[n - 1] == before[n]);
    } else {
        assert(prefix_delta(before, 1) == prefix_delta(before, 0) + before[0].delta);
    }
}

/// Taking one tick off the head of a delta list makes every entry due one tick
/// sooner.
pub proof fn lemma_head_less_one_shifts_sums(before: Seq<Event>, after: Seq<Event>, n: int)
    requires
        before.len() > 0,
        before[0].delta > 0,
        after == before.update(0, before[0].with_delta((before[0].delta - 1) as usize)),
        1 <= n <= after.len(),
    ensures
        prefix_delta(after, n) == prefix_delta(before, n) - 1,
        prefix_delta(before, 1) > 0,
    decreases n,
{
    assert(prefix_delta(before, 1) == prefix_delta(before, 0) + before[0].delta);
    assert(prefix_delta(after, 1) == prefix_delta(after, 0) + after[0].delta);
    if n > 1 {
        lemma_head_less_one_shifts_sums(before, after, n - 1);
        assert(after[n - 1] == before[n - 1]);
    }
}

/// No two of the events name the same pending event.
pub open spec fn distinct_identities(events: Seq<Pending>) -> bool {
    forall|i: int, j: int|
        0 <= i < j < events.len() ==> !(#[trigger] events[i]).is((#[trigger] events[j]).event())
}

/// An event that was put in is pending.
pub proof fn lemma_insert_contains(events: Seq<Pending>, event: Event, other: Event)
    requires
        other.same_identity(event),
    ensures
        spec_contains(spec_insert(events, event), other),
        spec_insert(events, event).len() == events.len() + 1,
{
    let p = insert_position(events, event.delta as nat);
    lemma_insert_position_bounds(events, event.delta as nat);
    assert(spec_insert(events, event)[p].is(other));
}

/// Registering is idempotent: registering an event that names a pending event
/// which was just registered changes nothing, whatever its countdown; so the
/// queue is as long after two registrations as after one.
pub proof fn lemma_register_twice(events: Seq<Pending>, event: Event, again: Event)
    requires
        again.same_identity(event),
    ensures
        spec_register(spec_register(events, event), again) == spec_register(events, event),
        spec_register(spec_register(events, event), again).len() == spec_register(events, event).len(),
{
    if spec_contains(events, event) {
        let i = choose|i: int| 0 <= i < events.len() && (#[trigger] events[i]).is(event);
        assert(events[i].is(again));
    } else {
        lemma_insert_contains(events, event, again);
    }
}

/// Registering adds one pending event or none: one where the event was not
/// pending, none where it was.
pub proof fn lemma_register_len(events: Seq<Pending>, event: Event)
    ensures
        spec_register(events, event).len() == if spec_contains(events, event) {
            events.len()
        } else {
            events.len() + 1
        },
        spec_contains(spec_register(events, event), event),
{
    if !spec_contains(events, event) {
        lemma_insert_contains(events, event, event);
    }
}

/// Putting in an event that is not pending keeps the pending events distinct.
pub proof fn lemma_insert_keeps_distinct(events: Seq<Pending>, event: Event)
    requires
        distinct_identities(events),
        !spec_contains(events, event),
    ensures
        distinct_identities(spec_insert(events, event)),
{
    let p = insert_position(events, event.delta as nat);
    lemma_insert_position_bounds(events, event.delta as nat);
    let after = spec_insert(events, event);
    assert forall|i: int, j: int| 0 <= i < j < after.len() implies !(#[trigger] after[i]).is(
        (#[trigger] after[j]).event(),
    ) by {
        let a = if i < p {
            i
        } else {
            i - 1
        };
        let b = if j < p {
            j
        } else {
            j - 1
        };
        if i == p {
            assert(after[j] == events[b]);
            assert(!events[b].is(event));
            assert(after[i].owner =~= event.owner);
        } else if j == p {
            assert(after[i] == events[a]);
            assert(!events[a].is(event));
        } else {
            assert(after[i] == events[a]);
            assert(after[j] == events[b]);
            assert(!events[a].is(events[b].event()));
        }
    }
}

/// Registering keeps the pending events distinct: the queue never holds two
/// events that name the same pending event.
pub proof fn lemma_register_keeps_distinct(events: Seq<Pending>, event: Event)
    requires
        distinct_identities(events),
    ensures
        distinct_identities(spec_register(events, event)),
{
    if !spec_contains(events, event) {
        lemma_insert_keeps_distinct(events, event);
    }
}

/// Taking the first event out keeps the pending events distinct, and that
/// event is pending no more.
pub proof fn lemma_drop_first_keeps_distinct(events: Seq<Pending>)
    requires
        distinct_identities(events),
        events.len() > 0,
    ensures
        distinct_identities(events.drop_first()),
        !spec_contains(events.drop_first(), events[0].event()),
{
    let rest = events.drop_first();
    assert forall|i: int, j: int| 0 <= i < j < rest.len() implies !(#[trigger] rest[i]).is(
        (#[trigger] rest[j]).event(),
    ) by {
        assert(!events[i + 1].is(events[j + 1].event()));
    }
    assert forall|i: int| 0 <= i < rest.len() implies !(#[trigger] rest[i]).is(events[0].event()) by {
        assert(!events[0].is(events[i + 1].event()));
        assert(rest[i] == events[i + 1]);
    }
}

/// Letting a tick pass keeps the pending events distinct.
pub proof fn lemma_advance_keeps_distinct(events: Seq<Pending>)
    requires
        distinct_identities(events),
    ensures
        distinct_identities(spec_advance(events)),
{
    let after = spec_advance(events);
    assert forall|i: int, j: int| 0 <= i < j < after.len() implies !(#[trigger] after[i]).is(
        (#[trigger] after[j]).event(),
    ) by {
        assert(!events[i].is(events[j].event()));
    }
}

} // verus!
