//! Advancing the simulation: every event that is due runs its handler, in the
//! order of the queue, and the chains that go on are queued again; then one
//! tick passes for all that is pending.

use vstd::prelude::*;
use crate::events::Event;

use crate::player::{PlayerDataView, PlayerView};
use crate::queue::{
    EventQueueView, Pending, insert_position, lemma_insert_position_bounds, lemma_insert_position_is,
    spec_advance, spec_insert, spec_next_counter,
};
use crate::state::{State, StateView};

verus! {

impl StateView {
    /// Runs the handler of an event for its owner. An owner who is no player
    /// ends the chain.
    pub open spec fn spec_handle(self, event: Event) -> (StateView, Option<Event>) {
        if self.has_player(event.owner) {
            let player = self.player(event.owner);
            let handled = player.data.spec_event_hand(
                event.owner,
                event.event_type,
                event.ranch_id,
                event.elf_id,
            );
            (self.with_player(event.owner, PlayerView { data: handled.0, ..player }), handled.1)
        } else {
            (self, None)
        }
    }

    /// The state with other pending events.
    pub open spec fn with_events(self, events: Seq<Pending>) -> StateView {
        StateView { queue: EventQueueView { counter: self.queue.counter, events }, ..self }
    }

    /// Whether the first pending event is due now.
    pub open spec fn head_is_due(self) -> bool {
        self.queue.events.len() > 0 && self.queue.events[0].due == 0
    }

    /// Number of leading pending events that are due now.
    pub open spec fn due_now(self) -> nat {
        insert_position(self.queue.events, 0) as nat
    }

    /// Takes the first pending event, which is due, runs its handler, and
    /// queues the event that the handler re-arms.
    pub open spec fn spec_fire(self) -> StateView
        recommends
            self.head_is_due(),
    {
        let popped = self.with_events(self.queue.events.drop_first());
        let handled = popped.spec_handle(self.queue.events[0].event());
        match handled.1 {
            Some(next) => handled.0.with_events(spec_insert(handled.0.queue.events, next)),
            None => handled.0,
        }
    }

    /// Fires up to `n` events that are due now, one after another.
    pub open spec fn spec_drain_n(self, n: nat) -> StateView
        decreases n,
    {
        if n == 0 || !self.head_is_due() {
            self
        } else {
            self.spec_fire().spec_drain_n((n - 1) as nat)
        }
    }

    /// Fires every event that is due now.
    pub open spec fn spec_drain(self) -> StateView {
        self.spec_drain_n(self.due_now())
    }

    /// One tick: every event that is due now fires, then all that is pending
    /// is due one tick sooner, and the count of ticks goes up.
    pub open spec fn spec_tick(self) -> StateView {
        let drained = self.spec_drain();
        StateView {
            queue: EventQueueView {
                counter: spec_next_counter(drained.queue.counter),
                events: spec_advance(drained.queue.events),
            },
            ..drained
        }
    }
}

/// An event that a handler re-arms is the event that fired, with a countdown
/// of at least one tick.
pub proof fn lemma_rearmed_event(
    data: PlayerDataView,
    player_id: [u64; 2],
    event_type: u64,
    ranch_id: u64,
    elf_id: u64,
)
    ensures
        match data.spec_event_hand(player_id, event_type, ranch_id, elf_id).1 {
            Some(next) => {
                &&& next.delta >= 1
                &&& next.owner == player_id
                &&& next.event_type == event_type
                &&& next.ranch_id == ranch_id
                &&& next.elf_id == elf_id
            },
            None => true,
        },
{
}

/// Queueing an event that is not due now leaves the number of events that are
/// due now as it was.
pub proof fn lemma_insert_keeps_due_now(events: Seq<Pending>, next: Event)
    requires
        next.delta >= 1,
    ensures
        insert_position(spec_insert(events, next), 0) == insert_position(events, 0),
{
    let z = insert_position(events, 0);
    let p = insert_position(events, next.delta as nat);
    lemma_insert_position_bounds(events, 0);
    lemma_insert_position_bounds(events, next.delta as nat);
    if p < z {
        assert(events[p].due <= 0);
    }
    let after = spec_insert(events, next);
    assert forall|k: int| 0 <= k < z implies (#[trigger] after[k]).due <= 0 by {
        assert(after[k] == events[k]);
    }
    if z < after.len() {
        if p == z {
        } else {
            assert(after[z] == events[z]);
        }
    }
    lemma_insert_position_is(after, 0, z);
}

/// Firing the first event, which is due, leaves one event less that is due
/// now; so draining goes on with the state after the firing.
pub proof fn lemma_fire_step(s: StateView)
    requires
        s.head_is_due(),
    ensures
        s.due_now() >= 1,
        s.spec_fire().due_now() == s.due_now() - 1,
        s.spec_drain() == s.spec_fire().spec_drain(),
{
    let events = s.queue.events;
    let rest = events.drop_first();
    let popped = s.with_events(rest);
    let event = events[0].event();
    let handled = popped.spec_handle(event);
    assert(handled.0.queue.events == rest);
    assert(insert_position(events, 0) == 1 + insert_position(rest, 0));
    lemma_insert_position_bounds(rest, 0);
    if popped.has_player(event.owner) {
        lemma_rearmed_event(
            popped.player(event.owner).data,
            event.owner,
            event.event_type,
            event.ranch_id,
            event.elf_id,
        );
    }
    match handled.1 {
        Some(next) => {
            lemma_insert_keeps_due_now(rest, next);
        },
        None => {},
    }
}

/// Where the first pending event is not due, nothing is.
pub proof fn lemma_nothing_due(s: StateView)
    requires
        !s.head_is_due(),
    ensures
        s.spec_drain() == s,
{
}

impl State {
    /// Runs the handler of an event for its owner, and returns the event that
    /// re-arms the chain, if it goes on.
    pub fn handle(&mut self, event: &Event) -> (next: Option<Event>)
        ensures
            (final(self)@, next) == old(self)@.spec_handle(*event),
            old(self).wf() ==> final(self).wf(),
    {
        proof {
            if old(self).wf() {
                crate::invariants::lemma_handle_wf(old(self)@, *event);
            }
        }
        match self.player_position(&event.owner) {
            Some(k) => {
                let next = self.players[k].data.event_hand(
                    event.owner,
                    event.event_type,
                    event.ranch_id,
                    event.elf_id,
                );
                proof {
                    assert(self@.players =~= old(self)@.spec_handle(*event).0.players);
                }
                next
            },
            None => None,
        }
    }

    /// Fires every event that is due now.
    pub fn drain(&mut self)
        ensures
            final(self)@ == old(self)@.spec_drain(),
            old(self).wf() ==> final(self).wf(),
    {
        proof {
            if old(self).wf() {
                crate::invariants::lemma_drain_wf(old(self)@, old(self)@.due_now());
            }
        }
        loop
            invariant
                self@.spec_drain() == old(self)@.spec_drain(),
            ensures
                self@ == old(self)@.spec_drain(),
            decreases self@.due_now(),
        {
            let ghost before = self@;
            match self.queue.pop_due() {
                None => {
                    proof {
                        lemma_nothing_due(before);
                        assert(self@.queue == before.queue);
                        assert(self@ == before);
                    }
                    break ;
                },
                Some(event) => {
                    proof {
                        lemma_fire_step(before);
                    }
                    let next = self.handle(&event);
                    match next {
                        Some(rearmed) => {
                            self.queue.insert(rearmed);
                        },
                        None => {},
                    }
                    proof {
                        assert(self@.queue == before.spec_fire().queue);
                        assert(self@ == before.spec_fire());
                    }
                },
            }
        }
    }

    /// One tick of the simulation.
    pub fn tick(&mut self)
        ensures
            final(self)@ == old(self)@.spec_tick(),
            old(self).wf() ==> final(self).wf(),
    {
        proof {
            if old(self).wf() {
                crate::invariants::lemma_tick_wf(old(self)@);
            }
        }
        self.drain();
        self.queue.advance();
    }
}

} // verus!
