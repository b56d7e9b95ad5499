//! Pending events. An event is known by its owner, its kind, its ranch and its
//! elf; the countdown is no part of what it is.

use vstd::prelude::*;

verus! {

/// A step of the simulation that is due after a countdown.
#[derive(Clone, Copy, Debug)]
pub struct Event {
    pub owner: [u64; 2],
    pub event_type: u64,
    pub ranch_id: u64,
    pub elf_id: u64,
    /// Ticks until the event is due.
    pub delta: usize,
}

impl Event {
    /// Two events are the same pending event: all but the countdown agrees.
    pub open spec fn same_identity(self, other: Event) -> bool {
        &&& self.owner == other.owner
        &&& self.event_type == other.event_type
        &&& self.ranch_id == other.ranch_id
        &&& self.elf_id == other.elf_id
    }

    /// The same event with another countdown.
    pub open spec fn with_delta(self, delta: usize) -> Event {
        Event { delta, ..self }
    }

    /// Number of words that an event takes when it is stored.
    pub fn u64size() -> (size: usize)
        ensures
            size == 6,
    {
        6
    }

    pub fn get_delta(&self) -> (delta: usize)
        ensures
            delta == self.delta,
    {
        self.delta
    }

    /// Lets `d` ticks of the countdown pass.
    pub fn progress(&mut self, d: usize)
        requires
            d <= old(self).delta,
        ensures
            *final(self) == old(self).with_delta((old(self).delta - d) as usize),
    {
        self.delta -= d;
    }
}

impl PartialEq for Event {
    fn eq(&self, other: &Self) -> (same: bool) {
        let same = self.owner[0] == other.owner[0] && self.owner[1] == other.owner[1]
            && self.event_type == other.event_type && self.ranch_id == other.ranch_id
            && self.elf_id == other.elf_id;
        proof {
            if same {
                assert(self.owner =~= other.owner);
            }
        }
        same
    }
}

/// `==` on events compares identities and leaves the countdown out.
impl vstd::std_specs::cmp::PartialEqSpecImpl for Event {
    open spec fn obeys_eq_spec() -> bool {
        true
    }

    open spec fn eq_spec(&self, other: &Self) -> bool {
        self.same_identity(*other)
    }
}

} // verus!
