//! A player's account: balance, counters and ranches, and the handlers that the
//! pending events of the player's elves run.

use vstd::prelude::*;
use crate::elf::{Elf, ATTRIBUTE_MAX, FOULING_MAX, HEALTH_REGEN, REGEN_FOULING_LIMIT};
use crate::event_type::{ADD_EXP, ADD_GOLD, ADD_SHIT, HEALTH_ADD, HEALTH_REDUCE, SATIETY_REDUCE};
use crate::event_type::{TICKS_PER_MINUTE, TICKS_PER_FOULING};
use crate::events::Event;
use crate::math::{first_index, lemma_first_index_is};
use crate::prop::UserProp;
use crate::ranch::{Ranch, RanchView, RanchSlot, MAX_ELF_SLOT, UNLISTED_SLOT_PRICE, spec_slot_price};

verus! {

/// Gold that a new player starts with.
pub const START_GOLD_BALANCE: u64 = 10000;

/// What a player owns, and what the player has done so far.
#[derive(Debug)]
pub struct PlayerData {
    /// Gold collected so far.
    pub gold_count: u64,
    /// Cleanings so far.
    pub clean_count: u64,
    /// Feedings so far.
    pub feed_count: u64,
    /// Treatments so far.
    pub health_count: u64,
    pub gold_balance: u64,
    pub ranchs: Vec<Ranch>,
}

/// A player's data as plain values.
pub struct PlayerDataView {
    pub gold_count: u64,
    pub clean_count: u64,
    pub feed_count: u64,
    pub health_count: u64,
    pub gold_balance: u64,
    pub ranchs: Seq<RanchView>,
}

/// The views of a list of ranches, position by position.
pub open spec fn ranch_views(ranchs: Seq<Ranch>) -> Seq<RanchView> {
    Seq::new(ranchs.len(), |i: int| ranchs[i]@)
}

/// The ids of a list of ranches, position by position.
pub open spec fn ranch_ids(ranchs: Seq<RanchView>) -> Seq<u64> {
    Seq::new(ranchs.len(), |i: int| ranchs[i].id)
}

impl View for PlayerData {
    type V = PlayerDataView;

    open spec fn view(&self) -> PlayerDataView {
        PlayerDataView {
            gold_count: self.gold_count,
            clean_count: self.clean_count,
            feed_count: self.feed_count,
            health_count: self.health_count,
            gold_balance: self.gold_balance,
            ranchs: ranch_views(self.ranchs@),
        }
    }
}

/// The event that re-arms a chain.
pub open spec fn spec_event(
    owner: [u64; 2],
    event_type: u64,
    ranch_id: u64,
    elf_id: u64,
    delta: usize,
) -> Event {
    Event { owner, event_type, ranch_id, elf_id, delta }
}

impl PlayerDataView {
    /// Every ranch is well formed.
    pub open spec fn wf(self) -> bool {
        forall|i: int| 0 <= i < self.ranchs.len() ==> (#[trigger] self.ranchs[i]).wf()
    }

    /// Position of the first ranch with the id, or the number of ranches.
    pub open spec fn ranch_index(self, ranch_id: u64) -> int {
        first_index(ranch_ids(self.ranchs), ranch_id)
    }

    pub open spec fn has_ranch(self, ranch_id: u64) -> bool {
        self.ranch_index(ranch_id) < self.ranchs.len()
    }

    /// The first ranch with the id.
    pub open spec fn ranch(self, ranch_id: u64) -> RanchView
        recommends
            self.has_ranch(ranch_id),
    {
        self.ranchs[self.ranch_index(ranch_id)]
    }

    /// Whether the first ranch with the id exists and has an elf with the id.
    pub open spec fn has_elf(self, ranch_id: u64, elf_id: u64) -> bool {
        self.has_ranch(ranch_id) && self.ranch(ranch_id).has_elf(elf_id)
    }

    /// The first elf with the id in the first ranch with the id.
    pub open spec fn elf(self, ranch_id: u64, elf_id: u64) -> Elf
        recommends
            self.has_elf(ranch_id, elf_id),
    {
        self.ranch(ranch_id).elfs[self.ranch(ranch_id).elf_index(elf_id)]
    }

    /// The data with the ranch at position `i` replaced.
    pub open spec fn set_ranch(self, i: int, ranch: RanchView) -> PlayerDataView {
        PlayerDataView { ranchs: self.ranchs.update(i, ranch), ..self }
    }

    /// The data with the first ranch of the id replaced, where there is one.
    pub open spec fn with_ranch(self, ranch_id: u64, ranch: RanchView) -> PlayerDataView {
        if self.has_ranch(ranch_id) {
            self.set_ranch(self.ranch_index(ranch_id), ranch)
        } else {
            self
        }
    }

    /// The data with the elf of `has_elf` replaced, where there is one.
    pub open spec fn with_elf(self, ranch_id: u64, elf_id: u64, elf: Elf) -> PlayerDataView {
        if self.has_elf(ranch_id, elf_id) {
            let ranch = self.ranch(ranch_id);
            self.with_ranch(ranch_id, ranch.set_elf(ranch.elf_index(elf_id), elf))
        } else {
            self
        }
    }
}

impl PlayerDataView {
    /// The data of a new player: the starting gold and nothing else.
    pub open spec fn spec_default() -> PlayerDataView {
        PlayerDataView {
            gold_count: 0,
            clean_count: 0,
            feed_count: 0,
            health_count: 0,
            gold_balance: START_GOLD_BALANCE,
            ranchs: Seq::empty(),
        }
    }

    /// The data after the elf has eaten the prop.
    pub open spec fn spec_feed_elf(self, ranch_id: u64, elf_id: u64, prop_type: u64) -> PlayerDataView {
        if self.has_elf(ranch_id, elf_id) {
            self.with_elf(ranch_id, elf_id, self.elf(ranch_id, elf_id).spec_fed(prop_type))
        } else {
            self
        }
    }

    /// The data after the elf was treated with the prop.
    pub open spec fn spec_healing_elf(self, ranch_id: u64, elf_id: u64, prop_type: u64) -> PlayerDataView {
        if self.has_elf(ranch_id, elf_id) {
            self.with_elf(ranch_id, elf_id, self.elf(ranch_id, elf_id).spec_healed(prop_type))
        } else {
            self
        }
    }

    /// The data with one prop of the type less in the ranch.
    pub open spec fn spec_reduce_prop(self, ranch_id: u64, prop_type: u64) -> PlayerDataView {
        if self.has_ranch(ranch_id) {
            self.with_ranch(ranch_id, self.ranch(ranch_id).take_prop(prop_type))
        } else {
            self
        }
    }

    /// The data with the elf added to the ranch.
    pub open spec fn spec_set_elf_by_ranch(self, ranch_id: u64, elf: Elf) -> PlayerDataView {
        if self.has_ranch(ranch_id) {
            self.with_ranch(ranch_id, self.ranch(ranch_id).push_elf(elf))
        } else {
            self
        }
    }

    /// The data with the prop added to the ranch.
    pub open spec fn spec_set_prop_by_ranch(self, ranch_id: u64, user_prop: UserProp) -> PlayerDataView {
        if self.has_ranch(ranch_id) {
            self.with_ranch(ranch_id, self.ranch(ranch_id).add_prop(user_prop))
        } else {
            self
        }
    }

    /// The data without the elves of the id in the ranch.
    pub open spec fn spec_remove_elf(self, ranch_id: u64, elf_id: u64) -> PlayerDataView {
        if self.has_elf(ranch_id, elf_id) {
            self.with_ranch(ranch_id, self.ranch(ranch_id).without_elf(elf_id))
        } else {
            self
        }
    }

    /// The data with one more slot in the ranch.
    pub open spec fn spec_add_ranch_elf_slot(self, ranch_id: u64) -> PlayerDataView {
        if self.has_ranch(ranch_id) {
            self.with_ranch(ranch_id, self.ranch(ranch_id).add_slot())
        } else {
            self
        }
    }

    /// Price of the next slot of the ranch.
    pub open spec fn spec_ranch_slot_price(self, ranch_id: u64) -> u64 {
        let slots = self.ranch(ranch_id).elf_slot;
        if slots < u64::MAX {
            spec_slot_price((slots + 1) as u64)
        } else {
            UNLISTED_SLOT_PRICE
        }
    }
}

impl PlayerDataView {
    /// One firing of the growth event: the elf grows by one step, and the chain
    /// goes on while the elf is not grown up. A missing ranch or elf ends it.
    pub open spec fn spec_elf_add_exp_event(
        self,
        player_id: [u64; 2],
        event_type: u64,
        ranch_id: u64,
        elf_id: u64,
    ) -> (PlayerDataView, Option<Event>) {
        if self.has_elf(ranch_id, elf_id) {
            let grown = self.elf(ranch_id, elf_id).spec_add_exp();
            (
                self.with_elf(ranch_id, elf_id, grown),
                if grown.exp < ATTRIBUTE_MAX {
                    Some(spec_event(player_id, event_type, ranch_id, elf_id, 1))
                } else {
                    None
                },
            )
        } else {
            (self, None)
        }
    }

    /// One firing of the production event: the elf's store fills by one step,
    /// and the chain goes on while the store has room.
    pub open spec fn spec_elf_add_gold_event(
        self,
        player_id: [u64; 2],
        event_type: u64,
        ranch_id: u64,
        elf_id: u64,
    ) -> (PlayerDataView, Option<Event>) {
        if self.has_elf(ranch_id, elf_id) {
            let richer = self.elf(ranch_id, elf_id).spec_add_gold();
            (
                self.with_elf(ranch_id, elf_id, richer),
                if richer.current_gold_store < richer.max_gold_store {
                    Some(spec_event(player_id, event_type, ranch_id, elf_id, TICKS_PER_MINUTE))
                } else {
                    None
                },
            )
        } else {
            (self, None)
        }
    }

    /// One firing of the health decay: the elf loses one step of health, and
    /// the chain goes on while health is left.
    pub open spec fn spec_elf_health_reduce_event(
        self,
        player_id: [u64; 2],
        event_type: u64,
        ranch_id: u64,
        elf_id: u64,
    ) -> (PlayerDataView, Option<Event>) {
        if self.has_elf(ranch_id, elf_id) {
            let weaker = self.elf(ranch_id, elf_id).spec_reduce_health(self.ranch(ranch_id).ranch_clean);
            (
                self.with_elf(ranch_id, elf_id, weaker),
                if weaker.health > 0 {
                    Some(spec_event(player_id, event_type, ranch_id, elf_id, 1))
                } else {
                    None
                },
            )
        } else {
            (self, None)
        }
    }

    /// One firing of the satiety decay: the elf loses one step of satiety, and
    /// the chain goes on while satiety is left.
    pub open spec fn spec_elf_satiety_reduce_event(
        self,
        player_id: [u64; 2],
        event_type: u64,
        ranch_id: u64,
        elf_id: u64,
    ) -> (PlayerDataView, Option<Event>) {
        if self.has_elf(ranch_id, elf_id) {
            let hungrier = self.elf(ranch_id, elf_id).spec_reduce_satiety();
            (
                self.with_elf(ranch_id, elf_id, hungrier),
                if hungrier.satiety > 0 {
                    Some(spec_event(player_id, event_type, ranch_id, elf_id, TICKS_PER_MINUTE))
                } else {
                    None
                },
            )
        } else {
            (self, None)
        }
    }

    /// The fouling level after one more fouling.
    pub open spec fn spec_fouler(level: u64) -> u64 {
        if level < FOULING_MAX {
            (level + 1) as u64
        } else {
            level
        }
    }

    /// One firing of the fouling event: the elf's ranch gets one level fouler,
    /// and the chain goes on while the ranch can get fouler still.
    pub open spec fn spec_add_shit_event(
        self,
        owner: [u64; 2],
        event_type: u64,
        ranch_id: u64,
        elf_id: u64,
    ) -> (PlayerDataView, Option<Event>) {
        if self.has_elf(ranch_id, elf_id) {
            let ranch = self.ranch(ranch_id);
            let level = Self::spec_fouler(ranch.ranch_clean);
            (
                self.with_ranch(ranch_id, RanchView { ranch_clean: level, ..ranch }),
                if level < FOULING_MAX {
                    Some(spec_event(owner, event_type, ranch_id, elf_id, TICKS_PER_FOULING))
                } else {
                    None
                },
            )
        } else {
            (self, None)
        }
    }

    /// One firing of the regeneration event: in a ranch that is clean enough
    /// the elf gets one step of health back; the chain goes on as long as the
    /// elf is there.
    pub open spec fn spec_add_health_event(
        self,
        owner: [u64; 2],
        event_type: u64,
        ranch_id: u64,
        elf_id: u64,
    ) -> (PlayerDataView, Option<Event>) {
        if self.has_elf(ranch_id, elf_id) {
            let better = self.elf(ranch_id, elf_id).spec_add_health(self.ranch(ranch_id).ranch_clean);
            (
                self.with_elf(ranch_id, elf_id, better),
                Some(spec_event(owner, event_type, ranch_id, elf_id, TICKS_PER_MINUTE)),
            )
        } else {
            (self, None)
        }
    }

    /// One firing of an event of any kind. An unknown kind does nothing and
    /// ends its chain.
    pub open spec fn spec_event_hand(
        self,
        player_id: [u64; 2],
        event_type: u64,
        ranch_id: u64,
        elf_id: u64,
    ) -> (PlayerDataView, Option<Event>) {
        if event_type == ADD_EXP {
            self.spec_elf_add_exp_event(player_id, event_type, ranch_id, elf_id)
        } else if event_type == ADD_GOLD {
            self.spec_elf_add_gold_event(player_id, event_type, ranch_id, elf_id)
        } else if event_type == HEALTH_REDUCE {
            self.spec_elf_health_reduce_event(player_id, event_type, ranch_id, elf_id)
        } else if event_type == SATIETY_REDUCE {
            self.spec_elf_satiety_reduce_event(player_id, event_type, ranch_id, elf_id)
        } else if event_type == ADD_SHIT {
            self.spec_add_shit_event(player_id, event_type, ranch_id, elf_id)
        } else if event_type == HEALTH_ADD {
            self.spec_add_health_event(player_id, event_type, ranch_id, elf_id)
        } else {
            (self, None)
        }
    }
}

impl PlayerData {
    pub open spec fn wf(self) -> bool {
        self@.wf()
    }

    /// All of `self` but the ranch at position `i` is as in `before`.
    pub open spec fn same_but_ranch(self, before: PlayerData, i: int) -> bool {
        &&& self.gold_count == before.gold_count
        &&& self.clean_count == before.clean_count
        &&& self.feed_count == before.feed_count
        &&& self.health_count == before.health_count
        &&& self.gold_balance == before.gold_balance
        &&& self.ranchs@.len() == before.ranchs@.len()
        &&& forall|k: int| 0 <= k < self.ranchs@.len() && k != i ==> self.ranchs@[k] == before.ranchs@[k]
    }

    /// Position of the first ranch with the id.
    pub fn ranch_position(&self, ranch_id: u64) -> (found: Option<usize>)
        ensures
            match found {
                Some(i) => i == self@.ranch_index(ranch_id) && self@.has_ranch(ranch_id)
                    && self.ranchs@[i as int].id == ranch_id && self.ranchs@[i as int]@
                    == self@.ranch(ranch_id),
                None => !self@.has_ranch(ranch_id),
            },
    {
        let mut i: usize = 0;
        while i < self.ranchs.len()
            invariant
                i <= self.ranchs.len(),
                forall|k: int| 0 <= k < i ==> ranch_ids(self@.ranchs)[k] != ranch_id,
            decreases self.ranchs.len() - i,
        {
            if self.ranchs[i].id == ranch_id {
                proof {
                    lemma_first_index_is(ranch_ids(self@.ranchs), ranch_id, i as int);
                }
                return Some(i);
            }
            i += 1;
        }
        proof {
            lemma_first_index_is(ranch_ids(self@.ranchs), ranch_id, i as int);
        }
        None
    }

    /// Positions of the first ranch with the id and of the first elf with the id
    /// in it.
    pub fn elf_position(&self, ranch_id: u64, elf_id: u64) -> (found: Option<(usize, usize)>)
        ensures
            match found {
                Some((i, j)) => {
                    &&& self@.has_elf(ranch_id, elf_id)
                    &&& i == self@.ranch_index(ranch_id)
                    &&& j == self@.ranch(ranch_id).elf_index(elf_id)
                    &&& i < self.ranchs@.len()
                    &&& j < self.ranchs@[i as int].elfs@.len()
                    &&& self.ranchs@[i as int].elfs@[j as int] == self@.elf(ranch_id, elf_id)
                    &&& self.ranchs@[i as int]@ == self@.ranch(ranch_id)
                },
                None => !self@.has_elf(ranch_id, elf_id),
            },
    {
        match self.ranch_position(ranch_id) {
            Some(i) => {
                match self.ranchs[i].elf_position(elf_id) {
                    Some(j) => Some((i, j)),
                    None => None,
                }
            },
            None => None,
        }
    }

    /// Replaces the elf at the given positions.
    fn put_elf(&mut self, i: usize, j: usize, elf: Elf)
        requires
            i < old(self).ranchs@.len(),
            j < old(self).ranchs@[i as int].elfs@.len(),
        ensures
            final(self)@ == old(self)@.set_ranch(i as int, old(self)@.ranchs[i as int].set_elf(j as int, elf)),
    {
        self.ranchs[i].elfs[j] = elf;
        proof {
            let want = old(self)@.set_ranch(i as int, old(self)@.ranchs[i as int].set_elf(j as int, elf));
            assert(self.ranchs@[i as int]@.elfs =~= want.ranchs[i as int].elfs);
            assert(self@.ranchs =~= want.ranchs);
        }
    }

    /// Replaces the fouling level of the ranch at the given position.
    fn put_ranch_clean(&mut self, i: usize, level: u64)
        requires
            i < old(self).ranchs@.len(),
        ensures
            final(self)@ == old(self)@.set_ranch(
                i as int,
                RanchView { ranch_clean: level, ..old(self)@.ranchs[i as int] },
            ),
    {
        self.ranchs[i].ranch_clean = level;
        proof {
            let want = old(self)@.set_ranch(
                i as int,
                RanchView { ranch_clean: level, ..old(self)@.ranchs[i as int] },
            );
            assert(self@.ranchs =~= want.ranchs);
        }
    }

    /// Runs the growth event of an elf.
    pub fn elf_add_exp_event(
        &mut self,
        player_id: [u64; 2],
        event_type: u64,
        ranch_id: u64,
        elf_id: u64,
    ) -> (next: Option<Event>)
        ensures
            (final(self)@, next) == old(self)@.spec_elf_add_exp_event(
                player_id,
                event_type,
                ranch_id,
                elf_id,
            ),
            old(self).wf() ==> final(self).wf(),
    {
        proof {
            if old(self).wf() {
                crate::chains::lemma_handlers_wf(old(self)@, player_id, event_type, ranch_id, elf_id);
            }
        }
        match self.elf_position(ranch_id, elf_id) {
            Some((i, j)) => {
                let mut elf: Elf = self.ranchs[i].elfs[j];
                let added_exp: u64 = Elf::compute_need_exp(elf.growth_time, elf.exp);
                elf.exp = elf.exp + added_exp;
                self.put_elf(i, j, elf);
                if elf.exp < ATTRIBUTE_MAX {
                    Some(Event { owner: player_id, event_type, ranch_id, elf_id, delta: 1 })
                } else {
                    None
                }
            },
            None => None,
        }
    }

    /// Runs the production event of an elf.
    pub fn elf_add_gold_event(
        &mut self,
        player_id: [u64; 2],
        event_type: u64,
        ranch_id: u64,
        elf_id: u64,
    ) -> (next: Option<Event>)
        ensures
            (final(self)@, next) == old(self)@.spec_elf_add_gold_event(
                player_id,
                event_type,
                ranch_id,
                elf_id,
            ),
            old(self).wf() ==> final(self).wf(),
    {
        proof {
            if old(self).wf() {
                crate::chains::lemma_handlers_wf(old(self)@, player_id, event_type, ranch_id, elf_id);
            }
        }
        match self.elf_position(ranch_id, elf_id) {
            Some((i, j)) => {
                let mut elf: Elf = self.ranchs[i].elfs[j];
                let add_gold: u64 = Elf::compute_need_gold(elf);
                elf.current_gold_store = elf.current_gold_store + add_gold;
                self.put_elf(i, j, elf);
                if elf.current_gold_store < elf.max_gold_store {
                    Some(Event { owner: player_id, event_type, ranch_id, elf_id, delta: TICKS_PER_MINUTE })
                } else {
                    None
                }
            },
            None => None,
        }
    }

    /// Runs the health decay of an elf.
    pub fn elf_health_reduce_event(
        &mut self,
        player_id: [u64; 2],
        event_type: u64,
        ranch_id: u64,
        elf_id: u64,
    ) -> (next: Option<Event>)
        ensures
            (final(self)@, next) == old(self)@.spec_elf_health_reduce_event(
                player_id,
                event_type,
                ranch_id,
                elf_id,
            ),
            old(self).wf() ==> final(self).wf(),
    {
        proof {
            if old(self).wf() {
                crate::chains::lemma_handlers_wf(old(self)@, player_id, event_type, ranch_id, elf_id);
            }
        }
        match self.elf_position(ranch_id, elf_id) {
            Some((i, j)) => {
                let ranch_clean: u64 = self.ranchs[i].ranch_clean;
                let mut elf: Elf = self.ranchs[i].elfs[j];
                let health_reduce: u64 = Elf::compute_health_reduce(elf, ranch_clean);
                if elf.health > health_reduce {
                    elf.health -= health_reduce;
                } else {
                    elf.health = 0;
                }
                self.put_elf(i, j, elf);
                if elf.health > 0 {
                    Some(Event { owner: player_id, event_type, ranch_id, elf_id, delta: 1 })
                } else {
                    None
                }
            },
            None => None,
        }
    }

    /// Runs the satiety decay of an elf.
    pub fn elf_satiety_reduce_event(
        &mut self,
        player_id: [u64; 2],
        event_type: u64,
        ranch_id: u64,
        elf_id: u64,
    ) -> (next: Option<Event>)
        ensures
            (final(self)@, next) == old(self)@.spec_elf_satiety_reduce_event(
                player_id,
                event_type,
                ranch_id,
                elf_id,
            ),
            old(self).wf() ==> final(self).wf(),
    {
        proof {
            if old(self).wf() {
                crate::chains::lemma_handlers_wf(old(self)@, player_id, event_type, ranch_id, elf_id);
            }
        }
        match self.elf_position(ranch_id, elf_id) {
            Some((i, j)) => {
                let mut elf: Elf = self.ranchs[i].elfs[j];
                let satiety_reduce: u64 = Elf::compute_satiety_reduce(elf);
                if elf.satiety > satiety_reduce {
                    elf.satiety -= satiety_reduce;
                } else {
                    elf.satiety = 0;
                }
                self.put_elf(i, j, elf);
                if elf.satiety > 0 {
                    Some(Event { owner: player_id, event_type, ranch_id, elf_id, delta: TICKS_PER_MINUTE })
                } else {
                    None
                }
            },
            None => None,
        }
    }

    /// Runs the fouling event of an elf: its ranch gets fouler.
    pub fn add_shit_event(
        &mut self,
        owner: [u64; 2],
        event_type: u64,
        ranch_id: u64,
        elf_id: u64,
    ) -> (next: Option<Event>)
        ensures
            (final(self)@, next) == old(self)@.spec_add_shit_event(owner, event_type, ranch_id, elf_id),
            old(self).wf() ==> final(self).wf(),
    {
        proof {
            if old(self).wf() {
                crate::chains::lemma_handlers_wf(old(self)@, owner, event_type, ranch_id, elf_id);
            }
        }
        match self.elf_position(ranch_id, elf_id) {
            Some((i, _j)) => {
                let mut level: u64 = self.ranchs[i].ranch_clean;
                if level < FOULING_MAX {
                    level += 1;
                }
                self.put_ranch_clean(i, level);
                if level < FOULING_MAX {
                    Some(Event { owner, event_type, ranch_id, elf_id, delta: TICKS_PER_FOULING })
                } else {
                    None
                }
            },
            None => None,
        }
    }

    /// Runs the regeneration event of an elf.
    pub fn add_health_event(
        &mut self,
        owner: [u64; 2],
        event_type: u64,
        ranch_id: u64,
        elf_id: u64,
    ) -> (next: Option<Event>)
        ensures
            (final(self)@, next) == old(self)@.spec_add_health_event(owner, event_type, ranch_id, elf_id),
            old(self).wf() ==> final(self).wf(),
    {
        proof {
            if old(self).wf() {
                crate::chains::lemma_handlers_wf(old(self)@, owner, event_type, ranch_id, elf_id);
            }
        }
        match self.elf_position(ranch_id, elf_id) {
            Some((i, j)) => {
                let mut elf: Elf = self.ranchs[i].elfs[j];
                if self.ranchs[i].ranch_clean < REGEN_FOULING_LIMIT {
                    let room: u64 = if elf.health <= ATTRIBUTE_MAX {
                        ATTRIBUTE_MAX - elf.health
                    } else {
                        0
                    };
                    if room > HEALTH_REGEN {
                        elf.health += HEALTH_REGEN;
                    } else {
                        elf.health += room;
                    }
                }
                self.put_elf(i, j, elf);
                Some(Event { owner, event_type, ranch_id, elf_id, delta: TICKS_PER_MINUTE })
            },
            None => None,
        }
    }

    /// Runs a due event of any kind and returns the event that re-arms its
    /// chain, if the chain goes on.
    pub fn event_hand(
        &mut self,
        player_id: [u64; 2],
        event_type: u64,
        ranch_id: u64,
        elf_id: u64,
    ) -> (next: Option<Event>)
        ensures
            (final(self)@, next) == old(self)@.spec_event_hand(player_id, event_type, ranch_id, elf_id),
            old(self).wf() ==> final(self).wf(),
    {
        proof {
            if old(self).wf() {
                crate::chains::lemma_event_hand_wf(old(self)@, player_id, event_type, ranch_id, elf_id);
            }
        }
        if event_type == ADD_EXP {
            self.elf_add_exp_event(player_id, event_type, ranch_id, elf_id)
        } else if event_type == ADD_GOLD {
            self.elf_add_gold_event(player_id, event_type, ranch_id, elf_id)
        } else if event_type == HEALTH_REDUCE {
            self.elf_health_reduce_event(player_id, event_type, ranch_id, elf_id)
        } else if event_type == SATIETY_REDUCE {
            self.elf_satiety_reduce_event(player_id, event_type, ranch_id, elf_id)
        } else if event_type == ADD_SHIT {
            self.add_shit_event(player_id, event_type, ranch_id, elf_id)
        } else if event_type == HEALTH_ADD {
            self.add_health_event(player_id, event_type, ranch_id, elf_id)
        } else {
            None
        }
    }

    /// The first elf with the id in the first ranch with the id.
    pub fn get_elf_mut(&mut self, ranch_id: u64, elf_id: u64) -> (found: Option<&mut Elf>)
        ensures
            match found {
                Some(elf) => {
                    &&& old(self)@.has_elf(ranch_id, elf_id)
                    &&& *elf == old(self)@.elf(ranch_id, elf_id)
                    &&& final(self).same_but_ranch(*old(self), old(self)@.ranch_index(ranch_id))
                    &&& final(self).ranchs@[old(self)@.ranch_index(ranch_id)].same_but_elfs(
                        old(self).ranchs@[old(self)@.ranch_index(ranch_id)],
                    )
                    &&& final(self).ranchs@[old(self)@.ranch_index(ranch_id)].elfs@ == old(
                        self,
                    )@.ranch(ranch_id).elfs.update(
                        old(self)@.ranch(ranch_id).elf_index(elf_id),
                        *final(elf),
                    )
                },
                None => !old(self)@.has_elf(ranch_id, elf_id) && final(self)@ == old(self)@,
            },
    {
        match self.elf_position(ranch_id, elf_id) {
            Some((i, j)) => Some(&mut self.ranchs[i].elfs[j]),
            None => None,
        }
    }

    /// The first ranch with the id.
    pub fn get_ranch_mut(&mut self, ranch_id: u64) -> (found: Option<&mut Ranch>)
        ensures
            match found {
                Some(ranch) => {
                    &&& old(self)@.has_ranch(ranch_id)
                    &&& ranch@ == old(self)@.ranch(ranch_id)
                    &&& final(self).same_but_ranch(*old(self), old(self)@.ranch_index(ranch_id))
                    &&& final(self).ranchs@[old(self)@.ranch_index(ranch_id)] == *final(ranch)
                },
                None => !old(self)@.has_ranch(ranch_id) && final(self)@ == old(self)@,
            },
    {
        match self.ranch_position(ranch_id) {
            Some(i) => Some(&mut self.ranchs[i]),
            None => None,
        }
    }

    /// The first entry of the prop type in the first ranch with the id.
    pub fn get_prop_by_type(&mut self, ranch_id: u64, prop_type: u64) -> (found: Option<&mut UserProp>)
        ensures
            match found {
                Some(prop) => {
                    &&& old(self)@.has_ranch(ranch_id)
                    &&& old(self)@.ranch(ranch_id).has_prop(prop_type)
                    &&& *prop == old(self)@.ranch(ranch_id).props[old(self)@.ranch(ranch_id).prop_index(
                        prop_type,
                    )]
                    &&& final(self).same_but_ranch(*old(self), old(self)@.ranch_index(ranch_id))
                    &&& final(self).ranchs@[old(self)@.ranch_index(ranch_id)].same_but_props(
                        old(self).ranchs@[old(self)@.ranch_index(ranch_id)],
                    )
                    &&& final(self).ranchs@[old(self)@.ranch_index(ranch_id)].props@ == old(
                        self,
                    )@.ranch(ranch_id).props.update(
                        old(self)@.ranch(ranch_id).prop_index(prop_type),
                        *final(prop),
                    )
                },
                None => {
                    &&& !(old(self)@.has_ranch(ranch_id) && old(self)@.ranch(ranch_id).has_prop(prop_type))
                    &&& final(self)@ == old(self)@
                },
            },
    {
        match self.ranch_position(ranch_id) {
            Some(i) => {
                match self.ranchs[i].prop_position(prop_type) {
                    Some(k) => Some(&mut self.ranchs[i].props[k]),
                    None => None,
                }
            },
            None => None,
        }
    }

    /// Takes the elves of the id out of the ranch, and says whether there was
    /// one.
    pub fn remove_elf_mut(&mut self, ranch_id: u64, elf_id: u64) -> (removed: bool)
        ensures
            removed == old(self)@.has_elf(ranch_id, elf_id),
            final(self)@ == old(self)@.spec_remove_elf(ranch_id, elf_id),
    {
        match self.elf_position(ranch_id, elf_id) {
            Some((i, _j)) => {
                self.ranchs[i].remove_elf(elf_id);
                proof {
                    assert(self@.ranchs =~= old(self)@.spec_remove_elf(ranch_id, elf_id).ranchs);
                }
                true
            },
            None => false,
        }
    }

    /// Number of elves in the ranch.
    pub fn get_elf_len(&mut self, ranch_id: u64) -> (len: Option<u64>)
        ensures
            *final(self) == *old(self),
            len == if old(self)@.has_ranch(ranch_id) {
                Some(old(self)@.ranch(ranch_id).elfs.len() as u64)
            } else {
                None
            },
    {
        match self.ranch_position(ranch_id) {
            Some(i) => Some(self.ranchs[i].elfs.len() as u64),
            None => None,
        }
    }

    /// Id of the newest elf of the ranch, zero in an empty ranch.
    pub fn get_elf_last_id(&self, ranch_id: u64) -> (id: Option<u64>)
        ensures
            id == if self@.has_ranch(ranch_id) {
                Some(self@.ranch(ranch_id).last_elf_id())
            } else {
                None
            },
    {
        match self.ranch_position(ranch_id) {
            Some(i) => {
                let count: usize = self.ranchs[i].elfs.len();
                if count == 0 {
                    Some(0)
                } else {
                    Some(self.ranchs[i].elfs[count - 1].id)
                }
            },
            None => None,
        }
    }

    /// Feeds the prop to the elf. The prop is taken elsewhere.
    pub fn feed_elf(&mut self, ranch_id: u64, elf_id: u64, prop_type: u64)
        ensures
            final(self)@ == old(self)@.spec_feed_elf(ranch_id, elf_id, prop_type),
    {
        match self.elf_position(ranch_id, elf_id) {
            Some((i, j)) => {
                let mut elf: Elf = self.ranchs[i].elfs[j];
                let can_add_satiety: u64 = Elf::compute_need_add_satiety(prop_type, elf);
                elf.satiety = elf.satiety + can_add_satiety;
                self.put_elf(i, j, elf);
            },
            None => {},
        }
    }

    /// Treats the elf with the prop. The prop is taken elsewhere.
    pub fn healing_elf(&mut self, ranch_id: u64, elf_id: u64, prop_type: u64)
        ensures
            final(self)@ == old(self)@.spec_healing_elf(ranch_id, elf_id, prop_type),
    {
        match self.elf_position(ranch_id, elf_id) {
            Some((i, j)) => {
                let mut elf: Elf = self.ranchs[i].elfs[j];
                let can_add_health: u64 = Elf::compute_need_add_health(prop_type, elf);
                elf.health = elf.health + can_add_health;
                self.put_elf(i, j, elf);
            },
            None => {},
        }
    }

    /// Takes one prop of the type from the ranch, where it has one.
    pub fn reduce_prop(&mut self, ranch_id: u64, prop_type: u64)
        ensures
            final(self)@ == old(self)@.spec_reduce_prop(ranch_id, prop_type),
    {
        match self.ranch_position(ranch_id) {
            Some(i) => {
                match self.ranchs[i].prop_position(prop_type) {
                    Some(k) => {
                        if self.ranchs[i].props[k].count > 0 {
                            self.ranchs[i].props[k].count -= 1;
                            proof {
                                let want = old(self)@.spec_reduce_prop(ranch_id, prop_type);
                                assert(self.ranchs@[i as int]@.props =~= want.ranchs[i as int].props);
                                assert(self@.ranchs =~= want.ranchs);
                            }
                        } else {
                            proof {
                                assert(self@.ranchs =~= old(self)@.spec_reduce_prop(ranch_id, prop_type).ranchs);
                            }
                        }
                    },
                    None => {
                        proof {
                            assert(self@.ranchs =~= old(self)@.spec_reduce_prop(ranch_id, prop_type).ranchs);
                        }
                    },
                }
            },
            None => {},
        }
    }

    /// Adds the elf to the ranch.
    pub fn set_elf_by_ranch(&mut self, ranch_id: u64, elf: Elf)
        ensures
            final(self)@ == old(self)@.spec_set_elf_by_ranch(ranch_id, elf),
    {
        match self.ranch_position(ranch_id) {
            Some(i) => {
                self.ranchs[i].elfs.push(elf);
                proof {
                    let want = old(self)@.spec_set_elf_by_ranch(ranch_id, elf);
                    assert(self.ranchs@[i as int]@.elfs =~= want.ranchs[i as int].elfs);
                    assert(self@.ranchs =~= want.ranchs);
                }
            },
            None => {},
        }
    }

    /// Adds the prop to the ranch: one more on the entry of its type, or the
    /// prop as a new entry.
    pub fn set_prop_by_ranch(&mut self, ranch_id: u64, user_prop: UserProp)
        ensures
            final(self)@ == old(self)@.spec_set_prop_by_ranch(ranch_id, user_prop),
    {
        match self.ranch_position(ranch_id) {
            Some(i) => {
                match self.ranchs[i].prop_position(user_prop.prop_type) {
                    Some(k) => {
                        if self.ranchs[i].props[k].count < u64::MAX {
                            self.ranchs[i].props[k].count += 1;
                        }
                    },
                    None => {
                        self.ranchs[i].props.push(user_prop);
                    },
                }
                proof {
                    let want = old(self)@.spec_set_prop_by_ranch(ranch_id, user_prop);
                    assert(self.ranchs@[i as int]@.props =~= want.ranchs[i as int].props);
                    assert(self@.ranchs =~= want.ranchs);
                }
            },
            None => {},
        }
    }

    /// Price of the next slot of the ranch.
    pub fn get_ranch_slot_price(&self, ranch_id: u64) -> (price: u64)
        requires
            self@.has_ranch(ranch_id),
        ensures
            price == self@.spec_ranch_slot_price(ranch_id),
    {
        let i: usize = self.ranch_position(ranch_id).unwrap();
        let slot_count: u64 = self.ranchs[i].elf_slot;
        if slot_count < u64::MAX {
            RanchSlot::get_price_by_id(slot_count + 1)
        } else {
            UNLISTED_SLOT_PRICE
        }
    }

    /// Gives the ranch room for one more elf, up to the most that a ranch can
    /// have.
    pub fn add_ranch_elf_slot(&mut self, ranch_id: u64)
        ensures
            final(self)@ == old(self)@.spec_add_ranch_elf_slot(ranch_id),
    {
        match self.ranch_position(ranch_id) {
            Some(i) => {
                if self.ranchs[i].elf_slot < MAX_ELF_SLOT {
                    self.ranchs[i].elf_slot += 1;
                }
                proof {
                    assert(self@.ranchs =~= old(self)@.spec_add_ranch_elf_slot(ranch_id).ranchs);
                }
            },
            None => {},
        }
    }
}

impl Default for PlayerData {
    fn default() -> (data: Self)
        ensures
            data@ == PlayerDataView::spec_default(),
    {
        let data = Self {
            gold_count: 0,
            clean_count: 0,
            feed_count: 0,
            health_count: 0,
            gold_balance: START_GOLD_BALANCE,
            ranchs: Vec::new(),
        };
        assert(data@.ranchs =~= Seq::empty());
        data
    }
}

/// What `get_elf_mut` leaves behind, said of the views: the account with the
/// elf replaced by what was written through the borrow.
pub proof fn lemma_elf_written(before: PlayerData, after: PlayerData, ranch_id: u64, elf_id: u64, elf: Elf)
    requires
        before@.has_elf(ranch_id, elf_id),
        after.same_but_ranch(before, before@.ranch_index(ranch_id)),
        after.ranchs@[before@.ranch_index(ranch_id)].same_but_elfs(
            before.ranchs@[before@.ranch_index(ranch_id)],
        ),
        after.ranchs@[before@.ranch_index(ranch_id)].elfs@ == before@.ranch(ranch_id).elfs.update(
            before@.ranch(ranch_id).elf_index(elf_id),
            elf,
        ),
    ensures
        after@ == before@.with_elf(ranch_id, elf_id, elf),
{
    crate::math::lemma_first_index_bounds(ranch_ids(before@.ranchs), ranch_id);
    let i = before@.ranch_index(ranch_id);
    let want = before@.with_elf(ranch_id, elf_id, elf);
    assert(after@.ranchs[i] == want.ranchs[i]);
    assert(after@.ranchs =~= want.ranchs);
}

/// What `get_ranch_mut` leaves behind, said of the views: the account with
/// the ranch replaced by what was written through the borrow.
pub proof fn lemma_ranch_written(before: PlayerData, after: PlayerData, ranch_id: u64, ranch: Ranch)
    requires
        before@.has_ranch(ranch_id),
        after.same_but_ranch(before, before@.ranch_index(ranch_id)),
        after.ranchs@[before@.ranch_index(ranch_id)] == ranch,
    ensures
        after@ == before@.with_ranch(ranch_id, ranch@),
{
    crate::math::lemma_first_index_bounds(ranch_ids(before@.ranchs), ranch_id);
    assert(after@.ranchs =~= before@.with_ranch(ranch_id, ranch@).ranchs);
}

/// What `get_prop_by_type` leaves behind, said of the views: the account with
/// the prop entry replaced by what was written through the borrow.
pub proof fn lemma_prop_written(
    before: PlayerData,
    after: PlayerData,
    ranch_id: u64,
    prop_type: u64,
    prop: UserProp,
)
    requires
        before@.has_ranch(ranch_id),
        before@.ranch(ranch_id).has_prop(prop_type),
        after.same_but_ranch(before, before@.ranch_index(ranch_id)),
        after.ranchs@[before@.ranch_index(ranch_id)].same_but_props(
            before.ranchs@[before@.ranch_index(ranch_id)],
        ),
        after.ranchs@[before@.ranch_index(ranch_id)].props@ == before@.ranch(ranch_id).props.update(
            before@.ranch(ranch_id).prop_index(prop_type),
            prop,
        ),
    ensures
        after@ == before@.with_ranch(
            ranch_id,
            RanchView {
                props: before@.ranch(ranch_id).props.update(
                    before@.ranch(ranch_id).prop_index(prop_type),
                    prop,
                ),
                ..before@.ranch(ranch_id)
            },
        ),
{
    crate::math::lemma_first_index_bounds(ranch_ids(before@.ranchs), ranch_id);
    let i = before@.ranch_index(ranch_id);
    let want = before@.with_ranch(
        ranch_id,
        RanchView {
            props: before@.ranch(ranch_id).props.update(before@.ranch(ranch_id).prop_index(prop_type), prop),
            ..before@.ranch(ranch_id)
        },
    );
    assert(after@.ranchs[i] == want.ranchs[i]);
    assert(after@.ranchs =~= want.ranchs);
}

/// A player: who it is, how many commands it has sent, and what it owns.
#[derive(Debug)]
pub struct ElfPlayer {
    pub player_id: [u64; 2],
    /// Number of the next command that the player may send.
    pub nonce: u64,
    pub data: PlayerData,
}

/// A player as plain values.
pub struct PlayerView {
    pub player_id: [u64; 2],
    pub nonce: u64,
    pub data: PlayerDataView,
}

impl View for ElfPlayer {
    type V = PlayerView;

    open spec fn view(&self) -> PlayerView {
        PlayerView { player_id: self.player_id, nonce: self.nonce, data: self.data@ }
    }
}

/// The player id that belongs to a public key: its two middle words.
pub open spec fn spec_pkey_to_pid(pkey: [u64; 4]) -> [u64; 2] {
    [pkey[1], pkey[2]]
}

impl ElfPlayer {
    /// A player who has sent nothing yet, with the starting gold and no ranch.
    pub fn new_from_pid(player_id: [u64; 2]) -> (player: Self)
        ensures
            player@ == (PlayerView { player_id, nonce: 0, data: PlayerDataView::spec_default() }),
    {
        ElfPlayer { player_id, nonce: 0, data: PlayerData::default() }
    }

    /// The player id that belongs to a public key.
    pub fn pkey_to_pid(pkey: &[u64; 4]) -> (pid: [u64; 2])
        ensures
            pid == spec_pkey_to_pid(*pkey),
    {
        let pid: [u64; 2] = [pkey[1], pkey[2]];
        assert(pid =~= spec_pkey_to_pid(*pkey));
        pid
    }

    /// Takes the command with the number `nonce`, which must be the one that
    /// the player may send next.
    pub fn check_and_inc_nonce(&mut self, nonce: u64)
        requires
            old(self).nonce == nonce,
            nonce < u64::MAX,
        ensures
            final(self)@ == (PlayerView { nonce: (nonce + 1) as u64, ..old(self)@ }),
    {
        self.nonce += 1;
    }
}

} // verus!
