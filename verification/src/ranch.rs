//! Ranches: a bounded list of elves, the props at hand, and how foul the place is.

use vstd::prelude::*;
use crate::elf::{Elf, FOULING_MAX};
use crate::math::{first_index, lemma_first_index_is, lemma_first_index_bounds};
use crate::prop::UserProp;

verus! {

/// Most elves that a ranch can ever have room for.
pub const MAX_ELF_SLOT: u64 = 10;

/// Price of a slot that no price is listed for.
pub const UNLISTED_SLOT_PRICE: u64 = 30000000000000;

/// A player's ranch.
#[derive(Clone, Debug)]
pub struct Ranch {
    pub id: u64,
    /// Fouling level, in `0..=FOULING_MAX`; zero is clean.
    pub ranch_clean: u64,
    /// Number of elves that the ranch has room for.
    pub elf_slot: u64,
    pub elfs: Vec<Elf>,
    pub props: Vec<UserProp>,
}

/// What a ranch holds, as plain values.
pub struct RanchView {
    pub id: u64,
    pub ranch_clean: u64,
    pub elf_slot: u64,
    pub elfs: Seq<Elf>,
    pub props: Seq<UserProp>,
}

impl View for Ranch {
    type V = RanchView;

    open spec fn view(&self) -> RanchView {
        RanchView {
            id: self.id,
            ranch_clean: self.ranch_clean,
            elf_slot: self.elf_slot,
            elfs: self.elfs@,
            props: self.props@,
        }
    }
}

/// The ids of a list of elves, position by position.
pub open spec fn elf_ids(elfs: Seq<Elf>) -> Seq<u64> {
    Seq::new(elfs.len(), |i: int| elfs[i].id)
}

/// The types of a list of props, position by position.
pub open spec fn user_prop_types(props: Seq<UserProp>) -> Seq<u64> {
    Seq::new(props.len(), |i: int| props[i].prop_type)
}

/// Holds of the elves whose id is not `elf_id`.
pub open spec fn other_than(elf_id: u64) -> spec_fn(Elf) -> bool {
    |e: Elf| e.id != elf_id
}

impl RanchView {
    /// The fouling level and the slots are within their bounds, the elves fit
    /// in the slots, each elf is well formed, and the ids of the elves rise
    /// along the list.
    pub open spec fn wf(self) -> bool {
        &&& self.ranch_clean <= FOULING_MAX
        &&& self.elf_slot <= MAX_ELF_SLOT
        &&& self.elfs.len() <= self.elf_slot
        &&& forall|i: int| 0 <= i < self.elfs.len() ==> (#[trigger] self.elfs[i]).wf()
        &&& forall|i: int, j: int|
            0 <= i < j < self.elfs.len() ==> (#[trigger] self.elfs[i]).id < (#[trigger] self.elfs[j]).id
    }

    /// Position of the first elf with the id, or the number of elves.
    pub open spec fn elf_index(self, elf_id: u64) -> int {
        first_index(elf_ids(self.elfs), elf_id)
    }

    pub open spec fn has_elf(self, elf_id: u64) -> bool {
        self.elf_index(elf_id) < self.elfs.len()
    }

    /// Position of the first prop entry of the type, or the number of entries.
    pub open spec fn prop_index(self, prop_type: u64) -> int {
        first_index(user_prop_types(self.props), prop_type)
    }

    pub open spec fn has_prop(self, prop_type: u64) -> bool {
        self.prop_index(prop_type) < self.props.len()
    }

    /// Id of the newest elf, zero in an empty ranch.
    pub open spec fn last_elf_id(self) -> u64 {
        if self.elfs.len() == 0 {
            0
        } else {
            self.elfs.last().id
        }
    }

    /// The ranch with the elf at position `j` replaced.
    pub open spec fn set_elf(self, j: int, elf: Elf) -> RanchView {
        RanchView { elfs: self.elfs.update(j, elf), ..self }
    }

    /// The ranch with one more elf at the end.
    pub open spec fn push_elf(self, elf: Elf) -> RanchView {
        RanchView { elfs: self.elfs.push(elf), ..self }
    }

    /// The ranch without the elves of the given id.
    pub open spec fn without_elf(self, elf_id: u64) -> RanchView {
        RanchView { elfs: self.elfs.filter(other_than(elf_id)), ..self }
    }

    /// The ranch with one more prop: counted on the first entry of the prop's
    /// type, or the prop as a new entry at the end. The count stops at the
    /// largest number.
    pub open spec fn add_prop(self, user_prop: UserProp) -> RanchView {
        let k = self.prop_index(user_prop.prop_type);
        if k < self.props.len() {
            let count = self.props[k].count;
            let more = if count < u64::MAX {
                (count + 1) as u64
            } else {
                count
            };
            RanchView {
                props: self.props.update(k, UserProp { prop_type: self.props[k].prop_type, count: more }),
                ..self
            }
        } else {
            RanchView { props: self.props.push(user_prop), ..self }
        }
    }

    /// The ranch with room for one more elf, up to the most that a ranch can
    /// have.
    pub open spec fn add_slot(self) -> RanchView {
        if self.elf_slot < MAX_ELF_SLOT {
            RanchView { elf_slot: (self.elf_slot + 1) as u64, ..self }
        } else {
            self
        }
    }

    /// The ranch with one prop of the type less, where it has one.
    pub open spec fn take_prop(self, prop_type: u64) -> RanchView {
        let k = self.prop_index(prop_type);
        if k < self.props.len() && self.props[k].count > 0 {
            RanchView {
                props: self.props.update(
                    k,
                    UserProp { prop_type: self.props[k].prop_type, count: (self.props[k].count - 1) as u64 },
                ),
                ..self
            }
        } else {
            self
        }
    }
}

impl Ranch {
    pub open spec fn wf(self) -> bool {
        self@.wf()
    }

    /// All of `self` but the elves is as in `before`.
    pub open spec fn same_but_elfs(self, before: Ranch) -> bool {
        &&& self.id == before.id
        &&& self.ranch_clean == before.ranch_clean
        &&& self.elf_slot == before.elf_slot
        &&& self.props == before.props
    }

    /// All of `self` but the props is as in `before`.
    pub open spec fn same_but_props(self, before: Ranch) -> bool {
        &&& self.id == before.id
        &&& self.ranch_clean == before.ranch_clean
        &&& self.elf_slot == before.elf_slot
        &&& self.elfs == before.elfs
    }

    /// An empty, clean ranch with room for one elf.
    pub fn new(id: u64) -> (ranch: Self)
        ensures
            ranch@ == (RanchView { id, ranch_clean: 0, elf_slot: 1, elfs: Seq::empty(), props: Seq::empty() }),
            ranch.wf(),
    {
        Ranch { id, elf_slot: 1, ranch_clean: 0, elfs: Vec::new(), props: Vec::new() }
    }

    /// Position of the first elf with the id.
    pub fn elf_position(&self, elf_id: u64) -> (found: Option<usize>)
        ensures
            match found {
                Some(j) => j == self@.elf_index(elf_id) && self@.has_elf(elf_id) && self.elfs@[j as int].id
                    == elf_id,
                None => !self@.has_elf(elf_id),
            },
    {
        let mut j: usize = 0;
        while j < self.elfs.len()
            invariant
                j <= self.elfs.len(),
                forall|k: int| 0 <= k < j ==> elf_ids(self.elfs@)[k] != elf_id,
            decreases self.elfs.len() - j,
        {
            if self.elfs[j].id == elf_id {
                proof {
                    lemma_first_index_is(elf_ids(self.elfs@), elf_id, j as int);
                }
                return Some(j);
            }
            j += 1;
        }
        proof {
            lemma_first_index_is(elf_ids(self.elfs@), elf_id, j as int);
        }
        None
    }

    /// A copy of the elves of the ranch.
    pub fn elf_list(&self) -> (elfs: Vec<Elf>)
        ensures
            elfs@ == self.elfs@,
    {
        let mut elfs: Vec<Elf> = Vec::new();
        let mut k: usize = 0;
        while k < self.elfs.len()
            invariant
                k <= self.elfs.len(),
                elfs@ == self.elfs@.take(k as int),
            decreases self.elfs.len() - k,
        {
            elfs.push(self.elfs[k]);
            proof {
                assert(self.elfs@.take(k + 1) =~= self.elfs@.take(k as int).push(self.elfs@[k as int]));
            }
            k += 1;
        }
        proof {
            assert(self.elfs@.take(k as int) =~= self.elfs@);
        }
        elfs
    }

    /// Takes the elves of the given id out of the ranch.
    pub fn remove_elf(&mut self, elf_id: u64)
        ensures
            final(self)@ == old(self)@.without_elf(elf_id),
    {
        let mut kept: Vec<Elf> = Vec::new();
        let mut k: usize = 0;
        proof {
            reveal(Seq::filter);
            assert(self.elfs@.take(0) =~= Seq::empty());
        }
        while k < self.elfs.len()
            invariant
                k <= self.elfs.len(),
                kept@ == self.elfs@.take(k as int).filter(other_than(elf_id)),
            decreases self.elfs.len() - k,
        {
            let elf: Elf = self.elfs[k];
            proof {
                reveal(Seq::filter);
                assert(self.elfs@.take(k + 1).drop_last() =~= self.elfs@.take(k as int));
                assert(self.elfs@.take(k + 1).last() == elf);
            }
            if elf.id != elf_id {
                kept.push(elf);
            }
            k += 1;
        }
        proof {
            assert(self.elfs@.take(k as int) =~= self.elfs@);
        }
        self.elfs = kept;
    }

    /// Position of the first prop entry of the type.
    pub fn prop_position(&self, prop_type: u64) -> (found: Option<usize>)
        ensures
            match found {
                Some(k) => k == self@.prop_index(prop_type) && self@.has_prop(prop_type)
                    && self.props@[k as int].prop_type == prop_type,
                None => !self@.has_prop(prop_type),
            },
    {
        let mut k: usize = 0;
        while k < self.props.len()
            invariant
                k <= self.props.len(),
                forall|m: int| 0 <= m < k ==> user_prop_types(self.props@)[m] != prop_type,
            decreases self.props.len() - k,
        {
            if self.props[k].prop_type == prop_type {
                proof {
                    lemma_first_index_is(user_prop_types(self.props@), prop_type, k as int);
                }
                return Some(k);
            }
            k += 1;
        }
        proof {
            lemma_first_index_is(user_prop_types(self.props@), prop_type, k as int);
        }
        None
    }
}

/// What a position of an elf by id says of the list.
pub proof fn lemma_elf_index(ranch: RanchView, elf_id: u64)
    ensures
        0 <= ranch.elf_index(elf_id) <= ranch.elfs.len(),
        ranch.has_elf(elf_id) ==> ranch.elfs[ranch.elf_index(elf_id)].id == elf_id,
        forall|k: int| 0 <= k < ranch.elf_index(elf_id) ==> (#[trigger] ranch.elfs[k]).id != elf_id,
{
    lemma_first_index_bounds(elf_ids(ranch.elfs), elf_id);
    assert forall|k: int| 0 <= k < ranch.elf_index(elf_id) implies (#[trigger] ranch.elfs[k]).id
        != elf_id by {
        assert(elf_ids(ranch.elfs)[k] != elf_id);
    }
}

/// The price of a slot of a ranch.
#[derive(Clone, Copy, Debug, PartialEq, Eq, Structural)]
pub struct RanchSlot {
    /// Which slot of the ranch: the second, the third and so on.
    pub id: u64,
    pub price: u64,
}

/// The slot prices, from the second slot to the tenth.
pub open spec fn spec_ranch_slots() -> Seq<RanchSlot> {
    seq![
        RanchSlot { id: 2, price: 1000 },
        RanchSlot { id: 3, price: 1500 },
        RanchSlot { id: 4, price: 2000 },
        RanchSlot { id: 5, price: 3000 },
        RanchSlot { id: 6, price: 5000 },
        RanchSlot { id: 7, price: 7000 },
        RanchSlot { id: 8, price: 10000 },
        RanchSlot { id: 9, price: 15000 },
        RanchSlot { id: 10, price: 21000 },
    ]
}

/// The ids of a list of slots, position by position.
pub open spec fn slot_ids(slots: Seq<RanchSlot>) -> Seq<u64> {
    Seq::new(slots.len(), |i: int| slots[i].id)
}

/// The listed price of a slot, or the price of an unlisted one.
pub open spec fn spec_slot_price(id: u64) -> u64 {
    let i = first_index(slot_ids(spec_ranch_slots()), id);
    if i < spec_ranch_slots().len() {
        spec_ranch_slots()[i].price
    } else {
        UNLISTED_SLOT_PRICE
    }
}

impl RanchSlot {
    pub fn new(id: u64, price: u64) -> (slot: Self)
        ensures
            slot == (RanchSlot { id, price }),
    {
        RanchSlot { id, price }
    }

    pub fn get_all_ranch_slots() -> (list: Vec<RanchSlot>)
        ensures
            list@ == spec_ranch_slots(),
    {
        let list = vec![
            RanchSlot::new(2, 1000),
            RanchSlot::new(3, 1500),
            RanchSlot::new(4, 2000),
            RanchSlot::new(5, 3000),
            RanchSlot::new(6, 5000),
            RanchSlot::new(7, 7000),
            RanchSlot::new(8, 10000),
            RanchSlot::new(9, 15000),
            RanchSlot::new(10, 21000),
        ];
        assert(list@ =~= spec_ranch_slots());
        list
    }

    pub fn get_price_by_id(id: u64) -> (price: u64)
        ensures
            price == spec_slot_price(id),
    {
        let slots = RanchSlot::get_all_ranch_slots();
        let mut i: usize = 0;
        while i < slots.len()
            invariant
                i <= slots.len(),
                slots@ == spec_ranch_slots(),
                forall|j: int| 0 <= j < i ==> slot_ids(slots@)[j] != id,
            decreases slots.len() - i,
        {
            if slots[i].id == id {
                proof {
                    lemma_first_index_is(slot_ids(slots@), id, i as int);
                }
                return slots[i].price;
            }
            i += 1;
        }
        proof {
            lemma_first_index_is(slot_ids(slots@), id, i as int);
        }
        UNLISTED_SLOT_PRICE
    }
}

} // verus!
