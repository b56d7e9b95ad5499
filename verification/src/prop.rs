//! Props: what a player can buy for a ranch, and what a ranch holds of them.

use vstd::prelude::*;
use crate::math::first_index;

verus! {

/// Prop type of the magic broom.
pub const MAGIC_BROOM: u64 = 1;

/// Prop type of the cuckoo house.
pub const BUGU_HOUSE: u64 = 2;

/// Prop type of the money hive.
pub const MONEY_HIVE: u64 = 3;

/// Prop type of the carrot, a food.
pub const CARROT: u64 = 4;

/// Prop type of the cabbage, a food.
pub const CABBAGE: u64 = 5;

/// Prop type of the healing potion.
pub const HEALING_POTION: u64 = 6;

pub const MAGIC_BROOM_PRICE: u64 = 1;

pub const BUGU_HOUSE_PRICE: u64 = 1;

pub const MONEY_HIVE_PRICE: u64 = 1;

pub const CARROT_PRICE: u64 = 5;

pub const CABBAGE_PRICE: u64 = 75;

pub const HEALING_POTION_PRICE: u64 = 150;

/// The prop is paid for outside the game and handed out by the administrator.
pub const PRICE_TYPE_USDT: u64 = 1;

/// The prop is bought with gold.
pub const PRICE_TYPE_GOLD: u64 = 2;

/// An entry of the prop catalog.
#[derive(Clone, Copy, Debug, PartialEq, Eq, Structural)]
pub struct Prop {
    pub id: u64,
    pub price: u64,
    pub price_type: u64,
    pub prop_type: u64,
}

/// The prop catalog, in the order of its ids.
pub open spec fn spec_prop_list() -> Seq<Prop> {
    seq![
        Prop { id: 1, price: MAGIC_BROOM_PRICE, price_type: PRICE_TYPE_USDT, prop_type: MAGIC_BROOM },
        Prop { id: 2, price: BUGU_HOUSE_PRICE, price_type: PRICE_TYPE_USDT, prop_type: BUGU_HOUSE },
        Prop { id: 3, price: MONEY_HIVE_PRICE, price_type: PRICE_TYPE_USDT, prop_type: MONEY_HIVE },
        Prop { id: 4, price: CARROT_PRICE, price_type: PRICE_TYPE_GOLD, prop_type: CARROT },
        Prop { id: 5, price: CABBAGE_PRICE, price_type: PRICE_TYPE_GOLD, prop_type: CABBAGE },
        Prop { id: 6, price: HEALING_POTION_PRICE, price_type: PRICE_TYPE_GOLD, prop_type: HEALING_POTION },
    ]
}

/// The prop types of a list of catalog entries, position by position.
pub open spec fn prop_types(props: Seq<Prop>) -> Seq<u64> {
    Seq::new(props.len(), |i: int| props[i].prop_type)
}

/// The first catalog entry of the given type.
pub open spec fn spec_prop_by_type(prop_type: u64) -> Option<Prop> {
    let i = first_index(prop_types(spec_prop_list()), prop_type);
    if i < spec_prop_list().len() {
        Some(spec_prop_list()[i])
    } else {
        None
    }
}

impl Prop {
    pub fn new(id: u64, price: u64, price_type: u64, prop_type: u64) -> (p: Self)
        ensures
            p == (Prop { id, price, price_type, prop_type }),
    {
        Prop { id, price, price_type, prop_type }
    }

    pub fn get_all_pops() -> (list: Vec<Prop>)
        ensures
            list@ == spec_prop_list(),
    {
        let list = vec![
            Prop::new(1, MAGIC_BROOM_PRICE, PRICE_TYPE_USDT, MAGIC_BROOM),
            Prop::new(2, BUGU_HOUSE_PRICE, PRICE_TYPE_USDT, BUGU_HOUSE),
            Prop::new(3, MONEY_HIVE_PRICE, PRICE_TYPE_USDT, MONEY_HIVE),
            Prop::new(4, CARROT_PRICE, PRICE_TYPE_GOLD, CARROT),
            Prop::new(5, CABBAGE_PRICE, PRICE_TYPE_GOLD, CABBAGE),
            Prop::new(6, HEALING_POTION_PRICE, PRICE_TYPE_GOLD, HEALING_POTION),
        ];
        assert(list@ =~= spec_prop_list());
        list
    }

    /// Looks a prop up in the catalog by its type.
    pub fn get_prop_by_type(prop_type: u64) -> (found: Option<Prop>)
        ensures
            found == spec_prop_by_type(prop_type),
    {
        let list = Prop::get_all_pops();
        let mut i: usize = 0;
        while i < list.len()
            invariant
                i <= list.len(),
                list@ == spec_prop_list(),
                forall|j: int| 0 <= j < i ==> prop_types(list@)[j] != prop_type,
            decreases list.len() - i,
        {
            if list[i].prop_type == prop_type {
                proof {
                    crate::math::lemma_first_index_is(prop_types(list@), prop_type, i as int);
                }
                return Some(list[i]);
            }
            i += 1;
        }
        proof {
            crate::math::lemma_first_index_is(prop_types(list@), prop_type, i as int);
        }
        None
    }
}

/// What a ranch holds of one prop type.
#[derive(Clone, Copy, Debug, PartialEq, Eq, Structural)]
pub struct UserProp {
    pub prop_type: u64,
    pub count: u64,
}

impl UserProp {
    /// One prop of the given type.
    pub fn new(prop_type: u64) -> (p: Self)
        ensures
            p == (UserProp { prop_type, count: 1 }),
    {
        UserProp { prop_type, count: 1 }
    }
}

} // verus!
