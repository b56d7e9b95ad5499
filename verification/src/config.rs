//! The catalogs that a client needs to show the game, and the draw of a number
//! from a seed.

use vstd::prelude::*;
use crate::elf::{Elf, ElfGradeRandom, StandElf, spec_grade_ranges, spec_stand_elf_list};
use crate::prop::{Prop, spec_prop_list};

verus! {

/// A draw in `1..=max` from a seed.
pub open spec fn spec_random(rand: u64, max: u64) -> u64 {
    (rand % max + 1) as u64
}

/// A draw in `1..=max` from a seed.
pub fn get_random(rand: u64, max: u64) -> (draw: u64)
    requires
        max > 0,
    ensures
        draw == spec_random(rand, max),
        1 <= draw <= max,
{
    rand % max + 1
}

/// The catalogs of elves, of draw ranges and of props.
#[derive(Clone, Debug)]
pub struct Config {
    pub elf_list: Vec<StandElf>,
    pub rand_list: Vec<ElfGradeRandom>,
    pub store_list: Vec<Prop>,
}

/// An entry of a shop.
#[derive(Clone, Copy, Debug, PartialEq, Eq, Structural)]
pub struct Store {
    pub id: u64,
    pub price: u64,
    pub pop_type: u64,
}

impl Config {
    /// The catalogs of the game.
    pub fn new() -> (config: Self)
        ensures
            config.elf_list@ == spec_stand_elf_list(),
            config.rand_list@ == spec_grade_ranges(),
            config.store_list@ == spec_prop_list(),
    {
        Config {
            elf_list: Elf::get_all_elfs(),
            rand_list: Elf::get_all_randoms(),
            store_list: Prop::get_all_pops(),
        }
    }

    /// Whether the host advances the simulation by itself.
    pub fn autotick() -> (auto: bool)
        ensures
            auto,
    {
        true
    }

    /// There are no bounties: none costs anything.
    pub fn get_bounty_cost(&self, redeem_info: u64) -> (cost: u64)
        ensures
            cost == 0,
    {
        0
    }

    /// There are no bounties: none pays anything.
    pub fn get_bounty_reward(&self, redeem_info: u64) -> (reward: u64)
        ensures
            reward == 0,
    {
        0
    }
}

} // verus!
