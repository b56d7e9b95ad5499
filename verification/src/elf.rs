//! Elves, their catalog, and the arithmetic of one simulation step: how much an
//! elf grows, produces, starves and sickens per firing of its events.

use vstd::prelude::*;
use crate::math::{ceil_div, min_int, lemma_ceil_div_unique};
use crate::config::{get_random, spec_random};
use crate::error::ERROR_INVALID_PURCHASE_CONDITION;
use crate::player::{PlayerData, PlayerDataView};
use crate::prop::{CARROT, CABBAGE, HEALING_POTION};

verus! {

/// Upper end of health, satiety and growth progress.
pub const ATTRIBUTE_MAX: u64 = 10000;

/// Fouling level at which a ranch stops getting dirtier.
pub const FOULING_MAX: u64 = 10;

/// Seconds between two ticks.
pub const TICK_SECONDS: u64 = 5;

/// Seconds in one unit of an elf's growth time.
pub const GROWTH_UNIT_SECONDS: u64 = 6;

/// Ticks in a minute.
pub const TICKS_IN_MINUTE: u64 = 12;

/// Ticks in an hour.
pub const TICKS_IN_HOUR: u64 = 720;

/// Health a clean ranch gives back per firing.
pub const HEALTH_REGEN: u64 = 25;

/// Fouling level below which a ranch gives health back.
pub const REGEN_FOULING_LIMIT: u64 = 5;

/// Fouling level above which a ranch makes its elves sicken faster.
pub const SICKENING_FOULING_LIMIT: u64 = 5;

/// Satiety below which an elf sickens faster.
pub const HUNGRY_BELOW: u64 = 5000;

/// Satiety a carrot gives.
pub const CARROT_SATIETY: u64 = 1000;

/// Satiety a cabbage gives.
pub const CABBAGE_SATIETY: u64 = 5000;

/// Health a healing potion gives.
pub const HEALING_POTION_HEALTH: u64 = 5000;

pub const HIPPO: u64 = 1;

pub const SLERF: u64 = 2;

pub const GOAT: u64 = 3;

pub const PNUT: u64 = 4;

pub const POPCAT: u64 = 5;

pub const BRETT: u64 = 6;

pub const WIF: u64 = 7;

pub const BONK: u64 = 8;

pub const PEPE: u64 = 9;

pub const DOGE: u64 = 10;

/// A creature of a ranch.
#[derive(Clone, Copy, Debug)]
pub struct Elf {
    pub id: u64,
    pub name: &'static str,
    /// In `0..=ATTRIBUTE_MAX`.
    pub health: u64,
    /// In `0..=ATTRIBUTE_MAX`.
    pub satiety: u64,
    /// Growth progress, in `0..=ATTRIBUTE_MAX`.
    pub exp: u64,
    /// Time to grow up, in units of `GROWTH_UNIT_SECONDS`.
    pub growth_time: u64,
    pub grade: u64,
    pub max_gold_store: u64,
    /// In `0..=max_gold_store`.
    pub current_gold_store: u64,
    /// Gold per minute before the factors of health, age, grade and satiety.
    pub current_gold_produce_base: u64,
    pub elf_type: u64,
}

/// Growth per tick of an elf with the given growth time: the full range spread
/// over the ticks of its growth time, rounded up.
pub open spec fn spec_exp_per_tick(growth_time: u64) -> int {
    ceil_div(ATTRIBUTE_MAX * TICK_SECONDS, growth_time * GROWTH_UNIT_SECONDS)
}

/// Growth of one step: the growth per tick, cut at what is left to grow. An elf
/// without growth time is grown up at once.
pub open spec fn spec_need_exp(growth_time: u64, exp: u64) -> int {
    let left = if exp <= ATTRIBUTE_MAX {
        ATTRIBUTE_MAX - exp
    } else {
        0
    };
    if growth_time == 0 {
        left
    } else {
        min_int(spec_exp_per_tick(growth_time), left)
    }
}

/// Health lost per minute, in tenths of a percent of the full range: one
/// percent, half a percent more in a foul ranch, half a percent more when hungry.
pub open spec fn spec_health_rate(satiety: u64, ranch_clean: u64) -> int {
    10 + (if ranch_clean > SICKENING_FOULING_LIMIT {
        5int
    } else {
        0int
    }) + (if satiety < HUNGRY_BELOW {
        5int
    } else {
        0int
    })
}

/// Health lost in one step: the rate per minute spread over the ticks of a
/// minute, rounded up and cut at the health that is left.
pub open spec fn spec_health_reduce(elf: Elf, ranch_clean: u64) -> int {
    min_int(
        ceil_div(spec_health_rate(elf.satiety, ranch_clean) * ATTRIBUTE_MAX / 1000, TICKS_IN_MINUTE as int),
        elf.health as int,
    )
}

/// Satiety lost in one step: two percent of the full range per hour, spread over
/// the ticks of an hour, rounded up and cut at the satiety that is left.
pub open spec fn spec_satiety_reduce(elf: Elf) -> int {
    min_int(ceil_div(2 * ATTRIBUTE_MAX / 100, TICKS_IN_HOUR as int), elf.satiety as int)
}

/// Factor of health on production, in tenths.
pub open spec fn spec_health_factor(health: u64) -> int {
    if health >= 8000 {
        10
    } else if health >= 5000 {
        8
    } else if health >= 3000 {
        5
    } else {
        0
    }
}

/// Factor of age on production, in tenths.
pub open spec fn spec_growth_factor(exp: u64) -> int {
    if exp < 5000 {
        5
    } else {
        10
    }
}

/// Factor of the grade on production, in tenths.
pub open spec fn spec_grade_factor(grade: u64) -> int {
    if grade == 2 {
        15
    } else if grade == 3 {
        25
    } else if grade == 4 {
        40
    } else if grade == 5 {
        50
    } else {
        10
    }
}

/// Factor of satiety on production, in tenths.
pub open spec fn spec_satiety_factor(satiety: u64) -> int {
    if satiety >= 5000 {
        10
    } else if satiety >= 1000 {
        5
    } else {
        0
    }
}

/// Product of the four factors, in ten-thousandths.
pub open spec fn spec_gold_factor(elf: Elf) -> int {
    spec_health_factor(elf.health) * spec_growth_factor(elf.exp) * spec_grade_factor(elf.grade)
        * spec_satiety_factor(elf.satiety)
}

/// Room left in an elf's gold store.
pub open spec fn spec_gold_room(elf: Elf) -> int {
    if elf.current_gold_store <= elf.max_gold_store {
        elf.max_gold_store - elf.current_gold_store
    } else {
        0
    }
}

/// Gold produced in one step: the base rate per minute times the factors, spread
/// over the ticks of a minute, rounded up and cut at the room left in the store.
pub open spec fn spec_need_gold(elf: Elf) -> int {
    min_int(
        ceil_div(elf.current_gold_produce_base * spec_gold_factor(elf), 10000 * TICKS_IN_MINUTE),
        spec_gold_room(elf),
    )
}

/// Satiety that a prop gives, before the cut at the full range.
pub open spec fn spec_prop_satiety(prop_type: u64) -> int {
    if prop_type == CARROT {
        CARROT_SATIETY as int
    } else if prop_type == CABBAGE {
        CABBAGE_SATIETY as int
    } else {
        0
    }
}

/// Satiety that feeding the prop adds to the elf.
pub open spec fn spec_need_add_satiety(prop_type: u64, elf: Elf) -> int {
    let room = if elf.satiety <= ATTRIBUTE_MAX {
        ATTRIBUTE_MAX - elf.satiety
    } else {
        0
    };
    min_int(spec_prop_satiety(prop_type), room)
}

/// Health that a prop gives, before the cut at the full range.
pub open spec fn spec_prop_health(prop_type: u64) -> int {
    if prop_type == HEALING_POTION {
        HEALING_POTION_HEALTH as int
    } else {
        0
    }
}

/// Health that treating the elf with the prop adds.
pub open spec fn spec_need_add_health(prop_type: u64, elf: Elf) -> int {
    let room = if elf.health <= ATTRIBUTE_MAX {
        ATTRIBUTE_MAX - elf.health
    } else {
        0
    };
    min_int(spec_prop_health(prop_type), room)
}

/// Health that a clean ranch gives back in one step.
pub open spec fn spec_health_regen(elf: Elf) -> int {
    let room = if elf.health <= ATTRIBUTE_MAX {
        ATTRIBUTE_MAX - elf.health
    } else {
        0
    };
    min_int(HEALTH_REGEN as int, room)
}

impl Elf {
    /// Every bounded attribute is within its bounds, type and grade are of the
    /// catalog, and the name is that of the type.
    pub open spec fn wf(self) -> bool {
        &&& self.name == spec_elf_name(self.elf_type)
        &&& self.health <= ATTRIBUTE_MAX
        &&& self.satiety <= ATTRIBUTE_MAX
        &&& self.exp <= ATTRIBUTE_MAX
        &&& self.current_gold_store <= self.max_gold_store
        &&& in_catalog(self.elf_type, self.grade)
    }

    /// A newborn elf: healthy, fed, not grown, with an empty store.
    pub fn new(
        id: u64,
        name: &'static str,
        growth_time: u64,
        grade: u64,
        max_gold_store: u64,
        current_gold_produce_base: u64,
        elf_type: u64,
    ) -> (elf: Self)
        ensures
            elf == (Elf {
                id,
                name,
                health: ATTRIBUTE_MAX,
                satiety: ATTRIBUTE_MAX,
                exp: 0,
                growth_time,
                grade,
                max_gold_store,
                current_gold_store: 0,
                current_gold_produce_base,
                elf_type,
            }),
    {
        Elf {
            id,
            name,
            health: ATTRIBUTE_MAX,
            satiety: ATTRIBUTE_MAX,
            exp: 0,
            growth_time,
            grade,
            max_gold_store,
            current_gold_store: 0,
            current_gold_produce_base,
            elf_type,
        }
    }

    /// Growth to add in one step.
    pub fn compute_need_exp(growth_time: u64, exp: u64) -> (need: u64)
        ensures
            need == spec_need_exp(growth_time, exp),
            exp <= ATTRIBUTE_MAX ==> exp + need <= ATTRIBUTE_MAX,
            exp < ATTRIBUTE_MAX ==> need >= 1,
    {
        let left: u64 = if exp <= ATTRIBUTE_MAX {
            ATTRIBUTE_MAX - exp
        } else {
            0
        };
        if growth_time == 0 {
            return left;
        }
        let total: u64 = ATTRIBUTE_MAX * TICK_SECONDS;
        let per_tick: u64 = if growth_time > total / GROWTH_UNIT_SECONDS {
            proof {
                lemma_ceil_div_unique(total as int, growth_time * GROWTH_UNIT_SECONDS, 1);
            }
            1
        } else {
            let span: u64 = growth_time * GROWTH_UNIT_SECONDS;
            (total + span - 1) / span
        };
        proof {
            crate::math::lemma_ceil_div_is_least(total as int, growth_time * GROWTH_UNIT_SECONDS);
            assert(spec_exp_per_tick(growth_time) >= 1) by (nonlinear_arith)
                requires
                    spec_exp_per_tick(growth_time) * (growth_time * GROWTH_UNIT_SECONDS) >= total,
                    total == 50000,
                    growth_time * GROWTH_UNIT_SECONDS > 0,
            ;
        }
        if per_tick > left {
            left
        } else {
            per_tick
        }
    }

    /// Health to take in one step.
    pub fn compute_health_reduce(elf: Elf, ranch_clean: u64) -> (need: u64)
        ensures
            need == spec_health_reduce(elf, ranch_clean),
            need <= elf.health,
            elf.health > 0 ==> need >= 1,
    {
        if elf.health == 0 {
            return 0;
        }
        let mut rate: u64 = 10;
        if ranch_clean > SICKENING_FOULING_LIMIT {
            rate += 5;
        }
        if elf.satiety < HUNGRY_BELOW {
            rate += 5;
        }
        let per_minute: u64 = rate * ATTRIBUTE_MAX / 1000;
        let per_tick: u64 = (per_minute + TICKS_IN_MINUTE - 1) / TICKS_IN_MINUTE;
        if per_tick > elf.health {
            elf.health
        } else {
            per_tick
        }
    }

    /// Satiety to take in one step.
    pub fn compute_satiety_reduce(elf: Elf) -> (need: u64)
        ensures
            need == spec_satiety_reduce(elf),
            need <= elf.satiety,
            elf.satiety > 0 ==> need == 1,
    {
        if elf.satiety == 0 {
            return 0;
        }
        let per_hour: u64 = 2 * ATTRIBUTE_MAX / 100;
        let per_tick: u64 = (per_hour + TICKS_IN_HOUR - 1) / TICKS_IN_HOUR;
        if per_tick > elf.satiety {
            elf.satiety
        } else {
            per_tick
        }
    }

    /// Gold to add in one step.
    pub fn compute_need_gold(elf: Elf) -> (need: u64)
        ensures
            need == spec_need_gold(elf),
            elf.current_gold_store <= elf.max_gold_store ==> elf.current_gold_store + need
                <= elf.max_gold_store,
    {
        let room: u64 = if elf.current_gold_store <= elf.max_gold_store {
            elf.max_gold_store - elf.current_gold_store
        } else {
            0
        };
        let health_factor: u64 = if elf.health >= 8000 {
            10
        } else if elf.health >= 5000 {
            8
        } else if elf.health >= 3000 {
            5
        } else {
            0
        };
        let growth_factor: u64 = if elf.exp < 5000 {
            5
        } else {
            10
        };
        let grade_factor: u64 = if elf.grade == 2 {
            15
        } else if elf.grade == 3 {
            25
        } else if elf.grade == 4 {
            40
        } else if elf.grade == 5 {
            50
        } else {
            10
        };
        let satiety_factor: u64 = if elf.satiety >= 5000 {
            10
        } else if elf.satiety >= 1000 {
            5
        } else {
            0
        };
        let by_health_and_age: u64 = health_factor * growth_factor;
        let by_grade: u64 = by_health_and_age * grade_factor;
        let factor: u64 = by_grade * satiety_factor;
        assert(factor == spec_gold_factor(elf) && factor <= 50000) by (nonlinear_arith)
            requires
                health_factor <= 10,
                growth_factor <= 10,
                grade_factor <= 50,
                satiety_factor <= 10,
                factor == health_factor * growth_factor * grade_factor * satiety_factor,
                health_factor == spec_health_factor(elf.health),
                growth_factor == spec_growth_factor(elf.exp),
                grade_factor == spec_grade_factor(elf.grade),
                satiety_factor == spec_satiety_factor(elf.satiety),
                spec_gold_factor(elf) == spec_health_factor(elf.health) * spec_growth_factor(elf.exp)
                    * spec_grade_factor(elf.grade) * spec_satiety_factor(elf.satiety),
        ;
        let base: u128 = elf.current_gold_produce_base as u128;
        assert(base * (factor as u128) <= 0xffff_ffff_ffff_ffff * 50000) by (nonlinear_arith)
            requires
                base <= 0xffff_ffff_ffff_ffff,
                factor <= 50000,
        ;
        let per_minute: u128 = base * (factor as u128);
        let per_tick: u128 = (per_minute + 119999) / 120000;
        if per_tick > room as u128 {
            room
        } else {
            per_tick as u64
        }
    }

    /// Satiety that feeding the prop adds.
    pub fn compute_need_add_satiety(prop_type: u64, elf: Elf) -> (need: u64)
        ensures
            need == spec_need_add_satiety(prop_type, elf),
            elf.satiety <= ATTRIBUTE_MAX ==> elf.satiety + need <= ATTRIBUTE_MAX,
    {
        let room: u64 = if elf.satiety <= ATTRIBUTE_MAX {
            ATTRIBUTE_MAX - elf.satiety
        } else {
            0
        };
        let gift: u64 = if prop_type == CARROT {
            CARROT_SATIETY
        } else if prop_type == CABBAGE {
            CABBAGE_SATIETY
        } else {
            0
        };
        if gift > room {
            room
        } else {
            gift
        }
    }

    /// Health that treating with the prop adds.
    pub fn compute_need_add_health(prop_type: u64, elf: Elf) -> (need: u64)
        ensures
            need == spec_need_add_health(prop_type, elf),
            elf.health <= ATTRIBUTE_MAX ==> elf.health + need <= ATTRIBUTE_MAX,
    {
        let room: u64 = if elf.health <= ATTRIBUTE_MAX {
            ATTRIBUTE_MAX - elf.health
        } else {
            0
        };
        let gift: u64 = if prop_type == HEALING_POTION {
            HEALING_POTION_HEALTH
        } else {
            0
        };
        if gift > room {
            room
        } else {
            gift
        }
    }
}

impl Elf {
    /// The elf after one step of growth.
    pub open spec fn spec_add_exp(self) -> Elf {
        Elf { exp: (self.exp + spec_need_exp(self.growth_time, self.exp)) as u64, ..self }
    }

    /// The elf after one step of production.
    pub open spec fn spec_add_gold(self) -> Elf {
        Elf { current_gold_store: (self.current_gold_store + spec_need_gold(self)) as u64, ..self }
    }

    /// The elf after one step of health decay in a ranch of the given fouling.
    pub open spec fn spec_reduce_health(self, ranch_clean: u64) -> Elf {
        Elf { health: (self.health - spec_health_reduce(self, ranch_clean)) as u64, ..self }
    }

    /// The elf after one step of satiety decay.
    pub open spec fn spec_reduce_satiety(self) -> Elf {
        Elf { satiety: (self.satiety - spec_satiety_reduce(self)) as u64, ..self }
    }

    /// The elf after one step of regeneration in a ranch of the given fouling.
    pub open spec fn spec_add_health(self, ranch_clean: u64) -> Elf {
        if ranch_clean < REGEN_FOULING_LIMIT {
            Elf { health: (self.health + spec_health_regen(self)) as u64, ..self }
        } else {
            self
        }
    }

    /// The elf after eating a prop.
    pub open spec fn spec_fed(self, prop_type: u64) -> Elf {
        Elf { satiety: (self.satiety + spec_need_add_satiety(prop_type, self)) as u64, ..self }
    }

    /// The elf after a treatment with a prop.
    pub open spec fn spec_healed(self, prop_type: u64) -> Elf {
        Elf { health: (self.health + spec_need_add_health(prop_type, self)) as u64, ..self }
    }

    /// The elf with its gold store emptied.
    pub open spec fn spec_collected(self) -> Elf {
        Elf { current_gold_store: 0, ..self }
    }
}

/// Whether the catalog has an elf of this type and grade.
pub open spec fn in_catalog(elf_type: u64, grade: u64) -> bool {
    HIPPO <= elf_type <= DOGE && 1 <= grade <= 5
}

/// Name of the elves of a type.
pub open spec fn spec_elf_name(elf_type: u64) -> &'static str {
    if elf_type == HIPPO {
        "Hippo"
    } else if elf_type == SLERF {
        "Slerf"
    } else if elf_type == GOAT {
        "Goat"
    } else if elf_type == PNUT {
        "Pnut"
    } else if elf_type == POPCAT {
        "Popcat"
    } else if elf_type == BRETT {
        "Brett"
    } else if elf_type == WIF {
        "Wif"
    } else if elf_type == BONK {
        "Bonk"
    } else if elf_type == PEPE {
        "Pepe"
    } else {
        "Doge"
    }
}

/// Price of an elf of a type, to buy and to sell.
pub open spec fn spec_elf_price(elf_type: u64) -> u64 {
    if elf_type == HIPPO {
        100
    } else if elf_type == SLERF {
        300
    } else if elf_type == GOAT {
        1800
    } else if elf_type == PNUT {
        6000
    } else if elf_type == POPCAT {
        15000
    } else if elf_type == BRETT {
        37500
    } else if elf_type == WIF {
        93750
    } else if elf_type == BONK {
        152000
    } else if elf_type == PEPE {
        220000
    } else {
        300000
    }
}

/// Gold per minute that an elf of a type produces at best, before the factors.
pub open spec fn spec_produce_base(elf_type: u64) -> u64 {
    if elf_type == HIPPO {
        18
    } else if elf_type == SLERF {
        30
    } else if elf_type == GOAT {
        50
    } else if elf_type == PNUT {
        70
    } else if elf_type == POPCAT {
        100
    } else if elf_type == BRETT {
        120
    } else if elf_type == WIF {
        150
    } else if elf_type == BONK {
        190
    } else if elf_type == PEPE {
        230
    } else {
        270
    }
}

/// Growth time of an elf by type and grade: the three small types grow faster.
pub open spec fn spec_growth_time(elf_type: u64, grade: u64) -> u64 {
    if elf_type <= GOAT {
        if grade == 1 {
            50
        } else if grade == 2 {
            75
        } else if grade == 3 {
            100
        } else if grade == 4 {
            150
        } else {
            200
        }
    } else {
        if grade == 1 {
            80
        } else if grade == 2 {
            160
        } else if grade == 3 {
            210
        } else if grade == 4 {
            280
        } else {
            300
        }
    }
}

/// Minutes of production that the store of an elf of a grade holds.
pub open spec fn spec_store_base(grade: u64) -> u64 {
    if grade == 1 {
        5
    } else if grade == 2 {
        10
    } else if grade == 3 {
        15
    } else if grade == 4 {
        20
    } else {
        30
    }
}

/// The catalog entry of a type and grade.
pub open spec fn spec_stand_elf(elf_type: u64, grade: u64) -> StandElf {
    StandElf {
        id: ((elf_type - 1) * 5 + grade) as u64,
        name: spec_elf_name(elf_type),
        buy_price: spec_elf_price(elf_type),
        growth_time: spec_growth_time(elf_type, grade),
        max_gold_store_base: spec_store_base(grade),
        current_gold_produce_base: spec_produce_base(elf_type),
        elf_type,
        grade,
        sell_price: spec_elf_price(elf_type),
    }
}

/// The catalog: the types in order, and the five grades of each.
pub open spec fn spec_stand_elf_list() -> Seq<StandElf> {
    Seq::new(50, |i: int| spec_stand_elf((i / 5 + 1) as u64, (i % 5 + 1) as u64))
}

/// The draw ranges of the grades: of a hundred draws, fifty give the first
/// grade and two the fifth.
pub open spec fn spec_grade_ranges() -> Seq<ElfGradeRandom> {
    seq![
        ElfGradeRandom { grade: 1, start: 1, end: 50 },
        ElfGradeRandom { grade: 2, start: 51, end: 75 },
        ElfGradeRandom { grade: 3, start: 76, end: 90 },
        ElfGradeRandom { grade: 4, start: 91, end: 98 },
        ElfGradeRandom { grade: 5, start: 99, end: 100 },
    ]
}

/// The grade that a draw gives: that of the range it falls in, and the first
/// grade for a draw outside every range.
pub open spec fn spec_grade_by_random(random_num: u64) -> u64 {
    if 51 <= random_num <= 75 {
        2
    } else if 76 <= random_num <= 90 {
        3
    } else if 91 <= random_num <= 98 {
        4
    } else if 99 <= random_num <= 100 {
        5
    } else {
        1
    }
}

/// The elf that a purchase creates: of the grade that the seed draws, with the
/// catalog's values for its type and grade, and the id after `elf_id`.
pub open spec fn spec_get_elf(rand: u64, elf_type: u64, elf_id: u64) -> Elf {
    spec_elf_by_type_and_grade(elf_type, spec_grade_by_random(spec_random(rand, 100)), (elf_id + 1) as u64)
}

/// A newborn elf of a type and grade.
pub open spec fn spec_elf_by_type_and_grade(elf_type: u64, grade: u64, elf_id: u64) -> Elf {
    Elf {
        id: elf_id,
        name: spec_elf_name(elf_type),
        health: ATTRIBUTE_MAX,
        satiety: ATTRIBUTE_MAX,
        exp: 0,
        growth_time: spec_growth_time(elf_type, grade),
        grade,
        max_gold_store: (spec_store_base(grade) * spec_produce_base(elf_type)) as u64,
        current_gold_store: 0,
        current_gold_produce_base: spec_produce_base(elf_type),
        elf_type,
    }
}

impl Elf {
    /// The elf that a purchase creates from the seed `rand`, for a ranch whose
    /// newest elf has the id `elf_id`.
    pub fn get_elf(rand: u64, elf_type: u64, elf_id: u64) -> (elf: Elf)
        requires
            HIPPO <= elf_type <= DOGE,
            elf_id < u64::MAX,
        ensures
            elf == spec_get_elf(rand, elf_type, elf_id),
            elf.wf(),
    {
        let random: u64 = get_random(rand, 100);
        let grade: u64 = Elf::get_grade_by_random(random);
        let elf_new_id: u64 = elf_id + 1;
        Elf::get_elf_by_type_and_grade(elf_type, grade, elf_new_id)
    }

    pub fn get_all_elfs() -> (list: Vec<StandElf>)
        ensures
            list@ == spec_stand_elf_list(),
    {
        let mut list: Vec<StandElf> = Vec::new();
        let mut i: u64 = 0;
        while i < 50
            invariant
                i <= 50,
                list@.len() == i,
                forall|j: int| 0 <= j < i ==> list@[j] == spec_stand_elf_list()[j],
            decreases 50 - i,
        {
            let entry = StandElf::get_elf_by_type(i / 5 + 1, i % 5 + 1);
            list.push(entry.unwrap());
            i += 1;
        }
        assert(list@ =~= spec_stand_elf_list());
        list
    }

    pub fn get_all_randoms() -> (list: Vec<ElfGradeRandom>)
        ensures
            list@ == spec_grade_ranges(),
    {
        let list = vec![
            ElfGradeRandom::new(1, 1, 50),
            ElfGradeRandom::new(2, 51, 75),
            ElfGradeRandom::new(3, 76, 90),
            ElfGradeRandom::new(4, 91, 98),
            ElfGradeRandom::new(5, 99, 100),
        ];
        assert(list@ =~= spec_grade_ranges());
        list
    }

    /// A newborn elf of a type and grade of the catalog.
    pub fn get_elf_by_type_and_grade(elf_type: u64, grade: u64, elf_id: u64) -> (elf: Elf)
        requires
            in_catalog(elf_type, grade),
        ensures
            elf == spec_elf_by_type_and_grade(elf_type, grade, elf_id),
            elf.wf(),
    {
        let stand_elf = StandElf::get_elf_by_type(elf_type, grade).unwrap();
        assert(stand_elf.max_gold_store_base * stand_elf.current_gold_produce_base <= 30 * 270)
            by (nonlinear_arith)
            requires
                stand_elf.max_gold_store_base <= 30,
                stand_elf.current_gold_produce_base <= 270,
        ;
        let max_gold_store: u64 = stand_elf.max_gold_store_base * stand_elf.current_gold_produce_base;
        Elf::new(
            elf_id,
            stand_elf.name,
            stand_elf.growth_time,
            grade,
            max_gold_store,
            stand_elf.current_gold_produce_base,
            elf_type,
        )
    }

    /// The grade that a draw gives.
    pub fn get_grade_by_random(random_num: u64) -> (grade: u64)
        ensures
            grade == spec_grade_by_random(random_num),
            1 <= grade <= 5,
    {
        let ranges = Elf::get_all_randoms();
        let mut i: usize = 0;
        while i < ranges.len()
            invariant
                i <= ranges.len(),
                ranges@ == spec_grade_ranges(),
                forall|j: int| 0 <= j < i ==> !(#[trigger] ranges@[j]).covers(random_num),
            decreases ranges.len() - i,
        {
            if random_num >= ranges[i].start && random_num <= ranges[i].end {
                return ranges[i].grade;
            }
            i += 1;
        }
        proof {
            assert(!ranges@[0].covers(random_num));
            assert(!ranges@[1].covers(random_num));
            assert(!ranges@[2].covers(random_num));
            assert(!ranges@[3].covers(random_num));
            assert(!ranges@[4].covers(random_num));
        }
        1
    }
}

/// An entry of the elf catalog.
#[derive(Clone, Copy, Debug)]
pub struct StandElf {
    pub id: u64,
    pub name: &'static str,
    pub buy_price: u64,
    pub growth_time: u64,
    pub max_gold_store_base: u64,
    pub current_gold_produce_base: u64,
    pub elf_type: u64,
    pub grade: u64,
    pub sell_price: u64,
}

impl StandElf {
    pub fn new(
        id: u64,
        name: &'static str,
        buy_price: u64,
        growth_time: u64,
        max_gold_store_base: u64,
        current_gold_produce_base: u64,
        elf_type: u64,
        grade: u64,
        sell_price: u64,
    ) -> (entry: Self)
        ensures
            entry == (StandElf {
                id,
                name,
                buy_price,
                growth_time,
                max_gold_store_base,
                current_gold_produce_base,
                elf_type,
                grade,
                sell_price,
            }),
    {
        StandElf {
            id,
            name,
            buy_price,
            growth_time,
            max_gold_store_base,
            current_gold_produce_base,
            elf_type,
            grade,
            sell_price,
        }
    }

    /// The catalog entry of a type and grade, if the catalog has one.
    pub fn get_elf_by_type(elf_type: u64, grade: u64) -> (entry: Option<StandElf>)
        ensures
            entry == if in_catalog(elf_type, grade) {
                Some(spec_stand_elf(elf_type, grade))
            } else {
                None
            },
    {
        if elf_type < HIPPO || elf_type > DOGE || grade < 1 || grade > 5 {
            return None;
        }
        let name: &'static str = if elf_type == HIPPO {
            "Hippo"
        } else if elf_type == SLERF {
            "Slerf"
        } else if elf_type == GOAT {
            "Goat"
        } else if elf_type == PNUT {
            "Pnut"
        } else if elf_type == POPCAT {
            "Popcat"
        } else if elf_type == BRETT {
            "Brett"
        } else if elf_type == WIF {
            "Wif"
        } else if elf_type == BONK {
            "Bonk"
        } else if elf_type == PEPE {
            "Pepe"
        } else {
            "Doge"
        };
        let price: u64 = if elf_type == HIPPO {
            100
        } else if elf_type == SLERF {
            300
        } else if elf_type == GOAT {
            1800
        } else if elf_type == PNUT {
            6000
        } else if elf_type == POPCAT {
            15000
        } else if elf_type == BRETT {
            37500
        } else if elf_type == WIF {
            93750
        } else if elf_type == BONK {
            152000
        } else if elf_type == PEPE {
            220000
        } else {
            300000
        };
        let produce_base: u64 = if elf_type == HIPPO {
            18
        } else if elf_type == SLERF {
            30
        } else if elf_type == GOAT {
            50
        } else if elf_type == PNUT {
            70
        } else if elf_type == POPCAT {
            100
        } else if elf_type == BRETT {
            120
        } else if elf_type == WIF {
            150
        } else if elf_type == BONK {
            190
        } else if elf_type == PEPE {
            230
        } else {
            270
        };
        let growth_time: u64 = if elf_type <= GOAT {
            if grade == 1 {
                50
            } else if grade == 2 {
                75
            } else if grade == 3 {
                100
            } else if grade == 4 {
                150
            } else {
                200
            }
        } else {
            if grade == 1 {
                80
            } else if grade == 2 {
                160
            } else if grade == 3 {
                210
            } else if grade == 4 {
                280
            } else {
                300
            }
        };
        let store_base: u64 = if grade == 1 {
            5
        } else if grade == 2 {
            10
        } else if grade == 3 {
            15
        } else if grade == 4 {
            20
        } else {
            30
        };
        Some(
            StandElf::new(
                (elf_type - 1) * 5 + grade,
                name,
                price,
                growth_time,
                store_base,
                produce_base,
                elf_type,
                grade,
                price,
            ),
        )
    }
}

/// The draws that give a grade.
#[derive(Clone, Copy, Debug, PartialEq, Eq, Structural)]
pub struct ElfGradeRandom {
    pub grade: u64,
    pub start: u64,
    pub end: u64,
}

impl ElfGradeRandom {
    /// Whether a draw falls in this range.
    pub open spec fn covers(self, random_num: u64) -> bool {
        self.start <= random_num <= self.end
    }

    pub fn new(grade: u64, start: u64, end: u64) -> (range: Self)
        ensures
            range == (ElfGradeRandom { grade, start, end }),
    {
        Self { grade, start, end }
    }
}

/// Cleanings that a player must have done to buy a Popcat.
pub const POPCAT_CLEANINGS: u64 = 1500;

/// Feedings that a player must have done to buy a Brett.
pub const BRETT_FEEDINGS: u64 = 5000;

/// Gold that a player must have collected to buy a Bonk.
pub const BONK_GOLD: u64 = 300000;

/// Gold that a player must have collected to buy a Doge.
pub const DOGE_GOLD: u64 = 2100000;

/// Number of grown-up elves of a type among the elves.
pub open spec fn spec_count_adults(elfs: Seq<Elf>, elf_type: u64) -> nat
    decreases elfs.len(),
{
    if elfs.len() == 0 {
        0
    } else {
        spec_count_adults(elfs.drop_last(), elf_type) + if elfs.last().elf_type == elf_type
            && elfs.last().exp == ATTRIBUTE_MAX {
            1nat
        } else {
            0nat
        }
    }
}

/// Number of grown-up elves of a type in the first ranch with the id, zero
/// where there is no such ranch.
pub open spec fn spec_adults_in_ranch(data: PlayerDataView, ranch_id: u64, elf_type: u64) -> nat {
    if data.has_ranch(ranch_id) {
        spec_count_adults(data.ranch(ranch_id).elfs, elf_type)
    } else {
        0
    }
}

/// Whether the player may buy an elf of the type for the ranch: a Hippo
/// always; a Slerf with a grown-up Hippo in the ranch; a Goat with two grown-up
/// Slerfs; a Pnut with five grown-up Goats; a Popcat after enough cleanings; a
/// Brett after enough feedings; a Wif with five grown-up Bretts; a Bonk after
/// enough gold collected; a Pepe with five grown-up Bonks; a Doge with five
/// grown-up Pepes and enough gold collected.
pub open spec fn spec_may_buy(data: PlayerDataView, ranch_id: u64, elf_type: u64) -> bool {
    if elf_type == HIPPO {
        true
    } else if elf_type == SLERF {
        spec_adults_in_ranch(data, ranch_id, HIPPO) >= 1
    } else if elf_type == GOAT {
        spec_adults_in_ranch(data, ranch_id, SLERF) >= 2
    } else if elf_type == PNUT {
        spec_adults_in_ranch(data, ranch_id, GOAT) >= 5
    } else if elf_type == POPCAT {
        data.clean_count >= POPCAT_CLEANINGS
    } else if elf_type == BRETT {
        data.feed_count >= BRETT_FEEDINGS
    } else if elf_type == WIF {
        spec_adults_in_ranch(data, ranch_id, BRETT) >= 5
    } else if elf_type == BONK {
        data.gold_count >= BONK_GOLD
    } else if elf_type == PEPE {
        spec_adults_in_ranch(data, ranch_id, BONK) >= 5
    } else if elf_type == DOGE {
        spec_adults_in_ranch(data, ranch_id, PEPE) >= 5 && data.gold_count >= DOGE_GOLD
    } else {
        false
    }
}

/// The price of an elf of the type where the player may buy one, and the error
/// of a purchase that is not allowed where not.
pub open spec fn spec_can_buy_elf(data: PlayerDataView, ranch_id: u64, elf_type: u64) -> Result<u64, u32> {
    if spec_may_buy(data, ranch_id, elf_type) {
        Ok(spec_elf_price(elf_type))
    } else {
        Err(ERROR_INVALID_PURCHASE_CONDITION)
    }
}

impl Elf {
    /// Number of grown-up elves of a type in the first ranch with the id.
    pub fn count_adults(data: &PlayerData, ranch_id: u64, elf_type: u64) -> (count: usize)
        ensures
            count == spec_adults_in_ranch(data@, ranch_id, elf_type),
    {
        match data.ranch_position(ranch_id) {
            Some(i) => {
                let ranch = &data.ranchs[i];
                let mut count: usize = 0;
                let mut k: usize = 0;
                assert(ranch.elfs@.take(0) =~= Seq::empty());
                while k < ranch.elfs.len()
                    invariant
                        k <= ranch.elfs.len(),
                        count <= k,
                        count == spec_count_adults(ranch.elfs@.take(k as int), elf_type),
                    decreases ranch.elfs.len() - k,
                {
                    assert(ranch.elfs@.take(k + 1).drop_last() =~= ranch.elfs@.take(k as int));
                    if ranch.elfs[k].elf_type == elf_type && ranch.elfs[k].exp == ATTRIBUTE_MAX {
                        count += 1;
                    }
                    k += 1;
                }
                assert(ranch.elfs@.take(k as int) =~= ranch.elfs@);
                count
            },
            None => 0,
        }
    }

    /// Whether the player may buy an elf of the type for the ranch, and its
    /// price.
    pub fn check_can_buy_elf(data: &PlayerData, ranch_id: u64, elf_type: u64) -> (price: Result<u64, u32>)
        ensures
            price == spec_can_buy_elf(data@, ranch_id, elf_type),
    {
        if elf_type == HIPPO {
            Ok(100)
        } else if elf_type == SLERF {
            Elf::check_can_buy_slerf(data, ranch_id)
        } else if elf_type == GOAT {
            Elf::check_can_buy_goat(data, ranch_id)
        } else if elf_type == PNUT {
            Elf::check_can_buy_pnut(data, ranch_id)
        } else if elf_type == POPCAT {
            Elf::check_can_buy_popcat(data)
        } else if elf_type == BRETT {
            Elf::check_can_buy_brett(data)
        } else if elf_type == WIF {
            Elf::check_can_buy_wif(data, ranch_id)
        } else if elf_type == BONK {
            Elf::check_can_buy_bonk(data)
        } else if elf_type == PEPE {
            Elf::check_can_buy_pepe(data, ranch_id)
        } else if elf_type == DOGE {
            Elf::check_can_buy_doge(data, ranch_id)
        } else {
            Err(ERROR_INVALID_PURCHASE_CONDITION)
        }
    }

    /// A Slerf takes a grown-up Hippo in the ranch.
    pub fn check_can_buy_slerf(data: &PlayerData, ranch_id: u64) -> (price: Result<u64, u32>)
        ensures
            price == spec_can_buy_elf(data@, ranch_id, SLERF),
    {
        if Elf::count_adults(data, ranch_id, HIPPO) >= 1 {
            return Ok(300);
        }
        Err(ERROR_INVALID_PURCHASE_CONDITION)
    }

    /// A Goat takes two grown-up Slerfs in the ranch.
    pub fn check_can_buy_goat(data: &PlayerData, ranch_id: u64) -> (price: Result<u64, u32>)
        ensures
            price == spec_can_buy_elf(data@, ranch_id, GOAT),
    {
        if Elf::count_adults(data, ranch_id, SLERF) >= 2 {
            return Ok(1800);
        }
        Err(ERROR_INVALID_PURCHASE_CONDITION)
    }

    /// A Pnut takes five grown-up Goats in the ranch.
    pub fn check_can_buy_pnut(data: &PlayerData, ranch_id: u64) -> (price: Result<u64, u32>)
        ensures
            price == spec_can_buy_elf(data@, ranch_id, PNUT),
    {
        if Elf::count_adults(data, ranch_id, GOAT) >= 5 {
            return Ok(6000);
        }
        Err(ERROR_INVALID_PURCHASE_CONDITION)
    }

    /// A Popcat takes 1500 cleanings.
    pub fn check_can_buy_popcat(data: &PlayerData) -> (price: Result<u64, u32>)
        ensures
            forall|ranch_id: u64| price == #[trigger] spec_can_buy_elf(data@, ranch_id, POPCAT),
    {
        if data.clean_count >= POPCAT_CLEANINGS {
            return Ok(15000);
        }
        Err(ERROR_INVALID_PURCHASE_CONDITION)
    }

    /// A Brett takes 5000 feedings.
    pub fn check_can_buy_brett(data: &PlayerData) -> (price: Result<u64, u32>)
        ensures
            forall|ranch_id: u64| price == #[trigger] spec_can_buy_elf(data@, ranch_id, BRETT),
    {
        if data.feed_count >= BRETT_FEEDINGS {
            return Ok(37500);
        }
        Err(ERROR_INVALID_PURCHASE_CONDITION)
    }

    /// A Wif takes five grown-up Bretts in the ranch.
    pub fn check_can_buy_wif(data: &PlayerData, ranch_id: u64) -> (price: Result<u64, u32>)
        ensures
            price == spec_can_buy_elf(data@, ranch_id, WIF),
    {
        if Elf::count_adults(data, ranch_id, BRETT) >= 5 {
            return Ok(93750);
        }
        Err(ERROR_INVALID_PURCHASE_CONDITION)
    }

    /// A Bonk takes 300000 gold collected.
    pub fn check_can_buy_bonk(data: &PlayerData) -> (price: Result<u64, u32>)
        ensures
            forall|ranch_id: u64| price == #[trigger] spec_can_buy_elf(data@, ranch_id, BONK),
    {
        if data.gold_count >= BONK_GOLD {
            return Ok(152000);
        }
        Err(ERROR_INVALID_PURCHASE_CONDITION)
    }

    /// A Pepe takes five grown-up Bonks in the ranch.
    pub fn check_can_buy_pepe(data: &PlayerData, ranch_id: u64) -> (price: Result<u64, u32>)
        ensures
            price == spec_can_buy_elf(data@, ranch_id, PEPE),
    {
        if Elf::count_adults(data, ranch_id, BONK) >= 5 {
            return Ok(220000);
        }
        Err(ERROR_INVALID_PURCHASE_CONDITION)
    }

    /// A Doge takes five grown-up Pepes in the ranch and 2100000 gold
    /// collected.
    pub fn check_can_buy_doge(data: &PlayerData, ranch_id: u64) -> (price: Result<u64, u32>)
        ensures
            price == spec_can_buy_elf(data@, ranch_id, DOGE),
    {
        if Elf::count_adults(data, ranch_id, PEPE) >= 5 && data.gold_count >= DOGE_GOLD {
            return Ok(300000);
        }
        Err(ERROR_INVALID_PURCHASE_CONDITION)
    }
}

} // verus!
