//! What the event chains of an elf do over many firings: growth ends at the
//! full range, decay ends at zero, the store never overflows, and a well-formed
//! account stays well formed.

use vstd::prelude::*;
use crate::elf::{Elf, ATTRIBUTE_MAX, spec_need_exp, spec_exp_per_tick};
use crate::event_type::{ADD_EXP, ADD_GOLD, HEALTH_REDUCE, SATIETY_REDUCE};
use crate::math::lemma_ceil_div_is_least;
use crate::player::{PlayerDataView, ranch_ids};
use crate::ranch::{RanchView, elf_ids, lemma_elf_index};

verus! {

/// The data after `n` firings of the events of one kind for one elf, whether
/// or not a firing re-arms the chain.
pub open spec fn spec_hand_times(
    data: PlayerDataView,
    player_id: [u64; 2],
    event_type: u64,
    ranch_id: u64,
    elf_id: u64,
    n: nat,
) -> PlayerDataView
    decreases n,
{
    if n == 0 {
        data
    } else {
        spec_hand_times(
            data.spec_event_hand(player_id, event_type, ranch_id, elf_id).0,
            player_id,
            event_type,
            ranch_id,
            elf_id,
            (n - 1) as nat,
        )
    }
}

/// Replacing an elf by one of the same id leaves every elf where it was: the
/// same lookups find the new elf, and the ranch is otherwise untouched.
pub proof fn lemma_with_elf_keeps_place(data: PlayerDataView, ranch_id: u64, elf_id: u64, elf: Elf)
    requires
        data.has_elf(ranch_id, elf_id),
        elf.id == elf_id,
    ensures
        data.with_elf(ranch_id, elf_id, elf).has_elf(ranch_id, elf_id),
        data.with_elf(ranch_id, elf_id, elf).elf(ranch_id, elf_id) == elf,
        data.with_elf(ranch_id, elf_id, elf).ranch_index(ranch_id) == data.ranch_index(ranch_id),
        data.with_elf(ranch_id, elf_id, elf).ranch(ranch_id) == data.ranch(ranch_id).set_elf(
            data.ranch(ranch_id).elf_index(elf_id),
            elf,
        ),
        data.with_elf(ranch_id, elf_id, elf).ranchs.len() == data.ranchs.len(),
{
    let after = data.with_elf(ranch_id, elf_id, elf);
    let i = data.ranch_index(ranch_id);
    let ranch = data.ranch(ranch_id);
    let j = ranch.elf_index(elf_id);
    crate::math::lemma_first_index_bounds(ranch_ids(data.ranchs), ranch_id);
    lemma_elf_index(ranch, elf_id);
    assert(ranch_ids(after.ranchs) =~= ranch_ids(data.ranchs));
    assert(elf_ids(after.ranchs[i].elfs) =~= elf_ids(ranch.elfs));
}

/// Replacing a well-formed elf by a well-formed one of the same id keeps the
/// account well formed.
pub proof fn lemma_with_elf_wf(data: PlayerDataView, ranch_id: u64, elf_id: u64, elf: Elf)
    requires
        data.wf(),
        data.has_elf(ranch_id, elf_id),
        elf.id == elf_id,
        elf.wf(),
    ensures
        data.with_elf(ranch_id, elf_id, elf).wf(),
{
    let after = data.with_elf(ranch_id, elf_id, elf);
    let i = data.ranch_index(ranch_id);
    let ranch = data.ranch(ranch_id);
    let j = ranch.elf_index(elf_id);
    crate::math::lemma_first_index_bounds(ranch_ids(data.ranchs), ranch_id);
    lemma_elf_index(ranch, elf_id);
    assert(ranch.wf());
    let new_ranch = ranch.set_elf(j, elf);
    assert(new_ranch.wf()) by {
        assert forall|a: int| 0 <= a < new_ranch.elfs.len() implies (#[trigger] new_ranch.elfs[a]).wf() by {
            if a != j {
                assert(ranch.elfs[a].wf());
            }
        }
        assert forall|a: int, b: int| 0 <= a < b < new_ranch.elfs.len() implies (
        #[trigger] new_ranch.elfs[a]).id < (#[trigger] new_ranch.elfs[b]).id by {
            assert(ranch.elfs[a].id < ranch.elfs[b].id);
        }
    }
    assert forall|k: int| 0 <= k < after.ranchs.len() implies (#[trigger] after.ranchs[k]).wf() by {
        if k != i {
            assert(data.ranchs[k].wf());
        }
    }
}

/// Every step of the simulation keeps a well-formed elf well formed, and none
/// changes its id.
pub proof fn lemma_elf_steps_wf(elf: Elf, ranch_clean: u64, prop_type: u64)
    requires
        elf.wf(),
    ensures
        elf.spec_add_exp().wf() && elf.spec_add_exp().id == elf.id,
        elf.spec_add_gold().wf() && elf.spec_add_gold().id == elf.id,
        elf.spec_reduce_health(ranch_clean).wf() && elf.spec_reduce_health(ranch_clean).id == elf.id,
        elf.spec_reduce_satiety().wf() && elf.spec_reduce_satiety().id == elf.id,
        elf.spec_add_health(ranch_clean).wf() && elf.spec_add_health(ranch_clean).id == elf.id,
        elf.spec_fed(prop_type).wf() && elf.spec_fed(prop_type).id == elf.id,
        elf.spec_healed(prop_type).wf() && elf.spec_healed(prop_type).id == elf.id,
        elf.spec_collected().wf() && elf.spec_collected().id == elf.id,
{
    lemma_need_exp_bounds(elf.growth_time, elf.exp);
    lemma_need_gold_bounds(elf);
}

/// A step of growth is at least one while the elf is not grown up, and never
/// takes it past the full range.
pub proof fn lemma_need_exp_bounds(growth_time: u64, exp: u64)
    ensures
        0 <= spec_need_exp(growth_time, exp),
        exp <= ATTRIBUTE_MAX ==> exp + spec_need_exp(growth_time, exp) <= ATTRIBUTE_MAX,
        exp < ATTRIBUTE_MAX ==> spec_need_exp(growth_time, exp) >= 1,
        exp >= ATTRIBUTE_MAX ==> spec_need_exp(growth_time, exp) == 0,
{
    if growth_time > 0 {
        let span = growth_time * crate::elf::GROWTH_UNIT_SECONDS;
        lemma_ceil_div_is_least(50000, span);
        assert(spec_exp_per_tick(growth_time) >= 1) by (nonlinear_arith)
            requires
                spec_exp_per_tick(growth_time) * span >= 50000,
                span > 0,
        ;
    }
}

/// A step of production is not negative and never overfills the store.
pub proof fn lemma_need_gold_bounds(elf: Elf)
    ensures
        0 <= crate::elf::spec_need_gold(elf),
        elf.current_gold_store <= elf.max_gold_store ==> elf.current_gold_store
            + crate::elf::spec_need_gold(elf) <= elf.max_gold_store,
        elf.current_gold_store >= elf.max_gold_store ==> crate::elf::spec_need_gold(elf) == 0,
{
    let factor = crate::elf::spec_gold_factor(elf);
    assert(0 <= factor) by (nonlinear_arith)
        requires
            factor == crate::elf::spec_health_factor(elf.health) * crate::elf::spec_growth_factor(elf.exp)
                * crate::elf::spec_grade_factor(elf.grade) * crate::elf::spec_satiety_factor(elf.satiety),
            0 <= crate::elf::spec_health_factor(elf.health),
            0 <= crate::elf::spec_growth_factor(elf.exp),
            0 <= crate::elf::spec_grade_factor(elf.grade),
            0 <= crate::elf::spec_satiety_factor(elf.satiety),
    ;
    assert(0 <= elf.current_gold_produce_base * factor) by (nonlinear_arith)
        requires
            0 <= factor,
    ;
    lemma_ceil_div_is_least(elf.current_gold_produce_base * factor, 120000);
}

/// Every handler keeps a well-formed account well formed, whatever kind the
/// event is said to be of.
pub proof fn lemma_handlers_wf(
    data: PlayerDataView,
    player_id: [u64; 2],
    event_type: u64,
    ranch_id: u64,
    elf_id: u64,
)
    requires
        data.wf(),
    ensures
        data.spec_elf_add_exp_event(player_id, event_type, ranch_id, elf_id).0.wf(),
        data.spec_elf_add_gold_event(player_id, event_type, ranch_id, elf_id).0.wf(),
        data.spec_elf_health_reduce_event(player_id, event_type, ranch_id, elf_id).0.wf(),
        data.spec_elf_satiety_reduce_event(player_id, event_type, ranch_id, elf_id).0.wf(),
        data.spec_add_shit_event(player_id, event_type, ranch_id, elf_id).0.wf(),
        data.spec_add_health_event(player_id, event_type, ranch_id, elf_id).0.wf(),
{
    if data.has_elf(ranch_id, elf_id) {
        let i = data.ranch_index(ranch_id);
        let ranch = data.ranch(ranch_id);
        let elf = data.elf(ranch_id, elf_id);
        crate::math::lemma_first_index_bounds(ranch_ids(data.ranchs), ranch_id);
        lemma_elf_index(ranch, elf_id);
        assert(ranch.wf());
        assert(elf.wf());
        lemma_elf_steps_wf(elf, ranch.ranch_clean, 0);
        lemma_with_elf_wf(data, ranch_id, elf_id, elf.spec_add_exp());
        lemma_with_elf_wf(data, ranch_id, elf_id, elf.spec_add_gold());
        lemma_with_elf_wf(data, ranch_id, elf_id, elf.spec_reduce_health(ranch.ranch_clean));
        lemma_with_elf_wf(data, ranch_id, elf_id, elf.spec_reduce_satiety());
        lemma_with_elf_wf(data, ranch_id, elf_id, elf.spec_add_health(ranch.ranch_clean));
        let after = data.spec_add_shit_event(player_id, event_type, ranch_id, elf_id).0;
        let fouler = RanchView { ranch_clean: PlayerDataView::spec_fouler(ranch.ranch_clean), ..ranch };
        assert(fouler.wf()) by {
            assert forall|a: int| 0 <= a < fouler.elfs.len() implies (#[trigger] fouler.elfs[a]).wf() by {
                assert(ranch.elfs[a].wf());
            }
            assert forall|a: int, b: int| 0 <= a < b < fouler.elfs.len() implies (
            #[trigger] fouler.elfs[a]).id < (#[trigger] fouler.elfs[b]).id by {
                assert(ranch.elfs[a].id < ranch.elfs[b].id);
            }
        }
        assert forall|k: int| 0 <= k < after.ranchs.len() implies (#[trigger] after.ranchs[k]).wf() by {
            if k != i {
                assert(data.ranchs[k].wf());
            }
        }
    }
}

/// Firing an event of any kind keeps a well-formed account well formed.
pub proof fn lemma_event_hand_wf(
    data: PlayerDataView,
    player_id: [u64; 2],
    event_type: u64,
    ranch_id: u64,
    elf_id: u64,
)
    requires
        data.wf(),
    ensures
        data.spec_event_hand(player_id, event_type, ranch_id, elf_id).0.wf(),
{
    lemma_handlers_wf(data, player_id, event_type, ranch_id, elf_id);
}

/// Firing events of one kind any number of times keeps a well-formed account
/// well formed.
pub proof fn lemma_hand_times_wf(
    data: PlayerDataView,
    player_id: [u64; 2],
    event_type: u64,
    ranch_id: u64,
    elf_id: u64,
    n: nat,
)
    requires
        data.wf(),
    ensures
        spec_hand_times(data, player_id, event_type, ranch_id, elf_id, n).wf(),
    decreases n,
{
    if n > 0 {
        lemma_event_hand_wf(data, player_id, event_type, ranch_id, elf_id);
        lemma_hand_times_wf(
            data.spec_event_hand(player_id, event_type, ranch_id, elf_id).0,
            player_id,
            event_type,
            ranch_id,
            elf_id,
            (n - 1) as nat,
        );
    }
}

/// Growth ends, and ends exactly at the full range: after `n` firings of the
/// growth event the elf is still there and its growth is within the range; it
/// has grown by at least `n` or is grown up; so after as many firings as were
/// left to grow it is grown up, and it stays so.
pub proof fn lemma_growth_completes(
    data: PlayerDataView,
    player_id: [u64; 2],
    ranch_id: u64,
    elf_id: u64,
    n: nat,
)
    requires
        data.has_elf(ranch_id, elf_id),
        data.elf(ranch_id, elf_id).exp <= ATTRIBUTE_MAX,
    ensures
        spec_hand_times(data, player_id, ADD_EXP, ranch_id, elf_id, n).has_elf(ranch_id, elf_id),
        spec_hand_times(data, player_id, ADD_EXP, ranch_id, elf_id, n).elf(ranch_id, elf_id).exp
            <= ATTRIBUTE_MAX,
        spec_hand_times(data, player_id, ADD_EXP, ranch_id, elf_id, n).elf(ranch_id, elf_id).exp
            >= data.elf(ranch_id, elf_id).exp,
        n >= ATTRIBUTE_MAX - data.elf(ranch_id, elf_id).exp ==> spec_hand_times(
            data,
            player_id,
            ADD_EXP,
            ranch_id,
            elf_id,
            n,
        ).elf(ranch_id, elf_id).exp == ATTRIBUTE_MAX,
    decreases n,
{
    if n > 0 {
        let elf = data.elf(ranch_id, elf_id);
        let grown = elf.spec_add_exp();
        lemma_elf_index(data.ranch(ranch_id), elf_id);
        lemma_need_exp_bounds(elf.growth_time, elf.exp);
        lemma_with_elf_keeps_place(data, ranch_id, elf_id, grown);
        let next = data.spec_event_hand(player_id, ADD_EXP, ranch_id, elf_id).0;
        assert(next == data.with_elf(ranch_id, elf_id, grown));
        lemma_growth_completes(next, player_id, ranch_id, elf_id, (n - 1) as nat);
    }
}

/// The firing of the growth event re-arms the chain exactly when the elf is
/// not grown up after it.
pub proof fn lemma_growth_rearms_until_grown(
    data: PlayerDataView,
    player_id: [u64; 2],
    ranch_id: u64,
    elf_id: u64,
)
    requires
        data.has_elf(ranch_id, elf_id),
        data.elf(ranch_id, elf_id).exp <= ATTRIBUTE_MAX,
    ensures
        data.spec_elf_add_exp_event(player_id, ADD_EXP, ranch_id, elf_id).1 is None <==> data.spec_elf_add_exp_event(
            player_id,
            ADD_EXP,
            ranch_id,
            elf_id,
        ).0.elf(ranch_id, elf_id).exp == ATTRIBUTE_MAX,
{
    let elf = data.elf(ranch_id, elf_id);
    lemma_elf_index(data.ranch(ranch_id), elf_id);
    lemma_need_exp_bounds(elf.growth_time, elf.exp);
    lemma_with_elf_keeps_place(data, ranch_id, elf_id, elf.spec_add_exp());
}

/// Health never goes below zero: firing the health decay of an elf without
/// health any number of times changes nothing, and a firing re-arms nothing.
pub proof fn lemma_health_stays_zero(
    data: PlayerDataView,
    player_id: [u64; 2],
    ranch_id: u64,
    elf_id: u64,
    n: nat,
)
    requires
        data.has_elf(ranch_id, elf_id),
        data.elf(ranch_id, elf_id).health == 0,
    ensures
        data.spec_elf_health_reduce_event(player_id, HEALTH_REDUCE, ranch_id, elf_id) == (
            data,
            None::<crate::events::Event>,
        ),
        spec_hand_times(data, player_id, HEALTH_REDUCE, ranch_id, elf_id, n) == data,
    decreases n,
{
    let elf = data.elf(ranch_id, elf_id);
    let ranch = data.ranch(ranch_id);
    crate::math::lemma_first_index_bounds(ranch_ids(data.ranchs), ranch_id);
    lemma_elf_index(ranch, elf_id);
    assert(elf.spec_reduce_health(ranch.ranch_clean) == elf);
    let after = data.with_elf(ranch_id, elf_id, elf);
    assert(ranch.set_elf(ranch.elf_index(elf_id), elf).elfs =~= ranch.elfs);
    assert(after.ranchs =~= data.ranchs);
    if n > 0 {
        lemma_health_stays_zero(data, player_id, ranch_id, elf_id, (n - 1) as nat);
    }
}

/// Satiety never goes below zero: firing the satiety decay of an elf without
/// satiety any number of times changes nothing, and a firing re-arms nothing.
pub proof fn lemma_satiety_stays_zero(
    data: PlayerDataView,
    player_id: [u64; 2],
    ranch_id: u64,
    elf_id: u64,
    n: nat,
)
    requires
        data.has_elf(ranch_id, elf_id),
        data.elf(ranch_id, elf_id).satiety == 0,
    ensures
        data.spec_elf_satiety_reduce_event(player_id, SATIETY_REDUCE, ranch_id, elf_id) == (
            data,
            None::<crate::events::Event>,
        ),
        spec_hand_times(data, player_id, SATIETY_REDUCE, ranch_id, elf_id, n) == data,
    decreases n,
{
    let elf = data.elf(ranch_id, elf_id);
    let ranch = data.ranch(ranch_id);
    crate::math::lemma_first_index_bounds(ranch_ids(data.ranchs), ranch_id);
    lemma_elf_index(ranch, elf_id);
    assert(elf.spec_reduce_satiety() == elf);
    let after = data.with_elf(ranch_id, elf_id, elf);
    assert(ranch.set_elf(ranch.elf_index(elf_id), elf).elfs =~= ranch.elfs);
    assert(after.ranchs =~= data.ranchs);
    if n > 0 {
        lemma_satiety_stays_zero(data, player_id, ranch_id, elf_id, (n - 1) as nat);
    }
}

/// Health and satiety never go below zero and never rise by decay: one firing
/// of a decay takes what the step says, and no more than is there.
pub proof fn lemma_decay_is_bounded(elf: Elf, ranch_clean: u64)
    ensures
        0 <= elf.spec_reduce_health(ranch_clean).health <= elf.health,
        0 <= elf.spec_reduce_satiety().satiety <= elf.satiety,
{
}

/// The store never holds more than its size: after any number of firings of
/// the production event, the gold of the elf is within the size of its store,
/// which has not changed.
pub proof fn lemma_gold_stays_in_store(
    data: PlayerDataView,
    player_id: [u64; 2],
    ranch_id: u64,
    elf_id: u64,
    n: nat,
)
    requires
        data.has_elf(ranch_id, elf_id),
        data.elf(ranch_id, elf_id).current_gold_store <= data.elf(ranch_id, elf_id).max_gold_store,
    ensures
        spec_hand_times(data, player_id, ADD_GOLD, ranch_id, elf_id, n).has_elf(ranch_id, elf_id),
        spec_hand_times(data, player_id, ADD_GOLD, ranch_id, elf_id, n).elf(
            ranch_id,
            elf_id,
        ).current_gold_store <= data.elf(ranch_id, elf_id).max_gold_store,
        spec_hand_times(data, player_id, ADD_GOLD, ranch_id, elf_id, n).elf(ranch_id, elf_id).max_gold_store
            == data.elf(ranch_id, elf_id).max_gold_store,
    decreases n,
{
    if n > 0 {
        let elf = data.elf(ranch_id, elf_id);
        let richer = elf.spec_add_gold();
        lemma_elf_index(data.ranch(ranch_id), elf_id);
        lemma_need_gold_bounds(elf);
        lemma_with_elf_keeps_place(data, ranch_id, elf_id, richer);
        let next = data.spec_event_hand(player_id, ADD_GOLD, ranch_id, elf_id).0;
        assert(next == data.with_elf(ranch_id, elf_id, richer));
        lemma_gold_stays_in_store(next, player_id, ranch_id, elf_id, (n - 1) as nat);
    }
}

} // verus!
