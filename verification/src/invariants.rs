//! The state stays well formed: whatever command is processed and however
//! often the simulation advances, every attribute stays within its bounds and
//! no event is pending twice.

use vstd::prelude::*;
use crate::chains::{lemma_elf_steps_wf, lemma_event_hand_wf, lemma_with_elf_wf};
use crate::elf::{Elf, spec_can_buy_elf, spec_get_elf};
use crate::events::Event;
use crate::math::lemma_first_index_bounds;
use crate::player::{PlayerDataView, PlayerView, ranch_ids};
use crate::queue::{
    lemma_advance_keeps_distinct, lemma_drop_first_keeps_distinct, lemma_insert_keeps_distinct,
    lemma_register_keeps_distinct,
};
use crate::random::Reveal;
use crate::ranch::{RanchView, lemma_elf_index, other_than};
use crate::state::{StateView, Transaction, player_ids};
use crate::tick::lemma_rearmed_event;

verus! {

/// A ranch stays well formed when its elves stay as they are and its fouling
/// level and slots stay within their bounds.
pub proof fn lemma_same_elfs_wf(before: RanchView, after: RanchView)
    requires
        before.wf(),
        after.elfs == before.elfs,
        after.ranch_clean <= crate::elf::FOULING_MAX,
        before.elf_slot <= after.elf_slot <= crate::ranch::MAX_ELF_SLOT,
    ensures
        after.wf(),
{
    assert forall|a: int| 0 <= a < after.elfs.len() implies (#[trigger] after.elfs[a]).wf() by {
        assert(before.elfs[a].wf());
    }
    assert forall|a: int, b: int| 0 <= a < b < after.elfs.len() implies (#[trigger] after.elfs[a]).id < (
    #[trigger] after.elfs[b]).id by {
        assert(before.elfs[a].id < before.elfs[b].id);
    }
}

/// Replacing a ranch by a well-formed one keeps the account well formed.
pub proof fn lemma_with_ranch_wf(data: PlayerDataView, ranch_id: u64, ranch: RanchView)
    requires
        data.wf(),
        ranch.wf(),
    ensures
        data.with_ranch(ranch_id, ranch).wf(),
{
    let after = data.with_ranch(ranch_id, ranch);
    lemma_first_index_bounds(ranch_ids(data.ranchs), ranch_id);
    assert forall|k: int| 0 <= k < after.ranchs.len() implies (#[trigger] after.ranchs[k]).wf() by {
        if k != data.ranch_index(ranch_id) {
            assert(data.ranchs[k].wf());
        }
    }
}

/// The first ranch of an id in a well-formed account is well formed.
pub proof fn lemma_ranch_wf(data: PlayerDataView, ranch_id: u64)
    requires
        data.wf(),
        data.has_ranch(ranch_id),
    ensures
        data.ranch(ranch_id).wf(),
{
    lemma_first_index_bounds(ranch_ids(data.ranchs), ranch_id);
}

/// A new elf with an id above that of the newest fits a ranch with a free
/// slot.
pub proof fn lemma_push_elf_wf(ranch: RanchView, elf: Elf)
    requires
        ranch.wf(),
        ranch.elfs.len() < ranch.elf_slot,
        elf.wf(),
        elf.id > ranch.last_elf_id(),
    ensures
        ranch.push_elf(elf).wf(),
{
    let after = ranch.push_elf(elf);
    let n = ranch.elfs.len() as int;
    assert forall|a: int| 0 <= a < after.elfs.len() implies (#[trigger] after.elfs[a]).wf() by {
        if a < n {
            assert(ranch.elfs[a].wf());
        }
    }
    assert forall|a: int, b: int| 0 <= a < b < after.elfs.len() implies (#[trigger] after.elfs[a]).id < (
    #[trigger] after.elfs[b]).id by {
        if b < n {
            assert(ranch.elfs[a].id < ranch.elfs[b].id);
        } else if a < n - 1 {
            assert(ranch.elfs[a].id < ranch.elfs[n - 1].id);
        }
    }
}

/// Taking the elves of an id out of a list keeps the others in their order:
/// well-formed elves with rising ids stay so, none is added, and no id is
/// above the last of the list.
pub proof fn lemma_filter_elfs(elfs: Seq<Elf>, elf_id: u64)
    requires
        forall|a: int| 0 <= a < elfs.len() ==> (#[trigger] elfs[a]).wf(),
        forall|a: int, b: int| 0 <= a < b < elfs.len() ==> (#[trigger] elfs[a]).id < (#[trigger] elfs[b]).id,
    ensures
        elfs.filter(other_than(elf_id)).len() <= elfs.len(),
        forall|a: int|
            0 <= a < elfs.filter(other_than(elf_id)).len() ==> (#[trigger] elfs.filter(
                other_than(elf_id),
            )[a]).wf(),
        forall|a: int, b: int|
            0 <= a < b < elfs.filter(other_than(elf_id)).len() ==> (#[trigger] elfs.filter(
                other_than(elf_id),
            )[a]).id < (#[trigger] elfs.filter(other_than(elf_id))[b]).id,
        forall|a: int|
            0 <= a < elfs.filter(other_than(elf_id)).len() ==> (#[trigger] elfs.filter(
                other_than(elf_id),
            )[a]).id <= elfs.last().id,
    decreases elfs.len(),
{
    reveal(Seq::filter);
    if elfs.len() > 0 {
        let front = elfs.drop_last();
        let n = front.len() as int;
        assert forall|a: int| 0 <= a < front.len() implies (#[trigger] front[a]).wf() by {
            assert(elfs[a].wf());
        }
        assert forall|a: int, b: int| 0 <= a < b < front.len() implies (#[trigger] front[a]).id < (
        #[trigger] front[b]).id by {
            assert(elfs[a].id < elfs[b].id);
        }
        lemma_filter_elfs(front, elf_id);
        let kept = front.filter(other_than(elf_id));
        let all = elfs.filter(other_than(elf_id));
        assert forall|a: int| 0 <= a < kept.len() implies (#[trigger] kept[a]).id < elfs.last().id by {
            if n > 0 {
                assert(kept[a].id <= front.last().id);
                assert(elfs[n - 1].id < elfs[n].id);
            }
        }
        assert(elfs.last().wf());
        assert forall|a: int| 0 <= a < all.len() implies (#[trigger] all[a]).wf() by {
            if a < kept.len() {
                assert(kept[a].wf());
            }
        }
        assert forall|a: int, b: int| 0 <= a < b < all.len() implies (#[trigger] all[a]).id < (
        #[trigger] all[b]).id by {
            if b < kept.len() {
                assert(kept[a].id < kept[b].id);
            } else {
                assert(kept[a].id < elfs.last().id);
            }
        }
        assert forall|a: int| 0 <= a < all.len() implies (#[trigger] all[a]).id <= elfs.last().id by {
            if a < kept.len() {
                assert(kept[a].id < elfs.last().id);
            }
        }
    }
}

/// A ranch without the elves of an id is well formed.
pub proof fn lemma_without_elf_wf(ranch: RanchView, elf_id: u64)
    requires
        ranch.wf(),
    ensures
        ranch.without_elf(elf_id).wf(),
{
    lemma_filter_elfs(ranch.elfs, elf_id);
}

/// Replacing a player's data by well-formed data keeps the players well
/// formed.
pub proof fn lemma_with_player_wf(s: StateView, pid: [u64; 2], player: PlayerView)
    requires
        s.wf(),
        player.data.wf(),
        player.player_id == pid,
    ensures
        s.with_player(pid, player).wf(),
        s.with_player(pid, player).queue == s.queue,
{
    let after = s.with_player(pid, player);
    lemma_first_index_bounds(player_ids(s.players), pid);
    let p = s.player_index(pid);
    assert forall|k: int| 0 <= k < after.players.len() implies (#[trigger] after.players[k]).data.wf() by {
        if k != p {
            assert(s.players[k].data.wf());
        }
    }
    assert forall|i: int, j: int| 0 <= i < j < after.players.len() implies (
    #[trigger] after.players[i]).player_id != (#[trigger] after.players[j]).player_id by {
        assert(s.players[i].player_id != s.players[j].player_id);
        if s.has_player(pid) {
            assert(player_ids(s.players)[p] == pid);
        }
    }
}

/// The first player of an id in a well-formed state has that id and
/// well-formed data.
pub proof fn lemma_player_wf(s: StateView, pid: [u64; 2])
    requires
        s.wf(),
        s.has_player(pid),
    ensures
        s.player(pid).data.wf(),
        s.player(pid).player_id == pid,
{
    lemma_first_index_bounds(player_ids(s.players), pid);
    assert(player_ids(s.players)[s.player_index(pid)] == pid);
}

/// Registering an event keeps the state well formed.
pub proof fn lemma_register_wf(s: StateView, event: Event)
    requires
        s.wf(),
    ensures
        s.register(event).wf(),
{
    lemma_register_keeps_distinct(s.queue.events, event);
}

/// Starting the chains of an elf keeps the state well formed.
pub proof fn lemma_init_event_wf(s: StateView, pid: [u64; 2], ranch_id: u64, elf: Elf)
    requires
        s.wf(),
    ensures
        s.spec_init_event(pid, ranch_id, elf).wf(),
{
    let s1 = s.spec_init_add_exp_event(pid, ranch_id, elf);
    lemma_register_wf(s, crate::player::spec_event(pid, crate::event_type::ADD_EXP, ranch_id, elf.id, 1));
    let s2 = s1.spec_init_health_reduce_event(pid, ranch_id, elf);
    lemma_register_wf(
        s1,
        crate::player::spec_event(pid, crate::event_type::HEALTH_REDUCE, ranch_id, elf.id, 1),
    );
    let s3 = s2.spec_init_satiety_reduce_event(pid, ranch_id, elf);
    lemma_register_wf(
        s2,
        crate::player::spec_event(
            pid,
            crate::event_type::SATIETY_REDUCE,
            ranch_id,
            elf.id,
            crate::event_type::TICKS_PER_MINUTE,
        ),
    );
    let s4 = s3.spec_init_add_gold_event(pid, ranch_id, elf);
    lemma_register_wf(
        s3,
        crate::player::spec_event(
            pid,
            crate::event_type::ADD_GOLD,
            ranch_id,
            elf.id,
            crate::event_type::TICKS_PER_MINUTE,
        ),
    );
    let s5 = s4.spec_init_add_shit_event(pid, ranch_id, elf);
    lemma_register_wf(
        s4,
        crate::player::spec_event(
            pid,
            crate::event_type::ADD_SHIT,
            ranch_id,
            elf.id,
            crate::event_type::TICKS_PER_FOULING,
        ),
    );
    lemma_register_wf(
        s5,
        crate::player::spec_event(
            pid,
            crate::event_type::HEALTH_ADD,
            ranch_id,
            elf.id,
            crate::event_type::TICKS_PER_MINUTE,
        ),
    );
}

/// Starting the chains of several elves keeps the state well formed.
pub proof fn lemma_init_events_wf(s: StateView, pid: [u64; 2], ranch_id: u64, elfs: Seq<Elf>)
    requires
        s.wf(),
    ensures
        s.spec_init_events(pid, ranch_id, elfs).wf(),
    decreases elfs.len(),
{
    if elfs.len() > 0 {
        lemma_init_events_wf(s, pid, ranch_id, elfs.drop_last());
        lemma_init_event_wf(s.spec_init_events(pid, ranch_id, elfs.drop_last()), pid, ranch_id, elfs.last());
    }
}

/// Every command of a player keeps the state well formed.
pub proof fn lemma_commands_wf(tx: &Transaction, s: StateView, pid: [u64; 2], rand: u64)
    requires
        s.wf(),
    ensures
        tx.spec_install_player(s, pid).0.wf(),
        tx.spec_buy_elf(s, pid, rand).0.wf(),
        tx.spec_buy_prop(s, pid).0.wf(),
        tx.spec_buy_slot(s, pid).0.wf(),
        tx.spec_collect_gold(s, pid).0.wf(),
        tx.spec_clean_ranch(s, pid).0.wf(),
        tx.spec_feed_elf(s, pid).0.wf(),
        tx.spec_healing_elf(s, pid).0.wf(),
        tx.spec_sell_elf(s, pid).0.wf(),
        tx.spec_withdraw(s, pid).0.wf(),
{
    lemma_install_player_wf(tx, s, pid);
    lemma_buy_elf_wf(tx, s, pid, rand);
    lemma_purchases_wf(tx, s, pid);
    lemma_care_wf(tx, s, pid);
    lemma_trade_wf(tx, s, pid);
}

/// Making a player keeps the state well formed.
pub proof fn lemma_install_player_wf(tx: &Transaction, s: StateView, pid: [u64; 2])
    requires
        s.wf(),
    ensures
        tx.spec_install_player(s, pid).0.wf(),
{
    let after = tx.spec_install_player(s, pid).0;
    if !s.has_player(pid) {
        let data = PlayerDataView::spec_installed();
        assert(data.ranchs[0].wf());
        assert(data.wf());
        assert forall|k: int| 0 <= k < after.players.len() implies (#[trigger] after.players[k]).data.wf() by {
            if k < s.players.len() {
                assert(s.players[k].data.wf());
            }
        }
        lemma_first_index_bounds(player_ids(s.players), pid);
        assert forall|i: int, j: int| 0 <= i < j < after.players.len() implies (
        #[trigger] after.players[i]).player_id != (#[trigger] after.players[j]).player_id by {
            if j < s.players.len() {
                assert(s.players[i].player_id != s.players[j].player_id);
            } else {
                assert(player_ids(s.players)[i] != pid);
            }
        }
    }
}

/// Buying an elf keeps the state well formed.
pub proof fn lemma_buy_elf_wf(tx: &Transaction, s: StateView, pid: [u64; 2], rand: u64)
    requires
        s.wf(),
    ensures
        tx.spec_buy_elf(s, pid, rand).0.wf(),
{
    if tx.spec_buy_elf(s, pid, rand).1 is Ok {
        let ranch_id = tx.data@[0];
        let elf_type = tx.data@[1];
        let player = s.player(pid);
        let data = player.data;
        lemma_player_wf(s, pid);
        lemma_ranch_wf(data, ranch_id);
        let ranch = data.ranch(ranch_id);
        let elf = spec_get_elf(rand, elf_type, ranch.last_elf_id());
        assert(spec_can_buy_elf(data, ranch_id, elf_type) is Ok);
        assert(crate::elf::HIPPO <= elf_type <= crate::elf::DOGE);
        assert(elf.wf());
        lemma_push_elf_wf(ranch, elf);
        let paid = data.paid(crate::elf::spec_elf_price(elf_type));
        assert(paid.ranchs == data.ranchs);
        assert(paid.wf());
        lemma_with_ranch_wf(paid, ranch_id, ranch.push_elf(elf));
        let bought = s.with_player(pid, player.sent().with_data(paid.spec_set_elf_by_ranch(ranch_id, elf)));
        lemma_with_player_wf(s, pid, player.sent().with_data(paid.spec_set_elf_by_ranch(ranch_id, elf)));
        lemma_init_event_wf(bought, pid, ranch_id, elf);
    }
}

/// Buying a prop or a slot, withdrawing and cleaning keep the state well
/// formed.
pub proof fn lemma_purchases_wf(tx: &Transaction, s: StateView, pid: [u64; 2])
    requires
        s.wf(),
    ensures
        tx.spec_buy_prop(s, pid).0.wf(),
        tx.spec_buy_slot(s, pid).0.wf(),
        tx.spec_withdraw(s, pid).0.wf(),
        tx.spec_clean_ranch(s, pid).0.wf(),
{
    if s.has_player(pid) {
        let player = s.player(pid);
        let data = player.data;
        lemma_player_wf(s, pid);
        let ranch_id = tx.data@[0];
        if tx.spec_buy_prop(s, pid).1 is Ok {
            let prop = crate::prop::spec_prop_by_type(tx.data@[1])->Some_0;
            let user_prop = crate::prop::UserProp { prop_type: prop.prop_type, count: 1 };
            let paid = data.paid(prop.price);
            assert(paid.ranchs == data.ranchs);
            lemma_ranch_wf(paid, ranch_id);
            lemma_same_elfs_wf(paid.ranch(ranch_id), paid.ranch(ranch_id).add_prop(user_prop));
            lemma_with_ranch_wf(paid, ranch_id, paid.ranch(ranch_id).add_prop(user_prop));
            lemma_with_player_wf(
                s,
                pid,
                player.sent().with_data(paid.spec_set_prop_by_ranch(ranch_id, user_prop)),
            );
        }
        if tx.spec_buy_slot(s, pid).1 is Ok {
            let paid = data.paid(data.spec_ranch_slot_price(ranch_id));
            assert(paid.ranchs == data.ranchs);
            lemma_ranch_wf(paid, ranch_id);
            lemma_same_elfs_wf(paid.ranch(ranch_id), paid.ranch(ranch_id).add_slot());
            lemma_with_ranch_wf(paid, ranch_id, paid.ranch(ranch_id).add_slot());
            lemma_with_player_wf(s, pid, player.sent().with_data(paid.spec_add_ranch_elf_slot(ranch_id)));
        }
        if tx.spec_withdraw(s, pid).1 is Ok {
            let paid = data.paid(tx.spec_withdraw_amount());
            assert(paid.ranchs == data.ranchs);
            lemma_with_player_wf(s, pid, player.sent().with_data(paid));
        }
        if tx.spec_clean_ranch(s, pid).1 is Ok && data.ranch(ranch_id).ranch_clean != 0 {
            let ranch = data.ranch(ranch_id);
            let counted = PlayerDataView {
                clean_count: crate::command::spec_sat_add(data.clean_count, 1),
                ..data
            };
            assert(counted.ranchs == data.ranchs);
            lemma_ranch_wf(data, ranch_id);
            let clean = RanchView { ranch_clean: 0, ..ranch };
            lemma_same_elfs_wf(ranch, clean);
            lemma_with_ranch_wf(counted, ranch_id, clean);
            let after = counted.with_ranch(ranch_id, clean);
            lemma_with_player_wf(s, pid, player.sent().with_data(after));
            lemma_init_events_wf(s.with_player(pid, player.sent().with_data(after)), pid, ranch_id, ranch.elfs);
        }
    }
}

/// Collecting, feeding and treating keep the state well formed.
pub proof fn lemma_care_wf(tx: &Transaction, s: StateView, pid: [u64; 2])
    requires
        s.wf(),
    ensures
        tx.spec_collect_gold(s, pid).0.wf(),
        tx.spec_feed_elf(s, pid).0.wf(),
        tx.spec_healing_elf(s, pid).0.wf(),
{
    if s.has_player(pid) {
        let player = s.player(pid);
        let data = player.data;
        lemma_player_wf(s, pid);
        let ranch_id = tx.data@[0];
        let elf_id = tx.data@[1];
        let prop_type = tx.data@[2];
        if data.has_elf(ranch_id, elf_id) {
            lemma_ranch_wf(data, ranch_id);
            lemma_elf_index(data.ranch(ranch_id), elf_id);
            let elf = data.elf(ranch_id, elf_id);
            assert(elf.wf());
            lemma_elf_steps_wf(elf, 0, prop_type);
            if tx.spec_collect_gold(s, pid).1 is Ok {
                let gold = elf.current_gold_store;
                let counted = PlayerDataView {
                    gold_count: crate::command::spec_sat_add(data.gold_count, gold),
                    ..data.earned(gold)
                };
                assert(counted.ranchs == data.ranchs);
                lemma_with_elf_wf(counted, ranch_id, elf_id, elf.spec_collected());
                let after = counted.with_elf(ranch_id, elf_id, elf.spec_collected());
                lemma_with_player_wf(s, pid, player.sent().with_data(after));
                lemma_init_event_wf(
                    s.with_player(pid, player.sent().with_data(after)),
                    pid,
                    ranch_id,
                    elf.spec_collected(),
                );
            }
            if tx.spec_feed_elf(s, pid).1 is Ok {
                lemma_with_elf_wf(data, ranch_id, elf_id, elf.spec_fed(prop_type));
                let fed = data.spec_feed_elf(ranch_id, elf_id, prop_type);
                lemma_take_prop_wf(fed, ranch_id, prop_type);
                let after = PlayerDataView {
                    feed_count: crate::command::spec_sat_add(data.feed_count, 1),
                    ..fed.spec_reduce_prop(ranch_id, prop_type)
                };
                assert(after.ranchs == fed.spec_reduce_prop(ranch_id, prop_type).ranchs);
                lemma_with_player_wf(s, pid, player.sent().with_data(after));
                lemma_init_event_wf(
                    s.with_player(pid, player.sent().with_data(after)),
                    pid,
                    ranch_id,
                    elf.spec_fed(prop_type),
                );
            }
            if tx.spec_healing_elf(s, pid).1 is Ok {
                lemma_with_elf_wf(data, ranch_id, elf_id, elf.spec_healed(prop_type));
                let healed = data.spec_healing_elf(ranch_id, elf_id, prop_type);
                lemma_take_prop_wf(healed, ranch_id, prop_type);
                let after = PlayerDataView {
                    health_count: crate::command::spec_sat_add(data.health_count, 1),
                    ..healed.spec_reduce_prop(ranch_id, prop_type)
                };
                assert(after.ranchs == healed.spec_reduce_prop(ranch_id, prop_type).ranchs);
                lemma_with_player_wf(s, pid, player.sent().with_data(after));
                lemma_init_event_wf(
                    s.with_player(pid, player.sent().with_data(after)),
                    pid,
                    ranch_id,
                    elf.spec_healed(prop_type),
                );
            }
        }
    }
}

/// Taking a prop from a ranch keeps the account well formed.
pub proof fn lemma_take_prop_wf(data: PlayerDataView, ranch_id: u64, prop_type: u64)
    requires
        data.wf(),
    ensures
        data.spec_reduce_prop(ranch_id, prop_type).wf(),
{
    if data.has_ranch(ranch_id) {
        lemma_ranch_wf(data, ranch_id);
        lemma_same_elfs_wf(data.ranch(ranch_id), data.ranch(ranch_id).take_prop(prop_type));
        lemma_with_ranch_wf(data, ranch_id, data.ranch(ranch_id).take_prop(prop_type));
    }
}

/// Selling an elf keeps the state well formed.
pub proof fn lemma_trade_wf(tx: &Transaction, s: StateView, pid: [u64; 2])
    requires
        s.wf(),
    ensures
        tx.spec_sell_elf(s, pid).0.wf(),
{
    if tx.spec_sell_elf(s, pid).1 is Ok {
        let player = s.player(pid);
        let data = player.data;
        lemma_player_wf(s, pid);
        let ranch_id = tx.data@[0];
        let elf_id = tx.data@[1];
        lemma_ranch_wf(data, ranch_id);
        lemma_without_elf_wf(data.ranch(ranch_id), elf_id);
        lemma_with_ranch_wf(data, ranch_id, data.ranch(ranch_id).without_elf(elf_id));
        let sold = data.spec_remove_elf(ranch_id, elf_id);
        let after = sold.earned(crate::elf::spec_elf_price(data.elf(ranch_id, elf_id).elf_type));
        assert(after.ranchs == sold.ranchs);
        lemma_with_player_wf(s, pid, player.sent().with_data(after));
    }
}

/// A deposit keeps the state well formed.
pub proof fn lemma_deposit_wf(tx: &Transaction, s: StateView, pid: [u64; 2])
    requires
        s.wf(),
    ensures
        tx.spec_deposit(s, pid).0.wf(),
{
    if tx.spec_deposit(s, pid).1 is Ok {
        let target: [u64; 2] = [tx.data@[0], tx.data@[1]];
        let ranch_id = tx.data@[2];
        let prop = crate::prop::spec_prop_by_type(tx.data@[3])->Some_0;
        let user_prop = crate::prop::UserProp { prop_type: prop.prop_type, count: 1 };
        let data = s.player(target).data;
        lemma_player_wf(s, target);
        lemma_ranch_wf(data, ranch_id);
        lemma_same_elfs_wf(data.ranch(ranch_id), data.ranch(ranch_id).add_prop(user_prop));
        lemma_with_ranch_wf(data, ranch_id, data.ranch(ranch_id).add_prop(user_prop));
        let given = s.with_player(
            target,
            s.player(target).with_data(data.spec_set_prop_by_ranch(ranch_id, user_prop)),
        );
        lemma_with_player_wf(
            s,
            target,
            s.player(target).with_data(data.spec_set_prop_by_ranch(ranch_id, user_prop)),
        );
        if given.has_player(pid) {
            lemma_player_wf(given, pid);
            lemma_with_player_wf(given, pid, given.player(pid).sent());
        }
    }
}

/// Running the handler of an event keeps the players well formed and leaves
/// the queue alone.
pub proof fn lemma_handle_wf(s: StateView, event: Event)
    requires
        s.wf(),
    ensures
        s.spec_handle(event).0.wf(),
        s.spec_handle(event).0.queue == s.queue,
        match s.spec_handle(event).1 {
            Some(next) => next.same_identity(event) && next.delta >= 1,
            None => true,
        },
{
    if s.has_player(event.owner) {
        let player = s.player(event.owner);
        lemma_player_wf(s, event.owner);
        lemma_event_hand_wf(player.data, event.owner, event.event_type, event.ranch_id, event.elf_id);
        lemma_rearmed_event(player.data, event.owner, event.event_type, event.ranch_id, event.elf_id);
        let handled = player.data.spec_event_hand(
            event.owner,
            event.event_type,
            event.ranch_id,
            event.elf_id,
        );
        lemma_with_player_wf(s, event.owner, PlayerView { data: handled.0, ..player });
    }
}

/// Firing the first event, which is due, keeps the state well formed: the
/// event that fired is pending no more when its chain is queued again.
pub proof fn lemma_fire_wf(s: StateView)
    requires
        s.wf(),
        s.head_is_due(),
    ensures
        s.spec_fire().wf(),
{
    let events = s.queue.events;
    let fired = events[0].event();
    lemma_drop_first_keeps_distinct(events);
    let popped = s.with_events(events.drop_first());
    assert(popped.wf());
    lemma_handle_wf(popped, fired);
    let handled = popped.spec_handle(fired);
    match handled.1 {
        Some(next) => {
            assert(!crate::queue::spec_contains(events.drop_first(), next)) by {
                if crate::queue::spec_contains(events.drop_first(), next) {
                    let i = choose|i: int|
                        0 <= i < events.drop_first().len() && (#[trigger] events.drop_first()[i]).is(next);
                    assert(events.drop_first()[i].is(fired));
                }
            }
            lemma_insert_keeps_distinct(events.drop_first(), next);
        },
        None => {},
    }
}

/// Firing the events that are due keeps the state well formed.
pub proof fn lemma_drain_wf(s: StateView, n: nat)
    requires
        s.wf(),
    ensures
        s.spec_drain_n(n).wf(),
    decreases n,
{
    if n > 0 && s.head_is_due() {
        lemma_fire_wf(s);
        lemma_drain_wf(s.spec_fire(), (n - 1) as nat);
    }
}

/// A tick keeps the state well formed.
pub proof fn lemma_tick_wf(s: StateView)
    requires
        s.wf(),
    ensures
        s.spec_tick().wf(),
{
    lemma_drain_wf(s, s.due_now());
    lemma_advance_keeps_distinct(s.spec_drain().queue.events);
}

/// Whatever command is processed, a well-formed state stays well formed.
pub proof fn lemma_process_wf(tx: &Transaction, s: StateView, pkey: [u64; 4], rand: Reveal)
    requires
        s.wf(),
    ensures
        tx.spec_process(s, pkey, rand).0.wf(),
{
    let pid = crate::player::spec_pkey_to_pid(pkey);
    lemma_commands_wf(tx, s, pid, crate::random::spec_seed(rand.value));
    lemma_buy_elf_revealed_wf(tx, s, pid, rand);
    lemma_deposit_wf(tx, s, pid);
    lemma_tick_wf(s);
}

/// A purchase with a reveal keeps the state well formed.
pub proof fn lemma_buy_elf_revealed_wf(tx: &Transaction, s: StateView, pid: [u64; 2], rand: Reveal)
    requires
        s.wf(),
    ensures
        tx.spec_buy_elf_revealed(s, pid, rand).0.wf(),
{
    lemma_buy_elf_wf(tx, s, pid, crate::random::spec_seed(rand.value));
}

} // verus!
