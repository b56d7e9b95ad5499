//! The commands of the players: what each checks, and what each changes.

use vstd::prelude::*;
use crate::elf::{Elf, StandElf, in_catalog, spec_can_buy_elf, spec_elf_price, spec_get_elf};
use crate::error::{
    ERROR_INVALID_PURCHASE_CONDITION, ERROR_MAX_ELF, ERROR_MAX_ELF_SLOT, ERROR_NOT_FOUND_ELF,
    ERROR_NOT_FOUND_PROP, ERROR_NOT_FOUND_RANCH, ERROR_NOT_GOLD_BALANCE, ERROR_PLAYER_ALREADY_EXIST,
    ERROR_PLAYER_NOT_EXIST, ERROR_THIS_PROP_MUST_BE_USED_USDT,
};
use crate::player::{ElfPlayer, PlayerDataView, PlayerView};
use crate::prop::{Prop, UserProp, PRICE_TYPE_GOLD, PRICE_TYPE_USDT, spec_prop_by_type};
use crate::ranch::{Ranch, RanchView, MAX_ELF_SLOT};
use crate::settlement::{WithdrawInfo, encode_address, spec_address, spec_opinfo};
use crate::state::{State, StateView, Transaction};

verus! {

/// The sum of two counts, up to the largest number.
pub open spec fn spec_sat_add(a: u64, b: u64) -> u64 {
    if a + b <= u64::MAX {
        (a + b) as u64
    } else {
        u64::MAX
    }
}

/// The sum of two counts, up to the largest number.
pub fn sat_add(a: u64, b: u64) -> (sum: u64)
    ensures
        sum == spec_sat_add(a, b),
{
    if a <= u64::MAX - b {
        a + b
    } else {
        u64::MAX
    }
}

impl PlayerView {
    /// The player after one more command.
    pub open spec fn sent(self) -> PlayerView {
        PlayerView { nonce: (self.nonce + 1) as u64, ..self }
    }

    /// The player with other data.
    pub open spec fn with_data(self, data: PlayerDataView) -> PlayerView {
        PlayerView { data, ..self }
    }
}

impl PlayerDataView {
    /// The data after paying `price`.
    pub open spec fn paid(self, price: u64) -> PlayerDataView {
        PlayerDataView { gold_balance: (self.gold_balance - price) as u64, ..self }
    }

    /// The data after getting `gold`.
    pub open spec fn earned(self, gold: u64) -> PlayerDataView {
        PlayerDataView { gold_balance: spec_sat_add(self.gold_balance, gold), ..self }
    }

    /// The data of a new player: the starting gold and one empty ranch.
    pub open spec fn spec_installed() -> PlayerDataView {
        PlayerDataView {
            ranchs: seq![
                RanchView { id: 1, ranch_clean: 0, elf_slot: 1, elfs: Seq::empty(), props: Seq::empty() },
            ],
            ..PlayerDataView::spec_default()
        }
    }
}

impl StateView {
    /// Starts the chains of each of the elves, the first elf first.
    pub open spec fn spec_init_events(self, pid: [u64; 2], ranch_id: u64, elfs: Seq<Elf>) -> StateView
        decreases elfs.len(),
    {
        if elfs.len() == 0 {
            self
        } else {
            self.spec_init_events(pid, ranch_id, elfs.drop_last()).spec_init_event(
                pid,
                ranch_id,
                elfs.last(),
            )
        }
    }
}

impl Transaction {
    /// Whether the command has the number that the sender may send next.
    /// Nothing is asked of a sender who is no player.
    pub open spec fn nonce_ok(&self, s: StateView, pid: [u64; 2]) -> bool {
        if s.has_player(pid) {
            s.player(pid).nonce == self.nonce && self.nonce < u64::MAX
        } else {
            true
        }
    }

    /// Whether the command may make its sender a player: the first command of
    /// a sender has the number zero.
    pub open spec fn first_nonce_ok(&self, s: StateView, pid: [u64; 2]) -> bool {
        !s.has_player(pid) ==> self.nonce == 0
    }

    /// Makes the sender a player with the starting gold and one empty ranch,
    /// unless the sender is one.
    pub open spec fn spec_install_player(&self, s: StateView, pid: [u64; 2]) -> (StateView, Result<(), u32>) {
        if s.has_player(pid) {
            (s, Err(ERROR_PLAYER_ALREADY_EXIST))
        } else {
            (
                StateView {
                    players: s.players.push(
                        PlayerView { player_id: pid, nonce: 1, data: PlayerDataView::spec_installed() },
                    ),
                    ..s
                },
                Ok(()),
            )
        }
    }

    /// Buys an elf of the type `data[1]` for the ranch `data[0]`: the ranch
    /// must be there and have a free slot, the player must be allowed to buy
    /// the type and have its price. The elf gets its grade from `rand`, and its
    /// chains start.
    pub open spec fn spec_buy_elf(&self, s: StateView, pid: [u64; 2], rand: u64) -> (
        StateView,
        Result<(), u32>,
    ) {
        let ranch_id = self.data@[0];
        let elf_type = self.data@[1];
        if !s.has_player(pid) {
            (s, Err(ERROR_PLAYER_NOT_EXIST))
        } else {
            let player = s.player(pid);
            let data = player.data;
            if !data.has_ranch(ranch_id) {
                (s, Err(ERROR_NOT_FOUND_RANCH))
            } else if data.ranch(ranch_id).elfs.len() >= data.ranch(ranch_id).elf_slot || data.ranch(
                ranch_id,
            ).last_elf_id() == u64::MAX {
                (s, Err(ERROR_MAX_ELF))
            } else if spec_can_buy_elf(data, ranch_id, elf_type) is Err {
                (s, Err(ERROR_INVALID_PURCHASE_CONDITION))
            } else if data.gold_balance < spec_elf_price(elf_type) {
                (s, Err(ERROR_NOT_GOLD_BALANCE))
            } else {
                let elf = spec_get_elf(rand, elf_type, data.ranch(ranch_id).last_elf_id());
                (
                    s.with_player(
                        pid,
                        player.sent().with_data(
                            data.paid(spec_elf_price(elf_type)).spec_set_elf_by_ranch(ranch_id, elf),
                        ),
                    ).spec_init_event(pid, ranch_id, elf),
                    Ok(()),
                )
            }
        }
    }

    /// Buys a prop of the type `data[1]` for the ranch `data[0]`: the ranch
    /// must be there, the prop must be one that gold buys, and the player must
    /// have its price.
    pub open spec fn spec_buy_prop(&self, s: StateView, pid: [u64; 2]) -> (StateView, Result<(), u32>) {
        let ranch_id = self.data@[0];
        let prop_type = self.data@[1];
        if !s.has_player(pid) {
            (s, Err(ERROR_PLAYER_NOT_EXIST))
        } else {
            let player = s.player(pid);
            let data = player.data;
            if !data.has_ranch(ranch_id) {
                (s, Err(ERROR_NOT_FOUND_RANCH))
            } else {
                match spec_prop_by_type(prop_type) {
                    None => (s, Err(ERROR_NOT_FOUND_PROP)),
                    Some(prop) => {
                        if prop.price_type != PRICE_TYPE_GOLD {
                            (s, Err(ERROR_THIS_PROP_MUST_BE_USED_USDT))
                        } else if data.gold_balance < prop.price {
                            (s, Err(ERROR_NOT_GOLD_BALANCE))
                        } else {
                            (
                                s.with_player(
                                    pid,
                                    player.sent().with_data(
                                        data.paid(prop.price).spec_set_prop_by_ranch(
                                            ranch_id,
                                            UserProp { prop_type: prop.prop_type, count: 1 },
                                        ),
                                    ),
                                ),
                                Ok(()),
                            )
                        }
                    },
                }
            }
        }
    }

    /// Buys the next slot of the ranch `data[0]`: the ranch must be there and
    /// not have every slot, and the player must have the price of the slot.
    pub open spec fn spec_buy_slot(&self, s: StateView, pid: [u64; 2]) -> (StateView, Result<(), u32>) {
        let ranch_id = self.data@[0];
        if !s.has_player(pid) {
            (s, Err(ERROR_PLAYER_NOT_EXIST))
        } else {
            let player = s.player(pid);
            let data = player.data;
            if !data.has_ranch(ranch_id) {
                (s, Err(ERROR_NOT_FOUND_RANCH))
            } else if data.ranch(ranch_id).elf_slot >= MAX_ELF_SLOT {
                (s, Err(ERROR_MAX_ELF_SLOT))
            } else if data.gold_balance < data.spec_ranch_slot_price(ranch_id) {
                (s, Err(ERROR_NOT_GOLD_BALANCE))
            } else {
                (
                    s.with_player(
                        pid,
                        player.sent().with_data(
                            data.paid(data.spec_ranch_slot_price(ranch_id)).spec_add_ranch_elf_slot(ranch_id),
                        ),
                    ),
                    Ok(()),
                )
            }
        }
    }

    /// Collects the gold of the elf `data[1]` of the ranch `data[0]`: the
    /// store is emptied into the balance and counted, and the chains of the
    /// elf start again.
    pub open spec fn spec_collect_gold(&self, s: StateView, pid: [u64; 2]) -> (StateView, Result<(), u32>) {
        let ranch_id = self.data@[0];
        let elf_id = self.data@[1];
        if !s.has_player(pid) {
            (s, Err(ERROR_PLAYER_NOT_EXIST))
        } else {
            let player = s.player(pid);
            let data = player.data;
            if !data.has_elf(ranch_id, elf_id) {
                (s, Err(ERROR_NOT_FOUND_ELF))
            } else {
                let elf = data.elf(ranch_id, elf_id);
                let gold = elf.current_gold_store;
                let after = PlayerDataView {
                    gold_count: spec_sat_add(data.gold_count, gold),
                    ..data.earned(gold)
                }.with_elf(ranch_id, elf_id, elf.spec_collected());
                (
                    s.with_player(pid, player.sent().with_data(after)).spec_init_event(
                        pid,
                        ranch_id,
                        elf.spec_collected(),
                    ),
                    Ok(()),
                )
            }
        }
    }

    /// Cleans the ranch `data[0]`: a foul ranch is clean afterwards, the
    /// cleaning is counted, and the chains of every elf in it start again. A
    /// clean ranch is left alone, and so is all else.
    pub open spec fn spec_clean_ranch(&self, s: StateView, pid: [u64; 2]) -> (StateView, Result<(), u32>) {
        let ranch_id = self.data@[0];
        if !s.has_player(pid) {
            (s, Err(ERROR_PLAYER_NOT_EXIST))
        } else {
            let player = s.player(pid);
            let data = player.data;
            if !data.has_ranch(ranch_id) {
                (s, Err(ERROR_NOT_FOUND_RANCH))
            } else if data.ranch(ranch_id).ranch_clean == 0 {
                (s, Ok(()))
            } else {
                let ranch = data.ranch(ranch_id);
                let after = PlayerDataView {
                    clean_count: spec_sat_add(data.clean_count, 1),
                    ..data
                }.with_ranch(ranch_id, RanchView { ranch_clean: 0, ..ranch });
                (
                    s.with_player(pid, player.sent().with_data(after)).spec_init_events(
                        pid,
                        ranch_id,
                        ranch.elfs,
                    ),
                    Ok(()),
                )
            }
        }
    }

    /// Feeds a prop of the type `data[2]` to the elf `data[1]` of the ranch
    /// `data[0]`: the ranch must have one. The prop is used up, the feeding is
    /// counted, and the chains of the elf start again.
    pub open spec fn spec_feed_elf(&self, s: StateView, pid: [u64; 2]) -> (StateView, Result<(), u32>) {
        let ranch_id = self.data@[0];
        let elf_id = self.data@[1];
        let prop_type = self.data@[2];
        if !s.has_player(pid) {
            (s, Err(ERROR_PLAYER_NOT_EXIST))
        } else {
            let player = s.player(pid);
            let data = player.data;
            if !data.has_elf(ranch_id, elf_id) {
                (s, Err(ERROR_NOT_FOUND_ELF))
            } else if !data.ranch(ranch_id).has_prop(prop_type) || data.ranch(ranch_id).props[data.ranch(
                ranch_id,
            ).prop_index(prop_type)].count == 0 {
                (s, Err(ERROR_NOT_FOUND_PROP))
            } else {
                let fed = data.elf(ranch_id, elf_id).spec_fed(prop_type);
                let after = PlayerDataView {
                    feed_count: spec_sat_add(data.feed_count, 1),
                    ..data.spec_feed_elf(ranch_id, elf_id, prop_type).spec_reduce_prop(ranch_id, prop_type)
                };
                (
                    s.with_player(pid, player.sent().with_data(after)).spec_init_event(pid, ranch_id, fed),
                    Ok(()),
                )
            }
        }
    }

    /// Treats the elf `data[1]` of the ranch `data[0]` with a prop of the type
    /// `data[2]`: the ranch must have one. The prop is used up, the treatment
    /// is counted, and the chains of the elf start again.
    pub open spec fn spec_healing_elf(&self, s: StateView, pid: [u64; 2]) -> (StateView, Result<(), u32>) {
        let ranch_id = self.data@[0];
        let elf_id = self.data@[1];
        let prop_type = self.data@[2];
        if !s.has_player(pid) {
            (s, Err(ERROR_PLAYER_NOT_EXIST))
        } else {
            let player = s.player(pid);
            let data = player.data;
            if !data.has_elf(ranch_id, elf_id) {
                (s, Err(ERROR_NOT_FOUND_ELF))
            } else if !data.ranch(ranch_id).has_prop(prop_type) || data.ranch(ranch_id).props[data.ranch(
                ranch_id,
            ).prop_index(prop_type)].count == 0 {
                (s, Err(ERROR_NOT_FOUND_PROP))
            } else {
                let healed = data.elf(ranch_id, elf_id).spec_healed(prop_type);
                let after = PlayerDataView {
                    health_count: spec_sat_add(data.health_count, 1),
                    ..data.spec_healing_elf(ranch_id, elf_id, prop_type).spec_reduce_prop(ranch_id, prop_type)
                };
                (
                    s.with_player(pid, player.sent().with_data(after)).spec_init_event(
                        pid,
                        ranch_id,
                        healed,
                    ),
                    Ok(()),
                )
            }
        }
    }

    /// Sells the elf `data[1]` of the ranch `data[0]` for the price of its
    /// type: the elf must be there and be of the catalog.
    pub open spec fn spec_sell_elf(&self, s: StateView, pid: [u64; 2]) -> (StateView, Result<(), u32>) {
        let ranch_id = self.data@[0];
        let elf_id = self.data@[1];
        if !s.has_player(pid) {
            (s, Err(ERROR_PLAYER_NOT_EXIST))
        } else {
            let player = s.player(pid);
            let data = player.data;
            if !data.has_elf(ranch_id, elf_id) {
                (s, Err(ERROR_NOT_FOUND_ELF))
            } else if !in_catalog(data.elf(ranch_id, elf_id).elf_type, data.elf(ranch_id, elf_id).grade) {
                (s, Err(ERROR_NOT_FOUND_ELF))
            } else {
                let elf = data.elf(ranch_id, elf_id);
                (
                    s.with_player(
                        pid,
                        player.sent().with_data(
                            data.spec_remove_elf(ranch_id, elf_id).earned(spec_elf_price(elf.elf_type)),
                        ),
                    ),
                    Ok(()),
                )
            }
        }
    }

    /// The amount of a withdrawal: the low half of `data[0]`.
    pub open spec fn spec_withdraw_amount(&self) -> u64 {
        self.data@[0] & 0xffffffff
    }

    /// The withdrawal that a command asks for: its nonce, its amount, and as
    /// the sender the three words of the command.
    pub open spec fn spec_withdraw_info(&self) -> WithdrawInfo {
        WithdrawInfo {
            opinfo: spec_opinfo(self.nonce),
            account_index: 0,
            object_index: 0,
            amount: [self.spec_withdraw_amount(), 0, 0, 0],
            sender: spec_address(seq![self.data@[0], self.data@[1], self.data@[2], 0]),
        }
    }

    /// Withdraws gold: the player must have the amount. It leaves the balance
    /// and waits among the withdrawals to settle.
    pub open spec fn spec_withdraw(&self, s: StateView, pid: [u64; 2]) -> (StateView, Result<(), u32>) {
        if !s.has_player(pid) {
            (s, Err(ERROR_PLAYER_NOT_EXIST))
        } else {
            let player = s.player(pid);
            let data = player.data;
            if data.gold_balance < self.spec_withdraw_amount() {
                (s, Err(ERROR_NOT_GOLD_BALANCE))
            } else {
                (
                    StateView {
                        settlement: s.settlement.push(self.spec_withdraw_info()),
                        ..s.with_player(pid, player.sent().with_data(data.paid(self.spec_withdraw_amount())))
                    },
                    Ok(()),
                )
            }
        }
    }

    /// Hands a prop of the type `data[3]` to the ranch `data[2]` of the player
    /// `data[0]`, `data[1]`: sender and player must be there, the ranch too,
    /// and the prop must be one that is paid for outside the game.
    pub open spec fn spec_deposit(&self, s: StateView, pid: [u64; 2]) -> (StateView, Result<(), u32>) {
        let target: [u64; 2] = [self.data@[0], self.data@[1]];
        let ranch_id = self.data@[2];
        let prop_type = self.data@[3];
        if !s.has_player(pid) || !s.has_player(target) {
            (s, Err(ERROR_PLAYER_NOT_EXIST))
        } else if !s.player(target).data.has_ranch(ranch_id) {
            (s, Err(ERROR_NOT_FOUND_RANCH))
        } else {
            match spec_prop_by_type(prop_type) {
                None => (s, Err(ERROR_NOT_FOUND_PROP)),
                Some(prop) => {
                    if prop.price_type != PRICE_TYPE_USDT {
                        (s, Err(ERROR_THIS_PROP_MUST_BE_USED_USDT))
                    } else {
                        let given = s.with_player(
                            target,
                            s.player(target).with_data(
                                s.player(target).data.spec_set_prop_by_ranch(
                                    ranch_id,
                                    UserProp { prop_type: prop.prop_type, count: 1 },
                                ),
                            ),
                        );
                        (given.with_player(pid, given.player(pid).sent()), Ok(()))
                    }
                },
            }
        }
    }
}

impl Transaction {
    /// Makes the sender a player.
    pub fn install_player(&self, state: &mut State, pid: &[u64; 2]) -> (result: Result<(), u32>)
        requires
            self.first_nonce_ok(old(state)@, *pid),
        ensures
            (final(state)@, result) == self.spec_install_player(old(state)@, *pid),
            old(state).wf() ==> final(state).wf(),
    {
        proof {
            if old(state).wf() {
                crate::invariants::lemma_commands_wf(self, old(state)@, *pid, 0);
            }
        }
        match state.player_position(pid) {
            Some(_) => Err(ERROR_PLAYER_ALREADY_EXIST),
            None => {
                let mut player = ElfPlayer::new_from_pid(*pid);
                player.check_and_inc_nonce(self.nonce);
                assert(player.data.ranchs@.len() == player@.data.ranchs.len());
                let ranch_count: usize = player.data.ranchs.len();
                let ranch_id: usize = ranch_count + 1;
                let ranch = Ranch::new(ranch_id as u64);
                player.data.ranchs.push(ranch);
                proof {
                    assert(player@.data.ranchs =~= PlayerDataView::spec_installed().ranchs);
                }
                state.players.push(player);
                proof {
                    assert(state@.players =~= self.spec_install_player(old(state)@, *pid).0.players);
                }
                Ok(())
            },
        }
    }

    /// Buys a prop for a ranch with gold.
    pub fn buy_prop(&self, state: &mut State, pid: &[u64; 2]) -> (result: Result<(), u32>)
        requires
            self.data@.len() >= 2,
            self.nonce_ok(old(state)@, *pid),
        ensures
            (final(state)@, result) == self.spec_buy_prop(old(state)@, *pid),
            old(state).wf() ==> final(state).wf(),
    {
        proof {
            if old(state).wf() {
                crate::invariants::lemma_commands_wf(self, old(state)@, *pid, 0);
            }
        }
        let k: usize = match state.player_position(pid) {
            None => {
                return Err(ERROR_PLAYER_NOT_EXIST);
            },
            Some(k) => k,
        };
        let ranch_id: u64 = self.data[0];
        let prop_type: u64 = self.data[1];
        if state.players[k].data.ranch_position(ranch_id).is_none() {
            return Err(ERROR_NOT_FOUND_RANCH);
        }
        match Prop::get_prop_by_type(prop_type) {
            Some(prop) => {
                if prop.price_type == PRICE_TYPE_GOLD {
                    if state.players[k].data.gold_balance < prop.price {
                        return Err(ERROR_NOT_GOLD_BALANCE);
                    }
                    state.players[k].check_and_inc_nonce(self.nonce);
                    state.players[k].data.gold_balance -= prop.price;
                    let user_prop = UserProp::new(prop.prop_type);
                    state.players[k].data.set_prop_by_ranch(ranch_id, user_prop);
                    proof {
                        assert(state@.players =~= self.spec_buy_prop(old(state)@, *pid).0.players);
                    }
                    Ok(())
                } else {
                    Err(ERROR_THIS_PROP_MUST_BE_USED_USDT)
                }
            },
            None => Err(ERROR_NOT_FOUND_PROP),
        }
    }

    /// Buys an elf for a ranch. The elf gets its grade from the seed `rand`,
    /// which this function takes as it is given; `buy_elf_revealed` takes the
    /// seed from a reveal and holds the reveal against the commitment first.
    pub fn buy_elf(&self, state: &mut State, pid: &[u64; 2], rand: u64) -> (result: Result<(), u32>)
        requires
            self.data@.len() >= 2,
            self.nonce_ok(old(state)@, *pid),
        ensures
            (final(state)@, result) == self.spec_buy_elf(old(state)@, *pid, rand),
            old(state).wf() ==> final(state).wf(),
    {
        proof {
            if old(state).wf() {
                crate::invariants::lemma_commands_wf(self, old(state)@, *pid, rand);
            }
        }
        let k: usize = match state.player_position(pid) {
            None => {
                return Err(ERROR_PLAYER_NOT_EXIST);
            },
            Some(k) => k,
        };
        let ranch_id: u64 = self.data[0];
        let elf_type: u64 = self.data[1];
        let i: usize = match state.players[k].data.ranch_position(ranch_id) {
            None => {
                return Err(ERROR_NOT_FOUND_RANCH);
            },
            Some(i) => i,
        };
        let elfs_count: usize = state.players[k].data.ranchs[i].elfs.len();
        let elf_slot: u64 = state.players[k].data.ranchs[i].elf_slot;
        let max_id: u64 = if elfs_count == 0 {
            0
        } else {
            state.players[k].data.ranchs[i].elfs[elfs_count - 1].id
        };
        if elfs_count as u64 >= elf_slot || max_id == u64::MAX {
            return Err(ERROR_MAX_ELF);
        }
        let buy_price: u64 = match Elf::check_can_buy_elf(&state.players[k].data, ranch_id, elf_type) {
            Err(_) => {
                return Err(ERROR_INVALID_PURCHASE_CONDITION);
            },
            Ok(price) => price,
        };
        if state.players[k].data.gold_balance < buy_price {
            return Err(ERROR_NOT_GOLD_BALANCE);
        }
        state.players[k].check_and_inc_nonce(self.nonce);
        state.players[k].data.gold_balance -= buy_price;
        let new_elf: Elf = Elf::get_elf(rand, elf_type, max_id);
        state.players[k].data.set_elf_by_ranch(ranch_id, new_elf);
        proof {
            let s = old(state)@;
            let player = s.player(*pid);
            let want = s.with_player(
                *pid,
                player.sent().with_data(
                    player.data.paid(spec_elf_price(elf_type)).spec_set_elf_by_ranch(ranch_id, new_elf),
                ),
            );
            assert(state@.players =~= want.players);
        }
        self.init_event(state, *pid, ranch_id, new_elf);
        Ok(())
    }

    /// Buys the next slot of a ranch.
    pub fn buy_slot(&self, state: &mut State, pid: &[u64; 2]) -> (result: Result<(), u32>)
        requires
            self.data@.len() >= 1,
            self.nonce_ok(old(state)@, *pid),
        ensures
            (final(state)@, result) == self.spec_buy_slot(old(state)@, *pid),
            old(state).wf() ==> final(state).wf(),
    {
        proof {
            if old(state).wf() {
                crate::invariants::lemma_commands_wf(self, old(state)@, *pid, 0);
            }
        }
        let k: usize = match state.player_position(pid) {
            None => {
                return Err(ERROR_PLAYER_NOT_EXIST);
            },
            Some(k) => k,
        };
        let ranch_id: u64 = self.data[0];
        let i: usize = match state.players[k].data.ranch_position(ranch_id) {
            None => {
                return Err(ERROR_NOT_FOUND_RANCH);
            },
            Some(i) => i,
        };
        if state.players[k].data.ranchs[i].elf_slot >= MAX_ELF_SLOT {
            return Err(ERROR_MAX_ELF_SLOT);
        }
        let slot_price: u64 = state.players[k].data.get_ranch_slot_price(ranch_id);
        if state.players[k].data.gold_balance < slot_price {
            return Err(ERROR_NOT_GOLD_BALANCE);
        }
        state.players[k].check_and_inc_nonce(self.nonce);
        state.players[k].data.gold_balance -= slot_price;
        state.players[k].data.add_ranch_elf_slot(ranch_id);
        proof {
            assert(state@.players =~= self.spec_buy_slot(old(state)@, *pid).0.players);
        }
        Ok(())
    }

    /// Collects the gold of an elf.
    pub fn collect_gold(&self, state: &mut State, pid: &[u64; 2]) -> (result: Result<(), u32>)
        requires
            self.data@.len() >= 2,
            self.nonce_ok(old(state)@, *pid),
        ensures
            (final(state)@, result) == self.spec_collect_gold(old(state)@, *pid),
            old(state).wf() ==> final(state).wf(),
    {
        proof {
            if old(state).wf() {
                crate::invariants::lemma_commands_wf(self, old(state)@, *pid, 0);
            }
        }
        let k: usize = match state.player_position(pid) {
            None => {
                return Err(ERROR_PLAYER_NOT_EXIST);
            },
            Some(k) => k,
        };
        let ranch_id: u64 = self.data[0];
        let elf_id: u64 = self.data[1];
        let (i, j): (usize, usize) = match state.players[k].data.elf_position(ranch_id, elf_id) {
            None => {
                return Err(ERROR_NOT_FOUND_ELF);
            },
            Some(place) => place,
        };
        let mut elf: Elf = state.players[k].data.ranchs[i].elfs[j];
        let gold: u64 = elf.current_gold_store;
        elf.current_gold_store = 0;
        state.players[k].check_and_inc_nonce(self.nonce);
        state.players[k].data.gold_balance = sat_add(state.players[k].data.gold_balance, gold);
        state.players[k].data.gold_count = sat_add(state.players[k].data.gold_count, gold);
        state.players[k].data.ranchs[i].elfs[j] = elf;
        proof {
            let s = old(state)@;
            let player = s.player(*pid);
            let data = player.data;
            let after = PlayerDataView {
                gold_count: spec_sat_add(data.gold_count, gold),
                ..data.earned(gold)
            }.with_elf(ranch_id, elf_id, elf);
            let want = s.with_player(*pid, player.sent().with_data(after));
            assert(state.players@[k as int].data.ranchs@[i as int]@.elfs =~= after.ranchs[i as int].elfs);
            assert(state.players@[k as int].data@.ranchs =~= after.ranchs);
            assert(state@.players =~= want.players);
        }
        self.init_event(state, *pid, ranch_id, elf);
        Ok(())
    }

    /// Cleans a ranch.
    pub fn clean_ranch(&self, state: &mut State, pid: &[u64; 2]) -> (result: Result<(), u32>)
        requires
            self.data@.len() >= 1,
            self.nonce_ok(old(state)@, *pid),
        ensures
            (final(state)@, result) == self.spec_clean_ranch(old(state)@, *pid),
            old(state).wf() ==> final(state).wf(),
    {
        proof {
            if old(state).wf() {
                crate::invariants::lemma_commands_wf(self, old(state)@, *pid, 0);
            }
        }
        let k: usize = match state.player_position(pid) {
            None => {
                return Err(ERROR_PLAYER_NOT_EXIST);
            },
            Some(k) => k,
        };
        let ranch_id: u64 = self.data[0];
        let i: usize = match state.players[k].data.ranch_position(ranch_id) {
            None => {
                return Err(ERROR_NOT_FOUND_RANCH);
            },
            Some(i) => i,
        };
        if state.players[k].data.ranchs[i].ranch_clean > 0 {
            let elfs: Vec<Elf> = state.players[k].data.ranchs[i].elf_list();
            state.players[k].check_and_inc_nonce(self.nonce);
            state.players[k].data.ranchs[i].ranch_clean = 0;
            state.players[k].data.clean_count = sat_add(state.players[k].data.clean_count, 1);
            let ghost cleaned = state@;
            proof {
                let s = old(state)@;
                let player = s.player(*pid);
                let data = player.data;
                let after = PlayerDataView {
                    clean_count: spec_sat_add(data.clean_count, 1),
                    ..data
                }.with_ranch(ranch_id, RanchView { ranch_clean: 0, ..data.ranch(ranch_id) });
                let want = s.with_player(*pid, player.sent().with_data(after));
                assert(state.players@[k as int].data@.ranchs =~= after.ranchs);
                assert(state@.players =~= want.players);
                assert(elfs@.take(0) =~= Seq::empty());
            }
            let mut n: usize = 0;
            while n < elfs.len()
                invariant
                    n <= elfs.len(),
                    state@ == cleaned.spec_init_events(*pid, ranch_id, elfs@.take(n as int)),
                decreases elfs.len() - n,
            {
                proof {
                    assert(elfs@.take(n + 1).drop_last() =~= elfs@.take(n as int));
                }
                self.init_event(state, *pid, ranch_id, elfs[n]);
                n += 1;
            }
            proof {
                assert(elfs@.take(n as int) =~= elfs@);
            }
        }
        Ok(())
    }

    /// Feeds a prop to an elf.
    pub fn feed_elf(&self, state: &mut State, pid: &[u64; 2]) -> (result: Result<(), u32>)
        requires
            self.data@.len() >= 3,
            self.nonce_ok(old(state)@, *pid),
        ensures
            (final(state)@, result) == self.spec_feed_elf(old(state)@, *pid),
            old(state).wf() ==> final(state).wf(),
    {
        proof {
            if old(state).wf() {
                crate::invariants::lemma_commands_wf(self, old(state)@, *pid, 0);
            }
        }
        let k: usize = match state.player_position(pid) {
            None => {
                return Err(ERROR_PLAYER_NOT_EXIST);
            },
            Some(k) => k,
        };
        let ranch_id: u64 = self.data[0];
        let elf_id: u64 = self.data[1];
        let prop_type: u64 = self.data[2];
        let (i, j): (usize, usize) = match state.players[k].data.elf_position(ranch_id, elf_id) {
            None => {
                return Err(ERROR_NOT_FOUND_ELF);
            },
            Some(place) => place,
        };
        match state.players[k].data.ranchs[i].prop_position(prop_type) {
            Some(m) => {
                if state.players[k].data.ranchs[i].props[m].count == 0 {
                    return Err(ERROR_NOT_FOUND_PROP);
                }
                let mut fed: Elf = state.players[k].data.ranchs[i].elfs[j];
                fed.satiety = fed.satiety + Elf::compute_need_add_satiety(prop_type, fed);
                state.players[k].check_and_inc_nonce(self.nonce);
                state.players[k].data.feed_elf(ranch_id, elf_id, prop_type);
                state.players[k].data.reduce_prop(ranch_id, prop_type);
                state.players[k].data.feed_count = sat_add(state.players[k].data.feed_count, 1);
                proof {
                    let s = old(state)@;
                    let player = s.player(*pid);
                    let data = player.data;
                    let after = PlayerDataView {
                        feed_count: spec_sat_add(data.feed_count, 1),
                        ..data.spec_feed_elf(ranch_id, elf_id, prop_type).spec_reduce_prop(ranch_id, prop_type)
                    };
                    let want = s.with_player(*pid, player.sent().with_data(after));
                    assert(state@.players =~= want.players);
                }
                self.init_event(state, *pid, ranch_id, fed);
                Ok(())
            },
            None => Err(ERROR_NOT_FOUND_PROP),
        }
    }

    /// Treats an elf with a prop.
    pub fn healing_elf(&self, state: &mut State, pid: &[u64; 2]) -> (result: Result<(), u32>)
        requires
            self.data@.len() >= 3,
            self.nonce_ok(old(state)@, *pid),
        ensures
            (final(state)@, result) == self.spec_healing_elf(old(state)@, *pid),
            old(state).wf() ==> final(state).wf(),
    {
        proof {
            if old(state).wf() {
                crate::invariants::lemma_commands_wf(self, old(state)@, *pid, 0);
            }
        }
        let k: usize = match state.player_position(pid) {
            None => {
                return Err(ERROR_PLAYER_NOT_EXIST);
            },
            Some(k) => k,
        };
        let ranch_id: u64 = self.data[0];
        let elf_id: u64 = self.data[1];
        let prop_type: u64 = self.data[2];
        let (i, j): (usize, usize) = match state.players[k].data.elf_position(ranch_id, elf_id) {
            None => {
                return Err(ERROR_NOT_FOUND_ELF);
            },
            Some(place) => place,
        };
        match state.players[k].data.ranchs[i].prop_position(prop_type) {
            Some(m) => {
                if state.players[k].data.ranchs[i].props[m].count == 0 {
                    return Err(ERROR_NOT_FOUND_PROP);
                }
                let mut healed: Elf = state.players[k].data.ranchs[i].elfs[j];
                healed.health = healed.health + Elf::compute_need_add_health(prop_type, healed);
                state.players[k].check_and_inc_nonce(self.nonce);
                state.players[k].data.healing_elf(ranch_id, elf_id, prop_type);
                state.players[k].data.reduce_prop(ranch_id, prop_type);
                state.players[k].data.health_count = sat_add(state.players[k].data.health_count, 1);
                proof {
                    let s = old(state)@;
                    let player = s.player(*pid);
                    let data = player.data;
                    let after = PlayerDataView {
                        health_count: spec_sat_add(data.health_count, 1),
                        ..data.spec_healing_elf(ranch_id, elf_id, prop_type).spec_reduce_prop(ranch_id, prop_type)
                    };
                    let want = s.with_player(*pid, player.sent().with_data(after));
                    assert(state@.players =~= want.players);
                }
                self.init_event(state, *pid, ranch_id, healed);
                Ok(())
            },
            None => Err(ERROR_NOT_FOUND_PROP),
        }
    }

    /// Sells an elf.
    pub fn sell_elf(&self, state: &mut State, pid: &[u64; 2]) -> (result: Result<(), u32>)
        requires
            self.data@.len() >= 2,
            self.nonce_ok(old(state)@, *pid),
        ensures
            (final(state)@, result) == self.spec_sell_elf(old(state)@, *pid),
            old(state).wf() ==> final(state).wf(),
    {
        proof {
            if old(state).wf() {
                crate::invariants::lemma_commands_wf(self, old(state)@, *pid, 0);
            }
        }
        let k: usize = match state.player_position(pid) {
            None => {
                return Err(ERROR_PLAYER_NOT_EXIST);
            },
            Some(k) => k,
        };
        let ranch_id: u64 = self.data[0];
        let elf_id: u64 = self.data[1];
        let (i, j): (usize, usize) = match state.players[k].data.elf_position(ranch_id, elf_id) {
            None => {
                return Err(ERROR_NOT_FOUND_ELF);
            },
            Some(place) => place,
        };
        let elf_type: u64 = state.players[k].data.ranchs[i].elfs[j].elf_type;
        let grade: u64 = state.players[k].data.ranchs[i].elfs[j].grade;
        let stand_elf: StandElf = match StandElf::get_elf_by_type(elf_type, grade) {
            None => {
                return Err(ERROR_NOT_FOUND_ELF);
            },
            Some(entry) => entry,
        };
        state.players[k].check_and_inc_nonce(self.nonce);
        state.players[k].data.remove_elf_mut(ranch_id, elf_id);
        state.players[k].data.gold_balance = sat_add(state.players[k].data.gold_balance, stand_elf.sell_price);
        proof {
            assert(state@.players =~= self.spec_sell_elf(old(state)@, *pid).0.players);
        }
        Ok(())
    }

    /// Withdraws gold.
    pub fn withdraw(&self, state: &mut State, pid: &[u64; 2]) -> (result: Result<(), u32>)
        requires
            self.data@.len() >= 3,
            self.nonce_ok(old(state)@, *pid),
        ensures
            (final(state)@, result) == self.spec_withdraw(old(state)@, *pid),
            old(state).wf() ==> final(state).wf(),
    {
        proof {
            if old(state).wf() {
                crate::invariants::lemma_commands_wf(self, old(state)@, *pid, 0);
            }
        }
        let k: usize = match state.player_position(pid) {
            None => {
                return Err(ERROR_PLAYER_NOT_EXIST);
            },
            Some(k) => k,
        };
        let amount: u64 = self.data[0] & 0xffffffff;
        if state.players[k].data.gold_balance < amount {
            return Err(ERROR_NOT_GOLD_BALANCE);
        }
        let mut words: Vec<u64> = Vec::new();
        words.push(self.data[0]);
        words.push(self.data[1]);
        words.push(self.data[2]);
        words.push(0);
        proof {
            assert(words@ =~= seq![self.data@[0], self.data@[1], self.data@[2], 0]);
        }
        let sender: [u8; 32] = encode_address(&words);
        let amounts: [u64; 4] = [amount, 0, 0, 0];
        let withdrawinfo = WithdrawInfo::new(self.nonce, 0, 0, amounts, sender);
        proof {
            assert(amounts =~= self.spec_withdraw_info().amount);
            assert(withdrawinfo == self.spec_withdraw_info());
        }
        state.settlement.append_settlement(withdrawinfo);
        state.players[k].check_and_inc_nonce(self.nonce);
        state.players[k].data.gold_balance -= amount;
        proof {
            assert(state@.players =~= self.spec_withdraw(old(state)@, *pid).0.players);
        }
        Ok(())
    }

    /// Hands a prop that was paid for outside the game to a ranch of a
    /// player. The sender is the administrator.
    pub fn deposit(&self, state: &mut State, pid: &[u64; 2]) -> (result: Result<(), u32>)
        requires
            self.data@.len() >= 4,
            self.nonce_ok(old(state)@, *pid),
        ensures
            (final(state)@, result) == self.spec_deposit(old(state)@, *pid),
            old(state).wf() ==> final(state).wf(),
    {
        proof {
            if old(state).wf() {
                crate::invariants::lemma_deposit_wf(self, old(state)@, *pid);
            }
        }
        let admin: usize = match state.player_position(pid) {
            None => {
                return Err(ERROR_PLAYER_NOT_EXIST);
            },
            Some(k) => k,
        };
        let target: [u64; 2] = [self.data[0], self.data[1]];
        proof {
            let want: [u64; 2] = [self.data@[0], self.data@[1]];
            assert(target =~= want);
        }
        let k: usize = match state.player_position(&target) {
            None => {
                return Err(ERROR_PLAYER_NOT_EXIST);
            },
            Some(k) => k,
        };
        let ranch_id: u64 = self.data[2];
        let prop_type: u64 = self.data[3];
        if state.players[k].data.ranch_position(ranch_id).is_none() {
            return Err(ERROR_NOT_FOUND_RANCH);
        }
        match Prop::get_prop_by_type(prop_type) {
            Some(prop) => {
                if prop.price_type == PRICE_TYPE_USDT {
                    let user_prop = UserProp::new(prop.prop_type);
                    state.players[k].data.set_prop_by_ranch(ranch_id, user_prop);
                    let ghost given = state@;
                    proof {
                        let s = old(state)@;
                        let want = s.with_player(
                            target,
                            s.player(target).with_data(
                                s.player(target).data.spec_set_prop_by_ranch(ranch_id, user_prop),
                            ),
                        );
                        assert(given.players =~= want.players);
                        assert(crate::state::player_ids(given.players) =~= crate::state::player_ids(
                            s.players,
                        ));
                    }
                    state.players[admin].check_and_inc_nonce(self.nonce);
                    proof {
                        assert(state@.players =~= given.with_player(*pid, given.player(*pid).sent()).players);
                    }
                    Ok(())
                } else {
                    Err(ERROR_THIS_PROP_MUST_BE_USED_USDT)
                }
            },
            None => Err(ERROR_NOT_FOUND_PROP),
        }
    }
}

} // verus!
