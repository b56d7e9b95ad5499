//! The state of the game and the commands that change it. A command checks
//! first and changes then: one that fails leaves the state as it found it.

use vstd::prelude::*;
use crate::elf::{Elf, ATTRIBUTE_MAX};
use crate::error::{
    ERROR_INDEX_OUT_OF_BOUND, ERROR_INVALID_PURCHASE_CONDITION, ERROR_MAX_ELF, ERROR_MAX_ELF_SLOT,
    ERROR_MUST_ADMIN_KEY, ERROR_NOT_ENOUGH_RESOURCE, ERROR_NOT_FOUND_ELF, ERROR_NOT_FOUND_PROP,
    ERROR_NOT_FOUND_RANCH, ERROR_NOT_GOLD_BALANCE, ERROR_PLAYER_ALREADY_EXIST, ERROR_PLAYER_NOT_EXIST,
    ERROR_REVEAL_MISMATCH, ERROR_THIS_PROP_MUST_BE_USED_USDT,
};
use crate::event_type::{ADD_EXP, ADD_GOLD, ADD_SHIT, HEALTH_ADD, HEALTH_REDUCE, SATIETY_REDUCE};
use crate::event_type::{TICKS_PER_FOULING, TICKS_PER_MINUTE};
use crate::events::Event;
use crate::math::{first_index, lemma_first_index_is};
use crate::player::{ElfPlayer, PlayerView, spec_event};
use crate::queue::{EventQueue, EventQueueView, distinct_identities, spec_contains, spec_register};
use crate::random::RandomCommitment;
use crate::settlement::{SettlementInfo, WithdrawInfo};

verus! {

/// Advances the simulation by one tick.
pub const TIME_TICK: u64 = 0;

/// Makes the sender a player.
pub const INIT_PLAYER: u64 = 1;

pub const BUY_ELF: u64 = 2;

pub const FEED_ELF: u64 = 3;

pub const CLEAN_RANCH: u64 = 4;

pub const TREAT_ELF: u64 = 5;

pub const SELL_ELF: u64 = 6;

pub const WITHDRAW: u64 = 7;

pub const DEPOSIT: u64 = 8;

pub const BOUNTY: u64 = 9;

pub const BUY_RANCH: u64 = 10;

pub const COLLECT_GOLD: u64 = 11;

pub const BUY_PROP: u64 = 12;

pub const BUY_SLOT: u64 = 13;

/// A command as it comes over the wire.
#[derive(Debug)]
pub struct Transaction {
    pub command: u64,
    pub nonce: u64,
    pub data: Vec<u64>,
}

/// The whole of the game: the players, the pending events of their elves, the
/// random source and the withdrawals that wait.
#[derive(Debug)]
pub struct State {
    pub supplier: u64,
    pub queue: EventQueue,
    pub players: Vec<ElfPlayer>,
    /// Public key of the administrator.
    pub admin: [u64; 4],
    pub commitment: RandomCommitment,
    pub settlement: SettlementInfo,
}

/// The state as plain values.
pub struct StateView {
    pub supplier: u64,
    pub queue: EventQueueView,
    pub players: Seq<PlayerView>,
    pub admin: [u64; 4],
    pub commitment: RandomCommitment,
    pub settlement: Seq<WithdrawInfo>,
}

/// The views of a list of players, position by position.
pub open spec fn player_views(players: Seq<ElfPlayer>) -> Seq<PlayerView> {
    Seq::new(players.len(), |i: int| players[i]@)
}

/// The ids of a list of players, position by position.
pub open spec fn player_ids(players: Seq<PlayerView>) -> Seq<[u64; 2]> {
    Seq::new(players.len(), |i: int| players[i].player_id)
}

impl View for State {
    type V = StateView;

    open spec fn view(&self) -> StateView {
        StateView {
            supplier: self.supplier,
            queue: self.queue@,
            players: player_views(self.players@),
            admin: self.admin,
            commitment: self.commitment,
            settlement: self.settlement@,
        }
    }
}

impl StateView {
    /// Position of the first player with the id, or the number of players.
    pub open spec fn player_index(self, pid: [u64; 2]) -> int {
        first_index(player_ids(self.players), pid)
    }

    pub open spec fn has_player(self, pid: [u64; 2]) -> bool {
        self.player_index(pid) < self.players.len()
    }

    /// The first player with the id.
    pub open spec fn player(self, pid: [u64; 2]) -> PlayerView
        recommends
            self.has_player(pid),
    {
        self.players[self.player_index(pid)]
    }

    /// The state with the first player of the id replaced, where there is one.
    pub open spec fn with_player(self, pid: [u64; 2], player: PlayerView) -> StateView {
        if self.has_player(pid) {
            StateView { players: self.players.update(self.player_index(pid), player), ..self }
        } else {
            self
        }
    }

    /// The state with the event pending, unless it is pending already.
    pub open spec fn register(self, event: Event) -> StateView {
        StateView {
            queue: EventQueueView {
                counter: self.queue.counter,
                events: spec_register(self.queue.events, event),
            },
            ..self
        }
    }

    /// Starts the production chain of an elf.
    pub open spec fn spec_init_add_gold_event(self, pid: [u64; 2], ranch_id: u64, elf: Elf) -> StateView {
        self.register(spec_event(pid, ADD_GOLD, ranch_id, elf.id, TICKS_PER_MINUTE))
    }

    /// Starts the growth chain of an elf that is not grown up.
    pub open spec fn spec_init_add_exp_event(self, pid: [u64; 2], ranch_id: u64, elf: Elf) -> StateView {
        if elf.exp == ATTRIBUTE_MAX {
            self
        } else {
            self.register(spec_event(pid, ADD_EXP, ranch_id, elf.id, 1))
        }
    }

    /// Starts the health decay of an elf that has health.
    pub open spec fn spec_init_health_reduce_event(self, pid: [u64; 2], ranch_id: u64, elf: Elf) -> StateView {
        if elf.health == 0 {
            self
        } else {
            self.register(spec_event(pid, HEALTH_REDUCE, ranch_id, elf.id, 1))
        }
    }

    /// Starts the satiety decay of an elf that has satiety.
    pub open spec fn spec_init_satiety_reduce_event(self, pid: [u64; 2], ranch_id: u64, elf: Elf) -> StateView {
        if elf.satiety == 0 {
            self
        } else {
            self.register(spec_event(pid, SATIETY_REDUCE, ranch_id, elf.id, TICKS_PER_MINUTE))
        }
    }

    /// Starts the fouling chain of an elf.
    pub open spec fn spec_init_add_shit_event(self, pid: [u64; 2], ranch_id: u64, elf: Elf) -> StateView {
        self.register(spec_event(pid, ADD_SHIT, ranch_id, elf.id, TICKS_PER_FOULING))
    }

    /// Starts the regeneration chain of an elf.
    pub open spec fn spec_init_add_health_event(self, pid: [u64; 2], ranch_id: u64, elf: Elf) -> StateView {
        self.register(spec_event(pid, HEALTH_ADD, ranch_id, elf.id, TICKS_PER_MINUTE))
    }

    /// Starts every chain of an elf that applies to it and is not running:
    /// growth, health decay, satiety decay, production, fouling, regeneration.
    pub open spec fn spec_init_event(self, pid: [u64; 2], ranch_id: u64, elf: Elf) -> StateView {
        self.spec_init_add_exp_event(pid, ranch_id, elf).spec_init_health_reduce_event(
            pid,
            ranch_id,
            elf,
        ).spec_init_satiety_reduce_event(pid, ranch_id, elf).spec_init_add_gold_event(
            pid,
            ranch_id,
            elf,
        ).spec_init_add_shit_event(pid, ranch_id, elf).spec_init_add_health_event(pid, ranch_id, elf)
    }
}

/// The name of an error code.
pub open spec fn spec_decode_error(e: u32) -> &'static str {
    if e == ERROR_PLAYER_NOT_EXIST {
        "PlayerNotExist"
    } else if e == ERROR_PLAYER_ALREADY_EXIST {
        "PlayerAlreadyExist"
    } else if e == ERROR_NOT_GOLD_BALANCE {
        "NotGoldBalance"
    } else if e == ERROR_INDEX_OUT_OF_BOUND {
        "IndexOutofBound"
    } else if e == ERROR_NOT_ENOUGH_RESOURCE {
        "NotEnoughResource"
    } else if e == ERROR_NOT_FOUND_RANCH {
        "NotFoundRanch"
    } else if e == ERROR_MAX_ELF {
        "MaxElfCount"
    } else if e == ERROR_NOT_FOUND_ELF {
        "NotFoundElf"
    } else if e == ERROR_NOT_FOUND_PROP {
        "NotFoundProp"
    } else if e == ERROR_THIS_PROP_MUST_BE_USED_USDT {
        "ThisPropMustBeUsedUSDT"
    } else if e == ERROR_INVALID_PURCHASE_CONDITION {
        "InvalidPurchaseCondition"
    } else if e == ERROR_MAX_ELF_SLOT {
        "MaxElfSlot"
    } else if e == ERROR_MUST_ADMIN_KEY {
        "MustAdminKey"
    } else if e == ERROR_REVEAL_MISMATCH {
        "RevealMismatch"
    } else {
        "Unknown"
    }
}

/// Number of words that a command carries behind its first word.
pub open spec fn spec_data_len(command: u64) -> nat {
    if command == WITHDRAW {
        3
    } else if command == DEPOSIT {
        4
    } else if command == BOUNTY {
        1
    } else if command == INIT_PLAYER {
        0
    } else if command == BUY_ELF {
        2
    } else if command == FEED_ELF {
        3
    } else if command == CLEAN_RANCH {
        1
    } else if command == TREAT_ELF {
        3
    } else if command == SELL_ELF {
        2
    } else if command == BUY_RANCH {
        1
    } else if command == COLLECT_GOLD {
        2
    } else if command == BUY_SLOT {
        1
    } else if command == BUY_PROP {
        2
    } else {
        0
    }
}

/// Number of words of the wire form that a command reads.
pub open spec fn spec_params_len(command: u64) -> nat {
    if command == WITHDRAW || command == DEPOSIT {
        5
    } else {
        1 + spec_data_len(command)
    }
}

/// The words that a command carries: those behind the first word, but for a
/// withdrawal, which leaves the second word out.
pub open spec fn spec_decode_data(params: Seq<u64>) -> Seq<u64> {
    let command = params[0] & 0xff;
    if command == WITHDRAW {
        params.subrange(2, 5)
    } else {
        params.subrange(1, 1 + spec_data_len(command) as int)
    }
}

impl State {
    /// What holds of the state between any two commands: every player's
    /// account is well formed, no two players have the same id, and no two
    /// pending events name the same event.
    pub open spec fn wf(self) -> bool {
        self@.wf()
    }

    /// Position of the first player with the id.
    pub fn player_position(&self, pid: &[u64; 2]) -> (found: Option<usize>)
        ensures
            match found {
                Some(k) => {
                    &&& k == self@.player_index(*pid)
                    &&& self@.has_player(*pid)
                    &&& self.players@[k as int].player_id == *pid
                    &&& self.players@[k as int]@ == self@.player(*pid)
                },
                None => !self@.has_player(*pid),
            },
    {
        let mut k: usize = 0;
        while k < self.players.len()
            invariant
                k <= self.players.len(),
                forall|m: int| 0 <= m < k ==> player_ids(self@.players)[m] != *pid,
            decreases self.players.len() - k,
        {
            if self.players[k].player_id[0] == pid[0] && self.players[k].player_id[1] == pid[1] {
                proof {
                    assert(self.players@[k as int].player_id =~= *pid);
                    lemma_first_index_is(player_ids(self@.players), *pid, k as int);
                }
                return Some(k);
            }
            k += 1;
        }
        proof {
            lemma_first_index_is(player_ids(self@.players), *pid, k as int);
        }
        None
    }
}

/// The text of a number in a JSON document: its decimal digits.
pub open spec fn spec_decimal(n: nat) -> Seq<char>
    decreases n,
{
    if n < 10 {
        seq![spec_digit(n)]
    } else {
        spec_decimal(n / 10).push(spec_digit(n % 10))
    }
}

/// The character of a digit.
pub open spec fn spec_digit(d: nat) -> char {
    if d == 0 {
        '0'
    } else if d == 1 {
        '1'
    } else if d == 2 {
        '2'
    } else if d == 3 {
        '3'
    } else if d == 4 {
        '4'
    } else if d == 5 {
        '5'
    } else if d == 6 {
        '6'
    } else if d == 7 {
        '7'
    } else if d == 8 {
        '8'
    } else {
        '9'
    }
}

#[verifier::external_type_specification]
#[verifier::external_body]
pub struct ExJsonError(serde_json::Error);

/// `serde_json::to_string` on a `u64`: the JSON text of a number of this type
/// is its decimal digits, without sign, leading zero or fraction, and writing
/// it into a string does not fail.
#[verifier::external_body]
fn json_of_u64(n: u64) -> (text: Result<String, serde_json::Error>)
    ensures
        text is Ok,
        text is Ok ==> text->Ok_0@ == spec_decimal(n as nat),
{
    serde_json::to_string(&n)
}

/// Ticks between two times at which the host may step in.
pub const PREEMPT_PERIOD: u64 = 32;

impl State {
    /// The state before anything has happened, with the administrator's key.
    pub fn new(admin: [u64; 4]) -> (state: Self)
        ensures
            state@ == (StateView {
                supplier: 1000,
                queue: EventQueueView { counter: 0, events: Seq::empty() },
                players: Seq::empty(),
                admin,
                commitment: RandomCommitment::NoCommitment,
                settlement: Seq::empty(),
            }),
            state.wf(),
    {
        let state = State {
            supplier: 1000,
            queue: EventQueue::new(),
            players: Vec::new(),
            admin,
            commitment: RandomCommitment::NoCommitment,
            settlement: SettlementInfo::new(),
        };
        proof {
            assert(state@.players =~= Seq::empty());
        }
        state
    }

    /// The count of ticks so far, as a JSON document.
    pub fn snapshot(&self) -> (text: String)
        ensures
            text@ == spec_decimal(self@.queue.counter as nat),
    {
        match json_of_u64(self.queue.counter) {
            Ok(text) => text,
            Err(_) => String::new(),
        }
    }

    /// The player that holds the key, if there is one.
    pub fn get_state(&self, pkey: &[u64; 4]) -> (player: Option<&ElfPlayer>)
        ensures
            match player {
                Some(p) => self@.has_player(crate::player::spec_pkey_to_pid(*pkey)) && p@ == self@.player(
                    crate::player::spec_pkey_to_pid(*pkey),
                ),
                None => !self@.has_player(crate::player::spec_pkey_to_pid(*pkey)),
            },
    {
        let pid: [u64; 2] = ElfPlayer::pkey_to_pid(pkey);
        match self.player_position(&pid) {
            Some(k) => Some(&self.players[k]),
            None => None,
        }
    }

    /// Whether the host may step in now: once every `PREEMPT_PERIOD` ticks.
    pub fn preempt(&self) -> (now: bool)
        ensures
            now == (self@.queue.counter % PREEMPT_PERIOD == 0),
    {
        self.queue.counter % PREEMPT_PERIOD == 0
    }

    /// Hands out the encodings of the withdrawals that wait, and forgets
    /// them.
    pub fn flush_settlement(&mut self) -> (bytes: Vec<u8>)
        ensures
            bytes@ == crate::settlement::spec_settlement_bytes(old(self)@.settlement),
            final(self)@ == (StateView { settlement: Seq::empty(), ..old(self)@ }),
    {
        self.settlement.flush_settlement()
    }

    /// The state keeps no seed of its own: every command brings its own.
    pub fn rand_seed(&self) -> (seed: u64)
        ensures
            seed == 0,
    {
        0
    }

    /// Whether the event is pending, whatever its countdown.
    pub fn hash_event_contains(&self, event: Event) -> (found: bool)
        ensures
            found == spec_contains(self@.queue.events, event),
    {
        self.queue.contains(&event)
    }
}

impl StateView {
    /// Every player's account is well formed, no two players have the same
    /// id, and no two pending events name the same event.
    pub open spec fn wf(self) -> bool {
        &&& forall|k: int| 0 <= k < self.players.len() ==> (#[trigger] self.players[k]).data.wf()
        &&& forall|i: int, j: int|
            0 <= i < j < self.players.len() ==> (#[trigger] self.players[i]).player_id != (
            #[trigger] self.players[j]).player_id
        &&& distinct_identities(self.queue.events)
    }
}

impl Transaction {
    /// The name of an error code.
    pub fn decode_error(e: u32) -> (name: &'static str)
        ensures
            name == spec_decode_error(e),
    {
        if e == ERROR_PLAYER_NOT_EXIST {
            "PlayerNotExist"
        } else if e == ERROR_PLAYER_ALREADY_EXIST {
            "PlayerAlreadyExist"
        } else if e == ERROR_NOT_GOLD_BALANCE {
            "NotGoldBalance"
        } else if e == ERROR_INDEX_OUT_OF_BOUND {
            "IndexOutofBound"
        } else if e == ERROR_NOT_ENOUGH_RESOURCE {
            "NotEnoughResource"
        } else if e == ERROR_NOT_FOUND_RANCH {
            "NotFoundRanch"
        } else if e == ERROR_MAX_ELF {
            "MaxElfCount"
        } else if e == ERROR_NOT_FOUND_ELF {
            "NotFoundElf"
        } else if e == ERROR_NOT_FOUND_PROP {
            "NotFoundProp"
        } else if e == ERROR_THIS_PROP_MUST_BE_USED_USDT {
            "ThisPropMustBeUsedUSDT"
        } else if e == ERROR_INVALID_PURCHASE_CONDITION {
            "InvalidPurchaseCondition"
        } else if e == ERROR_MAX_ELF_SLOT {
            "MaxElfSlot"
        } else if e == ERROR_MUST_ADMIN_KEY {
            "MustAdminKey"
        } else if e == ERROR_REVEAL_MISMATCH {
            "RevealMismatch"
        } else {
            "Unknown"
        }
    }

    /// Reads a command from its wire form: the kind in the low byte of the
    /// first word, the nonce above its low two bytes, and the words that the
    /// kind carries.
    pub fn decode(params: &[u64]) -> (tx: Self)
        requires
            params@.len() >= 1,
            params@.len() >= spec_params_len(params@[0] & 0xff),
        ensures
            tx.command == params@[0] & 0xff,
            tx.nonce == params@[0] >> 16,
            tx.data@ == spec_decode_data(params@),
    {
        let command: u64 = params[0] & 0xff;
        let nonce: u64 = params[0] >> 16;
        let mut data: Vec<u64> = Vec::new();
        if command == WITHDRAW {
            data.push(params[2]);
            data.push(params[3]);
            data.push(params[4]);
        } else if command == DEPOSIT {
            data.push(params[1]);
            data.push(params[2]);
            data.push(params[3]);
            data.push(params[4]);
        } else if command == FEED_ELF || command == TREAT_ELF {
            data.push(params[1]);
            data.push(params[2]);
            data.push(params[3]);
        } else if command == BUY_ELF || command == SELL_ELF || command == COLLECT_GOLD || command
            == BUY_PROP {
            data.push(params[1]);
            data.push(params[2]);
        } else if command == BOUNTY || command == CLEAN_RANCH || command == BUY_RANCH || command
            == BUY_SLOT {
            data.push(params[1]);
        }
        proof {
            assert(data@ =~= spec_decode_data(params@));
        }
        Transaction { command, nonce, data }
    }

    /// Whether the key is the administrator's.
    pub fn check_admin(&self, state: &State, pkey: &[u64; 4]) -> (result: Result<(), u32>)
        ensures
            result == if *pkey == state.admin {
                Ok::<(), u32>(())
            } else {
                Err::<(), u32>(ERROR_MUST_ADMIN_KEY)
            },
    {
        let same = pkey[0] == state.admin[0] && pkey[1] == state.admin[1] && pkey[2] == state.admin[2]
            && pkey[3] == state.admin[3];
        proof {
            if same {
                assert(*pkey =~= state.admin);
            }
        }
        if !same {
            return Err(ERROR_MUST_ADMIN_KEY);
        }
        Ok(())
    }

    /// Starts the production chain of an elf, unless it is running.
    pub fn init_add_gold_event(&self, state: &mut State, pid: &[u64; 2], ranch_id: u64, elf: Elf)
        ensures
            final(state)@ == old(state)@.spec_init_add_gold_event(*pid, ranch_id, elf),
    {
        let event = Event {
            owner: *pid,
            event_type: ADD_GOLD,
            ranch_id,
            elf_id: elf.id,
            delta: TICKS_PER_MINUTE,
        };
        state.queue.register(event);
    }

    /// Starts the growth chain of an elf that is not grown up, unless it is
    /// running.
    pub fn init_add_exp_event(&self, state: &mut State, pid: &[u64; 2], ranch_id: u64, elf: Elf)
        ensures
            final(state)@ == old(state)@.spec_init_add_exp_event(*pid, ranch_id, elf),
    {
        if elf.exp == ATTRIBUTE_MAX {
            return ;
        }
        let event = Event { owner: *pid, event_type: ADD_EXP, ranch_id, elf_id: elf.id, delta: 1 };
        state.queue.register(event);
    }

    /// Starts the health decay of an elf that has health, unless it is
    /// running.
    pub fn init_health_reduce_event(&self, state: &mut State, pid: &[u64; 2], ranch_id: u64, elf: Elf)
        ensures
            final(state)@ == old(state)@.spec_init_health_reduce_event(*pid, ranch_id, elf),
    {
        if elf.health == 0 {
            return ;
        }
        let event = Event { owner: *pid, event_type: HEALTH_REDUCE, ranch_id, elf_id: elf.id, delta: 1 };
        state.queue.register(event);
    }

    /// Starts the satiety decay of an elf that has satiety, unless it is
    /// running.
    pub fn init_satiety_reduce_event(&self, state: &mut State, pid: &[u64; 2], ranch_id: u64, elf: Elf)
        ensures
            final(state)@ == old(state)@.spec_init_satiety_reduce_event(*pid, ranch_id, elf),
    {
        if elf.satiety == 0 {
            return ;
        }
        let event = Event {
            owner: *pid,
            event_type: SATIETY_REDUCE,
            ranch_id,
            elf_id: elf.id,
            delta: TICKS_PER_MINUTE,
        };
        state.queue.register(event);
    }

    /// Starts the fouling chain of an elf, unless it is running.
    pub fn init_add_shit_event(&self, state: &mut State, pid: &[u64; 2], ranch_id: u64, elf: Elf)
        ensures
            final(state)@ == old(state)@.spec_init_add_shit_event(*pid, ranch_id, elf),
    {
        let event = Event {
            owner: *pid,
            event_type: ADD_SHIT,
            ranch_id,
            elf_id: elf.id,
            delta: TICKS_PER_FOULING,
        };
        state.queue.register(event);
    }

    /// Starts the regeneration chain of an elf, unless it is running.
    pub fn init_add_health_event(&self, state: &mut State, pid: &[u64; 2], ranch_id: u64, elf: Elf)
        ensures
            final(state)@ == old(state)@.spec_init_add_health_event(*pid, ranch_id, elf),
    {
        let event = Event {
            owner: *pid,
            event_type: HEALTH_ADD,
            ranch_id,
            elf_id: elf.id,
            delta: TICKS_PER_MINUTE,
        };
        state.queue.register(event);
    }

    /// Starts every chain of an elf that applies to it and is not running.
    pub fn init_event(&self, state: &mut State, player_id: [u64; 2], ranch_id: u64, elf: Elf)
        ensures
            final(state)@ == old(state)@.spec_init_event(player_id, ranch_id, elf),
    {
        self.init_add_exp_event(state, &player_id, ranch_id, elf);
        self.init_health_reduce_event(state, &player_id, ranch_id, elf);
        self.init_satiety_reduce_event(state, &player_id, ranch_id, elf);
        self.init_add_gold_event(state, &player_id, ranch_id, elf);
        self.init_add_shit_event(state, &player_id, ranch_id, elf);
        self.init_add_health_event(state, &player_id, ranch_id, elf);
    }
}

} // verus!
