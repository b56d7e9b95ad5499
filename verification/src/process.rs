//! The entry point: one command in, one result code out.

use vstd::prelude::*;
use crate::error::{ERROR_MUST_ADMIN_KEY, ERROR_REVEAL_MISMATCH};
use crate::player::{ElfPlayer, spec_pkey_to_pid};
use crate::random::{RandomCommitment, Reveal, spec_seed};
use crate::state::{
    State, StateView, Transaction, BUY_ELF, BUY_PROP, BUY_SLOT, CLEAN_RANCH, COLLECT_GOLD, DEPOSIT,
    BOUNTY, BUY_RANCH, FEED_ELF, INIT_PLAYER, SELL_ELF, TREAT_ELF, WITHDRAW, spec_data_len,
    spec_decode_data, spec_params_len,
};

verus! {

/// The code of a result: zero for success, and the error's code else.
pub open spec fn spec_code(result: Result<(), u32>) -> u32 {
    match result {
        Ok(_) => 0,
        Err(e) => e,
    }
}

/// The code of a result.
pub fn code_of(result: Result<(), u32>) -> (code: u32)
    ensures
        code == spec_code(result),
{
    match result {
        Ok(_) => 0,
        Err(e) => e,
    }
}

impl StateView {
    /// An advance of the simulation with a reveal: where the reveal is what
    /// was committed to, one tick passes and the next commitment stands; where
    /// it is not, nothing changes.
    pub open spec fn spec_advance(self, reveal: Reveal) -> (StateView, Result<(), u32>) {
        if self.commitment.accepts(reveal.digest) {
            (
                StateView {
                    commitment: RandomCommitment::AwaitingReveal(reveal.next_commitment),
                    ..self.spec_tick()
                },
                Ok(()),
            )
        } else {
            (self, Err(ERROR_REVEAL_MISMATCH))
        }
    }
}

impl State {
    /// Advances the simulation by one tick, if the reveal is the value that
    /// the last advance committed to.
    pub fn advance(&mut self, reveal: &Reveal) -> (result: Result<(), u32>)
        ensures
            (final(self)@, result) == old(self)@.spec_advance(*reveal),
            old(self).wf() ==> final(self).wf(),
    {
        proof {
            if old(self).wf() {
                crate::invariants::lemma_tick_wf(old(self)@);
            }
        }
        let mut source: RandomCommitment = self.commitment;
        match source.take_reveal(reveal) {
            None => Err(ERROR_REVEAL_MISMATCH),
            Some(_) => {
                self.tick();
                self.commitment = source;
                Ok(())
            },
        }
    }
}

impl Transaction {
    /// Whether the command draws from what is revealed with it, or advances
    /// the simulation with it: a purchase of an elf, and every kind that is
    /// no command of a player, no making of a player and no deposit.
    pub open spec fn uses_reveal(&self) -> bool {
        self.command == BUY_ELF || !(self.command == INIT_PLAYER || self.is_player_command()
            || self.command == DEPOSIT)
    }

    /// A purchase of an elf with a reveal. Where the reveal is not what was
    /// committed to, the purchase is refused and nothing changes. Where it is,
    /// the purchase draws the grade from the seed of the value revealed; a
    /// purchase that goes through leaves the next commitment standing, and one
    /// that fails leaves all as it was.
    pub open spec fn spec_buy_elf_revealed(&self, s: StateView, pid: [u64; 2], rand: Reveal) -> (
        StateView,
        Result<(), u32>,
    ) {
        if !s.commitment.accepts(rand.digest) {
            (s, Err(ERROR_REVEAL_MISMATCH))
        } else {
            let done = self.spec_buy_elf(s, pid, spec_seed(rand.value));
            if done.1 is Ok {
                (StateView { commitment: s.commitment.spec_take_reveal(rand), ..done.0 }, done.1)
            } else {
                (s, done.1)
            }
        }
    }

    /// Buys an elf for a ranch, with the grade drawn from what is revealed
    /// with the command, if that is the value that was committed to.
    pub fn buy_elf_revealed(&self, state: &mut State, pid: &[u64; 2], rand: &Reveal) -> (result: Result<
        (),
        u32,
    >)
        requires
            self.data@.len() >= 2,
            self.nonce_ok(old(state)@, *pid),
        ensures
            (final(state)@, result) == self.spec_buy_elf_revealed(old(state)@, *pid, *rand),
            old(state).wf() ==> final(state).wf(),
    {
        let mut source: RandomCommitment = state.commitment;
        match source.take_reveal(rand) {
            None => Err(ERROR_REVEAL_MISMATCH),
            Some(seed) => {
                let result = self.buy_elf(state, pid, seed);
                if result.is_ok() {
                    state.commitment = source;
                } else {
                    proof {
                        lemma_failed_purchase_changes_nothing(self, old(state)@, *pid, seed);
                    }
                }
                result
            },
        }
    }
}

/// A purchase that fails changes nothing.
pub proof fn lemma_failed_purchase_changes_nothing(tx: &Transaction, s: StateView, pid: [u64; 2], seed: u64)
    ensures
        tx.spec_buy_elf(s, pid, seed).1 is Err ==> tx.spec_buy_elf(s, pid, seed).0 == s,
{
}

impl Transaction {
    /// Whether the command is one of a player, which takes the player's next
    /// number.
    pub open spec fn is_player_command(&self) -> bool {
        ||| self.command == BUY_ELF
        ||| self.command == COLLECT_GOLD
        ||| self.command == CLEAN_RANCH
        ||| self.command == BUY_PROP
        ||| self.command == FEED_ELF
        ||| self.command == TREAT_ELF
        ||| self.command == SELL_ELF
        ||| self.command == BUY_SLOT
        ||| self.command == WITHDRAW
    }

    /// What a command must meet to be processed: it carries the words of its
    /// kind, and it has the number that its sender may send next. A command
    /// that does not is no command at all: the host drops it.
    pub open spec fn acceptable(&self, s: StateView, pkey: [u64; 4]) -> bool {
        &&& self.data@.len() >= spec_data_len(self.command)
        &&& self.command == INIT_PLAYER ==> self.first_nonce_ok(s, spec_pkey_to_pid(pkey))
        &&& self.is_player_command() ==> self.nonce_ok(s, spec_pkey_to_pid(pkey))
        &&& self.command == DEPOSIT && pkey == s.admin ==> self.nonce_ok(s, spec_pkey_to_pid(pkey))
    }

    /// The state after a command and the code of its result. The commands of
    /// the players go by their kind; a deposit is the administrator's; every
    /// other kind is the administrator's advance of the simulation. A
    /// purchase of an elf and an advance take what is revealed with the
    /// command, and are refused where that is not what was committed to.
    pub open spec fn spec_process(&self, s: StateView, pkey: [u64; 4], rand: Reveal) -> (StateView, u32) {
        let pid = spec_pkey_to_pid(pkey);
        let done = if self.command == INIT_PLAYER {
            self.spec_install_player(s, pid)
        } else if self.command == BUY_ELF {
            self.spec_buy_elf_revealed(s, pid, rand)
        } else if self.command == COLLECT_GOLD {
            self.spec_collect_gold(s, pid)
        } else if self.command == CLEAN_RANCH {
            self.spec_clean_ranch(s, pid)
        } else if self.command == BUY_PROP {
            self.spec_buy_prop(s, pid)
        } else if self.command == FEED_ELF {
            self.spec_feed_elf(s, pid)
        } else if self.command == TREAT_ELF {
            self.spec_healing_elf(s, pid)
        } else if self.command == SELL_ELF {
            self.spec_sell_elf(s, pid)
        } else if self.command == BUY_SLOT {
            self.spec_buy_slot(s, pid)
        } else if self.command == WITHDRAW {
            self.spec_withdraw(s, pid)
        } else if pkey != s.admin {
            (s, Err(ERROR_MUST_ADMIN_KEY))
        } else if self.command == DEPOSIT {
            self.spec_deposit(s, pid)
        } else {
            s.spec_advance(rand)
        };
        (done.0, spec_code(done.1))
    }

    /// Processes a command of the holder of `pkey`, and returns the code of
    /// its result as the one word of the answer.
    pub fn process(&self, state: &mut State, pkey: &[u64; 4], rand: &Reveal) -> (answer: Vec<u64>)
        requires
            self.acceptable(old(state)@, *pkey),
        ensures
            answer@ == seq![self.spec_process(old(state)@, *pkey, *rand).1 as u64],
            final(state)@ == self.spec_process(old(state)@, *pkey, *rand).0,
            old(state).wf() ==> final(state).wf(),
    {
        proof {
            if old(state).wf() {
                crate::invariants::lemma_process_wf(self, old(state)@, *pkey, *rand);
            }
        }
        let pid: [u64; 2] = ElfPlayer::pkey_to_pid(pkey);
        let b: u32 = if self.command == INIT_PLAYER {
            code_of(self.install_player(state, &pid))
        } else if self.command == BUY_ELF {
            code_of(self.buy_elf_revealed(state, &pid, rand))
        } else if self.command == COLLECT_GOLD {
            code_of(self.collect_gold(state, &pid))
        } else if self.command == CLEAN_RANCH {
            code_of(self.clean_ranch(state, &pid))
        } else if self.command == BUY_PROP {
            code_of(self.buy_prop(state, &pid))
        } else if self.command == FEED_ELF {
            code_of(self.feed_elf(state, &pid))
        } else if self.command == TREAT_ELF {
            code_of(self.healing_elf(state, &pid))
        } else if self.command == SELL_ELF {
            code_of(self.sell_elf(state, &pid))
        } else if self.command == BUY_SLOT {
            code_of(self.buy_slot(state, &pid))
        } else if self.command == WITHDRAW {
            code_of(self.withdraw(state, &pid))
        } else if self.check_admin(state, pkey).is_err() {
            ERROR_MUST_ADMIN_KEY
        } else if self.command == DEPOSIT {
            code_of(self.deposit(state, &pid))
        } else {
            code_of(state.advance(rand))
        };
        let mut answer: Vec<u64> = Vec::new();
        answer.push(b as u64);
        proof {
            assert(answer@ =~= seq![b as u64]);
        }
        answer
    }
}

impl Transaction {
    /// Number of words that a command of the kind carries behind its first
    /// word.
    pub fn data_len(command: u64) -> (len: usize)
        ensures
            len == spec_data_len(command),
    {
        if command == DEPOSIT {
            4
        } else if command == WITHDRAW || command == FEED_ELF || command == TREAT_ELF {
            3
        } else if command == BUY_ELF || command == SELL_ELF || command == COLLECT_GOLD || command
            == BUY_PROP {
            2
        } else if command == BOUNTY || command == CLEAN_RANCH || command == BUY_RANCH || command
            == BUY_SLOT {
            1
        } else {
            0
        }
    }

    /// Reads a command from its wire form, if the wire form has the words of
    /// its kind.
    pub fn try_decode(params: &[u64]) -> (tx: Option<Self>)
        ensures
            tx is Some <==> params@.len() >= 1 && params@.len() >= spec_params_len(params@[0] & 0xff),
            tx matches Some(t) ==> t.command == params@[0] & 0xff && t.nonce == params@[0] >> 16 && t.data@
                == spec_decode_data(params@),
    {
        if params.len() < 1 {
            return None;
        }
        let command: u64 = params[0] & 0xff;
        let needed: usize = if command == WITHDRAW || command == DEPOSIT {
            5
        } else {
            1 + Transaction::data_len(command)
        };
        if params.len() < needed {
            return None;
        }
        Some(Transaction::decode(params))
    }

    /// Whether the command has the number that the player may send next.
    fn has_next_nonce(&self, state: &State, pid: &[u64; 2]) -> (ok: bool)
        ensures
            ok == self.nonce_ok(state@, *pid),
    {
        match state.player_position(pid) {
            Some(k) => state.players[k].nonce == self.nonce && self.nonce < u64::MAX,
            None => true,
        }
    }

    /// Whether the command may be processed.
    pub fn is_acceptable(&self, state: &State, pkey: &[u64; 4]) -> (ok: bool)
        ensures
            ok == self.acceptable(state@, *pkey),
    {
        let pid: [u64; 2] = ElfPlayer::pkey_to_pid(pkey);
        if self.data.len() < Transaction::data_len(self.command) {
            return false;
        }
        if self.command == INIT_PLAYER {
            state.player_position(&pid).is_some() || self.nonce == 0
        } else if self.command == BUY_ELF || self.command == COLLECT_GOLD || self.command == CLEAN_RANCH
            || self.command == BUY_PROP || self.command == FEED_ELF || self.command == TREAT_ELF
            || self.command == SELL_ELF || self.command == BUY_SLOT || self.command == WITHDRAW {
            self.has_next_nonce(state, &pid)
        } else if self.command == DEPOSIT && self.check_admin(state, pkey).is_ok() {
            self.has_next_nonce(state, &pid)
        } else {
            true
        }
    }

    /// Processes a command if it may be processed, and returns nothing and
    /// changes nothing if it may not.
    pub fn try_process(&self, state: &mut State, pkey: &[u64; 4], rand: &Reveal) -> (answer: Option<Vec<u64>>)
        ensures
            answer is Some <==> self.acceptable(old(state)@, *pkey),
            answer matches Some(codes) ==> codes@ == seq![
                self.spec_process(old(state)@, *pkey, *rand).1 as u64,
            ] && final(state)@ == self.spec_process(old(state)@, *pkey, *rand).0,
            answer is None ==> final(state)@ == old(state)@,
            old(state).wf() ==> final(state).wf(),
    {
        if self.is_acceptable(state, pkey) {
            Some(self.process(state, pkey, rand))
        } else {
            None
        }
    }
}

/// One step of a history: a command, the key of its sender, and what was
/// revealed with it.
pub struct Step {
    pub tx: Transaction,
    pub pkey: [u64; 4],
    pub rand: Reveal,
}

/// Two commands say the same: kind, number and words agree.
pub open spec fn same_command(a: &Transaction, b: &Transaction) -> bool {
    a.command == b.command && a.nonce == b.nonce && a.data@ == b.data@
}

/// Two histories say the same, step by step.
pub open spec fn same_history(a: Seq<Step>, b: Seq<Step>) -> bool {
    &&& a.len() == b.len()
    &&& forall|i: int|
        0 <= i < a.len() ==> same_command(&(#[trigger] a[i]).tx, &b[i].tx) && a[i].pkey == b[i].pkey
            && a[i].rand == b[i].rand
}

/// The state after a history, and the result codes of its steps.
pub open spec fn spec_replay(s: StateView, history: Seq<Step>) -> (StateView, Seq<u32>)
    decreases history.len(),
{
    if history.len() == 0 {
        (s, Seq::empty())
    } else {
        let before = spec_replay(s, history.drop_last());
        let step = history.last();
        let done = step.tx.spec_process(before.0, step.pkey, step.rand);
        (done.0, before.1.push(done.1))
    }
}

/// A command is processed by what it says alone: two commands that say the
/// same, processed from the same state with the same key and the same reveal,
/// leave the same state and the same code.
pub proof fn lemma_process_is_deterministic(
    a: &Transaction,
    b: &Transaction,
    s: StateView,
    pkey: [u64; 4],
    rand: Reveal,
)
    requires
        same_command(a, b),
    ensures
        a.spec_process(s, pkey, rand) == b.spec_process(s, pkey, rand),
{
    let pid = spec_pkey_to_pid(pkey);
    assert(a.spec_install_player(s, pid) == b.spec_install_player(s, pid));
    assert(a.spec_buy_elf(s, pid, spec_seed(rand.value)) == b.spec_buy_elf(s, pid, spec_seed(rand.value)));
    assert(a.spec_buy_elf_revealed(s, pid, rand) == b.spec_buy_elf_revealed(s, pid, rand));
    assert(a.spec_collect_gold(s, pid) == b.spec_collect_gold(s, pid));
    assert(a.spec_clean_ranch(s, pid) == b.spec_clean_ranch(s, pid));
    assert(a.spec_buy_prop(s, pid) == b.spec_buy_prop(s, pid));
    assert(a.spec_feed_elf(s, pid) == b.spec_feed_elf(s, pid));
    assert(a.spec_healing_elf(s, pid) == b.spec_healing_elf(s, pid));
    assert(a.spec_sell_elf(s, pid) == b.spec_sell_elf(s, pid));
    assert(a.spec_buy_slot(s, pid) == b.spec_buy_slot(s, pid));
    assert(a.spec_withdraw_info() == b.spec_withdraw_info());
    assert(a.spec_withdraw(s, pid) == b.spec_withdraw(s, pid));
    assert(a.spec_deposit(s, pid) == b.spec_deposit(s, pid));
}

/// Replay is deterministic: two runs of histories that say the same, from the
/// same state, end in the same state with the same result codes.
pub proof fn lemma_replay_is_deterministic(s: StateView, a: Seq<Step>, b: Seq<Step>)
    requires
        same_history(a, b),
    ensures
        spec_replay(s, a) == spec_replay(s, b),
    decreases a.len(),
{
    if a.len() > 0 {
        assert(same_history(a.drop_last(), b.drop_last())) by {
            assert forall|i: int| 0 <= i < a.drop_last().len() implies same_command(
                &(#[trigger] a.drop_last()[i]).tx,
                &b.drop_last()[i].tx,
            ) && a.drop_last()[i].pkey == b.drop_last()[i].pkey && a.drop_last()[i].rand
                == b.drop_last()[i].rand by {
                assert(same_command(&a[i].tx, &b[i].tx));
            }
        }
        lemma_replay_is_deterministic(s, a.drop_last(), b.drop_last());
        let before = spec_replay(s, a.drop_last());
        assert(same_command(&a[a.len() - 1].tx, &b[a.len() - 1].tx));
        lemma_process_is_deterministic(&a.last().tx, &b.last().tx, before.0, a.last().pkey, a.last().rand);
    }
}

/// A reveal that is not what was committed to is rejected, and nothing
/// changes: neither by an advance, nor by a purchase of an elf, nor by any
/// command that takes what is revealed with it. The code says so for a
/// purchase and for the administrator's advance; an advance that is not the
/// administrator's is refused for that.
pub proof fn lemma_wrong_reveal_changes_nothing(tx: &Transaction, s: StateView, pkey: [u64; 4], rand: Reveal)
    requires
        !s.commitment.accepts(rand.digest),
    ensures
        s.spec_advance(rand) == (s, Err::<(), u32>(ERROR_REVEAL_MISMATCH)),
        tx.spec_buy_elf_revealed(s, spec_pkey_to_pid(pkey), rand) == (
            s,
            Err::<(), u32>(ERROR_REVEAL_MISMATCH),
        ),
        tx.uses_reveal() ==> tx.spec_process(s, pkey, rand).0 == s && tx.spec_process(s, pkey, rand).1
            != 0,
        tx.command == BUY_ELF ==> tx.spec_process(s, pkey, rand) == (s, ERROR_REVEAL_MISMATCH),
        tx.uses_reveal() && pkey == s.admin ==> tx.spec_process(s, pkey, rand) == (
            s,
            ERROR_REVEAL_MISMATCH,
        ),
{
}

/// The commitment changes only by a reveal that is accepted: whatever command
/// is processed, the random source afterwards is the one before, or the one
/// after taking the reveal; and a command that takes no reveal leaves it as it
/// was.
pub proof fn lemma_commitment_moves_by_reveal_only(
    tx: &Transaction,
    s: StateView,
    pkey: [u64; 4],
    rand: Reveal,
)
    ensures
        tx.spec_process(s, pkey, rand).0.commitment == s.commitment || tx.spec_process(
            s,
            pkey,
            rand,
        ).0.commitment == s.commitment.spec_take_reveal(rand),
        !tx.uses_reveal() ==> tx.spec_process(s, pkey, rand).0.commitment == s.commitment,
        tx.command == BUY_ELF && tx.spec_process(s, pkey, rand).1 == 0 ==> s.commitment.accepts(
            rand.digest,
        ) && tx.spec_process(s, pkey, rand).0.commitment == RandomCommitment::AwaitingReveal(
            rand.next_commitment,
        ),
{
    let pid = spec_pkey_to_pid(pkey);
    lemma_commands_keep_commitment(tx, s, pid, spec_seed(rand.value));
}

/// No command of a player touches the random source by itself: it moves only
/// where a reveal is taken.
pub proof fn lemma_commands_keep_commitment(tx: &Transaction, s: StateView, pid: [u64; 2], seed: u64)
    ensures
        tx.spec_install_player(s, pid).0.commitment == s.commitment,
        tx.spec_buy_elf(s, pid, seed).0.commitment == s.commitment,
        tx.spec_collect_gold(s, pid).0.commitment == s.commitment,
        tx.spec_clean_ranch(s, pid).0.commitment == s.commitment,
        tx.spec_buy_prop(s, pid).0.commitment == s.commitment,
        tx.spec_feed_elf(s, pid).0.commitment == s.commitment,
        tx.spec_healing_elf(s, pid).0.commitment == s.commitment,
        tx.spec_sell_elf(s, pid).0.commitment == s.commitment,
        tx.spec_buy_slot(s, pid).0.commitment == s.commitment,
        tx.spec_withdraw(s, pid).0.commitment == s.commitment,
        tx.spec_deposit(s, pid).0.commitment == s.commitment,
{
    if tx.spec_clean_ranch(s, pid).1 is Ok && s.has_player(pid) && s.player(pid).data.has_ranch(
        tx.data@[0],
    ) {
        let player = s.player(pid);
        let data = player.data;
        let ranch = data.ranch(tx.data@[0]);
        if ranch.ranch_clean != 0 {
            let after = crate::player::PlayerDataView {
                clean_count: crate::command::spec_sat_add(data.clean_count, 1),
                ..data
            }.with_ranch(tx.data@[0], crate::ranch::RanchView { ranch_clean: 0, ..ranch });
            lemma_init_events_keep_commitment(
                s.with_player(pid, player.sent().with_data(after)),
                pid,
                tx.data@[0],
                ranch.elfs,
            );
        }
    }
}

/// Starting the chains of elves leaves the random source alone.
pub proof fn lemma_init_events_keep_commitment(
    s: StateView,
    pid: [u64; 2],
    ranch_id: u64,
    elfs: Seq<crate::elf::Elf>,
)
    ensures
        s.spec_init_events(pid, ranch_id, elfs).commitment == s.commitment,
    decreases elfs.len(),
{
    if elfs.len() > 0 {
        lemma_init_events_keep_commitment(s, pid, ranch_id, elfs.drop_last());
    }
}

/// A reveal that is what was committed to is accepted: a tick passes, and the
/// next commitment stands.
pub proof fn lemma_right_reveal_advances(s: StateView, rand: Reveal)
    requires
        s.commitment.accepts(rand.digest),
    ensures
        s.spec_advance(rand).1 is Ok,
        s.spec_advance(rand).0.commitment == RandomCommitment::AwaitingReveal(rand.next_commitment),
        s.spec_advance(rand).0.queue == s.spec_tick().queue,
        s.spec_advance(rand).0.players == s.spec_tick().players,
{
}

} // verus!
