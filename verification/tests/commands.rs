use elf_ranch::elf::Elf;
use elf_ranch::error::{
    ERROR_INVALID_PURCHASE_CONDITION, ERROR_MAX_ELF, ERROR_MAX_ELF_SLOT, ERROR_MUST_ADMIN_KEY,
    ERROR_NOT_FOUND_ELF, ERROR_NOT_FOUND_PROP, ERROR_NOT_FOUND_RANCH, ERROR_NOT_GOLD_BALANCE,
    ERROR_PLAYER_ALREADY_EXIST, ERROR_PLAYER_NOT_EXIST, ERROR_REVEAL_MISMATCH,
    ERROR_THIS_PROP_MUST_BE_USED_USDT,
};
use elf_ranch::event_type::{ADD_EXP, ADD_GOLD, ADD_SHIT, HEALTH_ADD, HEALTH_REDUCE, SATIETY_REDUCE};
use elf_ranch::events::Event;
use elf_ranch::prop::UserProp;
use elf_ranch::queue::EventQueue;
use elf_ranch::random::{seed_of, RandomCommitment, Reveal};
use elf_ranch::state::{
    State, Transaction, BUY_ELF, BUY_PROP, BUY_SLOT, CLEAN_RANCH, COLLECT_GOLD, DEPOSIT, FEED_ELF,
    INIT_PLAYER, SELL_ELF, TIME_TICK, TREAT_ELF, WITHDRAW,
};

const ADMIN: [u64; 4] = [9, 8, 7, 6];
const ADMIN_PID: [u64; 2] = [8, 7];
const ALICE: [u64; 4] = [1, 2, 3, 4];
const PID: [u64; 2] = [2, 3];

fn tx(command: u64, nonce: u64, data: &[u64]) -> Transaction {
    Transaction { command, nonce, data: data.to_vec() }
}

fn plain(value: [u64; 4]) -> Reveal {
    Reveal { value, digest: [0; 4], next_commitment: [0; 4] }
}

fn fresh() -> State {
    let mut state = State::new(ADMIN);
    assert_eq!(tx(INIT_PLAYER, 0, &[]).install_player(&mut state, &PID), Ok(()));
    state
}

fn with_hippo() -> State {
    let mut state = fresh();
    assert_eq!(tx(BUY_ELF, 1, &[1, 1]).buy_elf(&mut state, &PID, 0), Ok(()));
    state
}

fn pending(state: &State, event_type: u64, elf_id: u64) -> bool {
    state.hash_event_contains(Event { owner: PID, event_type, ranch_id: 1, elf_id, delta: 0 })
}

fn due_in(state: &State, event_type: u64, elf_id: u64) -> Option<usize> {
    let mut due = 0;
    for e in &state.queue.list {
        due += e.delta;
        if e.owner == PID && e.event_type == event_type && e.ranch_id == 1 && e.elf_id == elf_id {
            return Some(due);
        }
    }
    None
}

#[test]
fn onboarding_gives_one_empty_ranch_and_the_starting_gold() {
    let state = fresh();
    assert_eq!(state.players.len(), 1);
    let player = &state.players[0];
    assert_eq!(player.player_id, PID);
    assert_eq!(player.nonce, 1);
    assert_eq!(player.data.gold_balance, 10000);
    assert_eq!(player.data.ranchs.len(), 1);
    assert_eq!(player.data.ranchs[0].id, 1);
    assert_eq!(player.data.ranchs[0].elf_slot, 1);
    assert_eq!(player.data.ranchs[0].ranch_clean, 0);
    assert!(player.data.ranchs[0].elfs.is_empty());
    assert!(player.data.ranchs[0].props.is_empty());
    assert_eq!(state.queue.len(), 0);
}

#[test]
fn onboarding_twice_is_an_error() {
    let mut state = fresh();
    assert_eq!(
        tx(INIT_PLAYER, 5, &[]).install_player(&mut state, &PID),
        Err(ERROR_PLAYER_ALREADY_EXIST)
    );
    assert_eq!(state.players.len(), 1);
    assert_eq!(state.players[0].nonce, 1);
}

#[test]
fn buying_the_first_elf_debits_the_price_and_seeds_six_events() {
    let state = with_hippo();
    let player = &state.players[0];
    assert_eq!(player.nonce, 2);
    assert_eq!(player.data.gold_balance, 9900);
    assert_eq!(player.data.ranchs[0].elfs.len(), 1);
    let elf = &player.data.ranchs[0].elfs[0];
    assert_eq!(elf.id, 1);
    assert_eq!(elf.elf_type, 1);
    assert_eq!(elf.grade, 1);
    assert_eq!(elf.health, 10000);
    assert_eq!(elf.satiety, 10000);
    assert_eq!(elf.exp, 0);
    assert_eq!(elf.current_gold_store, 0);
    assert_eq!(elf.max_gold_store, 90);
    assert_eq!(state.queue.len(), 6);
    assert_eq!(due_in(&state, ADD_EXP, 1), Some(1));
    assert_eq!(due_in(&state, HEALTH_REDUCE, 1), Some(1));
    assert_eq!(due_in(&state, SATIETY_REDUCE, 1), Some(12));
    assert_eq!(due_in(&state, ADD_GOLD, 1), Some(12));
    assert_eq!(due_in(&state, HEALTH_ADD, 1), Some(12));
    assert_eq!(due_in(&state, ADD_SHIT, 1), Some(36));
}

#[test]
fn buying_an_elf_takes_the_grade_from_the_seed() {
    let mut state = fresh();
    assert_eq!(tx(BUY_ELF, 1, &[1, 1]).buy_elf(&mut state, &PID, 98), Ok(()));
    let elf = &state.players[0].data.ranchs[0].elfs[0];
    assert_eq!(elf.grade, 5);
    assert_eq!(elf.growth_time, 200);
    assert_eq!(elf.max_gold_store, 30 * 18);
}

#[test]
fn buying_an_elf_checks_in_order() {
    let mut state = State::new(ADMIN);
    assert_eq!(tx(BUY_ELF, 0, &[1, 1]).buy_elf(&mut state, &PID, 0), Err(ERROR_PLAYER_NOT_EXIST));
    let mut state = fresh();
    assert_eq!(tx(BUY_ELF, 1, &[2, 1]).buy_elf(&mut state, &PID, 0), Err(ERROR_NOT_FOUND_RANCH));
    assert_eq!(
        tx(BUY_ELF, 1, &[1, 2]).buy_elf(&mut state, &PID, 0),
        Err(ERROR_INVALID_PURCHASE_CONDITION)
    );
    assert_eq!(
        tx(BUY_ELF, 1, &[1, 11]).buy_elf(&mut state, &PID, 0),
        Err(ERROR_INVALID_PURCHASE_CONDITION)
    );
    state.players[0].data.gold_balance = 99;
    assert_eq!(tx(BUY_ELF, 1, &[1, 1]).buy_elf(&mut state, &PID, 0), Err(ERROR_NOT_GOLD_BALANCE));
    assert_eq!(state.players[0].nonce, 1);
    assert_eq!(state.players[0].data.gold_balance, 99);
    assert!(state.players[0].data.ranchs[0].elfs.is_empty());
    assert_eq!(state.queue.len(), 0);
    let mut state = with_hippo();
    assert_eq!(tx(BUY_ELF, 2, &[1, 1]).buy_elf(&mut state, &PID, 0), Err(ERROR_MAX_ELF));
    assert_eq!(state.players[0].data.gold_balance, 9900);
}

#[test]
fn eligibility_goes_by_grown_elves_and_counters() {
    let mut state = with_hippo();
    let data = &mut state.players[0].data;
    assert_eq!(Elf::check_can_buy_elf(data, 1, 1), Ok(100));
    assert_eq!(Elf::check_can_buy_elf(data, 1, 2), Err(ERROR_INVALID_PURCHASE_CONDITION));
    data.ranchs[0].elfs[0].exp = 10000;
    assert_eq!(Elf::check_can_buy_elf(data, 1, 2), Ok(300));
    assert_eq!(Elf::check_can_buy_slerf(data, 1), Ok(300));
    assert_eq!(Elf::check_can_buy_slerf(data, 2), Err(ERROR_INVALID_PURCHASE_CONDITION));
    assert_eq!(Elf::check_can_buy_goat(data, 1), Err(ERROR_INVALID_PURCHASE_CONDITION));
    data.ranchs[0].elfs[0].elf_type = 2;
    let mut twin = data.ranchs[0].elfs[0];
    twin.id = 2;
    data.ranchs[0].elfs.push(twin);
    assert_eq!(Elf::check_can_buy_goat(data, 1), Ok(1800));
    assert_eq!(Elf::count_adults(data, 1, 2), 2);
    for (elf_type, price) in [(3u64, 6000u64), (6, 93750), (8, 220000)] {
        data.ranchs[0].elfs.clear();
        for id in 1..=5 {
            let mut elf = Elf::get_elf(0, elf_type, id - 1);
            elf.exp = 10000;
            data.ranchs[0].elfs.push(elf);
        }
        assert_eq!(Elf::check_can_buy_elf(data, 1, elf_type + 1), Ok(price));
        data.ranchs[0].elfs[4].exp = 9999;
        assert_eq!(
            Elf::check_can_buy_elf(data, 1, elf_type + 1),
            Err(ERROR_INVALID_PURCHASE_CONDITION)
        );
    }
    assert_eq!(Elf::check_can_buy_popcat(data), Err(ERROR_INVALID_PURCHASE_CONDITION));
    data.clean_count = 1500;
    assert_eq!(Elf::check_can_buy_popcat(data), Ok(15000));
    assert_eq!(Elf::check_can_buy_brett(data), Err(ERROR_INVALID_PURCHASE_CONDITION));
    data.feed_count = 5000;
    assert_eq!(Elf::check_can_buy_brett(data), Ok(37500));
    assert_eq!(Elf::check_can_buy_bonk(data), Err(ERROR_INVALID_PURCHASE_CONDITION));
    data.gold_count = 300000;
    assert_eq!(Elf::check_can_buy_bonk(data), Ok(152000));
    data.ranchs[0].elfs.clear();
    for id in 1..=5 {
        let mut elf = Elf::get_elf(0, 9, id - 1);
        elf.exp = 10000;
        data.ranchs[0].elfs.push(elf);
    }
    assert_eq!(Elf::check_can_buy_doge(data, 1), Err(ERROR_INVALID_PURCHASE_CONDITION));
    data.gold_count = 2100000;
    assert_eq!(Elf::check_can_buy_doge(data, 1), Ok(300000));
    assert_eq!(Elf::check_can_buy_pepe(data, 1), Err(ERROR_INVALID_PURCHASE_CONDITION));
    assert_eq!(Elf::check_can_buy_wif(data, 1), Err(ERROR_INVALID_PURCHASE_CONDITION));
    assert_eq!(Elf::check_can_buy_pnut(data, 1), Err(ERROR_INVALID_PURCHASE_CONDITION));
}

#[test]
fn second_elf_gets_the_next_id() {
    let mut state = with_hippo();
    assert_eq!(tx(BUY_SLOT, 2, &[1]).buy_slot(&mut state, &PID), Ok(()));
    assert_eq!(tx(BUY_ELF, 3, &[1, 1]).buy_elf(&mut state, &PID, 60), Ok(()));
    let data = &state.players[0].data;
    assert_eq!(data.gold_balance, 10000 - 100 - 1000 - 100);
    assert_eq!(data.ranchs[0].elf_slot, 2);
    assert_eq!(data.ranchs[0].elfs[1].id, 2);
    assert_eq!(data.ranchs[0].elfs[1].grade, 2);
    assert_eq!(state.queue.len(), 12);
}

#[test]
fn buying_a_slot_checks_in_order() {
    let mut state = State::new(ADMIN);
    assert_eq!(tx(BUY_SLOT, 0, &[1]).buy_slot(&mut state, &PID), Err(ERROR_PLAYER_NOT_EXIST));
    let mut state = fresh();
    assert_eq!(tx(BUY_SLOT, 1, &[4]).buy_slot(&mut state, &PID), Err(ERROR_NOT_FOUND_RANCH));
    state.players[0].data.gold_balance = 999;
    assert_eq!(tx(BUY_SLOT, 1, &[1]).buy_slot(&mut state, &PID), Err(ERROR_NOT_GOLD_BALANCE));
    state.players[0].data.ranchs[0].elf_slot = 10;
    assert_eq!(tx(BUY_SLOT, 1, &[1]).buy_slot(&mut state, &PID), Err(ERROR_MAX_ELF_SLOT));
    assert_eq!(state.players[0].nonce, 1);
    assert_eq!(state.players[0].data.gold_balance, 999);
}

#[test]
fn buying_a_prop_with_gold() {
    let mut state = fresh();
    assert_eq!(tx(BUY_PROP, 1, &[1, 4]).buy_prop(&mut state, &PID), Ok(()));
    assert_eq!(tx(BUY_PROP, 2, &[1, 4]).buy_prop(&mut state, &PID), Ok(()));
    assert_eq!(tx(BUY_PROP, 3, &[1, 6]).buy_prop(&mut state, &PID), Ok(()));
    let data = &state.players[0].data;
    assert_eq!(data.gold_balance, 10000 - 5 - 5 - 150);
    assert_eq!(
        data.ranchs[0].props,
        vec![UserProp { prop_type: 4, count: 2 }, UserProp { prop_type: 6, count: 1 }]
    );
    assert_eq!(state.players[0].nonce, 4);
}

#[test]
fn buying_a_prop_checks_in_order() {
    let mut state = State::new(ADMIN);
    assert_eq!(tx(BUY_PROP, 0, &[1, 4]).buy_prop(&mut state, &PID), Err(ERROR_PLAYER_NOT_EXIST));
    let mut state = fresh();
    assert_eq!(tx(BUY_PROP, 1, &[3, 4]).buy_prop(&mut state, &PID), Err(ERROR_NOT_FOUND_RANCH));
    assert_eq!(tx(BUY_PROP, 1, &[1, 9]).buy_prop(&mut state, &PID), Err(ERROR_NOT_FOUND_PROP));
    assert_eq!(
        tx(BUY_PROP, 1, &[1, 1]).buy_prop(&mut state, &PID),
        Err(ERROR_THIS_PROP_MUST_BE_USED_USDT)
    );
    state.players[0].data.gold_balance = 74;
    assert_eq!(tx(BUY_PROP, 1, &[1, 5]).buy_prop(&mut state, &PID), Err(ERROR_NOT_GOLD_BALANCE));
    assert_eq!(state.players[0].nonce, 1);
    assert!(state.players[0].data.ranchs[0].props.is_empty());
}

#[test]
fn collecting_empties_the_store_into_the_balance() {
    let mut state = with_hippo();
    state.players[0].data.ranchs[0].elfs[0].current_gold_store = 40;
    state.queue = EventQueue::new();
    assert_eq!(tx(COLLECT_GOLD, 2, &[1, 1]).collect_gold(&mut state, &PID), Ok(()));
    let data = &state.players[0].data;
    assert_eq!(data.ranchs[0].elfs[0].current_gold_store, 0);
    assert_eq!(data.gold_balance, 9940);
    assert_eq!(data.gold_count, 40);
    assert_eq!(state.players[0].nonce, 3);
    assert_eq!(state.queue.len(), 6);
    assert_eq!(
        tx(COLLECT_GOLD, 3, &[1, 2]).collect_gold(&mut state, &PID),
        Err(ERROR_NOT_FOUND_ELF)
    );
    assert_eq!(
        tx(COLLECT_GOLD, 3, &[1, 1]).collect_gold(&mut state, &[5, 5]),
        Err(ERROR_PLAYER_NOT_EXIST)
    );
}

#[test]
fn collecting_stops_at_the_largest_balance() {
    let mut state = with_hippo();
    state.players[0].data.gold_balance = u64::MAX - 3;
    state.players[0].data.ranchs[0].elfs[0].current_gold_store = 40;
    assert_eq!(tx(COLLECT_GOLD, 2, &[1, 1]).collect_gold(&mut state, &PID), Ok(()));
    assert_eq!(state.players[0].data.gold_balance, u64::MAX);
    assert_eq!(state.players[0].data.gold_count, 40);
}

#[test]
fn cleaning_a_foul_ranch_resets_it_and_seeds_every_elf_again() {
    let mut state = with_hippo();
    state.players[0].data.ranchs[0].elf_slot = 2;
    assert_eq!(tx(BUY_ELF, 2, &[1, 1]).buy_elf(&mut state, &PID, 0), Ok(()));
    state.players[0].data.ranchs[0].ranch_clean = 7;
    state.queue = EventQueue::new();
    assert_eq!(tx(CLEAN_RANCH, 3, &[1]).clean_ranch(&mut state, &PID), Ok(()));
    let data = &state.players[0].data;
    assert_eq!(data.ranchs[0].ranch_clean, 0);
    assert_eq!(data.clean_count, 1);
    assert_eq!(state.players[0].nonce, 4);
    assert_eq!(state.queue.len(), 12);
    for elf_id in [1, 2] {
        for kind in [ADD_EXP, ADD_GOLD, HEALTH_REDUCE, SATIETY_REDUCE, ADD_SHIT, HEALTH_ADD] {
            assert!(pending(&state, kind, elf_id));
        }
    }
}

#[test]
fn cleaning_a_clean_ranch_changes_nothing() {
    let mut state = with_hippo();
    assert_eq!(tx(CLEAN_RANCH, 2, &[1]).clean_ranch(&mut state, &PID), Ok(()));
    assert_eq!(state.players[0].data.clean_count, 0);
    assert_eq!(state.players[0].nonce, 2);
    assert_eq!(state.queue.len(), 6);
}

#[test]
fn cleaning_needs_player_and_ranch() {
    let mut state = fresh();
    assert_eq!(tx(CLEAN_RANCH, 1, &[2]).clean_ranch(&mut state, &PID), Err(ERROR_NOT_FOUND_RANCH));
    assert_eq!(
        tx(CLEAN_RANCH, 1, &[1]).clean_ranch(&mut state, &[7, 7]),
        Err(ERROR_PLAYER_NOT_EXIST)
    );
}

#[test]
fn cleaning_does_not_seed_chains_that_have_ended() {
    let mut state = with_hippo();
    state.players[0].data.ranchs[0].ranch_clean = 3;
    state.players[0].data.ranchs[0].elfs[0].exp = 10000;
    state.players[0].data.ranchs[0].elfs[0].health = 0;
    state.players[0].data.ranchs[0].elfs[0].satiety = 0;
    state.queue = EventQueue::new();
    assert_eq!(tx(CLEAN_RANCH, 2, &[1]).clean_ranch(&mut state, &PID), Ok(()));
    assert_eq!(state.queue.len(), 3);
    assert!(pending(&state, ADD_GOLD, 1));
    assert!(pending(&state, ADD_SHIT, 1));
    assert!(pending(&state, HEALTH_ADD, 1));
}

#[test]
fn feeding_uses_up_a_prop_and_starts_the_decay_again() {
    let mut state = with_hippo();
    assert_eq!(tx(BUY_PROP, 2, &[1, 4]).buy_prop(&mut state, &PID), Ok(()));
    state.players[0].data.ranchs[0].elfs[0].satiety = 0;
    state.queue = EventQueue::new();
    assert_eq!(tx(FEED_ELF, 3, &[1, 1, 4]).feed_elf(&mut state, &PID), Ok(()));
    let data = &state.players[0].data;
    assert_eq!(data.ranchs[0].elfs[0].satiety, 1000);
    assert_eq!(data.ranchs[0].props[0].count, 0);
    assert_eq!(data.feed_count, 1);
    assert_eq!(state.players[0].nonce, 4);
    assert!(pending(&state, SATIETY_REDUCE, 1));
    assert_eq!(state.queue.len(), 6);
    assert_eq!(tx(FEED_ELF, 4, &[1, 1, 4]).feed_elf(&mut state, &PID), Err(ERROR_NOT_FOUND_PROP));
    assert_eq!(tx(FEED_ELF, 4, &[1, 1, 5]).feed_elf(&mut state, &PID), Err(ERROR_NOT_FOUND_PROP));
    assert_eq!(tx(FEED_ELF, 4, &[1, 2, 4]).feed_elf(&mut state, &PID), Err(ERROR_NOT_FOUND_ELF));
    assert_eq!(
        tx(FEED_ELF, 4, &[1, 1, 4]).feed_elf(&mut state, &[6, 6]),
        Err(ERROR_PLAYER_NOT_EXIST)
    );
    assert_eq!(state.players[0].data.feed_count, 1);
}

#[test]
fn treating_uses_up_a_potion() {
    let mut state = with_hippo();
    assert_eq!(tx(BUY_PROP, 2, &[1, 6]).buy_prop(&mut state, &PID), Ok(()));
    state.players[0].data.ranchs[0].elfs[0].health = 0;
    state.queue = EventQueue::new();
    assert_eq!(tx(TREAT_ELF, 3, &[1, 1, 6]).healing_elf(&mut state, &PID), Ok(()));
    let data = &state.players[0].data;
    assert_eq!(data.ranchs[0].elfs[0].health, 5000);
    assert_eq!(data.ranchs[0].props[0].count, 0);
    assert_eq!(data.health_count, 1);
    assert!(pending(&state, HEALTH_REDUCE, 1));
    assert_eq!(
        tx(TREAT_ELF, 4, &[1, 1, 6]).healing_elf(&mut state, &PID),
        Err(ERROR_NOT_FOUND_PROP)
    );
    assert_eq!(
        tx(TREAT_ELF, 4, &[1, 3, 6]).healing_elf(&mut state, &PID),
        Err(ERROR_NOT_FOUND_ELF)
    );
    assert_eq!(
        tx(TREAT_ELF, 4, &[1, 1, 6]).healing_elf(&mut state, &[6, 6]),
        Err(ERROR_PLAYER_NOT_EXIST)
    );
}

#[test]
fn selling_credits_the_price_of_the_type() {
    let mut state = with_hippo();
    assert_eq!(tx(SELL_ELF, 2, &[1, 1]).sell_elf(&mut state, &PID), Ok(()));
    let data = &state.players[0].data;
    assert!(data.ranchs[0].elfs.is_empty());
    assert_eq!(data.gold_balance, 10000);
    assert_eq!(state.players[0].nonce, 3);
    assert_eq!(tx(SELL_ELF, 3, &[1, 1]).sell_elf(&mut state, &PID), Err(ERROR_NOT_FOUND_ELF));
    assert_eq!(tx(SELL_ELF, 3, &[1, 1]).sell_elf(&mut state, &[6, 6]), Err(ERROR_PLAYER_NOT_EXIST));
}

#[test]
fn selling_an_elf_that_the_catalog_does_not_know_is_an_error() {
    let mut state = with_hippo();
    state.players[0].data.ranchs[0].elfs[0].elf_type = 77;
    assert_eq!(tx(SELL_ELF, 2, &[1, 1]).sell_elf(&mut state, &PID), Err(ERROR_NOT_FOUND_ELF));
    assert_eq!(state.players[0].data.ranchs[0].elfs.len(), 1);
}

#[test]
fn events_of_a_sold_elf_end_quietly() {
    let mut state = with_hippo();
    assert_eq!(tx(SELL_ELF, 2, &[1, 1]).sell_elf(&mut state, &PID), Ok(()));
    assert_eq!(state.queue.len(), 6);
    for _ in 0..40 {
        state.tick();
    }
    assert_eq!(state.queue.len(), 0);
    assert_eq!(state.players[0].data.ranchs[0].ranch_clean, 0);
}

#[test]
fn withdrawing_debits_and_queues_a_settlement() {
    let mut state = fresh();
    let word = (0x1234_5678u64 << 32) | 600;
    assert_eq!(tx(WITHDRAW, 1, &[word, 3, 4]).withdraw(&mut state, &PID), Ok(()));
    assert_eq!(state.players[0].data.gold_balance, 9400);
    assert_eq!(state.players[0].nonce, 2);
    assert_eq!(state.settlement.0.len(), 1);
    let info = state.settlement.0[0];
    assert_eq!(info.opinfo, 1 + (1 << 8));
    assert_eq!(info.account_index, 0);
    assert_eq!(info.object_index, 0);
    assert_eq!(info.amount, [600, 0, 0, 0]);
    let mut sender = Vec::new();
    for w in [word, 3, 4, 0] {
        sender.extend_from_slice(&w.to_le_bytes());
    }
    assert_eq!(info.sender.to_vec(), sender);
    assert_eq!(
        tx(WITHDRAW, 2, &[9401, 0, 0]).withdraw(&mut state, &PID),
        Err(ERROR_NOT_GOLD_BALANCE)
    );
    assert_eq!(
        tx(WITHDRAW, 2, &[1, 0, 0]).withdraw(&mut state, &[6, 6]),
        Err(ERROR_PLAYER_NOT_EXIST)
    );
    assert_eq!(state.settlement.0.len(), 1);
    let bytes = state.flush_settlement();
    assert_eq!(bytes.len(), 80);
    assert!(state.settlement.0.is_empty());
}

#[test]
fn deposit_hands_out_a_prop_that_gold_does_not_buy() {
    let mut state = fresh();
    assert_eq!(tx(INIT_PLAYER, 0, &[]).install_player(&mut state, &ADMIN_PID), Ok(()));
    assert_eq!(tx(DEPOSIT, 1, &[2, 3, 1, 2]).deposit(&mut state, &ADMIN_PID), Ok(()));
    assert_eq!(state.players[0].data.ranchs[0].props, vec![UserProp { prop_type: 2, count: 1 }]);
    assert_eq!(state.players[0].nonce, 1);
    assert_eq!(state.players[1].nonce, 2);
    assert_eq!(
        tx(DEPOSIT, 2, &[2, 3, 1, 4]).deposit(&mut state, &ADMIN_PID),
        Err(ERROR_THIS_PROP_MUST_BE_USED_USDT)
    );
    assert_eq!(
        tx(DEPOSIT, 2, &[2, 3, 1, 0]).deposit(&mut state, &ADMIN_PID),
        Err(ERROR_NOT_FOUND_PROP)
    );
    assert_eq!(
        tx(DEPOSIT, 2, &[2, 3, 5, 2]).deposit(&mut state, &ADMIN_PID),
        Err(ERROR_NOT_FOUND_RANCH)
    );
    assert_eq!(
        tx(DEPOSIT, 2, &[2, 9, 1, 2]).deposit(&mut state, &ADMIN_PID),
        Err(ERROR_PLAYER_NOT_EXIST)
    );
    assert_eq!(
        tx(DEPOSIT, 2, &[2, 3, 1, 2]).deposit(&mut state, &[4, 4]),
        Err(ERROR_PLAYER_NOT_EXIST)
    );
    assert_eq!(state.players[1].nonce, 2);
}

#[test]
fn deposit_to_the_administrator_counts_both() {
    let mut state = State::new(ADMIN);
    assert_eq!(tx(INIT_PLAYER, 0, &[]).install_player(&mut state, &ADMIN_PID), Ok(()));
    assert_eq!(tx(DEPOSIT, 1, &[8, 7, 1, 3]).deposit(&mut state, &ADMIN_PID), Ok(()));
    assert_eq!(state.players[0].nonce, 2);
    assert_eq!(state.players[0].data.ranchs[0].props, vec![UserProp { prop_type: 3, count: 1 }]);
}

#[test]
fn admin_check_compares_the_whole_key() {
    let state = State::new(ADMIN);
    let t = tx(TIME_TICK, 0, &[]);
    assert_eq!(t.check_admin(&state, &ADMIN), Ok(()));
    assert_eq!(t.check_admin(&state, &[9, 8, 7, 5]), Err(ERROR_MUST_ADMIN_KEY));
    assert_eq!(t.check_admin(&state, &ALICE), Err(ERROR_MUST_ADMIN_KEY));
}

#[test]
fn tick_fires_what_is_due_and_rearms() {
    let mut state = with_hippo();
    state.tick();
    assert_eq!(state.queue.counter, 1);
    let elf = state.players[0].data.ranchs[0].elfs[0];
    assert_eq!(elf.exp, 0);
    assert_eq!(elf.health, 10000);
    state.tick();
    let elf = state.players[0].data.ranchs[0].elfs[0];
    assert_eq!(elf.exp, 167);
    assert_eq!(elf.health, 9991);
    assert_eq!(elf.satiety, 10000);
    assert_eq!(state.queue.len(), 6);
    assert_eq!(due_in(&state, ADD_EXP, 1), Some(0));
    assert_eq!(due_in(&state, SATIETY_REDUCE, 1), Some(10));
    for _ in 0..11 {
        state.tick();
    }
    let elf = state.players[0].data.ranchs[0].elfs[0];
    assert_eq!(state.queue.counter, 13);
    assert_eq!(elf.exp, 12 * 167);
    // twelve decays of nine, and the regeneration of the first minute
    assert_eq!(elf.health, 10000 - 12 * 9 + 25);
    assert_eq!(elf.satiety, 9999);
    assert_eq!(elf.current_gold_store, 1);
    assert_eq!(state.queue.len(), 6);
}

#[test]
fn growth_chain_ends_when_the_elf_is_grown_up() {
    let mut state = with_hippo();
    for _ in 0..61 {
        state.tick();
    }
    assert_eq!(state.players[0].data.ranchs[0].elfs[0].exp, 10000);
    assert!(!pending(&state, ADD_EXP, 1));
    assert_eq!(state.queue.len(), 5);
    for _ in 0..20 {
        state.tick();
    }
    assert_eq!(state.players[0].data.ranchs[0].elfs[0].exp, 10000);
}

#[test]
fn fouling_rises_every_three_minutes() {
    let mut state = with_hippo();
    for _ in 0..37 {
        state.tick();
    }
    assert_eq!(state.players[0].data.ranchs[0].ranch_clean, 1);
    for _ in 0..36 {
        state.tick();
    }
    assert_eq!(state.players[0].data.ranchs[0].ranch_clean, 2);
}

#[test]
fn events_of_an_unknown_owner_end_quietly() {
    let mut state = fresh();
    state.queue.insert(Event { owner: [5, 5], event_type: ADD_EXP, ranch_id: 1, elf_id: 1, delta: 0 });
    state.tick();
    assert_eq!(state.queue.len(), 0);
    assert_eq!(state.queue.counter, 1);
}

#[test]
fn handle_runs_the_handler_of_the_owner() {
    let mut state = with_hippo();
    let fired = Event { owner: PID, event_type: ADD_EXP, ranch_id: 1, elf_id: 1, delta: 0 };
    let next = state.handle(&fired).unwrap();
    assert_eq!(next.delta, 1);
    assert!(next == fired);
    assert_eq!(state.players[0].data.ranchs[0].elfs[0].exp, 167);
    let stray = Event { owner: [5, 5], event_type: ADD_EXP, ranch_id: 1, elf_id: 1, delta: 0 };
    assert!(state.handle(&stray).is_none());
}

#[test]
fn advance_takes_the_value_that_was_committed_to() {
    let mut state = with_hippo();
    let first = Reveal { value: [1, 2, 3, 4], digest: [7, 7, 7, 7], next_commitment: [5, 6, 7, 8] };
    assert_eq!(state.advance(&first), Ok(()));
    assert_eq!(state.queue.counter, 1);
    assert!(matches!(state.commitment, RandomCommitment::AwaitingReveal([5, 6, 7, 8])));
    let right = Reveal { value: [9, 9, 9, 9], digest: [5, 6, 7, 8], next_commitment: [1, 1, 1, 1] };
    assert_eq!(state.advance(&right), Ok(()));
    assert_eq!(state.queue.counter, 2);
    assert!(matches!(state.commitment, RandomCommitment::AwaitingReveal([1, 1, 1, 1])));
}

#[test]
fn advance_with_a_wrong_reveal_changes_nothing() {
    let mut state = with_hippo();
    state.commitment = RandomCommitment::AwaitingReveal([5, 6, 7, 8]);
    let wrong = Reveal { value: [9, 9, 9, 9], digest: [5, 6, 7, 9], next_commitment: [1, 1, 1, 1] };
    assert_eq!(state.advance(&wrong), Err(ERROR_REVEAL_MISMATCH));
    assert_eq!(state.queue.counter, 0);
    assert_eq!(state.queue.len(), 6);
    assert_eq!(due_in(&state, ADD_EXP, 1), Some(1));
    assert_eq!(state.players[0].data.ranchs[0].elfs[0].exp, 0);
    assert!(matches!(state.commitment, RandomCommitment::AwaitingReveal([5, 6, 7, 8])));
    let t = tx(TIME_TICK, 0, &[]);
    assert_eq!(t.process(&mut state, &ADMIN, &wrong), vec![ERROR_REVEAL_MISMATCH as u64]);
    assert_eq!(state.queue.counter, 0);
    assert!(matches!(state.commitment, RandomCommitment::AwaitingReveal([5, 6, 7, 8])));
}

#[test]
fn commitment_check_and_seed() {
    let mut none = RandomCommitment::NoCommitment;
    assert!(none.check(&[1, 2, 3, 4]));
    let waiting = RandomCommitment::AwaitingReveal([1, 2, 3, 4]);
    assert!(waiting.check(&[1, 2, 3, 4]));
    assert!(!waiting.check(&[1, 2, 3, 5]));
    assert!(!waiting.check(&[0, 2, 3, 4]));
    assert_eq!(seed_of(&[1, 2, 4, 8]), 15);
    assert_eq!(seed_of(&[5, 5, 7, 7]), 0);
    let reveal = Reveal { value: [1, 2, 4, 8], digest: [0; 4], next_commitment: [3; 4] };
    assert_eq!(none.take_reveal(&reveal), Some(15));
    assert!(matches!(none, RandomCommitment::AwaitingReveal([3, 3, 3, 3])));
    assert_eq!(none.take_reveal(&reveal), None);
    assert!(matches!(none, RandomCommitment::AwaitingReveal([3, 3, 3, 3])));
}

#[test]
fn process_goes_by_the_command() {
    let mut state = State::new(ADMIN);
    let rand = plain([75, 0, 0, 0]);
    assert_eq!(tx(INIT_PLAYER, 0, &[]).process(&mut state, &ALICE, &rand), vec![0]);
    assert_eq!(
        tx(INIT_PLAYER, 0, &[]).process(&mut state, &ALICE, &rand),
        vec![ERROR_PLAYER_ALREADY_EXIST as u64]
    );
    assert_eq!(tx(BUY_ELF, 1, &[1, 1]).process(&mut state, &ALICE, &rand), vec![0]);
    assert_eq!(state.players[0].data.ranchs[0].elfs[0].grade, 3);
    assert_eq!(tx(BUY_ELF, 2, &[1, 1]).process(&mut state, &ALICE, &rand), vec![ERROR_MAX_ELF as u64]);
    assert_eq!(tx(BUY_SLOT, 2, &[1]).process(&mut state, &ALICE, &rand), vec![0]);
    assert_eq!(tx(BUY_PROP, 3, &[1, 4]).process(&mut state, &ALICE, &rand), vec![0]);
    assert_eq!(tx(FEED_ELF, 4, &[1, 1, 4]).process(&mut state, &ALICE, &rand), vec![0]);
    assert_eq!(
        tx(TREAT_ELF, 5, &[1, 1, 6]).process(&mut state, &ALICE, &rand),
        vec![ERROR_NOT_FOUND_PROP as u64]
    );
    assert_eq!(tx(COLLECT_GOLD, 5, &[1, 1]).process(&mut state, &ALICE, &rand), vec![0]);
    assert_eq!(tx(CLEAN_RANCH, 6, &[1]).process(&mut state, &ALICE, &rand), vec![0]);
    assert_eq!(tx(WITHDRAW, 6, &[10, 0, 0]).process(&mut state, &ALICE, &rand), vec![0]);
    assert_eq!(tx(SELL_ELF, 7, &[1, 1]).process(&mut state, &ALICE, &rand), vec![0]);
    assert_eq!(state.players[0].nonce, 8);
    assert_eq!(state.players[0].data.gold_balance, 10000 - 100 - 1000 - 5 - 10 + 100);
    assert_eq!(
        tx(DEPOSIT, 0, &[2, 3, 1, 1]).process(&mut state, &ALICE, &rand),
        vec![ERROR_MUST_ADMIN_KEY as u64]
    );
    assert_eq!(
        tx(TIME_TICK, 0, &[]).process(&mut state, &ALICE, &rand),
        vec![ERROR_MUST_ADMIN_KEY as u64]
    );
    assert_eq!(state.queue.counter, 0);
    assert_eq!(tx(TIME_TICK, 0, &[]).process(&mut state, &ADMIN, &rand), vec![0]);
    assert_eq!(state.queue.counter, 1);
    assert_eq!(
        tx(DEPOSIT, 0, &[2, 3, 1, 1]).process(&mut state, &ADMIN, &rand),
        vec![ERROR_PLAYER_NOT_EXIST as u64]
    );
    assert_eq!(tx(INIT_PLAYER, 0, &[]).process(&mut state, &ADMIN, &rand), vec![0]);
    assert_eq!(tx(DEPOSIT, 1, &[2, 3, 1, 1]).process(&mut state, &ADMIN, &rand), vec![0]);
    assert_eq!(state.players[0].data.ranchs[0].props[1], UserProp { prop_type: 1, count: 1 });
    // a kind without a command of its own advances the simulation
    assert_eq!(tx(99, 0, &[]).process(&mut state, &ADMIN, &rand), vec![0]);
    assert_eq!(state.queue.counter, 2);
}

fn history() -> Vec<(Transaction, [u64; 4], Reveal)> {
    let mut steps = vec![
        (tx(INIT_PLAYER, 0, &[]), ALICE, plain([0; 4])),
        (
            tx(BUY_ELF, 1, &[1, 1]),
            ALICE,
            Reveal { value: [90, 1, 0, 0], digest: [0; 4], next_commitment: [100; 4] },
        ),
        (tx(BUY_PROP, 2, &[1, 4]), ALICE, plain([0; 4])),
    ];
    let mut secret = 100;
    for _ in 0..50 {
        steps.push((
            tx(TIME_TICK, 0, &[]),
            ADMIN,
            Reveal { value: [secret, 0, 0, 0], digest: [secret; 4], next_commitment: [secret + 1; 4] },
        ));
        secret += 1;
    }
    steps.push((tx(FEED_ELF, 3, &[1, 1, 4]), ALICE, plain([0; 4])));
    steps.push((tx(COLLECT_GOLD, 4, &[1, 1]), ALICE, plain([0; 4])));
    steps
}

fn run(steps: &[(Transaction, [u64; 4], Reveal)]) -> (State, Vec<u64>) {
    let mut state = State::new(ADMIN);
    let mut codes = Vec::new();
    for (t, key, rand) in steps {
        codes.extend(t.process(&mut state, key, rand));
    }
    (state, codes)
}

#[test]
fn two_runs_of_one_history_end_in_the_same_state() {
    let (first, first_codes) = run(&history());
    let (second, second_codes) = run(&history());
    assert_eq!(first_codes, second_codes);
    assert!(first_codes.iter().all(|c| *c == 0));
    assert_eq!(format!("{:?}", first), format!("{:?}", second));
    let elf = first.players[0].data.ranchs[0].elfs[0];
    assert_eq!(elf.grade, 4);
    assert_eq!(first.queue.counter, 50);
    assert_eq!(elf.current_gold_store, 0);
    assert_eq!(first.players[0].data.feed_count, 1);
    assert!(first.players[0].data.gold_count > 0);
}

#[test]
fn snapshot_is_the_tick_count_in_json() {
    let mut state = State::new(ADMIN);
    assert_eq!(state.snapshot(), "0");
    for _ in 0..12 {
        state.tick();
    }
    assert_eq!(state.snapshot(), "12");
    state.queue.counter = u64::MAX;
    assert_eq!(state.snapshot(), "18446744073709551615");
}

#[test]
fn preempt_every_thirty_two_ticks() {
    let mut state = State::new(ADMIN);
    assert!(state.preempt());
    state.tick();
    assert!(!state.preempt());
    state.queue.counter = 64;
    assert!(state.preempt());
    assert_eq!(state.rand_seed(), 0);
}

#[test]
fn get_state_finds_the_player_of_a_key() {
    let state = fresh();
    assert_eq!(state.get_state(&ALICE).unwrap().player_id, PID);
    assert!(state.get_state(&ADMIN).is_none());
    assert_eq!(state.player_position(&PID), Some(0));
    assert_eq!(state.player_position(&[2, 4]), None);
}

#[test]
fn new_state_is_empty() {
    let state = State::new(ADMIN);
    assert_eq!(state.supplier, 1000);
    assert_eq!(state.admin, ADMIN);
    assert!(state.players.is_empty());
    assert_eq!(state.queue.len(), 0);
    assert_eq!(state.queue.counter, 0);
    assert!(matches!(state.commitment, RandomCommitment::NoCommitment));
    assert!(state.settlement.0.is_empty());
}

#[test]
fn decode_reads_kind_nonce_and_words() {
    let t = Transaction::decode(&[(5 << 16) | BUY_ELF, 1, 3, 0, 0]);
    assert_eq!((t.command, t.nonce, t.data), (BUY_ELF, 5, vec![1, 3]));
    let t = Transaction::decode(&[(7 << 16) | 0xab00 | WITHDRAW, 10, 11, 12, 13]);
    assert_eq!((t.command, t.nonce, t.data), (WITHDRAW, 7, vec![11, 12, 13]));
    let t = Transaction::decode(&[DEPOSIT, 10, 11, 12, 13]);
    assert_eq!((t.command, t.nonce, t.data), (DEPOSIT, 0, vec![10, 11, 12, 13]));
    let t = Transaction::decode(&[INIT_PLAYER]);
    assert_eq!((t.command, t.nonce, t.data), (INIT_PLAYER, 0, vec![]));
    let t = Transaction::decode(&[FEED_ELF, 1, 2, 3]);
    assert_eq!(t.data, vec![1, 2, 3]);
    let t = Transaction::decode(&[TREAT_ELF, 1, 2, 3]);
    assert_eq!(t.data, vec![1, 2, 3]);
    let t = Transaction::decode(&[CLEAN_RANCH, 4]);
    assert_eq!(t.data, vec![4]);
    let t = Transaction::decode(&[SELL_ELF, 4, 5]);
    assert_eq!(t.data, vec![4, 5]);
    let t = Transaction::decode(&[COLLECT_GOLD, 4, 5]);
    assert_eq!(t.data, vec![4, 5]);
    let t = Transaction::decode(&[BUY_PROP, 4, 5]);
    assert_eq!(t.data, vec![4, 5]);
    let t = Transaction::decode(&[BUY_SLOT, 4]);
    assert_eq!(t.data, vec![4]);
    let t = Transaction::decode(&[9, 4]);
    assert_eq!(t.data, vec![4]);
    let t = Transaction::decode(&[10, 4]);
    assert_eq!(t.data, vec![4]);
    let t = Transaction::decode(&[TIME_TICK]);
    assert_eq!((t.command, t.data), (TIME_TICK, vec![]));
    let t = Transaction::decode(&[77, 1, 2]);
    assert_eq!((t.command, t.data), (77, vec![]));
}

#[test]
fn error_codes_have_names() {
    let names = [
        "Unknown",
        "PlayerNotExist",
        "PlayerAlreadyExist",
        "NotGoldBalance",
        "IndexOutofBound",
        "NotEnoughResource",
        "NotFoundRanch",
        "MaxElfCount",
        "NotFoundElf",
        "NotFoundProp",
        "ThisPropMustBeUsedUSDT",
        "InvalidPurchaseCondition",
        "MaxElfSlot",
        "MustAdminKey",
        "RevealMismatch",
        "Unknown",
    ];
    for (code, name) in names.iter().enumerate() {
        assert_eq!(Transaction::decode_error(code as u32), *name);
    }
}

#[test]
fn seeding_skips_chains_that_run() {
    let mut state = fresh();
    let t = tx(BUY_ELF, 1, &[1, 1]);
    let elf = Elf::new(1, "Hippo", 50, 1, 90, 18, 1);
    t.init_event(&mut state, PID, 1, elf);
    assert_eq!(state.queue.len(), 6);
    t.init_event(&mut state, PID, 1, elf);
    assert_eq!(state.queue.len(), 6);
    t.init_add_exp_event(&mut state, &PID, 1, elf);
    t.init_add_gold_event(&mut state, &PID, 1, elf);
    t.init_health_reduce_event(&mut state, &PID, 1, elf);
    t.init_satiety_reduce_event(&mut state, &PID, 1, elf);
    t.init_add_shit_event(&mut state, &PID, 1, elf);
    t.init_add_health_event(&mut state, &PID, 1, elf);
    assert_eq!(state.queue.len(), 6);
    let mut other = elf;
    other.id = 2;
    other.exp = 10000;
    other.health = 0;
    other.satiety = 0;
    t.init_add_exp_event(&mut state, &PID, 1, other);
    t.init_health_reduce_event(&mut state, &PID, 1, other);
    t.init_satiety_reduce_event(&mut state, &PID, 1, other);
    assert_eq!(state.queue.len(), 6);
    t.init_add_gold_event(&mut state, &PID, 1, other);
    assert_eq!(state.queue.len(), 7);
}

#[test]
fn checked_decoding_refuses_short_wire_forms() {
    assert!(Transaction::try_decode(&[]).is_none());
    assert!(Transaction::try_decode(&[BUY_ELF, 1]).is_none());
    assert!(Transaction::try_decode(&[WITHDRAW, 1, 2, 3]).is_none());
    assert!(Transaction::try_decode(&[DEPOSIT, 1, 2, 3]).is_none());
    assert!(Transaction::try_decode(&[FEED_ELF, 1, 2]).is_none());
    let t = Transaction::try_decode(&[(3 << 16) | BUY_ELF, 1, 2]).unwrap();
    assert_eq!((t.command, t.nonce, t.data), (BUY_ELF, 3, vec![1, 2]));
    assert!(Transaction::try_decode(&[TIME_TICK]).is_some());
    assert!(Transaction::try_decode(&[INIT_PLAYER]).is_some());
    assert_eq!(Transaction::data_len(DEPOSIT), 4);
    assert_eq!(Transaction::data_len(WITHDRAW), 3);
    assert_eq!(Transaction::data_len(BUY_ELF), 2);
    assert_eq!(Transaction::data_len(BUY_SLOT), 1);
    assert_eq!(Transaction::data_len(TIME_TICK), 0);
}

#[test]
fn commands_out_of_turn_are_not_processed() {
    let mut state = fresh();
    let rand = plain([0; 4]);
    assert!(!tx(BUY_ELF, 0, &[1, 1]).is_acceptable(&state, &ALICE));
    assert!(!tx(BUY_ELF, 2, &[1, 1]).is_acceptable(&state, &ALICE));
    assert!(!tx(BUY_ELF, 1, &[1]).is_acceptable(&state, &ALICE));
    assert!(tx(BUY_ELF, 1, &[1, 1]).is_acceptable(&state, &ALICE));
    assert!(tx(BUY_ELF, 7, &[1, 1]).is_acceptable(&state, &ADMIN));
    assert!(tx(INIT_PLAYER, 9, &[]).is_acceptable(&state, &ALICE));
    assert!(!tx(INIT_PLAYER, 9, &[]).is_acceptable(&state, &ADMIN));
    assert!(tx(INIT_PLAYER, 0, &[]).is_acceptable(&state, &ADMIN));
    assert!(tx(TIME_TICK, 9, &[]).is_acceptable(&state, &ALICE));
    assert!(tx(DEPOSIT, 9, &[2, 3, 1, 1]).is_acceptable(&state, &ALICE));
    assert!(!tx(DEPOSIT, 9, &[2, 3, 1]).is_acceptable(&state, &ADMIN));
    assert!(tx(BUY_ELF, 0, &[1, 1]).try_process(&mut state, &ALICE, &rand).is_none());
    assert_eq!(state.players[0].nonce, 1);
    assert!(state.players[0].data.ranchs[0].elfs.is_empty());
    assert_eq!(tx(BUY_ELF, 1, &[1, 1]).try_process(&mut state, &ALICE, &rand), Some(vec![0]));
    assert_eq!(state.players[0].nonce, 2);
    let mut last = fresh();
    last.players[0].nonce = u64::MAX;
    assert!(!tx(BUY_ELF, u64::MAX, &[1, 1]).is_acceptable(&last, &ALICE));
}

#[test]
fn purchase_with_a_wrong_reveal_changes_nothing() {
    let mut state = fresh();
    state.commitment = RandomCommitment::AwaitingReveal([5, 6, 7, 8]);
    let before = format!("{:?}", state);
    let wrong = Reveal { value: [98, 0, 0, 0], digest: [5, 6, 7, 9], next_commitment: [1; 4] };
    let t = tx(BUY_ELF, 1, &[1, 1]);
    assert_eq!(t.buy_elf_revealed(&mut state, &PID, &wrong), Err(ERROR_REVEAL_MISMATCH));
    assert_eq!(format!("{:?}", state), before);
    assert_eq!(t.process(&mut state, &ALICE, &wrong), vec![ERROR_REVEAL_MISMATCH as u64]);
    assert_eq!(format!("{:?}", state), before);
    // the reveal is asked for before anything else
    assert_eq!(
        tx(BUY_ELF, 0, &[1, 1]).buy_elf_revealed(&mut state, &[6, 6], &wrong),
        Err(ERROR_REVEAL_MISMATCH)
    );
    assert_eq!(format!("{:?}", state), before);
}

#[test]
fn purchase_with_the_right_reveal_draws_from_it_and_commits_to_the_next() {
    let mut state = fresh();
    state.commitment = RandomCommitment::AwaitingReveal([5, 6, 7, 8]);
    let right = Reveal { value: [90, 8, 0, 0], digest: [5, 6, 7, 8], next_commitment: [1, 2, 3, 4] };
    assert_eq!(tx(BUY_ELF, 1, &[1, 1]).process(&mut state, &ALICE, &right), vec![0]);
    // 90 ^ 8 is 82, which draws 83: the third grade
    assert_eq!(state.players[0].data.ranchs[0].elfs[0].grade, 3);
    assert_eq!(state.players[0].data.gold_balance, 9900);
    assert_eq!(state.queue.len(), 6);
    assert!(matches!(state.commitment, RandomCommitment::AwaitingReveal([1, 2, 3, 4])));
    // the value that was revealed cannot be revealed again
    state.players[0].data.ranchs[0].elf_slot = 2;
    assert_eq!(
        tx(BUY_ELF, 2, &[1, 1]).process(&mut state, &ALICE, &right),
        vec![ERROR_REVEAL_MISMATCH as u64]
    );
    assert_eq!(state.players[0].data.ranchs[0].elfs.len(), 1);
    assert_eq!(state.players[0].nonce, 2);
}

#[test]
fn purchase_that_fails_leaves_the_commitment() {
    let mut state = fresh();
    state.commitment = RandomCommitment::AwaitingReveal([5, 6, 7, 8]);
    let right = Reveal { value: [0; 4], digest: [5, 6, 7, 8], next_commitment: [1, 2, 3, 4] };
    assert_eq!(
        tx(BUY_ELF, 1, &[1, 2]).buy_elf_revealed(&mut state, &PID, &right),
        Err(ERROR_INVALID_PURCHASE_CONDITION)
    );
    assert_eq!(
        tx(BUY_ELF, 1, &[9, 1]).process(&mut state, &ALICE, &right),
        vec![ERROR_NOT_FOUND_RANCH as u64]
    );
    assert!(matches!(state.commitment, RandomCommitment::AwaitingReveal([5, 6, 7, 8])));
    assert_eq!(state.players[0].nonce, 1);
}

#[test]
fn first_purchase_without_a_commitment_takes_any_value() {
    let mut state = fresh();
    let any = Reveal { value: [98, 0, 0, 0], digest: [3; 4], next_commitment: [4; 4] };
    assert_eq!(tx(BUY_ELF, 1, &[1, 1]).buy_elf_revealed(&mut state, &PID, &any), Ok(()));
    assert_eq!(state.players[0].data.ranchs[0].elfs[0].grade, 5);
    assert!(matches!(state.commitment, RandomCommitment::AwaitingReveal([4, 4, 4, 4])));
}

#[test]
fn commands_that_take_no_reveal_leave_the_commitment() {
    let mut state = with_hippo();
    state.commitment = RandomCommitment::AwaitingReveal([5, 6, 7, 8]);
    let wrong = Reveal { value: [0; 4], digest: [0; 4], next_commitment: [1; 4] };
    assert_eq!(tx(BUY_PROP, 2, &[1, 4]).process(&mut state, &ALICE, &wrong), vec![0]);
    assert_eq!(tx(FEED_ELF, 3, &[1, 1, 4]).process(&mut state, &ALICE, &wrong), vec![0]);
    assert_eq!(tx(COLLECT_GOLD, 4, &[1, 1]).process(&mut state, &ALICE, &wrong), vec![0]);
    assert!(matches!(state.commitment, RandomCommitment::AwaitingReveal([5, 6, 7, 8])));
}
