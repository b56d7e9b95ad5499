use elf_ranch::elf::Elf;
use elf_ranch::event_type::{ADD_EXP, ADD_GOLD, ADD_SHIT, HEALTH_ADD, HEALTH_REDUCE, SATIETY_REDUCE};
use elf_ranch::events::Event;
use elf_ranch::player::{ElfPlayer, PlayerData};
use elf_ranch::prop::UserProp;
use elf_ranch::ranch::Ranch;

const OWNER: [u64; 2] = [11, 22];

fn data_with(elf: Elf) -> PlayerData {
    let mut data = PlayerData::default();
    let mut ranch = Ranch::new(1);
    ranch.elfs.push(elf);
    data.ranchs.push(ranch);
    data
}

fn hippo() -> Elf {
    Elf::new(1, "Hippo", 50, 1, 90, 18, 1)
}

fn same_event(event: &Event, event_type: u64, delta: usize) -> bool {
    event.owner == OWNER
        && event.event_type == event_type
        && event.ranch_id == 1
        && event.elf_id == 1
        && event.delta == delta
}

#[test]
fn default_player_data_has_the_starting_gold() {
    let data = PlayerData::default();
    assert_eq!(data.gold_count, 0);
    assert_eq!(data.clean_count, 0);
    assert_eq!(data.feed_count, 0);
    assert_eq!(data.health_count, 0);
    assert_eq!(data.gold_balance, 10000);
    assert!(data.ranchs.is_empty());
}

#[test]
fn growth_event_adds_one_step_and_goes_on() {
    let mut data = data_with(hippo());
    let next = data.elf_add_exp_event(OWNER, ADD_EXP, 1, 1).unwrap();
    assert_eq!(data.ranchs[0].elfs[0].exp, 167);
    assert!(same_event(&next, ADD_EXP, 1));
}

#[test]
fn growth_ends_exactly_at_the_full_range() {
    let mut elf = hippo();
    elf.growth_time = 420;
    elf.exp = 9990;
    let mut data = data_with(elf);
    let next = data.elf_add_exp_event(OWNER, ADD_EXP, 1, 1);
    assert_eq!(data.ranchs[0].elfs[0].exp, 10000);
    assert!(next.is_none());
}

#[test]
fn repeated_growth_reaches_the_full_range_and_stays() {
    let mut data = data_with(hippo());
    let mut firings = 0;
    while data.elf_add_exp_event(OWNER, ADD_EXP, 1, 1).is_some() {
        firings += 1;
        assert!(data.ranchs[0].elfs[0].exp < 10000);
        assert!(firings < 10000);
    }
    // 59 steps of 167 and a last step of 147
    assert_eq!(firings, 59);
    assert_eq!(data.ranchs[0].elfs[0].exp, 10000);
    assert!(data.elf_add_exp_event(OWNER, ADD_EXP, 1, 1).is_none());
    assert_eq!(data.ranchs[0].elfs[0].exp, 10000);
}

#[test]
fn health_decay_at_zero_changes_nothing() {
    let mut elf = hippo();
    elf.health = 0;
    let mut data = data_with(elf);
    for _ in 0..5 {
        assert!(data.elf_health_reduce_event(OWNER, HEALTH_REDUCE, 1, 1).is_none());
        assert_eq!(data.ranchs[0].elfs[0].health, 0);
    }
}

#[test]
fn satiety_decay_at_zero_changes_nothing() {
    let mut elf = hippo();
    elf.satiety = 0;
    let mut data = data_with(elf);
    for _ in 0..5 {
        assert!(data.elf_satiety_reduce_event(OWNER, SATIETY_REDUCE, 1, 1).is_none());
        assert_eq!(data.ranchs[0].elfs[0].satiety, 0);
    }
}

#[test]
fn health_decay_takes_a_step_and_ends_at_zero() {
    let mut data = data_with(hippo());
    let next = data.elf_health_reduce_event(OWNER, HEALTH_REDUCE, 1, 1).unwrap();
    assert_eq!(data.ranchs[0].elfs[0].health, 9991);
    assert!(same_event(&next, HEALTH_REDUCE, 1));
    data.ranchs[0].elfs[0].health = 9;
    assert!(data.elf_health_reduce_event(OWNER, HEALTH_REDUCE, 1, 1).is_none());
    assert_eq!(data.ranchs[0].elfs[0].health, 0);
}

#[test]
fn health_decay_is_faster_in_a_foul_ranch() {
    let mut data = data_with(hippo());
    data.ranchs[0].ranch_clean = 6;
    data.elf_health_reduce_event(OWNER, HEALTH_REDUCE, 1, 1).unwrap();
    assert_eq!(data.ranchs[0].elfs[0].health, 9987);
    data.ranchs[0].elfs[0].satiety = 100;
    data.elf_health_reduce_event(OWNER, HEALTH_REDUCE, 1, 1).unwrap();
    assert_eq!(data.ranchs[0].elfs[0].health, 9970);
}

#[test]
fn satiety_decay_takes_one_and_comes_back_in_a_minute() {
    let mut data = data_with(hippo());
    let next = data.elf_satiety_reduce_event(OWNER, SATIETY_REDUCE, 1, 1).unwrap();
    assert_eq!(data.ranchs[0].elfs[0].satiety, 9999);
    assert!(same_event(&next, SATIETY_REDUCE, 12));
    data.ranchs[0].elfs[0].satiety = 1;
    assert!(data.elf_satiety_reduce_event(OWNER, SATIETY_REDUCE, 1, 1).is_none());
    assert_eq!(data.ranchs[0].elfs[0].satiety, 0);
}

#[test]
fn production_never_overfills_the_store() {
    let mut elf = hippo();
    elf.exp = 10000;
    let mut data = data_with(elf);
    let mut firings = 0;
    loop {
        let next = data.elf_add_gold_event(OWNER, ADD_GOLD, 1, 1);
        firings += 1;
        assert!(data.ranchs[0].elfs[0].current_gold_store <= 90);
        match next {
            Some(event) => assert!(same_event(&event, ADD_GOLD, 12)),
            None => break,
        }
        assert!(firings < 1000);
    }
    // 18 / 12 rounded up is 2 per firing
    assert_eq!(firings, 45);
    assert_eq!(data.ranchs[0].elfs[0].current_gold_store, 90);
    assert!(data.elf_add_gold_event(OWNER, ADD_GOLD, 1, 1).is_none());
    assert_eq!(data.ranchs[0].elfs[0].current_gold_store, 90);
}

#[test]
fn production_of_a_sick_elf_waits() {
    let mut elf = hippo();
    elf.health = 100;
    let mut data = data_with(elf);
    let next = data.elf_add_gold_event(OWNER, ADD_GOLD, 1, 1);
    assert_eq!(data.ranchs[0].elfs[0].current_gold_store, 0);
    assert!(next.is_some());
}

#[test]
fn fouling_rises_by_one_up_to_ten() {
    let mut data = data_with(hippo());
    let next = data.add_shit_event(OWNER, ADD_SHIT, 1, 1).unwrap();
    assert_eq!(data.ranchs[0].ranch_clean, 1);
    assert!(same_event(&next, ADD_SHIT, 36));
    data.ranchs[0].ranch_clean = 9;
    assert!(data.add_shit_event(OWNER, ADD_SHIT, 1, 1).is_none());
    assert_eq!(data.ranchs[0].ranch_clean, 10);
    assert!(data.add_shit_event(OWNER, ADD_SHIT, 1, 1).is_none());
    assert_eq!(data.ranchs[0].ranch_clean, 10);
}

#[test]
fn regeneration_needs_a_clean_ranch() {
    let mut elf = hippo();
    elf.health = 5000;
    let mut data = data_with(elf);
    data.ranchs[0].ranch_clean = 4;
    let next = data.add_health_event(OWNER, HEALTH_ADD, 1, 1).unwrap();
    assert_eq!(data.ranchs[0].elfs[0].health, 5025);
    assert!(same_event(&next, HEALTH_ADD, 12));
    data.ranchs[0].ranch_clean = 5;
    assert!(data.add_health_event(OWNER, HEALTH_ADD, 1, 1).is_some());
    assert_eq!(data.ranchs[0].elfs[0].health, 5025);
}

#[test]
fn regeneration_stops_at_the_full_range() {
    let mut elf = hippo();
    elf.health = 9990;
    let mut data = data_with(elf);
    assert!(data.add_health_event(OWNER, HEALTH_ADD, 1, 1).is_some());
    assert_eq!(data.ranchs[0].elfs[0].health, 10000);
    assert!(data.add_health_event(OWNER, HEALTH_ADD, 1, 1).is_some());
    assert_eq!(data.ranchs[0].elfs[0].health, 10000);
}

#[test]
fn handlers_end_the_chain_of_a_missing_elf_or_ranch() {
    let mut data = data_with(hippo());
    for event_type in [ADD_EXP, ADD_GOLD, HEALTH_REDUCE, SATIETY_REDUCE, ADD_SHIT, HEALTH_ADD] {
        assert!(data.event_hand(OWNER, event_type, 1, 2).is_none());
        assert!(data.event_hand(OWNER, event_type, 2, 1).is_none());
    }
    let elf = &data.ranchs[0].elfs[0];
    assert_eq!(elf.exp, 0);
    assert_eq!(elf.health, 10000);
    assert_eq!(elf.satiety, 10000);
    assert_eq!(elf.current_gold_store, 0);
    assert_eq!(data.ranchs[0].ranch_clean, 0);
}

#[test]
fn event_hand_goes_by_the_kind() {
    let mut data = data_with(hippo());
    assert!(same_event(&data.event_hand(OWNER, ADD_EXP, 1, 1).unwrap(), ADD_EXP, 1));
    assert_eq!(data.ranchs[0].elfs[0].exp, 167);
    assert!(same_event(&data.event_hand(OWNER, ADD_GOLD, 1, 1).unwrap(), ADD_GOLD, 12));
    assert_eq!(data.ranchs[0].elfs[0].current_gold_store, 1);
    assert!(same_event(&data.event_hand(OWNER, HEALTH_REDUCE, 1, 1).unwrap(), HEALTH_REDUCE, 1));
    assert_eq!(data.ranchs[0].elfs[0].health, 9991);
    assert!(same_event(&data.event_hand(OWNER, SATIETY_REDUCE, 1, 1).unwrap(), SATIETY_REDUCE, 12));
    assert_eq!(data.ranchs[0].elfs[0].satiety, 9999);
    assert!(same_event(&data.event_hand(OWNER, ADD_SHIT, 1, 1).unwrap(), ADD_SHIT, 36));
    assert_eq!(data.ranchs[0].ranch_clean, 1);
    assert!(same_event(&data.event_hand(OWNER, HEALTH_ADD, 1, 1).unwrap(), HEALTH_ADD, 12));
    assert_eq!(data.ranchs[0].elfs[0].health, 10000);
    assert!(data.event_hand(OWNER, 77, 1, 1).is_none());
}

#[test]
fn lookups_find_the_first_match() {
    let mut data = data_with(hippo());
    let mut second = hippo();
    second.id = 2;
    second.exp = 5;
    data.ranchs[0].elfs.push(second);
    data.ranchs[0].props.push(UserProp::new(4));
    assert_eq!(data.elf_position(1, 2), Some((0, 1)));
    assert_eq!(data.elf_position(1, 3), None);
    assert_eq!(data.ranch_position(1), Some(0));
    assert_eq!(data.ranch_position(9), None);
    assert_eq!(data.get_elf_len(1), Some(2));
    assert_eq!(data.get_elf_len(2), None);
    assert_eq!(data.get_elf_last_id(1), Some(2));
    assert_eq!(data.get_elf_last_id(2), None);
    assert_eq!(data.get_elf_mut(1, 2).unwrap().exp, 5);
    assert!(data.get_elf_mut(1, 3).is_none());
    assert_eq!(data.get_ranch_mut(1).unwrap().id, 1);
    assert!(data.get_ranch_mut(2).is_none());
    assert_eq!(*data.get_prop_by_type(1, 4).unwrap(), UserProp { prop_type: 4, count: 1 });
    assert!(data.get_prop_by_type(1, 5).is_none());
    assert!(data.get_prop_by_type(2, 4).is_none());
}

#[test]
fn mutable_lookups_write_through() {
    let mut data = data_with(hippo());
    data.get_elf_mut(1, 1).unwrap().health = 42;
    assert_eq!(data.ranchs[0].elfs[0].health, 42);
    data.get_ranch_mut(1).unwrap().ranch_clean = 3;
    assert_eq!(data.ranchs[0].ranch_clean, 3);
    data.ranchs[0].props.push(UserProp::new(6));
    data.get_prop_by_type(1, 6).unwrap().count = 9;
    assert_eq!(data.ranchs[0].props[0].count, 9);
}

#[test]
fn feeding_and_healing_add_what_the_prop_gives() {
    let mut elf = hippo();
    elf.satiety = 100;
    elf.health = 7000;
    let mut data = data_with(elf);
    data.feed_elf(1, 1, 4);
    assert_eq!(data.ranchs[0].elfs[0].satiety, 1100);
    data.feed_elf(1, 1, 5);
    assert_eq!(data.ranchs[0].elfs[0].satiety, 6100);
    data.feed_elf(1, 1, 5);
    assert_eq!(data.ranchs[0].elfs[0].satiety, 10000);
    data.healing_elf(1, 1, 6);
    assert_eq!(data.ranchs[0].elfs[0].health, 10000);
    data.feed_elf(1, 9, 5);
    data.healing_elf(9, 1, 6);
    assert_eq!(data.ranchs[0].elfs[0].satiety, 10000);
}

#[test]
fn props_are_counted_per_type() {
    let mut data = data_with(hippo());
    data.set_prop_by_ranch(1, UserProp::new(4));
    data.set_prop_by_ranch(1, UserProp::new(5));
    data.set_prop_by_ranch(1, UserProp::new(4));
    assert_eq!(
        data.ranchs[0].props,
        vec![UserProp { prop_type: 4, count: 2 }, UserProp { prop_type: 5, count: 1 }]
    );
    data.reduce_prop(1, 4);
    data.reduce_prop(1, 5);
    data.reduce_prop(1, 5);
    data.reduce_prop(1, 6);
    data.reduce_prop(2, 4);
    assert_eq!(
        data.ranchs[0].props,
        vec![UserProp { prop_type: 4, count: 1 }, UserProp { prop_type: 5, count: 0 }]
    );
    data.set_prop_by_ranch(2, UserProp::new(4));
    assert_eq!(data.ranchs.len(), 1);
}

#[test]
fn prop_count_stops_at_the_largest_number() {
    let mut data = data_with(hippo());
    data.ranchs[0].props.push(UserProp { prop_type: 4, count: u64::MAX });
    data.set_prop_by_ranch(1, UserProp::new(4));
    assert_eq!(data.ranchs[0].props[0].count, u64::MAX);
}

#[test]
fn elves_are_added_and_removed_by_id() {
    let mut data = data_with(hippo());
    let mut second = hippo();
    second.id = 2;
    data.set_elf_by_ranch(1, second);
    data.set_elf_by_ranch(7, second);
    assert_eq!(data.ranchs[0].elfs.len(), 2);
    assert!(!data.remove_elf_mut(1, 3));
    assert!(!data.remove_elf_mut(2, 1));
    assert!(data.remove_elf_mut(1, 1));
    assert_eq!(data.ranchs[0].elfs.len(), 1);
    assert_eq!(data.ranchs[0].elfs[0].id, 2);
}

#[test]
fn slots_are_priced_and_added_up_to_ten() {
    let mut data = data_with(hippo());
    assert_eq!(data.get_ranch_slot_price(1), 1000);
    data.add_ranch_elf_slot(1);
    assert_eq!(data.ranchs[0].elf_slot, 2);
    assert_eq!(data.get_ranch_slot_price(1), 1500);
    data.ranchs[0].elf_slot = 10;
    assert_eq!(data.get_ranch_slot_price(1), 30000000000000);
    data.add_ranch_elf_slot(1);
    assert_eq!(data.ranchs[0].elf_slot, 10);
    data.add_ranch_elf_slot(5);
    assert_eq!(data.ranchs.len(), 1);
}

#[test]
fn new_player_has_no_ranch_and_nonce_zero() {
    let player = ElfPlayer::new_from_pid([5, 6]);
    assert_eq!(player.player_id, [5, 6]);
    assert_eq!(player.nonce, 0);
    assert_eq!(player.data.gold_balance, 10000);
    assert!(player.data.ranchs.is_empty());
}

#[test]
fn nonce_counts_the_commands() {
    let mut player = ElfPlayer::new_from_pid([5, 6]);
    player.check_and_inc_nonce(0);
    player.check_and_inc_nonce(1);
    assert_eq!(player.nonce, 2);
}

#[test]
fn player_id_is_the_middle_of_the_key() {
    assert_eq!(ElfPlayer::pkey_to_pid(&[1, 2, 3, 4]), [2, 3]);
}
