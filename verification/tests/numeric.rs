use elf_ranch::config::get_random;
use elf_ranch::elf::{Elf, ElfGradeRandom, StandElf};
use elf_ranch::prop::{Prop, UserProp, CABBAGE, CARROT, HEALING_POTION, MAGIC_BROOM};
use elf_ranch::ranch::{Ranch, RanchSlot};

fn hippo() -> Elf {
    Elf::new(1, "Hippo", 50, 1, 90, 18, 1)
}

#[test]
fn growth_increment_is_rounded_up() {
    // 50000 / (50 * 6) = 166.67
    assert_eq!(Elf::compute_need_exp(50, 0), 167);
    // 50000 / (420 * 6) = 19.84
    assert_eq!(Elf::compute_need_exp(420, 100), 20);
    // 50000 / (300 * 6) = 27.78
    assert_eq!(Elf::compute_need_exp(300, 5000), 28);
}

#[test]
fn growth_increment_is_cut_at_what_is_left() {
    assert_eq!(Elf::compute_need_exp(420, 9990), 10);
    assert_eq!(Elf::compute_need_exp(50, 9999), 1);
    assert_eq!(Elf::compute_need_exp(50, 10000), 0);
}

#[test]
fn growth_increment_is_at_least_one_for_slow_growers() {
    assert_eq!(Elf::compute_need_exp(8333, 0), 2);
    assert_eq!(Elf::compute_need_exp(8334, 0), 1);
    assert_eq!(Elf::compute_need_exp(u64::MAX, 0), 1);
}

#[test]
fn growth_without_growth_time_is_immediate() {
    assert_eq!(Elf::compute_need_exp(0, 1234), 8766);
}

#[test]
fn growth_of_an_elf_beyond_the_range_is_nothing() {
    assert_eq!(Elf::compute_need_exp(50, 10001), 0);
}

#[test]
fn health_decay_has_three_rates() {
    let mut elf = hippo();
    assert_eq!(Elf::compute_health_reduce(elf, 0), 9);
    assert_eq!(Elf::compute_health_reduce(elf, 5), 9);
    assert_eq!(Elf::compute_health_reduce(elf, 6), 13);
    elf.satiety = 4999;
    assert_eq!(Elf::compute_health_reduce(elf, 0), 13);
    assert_eq!(Elf::compute_health_reduce(elf, 10), 17);
}

#[test]
fn health_decay_is_cut_at_the_health_left() {
    let mut elf = hippo();
    elf.health = 5;
    assert_eq!(Elf::compute_health_reduce(elf, 10), 5);
    elf.health = 0;
    assert_eq!(Elf::compute_health_reduce(elf, 10), 0);
}

#[test]
fn satiety_decay_is_one_per_firing() {
    let mut elf = hippo();
    assert_eq!(Elf::compute_satiety_reduce(elf), 1);
    elf.satiety = 1;
    assert_eq!(Elf::compute_satiety_reduce(elf), 1);
    elf.satiety = 0;
    assert_eq!(Elf::compute_satiety_reduce(elf), 0);
}

#[test]
fn production_of_a_young_healthy_hippo() {
    // 18 * 1.0 * 0.5 * 1.0 * 1.0 / 12 = 0.75
    assert_eq!(Elf::compute_need_gold(hippo()), 1);
}

#[test]
fn production_goes_by_all_four_factors() {
    let mut elf = Elf::new(1, "Doge", 300, 5, 8100, 270, 10);
    elf.exp = 10000;
    // 270 * 1.0 * 1.0 * 5.0 * 1.0 / 12 = 112.5
    assert_eq!(Elf::compute_need_gold(elf), 113);
    elf.health = 7999;
    // 270 * 0.8 * 5.0 / 12 = 90
    assert_eq!(Elf::compute_need_gold(elf), 90);
    elf.health = 4999;
    // 270 * 0.5 * 5.0 / 12 = 56.25
    assert_eq!(Elf::compute_need_gold(elf), 57);
    elf.health = 2999;
    assert_eq!(Elf::compute_need_gold(elf), 0);
    elf.health = 10000;
    elf.satiety = 4999;
    // 270 * 5.0 * 0.5 / 12 = 56.25
    assert_eq!(Elf::compute_need_gold(elf), 57);
    elf.satiety = 999;
    assert_eq!(Elf::compute_need_gold(elf), 0);
    elf.satiety = 10000;
    elf.exp = 4999;
    assert_eq!(Elf::compute_need_gold(elf), 57);
}

#[test]
fn production_goes_by_the_grade() {
    let mut elf = Elf::new(1, "Popcat", 80, 1, 100000, 120, 5);
    elf.exp = 10000;
    assert_eq!(Elf::compute_need_gold(elf), 10);
    elf.grade = 2;
    assert_eq!(Elf::compute_need_gold(elf), 15);
    elf.grade = 3;
    assert_eq!(Elf::compute_need_gold(elf), 25);
    elf.grade = 4;
    assert_eq!(Elf::compute_need_gold(elf), 40);
    elf.grade = 5;
    assert_eq!(Elf::compute_need_gold(elf), 50);
    elf.grade = 9;
    assert_eq!(Elf::compute_need_gold(elf), 10);
}

#[test]
fn production_is_cut_at_the_room_in_the_store() {
    let mut elf = Elf::new(1, "Doge", 300, 5, 8100, 270, 10);
    elf.exp = 10000;
    elf.current_gold_store = 8000;
    assert_eq!(Elf::compute_need_gold(elf), 100);
    elf.current_gold_store = 8100;
    assert_eq!(Elf::compute_need_gold(elf), 0);
    elf.current_gold_store = 9000;
    assert_eq!(Elf::compute_need_gold(elf), 0);
}

#[test]
fn production_of_a_huge_base_does_not_overflow() {
    let mut elf = Elf::new(1, "Doge", 300, 5, u64::MAX, u64::MAX, 10);
    elf.exp = 10000;
    // ceil(u64::MAX * 50000 / 120000)
    assert_eq!(Elf::compute_need_gold(elf), 7686143364045646507);
}

#[test]
fn food_fills_up_to_the_full_range() {
    let mut elf = hippo();
    elf.satiety = 3000;
    assert_eq!(Elf::compute_need_add_satiety(CARROT, elf), 1000);
    assert_eq!(Elf::compute_need_add_satiety(CABBAGE, elf), 5000);
    assert_eq!(Elf::compute_need_add_satiety(HEALING_POTION, elf), 0);
    elf.satiety = 9500;
    assert_eq!(Elf::compute_need_add_satiety(CARROT, elf), 500);
    assert_eq!(Elf::compute_need_add_satiety(CABBAGE, elf), 500);
}

#[test]
fn potion_heals_up_to_the_full_range() {
    let mut elf = hippo();
    elf.health = 100;
    assert_eq!(Elf::compute_need_add_health(HEALING_POTION, elf), 5000);
    assert_eq!(Elf::compute_need_add_health(CARROT, elf), 0);
    elf.health = 9000;
    assert_eq!(Elf::compute_need_add_health(HEALING_POTION, elf), 1000);
}

#[test]
fn draws_are_between_one_and_the_maximum() {
    assert_eq!(get_random(0, 100), 1);
    assert_eq!(get_random(99, 100), 100);
    assert_eq!(get_random(100, 100), 1);
    assert_eq!(get_random(u64::MAX, 100), 16);
}

#[test]
fn grades_go_by_the_draw_ranges() {
    assert_eq!(Elf::get_grade_by_random(1), 1);
    assert_eq!(Elf::get_grade_by_random(50), 1);
    assert_eq!(Elf::get_grade_by_random(51), 2);
    assert_eq!(Elf::get_grade_by_random(75), 2);
    assert_eq!(Elf::get_grade_by_random(76), 3);
    assert_eq!(Elf::get_grade_by_random(90), 3);
    assert_eq!(Elf::get_grade_by_random(91), 4);
    assert_eq!(Elf::get_grade_by_random(98), 4);
    assert_eq!(Elf::get_grade_by_random(99), 5);
    assert_eq!(Elf::get_grade_by_random(100), 5);
    assert_eq!(Elf::get_grade_by_random(0), 1);
    assert_eq!(Elf::get_grade_by_random(101), 1);
}

#[test]
fn new_elf_is_healthy_fed_and_not_grown() {
    let elf = Elf::new(7, "Goat", 75, 2, 500, 50, 3);
    assert_eq!(elf.id, 7);
    assert_eq!(elf.name, "Goat");
    assert_eq!(elf.health, 10000);
    assert_eq!(elf.satiety, 10000);
    assert_eq!(elf.exp, 0);
    assert_eq!(elf.growth_time, 75);
    assert_eq!(elf.grade, 2);
    assert_eq!(elf.max_gold_store, 500);
    assert_eq!(elf.current_gold_store, 0);
    assert_eq!(elf.current_gold_produce_base, 50);
    assert_eq!(elf.elf_type, 3);
}

#[test]
fn purchased_elf_has_the_catalog_values() {
    // seed 75 draws 76: third grade
    let elf = Elf::get_elf(75, 1, 4);
    assert_eq!(elf.id, 5);
    assert_eq!(elf.name, "Hippo");
    assert_eq!(elf.grade, 3);
    assert_eq!(elf.growth_time, 100);
    assert_eq!(elf.max_gold_store, 15 * 18);
    assert_eq!(elf.current_gold_produce_base, 18);
    assert_eq!(elf.elf_type, 1);
    let doge = Elf::get_elf(98, 10, 0);
    assert_eq!(doge.id, 1);
    assert_eq!(doge.name, "Doge");
    assert_eq!(doge.grade, 5);
    assert_eq!(doge.growth_time, 300);
    assert_eq!(doge.max_gold_store, 30 * 270);
}

#[test]
fn elf_catalog_has_fifty_entries_in_order() {
    let list = Elf::get_all_elfs();
    assert_eq!(list.len(), 50);
    assert_eq!(list[0].id, 1);
    assert_eq!(list[0].name, "Hippo");
    assert_eq!(list[0].buy_price, 100);
    assert_eq!(list[0].growth_time, 50);
    assert_eq!(list[0].max_gold_store_base, 5);
    assert_eq!(list[0].current_gold_produce_base, 18);
    assert_eq!(list[0].elf_type, 1);
    assert_eq!(list[0].grade, 1);
    assert_eq!(list[0].sell_price, 100);
    assert_eq!(list[14].name, "Goat");
    assert_eq!(list[14].growth_time, 200);
    assert_eq!(list[14].max_gold_store_base, 30);
    assert_eq!(list[16].id, 17);
    assert_eq!(list[16].name, "Pnut");
    assert_eq!(list[16].buy_price, 6000);
    assert_eq!(list[16].growth_time, 160);
    assert_eq!(list[16].grade, 2);
    assert_eq!(list[49].id, 50);
    assert_eq!(list[49].name, "Doge");
    assert_eq!(list[49].buy_price, 300000);
    assert_eq!(list[49].growth_time, 300);
    assert_eq!(list[49].current_gold_produce_base, 270);
    assert_eq!(list[49].grade, 5);
    for (i, entry) in list.iter().enumerate() {
        assert_eq!(entry.id, i as u64 + 1);
        assert_eq!(entry.elf_type, i as u64 / 5 + 1);
        assert_eq!(entry.grade, i as u64 % 5 + 1);
    }
}

#[test]
fn catalog_lookup_knows_its_bounds() {
    assert!(StandElf::get_elf_by_type(0, 1).is_none());
    assert!(StandElf::get_elf_by_type(11, 1).is_none());
    assert!(StandElf::get_elf_by_type(1, 0).is_none());
    assert!(StandElf::get_elf_by_type(1, 6).is_none());
    let wif = StandElf::get_elf_by_type(7, 4).unwrap();
    assert_eq!(wif.id, 34);
    assert_eq!(wif.name, "Wif");
    assert_eq!(wif.buy_price, 93750);
    assert_eq!(wif.sell_price, 93750);
    assert_eq!(wif.growth_time, 280);
    assert_eq!(wif.max_gold_store_base, 20);
    assert_eq!(wif.current_gold_produce_base, 150);
}

#[test]
fn stand_elf_new_keeps_its_arguments() {
    let entry = StandElf::new(3, "Bonk", 10, 20, 30, 40, 8, 2, 50);
    assert_eq!(entry.id, 3);
    assert_eq!(entry.name, "Bonk");
    assert_eq!(entry.buy_price, 10);
    assert_eq!(entry.growth_time, 20);
    assert_eq!(entry.max_gold_store_base, 30);
    assert_eq!(entry.current_gold_produce_base, 40);
    assert_eq!(entry.elf_type, 8);
    assert_eq!(entry.grade, 2);
    assert_eq!(entry.sell_price, 50);
}

#[test]
fn grade_ranges_cover_one_to_a_hundred() {
    let ranges = Elf::get_all_randoms();
    assert_eq!(
        ranges,
        vec![
            ElfGradeRandom::new(1, 1, 50),
            ElfGradeRandom::new(2, 51, 75),
            ElfGradeRandom::new(3, 76, 90),
            ElfGradeRandom::new(4, 91, 98),
            ElfGradeRandom::new(5, 99, 100),
        ]
    );
}

#[test]
fn prop_catalog_has_six_entries() {
    let list = Prop::get_all_pops();
    assert_eq!(
        list,
        vec![
            Prop::new(1, 1, 1, 1),
            Prop::new(2, 1, 1, 2),
            Prop::new(3, 1, 1, 3),
            Prop::new(4, 5, 2, 4),
            Prop::new(5, 75, 2, 5),
            Prop::new(6, 150, 2, 6),
        ]
    );
}

#[test]
fn prop_lookup_by_type() {
    assert_eq!(Prop::get_prop_by_type(MAGIC_BROOM), Some(Prop::new(1, 1, 1, 1)));
    assert_eq!(Prop::get_prop_by_type(CABBAGE), Some(Prop::new(5, 75, 2, 5)));
    assert_eq!(Prop::get_prop_by_type(0), None);
    assert_eq!(Prop::get_prop_by_type(7), None);
}

#[test]
fn user_prop_starts_with_one() {
    assert_eq!(UserProp::new(4), UserProp { prop_type: 4, count: 1 });
}

#[test]
fn slot_prices_are_listed_from_the_second_to_the_tenth() {
    let slots = RanchSlot::get_all_ranch_slots();
    assert_eq!(slots.len(), 9);
    assert_eq!(slots[0], RanchSlot::new(2, 1000));
    assert_eq!(slots[8], RanchSlot::new(10, 21000));
    assert_eq!(RanchSlot::get_price_by_id(2), 1000);
    assert_eq!(RanchSlot::get_price_by_id(3), 1500);
    assert_eq!(RanchSlot::get_price_by_id(4), 2000);
    assert_eq!(RanchSlot::get_price_by_id(5), 3000);
    assert_eq!(RanchSlot::get_price_by_id(6), 5000);
    assert_eq!(RanchSlot::get_price_by_id(7), 7000);
    assert_eq!(RanchSlot::get_price_by_id(8), 10000);
    assert_eq!(RanchSlot::get_price_by_id(9), 15000);
    assert_eq!(RanchSlot::get_price_by_id(10), 21000);
    assert_eq!(RanchSlot::get_price_by_id(1), 30000000000000);
    assert_eq!(RanchSlot::get_price_by_id(11), 30000000000000);
}

#[test]
fn new_ranch_is_clean_and_empty_with_one_slot() {
    let ranch = Ranch::new(3);
    assert_eq!(ranch.id, 3);
    assert_eq!(ranch.ranch_clean, 0);
    assert_eq!(ranch.elf_slot, 1);
    assert!(ranch.elfs.is_empty());
    assert!(ranch.props.is_empty());
}
