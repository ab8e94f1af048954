use extracteroid::controls::ButtonAction;
use extracteroid::game::{new_game, RentOutcome};
use extracteroid::world::{
    DefStorage, ElementID, GameWorld, GearDef, GearType, Item, MissionDef, PityTimers, Rarity,
    ShipDef, ShipKind, ShipShape, ShootKind, WaveKind, WeaponDef, ASTEROID_LOOT, STARTER_TAG,
};

fn s(x: &str) -> String {
    x.to_string()
}

fn gear(name: &str, gear_type: GearType, rarity: Rarity, loot: bool) -> GearDef {
    GearDef {
        name: s(name),
        drop_rate: 10,
        instasell: false,
        tags: if loot { vec![s(ASTEROID_LOOT)] } else { vec![] },
        stackable: false,
        indestructible: false,
        rarity,
        gear_type,
        mission_tiers: None,
        has_value: true,
    }
}

// Gear positions: 0 Loan Star, 1 Brittle Star, 2 Pea Shooter, 3 Twin Gun,
// 4 Iron, 5 Gold, 6 Scope, 7 Relic, 8 Dust.
fn defs() -> DefStorage {
    let mut loan = gear("Loan Star", GearType::Drone, Rarity::Starter, false);
    loan.indestructible = true;
    loan.has_value = false;
    let mut pea = gear("Pea Shooter", GearType::Weapon, Rarity::Starter, false);
    pea.indestructible = true;
    pea.has_value = false;
    let mut iron = gear("Iron", GearType::Resource, Rarity::Common, true);
    iron.stackable = true;
    iron.instasell = true;
    let mut gold = gear("Gold", GearType::Resource, Rarity::Rare, true);
    gold.stackable = true;
    gold.instasell = true;
    gold.mission_tiers = Some(vec![2, 3]);
    let mut relic = gear("Relic", GearType::Component, Rarity::Epic, false);
    relic.indestructible = true;
    let mut dust = gear("Dust", GearType::Component, Rarity::Common, false);
    dust.has_value = false;
    DefStorage {
        ship_defs: vec![
            ShipDef { name: s("Loan Star"), kind: ShipKind::LoanStar, shape: ShipShape::Triangle },
            ShipDef { name: s("Brittle Star"), kind: ShipKind::BrittleStar, shape: ShipShape::Star },
        ],
        weapon_defs: vec![
            WeaponDef { name: s("Pea Shooter"), magazine: 6, shoot_kind: ShootKind::Default },
            WeaponDef { name: s("Twin Gun"), magazine: 8, shoot_kind: ShootKind::TwinShoot },
        ],
        gear_defs: vec![
            loan,
            gear("Brittle Star", GearType::Drone, Rarity::Common, true),
            pea,
            gear("Twin Gun", GearType::Weapon, Rarity::Uncommon, true),
            iron,
            gold,
            gear("Scope", GearType::Component, Rarity::Common, true),
            relic,
            dust,
        ],
        mission_defs: vec![
            mission("Training", 1, true),
            mission("Belt Run", 1, false),
            mission("Deep Mine", 2, false),
            mission("Meteor Storm", 3, false),
        ],
    }
}

fn mission(name: &str, tier: u8, starter: bool) -> MissionDef {
    MissionDef {
        name: s(name),
        initial_sides: 10,
        wave_kind: WaveKind::Starter,
        max_waves: 5,
        mission_tier: tier,
        tags: if starter { vec![s(STARTER_TAG)] } else { vec![s("Asteroids")] },
    }
}

fn item(name: &str, count: i32) -> Item {
    Item {
        name: s(name),
        count,
        pending_sale: false,
        pending_destroy: false,
        name_hidden: false,
        is_active: false,
        is_rental: false,
    }
}

fn hidden(name: &str) -> Item {
    Item { name_hidden: true, ..item(name, 1) }
}

fn names(items: &[Item]) -> Vec<String> {
    items.iter().map(|i| i.name.clone()).collect()
}

fn counts(items: &[Item]) -> Vec<i32> {
    items.iter().map(|i| i.count).collect()
}

fn total(items: &[Item], name: &str) -> i32 {
    items.iter().filter(|i| i.name == name).map(|i| i.count).sum()
}

fn world_with(hold: Vec<Item>) -> GameWorld {
    let mut w = GameWorld::new(17, defs());
    w.metaprog.cargo_hold = hold;
    w
}

fn active(w: &GameWorld) -> Vec<usize> {
    (0..w.metaprog.cargo_hold.len()).filter(|&i| w.metaprog.cargo_hold[i].is_active).collect()
}

// ---------------------------------------------------------------------------
// World basics
// ---------------------------------------------------------------------------

#[test]
fn new_world_initial_state() {
    let w = GameWorld::new(0, defs());
    assert_eq!(w.current_id, 1);
    assert_eq!(w.metaprog.current_day, 0);
    assert_eq!(w.metaprog.day_rent_due, 0);
    assert!(w.metaprog.cargo_hold.is_empty());
    assert!(w.metaprog.stash.is_empty());
    assert_eq!(w.pity_timers.drop_counter_component, -5);
    assert_eq!(w.pity_timers.drop_counter_drone, -10);
    assert_eq!(w.pity_timers.drop_counter_weapon, -10);
    assert_eq!((w.cargo_scroll_offset, w.cargo_selected_idx), (0, 0));
}

#[test]
fn gen_id_counts_up() {
    let mut w = GameWorld::new(1, defs());
    assert!(w.gen_id() == ElementID(2));
    assert!(w.gen_id() == ElementID(3));
    assert_eq!(w.current_id, 3);
}

#[test]
fn increment_day_brings_rent_closer() {
    let mut w = new_game(5, defs());
    assert_eq!(w.days_until_rent(), 7);
    w.increment_day();
    assert_eq!(w.metaprog.current_day, 2);
    assert_eq!(w.days_until_rent(), 6);
}

#[test]
fn item_available_follows_flags() {
    assert!(item("Iron", 1).available());
    assert!(!hidden("Iron").available());
    assert!(!Item { pending_sale: true, ..item("Iron", 1) }.available());
    assert!(!Item { pending_destroy: true, ..item("Iron", 1) }.available());
    assert!(Item { is_rental: true, is_active: true, ..item("Iron", 1) }.available());
}

#[test]
fn item_duplicate_copies_every_field() {
    let a = Item { pending_sale: true, is_rental: true, ..item("Gold", 4) };
    let b = a.duplicate();
    assert_eq!(b.name, "Gold");
    assert_eq!(b.count, 4);
    assert!(b.pending_sale && b.is_rental && !b.pending_destroy && !b.name_hidden && !b.is_active);
}

#[test]
fn pity_timers_default_and_updates() {
    let mut p = PityTimers::default();
    assert_eq!(
        (p.drop_counter_component, p.drop_counter_drone, p.drop_counter_weapon),
        (-5, -10, -10)
    );
    p.increment_counters_except(GearType::Drone);
    assert_eq!(
        (p.drop_counter_component, p.drop_counter_drone, p.drop_counter_weapon),
        (-4, -10, -9)
    );
    p.increment_counters_except(GearType::Resource);
    assert_eq!(
        (p.drop_counter_component, p.drop_counter_drone, p.drop_counter_weapon),
        (-3, -9, -8)
    );
    p.reset_counter_of(GearType::Weapon);
    assert_eq!(p.drop_counter_weapon, -10);
    p.reset_counter_of(GearType::Resource);
    assert_eq!(
        (p.drop_counter_component, p.drop_counter_drone, p.drop_counter_weapon),
        (-3, -9, -10)
    );
    p.reset_counters();
    assert_eq!(
        (p.drop_counter_component, p.drop_counter_drone, p.drop_counter_weapon),
        (-5, -10, -10)
    );
}

#[test]
fn gear_equippable_by_type() {
    let d = defs();
    assert!(d.gear_defs[0].equippable());
    assert!(d.gear_defs[3].equippable());
    assert!(!d.gear_defs[4].equippable());
    assert!(d.gear_defs[6].equippable());
}

#[test]
fn def_names_in_order() {
    let d = defs();
    assert_eq!(d.all_ship_names(), vec![s("Loan Star"), s("Brittle Star")]);
    assert_eq!(d.all_weapon_names(), vec![s("Pea Shooter"), s("Twin Gun")]);
}

#[test]
fn gear_position_finds_first_definition() {
    let mut d = defs();
    let mut second_iron = gear("Iron", GearType::Component, Rarity::Rare, false);
    second_iron.drop_rate = 99;
    d.gear_defs.push(second_iron);
    assert_eq!(d.gear_position(&s("Iron")), Some(4));
    assert_eq!(d.gear_position(&s("Dust")), Some(8));
    assert_eq!(d.gear_position(&s("Nothing")), None);
    let w = GameWorld::new(3, d);
    assert!(w.gear_def_by_name(&s("Iron")).gear_type == GearType::Resource);
}

#[test]
fn def_lookups_by_name() {
    let w = GameWorld::new(3, defs());
    assert!(w.ship_def_by_name(&s("Brittle Star")).kind == ShipKind::BrittleStar);
    assert_eq!(w.weapon_def_by_name(&s("Twin Gun")).magazine, 8);
    assert_eq!(w.mission_def_by_name(&s("Deep Mine")).mission_tier, 2);
    assert_eq!(w.def_storage.ship_position(&s("Loan Star")), 0);
    assert_eq!(w.def_storage.weapon_position(&s("Twin Gun")), 1);
    assert_eq!(w.def_storage.mission_position(&s("Meteor Storm")), 3);
}

// ---------------------------------------------------------------------------
// Cargo
// ---------------------------------------------------------------------------

#[test]
fn add_cargo_stacks_stackable_items() {
    let mut w = world_with(vec![]);
    w.add_cargo(vec![item("Iron", 2), item("Scope", 1), item("Iron", 3)]);
    assert_eq!(names(w.cargo()), vec![s("Iron"), s("Scope")]);
    assert_eq!(counts(w.cargo()), vec![5, 1]);
}

#[test]
fn add_cargo_appends_non_stackable_items() {
    let mut w = world_with(vec![item("Scope", 1)]);
    w.add_cargo(vec![item("Scope", 1), item("Gold", 2)]);
    assert_eq!(names(w.cargo()), vec![s("Scope"), s("Scope"), s("Gold")]);
    assert!(w.metaprog.stash.is_empty());
}

#[test]
fn add_stash_conserves_counts() {
    let mut w = world_with(vec![]);
    w.metaprog.stash = vec![item("Iron", 4), item("Relic", 1)];
    w.add_stash(vec![item("Iron", 6), item("Relic", 1)]);
    assert_eq!(total(&w.metaprog.stash, "Iron"), 10);
    assert_eq!(total(&w.metaprog.stash, "Relic"), 2);
    assert_eq!(w.metaprog.stash.len(), 3);
}

#[test]
fn take_cargo_partial_and_whole() {
    let mut w = world_with(vec![Item { is_active: true, ..item("Iron", 5) }]);
    let part = w.take_cargo(0, 2);
    assert_eq!((part.name.as_str(), part.count, part.is_active), ("Iron", 2, false));
    assert_eq!(counts(w.cargo()), vec![3]);
    let rest = w.take_cargo(0, 3);
    assert_eq!((rest.count, rest.is_active), (3, true));
    assert!(w.cargo().is_empty());
}

#[test]
fn take_cargo_more_than_held_takes_the_item() {
    let mut w = world_with(vec![item("Scope", 1), item("Iron", 2)]);
    let out = w.take_cargo(1, 10);
    assert_eq!(out.count, 2);
    assert_eq!(names(w.cargo()), vec![s("Scope")]);
}

#[test]
fn reveal_cargo_unhides() {
    let mut w = world_with(vec![hidden("Twin Gun")]);
    w.reveal_cargo(0);
    assert!(!w.cargo()[0].name_hidden);
}

#[test]
fn cleanup_drops_sold_and_lost_items() {
    let mut w = world_with(vec![
        item("Iron", 1),
        Item { pending_sale: true, ..item("Gold", 1) },
        Item { pending_destroy: true, ..item("Scope", 1) },
        item("Relic", 1),
    ]);
    w.metaprog.stash = vec![Item { pending_sale: true, ..item("Iron", 1) }, item("Dust", 2)];
    w.cleanup_cargo();
    assert_eq!(names(w.cargo()), vec![s("Iron"), s("Relic")]);
    w.cleanup_cargo();
    assert_eq!(names(w.cargo()), vec![s("Iron"), s("Relic")]);
    w.cleanup_stash();
    assert_eq!(names(&w.metaprog.stash), vec![s("Dust")]);
}

#[test]
fn pending_destroy_spares_indestructible_items() {
    let mut w = world_with(vec![
        item("Iron", 3),
        item("Relic", 1),
        Item { pending_sale: true, ..item("Scope", 1) },
        Item { is_rental: true, ..item("Loan Star", 1) },
    ]);
    w.cargo_pending_destroy();
    let c = w.cargo();
    assert!(c[0].pending_destroy && !c[0].pending_sale);
    assert!(!c[1].pending_destroy);
    assert!(c[2].pending_destroy && !c[2].pending_sale);
    assert!(!c[3].pending_destroy);
}

#[test]
fn pending_sale_marks_instasell_items() {
    let mut w = world_with(vec![
        item("Iron", 3),
        item("Scope", 1),
        Item { pending_destroy: true, ..item("Gold", 1) },
    ]);
    w.cargo_pending_sale();
    let c = w.cargo();
    assert!(c[0].pending_sale);
    assert!(!c[1].pending_sale);
    assert!(!c[2].pending_sale && c[2].pending_destroy);
}

#[test]
fn equipped_slots_list_available_items() {
    let w = world_with(vec![
        Item { is_rental: true, ..item("Loan Star", 1) },
        hidden("Twin Gun"),
        item("Pea Shooter", 1),
        item("Brittle Star", 1),
        item("Iron", 2),
    ]);
    assert_eq!(w.equipped_weapon_slots(), vec![(s("Pea Shooter"), 2)]);
    assert_eq!(
        w.equipped_ship_slots(),
        vec![(s("Loan Star"), 0), (s("Brittle Star"), 3)]
    );
    assert_eq!(w.maybe_equipped_ship_name(), Some(s("Loan Star")));
    assert_eq!(w.maybe_equipped_weapon_name(), Some(s("Pea Shooter")));
    assert_eq!(w.maybe_equipped_ship_idx(), Some(0));
    assert_eq!(w.maybe_equipped_weapon_idx(), Some(2));
}

#[test]
fn no_equipped_weapon_when_none_available() {
    let w = world_with(vec![item("Iron", 1), Item { pending_sale: true, ..item("Twin Gun", 1) }]);
    assert_eq!(w.maybe_equipped_weapon_name(), None);
    assert_eq!(w.maybe_equipped_weapon_idx(), None);
    assert!(w.equipped_ship_slots().is_empty());
}

#[test]
fn activation_marks_first_drone_and_first_weapon_only() {
    let mut w = world_with(vec![
        Item { is_active: true, ..item("Iron", 1) },
        Item { pending_destroy: true, ..item("Brittle Star", 1) },
        item("Twin Gun", 1),
        item("Loan Star", 1),
        Item { is_active: true, ..item("Pea Shooter", 1) },
        item("Brittle Star", 1),
    ]);
    w.try_set_active_ship_and_weapon();
    assert_eq!(active(&w), vec![2, 3]);
    w.try_set_active_ship_and_weapon();
    assert_eq!(active(&w), vec![2, 3]);
}

// ---------------------------------------------------------------------------
// Careers and the cargo screen
// ---------------------------------------------------------------------------

#[test]
fn new_game_starts_a_fresh_career() {
    let w = new_game(9, defs());
    assert_eq!(w.metaprog.current_day, 1);
    assert_eq!(w.metaprog.day_rent_due, 8);
    assert_eq!(w.cfg_ship_choice(), "Loan Star");
    assert_eq!(w.cfg_weapon_choice(), "Pea Shooter");
    assert_eq!(names(w.cargo()), vec![s("Loan Star"), s("Pea Shooter")]);
    assert!(w.cargo().iter().all(|i| i.is_rental && i.count == 1 && !i.is_active));
    assert!(w.metaprog.stash.is_empty());
}

#[test]
fn start_career_discards_the_old_career() {
    let mut w = new_game(9, defs());
    w.metaprog.current_day = 30;
    w.metaprog.stash = vec![item("Relic", 1)];
    w.metaprog.cfg_ship_choice = s("Brittle Star");
    w.add_cargo(vec![item("Iron", 3)]);
    w.start_career();
    assert_eq!(w.metaprog.current_day, 1);
    assert_eq!(w.metaprog.day_rent_due, 8);
    assert_eq!(names(w.cargo()), vec![s("Loan Star"), s("Pea Shooter")]);
    assert!(w.metaprog.stash.is_empty());
    assert_eq!(w.cfg_ship_choice(), "Loan Star");
}

#[test]
fn starter_mission_is_found_by_tag() {
    let d = defs();
    assert_eq!(d.starter_mission_index(), Some(0));
    let mut e = defs();
    e.mission_defs.remove(0);
    assert_eq!(e.starter_mission_index(), None);
}

#[test]
fn interact_reveals_a_hidden_item() {
    let mut w = world_with(vec![item("Loan Star", 1), hidden("Twin Gun")]);
    w.cargo_selected_idx = 5;
    w.handle_cargo_interact();
    assert!(!w.cargo()[1].name_hidden);
    assert_eq!(active(&w), vec![0, 1]);
    assert!(w.metaprog.stash.is_empty());
}

#[test]
fn interact_stows_one_piece_and_conserves_counts() {
    let mut w = world_with(vec![item("Iron", 3), item("Scope", 1)]);
    w.metaprog.stash = vec![item("Iron", 10)];
    w.handle_cargo_interact();
    assert_eq!(total(w.cargo(), "Iron"), 2);
    assert_eq!(total(&w.metaprog.stash, "Iron"), 11);
    assert_eq!(w.metaprog.stash.len(), 1);
    w.cargo_selected_idx = 1;
    w.handle_cargo_interact();
    assert_eq!(names(w.cargo()), vec![s("Iron")]);
    assert_eq!(names(&w.metaprog.stash), vec![s("Iron"), s("Scope")]);
}

#[test]
fn interact_leaves_rentals_and_lost_items() {
    let mut w = new_game(2, defs());
    w.handle_cargo_interact();
    assert_eq!(names(w.cargo()), vec![s("Loan Star"), s("Pea Shooter")]);
    assert!(w.metaprog.stash.is_empty());
    let mut v = world_with(vec![Item { pending_destroy: true, ..item("Scope", 1) }]);
    v.handle_cargo_interact();
    assert_eq!(v.cargo().len(), 1);
    assert!(v.metaprog.stash.is_empty());
}

#[test]
fn interact_on_empty_cargo_does_nothing() {
    let mut w = world_with(vec![]);
    w.handle_cargo_interact();
    assert!(w.cargo().is_empty() && w.metaprog.stash.is_empty());
}

#[test]
fn scan_offers_only_eligible_missions() {
    let mut w = new_game(3, defs());
    // day 1: tier 1 at most; the starter and the offered mission are out
    let pick = w.scan_pick_mission(&s("Training"), &None);
    assert_eq!(pick, Some(1));
    let mut v = new_game(3, defs());
    let none = v.scan_pick_mission(&s("Belt Run"), &None);
    assert_eq!(none, None);
    let mut fresh = new_game(3, defs());
    assert_eq!(v.rng.next_u32(), fresh.rng.next_u32());
}

#[test]
fn scan_tier_grows_with_days() {
    for seed in 1..40u32 {
        let mut w = new_game(seed, defs());
        w.metaprog.current_day = 3;
        let pick = w.scan_pick_mission(&s("Training"), &Some(s("Belt Run"))).unwrap();
        assert_eq!(pick, 2);
        let mut v = new_game(seed, defs());
        v.metaprog.current_day = 6;
        let p = v.scan_pick_mission(&s("Deep Mine"), &None).unwrap();
        assert!(p == 1 || p == 3);
    }
}

#[test]
fn scan_pick_draws_from_the_generator() {
    // seed 3 draws 1 out of two eligible missions (Belt Run, Deep Mine)
    let mut w = new_game(3, defs());
    w.metaprog.current_day = 4;
    assert_eq!(w.scan_pick_mission(&s("Training"), &None), Some(2));
    // seed 8 draws 0
    let mut v = new_game(8, defs());
    v.metaprog.current_day = 4;
    assert_eq!(v.scan_pick_mission(&s("Training"), &None), Some(1));
}

#[test]
fn active_cargo_gear_lists_equippable_known_items() {
    let w = world_with(vec![
        item("Iron", 4),
        item("Scope", 2),
        hidden("Twin Gun"),
        Item { pending_sale: true, ..item("Brittle Star", 1) },
        item("Relic", 1),
        item("Unknown Thing", 1),
    ]);
    assert_eq!(w.active_cargo_gear(), vec![(6, 2), (7, 1)]);
}

#[test]
fn settling_a_lost_run() {
    let mut w = new_game(4, defs());
    w.add_cargo(vec![item("Iron", 3), item("Relic", 1), item("Scope", 1)]);
    w.metaprog.cfg_ship_choice = s("Brittle Star");
    w.metaprog.cfg_weapon_choice = s("Twin Gun");
    w.settle_run_cargo(true, vec![item("Gold", 5)]);
    let c = w.cargo();
    assert_eq!(names(c), vec![s("Loan Star"), s("Pea Shooter"), s("Iron"), s("Relic"), s("Scope")]);
    assert!(!c[0].pending_destroy && !c[1].pending_destroy);
    assert!(c[2].pending_destroy && !c[2].pending_sale);
    assert!(!c[3].pending_destroy);
    assert!(c[4].pending_destroy);
    assert_eq!(w.cfg_ship_choice(), "Loan Star");
    assert_eq!(w.cfg_weapon_choice(), "Pea Shooter");
    assert_eq!(w.metaprog.current_day, 2);
}

#[test]
fn settling_an_extracted_run() {
    let mut w = new_game(4, defs());
    w.add_cargo(vec![item("Iron", 3)]);
    w.metaprog.cfg_weapon_choice = s("Twin Gun");
    w.settle_run_cargo(false, vec![item("Iron", 2), item("Scope", 1)]);
    let c = w.cargo();
    assert_eq!(names(c), vec![s("Loan Star"), s("Pea Shooter"), s("Iron"), s("Scope")]);
    assert_eq!(c[2].count, 5);
    assert!(c[2].pending_sale);
    assert!(!c[3].pending_sale);
    assert_eq!(w.cfg_weapon_choice(), "Twin Gun");
    assert_eq!(w.metaprog.current_day, 2);
}

#[test]
fn trade_toggles_the_sale_mark() {
    let mut w = world_with(vec![item("Scope", 2)]);
    assert!(w.try_trade_cargo(0));
    assert!(w.cargo()[0].pending_sale);
    assert!(!w.try_trade_cargo(0));
    assert!(!w.cargo()[0].pending_sale);
}

#[test]
fn sell_puts_the_selected_item_up_for_sale() {
    let mut w = new_game(4, defs());
    w.add_cargo(vec![item("Scope", 1)]);
    w.cargo_selected_idx = 2;
    assert_eq!(w.handle_cargo_sell(), Some(2));
    assert!(w.cargo()[2].pending_sale);
    assert_eq!(active(&w), vec![0, 1]);
}

#[test]
fn sell_refuses_what_cannot_be_sold() {
    // rentals
    let mut w = new_game(4, defs());
    assert_eq!(w.handle_cargo_sell(), None);
    // hidden items
    let mut h = world_with(vec![hidden("Twin Gun")]);
    assert_eq!(h.handle_cargo_sell(), None);
    assert!(!h.cargo()[0].pending_sale);
    // resources are not equippable
    let mut r = world_with(vec![item("Iron", 3)]);
    assert_eq!(r.handle_cargo_sell(), None);
    // worthless gear
    let mut d = world_with(vec![item("Dust", 1)]);
    assert_eq!(d.handle_cargo_sell(), None);
    // already for sale
    let mut a = world_with(vec![Item { pending_sale: true, ..item("Scope", 1) }]);
    assert_eq!(a.handle_cargo_sell(), None);
    assert!(a.cargo()[0].pending_sale);
    // nothing in the hold
    let mut e = world_with(vec![]);
    assert_eq!(e.handle_cargo_sell(), None);
}

#[test]
fn rent_not_due_changes_nothing() {
    let mut w = new_game(3, defs());
    assert!(w.settle_rent(false) == RentOutcome::NotDue);
    assert_eq!(w.metaprog.day_rent_due, 8);
    assert_eq!(w.cargo().len(), 2);
}

#[test]
fn rent_paid_moves_the_due_date() {
    let mut w = new_game(3, defs());
    w.metaprog.current_day = 9;
    w.add_cargo(vec![item("Relic", 1)]);
    assert!(w.settle_rent(true) == RentOutcome::Paid);
    assert_eq!(w.metaprog.day_rent_due, 16);
    assert_eq!(w.metaprog.current_day, 9);
    assert_eq!(w.cargo().len(), 3);
}

#[test]
fn unpaid_rent_starts_the_career_over() {
    let mut w = new_game(3, defs());
    w.metaprog.current_day = 8;
    w.add_cargo(vec![item("Relic", 1)]);
    w.metaprog.stash = vec![item("Iron", 2)];
    let out = w.settle_rent(false);
    assert!(out == RentOutcome::Evicted { locale: 3 });
    assert_eq!(w.metaprog.current_day, 1);
    assert_eq!(w.metaprog.day_rent_due, 8);
    assert_eq!(names(w.cargo()), vec![s("Loan Star"), s("Pea Shooter")]);
    assert!(w.metaprog.stash.is_empty());
}

#[test]
fn prepare_deploy_cleans_and_finds_the_chosen_defs() {
    let mut w = new_game(3, defs());
    w.add_cargo(vec![item("Brittle Star", 1), Item { pending_sale: true, ..item("Iron", 1) }]);
    w.metaprog.stash = vec![Item { pending_destroy: true, ..item("Scope", 1) }];
    w.metaprog.cfg_ship_choice = s("Brittle Star");
    w.metaprog.cfg_weapon_choice = s("Pea Shooter");
    assert_eq!(w.prepare_deploy(), (1, 0));
    assert_eq!(names(w.cargo()), vec![s("Loan Star"), s("Pea Shooter"), s("Brittle Star")]);
    assert!(w.metaprog.stash.is_empty());
}

// ---------------------------------------------------------------------------
// Cargo screen cursor and choices
// ---------------------------------------------------------------------------

#[test]
fn scroll_selection_stays_on_the_rows() {
    let mut w = world_with(vec![item("Iron", 1), item("Scope", 1), item("Relic", 1)]);
    w.scroll_cargo_selection(true);
    assert_eq!(w.cargo_selected_idx, 0);
    w.scroll_cargo_selection(false);
    assert_eq!(w.cargo_selected_idx, 1);
    w.scroll_cargo_selection(false);
    w.scroll_cargo_selection(false);
    assert_eq!(w.cargo_selected_idx, 2);
    w.cargo_selected_idx = 10;
    w.scroll_cargo_selection(true);
    assert_eq!(w.cargo_selected_idx, 2);
    let mut e = world_with(vec![]);
    e.cargo_selected_idx = 4;
    e.scroll_cargo_selection(false);
    assert_eq!(e.cargo_selected_idx, 4);
}

#[test]
fn cargo_dial_wraps_around() {
    let mut w = world_with(vec![item("Iron", 1), item("Scope", 1), item("Relic", 1)]);
    w.cargo_selected_idx = 2;
    w.cargo_dial_next();
    assert_eq!(w.cargo_selected_idx, 0);
    w.cargo_dial_next();
    assert_eq!(w.cargo_selected_idx, 1);
    w.cargo_selected_idx = 7;
    w.cargo_dial_next();
    assert_eq!(w.cargo_selected_idx, 2);
    let mut e = world_with(vec![]);
    e.cargo_selected_idx = 3;
    e.cargo_dial_next();
    assert_eq!(e.cargo_selected_idx, 3);
}

#[test]
fn scroll_window_follows_the_selection() {
    let mut w = world_with(vec![]);
    w.cargo_selected_idx = 12;
    w.sync_cargo_scroll();
    assert_eq!(w.cargo_scroll_offset, 4);
    w.cargo_selected_idx = 8;
    w.sync_cargo_scroll();
    assert_eq!(w.cargo_scroll_offset, 4);
    w.cargo_selected_idx = 2;
    w.sync_cargo_scroll();
    assert_eq!(w.cargo_scroll_offset, 2);
    w.cargo_scroll_offset = -3;
    w.cargo_selected_idx = 5;
    w.sync_cargo_scroll();
    assert_eq!(w.cargo_scroll_offset, 0);
    for sel in 0..40usize {
        w.cargo_selected_idx = sel;
        w.sync_cargo_scroll();
        let off = w.cargo_scroll_offset as usize;
        assert!(off <= sel && sel < off + 9);
    }
}

#[test]
fn cycle_weapon_choice_walks_the_equipped_weapons() {
    let mut w = world_with(vec![
        item("Loan Star", 1),
        item("Pea Shooter", 1),
        hidden("Twin Gun"),
        item("Twin Gun", 1),
    ]);
    w.metaprog.cfg_weapon_choice = s("Pea Shooter");
    w.cycle_weapon_choice();
    assert_eq!(w.cfg_weapon_choice(), "Twin Gun");
    assert_eq!(active(&w), vec![0, 1]);
    w.cycle_weapon_choice();
    assert_eq!(w.cfg_weapon_choice(), "Pea Shooter");
    w.metaprog.cfg_weapon_choice = s("Laser");
    w.cycle_weapon_choice();
    assert_eq!(w.cfg_weapon_choice(), "Twin Gun");
}

#[test]
fn cycle_choice_needs_two_equipped_items() {
    let mut w = world_with(vec![item("Loan Star", 1), item("Pea Shooter", 1)]);
    w.metaprog.cfg_weapon_choice = s("Twin Gun");
    w.metaprog.cfg_ship_choice = s("Brittle Star");
    w.cycle_weapon_choice();
    w.cycle_ship_choice();
    assert_eq!(w.cfg_weapon_choice(), "Twin Gun");
    assert_eq!(w.cfg_ship_choice(), "Brittle Star");
    assert!(active(&w).is_empty());
}

#[test]
fn cycle_ship_choice_walks_the_equipped_drones() {
    let mut w = world_with(vec![
        item("Brittle Star", 1),
        item("Loan Star", 1),
        item("Pea Shooter", 1),
    ]);
    w.metaprog.cfg_ship_choice = s("Loan Star");
    w.cycle_ship_choice();
    assert_eq!(w.cfg_ship_choice(), "Brittle Star");
    w.cycle_ship_choice();
    assert_eq!(w.cfg_ship_choice(), "Loan Star");
    assert_eq!(active(&w), vec![0, 2]);
}

#[test]
fn button_actions_are_distinct() {
    let all = [
        ButtonAction::Deploy,
        ButtonAction::Extract,
        ButtonAction::Scan,
        ButtonAction::CargoDial,
        ButtonAction::CargoInteract,
        ButtonAction::CargoSell,
        ButtonAction::VendAmmo,
        ButtonAction::VendFuel,
    ];
    for (i, a) in all.iter().enumerate() {
        for (j, b) in all.iter().enumerate() {
            assert_eq!(i == j, a == b);
        }
    }
}

// ---------------------------------------------------------------------------
// Loot
// ---------------------------------------------------------------------------

fn tier_one_candidates() -> Vec<String> {
    vec![s("Brittle Star"), s("Twin Gun"), s("Iron"), s("Scope")]
}

#[test]
fn no_rolls_no_loot() {
    let mut w = GameWorld::new(8, defs());
    let items = w.loot_drops(0, 1);
    assert!(items.is_empty());
    let items = w.loot_drops(-3, 2);
    assert!(items.is_empty());
    let mut fresh = GameWorld::new(8, defs());
    assert_eq!(w.rng.next_u32(), fresh.rng.next_u32());
    assert_eq!(w.pity_timers.drop_counter_drone, -10);
}

#[test]
fn loot_comes_from_droppable_gear() {
    for seed in 1..200u32 {
        let mut w = GameWorld::new(seed, defs());
        let items = w.loot_drops(4, 1);
        assert!(items.len() <= 4);
        for it in &items {
            assert!(tier_one_candidates().contains(&it.name));
            assert_eq!(it.count, 1);
            assert_eq!(it.name_hidden, it.name != "Iron");
            assert!(!it.pending_sale && !it.pending_destroy && !it.is_active && !it.is_rental);
        }
    }
}

#[test]
fn tier_limited_gear_drops_only_on_its_tiers() {
    for seed in 1..300u32 {
        let mut w = GameWorld::new(seed, defs());
        for it in w.loot_drops(6, 1) {
            assert_ne!(it.name, "Gold");
        }
        let mut v = GameWorld::new(seed, defs());
        for it in v.loot_drops(6, 3) {
            assert!(it.name == "Gold" || tier_one_candidates().contains(&it.name));
        }
    }
}

#[test]
fn at_most_one_drone_or_weapon_per_asteroid() {
    for seed in 1..300u32 {
        let mut w = GameWorld::new(seed, defs());
        w.pity_timers.drop_counter_drone = 40;
        w.pity_timers.drop_counter_weapon = 40;
        let items = w.loot_drops(8, 2);
        let temporal = items
            .iter()
            .filter(|i| i.name == "Brittle Star" || i.name == "Twin Gun")
            .count();
        assert!(temporal <= 1);
    }
}

#[test]
fn loot_is_determined_by_the_seed() {
    let mut a = GameWorld::new(1234, defs());
    let mut b = GameWorld::new(1234, defs());
    let ia = a.loot_drops(7, 2);
    let ib = b.loot_drops(7, 2);
    assert_eq!(names(&ia), names(&ib));
    assert_eq!(a.rng.next_u32(), b.rng.next_u32());
    assert_eq!(a.pity_timers.drop_counter_component, b.pity_timers.drop_counter_component);
}

#[test]
fn a_drop_resets_its_pity_counter() {
    for seed in 1..100u32 {
        let mut w = GameWorld::new(seed, defs());
        let items = w.loot_drops(1, 1);
        let p = &w.pity_timers;
        let got = (p.drop_counter_component, p.drop_counter_drone, p.drop_counter_weapon);
        match items.first().map(|i| i.name.as_str()) {
            None => assert_eq!(got, (-5, -10, -10)),
            Some("Iron") => assert_eq!(got, (-4, -9, -9)),
            Some("Scope") => assert_eq!(got, (-5, -9, -9)),
            Some("Brittle Star") => assert_eq!(got, (-4, -10, -9)),
            Some("Twin Gun") => assert_eq!(got, (-4, -9, -10)),
            Some(other) => panic!("unexpected drop {}", other),
        }
    }
}

#[test]
fn loot_rolls_within_bounds_are_known_safe() {
    let w = GameWorld::new(1, defs());
    assert!(w.loot_drops_fit(5));
    assert!(w.loot_drops_fit(1000));
    assert!(w.loot_drops_fit(-7));
    assert!(!w.loot_drops_fit(1001));
    let mut v = GameWorld::new(1, defs());
    v.pity_timers.drop_counter_drone = 5000;
    assert!(!v.loot_drops_fit(1));
    let mut d = defs();
    d.gear_defs[0].drop_rate = 2_000_000;
    let u = GameWorld::new(1, d);
    assert!(!u.loot_drops_fit(1));
    let mut big = GameWorld::new(2, defs());
    assert!(big.loot_drops_fit(1000));
    let items = big.loot_drops(1000, 3);
    assert!(items.len() <= 1000);
}

#[test]
fn cursor_reads_rows_as_i32() {
    let mut w = world_with(vec![item("Iron", 1), item("Scope", 1), item("Relic", 1)]);
    w.cargo_selected_idx = 0xFFFF_FFFF;
    w.cargo_dial_next();
    assert_eq!(w.cargo_selected_idx, 0);
    w.cargo_selected_idx = 0xFFFF_FFFF;
    w.scroll_cargo_selection(false);
    assert_eq!(w.cargo_selected_idx, 0);
    w.cargo_selected_idx = 0xFFFF_FFFE;
    w.scroll_cargo_selection(true);
    assert_eq!(w.cargo_selected_idx, 0);
    w.cargo_selected_idx = 0x1_0000_0001;
    w.cargo_dial_next();
    assert_eq!(w.cargo_selected_idx, 2);
}
