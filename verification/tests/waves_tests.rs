use extracteroid::rng::Rng;
use extracteroid::waves::{is_boss_wave, next_wave, roll_asteroid, wave_caps, AsteroidRoll, WaveCaps};
use extracteroid::world::WaveKind;

fn caps(kind: WaveKind, sides: i32) -> (u8, i32, i32, i32) {
    let c = wave_caps(kind, sides);
    (c.sides_cap, c.armor_cap, c.glitch_chance, c.base_value)
}

#[test]
fn wave_caps_starter_bands() {
    assert_eq!(caps(WaveKind::Starter, 10), (6, 0, 1, 1));
    assert_eq!(caps(WaveKind::Starter, 20), (6, 0, 1, 1));
    assert_eq!(caps(WaveKind::Starter, 21), (8, 1, 2, 1));
    assert_eq!(caps(WaveKind::Starter, 32), (12, 2, 4, 1));
    assert_eq!(caps(WaveKind::Starter, 43), (16, 3, 8, 1));
    assert_eq!(caps(WaveKind::Starter, 1000), (16, 3, 8, 1));
}

#[test]
fn wave_caps_other_kinds() {
    assert_eq!(caps(WaveKind::Mining, 0), (9, 0, 2, 2));
    assert_eq!(caps(WaveKind::Mining, 43), (21, 3, 16, 2));
    assert_eq!(caps(WaveKind::Bounty, 25), (12, 3, 2, 1));
    assert_eq!(caps(WaveKind::Belt, 31), (5, 1, 1, 1));
    assert_eq!(caps(WaveKind::Belt, -5), (4, 1, 0, 1));
    assert_eq!(caps(WaveKind::Barren, 40), (5, 0, 20, 2));
    assert_eq!(caps(WaveKind::Meteor, 50), (3, 0, 65, 2));
    assert_eq!(caps(WaveKind::Meteor, 0), (3, 0, 35, 2));
}

#[test]
fn wave_caps_never_ease_as_sides_grow() {
    let kinds = [
        WaveKind::Starter,
        WaveKind::Mining,
        WaveKind::Bounty,
        WaveKind::Belt,
        WaveKind::Barren,
        WaveKind::Meteor,
    ];
    for kind in kinds {
        let mut prev = caps(kind, -10);
        for sides in -9..80 {
            let cur = caps(kind, sides);
            assert!(cur.0 >= prev.0 && cur.1 >= prev.1 && cur.2 >= prev.2);
            assert_eq!(cur.3, prev.3);
            assert!(cur.0 >= 3);
            prev = cur;
        }
    }
}

#[test]
fn boss_wave_only_for_starter_and_mining() {
    assert!(is_boss_wave(WaveKind::Starter, 5, 5));
    assert!(is_boss_wave(WaveKind::Mining, 3, 3));
    assert!(!is_boss_wave(WaveKind::Starter, 4, 5));
    assert!(!is_boss_wave(WaveKind::Bounty, 5, 5));
    assert!(!is_boss_wave(WaveKind::Meteor, 2, 2));
}

#[test]
fn next_wave_counts_up_to_the_last() {
    assert_eq!(next_wave(0, 3, true), Some(1));
    assert_eq!(next_wave(2, 3, true), Some(3));
    assert_eq!(next_wave(3, 3, true), None);
    assert_eq!(next_wave(1, 3, false), None);
    assert_eq!(next_wave(i32::MAX - 1, i32::MAX, true), Some(i32::MAX));
}

#[test]
fn roll_asteroid_exact_draws() {
    let mut r = Rng::new(12345);
    let c = wave_caps(WaveKind::Starter, 10);
    let a = roll_asteroid(&mut r, c);
    // glitch roll 30 is not below 1; then 3 + (draw % 4) sides; then armour 0
    assert_eq!((a.sides, a.side_cost, a.value, a.armor), (6, 6, 1, 0));
    assert_eq!(r.next_u32(), 1955480042);
}

#[test]
fn roll_asteroid_always_glitches_at_full_chance() {
    let mut r = Rng::new(9);
    let c = WaveCaps { sides_cap: 8, armor_cap: 2, glitch_chance: 100, base_value: 1 };
    for _ in 0..200 {
        let a = roll_asteroid(&mut r, c);
        assert_eq!((a.sides, a.side_cost, a.value), (1, 10, 10));
        assert!(a.armor >= 0 && a.armor <= 2);
    }
}

#[test]
fn roll_asteroid_respects_caps() {
    let mut r = Rng::new(4242);
    let c = WaveCaps { sides_cap: 7, armor_cap: 3, glitch_chance: 0, base_value: 2 };
    for _ in 0..500 {
        let a = roll_asteroid(&mut r, c);
        assert!(a.sides >= 3 && a.sides <= 7);
        assert_eq!(a.side_cost, a.sides as i32);
        assert_eq!(a.value, 2);
        assert!(a.armor >= 0 && a.armor <= 3);
        assert!(a.cost() >= 3);
    }
}

#[test]
fn roll_asteroid_small_cap_gives_triangles() {
    let mut r = Rng::new(1);
    let c = WaveCaps { sides_cap: 2, armor_cap: -4, glitch_chance: 0, base_value: 1 };
    let a = roll_asteroid(&mut r, c);
    assert_eq!(a.sides, 3);
    assert_eq!(a.armor, 0);
}

#[test]
fn asteroid_cost_and_reward_add_armour() {
    let a = AsteroidRoll { sides: 5, side_cost: 5, value: 2, armor: 3 };
    assert_eq!(a.cost(), 8);
    assert_eq!(a.reward(), 5);
}

#[test]
fn spawning_budget_runs_out() {
    let mut r = Rng::new(55);
    let c = wave_caps(WaveKind::Bounty, 60);
    let mut budget: i32 = 60;
    let mut spawned = 0;
    while budget > 0 {
        let a = roll_asteroid(&mut r, c);
        budget -= a.cost();
        spawned += 1;
        assert!(spawned <= 20);
    }
    assert!(spawned >= 1);
}
