use extracteroid::weapon::{should_fire, turn_mode, TurnMode, WeaponEvent, WeaponState};
use extracteroid::world::ShootKind;

#[test]
fn weapon_starts_full() {
    let s = WeaponState::new(12);
    assert_eq!((s.ammo, s.chamber), (12, 0));
    assert!(!s.reloading());
    assert!(s.loaded());
}

#[test]
fn empty_magazine_starts_reload_then_refills() {
    let mut s = WeaponState { ammo: 0, chamber: 2 };
    assert!(s.tick(6, true, true) == WeaponEvent::ReloadStarted);
    assert!(s.reloading());
    assert_eq!(s.chamber, 2);
    assert!(s.tick(6, false, true) == WeaponEvent::Idle);
    assert!(s.reloading());
    assert!(s.tick(6, true, false) == WeaponEvent::Refilled);
    assert_eq!((s.ammo, s.chamber), (6, 0));
}

#[test]
fn idle_refill_tops_up_partial_magazine() {
    let mut s = WeaponState { ammo: 2, chamber: 4 };
    assert!(s.tick(10, false, false) == WeaponEvent::Idle);
    assert_eq!(s.ammo, 2);
    assert!(s.tick(10, false, true) == WeaponEvent::Refilled);
    assert_eq!((s.ammo, s.chamber), (10, 0));
}

#[test]
fn default_fire_spends_one_round() {
    let mut s = WeaponState::new(2);
    assert_eq!(s.fire(ShootKind::Default), 1);
    assert_eq!(s.fire(ShootKind::Default), 1);
    assert_eq!(s.fire(ShootKind::Default), 0);
    assert_eq!(s.ammo, 0);
}

#[test]
fn twin_fire_uses_both_wings_when_possible() {
    let mut s = WeaponState::new(3);
    assert_eq!(s.fire(ShootKind::TwinShoot), 2);
    assert_eq!(s.ammo, 1);
    assert_eq!(s.fire(ShootKind::TwinWideShoot), 1);
    assert_eq!(s.ammo, 0);
    assert_eq!(s.fire(ShootKind::TwinShoot), 0);
}

#[test]
fn chambered_fire_starts_a_burst() {
    let mut s = WeaponState::new(9);
    assert_eq!(s.fire(ShootKind::ChamberShootThree), 1);
    assert_eq!((s.ammo, s.chamber), (8, 2));
    assert_eq!(s.fire(ShootKind::ChamberShootThree), 1);
    assert_eq!((s.ammo, s.chamber), (7, 2));
    let mut f = WeaponState::new(9);
    assert_eq!(f.fire(ShootKind::ChamberShootFive), 1);
    assert_eq!(f.chamber, 4);
}

#[test]
fn firing_while_reloading_does_nothing() {
    let mut s = WeaponState { ammo: -1, chamber: 0 };
    assert_eq!(s.fire(ShootKind::TwinShoot), 0);
    assert_eq!((s.ammo, s.chamber), (-1, 0));
}

#[test]
fn magazine_stays_within_bounds_over_a_fight() {
    let kinds = [
        ShootKind::Default,
        ShootKind::TwinShoot,
        ShootKind::TwinWideShoot,
        ShootKind::ChamberShootThree,
        ShootKind::ChamberShootFive,
    ];
    for kind in kinds {
        let mut s = WeaponState::new(7);
        for step in 0..100 {
            let before = s.ammo;
            let shots = s.fire(kind);
            assert!(shots as i32 <= before.max(0));
            s.tick(7, step % 3 == 0, false);
            assert!(s.ammo >= -1 && s.ammo <= 7);
        }
    }
}

#[test]
fn vendor_rounds_needed_and_refill() {
    let s = WeaponState { ammo: 4, chamber: 0 };
    assert_eq!(s.rounds_needed(10), 6);
    let r = WeaponState { ammo: -1, chamber: 2 };
    assert_eq!(r.rounds_needed(10), 10);
    let mut f = WeaponState { ammo: 10, chamber: 3 };
    assert_eq!(f.rounds_needed(10), 0);
    f.refill(12);
    assert_eq!((f.ammo, f.chamber), (12, 0));
}

#[test]
fn turn_mode_priorities() {
    assert!(turn_mode(false, 5, true) == TurnMode::Locked);
    assert!(turn_mode(true, 0, true) == TurnMode::Reloading);
    assert!(turn_mode(true, -1, false) == TurnMode::Reloading);
    assert!(turn_mode(true, 3, true) == TurnMode::Recoiling);
    assert!(turn_mode(true, 3, false) == TurnMode::Free);
}

#[test]
fn fire_decision() {
    assert!(should_fire(true, 0, true, true));
    assert!(should_fire(false, 2, true, true));
    assert!(!should_fire(false, 0, true, true));
    assert!(!should_fire(true, 2, false, true));
    assert!(!should_fire(true, 2, true, false));
}
