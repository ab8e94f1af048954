use vstd::prelude::*;

use crate::world::ShootKind;

verus! {

// ---------------------------------------------------------------------------
// The magazine of the main weapon
// ---------------------------------------------------------------------------

/// The discrete state of the main weapon: rounds left in the magazine (-1 while
/// reloading) and whether a burst is chambered (above zero once a chambered
/// weapon has started a burst, until the next reload).
#[derive(Clone, Copy, PartialEq, Eq, Structural)]
pub struct WeaponState {
    pub ammo: i32,
    pub chamber: i32,
}

/// A weapon state fits a magazine of `magazine` rounds: between reloading (-1)
/// and full.
pub open spec fn fits_magazine(s: WeaponState, magazine: i32) -> bool {
    -1 <= s.ammo <= magazine && s.chamber >= 0
}

/// What a tick of the weapon did.
#[derive(Clone, Copy, PartialEq, Eq, Structural)]
pub enum WeaponEvent {
    /// Nothing changed.
    Idle,
    /// The magazine ran dry and a reload began.
    ReloadStarted,
    /// The magazine was filled again.
    Refilled,
}

/// The weapon's state after a tick, and what happened: an empty magazine starts
/// reloading; a reload completes once `reload_done`; a weapon that has been idle
/// for a reload's time refills when `idle_refill` (the weapon diagnostics gear).
pub open spec fn weapon_tick(
    s: WeaponState,
    magazine: i32,
    reload_done: bool,
    idle_refill: bool,
) -> (WeaponState, WeaponEvent) {
    if s.ammo == 0 {
        (WeaponState { ammo: -1i32, ..s }, WeaponEvent::ReloadStarted)
    } else if s.ammo == -1 {
        if reload_done {
            (WeaponState { ammo: magazine, chamber: 0 }, WeaponEvent::Refilled)
        } else {
            (s, WeaponEvent::Idle)
        }
    } else if idle_refill {
        (WeaponState { ammo: magazine, chamber: 0 }, WeaponEvent::Refilled)
    } else {
        (s, WeaponEvent::Idle)
    }
}

/// The rounds fired by one trigger pull of a weapon of `kind`, and the state it
/// leaves: nothing without ammunition; twin weapons fire a second round from the
/// other wing when one is left; chambered weapons start a burst of three or five.
pub open spec fn weapon_fire(s: WeaponState, kind: ShootKind) -> (u8, WeaponState) {
    if s.ammo <= 0 {
        (0, s)
    } else {
        match kind {
            ShootKind::Default => (1, WeaponState { ammo: (s.ammo - 1) as i32, ..s }),
            ShootKind::TwinShoot | ShootKind::TwinWideShoot => if s.ammo >= 2 {
                (2, WeaponState { ammo: (s.ammo - 2) as i32, ..s })
            } else {
                (1, WeaponState { ammo: (s.ammo - 1) as i32, ..s })
            },
            ShootKind::ChamberShootThree => (
                1,
                WeaponState {
                    ammo: (s.ammo - 1) as i32,
                    chamber: if s.chamber == 0 {
                        2
                    } else {
                        s.chamber
                    },
                },
            ),
            ShootKind::ChamberShootFive => (
                1,
                WeaponState {
                    ammo: (s.ammo - 1) as i32,
                    chamber: if s.chamber == 0 {
                        4
                    } else {
                        s.chamber
                    },
                },
            ),
        }
    }
}

impl WeaponState {
    /// A weapon fresh from its definition: a full magazine, nothing chambered.
    pub fn new(magazine: i32) -> (s: Self)
        ensures
            s == (WeaponState { ammo: magazine, chamber: 0 }),
    {
        WeaponState { ammo: magazine, chamber: 0 }
    }

    /// Whether the weapon is reloading.
    pub fn reloading(&self) -> (r: bool)
        ensures
            r == (self.ammo == -1),
    {
        self.ammo == -1
    }

    /// Whether a round is left to fire.
    pub fn loaded(&self) -> (r: bool)
        ensures
            r == (self.ammo > 0),
    {
        self.ammo > 0
    }

    /// Advances the magazine by one tick; see `weapon_tick`.
    pub fn tick(&mut self, magazine: i32, reload_done: bool, idle_refill: bool) -> (e: WeaponEvent)
        ensures
            (*final(self), e) == weapon_tick(*old(self), magazine, reload_done, idle_refill),
            magazine >= 0 && fits_magazine(*old(self), magazine) ==> fits_magazine(
                *final(self),
                magazine,
            ),
    {
        if self.ammo == 0 {
            self.ammo = -1;
            WeaponEvent::ReloadStarted
        } else if self.ammo == -1 {
            if reload_done {
                self.ammo = magazine;
                self.chamber = 0;
                WeaponEvent::Refilled
            } else {
                WeaponEvent::Idle
            }
        } else if idle_refill {
            self.ammo = magazine;
            self.chamber = 0;
            WeaponEvent::Refilled
        } else {
            WeaponEvent::Idle
        }
    }

    /// Pulls the trigger of a weapon of `kind`; returns how many rounds left it.
    pub fn fire(&mut self, kind: ShootKind) -> (shots: u8)
        ensures
            (shots, *final(self)) == weapon_fire(*old(self), kind),
            shots as int <= if old(self).ammo > 0 {
                old(self).ammo as int
            } else {
                0
            },
            old(self).ammo > 0 ==> final(self).ammo == old(self).ammo - shots && final(self).ammo
                >= 0,
            old(self).ammo <= 0 ==> *final(self) == *old(self),
    {
        if self.ammo <= 0 {
            return 0;
        }
        self.ammo = self.ammo - 1;
        match kind {
            ShootKind::Default => 1,
            ShootKind::TwinShoot | ShootKind::TwinWideShoot => {
                if self.ammo > 0 {
                    self.ammo = self.ammo - 1;
                    2
                } else {
                    1
                }
            },
            ShootKind::ChamberShootThree => {
                if self.chamber == 0 {
                    self.chamber = 2;
                }
                1
            },
            ShootKind::ChamberShootFive => {
                if self.chamber == 0 {
                    self.chamber = 4;
                }
                1
            },
        }
    }

    /// Rounds the ammunition vendor has to supply to fill the magazine.
    pub fn rounds_needed(&self, magazine: i32) -> (n: i32)
        requires
            magazine - (if self.ammo > 0 {
                self.ammo as int
            } else {
                0
            }) >= i32::MIN,
        ensures
            n == magazine - (if self.ammo > 0 {
                self.ammo as int
            } else {
                0
            }),
    {
        let current = if self.ammo > 0 {
            self.ammo
        } else {
            0
        };
        magazine - current
    }

    /// Fills the magazine from the vendor: full, nothing chambered.
    pub fn refill(&mut self, magazine: i32)
        ensures
            *final(self) == (WeaponState { ammo: magazine, chamber: 0 }),
    {
        self.ammo = magazine;
        self.chamber = 0;
    }
}

/// Ticking and firing keep a weapon within its magazine, firing spends exactly
/// the rounds it fires, and never more than are left.
pub proof fn lemma_weapon_keeps_magazine(
    s: WeaponState,
    magazine: i32,
    kind: ShootKind,
    reload_done: bool,
    idle_refill: bool,
)
    requires
        magazine >= 0,
        fits_magazine(s, magazine),
    ensures
        fits_magazine(weapon_tick(s, magazine, reload_done, idle_refill).0, magazine),
        fits_magazine(weapon_fire(s, kind).1, magazine),
        weapon_fire(s, kind).1.ammo == s.ammo - weapon_fire(s, kind).0 || s.ammo <= 0,
        weapon_fire(s, kind).0 <= (if s.ammo > 0 {
            s.ammo as int
        } else {
            0
        }),
{
}

// ---------------------------------------------------------------------------
// Turning and firing decisions
// ---------------------------------------------------------------------------

/// How fast the drone may turn toward its target this frame.
#[derive(Clone, Copy, PartialEq, Eq, Structural)]
pub enum TurnMode {
    /// The drone cannot rotate at all.
    Locked,
    /// The magazine is empty or reloading: turn at the reload rate.
    Reloading,
    /// A round was just fired: turn at the recoil rate.
    Recoiling,
    /// Turn at full rate.
    Free,
}

/// The turning rate that applies: no rotation when the drone cannot rotate,
/// else the reload rate without ammunition, else the recoil rate right after a
/// shot, else the full rate.
pub fn turn_mode(can_rotate: bool, ammo: i32, recoiling: bool) -> (m: TurnMode)
    ensures
        m == (if !can_rotate {
            TurnMode::Locked
        } else if ammo <= 0 {
            TurnMode::Reloading
        } else if recoiling {
            TurnMode::Recoiling
        } else {
            TurnMode::Free
        }),
{
    if !can_rotate {
        TurnMode::Locked
    } else if ammo <= 0 {
        TurnMode::Reloading
    } else if recoiling {
        TurnMode::Recoiling
    } else {
        TurnMode::Free
    }
}

/// Whether to pull the trigger this frame: the drone must be able to shoot and
/// the weapon ready, and either a target is lined up (aligned, within range,
/// visible, and within the lock tolerance when the drone cannot rotate) or a
/// burst is chambered.
pub fn should_fire(target_lined_up: bool, chamber: i32, can_shoot: bool, weapon_ready: bool) -> (r:
    bool)
    ensures
        r == (can_shoot && weapon_ready && (target_lined_up || chamber > 0)),
{
    if target_lined_up && can_shoot && weapon_ready {
        true
    } else {
        chamber > 0 && can_shoot && weapon_ready
    }
}

} // verus!

verus! {

/// How many rounds one trigger pull fires: none from an empty or reloading
/// magazine; two from a twin weapon (either kind) while two are left, one on
/// its last round; one from any other weapon. The rounds fired leave the
/// magazine, and a chambered weapon starts a burst of three or five.
pub proof fn lemma_rounds_per_pull(s: WeaponState, kind: ShootKind)
    ensures
        s.ammo <= 0 ==> weapon_fire(s, kind).0 == 0 && weapon_fire(s, kind).1 == s,
        s.ammo >= 2 && (kind is TwinShoot || kind is TwinWideShoot) ==> weapon_fire(s, kind).0 == 2
            && weapon_fire(s, kind).1.ammo == s.ammo - 2,
        s.ammo == 1 && (kind is TwinShoot || kind is TwinWideShoot) ==> weapon_fire(s, kind).0 == 1
            && weapon_fire(s, kind).1.ammo == 0,
        s.ammo > 0 && !(kind is TwinShoot || kind is TwinWideShoot) ==> weapon_fire(s, kind).0 == 1
            && weapon_fire(s, kind).1.ammo == s.ammo - 1,
        s.ammo > 0 && s.chamber == 0 && kind is ChamberShootThree ==> weapon_fire(s, kind).1.chamber
            == 2,
        s.ammo > 0 && s.chamber == 0 && kind is ChamberShootFive ==> weapon_fire(s, kind).1.chamber
            == 4,
        !(kind is ChamberShootThree || kind is ChamberShootFive) ==> weapon_fire(s, kind).1.chamber
            == s.chamber,
{
}

} // verus!
