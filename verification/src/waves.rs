use vstd::prelude::*;

use crate::rng::{range_i32_state, range_i32_value, Rng};
use crate::world::WaveKind;

verus! {

// ---------------------------------------------------------------------------
// Wave difficulty
// ---------------------------------------------------------------------------

/// The discrete limits of a wave's asteroids: the most sides an asteroid may
/// have, the most armour, the chance in percent of a glitch asteroid, and the
/// value of an ordinary asteroid.
#[derive(Clone, Copy, PartialEq, Eq, Structural)]
pub struct WaveCaps {
    pub sides_cap: u8,
    pub armor_cap: i32,
    pub glitch_chance: i32,
    pub base_value: i32,
}

/// The difficulty band of a wave with `total_sides` sides to spawn: 0 below
/// 21, 1 below 32, 2 below 43, 3 from there on.
pub open spec fn wave_band(total_sides: int) -> int {
    if total_sides >= 43 {
        3
    } else if total_sides >= 32 {
        2
    } else if total_sides >= 21 {
        1
    } else {
        0
    }
}

/// The limits of each kind of wave in each difficulty band.
pub open spec fn caps_table(kind: WaveKind, band: int) -> WaveCaps {
    let (s, a, g, v): (u8, i32, i32, i32) = match kind {
        WaveKind::Starter => if band == 3 {
            (16, 3, 8, 1)
        } else if band == 2 {
            (12, 2, 4, 1)
        } else if band == 1 {
            (8, 1, 2, 1)
        } else {
            (6, 0, 1, 1)
        },
        WaveKind::Mining => if band == 3 {
            (21, 3, 16, 2)
        } else if band == 2 {
            (17, 2, 8, 2)
        } else if band == 1 {
            (13, 1, 4, 2)
        } else {
            (9, 0, 2, 2)
        },
        WaveKind::Bounty => if band == 3 {
            (20, 4, 8, 1)
        } else if band == 2 {
            (16, 4, 4, 1)
        } else if band == 1 {
            (12, 3, 2, 1)
        } else {
            (8, 3, 1, 1)
        },
        WaveKind::Belt => if band == 3 {
            (7, 1, 3, 1)
        } else if band == 2 {
            (6, 1, 2, 1)
        } else if band == 1 {
            (5, 1, 1, 1)
        } else {
            (4, 1, 0, 1)
        },
        WaveKind::Barren => if band == 3 {
            (6, 0, 25, 2)
        } else if band == 2 {
            (5, 0, 20, 2)
        } else if band == 1 {
            (4, 0, 15, 2)
        } else {
            (3, 0, 10, 2)
        },
        WaveKind::Meteor => if band == 3 {
            (3, 0, 65, 2)
        } else if band == 2 {
            (3, 0, 55, 2)
        } else if band == 1 {
            (3, 0, 45, 2)
        } else {
            (3, 0, 35, 2)
        },
    };
    WaveCaps { sides_cap: s, armor_cap: a, glitch_chance: g, base_value: v }
}

/// The limits of a wave of `kind` with `total_sides` sides to spawn.
pub fn wave_caps(kind: WaveKind, total_sides: i32) -> (r: WaveCaps)
    ensures
        r == caps_table(kind, wave_band(total_sides as int)),
{
    let band: u8 = if total_sides >= 43 {
        3
    } else if total_sides >= 32 {
        2
    } else if total_sides >= 21 {
        1
    } else {
        0
    };
    let (s, a, g, v): (u8, i32, i32, i32) = match kind {
        WaveKind::Starter => if band == 3 {
            (16, 3, 8, 1)
        } else if band == 2 {
            (12, 2, 4, 1)
        } else if band == 1 {
            (8, 1, 2, 1)
        } else {
            (6, 0, 1, 1)
        },
        WaveKind::Mining => if band == 3 {
            (21, 3, 16, 2)
        } else if band == 2 {
            (17, 2, 8, 2)
        } else if band == 1 {
            (13, 1, 4, 2)
        } else {
            (9, 0, 2, 2)
        },
        WaveKind::Bounty => if band == 3 {
            (20, 4, 8, 1)
        } else if band == 2 {
            (16, 4, 4, 1)
        } else if band == 1 {
            (12, 3, 2, 1)
        } else {
            (8, 3, 1, 1)
        },
        WaveKind::Belt => if band == 3 {
            (7, 1, 3, 1)
        } else if band == 2 {
            (6, 1, 2, 1)
        } else if band == 1 {
            (5, 1, 1, 1)
        } else {
            (4, 1, 0, 1)
        },
        WaveKind::Barren => if band == 3 {
            (6, 0, 25, 2)
        } else if band == 2 {
            (5, 0, 20, 2)
        } else if band == 1 {
            (4, 0, 15, 2)
        } else {
            (3, 0, 10, 2)
        },
        WaveKind::Meteor => if band == 3 {
            (3, 0, 65, 2)
        } else if band == 2 {
            (3, 0, 55, 2)
        } else if band == 1 {
            (3, 0, 45, 2)
        } else {
            (3, 0, 35, 2)
        },
    };
    WaveCaps { sides_cap: s, armor_cap: a, glitch_chance: g, base_value: v }
}

/// A wave with more sides to spawn is never easier: no limit goes down, and
/// every asteroid may have at least three sides.
pub proof fn lemma_wave_caps_monotone(kind: WaveKind, fewer: int, more: int)
    requires
        fewer <= more,
    ensures
        caps_table(kind, wave_band(fewer)).sides_cap <= caps_table(kind, wave_band(more)).sides_cap,
        caps_table(kind, wave_band(fewer)).armor_cap <= caps_table(kind, wave_band(more)).armor_cap,
        caps_table(kind, wave_band(fewer)).glitch_chance <= caps_table(
            kind,
            wave_band(more),
        ).glitch_chance,
        caps_table(kind, wave_band(fewer)).base_value == caps_table(kind, wave_band(more)).base_value,
        caps_table(kind, wave_band(more)).sides_cap >= 3,
        0 <= caps_table(kind, wave_band(more)).armor_cap,
        0 <= caps_table(kind, wave_band(more)).glitch_chance < 100,
{
}

/// Starter and mining missions end in a wave of boss asteroids.
pub open spec fn ends_in_boss(kind: WaveKind) -> bool {
    kind is Starter || kind is Mining
}

/// Whether the wave about to spawn is the boss wave: the last wave of a
/// mission whose kind ends in one.
pub fn is_boss_wave(kind: WaveKind, current_wave: i32, max_waves: i32) -> (r: bool)
    ensures
        r == (ends_in_boss(kind) && current_wave == max_waves),
{
    match kind {
        WaveKind::Starter | WaveKind::Mining => current_wave == max_waves,
        _ => false,
    }
}

/// The number of the wave to spawn now, if one spawns: only while waves remain
/// and once the spawn interval has passed since the last one.
pub fn next_wave(current_wave: i32, max_waves: i32, interval_passed: bool) -> (r: Option<i32>)
    ensures
        r == (if current_wave < max_waves && interval_passed {
            Some((current_wave + 1) as i32)
        } else {
            None::<i32>
        }),
        r matches Some(n) ==> n <= max_waves,
{
    if current_wave >= max_waves || !interval_passed {
        None
    } else {
        Some(current_wave + 1)
    }
}

// ---------------------------------------------------------------------------
// Rolling one asteroid
// ---------------------------------------------------------------------------

/// The discrete shape of one spawned asteroid: its sides, what it costs from the
/// wave's budget of sides before armour, its value before armour, and its armour.
#[derive(Clone, Copy, PartialEq, Eq, Structural)]
pub struct AsteroidRoll {
    pub sides: u8,
    pub side_cost: i32,
    pub value: i32,
    pub armor: i32,
}

/// The asteroid drawn with a generator in `state` under `caps`, and the state
/// left behind: a glitch roll, then the sides unless it glitched, then the armour.
pub open spec fn asteroid_roll(state: u32, caps: WaveCaps) -> (AsteroidRoll, u32) {
    let glitch = range_i32_value(state, 0, 100);
    let s1 = range_i32_state(state, 0, 100);
    let armor_max = caps.armor_cap + 1;
    if glitch < caps.glitch_chance {
        let armor = range_i32_value(s1, 0, armor_max as i32);
        (
            AsteroidRoll { sides: 1, side_cost: 10, value: 10, armor },
            range_i32_state(s1, 0, armor_max as i32),
        )
    } else {
        let sides_max = caps.sides_cap + 1;
        let sides = range_i32_value(s1, 3, sides_max as i32);
        let s2 = range_i32_state(s1, 3, sides_max as i32);
        let armor = range_i32_value(s2, 0, armor_max as i32);
        (
            AsteroidRoll { sides: sides as u8, side_cost: sides, value: caps.base_value, armor },
            range_i32_state(s2, 0, armor_max as i32),
        )
    }
}

/// Draws the sides, cost, value and armour of the next asteroid of a wave.
pub fn roll_asteroid(rng: &mut Rng, caps: WaveCaps) -> (r: AsteroidRoll)
    requires
        caps.armor_cap < i32::MAX,
    ensures
        (r, final(rng).state()) == asteroid_roll(old(rng).state(), caps),
        r.side_cost >= 3,
        caps.armor_cap >= 0 ==> 0 <= r.armor <= caps.armor_cap,
        caps.armor_cap < 0 ==> r.armor == 0,
        r.sides == 1 || 3 <= r.sides <= caps.sides_cap || (caps.sides_cap < 3 && r.sides == 3),
{
    let glitch = rng.gen_range_i32(0, 100);
    if glitch < caps.glitch_chance {
        let armor = rng.gen_range_i32(0, caps.armor_cap + 1);
        AsteroidRoll { sides: 1, side_cost: 10, value: 10, armor }
    } else {
        let sides = rng.gen_range_i32(3, caps.sides_cap as i32 + 1);
        let armor = rng.gen_range_i32(0, caps.armor_cap + 1);
        AsteroidRoll { sides: sides as u8, side_cost: sides, value: caps.base_value, armor }
    }
}

impl AsteroidRoll {
    /// What the asteroid takes from the wave's budget of sides.
    pub fn cost(&self) -> (c: i32)
        requires
            self.side_cost + self.armor <= i32::MAX,
            self.side_cost + self.armor >= i32::MIN,
        ensures
            c == self.side_cost + self.armor,
    {
        self.side_cost + self.armor
    }

    /// What destroying the asteroid is worth.
    pub fn reward(&self) -> (v: i32)
        requires
            self.value + self.armor <= i32::MAX,
            self.value + self.armor >= i32::MIN,
        ensures
            v == self.value + self.armor,
    {
        self.value + self.armor
    }
}

} // verus!

verus! {

/// Only starter and mining missions end in a boss wave, on their last wave: a
/// bounty, belt, barren or meteor mission never has one, whatever the wave.
pub proof fn lemma_boss_waves_only_starter_and_mining(kind: WaveKind, current_wave: i32, max_waves: i32)
    ensures
        (kind is Bounty || kind is Belt || kind is Barren || kind is Meteor) ==> !(ends_in_boss(kind)
            && current_wave == max_waves),
        (kind is Starter || kind is Mining) ==> ((ends_in_boss(kind) && current_wave == max_waves)
            == (current_wave == max_waves)),
{
}

} // verus!
