use vstd::prelude::*;
use vstd::string::StringExecFns;

use crate::rng::{weight_prefix, weight_total, weighted_draw, weighted_random_vec, Rng};
use crate::world::{
    gear_equippable, has_tag, pity_can_increment, pity_incremented, pity_reset_of, GameWorld,
    GearDef, GearType, Item, PityTimers, Rarity, ASTEROID_LOOT,
};

verus! {

// ---------------------------------------------------------------------------
// Which gear can drop
// ---------------------------------------------------------------------------

/// Whether the mission tiers of a gear definition admit `tier` (no list admits all).
pub open spec fn tiers_admit(tiers: Option<Vec<u8>>, tier: u8) -> bool {
    match tiers {
        None => true,
        Some(v) => v@.contains(tier),
    }
}

/// A gear definition can drop from asteroids on a mission of `tier`.
pub open spec fn loot_candidate(g: GearDef, tier: u8) -> bool {
    has_tag(g.tags@, ASTEROID_LOOT@) && tiers_admit(g.mission_tiers, tier)
}

/// Some droppable gear definition has rarity `r`.
pub open spec fn has_loot_rarity(defs: Seq<GearDef>, r: Rarity, tier: u8) -> bool {
    exists|k: int| 0 <= k < defs.len() && loot_candidate(#[trigger] defs[k], tier) && defs[k].rarity == r
}

/// Positions of the droppable definitions of type `t` and rarity `r`, in order.
pub open spec fn pool_indices(defs: Seq<GearDef>, tier: u8, t: GearType, r: Rarity) -> Seq<int>
    decreases defs.len(),
{
    if defs.len() == 0 {
        Seq::empty()
    } else {
        let prev = pool_indices(defs.drop_last(), tier, t, r);
        let g = defs.last();
        if loot_candidate(g, tier) && g.gear_type == t && g.rarity == r {
            prev.push(defs.len() - 1)
        } else {
            prev
        }
    }
}

/// Drop rates of the pool, in pool order.
pub open spec fn pool_weights(defs: Seq<GearDef>, pool: Seq<int>) -> Seq<u32> {
    pool.map_values(|k: int| defs[k].drop_rate)
}

/// Every pool entry points at a droppable definition of the rolled type and rarity.
pub proof fn lemma_pool_indices(defs: Seq<GearDef>, tier: u8, t: GearType, r: Rarity)
    ensures
        forall|k: int|
            0 <= k < pool_indices(defs, tier, t, r).len() ==> {
                let j = #[trigger] pool_indices(defs, tier, t, r)[k];
                &&& 0 <= j < defs.len()
                &&& loot_candidate(defs[j], tier)
                &&& defs[j].gear_type == t
                &&& defs[j].rarity == r
            },
    decreases defs.len(),
{
    if defs.len() > 0 {
        let d = defs.drop_last();
        lemma_pool_indices(d, tier, t, r);
        let p = pool_indices(defs, tier, t, r);
        let pp = pool_indices(d, tier, t, r);
        assert forall|k: int| 0 <= k < p.len() implies {
            let j = #[trigger] p[k];
            &&& 0 <= j < defs.len()
            &&& loot_candidate(defs[j], tier)
            &&& defs[j].gear_type == t
            &&& defs[j].rarity == r
        } by {
            if k < pp.len() {
                assert(p[k] == pp[k]);
                assert(defs[pp[k]] == d[pp[k]]);
            }
        }
    }
}

// ---------------------------------------------------------------------------
// Rolling loot
// ---------------------------------------------------------------------------

/// The drop chances that evolve while an asteroid's loot is rolled.
pub struct LootChances {
    pub comp_chance: u32,
    pub drone_chance: u32,
    pub weapon_chance: u32,
    pub allow_temporal_drops: bool,
}

/// Tiers at or below 1 use the first column of the base chances, higher tiers the second.
pub open spec fn capped_tier(tier: u8) -> int {
    if tier >= 2 {
        1
    } else {
        0
    }
}

pub open spec fn base_res_chance(tier: u8) -> u32 {
    if capped_tier(tier) == 0 {
        1110
    } else {
        900
    }
}

pub open spec fn base_comp_chance(tier: u8) -> u32 {
    if capped_tier(tier) == 0 {
        50
    } else {
        98
    }
}

/// The chances at the first roll.
pub open spec fn start_chances(tier: u8) -> LootChances {
    LootChances {
        comp_chance: base_comp_chance(tier),
        drone_chance: 15,
        weapon_chance: 25,
        allow_temporal_drops: true,
    }
}

/// From the second roll on, the chances grow before each roll.
pub open spec fn bumped(c: LootChances, i: int) -> LootChances {
    if i > 0 {
        LootChances {
            comp_chance: (c.comp_chance + 20) as u32,
            drone_chance: if c.allow_temporal_drops {
                (c.drone_chance + 5) as u32
            } else {
                c.drone_chance
            },
            weapon_chance: if c.allow_temporal_drops {
                (c.weapon_chance + 10) as u32
            } else {
                c.weapon_chance
            },
            allow_temporal_drops: c.allow_temporal_drops,
        }
    } else {
        c
    }
}

pub open spec fn bump_ok(c: LootChances, i: int) -> bool {
    i > 0 ==> {
        &&& c.comp_chance + 20 <= u32::MAX
        &&& c.allow_temporal_drops ==> c.drone_chance + 5 <= u32::MAX && c.weapon_chance + 10
            <= u32::MAX
    }
}

/// `x + p * f` floored at zero, with `x` read as an `i32`.
pub open spec fn pitied_chance(x: u32, p: i32, f: int) -> u32 {
    let y = (x as i32) + p * f;
    if y < 0 {
        0
    } else {
        y as u32
    }
}

pub open spec fn pitied_chance_ok(x: u32, p: i32, f: int) -> bool {
    &&& i32::MIN <= p * f <= i32::MAX
    &&& i32::MIN <= (x as i32) + p * f <= i32::MAX
}

/// The pity timers raise the chances of the types that have not dropped for a while.
pub open spec fn pitied(c: LootChances, p: PityTimers) -> LootChances {
    LootChances {
        comp_chance: pitied_chance(c.comp_chance, p.drop_counter_component, 5),
        drone_chance: if c.allow_temporal_drops {
            pitied_chance(c.drone_chance, p.drop_counter_drone, 2)
        } else {
            c.drone_chance
        },
        weapon_chance: if c.allow_temporal_drops {
            pitied_chance(c.weapon_chance, p.drop_counter_weapon, 3)
        } else {
            c.weapon_chance
        },
        allow_temporal_drops: c.allow_temporal_drops,
    }
}

pub open spec fn pity_ok(c: LootChances, p: PityTimers) -> bool {
    &&& pitied_chance_ok(c.comp_chance, p.drop_counter_component, 5)
    &&& c.allow_temporal_drops ==> pitied_chance_ok(c.drone_chance, p.drop_counter_drone, 2)
        && pitied_chance_ok(c.weapon_chance, p.drop_counter_weapon, 3)
}

/// Weights of the gear type roll: resource, component, drone, weapon.
pub open spec fn type_weights(c: LootChances, tier: u8) -> Seq<u32> {
    seq![base_res_chance(tier), c.comp_chance, c.drone_chance, c.weapon_chance]
}

pub open spec fn gear_type_at(i: int) -> GearType {
    if i == 0 {
        GearType::Resource
    } else if i == 1 {
        GearType::Component
    } else if i == 2 {
        GearType::Drone
    } else {
        GearType::Weapon
    }
}

pub open spec fn rarity_at(i: int) -> Rarity {
    if i == 0 {
        Rarity::Common
    } else if i == 1 {
        Rarity::Uncommon
    } else if i == 2 {
        Rarity::Rare
    } else if i == 3 {
        Rarity::Epic
    } else {
        Rarity::Legendary
    }
}

/// Rarity rates of a gear type on a mission of `tier`, common to legendary.
pub open spec fn rarity_rates(t: GearType, tier: u8) -> Seq<u32> {
    match t {
        GearType::Resource => if tier == 1 {
            seq![144u32, 48, 12, 4, 0]
        } else if tier == 2 {
            seq![80u32, 40, 20, 10, 5]
        } else {
            seq![100u32, 30, 10, 3, 1]
        },
        GearType::Component => if tier == 1 {
            seq![95u32, 35, 15, 5, 0]
        } else if tier == 2 {
            seq![80u32, 40, 20, 10, 5]
        } else {
            seq![100u32, 30, 10, 3, 1]
        },
        _ => seq![16u32, 8, 4, 2, 1],
    }
}

/// Rarity weights: a rarity no droppable gear has weighs nothing.
pub open spec fn rarity_weights(defs: Seq<GearDef>, t: GearType, tier: u8) -> Seq<u32> {
    let rates = rarity_rates(t, tier);
    Seq::new(
        5,
        |i: int|
            if has_loot_rarity(defs, rarity_at(i), tier) {
                rates[i]
            } else {
                0u32
            },
    )
}

/// The item a gear definition drops as.
pub open spec fn dropped_item(g: GearDef) -> Item {
    Item {
        name: g.name,
        count: 1,
        pending_sale: false,
        pending_destroy: false,
        name_hidden: gear_equippable(g),
        is_active: false,
        is_rental: false,
    }
}

/// After a drop, components rest and a drone or weapon ends the temporal drops.
pub open spec fn after_drop(c: LootChances, t: GearType) -> LootChances {
    match t {
        GearType::Resource => c,
        GearType::Component => LootChances { comp_chance: 0, ..c },
        _ => LootChances {
            drone_chance: 0,
            weapon_chance: 0,
            allow_temporal_drops: false,
            ..c
        },
    }
}

/// The state between rolls: chances, pity timers and generator state.
pub struct LootState {
    pub chances: LootChances,
    pub pity: PityTimers,
    pub rng_state: u32,
}

/// The chances used by roll `i`.
pub open spec fn roll_chances(st: LootState, i: int) -> LootChances {
    pitied(bumped(st.chances, i), st.pity)
}

/// The gear type that roll `i` draws, and the generator state after it.
pub open spec fn type_draw(st: LootState, i: int, tier: u8) -> (int, u32) {
    weighted_draw(type_weights(roll_chances(st, i), tier), st.rng_state)
}

/// The rarity that roll `i` draws, and the generator state after it.
pub open spec fn rarity_draw(defs: Seq<GearDef>, st: LootState, i: int, tier: u8) -> (int, u32) {
    let (t, s1) = type_draw(st, i, tier);
    weighted_draw(rarity_weights(defs, gear_type_at(t), tier), s1)
}

/// The pool that roll `i` draws the gear from.
pub open spec fn roll_pool(defs: Seq<GearDef>, st: LootState, i: int, tier: u8) -> Seq<int> {
    pool_indices(
        defs,
        tier,
        gear_type_at(type_draw(st, i, tier).0),
        rarity_at(rarity_draw(defs, st, i, tier).0),
    )
}

/// The gear definition that roll `i` drops, if its pool is not empty.
pub open spec fn roll_gear(defs: Seq<GearDef>, st: LootState, i: int, tier: u8) -> Option<int> {
    let pool = roll_pool(defs, st, i, tier);
    if pool.len() == 0 {
        None
    } else {
        let (p, _s) = weighted_draw(pool_weights(defs, pool), rarity_draw(defs, st, i, tier).1);
        Some(pool[p])
    }
}

/// The state after roll `i`, and the item it drops.
#[verifier::opaque]
pub open spec fn loot_step(defs: Seq<GearDef>, st: LootState, i: int, tier: u8) -> (LootState, Option<Item>) {
    let c = roll_chances(st, i);
    let pool = roll_pool(defs, st, i, tier);
    let s2 = rarity_draw(defs, st, i, tier).1;
    if pool.len() == 0 {
        (LootState { chances: c, pity: st.pity, rng_state: s2 }, None)
    } else {
        let (_p, s3) = weighted_draw(pool_weights(defs, pool), s2);
        let g = defs[roll_gear(defs, st, i, tier).unwrap()];
        (
            LootState {
                chances: after_drop(c, g.gear_type),
                pity: pity_reset_of(pity_incremented(st.pity, g.gear_type), g.gear_type),
                rng_state: s3,
            },
            Some(dropped_item(g)),
        )
    }
}

/// Roll `i` keeps every sum and counter within its integer type.
#[verifier::opaque]
pub open spec fn loot_step_ok(defs: Seq<GearDef>, st: LootState, i: int, tier: u8) -> bool {
    let c = roll_chances(st, i);
    &&& bump_ok(st.chances, i)
    &&& pity_ok(bumped(st.chances, i), st.pity)
    &&& weight_total(type_weights(c, tier)) <= u32::MAX
    &&& weight_total(pool_weights(defs, roll_pool(defs, st, i, tier))) <= u32::MAX
    &&& roll_gear(defs, st, i, tier) matches Some(k) ==> pity_can_increment(
        st.pity,
        defs[k].gear_type,
    )
}

/// The state after `n` rolls and the items they dropped.
pub open spec fn loot_run(defs: Seq<GearDef>, st: LootState, n: int, tier: u8) -> (LootState, Seq<Item>)
    decreases n,
{
    if n <= 0 {
        (st, Seq::empty())
    } else {
        let (mid, items) = loot_run(defs, st, n - 1, tier);
        let (next, drop) = loot_step(defs, mid, n - 1, tier);
        (
            next,
            match drop {
                Some(it) => items.push(it),
                None => items,
            },
        )
    }
}

/// None of the first `n` rolls overflows.
pub open spec fn loot_run_ok(defs: Seq<GearDef>, st: LootState, n: int, tier: u8) -> bool
    decreases n,
{
    n <= 0 || (loot_run_ok(defs, st, n - 1, tier) && loot_step_ok(
        defs,
        loot_run(defs, st, n - 1, tier).0,
        n - 1,
        tier,
    ))
}

/// The state a world starts rolling loot from on a mission of `tier`.
pub open spec fn loot_start(w: GameWorld, tier: u8) -> LootState {
    LootState { chances: start_chances(tier), pity: w.pity_timers, rng_state: w.rng.state() }
}

} // verus!

verus! {

fn tiers_allow(tiers: &Option<Vec<u8>>, tier: u8) -> (r: bool)
    ensures
        r == tiers_admit(*tiers, tier),
{
    match tiers {
        None => true,
        Some(v) => {
            let n = v.len();
            for k in 0..n
                invariant
                    n == v@.len(),
                    tiers_admit(*tiers, tier) == v@.contains(tier),
                    forall|j: int| 0 <= j < k ==> v@[j] != tier,
            {
                if v[k] == tier {
                    assert(v@[k as int] == tier);
                    assert(v@.contains(tier));
                    return true;
                }
            }
            false
        },
    }
}

fn has_asteroid_loot_tag(tags: &Vec<String>) -> (r: bool)
    ensures
        r == has_tag(tags@, ASTEROID_LOOT@),
{
    let target = String::from_str(ASTEROID_LOOT);
    let n = tags.len();
    for k in 0..n
        invariant
            n == tags@.len(),
            target@ == ASTEROID_LOOT@,
            forall|j: int| 0 <= j < k ==> (#[trigger] tags@[j])@ != ASTEROID_LOOT@,
    {
        if tags[k] == target {
            return true;
        }
    }
    false
}

fn is_loot_candidate(g: &GearDef, tier: u8) -> (r: bool)
    ensures
        r == loot_candidate(*g, tier),
{
    has_asteroid_loot_tag(&g.tags) && tiers_allow(&g.mission_tiers, tier)
}

fn has_rarity(defs: &Vec<GearDef>, r: Rarity, tier: u8) -> (b: bool)
    ensures
        b == has_loot_rarity(defs@, r, tier),
{
    let n = defs.len();
    for k in 0..n
        invariant
            n == defs@.len(),
            forall|j: int| 0 <= j < k ==> !(loot_candidate(#[trigger] defs@[j], tier) && defs@[j].rarity == r),
    {
        if is_loot_candidate(&defs[k], tier) && defs[k].rarity == r {
            return true;
        }
    }
    false
}

/// The droppable definitions of type `t` and rarity `r`, with their drop rates.
fn build_pool(defs: &Vec<GearDef>, tier: u8, t: GearType, r: Rarity) -> (res: (Vec<usize>, Vec<u32>))
    ensures
        res.0@.len() == pool_indices(defs@, tier, t, r).len(),
        forall|k: int| 0 <= k < res.0@.len() ==> #[trigger] res.0@[k] as int == pool_indices(defs@, tier, t, r)[k],
        res.1@ == pool_weights(defs@, pool_indices(defs@, tier, t, r)),
{
    let mut pool: Vec<usize> = Vec::new();
    let mut weights: Vec<u32> = Vec::new();
    let n = defs.len();
    for i in 0..n
        invariant
            n == defs@.len(),
            pool@.len() == pool_indices(defs@.take(i as int), tier, t, r).len(),
            forall|k: int| 0 <= k < pool@.len() ==> #[trigger] pool@[k] as int == pool_indices(defs@.take(i as int), tier, t, r)[k],
            weights@ == pool_weights(defs@, pool_indices(defs@.take(i as int), tier, t, r)),
    {
        let ghost prev_pool = pool@;
        let ghost prev_spec = pool_indices(defs@.take(i as int), tier, t, r);
        assert(defs@.take(i + 1).drop_last() =~= defs@.take(i as int));
        assert(defs@.take(i + 1).last() == defs@[i as int]);
        if is_loot_candidate(&defs[i], tier) && defs[i].gear_type == t && defs[i].rarity == r {
            pool.push(i);
            weights.push(defs[i].drop_rate);
            assert forall|k: int| 0 <= k < pool@.len() implies #[trigger] pool@[k] as int == pool_indices(defs@.take(i + 1), tier, t, r)[k] by {
                if k < prev_pool.len() {
                    assert(pool@[k] == prev_pool[k]);
                }
            }
        }
        assert(weights@ =~= pool_weights(defs@, pool_indices(defs@.take(i + 1), tier, t, r)));
    }
    assert(defs@.take(n as int) =~= defs@);
    (pool, weights)
}

} // verus!

verus! {

/// A run of `n` rolls that stays in range does so at each of its rolls.
pub proof fn lemma_loot_run_ok_step(defs: Seq<GearDef>, st: LootState, n: int, i: int, tier: u8)
    requires
        loot_run_ok(defs, st, n, tier),
        0 <= i < n,
    ensures
        loot_step_ok(defs, loot_run(defs, st, i, tier).0, i, tier),
    decreases n,
{
    if i < n - 1 {
        lemma_loot_run_ok_step(defs, st, n - 1, i, tier);
    }
}

/// The chances of roll `i`: grown from the second roll on, then raised by the pity timers.
fn chances_for_roll(c: &LootChances, p: &PityTimers, i: i32) -> (r: LootChances)
    requires
        bump_ok(*c, i as int),
        pity_ok(bumped(*c, i as int), *p),
    ensures
        r == pitied(bumped(*c, i as int), *p),
{
    let mut comp_chance = c.comp_chance;
    let mut drone_chance = c.drone_chance;
    let mut weapon_chance = c.weapon_chance;
    let allow_temporal_drops = c.allow_temporal_drops;
    if i > 0 {
        comp_chance = comp_chance + 20;
        if allow_temporal_drops {
            drone_chance = drone_chance + 5;
            weapon_chance = weapon_chance + 10;
        }
    }
    let x = comp_chance as i32 + p.drop_counter_component * 5;
    comp_chance = if x < 0 {
        0
    } else {
        x as u32
    };
    if allow_temporal_drops {
        let d = drone_chance as i32 + p.drop_counter_drone * 2;
        drone_chance = if d < 0 {
            0
        } else {
            d as u32
        };
        let e = weapon_chance as i32 + p.drop_counter_weapon * 3;
        weapon_chance = if e < 0 {
            0
        } else {
            e as u32
        };
    }
    LootChances { comp_chance, drone_chance, weapon_chance, allow_temporal_drops }
}

/// Draws the gear type of a roll.
fn roll_gear_type(rng: &mut Rng, c: &LootChances, tier: u8) -> (t: GearType)
    requires
        weight_total(type_weights(*c, tier)) <= u32::MAX,
    ensures
        t == gear_type_at(weighted_draw(type_weights(*c, tier), old(rng).state()).0),
        final(rng).state() == weighted_draw(type_weights(*c, tier), old(rng).state()).1,
{
    let base_res: u32 = if tier >= 2 {
        900
    } else {
        1110
    };
    let type_w: Vec<u32> = vec![base_res, c.comp_chance, c.drone_chance, c.weapon_chance];
    assert(type_w@ =~= type_weights(*c, tier));
    let idx = weighted_random_vec(type_w.as_slice(), rng).unwrap();
    if idx == 0 {
        GearType::Resource
    } else if idx == 1 {
        GearType::Component
    } else if idx == 2 {
        GearType::Drone
    } else {
        GearType::Weapon
    }
}

/// Draws the rarity of a roll of gear type `t`.
fn roll_rarity(rng: &mut Rng, defs: &Vec<GearDef>, t: GearType, tier: u8) -> (r: Rarity)
    ensures
        r == rarity_at(weighted_draw(rarity_weights(defs@, t, tier), old(rng).state()).0),
        final(rng).state() == weighted_draw(rarity_weights(defs@, t, tier), old(rng).state()).1,
{
    let rates: Vec<u32> = match t {
        GearType::Resource => if tier == 1 {
            vec![144, 48, 12, 4, 0]
        } else if tier == 2 {
            vec![80, 40, 20, 10, 5]
        } else {
            vec![100, 30, 10, 3, 1]
        },
        GearType::Component => if tier == 1 {
            vec![95, 35, 15, 5, 0]
        } else if tier == 2 {
            vec![80, 40, 20, 10, 5]
        } else {
            vec![100, 30, 10, 3, 1]
        },
        GearType::Drone | GearType::Weapon => vec![16, 8, 4, 2, 1],
    };
    assert(rates@ =~= rarity_rates(t, tier));
    let rarity_w: Vec<u32> = vec![
        if has_rarity(defs, Rarity::Common, tier) { rates[0] } else { 0 },
        if has_rarity(defs, Rarity::Uncommon, tier) { rates[1] } else { 0 },
        if has_rarity(defs, Rarity::Rare, tier) { rates[2] } else { 0 },
        if has_rarity(defs, Rarity::Epic, tier) { rates[3] } else { 0 },
        if has_rarity(defs, Rarity::Legendary, tier) { rates[4] } else { 0 },
    ];
    assert(rarity_w@ =~= rarity_weights(defs@, t, tier));
    assert(weight_total(rarity_w@) <= u32::MAX) by {
        reveal_with_fuel(crate::rng::weight_prefix, 6);
    }
    let r_idx = weighted_random_vec(rarity_w.as_slice(), rng).unwrap();
    if r_idx == 0 {
        Rarity::Common
    } else if r_idx == 1 {
        Rarity::Uncommon
    } else if r_idx == 2 {
        Rarity::Rare
    } else if r_idx == 3 {
        Rarity::Epic
    } else {
        Rarity::Legendary
    }
}

/// Draws the gear definition of a roll from its pool, if the pool is not empty.
fn draw_gear(rng: &mut Rng, defs: &Vec<GearDef>, tier: u8, t: GearType, r: Rarity) -> (g: Option<usize>)
    requires
        weight_total(pool_weights(defs@, pool_indices(defs@, tier, t, r))) <= u32::MAX,
    ensures
        ({
            let pool = pool_indices(defs@, tier, t, r);
            let (p, s) = weighted_draw(pool_weights(defs@, pool), old(rng).state());
            &&& pool.len() == 0 ==> g is None
            &&& pool.len() > 0 ==> 0 <= p < pool.len() && g == Some(pool[p] as usize)
            &&& final(rng).state() == s
        }),
{
    let (pool, pool_w) = build_pool(defs, tier, t, r);
    proof { lemma_pool_indices(defs@, tier, t, r); }
    match weighted_random_vec(pool_w.as_slice(), rng) {
        Some(p_idx) => Some(pool[p_idx]),
        None => None,
    }
}

impl GameWorld {
    /// One roll of an asteroid's loot: returns the new chances and the dropped item.
    fn loot_roll(&mut self, tier: u8, i: i32, c: &LootChances) -> (r: (LootChances, Option<Item>))
        requires
            i >= 0,
            loot_step_ok(
                old(self).def_storage.gear_defs@,
                LootState { chances: *c, pity: old(self).pity_timers, rng_state: old(self).rng.state() },
                i as int,
                tier,
            ),
        ensures
            ({
                let (st, drop) = loot_step(
                    old(self).def_storage.gear_defs@,
                    LootState { chances: *c, pity: old(self).pity_timers, rng_state: old(self).rng.state() },
                    i as int,
                    tier,
                );
                &&& r.0 == st.chances
                &&& r.1 == drop
                &&& final(self).pity_timers == st.pity
                &&& final(self).rng.state() == st.rng_state
            }),
            final(self).def_storage == old(self).def_storage,
            final(self).metaprog == old(self).metaprog,
            final(self).current_id == old(self).current_id,
            final(self).cargo_scroll_offset == old(self).cargo_scroll_offset,
            final(self).cargo_selected_idx == old(self).cargo_selected_idx,
    {
        proof { reveal(loot_step_ok); reveal(loot_step); }
        let ghost defs = self.def_storage.gear_defs@;
        let ghost st = LootState { chances: *c, pity: self.pity_timers, rng_state: self.rng.state() };
        let chances = chances_for_roll(c, &self.pity_timers, i);
        assert(chances == roll_chances(st, i as int));
        let gear_type_rolled = roll_gear_type(&mut self.rng, &chances, tier);
        assert(gear_type_rolled == gear_type_at(type_draw(st, i as int, tier).0));
        assert(self.rng.state() == type_draw(st, i as int, tier).1);
        let rarity_rolled = roll_rarity(&mut self.rng, &self.def_storage.gear_defs, gear_type_rolled, tier);
        assert(rarity_rolled == rarity_at(rarity_draw(defs, st, i as int, tier).0));
        assert(self.rng.state() == rarity_draw(defs, st, i as int, tier).1);
        assert(roll_pool(defs, st, i as int, tier) == pool_indices(defs, tier, gear_type_rolled, rarity_rolled));
        let ghost s2 = self.rng.state();
        let picked = draw_gear(&mut self.rng, &self.def_storage.gear_defs, tier, gear_type_rolled, rarity_rolled);
        match picked {
            None => {
                assert(roll_pool(defs, st, i as int, tier).len() == 0);
                assert(pool_weights(defs, roll_pool(defs, st, i as int, tier)).len() == 0);
                (chances, None)
            },
            Some(gear_idx) => {
                proof { lemma_pool_indices(defs, tier, gear_type_rolled, rarity_rolled); }
                let ghost pool = roll_pool(defs, st, i as int, tier);
                let ghost p = weighted_draw(pool_weights(defs, pool), s2).0;
                assert(0 <= p < pool.len());
                assert(0 <= pool[p] < defs.len());
                let n_defs = self.def_storage.gear_defs.len();
                assert(gear_idx as int == pool[p]);
                assert(roll_gear(defs, st, i as int, tier) == Some(gear_idx as int));
                let gear_def = &self.def_storage.gear_defs[gear_idx];
                let name = gear_def.name.clone();
                let name_hidden = gear_def.equippable();
                let gt = gear_def.gear_type;
                let item = Item {
                    name,
                    count: 1,
                    pending_sale: false,
                    pending_destroy: false,
                    name_hidden,
                    is_active: false,
                    is_rental: false,
                };
                self.pity_timers.increment_counters_except(gt);
                self.pity_timers.reset_counter_of(gt);
                let mut next = chances;
                match gt {
                    GearType::Resource => {},
                    GearType::Component => next.comp_chance = 0,
                    GearType::Drone | GearType::Weapon => {
                        next.drone_chance = 0;
                        next.weapon_chance = 0;
                        next.allow_temporal_drops = false;
                    },
                }
                (next, Some(item))
            },
        }
    }

    /// Rolls `value` times for the loot of an asteroid on a mission of `tier`.
    pub fn loot_drops(&mut self, value: i32, tier: u8) -> (items: Vec<Item>)
        requires
            loot_run_ok(
                old(self).def_storage.gear_defs@,
                loot_start(*old(self), tier),
                value as int,
                tier,
            ),
        ensures
            ({
                let (st, its) = loot_run(
                    old(self).def_storage.gear_defs@,
                    loot_start(*old(self), tier),
                    value as int,
                    tier,
                );
                &&& items@ == its
                &&& final(self).rng.state() == st.rng_state
                &&& final(self).pity_timers == st.pity
            }),
            final(self).def_storage == old(self).def_storage,
            final(self).metaprog == old(self).metaprog,
            final(self).current_id == old(self).current_id,
            final(self).cargo_scroll_offset == old(self).cargo_scroll_offset,
            final(self).cargo_selected_idx == old(self).cargo_selected_idx,
    {
        let ghost defs = self.def_storage.gear_defs@;
        let ghost start = loot_start(*self, tier);
        let capped_tier: usize = if tier >= 2 {
            1
        } else {
            0
        };
        let mut chances = LootChances {
            comp_chance: if capped_tier == 0 {
                50
            } else {
                98
            },
            drone_chance: 15,
            weapon_chance: 25,
            allow_temporal_drops: true,
        };
        let mut items: Vec<Item> = Vec::new();
        let mut i: i32 = 0;
        while i < value
            invariant
                0 <= i,
                value > 0 ==> i <= value,
                value <= 0 ==> i == 0,
                defs == self.def_storage.gear_defs@,
                self.def_storage == old(self).def_storage,
                self.metaprog == old(self).metaprog,
                self.current_id == old(self).current_id,
                self.cargo_scroll_offset == old(self).cargo_scroll_offset,
                self.cargo_selected_idx == old(self).cargo_selected_idx,
                start == loot_start(*old(self), tier),
                loot_run_ok(defs, start, value as int, tier),
                loot_run(defs, start, i as int, tier).0 == (LootState {
                    chances,
                    pity: self.pity_timers,
                    rng_state: self.rng.state(),
                }),
                items@ == loot_run(defs, start, i as int, tier).1,
            decreases value - i,
        {
            proof { lemma_loot_run_ok_step(defs, start, value as int, i as int, tier); }
            let (next, drop) = self.loot_roll(tier, i, &chances);
            chances = next;
            match drop {
                Some(item) => items.push(item),
                None => {},
            }
            i = i + 1;
        }
        items
    }
}

} // verus!

verus! {

// ---------------------------------------------------------------------------
// What loot rolls promise
// ---------------------------------------------------------------------------

/// A roll drops a single piece of gear that can drop from asteroids on that
/// tier, hidden exactly when the gear can be equipped.
pub proof fn lemma_loot_step_drop(defs: Seq<GearDef>, st: LootState, i: int, tier: u8)
    requires
        loot_step_ok(defs, st, i, tier),
    ensures
        loot_step(defs, st, i, tier).1 matches Some(it) ==> exists|k: int|
            0 <= k < defs.len() && loot_candidate(#[trigger] defs[k], tier) && it == dropped_item(
                defs[k],
            ),
{
    reveal(loot_step);
    reveal(loot_step_ok);
    let pool = roll_pool(defs, st, i, tier);
    if pool.len() > 0 {
        let s2 = rarity_draw(defs, st, i, tier).1;
        let w = pool_weights(defs, pool);
        let p = weighted_draw(w, s2).0;
        lemma_weighted_draw_index(w, s2);
        lemma_pool_indices(
            defs,
            tier,
            gear_type_at(type_draw(st, i, tier).0),
            rarity_at(rarity_draw(defs, st, i, tier).0),
        );
        let k = pool[p];
        assert(loot_candidate(defs[k], tier));
    }
}

/// A draw from a non-empty list of weights lands within the list.
proof fn lemma_weighted_draw_index(w: Seq<u32>, state: u32)
    requires
        w.len() > 0,
        weight_total(w) <= u32::MAX,
    ensures
        0 <= weighted_draw(w, state).0 < w.len(),
{
    if weight_total(w) > 0 {
        crate::rng::lemma_weighted_draw_positive(w, state);
    }
}

} // verus!

verus! {

/// `it` is the drop of a gear definition that can drop from asteroids on `tier`.
pub open spec fn dropped_from_candidate(defs: Seq<GearDef>, tier: u8, it: Item) -> bool {
    exists|k: int|
        0 <= k < defs.len() && loot_candidate(#[trigger] defs[k], tier) && it == dropped_item(defs[k])
}

/// The gear that roll `i` drops has the rolled type and rarity and can drop.
proof fn lemma_roll_gear_in_pool(defs: Seq<GearDef>, st: LootState, i: int, tier: u8)
    requires
        loot_step_ok(defs, st, i, tier),
    ensures
        roll_gear(defs, st, i, tier) matches Some(k) ==> {
            &&& 0 <= k < defs.len()
            &&& loot_candidate(defs[k], tier)
            &&& defs[k].gear_type == gear_type_at(type_draw(st, i, tier).0)
        },
{
    reveal(loot_step_ok);
    let pool = roll_pool(defs, st, i, tier);
    if pool.len() > 0 {
        let s2 = rarity_draw(defs, st, i, tier).1;
        lemma_weighted_draw_index(pool_weights(defs, pool), s2);
        lemma_pool_indices(
            defs,
            tier,
            gear_type_at(type_draw(st, i, tier).0),
            rarity_at(rarity_draw(defs, st, i, tier).0),
        );
    }
}

/// Every piece of loot an asteroid drops is a single piece of gear that can drop
/// from asteroids on that tier, and there are no more pieces than rolls.
pub proof fn lemma_loot_run_items(defs: Seq<GearDef>, st: LootState, n: int, tier: u8)
    requires
        loot_run_ok(defs, st, n, tier),
    ensures
        loot_run(defs, st, n, tier).1.len() <= if n > 0 {
            n
        } else {
            0
        },
        forall|j: int|
            0 <= j < loot_run(defs, st, n, tier).1.len() ==> dropped_from_candidate(
                defs,
                tier,
                #[trigger] loot_run(defs, st, n, tier).1[j],
            ),
    decreases n,
{
    if n > 0 {
        lemma_loot_run_items(defs, st, n - 1, tier);
        let mid = loot_run(defs, st, n - 1, tier).0;
        lemma_loot_step_drop(defs, mid, n - 1, tier);
        let prev = loot_run(defs, st, n - 1, tier).1;
        let cur = loot_run(defs, st, n, tier).1;
        assert forall|j: int| 0 <= j < cur.len() implies dropped_from_candidate(
            defs,
            tier,
            #[trigger] cur[j],
        ) by {
            if j < prev.len() {
                assert(cur[j] == prev[j]);
            } else {
                let it = loot_step(defs, mid, n - 1, tier).1.unwrap();
                assert(cur[j] == it);
                let k = choose|k: int|
                    0 <= k < defs.len() && loot_candidate(#[trigger] defs[k], tier) && it
                        == dropped_item(defs[k]);
                assert(loot_candidate(defs[k], tier) && cur[j] == dropped_item(defs[k]));
            }
        }
    }
}

/// Drones and weapons are the temporal drops.
pub open spec fn is_temporal(t: GearType) -> bool {
    t == GearType::Drone || t == GearType::Weapon
}

/// The chances after a temporal drop: no more drones or weapons.
pub open spec fn temporal_closed(c: LootChances) -> bool {
    !c.allow_temporal_drops && c.drone_chance == 0 && c.weapon_chance == 0
}

/// Whether roll `i` drops a drone or a weapon.
pub open spec fn step_temporal(defs: Seq<GearDef>, st: LootState, i: int, tier: u8) -> bool {
    roll_gear(defs, st, i, tier) matches Some(k) && is_temporal(defs[k].gear_type)
}

/// How many of the first `n` rolls drop a drone or a weapon.
pub open spec fn temporal_drops(defs: Seq<GearDef>, st: LootState, n: int, tier: u8) -> int
    decreases n,
{
    if n <= 0 {
        0
    } else {
        temporal_drops(defs, st, n - 1, tier) + if step_temporal(
            defs,
            loot_run(defs, st, n - 1, tier).0,
            n - 1,
            tier,
        ) {
            1int
        } else {
            0int
        }
    }
}

/// Once temporal drops are closed, a roll drops no drone or weapon and keeps them closed.
proof fn lemma_closed_step(defs: Seq<GearDef>, st: LootState, i: int, tier: u8)
    requires
        temporal_closed(st.chances),
        loot_step_ok(defs, st, i, tier),
    ensures
        !step_temporal(defs, st, i, tier),
        temporal_closed(loot_step(defs, st, i, tier).0.chances),
{
    reveal(loot_step);
    reveal(loot_step_ok);
    let c = roll_chances(st, i);
    let w = type_weights(c, tier);
    assert(c.drone_chance == 0 && c.weapon_chance == 0);
    assert(weight_total(w) >= base_res_chance(tier)) by {
        reveal_with_fuel(crate::rng::weight_prefix, 5);
    }
    crate::rng::lemma_weighted_draw_positive(w, st.rng_state);
    lemma_roll_gear_in_pool(defs, st, i, tier);
}

/// A roll that drops a drone or a weapon closes the temporal drops.
proof fn lemma_temporal_step_closes(defs: Seq<GearDef>, st: LootState, i: int, tier: u8)
    requires
        step_temporal(defs, st, i, tier),
    ensures
        temporal_closed(loot_step(defs, st, i, tier).0.chances),
{
    reveal(loot_step);
}

/// An asteroid drops at most one drone or weapon, and after one the temporal
/// drops stay closed.
pub proof fn lemma_at_most_one_temporal_drop(defs: Seq<GearDef>, st: LootState, n: int, tier: u8)
    requires
        loot_run_ok(defs, st, n, tier),
        st.chances.allow_temporal_drops,
    ensures
        temporal_drops(defs, st, n, tier) <= 1,
        temporal_drops(defs, st, n, tier) == 1 ==> temporal_closed(
            loot_run(defs, st, n, tier).0.chances,
        ),
    decreases n,
{
    if n > 0 {
        lemma_at_most_one_temporal_drop(defs, st, n - 1, tier);
        let mid = loot_run(defs, st, n - 1, tier).0;
        if temporal_drops(defs, st, n - 1, tier) == 1 {
            lemma_closed_step(defs, mid, n - 1, tier);
        } else if step_temporal(defs, mid, n - 1, tier) {
            lemma_temporal_step_closes(defs, mid, n - 1, tier);
        }
    }
}

} // verus!

verus! {

// ---------------------------------------------------------------------------
// When rolling loot cannot overflow
// ---------------------------------------------------------------------------

/// The most rolls, the largest pity counter, the most gear definitions and the
/// largest drop rate under which rolling loot is known to stay within its
/// integer types.
pub const LOOT_MAX_ROLLS: i32 = 1000;
pub const LOOT_MAX_PITY: i32 = 1000;
pub const LOOT_MAX_DEFS: usize = 1000;
pub const LOOT_MAX_DROP_RATE: u32 = 1_000_000;

/// Few enough definitions with small enough drop rates.
pub open spec fn defs_bounded(defs: Seq<GearDef>) -> bool {
    &&& defs.len() <= LOOT_MAX_DEFS
    &&& forall|k: int| 0 <= k < defs.len() ==> #[trigger] defs[k].drop_rate <= LOOT_MAX_DROP_RATE
}

/// Every pity counter lies within `-b..=b`.
pub open spec fn pity_in(p: PityTimers, b: int) -> bool {
    &&& -b <= p.drop_counter_component <= b
    &&& -b <= p.drop_counter_drone <= b
    &&& -b <= p.drop_counter_weapon <= b
}

/// What holds before roll `i` of a run that started within bounds.
pub open spec fn run_bounded(st: LootState, i: int) -> bool {
    &&& 0 <= i <= LOOT_MAX_ROLLS
    &&& st.chances.comp_chance <= 98 + i * 10_020
    &&& st.chances.drone_chance <= 15 + i * 4_005
    &&& st.chances.weapon_chance <= 25 + i * 6_010
    &&& pity_in(st.pity, LOOT_MAX_PITY + i)
}

proof fn lemma_pool_len(defs: Seq<GearDef>, tier: u8, t: GearType, r: Rarity)
    ensures
        pool_indices(defs, tier, t, r).len() <= defs.len(),
    decreases defs.len(),
{
    if defs.len() > 0 {
        lemma_pool_len(defs.drop_last(), tier, t, r);
    }
}

proof fn lemma_weight_prefix_small(w: Seq<u32>, n: int)
    requires
        0 <= n <= w.len(),
        forall|k: int| 0 <= k < w.len() ==> #[trigger] w[k] <= LOOT_MAX_DROP_RATE,
    ensures
        weight_prefix(w, n) <= n * 1_000_000,
    decreases n,
{
    if n > 0 {
        lemma_weight_prefix_small(w, n - 1);
    }
}

/// A pool of bounded definitions weighs less than `u32::MAX`.
proof fn lemma_pool_weight_small(defs: Seq<GearDef>, tier: u8, t: GearType, r: Rarity)
    requires
        defs_bounded(defs),
    ensures
        weight_total(pool_weights(defs, pool_indices(defs, tier, t, r))) <= 1_000_000_000,
{
    let pool = pool_indices(defs, tier, t, r);
    let w = pool_weights(defs, pool);
    lemma_pool_indices(defs, tier, t, r);
    lemma_pool_len(defs, tier, t, r);
    assert forall|k: int| 0 <= k < w.len() implies #[trigger] w[k] <= LOOT_MAX_DROP_RATE by {
        assert(w[k] == defs[pool[k]].drop_rate);
    }
    lemma_weight_prefix_small(w, w.len() as int);
}

/// The type weights of a roll add up to the four of them.
proof fn lemma_type_weight_total(c: LootChances, tier: u8)
    ensures
        weight_total(type_weights(c, tier)) == base_res_chance(tier) + c.comp_chance
            + c.drone_chance + c.weapon_chance,
{
    let w = type_weights(c, tier);
    assert(weight_prefix(w, 0) == 0);
    assert(weight_prefix(w, 1) == w[0]);
    assert(weight_prefix(w, 2) == w[0] + w[1]);
    assert(weight_prefix(w, 3) == w[0] + w[1] + w[2]);
    assert(weight_prefix(w, 4) == w[0] + w[1] + w[2] + w[3]);
}

/// A roll within bounds stays within its integer types and leaves the next
/// roll within bounds.
proof fn lemma_loot_step_bounded(defs: Seq<GearDef>, st: LootState, i: int, tier: u8)
    requires
        run_bounded(st, i),
        i < LOOT_MAX_ROLLS,
        defs_bounded(defs),
    ensures
        loot_step_ok(defs, st, i, tier),
        run_bounded(loot_step(defs, st, i, tier).0, i + 1),
{
    reveal(loot_step);
    reveal(loot_step_ok);
    let b = bumped(st.chances, i);
    let c = roll_chances(st, i);
    let p = st.pity;
    assert(b.comp_chance <= st.chances.comp_chance + 20);
    assert(b.drone_chance <= st.chances.drone_chance + 5);
    assert(b.weapon_chance <= st.chances.weapon_chance + 10);
    assert((b.comp_chance as i32) == b.comp_chance);
    assert((b.drone_chance as i32) == b.drone_chance);
    assert((b.weapon_chance as i32) == b.weapon_chance);
    assert(c.comp_chance <= b.comp_chance + 5 * (LOOT_MAX_PITY + i));
    assert(c.drone_chance <= b.drone_chance + 2 * (LOOT_MAX_PITY + i));
    assert(c.weapon_chance <= b.weapon_chance + 3 * (LOOT_MAX_PITY + i));
    lemma_type_weight_total(c, tier);
    let (t, s1) = type_draw(st, i, tier);
    let (rr, s2) = rarity_draw(defs, st, i, tier);
    lemma_pool_weight_small(defs, tier, gear_type_at(t), rarity_at(rr));
    let pool = roll_pool(defs, st, i, tier);
    if pool.len() > 0 {
        lemma_roll_gear_in_pool(defs, st, i, tier);
    }
}

/// Rolling at most `LOOT_MAX_ROLLS` times from a fresh start, with pity
/// counters and definitions within bounds, never overflows.
pub proof fn lemma_loot_run_bounded(defs: Seq<GearDef>, st: LootState, n: int, tier: u8)
    requires
        run_bounded(st, 0),
        defs_bounded(defs),
        n <= LOOT_MAX_ROLLS,
    ensures
        loot_run_ok(defs, st, n, tier),
        n >= 0 ==> run_bounded(loot_run(defs, st, n, tier).0, n),
    decreases n,
{
    if n > 0 {
        lemma_loot_run_bounded(defs, st, n - 1, tier);
        lemma_loot_step_bounded(defs, loot_run(defs, st, n - 1, tier).0, n - 1, tier);
    }
}

impl GameWorld {
    /// Whether rolling `value` times for loot is within the bounds under which
    /// it is known not to overflow: at most `LOOT_MAX_ROLLS` rolls, pity
    /// counters within `LOOT_MAX_PITY`, and bounded definitions.
    pub fn loot_drops_fit(&self, value: i32) -> (r: bool)
        ensures
            r == (value <= LOOT_MAX_ROLLS && pity_in(self.pity_timers, LOOT_MAX_PITY as int)
                && defs_bounded(self.def_storage.gear_defs@)),
            r ==> forall|tier: u8|
                loot_run_ok(
                    self.def_storage.gear_defs@,
                    #[trigger] loot_start(*self, tier),
                    value as int,
                    tier,
                ),
    {
        let p = &self.pity_timers;
        let pity_ok = -LOOT_MAX_PITY <= p.drop_counter_component
            && p.drop_counter_component <= LOOT_MAX_PITY && -LOOT_MAX_PITY <= p.drop_counter_drone
            && p.drop_counter_drone <= LOOT_MAX_PITY && -LOOT_MAX_PITY <= p.drop_counter_weapon
            && p.drop_counter_weapon <= LOOT_MAX_PITY;
        if value > LOOT_MAX_ROLLS || !pity_ok {
            return false;
        }
        let n = self.def_storage.gear_defs.len();
        if n > LOOT_MAX_DEFS {
            return false;
        }
        for k in 0..n
            invariant
                n == self.def_storage.gear_defs@.len(),
                forall|j: int| 0 <= j < k ==> #[trigger] self.def_storage.gear_defs@[j].drop_rate
                    <= LOOT_MAX_DROP_RATE,
        {
            if self.def_storage.gear_defs[k].drop_rate > LOOT_MAX_DROP_RATE {
                return false;
            }
        }
        assert forall|tier: u8|
            loot_run_ok(
                self.def_storage.gear_defs@,
                #[trigger] loot_start(*self, tier),
                value as int,
                tier,
            ) by {
            lemma_loot_run_bounded(
                self.def_storage.gear_defs@,
                loot_start(*self, tier),
                value as int,
                tier,
            );
        }
        true
    }
}

} // verus!

verus! {

/// A rarity weighs something only when some gear that can drop on the tier has
/// it, and then it weighs its rate for the rolled gear type.
pub proof fn lemma_rarity_weights_present(defs: Seq<GearDef>, t: GearType, tier: u8)
    ensures
        rarity_weights(defs, t, tier).len() == 5,
        forall|i: int|
            0 <= i < 5 && #[trigger] rarity_weights(defs, t, tier)[i] > 0 ==> has_loot_rarity(
                defs,
                rarity_at(i),
                tier,
            ),
        forall|i: int|
            0 <= i < 5 && has_loot_rarity(defs, rarity_at(i), tier) ==> #[trigger] rarity_weights(
                defs,
                t,
                tier,
            )[i] == rarity_rates(t, tier)[i],
{
}

/// Every rarity rate is small.
proof fn lemma_rarity_rates_small(t: GearType, tier: u8, k: int)
    requires
        0 <= k < 5,
    ensures
        rarity_rates(t, tier)[k] <= 144,
{
}

/// A weighted rarity draw lands on a rarity that some droppable gear has.
proof fn lemma_rarity_pick_present(defs: Seq<GearDef>, t: GearType, tier: u8, state: u32)
    requires
        weight_total(rarity_weights(defs, t, tier)) > 0,
    ensures
        0 <= weighted_draw(rarity_weights(defs, t, tier), state).0 < 5,
        has_loot_rarity(defs, rarity_at(weighted_draw(rarity_weights(defs, t, tier), state).0), tier),
{
    let w = rarity_weights(defs, t, tier);
    lemma_rarity_weights_present(defs, t, tier);
    assert forall|k: int| 0 <= k < w.len() implies #[trigger] w[k] <= LOOT_MAX_DROP_RATE by {
        lemma_rarity_rates_small(t, tier, k);
    }
    lemma_weight_prefix_small(w, 5);
    crate::rng::lemma_weighted_draw_positive(w, state);
}

/// The rarity a roll draws is one that some gear droppable on the tier has,
/// whenever such a rarity has a positive rate for the rolled gear type.
pub proof fn lemma_rarity_draw_present(defs: Seq<GearDef>, st: LootState, i: int, tier: u8)
    requires
        weight_total(rarity_weights(defs, gear_type_at(type_draw(st, i, tier).0), tier)) > 0,
    ensures
        0 <= rarity_draw(defs, st, i, tier).0 < 5,
        has_loot_rarity(defs, rarity_at(rarity_draw(defs, st, i, tier).0), tier),
{
    let (t, s1) = type_draw(st, i, tier);
    lemma_rarity_pick_present(defs, gear_type_at(t), tier, s1);
}

} // verus!
