use vstd::prelude::*;

use crate::rng::Rng;

verus! {

// ---------------------------------------------------------------------------
// Tags
// ---------------------------------------------------------------------------

pub const ASTEROID_LOOT: &'static str = "AsteroidLoot";
pub const GEAR_LOOT: &'static str = "GearLoot";
pub const SHIP_LOOT: &'static str = "ShipLoot";
pub const WEAPON_LOOT: &'static str = "WeaponLoot";
pub const STARTER_TAG: &'static str = "Starter";
pub const UNKNOWN_STR: &'static str = "UNKNOWN";

/// Whether some tag of `tags` reads `tag`.
pub open spec fn has_tag(tags: Seq<String>, tag: Seq<char>) -> bool {
    exists|k: int| 0 <= k < tags.len() && (#[trigger] tags[k])@ == tag
}

// ---------------------------------------------------------------------------
// Identifiers and kinds
// ---------------------------------------------------------------------------

#[derive(Clone, Copy, PartialEq, Eq, Structural, Hash)]
pub struct ElementID(pub u64);

#[derive(Clone, Copy, PartialEq, Eq, Structural, Default)]
pub enum ShipKind {
    #[default]
    LoanStar,
    BrittleStar,
    Gunship,
    Crabber,
    BattleStar,
    Carrier,
}

/// Per-ship polygon shape.
#[derive(Clone, Copy, PartialEq, Eq, Structural, Default)]
pub enum ShipShape {
    #[default]
    Triangle,
    Star,
    Diamond,
    Crab,
    TriangleWithTail,
    Pentagon,
}

#[derive(Clone, Copy, PartialEq, Eq, Structural, Default)]
pub enum EntityShape {
    #[default]
    Pellet,
    Oblong,
    Line,
    Disc,
}

/// How projectile length varies over its lifetime.
#[derive(Clone, Copy, PartialEq, Eq, Structural, Default)]
pub enum LengthCurve {
    #[default]
    Constant,
    Explosion,
}

/// What happens when a projectile hits something.
#[derive(Clone, Copy, PartialEq, Eq, Structural, Default)]
pub enum ImpactKind {
    #[default]
    NoImpact,
    Bouncing,
    Flak,
    Rocket,
    Missile,
}

/// How a weapon fires projectiles.
#[derive(Clone, Copy, PartialEq, Eq, Structural, Default)]
pub enum ShootKind {
    #[default]
    Default,
    TwinShoot,
    TwinWideShoot,
    ChamberShootThree,
    ChamberShootFive,
}

#[derive(Clone, Copy, PartialEq, Eq, Structural, Default)]
pub enum Rarity {
    Starter,
    #[default]
    Common,
    Uncommon,
    Rare,
    Epic,
    Legendary,
}

#[derive(Clone, Copy, PartialEq, Eq, Structural, PartialOrd, Ord, Default)]
pub enum GearType {
    Resource,
    #[default]
    Component,
    Drone,
    Weapon,
}

/// Which wave spawning logic a mission uses.
#[derive(Clone, Copy, PartialEq, Eq, Structural, Default)]
pub enum WaveKind {
    #[default]
    Starter,
    Mining,
    Bounty,
    Belt,
    Barren,
    Meteor,
}

// ---------------------------------------------------------------------------
// Items
// ---------------------------------------------------------------------------

#[derive(Clone)]
pub struct Item {
    pub name: String,
    pub count: i32,
    pub pending_sale: bool,
    pub pending_destroy: bool,
    pub name_hidden: bool,
    pub is_active: bool,
    pub is_rental: bool,
}

/// An item is available when it is known, kept and not up for sale.
pub open spec fn item_available(it: Item) -> bool {
    !it.name_hidden && !it.pending_destroy && !it.pending_sale
}

/// A fresh item of `count` pieces of `name`, with every flag cleared.
pub open spec fn plain_item(name: String, count: i32) -> Item {
    Item {
        name,
        count,
        pending_sale: false,
        pending_destroy: false,
        name_hidden: false,
        is_active: false,
        is_rental: false,
    }
}

impl Item {
    pub fn available(&self) -> (r: bool)
        ensures
            r == item_available(*self),
    {
        !self.name_hidden && !self.pending_destroy && !self.pending_sale
    }

    /// A field-by-field copy of the item.
    pub fn duplicate(&self) -> (r: Item)
        ensures
            r == *self,
    {
        Item {
            name: self.name.clone(),
            count: self.count,
            pending_sale: self.pending_sale,
            pending_destroy: self.pending_destroy,
            name_hidden: self.name_hidden,
            is_active: self.is_active,
            is_rental: self.is_rental,
        }
    }
}

// ---------------------------------------------------------------------------
// Pity timers
// ---------------------------------------------------------------------------

pub struct PityTimers {
    pub drop_counter_component: i32,
    pub drop_counter_drone: i32,
    pub drop_counter_weapon: i32,
}

pub const PITY_COMPONENT_START: i32 = -5;
pub const PITY_DRONE_START: i32 = -10;
pub const PITY_WEAPON_START: i32 = -10;

/// Counters as they stand at the start of a run.
pub open spec fn pity_start() -> PityTimers {
    PityTimers {
        drop_counter_component: PITY_COMPONENT_START,
        drop_counter_drone: PITY_DRONE_START,
        drop_counter_weapon: PITY_WEAPON_START,
    }
}

/// Every counter except the one of `t` goes up by one.
pub open spec fn pity_incremented(p: PityTimers, t: GearType) -> PityTimers {
    PityTimers {
        drop_counter_component: if t != GearType::Component {
            (p.drop_counter_component + 1) as i32
        } else {
            p.drop_counter_component
        },
        drop_counter_drone: if t != GearType::Drone {
            (p.drop_counter_drone + 1) as i32
        } else {
            p.drop_counter_drone
        },
        drop_counter_weapon: if t != GearType::Weapon {
            (p.drop_counter_weapon + 1) as i32
        } else {
            p.drop_counter_weapon
        },
    }
}

/// The counter of `t` goes back to its start value; resources have no counter.
pub open spec fn pity_reset_of(p: PityTimers, t: GearType) -> PityTimers {
    match t {
        GearType::Resource => p,
        GearType::Component => PityTimers { drop_counter_component: PITY_COMPONENT_START, ..p },
        GearType::Drone => PityTimers { drop_counter_drone: PITY_DRONE_START, ..p },
        GearType::Weapon => PityTimers { drop_counter_weapon: PITY_WEAPON_START, ..p },
    }
}

/// Whether incrementing the counters other than that of `t` stays within `i32`.
pub open spec fn pity_can_increment(p: PityTimers, t: GearType) -> bool {
    &&& (t != GearType::Component ==> p.drop_counter_component < i32::MAX)
    &&& (t != GearType::Drone ==> p.drop_counter_drone < i32::MAX)
    &&& (t != GearType::Weapon ==> p.drop_counter_weapon < i32::MAX)
}

impl Default for PityTimers {
    fn default() -> (r: Self)
        ensures
            r == pity_start(),
    {
        PityTimers {
            drop_counter_component: PITY_COMPONENT_START,
            drop_counter_drone: PITY_DRONE_START,
            drop_counter_weapon: PITY_WEAPON_START,
        }
    }
}

impl PityTimers {
    pub fn increment_counters_except(&mut self, gear_type: GearType)
        requires
            pity_can_increment(*old(self), gear_type),
        ensures
            *final(self) == pity_incremented(*old(self), gear_type),
    {
        if gear_type != GearType::Component {
            self.drop_counter_component = self.drop_counter_component + 1;
        }
        if gear_type != GearType::Drone {
            self.drop_counter_drone = self.drop_counter_drone + 1;
        }
        if gear_type != GearType::Weapon {
            self.drop_counter_weapon = self.drop_counter_weapon + 1;
        }
    }

    pub fn reset_counter_of(&mut self, gear_type: GearType)
        ensures
            *final(self) == pity_reset_of(*old(self), gear_type),
    {
        match gear_type {
            GearType::Resource => {},
            GearType::Component => {
                self.drop_counter_component = PityTimers::default().drop_counter_component
            },
            GearType::Drone => {
                self.drop_counter_drone = PityTimers::default().drop_counter_drone
            },
            GearType::Weapon => {
                self.drop_counter_weapon = PityTimers::default().drop_counter_weapon
            },
        }
    }

    pub fn reset_counters(&mut self)
        ensures
            *final(self) == pity_start(),
    {
        *self = PityTimers::default();
    }
}

} // verus!

verus! {

// ---------------------------------------------------------------------------
// Definitions
// ---------------------------------------------------------------------------

/// What the game logic reads of a drone definition.
pub struct ShipDef {
    pub name: String,
    pub kind: ShipKind,
    pub shape: ShipShape,
}

/// What the game logic reads of a weapon definition.
pub struct WeaponDef {
    pub name: String,
    pub magazine: i32,
    pub shoot_kind: ShootKind,
}

/// What the game logic reads of a gear definition.
pub struct GearDef {
    pub name: String,
    pub drop_rate: u32,
    pub instasell: bool,
    pub tags: Vec<String>,
    pub stackable: bool,
    pub indestructible: bool,
    pub rarity: Rarity,
    pub gear_type: GearType,
    pub mission_tiers: Option<Vec<u8>>,
    /// Whether the gear sells for more than nothing.
    pub has_value: bool,
}

/// Resources cannot be equipped; everything else can.
pub open spec fn gear_equippable(g: GearDef) -> bool {
    match g.gear_type {
        GearType::Resource => false,
        _ => true,
    }
}

impl GearDef {
    pub fn equippable(&self) -> (r: bool)
        ensures
            r == gear_equippable(*self),
    {
        match self.gear_type {
            GearType::Resource => false,
            GearType::Component | GearType::Drone | GearType::Weapon => true,
        }
    }
}

/// What the game logic reads of a mission definition.
pub struct MissionDef {
    pub name: String,
    pub initial_sides: i32,
    pub wave_kind: WaveKind,
    pub max_waves: i32,
    pub mission_tier: u8,
    pub tags: Vec<String>,
}

pub struct DefStorage {
    pub ship_defs: Vec<ShipDef>,
    pub weapon_defs: Vec<WeaponDef>,
    pub gear_defs: Vec<GearDef>,
    pub mission_defs: Vec<MissionDef>,
}

/// The character sequences of a list of strings.
pub open spec fn views(s: Seq<String>) -> Seq<Seq<char>> {
    s.map_values(|x: String| x@)
}

/// Names of the drone definitions, in order.
pub open spec fn ship_names(defs: Seq<ShipDef>) -> Seq<Seq<char>> {
    defs.map_values(|d: ShipDef| d.name@)
}

/// Names of the weapon definitions, in order.
pub open spec fn weapon_names(defs: Seq<WeaponDef>) -> Seq<Seq<char>> {
    defs.map_values(|d: WeaponDef| d.name@)
}

/// Names of the mission definitions, in order.
pub open spec fn mission_names(defs: Seq<MissionDef>) -> Seq<Seq<char>> {
    defs.map_values(|d: MissionDef| d.name@)
}

/// The test "this name is `x`".
pub open spec fn name_is(x: Seq<char>) -> spec_fn(Seq<char>) -> bool {
    |n: Seq<char>| n == x
}

/// Position of the first of `names` equal to `name` (the length when none is).
pub open spec fn name_position(names: Seq<Seq<char>>, name: Seq<char>) -> int {
    crate::seqs::first_match(names, name_is(name))
}

/// Index of the first gear definition called `name` (the length when there is none).
pub open spec fn gear_index(defs: Seq<GearDef>, name: Seq<char>) -> int {
    crate::seqs::first_match(defs, gear_called(name))
}

/// The test "this gear definition is called `name`".
pub open spec fn gear_called(name: Seq<char>) -> spec_fn(GearDef) -> bool {
    |g: GearDef| g.name@ == name
}

/// Whether some gear definition is called `name`.
pub open spec fn gear_known(defs: Seq<GearDef>, name: Seq<char>) -> bool {
    exists|k: int| 0 <= k < defs.len() && (#[trigger] defs[k]).name@ == name
}

/// The first gear definition called `name`.
pub open spec fn gear_named(defs: Seq<GearDef>, name: Seq<char>) -> GearDef {
    defs[gear_index(defs, name)]
}

/// Knowing a name puts its first definition within bounds.
pub proof fn lemma_gear_index(defs: Seq<GearDef>, name: Seq<char>)
    ensures
        0 <= gear_index(defs, name) <= defs.len(),
        gear_known(defs, name) <==> gear_index(defs, name) < defs.len(),
        gear_index(defs, name) < defs.len() ==> gear_named(defs, name).name@ == name,
{
    let p = gear_called(name);
    crate::seqs::lemma_first_match_props(defs, p);
    if gear_known(defs, name) {
        let k = choose|k: int| 0 <= k < defs.len() && (#[trigger] defs[k]).name@ == name;
        assert(p(defs[k]));
    }
}

impl DefStorage {
    pub fn all_ship_names(&self) -> (r: Vec<String>)
        ensures
            views(r@) == ship_names(self.ship_defs@),
    {
        let mut out: Vec<String> = Vec::new();
        let n = self.ship_defs.len();
        for i in 0..n
            invariant
                n == self.ship_defs@.len(),
                out@.len() == i,
                views(out@) == ship_names(self.ship_defs@).take(i as int),
        {
            let ghost prev = out@;
            out.push(self.ship_defs[i].name.clone());
            assert forall|j: int| 0 <= j < i + 1 implies #[trigger] views(out@)[j] == ship_names(
                self.ship_defs@,
            ).take(i + 1)[j] by {
                if j < i {
                    assert(views(prev)[j] == ship_names(self.ship_defs@).take(i as int)[j]);
                }
            }
            assert(views(out@) =~= ship_names(self.ship_defs@).take(i + 1));
        }
        assert(ship_names(self.ship_defs@).take(n as int) =~= ship_names(self.ship_defs@));
        out
    }

    pub fn all_weapon_names(&self) -> (r: Vec<String>)
        ensures
            views(r@) == weapon_names(self.weapon_defs@),
    {
        let mut out: Vec<String> = Vec::new();
        let n = self.weapon_defs.len();
        for i in 0..n
            invariant
                n == self.weapon_defs@.len(),
                out@.len() == i,
                views(out@) == weapon_names(self.weapon_defs@).take(i as int),
        {
            let ghost prev = out@;
            out.push(self.weapon_defs[i].name.clone());
            assert forall|j: int| 0 <= j < i + 1 implies #[trigger] views(out@)[j] == weapon_names(
                self.weapon_defs@,
            ).take(i + 1)[j] by {
                if j < i {
                    assert(views(prev)[j] == weapon_names(self.weapon_defs@).take(i as int)[j]);
                }
            }
            assert(views(out@) =~= weapon_names(self.weapon_defs@).take(i + 1));
        }
        assert(weapon_names(self.weapon_defs@).take(n as int) =~= weapon_names(self.weapon_defs@));
        out
    }

    /// Position of the first gear definition called `name`, if any.
    pub fn gear_position(&self, name: &String) -> (r: Option<usize>)
        ensures
            gear_known(self.gear_defs@, name@) ==> (r matches Some(k) && k == gear_index(
                self.gear_defs@,
                name@,
            )),
            !gear_known(self.gear_defs@, name@) ==> r is None,
    {
        let n = self.gear_defs.len();
        let ghost p = gear_called(name@);
        for i in 0..n
            invariant
                n == self.gear_defs@.len(),
                p == gear_called(name@),
                forall|j: int| 0 <= j < i ==> !p(#[trigger] self.gear_defs@[j]),
        {
            if self.gear_defs[i].name == *name {
                proof { crate::seqs::lemma_first_match(self.gear_defs@, p, i as int); }
                return Some(i);
            }
        }
        proof {
            crate::seqs::lemma_first_match(self.gear_defs@, p, n as int);
            lemma_gear_index(self.gear_defs@, name@);
        }
        None
    }
}

} // verus!

verus! {

// ---------------------------------------------------------------------------
// Career state and the world
// ---------------------------------------------------------------------------

/// The persistent state of a career that the game logic reads and writes.
pub struct DarkMeta {
    pub day_rent_due: i32,
    pub current_day: i32,
    pub cargo_hold: Vec<Item>,
    pub stash: Vec<Item>,
    pub cfg_weapon_choice: String,
    pub cfg_ship_choice: String,
}

impl Default for DarkMeta {
    fn default() -> (r: Self)
        ensures
            r.day_rent_due == 0,
            r.current_day == 0,
            r.cargo_hold@.len() == 0,
            r.stash@.len() == 0,
            r.cfg_weapon_choice@.len() == 0,
            r.cfg_ship_choice@.len() == 0,
    {
        DarkMeta {
            day_rent_due: 0,
            current_day: 0,
            cargo_hold: Vec::new(),
            stash: Vec::new(),
            cfg_weapon_choice: String::new(),
            cfg_ship_choice: String::new(),
        }
    }
}

/// The discrete state of the game: generator, definitions, identifiers, career,
/// pity timers and the cargo screen's cursor.
pub struct GameWorld {
    pub rng: Rng,
    pub def_storage: DefStorage,
    pub current_id: u64,
    pub metaprog: DarkMeta,
    pub pity_timers: PityTimers,
    pub cargo_scroll_offset: i32,
    pub cargo_selected_idx: usize,
}

impl GameWorld {
    pub fn new(seed: u32, def_storage: DefStorage) -> (w: Self)
        ensures
            w.rng.state() == if seed == 0 { 1u32 } else { seed },
            w.def_storage == def_storage,
            w.current_id == 1,
            w.metaprog.day_rent_due == 0,
            w.metaprog.current_day == 0,
            w.metaprog.cargo_hold@.len() == 0,
            w.metaprog.stash@.len() == 0,
            w.metaprog.cfg_weapon_choice@.len() == 0,
            w.metaprog.cfg_ship_choice@.len() == 0,
            w.pity_timers == pity_start(),
            w.cargo_scroll_offset == 0,
            w.cargo_selected_idx == 0,
    {
        GameWorld {
            rng: Rng::new(seed),
            def_storage,
            current_id: 1,
            metaprog: DarkMeta::default(),
            pity_timers: PityTimers::default(),
            cargo_scroll_offset: 0,
            cargo_selected_idx: 0,
        }
    }

    pub fn gen_id(&mut self) -> (id: ElementID)
        requires
            old(self).current_id < u64::MAX,
        ensures
            final(self).current_id == old(self).current_id + 1,
            id == ElementID(final(self).current_id),
            final(self).rng == old(self).rng,
            final(self).def_storage == old(self).def_storage,
            final(self).metaprog == old(self).metaprog,
            final(self).pity_timers == old(self).pity_timers,
            final(self).cargo_scroll_offset == old(self).cargo_scroll_offset,
            final(self).cargo_selected_idx == old(self).cargo_selected_idx,
    {
        self.current_id = self.current_id + 1;
        ElementID(self.current_id)
    }

    pub fn increment_day(&mut self)
        requires
            old(self).metaprog.current_day < i32::MAX,
        ensures
            final(self).metaprog.current_day == old(self).metaprog.current_day + 1,
            final(self).metaprog.day_rent_due == old(self).metaprog.day_rent_due,
            final(self).metaprog.cargo_hold == old(self).metaprog.cargo_hold,
            final(self).metaprog.stash == old(self).metaprog.stash,
            final(self).metaprog.cfg_weapon_choice == old(self).metaprog.cfg_weapon_choice,
            final(self).metaprog.cfg_ship_choice == old(self).metaprog.cfg_ship_choice,
            final(self).rng == old(self).rng,
            final(self).def_storage == old(self).def_storage,
            final(self).current_id == old(self).current_id,
            final(self).pity_timers == old(self).pity_timers,
            final(self).cargo_scroll_offset == old(self).cargo_scroll_offset,
            final(self).cargo_selected_idx == old(self).cargo_selected_idx,
    {
        self.metaprog.current_day = self.metaprog.current_day + 1;
    }

    pub fn days_until_rent(&self) -> (d: i32)
        requires
            i32::MIN <= self.metaprog.day_rent_due - self.metaprog.current_day <= i32::MAX,
        ensures
            d == self.metaprog.day_rent_due - self.metaprog.current_day,
    {
        self.metaprog.day_rent_due - self.metaprog.current_day
    }

    pub fn cfg_weapon_choice(&self) -> (r: String)
        ensures
            r == self.metaprog.cfg_weapon_choice,
    {
        self.metaprog.cfg_weapon_choice.clone()
    }

    pub fn cfg_ship_choice(&self) -> (r: String)
        ensures
            r == self.metaprog.cfg_ship_choice,
    {
        self.metaprog.cfg_ship_choice.clone()
    }

    pub fn cargo(&self) -> (r: &[Item])
        ensures
            r@ == self.metaprog.cargo_hold@,
    {
        self.metaprog.cargo_hold.as_slice()
    }
}

/// Everything but the cargo hold and the stash is the same in `a` and `b`.
pub open spec fn only_holds_changed(a: GameWorld, b: GameWorld) -> bool {
    &&& a.rng == b.rng
    &&& a.def_storage == b.def_storage
    &&& a.current_id == b.current_id
    &&& a.pity_timers == b.pity_timers
    &&& a.cargo_scroll_offset == b.cargo_scroll_offset
    &&& a.cargo_selected_idx == b.cargo_selected_idx
    &&& a.metaprog.day_rent_due == b.metaprog.day_rent_due
    &&& a.metaprog.current_day == b.metaprog.current_day
    &&& a.metaprog.cfg_weapon_choice == b.metaprog.cfg_weapon_choice
    &&& a.metaprog.cfg_ship_choice == b.metaprog.cfg_ship_choice
}

/// Spending a day brings the rent one day closer.
pub proof fn lemma_increment_day_brings_rent_closer(before: GameWorld, after: GameWorld)
    requires
        after.metaprog.current_day == before.metaprog.current_day + 1,
        after.metaprog.day_rent_due == before.metaprog.day_rent_due,
    ensures
        after.metaprog.day_rent_due - after.metaprog.current_day == before.metaprog.day_rent_due
            - before.metaprog.current_day - 1,
{
}

} // verus!

verus! {

// ---------------------------------------------------------------------------
// Looking definitions up by name
// ---------------------------------------------------------------------------

/// A name that occurs among `names` has its first occurrence within bounds.
pub proof fn lemma_name_position(names: Seq<Seq<char>>, name: Seq<char>)
    ensures
        0 <= name_position(names, name) <= names.len(),
        names.contains(name) <==> name_position(names, name) < names.len(),
        name_position(names, name) < names.len() ==> names[name_position(names, name)] == name,
{
    crate::seqs::lemma_first_match_props(names, name_is(name));
    if names.contains(name) {
        let k = choose|k: int| 0 <= k < names.len() && names[k] == name;
        assert(name_is(name)(names[k]));
    }
}

impl DefStorage {
    /// Position of the first drone definition called `name`.
    pub fn ship_position(&self, name: &String) -> (r: usize)
        requires
            ship_names(self.ship_defs@).contains(name@),
        ensures
            r as int == name_position(ship_names(self.ship_defs@), name@),
            r < self.ship_defs@.len(),
    {
        let ghost names = ship_names(self.ship_defs@);
        proof { lemma_name_position(names, name@); }
        let n = self.ship_defs.len();
        let mut k: usize = 0;
        while k < n
            invariant
                n == names.len(),
                names == ship_names(self.ship_defs@),
                name_position(names, name@) < n,
                k <= name_position(names, name@),
                forall|j: int| 0 <= j < k ==> !name_is(name@)(#[trigger] names[j]),
            decreases n - k,
        {
            assert(names[k as int] == self.ship_defs@[k as int].name@);
            if self.ship_defs[k].name == *name {
                proof { crate::seqs::lemma_first_match(names, name_is(name@), k as int); }
                return k;
            }
            proof { crate::seqs::lemma_first_match_props(names, name_is(name@)); }
            k = k + 1;
        }
        k
    }

    /// Position of the first weapon definition called `name`.
    pub fn weapon_position(&self, name: &String) -> (r: usize)
        requires
            weapon_names(self.weapon_defs@).contains(name@),
        ensures
            r as int == name_position(weapon_names(self.weapon_defs@), name@),
            r < self.weapon_defs@.len(),
    {
        let ghost names = weapon_names(self.weapon_defs@);
        proof { lemma_name_position(names, name@); }
        let n = self.weapon_defs.len();
        let mut k: usize = 0;
        while k < n
            invariant
                n == names.len(),
                names == weapon_names(self.weapon_defs@),
                name_position(names, name@) < n,
                k <= name_position(names, name@),
                forall|j: int| 0 <= j < k ==> !name_is(name@)(#[trigger] names[j]),
            decreases n - k,
        {
            assert(names[k as int] == self.weapon_defs@[k as int].name@);
            if self.weapon_defs[k].name == *name {
                proof { crate::seqs::lemma_first_match(names, name_is(name@), k as int); }
                return k;
            }
            proof { crate::seqs::lemma_first_match_props(names, name_is(name@)); }
            k = k + 1;
        }
        k
    }

    /// Position of the first mission definition called `name`.
    pub fn mission_position(&self, name: &String) -> (r: usize)
        requires
            mission_names(self.mission_defs@).contains(name@),
        ensures
            r as int == name_position(mission_names(self.mission_defs@), name@),
            r < self.mission_defs@.len(),
    {
        let ghost names = mission_names(self.mission_defs@);
        proof { lemma_name_position(names, name@); }
        let n = self.mission_defs.len();
        let mut k: usize = 0;
        while k < n
            invariant
                n == names.len(),
                names == mission_names(self.mission_defs@),
                name_position(names, name@) < n,
                k <= name_position(names, name@),
                forall|j: int| 0 <= j < k ==> !name_is(name@)(#[trigger] names[j]),
            decreases n - k,
        {
            assert(names[k as int] == self.mission_defs@[k as int].name@);
            if self.mission_defs[k].name == *name {
                proof { crate::seqs::lemma_first_match(names, name_is(name@), k as int); }
                return k;
            }
            proof { crate::seqs::lemma_first_match_props(names, name_is(name@)); }
            k = k + 1;
        }
        k
    }
}

impl GameWorld {
    /// The first drone definition called `name`.
    pub fn ship_def_by_name(&self, name: &String) -> (d: &ShipDef)
        requires
            ship_names(self.def_storage.ship_defs@).contains(name@),
        ensures
            *d == self.def_storage.ship_defs@[name_position(
                ship_names(self.def_storage.ship_defs@),
                name@,
            )],
    {
        let k = self.def_storage.ship_position(name);
        &self.def_storage.ship_defs[k]
    }

    /// The first weapon definition called `name`.
    pub fn weapon_def_by_name(&self, name: &String) -> (d: &WeaponDef)
        requires
            weapon_names(self.def_storage.weapon_defs@).contains(name@),
        ensures
            *d == self.def_storage.weapon_defs@[name_position(
                weapon_names(self.def_storage.weapon_defs@),
                name@,
            )],
    {
        let k = self.def_storage.weapon_position(name);
        &self.def_storage.weapon_defs[k]
    }

    /// The first mission definition called `name`.
    pub fn mission_def_by_name(&self, name: &String) -> (d: &MissionDef)
        requires
            mission_names(self.def_storage.mission_defs@).contains(name@),
        ensures
            *d == self.def_storage.mission_defs@[name_position(
                mission_names(self.def_storage.mission_defs@),
                name@,
            )],
    {
        let k = self.def_storage.mission_position(name);
        &self.def_storage.mission_defs[k]
    }
}

} // verus!
