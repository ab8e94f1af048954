use vstd::prelude::*;
use vstd::string::StringExecFns;

use crate::cargo::{
    activated, lemma_stack_all_total, lemma_take_conserves, lost_marked, name_total, own_total,
    sale_marked, stack_all, stack_all_ok, take_left, take_out,
};
use crate::world::{
    name_position, gear_equippable, gear_index, gear_known, gear_named, has_tag, item_available,
    lemma_gear_index, ship_names, weapon_names, DefStorage, GameWorld, GearDef, Item, MissionDef,
    STARTER_TAG,
};

verus! {

pub const STARTING_RENT_DURATION: i32 = 7;

/// A rented item: one piece of `name`, on loan.
pub open spec fn rental_item(name: String) -> Item {
    Item {
        name,
        count: 1,
        pending_sale: false,
        pending_destroy: false,
        name_hidden: false,
        is_active: false,
        is_rental: true,
    }
}

/// The career a new game starts with: day 1, rent due a week later, the first
/// drone and weapon chosen and on loan, nothing else.
pub open spec fn fresh_career(w: GameWorld, defs: DefStorage) -> bool {
    &&& w.metaprog.current_day == 1
    &&& w.metaprog.day_rent_due == 1 + STARTING_RENT_DURATION
    &&& w.metaprog.cfg_ship_choice == defs.ship_defs@[0].name
    &&& w.metaprog.cfg_weapon_choice == defs.weapon_defs@[0].name
    &&& w.metaprog.cargo_hold@ == seq![
        rental_item(defs.ship_defs@[0].name),
        rental_item(defs.weapon_defs@[0].name),
    ]
    &&& w.metaprog.stash@.len() == 0
}

/// Position of the first mission definition tagged as the starter mission.
pub open spec fn starter_index(defs: Seq<MissionDef>) -> int {
    crate::seqs::first_match(defs, |m: MissionDef| has_tag(m.tags@, STARTER_TAG@))
}

fn has_starter_tag(tags: &Vec<String>) -> (r: bool)
    ensures
        r == has_tag(tags@, STARTER_TAG@),
{
    let target = String::from_str(STARTER_TAG);
    let n = tags.len();
    for k in 0..n
        invariant
            n == tags@.len(),
            target@ == STARTER_TAG@,
            forall|j: int| 0 <= j < k ==> (#[trigger] tags@[j])@ != STARTER_TAG@,
    {
        if tags[k] == target {
            return true;
        }
    }
    false
}

impl DefStorage {
    /// Position of the starter mission, if there is one.
    pub fn starter_mission_index(&self) -> (r: Option<usize>)
        ensures
            ({
                let f = starter_index(self.mission_defs@);
                &&& f < self.mission_defs@.len() ==> r == Some(f as usize)
                &&& f >= self.mission_defs@.len() ==> r is None
            }),
    {
        let ghost p = |m: MissionDef| has_tag(m.tags@, STARTER_TAG@);
        let n = self.mission_defs.len();
        for k in 0..n
            invariant
                n == self.mission_defs@.len(),
                p == (|m: MissionDef| has_tag(m.tags@, STARTER_TAG@)),
                forall|j: int| 0 <= j < k ==> !p(#[trigger] self.mission_defs@[j]),
        {
            if has_starter_tag(&self.mission_defs[k].tags) {
                proof { crate::seqs::lemma_first_match(self.mission_defs@, p, k as int); }
                return Some(k);
            }
        }
        proof { crate::seqs::lemma_first_match(self.mission_defs@, p, n as int); }
        None
    }
}

impl GameWorld {
    /// Starts a career afresh: day 1, rent due a week later, the first drone and
    /// weapon chosen and on loan, and nothing else in the hold or the stash.
    pub fn start_career(&mut self)
        requires
            old(self).def_storage.ship_defs@.len() > 0,
            old(self).def_storage.weapon_defs@.len() > 0,
        ensures
            fresh_career(*final(self), old(self).def_storage),
            final(self).def_storage == old(self).def_storage,
            final(self).rng == old(self).rng,
            final(self).current_id == old(self).current_id,
            final(self).pity_timers == old(self).pity_timers,
            final(self).cargo_scroll_offset == old(self).cargo_scroll_offset,
            final(self).cargo_selected_idx == old(self).cargo_selected_idx,
    {
        self.metaprog = crate::world::DarkMeta::default();
        self.metaprog.current_day = 1;
        self.metaprog.day_rent_due = 1 + STARTING_RENT_DURATION;
        let init_ship = self.def_storage.ship_defs[0].name.clone();
        let init_weapon = self.def_storage.weapon_defs[0].name.clone();
        self.metaprog.cfg_ship_choice = init_ship.clone();
        self.metaprog.cfg_weapon_choice = init_weapon.clone();
        self.metaprog.cargo_hold.push(
            Item {
                name: init_ship,
                count: 1,
                pending_sale: false,
                pending_destroy: false,
                name_hidden: false,
                is_active: false,
                is_rental: true,
            },
        );
        self.metaprog.cargo_hold.push(
            Item {
                name: init_weapon,
                count: 1,
                pending_sale: false,
                pending_destroy: false,
                name_hidden: false,
                is_active: false,
                is_rental: true,
            },
        );
        assert(self.metaprog.cargo_hold@ =~= seq![
            rental_item(self.def_storage.ship_defs@[0].name),
            rental_item(self.def_storage.weapon_defs@[0].name),
        ]);
    }
}

/// A new game: a world seeded with `seed` over `def_storage`, with a fresh career.
pub fn new_game(seed: u32, def_storage: DefStorage) -> (w: GameWorld)
    requires
        def_storage.ship_defs@.len() > 0,
        def_storage.weapon_defs@.len() > 0,
    ensures
        fresh_career(w, def_storage),
        w.def_storage == def_storage,
        w.rng.state() == if seed == 0 {
            1u32
        } else {
            seed
        },
        w.current_id == 1,
        w.pity_timers == crate::world::pity_start(),
        w.cargo_scroll_offset == 0,
        w.cargo_selected_idx == 0,
{
    let mut w = GameWorld::new(seed, def_storage);
    w.start_career();
    w
}

} // verus!

verus! {

// ---------------------------------------------------------------------------
// Cargo screen
// ---------------------------------------------------------------------------

/// The item the cargo screen acts on: the selected one, or the last when the
/// selection runs past the end.
pub open spec fn interact_index(selected: usize, len: int) -> int {
    if selected < len - 1 {
        selected as int
    } else {
        len - 1
    }
}

/// `it` with its name revealed.
pub open spec fn revealed(it: Item) -> Item {
    Item { name_hidden: false, ..it }
}

/// A known item can be stowed when it is neither lost nor on loan.
pub open spec fn stowable(it: Item) -> bool {
    !it.name_hidden && !it.pending_destroy && !it.is_rental
}

/// Two holds that agree on names and counts have the same totals.
pub proof fn lemma_name_total_same(h1: Seq<Item>, h2: Seq<Item>, name: Seq<char>)
    requires
        h1.len() == h2.len(),
        forall|i: int|
            0 <= i < h1.len() ==> (#[trigger] h1[i]).name@ == h2[i].name@ && h1[i].count
                == h2[i].count,
    ensures
        name_total(h1, name) == name_total(h2, name),
    decreases h1.len(),
{
    if h1.len() > 0 {
        let t1 = h1.drop_last();
        let t2 = h2.drop_last();
        assert forall|i: int| 0 <= i < t1.len() implies (#[trigger] t1[i]).name@ == t2[i].name@
            && t1[i].count == t2[i].count by {
            assert(t1[i] == h1[i] && t2[i] == h2[i]);
        }
        lemma_name_total_same(t1, t2, name);
        assert(h1.last() == h1[h1.len() - 1]);
        assert(h2.last() == h2[h2.len() - 1]);
    }
}

impl GameWorld {
    /// The cargo screen's INTERACT button: reveals a hidden item, or stows one
    /// piece of a known item that is neither lost nor on loan; then refreshes
    /// which drone and weapon are active.
    pub fn handle_cargo_interact(&mut self)
        requires
            ({
                let hold = old(self).metaprog.cargo_hold@;
                let idx = interact_index(old(self).cargo_selected_idx, hold.len() as int);
                hold.len() > 0 && stowable(hold[idx]) ==> stack_all_ok(
                    old(self).metaprog.stash@,
                    seq![take_out(hold, idx, 1)],
                    old(self).def_storage.gear_defs@,
                )
            }),
        ensures
            ({
                let hold = old(self).metaprog.cargo_hold@;
                let stash = old(self).metaprog.stash@;
                let sn = ship_names(old(self).def_storage.ship_defs@);
                let wn = weapon_names(old(self).def_storage.weapon_defs@);
                let idx = interact_index(old(self).cargo_selected_idx, hold.len() as int);
                &&& hold.len() == 0 ==> final(self).metaprog.cargo_hold@ == hold
                    && final(self).metaprog.stash@ == stash
                &&& hold.len() > 0 && hold[idx].name_hidden ==> final(self).metaprog.cargo_hold@
                    == activated(hold.update(idx, revealed(hold[idx])), sn, wn)
                    && final(self).metaprog.stash@ == stash
                &&& hold.len() > 0 && stowable(hold[idx]) ==> final(self).metaprog.cargo_hold@
                    == activated(take_left(hold, idx, 1), sn, wn) && final(self).metaprog.stash@
                    == stack_all(stash, seq![take_out(hold, idx, 1)], old(self).def_storage.gear_defs@)
                &&& hold.len() > 0 && !hold[idx].name_hidden && !stowable(hold[idx])
                    ==> final(self).metaprog.cargo_hold@ == hold && final(self).metaprog.stash@
                    == stash
            }),
            crate::world::only_holds_changed(*old(self), *final(self)),
    {
        let len = self.metaprog.cargo_hold.len();
        if len == 0 {
            return;
        }
        let last = len - 1;
        let idx = if self.cargo_selected_idx < last {
            self.cargo_selected_idx
        } else {
            last
        };
        if idx >= len {
            return;
        }
        let name_hidden = self.metaprog.cargo_hold[idx].name_hidden;
        let pending_destroy = self.metaprog.cargo_hold[idx].pending_destroy;
        let is_rental = self.metaprog.cargo_hold[idx].is_rental;
        if name_hidden {
            self.reveal_cargo(idx);
            self.try_set_active_ship_and_weapon();
        } else if !pending_destroy && !is_rental {
            let taken = self.take_cargo(idx, 1);
            let items = vec![taken];
            assert(items@ =~= seq![take_out(old(self).metaprog.cargo_hold@, idx as int, 1)]);
            self.add_stash(items);
            self.try_set_active_ship_and_weapon();
        }
    }
}

/// Stowing conserves counts: for every name, what the hold and the stash hold
/// together is the same before and after the INTERACT button.
pub proof fn lemma_stow_conserves(
    hold: Seq<Item>,
    stash: Seq<Item>,
    idx: int,
    defs: DefStorage,
    name: Seq<char>,
)
    requires
        0 <= idx < hold.len(),
        stack_all_ok(stash, seq![take_out(hold, idx, 1)], defs.gear_defs@),
    ensures
        name_total(
            activated(
                take_left(hold, idx, 1),
                ship_names(defs.ship_defs@),
                weapon_names(defs.weapon_defs@),
            ),
            name,
        ) + name_total(stack_all(stash, seq![take_out(hold, idx, 1)], defs.gear_defs@), name)
            == name_total(hold, name) + name_total(stash, name),
{
    let left = take_left(hold, idx, 1);
    let act = activated(left, ship_names(defs.ship_defs@), weapon_names(defs.weapon_defs@));
    lemma_name_total_same(act, left, name);
    lemma_take_conserves(hold, idx, 1, name);
    let out = seq![take_out(hold, idx, 1)];
    lemma_stack_all_total(stash, out, defs.gear_defs@, name);
    assert(out.drop_last() =~= Seq::<Item>::empty());
    reveal_with_fuel(name_total, 2);
    assert(name_total(out, name) == own_total(take_out(hold, idx, 1), name));
}

} // verus!

verus! {

// ---------------------------------------------------------------------------
// Mission scanner
// ---------------------------------------------------------------------------

/// The highest mission tier the scanner finds on `day`: one more per three days.
pub open spec fn scan_max_tier(day: i32) -> u8 {
    let t = ((#[verifier::truncate] (day as u8)) / 3 + 1) as u8;
    if t < 1 {
        1
    } else {
        t
    }
}

/// A mission the scanner may offer: not the starter, not already offered or
/// running, and not above the tier reached.
pub open spec fn mission_eligible(
    m: MissionDef,
    scanner: Seq<char>,
    current: Option<Seq<char>>,
    max_tier: u8,
) -> bool {
    &&& !has_tag(m.tags@, STARTER_TAG@)
    &&& m.name@ != scanner
    &&& match current {
        None => true,
        Some(c) => m.name@ != c,
    }
    &&& m.mission_tier <= max_tier
}

/// Positions of the eligible missions, in order.
pub open spec fn eligible_indices(
    defs: Seq<MissionDef>,
    scanner: Seq<char>,
    current: Option<Seq<char>>,
    max_tier: u8,
) -> Seq<int>
    decreases defs.len(),
{
    if defs.len() == 0 {
        Seq::empty()
    } else {
        let prev = eligible_indices(defs.drop_last(), scanner, current, max_tier);
        if mission_eligible(defs.last(), scanner, current, max_tier) {
            prev.push(defs.len() - 1)
        } else {
            prev
        }
    }
}

/// Every eligible position points at an eligible mission.
pub proof fn lemma_eligible_indices(
    defs: Seq<MissionDef>,
    scanner: Seq<char>,
    current: Option<Seq<char>>,
    max_tier: u8,
)
    ensures
        forall|k: int|
            0 <= k < eligible_indices(defs, scanner, current, max_tier).len() ==> {
                let j = #[trigger] eligible_indices(defs, scanner, current, max_tier)[k];
                0 <= j < defs.len() && mission_eligible(defs[j], scanner, current, max_tier)
            },
    decreases defs.len(),
{
    if defs.len() > 0 {
        let d = defs.drop_last();
        lemma_eligible_indices(d, scanner, current, max_tier);
        let e = eligible_indices(defs, scanner, current, max_tier);
        let pe = eligible_indices(d, scanner, current, max_tier);
        assert forall|k: int| 0 <= k < e.len() implies {
            let j = #[trigger] e[k];
            0 <= j < defs.len() && mission_eligible(defs[j], scanner, current, max_tier)
        } by {
            if k < pe.len() {
                assert(e[k] == pe[k]);
                assert(defs[pe[k]] == d[pe[k]]);
            }
        }
    }
}

/// The view of an optional name.
pub open spec fn opt_view(o: Option<String>) -> Option<Seq<char>> {
    match o {
        None => None,
        Some(s) => Some(s@),
    }
}

fn mission_is_eligible(m: &MissionDef, scanner: &String, current: &Option<String>, max_tier: u8) -> (r: bool)
    ensures
        r == mission_eligible(*m, scanner@, opt_view(*current), max_tier),
{
    let other = match current {
        None => true,
        Some(c) => !(m.name == *c),
    };
    !has_starter_tag(&m.tags) && !(m.name == *scanner) && other && m.mission_tier <= max_tier
}

impl GameWorld {
    /// Concludes a scan: draws one of the eligible missions, if there is any.
    /// Returns its position among the mission definitions.
    pub fn scan_pick_mission(
        &mut self,
        current_scanner_name: &String,
        current_mission_name: &Option<String>,
    ) -> (r: Option<usize>)
        ensures
            ({
                let e = eligible_indices(
                    old(self).def_storage.mission_defs@,
                    current_scanner_name@,
                    opt_view(*current_mission_name),
                    scan_max_tier(old(self).metaprog.current_day),
                );
                let n = (e.len() % 0x1_0000_0000) as u32;
                &&& e.len() == 0 ==> r is None && final(self).rng == old(self).rng
                &&& e.len() > 0 ==> r == Some(
                    e[crate::rng::range_u32_value(old(self).rng.state(), 0, n) as int] as usize,
                ) && final(self).rng.state() == crate::rng::range_u32_state(
                    old(self).rng.state(),
                    0,
                    n,
                )
            }),
            final(self).def_storage == old(self).def_storage,
            final(self).metaprog == old(self).metaprog,
            final(self).current_id == old(self).current_id,
            final(self).pity_timers == old(self).pity_timers,
            final(self).cargo_scroll_offset == old(self).cargo_scroll_offset,
            final(self).cargo_selected_idx == old(self).cargo_selected_idx,
    {
        let day_byte = #[verifier::truncate] (self.metaprog.current_day as u8);
        let t = day_byte / 3 + 1;
        let max_tier = if t < 1 {
            1
        } else {
            t
        };
        let ghost cur = opt_view(*current_mission_name);
        let mut eligible: Vec<usize> = Vec::new();
        let n = self.def_storage.mission_defs.len();
        for i in 0..n
            invariant
                n == self.def_storage.mission_defs@.len(),
                max_tier == scan_max_tier(self.metaprog.current_day),
                cur == opt_view(*current_mission_name),
                eligible@.len() == eligible_indices(
                    self.def_storage.mission_defs@.take(i as int),
                    current_scanner_name@,
                    cur,
                    max_tier,
                ).len(),
                forall|k: int|
                    0 <= k < eligible@.len() ==> #[trigger] eligible@[k] as int == eligible_indices(
                        self.def_storage.mission_defs@.take(i as int),
                        current_scanner_name@,
                        cur,
                        max_tier,
                    )[k],
        {
            let ghost prev = eligible@;
            assert(self.def_storage.mission_defs@.take(i + 1).drop_last()
                =~= self.def_storage.mission_defs@.take(i as int));
            assert(self.def_storage.mission_defs@.take(i + 1).last()
                == self.def_storage.mission_defs@[i as int]);
            if mission_is_eligible(
                &self.def_storage.mission_defs[i],
                current_scanner_name,
                current_mission_name,
                max_tier,
            ) {
                eligible.push(i);
                assert forall|k: int| 0 <= k < eligible@.len() implies #[trigger] eligible@[k] as int
                    == eligible_indices(
                    self.def_storage.mission_defs@.take(i + 1),
                    current_scanner_name@,
                    cur,
                    max_tier,
                )[k] by {
                    if k < prev.len() {
                        assert(eligible@[k] == prev[k]);
                    }
                }
            }
        }
        assert(self.def_storage.mission_defs@.take(n as int) =~= self.def_storage.mission_defs@);
        if eligible.len() == 0 {
            return None;
        }
        let len = eligible.len();
        let m = #[verifier::truncate] (len as u32);
        assert(m as u64 == (len as u64) % 0x1_0000_0000u64) by (bit_vector)
            requires
                m == #[verifier::truncate] (len as u32),
        ;
        let pick = self.rng.gen_range_u32(0, m) as usize;
        Some(eligible[pick])
    }
}

/// The scanner only ever offers an eligible mission.
pub proof fn lemma_scan_pick_eligible(
    defs: Seq<MissionDef>,
    scanner: Seq<char>,
    current: Option<Seq<char>>,
    day: i32,
    state: u32,
)
    requires
        eligible_indices(defs, scanner, current, scan_max_tier(day)).len() > 0,
    ensures
        ({
            let e = eligible_indices(defs, scanner, current, scan_max_tier(day));
            let n = (e.len() % 0x1_0000_0000) as u32;
            let j = e[crate::rng::range_u32_value(state, 0, n) as int];
            0 <= j < defs.len() && mission_eligible(defs[j], scanner, current, scan_max_tier(day))
        }),
{
    lemma_eligible_indices(defs, scanner, current, scan_max_tier(day));
}

} // verus!

verus! {

// ---------------------------------------------------------------------------
// Deploying and ending a run
// ---------------------------------------------------------------------------

/// An item whose gear effect applies on deployment: known, available, with an
/// equippable definition.
pub open spec fn equips(it: Item, defs: Seq<GearDef>) -> bool {
    &&& !it.name_hidden
    &&& item_available(it)
    &&& gear_known(defs, it.name@)
    &&& gear_equippable(gear_named(defs, it.name@))
}

/// For every item that equips, in cargo order: the position of its definition
/// and how many pieces of it there are.
pub open spec fn equip_list(hold: Seq<Item>, defs: Seq<GearDef>) -> Seq<(int, i32)>
    decreases hold.len(),
{
    if hold.len() == 0 {
        Seq::empty()
    } else {
        let prev = equip_list(hold.drop_last(), defs);
        let it = hold.last();
        if equips(it, defs) {
            prev.push((gear_index(defs, it.name@), it.count))
        } else {
            prev
        }
    }
}

impl GameWorld {
    /// The gear whose effects apply when deploying: for each item that equips,
    /// the position of its definition and its count.
    pub fn active_cargo_gear(&self) -> (r: Vec<(usize, i32)>)
        ensures
            r@.len() == equip_list(self.metaprog.cargo_hold@, self.def_storage.gear_defs@).len(),
            forall|k: int|
                0 <= k < r@.len() ==> (#[trigger] r@[k]).0 as int == equip_list(
                    self.metaprog.cargo_hold@,
                    self.def_storage.gear_defs@,
                )[k].0 && r@[k].1 == equip_list(
                    self.metaprog.cargo_hold@,
                    self.def_storage.gear_defs@,
                )[k].1,
    {
        let ghost hold = self.metaprog.cargo_hold@;
        let ghost defs = self.def_storage.gear_defs@;
        let mut out: Vec<(usize, i32)> = Vec::new();
        let n = self.metaprog.cargo_hold.len();
        for i in 0..n
            invariant
                n == hold.len(),
                hold == self.metaprog.cargo_hold@,
                defs == self.def_storage.gear_defs@,
                out@.len() == equip_list(hold.take(i as int), defs).len(),
                forall|k: int|
                    0 <= k < out@.len() ==> (#[trigger] out@[k]).0 as int == equip_list(
                        hold.take(i as int),
                        defs,
                    )[k].0 && out@[k].1 == equip_list(hold.take(i as int), defs)[k].1,
        {
            let ghost prev = out@;
            assert(hold.take(i + 1).drop_last() =~= hold.take(i as int));
            assert(hold.take(i + 1).last() == hold[i as int]);
            let item = &self.metaprog.cargo_hold[i];
            if !item.name_hidden && item.available() {
                proof { lemma_gear_index(defs, item.name@); }
                match self.def_storage.gear_position(&item.name) {
                    Some(k) => {
                        if self.def_storage.gear_defs[k].equippable() {
                            out.push((k, item.count));
                            assert forall|m: int| 0 <= m < out@.len() implies (#[trigger] out@[m]).0 as int
                                == equip_list(hold.take(i + 1), defs)[m].0 && out@[m].1 == equip_list(
                                hold.take(i + 1),
                                defs,
                            )[m].1 by {
                                if m < prev.len() {
                                    assert(out@[m] == prev[m]);
                                }
                            }
                        }
                    },
                    None => {},
                }
            }
        }
        assert(hold.take(n as int) =~= hold);
        out
    }

    /// Settles the cargo at the end of a run. A destroyed drone loses every
    /// destructible item and falls back to the first drone and weapon; a
    /// successful extraction brings the floating loot aboard. Then instasell
    /// items go up for sale and a day passes.
    pub fn settle_run_cargo(&mut self, destroyed: bool, loot: Vec<Item>)
        requires
            destroyed ==> old(self).def_storage.ship_defs@.len() > 0
                && old(self).def_storage.weapon_defs@.len() > 0,
            !destroyed ==> stack_all_ok(
                old(self).metaprog.cargo_hold@,
                loot@,
                old(self).def_storage.gear_defs@,
            ),
            old(self).metaprog.current_day < i32::MAX,
        ensures
            ({
                let defs = old(self).def_storage;
                let hold = old(self).metaprog.cargo_hold@;
                let settled = if destroyed {
                    lost_marked(hold, defs.gear_defs@)
                } else {
                    stack_all(hold, loot@, defs.gear_defs@)
                };
                &&& final(self).metaprog.cargo_hold@ == sale_marked(settled, defs.gear_defs@)
                &&& destroyed ==> final(self).metaprog.cfg_ship_choice == defs.ship_defs@[0].name
                    && final(self).metaprog.cfg_weapon_choice == defs.weapon_defs@[0].name
                &&& !destroyed ==> final(self).metaprog.cfg_ship_choice
                    == old(self).metaprog.cfg_ship_choice && final(self).metaprog.cfg_weapon_choice
                    == old(self).metaprog.cfg_weapon_choice
            }),
            final(self).metaprog.current_day == old(self).metaprog.current_day + 1,
            final(self).metaprog.day_rent_due == old(self).metaprog.day_rent_due,
            final(self).metaprog.stash == old(self).metaprog.stash,
            final(self).def_storage == old(self).def_storage,
            final(self).rng == old(self).rng,
            final(self).current_id == old(self).current_id,
            final(self).pity_timers == old(self).pity_timers,
            final(self).cargo_scroll_offset == old(self).cargo_scroll_offset,
            final(self).cargo_selected_idx == old(self).cargo_selected_idx,
    {
        if destroyed {
            self.cargo_pending_destroy();
            let init_ship = self.def_storage.ship_defs[0].name.clone();
            let init_weapon = self.def_storage.weapon_defs[0].name.clone();
            self.metaprog.cfg_ship_choice = init_ship;
            self.metaprog.cfg_weapon_choice = init_weapon;
        } else {
            self.add_cargo(loot);
        }
        self.cargo_pending_sale();
        self.increment_day();
    }
}

} // verus!

verus! {

// ---------------------------------------------------------------------------
// Selling from the cargo screen
// ---------------------------------------------------------------------------

/// `it` with its for-sale mark set to `b`.
pub open spec fn with_sale(it: Item, b: bool) -> Item {
    Item { pending_sale: b, ..it }
}

/// An item the SELL button may put up for sale: known, owned and not yet for sale.
pub open spec fn sell_eligible(it: Item) -> bool {
    !it.name_hidden && !it.is_rental && !it.pending_sale
}

/// Gear whose sale pays: equippable, and worth more than nothing.
pub open spec fn sale_pays(defs: Seq<GearDef>, name: Seq<char>) -> bool {
    gear_equippable(gear_named(defs, name)) && gear_named(defs, name).has_value
}

impl GameWorld {
    /// Toggles whether the item at `idx` is up for sale; returns whether it now is.
    pub fn try_trade_cargo(&mut self, idx: usize) -> (now_for_sale: bool)
        requires
            idx < old(self).metaprog.cargo_hold@.len(),
        ensures
            ({
                let hold = old(self).metaprog.cargo_hold@;
                &&& now_for_sale == !hold[idx as int].pending_sale
                &&& final(self).metaprog.cargo_hold@ == hold.update(
                    idx as int,
                    with_sale(hold[idx as int], now_for_sale),
                )
            }),
            final(self).metaprog.stash == old(self).metaprog.stash,
            crate::world::only_holds_changed(*old(self), *final(self)),
    {
        let now_for_sale = !self.metaprog.cargo_hold[idx].pending_sale;
        self.metaprog.cargo_hold[idx].pending_sale = now_for_sale;
        assert(self.metaprog.cargo_hold@ =~= old(self).metaprog.cargo_hold@.update(
            idx as int,
            with_sale(old(self).metaprog.cargo_hold@[idx as int], now_for_sale),
        ));
        now_for_sale
    }

    /// The cargo screen's SELL button: puts the item the screen acts on up for
    /// sale when it may be sold and its sale pays, then refreshes which drone and
    /// weapon are active. Returns the position of the item put up for sale.
    pub fn handle_cargo_sell(&mut self) -> (sold: Option<usize>)
        requires
            ({
                let hold = old(self).metaprog.cargo_hold@;
                let idx = interact_index(old(self).cargo_selected_idx, hold.len() as int);
                hold.len() > 0 && sell_eligible(hold[idx]) ==> gear_known(
                    old(self).def_storage.gear_defs@,
                    hold[idx].name@,
                )
            }),
        ensures
            ({
                let hold = old(self).metaprog.cargo_hold@;
                let defs = old(self).def_storage;
                let idx = interact_index(old(self).cargo_selected_idx, hold.len() as int);
                let sells = hold.len() > 0 && sell_eligible(hold[idx]) && sale_pays(
                    defs.gear_defs@,
                    hold[idx].name@,
                );
                &&& !sells ==> sold is None && *final(self) == *old(self)
                &&& sells ==> sold == Some(idx as usize) && final(self).metaprog.cargo_hold@
                    == activated(
                    hold.update(idx, with_sale(hold[idx], true)),
                    ship_names(defs.ship_defs@),
                    weapon_names(defs.weapon_defs@),
                )
            }),
            final(self).metaprog.stash == old(self).metaprog.stash,
            crate::world::only_holds_changed(*old(self), *final(self)),
    {
        let len = self.metaprog.cargo_hold.len();
        if len == 0 {
            return None;
        }
        let last = len - 1;
        let idx = if self.cargo_selected_idx < last {
            self.cargo_selected_idx
        } else {
            last
        };
        let item = &self.metaprog.cargo_hold[idx];
        if item.name_hidden || item.is_rental || item.pending_sale {
            return None;
        }
        let gear = self.gear_def_by_name(&item.name);
        if gear.equippable() && gear.has_value {
            self.try_trade_cargo(idx);
            self.try_set_active_ship_and_weapon();
            Some(idx)
        } else {
            None
        }
    }
}

// ---------------------------------------------------------------------------
// Deploying
// ---------------------------------------------------------------------------

/// What happened to the rent when deploying.
#[derive(Clone, Copy, PartialEq, Eq, Structural)]
pub enum RentOutcome {
    /// The rent is not due yet.
    NotDue,
    /// The rent was due and paid; the next payment falls a week later.
    Paid,
    /// The rent was due and could not be paid: the career starts over. `locale`
    /// picks where the game-over screen says it happened.
    Evicted { locale: u8 },
}

impl GameWorld {
    /// Settles the rent before a deployment. When it is due and `can_pay`, the
    /// next payment falls a week from today; when it is due and cannot be paid,
    /// the career starts over and a game-over locale is drawn.
    pub fn settle_rent(&mut self, can_pay: bool) -> (r: RentOutcome)
        requires
            i32::MIN <= old(self).metaprog.day_rent_due - old(self).metaprog.current_day
                <= i32::MAX,
            old(self).metaprog.day_rent_due - old(self).metaprog.current_day <= 0 && can_pay
                ==> old(self).metaprog.current_day + STARTING_RENT_DURATION <= i32::MAX,
            old(self).metaprog.day_rent_due - old(self).metaprog.current_day <= 0 && !can_pay
                ==> old(self).def_storage.ship_defs@.len() > 0
                && old(self).def_storage.weapon_defs@.len() > 0,
        ensures
            ({
                let due = old(self).metaprog.day_rent_due - old(self).metaprog.current_day <= 0;
                &&& !due ==> r == RentOutcome::NotDue && *final(self) == *old(self)
                &&& due && can_pay ==> r == RentOutcome::Paid && final(self).metaprog
                    == (crate::world::DarkMeta {
                    day_rent_due: (old(self).metaprog.current_day + STARTING_RENT_DURATION) as i32,
                    ..old(self).metaprog
                }) && final(self).rng == old(self).rng
                &&& due && !can_pay ==> r == (RentOutcome::Evicted {
                    locale: crate::rng::range_u32_value(old(self).rng.state(), 0, 14) as u8,
                }) && fresh_career(*final(self), old(self).def_storage) && final(self).rng.state()
                    == crate::rng::range_u32_state(old(self).rng.state(), 0, 14)
            }),
            final(self).def_storage == old(self).def_storage,
            final(self).current_id == old(self).current_id,
            final(self).pity_timers == old(self).pity_timers,
            final(self).cargo_scroll_offset == old(self).cargo_scroll_offset,
            final(self).cargo_selected_idx == old(self).cargo_selected_idx,
    {
        if self.days_until_rent() > 0 {
            return RentOutcome::NotDue;
        }
        if !can_pay {
            self.start_career();
            let locale = self.rng.gen_range_u32(0, 14);
            return RentOutcome::Evicted { locale: locale as u8 };
        }
        self.metaprog.day_rent_due = self.metaprog.current_day + STARTING_RENT_DURATION;
        RentOutcome::Paid
    }

    /// Clears sold and lost items from the hold and the stash, and finds the
    /// definitions of the chosen drone and weapon. Returns their positions.
    pub fn prepare_deploy(&mut self) -> (r: (usize, usize))
        requires
            ship_names(old(self).def_storage.ship_defs@).contains(
                old(self).metaprog.cfg_ship_choice@,
            ),
            weapon_names(old(self).def_storage.weapon_defs@).contains(
                old(self).metaprog.cfg_weapon_choice@,
            ),
        ensures
            final(self).metaprog.cargo_hold@ == crate::cargo::cleaned(
                old(self).metaprog.cargo_hold@,
            ),
            final(self).metaprog.stash@ == crate::cargo::cleaned(old(self).metaprog.stash@),
            r.0 as int == name_position(
                ship_names(old(self).def_storage.ship_defs@),
                old(self).metaprog.cfg_ship_choice@,
            ),
            r.1 as int == name_position(
                weapon_names(old(self).def_storage.weapon_defs@),
                old(self).metaprog.cfg_weapon_choice@,
            ),
            r.0 < old(self).def_storage.ship_defs@.len(),
            r.1 < old(self).def_storage.weapon_defs@.len(),
            crate::world::only_holds_changed(*old(self), *final(self)),
    {
        self.cleanup_cargo();
        self.cleanup_stash();
        let ship = self.def_storage.ship_position(&self.metaprog.cfg_ship_choice);
        let weapon = self.def_storage.weapon_position(&self.metaprog.cfg_weapon_choice);
        (ship, weapon)
    }
}

} // verus!
