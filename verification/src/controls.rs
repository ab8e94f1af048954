use vstd::prelude::*;

use crate::cargo::{activated, lemma_slot_indices, slot_indices};
use crate::seqs::{first_match, lemma_first_match, lemma_first_match_props};
use crate::world::{name_is, ship_names, weapon_names, GameWorld, Item};

verus! {

/// What a button of the room does when clicked.
#[derive(Clone, Copy, Debug, PartialEq, Eq, Structural)]
pub enum ButtonAction {
    Deploy,
    Extract,
    Scan,
    CargoDial,
    CargoInteract,
    CargoSell,
    VendAmmo,
    VendFuel,
}

// ---------------------------------------------------------------------------
// The cargo screen's cursor
// ---------------------------------------------------------------------------

/// How many cargo rows the cargo screen shows at once.
pub const CARGO_ROWS: usize = 9;

/// Everything but the cargo cursor (selected row and scroll offset) is the same.
pub open spec fn only_cursor_changed(a: GameWorld, b: GameWorld) -> bool {
    &&& a.rng == b.rng
    &&& a.def_storage == b.def_storage
    &&& a.current_id == b.current_id
    &&& a.metaprog == b.metaprog
    &&& a.pity_timers == b.pity_timers
}

/// A count or a row read as an `i32`, as the cargo screen reads them.
pub open spec fn as_row(x: usize) -> i32 {
    #[verifier::truncate] (x as i32)
}

/// The remainder of `a` divided by `b` with the quotient rounded toward zero,
/// as integer division computes it: it takes the sign of `a`.
pub open spec fn rem_toward_zero(a: int, b: int) -> int {
    if a >= 0 {
        a % b
    } else {
        -((-a) % b)
    }
}

/// The row selected after one step of the scroll wheel: one row up when
/// `up`, else one row down, kept within the `len` rows of the cargo.
pub open spec fn scrolled_selection(selected: int, len: int, up: bool) -> int {
    let moved = if up {
        selected - 1
    } else {
        selected + 1
    };
    if moved < 0 {
        0
    } else if moved > len - 1 {
        len - 1
    } else {
        moved
    }
}

/// The first visible row once the window is moved just enough to show the
/// selected row; a negative offset counts as zero.
pub open spec fn window_offset(offset: i32, selected: int) -> int {
    let o: int = if offset < 0 {
        0
    } else {
        offset as int
    };
    if selected < o {
        selected
    } else if selected >= o + CARGO_ROWS {
        selected - CARGO_ROWS + 1
    } else {
        o
    }
}

impl GameWorld {
    /// Moves the cargo selection one row up (`up`) or down, staying on the
    /// cargo's rows. The cargo screen reads the number of rows and the selected
    /// row as `i32`s; when it reads no rows, the selection stays.
    pub fn scroll_cargo_selection(&mut self, up: bool)
        requires
            as_row(old(self).metaprog.cargo_hold@.len() as usize) > 0 ==> (if up {
                as_row(old(self).cargo_selected_idx) > i32::MIN
            } else {
                as_row(old(self).cargo_selected_idx) < i32::MAX
            }),
        ensures
            ({
                let len = old(self).metaprog.cargo_hold@.len();
                let sel = old(self).cargo_selected_idx;
                let rows = as_row(len as usize);
                &&& rows > 0 ==> final(self).cargo_selected_idx == scrolled_selection(
                    as_row(sel) as int,
                    rows as int,
                    up,
                )
                &&& rows > 0 ==> final(self).cargo_selected_idx < rows
                &&& rows <= 0 ==> final(self).cargo_selected_idx == sel
                &&& len <= i32::MAX && sel <= i32::MAX && len > 0 ==> final(self).cargo_selected_idx
                    == scrolled_selection(sel as int, len as int, up)
            }),
            final(self).cargo_scroll_offset == old(self).cargo_scroll_offset,
            only_cursor_changed(*old(self), *final(self)),
    {
        let rows = #[verifier::truncate] (self.metaprog.cargo_hold.len() as i32);
        if rows > 0 {
            let sel = #[verifier::truncate] (self.cargo_selected_idx as i32);
            let moved = if up {
                sel - 1
            } else {
                sel + 1
            };
            let clamped = if moved < 0 {
                0
            } else if moved > rows - 1 {
                rows - 1
            } else {
                moved
            };
            self.cargo_selected_idx = clamped as usize;
        }
    }

    /// The cargo dial: selects the next row, wrapping around to the first. The
    /// cargo screen reads the number of rows and the selected row as `i32`s and
    /// wraps with the remainder of `i32` division; when it reads no rows, the
    /// selection stays.
    pub fn cargo_dial_next(&mut self)
        requires
            as_row(old(self).metaprog.cargo_hold@.len() as usize) > 0 ==> as_row(
                old(self).cargo_selected_idx,
            ) < i32::MAX,
        ensures
            ({
                let len = old(self).metaprog.cargo_hold@.len();
                let sel = old(self).cargo_selected_idx;
                let rows = as_row(len as usize);
                &&& rows > 0 ==> final(self).cargo_selected_idx == #[verifier::truncate] (
                rem_toward_zero(as_row(sel) + 1, rows as int) as usize)
                &&& rows <= 0 ==> final(self).cargo_selected_idx == sel
                &&& len <= i32::MAX && sel < i32::MAX && len > 0 ==> final(self).cargo_selected_idx
                    == (sel + 1) % (len as int) && final(self).cargo_selected_idx < len
            }),
            final(self).cargo_scroll_offset == old(self).cargo_scroll_offset,
            only_cursor_changed(*old(self), *final(self)),
    {
        let rows = #[verifier::truncate] (self.metaprog.cargo_hold.len() as i32);
        if rows > 0 {
            let next = (#[verifier::truncate] (self.cargo_selected_idx as i32)) + 1;
            let wrapped: i32 = if next >= 0 {
                next % rows
            } else {
                -((-next) % rows)
            };
            self.cargo_selected_idx = #[verifier::truncate] (wrapped as usize);
        }
    }

    /// Moves the cargo window so that the selected row is among the
    /// `CARGO_ROWS` visible rows, as little as possible.
    pub fn sync_cargo_scroll(&mut self)
        ensures
            final(self).cargo_scroll_offset == #[verifier::truncate] (window_offset(
                old(self).cargo_scroll_offset,
                old(self).cargo_selected_idx as int,
            ) as i32),
            old(self).cargo_selected_idx <= i32::MAX ==> final(self).cargo_scroll_offset
                <= old(self).cargo_selected_idx < final(self).cargo_scroll_offset + CARGO_ROWS,
            final(self).cargo_selected_idx == old(self).cargo_selected_idx,
            only_cursor_changed(*old(self), *final(self)),
    {
        let selected = self.cargo_selected_idx;
        let mut offset: usize = if self.cargo_scroll_offset < 0 {
            0
        } else {
            self.cargo_scroll_offset as usize
        };
        if selected < offset {
            offset = selected;
        } else if selected - offset >= CARGO_ROWS {
            offset = selected - CARGO_ROWS + 1;
        }
        self.cargo_scroll_offset = #[verifier::truncate] (offset as i32);
    }
}

// ---------------------------------------------------------------------------
// Choosing the drone and the weapon
// ---------------------------------------------------------------------------

/// The names of the items in the slots of `hold`, in cargo order.
pub open spec fn slot_names(hold: Seq<Item>, names: Seq<Seq<char>>) -> Seq<Seq<char>> {
    let s = slot_indices(hold, names);
    Seq::new(s.len(), |k: int| hold[s[k]].name@)
}

/// The choice that follows `current` among `avail`: the name after the first
/// occurrence of `current`, wrapping around; when `current` is absent, the
/// name after the first.
pub open spec fn choice_after(avail: Seq<Seq<char>>, current: Seq<char>) -> Seq<char> {
    let f = first_match(avail, name_is(current));
    let idx = if f < avail.len() {
        f
    } else {
        0
    };
    avail[(idx + 1) % (avail.len() as int)]
}

/// The choice that follows is always one of the available names, and it
/// differs from `current` when `current` occurs once among them.
pub proof fn lemma_choice_after(avail: Seq<Seq<char>>, current: Seq<char>)
    requires
        avail.len() > 1,
    ensures
        avail.contains(choice_after(avail, current)),
        (forall|i: int, j: int|
            0 <= i < j < avail.len() ==> avail[i] != avail[j]) ==> choice_after(avail, current)
            != current,
{
    lemma_first_match_props(avail, name_is(current));
    let f = first_match(avail, name_is(current));
    let idx = if f < avail.len() {
        f
    } else {
        0
    };
    let nx = (idx + 1) % (avail.len() as int);
    assert(0 <= nx < avail.len());
    assert(avail[nx] == choice_after(avail, current));
    if forall|i: int, j: int| 0 <= i < j < avail.len() ==> avail[i] != avail[j] {
        if f < avail.len() {
            assert(avail[f] == current);
            if f + 1 < avail.len() {
                vstd::arithmetic::div_mod::lemma_small_mod((f + 1) as nat, avail.len());
            } else {
                vstd::arithmetic::div_mod::lemma_mod_self_0(avail.len() as int);
            }
            if nx < f {
                assert(avail[nx] != avail[f]);
            } else {
                assert(avail[f] != avail[nx]);
            }
        }
    }
}

/// Position of the first entry of `slots` named `current`, or the length.
fn find_slot_named(slots: &Vec<(String, usize)>, current: &String) -> (r: usize)
    ensures
        r as int == first_match(
            Seq::new(slots@.len(), |k: int| slots@[k].0@),
            name_is(current@),
        ),
{
    let ghost ns = Seq::new(slots@.len(), |k: int| slots@[k].0@);
    let n = slots.len();
    for k in 0..n
        invariant
            n == slots@.len(),
            ns == Seq::new(slots@.len(), |k: int| slots@[k].0@),
            forall|j: int| 0 <= j < k ==> !name_is(current@)(#[trigger] ns[j]),
    {
        if slots[k].0 == *current {
            proof { lemma_first_match(ns, name_is(current@), k as int); }
            return k;
        }
    }
    proof { lemma_first_match(ns, name_is(current@), n as int); }
    n
}

/// The entry of `slots` that follows the first one named `current`, wrapping
/// around; the second entry when none is named `current`.
fn next_slot_name(slots: &Vec<(String, usize)>, current: &String) -> (r: String)
    requires
        slots@.len() > 1,
    ensures
        r@ == choice_after(Seq::new(slots@.len(), |k: int| slots@[k].0@), current@),
{
    let ghost ns = Seq::new(slots@.len(), |k: int| slots@[k].0@);
    let n = slots.len();
    let f = find_slot_named(slots, current);
    let idx = if f < n {
        f
    } else {
        0
    };
    let next = (idx + 1) % n;
    assert(ns[next as int] == slots@[next as int].0@);
    slots[next].0.clone()
}

impl GameWorld {
    /// Switches the weapon choice to the next equipped weapon, when more than
    /// one is equipped, and marks the equipped drone and weapon as active.
    pub fn cycle_weapon_choice(&mut self)
        ensures
            ({
                let hold = old(self).metaprog.cargo_hold@;
                let sn = ship_names(old(self).def_storage.ship_defs@);
                let wn = weapon_names(old(self).def_storage.weapon_defs@);
                let avail = slot_names(hold, wn);
                &&& avail.len() > 1 ==> final(self).metaprog.cfg_weapon_choice@ == choice_after(
                    avail,
                    old(self).metaprog.cfg_weapon_choice@,
                ) && final(self).metaprog.cargo_hold@ == activated(hold, sn, wn)
                &&& avail.len() <= 1 ==> *final(self) == *old(self)
            }),
            final(self).metaprog.cfg_ship_choice == old(self).metaprog.cfg_ship_choice,
            final(self).metaprog.stash == old(self).metaprog.stash,
            final(self).metaprog.day_rent_due == old(self).metaprog.day_rent_due,
            final(self).metaprog.current_day == old(self).metaprog.current_day,
            final(self).rng == old(self).rng,
            final(self).def_storage == old(self).def_storage,
            final(self).current_id == old(self).current_id,
            final(self).pity_timers == old(self).pity_timers,
            final(self).cargo_scroll_offset == old(self).cargo_scroll_offset,
            final(self).cargo_selected_idx == old(self).cargo_selected_idx,
    {
        let ghost hold = self.metaprog.cargo_hold@;
        let ghost wn = weapon_names(self.def_storage.weapon_defs@);
        let slots = self.equipped_weapon_slots();
        assert(Seq::new(slots@.len(), |k: int| slots@[k].0@) =~= slot_names(hold, wn));
        if slots.len() > 1 {
            let next = next_slot_name(&slots, &self.metaprog.cfg_weapon_choice);
            self.metaprog.cfg_weapon_choice = next;
            self.try_set_active_ship_and_weapon();
        }
    }

    /// Switches the drone choice to the next equipped drone, when more than
    /// one is equipped, and marks the equipped drone and weapon as active.
    pub fn cycle_ship_choice(&mut self)
        ensures
            ({
                let hold = old(self).metaprog.cargo_hold@;
                let sn = ship_names(old(self).def_storage.ship_defs@);
                let wn = weapon_names(old(self).def_storage.weapon_defs@);
                let avail = slot_names(hold, sn);
                &&& avail.len() > 1 ==> final(self).metaprog.cfg_ship_choice@ == choice_after(
                    avail,
                    old(self).metaprog.cfg_ship_choice@,
                ) && final(self).metaprog.cargo_hold@ == activated(hold, sn, wn)
                &&& avail.len() <= 1 ==> *final(self) == *old(self)
            }),
            final(self).metaprog.cfg_weapon_choice == old(self).metaprog.cfg_weapon_choice,
            final(self).metaprog.stash == old(self).metaprog.stash,
            final(self).metaprog.day_rent_due == old(self).metaprog.day_rent_due,
            final(self).metaprog.current_day == old(self).metaprog.current_day,
            final(self).rng == old(self).rng,
            final(self).def_storage == old(self).def_storage,
            final(self).current_id == old(self).current_id,
            final(self).pity_timers == old(self).pity_timers,
            final(self).cargo_scroll_offset == old(self).cargo_scroll_offset,
            final(self).cargo_selected_idx == old(self).cargo_selected_idx,
    {
        let ghost hold = self.metaprog.cargo_hold@;
        let ghost sn = ship_names(self.def_storage.ship_defs@);
        let slots = self.equipped_ship_slots();
        assert(Seq::new(slots@.len(), |k: int| slots@[k].0@) =~= slot_names(hold, sn));
        if slots.len() > 1 {
            let next = next_slot_name(&slots, &self.metaprog.cfg_ship_choice);
            self.metaprog.cfg_ship_choice = next;
            self.try_set_active_ship_and_weapon();
        }
    }
}

} // verus!

verus! {

/// Cycling from the entry at position `i`, its first occurrence, chooses the
/// next entry in cargo order, and the first entry after the last; a choice
/// that is not among the entries moves to the second entry.
pub proof fn lemma_choice_after_next(avail: Seq<Seq<char>>, i: int, absent: Seq<char>)
    requires
        avail.len() > 1,
        0 <= i < avail.len(),
        forall|j: int| 0 <= j < i ==> avail[j] != avail[i],
    ensures
        i + 1 < avail.len() ==> choice_after(avail, avail[i]) == avail[i + 1],
        i + 1 == avail.len() ==> choice_after(avail, avail[i]) == avail[0],
        !avail.contains(absent) ==> choice_after(avail, absent) == avail[1],
{
    let p = name_is(avail[i]);
    assert forall|j: int| 0 <= j < i implies !p(#[trigger] avail[j]) by {}
    lemma_first_match(avail, p, i);
    if i + 1 < avail.len() {
        vstd::arithmetic::div_mod::lemma_small_mod((i + 1) as nat, avail.len());
    } else {
        vstd::arithmetic::div_mod::lemma_mod_self_0(avail.len() as int);
    }
    if !avail.contains(absent) {
        let q = name_is(absent);
        lemma_first_match_props(avail, q);
        if first_match(avail, q) < avail.len() {
            assert(avail[first_match(avail, q)] == absent);
        }
        vstd::arithmetic::div_mod::lemma_small_mod(1nat, avail.len());
    }
}

/// The choice after cycling `k` times from `current`.
pub open spec fn cycled(avail: Seq<Seq<char>>, current: Seq<char>, k: nat) -> Seq<char>
    decreases k,
{
    if k == 0 {
        current
    } else {
        choice_after(avail, cycled(avail, current, (k - 1) as nat))
    }
}

/// With distinct entries, cycling from the first one reaches every entry, in
/// cargo order, and comes back to the first after going through them all.
pub proof fn lemma_cycling_visits_every_entry(avail: Seq<Seq<char>>)
    requires
        avail.len() > 1,
        forall|i: int, j: int| 0 <= i < j < avail.len() ==> avail[i] != avail[j],
    ensures
        forall|j: int| 0 <= j < avail.len() ==> #[trigger] cycled(avail, avail[0], j as nat) == avail[j],
        cycled(avail, avail[0], avail.len()) == avail[0],
{
    assert forall|j: int| 0 <= j < avail.len() implies #[trigger] cycled(avail, avail[0], j as nat)
        == avail[j] by {
        lemma_cycled_prefix(avail, j);
    }
    let n = avail.len() as int;
    lemma_cycled_prefix(avail, n - 1);
    lemma_choice_after_next(avail, n - 1, avail[0]);
}

proof fn lemma_cycled_prefix(avail: Seq<Seq<char>>, j: int)
    requires
        avail.len() > 1,
        forall|i: int, k: int| 0 <= i < k < avail.len() ==> avail[i] != avail[k],
        0 <= j < avail.len(),
    ensures
        cycled(avail, avail[0], j as nat) == avail[j],
    decreases j,
{
    if j > 0 {
        lemma_cycled_prefix(avail, j - 1);
        lemma_choice_after_next(avail, j - 1, avail[0]);
    }
}

} // verus!
