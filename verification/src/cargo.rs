use vstd::prelude::*;

use crate::seqs::{first_match, lemma_first_match, lemma_first_match_props};
use crate::world::{
    gear_known, gear_named, item_available, lemma_gear_index, only_holds_changed, plain_item, ship_names, views,
    weapon_names, DefStorage, GameWorld, GearDef, Item,
};

verus! {

// ---------------------------------------------------------------------------
// Stacking items into a hold
// ---------------------------------------------------------------------------

/// The test "this item is called `name`".
pub open spec fn item_called(name: Seq<char>) -> spec_fn(Item) -> bool {
    |it: Item| it.name@ == name
}

/// Index of the first item of `hold` called `name` (the length when there is none).
pub open spec fn item_index(hold: Seq<Item>, name: Seq<char>) -> int {
    first_match(hold, item_called(name))
}

/// `it` with its count replaced by `count`.
pub open spec fn with_count(it: Item, count: int) -> Item {
    Item { count: count as i32, ..it }
}

/// A stackable item joins the first item of the same name; anything else is appended.
pub open spec fn stack_into(hold: Seq<Item>, item: Item, stackable: bool) -> Seq<Item> {
    let k = item_index(hold, item.name@);
    if stackable && k < hold.len() {
        hold.update(k, with_count(hold[k], hold[k].count + item.count))
    } else {
        hold.push(item)
    }
}

/// Stacking `item` into `hold` keeps the joined count within `i32`.
pub open spec fn stack_fits(hold: Seq<Item>, item: Item, stackable: bool) -> bool {
    let k = item_index(hold, item.name@);
    stackable && k < hold.len() ==> i32::MIN <= hold[k].count + item.count <= i32::MAX
}

/// Stacking `items` one after another, each by the stackability of its definition.
pub open spec fn stack_all(hold: Seq<Item>, items: Seq<Item>, defs: Seq<GearDef>) -> Seq<Item>
    decreases items.len(),
{
    if items.len() == 0 {
        hold
    } else {
        let prev = stack_all(hold, items.drop_last(), defs);
        stack_into(prev, items.last(), gear_named(defs, items.last().name@).stackable)
    }
}

/// Every item of `items` has a definition, and stacking them overflows no count.
pub open spec fn stack_all_ok(hold: Seq<Item>, items: Seq<Item>, defs: Seq<GearDef>) -> bool
    decreases items.len(),
{
    if items.len() == 0 {
        true
    } else {
        let prev = stack_all(hold, items.drop_last(), defs);
        &&& stack_all_ok(hold, items.drop_last(), defs)
        &&& gear_known(defs, items.last().name@)
        &&& stack_fits(prev, items.last(), gear_named(defs, items.last().name@).stackable)
    }
}

/// Total count of the items of `hold` called `name`.
pub open spec fn name_total(hold: Seq<Item>, name: Seq<char>) -> int
    decreases hold.len(),
{
    if hold.len() == 0 {
        0
    } else {
        name_total(hold.drop_last(), name) + if hold.last().name@ == name {
            hold.last().count as int
        } else {
            0
        }
    }
}

/// What one item contributes to the total of `name`.
pub open spec fn own_total(it: Item, name: Seq<char>) -> int {
    if it.name@ == name {
        it.count as int
    } else {
        0
    }
}

/// Replacing one item changes the total of a name by the difference of the two items.
pub proof fn lemma_name_total_update(hold: Seq<Item>, k: int, x: Item, name: Seq<char>)
    requires
        0 <= k < hold.len(),
    ensures
        name_total(hold.update(k, x), name) == name_total(hold, name) - own_total(hold[k], name)
            + own_total(x, name),
    decreases hold.len(),
{
    let h2 = hold.update(k, x);
    if k < hold.len() - 1 {
        assert(h2.drop_last() =~= hold.drop_last().update(k, x));
        lemma_name_total_update(hold.drop_last(), k, x, name);
    } else {
        assert(h2.drop_last() =~= hold.drop_last());
    }
}

/// Removing one item lowers the total of a name by what that item held.
pub proof fn lemma_name_total_remove(hold: Seq<Item>, k: int, name: Seq<char>)
    requires
        0 <= k < hold.len(),
    ensures
        name_total(hold.remove(k), name) == name_total(hold, name) - own_total(hold[k], name),
    decreases hold.len(),
{
    let h2 = hold.remove(k);
    if k < hold.len() - 1 {
        assert(h2.drop_last() =~= hold.drop_last().remove(k));
        assert(h2.last() == hold.last());
        lemma_name_total_remove(hold.drop_last(), k, name);
    } else {
        assert(h2 =~= hold.drop_last());
    }
}

/// Stacking one item adds its count to the total of its name and leaves the others alone.
pub proof fn lemma_stack_into_total(hold: Seq<Item>, item: Item, stackable: bool, name: Seq<char>)
    requires
        stack_fits(hold, item, stackable),
    ensures
        name_total(stack_into(hold, item, stackable), name) == name_total(hold, name) + own_total(
            item,
            name,
        ),
{
    let k = item_index(hold, item.name@);
    lemma_first_match_props(hold, item_called(item.name@));
    if stackable && k < hold.len() {
        lemma_name_total_update(hold, k, with_count(hold[k], hold[k].count + item.count), name);
    } else {
        assert(hold.push(item).drop_last() =~= hold);
    }
}

/// Adding items to a hold conserves counts: the total of every name grows by
/// exactly the total of that name among the added items.
pub proof fn lemma_stack_all_total(
    hold: Seq<Item>,
    items: Seq<Item>,
    defs: Seq<GearDef>,
    name: Seq<char>,
)
    requires
        stack_all_ok(hold, items, defs),
    ensures
        name_total(stack_all(hold, items, defs), name) == name_total(hold, name) + name_total(
            items,
            name,
        ),
    decreases items.len(),
{
    if items.len() > 0 {
        lemma_stack_all_total(hold, items.drop_last(), defs, name);
        let prev = stack_all(hold, items.drop_last(), defs);
        lemma_stack_into_total(
            prev,
            items.last(),
            gear_named(defs, items.last().name@).stackable,
            name,
        );
    }
}

/// Stacks `item` into `hold`.
fn stack_item(hold: &mut Vec<Item>, item: Item, stackable: bool)
    requires
        stack_fits(old(hold)@, item, stackable),
    ensures
        final(hold)@ == stack_into(old(hold)@, item, stackable),
{
    if stackable {
        let n = hold.len();
        let ghost p = item_called(item.name@);
        let mut k: usize = 0;
        while k < n
            invariant
                n == hold@.len(),
                hold@ == old(hold)@,
                k <= n,
                p == item_called(item.name@),
                forall|j: int| 0 <= j < k ==> !p(#[trigger] hold@[j]),
                stack_fits(old(hold)@, item, stackable),
                stackable,
            decreases n - k,
        {
            if hold[k].name == item.name {
                proof { lemma_first_match(hold@, p, k as int); }
                let c = hold[k].count + item.count;
                hold[k].count = c;
                assert(hold@ =~= stack_into(old(hold)@, item, stackable));
                return;
            }
            k = k + 1;
        }
        proof { lemma_first_match(hold@, p, n as int); }
    }
    hold.push(item);
}

impl GameWorld {
    /// The first gear definition called `name`.
    pub fn gear_def_by_name(&self, name: &String) -> (g: &GearDef)
        requires
            gear_known(self.def_storage.gear_defs@, name@),
        ensures
            *g == gear_named(self.def_storage.gear_defs@, name@),
    {
        proof { lemma_gear_index(self.def_storage.gear_defs@, name@); }
        let k = self.def_storage.gear_position(name).unwrap();
        &self.def_storage.gear_defs[k]
    }
}

/// Stacks `items` into `hold`, looking up each item's stackability in `defs`.
fn stack_items(hold: &mut Vec<Item>, items: &Vec<Item>, defs: &DefStorage)
    requires
        stack_all_ok(old(hold)@, items@, defs.gear_defs@),
    ensures
        final(hold)@ == stack_all(old(hold)@, items@, defs.gear_defs@),
{
    let n = items.len();
    for i in 0..n
        invariant
            n == items@.len(),
            stack_all_ok(old(hold)@, items@, defs.gear_defs@),
            hold@ == stack_all(old(hold)@, items@.take(i as int), defs.gear_defs@),
    {
        let ghost prefix = items@.take(i + 1);
        assert(prefix.drop_last() =~= items@.take(i as int));
        proof { lemma_stack_all_ok_prefix(old(hold)@, items@, defs.gear_defs@, i + 1); }
        let item = items[i].duplicate();
        proof { lemma_gear_index(defs.gear_defs@, item.name@); }
        let k = defs.gear_position(&item.name).unwrap();
        let stackable = defs.gear_defs[k].stackable;
        stack_item(hold, item, stackable);
    }
    assert(items@.take(n as int) =~= items@);
}

/// A prefix of a batch that stacks cleanly stacks cleanly too.
proof fn lemma_stack_all_ok_prefix(hold: Seq<Item>, items: Seq<Item>, defs: Seq<GearDef>, m: int)
    requires
        stack_all_ok(hold, items, defs),
        0 <= m <= items.len(),
    ensures
        stack_all_ok(hold, items.take(m), defs),
    decreases items.len(),
{
    if m < items.len() {
        assert(items.drop_last().take(m) =~= items.take(m));
        lemma_stack_all_ok_prefix(hold, items.drop_last(), defs, m);
    } else {
        assert(items.take(m) =~= items);
    }
}

impl GameWorld {
    pub fn add_cargo(&mut self, items: Vec<Item>)
        requires
            stack_all_ok(old(self).metaprog.cargo_hold@, items@, old(self).def_storage.gear_defs@),
        ensures
            final(self).metaprog.cargo_hold@ == stack_all(
                old(self).metaprog.cargo_hold@,
                items@,
                old(self).def_storage.gear_defs@,
            ),
            final(self).metaprog.stash == old(self).metaprog.stash,
            only_holds_changed(*old(self), *final(self)),
    {
        stack_items(&mut self.metaprog.cargo_hold, &items, &self.def_storage);
    }

    pub fn add_stash(&mut self, items: Vec<Item>)
        requires
            stack_all_ok(old(self).metaprog.stash@, items@, old(self).def_storage.gear_defs@),
        ensures
            final(self).metaprog.stash@ == stack_all(
                old(self).metaprog.stash@,
                items@,
                old(self).def_storage.gear_defs@,
            ),
            final(self).metaprog.cargo_hold == old(self).metaprog.cargo_hold,
            only_holds_changed(*old(self), *final(self)),
    {
        stack_items(&mut self.metaprog.stash, &items, &self.def_storage);
    }
}

} // verus!

verus! {

// ---------------------------------------------------------------------------
// Taking, revealing and cleaning up cargo
// ---------------------------------------------------------------------------

/// What stays in `hold` after taking `amt` pieces of item `idx`.
pub open spec fn take_left(hold: Seq<Item>, idx: int, amt: i32) -> Seq<Item> {
    if hold[idx].count <= amt {
        hold.remove(idx)
    } else {
        hold.update(idx, with_count(hold[idx], hold[idx].count - amt))
    }
}

/// What comes out of `hold` when taking `amt` pieces of item `idx`: the whole item
/// when it holds no more than `amt`, else a fresh item of `amt` pieces.
pub open spec fn take_out(hold: Seq<Item>, idx: int, amt: i32) -> Item {
    if hold[idx].count <= amt {
        hold[idx]
    } else {
        plain_item(hold[idx].name, amt)
    }
}

/// Whether taking `amt` pieces of item `idx` keeps the rest within `i32`.
pub open spec fn take_fits(hold: Seq<Item>, idx: int, amt: i32) -> bool {
    hold[idx].count <= amt || hold[idx].count - amt <= i32::MAX
}

/// Taking from the hold conserves counts: what comes out and what stays add up
/// to what there was, for every name.
pub proof fn lemma_take_conserves(hold: Seq<Item>, idx: int, amt: i32, name: Seq<char>)
    requires
        0 <= idx < hold.len(),
        take_fits(hold, idx, amt),
    ensures
        name_total(take_left(hold, idx, amt), name) + own_total(take_out(hold, idx, amt), name)
            == name_total(hold, name),
{
    if hold[idx].count <= amt {
        lemma_name_total_remove(hold, idx, name);
    } else {
        lemma_name_total_update(hold, idx, with_count(hold[idx], hold[idx].count - amt), name);
    }
}

/// An item survives cleanup when it is neither lost nor sold.
pub open spec fn kept(it: Item) -> bool {
    !it.pending_destroy && !it.pending_sale
}

/// The test `kept`.
pub open spec fn kept_pred() -> spec_fn(Item) -> bool {
    |it: Item| kept(it)
}

/// The hold without its lost and sold items, in order.
pub open spec fn cleaned(hold: Seq<Item>) -> Seq<Item> {
    hold.filter(kept_pred())
}

/// Cleaning up leaves nothing lost or sold, and cleaning twice is cleaning once.
pub proof fn lemma_cleaned(hold: Seq<Item>)
    ensures
        forall|i: int| 0 <= i < cleaned(hold).len() ==> kept(#[trigger] cleaned(hold)[i]),
        cleaned(cleaned(hold)) == cleaned(hold),
{
    broadcast use vstd::seq_lib::group_filter_ensures;

    lemma_filter_all_pass(cleaned(hold), kept_pred());
}

/// Every element of a filtered sequence comes from the sequence.
proof fn lemma_filter_from(s: Seq<Item>, p: spec_fn(Item) -> bool)
    ensures
        forall|i: int| 0 <= i < s.filter(p).len() ==> s.contains(#[trigger] s.filter(p)[i]),
    decreases s.len(),
{
    reveal_with_fuel(Seq::<_>::filter, 1);
    if s.len() > 0 {
        let t = s.drop_last();
        lemma_filter_from(t, p);
        assert forall|i: int| 0 <= i < s.filter(p).len() implies s.contains(
            #[trigger] s.filter(p)[i],
        ) by {
            if i < t.filter(p).len() {
                let x = t.filter(p)[i];
                assert(t.contains(x));
                let j = choose|j: int| 0 <= j < t.len() && t[j] == x;
                assert(s[j] == x);
            } else {
                assert(s[s.len() - 1] == s.filter(p)[i]);
            }
        }
    }
}

/// Filtering a sequence whose elements all pass gives it back.
proof fn lemma_filter_all_pass(s: Seq<Item>, p: spec_fn(Item) -> bool)
    requires
        forall|i: int| 0 <= i < s.len() ==> p(#[trigger] s[i]),
    ensures
        s.filter(p) == s,
    decreases s.len(),
{
    reveal_with_fuel(Seq::<_>::filter, 1);
    if s.len() > 0 {
        let t = s.drop_last();
        assert forall|i: int| 0 <= i < t.len() implies p(#[trigger] t[i]) by {
            assert(t[i] == s[i]);
        }
        lemma_filter_all_pass(t, p);
        assert(t.push(s.last()) =~= s);
    }
}

/// Copies the kept items of `hold`, in order.
fn clean_items(hold: &Vec<Item>) -> (r: Vec<Item>)
    ensures
        r@ == cleaned(hold@),
{
    let mut out: Vec<Item> = Vec::new();
    let n = hold.len();
    for i in 0..n
        invariant
            n == hold@.len(),
            out@ == hold@.take(i as int).filter(kept_pred()),
    {
        assert(hold@.take(i + 1).drop_last() =~= hold@.take(i as int));
        proof { reveal_with_fuel(Seq::<_>::filter, 1); }
        if !hold[i].pending_destroy && !hold[i].pending_sale {
            out.push(hold[i].duplicate());
        }
    }
    assert(hold@.take(n as int) =~= hold@);
    out
}

/// Whether some gear definition called `name` is indestructible.
pub open spec fn indestructible_named(defs: Seq<GearDef>, name: Seq<char>) -> bool {
    exists|k: int| 0 <= k < defs.len() && (#[trigger] defs[k]).name@ == name && defs[k].indestructible
}

/// Whether some gear definition called `name` sells on the spot.
pub open spec fn instasell_named(defs: Seq<GearDef>, name: Seq<char>) -> bool {
    exists|k: int| 0 <= k < defs.len() && (#[trigger] defs[k]).name@ == name && defs[k].instasell
}

/// A lost run marks every destructible item as lost and withdraws it from sale.
pub open spec fn mark_lost(it: Item, defs: Seq<GearDef>) -> Item {
    if indestructible_named(defs, it.name@) {
        it
    } else {
        Item { pending_destroy: true, pending_sale: false, ..it }
    }
}

/// Instasell items that are not lost are put up for sale.
pub open spec fn mark_sale(it: Item, defs: Seq<GearDef>) -> Item {
    if !it.pending_destroy && instasell_named(defs, it.name@) {
        Item { pending_sale: true, ..it }
    } else {
        it
    }
}

/// Every item of `hold` marked as lost where it is destructible.
pub open spec fn lost_marked(hold: Seq<Item>, defs: Seq<GearDef>) -> Seq<Item> {
    hold.map_values(|it: Item| mark_lost(it, defs))
}

/// Every item of `hold` put up for sale where it sells on the spot.
pub open spec fn sale_marked(hold: Seq<Item>, defs: Seq<GearDef>) -> Seq<Item> {
    hold.map_values(|it: Item| mark_sale(it, defs))
}

fn any_indestructible(defs: &DefStorage, name: &String) -> (r: bool)
    ensures
        r == indestructible_named(defs.gear_defs@, name@),
{
    let n = defs.gear_defs.len();
    for k in 0..n
        invariant
            n == defs.gear_defs@.len(),
            forall|j: int|
                0 <= j < k ==> !((#[trigger] defs.gear_defs@[j]).name@ == name@
                    && defs.gear_defs@[j].indestructible),
    {
        if defs.gear_defs[k].name == *name && defs.gear_defs[k].indestructible {
            return true;
        }
    }
    false
}

fn any_instasell(defs: &DefStorage, name: &String) -> (r: bool)
    ensures
        r == instasell_named(defs.gear_defs@, name@),
{
    let n = defs.gear_defs.len();
    for k in 0..n
        invariant
            n == defs.gear_defs@.len(),
            forall|j: int|
                0 <= j < k ==> !((#[trigger] defs.gear_defs@[j]).name@ == name@
                    && defs.gear_defs@[j].instasell),
    {
        if defs.gear_defs[k].name == *name && defs.gear_defs[k].instasell {
            return true;
        }
    }
    false
}

impl GameWorld {
    pub fn take_cargo(&mut self, idx: usize, amt: i32) -> (out: Item)
        requires
            idx < old(self).metaprog.cargo_hold@.len(),
            take_fits(old(self).metaprog.cargo_hold@, idx as int, amt),
        ensures
            final(self).metaprog.cargo_hold@ == take_left(
                old(self).metaprog.cargo_hold@,
                idx as int,
                amt,
            ),
            out == take_out(old(self).metaprog.cargo_hold@, idx as int, amt),
            final(self).metaprog.stash == old(self).metaprog.stash,
            only_holds_changed(*old(self), *final(self)),
    {
        if self.metaprog.cargo_hold[idx].count <= amt {
            return self.metaprog.cargo_hold.remove(idx);
        }
        let item_out = Item {
            name: self.metaprog.cargo_hold[idx].name.clone(),
            count: amt,
            pending_sale: false,
            pending_destroy: false,
            name_hidden: false,
            is_active: false,
            is_rental: false,
        };
        let c = self.metaprog.cargo_hold[idx].count - amt;
        self.metaprog.cargo_hold[idx].count = c;
        assert(self.metaprog.cargo_hold@ =~= take_left(old(self).metaprog.cargo_hold@, idx as int, amt));
        item_out
    }

    pub fn reveal_cargo(&mut self, idx: usize)
        requires
            idx < old(self).metaprog.cargo_hold@.len(),
        ensures
            final(self).metaprog.cargo_hold@ == old(self).metaprog.cargo_hold@.update(
                idx as int,
                Item { name_hidden: false, ..old(self).metaprog.cargo_hold@[idx as int] },
            ),
            final(self).metaprog.stash == old(self).metaprog.stash,
            only_holds_changed(*old(self), *final(self)),
    {
        self.metaprog.cargo_hold[idx].name_hidden = false;
        assert(self.metaprog.cargo_hold@ =~= old(self).metaprog.cargo_hold@.update(
            idx as int,
            Item { name_hidden: false, ..old(self).metaprog.cargo_hold@[idx as int] },
        ));
    }

    pub fn cleanup_cargo(&mut self)
        ensures
            final(self).metaprog.cargo_hold@ == cleaned(old(self).metaprog.cargo_hold@),
            final(self).metaprog.stash == old(self).metaprog.stash,
            only_holds_changed(*old(self), *final(self)),
    {
        let out = clean_items(&self.metaprog.cargo_hold);
        self.metaprog.cargo_hold = out;
    }

    pub fn cleanup_stash(&mut self)
        ensures
            final(self).metaprog.stash@ == cleaned(old(self).metaprog.stash@),
            final(self).metaprog.cargo_hold == old(self).metaprog.cargo_hold,
            only_holds_changed(*old(self), *final(self)),
    {
        let out = clean_items(&self.metaprog.stash);
        self.metaprog.stash = out;
    }

    pub fn cargo_pending_destroy(&mut self)
        ensures
            final(self).metaprog.cargo_hold@ == lost_marked(
                old(self).metaprog.cargo_hold@,
                old(self).def_storage.gear_defs@,
            ),
            final(self).metaprog.stash == old(self).metaprog.stash,
            only_holds_changed(*old(self), *final(self)),
    {
        let n = self.metaprog.cargo_hold.len();
        for i in 0..n
            invariant
                n == self.metaprog.cargo_hold@.len(),
                only_holds_changed(*old(self), *self),
                self.metaprog.stash == old(self).metaprog.stash,
                forall|j: int|
                    0 <= j < i ==> #[trigger] self.metaprog.cargo_hold@[j] == mark_lost(
                        old(self).metaprog.cargo_hold@[j],
                        old(self).def_storage.gear_defs@,
                    ),
                forall|j: int|
                    i <= j < n ==> #[trigger] self.metaprog.cargo_hold@[j]
                        == old(self).metaprog.cargo_hold@[j],
        {
            let indestructible = any_indestructible(&self.def_storage, &self.metaprog.cargo_hold[i].name);
            if !indestructible {
                self.metaprog.cargo_hold[i].pending_destroy = true;
                self.metaprog.cargo_hold[i].pending_sale = false;
            }
        }
        assert(self.metaprog.cargo_hold@ =~= lost_marked(
            old(self).metaprog.cargo_hold@,
            old(self).def_storage.gear_defs@,
        ));
    }

    pub fn cargo_pending_sale(&mut self)
        ensures
            final(self).metaprog.cargo_hold@ == sale_marked(
                old(self).metaprog.cargo_hold@,
                old(self).def_storage.gear_defs@,
            ),
            final(self).metaprog.stash == old(self).metaprog.stash,
            only_holds_changed(*old(self), *final(self)),
    {
        let n = self.metaprog.cargo_hold.len();
        for i in 0..n
            invariant
                n == self.metaprog.cargo_hold@.len(),
                only_holds_changed(*old(self), *self),
                self.metaprog.stash == old(self).metaprog.stash,
                forall|j: int|
                    0 <= j < i ==> #[trigger] self.metaprog.cargo_hold@[j] == mark_sale(
                        old(self).metaprog.cargo_hold@[j],
                        old(self).def_storage.gear_defs@,
                    ),
                forall|j: int|
                    i <= j < n ==> #[trigger] self.metaprog.cargo_hold@[j]
                        == old(self).metaprog.cargo_hold@[j],
        {
            let instasell = any_instasell(&self.def_storage, &self.metaprog.cargo_hold[i].name);
            if !self.metaprog.cargo_hold[i].pending_destroy && instasell {
                self.metaprog.cargo_hold[i].pending_sale = true;
            }
        }
        assert(self.metaprog.cargo_hold@ =~= sale_marked(
            old(self).metaprog.cargo_hold@,
            old(self).def_storage.gear_defs@,
        ));
    }
}

/// After a lost run is cleaned up, only items with an indestructible definition remain.
pub proof fn lemma_lost_run_keeps_indestructible(hold: Seq<Item>, defs: Seq<GearDef>)
    ensures
        forall|i: int|
            0 <= i < cleaned(lost_marked(hold, defs)).len() ==> indestructible_named(
                defs,
                (#[trigger] cleaned(lost_marked(hold, defs))[i]).name@,
            ),
{
    broadcast use vstd::seq_lib::group_filter_ensures;

    let marked = lost_marked(hold, defs);
    lemma_filter_from(marked, kept_pred());
    assert forall|i: int| 0 <= i < cleaned(marked).len() implies indestructible_named(
        defs,
        (#[trigger] cleaned(marked)[i]).name@,
    ) by {
        let x = cleaned(marked)[i];
        assert(marked.contains(x));
        let j = choose|j: int| 0 <= j < marked.len() && marked[j] == x;
        assert(marked[j] == mark_lost(hold[j], defs));
    }
}

} // verus!

verus! {

// ---------------------------------------------------------------------------
// Equipped drone and weapon
// ---------------------------------------------------------------------------

/// An item fills an equipment slot when its name is among `names` and it is available.
pub open spec fn slot_fits(it: Item, names: Seq<Seq<char>>) -> bool {
    names.contains(it.name@) && item_available(it)
}

/// Positions of the items of `hold` that fill an equipment slot, in order.
pub open spec fn slot_indices(hold: Seq<Item>, names: Seq<Seq<char>>) -> Seq<int>
    decreases hold.len(),
{
    if hold.len() == 0 {
        Seq::empty()
    } else {
        let prev = slot_indices(hold.drop_last(), names);
        if slot_fits(hold.last(), names) {
            prev.push(hold.len() - 1)
        } else {
            prev
        }
    }
}

/// The slot list holds exactly the fitting positions, in increasing order.
pub proof fn lemma_slot_indices(hold: Seq<Item>, names: Seq<Seq<char>>)
    ensures
        forall|k: int|
            0 <= k < slot_indices(hold, names).len() ==> 0 <= #[trigger] slot_indices(
                hold,
                names,
            )[k] < hold.len() && slot_fits(hold[slot_indices(hold, names)[k]], names),
        forall|k: int, l: int|
            0 <= k < l < slot_indices(hold, names).len() ==> #[trigger] slot_indices(hold, names)[k]
                < #[trigger] slot_indices(hold, names)[l],
        forall|i: int|
            0 <= i < hold.len() && slot_fits(#[trigger] hold[i], names) ==> exists|k: int|
                0 <= k < slot_indices(hold, names).len() && #[trigger] slot_indices(hold, names)[k]
                    == i,
    decreases hold.len(),
{
    if hold.len() > 0 {
        let t = hold.drop_last();
        lemma_slot_indices(t, names);
        let s = slot_indices(hold, names);
        let ps = slot_indices(t, names);
        assert forall|k: int| 0 <= k < s.len() implies 0 <= #[trigger] s[k] < hold.len()
            && slot_fits(hold[s[k]], names) by {
            if k < ps.len() {
                assert(s[k] == ps[k]);
                assert(hold[ps[k]] == t[ps[k]]);
            }
        }
        assert forall|i: int| 0 <= i < hold.len() && slot_fits(#[trigger] hold[i], names) implies exists|
            k: int,
        | 0 <= k < s.len() && #[trigger] s[k] == i by {
            if i < hold.len() - 1 {
                assert(hold[i] == t[i]);
                let k = choose|k: int| 0 <= k < ps.len() && #[trigger] ps[k] == i;
                assert(s[k] == ps[k]);
            } else {
                assert(s[s.len() - 1] == i);
            }
        }
    }
}

/// The first slot of `hold`, or -1 when no item fits.
pub open spec fn first_slot(hold: Seq<Item>, names: Seq<Seq<char>>) -> int {
    let s = slot_indices(hold, names);
    if s.len() > 0 {
        s[0]
    } else {
        -1
    }
}

/// The test "this item is available and called `name`".
pub open spec fn available_called(name: Seq<char>) -> spec_fn(Item) -> bool {
    |it: Item| it.name@ == name && item_available(it)
}

/// The first slot is also the first available item bearing its name.
proof fn lemma_first_slot_is_first_named(hold: Seq<Item>, names: Seq<Seq<char>>)
    requires
        slot_indices(hold, names).len() > 0,
    ensures
        0 <= first_slot(hold, names) < hold.len(),
        first_match(hold, available_called(hold[first_slot(hold, names)].name@)) == first_slot(
            hold,
            names,
        ),
{
    lemma_slot_indices(hold, names);
    let s = slot_indices(hold, names);
    let s0 = s[0];
    let p = available_called(hold[s0].name@);
    assert forall|j: int| 0 <= j < s0 implies !p(#[trigger] hold[j]) by {
        if p(hold[j]) {
            assert(slot_fits(hold[j], names));
            let k = choose|k: int| 0 <= k < s.len() && #[trigger] s[k] == j;
            if k > 0 {
                assert(s[0] < s[k]);
            }
        }
    }
    lemma_first_match(hold, p, s0);
}

/// Slots depend only on names and availability.
proof fn lemma_slot_indices_same(h1: Seq<Item>, h2: Seq<Item>, names: Seq<Seq<char>>)
    requires
        h1.len() == h2.len(),
        forall|i: int|
            0 <= i < h1.len() ==> (#[trigger] h1[i]).name@ == h2[i].name@ && item_available(h1[i])
                == item_available(h2[i]),
    ensures
        slot_indices(h1, names) == slot_indices(h2, names),
    decreases h1.len(),
{
    if h1.len() > 0 {
        let t1 = h1.drop_last();
        let t2 = h2.drop_last();
        assert forall|i: int| 0 <= i < t1.len() implies (#[trigger] t1[i]).name@ == t2[i].name@
            && item_available(t1[i]) == item_available(t2[i]) by {
            assert(t1[i] == h1[i] && t2[i] == h2[i]);
        }
        lemma_slot_indices_same(t1, t2, names);
        assert(h1.last() == h1[h1.len() - 1]);
        assert(h2.last() == h2[h2.len() - 1]);
    }
}

/// `it` with its active flag set to `active`.
pub open spec fn with_active(it: Item, active: bool) -> Item {
    Item { is_active: active, ..it }
}

/// The cargo with exactly the first drone slot and the first weapon slot marked active.
pub open spec fn activated(
    hold: Seq<Item>,
    ship_names: Seq<Seq<char>>,
    weapon_names: Seq<Seq<char>>,
) -> Seq<Item> {
    Seq::new(
        hold.len(),
        |i: int|
            with_active(
                hold[i],
                i == first_slot(hold, ship_names) || i == first_slot(hold, weapon_names),
            ),
    )
}

fn names_contain(names: &Vec<String>, name: &String) -> (r: bool)
    ensures
        r == views(names@).contains(name@),
{
    let n = names.len();
    for k in 0..n
        invariant
            n == names@.len(),
            forall|j: int| 0 <= j < k ==> (#[trigger] names@[j])@ != name@,
    {
        if names[k] == *name {
            assert(views(names@)[k as int] == name@);
            return true;
        }
    }
    proof {
        if views(names@).contains(name@) {
            let j = choose|j: int|
                0 <= j < views(names@).len() && views(names@)[j]
                    == name@;
            assert(names@[j]@ == name@);
        }
    }
    false
}

/// The slots of `hold` whose item names are among `names`.
fn slots_of(hold: &Vec<Item>, names: &Vec<String>) -> (r: Vec<(String, usize)>)
    ensures
        r@.len() == slot_indices(hold@, views(names@)).len(),
        forall|k: int|
            0 <= k < r@.len() ==> (#[trigger] r@[k]).1 == slot_indices(
                hold@,
                views(names@),
            )[k] && r@[k].0@ == hold@[r@[k].1 as int].name@,
{
    let ghost vn = views(names@);
    let mut out: Vec<(String, usize)> = Vec::new();
    let n = hold.len();
    for i in 0..n
        invariant
            n == hold@.len(),
            vn == views(names@),
            out@.len() == slot_indices(hold@.take(i as int), vn).len(),
            forall|k: int|
                0 <= k < out@.len() ==> (#[trigger] out@[k]).1 == slot_indices(
                    hold@.take(i as int),
                    vn,
                )[k] && out@[k].0@ == hold@[out@[k].1 as int].name@,
    {
        let ghost prev = out@;
        assert(hold@.take(i + 1).drop_last() =~= hold@.take(i as int));
        assert(hold@.take(i + 1).last() == hold@[i as int]);
        proof { lemma_slot_indices(hold@.take(i as int), vn); }
        if names_contain(names, &hold[i].name) && hold[i].available() {
            out.push((hold[i].name.clone(), i));
            assert forall|k: int| 0 <= k < out@.len() implies (#[trigger] out@[k]).1
                == slot_indices(hold@.take(i + 1), vn)[k] && out@[k].0@ == hold@[out@[k].1 as int].name@ by {
                if k < prev.len() {
                    assert(out@[k] == prev[k]);
                }
            }
        } else {
            assert forall|k: int| 0 <= k < out@.len() implies (#[trigger] out@[k]).1
                == slot_indices(hold@.take(i + 1), vn)[k] && out@[k].0@ == hold@[out@[k].1 as int].name@ by {
                assert(out@[k] == prev[k]);
            }
        }
    }
    assert(hold@.take(n as int) =~= hold@);
    out
}

impl GameWorld {
    pub fn equipped_weapon_slots(&self) -> (r: Vec<(String, usize)>)
        ensures
            r@.len() == slot_indices(
                self.metaprog.cargo_hold@,
                weapon_names(self.def_storage.weapon_defs@),
            ).len(),
            forall|k: int|
                0 <= k < r@.len() ==> (#[trigger] r@[k]).1 == slot_indices(
                    self.metaprog.cargo_hold@,
                    weapon_names(self.def_storage.weapon_defs@),
                )[k] && r@[k].0@ == self.metaprog.cargo_hold@[r@[k].1 as int].name@,
    {
        let names = self.def_storage.all_weapon_names();
        slots_of(&self.metaprog.cargo_hold, &names)
    }

    pub fn equipped_ship_slots(&self) -> (r: Vec<(String, usize)>)
        ensures
            r@.len() == slot_indices(
                self.metaprog.cargo_hold@,
                ship_names(self.def_storage.ship_defs@),
            ).len(),
            forall|k: int|
                0 <= k < r@.len() ==> (#[trigger] r@[k]).1 == slot_indices(
                    self.metaprog.cargo_hold@,
                    ship_names(self.def_storage.ship_defs@),
                )[k] && r@[k].0@ == self.metaprog.cargo_hold@[r@[k].1 as int].name@,
    {
        let names = self.def_storage.all_ship_names();
        slots_of(&self.metaprog.cargo_hold, &names)
    }

    pub fn maybe_equipped_weapon_name(&self) -> (r: Option<String>)
        ensures
            ({
                let f = first_slot(self.metaprog.cargo_hold@, weapon_names(self.def_storage.weapon_defs@));
                &&& f < 0 ==> r is None
                &&& f >= 0 ==> (r matches Some(n) && n@ == self.metaprog.cargo_hold@[f].name@)
            }),
    {
        let slots = self.equipped_weapon_slots();
        if slots.len() > 0 {
            Some(slots[0].0.clone())
        } else {
            None
        }
    }

    pub fn maybe_equipped_ship_name(&self) -> (r: Option<String>)
        ensures
            ({
                let f = first_slot(self.metaprog.cargo_hold@, ship_names(self.def_storage.ship_defs@));
                &&& f < 0 ==> r is None
                &&& f >= 0 ==> (r matches Some(n) && n@ == self.metaprog.cargo_hold@[f].name@)
            }),
    {
        let slots = self.equipped_ship_slots();
        if slots.len() > 0 {
            Some(slots[0].0.clone())
        } else {
            None
        }
    }

    pub fn maybe_equipped_weapon_idx(&self) -> (r: Option<usize>)
        ensures
            ({
                let f = first_slot(self.metaprog.cargo_hold@, weapon_names(self.def_storage.weapon_defs@));
                &&& f < 0 ==> r is None
                &&& f >= 0 ==> r == Some(f as usize)
            }),
    {
        let slots = self.equipped_weapon_slots();
        if slots.len() > 0 {
            Some(slots[0].1)
        } else {
            None
        }
    }

    pub fn maybe_equipped_ship_idx(&self) -> (r: Option<usize>)
        ensures
            ({
                let f = first_slot(self.metaprog.cargo_hold@, ship_names(self.def_storage.ship_defs@));
                &&& f < 0 ==> r is None
                &&& f >= 0 ==> r == Some(f as usize)
            }),
    {
        let slots = self.equipped_ship_slots();
        if slots.len() > 0 {
            Some(slots[0].1)
        } else {
            None
        }
    }
}

} // verus!

verus! {

/// Position of the first available item of `hold` called `name`.
fn find_available(hold: &Vec<Item>, name: &String) -> (r: Option<usize>)
    ensures
        ({
            let f = first_match(hold@, available_called(name@));
            &&& f < hold@.len() ==> r == Some(f as usize)
            &&& f >= hold@.len() ==> r is None
        }),
{
    let ghost p = available_called(name@);
    let n = hold.len();
    for k in 0..n
        invariant
            n == hold@.len(),
            p == available_called(name@),
            forall|j: int| 0 <= j < k ==> !p(#[trigger] hold@[j]),
    {
        if hold[k].name == *name && hold[k].available() {
            proof { lemma_first_match(hold@, p, k as int); }
            return Some(k);
        }
    }
    proof { lemma_first_match(hold@, p, n as int); }
    None
}

impl GameWorld {
    /// Marks the first available drone and the first available weapon in the cargo
    /// as active, and everything else as inactive.
    pub fn try_set_active_ship_and_weapon(&mut self)
        ensures
            final(self).metaprog.cargo_hold@ == activated(
                old(self).metaprog.cargo_hold@,
                ship_names(old(self).def_storage.ship_defs@),
                weapon_names(old(self).def_storage.weapon_defs@),
            ),
            final(self).metaprog.stash == old(self).metaprog.stash,
            only_holds_changed(*old(self), *final(self)),
    {
        let ghost h = old(self).metaprog.cargo_hold@;
        let ghost sn = ship_names(self.def_storage.ship_defs@);
        let ghost wn = weapon_names(self.def_storage.weapon_defs@);
        let n = self.metaprog.cargo_hold.len();
        for i in 0..n
            invariant
                n == self.metaprog.cargo_hold@.len(),
                h == old(self).metaprog.cargo_hold@,
                only_holds_changed(*old(self), *self),
                self.metaprog.stash == old(self).metaprog.stash,
                forall|j: int|
                    0 <= j < i ==> #[trigger] self.metaprog.cargo_hold@[j] == with_active(h[j], false),
                forall|j: int| i <= j < n ==> #[trigger] self.metaprog.cargo_hold@[j] == h[j],
        {
            self.metaprog.cargo_hold[i].is_active = false;
        }
        let ghost h0 = self.metaprog.cargo_hold@;
        proof {
            lemma_slot_indices_same(h0, h, sn);
            lemma_slot_indices_same(h0, h, wn);
        }
        let ghost sf = first_slot(h, sn);
        let ghost wf = first_slot(h, wn);
        if let Some(name) = self.maybe_equipped_ship_name() {
            proof { lemma_first_slot_is_first_named(h0, sn); }
            if let Some(k) = find_available(&self.metaprog.cargo_hold, &name) {
                self.metaprog.cargo_hold[k].is_active = true;
            }
        }
        let ghost h1 = self.metaprog.cargo_hold@;
        assert(h1.len() == h.len());
        assert forall|j: int| 0 <= j < h.len() implies #[trigger] h1[j] == with_active(h[j], j == sf) by {
            lemma_slot_indices(h, sn);
        }
        proof {
            lemma_slot_indices_same(h1, h, wn);
        }
        if let Some(name) = self.maybe_equipped_weapon_name() {
            proof { lemma_first_slot_is_first_named(h1, wn); }
            if let Some(k) = find_available(&self.metaprog.cargo_hold, &name) {
                self.metaprog.cargo_hold[k].is_active = true;
            }
        }
        assert(self.metaprog.cargo_hold@ =~= activated(h, sn, wn)) by {
            lemma_slot_indices(h, wn);
        }
    }
}

/// After activation, every active item is available and fills a slot, and no
/// more than one drone and one weapon are active.
pub proof fn lemma_activated_items(
    hold: Seq<Item>,
    ship_names: Seq<Seq<char>>,
    weapon_names: Seq<Seq<char>>,
    i: int,
)
    requires
        0 <= i < hold.len(),
        activated(hold, ship_names, weapon_names)[i].is_active,
    ensures
        item_available(activated(hold, ship_names, weapon_names)[i]),
        i == first_slot(hold, ship_names) || i == first_slot(hold, weapon_names),
        i == first_slot(hold, ship_names) ==> slot_fits(hold[i], ship_names),
        i == first_slot(hold, weapon_names) ==> slot_fits(hold[i], weapon_names),
{
    lemma_slot_indices(hold, ship_names);
    lemma_slot_indices(hold, weapon_names);
}

} // verus!

verus! {

/// Activating twice is activating once: which items fill the first slots
/// depends only on names and availability, which activation leaves alone.
pub proof fn lemma_activation_idempotent(
    hold: Seq<Item>,
    ship_names: Seq<Seq<char>>,
    weapon_names: Seq<Seq<char>>,
)
    ensures
        activated(activated(hold, ship_names, weapon_names), ship_names, weapon_names)
            == activated(hold, ship_names, weapon_names),
{
    let a = activated(hold, ship_names, weapon_names);
    assert forall|i: int| 0 <= i < a.len() implies (#[trigger] a[i]).name@ == hold[i].name@
        && item_available(a[i]) == item_available(hold[i]) by {}
    lemma_slot_indices_same(a, hold, ship_names);
    lemma_slot_indices_same(a, hold, weapon_names);
    assert(activated(a, ship_names, weapon_names) =~= a);
}

} // verus!

verus! {

/// Cleanup removes exactly the items marked lost or sold: every other item,
/// hidden or not, stays, in order; a hold with nothing marked is left as it is.
pub proof fn lemma_cleanup_removes_exactly_marked(hold: Seq<Item>)
    ensures
        cleaned(hold) == hold.filter(|it: Item| !it.pending_destroy && !it.pending_sale),
        (forall|i: int| 0 <= i < hold.len() ==> !(#[trigger] hold[i]).pending_destroy
            && !hold[i].pending_sale) ==> cleaned(hold) == hold,
{
    let p = |it: Item| !it.pending_destroy && !it.pending_sale;
    assert(kept_pred() =~= p);
    if forall|i: int| 0 <= i < hold.len() ==> !(#[trigger] hold[i]).pending_destroy
        && !hold[i].pending_sale {
        lemma_filter_all_pass(hold, p);
    }
}

} // verus!
