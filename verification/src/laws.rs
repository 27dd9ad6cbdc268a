//! What holds of the store across several calls.
//!
//! The operations of [`Restaurant`](crate::database::Restaurant) are stated
//! over [`added`], [`removed`] and [`updated`]; the proofs here are about
//! those functions, and about whole runs of them.

use vstd::prelude::*;
use crate::item::ItemView;
use crate::database::{
    added, can_update, dishes, holds_id, removed, updated, with_replaced, without_id, Tables,
};

verus! {

/// One change to the store.
pub enum Step {
    Add { table: u8, items: Seq<ItemView> },
    Remove { table: u8, id: u128 },
    Update { table: u8, id: u128, by: ItemView },
}

impl Step {
    /// The table that the step is about.
    pub open spec fn table(self) -> u8 {
        match self {
            Step::Add { table, .. } => table,
            Step::Remove { table, .. } => table,
            Step::Update { table, .. } => table,
        }
    }

    /// The store after the step.
    pub open spec fn apply(self, tables: Tables) -> Tables {
        match self {
            Step::Add { table, items } => added(tables, table, items),
            Step::Remove { table, id } => removed(tables, table, id),
            Step::Update { table, id, by } => updated(tables, table, id, by),
        }
    }
}

/// The store after `steps`, taken one after the other.
pub open spec fn run(tables: Tables, steps: Seq<Step>) -> Tables
    decreases steps.len(),
{
    if steps.len() == 0 {
        tables
    } else {
        steps.last().apply(run(tables, steps.drop_last()))
    }
}

/// The dishes that the additions among `steps` bring to `table`, in the order
/// of the steps.
pub open spec fn orders_for(steps: Seq<Step>, table: u8) -> Seq<ItemView>
    decreases steps.len(),
{
    if steps.len() == 0 {
        Seq::empty()
    } else {
        let earlier = orders_for(steps.drop_last(), table);
        match steps.last() {
            Step::Add { table: at, items } if at == table => earlier + items,
            _ => earlier,
        }
    }
}

/// A table gets its entry from an addition and from nothing else: after any
/// run that adds nothing to `table`, a table without an entry still has none.
pub proof fn lemma_entry_needs_an_addition(tables: Tables, steps: Seq<Step>, table: u8)
    requires
        !tables.contains_key(table),
        forall|i: int| 0 <= i < steps.len() ==> !(#[trigger] steps[i] is Add && steps[i].table() == table),
    ensures
        !run(tables, steps).contains_key(table),
    decreases steps.len(),
{
    if steps.len() > 0 {
        lemma_entry_needs_an_addition(tables, steps.drop_last(), table);
        assert(!(steps[steps.len() - 1] is Add && steps[steps.len() - 1].table() == table));
    }
}

/// Adding no dishes gives the table an entry and leaves its dishes as they
/// were: a table that had no entry, or no dishes, is then there and empty.
pub proof fn lemma_add_nothing(tables: Tables, table: u8)
    ensures
        added(tables, table, Seq::empty()).contains_key(table),
        added(tables, table, Seq::empty())[table] == dishes(tables, table),
        dishes(tables, table).len() == 0 ==> added(tables, table, Seq::empty())[table]
            == Seq::<ItemView>::empty(),
{
    assert(dishes(tables, table) + Seq::<ItemView>::empty() =~= dishes(tables, table));
    if dishes(tables, table).len() == 0 {
        assert(dishes(tables, table) =~= Seq::<ItemView>::empty());
    }
}

/// Adding `first` and then `second` is adding `first + second`: the table
/// holds its former dishes, then `first`, then `second`, and a table that had
/// no entry holds exactly `first + second`.
pub proof fn lemma_add_appends(tables: Tables, table: u8, first: Seq<ItemView>, second: Seq<ItemView>)
    ensures
        added(added(tables, table, first), table, second) == added(tables, table, first + second),
        added(added(tables, table, first), table, second)[table] == dishes(tables, table) + first
            + second,
        !tables.contains_key(table) ==> added(added(tables, table, first), table, second)[table]
            == first + second,
{
    let once = added(tables, table, first);
    let twice = added(once, table, second);
    assert(twice[table] =~= dishes(tables, table) + first + second);
    assert(dishes(tables, table) + first + second =~= dishes(tables, table) + (first + second));
    assert(twice =~= added(tables, table, first + second));
    if !tables.contains_key(table) {
        assert(dishes(tables, table) + first + second =~= first + second);
    }
}

/// Adding to a table changes no other table.
pub proof fn lemma_add_elsewhere(tables: Tables, table: u8, items: Seq<ItemView>, other: u8)
    requires
        other != table,
    ensures
        added(tables, table, items).contains_key(other) == tables.contains_key(other),
        dishes(added(tables, table, items), other) == dishes(tables, other),
{
}

/// What is left after a removal holds no dish with the removed identifier.
pub proof fn lemma_without_id_is_gone(items: Seq<ItemView>, id: u128)
    ensures
        !holds_id(without_id(items, id), id),
{
    let unlike = |dish: ItemView| dish.id != id;
    assert forall|k: int| 0 <= k < items.filter(unlike).len() implies #[trigger] items.filter(
        unlike,
    )[k].id != id by {
        items.lemma_filter_pred(unlike, k);
    }
}

/// Removing an identifier that no dish has changes nothing.
pub proof fn lemma_without_absent_id(items: Seq<ItemView>, id: u128)
    requires
        !holds_id(items, id),
    ensures
        without_id(items, id) == items,
    decreases items.len(),
{
    reveal(Seq::filter);
    if items.len() > 0 {
        assert forall|k: int| 0 <= k < items.drop_last().len() implies #[trigger] items.drop_last()[k].id
            != id by {
            assert(items[k].id != id);
        }
        lemma_without_absent_id(items.drop_last(), id);
        assert(items[items.len() - 1].id != id);
        assert(items.drop_last().push(items.last()) =~= items);
    }
}

/// Removal is idempotent: removing an identifier a second time gives the
/// store that the first removal gave. And removing one that no dish of an
/// existing table has leaves the store as it was.
pub proof fn lemma_remove_idempotent(tables: Tables, table: u8, id: u128)
    ensures
        removed(removed(tables, table, id), table, id) == removed(tables, table, id),
        tables.contains_key(table) && !holds_id(tables[table], id) ==> removed(tables, table, id)
            == tables,
{
    if tables.contains_key(table) {
        let once = removed(tables, table, id);
        lemma_without_id_is_gone(tables[table], id);
        lemma_without_absent_id(once[table], id);
        assert(removed(once, table, id) =~= once);
        if !holds_id(tables[table], id) {
            lemma_without_absent_id(tables[table], id);
            assert(once =~= tables);
        }
    }
}

/// A removal takes no dish with another identifier: each is among what is
/// left as often as it was there before.
pub proof fn lemma_remove_keeps_others(items: Seq<ItemView>, id: u128, dish: ItemView)
    requires
        dish.id != id,
    ensures
        without_id(items, id).to_multiset().count(dish) == items.to_multiset().count(dish),
    decreases items.len(),
{
    broadcast use vstd::seq_lib::group_to_multiset_ensures;

    reveal(Seq::filter);
    if items.len() > 0 {
        let front = items.drop_last();
        lemma_remove_keeps_others(front, id, dish);
        assert(front.push(items.last()) =~= items);
    } else {
        assert(without_id(items, id) =~= items);
    }
}

/// An update keeps the number of dishes and every dish with another
/// identifier in its place, and puts `by` where the identifier was.
pub proof fn lemma_update_in_place(items: Seq<ItemView>, id: u128, by: ItemView)
    ensures
        with_replaced(items, id, by).len() == items.len(),
        forall|k: int|
            0 <= k < items.len() ==> #[trigger] with_replaced(items, id, by)[k] == (if items[k].id
                == id {
                by
            } else {
                items[k]
            }),
{
}

/// Where exactly one dish of the table has the identifier, at place `k`, an
/// update changes that place and no other.
pub proof fn lemma_update_replaces_one(tables: Tables, table: u8, id: u128, by: ItemView, k: int)
    requires
        tables.contains_key(table),
        0 <= k < tables[table].len(),
        forall|j: int| 0 <= j < tables[table].len() ==> (#[trigger] tables[table][j].id == id <==> j == k),
    ensures
        can_update(tables, table, id),
        updated(tables, table, id, by) == tables.insert(table, tables[table].update(k, by)),
{
    assert(tables[table][k].id == id);
    assert(with_replaced(tables[table], id, by) =~= tables[table].update(k, by));
}

/// An update that finds no table, or no dish with the identifier, leaves the
/// store as it was. (`update_item` then returns an error.)
pub proof fn lemma_update_without_target(tables: Tables, table: u8, id: u128, by: ItemView)
    requires
        !tables.contains_key(table) || !holds_id(tables[table], id),
    ensures
        !can_update(tables, table, id),
        updated(tables, table, id, by) == tables,
{
}

/// The steps of a run that are about other tables do not matter to a table:
/// its entry after the run is its entry after those steps alone that are
/// about it, in the same order.
pub proof fn lemma_tables_are_independent(tables: Tables, steps: Seq<Step>, table: u8)
    ensures
        run(tables, steps).contains_key(table) == run(
            tables,
            steps.filter(|step: Step| step.table() == table),
        ).contains_key(table),
        dishes(run(tables, steps), table) == dishes(
            run(tables, steps.filter(|step: Step| step.table() == table)),
            table,
        ),
    decreases steps.len(),
{
    reveal(Seq::filter);
    let here = |step: Step| step.table() == table;
    if steps.len() > 0 {
        let front = steps.drop_last();
        let last = steps.last();
        lemma_tables_are_independent(tables, front, table);
        if last.table() == table {
            assert(steps.filter(here) == front.filter(here).push(last));
            assert(steps.filter(here).drop_last() =~= front.filter(here));
            assert(steps.filter(here).last() == last);
        }
    }
}

/// A run of additions on a store without tables leaves at each table the
/// dishes added to it, batch after batch in the order of the run, whatever
/// was added to other tables in between; and a table has an entry exactly
/// when some step added to it.
pub proof fn lemma_additions_concatenate(steps: Seq<Step>, table: u8)
    requires
        forall|i: int| 0 <= i < steps.len() ==> #[trigger] steps[i] is Add,
    ensures
        dishes(run(Tables::empty(), steps), table) == orders_for(steps, table),
        run(Tables::empty(), steps).contains_key(table) <==> exists|i: int|
            0 <= i < steps.len() && #[trigger] steps[i].table() == table,
    decreases steps.len(),
{
    if steps.len() > 0 {
        let front = steps.drop_last();
        let last = steps.last();
        lemma_additions_concatenate(front, table);
        assert(steps[steps.len() - 1] is Add);
        if last.table() == table {
            assert(steps[steps.len() - 1].table() == table);
        } else {
            if exists|i: int| 0 <= i < front.len() && #[trigger] front[i].table() == table {
                let i = choose|i: int| 0 <= i < front.len() && #[trigger] front[i].table() == table;
                assert(steps[i].table() == table);
            }
            if exists|i: int| 0 <= i < steps.len() && #[trigger] steps[i].table() == table {
                let i = choose|i: int| 0 <= i < steps.len() && #[trigger] steps[i].table() == table;
                assert(front[i].table() == table);
            }
        }
    }
}

/// What the additions of a run bring to a table is what those of its steps
/// bring that are about the table.
pub proof fn lemma_orders_follow_own_steps(steps: Seq<Step>, table: u8)
    ensures
        orders_for(steps, table) == orders_for(
            steps.filter(|step: Step| step.table() == table),
            table,
        ),
    decreases steps.len(),
{
    reveal(Seq::filter);
    let here = |step: Step| step.table() == table;
    if steps.len() > 0 {
        let front = steps.drop_last();
        let last = steps.last();
        lemma_orders_follow_own_steps(front, table);
        if last.table() == table {
            assert(steps.filter(here) == front.filter(here).push(last));
            assert(steps.filter(here).drop_last() =~= front.filter(here));
            assert(steps.filter(here).last() == last);
        }
    }
}

/// Waiters on tables of their own: where the steps of a run of additions that
/// are about a table are those of one waiter's list `own`, in the order of
/// that list, the table ends with the dishes that the waiter added, batch
/// after batch as submitted, however the steps of the others fell in between.
pub proof fn lemma_own_table_keeps_own_order(steps: Seq<Step>, own: Seq<Step>, table: u8)
    requires
        forall|i: int| 0 <= i < steps.len() ==> #[trigger] steps[i] is Add,
        steps.filter(|step: Step| step.table() == table) == own.filter(
            |step: Step| step.table() == table,
        ),
    ensures
        dishes(run(Tables::empty(), steps), table) == orders_for(own, table),
{
    lemma_additions_concatenate(steps, table);
    lemma_orders_follow_own_steps(steps, table);
    lemma_orders_follow_own_steps(own, table);
}

} // verus!
