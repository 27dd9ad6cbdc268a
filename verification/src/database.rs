//! The order store: for each table that has been served, the dishes on
//! order, in the order in which they were taken.

use vstd::prelude::*;
use std::collections::HashMap;
use crate::item::{Item, ItemView};

verus! {

broadcast use vstd::std_specs::hash::group_hash_axioms;

/// The error text for a table that has no entry in the store.
pub const TABLE_EMPTY: &'static str = "Table is empty";

/// The error text for an update that finds no dish with the given identifier.
pub const NOTHING_TO_UPDATE: &'static str = "Nothing to update";

/// The mathematical value of a store: the tables that have an entry, each
/// with its dishes in order.
pub type Tables = Map<u8, Seq<ItemView>>;

/// Whether some dish among `items` has the identifier `id`.
pub open spec fn holds_id(items: Seq<ItemView>, id: u128) -> bool {
    exists|k: int| 0 <= k < items.len() && #[trigger] items[k].id == id
}

/// `items` without the dishes whose identifier is `id`, the others in their
/// former order.
pub open spec fn without_id(items: Seq<ItemView>, id: u128) -> Seq<ItemView> {
    items.filter(|dish: ItemView| dish.id != id)
}

/// `items` with `by` in the place of each dish whose identifier is `id`.
pub open spec fn with_replaced(items: Seq<ItemView>, id: u128, by: ItemView) -> Seq<ItemView> {
    items.map_values(|dish: ItemView| if dish.id == id { by } else { dish })
}

/// The dishes of `table`, none where the table has no entry.
pub open spec fn dishes(tables: Tables, table: u8) -> Seq<ItemView> {
    if tables.contains_key(table) {
        tables[table]
    } else {
        Seq::empty()
    }
}

/// The store after `items` were added to `table`.
pub open spec fn added(tables: Tables, table: u8, items: Seq<ItemView>) -> Tables {
    tables.insert(table, dishes(tables, table) + items)
}

/// The store after a removal of `id` from `table`: unchanged where the table
/// has no entry.
pub open spec fn removed(tables: Tables, table: u8, id: u128) -> Tables {
    if tables.contains_key(table) {
        tables.insert(table, without_id(tables[table], id))
    } else {
        tables
    }
}

/// Whether an update of `id` at `table` finds its dish.
pub open spec fn can_update(tables: Tables, table: u8, id: u128) -> bool {
    tables.contains_key(table) && holds_id(tables[table], id)
}

/// The error text of an update at `table` that finds no dish.
pub open spec fn update_refusal(tables: Tables, table: u8) -> Seq<char> {
    if tables.contains_key(table) {
        NOTHING_TO_UPDATE@
    } else {
        TABLE_EMPTY@
    }
}

/// The store after an update of `id` at `table` to `by`: unchanged where the
/// update finds no dish.
pub open spec fn updated(tables: Tables, table: u8, id: u128, by: ItemView) -> Tables {
    if can_update(tables, table, id) {
        tables.insert(table, with_replaced(tables[table], id, by))
    } else {
        tables
    }
}

/// What a call to the store did.
#[derive(Debug)]
pub enum Action {
    Inserted,
    Deleted,
    Updated,
    Data(Vec<Item>),
}

/// The store. A table that was never served has no entry, which is not the
/// same as a table whose dishes were all removed.
pub struct Restaurant {
    tables: HashMap<u8, Vec<Item>>,
}

impl View for Restaurant {
    type V = Tables;

    closed spec fn view(&self) -> Tables {
        self.tables@.map_values(|dishes: Vec<Item>| dishes.deep_view())
    }
}

/// Appends copies of the dishes of `from` to `onto`.
fn extend_with(onto: &mut Vec<Item>, from: &Vec<Item>)
    ensures
        final(onto).deep_view() == old(onto).deep_view() + from.deep_view(),
{
    let mut i: usize = 0;
    while i < from.len()
        invariant
            i <= from.len(),
            onto.deep_view() == old(onto).deep_view() + from.deep_view().take(i as int),
        decreases from.len() - i,
    {
        let ghost before = onto.deep_view();
        onto.push(from[i].clone());
        assert(onto.deep_view() =~= before.push(from[i as int]@));
        assert(from.deep_view().take(i + 1) =~= from.deep_view().take(i as int).push(
            from[i as int]@,
        ));
        i += 1;
    }
    assert(from.deep_view().take(from.len() as int) =~= from.deep_view());
}

/// A copy of `items`.
fn copied(items: &Vec<Item>) -> (out: Vec<Item>)
    ensures
        out.deep_view() == items.deep_view(),
{
    let mut out: Vec<Item> = Vec::new();
    extend_with(&mut out, items);
    assert(out.deep_view() =~= items.deep_view());
    out
}

/// Copies of the dishes of `first`, then of those of `second`.
fn joined(first: &Vec<Item>, second: &Vec<Item>) -> (out: Vec<Item>)
    ensures
        out.deep_view() == first.deep_view() + second.deep_view(),
{
    let mut out: Vec<Item> = copied(first);
    extend_with(&mut out, second);
    out
}

/// Copies of the dishes of `items` whose identifier is not `id`.
fn kept(items: &Vec<Item>, id: u128) -> (out: Vec<Item>)
    ensures
        out.deep_view() == without_id(items.deep_view(), id),
{
    let ghost unlike = |dish: ItemView| dish.id != id;
    let mut out: Vec<Item> = Vec::new();
    let mut i: usize = 0;
    assert(out.deep_view() =~= Seq::<ItemView>::empty());
    assert(items.deep_view().take(0).filter(unlike) =~= Seq::<ItemView>::empty()) by {
        reveal(Seq::filter);
    }
    while i < items.len()
        invariant
            i <= items.len(),
            unlike == |dish: ItemView| dish.id != id,
            out.deep_view() == items.deep_view().take(i as int).filter(unlike),
        decreases items.len() - i,
    {
        let ghost before = out.deep_view();
        let ghost seen = items.deep_view().take(i as int);
        assert(items.deep_view().take(i + 1) =~= seen.push(items[i as int]@));
        proof {
            seen.lemma_filter_push(items[i as int]@, unlike);
        }
        if items[i]._id != id {
            out.push(items[i].clone());
            assert(out.deep_view() =~= before.push(items[i as int]@));
        }
        i += 1;
    }
    assert(items.deep_view().take(items.len() as int) =~= items.deep_view());
    out
}

/// Copies of the dishes of `items`, with a copy of `by` in the place of each
/// whose identifier is `id`; `None` where no dish has that identifier.
fn replaced(items: &Vec<Item>, id: u128, by: &Item) -> (out: Option<Vec<Item>>)
    ensures
        match out {
            Some(dishes) => holds_id(items.deep_view(), id) && dishes.deep_view() == with_replaced(
                items.deep_view(),
                id,
                by@,
            ),
            None => !holds_id(items.deep_view(), id),
        },
{
    let mut out: Vec<Item> = Vec::new();
    let mut found = false;
    let mut i: usize = 0;
    while i < items.len()
        invariant
            i <= items.len(),
            out.len() == i,
            forall|k: int|
                0 <= k < i ==> #[trigger] out[k]@ == (if items[k]._id == id {
                    by@
                } else {
                    items[k]@
                }),
            found <==> exists|k: int| 0 <= k < i && #[trigger] items[k]._id == id,
        decreases items.len() - i,
    {
        if items[i]._id == id {
            found = true;
            out.push(by.clone());
        } else {
            out.push(items[i].clone());
        }
        i += 1;
    }
    assert(out.deep_view() =~= with_replaced(items.deep_view(), id, by@));
    if found {
        let ghost k = choose|k: int| 0 <= k < items.len() && #[trigger] items[k]._id == id;
        assert(items.deep_view()[k].id == id);
        Some(out)
    } else {
        assert forall|k: int| 0 <= k < items.deep_view().len() implies #[trigger] items.deep_view()[k].id
            != id by {
            assert(items[k]._id != id);
        }
        None
    }
}

impl Restaurant {
    /// A store without tables.
    pub fn new() -> (store: Restaurant)
        ensures
            store@ == Tables::empty(),
    {
        let store = Restaurant { tables: HashMap::new() };
        assert(store@ =~= Tables::empty());
        store
    }

    /// The dishes on order at `table`, or [`TABLE_EMPTY`] where the table
    /// has no entry.
    pub fn items_from_table(&self, table: u8) -> (r: Result<Action, String>)
        ensures
            match r {
                Ok(Action::Data(items)) => self@.contains_key(table) && items.deep_view()
                    == self@[table],
                Ok(_) => false,
                Err(e) => !self@.contains_key(table) && e@ == TABLE_EMPTY@,
            },
    {
        let read = |items: &Vec<Item>| -> (a: Action)
            ensures
                a matches Action::Data(dishes) && dishes.deep_view() == items.deep_view(),
            {
                Action::Data(copied(items))
            };
        self.map(table, read)
    }

    /// Replaces, at `table`, each dish whose identifier is `item_id` with
    /// `item`, every dish keeping its place. Fails with [`TABLE_EMPTY`] where
    /// the table has no entry, and with [`NOTHING_TO_UPDATE`] where it has
    /// one but no such dish; the store is then as it was.
    pub fn update_item(&mut self, table: u8, item_id: u128, item: Item) -> (r: Result<
        Action,
        String,
    >)
        ensures
            final(self)@ == updated(old(self)@, table, item_id, item@),
            match r {
                Ok(done) => done is Updated && can_update(old(self)@, table, item_id),
                Err(e) => !can_update(old(self)@, table, item_id) && e@ == update_refusal(
                    old(self)@,
                    table,
                ),
            },
    {
        let replace = |old_items: &Vec<Item>| -> (out: Option<Vec<Item>>)
            ensures
                match out {
                    Some(dishes) => holds_id(old_items.deep_view(), item_id) && dishes.deep_view()
                        == with_replaced(old_items.deep_view(), item_id, item@),
                    None => !holds_id(old_items.deep_view(), item_id),
                },
            {
                replaced(old_items, item_id, &item)
            };
        match self.map(table, replace) {
            Ok(Some(items)) => self.replace_whole(table, items, Action::Updated),
            Ok(None) => Err(NOTHING_TO_UPDATE.to_owned()),
            Err(e) => Err(e),
        }
    }

    /// Appends `items`, in their order, to the dishes of `table`; a table
    /// without an entry gets one that holds exactly `items`. Always succeeds.
    pub fn add_items(&mut self, table: u8, items: Vec<Item>) -> (r: Result<Action, String>)
        ensures
            final(self)@ == added(old(self)@, table, items.deep_view()),
            r matches Ok(done) && done is Inserted,
    {
        let append = |old_items: &Vec<Item>| -> (out: Vec<Item>)
            ensures
                out.deep_view() == old_items.deep_view() + items.deep_view(),
            {
                joined(old_items, &items)
            };
        let items_to_add = match self.map(table, append) {
            Ok(all) => all,
            Err(_) => items,
        };
        assert(items_to_add.deep_view() =~= dishes(old(self)@, table) + items.deep_view());
        self.replace_whole(table, items_to_add, Action::Inserted)
    }

    /// Removes, at `table`, the dishes whose identifier is `item_id`, the
    /// others keeping their order; where there is none the call succeeds and
    /// changes nothing. Fails with [`TABLE_EMPTY`] where the table has no
    /// entry.
    pub fn remove_item(&mut self, table: u8, item_id: u128) -> (r: Result<Action, String>)
        ensures
            final(self)@ == removed(old(self)@, table, item_id),
            match r {
                Ok(done) => done is Deleted && old(self)@.contains_key(table),
                Err(e) => !old(self)@.contains_key(table) && e@ == TABLE_EMPTY@,
            },
    {
        let keep = |items: &Vec<Item>| -> (out: Vec<Item>)
            ensures
                out.deep_view() == without_id(items.deep_view(), item_id),
            {
                kept(items, item_id)
            };
        match self.map(table, keep) {
            Ok(items) => self.replace_whole(table, items, Action::Deleted),
            Err(e) => Err(e),
        }
    }

    /// Applies `op` to the dishes of `table`, or fails with [`TABLE_EMPTY`]
    /// where the table has no entry.
    fn map<T>(&self, table: u8, op: impl Fn(&Vec<Item>) -> T) -> (r: Result<T, String>)
        requires
            self.tables@.contains_key(table) ==> op.requires((&self.tables@[table],)),
        ensures
            match r {
                Ok(out) => self.tables@.contains_key(table) && op.ensures(
                    (&self.tables@[table],),
                    out,
                ),
                Err(e) => !self.tables@.contains_key(table) && e@ == TABLE_EMPTY@,
            },
    {
        match self.tables.get(&table) {
            Some(items) => Ok(op(items)),
            None => Err(TABLE_EMPTY.to_owned()),
        }
    }

    /// Makes `items` the dishes of `table`, whatever they were.
    fn replace_whole(&mut self, table: u8, items: Vec<Item>, action: Action) -> (r: Result<
        Action,
        String,
    >)
        ensures
            final(self)@ == old(self)@.insert(table, items.deep_view()),
            r == Ok::<Action, String>(action),
    {
        self.tables.insert(table, items);
        assert(self@ =~= old(self)@.insert(table, items.deep_view()));
        Ok(action)
    }
}

} // verus!
