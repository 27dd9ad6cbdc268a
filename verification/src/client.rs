//! The simulated waitstaff: what one waiter does to the store in one job.
//!
//! Whoever runs the simulation holds the store exclusively for the length of
//! a job, hands it to [`Client::do_job`], and lets the waiter rest for
//! [`Client::wait_some_time`] afterwards.

use vstd::prelude::*;
use vstd::pervasive::unreached;
use crate::database::{added, removed, Action, Restaurant, Tables, TABLE_EMPTY};
use crate::item::{Item, ItemView, MAX_COOK_TIME, MIN_COOK_TIME};
use crate::outside::{is_random_uuid, random_in};

verus! {

/// How many waiters the simulation employs.
pub const WAITSTAFF: u8 = 25;

/// The lowest table number that a waiter serves.
pub const FIRST_TABLE: u8 = 1;

/// The highest table number that a waiter serves.
pub const LAST_TABLE: u8 = 15;

/// The shortest rest between two jobs, in milliseconds.
pub const MIN_WAIT: u64 = 1000;

/// The longest rest between two jobs, in milliseconds.
pub const MAX_WAIT: u64 = 5000;

/// The most jobs that a waiter does in a shift.
pub const MAX_JOBS: u64 = 3;

/// What a waiter can do at a table.
#[derive(Debug)]
pub enum ClientActions {
    WriteOrder,
    RemoveItem,
    TableStatus,
}

/// A waiter.
pub struct Client {
    pub id: u8,
}

/// What came of a job.
#[derive(Debug)]
pub enum JobOutcome {
    /// The table's dishes were asked for: the store's answer.
    Status(Result<Action, String>),
    /// These dishes were added to the table.
    Ordered(Vec<Item>),
    /// This dish, the last on the table's list, was taken off it.
    Removed(Item),
    /// A dish was to be taken off, and the table has an entry without dishes.
    NothingToRemove,
    /// A dish was to be taken off, and the table has no entry: the store's
    /// error text.
    NoTable(String),
}

/// A job, as done: where, what, and what came of it.
#[derive(Debug)]
pub struct JobReport {
    pub table: u8,
    pub action: ClientActions,
    pub outcome: JobOutcome,
}

/// The action that stands for a roll of the die: 1 writes an order, 2 takes a
/// dish off, anything else asks for the table's status.
pub open spec fn action_of(roll: u64) -> ClientActions {
    if roll == 1 {
        ClientActions::WriteOrder
    } else if roll == 2 {
        ClientActions::RemoveItem
    } else {
        ClientActions::TableStatus
    }
}

/// Whether `answer` is what a query for `table` gives on the store `tables`.
pub open spec fn is_status(tables: Tables, table: u8, answer: Result<Action, String>) -> bool {
    match answer {
        Ok(Action::Data(items)) => tables.contains_key(table) && items.deep_view() == tables[table],
        Ok(_) => false,
        Err(e) => !tables.contains_key(table) && e@ == TABLE_EMPTY@,
    }
}

/// Whether `order` is what a waiter writes down: pork ramen, chicken curry
/// and coffee, each under a new identifier and with a cook time in range.
pub open spec fn is_house_order(order: Seq<ItemView>) -> bool {
    &&& order.len() == 3
    &&& order[0].name == "Pork Ramen"@
    &&& order[1].name == "Chicken Curry"@
    &&& order[2].name == "Coffee"@
    &&& forall|k: int|
        0 <= k < 3 ==> MIN_COOK_TIME <= (#[trigger] order[k]).cook_time <= MAX_COOK_TIME
            && is_random_uuid(order[k].id)
}

/// Whether a job with `action` at `table` that found the store as `before`
/// leaves it as `after` and comes to `outcome`.
///
/// Asking for the status changes nothing. Writing an order appends it.
/// Taking a dish off removes the last dish of the table's list, by its
/// identifier, and changes nothing where there is no entry or no dish.
pub open spec fn job_done(
    before: Tables,
    after: Tables,
    table: u8,
    action: ClientActions,
    outcome: JobOutcome,
) -> bool {
    match action {
        ClientActions::TableStatus => {
            &&& after == before
            &&& outcome matches JobOutcome::Status(answer)
            &&& is_status(before, table, answer)
        },
        ClientActions::WriteOrder => {
            &&& outcome matches JobOutcome::Ordered(order)
            &&& after == added(before, table, order.deep_view())
        },
        ClientActions::RemoveItem => {
            if !before.contains_key(table) {
                &&& after == before
                &&& outcome matches JobOutcome::NoTable(e)
                &&& e@ == TABLE_EMPTY@
            } else if before[table].len() == 0 {
                &&& after == before
                &&& outcome is NothingToRemove
            } else {
                &&& outcome matches JobOutcome::Removed(dish)
                &&& dish@ == before[table].last()
                &&& after == removed(before, table, dish@.id)
            }
        },
    }
}

/// The action for a roll of the die.
pub fn action_for(roll: u64) -> (action: ClientActions)
    ensures
        action == action_of(roll),
{
    match roll {
        1 => ClientActions::WriteOrder,
        2 => ClientActions::RemoveItem,
        _ => ClientActions::TableStatus,
    }
}

/// The dishes that a waiter writes down for a table.
pub fn house_order() -> (order: Vec<Item>)
    ensures
        is_house_order(order.deep_view()),
{
    let mut order: Vec<Item> = Vec::new();
    order.push(Item::new("Pork Ramen"));
    order.push(Item::new("Chicken Curry"));
    order.push(Item::new("Coffee"));
    order
}

impl Client {
    pub fn new(id: u8) -> (client: Self)
        ensures
            client.id == id,
    {
        Client { id }
    }

    /// How long the waiter rests before the next job, in milliseconds:
    /// some time from [`MIN_WAIT`] to [`MAX_WAIT`].
    pub fn wait_some_time(&self) -> (millis: u64)
        ensures
            MIN_WAIT <= millis <= MAX_WAIT,
    {
        random_in(1000, 5001)
    }

    /// How many jobs the waiter does in a shift: at least one, at most
    /// [`MAX_JOBS`].
    pub fn job_count(&self) -> (jobs: u64)
        ensures
            1 <= jobs <= MAX_JOBS,
    {
        random_in(1, 4)
    }

    /// Does one job: picks a table from [`FIRST_TABLE`] to [`LAST_TABLE`]
    /// and an action, and carries the action out on the store. Which table
    /// and which action is left to chance; the report names both, and the
    /// store is changed as [`job_done`] says for them.
    pub fn do_job(&self, restaurant: &mut Restaurant) -> (report: JobReport)
        ensures
            FIRST_TABLE <= report.table <= LAST_TABLE,
            job_done(old(restaurant)@, final(restaurant)@, report.table, report.action, report.outcome),
            report.outcome matches JobOutcome::Ordered(order) ==> is_house_order(order.deep_view()),
    {
        let drawn: u64 = random_in(1, 16);
        let table: u8 = drawn as u8;
        match self.random_action() {
            ClientActions::TableStatus => {
                let outcome = self.table_status(restaurant, table);
                JobReport { table, action: ClientActions::TableStatus, outcome }
            },
            ClientActions::WriteOrder => {
                let outcome = self.write_order(restaurant, table, house_order());
                JobReport { table, action: ClientActions::WriteOrder, outcome }
            },
            ClientActions::RemoveItem => {
                let outcome = self.remove_mistake(restaurant, table);
                JobReport { table, action: ClientActions::RemoveItem, outcome }
            },
        }
    }

    /// Asks for the dishes of `table`.
    pub fn table_status(&self, restaurant: &Restaurant, table: u8) -> (outcome: JobOutcome)
        ensures
            job_done(restaurant@, restaurant@, table, ClientActions::TableStatus, outcome),
    {
        JobOutcome::Status(restaurant.items_from_table(table))
    }

    /// Adds `order` to the dishes of `table`, and reports the dishes added.
    pub fn write_order(&self, restaurant: &mut Restaurant, table: u8, order: Vec<Item>) -> (outcome:
        JobOutcome)
        ensures
            job_done(
                old(restaurant)@,
                final(restaurant)@,
                table,
                ClientActions::WriteOrder,
                outcome,
            ),
            outcome matches JobOutcome::Ordered(written) && written.deep_view()
                == order.deep_view(),
    {
        let written = order.clone();
        let _ = restaurant.add_items(table, order);
        JobOutcome::Ordered(written)
    }

    /// Takes the dish that was ordered last off the list of `table`, reading
    /// the list and removing the dish in one go.
    pub fn remove_mistake(&self, restaurant: &mut Restaurant, table: u8) -> (outcome: JobOutcome)
        ensures
            job_done(
                old(restaurant)@,
                final(restaurant)@,
                table,
                ClientActions::RemoveItem,
                outcome,
            ),
    {
        match restaurant.items_from_table(table) {
            Ok(Action::Data(mut items)) => {
                match items.pop() {
                    Some(dish) => {
                        let _ = restaurant.remove_item(table, dish._id);
                        JobOutcome::Removed(dish)
                    },
                    None => JobOutcome::NothingToRemove,
                }
            },
            Ok(_) => unreached(),
            Err(e) => JobOutcome::NoTable(e),
        }
    }

    /// Picks one of the three actions.
    fn random_action(&self) -> (action: ClientActions) {
        action_for(random_in(1, 4))
    }
}

} // verus!
