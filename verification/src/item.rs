//! A dish on order.

use vstd::prelude::*;
use vstd::std_specs::cmp::PartialEqSpecImpl;
use crate::outside::{fresh_id, is_random_uuid, random_in};

verus! {

/// The shortest time, in minutes, that [`Item::new`] gives a dish to cook.
pub const MIN_COOK_TIME: u32 = 5;

/// The longest time, in minutes, that [`Item::new`] gives a dish to cook.
pub const MAX_COOK_TIME: u32 = 15;

/// One ordered dish. Its identity is its `_id`: two items are the same dish
/// exactly when their identifiers agree, whatever their names and times.
#[derive(Debug)]
pub struct Item {
    pub name: String,
    /// Minutes.
    pub cook_time: u32,
    /// The 128 bits of the dish's UUID.
    pub _id: u128,
}

/// What a request to order or to correct a dish carries: everything but the
/// identifier, which the store assigns.
#[derive(Debug)]
pub struct ItemPayload {
    pub name: String,
    pub cook_time: u32,
}

/// The mathematical value of an [`Item`].
pub struct ItemView {
    pub name: Seq<char>,
    pub cook_time: u32,
    pub id: u128,
}

impl View for Item {
    type V = ItemView;

    open spec fn view(&self) -> ItemView {
        ItemView { name: self.name@, cook_time: self.cook_time, id: self._id }
    }
}

impl DeepView for Item {
    type V = ItemView;

    open spec fn deep_view(&self) -> ItemView {
        self@
    }
}

impl Item {
    /// A dish of the given name with a new identifier and a cook time drawn
    /// from [`MIN_COOK_TIME`] to [`MAX_COOK_TIME`] minutes.
    pub fn new(name: &str) -> (item: Item)
        ensures
            item@.name == name@,
            MIN_COOK_TIME <= item@.cook_time <= MAX_COOK_TIME,
            is_random_uuid(item@.id),
    {
        let minutes: u64 = random_in(5, 16);
        Item { name: name.to_owned(), cook_time: minutes as u32, _id: fresh_id() }
    }

    /// The dish that a payload describes, under a new identifier.
    pub fn from_payload(json: ItemPayload) -> (item: Item)
        ensures
            item@.name == json.name@,
            item@.cook_time == json.cook_time,
            is_random_uuid(item@.id),
    {
        Item { name: json.name, cook_time: json.cook_time, _id: fresh_id() }
    }

    /// The cook time in seconds.
    pub fn cook_time_seconds(&self) -> (seconds: u64)
        ensures
            seconds == self@.cook_time * 60,
    {
        self.cook_time as u64 * 60
    }
}

impl PartialEq for Item {
    fn eq(&self, other: &Self) -> (same: bool) {
        self._id == other._id
    }
}

impl PartialEqSpecImpl for Item {
    open spec fn obeys_eq_spec() -> bool {
        true
    }

    open spec fn eq_spec(&self, other: &Self) -> bool {
        self._id == other._id
    }
}

impl Clone for Item {
    fn clone(&self) -> (copy: Self)
        ensures
            copy == *self,
    {
        Item { name: self.name.clone(), cook_time: self.cook_time, _id: self._id }
    }
}

} // verus!
