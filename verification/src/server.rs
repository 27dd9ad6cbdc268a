//! What a request against the store is answered with.
//!
//! The functions here take the parts of a request as they come off the
//! wire, the table and the dish's identifier still as text, and give back
//! the status and body to send. Listening, routing and the encoding of
//! bodies are left to the caller, who also holds the store exclusively for
//! the length of a call.

use vstd::prelude::*;
use vstd::string::is_ascii_spec_bytes;
use crate::database::{
    added, can_update, removed, updated, Action, Restaurant, Tables, TABLE_EMPTY,
    NOTHING_TO_UPDATE,
};
use crate::item::{Item, ItemPayload, ItemView};
use crate::outside::{is_random_uuid, parse_uuid, parsed_uuid};

verus! {

/// The status of a request that was carried out.
pub const OK: u16 = 200;

/// The status of a request with a malformed table or identifier.
pub const BAD_REQUEST: u16 = 400;

/// The status of a request that the store refused.
pub const INTERNAL_SERVER_ERROR: u16 = 500;

/// The body that answers a request for the root path.
pub const USAGE: &'static str =
    "This is the server / GET. You should use the RESTful functions POST/{table}, PUT/{table}, DELETE/{table} and GET/{table}";

/// The body after an insertion.
pub const INSERTED: &'static str = "Inserted";

/// The body after an update.
pub const UPDATED: &'static str = "Updated";

/// The body after a removal.
pub const DELETED: &'static str = "Deleted";

/// The body that rejects a table that is no number from 0 to 255.
pub const BAD_TABLE: &'static str = "Malformed table id";

/// The body that rejects a dish's identifier that is no UUID.
pub const BAD_ITEM_ID: &'static str = "Malformed item id";

/// The body of an answer.
#[derive(Debug)]
pub enum Body {
    /// Plain text.
    Text(String),
    /// Dishes, to be sent as a JSON array.
    Items(Vec<Item>),
}

/// An answer to a request.
#[derive(Debug)]
pub struct Reply {
    pub status: u16,
    pub body: Body,
}

/// Whether `reply` has the given status and the given text as its body.
pub open spec fn says(reply: Reply, status: u16, text: Seq<char>) -> bool {
    reply.status == status && (reply.body matches Body::Text(body) && body@ == text)
}

/// Whether `c` is a decimal digit.
pub open spec fn is_digit(c: char) -> bool {
    '0' <= c && c <= '9'
}

/// The value of a decimal digit, 0 for any other character.
pub open spec fn digit_of(c: char) -> nat {
    if is_digit(c) {
        (c as u32 - 48) as nat
    } else {
        0
    }
}

/// The number that a run of decimal digits stands for.
pub open spec fn decimal_value(digits: Seq<char>) -> nat
    decreases digits.len(),
{
    if digits.len() == 0 {
        0
    } else {
        10 * decimal_value(digits.drop_last()) + digit_of(digits.last())
    }
}

/// A path segment without the `+` that may stand in front of a number.
pub open spec fn unsigned(text: Seq<char>) -> Seq<char> {
    if text.len() > 0 && text[0] == '+' {
        text.drop_first()
    } else {
        text
    }
}

/// Whether `digits` is one or more decimal digits.
pub open spec fn is_decimal(digits: Seq<char>) -> bool {
    digits.len() > 0 && forall|k: int| 0 <= k < digits.len() ==> is_digit(#[trigger] digits[k])
}

/// The table that a path segment names: the segment is one or more decimal
/// digits, with or without a `+` in front, and stands for a number up to 255.
/// Anything else names no table.
pub open spec fn table_number(text: Seq<char>) -> Option<u8> {
    if is_decimal(unsigned(text)) && decimal_value(unsigned(text)) <= 255 {
        Some(decimal_value(unsigned(text)) as u8)
    } else {
        None
    }
}

/// Whether `reply` answers a request for the dishes of `table`.
pub open spec fn items_table_done(tables: Tables, table: Option<u8>, reply: Reply) -> bool {
    match table {
        None => says(reply, BAD_REQUEST, BAD_TABLE@),
        Some(at) => if tables.contains_key(at) {
            &&& reply.status == OK
            &&& reply.body matches Body::Items(items)
            &&& items.deep_view() == tables[at]
        } else {
            says(reply, OK, TABLE_EMPTY@)
        },
    }
}

/// Whether a request to add a dish of the given name and cook time to
/// `table` takes the store from `before` to `after` and is answered with
/// `reply`: the dish comes last at its table, under a new identifier.
pub open spec fn insert_done(
    before: Tables,
    after: Tables,
    table: Option<u8>,
    name: Seq<char>,
    cook_time: u32,
    reply: Reply,
) -> bool {
    match table {
        None => after == before && says(reply, BAD_REQUEST, BAD_TABLE@),
        Some(at) => {
            &&& after.contains_key(at) && after[at].len() > 0
            &&& after[at].last().name == name
            &&& after[at].last().cook_time == cook_time
            &&& is_random_uuid(after[at].last().id)
            &&& after == added(before, at, seq![after[at].last()])
            &&& says(reply, OK, INSERTED@)
        },
    }
}

/// Whether a request to put a dish of the given name and cook time in the
/// place of the dish `id` at `table` takes the store from `before` to `after`
/// and is answered with `reply`: the new dish keeps the identifier.
pub open spec fn update_done(
    before: Tables,
    after: Tables,
    table: Option<u8>,
    id: Option<u128>,
    name: Seq<char>,
    cook_time: u32,
    reply: Reply,
) -> bool {
    match (table, id) {
        (None, _) => after == before && says(reply, BAD_REQUEST, BAD_TABLE@),
        (Some(_), None) => after == before && says(reply, BAD_REQUEST, BAD_ITEM_ID@),
        (Some(at), Some(id)) => {
            &&& after == updated(before, at, id, ItemView { name, cook_time, id })
            &&& if can_update(before, at, id) {
                says(reply, OK, UPDATED@)
            } else if before.contains_key(at) {
                says(reply, INTERNAL_SERVER_ERROR, NOTHING_TO_UPDATE@)
            } else {
                says(reply, INTERNAL_SERVER_ERROR, TABLE_EMPTY@)
            }
        },
    }
}

/// Whether a request to take the dish `id` off `table` takes the store from
/// `before` to `after` and is answered with `reply`.
pub open spec fn delete_done(
    before: Tables,
    after: Tables,
    table: Option<u8>,
    id: Option<u128>,
    reply: Reply,
) -> bool {
    match (table, id) {
        (None, _) => after == before && says(reply, BAD_REQUEST, BAD_TABLE@),
        (Some(_), None) => after == before && says(reply, BAD_REQUEST, BAD_ITEM_ID@),
        (Some(at), Some(id)) => {
            &&& after == removed(before, at, id)
            &&& if before.contains_key(at) {
                says(reply, OK, DELETED@)
            } else {
                says(reply, INTERNAL_SERVER_ERROR, TABLE_EMPTY@)
            }
        },
    }
}

/// The number that the digits read so far stand for is at most the number
/// that all of them stand for.
proof fn lemma_decimal_value_grows(digits: Seq<char>, n: int)
    requires
        0 <= n <= digits.len(),
    ensures
        decimal_value(digits.take(n)) <= decimal_value(digits),
    decreases digits.len() - n,
{
    if n == digits.len() {
        assert(digits.take(n) =~= digits);
    } else {
        lemma_decimal_value_grows(digits, n + 1);
        assert(digits.take(n + 1).drop_last() =~= digits.take(n));
    }
}

/// A reply with a text as its body.
fn text_reply(status: u16, text: &str) -> (reply: Reply)
    ensures
        says(reply, status, text@),
{
    Reply { status, body: Body::Text(text.to_owned()) }
}

/// The answer to a request for the root path: how to use the service.
pub fn welcome() -> (reply: Reply)
    ensures
        says(reply, OK, USAGE@),
{
    text_reply(OK, USAGE)
}

/// Reads a table's number from a path segment.
pub fn parse_table(text: &str) -> (table: Option<u8>)
    ensures
        table == table_number(text@),
{
    let ghost digits = unsigned(text@);
    if !text.is_ascii() {
        proof {
            let k = choose|k: int| 0 <= k < text@.len() && !('\0' <= #[trigger] text@[k] <= '\u{7f}');
            if text@[0] == '+' {
                assert(!is_digit(digits[k - 1]));
            } else {
                assert(!is_digit(digits[k]));
            }
        }
        return None;
    }
    let bytes = text.as_bytes();
    proof {
        is_ascii_spec_bytes(text);
    }
    let n = bytes.len();
    let start: usize = if n > 0 && bytes[0] == 43 {
        1
    } else {
        0
    };
    if start == n {
        return None;
    }
    let mut value: u32 = 0;
    let mut i: usize = start;
    assert(digits.take(0) =~= Seq::<char>::empty());
    while i < n
        invariant
            start <= i <= n,
            n == text@.len(),
            n == bytes@.len(),
            digits.len() == n - start,
            digits == unsigned(text@),
            forall|k: int|
                0 <= k < digits.len() ==> '\0' <= #[trigger] digits[k] <= '\u{7f}' && bytes@[start
                    + k] == digits[k] as u8,
            forall|k: int| 0 <= k < i - start ==> is_digit(#[trigger] digits[k]),
            value == decimal_value(digits.take(i - start)),
            value <= 255,
        decreases n - i,
    {
        let byte = bytes[i];
        assert(byte == digits[i - start] as u8);
        if byte < 48 || byte > 57 {
            assert(!is_digit(digits[i - start]));
            return None;
        }
        assert(is_digit(digits[i - start]));
        assert(digits.take(i - start + 1).drop_last() =~= digits.take(i - start));
        let next: u32 = value * 10 + (byte - 48) as u32;
        assert(next == decimal_value(digits.take(i - start + 1)));
        if next > 255 {
            proof {
                lemma_decimal_value_grows(digits, i - start + 1);
            }
            return None;
        }
        value = next;
        i += 1;
    }
    assert(digits.take(n - start) =~= digits);
    Some(value as u8)
}

/// Answers a request for the dishes of a table: the dishes of a table that
/// has an entry, and the text [`TABLE_EMPTY`] for one that has none.
pub fn items_table(store: &Restaurant, table: &str) -> (reply: Reply)
    ensures
        items_table_done(store@, table_number(table@), reply),
{
    match parse_table(table) {
        None => text_reply(BAD_REQUEST, BAD_TABLE),
        Some(at) => match store.items_from_table(at) {
            Ok(Action::Data(items)) => Reply { status: OK, body: Body::Items(items) },
            _ => text_reply(OK, TABLE_EMPTY),
        },
    }
}

/// Answers a request to add the dish that `item` describes to a table.
pub fn insert(store: &mut Restaurant, table: &str, item: ItemPayload) -> (reply: Reply)
    ensures
        insert_done(
            old(store)@,
            final(store)@,
            table_number(table@),
            item.name@,
            item.cook_time,
            reply,
        ),
{
    match parse_table(table) {
        None => text_reply(BAD_REQUEST, BAD_TABLE),
        Some(at) => {
            let dish = Item::from_payload(item);
            let ghost last = dish@;
            let mut dishes: Vec<Item> = Vec::new();
            dishes.push(dish);
            assert(dishes.deep_view() =~= seq![last]);
            match store.add_items(at, dishes) {
                Ok(_) => text_reply(OK, INSERTED),
                Err(e) => Reply { status: INTERNAL_SERVER_ERROR, body: Body::Text(e) },
            }
        },
    }
}

/// Answers a request to put the dish that `item` describes in the place of
/// the dish `item_id` at a table.
pub fn update(store: &mut Restaurant, table: &str, item_id: &str, item: ItemPayload) -> (reply:
    Reply)
    ensures
        update_done(
            old(store)@,
            final(store)@,
            table_number(table@),
            parsed_uuid(item_id@),
            item.name@,
            item.cook_time,
            reply,
        ),
{
    update_with(store, parse_table(table), parse_uuid(item_id), item)
}

/// Answers a request to update, given what the table and the identifier
/// were read as: `None` for one that is malformed. The table is looked at
/// first, and the store is called only where both are well-formed.
pub fn update_with(
    store: &mut Restaurant,
    table: Option<u8>,
    item_id: Option<u128>,
    item: ItemPayload,
) -> (reply: Reply)
    ensures
        update_done(old(store)@, final(store)@, table, item_id, item.name@, item.cook_time, reply),
{
    match (table, item_id) {
        (None, _) => text_reply(BAD_REQUEST, BAD_TABLE),
        (Some(_), None) => text_reply(BAD_REQUEST, BAD_ITEM_ID),
        (Some(at), Some(id)) => {
            let dish = Item { name: item.name, cook_time: item.cook_time, _id: id };
            match store.update_item(at, id, dish) {
                Ok(_) => text_reply(OK, UPDATED),
                Err(e) => Reply { status: INTERNAL_SERVER_ERROR, body: Body::Text(e) },
            }
        },
    }
}

/// Answers a request to take the dish `item_id` off a table.
pub fn delete(store: &mut Restaurant, table: &str, item_id: &str) -> (reply: Reply)
    ensures
        delete_done(
            old(store)@,
            final(store)@,
            table_number(table@),
            parsed_uuid(item_id@),
            reply,
        ),
{
    delete_with(store, parse_table(table), parse_uuid(item_id))
}

/// Answers a request to remove, given what the table and the identifier
/// were read as: `None` for one that is malformed. The table is looked at
/// first, and the store is called only where both are well-formed.
pub fn delete_with(store: &mut Restaurant, table: Option<u8>, item_id: Option<u128>) -> (reply:
    Reply)
    ensures
        delete_done(old(store)@, final(store)@, table, item_id, reply),
{
    match (table, item_id) {
        (None, _) => text_reply(BAD_REQUEST, BAD_TABLE),
        (Some(_), None) => text_reply(BAD_REQUEST, BAD_ITEM_ID),
        (Some(at), Some(id)) => match store.remove_item(at, id) {
            Ok(_) => text_reply(OK, DELETED),
            Err(e) => Reply { status: INTERNAL_SERVER_ERROR, body: Body::Text(e) },
        },
    }
}

} // verus!
