//! The store of orders, behind a trait so that other stores can replace the
//! in-memory one.
pub mod mock;

use crate::api::{Item, ItemView, Order, OrderView};
use crate::errors::{Error, Result};
use vstd::prelude::*;

verus! {

/// The items of table `table`, in the order of the rows.
pub open spec fn order_items(rows: Seq<(u32, ItemView)>, table: u32) -> Seq<ItemView>
    decreases rows.len(),
{
    if rows.len() == 0 {
        Seq::empty()
    } else if rows.last().0 == table {
        order_items(rows.drop_last(), table).push(rows.last().1)
    } else {
        order_items(rows.drop_last(), table)
    }
}

/// Whether row `i` holds item `id` of table `table`.
pub open spec fn row_is(rows: Seq<(u32, ItemView)>, i: int, table: u32, id: u32) -> bool {
    rows[i].0 == table && rows[i].1.id == id
}

/// Index of the first row holding item `id` of table `table`.
pub open spec fn item_index(rows: Seq<(u32, ItemView)>, table: u32, id: u32) -> Option<int> {
    if exists|i: int| 0 <= i < rows.len() && row_is(rows, i, table, id) {
        Some(
            choose|i: int|
                0 <= i < rows.len() && row_is(rows, i, table, id) && forall|j: int|
                    0 <= j < i ==> !row_is(rows, j, table, id),
        )
    } else {
        None
    }
}

/// The rows after items are added to table `table`.
pub open spec fn with_items(rows: Seq<(u32, ItemView)>, table: u32, items: Seq<ItemView>) -> Seq<
    (u32, ItemView),
> {
    rows + items.map_values(|it: ItemView| (table, it))
}

/// Whether `items` are new items named `names`, with consecutive ids from
/// `first_id` and times to completion of 5 to 14 minutes.
pub open spec fn fresh_items(items: Seq<ItemView>, names: Seq<Seq<char>>, first_id: nat) -> bool {
    &&& items.len() == names.len()
    &&& forall|i: int|
        0 <= i < items.len() ==> {
            &&& (#[trigger] items[i]).name == names[i]
            &&& items[i].id == first_id + i
            &&& 5 <= items[i].time_to_completion < 15
        }
}

/// A store of orders: rows of a table number and an item.
///
/// Each inserted item gets the next id of a counter that never goes back, and a
/// time to completion drawn at random from 5 to 14 minutes. Ids run out at
/// `u32::MAX`.
pub trait Database: Sized {
    /// The rows held, in the order of insertion.
    spec fn rows(&self) -> Seq<(u32, ItemView)>;

    /// The id that the next inserted item gets.
    spec fn next_id(&self) -> nat;

    /// Whether the store's own invariant holds.
    spec fn inv(&self) -> bool;

    /// Creates a new empty store.
    fn new() -> (r: Result<Self>)
        ensures
            r matches Ok(db) ==> db.inv() && db.rows() == Seq::<(u32, ItemView)>::empty()
                && db.next_id() == 0;

    /// The full order of table `table_id`; `NotFound` where it has no item.
    fn get_order(&self, table_id: u32) -> (r: Result<Order>)
        requires
            self.inv(),
        ensures
            order_items(self.rows(), table_id).len() == 0 ==> r matches Err(Error::NotFound(_)),
            order_items(self.rows(), table_id).len() > 0 ==> (r matches Ok(o) && o@ == (OrderView {
                table_number: table_id,
                items: order_items(self.rows(), table_id),
            })),
    ;

    /// Item `item_id` of table `table_id`; `NotFound` where there is none.
    fn get_order_item(&self, table_id: u32, item_id: u32) -> (r: Result<Item>)
        requires
            self.inv(),
        ensures
            match item_index(self.rows(), table_id, item_id) {
                None => r matches Err(Error::NotFound(_)),
                Some(i) => r matches Ok(item) && item@ == self.rows()[i].1,
            },
    ;

    /// Adds one item named `item` to table `table_id`.
    fn insert_order(&mut self, item: &str, table_id: u32) -> (r: Result<Item>)
        requires
            old(self).inv(),
        ensures
            final(self).inv(),
            old(self).next_id() < u32::MAX <==> r is Ok,
            r matches Ok(it) ==> fresh_items(seq![it@], seq![item@], old(self).next_id())
                && final(self).rows() == with_items(old(self).rows(), table_id, seq![it@])
                && final(self).next_id() == old(self).next_id() + 1,
            r is Err ==> (r matches Err(Error::InternalServerError(_)) && *final(self) == *old(self)),
    ;

    /// Adds items named `items` to table `table_id`, in order.
    fn insert_orders(&mut self, items: Vec<String>, table_id: u32) -> (r: Result<Vec<Item>>)
        requires
            old(self).inv(),
        ensures
            final(self).inv(),
            old(self).next_id() + items@.len() <= u32::MAX <==> r is Ok,
            r matches Ok(v) ==> fresh_items(
                v@.map_values(|it: Item| it@),
                items@.map_values(|s: String| s@),
                old(self).next_id(),
            ) && final(self).rows() == with_items(
                old(self).rows(),
                table_id,
                v@.map_values(|it: Item| it@),
            ) && final(self).next_id() == old(self).next_id() + items@.len(),
            r is Err ==> (r matches Err(Error::InternalServerError(_)) && *final(self) == *old(self)),
    ;

    /// Removes item `item_id` of table `table_id` and returns it; `NotFound`
    /// where there is none.
    fn delete_item(&mut self, table_id: u32, item_id: u32) -> (r: Result<Item>)
        requires
            old(self).inv(),
        ensures
            final(self).inv(),
            final(self).next_id() == old(self).next_id(),
            match item_index(old(self).rows(), table_id, item_id) {
                None => r matches Err(Error::NotFound(_)) && final(self).rows() == old(self).rows(),
                Some(i) => r matches Ok(item) && item@ == old(self).rows()[i].1
                    && final(self).rows() == old(self).rows().remove(i),
            },
    ;
}

} // verus!
