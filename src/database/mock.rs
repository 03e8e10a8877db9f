//! An in-memory store.
use crate::api::{copy_item, Item, ItemView, Order};
use crate::database::{fresh_items, item_index, order_items, row_is, with_items, Database};
use crate::errors::{Error, Result};
use rand::Rng;
use vstd::prelude::*;

verus! {

/// Relies on rand::thread_rng and Rng::gen_range: a number drawn uniformly
/// from `low` up to, not including, `high`.
#[verifier::external_body]
fn draw_between(low: u32, high: u32) -> (r: u32)
    requires
        low < high,
    ensures
        low <= r < high,
{
    rand::thread_rng().gen_range(low..high)
}

/// Shortest time to completion, in minutes.
pub const MIN_MINUTES: u32 = 5;

/// One past the longest time to completion, in minutes.
pub const MAX_MINUTES: u32 = 15;

pub open spec fn rows_view(rows: Seq<(u32, Item)>) -> Seq<(u32, ItemView)> {
    rows.map_values(|r: (u32, Item)| (r.0, r.1@))
}

/// A store held in a vector of rows, each a table number and an item, with
/// the id that the next item gets.
pub struct MockDB(Vec<(u32, Item)>, u32);

proof fn lemma_item_index_is(rows: Seq<(u32, ItemView)>, table: u32, id: u32, i: int)
    requires
        0 <= i < rows.len(),
        row_is(rows, i, table, id),
        forall|j: int| 0 <= j < i ==> !row_is(rows, j, table, id),
    ensures
        item_index(rows, table, id) == Some(i),
{
    let k = item_index(rows, table, id)->0;
    if k < i {
        assert(!row_is(rows, k, table, id));
    } else if k > i {
        assert(!row_is(rows, i, table, id));
    }
}

impl MockDB {
    /// An empty store whose first item gets id 0.
    pub fn empty() -> (r: Self)
        ensures
            r.inv(),
            r.rows() == Seq::<(u32, ItemView)>::empty(),
            r.next_id() == 0,
    {
        let db = MockDB(Vec::new(), 0);
        assert(rows_view(db.0@) =~= Seq::<(u32, ItemView)>::empty());
        db
    }

    /// The first item named `name`; meant for tests.
    pub fn find_by_name(&self, name: &str) -> (r: Option<&Item>)
        ensures
            match r {
                Some(item) => exists|i: int|
                    0 <= i < self.rows().len() && #[trigger] self.rows()[i].1 == item@
                        && item@.name == name@ && forall|j: int|
                        0 <= j < i ==> self.rows()[j].1.name != name@,
                None => forall|i: int|
                    0 <= i < self.rows().len() ==> (#[trigger] self.rows()[i]).1.name != name@,
            },
    {
        let wanted = String::from_str(name);
        let mut i: usize = 0;
        while i < self.0.len()
            invariant
                i <= self.0@.len(),
                wanted@ == name@,
                forall|j: int| 0 <= j < i ==> (#[trigger] self.rows()[j]).1.name != name@,
            decreases self.0.len() - i,
        {
            if self.0[i].1.name == wanted {
                assert(self.rows()[i as int].1 == self.0@[i as int].1@);
                return Some(&self.0[i].1);
            }
            i = i + 1;
        }
        None
    }
}

impl Database for MockDB {
    closed spec fn rows(&self) -> Seq<(u32, ItemView)> {
        rows_view(self.0@)
    }

    closed spec fn next_id(&self) -> nat {
        self.1 as nat
    }

    closed spec fn inv(&self) -> bool {
        forall|i: int| 0 <= i < self.0@.len() ==> (#[trigger] self.0@[i]).1.id < self.1
    }

    fn new() -> (r: Result<Self>) {
        Ok(MockDB::empty())
    }

    fn get_order(&self, table_id: u32) -> (r: Result<Order>) {
        let mut items: Vec<Item> = Vec::new();
        let mut i: usize = 0;
        while i < self.0.len()
            invariant
                i <= self.0@.len(),
                items@.map_values(|it: Item| it@) =~= order_items(
                    self.rows().subrange(0, i as int),
                    table_id,
                ),
            decreases self.0.len() - i,
        {
            proof {
                assert(self.rows().subrange(0, i + 1).drop_last() =~= self.rows().subrange(
                    0,
                    i as int,
                ));
            }
            if self.0[i].0 == table_id {
                let item = copy_item(&self.0[i].1);
                items.push(item);
            }
            i = i + 1;
        }
        assert(self.rows().subrange(0, i as int) =~= self.rows());
        if items.len() == 0 {
            Err(Error::NotFound(String::from_str("no orders for this table")))
        } else {
            Ok(Order { items, table_number: table_id })
        }
    }

    fn get_order_item(&self, table_id: u32, item_id: u32) -> (r: Result<Item>) {
        let mut i: usize = 0;
        while i < self.0.len()
            invariant
                i <= self.0@.len(),
                forall|j: int| 0 <= j < i ==> !row_is(self.rows(), j, table_id, item_id),
            decreases self.0.len() - i,
        {
            if self.0[i].0 == table_id && self.0[i].1.id == item_id {
                proof {
                    lemma_item_index_is(self.rows(), table_id, item_id, i as int);
                }
                return Ok(copy_item(&self.0[i].1));
            }
            i = i + 1;
        }
        Err(Error::NotFound(String::from_str("no such item for this table")))
    }

    fn insert_order(&mut self, item: &str, table_id: u32) -> (r: Result<Item>) {
        if self.1 == u32::MAX {
            return Err(Error::InternalServerError(String::from_str("item ids exhausted")));
        }
        let ghost before = self.rows();
        let id = self.1;
        let new_item = Item {
            name: String::from_str(item),
            time_to_completion: draw_between(MIN_MINUTES, MAX_MINUTES),
            id,
        };
        self.1 = self.1 + 1;
        self.0.push((table_id, copy_item(&new_item)));
        assert(self.rows() =~= with_items(before, table_id, seq![new_item@]));
        Ok(new_item)
    }

    fn insert_orders(&mut self, items: Vec<String>, table_id: u32) -> (r: Result<Vec<Item>>) {
        if items.len() > (u32::MAX - self.1) as usize {
            return Err(Error::InternalServerError(String::from_str("item ids exhausted")));
        }
        let ghost before = self.rows();
        let ghost first = self.1 as nat;
        let ghost names = items@.map_values(|s: String| s@);
        let mut out: Vec<Item> = Vec::new();
        let mut i: usize = 0;
        while i < items.len()
            invariant
                i <= items@.len(),
                first + items@.len() <= u32::MAX,
                names == items@.map_values(|s: String| s@),
                self.1 == first + i,
                forall|j: int| 0 <= j < self.0@.len() ==> (#[trigger] self.0@[j]).1.id < self.1,
                fresh_items(out@.map_values(|it: Item| it@), names.subrange(0, i as int), first),
                self.rows() =~= with_items(before, table_id, out@.map_values(|it: Item| it@)),
            decreases items.len() - i,
        {
            let id = self.1;
            let new_item = Item {
                name: items[i].clone(),
                time_to_completion: draw_between(MIN_MINUTES, MAX_MINUTES),
                id,
            };
            let ghost out_before = out@.map_values(|it: Item| it@);
            let ghost rows_before = self.rows();
            self.1 = self.1 + 1;
            self.0.push((table_id, copy_item(&new_item)));
            out.push(new_item);
            proof {
                assert(new_item@.name == names[i as int]);
                assert(out@.map_values(|it: Item| it@) =~= out_before.push(new_item@));
                assert(names.subrange(0, i + 1) =~= names.subrange(0, i as int).push(names[i as int]));
                assert(self.rows() =~= rows_before.push((table_id, new_item@)));
                assert(with_items(before, table_id, out_before.push(new_item@)) =~= with_items(
                    before,
                    table_id,
                    out_before,
                ).push((table_id, new_item@)));
            }
            i = i + 1;
        }
        assert(names.subrange(0, i as int) =~= names);
        Ok(out)
    }

    fn delete_item(&mut self, table_id: u32, item_id: u32) -> (r: Result<Item>) {
        let mut i: usize = 0;
        while i < self.0.len()
            invariant
                i <= self.0@.len(),
                *self == *old(self),
                old(self).inv(),
                forall|j: int| 0 <= j < i ==> !row_is(self.rows(), j, table_id, item_id),
            decreases self.0.len() - i,
        {
            if self.0[i].0 == table_id && self.0[i].1.id == item_id {
                proof {
                    lemma_item_index_is(self.rows(), table_id, item_id, i as int);
                }
                let ghost before = self.rows();
                let ghost raw = self.0@;
                let row = self.0.remove(i);
                assert(self.rows() =~= before.remove(i as int));
                assert forall|j: int| 0 <= j < self.0@.len() implies (#[trigger] self.0@[j]).1.id < self.1 by {
                    assert(raw == old(self).0@);
                    if j < i {
                        assert(self.0@[j] == raw[j]);
                        assert(old(self).0@[j].1.id < old(self).1);
                    } else {
                        assert(self.0@[j] == raw[j + 1]);
                        assert(old(self).0@[j + 1].1.id < old(self).1);
                    }
                }
                return Ok(row.1);
            }
            i = i + 1;
        }
        Err(Error::NotFound(String::from_str("no such item for this table")))
    }
}

} // verus!
