//! Bodies exchanged through the API.
use vstd::prelude::*;

verus! {

/// Body of a request that places a new order
#[derive(Debug, Clone)]
pub struct NewOrder {
    /// Table number for the order
    pub table_number: u32,
    /// Names of the items ordered
    pub items: Vec<String>,
}

/// An item, as returned by the API
#[derive(Debug, Clone)]
pub struct Item {
    /// Name given on creation
    pub name: String,
    /// Time to completion in minutes
    pub time_to_completion: u32,
    /// Unique id, given by the server on creation
    pub id: u32,
}

/// A full order, as returned by the API
#[derive(Debug, Clone)]
pub struct Order {
    /// Table number of the order
    pub table_number: u32,
    /// Items in the order
    pub items: Vec<Item>,
}

/// What an item holds, with its name as characters.
pub struct ItemView {
    pub name: Seq<char>,
    pub time_to_completion: u32,
    pub id: u32,
}

/// What an order holds.
pub struct OrderView {
    pub table_number: u32,
    pub items: Seq<ItemView>,
}

impl View for Item {
    type V = ItemView;

    open spec fn view(&self) -> ItemView {
        ItemView { name: self.name@, time_to_completion: self.time_to_completion, id: self.id }
    }
}

impl View for Order {
    type V = OrderView;

    open spec fn view(&self) -> OrderView {
        OrderView { table_number: self.table_number, items: self.items@.map_values(|i: Item| i@) }
    }
}

/// Copies an item.
pub fn copy_item(item: &Item) -> (r: Item)
    ensures
        r@ == item@,
{
    Item { name: item.name.clone(), time_to_completion: item.time_to_completion, id: item.id }
}

} // verus!
