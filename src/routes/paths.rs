//! The paths that the API serves, as router patterns.
use vstd::prelude::*;

verus! {

/// All orders
pub const ORDERS: &'static str = "/api/v1/orders";

/// The order of one table
pub const ORDER_BY_ID: &'static str = "/api/v1/orders/{order_id}";

/// The items of one table's order
pub const ITEMS: &'static str = "/api/v1/orders/{order_id}/items";

/// One item of one table's order
pub const ITEM_BY_ID: &'static str = "/api/v1/orders/{order_id}/items/{item_id}";

} // verus!
