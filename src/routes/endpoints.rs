//! The key under which each path of [`super::paths`] is registered.
use vstd::prelude::*;

verus! {

/// Key of [`super::paths::ORDERS`]
pub const ORDERS: &'static str = "ORDERS";

/// Key of [`super::paths::ORDER_BY_ID`]
pub const ORDER_BY_ID: &'static str = "ORDER_BY_ID";

/// Key of [`super::paths::ITEMS`]
pub const ITEMS: &'static str = "ITEMS";

/// Key of [`super::paths::ITEM_BY_ID`]
pub const ITEM_BY_ID: &'static str = "ITEM_BY_ID";

} // verus!
