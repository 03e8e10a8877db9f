//! Names of the parameters in the paths, under which handlers find them.
use vstd::prelude::*;

verus! {

/// Key of order ids in paths
pub const ORDER_ID: &'static str = "order_id";

/// Key of item ids in paths
pub const ITEM_ID: &'static str = "item_id";

} // verus!
