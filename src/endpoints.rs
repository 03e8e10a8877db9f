//! The handlers of the API and the router that leads to them.
use crate::api::{Item, ItemView, NewOrder, Order, OrderView};
use crate::database::{fresh_items, item_index, order_items, with_items, Database};
use crate::errors::{Error, Result};
use crate::http::codec::{bounded_decimal, parse_decimal};
use crate::routes::{api_patterns_accepted, api_routes, endpoints, param_value, params, HttpParams, HttpRouter};
use vstd::prelude::*;
use vstd::utf8::encode_utf8;

verus! {

/// The handlers of the API.
#[derive(Debug, Clone, Copy, PartialEq, Eq, Structural)]
pub enum Endpoint {
    /// Places a new order
    NewOrder,
    /// Lists the items of a table's order
    GetItems,
    /// Fetches one item of a table's order
    GetOrderItem,
    /// Removes one item of a table's order
    DeleteOrderItem,
}

/// The handler that the API registers for `method` on the pattern under `key`.
pub open spec fn api_handler(key: Seq<char>, method: Seq<char>) -> Option<Endpoint> {
    if key == endpoints::ORDERS@ && method == "POST"@ {
        Some(Endpoint::NewOrder)
    } else if key == endpoints::ORDER_BY_ID@ && method == "GET"@ {
        Some(Endpoint::GetItems)
    } else if key == endpoints::ITEM_BY_ID@ && method == "GET"@ {
        Some(Endpoint::GetOrderItem)
    } else if key == endpoints::ITEM_BY_ID@ && method == "DELETE"@ {
        Some(Endpoint::DeleteOrderItem)
    } else {
        None
    }
}

/// The router of the API, with each handler registered.
pub fn create_http_router() -> (r: Result<HttpRouter<Endpoint>>)
    ensures
        r is Ok <==> api_patterns_accepted(),
        r is Err ==> r matches Err(Error::InternalServerError(_)),
        r matches Ok(router) ==> router.table() == api_routes() && forall|k: Seq<char>, m: Seq<char>|
            #[trigger] router.handler(k, m) == api_handler(k, m),
{
    let mut router = HttpRouter::new()?;
    let ghost r0 = router;
    router.add_route("POST", endpoints::ORDERS, Endpoint::NewOrder);
    let ghost r1 = router;
    router.add_route("GET", endpoints::ORDER_BY_ID, Endpoint::GetItems);
    let ghost r2 = router;
    router.add_route("GET", endpoints::ITEM_BY_ID, Endpoint::GetOrderItem);
    let ghost r3 = router;
    router.add_route("DELETE", endpoints::ITEM_BY_ID, Endpoint::DeleteOrderItem);
    proof {
        reveal_strlit("ORDERS");
        reveal_strlit("ORDER_BY_ID");
        reveal_strlit("ITEM_BY_ID");
        reveal_strlit("POST");
        reveal_strlit("GET");
        reveal_strlit("DELETE");
        assert(endpoints::ORDERS@ == "ORDERS"@);
        assert(endpoints::ORDER_BY_ID@ == "ORDER_BY_ID"@);
        assert(endpoints::ITEM_BY_ID@ == "ITEM_BY_ID"@);
        assert(endpoints::ORDERS@.len() != endpoints::ORDER_BY_ID@.len());
        assert(endpoints::ORDERS@.len() != endpoints::ITEM_BY_ID@.len());
        assert(endpoints::ITEM_BY_ID@.len() != endpoints::ORDER_BY_ID@.len());
        assert("GET"@.len() != "POST"@.len());
        assert("GET"@.len() != "DELETE"@.len());
        assert("POST"@.len() != "DELETE"@.len());
        assert forall|k: Seq<char>, m: Seq<char>|
            #[trigger] router.handler(k, m) == api_handler(k, m) by {
            assert(r0.handler(k, m) is None);
            assert(r1.handler(k, m) == if k == endpoints::ORDERS@ && m == "POST"@ {
                Some(Endpoint::NewOrder)
            } else {
                r0.handler(k, m)
            });
            assert(r2.handler(k, m) == if k == endpoints::ORDER_BY_ID@ && m == "GET"@ {
                Some(Endpoint::GetItems)
            } else {
                r1.handler(k, m)
            });
            assert(r3.handler(k, m) == if k == endpoints::ITEM_BY_ID@ && m == "GET"@ {
                Some(Endpoint::GetOrderItem)
            } else {
                r2.handler(k, m)
            });
            assert(router.handler(k, m) == if k == endpoints::ITEM_BY_ID@ && m == "DELETE"@ {
                Some(Endpoint::DeleteOrderItem)
            } else {
                r3.handler(k, m)
            });
        }
    }
    Ok(router)
}

/// The id that the parameters bind to `key`: `BadRequest` where there is none
/// or where it is not a decimal number that fits in `u32`.
pub open spec fn id_param(ps: Seq<(Seq<char>, Seq<char>)>, key: Seq<char>) -> Option<u32> {
    match param_value(ps, key) {
        None => None,
        Some(v) => match bounded_decimal(encode_utf8(v), u32::MAX as nat) {
            Some(n) => Some(n as u32),
            None => None,
        },
    }
}

/// Reads the id bound to `key`.
pub fn get_id(params: &HttpParams, key: &str) -> (r: Result<u32>)
    ensures
        match id_param(params@, key@) {
            Some(n) => r == Ok::<u32, Error>(n),
            None => r matches Err(Error::BadRequest(_)),
        },
{
    match params.get(key) {
        None => Err(Error::BadRequest(String::from_str("missing parameter"))),
        Some(v) => match parse_decimal(v.as_str().as_bytes(), u32::MAX as u64) {
            Some(n) => Ok(n as u32),
            None => Err(Error::BadRequest(String::from_str("parameter is not a valid id"))),
        },
    }
}

/// Places a new order: adds its items to its table and returns the table's
/// number with the new items.
pub fn new_order<D: Database>(order: NewOrder, db: &mut D) -> (r: Result<Order>)
    requires
        old(db).inv(),
    ensures
        final(db).inv(),
        old(db).next_id() + order.items@.len() <= u32::MAX <==> r is Ok,
        r matches Ok(o) ==> o.table_number == order.table_number && fresh_items(
            o@.items,
            order.items@.map_values(|s: String| s@),
            old(db).next_id(),
        ) && final(db).rows() == with_items(old(db).rows(), order.table_number, o@.items),
        r is Err ==> (r matches Err(Error::InternalServerError(_)) && *final(db) == *old(db)),
{
    let table_number = order.table_number;
    let items = db.insert_orders(order.items, table_number)?;
    Ok(Order { table_number, items })
}

/// The order of the table bound to `order_id`.
pub fn get_items<D: Database>(params: &HttpParams, db: &D) -> (r: Result<Order>)
    requires
        db.inv(),
    ensures
        match id_param(params@, params::ORDER_ID@) {
            None => r matches Err(Error::BadRequest(_)),
            Some(t) => if order_items(db.rows(), t).len() == 0 {
                r matches Err(Error::NotFound(_))
            } else {
                r matches Ok(o) && o@ == (OrderView { table_number: t, items: order_items(db.rows(), t) })
            },
        },
{
    let order_id = get_id(params, params::ORDER_ID)?;
    db.get_order(order_id)
}

/// The item bound to `item_id` of the table bound to `order_id`.
pub fn get_order_item<D: Database>(params: &HttpParams, db: &D) -> (r: Result<Item>)
    requires
        db.inv(),
    ensures
        match (id_param(params@, params::ORDER_ID@), id_param(params@, params::ITEM_ID@)) {
            (Some(t), Some(i)) => match item_index(db.rows(), t, i) {
                None => r matches Err(Error::NotFound(_)),
                Some(k) => r matches Ok(item) && item@ == db.rows()[k].1,
            },
            _ => r matches Err(Error::BadRequest(_)),
        },
{
    let order_id = get_id(params, params::ORDER_ID)?;
    let item_id = get_id(params, params::ITEM_ID)?;
    db.get_order_item(order_id, item_id)
}

/// Removes the item bound to `item_id` of the table bound to `order_id`, and
/// returns it.
pub fn delete_order_item<D: Database>(params: &HttpParams, db: &mut D) -> (r: Result<Item>)
    requires
        old(db).inv(),
    ensures
        final(db).inv(),
        final(db).next_id() == old(db).next_id(),
        match (id_param(params@, params::ORDER_ID@), id_param(params@, params::ITEM_ID@)) {
            (Some(t), Some(i)) => match item_index(old(db).rows(), t, i) {
                None => r matches Err(Error::NotFound(_)) && final(db).rows() == old(db).rows(),
                Some(k) => r matches Ok(item) && item@ == old(db).rows()[k].1
                    && final(db).rows() == old(db).rows().remove(k),
            },
            _ => r matches Err(Error::BadRequest(_)) && *final(db) == *old(db),
        },
{
    let order_id = get_id(params, params::ORDER_ID)?;
    let item_id = get_id(params, params::ITEM_ID)?;
    db.delete_item(order_id, item_id)
}

/// What a handler hands back: an order or one item.
#[derive(Debug)]
pub enum Reply {
    Order(Order),
    Item(Item),
}

/// The reply of a handler that places `order`, with the store going from
/// `before` to `after`.
pub open spec fn placed<D: Database>(order: NewOrder, before: D, after: D, r: Result<Reply>) -> bool {
    &&& after.inv()
    &&& (before.next_id() + order.items@.len() <= u32::MAX <==> r is Ok)
    &&& r matches Ok(reply) ==> reply matches Reply::Order(o) && o.table_number == order.table_number
        && fresh_items(o@.items, order.items@.map_values(|s: String| s@), before.next_id())
        && after.rows() == with_items(before.rows(), order.table_number, o@.items)
    &&& r is Err ==> (r matches Err(Error::InternalServerError(_)) && after == before)
}

/// The reply that lists the order of the table bound to `order_id`.
pub open spec fn listed<D: Database>(ps: Seq<(Seq<char>, Seq<char>)>, db: D, r: Result<Reply>) -> bool {
    match id_param(ps, params::ORDER_ID@) {
        None => r matches Err(Error::BadRequest(_)),
        Some(t) => if order_items(db.rows(), t).len() == 0 {
            r matches Err(Error::NotFound(_))
        } else {
            r matches Ok(Reply::Order(o)) && o@ == (OrderView { table_number: t, items: order_items(db.rows(), t) })
        },
    }
}

/// The reply that gives the item bound to `item_id` of the table bound to
/// `order_id`.
pub open spec fn fetched<D: Database>(ps: Seq<(Seq<char>, Seq<char>)>, db: D, r: Result<Reply>) -> bool {
    match (id_param(ps, params::ORDER_ID@), id_param(ps, params::ITEM_ID@)) {
        (Some(t), Some(i)) => match item_index(db.rows(), t, i) {
            None => r matches Err(Error::NotFound(_)),
            Some(k) => r matches Ok(Reply::Item(item)) && item@ == db.rows()[k].1,
        },
        _ => r matches Err(Error::BadRequest(_)),
    }
}

/// The reply that removes the item bound to `item_id` of the table bound to
/// `order_id`, with the store going from `before` to `after`.
pub open spec fn removed<D: Database>(ps: Seq<(Seq<char>, Seq<char>)>, before: D, after: D, r: Result<Reply>) -> bool {
    &&& after.inv()
    &&& after.next_id() == before.next_id()
    &&& match (id_param(ps, params::ORDER_ID@), id_param(ps, params::ITEM_ID@)) {
        (Some(t), Some(i)) => match item_index(before.rows(), t, i) {
            None => r matches Err(Error::NotFound(_)) && after.rows() == before.rows(),
            Some(k) => r matches Ok(Reply::Item(item)) && item@ == before.rows()[k].1
                && after.rows() == before.rows().remove(k),
        },
        _ => r matches Err(Error::BadRequest(_)) && after == before,
    }
}

/// Runs the handler `endpoint` on the parameters that the path bound and, for
/// a new order, on the order that the body holds (`None` where the body is
/// not one).
pub fn dispatch<D: Database>(
    endpoint: Endpoint,
    params: &HttpParams,
    order: Option<NewOrder>,
    db: &mut D,
) -> (r: Result<Reply>)
    requires
        old(db).inv(),
    ensures
        match endpoint {
            Endpoint::NewOrder => match order {
                None => r matches Err(Error::BadRequest(_)) && *final(db) == *old(db),
                Some(o) => placed(o, *old(db), *final(db), r),
            },
            Endpoint::GetItems => listed(params@, *old(db), r) && *final(db) == *old(db),
            Endpoint::GetOrderItem => fetched(params@, *old(db), r) && *final(db) == *old(db),
            Endpoint::DeleteOrderItem => removed(params@, *old(db), *final(db), r),
        },
{
    match endpoint {
        Endpoint::NewOrder => match order {
            None => Err(Error::BadRequest(String::from_str("the body is not an order"))),
            Some(o) => match new_order(o, db) {
                Ok(placed) => Ok(Reply::Order(placed)),
                Err(e) => Err(e),
            },
        },
        Endpoint::GetItems => match get_items(params, db) {
            Ok(listed) => Ok(Reply::Order(listed)),
            Err(e) => Err(e),
        },
        Endpoint::GetOrderItem => match get_order_item(params, db) {
            Ok(item) => Ok(Reply::Item(item)),
            Err(e) => Err(e),
        },
        Endpoint::DeleteOrderItem => match delete_order_item(params, db) {
            Ok(item) => Ok(Reply::Item(item)),
            Err(e) => Err(e),
        },
    }
}

/// Placing an order on a store whose ids have room succeeds: the reply is the
/// order of the table, with one new item per name, in order, each ready in 5
/// to 14 minutes, and the store gains exactly those items under the table.
pub proof fn lemma_order_placed<D: Database>(order: NewOrder, before: D, after: D, r: Result<Reply>)
    requires
        placed(order, before, after, r),
        before.next_id() + order.items@.len() <= u32::MAX,
    ensures
        r matches Ok(Reply::Order(o)) && o.table_number == order.table_number && o@.items.len()
            == order.items@.len() && (forall|i: int|
            0 <= i < o@.items.len() ==> (#[trigger] o@.items[i]).name == order.items@[i]@ && 5
                <= o@.items[i].time_to_completion < 15) && after.rows() == with_items(
            before.rows(),
            order.table_number,
            o@.items,
        ),
{
    if let Ok(Reply::Order(o)) = r {
        assert forall|i: int| 0 <= i < o@.items.len() implies (#[trigger] o@.items[i]).name
            == order.items@[i]@ && 5 <= o@.items[i].time_to_completion < 15 by {
            assert(order.items@.map_values(|s: String| s@)[i] == order.items@[i]@);
        }
    }
}

} // verus!
