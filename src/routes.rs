//! Resolves a request's method and path to a handler and its path parameters.
pub mod endpoints;
pub mod params;
pub mod paths;

use crate::errors::{Error, Result};
use crate::http::codec::{decimal_text, push_decimal_text, text_headers_view};
use crate::http::request::Request;
use vstd::prelude::*;

verus! {

#[verifier::external_type_specification]
#[verifier::external_body]
#[verifier::reject_recursive_types(T)]
pub struct ExRouter<T>(matchit::Router<T>);

#[verifier::external_type_specification]
#[verifier::external_body]
pub struct ExInsertError(matchit::InsertError);

#[verifier::external_type_specification]
#[verifier::external_body]
pub struct ExMatchError(matchit::MatchError);

/// The patterns that a matcher holds, each with the key it was registered under.
pub uninterp spec fn route_table(r: matchit::Router<String>) -> Map<Seq<char>, Seq<char>>;

/// What the matcher finds for `path` among the patterns of `table`: the key of
/// the pattern that matches and the segments that its placeholders bind.
pub uninterp spec fn route_lookup(table: Map<Seq<char>, Seq<char>>, path: Seq<char>) -> Option<
    (Seq<char>, Seq<(Seq<char>, Seq<char>)>),
>;

/// Whether the matcher takes `pattern` when it already holds the patterns of
/// `table`: it refuses malformed patterns and patterns that conflict with one
/// it holds.
pub uninterp spec fn accepts(table: Map<Seq<char>, Seq<char>>, pattern: Seq<char>) -> bool;

/// A table without patterns.
pub open spec fn no_routes() -> Map<Seq<char>, Seq<char>> {
    Map::empty()
}

/// Relies on matchit::Router::new: a matcher without patterns.
#[verifier::external_body]
fn new_matcher() -> (r: matchit::Router<String>)
    ensures
        route_table(r) == no_routes(),
{
    matchit::Router::new()
}

/// Relies on matchit::Router::insert: whether it succeeds depends on the
/// patterns held and the new one; on success the pattern is registered under
/// the key.
#[verifier::external_body]
fn insert_pattern(r: &mut matchit::Router<String>, pattern: &str, key: String) -> (res:
    core::result::Result<(), matchit::InsertError>)
    ensures
        res is Ok <==> accepts(route_table(*old(r)), pattern@),
        res is Ok ==> route_table(*final(r)) == route_table(*old(r)).insert(pattern@, key@),
{
    r.insert(pattern, key)
}

/// Relies on matchit::Router::at: the key of the pattern that matches `path`,
/// which is one that was registered, and the parameters that it binds.
#[verifier::external_body]
fn lookup_path(r: &matchit::Router<String>, path: &str) -> (res: core::result::Result<
    (String, Vec<(String, String)>),
    matchit::MatchError,
>)
    ensures
        match res {
            Ok((k, ps)) => route_lookup(route_table(*r), path@) == Some(
                (k@, text_headers_view(ps@)),
            ),
            Err(_) => route_lookup(route_table(*r), path@) is None,
        },
        res matches Ok((k, _)) ==> exists|p: Seq<char>|
            #[trigger] route_table(*r).contains_key(p) && route_table(*r)[p] == k@,
{
    r.at(path).map(
        |m| (m.value.clone(), m.params.iter().map(|(k, v)| (k.to_string(), v.to_string())).collect()),
    )
}

/// The patterns of the API, each under its key.
pub open spec fn api_routes() -> Map<Seq<char>, Seq<char>> {
    map![
        paths::ORDERS@ => endpoints::ORDERS@,
        paths::ORDER_BY_ID@ => endpoints::ORDER_BY_ID@,
        paths::ITEMS@ => endpoints::ITEMS@,
        paths::ITEM_BY_ID@ => endpoints::ITEM_BY_ID@,
    ]
}

/// Registers `pattern` under `key`; an error here is a programming error in
/// the patterns.
fn register(m: &mut matchit::Router<String>, pattern: &str, key: &str) -> (r: Result<()>)
    ensures
        r is Ok <==> accepts(route_table(*old(m)), pattern@),
        r is Err ==> r matches Err(Error::InternalServerError(_)),
        r is Ok ==> route_table(*final(m)) == route_table(*old(m)).insert(pattern@, key@),
{
    match insert_pattern(m, pattern, String::from_str(key)) {
        Ok(()) => Ok(()),
        Err(_) => Err(Error::InternalServerError(String::from_str("conflicting route pattern"))),
    }
}

/// Whether the matcher takes the paths of the API, registered in order.
pub open spec fn api_patterns_accepted() -> bool {
    let t0 = no_routes();
    let t1 = t0.insert(paths::ORDERS@, endpoints::ORDERS@);
    let t2 = t1.insert(paths::ORDER_BY_ID@, endpoints::ORDER_BY_ID@);
    let t3 = t2.insert(paths::ITEMS@, endpoints::ITEMS@);
    &&& accepts(t0, paths::ORDERS@)
    &&& accepts(t1, paths::ORDER_BY_ID@)
    &&& accepts(t2, paths::ITEMS@)
    &&& accepts(t3, paths::ITEM_BY_ID@)
}

/// A matcher holding the paths of the API. An error here, which comes exactly
/// when the matcher refuses one of the patterns, is a programming error.
pub fn new_router() -> (r: Result<matchit::Router<String>>)
    ensures
        r is Ok <==> api_patterns_accepted(),
        r is Err ==> r matches Err(Error::InternalServerError(_)),
        r matches Ok(m) ==> route_table(m) == api_routes(),
{
    let mut m = new_matcher();
    register(&mut m, paths::ORDERS, endpoints::ORDERS)?;
    register(&mut m, paths::ORDER_BY_ID, endpoints::ORDER_BY_ID)?;
    register(&mut m, paths::ITEMS, endpoints::ITEMS)?;
    register(&mut m, paths::ITEM_BY_ID, endpoints::ITEM_BY_ID)?;
    Ok(m)
}

/// The value bound to `key`: that of the last entry under that name.
pub open spec fn param_value(entries: Seq<(Seq<char>, Seq<char>)>, key: Seq<char>) -> Option<
    Seq<char>,
>
    decreases entries.len(),
{
    if entries.len() == 0 {
        None
    } else if entries.last().0 == key {
        Some(entries.last().1)
    } else {
        param_value(entries.drop_last(), key)
    }
}

/// The parameters that a path binds, by placeholder name.
#[derive(Debug, Clone)]
pub struct HttpParams {
    entries: Vec<(String, String)>,
}

impl View for HttpParams {
    type V = Seq<(Seq<char>, Seq<char>)>;

    closed spec fn view(&self) -> Seq<(Seq<char>, Seq<char>)> {
        text_headers_view(self.entries@)
    }
}

impl HttpParams {
    /// No parameters.
    pub fn new() -> (r: Self)
        ensures
            r@ == Seq::<(Seq<char>, Seq<char>)>::empty(),
    {
        HttpParams { entries: Vec::new() }
    }

    /// Parameters bound as `entries` say, later entries overriding earlier ones.
    pub fn from_entries(entries: Vec<(String, String)>) -> (r: Self)
        ensures
            r@ == text_headers_view(entries@),
    {
        HttpParams { entries }
    }

    /// Binds `key` to `value`, in place of what it was bound to.
    pub fn insert(&mut self, key: String, value: String)
        ensures
            final(self)@ == old(self)@.push((key@, value@)),
            forall|k: Seq<char>|
                #[trigger] param_value(final(self)@, k) == if k == key@ {
                    Some(value@)
                } else {
                    param_value(old(self)@, k)
                },
    {
        let ghost before = self@;
        self.entries.push((key, value));
        assert(self@ =~= before.push((key@, value@)));
        assert(self@.drop_last() =~= before);
    }

    /// The value bound to `key`.
    pub fn get(&self, key: &str) -> (r: Option<&String>)
        ensures
            match r {
                Some(v) => param_value(self@, key@) == Some(v@),
                None => param_value(self@, key@) is None,
            },
    {
        let k = String::from_str(key);
        let ghost v = self@;
        let mut i: usize = self.entries.len();
        assert(v.subrange(0, v.len() as int) =~= v);
        while i > 0
            invariant
                i <= self.entries@.len(),
                v == self@,
                k@ == key@,
                param_value(v, key@) == param_value(v.subrange(0, i as int), key@),
            decreases i,
        {
            let ghost pre = v.subrange(0, i as int);
            assert(pre.drop_last() =~= v.subrange(0, i - 1));
            if self.entries[i - 1].0 == k {
                return Some(&self.entries[i - 1].1);
            }
            i = i - 1;
        }
        None
    }
}

/// The handler registered for `method` on the pattern under `key`: the last
/// registration wins.
pub open spec fn handler_in<H>(entries: Seq<(Seq<char>, Seq<char>, H)>, key: Seq<char>, method: Seq<char>) -> Option<H>
    decreases entries.len(),
{
    if entries.len() == 0 {
        None
    } else if entries.last().0 == key && entries.last().1 == method {
        Some(entries.last().2)
    } else {
        handler_in(entries.drop_last(), key, method)
    }
}

pub open spec fn handler_entries<H>(hs: Seq<(String, String, H)>) -> Seq<(Seq<char>, Seq<char>, H)> {
    hs.map_values(|e: (String, String, H)| (e.0@, e.1@, e.2))
}

/// Takes raw requests to the handler registered for their path and method.
///
/// The path patterns are fixed at construction; handlers are added by method
/// and pattern key before serving, after which the router is only read.
#[verifier::reject_recursive_types(H)]
pub struct HttpRouter<H> {
    routes: matchit::Router<String>,
    handlers: Vec<(String, String, H)>,
}

/// `after` is `before` with `handler` registered for `method` on the pattern
/// under `key`, in place of any earlier registration of that pair.
pub open spec fn registers<H>(before: HttpRouter<H>, after: HttpRouter<H>, method: Seq<char>, key: Seq<char>, handler: H) -> bool {
    &&& after.table() == before.table()
    &&& forall|k: Seq<char>, m: Seq<char>|
        #[trigger] after.handler(k, m) == if k == key && m == method {
            Some(handler)
        } else {
            before.handler(k, m)
        }
}

/// What routing a request with `method` and `path` gives: `NotFound` where no
/// pattern matches the path or no handler is registered for the method on the
/// pattern that does; else that handler, with the parameters the path binds.
pub open spec fn routes_to<H>(router: HttpRouter<H>, method: Seq<char>, path: Seq<char>, r: Result<(H, HttpParams)>) -> bool {
    match route_lookup(router.table(), path) {
        None => r matches Err(Error::NotFound(_)),
        Some((key, ps)) => match router.handler(key, method) {
            None => r matches Err(Error::NotFound(_)),
            Some(h) => r matches Ok((h2, params)) && h2 == h && params@ == ps,
        },
    }
}

impl<H> HttpRouter<H> {
    /// The patterns, each with its key.
    pub closed spec fn table(&self) -> Map<Seq<char>, Seq<char>> {
        route_table(self.routes)
    }

    /// The handler registered for `method` on the pattern under `key`.
    pub closed spec fn handler(&self, key: Seq<char>, method: Seq<char>) -> Option<H> {
        handler_in(handler_entries(self.handlers@), key, method)
    }

    /// A router with the paths of the API and no handler yet. An error here,
    /// which comes exactly when the matcher refuses one of the patterns, is a
    /// programming error.
    pub fn new() -> (r: Result<Self>)
        ensures
            r is Ok <==> api_patterns_accepted(),
            r is Err ==> r matches Err(Error::InternalServerError(_)),
            r matches Ok(router) ==> router.table() == api_routes() && forall|k: Seq<char>, m: Seq<char>|
                #[trigger] router.handler(k, m) is None,
    {
        let routes = new_router()?;
        let r = HttpRouter { routes, handlers: Vec::new() };
        assert(handler_entries(r.handlers@) =~= Seq::<(Seq<char>, Seq<char>, H)>::empty());
        Ok(r)
    }

    /// Registers `handler` for `method` on the pattern under the key `route`,
    /// in place of any earlier registration of the pair.
    pub fn add_route(&mut self, method: &str, route: &str, handler: H)
        ensures
            registers(*old(self), *final(self), method@, route@, handler),
    {
        let ghost before = handler_entries(self.handlers@);
        self.handlers.push((String::from_str(route), String::from_str(method), handler));
        assert(handler_entries(self.handlers@).drop_last() =~= before);
    }

    /// Finds the handler for a request and the parameters that its path binds.
    /// Checking that the parameters and the body suit the handler is the
    /// handler's own work.
    pub fn route(&self, request: &Request) -> (r: Result<(H, HttpParams)>)
        where
            H: Copy,
        ensures
            routes_to(*self, request.method@, request.path@, r),
    {
        let found = match lookup_path(&self.routes, request.path.as_str()) {
            Ok(found) => Some(found),
            Err(_) => None,
        };
        self.route_match(request.method.as_str(), found)
    }

    /// The handler for `method` given what the matcher `found` for a path: the
    /// key of the matching pattern and the parameters it binds.
    pub fn route_match(&self, method: &str, found: Option<(String, Vec<(String, String)>)>) -> (r:
        Result<(H, HttpParams)>)
        where
            H: Copy,
        ensures
            match found {
                None => r matches Err(Error::NotFound(_)),
                Some((key, ps)) => match self.handler(key@, method@) {
                    None => r matches Err(Error::NotFound(_)),
                    Some(h) => r matches Ok((h2, params)) && h2 == h && params@ == text_headers_view(
                        ps@,
                    ),
                },
            },
    {
        let ghost given = found;
        let (key, ps) = match found {
            Some(pair) => pair,
            None => return Err(Error::NotFound(String::from_str("no such path"))),
        };
        let m = String::from_str(method);
        let ghost v = handler_entries(self.handlers@);
        let mut i: usize = self.handlers.len();
        assert(v.subrange(0, v.len() as int) =~= v);
        while i > 0
            invariant
                i <= self.handlers@.len(),
                v == handler_entries(self.handlers@),
                m@ == method@,
                given == Some((key, ps)),
                given == found,
                handler_in(v, key@, method@) == handler_in(v.subrange(0, i as int), key@, method@),
            decreases i,
        {
            let ghost pre = v.subrange(0, i as int);
            assert(pre.drop_last() =~= v.subrange(0, i - 1));
            if self.handlers[i - 1].0 == key && self.handlers[i - 1].1 == m {
                let h = self.handlers[i - 1].2;
                assert(pre.last() == v[i - 1]);
                assert(v[i - 1] == (self.handlers@[i - 1].0@, self.handlers@[i - 1].1@, self.handlers@[i - 1].2));
                let params = HttpParams::from_entries(ps);
                return Ok((h, params));
            }
            i = i - 1;
        }
        Err(Error::NotFound(String::from_str("no handler for this method")))
    }
}

/// Registering a handler twice for the same pattern and method leaves the
/// router as registering the second alone would: the second wins.
pub proof fn lemma_last_registration_wins<H>(
    r0: HttpRouter<H>,
    r1: HttpRouter<H>,
    r2: HttpRouter<H>,
    method: Seq<char>,
    key: Seq<char>,
    first: H,
    second: H,
)
    requires
        registers(r0, r1, method, key, first),
        registers(r1, r2, method, key, second),
    ensures
        registers(r0, r2, method, key, second),
        r2.handler(key, method) == Some(second),
{
    assert forall|k: Seq<char>, m: Seq<char>|
        #[trigger] r2.handler(k, m) == if k == key && m == method {
            Some(second)
        } else {
            r0.handler(k, m)
        } by {
        assert(r1.handler(k, m) == if k == key && m == method {
            Some(first)
        } else {
            r0.handler(k, m)
        });
    }
}

/// Routing is deterministic: the same router gives the same handler and
/// parameters for the same method and path.
pub proof fn lemma_route_deterministic<H>(
    router: HttpRouter<H>,
    method: Seq<char>,
    path: Seq<char>,
    a: Result<(H, HttpParams)>,
    b: Result<(H, HttpParams)>,
)
    requires
        routes_to(router, method, path, a),
        routes_to(router, method, path, b),
    ensures
        a is Ok <==> b is Ok,
        a matches Ok((ha, pa)) ==> b matches Ok((hb, pb)) && ha == hb && pa@ == pb@,
{
}

/// The path of the order of table `order_id`.
pub fn order_by_id(order_id: u32) -> (r: String)
    ensures
        r@ == "/api/v1/orders/"@ + decimal_text(order_id as nat),
{
    let mut path = String::from_str("/api/v1/orders/");
    push_decimal_text(&mut path, order_id as u64);
    path
}

/// The path of item `item_id` of the order of table `order_id`.
pub fn item_by_id(order_id: u32, item_id: u32) -> (r: String)
    ensures
        r@ == "/api/v1/orders/"@ + decimal_text(order_id as nat) + "/items/"@ + decimal_text(
            item_id as nat,
        ),
{
    let mut path = order_by_id(order_id);
    path.append("/items/");
    push_decimal_text(&mut path, item_id as u64);
    path
}

} // verus!
