//! The route binder: flattens a declarative route table into one composed
//! chain per route and one registration per route.
//!
//! A route declaration carries its HTTP method as a lowercase string tag,
//! as a declarative table would spell it. Binding parses each tag, composes
//! that route's chain from the one shared middleware set, and either
//! returns the full list of registrations or reports the first defect in
//! the table: an empty table is a usage error, and so is an unrecognized
//! method tag — a misspelled tag names a route that could never be served,
//! so it is reported rather than silently skipped.

use vstd::prelude::*;

use crate::chain::Capability;
use crate::chain::Middlefiddle;
use crate::chain::Middleware;
use crate::chain::afters_of;
use crate::chain::befores_of;

verus! {

/// An HTTP method a route can be registered under: the eight registration
/// operations a router capability exposes, `Any` meaning every method.
#[derive(Clone, Copy, Debug, PartialEq, Eq)]
pub enum Method {
    Get,
    Post,
    Put,
    Delete,
    Head,
    Patch,
    Options,
    Any,
}

/// The method a lowercase tag names, or `None` for an unrecognized tag.
pub open spec fn method_of(tag: Seq<char>) -> Option<Method> {
    if tag == "get"@ {
        Some(Method::Get)
    } else if tag == "post"@ {
        Some(Method::Post)
    } else if tag == "put"@ {
        Some(Method::Put)
    } else if tag == "delete"@ {
        Some(Method::Delete)
    } else if tag == "head"@ {
        Some(Method::Head)
    } else if tag == "patch"@ {
        Some(Method::Patch)
    } else if tag == "options"@ {
        Some(Method::Options)
    } else if tag == "any"@ {
        Some(Method::Any)
    } else {
        None
    }
}

/// Parses a method tag. Exactly the eight lowercase tags are recognized;
/// anything else — an uppercase spelling included — is `None`.
pub fn parse_method(tag: &String) -> (r: Option<Method>)
    ensures
        r == method_of(tag@),
{
    if *tag == "get".to_owned() {
        Some(Method::Get)
    } else if *tag == "post".to_owned() {
        Some(Method::Post)
    } else if *tag == "put".to_owned() {
        Some(Method::Put)
    } else if *tag == "delete".to_owned() {
        Some(Method::Delete)
    } else if *tag == "head".to_owned() {
        Some(Method::Head)
    } else if *tag == "patch".to_owned() {
        Some(Method::Patch)
    } else if *tag == "options".to_owned() {
        Some(Method::Options)
    } else if *tag == "any".to_owned() {
        Some(Method::Any)
    } else {
        None
    }
}

/// One route declaration of a table: a registration name for diagnostics,
/// a lowercase method tag, a path pattern, and the route's own terminal
/// handler. Declarations are consumed by binding and never persisted.
pub struct Route<H> {
    pub id: String,
    pub method: String,
    pub path: String,
    pub handler: H,
}

/// A declaration whose method tag names a method.
pub open spec fn route_ok<H>(r: Route<H>) -> bool {
    method_of(r.method@) is Some
}

/// A table the binder accepts whole: at least one route, every method tag
/// recognized.
pub open spec fn table_ok<H>(routes: Seq<Route<H>>) -> bool {
    &&& routes.len() >= 1
    &&& forall|i: int| 0 <= i < routes.len() ==> route_ok(#[trigger] routes[i])
}

/// One registration the binder produced: the parsed method, the declared
/// path and name, and the route's composed chain.
pub struct Binding<H, C> {
    pub id: String,
    pub method: Method,
    pub path: String,
    pub chain: Middlefiddle<H, C>,
}

/// What binding owes a route: the declared name and path kept verbatim,
/// the method the tag names, and a chain holding the route's own handler
/// between the shared middleware set's before- and after-capabilities in
/// declaration order.
pub open spec fn binding_matches<H, C>(
    b: Binding<H, C>,
    r: Route<H>,
    mw: Seq<Middleware<C>>,
) -> bool {
    &&& b.id@ == r.id@
    &&& b.path@ == r.path@
    &&& Some(b.method) == method_of(r.method@)
    &&& b.chain.terminal() == r.handler
    &&& b.chain.befores() == befores_of(mw)
    &&& b.chain.afters() == afters_of(mw)
}

/// A defect in a route table. Binding registers nothing when it reports
/// one.
#[derive(Clone, Copy, Debug, PartialEq, Eq)]
pub enum BindError {
    /// The table declared no route at all.
    EmptyRouteTable,
    /// The route at this index carries a method tag that names no method;
    /// every earlier route's tag is recognized.
    UnrecognizedMethod(usize),
}

/// When a table yields which error: an empty table is reported as such, and
/// otherwise the index of the first unrecognized method tag is reported.
pub open spec fn bind_err<H>(routes: Seq<Route<H>>, e: BindError) -> bool {
    match e {
        BindError::EmptyRouteTable => routes.len() == 0,
        BindError::UnrecognizedMethod(k) => {
            &&& 0 <= (k as int) < routes.len()
            &&& !route_ok(routes[k as int])
            &&& forall|j: int| 0 <= j < k ==> route_ok(#[trigger] routes[j])
        },
    }
}

/// The whole contract of [`bind`]: it succeeds exactly on the tables
/// [`table_ok`] accepts, with one matching registration per route in table
/// order, and otherwise reports the table's first defect.
pub open spec fn bind_post<H, C>(
    routes: Seq<Route<H>>,
    mw: Seq<Middleware<C>>,
    r: Result<Seq<Binding<H, C>>, BindError>,
) -> bool {
    match r {
        Ok(bs) => {
            &&& table_ok(routes)
            &&& bs.len() == routes.len()
            &&& forall|i: int|
                0 <= i < routes.len() ==> binding_matches(#[trigger] bs[i], routes[i], mw)
        },
        Err(e) => bind_err(routes, e),
    }
}

/// Binds a route table against one shared middleware set: for each route,
/// in table order, composes the route's handler with the set's middleware
/// and pairs the chain with the route's parsed method, path and name. The
/// same capabilities serve every route, so they must be `Copy` — plain
/// shared values, as stateless capabilities are.
pub fn bind<H, C: Copy>(routes: Vec<Route<H>>, middleware: &Vec<Middleware<C>>) -> (r: Result<
    Vec<Binding<H, C>>,
    BindError,
>)
    ensures
        match r {
            Ok(bs) => bind_post(routes@, middleware@, Ok(bs@)),
            Err(e) => bind_post(routes@, middleware@, Err::<Seq<Binding<H, C>>, BindError>(e)),
        },
{
    if routes.len() == 0 {
        return Err(BindError::EmptyRouteTable);
    }
    let ghost all = routes@;
    let mut rest = routes;
    let mut out: Vec<Binding<H, C>> = Vec::new();
    let mut i: usize = 0;
    while rest.len() > 0
        invariant
            all == routes@,
            all.len() <= usize::MAX,
            i + rest@.len() == all.len(),
            rest@ == all.skip(i as int),
            out@.len() == i,
            forall|k: int| 0 <= k < i ==> route_ok(#[trigger] all[k]),
            forall|k: int|
                0 <= k < i ==> binding_matches(#[trigger] out@[k], all[k], middleware@),
        decreases rest@.len(),
    {
        let ghost prev = rest@;
        let route = rest.remove(0);
        proof {
            assert(rest@ =~= all.skip(i + 1));
            assert(route == all[i as int]);
        }
        let Route { id, method: tag, path, handler } = route;
        let method = match parse_method(&tag) {
            Some(m) => m,
            None => {
                proof {
                    assert(!route_ok(all[i as int]));
                }
                return Err(BindError::UnrecognizedMethod(i));
            },
        };
        let mut set: Vec<Middleware<C>> = Vec::new();
        let mut j: usize = 0;
        while j < middleware.len()
            invariant
                j <= middleware@.len(),
                set@ == middleware@.take(j as int),
            decreases middleware@.len() - j,
        {
            set.push(middleware[j]);
            proof {
                assert(set@ =~= middleware@.take(j + 1));
            }
            j = j + 1;
        }
        proof {
            assert(set@ =~= middleware@);
        }
        let chain = Middlefiddle::new(handler, set);
        out.push(Binding { id, method, path, chain });
        i = i + 1;
    }
    Ok(out)
}

/// The router capability the binder registers chains against: one
/// registration operation, taking the parsed method, the path pattern, the
/// composed chain standing in for a plain handler, and the route's
/// registration name. The router's own bookkeeping and dispatch are its
/// implementer's business, so nothing is promised of this call.
pub trait Router<H, C> {
    fn register(&mut self, method: Method, path: String, chain: Middlefiddle<H, C>, id: String);
}

/// Binds a route table and registers every resulting chain against the
/// given router, in table order, returning how many registrations were
/// made: one per declared route. On a defective table — empty, or holding
/// an unrecognized method tag — it reports the table's first defect and
/// registers nothing at all.
pub fn bind_into<H, C: Copy, R: Router<H, C>>(
    router: &mut R,
    routes: Vec<Route<H>>,
    middleware: &Vec<Middleware<C>>,
) -> (r: Result<usize, BindError>)
    ensures
        match r {
            Ok(n) => table_ok(routes@) && n == routes@.len(),
            Err(e) => bind_err(routes@, e),
        },
{
    let bindings = match bind(routes, middleware) {
        Ok(bs) => bs,
        Err(e) => {
            return Err(e);
        },
    };
    let n = bindings.len();
    let mut rest = bindings;
    while rest.len() > 0
        decreases rest@.len(),
    {
        let b = rest.remove(0);
        let Binding { id, method, path, chain } = b;
        router.register(method, path, chain, id);
    }
    Ok(n)
}

} // verus!
