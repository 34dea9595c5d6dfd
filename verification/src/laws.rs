//! The guarantees the crate states of composition and binding as a whole,
//! each proved once and for all: how many registrations a bound table
//! yields, what a complete or halted run looks like, that rebinding a table
//! reproduces the same registrations, and that the declared middleware
//! order is the run order.

use vstd::prelude::*;

use crate::binder::BindError;
use crate::binder::Binding;
use crate::binder::Route;
use crate::binder::bind_post;
use crate::binder::binding_matches;
use crate::binder::method_of;
use crate::binder::route_ok;
use crate::binder::table_ok;
use crate::chain::Middleware;
use crate::chain::Step;
use crate::chain::before_trace;
use crate::chain::befores_of;
use crate::chain::capability_of;
use crate::chain::complete_trace;

verus! {

/// Law: binding a table of N routes yields exactly N registrations, one per
/// declared route in table order, each under the route's declared method,
/// path and name.
pub proof fn lemma_bind_registers_each_route<H, C>(
    routes: Seq<Route<H>>,
    mw: Seq<Middleware<C>>,
    bs: Seq<Binding<H, C>>,
)
    requires
        bind_post(routes, mw, Ok(bs)),
    ensures
        routes.len() >= 1,
        bs.len() == routes.len(),
        forall|i: int|
            0 <= i < routes.len() ==> {
                &&& Some(#[trigger] bs[i].method) == method_of(routes[i].method@)
                &&& bs[i].path@ == routes[i].path@
                &&& bs[i].id@ == routes[i].id@
            },
{
    assert forall|i: int| 0 <= i < routes.len() implies {
        &&& Some(#[trigger] bs[i].method) == method_of(routes[i].method@)
        &&& bs[i].path@ == routes[i].path@
        &&& bs[i].id@ == routes[i].id@
    } by {
        assert(binding_matches(bs[i], routes[i], mw));
    }
}

/// Law: a run that passes every before-middleware runs the terminal handler
/// exactly once — at the one step where the trace holds `Terminal` — after
/// every before-step in declared order, and then every after-step in
/// declared order.
pub proof fn lemma_complete_run_order(nb: nat, na: nat)
    ensures
        complete_trace(nb, na).len() == nb + 1 + na,
        forall|i: int|
            0 <= i < nb ==> #[trigger] complete_trace(nb, na)[i] == Step::Before(i as usize),
        complete_trace(nb, na)[nb as int] == Step::Terminal,
        forall|i: int|
            nb + 1 <= i < nb + 1 + na ==> #[trigger] complete_trace(nb, na)[i] == Step::After(
                (i - nb - 1) as usize,
            ),
        forall|i: int|
            0 <= i < nb + 1 + na && #[trigger] complete_trace(nb, na)[i] == Step::Terminal ==> i
                == nb,
{
    assert forall|i: int|
        0 <= i < nb + 1 + na && #[trigger] complete_trace(nb, na)[i] == Step::Terminal implies i
        == nb by {
        if i < nb {
            assert(complete_trace(nb, na)[i] == Step::Before(i as usize));
        } else if i > nb {
            assert(complete_trace(nb, na)[i] == Step::After((i - nb - 1) as usize));
        }
    }
}

/// Law: when the before-middleware at index `k` halts a run, the
/// before-middleware ahead of it each ran exactly once, in declared order,
/// and nothing else ran: the trace holds no terminal step and no
/// after-step, and no before-step past `k`.
pub proof fn lemma_halt_stops_chain(k: nat)
    ensures
        before_trace(k + 1).len() == k + 1,
        forall|i: int|
            0 <= i <= k ==> #[trigger] before_trace(k + 1)[i] == Step::Before(i as usize),
        forall|i: int| 0 <= i <= k ==> !(#[trigger] before_trace(k + 1)[i] is Terminal),
        forall|i: int| 0 <= i <= k ==> !(#[trigger] before_trace(k + 1)[i] is After),
{
}

/// Two route declarations with the same name, method tag, path and handler:
/// what "the same route table" means across two independently built tables.
pub open spec fn route_like<H>(a: Route<H>, b: Route<H>) -> bool {
    &&& a.id@ == b.id@
    &&& a.method@ == b.method@
    &&& a.path@ == b.path@
    &&& a.handler == b.handler
}

/// Two registrations that a router cannot tell apart: same name, method,
/// path, and a chain holding the same handler between the same
/// before- and after-capabilities.
pub open spec fn binding_like<H, C>(a: Binding<H, C>, b: Binding<H, C>) -> bool {
    &&& a.id@ == b.id@
    &&& a.method == b.method
    &&& a.path@ == b.path@
    &&& a.chain.terminal() == b.chain.terminal()
    &&& a.chain.befores() == b.chain.befores()
    &&& a.chain.afters() == b.chain.afters()
}

/// Law: binding is idempotent. Binding the same route table twice, against
/// two independent fresh routers, yields registration lists a router cannot
/// tell apart — and on a defective table, the very same reported defect.
pub proof fn lemma_bind_idempotent<H, C>(
    routes1: Seq<Route<H>>,
    routes2: Seq<Route<H>>,
    mw: Seq<Middleware<C>>,
    r1: Result<Seq<Binding<H, C>>, BindError>,
    r2: Result<Seq<Binding<H, C>>, BindError>,
)
    requires
        routes1.len() == routes2.len(),
        forall|i: int| 0 <= i < routes1.len() ==> route_like(#[trigger] routes1[i], routes2[i]),
        bind_post(routes1, mw, r1),
        bind_post(routes2, mw, r2),
    ensures
        r1 is Ok <==> r2 is Ok,
        r1 matches Ok(b1) ==> (r2 matches Ok(b2) && b1.len() == b2.len() && (forall|i: int|
            0 <= i < b1.len() ==> binding_like(#[trigger] b1[i], b2[i]))),
        r1 matches Err(e1) ==> (r2 matches Err(e2) && e1 == e2),
{
    match r1 {
        Ok(b1) => {
            assert forall|i: int| 0 <= i < routes2.len() implies route_ok(
                #[trigger] routes2[i],
            ) by {
                assert(route_like(routes1[i], routes2[i]));
                assert(route_ok(routes1[i]));
            }
            assert(table_ok(routes2));
            match r2 {
                Ok(b2) => {
                    assert forall|i: int| 0 <= i < b1.len() implies binding_like(
                        #[trigger] b1[i],
                        b2[i],
                    ) by {
                        assert(binding_matches(b1[i], routes1[i], mw));
                        assert(binding_matches(b2[i], routes2[i], mw));
                        assert(route_like(routes1[i], routes2[i]));
                    }
                },
                Err(e2) => {
                    match e2 {
                        BindError::EmptyRouteTable => {
                            assert(false);
                        },
                        BindError::UnrecognizedMethod(k) => {
                            assert(route_like(routes1[k as int], routes2[k as int]));
                            assert(route_ok(routes1[k as int]));
                            assert(route_ok(routes2[k as int]));
                            assert(false);
                        },
                    }
                },
            }
        },
        Err(e1) => {
            match r2 {
                Ok(b2) => {
                    match e1 {
                        BindError::EmptyRouteTable => {
                            assert(false);
                        },
                        BindError::UnrecognizedMethod(k) => {
                            assert(route_like(routes1[k as int], routes2[k as int]));
                            assert(route_ok(routes2[k as int]));
                            assert(route_ok(routes1[k as int]));
                            assert(false);
                        },
                    }
                },
                Err(e2) => {
                    match (e1, e2) {
                        (BindError::EmptyRouteTable, BindError::EmptyRouteTable) => {},
                        (BindError::EmptyRouteTable, BindError::UnrecognizedMethod(k2)) => {
                            assert(false);
                        },
                        (BindError::UnrecognizedMethod(k1), BindError::EmptyRouteTable) => {
                            assert(false);
                        },
                        (
                            BindError::UnrecognizedMethod(k1),
                            BindError::UnrecognizedMethod(k2),
                        ) => {
                            if k1 < k2 {
                                assert(route_ok(routes2[k1 as int]));
                                assert(route_like(routes1[k1 as int], routes2[k1 as int]));
                                assert(route_ok(routes1[k1 as int]));
                                assert(false);
                            } else if k2 < k1 {
                                assert(route_ok(routes1[k2 as int]));
                                assert(route_like(routes1[k2 as int], routes2[k2 as int]));
                                assert(route_ok(routes2[k2 as int]));
                                assert(false);
                            }
                        },
                    }
                },
            }
        },
    }
}

/// Law: a middleware set of before-units runs them in exactly the declared
/// order — the capability at before-step `i` is the `i`-th declared unit's.
pub proof fn lemma_befores_in_declared_order<C>(mw: Seq<Middleware<C>>)
    requires
        forall|i: int| 0 <= i < mw.len() ==> #[trigger] mw[i] is BeforeMiddleware,
    ensures
        befores_of(mw).len() == mw.len(),
        forall|i: int|
            0 <= i < mw.len() ==> #[trigger] befores_of(mw)[i] == capability_of(mw[i]),
    decreases mw.len(),
{
    if mw.len() > 0 {
        let rest = mw.drop_first();
        assert forall|i: int| 0 <= i < rest.len() implies #[trigger] rest[i]
            is BeforeMiddleware by {
            assert(rest[i] == mw[i + 1]);
        }
        lemma_befores_in_declared_order(rest);
        assert(mw[0] is BeforeMiddleware);
        assert forall|i: int| 0 <= i < mw.len() implies #[trigger] befores_of(mw)[i]
            == capability_of(mw[i]) by {
            if i > 0 {
                assert(rest[i - 1] == mw[i]);
                assert(befores_of(mw)[i] == befores_of(rest)[i - 1]);
            }
        }
    }
}

/// Law: before-middleware order is observable. Two before-middleware sets
/// of the same length whose capabilities differ at some position compose
/// chains whose before-run orders differ at that position.
pub proof fn lemma_order_sensitivity<C>(
    mw1: Seq<Middleware<C>>,
    mw2: Seq<Middleware<C>>,
    at: int,
)
    requires
        forall|i: int| 0 <= i < mw1.len() ==> #[trigger] mw1[i] is BeforeMiddleware,
        forall|i: int| 0 <= i < mw2.len() ==> #[trigger] mw2[i] is BeforeMiddleware,
        mw1.len() == mw2.len(),
        0 <= at < mw1.len(),
        capability_of(mw1[at]) != capability_of(mw2[at]),
    ensures
        befores_of(mw1)[at] != befores_of(mw2)[at],
        befores_of(mw1) != befores_of(mw2),
{
    lemma_befores_in_declared_order(mw1);
    lemma_befores_in_declared_order(mw2);
}

} // verus!
