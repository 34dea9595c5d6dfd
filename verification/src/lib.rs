//! Route-scoped middleware composition.
//!
//! Web routers often need the same middleware (an auth check, a logger)
//! attached to several routes at once. This crate assembles, for every
//! declared route, one linear chain out of a shared middleware set and the
//! route's own terminal handler, and hands each chain to a router
//! capability for registration. It does no routing, HTTP parsing or
//! middleware execution of its own: handlers and middleware are opaque
//! capabilities supplied by the caller, and the router is an injected
//! collaborator.
//!
//! The [`chain`] module builds and runs a single composed chain; the
//! [`binder`] module flattens a declarative route table into one
//! registration per route; the [`laws`] module proves the guarantees that
//! relate the two across whole tables and runs.

use vstd::prelude::*;

mod binder;
mod chain;
mod laws;

pub use binder::BindError;
pub use binder::Binding;
pub use binder::Method;
pub use binder::Route;
pub use binder::Router;
pub use binder::bind;
pub use binder::bind_err;
pub use binder::bind_into;
pub use binder::bind_post;
pub use binder::binding_matches;
pub use binder::method_of;
pub use binder::parse_method;
pub use binder::route_ok;
pub use binder::table_ok;
pub use chain::Capability;
pub use chain::ChainOutcome;
pub use chain::Handler;
pub use chain::Middlefiddle;
pub use chain::Middleware;
pub use chain::Step;
pub use chain::after_trace;
pub use chain::afters_of;
pub use chain::before_trace;
pub use chain::befores_of;
pub use chain::capability_of;
pub use chain::complete_trace;
pub use chain::invoke_post;
pub use laws::binding_like;
pub use laws::lemma_befores_in_declared_order;
pub use laws::lemma_bind_idempotent;
pub use laws::lemma_bind_registers_each_route;
pub use laws::lemma_complete_run_order;
pub use laws::lemma_halt_stops_chain;
pub use laws::lemma_order_sensitivity;
pub use laws::route_like;

verus! {

} // verus!
