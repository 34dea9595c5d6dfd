//! The chain builder: composes one terminal handler and an ordered
//! middleware set into a single invocable chain.
//!
//! A middleware unit is a tagged value: either a before-middleware, run
//! ahead of the terminal handler and able to halt the request, or an
//! after-middleware, run once the terminal handler has completed. Both wrap
//! an opaque capability supplied by the caller; this module never looks
//! inside one, it only fixes the order in which they run.

use vstd::prelude::*;

verus! {

/// A capability that processes one request context in place, either letting
/// the chain continue (`Ok`) or stopping it with an error (`Err`).
///
/// Middleware units wrap implementations of this trait. An implementation
/// must not share mutable state between requests: it is invoked read-only
/// (`&self`) and acts only on the request context it is handed.
pub trait Capability<Req, E> {
    fn process(&self, req: &mut Req) -> Result<(), E>;
}

/// A terminal handler: the route's own business logic, producing the
/// response for one request context, or an error.
pub trait Handler<Req, Resp, E> {
    fn handle(&self, req: &mut Req) -> Result<Resp, E>;
}

/// One middleware unit of a route's shared middleware set: the kind tag
/// decides on which side of the terminal handler the wrapped capability
/// runs.
#[derive(Clone, Copy)]
pub enum Middleware<C> {
    /// Runs before the terminal handler, in declaration order; an `Err`
    /// from it halts the chain.
    BeforeMiddleware(C),
    /// Runs after the terminal handler has completed, in declaration order.
    AfterMiddleware(C),
}

/// The capability a middleware unit wraps, whichever its kind.
pub open spec fn capability_of<C>(m: Middleware<C>) -> C {
    match m {
        Middleware::BeforeMiddleware(c) => c,
        Middleware::AfterMiddleware(c) => c,
    }
}

/// The before-capabilities of a middleware set, in declaration order.
pub open spec fn befores_of<C>(ms: Seq<Middleware<C>>) -> Seq<C>
    decreases ms.len(),
{
    if ms.len() == 0 {
        Seq::empty()
    } else {
        match ms.first() {
            Middleware::BeforeMiddleware(c) => seq![c] + befores_of(ms.drop_first()),
            Middleware::AfterMiddleware(_) => befores_of(ms.drop_first()),
        }
    }
}

/// The after-capabilities of a middleware set, in declaration order.
pub open spec fn afters_of<C>(ms: Seq<Middleware<C>>) -> Seq<C>
    decreases ms.len(),
{
    if ms.len() == 0 {
        Seq::empty()
    } else {
        match ms.first() {
            Middleware::BeforeMiddleware(_) => afters_of(ms.drop_first()),
            Middleware::AfterMiddleware(c) => seq![c] + afters_of(ms.drop_first()),
        }
    }
}

/// One step of a chain invocation, by position: the `usize` is the index
/// into the chain's before- or after-capability sequence.
#[derive(Clone, Copy, Debug, PartialEq, Eq)]
pub enum Step {
    Before(usize),
    Terminal,
    After(usize),
}

/// The trace of the first `n` before-steps, in order.
pub open spec fn before_trace(n: nat) -> Seq<Step> {
    Seq::new(n, |i: int| Step::Before(i as usize))
}

/// The trace of the first `n` after-steps, in order.
pub open spec fn after_trace(n: nat) -> Seq<Step> {
    Seq::new(n, |i: int| Step::After(i as usize))
}

/// The trace of a run that got past every before-middleware and the
/// terminal handler, then took `na` after-steps: all `nb` before-steps in
/// order, the terminal step, then the after-steps in order.
pub open spec fn complete_trace(nb: nat, na: nat) -> Seq<Step> {
    before_trace(nb).push(Step::Terminal) + after_trace(na)
}

/// How one chain invocation ended. The error taxonomy is inherited whole
/// from the wrapped capabilities: the chain adds no error kind of its own
/// and carries each capability's error value through unmodified.
#[derive(Debug, PartialEq, Eq)]
pub enum ChainOutcome<Resp, E> {
    /// Every unit and the terminal handler completed; the response is the
    /// terminal handler's.
    Completed(Resp),
    /// The before-middleware at `index` declined to continue. The terminal
    /// handler and every unit past `index` were skipped — under this
    /// crate's halt policy a halted request runs no after-middleware.
    Halted { index: usize, error: E },
    /// The terminal handler failed; no after-middleware ran.
    HandlerFailed { error: E },
    /// The after-middleware at `index` failed; the after-middleware past
    /// `index` were skipped.
    AfterFailed { index: usize, error: E },
}

impl<Resp, E> ChainOutcome<Resp, E> {
    /// Flattens an outcome to the plain result a registered handler owes
    /// its router: the terminal handler's response on completion, and
    /// otherwise the failing unit's own error value, unmodified.
    pub fn into_result(self) -> (r: Result<Resp, E>)
        ensures
            match self {
                ChainOutcome::Completed(resp) => r == Ok::<Resp, E>(resp),
                ChainOutcome::Halted { error, .. } => r == Err::<Resp, E>(error),
                ChainOutcome::HandlerFailed { error } => r == Err::<Resp, E>(error),
                ChainOutcome::AfterFailed { error, .. } => r == Err::<Resp, E>(error),
            },
    {
        match self {
            ChainOutcome::Completed(resp) => Ok(resp),
            ChainOutcome::Halted { index: _, error } => Err(error),
            ChainOutcome::HandlerFailed { error } => Err(error),
            ChainOutcome::AfterFailed { index: _, error } => Err(error),
        }
    }
}

/// What a chain invocation's trace must look like for each outcome, for a
/// chain of `nb` before- and `na` after-capabilities.
///
/// - completed: every before-step, the terminal step, every after-step;
/// - halted at `index`: exactly the before-steps up to and including
///   `index`, so each earlier before-middleware ran exactly once, and
///   neither the terminal handler nor anything past `index` ran;
/// - terminal handler failed: every before-step and the terminal step,
///   no after-step;
/// - after-middleware at `index` failed: a complete run cut off right
///   after after-step `index`.
pub open spec fn invoke_post<Resp, E>(
    nb: nat,
    na: nat,
    trace: Seq<Step>,
    out: ChainOutcome<Resp, E>,
) -> bool {
    match out {
        ChainOutcome::Completed(_) => trace == complete_trace(nb, na),
        ChainOutcome::Halted { index, .. } => index < nb && trace == before_trace(
            (index + 1) as nat,
        ),
        ChainOutcome::HandlerFailed { .. } => trace == before_trace(nb).push(Step::Terminal),
        ChainOutcome::AfterFailed { index, .. } => index < na && trace == complete_trace(
            nb,
            (index + 1) as nat,
        ),
    }
}

/// A composed chain: one terminal handler together with the before- and
/// after-capabilities that bracket it. Built once by [`Middlefiddle::new`],
/// then invoked any number of times; the lists never change afterwards.
pub struct Middlefiddle<H, C> {
    handler: H,
    before: Vec<C>,
    after: Vec<C>,
}

impl<H, C> Middlefiddle<H, C> {
    /// The before-capabilities, in the order they run.
    pub closed spec fn befores(&self) -> Seq<C> {
        self.before@
    }

    /// The after-capabilities, in the order they run.
    pub closed spec fn afters(&self) -> Seq<C> {
        self.after@
    }

    /// The terminal handler.
    pub closed spec fn terminal(&self) -> H {
        self.handler
    }

    /// Composes a chain: splits the middleware set by kind, keeping
    /// declaration order on each side, around the given terminal handler.
    pub fn new(handler: H, middleware: Vec<Middleware<C>>) -> (r: Self)
        ensures
            r.terminal() == handler,
            r.befores() == befores_of(middleware@),
            r.afters() == afters_of(middleware@),
    {
        let ghost all = middleware@;
        let mut rest = middleware;
        let mut before: Vec<C> = Vec::new();
        let mut after: Vec<C> = Vec::new();
        proof {
            assert(before@ + befores_of(rest@) =~= befores_of(all));
            assert(after@ + afters_of(rest@) =~= afters_of(all));
        }
        while rest.len() > 0
            invariant
                befores_of(all) == before@ + befores_of(rest@),
                afters_of(all) == after@ + afters_of(rest@),
            decreases rest.len(),
        {
            let ghost prev = rest@;
            let m = rest.remove(0);
            proof {
                assert(rest@ =~= prev.drop_first());
                assert(m == prev.first());
            }
            match m {
                Middleware::BeforeMiddleware(c) => {
                    proof {
                        assert(befores_of(prev) == seq![c] + befores_of(rest@));
                        assert(before@.push(c) + befores_of(rest@) =~= before@ + befores_of(
                            prev,
                        ));
                        assert(afters_of(prev) == afters_of(rest@));
                    }
                    before.push(c);
                },
                Middleware::AfterMiddleware(c) => {
                    proof {
                        assert(afters_of(prev) == seq![c] + afters_of(rest@));
                        assert(after@.push(c) + afters_of(rest@) =~= after@ + afters_of(prev));
                        assert(befores_of(prev) == befores_of(rest@));
                    }
                    after.push(c);
                },
            }
        }
        proof {
            assert(before@ + befores_of(rest@) =~= before@);
            assert(after@ + afters_of(rest@) =~= after@);
        }
        Middlefiddle { handler, before, after }
    }

    /// Invokes the chain on one request context and reports, besides the
    /// outcome, the exact trace of steps taken, so that the run order is
    /// part of the contract: before-capabilities in declaration order, the
    /// terminal handler at most once, then after-capabilities in
    /// declaration order, cut off at the first unit that halts or fails.
    pub fn invoke<Req, Resp, E>(&self, req: &mut Req) -> (r: (Vec<Step>, ChainOutcome<Resp, E>))
        where
            H: Handler<Req, Resp, E>,
            C: Capability<Req, E>,

        ensures
            invoke_post(self.befores().len(), self.afters().len(), r.0@, r.1),
    {
        let ghost nb = self.before@.len();
        let ghost na = self.after@.len();
        let mut trace: Vec<Step> = Vec::new();
        proof {
            assert(trace@ =~= before_trace(0));
        }
        let mut i: usize = 0;
        while i < self.before.len()
            invariant
                i <= self.before@.len(),
                trace@ == before_trace(i as nat),
            decreases self.before@.len() - i,
        {
            trace.push(Step::Before(i));
            proof {
                assert(trace@ =~= before_trace((i + 1) as nat));
            }
            match self.before[i].process(req) {
                Ok(()) => {},
                Err(error) => {
                    return (trace, ChainOutcome::Halted { index: i, error });
                },
            }
            i = i + 1;
        }
        trace.push(Step::Terminal);
        proof {
            assert(trace@ =~= complete_trace(nb, 0));
        }
        let resp = match self.handler.handle(req) {
            Ok(resp) => resp,
            Err(error) => {
                proof {
                    assert(trace@ =~= before_trace(nb).push(Step::Terminal));
                }
                return (trace, ChainOutcome::HandlerFailed { error });
            },
        };
        let mut j: usize = 0;
        while j < self.after.len()
            invariant
                j <= self.after@.len(),
                trace@ == complete_trace(nb, j as nat),
                nb == self.before@.len(),
            decreases self.after@.len() - j,
        {
            trace.push(Step::After(j));
            proof {
                assert(trace@ =~= complete_trace(nb, (j + 1) as nat));
            }
            match self.after[j].process(req) {
                Ok(()) => {},
                Err(error) => {
                    return (trace, ChainOutcome::AfterFailed { index: j, error });
                },
            }
            j = j + 1;
        }
        (trace, ChainOutcome::Completed(resp))
    }
}

/// A composed chain is itself a handler capability, so it can be registered
/// wherever a plain handler is expected: invoking it runs the chain and
/// flattens the outcome, propagating the response or the failing unit's
/// error value unmodified. The shape of the run is fixed by
/// [`Middlefiddle::invoke`], which this adapter only flattens through
/// [`ChainOutcome::into_result`].
impl<Req, Resp, E, H: Handler<Req, Resp, E>, C: Capability<Req, E>> Handler<
    Req,
    Resp,
    E,
> for Middlefiddle<H, C> {
    fn handle(&self, req: &mut Req) -> Result<Resp, E> {
        let (_trace, out) = self.invoke(req);
        out.into_result()
    }
}

} // verus!
