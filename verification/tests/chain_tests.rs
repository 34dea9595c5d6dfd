use middlefiddle::Capability;
use middlefiddle::ChainOutcome;
use middlefiddle::Handler;
use middlefiddle::Middlefiddle;
use middlefiddle::Middleware;
use middlefiddle::Step;

/// One request context: the invocation-order log every unit writes to.
struct Ctx {
    log: Vec<u64>,
}

impl Ctx {
    fn new() -> Ctx {
        Ctx { log: Vec::new() }
    }
}

/// A middleware capability that logs its id and, if told to, halts.
#[derive(Clone, Copy)]
struct Unit {
    id: u64,
    halt: bool,
}

fn unit(id: u64) -> Unit {
    Unit { id, halt: false }
}

fn halting(id: u64) -> Unit {
    Unit { id, halt: true }
}

impl Capability<Ctx, u64> for Unit {
    fn process(&self, req: &mut Ctx) -> Result<(), u64> {
        req.log.push(self.id);
        if self.halt {
            Err(self.id)
        } else {
            Ok(())
        }
    }
}

/// A terminal handler that logs its id and answers with it, or fails.
#[derive(Clone, Copy)]
struct Term {
    id: u64,
    fail: bool,
}

fn term(id: u64) -> Term {
    Term { id, fail: false }
}

fn failing_term(id: u64) -> Term {
    Term { id, fail: true }
}

impl Handler<Ctx, u64, u64> for Term {
    fn handle(&self, req: &mut Ctx) -> Result<u64, u64> {
        req.log.push(self.id);
        if self.fail {
            Err(self.id)
        } else {
            Ok(self.id)
        }
    }
}

#[test]
fn complete_run_invokes_all_in_declared_order() {
    let middleware = vec![
        Middleware::BeforeMiddleware(unit(1)),
        Middleware::AfterMiddleware(unit(3)),
        Middleware::BeforeMiddleware(unit(2)),
        Middleware::AfterMiddleware(unit(4)),
    ];
    let chain = Middlefiddle::new(term(10), middleware);
    let mut ctx = Ctx::new();
    let (trace, out): (Vec<Step>, ChainOutcome<u64, u64>) = chain.invoke(&mut ctx);
    assert_eq!(ctx.log, vec![1, 2, 10, 3, 4]);
    assert_eq!(
        trace,
        vec![
            Step::Before(0),
            Step::Before(1),
            Step::Terminal,
            Step::After(0),
            Step::After(1)
        ]
    );
    assert_eq!(out, ChainOutcome::Completed(10));
}

#[test]
fn empty_middleware_set_runs_terminal_alone() {
    let chain = Middlefiddle::new(term(10), Vec::<Middleware<Unit>>::new());
    let mut ctx = Ctx::new();
    let (trace, out): (Vec<Step>, ChainOutcome<u64, u64>) = chain.invoke(&mut ctx);
    assert_eq!(ctx.log, vec![10]);
    assert_eq!(trace, vec![Step::Terminal]);
    assert_eq!(out, ChainOutcome::Completed(10));
}

#[test]
fn halt_runs_earlier_befores_once_and_nothing_else() {
    let middleware = vec![
        Middleware::BeforeMiddleware(unit(1)),
        Middleware::BeforeMiddleware(halting(2)),
        Middleware::BeforeMiddleware(unit(3)),
        Middleware::AfterMiddleware(unit(4)),
    ];
    let chain = Middlefiddle::new(term(10), middleware);
    let mut ctx = Ctx::new();
    let (trace, out): (Vec<Step>, ChainOutcome<u64, u64>) = chain.invoke(&mut ctx);
    assert_eq!(ctx.log, vec![1, 2]);
    assert_eq!(trace, vec![Step::Before(0), Step::Before(1)]);
    assert_eq!(out, ChainOutcome::Halted { index: 1, error: 2 });
}

#[test]
fn first_before_halting_runs_nothing_else() {
    let middleware = vec![
        Middleware::BeforeMiddleware(halting(1)),
        Middleware::BeforeMiddleware(unit(2)),
    ];
    let chain = Middlefiddle::new(term(10), middleware);
    let mut ctx = Ctx::new();
    let (trace, out): (Vec<Step>, ChainOutcome<u64, u64>) = chain.invoke(&mut ctx);
    assert_eq!(ctx.log, vec![1]);
    assert_eq!(trace, vec![Step::Before(0)]);
    assert_eq!(out, ChainOutcome::Halted { index: 0, error: 1 });
}

#[test]
fn terminal_failure_skips_after_middleware() {
    let middleware = vec![
        Middleware::BeforeMiddleware(unit(1)),
        Middleware::AfterMiddleware(unit(4)),
    ];
    let chain = Middlefiddle::new(failing_term(10), middleware);
    let mut ctx = Ctx::new();
    let (trace, out): (Vec<Step>, ChainOutcome<u64, u64>) = chain.invoke(&mut ctx);
    assert_eq!(ctx.log, vec![1, 10]);
    assert_eq!(trace, vec![Step::Before(0), Step::Terminal]);
    assert_eq!(out, ChainOutcome::HandlerFailed { error: 10 });
}

#[test]
fn after_failure_skips_remaining_afters() {
    let middleware = vec![
        Middleware::AfterMiddleware(halting(4)),
        Middleware::AfterMiddleware(unit(5)),
    ];
    let chain = Middlefiddle::new(term(10), middleware);
    let mut ctx = Ctx::new();
    let (trace, out): (Vec<Step>, ChainOutcome<u64, u64>) = chain.invoke(&mut ctx);
    assert_eq!(ctx.log, vec![10, 4]);
    assert_eq!(trace, vec![Step::Terminal, Step::After(0)]);
    assert_eq!(out, ChainOutcome::AfterFailed { index: 0, error: 4 });
}

#[test]
fn order_sensitivity_two_orderings_observably_differ() {
    let first = vec![
        Middleware::BeforeMiddleware(unit(1)),
        Middleware::BeforeMiddleware(unit(2)),
    ];
    let second = vec![
        Middleware::BeforeMiddleware(unit(2)),
        Middleware::BeforeMiddleware(unit(1)),
    ];
    let chain1 = Middlefiddle::new(term(10), first);
    let chain2 = Middlefiddle::new(term(10), second);
    let mut ctx1 = Ctx::new();
    let mut ctx2 = Ctx::new();
    let _: (Vec<Step>, ChainOutcome<u64, u64>) = chain1.invoke(&mut ctx1);
    let _: (Vec<Step>, ChainOutcome<u64, u64>) = chain2.invoke(&mut ctx2);
    assert_eq!(ctx1.log, vec![1, 2, 10]);
    assert_eq!(ctx2.log, vec![2, 1, 10]);
    assert_ne!(ctx1.log, ctx2.log);
}

#[test]
fn chain_is_itself_a_handler_and_propagates_the_response() {
    let middleware = vec![Middleware::BeforeMiddleware(unit(1))];
    let chain = Middlefiddle::new(term(10), middleware);
    let mut ctx = Ctx::new();
    let r: Result<u64, u64> = chain.handle(&mut ctx);
    assert_eq!(r, Ok(10));
    assert_eq!(ctx.log, vec![1, 10]);
}

#[test]
fn chain_as_handler_propagates_a_halt_error_verbatim() {
    let middleware = vec![Middleware::BeforeMiddleware(halting(7))];
    let chain = Middlefiddle::new(term(10), middleware);
    let mut ctx = Ctx::new();
    let r: Result<u64, u64> = chain.handle(&mut ctx);
    assert_eq!(r, Err(7));
    assert_eq!(ctx.log, vec![7]);
}

#[test]
fn into_result_flattens_every_outcome() {
    let completed: ChainOutcome<u64, u64> = ChainOutcome::Completed(3);
    assert_eq!(completed.into_result(), Ok(3));
    let halted: ChainOutcome<u64, u64> = ChainOutcome::Halted { index: 0, error: 8 };
    assert_eq!(halted.into_result(), Err(8));
    let handler_failed: ChainOutcome<u64, u64> = ChainOutcome::HandlerFailed { error: 9 };
    assert_eq!(handler_failed.into_result(), Err(9));
    let after_failed: ChainOutcome<u64, u64> = ChainOutcome::AfterFailed { index: 2, error: 4 };
    assert_eq!(after_failed.into_result(), Err(4));
}

#[test]
fn nested_chains_compose() {
    let inner = Middlefiddle::new(term(10), vec![Middleware::BeforeMiddleware(unit(2))]);
    let outer = Middlefiddle::new(inner, vec![Middleware::BeforeMiddleware(unit(1))]);
    let mut ctx = Ctx::new();
    let (trace, out): (Vec<Step>, ChainOutcome<u64, u64>) = outer.invoke(&mut ctx);
    assert_eq!(ctx.log, vec![1, 2, 10]);
    assert_eq!(trace, vec![Step::Before(0), Step::Terminal]);
    assert_eq!(out, ChainOutcome::Completed(10));
}
