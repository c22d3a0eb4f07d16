//! The iterative graph-reduction engine.
//!
//! Reduction is leftmost-outermost with an explicit pending-argument stack:
//! descending the left spine of nested applications defers arguments onto the
//! stack, and whenever the head reduces to a non-application the deferred
//! arguments are re-applied one at a time. A step counter checked once per
//! iteration gives cooperative cancellation through a caller-supplied bound.
//!
//! The whole machine is mirrored by the spec function [`run`]: one fuel unit
//! per loop iteration, so every contract below pins the reducer's answer to a
//! mathematical function of the input term and the bound.

use vstd::prelude::*;
use std::sync::Arc;
use crate::combinator::{Combinator, ForeignFn};

verus! {

/// A failed evaluation or decoding, as an ordinary value.
#[derive(Clone, Debug)]
pub enum CombinatorError {
    /// The reduction did not reach a normal form within the step bound.
    RecursionLimitReached,
    /// A primitive carried a bound-slot configuration outside the valid
    /// saturation levels (defensive; unreachable through public paths).
    InvalidCombinator(Combinator),
    /// Reserved for applications no rule covers; not raised by the core rules.
    InvalidApplication(Combinator, Combinator),
    /// The decoder consumed a whole sequence without producing any term.
    InvalidVectorRepresentation(Vec<u8>),
}

/// The increment callback: add one to an `Integer`, wrapping at the top of
/// the scalar range; pass any other term through unchanged.
pub open spec fn foreign_applied(k: ForeignFn, x: Combinator) -> Combinator {
    match k {
        ForeignFn::Inc => match x {
            Combinator::Integer(i) => Combinator::Integer(wrapping_inc(i)),
            _ => x,
        },
    }
}

/// `i + 1` on the scalar type, wrapping at the top of the range.
pub open spec fn wrapping_inc(i: i64) -> i64 {
    if i == i64::MAX {
        i64::MIN
    } else {
        (i + 1) as i64
    }
}

/// What one application of a non-`App` head to an argument produces.
pub enum HeadStep {
    /// The head rewrote to this term.
    Goes(Combinator),
    /// The head carried an invalid bound-slot configuration.
    Fails(Combinator),
}

/// The one-step rewrite rule for a fully examined head `h` applied to `x`.
/// `h` is never an `App`: the machine descends left spines first. A head with
/// no matching rule (an `Integer`) propagates itself, silently dropping the
/// argument.
pub open spec fn apply_head(h: Combinator, x: Combinator) -> HeadStep {
    match h {
        Combinator::K { x: slot } => match slot {
            None => HeadStep::Goes(Combinator::K { x: Some(Arc::new(x)) }),
            Some(a) => HeadStep::Goes(*a),
        },
        Combinator::S { f, g } => match (f, g) {
            (None, None) => HeadStep::Goes(Combinator::S { f: Some(Arc::new(x)), g: None }),
            (Some(a), None) => HeadStep::Goes(
                Combinator::S { f: Some(a), g: Some(Arc::new(x)) },
            ),
            (Some(a), Some(b)) => HeadStep::Goes(
                Combinator::App(
                    Arc::new(Combinator::App(a, Arc::new(x))),
                    Arc::new(Combinator::App(b, Arc::new(x))),
                ),
            ),
            (None, Some(b)) => HeadStep::Fails(Combinator::S { f: None, g: Some(b) }),
        },
        Combinator::B { f, g } => match (f, g) {
            (None, None) => HeadStep::Goes(Combinator::B { f: Some(Arc::new(x)), g: None }),
            (Some(a), None) => HeadStep::Goes(
                Combinator::B { f: Some(a), g: Some(Arc::new(x)) },
            ),
            (Some(a), Some(b)) => HeadStep::Goes(
                Combinator::App(a, Arc::new(Combinator::App(b, Arc::new(x)))),
            ),
            (None, Some(b)) => HeadStep::Fails(Combinator::B { f: None, g: Some(b) }),
        },
        Combinator::C { f, g } => match (f, g) {
            (None, None) => HeadStep::Goes(Combinator::C { f: Some(Arc::new(x)), g: None }),
            (Some(a), None) => HeadStep::Goes(
                Combinator::C { f: Some(a), g: Some(Arc::new(x)) },
            ),
            (Some(a), Some(b)) => HeadStep::Goes(
                Combinator::App(Arc::new(Combinator::App(a, Arc::new(x))), b),
            ),
            (None, Some(b)) => HeadStep::Fails(Combinator::C { f: None, g: Some(b) }),
        },
        Combinator::I => HeadStep::Goes(x),
        Combinator::W => HeadStep::Goes(
            Combinator::App(Arc::new(x), Arc::new(x)),
        ),
        Combinator::Fun(k) => HeadStep::Goes(foreign_applied(k, x)),
        _ => HeadStep::Goes(h),
    }
}

/// What a whole reduction yields.
pub enum Reduced {
    /// A normal form was reached.
    Done(Combinator),
    /// An invalid bound-slot configuration stopped the machine.
    Stuck(Combinator),
    /// The fuel ran out first.
    Spent,
}

/// The reduction machine: current expression, pending-argument stack, fuel.
/// One fuel unit pays for one loop iteration of the reducer; observing that
/// the machine is finished also takes one unit, as the reducer checks its
/// bound before looking at the state.
pub open spec fn run(e: Combinator, st: Seq<Arc<Combinator>>, fuel: nat) -> Reduced
    decreases fuel,
{
    if fuel == 0 {
        Reduced::Spent
    } else {
        match e {
            Combinator::App(f, x) => match *f {
                Combinator::App(f2, y) => run(*f2, st.push(x).push(y), (fuel - 1) as nat),
                _ => match apply_head(*f, *x) {
                    HeadStep::Goes(e2) => run(e2, st, (fuel - 1) as nat),
                    HeadStep::Fails(c) => Reduced::Stuck(c),
                },
            },
            _ => if st.len() == 0 {
                Reduced::Done(e)
            } else {
                run(
                    Combinator::App(Arc::new(e), st.last()),
                    st.drop_last(),
                    (fuel - 1) as nat,
                )
            },
        }
    }
}

/// What `eval_with_recursion_limit` returns for a given term and bound: the
/// machine is run with one more fuel unit than the bound, since the bound
/// counts completed iterations and the final look at the state is free only
/// after the bound check passes.
pub open spec fn reduce_result(t: Combinator, bound: nat) -> Result<Combinator, CombinatorError> {
    match run(t, Seq::empty(), bound + 1) {
        Reduced::Done(nf) => Ok(nf),
        Reduced::Stuck(c) => Err(CombinatorError::InvalidCombinator(c)),
        Reduced::Spent => Err(CombinatorError::RecursionLimitReached),
    }
}

/// What one exec step of the machine reported.
enum Stepped {
    Continue(Arc<Combinator>),
    Done(Combinator),
    Stuck(Combinator),
}

/// One iteration of the reduction machine, mirroring one unfolding of [`run`].
fn step_once(cur: &Arc<Combinator>, stack: &mut Vec<Arc<Combinator>>) -> (r: Stepped)
    ensures
        forall|fuel: nat| fuel >= 1 ==> match r {
            Stepped::Continue(e2) => #[trigger] run(**cur, old(stack)@, fuel) == run(
                *e2,
                final(stack)@,
                (fuel - 1) as nat,
            ),
            Stepped::Done(t) => final(stack)@ == old(stack)@ && #[trigger] run(
                **cur,
                old(stack)@,
                fuel,
            ) == Reduced::Done(t),
            Stepped::Stuck(c) => final(stack)@ == old(stack)@ && #[trigger] run(
                **cur,
                old(stack)@,
                fuel,
            ) == Reduced::Stuck(c),
        },
{
    match &**cur {
        Combinator::App(f, x) => {
            match &**f {
                // The function is itself an application: descend the left
                // spine, deferring both arguments onto the pending stack.
                Combinator::App(f2, y) => {
                    stack.push(Arc::clone(x));
                    stack.push(Arc::clone(y));
                    Stepped::Continue(Arc::clone(f2))
                },
                Combinator::K { x: slot } => match slot {
                    Some(a) => Stepped::Continue(Arc::clone(a)),
                    None => Stepped::Continue(
                        Arc::new(Combinator::K { x: Some(Arc::clone(x)) }),
                    ),
                },
                Combinator::S { f: sf, g: sg } => match (sf, sg) {
                    (None, None) => Stepped::Continue(
                        Arc::new(Combinator::S { f: Some(Arc::clone(x)), g: None }),
                    ),
                    (Some(a), None) => Stepped::Continue(
                        Arc::new(Combinator::S { f: Some(Arc::clone(a)), g: Some(Arc::clone(x)) }),
                    ),
                    (Some(a), Some(b)) => Stepped::Continue(
                        Arc::new(Combinator::App(
                            Arc::new(Combinator::App(Arc::clone(a), Arc::clone(x))),
                            Arc::new(Combinator::App(Arc::clone(b), Arc::clone(x))),
                        )),
                    ),
                    (None, Some(b)) => Stepped::Stuck(
                        Combinator::S { f: None, g: Some(Arc::clone(b)) },
                    ),
                },
                Combinator::B { f: bf, g: bg } => match (bf, bg) {
                    (None, None) => Stepped::Continue(
                        Arc::new(Combinator::B { f: Some(Arc::clone(x)), g: None }),
                    ),
                    (Some(a), None) => Stepped::Continue(
                        Arc::new(Combinator::B { f: Some(Arc::clone(a)), g: Some(Arc::clone(x)) }),
                    ),
                    (Some(a), Some(b)) => Stepped::Continue(
                        Arc::new(Combinator::App(
                            Arc::clone(a),
                            Arc::new(Combinator::App(Arc::clone(b), Arc::clone(x))),
                        )),
                    ),
                    (None, Some(b)) => Stepped::Stuck(
                        Combinator::B { f: None, g: Some(Arc::clone(b)) },
                    ),
                },
                Combinator::C { f: cf, g: cg } => match (cf, cg) {
                    (None, None) => Stepped::Continue(
                        Arc::new(Combinator::C { f: Some(Arc::clone(x)), g: None }),
                    ),
                    (Some(a), None) => Stepped::Continue(
                        Arc::new(Combinator::C { f: Some(Arc::clone(a)), g: Some(Arc::clone(x)) }),
                    ),
                    (Some(a), Some(b)) => Stepped::Continue(
                        Arc::new(Combinator::App(
                            Arc::new(Combinator::App(Arc::clone(a), Arc::clone(x))),
                            Arc::clone(b),
                        )),
                    ),
                    (None, Some(b)) => Stepped::Stuck(
                        Combinator::C { f: None, g: Some(Arc::clone(b)) },
                    ),
                },
                Combinator::I => Stepped::Continue(Arc::clone(x)),
                Combinator::W => Stepped::Continue(
                    Arc::new(Combinator::App(Arc::clone(x), Arc::clone(x))),
                ),
                Combinator::Fun(k) => match k {
                    ForeignFn::Inc => match &**x {
                        Combinator::Integer(i) => {
                            let next = if *i == i64::MAX { i64::MIN } else { *i + 1 };
                            Stepped::Continue(Arc::new(Combinator::Integer(next)))
                        },
                        _ => Stepped::Continue(Arc::clone(x)),
                    },
                },
                // No rule matches the head: propagate the head itself.
                Combinator::Integer(i) => Stepped::Continue(
                    Arc::new(Combinator::Integer(*i)),
                ),
            }
        },
        _ => {
            if stack.len() == 0 {
                Stepped::Done((**cur).clone())
            } else {
                let a = stack.pop().unwrap();
                Stepped::Continue(Arc::new(Combinator::App(Arc::clone(cur), a)))
            }
        },
    }
}

/// Reduce `expr` with at most `limit` iterations of the machine.
fn eval_bounded(expr: Combinator, limit: usize) -> (r: Result<Combinator, CombinatorError>)
    ensures
        r == reduce_result(expr, limit as nat),
{
    let ghost t0 = expr;
    let mut cur = Arc::new(expr);
    let mut stack: Vec<Arc<Combinator>> = Vec::new();
    let mut count: usize = 0;
    loop
        invariant
            t0 == expr,
            count <= limit,
            run(t0, Seq::empty(), limit as nat + 1) == run(
                *cur,
                stack@,
                (limit - count + 1) as nat,
            ),
        decreases limit - count,
    {
        let ghost fuel_now = (limit - count + 1) as nat;
        let ghost stack_before = stack@;
        match step_once(&cur, &mut stack) {
            Stepped::Done(t) => {
                proof {
                    assert(run(*cur, stack_before, fuel_now) == Reduced::Done(t));
                }
                return Ok(t);
            },
            Stepped::Stuck(c) => {
                proof {
                    assert(run(*cur, stack_before, fuel_now) == Reduced::Stuck(c));
                }
                return Err(CombinatorError::InvalidCombinator(c));
            },
            Stepped::Continue(e2) => {
                proof {
                    assert(run(*cur, stack_before, fuel_now) == run(
                        *e2,
                        stack@,
                        (fuel_now - 1) as nat,
                    ));
                }
                if count >= limit {
                    proof {
                        assert(fuel_now == 1);
                        assert(run(*e2, stack@, 0) == Reduced::Spent);
                    }
                    return Err(CombinatorError::RecursionLimitReached);
                }
                count = count + 1;
                cur = e2;
            },
        }
    }
}

/// Evaluate a combinator expression: reduce it to a normal form, stopping
/// with `RecursionLimitReached` once the bound is exceeded. When no bound is
/// supplied the machine runs under the largest representable bound, which no
/// feasible computation exhausts.
fn safe_eval(expr: Combinator, recursion_limit: Option<usize>) -> (r: Result<
    Combinator,
    CombinatorError,
>)
    ensures
        recursion_limit matches Some(l) ==> r == reduce_result(expr, l as nat),
        recursion_limit is None ==> r == reduce_result(expr, usize::MAX as nat),
{
    match recursion_limit {
        Some(l) => eval_bounded(expr, l),
        None => eval_bounded(expr, usize::MAX),
    }
}

impl Combinator {
    /// Reduce this term to a normal form without choosing a step bound: the
    /// machine runs under the largest representable bound, which no feasible
    /// computation exhausts, so a diverging term effectively never returns.
    pub fn eval(self) -> (r: Result<Combinator, CombinatorError>)
        ensures
            r == reduce_result(self, usize::MAX as nat),
    {
        self.eval_with_recursion_limit(None)
    }

    /// Reduce this term to a normal form, giving up with
    /// `RecursionLimitReached` after the supplied number of machine
    /// iterations. With a bound the answer is exactly [`reduce_result`].
    pub fn eval_with_recursion_limit(self, recursion_limit: Option<usize>) -> (r: Result<
        Combinator,
        CombinatorError,
    >)
        ensures
            recursion_limit matches Some(l) ==> r == reduce_result(self, l as nat),
            recursion_limit is None ==> r == reduce_result(self, usize::MAX as nat),
    {
        safe_eval(self, recursion_limit)
    }

    /// Probe this term as a church numeral: apply it to the increment
    /// callback and the scalar zero, and reduce under a fixed bound.
    pub fn church_numeral(&self) -> (r: Result<Combinator, CombinatorError>)
        ensures
            r == reduce_result(
                self.applied(Combinator::Fun(ForeignFn::Inc)).applied(Combinator::Integer(0)),
                1000,
            ),
    {
        self.clone().app(Combinator::Fun(ForeignFn::Inc)).app(
            Combinator::Integer(0),
        ).eval_with_recursion_limit(Some(1000))
    }
}

} // verus!
