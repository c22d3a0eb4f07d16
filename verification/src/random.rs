//! Random term generation: a weighted draw over the six primitives and a
//! random nested-application tree, for seeding and perturbing candidate
//! programs.

use vstd::prelude::*;
use rand::Rng;
use crate::combinator::Combinator;

verus! {

/// How many growth iterations a single random tree may take before the
/// pending partial expressions are folded together; far beyond what the
/// random walk reaches in practice.
pub const RANDOM_TREE_ITERATION_CAP: u64 = 1000000;

/// Relies on rand::thread_rng and rand::Rng::gen_range: a sample from the
/// thread-local generator, uniform over the inclusive range. gen_range
/// panics only on an empty range, which the precondition rules out; nothing
/// is assumed about which value comes back beyond its bounds.
#[verifier::external_body]
fn draw_inclusive(lo: u64, hi: u64) -> (r: u64)
    requires
        lo <= hi,
    ensures
        lo <= r <= hi,
{
    rand::thread_rng().gen_range(lo..=hi)
}

/// The primitive each value of the weight table stands for: the table gives
/// `B` the draws up to ten, then `K`, `I`, `W`, `S` ten draws each, and `C`
/// the rest.
pub open spec fn drawn_combinator(n: u64) -> Combinator {
    if n <= 10 {
        Combinator::bare_b()
    } else if n <= 20 {
        Combinator::bare_k()
    } else if n <= 30 {
        Combinator::I
    } else if n <= 40 {
        Combinator::W
    } else if n <= 50 {
        Combinator::bare_s()
    } else {
        Combinator::bare_c()
    }
}

/// Map a draw from the weight table to its primitive.
pub fn combinator_from_draw(n: u64) -> (r: Combinator)
    ensures
        r == drawn_combinator(n),
{
    if n <= 10 {
        Combinator::B { f: None, g: None }
    } else if n <= 20 {
        Combinator::K { x: None }
    } else if n <= 30 {
        Combinator::I
    } else if n <= 40 {
        Combinator::W
    } else if n <= 50 {
        Combinator::S { f: None, g: None }
    } else {
        Combinator::C { f: None, g: None }
    }
}

impl Combinator {
    /// Generate a random bare primitive, weighted by the draw table.
    pub fn random_combinator() -> (r: Self)
        ensures
            r.is_bare_primitive(),
    {
        combinator_from_draw(draw_inclusive(0, 60))
    }

    /// Generate a random combinator expression: a random walk that either
    /// extends the current expression with a fresh primitive or stacks it
    /// and starts a new one, re-joining pending expressions as it goes,
    /// for a randomly drawn number of rounds. Every leaf of the result is a
    /// bare primitive.
    pub fn random_tree() -> (r: Self)
        ensures
            r.is_pure(),
    {
        let mut stack: Vec<Combinator> = Vec::new();
        let mut expr = Combinator::random_combinator();
        proof {
            expr.lemma_bare_primitive_is_pure();
        }
        let mut count = draw_inclusive(1, 10);
        let mut fuel: u64 = RANDOM_TREE_ITERATION_CAP;
        let mut done = false;
        while !done && fuel > 0
            invariant
                expr.is_pure(),
                forall|j: int| 0 <= j < stack@.len() ==> (#[trigger] stack@[j]).is_pure(),
            decreases fuel,
        {
            fuel = fuel - 1;
            // Three in ten: extend the expression in place; otherwise set it
            // aside and start fresh.
            if draw_inclusive(0, 9) <= 2 {
                let prim = Combinator::random_combinator();
                proof {
                    prim.lemma_bare_primitive_is_pure();
                    expr.lemma_applied_pure(&prim);
                }
                expr = expr.app(prim);
            } else {
                stack.push(expr);
                expr = Combinator::random_combinator();
                proof {
                    expr.lemma_bare_primitive_is_pure();
                }
            }
            if stack.len() == 0 {
                if count == 0 {
                    done = true;
                } else {
                    if draw_inclusive(0, 9) <= 2 {
                        let prim = Combinator::random_combinator();
                        proof {
                            prim.lemma_bare_primitive_is_pure();
                        }
                        stack.push(prim);
                    } else {
                        stack.push(expr);
                        let prim = Combinator::random_combinator();
                        proof {
                            prim.lemma_bare_primitive_is_pure();
                        }
                        stack.push(prim);
                        expr = Combinator::random_combinator();
                        proof {
                            expr.lemma_bare_primitive_is_pure();
                        }
                    }
                    count = count - 1;
                    proof {
                        assert(stack@[stack@.len() - 1].is_pure());
                    }
                    let top = stack.pop().unwrap();
                    proof {
                        top.lemma_applied_pure(&expr);
                    }
                    expr = top.app(expr);
                }
            } else {
                proof {
                    assert(stack@[stack@.len() - 1].is_pure());
                }
                let top = stack.pop().unwrap();
                proof {
                    top.lemma_applied_pure(&expr);
                }
                expr = top.app(expr);
            }
        }
        // Fold any still-pending partial expressions into the result.
        while stack.len() > 0
            invariant
                expr.is_pure(),
                forall|j: int| 0 <= j < stack@.len() ==> (#[trigger] stack@[j]).is_pure(),
            decreases stack@.len(),
        {
            proof {
                assert(stack@[stack@.len() - 1].is_pure());
            }
            let top = stack.pop().unwrap();
            proof {
                top.lemma_applied_pure(&expr);
            }
            expr = top.app(expr);
        }
        expr
    }
}

} // verus!
