//! The fitness hook consumed by an external search loop: decode a genome,
//! reduce it under a fixed step budget, and score the outcome by how much
//! larger the normal form is than the source term, clamped to a fixed
//! floor/ceiling range. A genome that fails to decode or to reach a normal
//! form scores the floor.

use vstd::prelude::*;
use crate::combinator::Combinator;
use crate::codec::decoded;
use crate::reduce::reduce_result;

verus! {

/// The ceiling of the fitness range.
pub const HIGHEST_POSSIBLE_FITNESS: i64 = 1000000000;

/// The floor of the fitness range; every failure maps here.
pub const LOWEST_POSSIBLE_FITNESS: i64 = -1000000000;

/// The step budget each candidate reduction gets.
pub const FITNESS_STEP_BOUND: usize = 10000;

/// A raw score clamped into the fitness range.
pub open spec fn clamped(v: int) -> int {
    if v < LOWEST_POSSIBLE_FITNESS as int {
        LOWEST_POSSIBLE_FITNESS as int
    } else if v > HIGHEST_POSSIBLE_FITNESS as int {
        HIGHEST_POSSIBLE_FITNESS as int
    } else {
        v
    }
}

/// The fitness of a genome: a hundred points per leaf of the normal form,
/// less ten per leaf of the source term, clamped; the floor on any failure.
pub open spec fn fitness_spec(genome: Seq<u8>) -> int {
    match decoded(genome) {
        Some(c) => match reduce_result(c, FITNESS_STEP_BOUND as nat) {
            Ok(nf) => clamped(100 * nf.leaves() - 10 * c.leaves()),
            Err(_) => LOWEST_POSSIBLE_FITNESS as int,
        },
        None => LOWEST_POSSIBLE_FITNESS as int,
    }
}

impl Combinator {
    /// The structural size of the term, counted no further than `cap`.
    fn len_capped(&self, cap: u64) -> (r: u64)
        ensures
            r as nat == if self.leaves() <= cap as nat {
                self.leaves()
            } else {
                cap as nat
            },
        decreases self,
    {
        match self {
            Combinator::App(f, x) => {
                let a = f.len_capped(cap);
                if a == cap {
                    cap
                } else {
                    let b = x.len_capped(cap - a);
                    a + b
                }
            },
            _ => if cap == 0 {
                0
            } else {
                1
            },
        }
    }
}

/// Score one genome for the search loop: decode it, reduce it under the
/// step budget, and reward a normal form that is large relative to the
/// source term.
pub fn fitness_of(genome: &Vec<u8>) -> (r: i64)
    ensures
        r as int == fitness_spec(genome@),
{
    let genome_len = genome.len();
    match Combinator::from_vector_repr(genome) {
        Err(_) => LOWEST_POSSIBLE_FITNESS,
        Ok(c) => {
            match c.clone().eval_with_recursion_limit(Some(FITNESS_STEP_BOUND)) {
                Err(_) => LOWEST_POSSIBLE_FITNESS,
                Ok(nf) => {
                    // The source term has no more leaves than the genome has
                    // tokens, so its exact size fits; the normal form may
                    // have grown past any machine integer, but every size at
                    // the cap or above already scores the ceiling.
                    proof {
                        assert(c.leaves() <= genome_len);
                    }
                    let source_len = c.len();
                    let normal_len = nf.len_capped(u64::MAX);
                    let raw: i128 = 100 * (normal_len as i128) - 10 * (source_len as i128);
                    if raw < LOWEST_POSSIBLE_FITNESS as i128 {
                        LOWEST_POSSIBLE_FITNESS
                    } else if raw > HIGHEST_POSSIBLE_FITNESS as i128 {
                        HIGHEST_POSSIBLE_FITNESS
                    } else {
                        raw as i64
                    }
                },
            }
        },
    }
}

} // verus!
