//! A graph-reduction evaluator for the SKI/BCKW combinator calculus.
//!
//! Terms are immutable values with structural sharing through `Arc`; the
//! reducer is an explicit iterative loop with a caller-supplied step bound,
//! so deeply nested applications never overflow the call stack. A compact
//! postfix integer encoding turns fixed-length "genomes" into terms, and
//! random generation plus point mutation perturb candidate programs for an
//! external evolutionary search loop.

pub mod combinator;
pub mod reduce;
pub mod laws;
pub mod codec;
pub mod random;
pub mod fitness;
pub mod display;
