//! Properties of the reducer, stated and proved against the machine model.

use vstd::prelude::*;
use std::sync::Arc;
use crate::combinator::Combinator;
use crate::reduce::{run, reduce_result, apply_head, HeadStep, Reduced, CombinatorError};

verus! {

/// Giving the machine more fuel never changes an answer it already reached,
/// from any state.
proof fn lemma_run_monotonic(f1: nat, f2: nat)
    requires
        f1 <= f2,
    ensures
        forall|e: Combinator, st: Seq<Arc<Combinator>>|
            !(#[trigger] run(e, st, f1) is Spent) ==> run(e, st, f2) == run(e, st, f1),
    decreases f1,
{
    if f1 == 0 {
    } else if f1 == f2 {
    } else {
        lemma_run_monotonic((f1 - 1) as nat, (f2 - 1) as nat);
        assert forall|e: Combinator, st: Seq<Arc<Combinator>>|
            !(#[trigger] run(e, st, f1) is Spent) implies run(e, st, f2) == run(e, st, f1) by {
            match &e {
                Combinator::App(f, x) => {
                    match &**f {
                        Combinator::App(f2_, y) => {
                            assert(run(e, st, f1) == run(
                                **f2_,
                                st.push(*x).push(*y),
                                (f1 - 1) as nat,
                            ));
                            assert(run(e, st, f2) == run(
                                **f2_,
                                st.push(*x).push(*y),
                                (f2 - 1) as nat,
                            ));
                        },
                        _ => {
                            match apply_head(**f, **x) {
                                HeadStep::Goes(e2) => {
                                    assert(run(e, st, f1) == run(e2, st, (f1 - 1) as nat));
                                    assert(run(e, st, f2) == run(e2, st, (f2 - 1) as nat));
                                },
                                HeadStep::Fails(_) => {},
                            }
                        },
                    }
                },
                _ => {
                    if st.len() > 0 {
                        assert(run(e, st, f1) == run(
                            Combinator::App(Arc::new(e), st.last()),
                            st.drop_last(),
                            (f1 - 1) as nat,
                        ));
                        assert(run(e, st, f2) == run(
                            Combinator::App(Arc::new(e), st.last()),
                            st.drop_last(),
                            (f2 - 1) as nat,
                        ));
                    }
                },
            }
        }
    }
}

/// Step-bound monotonicity: if reduction of `t` succeeds under the bound
/// `b1`, reduction under any bound `b2 >= b1` returns the identical normal
/// form. The bound only decides whether divergence is caught; it never
/// changes the answer of a reduction that converges.
pub proof fn lemma_step_bound_monotonic(t: Combinator, b1: nat, b2: nat)
    requires
        b1 <= b2,
        reduce_result(t, b1) matches Ok(_),
    ensures
        reduce_result(t, b2) == reduce_result(t, b1),
{
    lemma_run_monotonic(b1 + 1, b2 + 1);
}

/// A term with no application node is already a normal form: reducing it
/// under any bound returns the term itself.
pub proof fn lemma_normal_form_is_fixed(t: Combinator, b: nat)
    requires
        !(t matches Combinator::App(_, _)),
    ensures
        reduce_result(t, b) == Ok::<Combinator, CombinatorError>(t),
{
}

/// Applying `I` costs one machine iteration and hands the argument on:
/// under a bound of at least one, reducing `I a` is reducing `a` with the
/// rest of the bound. In particular `I` applied to a normal form returns
/// that normal form unchanged.
pub proof fn lemma_i_is_identity(a: Combinator, b: nat)
    requires
        b >= 1,
    ensures
        reduce_result(Combinator::I.applied(a), b) == reduce_result(a, (b - 1) as nat),
        !(a matches Combinator::App(_, _)) ==> reduce_result(Combinator::I.applied(a), b)
            == Ok::<Combinator, CombinatorError>(a),
{
    assert(run(Combinator::I.applied(a), Seq::empty(), b + 1) == run(
        a,
        Seq::empty(),
        b as nat,
    ));
}

/// Discarding by `K` costs five machine iterations: under a bound of at
/// least five, reducing `K a b` is reducing `a` with the rest of the bound;
/// the second argument is dropped. In particular `K` applied to a normal
/// form and anything returns that normal form.
pub proof fn lemma_k_discards(a: Combinator, b: Combinator, bound: nat)
    requires
        bound >= 5,
    ensures
        reduce_result(Combinator::bare_k().applied(a).applied(b), bound) == reduce_result(
            a,
            (bound - 5) as nat,
        ),
        !(a matches Combinator::App(_, _)) ==> reduce_result(
            Combinator::bare_k().applied(a).applied(b),
            bound,
        ) == Ok::<Combinator, CombinatorError>(a),
{
    let s0: Seq<Arc<Combinator>> = Seq::empty();
    let s2 = s0.push(Arc::new(b));
    let s1 = s2.push(Arc::new(a));
    assert(run(Combinator::bare_k().applied(a).applied(b), s0, bound + 1) == run(
        Combinator::bare_k(),
        s1,
        bound,
    ));
    assert(s1.drop_last() =~= s2);
    assert(run(Combinator::bare_k(), s1, bound) == run(
        Combinator::bare_k().applied(a),
        s2,
        (bound - 1) as nat,
    ));
    assert(run(Combinator::bare_k().applied(a), s2, (bound - 1) as nat) == run(
        Combinator::K { x: Some(Arc::new(a)) },
        s2,
        (bound - 2) as nat,
    ));
    assert(s2.drop_last() =~= s0);
    assert(run(Combinator::K { x: Some(Arc::new(a)) }, s2, (bound - 2) as nat) == run(
        (Combinator::K { x: Some(Arc::new(a)) }).applied(b),
        s0,
        (bound - 3) as nat,
    ));
    assert(run((Combinator::K { x: Some(Arc::new(a)) }).applied(b), s0, (bound - 3) as nat)
        == run(a, s0, (bound - 4) as nat));
}

/// `S K K` is the identity: under a bound of at least eleven, reducing
/// `S K K x` is reducing `x` with the rest of the bound, since the machine
/// spends eleven iterations rewriting `S K K x` down to `x`.
pub proof fn lemma_skk_is_identity(x: Combinator, bound: nat)
    requires
        bound >= 11,
    ensures
        reduce_result(
            Combinator::bare_s().applied(Combinator::bare_k()).applied(
                Combinator::bare_k(),
            ).applied(x),
            bound,
        ) == reduce_result(x, (bound - 11) as nat),
{
    let s0: Seq<Arc<Combinator>> = Seq::empty();
    let s2 = s0.push(Arc::new(x));
    let s1 = s2.push(Arc::new(Combinator::bare_k()));
    // Descend the spine of `((S K) K) x`, deferring `x` and the second `K`.
    assert(run(
        Combinator::bare_s().applied(Combinator::bare_k()).applied(
            Combinator::bare_k(),
        ).applied(x),
        s0,
        bound + 1,
    ) == run(Combinator::bare_s().applied(Combinator::bare_k()), s1, bound));
    // `S K` binds the first slot.
    assert(run(Combinator::bare_s().applied(Combinator::bare_k()), s1, bound) == run(
        Combinator::S { f: Some(Arc::new(Combinator::bare_k())), g: None },
        s1,
        (bound - 1) as nat,
    ));
    // Re-apply the deferred second `K`, which binds the second slot.
    assert(s1.drop_last() =~= s2);
    assert(run(
        Combinator::S { f: Some(Arc::new(Combinator::bare_k())), g: None },
        s1,
        (bound - 1) as nat,
    ) == run(
        (Combinator::S { f: Some(Arc::new(Combinator::bare_k())), g: None }).applied(
            Combinator::bare_k(),
        ),
        s2,
        (bound - 2) as nat,
    ));
    assert(run(
        (Combinator::S { f: Some(Arc::new(Combinator::bare_k())), g: None }).applied(
            Combinator::bare_k(),
        ),
        s2,
        (bound - 2) as nat,
    ) == run(
        Combinator::S {
            f: Some(Arc::new(Combinator::bare_k())),
            g: Some(Arc::new(Combinator::bare_k())),
        },
        s2,
        (bound - 3) as nat,
    ));
    // Re-apply the deferred `x`, saturating `S`, which then fires.
    assert(s2.drop_last() =~= s0);
    assert(run(
        Combinator::S {
            f: Some(Arc::new(Combinator::bare_k())),
            g: Some(Arc::new(Combinator::bare_k())),
        },
        s2,
        (bound - 3) as nat,
    ) == run(
        (Combinator::S {
            f: Some(Arc::new(Combinator::bare_k())),
            g: Some(Arc::new(Combinator::bare_k())),
        }).applied(x),
        s0,
        (bound - 4) as nat,
    ));
    assert(run(
        (Combinator::S {
            f: Some(Arc::new(Combinator::bare_k())),
            g: Some(Arc::new(Combinator::bare_k())),
        }).applied(x),
        s0,
        (bound - 4) as nat,
    ) == run(
        (Combinator::bare_k().applied(x)).applied(Combinator::bare_k().applied(x)),
        s0,
        (bound - 5) as nat,
    ));
    // What is left is `K x (K x)`, which discards its second argument.
    lemma_k_discards(x, Combinator::bare_k().applied(x), (bound - 6) as nat);
}


} // verus!
