use std::sync::Arc;
use graph_reduction_evolution::combinator::{Combinator, ForeignFn};
use graph_reduction_evolution::reduce::CombinatorError;

#[test]
fn primitive_reduces_to_itself() {
    let r = Combinator::k().eval_with_recursion_limit(Some(0)).unwrap();
    assert!(r.equals(&Combinator::k()));
    let r = Combinator::w().eval_with_recursion_limit(Some(50)).unwrap();
    assert!(r.equals(&Combinator::w()));
}

#[test]
fn identity_returns_its_argument() {
    let r = Combinator::i()
        .app(Combinator::k())
        .eval_with_recursion_limit(Some(1))
        .unwrap();
    assert!(r.equals(&Combinator::k()));
}

#[test]
fn k_discards_its_second_argument() {
    let r = Combinator::k()
        .app(Combinator::i())
        .app(Combinator::s())
        .eval_with_recursion_limit(Some(5))
        .unwrap();
    assert!(r.equals(&Combinator::i()));
}

#[test]
fn s_k_k_behaves_as_identity() {
    let r = Combinator::s()
        .app(Combinator::k())
        .app(Combinator::k())
        .app(Combinator::w())
        .eval_with_recursion_limit(Some(20))
        .unwrap();
    assert!(r.equals(&Combinator::w()));
}

#[test]
fn larger_bound_gives_identical_answer() {
    let small = Combinator::s()
        .app(Combinator::k())
        .app(Combinator::k())
        .app(Combinator::i())
        .eval_with_recursion_limit(Some(20))
        .unwrap();
    let large = Combinator::s()
        .app(Combinator::k())
        .app(Combinator::k())
        .app(Combinator::i())
        .eval_with_recursion_limit(Some(100000))
        .unwrap();
    assert!(small.equals(&large));
}

#[test]
fn w_applied_to_i_reduces_to_i() {
    let r = Combinator::w()
        .app(Combinator::i())
        .eval_with_recursion_limit(Some(3))
        .unwrap();
    assert!(r.equals(&Combinator::i()));
}

#[test]
fn b_k_i_s_reduces_to_partially_applied_k() {
    let r = Combinator::b()
        .app(Combinator::k())
        .app(Combinator::i())
        .app(Combinator::s())
        .eval_with_recursion_limit(Some(10))
        .unwrap();
    let expected = Combinator::K {
        x: Some(Arc::new(Combinator::i().app(Combinator::s()))),
    };
    assert!(r.equals(&expected));
    assert_eq!(r.to_text(), "K(I S)");
}

#[test]
fn diverging_term_hits_the_step_bound() {
    let r = Combinator::w()
        .app(Combinator::w())
        .eval_with_recursion_limit(Some(1000));
    assert!(matches!(r, Err(CombinatorError::RecursionLimitReached)));
}

#[test]
fn invalid_saturation_is_reported() {
    let broken = Combinator::S {
        f: None,
        g: Some(Arc::new(Combinator::i())),
    };
    let r = broken.app(Combinator::k()).eval_with_recursion_limit(Some(10));
    assert!(matches!(r, Err(CombinatorError::InvalidCombinator(_))));
}

#[test]
fn integer_head_drops_its_argument() {
    let r = Combinator::Integer(7)
        .app(Combinator::k())
        .eval_with_recursion_limit(Some(5))
        .unwrap();
    assert!(r.equals(&Combinator::Integer(7)));
}

#[test]
fn church_numeral_of_identity_is_one() {
    let r = Combinator::i().church_numeral().unwrap();
    assert!(r.equals(&Combinator::Integer(1)));
}

#[test]
fn church_numeral_of_k_is_the_callback() {
    let r = Combinator::k().church_numeral().unwrap();
    assert!(r.equals(&Combinator::fun(ForeignFn::Inc)));
}

#[test]
fn len_counts_leaf_nodes() {
    let t = Combinator::k().app(Combinator::i()).app(Combinator::s());
    assert_eq!(t.len(), 3);
    assert_eq!(Combinator::w().len(), 1);
    let partial = Combinator::K {
        x: Some(Arc::new(Combinator::i().app(Combinator::s()))),
    };
    assert_eq!(partial.len(), 1);
}

#[test]
fn mutation_replaces_exactly_one_leaf() {
    let t = Combinator::k().app(Combinator::i());
    let mut n: usize = 0;
    let r = t.replace_combinator(&mut n, Combinator::s());
    assert!(r.equals(&Combinator::s().app(Combinator::i())));
    assert_eq!(n, 0);
    let mut n: usize = 1;
    let r = t.replace_combinator(&mut n, Combinator::s());
    assert!(r.equals(&Combinator::k().app(Combinator::s())));
    assert_eq!(n, 0);
}

#[test]
fn mutation_out_of_range_is_identity() {
    let t = Combinator::k().app(Combinator::i());
    let mut n: usize = 5;
    let r = t.replace_combinator(&mut n, Combinator::s());
    assert!(r.equals(&t));
    assert_eq!(n, 3);
}

#[test]
fn random_combinator_is_a_bare_primitive() {
    for _ in 0..100 {
        let c = Combinator::random_combinator();
        let bare = c.equals(&Combinator::s())
            || c.equals(&Combinator::k())
            || c.equals(&Combinator::i())
            || c.equals(&Combinator::w())
            || c.equals(&Combinator::b())
            || c.equals(&Combinator::c());
        assert!(bare);
    }
}

#[test]
fn random_tree_encodes_and_decodes() {
    for _ in 0..10 {
        let t = Combinator::random_tree();
        assert!(t.len() >= 1);
        let repr = t.to_vector_repr();
        assert!(Combinator::from_vector_repr(&repr).is_ok());
    }
}
