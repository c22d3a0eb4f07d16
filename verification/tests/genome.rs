use std::sync::Arc;
use graph_reduction_evolution::combinator::Combinator;
use graph_reduction_evolution::reduce::CombinatorError;
use graph_reduction_evolution::fitness::{fitness_of, LOWEST_POSSIBLE_FITNESS};

#[test]
fn decoding_k_i_apply_yields_their_application() {
    let t = Combinator::from_vector_repr(&vec![2, 3, 7]).unwrap();
    assert!(t.equals(&Combinator::k().app(Combinator::i())));
}

#[test]
fn decoded_k_i_applied_further_reduces_to_i() {
    let t = Combinator::from_vector_repr(&vec![2, 3, 7]).unwrap();
    let r = t.app(Combinator::s()).eval_with_recursion_limit(Some(10)).unwrap();
    assert!(r.equals(&Combinator::i()));
}

#[test]
fn unknown_tokens_are_skipped() {
    let t = Combinator::from_vector_repr(&vec![9, 2, 0, 3, 7, 42]).unwrap();
    assert!(t.equals(&Combinator::k().app(Combinator::i())));
}

#[test]
fn apply_token_without_operands_is_skipped() {
    let t = Combinator::from_vector_repr(&vec![7, 3]).unwrap();
    assert!(t.equals(&Combinator::i()));
}

#[test]
fn empty_sequence_fails_to_decode() {
    let r = Combinator::from_vector_repr(&vec![]);
    match r {
        Err(CombinatorError::InvalidVectorRepresentation(v)) => assert!(v.is_empty()),
        _ => panic!("expected an invalid representation error"),
    }
}

#[test]
fn all_skipped_tokens_fail_to_decode() {
    let r = Combinator::from_vector_repr(&vec![0, 9, 8]);
    match r {
        Err(CombinatorError::InvalidVectorRepresentation(v)) => assert_eq!(v, vec![0, 9, 8]),
        _ => panic!("expected an invalid representation error"),
    }
}

#[test]
fn extra_pending_entries_are_discarded() {
    let t = Combinator::from_vector_repr(&vec![2, 3]).unwrap();
    assert!(t.equals(&Combinator::k()));
}

#[test]
fn left_linear_term_round_trips() {
    let t = Combinator::k().app(Combinator::i()).app(Combinator::s());
    let repr = t.to_vector_repr();
    assert_eq!(repr, vec![2, 3, 7, 1, 7]);
    let back = Combinator::from_vector_repr(&repr).unwrap();
    assert!(back.equals(&t));
}

#[test]
fn round_tripped_term_keeps_its_normal_form() {
    let t = Combinator::s()
        .app(Combinator::k())
        .app(Combinator::k())
        .app(Combinator::w());
    let back = Combinator::from_vector_repr(&t.to_vector_repr()).unwrap();
    let nf_src = t.eval_with_recursion_limit(Some(100)).unwrap();
    let nf_back = back.eval_with_recursion_limit(Some(100)).unwrap();
    assert!(nf_src.equals(&nf_back));
}

#[test]
fn fitness_rewards_a_compact_normal_form() {
    // K I apply: the source has two leaves, the normal form one, so the
    // score is one hundred less twenty.
    assert_eq!(fitness_of(&vec![2, 3, 7]), 80);
}

#[test]
fn fitness_of_an_undecodable_genome_is_the_floor() {
    assert_eq!(fitness_of(&vec![]), LOWEST_POSSIBLE_FITNESS);
    assert_eq!(fitness_of(&vec![0, 9, 8]), LOWEST_POSSIBLE_FITNESS);
}

#[test]
fn fitness_of_a_diverging_genome_is_the_floor() {
    // W W applied to itself never reaches a normal form.
    assert_eq!(fitness_of(&vec![4, 4, 7]), LOWEST_POSSIBLE_FITNESS);
}

#[test]
fn terms_render_as_text() {
    assert_eq!(Combinator::k().to_text(), "K");
    assert_eq!(Combinator::k().app(Combinator::i()).to_text(), "K I");
    let partial = Combinator::K { x: Some(Arc::new(Combinator::i())) };
    assert_eq!(partial.to_text(), "K(I)");
    let left = Combinator::k().app(Combinator::i()).app(Combinator::s());
    assert_eq!(left.to_text(), "(K I) S");
    let right = Combinator::k().app(Combinator::i().app(Combinator::s()));
    assert_eq!(right.to_text(), "K (I S)");
}

#[test]
fn integers_render_as_decimals() {
    assert_eq!(Combinator::Integer(0).to_text(), "0");
    assert_eq!(Combinator::Integer(105).to_text(), "105");
    assert_eq!(Combinator::Integer(-12).to_text(), "-12");
    assert_eq!(Combinator::Integer(i64::MIN).to_text(), "-9223372036854775808");
}

#[test]
fn errors_render_as_text() {
    assert_eq!(
        CombinatorError::RecursionLimitReached.to_text(),
        "Recursion limit reached"
    );
    assert_eq!(
        CombinatorError::InvalidVectorRepresentation(vec![1, 2, 3]).to_text(),
        "Invalid vector representation: [1, 2, 3]"
    );
    assert_eq!(
        CombinatorError::InvalidCombinator(Combinator::w()).to_text(),
        "Invalid combinator: W"
    );
    assert_eq!(
        CombinatorError::InvalidApplication(Combinator::k(), Combinator::i()).to_text(),
        "Invalid application: K I"
    );
}
