//! The linear genome representation: decoding a fixed-alphabet integer
//! sequence into a term with a postfix queue machine, and the reverse
//! postorder token dump.
//!
//! Tokens `1..=6` push the six bare primitives onto a work queue, token `7`
//! combines the two earliest still-pending entries into an application and
//! puts the result at the front, and every other token is skipped, so any
//! integer sequence is a potentially valid genome. Decoding fails only when
//! the whole sequence leaves the queue empty.

use vstd::prelude::*;
use std::sync::Arc;
use crate::combinator::Combinator;
use crate::reduce::CombinatorError;

verus! {

/// The primitive a push token stands for.
pub open spec fn prim_of_token(tok: u8) -> Combinator {
    if tok == 1 {
        Combinator::bare_s()
    } else if tok == 2 {
        Combinator::bare_k()
    } else if tok == 3 {
        Combinator::I
    } else if tok == 4 {
        Combinator::W
    } else if tok == 5 {
        Combinator::bare_b()
    } else {
        Combinator::bare_c()
    }
}

/// One token applied to the decoder's work queue: a primitive is pushed at
/// the back; an apply token combines the two earliest entries, putting the
/// application at the front, and is skipped when fewer than two entries are
/// pending; any other token is skipped.
pub open spec fn decode_step(q: Seq<Combinator>, tok: u8) -> Seq<Combinator> {
    if 1 <= tok && tok <= 6 {
        q.push(prim_of_token(tok))
    } else if tok == 7 {
        if q.len() < 2 {
            q
        } else {
            seq![q[0].applied(q[1])] + q.subrange(2, q.len() as int)
        }
    } else {
        q
    }
}

/// The decoder's work queue after consuming a whole token sequence.
pub open spec fn decode_run(toks: Seq<u8>, q: Seq<Combinator>) -> Seq<Combinator>
    decreases toks.len(),
{
    if toks.len() == 0 {
        q
    } else {
        decode_run(toks.drop_first(), decode_step(q, toks[0]))
    }
}

/// What decoding a token sequence yields: the earliest queue entry, if any
/// entry is left at all.
pub open spec fn decoded(toks: Seq<u8>) -> Option<Combinator> {
    let q = decode_run(toks, Seq::empty());
    if q.len() == 0 {
        None
    } else {
        Some(q[0])
    }
}

/// Consuming one more token runs one more step of the queue machine.
proof fn lemma_decode_run_snoc(toks: Seq<u8>, tok: u8, q: Seq<Combinator>)
    ensures
        decode_run(toks.push(tok), q) == decode_step(decode_run(toks, q), tok),
    decreases toks.len(),
{
    if toks.len() == 0 {
        assert(toks.push(tok)[0] == tok);
        assert(toks.push(tok).drop_first() =~= Seq::<u8>::empty());
        assert(decode_run(toks.push(tok), q) == decode_run(
            Seq::<u8>::empty(),
            decode_step(q, tok),
        ));
        assert(decode_run(toks, q) == q);
    } else {
        assert(toks.push(tok)[0] == toks[0]);
        assert(toks.push(tok).drop_first() =~= toks.drop_first().push(tok));
        lemma_decode_run_snoc(toks.drop_first(), tok, decode_step(q, toks[0]));
        assert(decode_run(toks.push(tok), q) == decode_run(
            toks.drop_first().push(tok),
            decode_step(q, toks[0]),
        ));
        assert(decode_run(toks, q) == decode_run(toks.drop_first(), decode_step(q, toks[0])));
    }
}

/// Decoding a concatenation decodes the first part, then the second from
/// the queue the first part left behind.
proof fn lemma_decode_run_append(a: Seq<u8>, b: Seq<u8>, q: Seq<Combinator>)
    ensures
        decode_run(a + b, q) == decode_run(b, decode_run(a, q)),
    decreases a.len(),
{
    if a.len() == 0 {
        assert(a + b =~= b);
    } else {
        assert((a + b).drop_first() =~= a.drop_first() + b);
        lemma_decode_run_append(a.drop_first(), b, decode_step(q, a[0]));
    }
}

/// The total structural size of every term pending in the work queue.
pub open spec fn queue_leaves(q: Seq<Combinator>) -> nat
    decreases q.len(),
{
    if q.len() == 0 {
        0
    } else {
        q[0].leaves() + queue_leaves(q.drop_first())
    }
}

/// Appending a term to the queue adds its size to the total.
proof fn lemma_queue_leaves_push(q: Seq<Combinator>, c: Combinator)
    ensures
        queue_leaves(q.push(c)) == queue_leaves(q) + c.leaves(),
    decreases q.len(),
{
    if q.len() == 0 {
        assert(q.push(c)[0] == c);
        assert(q.push(c).drop_first() =~= Seq::<Combinator>::empty());
        assert(queue_leaves(q.push(c)) == c.leaves() + queue_leaves(
            Seq::<Combinator>::empty(),
        ));
    } else {
        assert(q.push(c)[0] == q[0]);
        assert(q.push(c).drop_first() =~= q.drop_first().push(c));
        lemma_queue_leaves_push(q.drop_first(), c);
        assert(queue_leaves(q.push(c)) == q[0].leaves() + queue_leaves(q.drop_first().push(c)));
        assert(queue_leaves(q) == q[0].leaves() + queue_leaves(q.drop_first()));
    }
}

/// One decoding step never grows the queue's total size by more than one
/// leaf: a push token adds a single primitive, and an apply token merges
/// two entries without creating or dropping leaves.
proof fn lemma_decode_step_leaves(q: Seq<Combinator>, tok: u8)
    ensures
        queue_leaves(decode_step(q, tok)) <= queue_leaves(q) + 1,
    decreases q.len(),
{
    if 1 <= tok && tok <= 6 {
        lemma_queue_leaves_push(q, prim_of_token(tok));
    } else if tok == 7 && q.len() >= 2 {
        let merged = seq![q[0].applied(q[1])] + q.subrange(2, q.len() as int);
        assert(merged[0] == q[0].applied(q[1]));
        assert(merged.drop_first() =~= q.drop_first().drop_first());
        assert(q.drop_first()[0] == q[1]);
        assert(queue_leaves(q.drop_first()) == q[1].leaves() + queue_leaves(
            q.drop_first().drop_first(),
        ));
        assert(queue_leaves(merged) == q[0].leaves() + q[1].leaves() + queue_leaves(
            q.drop_first().drop_first(),
        ));
    }
}

impl Combinator {
    /// A left-leaning application of bare primitives: the shape of every
    /// term the queue machine can produce, since applications are always
    /// assembled at the front of the queue.
    pub open spec fn is_left_linear(&self) -> bool
        decreases self,
    {
        match self {
            Combinator::App(f, x) => f.is_left_linear() && x.is_bare_primitive(),
            _ => self.is_bare_primitive(),
        }
    }

    /// The push token that stands for this leaf; zero (a skipped token) for
    /// leaves outside the token alphabet.
    pub open spec fn leaf_token(&self) -> u8 {
        match self {
            Combinator::S { .. } => 1,
            Combinator::K { .. } => 2,
            Combinator::I => 3,
            Combinator::W => 4,
            Combinator::B { .. } => 5,
            Combinator::C { .. } => 6,
            _ => 0,
        }
    }

    /// The postorder token dump of a term: each application emits both
    /// children and then an apply token; each leaf emits its push token.
    pub open spec fn encoding(&self) -> Seq<u8>
        decreases self,
    {
        match self {
            Combinator::App(f, x) => f.encoding() + x.encoding() + seq![7u8],
            _ => seq![self.leaf_token()],
        }
    }

    /// Turn an integer sequence into a term with the postfix queue machine.
    /// Fails exactly when the queue ends empty; any further pending entries
    /// beyond the earliest are silently discarded. The term never has more
    /// leaves than the sequence has tokens.
    pub fn from_vector_repr(repr: &Vec<u8>) -> (r: Result<Combinator, CombinatorError>)
        ensures
            r matches Ok(c) ==> decoded(repr@) == Some(c) && c.leaves() <= repr@.len(),
            r matches Err(e) ==> decoded(repr@) is None && (e matches
                CombinatorError::InvalidVectorRepresentation(v) && v@ == repr@),
    {
        let mut q: Vec<Combinator> = Vec::new();
        let mut i: usize = 0;
        while i < repr.len()
            invariant
                i <= repr.len(),
                q@ == decode_run(repr@.subrange(0, i as int), Seq::empty()),
                queue_leaves(q@) <= i,
            decreases repr.len() - i,
        {
            let ghost prefix = repr@.subrange(0, i as int);
            let ghost q_before = q@;
            let tok = repr[i];
            match tok {
                1 => q.push(Combinator::S { f: None, g: None }),
                2 => q.push(Combinator::K { x: None }),
                3 => q.push(Combinator::I),
                4 => q.push(Combinator::W),
                5 => q.push(Combinator::B { f: None, g: None }),
                6 => q.push(Combinator::C { f: None, g: None }),
                7 => {
                    if q.len() >= 2 {
                        let f = q.remove(0);
                        let x = q.remove(0);
                        q.insert(0, f.app(x));
                    }
                },
                _ => {},
            }
            proof {
                assert(q@ =~= decode_step(q_before, tok));
                lemma_decode_run_snoc(prefix, tok, Seq::empty());
                assert(prefix.push(tok) =~= repr@.subrange(0, i + 1));
                lemma_decode_step_leaves(q_before, tok);
            }
            i = i + 1;
        }
        proof {
            assert(repr@.subrange(0, repr@.len() as int) =~= repr@);
        }
        if q.len() == 0 {
            Err(CombinatorError::InvalidVectorRepresentation(repr.clone()))
        } else {
            let first = q.remove(0);
            Ok(first)
        }
    }

    /// The postorder token dump of this term as a vector, ready to decode.
    pub fn to_vector_repr(&self) -> (r: Vec<u8>)
        requires
            self.is_pure(),
        ensures
            r@ == self.encoding(),
    {
        let mut out: Vec<u8> = Vec::new();
        emit_tokens(self, &mut out);
        out
    }
}

/// Append the postorder token dump of `t` to `out`.
fn emit_tokens(t: &Combinator, out: &mut Vec<u8>)
    requires
        t.is_pure(),
    ensures
        final(out)@ == old(out)@ + t.encoding(),
    decreases t,
{
    match t {
        Combinator::App(f, x) => {
            emit_tokens(f, out);
            emit_tokens(x, out);
            out.push(7);
            proof {
                assert(out@ =~= old(out)@ + t.encoding());
            }
        },
        Combinator::S { .. } => {
            out.push(1);
            proof {
                assert(out@ =~= old(out)@ + t.encoding());
            }
        },
        Combinator::K { .. } => {
            out.push(2);
            proof {
                assert(out@ =~= old(out)@ + t.encoding());
            }
        },
        Combinator::I => {
            out.push(3);
            proof {
                assert(out@ =~= old(out)@ + t.encoding());
            }
        },
        Combinator::W => {
            out.push(4);
            proof {
                assert(out@ =~= old(out)@ + t.encoding());
            }
        },
        Combinator::B { .. } => {
            out.push(5);
            proof {
                assert(out@ =~= old(out)@ + t.encoding());
            }
        },
        Combinator::C { .. } => {
            out.push(6);
            proof {
                assert(out@ =~= old(out)@ + t.encoding());
            }
        },
        Combinator::Fun(_) => {
            proof {
                assert(false);
            }
        },
        Combinator::Integer(_) => {
            proof {
                assert(false);
            }
        },
    }
}

/// Decoding the postorder dump of a left-leaning term of bare primitives
/// rebuilds exactly that term, alone on the queue.
proof fn lemma_left_linear_round_trip(t: &Combinator)
    requires
        t.is_left_linear(),
    ensures
        decode_run(t.encoding(), Seq::empty()) == seq![*t],
    decreases t,
{
    match t {
        Combinator::App(f, x) => {
            lemma_left_linear_round_trip(f);
            lemma_decode_run_append(f.encoding(), x.encoding() + seq![7u8], Seq::empty());
            assert(t.encoding() =~= f.encoding() + (x.encoding() + seq![7u8]));
            assert(x.encoding() == seq![x.leaf_token()]);
            assert(1 <= x.leaf_token() && x.leaf_token() <= 6);
            assert(prim_of_token(x.leaf_token()) == **x);
            let two = x.encoding() + seq![7u8];
            assert(two.len() == 2);
            assert(two[0] == x.leaf_token());
            assert(two.drop_first() =~= seq![7u8]);
            assert(decode_step(seq![**f], two[0]) =~= seq![**f, **x]);
            assert(decode_run(two, seq![**f]) == decode_run(
                seq![7u8],
                seq![**f, **x],
            ));
            assert(seq![7u8].drop_first() =~= Seq::<u8>::empty());
            assert(seq![7u8][0] == 7u8);
            assert((seq![**f, **x])[0] == **f);
            assert((seq![**f, **x])[1] == **x);
            assert((seq![**f, **x]).subrange(2, 2) =~= Seq::<Combinator>::empty());
            assert(decode_step(seq![**f, **x], 7u8) =~= seq![*t]);
            assert(decode_run(seq![7u8], seq![**f, **x]) == decode_run(
                Seq::<u8>::empty(),
                decode_step(seq![**f, **x], 7u8),
            ));
            assert(decode_run(seq![7u8], seq![**f, **x]) == seq![*t]);
            assert(decode_run(t.encoding(), Seq::empty()) == decode_run(two, seq![**f]));
        },
        _ => {
            assert(t.encoding() == seq![t.leaf_token()]);
            assert(1 <= t.leaf_token() && t.leaf_token() <= 6);
            assert(prim_of_token(t.leaf_token()) == *t);
            assert(seq![t.leaf_token()][0] == t.leaf_token());
            assert(seq![t.leaf_token()].drop_first() =~= Seq::<u8>::empty());
            assert(decode_step(Seq::empty(), t.leaf_token()) =~= seq![*t]);
            assert(decode_run(seq![t.leaf_token()], Seq::empty()) == decode_run(
                Seq::<u8>::empty(),
                decode_step(Seq::empty(), t.leaf_token()),
            ));
        },
    }
}

/// Round trip: decoding the postorder token dump of any left-leaning term
/// of bare primitives returns that very term, so in particular a term with
/// the same normal form under every bound.
pub proof fn lemma_decode_inverts_encode(t: &Combinator)
    requires
        t.is_left_linear(),
    ensures
        decoded(t.encoding()) == Some(*t),
{
    lemma_left_linear_round_trip(t);
}

} // verus!
