//! The combinator term data model: the recursive algebraic representation of
//! a combinator expression, with shared ownership of subterms, structural
//! size, structural equality, and point mutation of leaf positions.

use vstd::prelude::*;
use std::sync::Arc;

verus! {

/// A host-level unary function that the reducer may invoke mid-reduction.
/// The set is closed: the one callback the library supplies increments an
/// `Integer` argument by one and passes every other term through unchanged.
#[derive(Clone, Copy, Debug, PartialEq, Eq, Structural)]
pub enum ForeignFn {
    /// Increment an `Integer` term by one; pass any other term through.
    Inc,
}

/// A closed combinator expression.
///
/// `S`, `K`, `B`, `C` carry their already-bound argument slots; filling a
/// slot builds a new value, so partially-applied combinators are immutable
/// and safely shareable. `App` children are shared through `Arc`, never
/// deep-copied.
#[derive(Debug)]
pub enum Combinator {
    /// The S combinator: `S f g x = f x (g x)`.
    S { f: Option<Arc<Combinator>>, g: Option<Arc<Combinator>> },
    /// The K combinator: `K x y = x`.
    K { x: Option<Arc<Combinator>> },
    /// The I combinator: `I x = x`.
    I,
    /// The W combinator: `W x = x x`.
    W,
    /// The B combinator: `B f g x = f (g x)`.
    B { f: Option<Arc<Combinator>>, g: Option<Arc<Combinator>> },
    /// The C combinator: `C f g x = (f x) g`.
    C { f: Option<Arc<Combinator>>, g: Option<Arc<Combinator>> },
    /// Application of the left term to the right term.
    App(Arc<Combinator>, Arc<Combinator>),
    /// An opaque named host function from term to term.
    Fun(ForeignFn),
    /// A literal scalar, produced only by applying a `Fun`.
    Integer(i64),
}

impl Combinator {
    /// The structural size of a term: the number of leaf (non-`App`) nodes.
    pub open spec fn leaves(&self) -> nat
        decreases self,
    {
        match self {
            Combinator::App(f, x) => f.leaves() + x.leaves(),
            _ => 1,
        }
    }

    /// The application of one term to another, as a value.
    pub open spec fn applied(self, other: Self) -> Self {
        Combinator::App(Arc::new(self), Arc::new(other))
    }

    /// The bare S primitive, no slot bound.
    pub open spec fn bare_s() -> Self {
        Combinator::S { f: None, g: None }
    }

    /// The bare K primitive, no slot bound.
    pub open spec fn bare_k() -> Self {
        Combinator::K { x: None }
    }

    /// The bare B primitive, no slot bound.
    pub open spec fn bare_b() -> Self {
        Combinator::B { f: None, g: None }
    }

    /// The bare C primitive, no slot bound.
    pub open spec fn bare_c() -> Self {
        Combinator::C { f: None, g: None }
    }

    /// A term is a bare primitive when it is one of the six combinators with
    /// every bound-argument slot still empty. These are exactly the leaves
    /// the decoder and the random generator produce.
    pub open spec fn is_bare_primitive(self) -> bool {
        ||| self == (Combinator::S { f: None, g: None })
        ||| self == (Combinator::K { x: None })
        ||| self == Combinator::I
        ||| self == Combinator::W
        ||| self == (Combinator::B { f: None, g: None })
        ||| self == (Combinator::C { f: None, g: None })
    }

    /// A term built purely from primitive tokens and applications: every
    /// leaf is a bare primitive.
    pub open spec fn is_pure(self) -> bool
        decreases self,
    {
        match self {
            Combinator::App(f, x) => f.is_pure() && x.is_pure(),
            _ => self.is_bare_primitive(),
        }
    }

    /// A bare primitive is a pure term.
    pub proof fn lemma_bare_primitive_is_pure(&self)
        requires
            self.is_bare_primitive(),
        ensures
            self.is_pure(),
    {
    }

    /// Applying one pure term to another gives a pure term.
    pub proof fn lemma_applied_pure(&self, other: &Combinator)
        requires
            self.is_pure(),
            other.is_pure(),
        ensures
            self.applied(*other).is_pure(),
    {
        assert(self.applied(*other) matches Combinator::App(f, x) && *f == *self && *x
            == *other);
    }

    /// The bare S primitive as a value.
    pub fn s() -> (r: Self)
        ensures
            r == Self::bare_s(),
    {
        Combinator::S { f: None, g: None }
    }

    /// The bare K primitive as a value.
    pub fn k() -> (r: Self)
        ensures
            r == Self::bare_k(),
    {
        Combinator::K { x: None }
    }

    /// The bare I primitive as a value.
    pub fn i() -> (r: Self)
        ensures
            r == Combinator::I,
    {
        Combinator::I
    }

    /// The bare W primitive as a value.
    pub fn w() -> (r: Self)
        ensures
            r == Combinator::W,
    {
        Combinator::W
    }

    /// The bare B primitive as a value.
    pub fn b() -> (r: Self)
        ensures
            r == Self::bare_b(),
    {
        Combinator::B { f: None, g: None }
    }

    /// The bare C primitive as a value.
    pub fn c() -> (r: Self)
        ensures
            r == Self::bare_c(),
    {
        Combinator::C { f: None, g: None }
    }

    /// A named host function as a term.
    pub fn fun(kind: ForeignFn) -> (r: Self)
        ensures
            r == Combinator::Fun(kind),
    {
        Combinator::Fun(kind)
    }

    /// Apply this term to another, building the application node.
    pub fn app(self, other: Self) -> (r: Self)
        ensures
            r == self.applied(other),
    {
        Combinator::App(Arc::new(self), Arc::new(other))
    }

    /// The structural size of the term as a machine integer.
    pub fn len(&self) -> (r: usize)
        requires
            self.leaves() <= usize::MAX,
        ensures
            r == self.leaves(),
        decreases self,
    {
        match self {
            Combinator::App(f, x) => f.len() + x.len(),
            _ => 1,
        }
    }

    /// Structural equality of two terms.
    pub fn equals(&self, other: &Combinator) -> (r: bool)
        ensures
            r == (*self == *other),
        decreases self,
    {
        match (self, other) {
            (Combinator::S { f: f1, g: g1 }, Combinator::S { f: f2, g: g2 }) => {
                slot_equals(f1, f2) && slot_equals(g1, g2)
            },
            (Combinator::K { x: x1 }, Combinator::K { x: x2 }) => slot_equals(x1, x2),
            (Combinator::I, Combinator::I) => true,
            (Combinator::W, Combinator::W) => true,
            (Combinator::B { f: f1, g: g1 }, Combinator::B { f: f2, g: g2 }) => {
                slot_equals(f1, f2) && slot_equals(g1, g2)
            },
            (Combinator::C { f: f1, g: g1 }, Combinator::C { f: f2, g: g2 }) => {
                slot_equals(f1, f2) && slot_equals(g1, g2)
            },
            (Combinator::App(f1, x1), Combinator::App(f2, x2)) => {
                f1.equals(f2) && x1.equals(x2)
            },
            (Combinator::Fun(k1), Combinator::Fun(k2)) => {
                match (k1, k2) {
                    (ForeignFn::Inc, ForeignFn::Inc) => true,
                }
            },
            (Combinator::Integer(a), Combinator::Integer(b)) => a == b,
            _ => false,
        }
    }

    /// The point-mutation of a term: the leaf at position `n` (counting
    /// leaves left to right from zero) replaced by `r`; any position outside
    /// the term leaves it unchanged.
    pub open spec fn replaced(self, n: int, r: Self) -> Self
        decreases self,
    {
        match self {
            Combinator::App(f, x) => Combinator::App(
                Arc::new(f.replaced(n, r)),
                Arc::new(x.replaced(n - f.leaves(), r)),
            ),
            _ => if n == 0 {
                r
            } else {
                self
            },
        }
    }

    /// Replace the `n`-th leaf of the expression with the given combinator.
    /// Afterwards `n` holds how far past the last leaf the index reached:
    /// zero when a leaf was replaced, the index less the term's size
    /// otherwise.
    pub fn replace_combinator(&self, n: &mut usize, combinator: Self) -> (res: Self)
        ensures
            res == self.replaced(*old(n) as int, combinator),
            *old(n) < self.leaves() ==> *final(n) == 0,
            *old(n) >= self.leaves() ==> *final(n) == *old(n) - self.leaves(),
    {
        let (res, rest) = replace_at(self, *n, &combinator);
        match rest {
            None => {
                *n = 0;
            },
            Some(k) => {
                *n = k;
            },
        }
        res
    }
}

/// The recursive worker behind `replace_combinator`: `rest` is `None` once a
/// leaf has been replaced, otherwise the index with this term's leaves
/// consumed.
fn replace_at(t: &Combinator, n: usize, r: &Combinator) -> (res: (Combinator, Option<usize>))
    ensures
        res.0 == t.replaced(n as int, *r),
        n < t.leaves() ==> res.1 is None,
        n >= t.leaves() ==> res.1 == Some((n - t.leaves()) as usize),
    decreases t,
{
    match t {
        Combinator::App(f, x) => {
            let (nf, rest) = replace_at(f, n, r);
            match rest {
                None => {
                    proof {
                        lemma_replaced_out_of_range(x, n - f.leaves(), r);
                    }
                    (Combinator::App(Arc::new(nf), Arc::clone(x)), None)
                },
                Some(k) => {
                    let (nx, rest2) = replace_at(x, k, r);
                    (Combinator::App(Arc::new(nf), Arc::new(nx)), rest2)
                },
            }
        },
        _ => {
            if n == 0 {
                (r.clone(), None)
            } else {
                (t.clone(), Some(n - 1))
            }
        },
    }
}

/// A mutation position that lies outside the term, on either side, leaves
/// the term unchanged.
pub proof fn lemma_replaced_out_of_range(t: &Combinator, n: int, r: &Combinator)
    requires
        n < 0 || n >= t.leaves(),
    ensures
        t.replaced(n, *r) == *t,
    decreases t,
{
    match t {
        Combinator::App(f, x) => {
            lemma_replaced_out_of_range(f, n, r);
            lemma_replaced_out_of_range(x, n - f.leaves(), r);
            assert(t.replaced(n, *r) == Combinator::App(
                Arc::new(f.replaced(n, *r)),
                Arc::new(x.replaced(n - f.leaves(), *r)),
            ));
        },
        _ => {},
    }
}

/// Structural equality of two bound-argument slots.
fn slot_equals(a: &Option<Arc<Combinator>>, b: &Option<Arc<Combinator>>) -> (r: bool)
    ensures
        r == (*a == *b),
    decreases a,
{
    match (a, b) {
        (Some(x), Some(y)) => x.equals(y),
        (None, None) => true,
        _ => false,
    }
}

/// A shallow copy of a bound-argument slot, sharing the held subterm.
fn clone_slot(s: &Option<Arc<Combinator>>) -> (r: Option<Arc<Combinator>>)
    ensures
        r == *s,
{
    match s {
        Some(a) => Some(Arc::clone(a)),
        None => None,
    }
}

impl Clone for Combinator {
    /// A shallow copy: subterms stay shared through their `Arc`s.
    fn clone(&self) -> (r: Self)
        ensures
            r == *self,
    {
        match self {
            Combinator::S { f, g } => Combinator::S { f: clone_slot(f), g: clone_slot(g) },
            Combinator::K { x } => Combinator::K { x: clone_slot(x) },
            Combinator::I => Combinator::I,
            Combinator::W => Combinator::W,
            Combinator::B { f, g } => Combinator::B { f: clone_slot(f), g: clone_slot(g) },
            Combinator::C { f, g } => Combinator::C { f: clone_slot(f), g: clone_slot(g) },
            Combinator::App(f, x) => Combinator::App(Arc::clone(f), Arc::clone(x)),
            Combinator::Fun(k) => Combinator::Fun(*k),
            Combinator::Integer(i) => Combinator::Integer(*i),
        }
    }
}

} // verus!
