//! Rendering terms as text: partially applied combinators show their bound
//! slots in parentheses, applications are spaced, and the side of an
//! application that is itself an application is parenthesised.

use vstd::prelude::*;
use vstd::string::StringExecFns;
use crate::combinator::{Combinator, ForeignFn};
use crate::reduce::CombinatorError;

verus! {

/// The decimal digits of a number, most significant first.
pub open spec fn decimal_digits(n: nat) -> Seq<char>
    decreases n,
{
    if n < 10 {
        seq![digit_char(n)]
    } else {
        decimal_digits(n / 10) + seq![digit_char(n % 10)]
    }
}

/// The character of one decimal digit.
pub open spec fn digit_char(d: nat) -> char {
    if d == 0 {
        '0'
    } else if d == 1 {
        '1'
    } else if d == 2 {
        '2'
    } else if d == 3 {
        '3'
    } else if d == 4 {
        '4'
    } else if d == 5 {
        '5'
    } else if d == 6 {
        '6'
    } else if d == 7 {
        '7'
    } else if d == 8 {
        '8'
    } else {
        '9'
    }
}

/// The text of a scalar: a minus sign for a negative value, then the
/// decimal digits of its magnitude.
pub open spec fn integer_text(i: i64) -> Seq<char> {
    if i < 0 {
        "-"@ + decimal_digits((-(i as int)) as nat)
    } else {
        decimal_digits(i as nat)
    }
}

impl Combinator {
    /// The text of a bound-argument slot: the held term in parentheses, or
    /// nothing for an empty slot.
    pub open spec fn slot_text(slot: Option<std::sync::Arc<Combinator>>) -> Seq<char>
        decreases slot,
    {
        match slot {
            Some(a) => "("@ + a.rendered() + ")"@,
            None => Seq::empty(),
        }
    }

    /// The text of a term.
    pub open spec fn rendered(&self) -> Seq<char>
        decreases self,
    {
        match self {
            Combinator::App(f, x) => match &**f {
                Combinator::App(g, y) => "("@ + g.rendered() + " "@ + y.rendered() + ") "@
                    + x.rendered(),
                _ => match &**x {
                    Combinator::App(g, y) => f.rendered() + " ("@ + g.rendered() + " "@
                        + y.rendered() + ")"@,
                    _ => f.rendered() + " "@ + x.rendered(),
                },
            },
            Combinator::K { x } => "K"@ + Self::slot_text(*x),
            Combinator::S { f, g } => "S"@ + Self::slot_text(*f) + Self::slot_text(*g),
            Combinator::B { f, g } => "B"@ + Self::slot_text(*f) + Self::slot_text(*g),
            Combinator::C { f, g } => "C"@ + Self::slot_text(*f) + Self::slot_text(*g),
            Combinator::I => "I"@,
            Combinator::W => "W"@,
            Combinator::Fun(ForeignFn::Inc) => "inc"@,
            Combinator::Integer(i) => integer_text(*i),
        }
    }

    /// Render the term as text.
    pub fn to_text(&self) -> (r: String)
        ensures
            r@ == self.rendered(),
    {
        let mut out = String::new();
        render_into(self, &mut out);
        out
    }
}

/// One decimal digit as text.
fn digit_str(d: u64) -> (r: &'static str)
    requires
        d < 10,
    ensures
        r@ == seq![digit_char(d as nat)],
{
    if d == 0 {
        proof {
            reveal_strlit("0");
            assert("0"@ =~= seq![digit_char(0)]);
        }
        "0"
    } else if d == 1 {
        proof {
            reveal_strlit("1");
            assert("1"@ =~= seq![digit_char(1)]);
        }
        "1"
    } else if d == 2 {
        proof {
            reveal_strlit("2");
            assert("2"@ =~= seq![digit_char(2)]);
        }
        "2"
    } else if d == 3 {
        proof {
            reveal_strlit("3");
            assert("3"@ =~= seq![digit_char(3)]);
        }
        "3"
    } else if d == 4 {
        proof {
            reveal_strlit("4");
            assert("4"@ =~= seq![digit_char(4)]);
        }
        "4"
    } else if d == 5 {
        proof {
            reveal_strlit("5");
            assert("5"@ =~= seq![digit_char(5)]);
        }
        "5"
    } else if d == 6 {
        proof {
            reveal_strlit("6");
            assert("6"@ =~= seq![digit_char(6)]);
        }
        "6"
    } else if d == 7 {
        proof {
            reveal_strlit("7");
            assert("7"@ =~= seq![digit_char(7)]);
        }
        "7"
    } else if d == 8 {
        proof {
            reveal_strlit("8");
            assert("8"@ =~= seq![digit_char(8)]);
        }
        "8"
    } else {
        proof {
            reveal_strlit("9");
            assert("9"@ =~= seq![digit_char(9)]);
        }
        "9"
    }
}

/// Append the decimal digits of `n` to `out`.
fn render_decimal(n: u64, out: &mut String)
    ensures
        final(out)@ == old(out)@ + decimal_digits(n as nat),
    decreases n,
{
    if n < 10 {
        out.append(digit_str(n));
    } else {
        render_decimal(n / 10, out);
        out.append(digit_str(n % 10));
        proof {
            assert(out@ =~= old(out)@ + decimal_digits(n as nat));
        }
    }
}

/// Append the text of a bound-argument slot to `out`.
fn render_slot(slot: &Option<std::sync::Arc<Combinator>>, out: &mut String)
    ensures
        final(out)@ == old(out)@ + Combinator::slot_text(*slot),
    decreases slot,
{
    match slot {
        Some(a) => {
            out.append("(");
            render_into(a, out);
            out.append(")");
            proof {
                assert(out@ =~= old(out)@ + Combinator::slot_text(*slot));
            }
        },
        None => {
            proof {
                assert(out@ =~= old(out)@ + Combinator::slot_text(*slot));
            }
        },
    }
}

/// Append the text of a term to `out`.
fn render_into(t: &Combinator, out: &mut String)
    ensures
        final(out)@ == old(out)@ + t.rendered(),
    decreases t,
{
    match t {
        Combinator::App(f, x) => {
            match (&**f, &**x) {
                (Combinator::App(g, y), _) => {
                    out.append("(");
                    render_into(g, out);
                    out.append(" ");
                    render_into(y, out);
                    out.append(") ");
                    render_into(x, out);
                    proof {
                        assert(out@ =~= old(out)@ + t.rendered());
                    }
                },
                (_, Combinator::App(g, y)) => {
                    render_into(f, out);
                    out.append(" (");
                    render_into(g, out);
                    out.append(" ");
                    render_into(y, out);
                    out.append(")");
                    proof {
                        assert(out@ =~= old(out)@ + t.rendered());
                    }
                },
                (_, _) => {
                    render_into(f, out);
                    out.append(" ");
                    render_into(x, out);
                    proof {
                        assert(out@ =~= old(out)@ + t.rendered());
                    }
                },
            }
        },
        Combinator::K { x } => {
            out.append("K");
            render_slot(x, out);
            proof {
                assert(out@ =~= old(out)@ + t.rendered());
            }
        },
        Combinator::S { f, g } => {
            out.append("S");
            render_slot(f, out);
            render_slot(g, out);
            proof {
                assert(out@ =~= old(out)@ + t.rendered());
            }
        },
        Combinator::B { f, g } => {
            out.append("B");
            render_slot(f, out);
            render_slot(g, out);
            proof {
                assert(out@ =~= old(out)@ + t.rendered());
            }
        },
        Combinator::C { f, g } => {
            out.append("C");
            render_slot(f, out);
            render_slot(g, out);
            proof {
                assert(out@ =~= old(out)@ + t.rendered());
            }
        },
        Combinator::I => {
            out.append("I");
        },
        Combinator::W => {
            out.append("W");
        },
        Combinator::Fun(k) => {
            match k {
                ForeignFn::Inc => {
                    out.append("inc");
                },
            }
        },
        Combinator::Integer(i) => {
            if *i < 0 {
                out.append("-");
                let magnitude: u64 = (-(*i as i128)) as u64;
                render_decimal(magnitude, out);
                proof {
                    assert(out@ =~= old(out)@ + t.rendered());
                }
            } else {
                let magnitude: u64 = *i as u64;
                render_decimal(magnitude, out);
            }
        },
    }
}

/// The text of a byte sequence, comma separated.
pub open spec fn bytes_text(s: Seq<u8>) -> Seq<char>
    decreases s.len(),
{
    if s.len() == 0 {
        Seq::empty()
    } else if s.len() == 1 {
        decimal_digits(s[0] as nat)
    } else {
        decimal_digits(s[0] as nat) + ", "@ + bytes_text(s.drop_first())
    }
}

impl CombinatorError {
    /// The text of a failure.
    pub open spec fn error_text(&self) -> Seq<char> {
        match self {
            CombinatorError::RecursionLimitReached => "Recursion limit reached"@,
            CombinatorError::InvalidCombinator(c) => "Invalid combinator: "@ + c.rendered(),
            CombinatorError::InvalidApplication(g, x) => "Invalid application: "@ + g.rendered()
                + " "@ + x.rendered(),
            CombinatorError::InvalidVectorRepresentation(v) => "Invalid vector representation: ["@
                + bytes_text(v@) + "]"@,
        }
    }

    /// Render the failure as text.
    pub fn to_text(&self) -> (r: String)
        ensures
            r@ == self.error_text(),
    {
        let mut out = String::new();
        match self {
            CombinatorError::RecursionLimitReached => {
                out.append("Recursion limit reached");
            },
            CombinatorError::InvalidCombinator(c) => {
                out.append("Invalid combinator: ");
                render_into(c, &mut out);
                proof {
                    assert(out@ =~= self.error_text());
                }
            },
            CombinatorError::InvalidApplication(g, x) => {
                out.append("Invalid application: ");
                render_into(g, &mut out);
                out.append(" ");
                render_into(x, &mut out);
                proof {
                    assert(out@ =~= self.error_text());
                }
            },
            CombinatorError::InvalidVectorRepresentation(v) => {
                out.append("Invalid vector representation: [");
                render_bytes(v, 0, &mut out);
                out.append("]");
                proof {
                    assert(v@.subrange(0, v@.len() as int) =~= v@);
                    assert(out@ =~= self.error_text());
                }
            },
        }
        out
    }
}

/// Append the text of the bytes from index `i` on to `out`.
fn render_bytes(v: &Vec<u8>, i: usize, out: &mut String)
    requires
        i <= v@.len(),
    ensures
        final(out)@ == old(out)@ + bytes_text(v@.subrange(i as int, v@.len() as int)),
    decreases v@.len() - i,
{
    let ghost rest = v@.subrange(i as int, v@.len() as int);
    if i < v.len() {
        render_decimal(v[i] as u64, out);
        proof {
            assert(rest[0] == v@[i as int]);
        }
        if i + 1 < v.len() {
            out.append(", ");
        }
        render_bytes(v, i + 1, out);
        proof {
            assert(rest.drop_first() =~= v@.subrange(i + 1, v@.len() as int));
            assert(out@ =~= old(out)@ + bytes_text(rest));
        }
    }
}

} // verus!
