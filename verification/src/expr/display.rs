use vstd::prelude::*;
use vstd::string::StringExecFns;

use crate::expr::{Expr, SpecExpr};
use crate::numeric::witness;

verus! {

/// What this crate can assume of a caller-supplied constant formatter: it
/// may be called on any bit pattern.
pub open spec fn fmt_callable<C: Fn(u64) -> String>(fmt: C) -> bool {
    forall|c: u64| #[trigger] call_requires(fmt, (c,))
}

/// The input-output relation of a caller-supplied constant formatter, on
/// the text it renders a constant's bits to.
pub open spec fn text_rel_of<C: Fn(u64) -> String>(fmt: C) -> spec_fn(u64, Seq<char>) -> bool {
    |c: u64, s: Seq<char>|
        exists|r: String| #[trigger] witness(r) && call_ensures(fmt, (c,), r) && r@ == s
}

/// What the rendering of an expression may look like: binary nodes are
/// fully parenthesized as `(L op R)`, negation is the prefix `-`, a
/// variable is its name, and a constant is whatever the supplied formatter
/// renders its bits to (`cf` relates bits to text). One shorthand, as a
/// coefficient is usually written: a product of a constant and a variable,
/// in either order, drops the parentheses and the `*`, the constant first.
pub open spec fn display_rel(e: SpecExpr, out: Seq<char>, cf: spec_fn(u64, Seq<char>) -> bool) -> bool
    decreases e,
{
    match e {
        SpecExpr::Const(c) => cf(c, out),
        SpecExpr::Var(n) => out == n,
        SpecExpr::Add(l, r) => exists|a: Seq<char>, b: Seq<char>|
            #[trigger] witness((a, b)) && display_rel(*l, a, cf) && display_rel(*r, b, cf)
                && out == "("@ + a + " + "@ + b + ")"@,
        SpecExpr::Sub(l, r) => exists|a: Seq<char>, b: Seq<char>|
            #[trigger] witness((a, b)) && display_rel(*l, a, cf) && display_rel(*r, b, cf)
                && out == "("@ + a + " - "@ + b + ")"@,
        SpecExpr::Mul(l, r) => if (*l) is Const && (*r) is Var {
            exists|cs: Seq<char>|
                #[trigger] witness(cs) && cf((*l)->Const_0, cs) && out == cs + (*r)->Var_0
        } else if !((*l) is Const) && (*r) is Const && (*l) is Var {
            exists|cs: Seq<char>|
                #[trigger] witness(cs) && cf((*r)->Const_0, cs) && out == cs + (*l)->Var_0
        } else {
            exists|a: Seq<char>, b: Seq<char>|
                #[trigger] witness((a, b)) && display_rel(*l, a, cf) && display_rel(*r, b, cf)
                    && out == "("@ + a + " * "@ + b + ")"@
        },
        SpecExpr::Div(l, r) => exists|a: Seq<char>, b: Seq<char>|
            #[trigger] witness((a, b)) && display_rel(*l, a, cf) && display_rel(*r, b, cf)
                && out == "("@ + a + " / "@ + b + ")"@,
        SpecExpr::Pow(l, r) => exists|a: Seq<char>, b: Seq<char>|
            #[trigger] witness((a, b)) && display_rel(*l, a, cf) && display_rel(*r, b, cf)
                && out == "("@ + a + " ^ "@ + b + ")"@,
        SpecExpr::Neg(x) => exists|a: Seq<char>|
            #[trigger] witness(a) && display_rel(*x, a, cf) && out == "-"@ + a,
    }
}

fn parenthesize(a: String, op: &str, b: String) -> (s: String)
    ensures
        s@ == "("@ + a@ + op@ + b@ + ")"@,
{
    let mut s = String::from_str("(");
    s.append(a.as_str());
    s.append(op);
    s.append(b.as_str());
    s.append(")");
    proof {
        assert(s@ =~= "("@ + a@ + op@ + b@ + ")"@);
    }
    s
}

impl Expr {
    /// Renders the expression: binary nodes fully parenthesized as
    /// `(L op R)` with the operators `+ - * / ^`, negation as prefix `-`,
    /// a variable as its name, a product of a constant and a variable as
    /// the constant's text directly followed by the name. `fmt_const`
    /// renders a constant from its bits, as the caller's number formatting
    /// does.
    pub fn to_display_string<C: Fn(u64) -> String>(&self, fmt_const: &C) -> (s: String)
        requires
            fmt_callable(*fmt_const),
        ensures
            display_rel(self@, s@, text_rel_of(*fmt_const)),
        decreases self,
    {
        let ghost cf = text_rel_of(*fmt_const);
        match self {
            Expr::Const(c) => {
                let r = fmt_const(*c);
                proof {
                    assert(witness(r));
                }
                r
            },
            Expr::Symbol(s) => s.name.clone(),
            Expr::Add(l, r) => {
                let a = l.to_display_string(fmt_const);
                let b = r.to_display_string(fmt_const);
                let ghost (av, bv) = (a@, b@);
                proof {
                    assert(self@ == SpecExpr::Add(Box::new((**l)@), Box::new((**r)@)));
                    assert(witness((av, bv)));
                }
                parenthesize(a, " + ", b)
            },
            Expr::Sub(l, r) => {
                let a = l.to_display_string(fmt_const);
                let b = r.to_display_string(fmt_const);
                let ghost (av, bv) = (a@, b@);
                proof {
                    assert(self@ == SpecExpr::Sub(Box::new((**l)@), Box::new((**r)@)));
                    assert(witness((av, bv)));
                }
                parenthesize(a, " - ", b)
            },
            Expr::Mul(l, r) => {
                proof {
                    assert(self@ == SpecExpr::Mul(Box::new((**l)@), Box::new((**r)@)));
                }
                match (&**l, &**r) {
                    (Expr::Const(c), Expr::Symbol(sym)) => {
                        let mut s = fmt_const(*c);
                        proof {
                            assert(witness(s@));
                            assert(witness(s));
                        }
                        s.append(sym.name.as_str());
                        s
                    },
                    (lhs, rhs) => {
                        if !lhs.is_const() && rhs.is_const() {
                            if let Expr::Symbol(sym) = lhs {
                                let c = rhs.get_const();
                                let mut s = fmt_const(c);
                                proof {
                                    assert(witness(s@));
                                    assert(witness(s));
                                }
                                s.append(sym.name.as_str());
                                return s;
                            }
                        }
                        let a = lhs.to_display_string(fmt_const);
                        let b = rhs.to_display_string(fmt_const);
                        let ghost (av, bv) = (a@, b@);
                        proof {
                            assert(witness((av, bv)));
                        }
                        parenthesize(a, " * ", b)
                    },
                }
            },
            Expr::Div(l, r) => {
                let a = l.to_display_string(fmt_const);
                let b = r.to_display_string(fmt_const);
                let ghost (av, bv) = (a@, b@);
                proof {
                    assert(self@ == SpecExpr::Div(Box::new((**l)@), Box::new((**r)@)));
                    assert(witness((av, bv)));
                }
                parenthesize(a, " / ", b)
            },
            Expr::Pow(l, r) => {
                let a = l.to_display_string(fmt_const);
                let b = r.to_display_string(fmt_const);
                let ghost (av, bv) = (a@, b@);
                proof {
                    assert(self@ == SpecExpr::Pow(Box::new((**l)@), Box::new((**r)@)));
                    assert(witness((av, bv)));
                }
                parenthesize(a, " ^ ", b)
            },
            Expr::Neg(x) => {
                let a = x.to_display_string(fmt_const);
                let mut s = String::from_str("-");
                proof {
                    assert(self@ == SpecExpr::Neg(Box::new((**x)@)));
                    assert(witness(a@));
                }
                s.append(a.as_str());
                s
            },
        }
    }
}

} // verus!
