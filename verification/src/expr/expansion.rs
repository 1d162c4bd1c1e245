use vstd::prelude::*;

use crate::expr::{Expr, SpecExpr};

verus! {

/// The expanded product of two already-expanded trees: while either factor
/// is a sum or a difference, the other factor is distributed over it, and
/// each partial product is expanded in turn. A sum found on either side
/// puts the distributed term first (`(a + b) * c` and `c * (a + b)` both
/// become `a*c + b*c`); a difference puts the other factor first (both
/// orders become `c*a - c*b`).
pub open spec fn spec_mul_expand(l: SpecExpr, r: SpecExpr) -> SpecExpr
    decreases l.size() + r.size(),
{
    match (l, r) {
        (SpecExpr::Add(a, b), _) => SpecExpr::Add(
            Box::new(spec_mul_expand(*a, r)),
            Box::new(spec_mul_expand(*b, r)),
        ),
        (_, SpecExpr::Add(a, b)) => SpecExpr::Add(
            Box::new(spec_mul_expand(*a, l)),
            Box::new(spec_mul_expand(*b, l)),
        ),
        (SpecExpr::Sub(a, b), _) => SpecExpr::Sub(
            Box::new(spec_mul_expand(r, *a)),
            Box::new(spec_mul_expand(r, *b)),
        ),
        (_, SpecExpr::Sub(a, b)) => SpecExpr::Sub(
            Box::new(spec_mul_expand(l, *a)),
            Box::new(spec_mul_expand(l, *b)),
        ),
        _ => SpecExpr::Mul(Box::new(l), Box::new(r)),
    }
}

/// What `expand` returns: every node is rebuilt from expanded children,
/// and each product is distributed over sums and differences until no
/// product has a sum or difference as a factor.
pub open spec fn spec_expand(e: SpecExpr) -> SpecExpr
    decreases e,
{
    match e {
        SpecExpr::Mul(l, r) => spec_mul_expand(spec_expand(*l), spec_expand(*r)),
        SpecExpr::Add(l, r) => SpecExpr::Add(
            Box::new(spec_expand(*l)),
            Box::new(spec_expand(*r)),
        ),
        SpecExpr::Sub(l, r) => SpecExpr::Sub(
            Box::new(spec_expand(*l)),
            Box::new(spec_expand(*r)),
        ),
        SpecExpr::Div(l, r) => SpecExpr::Div(
            Box::new(spec_expand(*l)),
            Box::new(spec_expand(*r)),
        ),
        SpecExpr::Pow(l, r) => SpecExpr::Pow(
            Box::new(spec_expand(*l)),
            Box::new(spec_expand(*r)),
        ),
        SpecExpr::Neg(x) => SpecExpr::Neg(Box::new(spec_expand(*x))),
        _ => e,
    }
}

fn mul_expand(l: Expr, r: Expr) -> (out: Expr)
    ensures
        out@ == spec_mul_expand(l@, r@),
    decreases l@.size() + r@.size(),
{
    match (l, r) {
        (Expr::Add(a, b), c) => Expr::Add(
            Box::new(mul_expand(*a, c.clone())),
            Box::new(mul_expand(*b, c)),
        ),
        (c, Expr::Add(a, b)) => Expr::Add(
            Box::new(mul_expand(*a, c.clone())),
            Box::new(mul_expand(*b, c)),
        ),
        (Expr::Sub(a, b), c) => Expr::Sub(
            Box::new(mul_expand(c.clone(), *a)),
            Box::new(mul_expand(c, *b)),
        ),
        (c, Expr::Sub(a, b)) => Expr::Sub(
            Box::new(mul_expand(c.clone(), *a)),
            Box::new(mul_expand(c, *b)),
        ),
        (l2, r2) => Expr::Mul(Box::new(l2), Box::new(r2)),
    }
}

impl Expr {
    /// Expands the expression, distributing multiplication over addition
    /// and subtraction; every other node is rebuilt from expanded children.
    /// Expansion is purely structural — no arithmetic is performed — and
    /// the result is pinned exactly by `spec_expand`.
    pub fn expand(&self) -> (r: Expr)
        ensures
            r@ == spec_expand(self@),
        decreases self,
    {
        match self {
            Expr::Mul(l, r) => mul_expand(l.expand(), r.expand()),
            Expr::Add(l, r) => Expr::Add(Box::new(l.expand()), Box::new(r.expand())),
            Expr::Sub(l, r) => Expr::Sub(Box::new(l.expand()), Box::new(r.expand())),
            Expr::Div(l, r) => Expr::Div(Box::new(l.expand()), Box::new(r.expand())),
            Expr::Pow(l, r) => Expr::Pow(Box::new(l.expand()), Box::new(r.expand())),
            Expr::Neg(x) => Expr::Neg(Box::new(x.expand())),
            Expr::Const(c) => Expr::Const(*c),
            Expr::Symbol(s) => Expr::Symbol(s.clone()),
        }
    }
}

} // verus!
