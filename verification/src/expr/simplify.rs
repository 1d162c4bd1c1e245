use vstd::prelude::*;

use crate::expr::{Expr, SpecExpr};
use crate::numeric::{
    fold_rel_of, is_neg_one, is_one, is_zero, ops_callable, spec_is_neg_one, spec_is_one,
    spec_is_zero, witness, NumOp, ONE_BITS, POS_ZERO_BITS, TWO_BITS,
};

verus! {

/// The coefficient of a like term, read with the constant factor tried
/// first: `Some(c)` when `side` is `Mul(Const(c), x)` — or `Mul(x, Const(c))`
/// — with `x` structurally equal to `other`.
pub open spec fn coeff_const_first(side: SpecExpr, other: SpecExpr) -> Option<u64> {
    if side is Mul && (*side->Mul_0) is Const && *side->Mul_1 == other {
        Some((*side->Mul_0)->Const_0)
    } else if side is Mul && (*side->Mul_1) is Const && *side->Mul_0 == other {
        Some((*side->Mul_1)->Const_0)
    } else {
        None
    }
}

/// The same coefficient, with the matching factor tried first: the order
/// the rule uses when the product stands on the right of the sum.
pub open spec fn coeff_match_first(side: SpecExpr, other: SpecExpr) -> Option<u64> {
    if side is Mul && *side->Mul_0 == other && (*side->Mul_1) is Const {
        Some((*side->Mul_1)->Const_0)
    } else if side is Mul && *side->Mul_1 == other && (*side->Mul_0) is Const {
        Some((*side->Mul_0)->Const_0)
    } else {
        None
    }
}

/// The rewrite rule applied to a sum of two simplified children, first
/// match wins: fold two constants; turn `x + x` into `2 * x`; accumulate a
/// like term, `c*x + x` becoming `(c+1) * x`; drop an added zero; else
/// rebuild. `f` relates the arguments of each constant fold to its result.
pub open spec fn add_rule(
    l: SpecExpr,
    r: SpecExpr,
    out: SpecExpr,
    f: spec_fn(NumOp, u64, u64, u64) -> bool,
) -> bool {
    if l is Const && r is Const {
        exists|v: u64| #[trigger] f(NumOp::Add, l->Const_0, r->Const_0, v) && out == SpecExpr::Const(v)
    } else if l == r {
        out == SpecExpr::Mul(Box::new(SpecExpr::Const(TWO_BITS)), Box::new(l))
    } else if coeff_const_first(l, r) is Some {
        exists|v: u64| #[trigger] f(NumOp::Add, coeff_const_first(l, r)->0, ONE_BITS, v)
            && out == SpecExpr::Mul(Box::new(SpecExpr::Const(v)), Box::new(r))
    } else if coeff_match_first(r, l) is Some {
        exists|v: u64| #[trigger] f(NumOp::Add, coeff_match_first(r, l)->0, ONE_BITS, v)
            && out == SpecExpr::Mul(Box::new(SpecExpr::Const(v)), Box::new(l))
    } else if l is Const && spec_is_zero(l->Const_0) {
        out == r
    } else if r is Const && spec_is_zero(r->Const_0) {
        out == l
    } else {
        out == SpecExpr::Add(Box::new(l), Box::new(r))
    }
}

/// The rule for a difference: fold two constants; drop a subtracted zero
/// (`x - 0` is `x`, but `0 - x` is left alone — collapsing it would lose
/// the sign); else rebuild.
pub open spec fn sub_rule(
    l: SpecExpr,
    r: SpecExpr,
    out: SpecExpr,
    f: spec_fn(NumOp, u64, u64, u64) -> bool,
) -> bool {
    if l is Const && r is Const {
        exists|v: u64| #[trigger] f(NumOp::Sub, l->Const_0, r->Const_0, v) && out == SpecExpr::Const(v)
    } else if r is Const && spec_is_zero(r->Const_0) {
        out == l
    } else {
        out == SpecExpr::Sub(Box::new(l), Box::new(r))
    }
}

/// The rule for a product: fold two constants; turn `x * x` into `x^2`;
/// merge powers of one base, `x^a * x^b` becoming `x^(a+b)`; drop a factor
/// one; collapse to zero on a factor zero; turn a factor minus-one into a
/// negation; else rebuild.
pub open spec fn mul_rule(
    l: SpecExpr,
    r: SpecExpr,
    out: SpecExpr,
    f: spec_fn(NumOp, u64, u64, u64) -> bool,
) -> bool {
    if l is Const && r is Const {
        exists|v: u64| #[trigger] f(NumOp::Mul, l->Const_0, r->Const_0, v) && out == SpecExpr::Const(v)
    } else if l == r {
        out == SpecExpr::Pow(Box::new(l), Box::new(SpecExpr::Const(TWO_BITS)))
    } else if l is Pow && r is Pow && l->Pow_0 == r->Pow_0 {
        out == SpecExpr::Pow(
            l->Pow_0,
            Box::new(SpecExpr::Add(l->Pow_1, r->Pow_1)),
        )
    } else if l is Const && spec_is_one(l->Const_0) {
        out == r
    } else if r is Const && spec_is_one(r->Const_0) {
        out == l
    } else if l is Const && spec_is_zero(l->Const_0) || r is Const && spec_is_zero(r->Const_0) {
        out == SpecExpr::Const(POS_ZERO_BITS)
    } else if l is Const && spec_is_neg_one(l->Const_0) {
        out == SpecExpr::Neg(Box::new(r))
    } else if r is Const && spec_is_neg_one(r->Const_0) {
        out == SpecExpr::Neg(Box::new(l))
    } else {
        out == SpecExpr::Mul(Box::new(l), Box::new(r))
    }
}

/// The rule for a quotient: fold two constants; drop a divisor one (`x / 1`
/// is `x`, but `1 / x` is left alone — it is a reciprocal, not `x`);
/// collapse a zero numerator to zero; else rebuild.
pub open spec fn div_rule(
    l: SpecExpr,
    r: SpecExpr,
    out: SpecExpr,
    f: spec_fn(NumOp, u64, u64, u64) -> bool,
) -> bool {
    if l is Const && r is Const {
        exists|v: u64| #[trigger] f(NumOp::Div, l->Const_0, r->Const_0, v) && out == SpecExpr::Const(v)
    } else if r is Const && spec_is_one(r->Const_0) {
        out == l
    } else if l is Const && spec_is_zero(l->Const_0) {
        out == SpecExpr::Const(POS_ZERO_BITS)
    } else {
        out == SpecExpr::Div(Box::new(l), Box::new(r))
    }
}

/// The rule for a power: flatten a nested power, `(x^a)^b` becoming
/// `x^(a*b)`; drop an exponent one; collapse an exponent zero to one (a
/// deliberate policy — `0^0` is treated as 1); collapse a base one to one;
/// else rebuild. No constants are folded here.
pub open spec fn pow_rule(l: SpecExpr, r: SpecExpr, out: SpecExpr) -> bool {
    if l is Pow {
        out == SpecExpr::Pow(
            l->Pow_0,
            Box::new(SpecExpr::Mul(l->Pow_1, Box::new(r))),
        )
    } else if r is Const && spec_is_one(r->Const_0) {
        out == l
    } else if r is Const && spec_is_zero(r->Const_0) {
        out == SpecExpr::Const(ONE_BITS)
    } else if l is Const && spec_is_one(l->Const_0) {
        out == SpecExpr::Const(ONE_BITS)
    } else {
        out == SpecExpr::Pow(Box::new(l), Box::new(r))
    }
}

/// What `simplify` may return: one bottom-up pass in which both children
/// are simplified first and the node's own rule is then applied exactly
/// once. Constants and variables are fixed; a negation keeps its node and
/// simplifies its child. `f` relates each constant fold to its result, so
/// the output is pinned up to the supplied arithmetic.
pub open spec fn simplify_rel(
    e: SpecExpr,
    out: SpecExpr,
    f: spec_fn(NumOp, u64, u64, u64) -> bool,
) -> bool
    decreases e,
{
    match e {
        SpecExpr::Add(l, r) => exists|ls: SpecExpr, rs: SpecExpr|
            #[trigger] witness((ls, rs)) && simplify_rel(*l, ls, f) && simplify_rel(*r, rs, f)
                && add_rule(ls, rs, out, f),
        SpecExpr::Sub(l, r) => exists|ls: SpecExpr, rs: SpecExpr|
            #[trigger] witness((ls, rs)) && simplify_rel(*l, ls, f) && simplify_rel(*r, rs, f)
                && sub_rule(ls, rs, out, f),
        SpecExpr::Mul(l, r) => exists|ls: SpecExpr, rs: SpecExpr|
            #[trigger] witness((ls, rs)) && simplify_rel(*l, ls, f) && simplify_rel(*r, rs, f)
                && mul_rule(ls, rs, out, f),
        SpecExpr::Div(l, r) => exists|ls: SpecExpr, rs: SpecExpr|
            #[trigger] witness((ls, rs)) && simplify_rel(*l, ls, f) && simplify_rel(*r, rs, f)
                && div_rule(ls, rs, out, f),
        SpecExpr::Pow(l, r) => exists|ls: SpecExpr, rs: SpecExpr|
            #[trigger] witness((ls, rs)) && simplify_rel(*l, ls, f) && simplify_rel(*r, rs, f)
                && pow_rule(ls, rs, out),
        SpecExpr::Neg(x) => exists|xs: SpecExpr|
            #[trigger] witness(xs) && simplify_rel(*x, xs, f) && out == SpecExpr::Neg(
                Box::new(xs),
            ),
        _ => out == e,
    }
}

proof fn lemma_size_pos(e: SpecExpr)
    ensures
        e.size() >= 1,
{
    match e {
        SpecExpr::Const(_) => {},
        SpecExpr::Var(_) => {},
        SpecExpr::Add(_, _) => {},
        SpecExpr::Sub(_, _) => {},
        SpecExpr::Mul(_, _) => {},
        SpecExpr::Div(_, _) => {},
        SpecExpr::Pow(_, _) => {},
        SpecExpr::Neg(_) => {},
    }
}

proof fn lemma_add_rule_no_growth(
    l: SpecExpr,
    r: SpecExpr,
    out: SpecExpr,
    f: spec_fn(NumOp, u64, u64, u64) -> bool,
)
    requires
        add_rule(l, r, out, f),
    ensures
        out.size() <= 1 + l.size() + r.size(),
{
    lemma_size_pos(l);
    lemma_size_pos(r);
    if l is Const && r is Const {
        let v = choose|v: u64| f(NumOp::Add, l->Const_0, r->Const_0, v) && out
            == SpecExpr::Const(v);
        assert(out.size() == 1);
    } else if l == r {
        assert(SpecExpr::Const(TWO_BITS).size() == 1);
        assert(out.size() == 2 + l.size());
    } else if coeff_const_first(l, r) is Some {
        let v = choose|v: u64| f(NumOp::Add, coeff_const_first(l, r)->0, ONE_BITS, v) && out
            == SpecExpr::Mul(Box::new(SpecExpr::Const(v)), Box::new(r));
        lemma_size_pos(*l->Mul_0);
        lemma_size_pos(*l->Mul_1);
        assert(SpecExpr::Const(v).size() == 1);
        assert(out.size() == 2 + r.size());
    } else if coeff_match_first(r, l) is Some {
        let v = choose|v: u64| f(NumOp::Add, coeff_match_first(r, l)->0, ONE_BITS, v) && out
            == SpecExpr::Mul(Box::new(SpecExpr::Const(v)), Box::new(l));
        lemma_size_pos(*r->Mul_0);
        lemma_size_pos(*r->Mul_1);
        assert(SpecExpr::Const(v).size() == 1);
        assert(out.size() == 2 + l.size());
    }
}

proof fn lemma_sub_rule_no_growth(
    l: SpecExpr,
    r: SpecExpr,
    out: SpecExpr,
    f: spec_fn(NumOp, u64, u64, u64) -> bool,
)
    requires
        sub_rule(l, r, out, f),
    ensures
        out.size() <= 1 + l.size() + r.size(),
{
    lemma_size_pos(l);
    lemma_size_pos(r);
}

proof fn lemma_mul_rule_no_growth(
    l: SpecExpr,
    r: SpecExpr,
    out: SpecExpr,
    f: spec_fn(NumOp, u64, u64, u64) -> bool,
)
    requires
        mul_rule(l, r, out, f),
    ensures
        out.size() <= 1 + l.size() + r.size(),
{
    lemma_size_pos(l);
    lemma_size_pos(r);
    if l is Const && r is Const {
        let v = choose|v: u64| f(NumOp::Mul, l->Const_0, r->Const_0, v) && out
            == SpecExpr::Const(v);
        assert(out.size() == 1);
    } else if l == r {
        assert(SpecExpr::Const(TWO_BITS).size() == 1);
        assert(out.size() == 2 + l.size());
    } else if l is Pow && r is Pow && l->Pow_0 == r->Pow_0 {
        lemma_size_pos(*l->Pow_0);
        lemma_size_pos(*r->Pow_0);
        assert(SpecExpr::Add(l->Pow_1, r->Pow_1).size() == 1 + (*l->Pow_1).size() + (
        *r->Pow_1).size());
        assert(out.size() == 2 + (*l->Pow_0).size() + (*l->Pow_1).size() + (*r->Pow_1).size());
    }
}

proof fn lemma_div_rule_no_growth(
    l: SpecExpr,
    r: SpecExpr,
    out: SpecExpr,
    f: spec_fn(NumOp, u64, u64, u64) -> bool,
)
    requires
        div_rule(l, r, out, f),
    ensures
        out.size() <= 1 + l.size() + r.size(),
{
    lemma_size_pos(l);
    lemma_size_pos(r);
}

proof fn lemma_pow_rule_no_growth(l: SpecExpr, r: SpecExpr, out: SpecExpr)
    requires
        pow_rule(l, r, out),
    ensures
        out.size() <= 1 + l.size() + r.size(),
{
    lemma_size_pos(l);
    lemma_size_pos(r);
    if l is Pow {
        assert(SpecExpr::Mul(l->Pow_1, Box::new(r)).size() == 1 + (*l->Pow_1).size()
            + r.size());
        assert(out.size() == 2 + (*l->Pow_0).size() + (*l->Pow_1).size() + r.size());
    }
}

/// One bottom-up pass never grows the tree: whatever `simplify` returns
/// has at most as many nodes as its input. Together with the scenario
/// tests this supports the convergence claim for repeated simplification —
/// a pass is not always idempotent, but it cannot regress by growing.
pub proof fn lemma_simplify_no_growth(
    e: SpecExpr,
    out: SpecExpr,
    f: spec_fn(NumOp, u64, u64, u64) -> bool,
)
    requires
        simplify_rel(e, out, f),
    ensures
        out.size() <= e.size(),
    decreases e,
{
    match e {
        SpecExpr::Add(l, r) => {
            let (ls, rs) = choose|ls: SpecExpr, rs: SpecExpr|
                witness((ls, rs)) && simplify_rel(*l, ls, f) && simplify_rel(*r, rs, f)
                    && add_rule(ls, rs, out, f);
            lemma_simplify_no_growth(*l, ls, f);
            lemma_simplify_no_growth(*r, rs, f);
            lemma_add_rule_no_growth(ls, rs, out, f);
        },
        SpecExpr::Sub(l, r) => {
            let (ls, rs) = choose|ls: SpecExpr, rs: SpecExpr|
                witness((ls, rs)) && simplify_rel(*l, ls, f) && simplify_rel(*r, rs, f)
                    && sub_rule(ls, rs, out, f);
            lemma_simplify_no_growth(*l, ls, f);
            lemma_simplify_no_growth(*r, rs, f);
            lemma_sub_rule_no_growth(ls, rs, out, f);
        },
        SpecExpr::Mul(l, r) => {
            let (ls, rs) = choose|ls: SpecExpr, rs: SpecExpr|
                witness((ls, rs)) && simplify_rel(*l, ls, f) && simplify_rel(*r, rs, f)
                    && mul_rule(ls, rs, out, f);
            lemma_simplify_no_growth(*l, ls, f);
            lemma_simplify_no_growth(*r, rs, f);
            lemma_mul_rule_no_growth(ls, rs, out, f);
        },
        SpecExpr::Div(l, r) => {
            let (ls, rs) = choose|ls: SpecExpr, rs: SpecExpr|
                witness((ls, rs)) && simplify_rel(*l, ls, f) && simplify_rel(*r, rs, f)
                    && div_rule(ls, rs, out, f);
            lemma_simplify_no_growth(*l, ls, f);
            lemma_simplify_no_growth(*r, rs, f);
            lemma_div_rule_no_growth(ls, rs, out, f);
        },
        SpecExpr::Pow(l, r) => {
            let (ls, rs) = choose|ls: SpecExpr, rs: SpecExpr|
                witness((ls, rs)) && simplify_rel(*l, ls, f) && simplify_rel(*r, rs, f)
                    && pow_rule(ls, rs, out);
            lemma_simplify_no_growth(*l, ls, f);
            lemma_simplify_no_growth(*r, rs, f);
            lemma_pow_rule_no_growth(ls, rs, out);
        },
        SpecExpr::Neg(x) => {
            let xs = choose|xs: SpecExpr|
                witness(xs) && simplify_rel(*x, xs, f) && out == SpecExpr::Neg(Box::new(xs));
            lemma_simplify_no_growth(*x, xs, f);
        },
        _ => {},
    }
}

/// The coefficient of a like term, constant factor tried first.
fn take_coeff_const_first(side: &Expr, other: &Expr) -> (c: Option<u64>)
    ensures
        c == coeff_const_first(side@, other@),
{
    match side {
        Expr::Mul(a, b) => {
            if a.is_const() && &**b == other {
                Some(a.get_const())
            } else if b.is_const() && &**a == other {
                Some(b.get_const())
            } else {
                None
            }
        },
        _ => None,
    }
}

/// The coefficient of a like term, matching factor tried first.
fn take_coeff_match_first(side: &Expr, other: &Expr) -> (c: Option<u64>)
    ensures
        c == coeff_match_first(side@, other@),
{
    match side {
        Expr::Mul(a, b) => {
            if &**a == other && b.is_const() {
                Some(b.get_const())
            } else if &**b == other && a.is_const() {
                Some(a.get_const())
            } else {
                None
            }
        },
        _ => None,
    }
}

fn apply_add_rule<F: Fn(NumOp, u64, u64) -> u64>(l: Expr, r: Expr, ops: &F) -> (out: Expr)
    requires
        ops_callable(*ops),
    ensures
        add_rule(l@, r@, out@, fold_rel_of(*ops)),
{
    if l.is_const() && r.is_const() {
        let v = ops(NumOp::Add, l.get_const(), r.get_const());
        proof {
            assert(fold_rel_of(*ops)(NumOp::Add, l@->Const_0, r@->Const_0, v));
        }
        Expr::Const(v)
    } else if l == r {
        let two = Expr::Const(TWO_BITS);
        proof {
            assert(two@ == SpecExpr::Const(TWO_BITS));
        }
        Expr::Mul(Box::new(two), Box::new(l))
    } else if let Some(c) = take_coeff_const_first(&l, &r) {
        let v = ops(NumOp::Add, c, ONE_BITS);
        let coeff = Expr::Const(v);
        proof {
            assert(fold_rel_of(*ops)(NumOp::Add, c, ONE_BITS, v));
            assert(coeff@ == SpecExpr::Const(v));
        }
        Expr::Mul(Box::new(coeff), Box::new(r))
    } else if let Some(c) = take_coeff_match_first(&r, &l) {
        let v = ops(NumOp::Add, c, ONE_BITS);
        let coeff = Expr::Const(v);
        proof {
            assert(fold_rel_of(*ops)(NumOp::Add, c, ONE_BITS, v));
            assert(coeff@ == SpecExpr::Const(v));
        }
        Expr::Mul(Box::new(coeff), Box::new(l))
    } else if l.is_const() && is_zero(l.get_const()) {
        r
    } else if r.is_const() && is_zero(r.get_const()) {
        l
    } else {
        Expr::Add(Box::new(l), Box::new(r))
    }
}

fn apply_sub_rule<F: Fn(NumOp, u64, u64) -> u64>(l: Expr, r: Expr, ops: &F) -> (out: Expr)
    requires
        ops_callable(*ops),
    ensures
        sub_rule(l@, r@, out@, fold_rel_of(*ops)),
{
    if l.is_const() && r.is_const() {
        let v = ops(NumOp::Sub, l.get_const(), r.get_const());
        proof {
            assert(fold_rel_of(*ops)(NumOp::Sub, l@->Const_0, r@->Const_0, v));
        }
        Expr::Const(v)
    } else if r.is_const() && is_zero(r.get_const()) {
        l
    } else {
        Expr::Sub(Box::new(l), Box::new(r))
    }
}

fn apply_mul_rule<F: Fn(NumOp, u64, u64) -> u64>(l: Expr, r: Expr, ops: &F) -> (out: Expr)
    requires
        ops_callable(*ops),
    ensures
        mul_rule(l@, r@, out@, fold_rel_of(*ops)),
{
    if l.is_const() && r.is_const() {
        let v = ops(NumOp::Mul, l.get_const(), r.get_const());
        proof {
            assert(fold_rel_of(*ops)(NumOp::Mul, l@->Const_0, r@->Const_0, v));
        }
        return Expr::Const(v);
    }
    if l == r {
        let two = Expr::Const(TWO_BITS);
        proof {
            assert(two@ == SpecExpr::Const(TWO_BITS));
        }
        return Expr::Pow(Box::new(l), Box::new(two));
    }
    match (l, r) {
        (Expr::Pow(b1, e1), Expr::Pow(b2, e2)) => {
            if &*b1 == &*b2 {
                let exps = Expr::Add(e1, e2);
                proof {
                    assert(exps@ is Add);
                }
                Expr::Pow(b1, Box::new(exps))
            } else {
                let lp = Expr::Pow(b1, e1);
                let rp = Expr::Pow(b2, e2);
                proof {
                    assert(lp@ is Pow && rp@ is Pow);
                }
                Expr::Mul(Box::new(lp), Box::new(rp))
            }
        },
        (l, r) => {
            if l.is_const() && is_one(l.get_const()) {
                r
            } else if r.is_const() && is_one(r.get_const()) {
                l
            } else if l.is_const() && is_zero(l.get_const()) || r.is_const() && is_zero(
                r.get_const(),
            ) {
                Expr::Const(POS_ZERO_BITS)
            } else if l.is_const() && is_neg_one(l.get_const()) {
                Expr::Neg(Box::new(r))
            } else if r.is_const() && is_neg_one(r.get_const()) {
                Expr::Neg(Box::new(l))
            } else {
                Expr::Mul(Box::new(l), Box::new(r))
            }
        },
    }
}

fn apply_div_rule<F: Fn(NumOp, u64, u64) -> u64>(l: Expr, r: Expr, ops: &F) -> (out: Expr)
    requires
        ops_callable(*ops),
    ensures
        div_rule(l@, r@, out@, fold_rel_of(*ops)),
{
    if l.is_const() && r.is_const() {
        let v = ops(NumOp::Div, l.get_const(), r.get_const());
        proof {
            assert(fold_rel_of(*ops)(NumOp::Div, l@->Const_0, r@->Const_0, v));
        }
        Expr::Const(v)
    } else if r.is_const() && is_one(r.get_const()) {
        l
    } else if l.is_const() && is_zero(l.get_const()) {
        Expr::Const(POS_ZERO_BITS)
    } else {
        Expr::Div(Box::new(l), Box::new(r))
    }
}

fn apply_pow_rule(l: Expr, r: Expr) -> (out: Expr)
    ensures
        pow_rule(l@, r@, out@),
{
    match (l, r) {
        (Expr::Pow(b, p1), r) => {
            let exps = Expr::Mul(p1, Box::new(r));
            proof {
                assert(exps@ is Mul);
            }
            Expr::Pow(b, Box::new(exps))
        },
        (l, r) => {
            if r.is_const() && is_one(r.get_const()) {
                l
            } else if r.is_const() && is_zero(r.get_const()) {
                Expr::Const(ONE_BITS)
            } else if l.is_const() && is_one(l.get_const()) {
                Expr::Const(ONE_BITS)
            } else {
                Expr::Pow(Box::new(l), Box::new(r))
            }
        },
    }
}

impl Expr {
    /// Simplifies the expression in one bottom-up pass: children first,
    /// then the node's own rewrite rule, exactly once. The result is
    /// numerically equivalent wherever every symbol is defined, and never
    /// larger than the input.
    ///
    /// `ops` supplies the double arithmetic used to fold constants, on bit
    /// patterns; the contract pins the result up to what `ops` returned.
    /// One pass is not always idempotent — a rewrite can uncover a pattern
    /// at the same node that only another pass would reduce — so a caller
    /// wanting a fixed point applies it repeatedly; a pass never grows the
    /// tree (`lemma_simplify_no_growth`), so iteration cannot regress.
    pub fn simplify<F: Fn(NumOp, u64, u64) -> u64>(&self, ops: &F) -> (out: Expr)
        requires
            ops_callable(*ops),
        ensures
            simplify_rel(self@, out@, fold_rel_of(*ops)),
        decreases self,
    {
        let ghost f = fold_rel_of(*ops);
        match self {
            Expr::Add(l, r) => {
                let ls = l.simplify(ops);
                let rs = r.simplify(ops);
                let ghost (lsv, rsv) = (ls@, rs@);
                proof {
                    assert(self@ == SpecExpr::Add(Box::new((**l)@), Box::new((**r)@)));
                }
                let out = apply_add_rule(ls, rs, ops);
                proof {
                    assert(witness((lsv, rsv)));
                }
                out
            },
            Expr::Sub(l, r) => {
                let ls = l.simplify(ops);
                let rs = r.simplify(ops);
                let ghost (lsv, rsv) = (ls@, rs@);
                proof {
                    assert(self@ == SpecExpr::Sub(Box::new((**l)@), Box::new((**r)@)));
                }
                let out = apply_sub_rule(ls, rs, ops);
                proof {
                    assert(witness((lsv, rsv)));
                }
                out
            },
            Expr::Mul(l, r) => {
                let ls = l.simplify(ops);
                let rs = r.simplify(ops);
                let ghost (lsv, rsv) = (ls@, rs@);
                proof {
                    assert(self@ == SpecExpr::Mul(Box::new((**l)@), Box::new((**r)@)));
                }
                let out = apply_mul_rule(ls, rs, ops);
                proof {
                    assert(witness((lsv, rsv)));
                }
                out
            },
            Expr::Div(l, r) => {
                let ls = l.simplify(ops);
                let rs = r.simplify(ops);
                let ghost (lsv, rsv) = (ls@, rs@);
                proof {
                    assert(self@ == SpecExpr::Div(Box::new((**l)@), Box::new((**r)@)));
                }
                let out = apply_div_rule(ls, rs, ops);
                proof {
                    assert(witness((lsv, rsv)));
                }
                out
            },
            Expr::Pow(l, r) => {
                let ls = l.simplify(ops);
                let rs = r.simplify(ops);
                let ghost (lsv, rsv) = (ls@, rs@);
                proof {
                    assert(self@ == SpecExpr::Pow(Box::new((**l)@), Box::new((**r)@)));
                }
                let out = apply_pow_rule(ls, rs);
                proof {
                    assert(witness((lsv, rsv)));
                }
                out
            },
            Expr::Neg(x) => {
                let xs = x.simplify(ops);
                let ghost xsv = xs@;
                proof {
                    assert(self@ == SpecExpr::Neg(Box::new((**x)@)));
                }
                let out = Expr::Neg(Box::new(xs));
                proof {
                    assert(witness(xsv));
                }
                out
            },
            Expr::Const(c) => Expr::Const(*c),
            Expr::Symbol(s) => Expr::Symbol(s.clone()),
        }
    }
}

} // verus!
