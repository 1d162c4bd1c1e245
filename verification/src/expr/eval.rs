use vstd::prelude::*;

use crate::bindings::Bindings;
use crate::expr::{Expr, SpecExpr};
use crate::numeric::{
    fold_rel_of, is_finite, negate, ops_callable, round_callable, round_rel_of, spec_is_finite,
    spec_negate, witness, NumOp,
};
use crate::symbol::Symbol;

verus! {

/// An error from evaluating an expression: a variable without a binding,
/// or a power whose result is not a finite number.
#[derive(Debug)]
pub enum EvalError {
    SymbolNotFound(Symbol),
    UndefinedOperation,
}

/// The outcome of an evaluation, as the contracts speak of it.
pub enum EvalOutcome {
    Val(u64),
    SymbolNotFound(Seq<char>),
    Undefined,
}

/// The outcome that an evaluation result denotes.
pub open spec fn outcome_of(r: Result<u64, EvalError>) -> EvalOutcome {
    match r {
        Ok(v) => EvalOutcome::Val(v),
        Err(EvalError::SymbolNotFound(s)) => EvalOutcome::SymbolNotFound(s@),
        Err(EvalError::UndefinedOperation) => EvalOutcome::Undefined,
    }
}

/// How one arithmetic step combines two child values: the supplied
/// arithmetic computes the raw result, the supplied rounding is applied
/// after it. A power whose raw result is not finite — a negative base with
/// a fractional exponent, or an overflow — is the undefined operation;
/// every other operation keeps IEEE semantics, infinities included.
pub open spec fn step_outcome(
    op: NumOp,
    a: u64,
    b: u64,
    out: EvalOutcome,
    f: spec_fn(NumOp, u64, u64, u64) -> bool,
    rnd: spec_fn(u64, u64) -> bool,
) -> bool {
    if op == NumOp::Pow {
        exists|v: u64|
            #[trigger] witness(v) && f(NumOp::Pow, a, b, v) && (if spec_is_finite(v) {
                exists|w: u64| #[trigger] witness(w) && rnd(v, w) && out == EvalOutcome::Val(w)
            } else {
                out == EvalOutcome::Undefined
            })
    } else {
        exists|v: u64, w: u64|
            #[trigger] witness((v, w)) && f(op, a, b, v) && rnd(v, w) && out == EvalOutcome::Val(
                w,
            )
    }
}

/// What evaluation may return, under the binding environment `env`: a
/// constant is its own value; a variable is looked up, an unbound name
/// failing with `SymbolNotFound`; a binary node evaluates its left child
/// first, then its right, the first error aborting the whole walk, and
/// combines the two values as `step_outcome` says; a negation flips the
/// sign bit of its child's value. `f` relates each arithmetic call to its
/// result and `rnd` each rounding call to its result, so the outcome is
/// pinned up to the supplied arithmetic.
pub open spec fn eval_rel(
    e: SpecExpr,
    env: Map<Seq<char>, u64>,
    out: EvalOutcome,
    f: spec_fn(NumOp, u64, u64, u64) -> bool,
    rnd: spec_fn(u64, u64) -> bool,
) -> bool
    decreases e,
{
    match e {
        SpecExpr::Const(c) => out == EvalOutcome::Val(c),
        SpecExpr::Var(n) => if env.contains_key(n) {
            out == EvalOutcome::Val(env[n])
        } else {
            out == EvalOutcome::SymbolNotFound(n)
        },
        SpecExpr::Add(l, r) => exists|lo: EvalOutcome|
            #[trigger] witness(lo) && eval_rel(*l, env, lo, f, rnd) && (match lo {
                EvalOutcome::Val(a) => exists|ro: EvalOutcome|
                    #[trigger] witness(ro) && eval_rel(*r, env, ro, f, rnd) && (match ro {
                        EvalOutcome::Val(b) => step_outcome(NumOp::Add, a, b, out, f, rnd),
                        _ => out == ro,
                    }),
                _ => out == lo,
            }),
        SpecExpr::Sub(l, r) => exists|lo: EvalOutcome|
            #[trigger] witness(lo) && eval_rel(*l, env, lo, f, rnd) && (match lo {
                EvalOutcome::Val(a) => exists|ro: EvalOutcome|
                    #[trigger] witness(ro) && eval_rel(*r, env, ro, f, rnd) && (match ro {
                        EvalOutcome::Val(b) => step_outcome(NumOp::Sub, a, b, out, f, rnd),
                        _ => out == ro,
                    }),
                _ => out == lo,
            }),
        SpecExpr::Mul(l, r) => exists|lo: EvalOutcome|
            #[trigger] witness(lo) && eval_rel(*l, env, lo, f, rnd) && (match lo {
                EvalOutcome::Val(a) => exists|ro: EvalOutcome|
                    #[trigger] witness(ro) && eval_rel(*r, env, ro, f, rnd) && (match ro {
                        EvalOutcome::Val(b) => step_outcome(NumOp::Mul, a, b, out, f, rnd),
                        _ => out == ro,
                    }),
                _ => out == lo,
            }),
        SpecExpr::Div(l, r) => exists|lo: EvalOutcome|
            #[trigger] witness(lo) && eval_rel(*l, env, lo, f, rnd) && (match lo {
                EvalOutcome::Val(a) => exists|ro: EvalOutcome|
                    #[trigger] witness(ro) && eval_rel(*r, env, ro, f, rnd) && (match ro {
                        EvalOutcome::Val(b) => step_outcome(NumOp::Div, a, b, out, f, rnd),
                        _ => out == ro,
                    }),
                _ => out == lo,
            }),
        SpecExpr::Pow(l, r) => exists|lo: EvalOutcome|
            #[trigger] witness(lo) && eval_rel(*l, env, lo, f, rnd) && (match lo {
                EvalOutcome::Val(a) => exists|ro: EvalOutcome|
                    #[trigger] witness(ro) && eval_rel(*r, env, ro, f, rnd) && (match ro {
                        EvalOutcome::Val(b) => step_outcome(NumOp::Pow, a, b, out, f, rnd),
                        _ => out == ro,
                    }),
                _ => out == lo,
            }),
        SpecExpr::Neg(x) => exists|xo: EvalOutcome|
            #[trigger] witness(xo) && eval_rel(*x, env, xo, f, rnd) && (match xo {
                EvalOutcome::Val(a) => out == EvalOutcome::Val(spec_negate(a)),
                _ => out == xo,
            }),
    }
}

/// The names of the variables an expression mentions.
pub open spec fn vars_of(e: SpecExpr) -> Set<Seq<char>>
    decreases e,
{
    match e {
        SpecExpr::Const(_) => Set::empty(),
        SpecExpr::Var(n) => Set::empty().insert(n),
        SpecExpr::Add(l, r) => vars_of(*l) + vars_of(*r),
        SpecExpr::Sub(l, r) => vars_of(*l) + vars_of(*r),
        SpecExpr::Mul(l, r) => vars_of(*l) + vars_of(*r),
        SpecExpr::Div(l, r) => vars_of(*l) + vars_of(*r),
        SpecExpr::Pow(l, r) => vars_of(*l) + vars_of(*r),
        SpecExpr::Neg(x) => vars_of(*x),
    }
}

proof fn lemma_step_outcome_resolves(
    op: NumOp,
    a: u64,
    b: u64,
    out: EvalOutcome,
    f: spec_fn(NumOp, u64, u64, u64) -> bool,
    rnd: spec_fn(u64, u64) -> bool,
)
    requires
        step_outcome(op, a, b, out, f, rnd),
    ensures
        !(out is SymbolNotFound),
{
    if op == NumOp::Pow {
        let v = choose|v: u64|
            witness(v) && f(NumOp::Pow, a, b, v) && (if spec_is_finite(v) {
                exists|w: u64| #[trigger] witness(w) && rnd(v, w) && out == EvalOutcome::Val(w)
            } else {
                out == EvalOutcome::Undefined
            });
        if spec_is_finite(v) {
            let w = choose|w: u64| witness(w) && rnd(v, w) && out == EvalOutcome::Val(w);
        }
    } else {
        let (v, w) = choose|v: u64, w: u64|
            witness((v, w)) && f(op, a, b, v) && rnd(v, w) && out == EvalOutcome::Val(w);
    }
}

/// Law: evaluating the sum of two constants performs exactly one addition
/// of them, followed by one rounding, and never fails — the possible
/// outcomes are precisely the rounded results the supplied arithmetic
/// allows for `a + b`.
pub proof fn lemma_eval_add_consts(
    a: u64,
    b: u64,
    env: Map<Seq<char>, u64>,
    out: EvalOutcome,
    f: spec_fn(NumOp, u64, u64, u64) -> bool,
    rnd: spec_fn(u64, u64) -> bool,
)
    ensures
        eval_rel(
            SpecExpr::Add(Box::new(SpecExpr::Const(a)), Box::new(SpecExpr::Const(b))),
            env,
            out,
            f,
            rnd,
        ) <==> step_outcome(NumOp::Add, a, b, out, f, rnd),
{
    let ca = SpecExpr::Const(a);
    let cb = SpecExpr::Const(b);
    let e = SpecExpr::Add(Box::new(ca), Box::new(cb));
    if eval_rel(e, env, out, f, rnd) {
        let lo = choose|lo: EvalOutcome|
            witness(lo) && eval_rel(ca, env, lo, f, rnd) && (match lo {
                EvalOutcome::Val(aa) => exists|ro: EvalOutcome|
                    #[trigger] witness(ro) && eval_rel(cb, env, ro, f, rnd) && (match ro {
                        EvalOutcome::Val(bb) => step_outcome(NumOp::Add, aa, bb, out, f, rnd),
                        _ => out == ro,
                    }),
                _ => out == lo,
            });
        assert(lo == EvalOutcome::Val(a));
        let ro = choose|ro: EvalOutcome|
            witness(ro) && eval_rel(cb, env, ro, f, rnd) && (match ro {
                EvalOutcome::Val(bb) => step_outcome(NumOp::Add, a, bb, out, f, rnd),
                _ => out == ro,
            });
        assert(ro == EvalOutcome::Val(b));
    }
    if step_outcome(NumOp::Add, a, b, out, f, rnd) {
        assert(witness(EvalOutcome::Val(a)));
        assert(witness(EvalOutcome::Val(b)));
        assert(eval_rel(ca, env, EvalOutcome::Val(a), f, rnd));
        assert(eval_rel(cb, env, EvalOutcome::Val(b), f, rnd));
    }
}

/// Law: evaluating the difference of two constants performs exactly that one
/// operation on them, followed by one rounding, and never fails — the
/// possible outcomes are precisely the rounded results the supplied
/// arithmetic allows for `a - b`.
pub proof fn lemma_eval_sub_consts(
    a: u64,
    b: u64,
    env: Map<Seq<char>, u64>,
    out: EvalOutcome,
    f: spec_fn(NumOp, u64, u64, u64) -> bool,
    rnd: spec_fn(u64, u64) -> bool,
)
    ensures
        eval_rel(
            SpecExpr::Sub(Box::new(SpecExpr::Const(a)), Box::new(SpecExpr::Const(b))),
            env,
            out,
            f,
            rnd,
        ) <==> step_outcome(NumOp::Sub, a, b, out, f, rnd),
{
    let ca = SpecExpr::Const(a);
    let cb = SpecExpr::Const(b);
    let e = SpecExpr::Sub(Box::new(ca), Box::new(cb));
    if eval_rel(e, env, out, f, rnd) {
        let lo = choose|lo: EvalOutcome|
            witness(lo) && eval_rel(ca, env, lo, f, rnd) && (match lo {
                EvalOutcome::Val(aa) => exists|ro: EvalOutcome|
                    #[trigger] witness(ro) && eval_rel(cb, env, ro, f, rnd) && (match ro {
                        EvalOutcome::Val(bb) => step_outcome(NumOp::Sub, aa, bb, out, f, rnd),
                        _ => out == ro,
                    }),
                _ => out == lo,
            });
        assert(lo == EvalOutcome::Val(a));
        let ro = choose|ro: EvalOutcome|
            witness(ro) && eval_rel(cb, env, ro, f, rnd) && (match ro {
                EvalOutcome::Val(bb) => step_outcome(NumOp::Sub, a, bb, out, f, rnd),
                _ => out == ro,
            });
        assert(ro == EvalOutcome::Val(b));
    }
    if step_outcome(NumOp::Sub, a, b, out, f, rnd) {
        assert(witness(EvalOutcome::Val(a)));
        assert(witness(EvalOutcome::Val(b)));
        assert(eval_rel(ca, env, EvalOutcome::Val(a), f, rnd));
        assert(eval_rel(cb, env, EvalOutcome::Val(b), f, rnd));
    }
}

/// Law: evaluating the product of two constants performs exactly that one
/// operation on them, followed by one rounding, and never fails — the
/// possible outcomes are precisely the rounded results the supplied
/// arithmetic allows for `a * b`.
pub proof fn lemma_eval_mul_consts(
    a: u64,
    b: u64,
    env: Map<Seq<char>, u64>,
    out: EvalOutcome,
    f: spec_fn(NumOp, u64, u64, u64) -> bool,
    rnd: spec_fn(u64, u64) -> bool,
)
    ensures
        eval_rel(
            SpecExpr::Mul(Box::new(SpecExpr::Const(a)), Box::new(SpecExpr::Const(b))),
            env,
            out,
            f,
            rnd,
        ) <==> step_outcome(NumOp::Mul, a, b, out, f, rnd),
{
    let ca = SpecExpr::Const(a);
    let cb = SpecExpr::Const(b);
    let e = SpecExpr::Mul(Box::new(ca), Box::new(cb));
    if eval_rel(e, env, out, f, rnd) {
        let lo = choose|lo: EvalOutcome|
            witness(lo) && eval_rel(ca, env, lo, f, rnd) && (match lo {
                EvalOutcome::Val(aa) => exists|ro: EvalOutcome|
                    #[trigger] witness(ro) && eval_rel(cb, env, ro, f, rnd) && (match ro {
                        EvalOutcome::Val(bb) => step_outcome(NumOp::Mul, aa, bb, out, f, rnd),
                        _ => out == ro,
                    }),
                _ => out == lo,
            });
        assert(lo == EvalOutcome::Val(a));
        let ro = choose|ro: EvalOutcome|
            witness(ro) && eval_rel(cb, env, ro, f, rnd) && (match ro {
                EvalOutcome::Val(bb) => step_outcome(NumOp::Mul, a, bb, out, f, rnd),
                _ => out == ro,
            });
        assert(ro == EvalOutcome::Val(b));
    }
    if step_outcome(NumOp::Mul, a, b, out, f, rnd) {
        assert(witness(EvalOutcome::Val(a)));
        assert(witness(EvalOutcome::Val(b)));
        assert(eval_rel(ca, env, EvalOutcome::Val(a), f, rnd));
        assert(eval_rel(cb, env, EvalOutcome::Val(b), f, rnd));
    }
}

/// Law: evaluating the quotient of two constants performs exactly that one
/// operation on them, followed by one rounding, and never fails — the
/// possible outcomes are precisely the rounded results the supplied
/// arithmetic allows for `a / b`.
pub proof fn lemma_eval_div_consts(
    a: u64,
    b: u64,
    env: Map<Seq<char>, u64>,
    out: EvalOutcome,
    f: spec_fn(NumOp, u64, u64, u64) -> bool,
    rnd: spec_fn(u64, u64) -> bool,
)
    ensures
        eval_rel(
            SpecExpr::Div(Box::new(SpecExpr::Const(a)), Box::new(SpecExpr::Const(b))),
            env,
            out,
            f,
            rnd,
        ) <==> step_outcome(NumOp::Div, a, b, out, f, rnd),
{
    let ca = SpecExpr::Const(a);
    let cb = SpecExpr::Const(b);
    let e = SpecExpr::Div(Box::new(ca), Box::new(cb));
    if eval_rel(e, env, out, f, rnd) {
        let lo = choose|lo: EvalOutcome|
            witness(lo) && eval_rel(ca, env, lo, f, rnd) && (match lo {
                EvalOutcome::Val(aa) => exists|ro: EvalOutcome|
                    #[trigger] witness(ro) && eval_rel(cb, env, ro, f, rnd) && (match ro {
                        EvalOutcome::Val(bb) => step_outcome(NumOp::Div, aa, bb, out, f, rnd),
                        _ => out == ro,
                    }),
                _ => out == lo,
            });
        assert(lo == EvalOutcome::Val(a));
        let ro = choose|ro: EvalOutcome|
            witness(ro) && eval_rel(cb, env, ro, f, rnd) && (match ro {
                EvalOutcome::Val(bb) => step_outcome(NumOp::Div, a, bb, out, f, rnd),
                _ => out == ro,
            });
        assert(ro == EvalOutcome::Val(b));
    }
    if step_outcome(NumOp::Div, a, b, out, f, rnd) {
        assert(witness(EvalOutcome::Val(a)));
        assert(witness(EvalOutcome::Val(b)));
        assert(eval_rel(ca, env, EvalOutcome::Val(a), f, rnd));
        assert(eval_rel(cb, env, EvalOutcome::Val(b), f, rnd));
    }
}

/// Law: when every variable of the expression is bound, evaluation never
/// fails with `SymbolNotFound` — the outcome is a value, or `Undefined`
/// from a power. (That it panics on nothing and returns only these
/// outcomes is the verified contract of `eval` itself.)
pub proof fn lemma_eval_resolves_when_bound(
    e: SpecExpr,
    env: Map<Seq<char>, u64>,
    out: EvalOutcome,
    f: spec_fn(NumOp, u64, u64, u64) -> bool,
    rnd: spec_fn(u64, u64) -> bool,
)
    requires
        eval_rel(e, env, out, f, rnd),
        vars_of(e).subset_of(env.dom()),
    ensures
        !(out is SymbolNotFound),
    decreases e,
{
    match e {
        SpecExpr::Const(_) => {},
        SpecExpr::Var(n) => {
            assert(vars_of(e).contains(n));
        },
        SpecExpr::Add(l, r) => {
            let lo = choose|lo: EvalOutcome|
                witness(lo) && eval_rel(*l, env, lo, f, rnd) && (match lo {
                    EvalOutcome::Val(a) => exists|ro: EvalOutcome|
                        #[trigger] witness(ro) && eval_rel(*r, env, ro, f, rnd) && (match ro {
                            EvalOutcome::Val(b) => step_outcome(NumOp::Add, a, b, out, f, rnd),
                            _ => out == ro,
                        }),
                    _ => out == lo,
                });
            lemma_eval_resolves_when_bound(*l, env, lo, f, rnd);
            if lo is Val {
                let a = lo->Val_0;
                let ro = choose|ro: EvalOutcome|
                    witness(ro) && eval_rel(*r, env, ro, f, rnd) && (match ro {
                        EvalOutcome::Val(b) => step_outcome(NumOp::Add, a, b, out, f, rnd),
                        _ => out == ro,
                    });
                lemma_eval_resolves_when_bound(*r, env, ro, f, rnd);
                if ro is Val {
                    lemma_step_outcome_resolves(NumOp::Add, a, ro->Val_0, out, f, rnd);
                }
            }
        },
        SpecExpr::Sub(l, r) => {
            let lo = choose|lo: EvalOutcome|
                witness(lo) && eval_rel(*l, env, lo, f, rnd) && (match lo {
                    EvalOutcome::Val(a) => exists|ro: EvalOutcome|
                        #[trigger] witness(ro) && eval_rel(*r, env, ro, f, rnd) && (match ro {
                            EvalOutcome::Val(b) => step_outcome(NumOp::Sub, a, b, out, f, rnd),
                            _ => out == ro,
                        }),
                    _ => out == lo,
                });
            lemma_eval_resolves_when_bound(*l, env, lo, f, rnd);
            if lo is Val {
                let a = lo->Val_0;
                let ro = choose|ro: EvalOutcome|
                    witness(ro) && eval_rel(*r, env, ro, f, rnd) && (match ro {
                        EvalOutcome::Val(b) => step_outcome(NumOp::Sub, a, b, out, f, rnd),
                        _ => out == ro,
                    });
                lemma_eval_resolves_when_bound(*r, env, ro, f, rnd);
                if ro is Val {
                    lemma_step_outcome_resolves(NumOp::Sub, a, ro->Val_0, out, f, rnd);
                }
            }
        },
        SpecExpr::Mul(l, r) => {
            let lo = choose|lo: EvalOutcome|
                witness(lo) && eval_rel(*l, env, lo, f, rnd) && (match lo {
                    EvalOutcome::Val(a) => exists|ro: EvalOutcome|
                        #[trigger] witness(ro) && eval_rel(*r, env, ro, f, rnd) && (match ro {
                            EvalOutcome::Val(b) => step_outcome(NumOp::Mul, a, b, out, f, rnd),
                            _ => out == ro,
                        }),
                    _ => out == lo,
                });
            lemma_eval_resolves_when_bound(*l, env, lo, f, rnd);
            if lo is Val {
                let a = lo->Val_0;
                let ro = choose|ro: EvalOutcome|
                    witness(ro) && eval_rel(*r, env, ro, f, rnd) && (match ro {
                        EvalOutcome::Val(b) => step_outcome(NumOp::Mul, a, b, out, f, rnd),
                        _ => out == ro,
                    });
                lemma_eval_resolves_when_bound(*r, env, ro, f, rnd);
                if ro is Val {
                    lemma_step_outcome_resolves(NumOp::Mul, a, ro->Val_0, out, f, rnd);
                }
            }
        },
        SpecExpr::Div(l, r) => {
            let lo = choose|lo: EvalOutcome|
                witness(lo) && eval_rel(*l, env, lo, f, rnd) && (match lo {
                    EvalOutcome::Val(a) => exists|ro: EvalOutcome|
                        #[trigger] witness(ro) && eval_rel(*r, env, ro, f, rnd) && (match ro {
                            EvalOutcome::Val(b) => step_outcome(NumOp::Div, a, b, out, f, rnd),
                            _ => out == ro,
                        }),
                    _ => out == lo,
                });
            lemma_eval_resolves_when_bound(*l, env, lo, f, rnd);
            if lo is Val {
                let a = lo->Val_0;
                let ro = choose|ro: EvalOutcome|
                    witness(ro) && eval_rel(*r, env, ro, f, rnd) && (match ro {
                        EvalOutcome::Val(b) => step_outcome(NumOp::Div, a, b, out, f, rnd),
                        _ => out == ro,
                    });
                lemma_eval_resolves_when_bound(*r, env, ro, f, rnd);
                if ro is Val {
                    lemma_step_outcome_resolves(NumOp::Div, a, ro->Val_0, out, f, rnd);
                }
            }
        },
        SpecExpr::Pow(l, r) => {
            let lo = choose|lo: EvalOutcome|
                witness(lo) && eval_rel(*l, env, lo, f, rnd) && (match lo {
                    EvalOutcome::Val(a) => exists|ro: EvalOutcome|
                        #[trigger] witness(ro) && eval_rel(*r, env, ro, f, rnd) && (match ro {
                            EvalOutcome::Val(b) => step_outcome(NumOp::Pow, a, b, out, f, rnd),
                            _ => out == ro,
                        }),
                    _ => out == lo,
                });
            lemma_eval_resolves_when_bound(*l, env, lo, f, rnd);
            if lo is Val {
                let a = lo->Val_0;
                let ro = choose|ro: EvalOutcome|
                    witness(ro) && eval_rel(*r, env, ro, f, rnd) && (match ro {
                        EvalOutcome::Val(b) => step_outcome(NumOp::Pow, a, b, out, f, rnd),
                        _ => out == ro,
                    });
                lemma_eval_resolves_when_bound(*r, env, ro, f, rnd);
                if ro is Val {
                    lemma_step_outcome_resolves(NumOp::Pow, a, ro->Val_0, out, f, rnd);
                }
            }
        },
        SpecExpr::Neg(x) => {
            let xo = choose|xo: EvalOutcome|
                witness(xo) && eval_rel(*x, env, xo, f, rnd) && (match xo {
                    EvalOutcome::Val(a) => out == EvalOutcome::Val(spec_negate(a)),
                    _ => out == xo,
                });
            lemma_eval_resolves_when_bound(*x, env, xo, f, rnd);
        },
    }
}

impl Expr {
    /// Evaluates the expression under the given bindings.
    ///
    /// `ops` supplies the raw double arithmetic on bit patterns and
    /// `round` the rounding policy applied after each binary step — the
    /// caller may round away floating-point noise, or pass the identity.
    /// Negation is done here, by flipping the sign bit, which is exactly
    /// IEEE-754 negation. The first failing subtree aborts the walk:
    /// an unbound variable fails with `SymbolNotFound`, a power whose raw
    /// result is not finite fails with `UndefinedOperation`.
    pub fn eval<F: Fn(NumOp, u64, u64) -> u64, R: Fn(u64) -> u64>(
        &self,
        vars: &Bindings,
        ops: &F,
        round: &R,
    ) -> (res: Result<u64, EvalError>)
        requires
            ops_callable(*ops),
            round_callable(*round),
        ensures
            eval_rel(self@, vars@, outcome_of(res), fold_rel_of(*ops), round_rel_of(*round)),
        decreases self,
    {
        let ghost f = fold_rel_of(*ops);
        let ghost rr = round_rel_of(*round);
        match self {
            Expr::Const(c) => Ok(*c),
            Expr::Symbol(s) => match vars.get(s) {
                Some(v) => Ok(v),
                None => Err(EvalError::SymbolNotFound(s.clone())),
            },
            Expr::Add(l, r) => {
                proof {
                    assert(self@ == SpecExpr::Add(Box::new((**l)@), Box::new((**r)@)));
                }
                let lres = l.eval(vars, ops, round);
                let ghost lo = outcome_of(lres);
                proof {
                    assert(witness(lo));
                }
                let a = match lres {
                    Ok(v) => v,
                    Err(e) => {
                        return Err(e);
                    },
                };
                let rres = r.eval(vars, ops, round);
                let ghost ro = outcome_of(rres);
                proof {
                    assert(witness(ro));
                }
                let b = match rres {
                    Ok(v) => v,
                    Err(e) => {
                        return Err(e);
                    },
                };
                let v = ops(NumOp::Add, a, b);
                let w = round(v);
                proof {
                    assert(witness((v, w)));
                }
                Ok(w)
            },
            Expr::Sub(l, r) => {
                proof {
                    assert(self@ == SpecExpr::Sub(Box::new((**l)@), Box::new((**r)@)));
                }
                let lres = l.eval(vars, ops, round);
                let ghost lo = outcome_of(lres);
                proof {
                    assert(witness(lo));
                }
                let a = match lres {
                    Ok(v) => v,
                    Err(e) => {
                        return Err(e);
                    },
                };
                let rres = r.eval(vars, ops, round);
                let ghost ro = outcome_of(rres);
                proof {
                    assert(witness(ro));
                }
                let b = match rres {
                    Ok(v) => v,
                    Err(e) => {
                        return Err(e);
                    },
                };
                let v = ops(NumOp::Sub, a, b);
                let w = round(v);
                proof {
                    assert(witness((v, w)));
                }
                Ok(w)
            },
            Expr::Mul(l, r) => {
                proof {
                    assert(self@ == SpecExpr::Mul(Box::new((**l)@), Box::new((**r)@)));
                }
                let lres = l.eval(vars, ops, round);
                let ghost lo = outcome_of(lres);
                proof {
                    assert(witness(lo));
                }
                let a = match lres {
                    Ok(v) => v,
                    Err(e) => {
                        return Err(e);
                    },
                };
                let rres = r.eval(vars, ops, round);
                let ghost ro = outcome_of(rres);
                proof {
                    assert(witness(ro));
                }
                let b = match rres {
                    Ok(v) => v,
                    Err(e) => {
                        return Err(e);
                    },
                };
                let v = ops(NumOp::Mul, a, b);
                let w = round(v);
                proof {
                    assert(witness((v, w)));
                }
                Ok(w)
            },
            Expr::Div(l, r) => {
                proof {
                    assert(self@ == SpecExpr::Div(Box::new((**l)@), Box::new((**r)@)));
                }
                let lres = l.eval(vars, ops, round);
                let ghost lo = outcome_of(lres);
                proof {
                    assert(witness(lo));
                }
                let a = match lres {
                    Ok(v) => v,
                    Err(e) => {
                        return Err(e);
                    },
                };
                let rres = r.eval(vars, ops, round);
                let ghost ro = outcome_of(rres);
                proof {
                    assert(witness(ro));
                }
                let b = match rres {
                    Ok(v) => v,
                    Err(e) => {
                        return Err(e);
                    },
                };
                let v = ops(NumOp::Div, a, b);
                let w = round(v);
                proof {
                    assert(witness((v, w)));
                }
                Ok(w)
            },
            Expr::Pow(l, r) => {
                proof {
                    assert(self@ == SpecExpr::Pow(Box::new((**l)@), Box::new((**r)@)));
                }
                let lres = l.eval(vars, ops, round);
                let ghost lo = outcome_of(lres);
                proof {
                    assert(witness(lo));
                }
                let a = match lres {
                    Ok(v) => v,
                    Err(e) => {
                        return Err(e);
                    },
                };
                let rres = r.eval(vars, ops, round);
                let ghost ro = outcome_of(rres);
                proof {
                    assert(witness(ro));
                }
                let b = match rres {
                    Ok(v) => v,
                    Err(e) => {
                        return Err(e);
                    },
                };
                let v = ops(NumOp::Pow, a, b);
                proof {
                    assert(witness(v));
                }
                if is_finite(v) {
                    let w = round(v);
                    proof {
                        assert(witness(w));
                    }
                    Ok(w)
                } else {
                    Err(EvalError::UndefinedOperation)
                }
            },
            Expr::Neg(x) => {
                proof {
                    assert(self@ == SpecExpr::Neg(Box::new((**x)@)));
                }
                let xres = x.eval(vars, ops, round);
                let ghost xo = outcome_of(xres);
                proof {
                    assert(witness(xo));
                }
                let a = match xres {
                    Ok(v) => v,
                    Err(e) => {
                        return Err(e);
                    },
                };
                Ok(negate(a))
            },
        }
    }
}

} // verus!
