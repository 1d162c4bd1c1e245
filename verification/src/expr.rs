pub mod display;
pub mod eval;
pub mod expansion;
pub mod operations;
pub mod simplify;

use vstd::prelude::*;

use crate::symbol::Symbol;

verus! {

/// The mathematical model of an expression tree, used in every contract of
/// this crate. A variable is its name, a constant is the 64 bits of the
/// IEEE-754 double it stands for; the operator nodes mirror `Expr` exactly.
pub enum SpecExpr {
    Const(u64),
    Var(Seq<char>),
    Add(Box<SpecExpr>, Box<SpecExpr>),
    Sub(Box<SpecExpr>, Box<SpecExpr>),
    Mul(Box<SpecExpr>, Box<SpecExpr>),
    Div(Box<SpecExpr>, Box<SpecExpr>),
    Pow(Box<SpecExpr>, Box<SpecExpr>),
    Neg(Box<SpecExpr>),
}

impl SpecExpr {
    /// Number of nodes in the tree.
    pub open spec fn size(self) -> nat
        decreases self,
    {
        match self {
            SpecExpr::Const(_) => 1,
            SpecExpr::Var(_) => 1,
            SpecExpr::Add(l, r) => 1 + l.size() + r.size(),
            SpecExpr::Sub(l, r) => 1 + l.size() + r.size(),
            SpecExpr::Mul(l, r) => 1 + l.size() + r.size(),
            SpecExpr::Div(l, r) => 1 + l.size() + r.size(),
            SpecExpr::Pow(l, r) => 1 + l.size() + r.size(),
            SpecExpr::Neg(x) => 1 + x.size(),
        }
    }
}

/// Represents a mathematical expression.
///
/// Expressions are constants, symbolic variables, or operations (addition,
/// subtraction, multiplication, division, exponentiation, negation) over
/// other expressions, allowing complex, nested expressions to be built.
///
/// A constant carries the 64 bits of an IEEE-754 double, since Verus gives
/// no floating-point type; `f64::to_bits` and `f64::from_bits` convert
/// losslessly at the crate's boundary. Structural equality compares
/// constants by bit pattern.
#[derive(Debug)]
pub enum Expr {
    /// A constant: the bits of an IEEE-754 double.
    Const(u64),
    /// A symbolic variable.
    Symbol(Symbol),
    /// Addition of two expressions.
    Add(Box<Expr>, Box<Expr>),
    /// Subtraction of two expressions.
    Sub(Box<Expr>, Box<Expr>),
    /// Multiplication of two expressions.
    Mul(Box<Expr>, Box<Expr>),
    /// Division of two expressions.
    Div(Box<Expr>, Box<Expr>),
    /// Exponentiation of two expressions.
    Pow(Box<Expr>, Box<Expr>),
    /// Negation of an expression.
    Neg(Box<Expr>),
}

impl View for Expr {
    type V = SpecExpr;

    open spec fn view(&self) -> SpecExpr
        decreases self,
    {
        match self {
            Expr::Const(c) => SpecExpr::Const(*c),
            Expr::Symbol(s) => SpecExpr::Var(s@),
            Expr::Add(l, r) => SpecExpr::Add(Box::new((**l)@), Box::new((**r)@)),
            Expr::Sub(l, r) => SpecExpr::Sub(Box::new((**l)@), Box::new((**r)@)),
            Expr::Mul(l, r) => SpecExpr::Mul(Box::new((**l)@), Box::new((**r)@)),
            Expr::Div(l, r) => SpecExpr::Div(Box::new((**l)@), Box::new((**r)@)),
            Expr::Pow(l, r) => SpecExpr::Pow(Box::new((**l)@), Box::new((**r)@)),
            Expr::Neg(x) => SpecExpr::Neg(Box::new((**x)@)),
        }
    }
}

// Constructors
impl Expr {
    /// Constructs a new symbolic variable with the given name.
    pub fn new_var(name: &str) -> (e: Expr)
        ensures
            e@ == SpecExpr::Var(name@),
    {
        Expr::Symbol(Symbol::new(name))
    }

    /// Constructs a new constant from the bits of an IEEE-754 double.
    pub fn new_val(bits: u64) -> (e: Expr)
        ensures
            e@ == SpecExpr::Const(bits),
    {
        Expr::Const(bits)
    }
}

// Borrows data
impl Expr {
    /// If the expression is a symbolic variable, returns the symbol;
    /// otherwise, returns `None`.
    pub fn get_symbol(&self) -> (s: Option<Symbol>)
        ensures
            match s {
                Some(sym) => self@ == SpecExpr::Var(sym@),
                None => !(self@ is Var),
            },
    {
        match self {
            Expr::Symbol(s) => Some(s.clone()),
            _ => None,
        }
    }

    /// Whether the expression is a constant.
    pub(crate) fn is_const(&self) -> (r: bool)
        ensures
            r == (self@ is Const),
    {
        match self {
            Expr::Const(_) => true,
            _ => false,
        }
    }

    /// The bits of a constant expression. Calling this on a non-constant
    /// node is a contract violation, which verification rules out.
    pub(crate) fn get_const(&self) -> (c: u64)
        requires
            self@ is Const,
        ensures
            self@ == SpecExpr::Const(c),
    {
        match self {
            Expr::Const(c) => *c,
            _ => unreached(),
        }
    }
}

/// Structural equality: same shape, same names, and bitwise-equal constants.
fn eq_expr(a: &Expr, b: &Expr) -> (r: bool)
    ensures
        r == (a@ == b@),
    decreases a,
{
    match (a, b) {
        (Expr::Const(x), Expr::Const(y)) => x == y,
        (Expr::Symbol(s), Expr::Symbol(t)) => s == t,
        (Expr::Add(l1, r1), Expr::Add(l2, r2)) => eq_expr(l1, l2) && eq_expr(r1, r2),
        (Expr::Sub(l1, r1), Expr::Sub(l2, r2)) => eq_expr(l1, l2) && eq_expr(r1, r2),
        (Expr::Mul(l1, r1), Expr::Mul(l2, r2)) => eq_expr(l1, l2) && eq_expr(r1, r2),
        (Expr::Div(l1, r1), Expr::Div(l2, r2)) => eq_expr(l1, l2) && eq_expr(r1, r2),
        (Expr::Pow(l1, r1), Expr::Pow(l2, r2)) => eq_expr(l1, l2) && eq_expr(r1, r2),
        (Expr::Neg(x1), Expr::Neg(x2)) => eq_expr(x1, x2),
        _ => false,
    }
}

impl PartialEq for Expr {
    fn eq(&self, other: &Expr) -> (r: bool) {
        eq_expr(self, other)
    }
}

impl vstd::std_specs::cmp::PartialEqSpecImpl for Expr {
    open spec fn obeys_eq_spec() -> bool {
        true
    }

    open spec fn eq_spec(&self, other: &Expr) -> bool {
        self@ == other@
    }
}

fn clone_expr(e: &Expr) -> (r: Expr)
    ensures
        r@ == e@,
    decreases e,
{
    match e {
        Expr::Const(c) => Expr::Const(*c),
        Expr::Symbol(s) => Expr::Symbol(s.clone()),
        Expr::Add(l, r) => Expr::Add(Box::new(clone_expr(l)), Box::new(clone_expr(r))),
        Expr::Sub(l, r) => Expr::Sub(Box::new(clone_expr(l)), Box::new(clone_expr(r))),
        Expr::Mul(l, r) => Expr::Mul(Box::new(clone_expr(l)), Box::new(clone_expr(r))),
        Expr::Div(l, r) => Expr::Div(Box::new(clone_expr(l)), Box::new(clone_expr(r))),
        Expr::Pow(l, r) => Expr::Pow(Box::new(clone_expr(l)), Box::new(clone_expr(r))),
        Expr::Neg(x) => Expr::Neg(Box::new(clone_expr(x))),
    }
}

impl Clone for Expr {
    fn clone(&self) -> (r: Expr)
        ensures
            r@ == self@,
    {
        clone_expr(self)
    }
}

} // verus!
