use vstd::prelude::*;

use crate::expr::{Expr, SpecExpr};

verus! {

// Takes ownership
impl Expr {
    /// Raises an `Expr` to the power of another, creating a new `Expr::Pow`
    /// node that owns both operands.
    pub fn pow(self, expr: Expr) -> (r: Expr)
        ensures
            r@ == SpecExpr::Pow(Box::new(self@), Box::new(expr@)),
    {
        Expr::Pow(Box::new(self), Box::new(expr))
    }
}

// Operator overloads building tree nodes. Each returns a new node owning
// its operands; the `u64` forms take the bits of an IEEE-754 double, for
// mixing literals into an expression.
impl core::ops::Add for Expr {
    type Output = Expr;

    fn add(self, rhs: Expr) -> (r: Expr) {
        Expr::Add(Box::new(self), Box::new(rhs))
    }
}

impl vstd::std_specs::ops::AddSpecImpl for Expr {
    open spec fn obeys_add_spec() -> bool {
        true
    }

    open spec fn add_req(self, rhs: Expr) -> bool {
        true
    }

    open spec fn add_spec(self, rhs: Expr) -> Expr {
        Expr::Add(Box::new(self), Box::new(rhs))
    }
}

impl core::ops::Add<u64> for Expr {
    type Output = Expr;

    fn add(self, rhs: u64) -> (r: Expr) {
        Expr::Add(Box::new(self), Box::new(Expr::Const(rhs)))
    }
}

impl vstd::std_specs::ops::AddSpecImpl<u64> for Expr {
    open spec fn obeys_add_spec() -> bool {
        true
    }

    open spec fn add_req(self, rhs: u64) -> bool {
        true
    }

    open spec fn add_spec(self, rhs: u64) -> Expr {
        Expr::Add(Box::new(self), Box::new(Expr::Const(rhs)))
    }
}

impl core::ops::Add<Expr> for u64 {
    type Output = Expr;

    fn add(self, rhs: Expr) -> (r: Expr) {
        Expr::Add(Box::new(Expr::Const(self)), Box::new(rhs))
    }
}

impl vstd::std_specs::ops::AddSpecImpl<Expr> for u64 {
    open spec fn obeys_add_spec() -> bool {
        true
    }

    open spec fn add_req(self, rhs: Expr) -> bool {
        true
    }

    open spec fn add_spec(self, rhs: Expr) -> Expr {
        Expr::Add(Box::new(Expr::Const(self)), Box::new(rhs))
    }
}

impl core::ops::Sub for Expr {
    type Output = Expr;

    fn sub(self, rhs: Expr) -> (r: Expr) {
        Expr::Sub(Box::new(self), Box::new(rhs))
    }
}

impl vstd::std_specs::ops::SubSpecImpl for Expr {
    open spec fn obeys_sub_spec() -> bool {
        true
    }

    open spec fn sub_req(self, rhs: Expr) -> bool {
        true
    }

    open spec fn sub_spec(self, rhs: Expr) -> Expr {
        Expr::Sub(Box::new(self), Box::new(rhs))
    }
}

impl core::ops::Sub<u64> for Expr {
    type Output = Expr;

    fn sub(self, rhs: u64) -> (r: Expr) {
        Expr::Sub(Box::new(self), Box::new(Expr::Const(rhs)))
    }
}

impl vstd::std_specs::ops::SubSpecImpl<u64> for Expr {
    open spec fn obeys_sub_spec() -> bool {
        true
    }

    open spec fn sub_req(self, rhs: u64) -> bool {
        true
    }

    open spec fn sub_spec(self, rhs: u64) -> Expr {
        Expr::Sub(Box::new(self), Box::new(Expr::Const(rhs)))
    }
}

impl core::ops::Sub<Expr> for u64 {
    type Output = Expr;

    fn sub(self, rhs: Expr) -> (r: Expr) {
        Expr::Sub(Box::new(Expr::Const(self)), Box::new(rhs))
    }
}

impl vstd::std_specs::ops::SubSpecImpl<Expr> for u64 {
    open spec fn obeys_sub_spec() -> bool {
        true
    }

    open spec fn sub_req(self, rhs: Expr) -> bool {
        true
    }

    open spec fn sub_spec(self, rhs: Expr) -> Expr {
        Expr::Sub(Box::new(Expr::Const(self)), Box::new(rhs))
    }
}

impl core::ops::Mul for Expr {
    type Output = Expr;

    fn mul(self, rhs: Expr) -> (r: Expr) {
        Expr::Mul(Box::new(self), Box::new(rhs))
    }
}

impl vstd::std_specs::ops::MulSpecImpl for Expr {
    open spec fn obeys_mul_spec() -> bool {
        true
    }

    open spec fn mul_req(self, rhs: Expr) -> bool {
        true
    }

    open spec fn mul_spec(self, rhs: Expr) -> Expr {
        Expr::Mul(Box::new(self), Box::new(rhs))
    }
}

impl core::ops::Mul<u64> for Expr {
    type Output = Expr;

    fn mul(self, rhs: u64) -> (r: Expr) {
        Expr::Mul(Box::new(self), Box::new(Expr::Const(rhs)))
    }
}

impl vstd::std_specs::ops::MulSpecImpl<u64> for Expr {
    open spec fn obeys_mul_spec() -> bool {
        true
    }

    open spec fn mul_req(self, rhs: u64) -> bool {
        true
    }

    open spec fn mul_spec(self, rhs: u64) -> Expr {
        Expr::Mul(Box::new(self), Box::new(Expr::Const(rhs)))
    }
}

impl core::ops::Mul<Expr> for u64 {
    type Output = Expr;

    fn mul(self, rhs: Expr) -> (r: Expr) {
        Expr::Mul(Box::new(Expr::Const(self)), Box::new(rhs))
    }
}

impl vstd::std_specs::ops::MulSpecImpl<Expr> for u64 {
    open spec fn obeys_mul_spec() -> bool {
        true
    }

    open spec fn mul_req(self, rhs: Expr) -> bool {
        true
    }

    open spec fn mul_spec(self, rhs: Expr) -> Expr {
        Expr::Mul(Box::new(Expr::Const(self)), Box::new(rhs))
    }
}

impl core::ops::Div for Expr {
    type Output = Expr;

    fn div(self, rhs: Expr) -> (r: Expr) {
        Expr::Div(Box::new(self), Box::new(rhs))
    }
}

impl vstd::std_specs::ops::DivSpecImpl for Expr {
    open spec fn obeys_div_spec() -> bool {
        true
    }

    open spec fn div_req(self, rhs: Expr) -> bool {
        true
    }

    open spec fn div_spec(self, rhs: Expr) -> Expr {
        Expr::Div(Box::new(self), Box::new(rhs))
    }
}

impl core::ops::Div<u64> for Expr {
    type Output = Expr;

    fn div(self, rhs: u64) -> (r: Expr) {
        Expr::Div(Box::new(self), Box::new(Expr::Const(rhs)))
    }
}

impl vstd::std_specs::ops::DivSpecImpl<u64> for Expr {
    open spec fn obeys_div_spec() -> bool {
        true
    }

    open spec fn div_req(self, rhs: u64) -> bool {
        true
    }

    open spec fn div_spec(self, rhs: u64) -> Expr {
        Expr::Div(Box::new(self), Box::new(Expr::Const(rhs)))
    }
}

impl core::ops::Div<Expr> for u64 {
    type Output = Expr;

    fn div(self, rhs: Expr) -> (r: Expr) {
        Expr::Div(Box::new(Expr::Const(self)), Box::new(rhs))
    }
}

impl vstd::std_specs::ops::DivSpecImpl<Expr> for u64 {
    open spec fn obeys_div_spec() -> bool {
        true
    }

    open spec fn div_req(self, rhs: Expr) -> bool {
        true
    }

    open spec fn div_spec(self, rhs: Expr) -> Expr {
        Expr::Div(Box::new(Expr::Const(self)), Box::new(rhs))
    }
}

impl core::ops::Neg for Expr {
    type Output = Expr;

    fn neg(self) -> (r: Expr) {
        Expr::Neg(Box::new(self))
    }
}

impl vstd::std_specs::ops::NegSpecImpl for Expr {
    open spec fn obeys_neg_spec() -> bool {
        true
    }

    open spec fn neg_req(self) -> bool {
        true
    }

    open spec fn neg_spec(self) -> Expr {
        Expr::Neg(Box::new(self))
    }
}

} // verus!
