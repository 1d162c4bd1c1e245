use symbolic_math::expr::Expr;
use symbolic_math::symbol::Symbol;

#[test]
fn expr_add_const() {
    let lhs = Expr::Const(2.0f64.to_bits());
    let rhs = Expr::Const(4.0f64.to_bits());
    assert_eq!(
        Expr::Add(Box::new(lhs.clone()), Box::new(rhs.clone())),
        lhs + rhs
    );
}

#[test]
fn test_add() {
    let x = Expr::new_var("x");
    let two = 2.0f64.to_bits();
    assert_eq!(x.clone() + Expr::new_val(two), x.clone() + two);
    assert_eq!(Expr::new_val(two) + x.clone(), two + x.clone());
}

#[test]
fn test_sub() {
    let x = Expr::new_var("x");
    let two = 2.0f64.to_bits();
    assert_eq!(x.clone() - Expr::new_val(two), x.clone() - two);
    assert_eq!(Expr::new_val(two) - x.clone(), two - x.clone());
}

#[test]
fn test_mul() {
    let x = Expr::new_var("x");
    let two = 2.0f64.to_bits();
    assert_eq!(x.clone() * Expr::new_val(two), x.clone() * two);
    assert_eq!(Expr::new_val(two) * x.clone(), two * x.clone());
}

#[test]
fn test_div() {
    let x = Expr::new_var("x");
    let two = 2.0f64.to_bits();
    assert_eq!(x.clone() / Expr::new_val(two), x.clone() / two);
    assert_eq!(Expr::new_val(two) / x.clone(), two / x.clone());
}

#[test]
fn pow_builds_a_pow_node() {
    let a = Expr::new_val(2.0f64.to_bits());
    let b = Expr::new_val(3.0f64.to_bits());
    assert_eq!(
        a.clone().pow(b.clone()),
        Expr::Pow(Box::new(a), Box::new(b))
    );
}

#[test]
fn get_symbol_only_on_variables() {
    let x = Expr::new_var("x");
    assert_eq!(x.get_symbol().unwrap(), Symbol::new("x"));
    assert_eq!(Expr::new_val(1.0f64.to_bits()).get_symbol(), None);
    assert_eq!((x.clone() + x).get_symbol(), None);
}

#[test]
fn structural_equality_is_syntactic() {
    let x = Expr::new_var("x");
    let one = Expr::new_val(1.0f64.to_bits());
    // An unsimplified and a simplified form of "the same" expression are
    // not equal unless syntactically identical.
    assert_ne!(x.clone() * one.clone(), x.clone());
    assert_eq!(x.clone() * one.clone(), x.clone() * one.clone());
    assert_ne!(x.clone() + one.clone(), one.clone() + x.clone());
    assert_eq!((-x.clone()).clone(), -x);
}
