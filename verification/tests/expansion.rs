use symbolic_math::expr::Expr;

fn val(x: f64) -> Expr {
    Expr::new_val(x.to_bits())
}

#[test]
fn test_expansion() {
    // Testing (a + b) * c -> a*c + b*c
    let x = Expr::new_var("x");
    let y = Expr::new_var("y");
    let res = (x.clone() + y.clone()) * val(2.0);
    assert_eq!(res.expand(), x.clone() * val(2.0) + y.clone() * val(2.0));

    // Testing c * (a - b) -> c*a - c*b
    let a = val(3.0);
    let b = val(2.0);
    let c = Expr::new_var("c");
    let res = c.clone() * (a.clone() - b.clone());
    assert_eq!(res.expand(), c.clone() * a.clone() - c.clone() * b.clone());
}

#[test]
fn expansion_is_recursive() {
    // (x + y) * (a + b) distributes fully.
    let x = Expr::new_var("x");
    let y = Expr::new_var("y");
    let a = Expr::new_var("a");
    let b = Expr::new_var("b");
    let res = (x.clone() + y.clone()) * (a.clone() + b.clone());
    let expected = (a.clone() * x.clone() + b.clone() * x.clone())
        + (a.clone() * y.clone() + b.clone() * y.clone());
    assert_eq!(res.expand(), expected);
}

#[test]
fn expansion_leaves_other_nodes_alone() {
    let x = Expr::new_var("x");
    let y = Expr::new_var("y");
    let e = (x.clone() / y.clone()).pow(val(2.0)) + -(x.clone() * y.clone());
    assert_eq!(e.expand(), e);
}
