use symbolic_math::bindings::Bindings;
use symbolic_math::expr::eval::EvalError;
use symbolic_math::expr::Expr;
use symbolic_math::numeric::NumOp;
use symbolic_math::symbol::Symbol;

fn num_ops(op: NumOp, a: u64, b: u64) -> u64 {
    let x = f64::from_bits(a);
    let y = f64::from_bits(b);
    let r = match op {
        NumOp::Add => x + y,
        NumOp::Sub => x - y,
        NumOp::Mul => x * y,
        NumOp::Div => x / y,
        NumOp::Pow => x.powf(y),
    };
    r.to_bits()
}

/// Rounds to the 14th decimal place, suppressing floating-point noise.
fn round14(v: u64) -> u64 {
    ((f64::from_bits(v) * 10e14).round() / 10e14).to_bits()
}

#[test]
fn eval_basic_operations() {
    let x = Expr::new_var("x");
    let y = Expr::new_var("y");
    let mut vars = Bindings::new();
    vars.insert(x.get_symbol().unwrap(), 2.0f64.to_bits());
    vars.insert(y.get_symbol().unwrap(), 3.0f64.to_bits());

    let res_add = x.clone() + y.clone();
    assert_eq!(res_add.eval(&vars, &num_ops, &round14).unwrap(), 5.0f64.to_bits());
    let res_sub = x.clone() - y.clone();
    assert_eq!(res_sub.eval(&vars, &num_ops, &round14).unwrap(), (-1.0f64).to_bits());
    let res_mul = x.clone() * y.clone();
    assert_eq!(res_mul.eval(&vars, &num_ops, &round14).unwrap(), 6.0f64.to_bits());
    let res_div = y.clone() / x.clone();
    assert_eq!(res_div.eval(&vars, &num_ops, &round14).unwrap(), 1.5f64.to_bits());

    let res_complicated = (res_add.pow(res_sub) * res_div) * res_mul;
    assert_eq!(res_complicated.eval(&vars, &num_ops, &round14).unwrap(), 1.8f64.to_bits());
}

#[test]
fn eval_eval_basic_operations() {
    let x = Expr::new_var("x");
    let y = Expr::new_var("y");
    let mut vars = Bindings::new();
    vars.insert(x.get_symbol().unwrap(), 2.0f64.to_bits());
    vars.insert(y.get_symbol().unwrap(), 3.0f64.to_bits());

    let res_add = x.clone() + y.clone();
    assert_eq!(res_add.eval(&vars, &num_ops, &round14).unwrap(), 5.0f64.to_bits());
    let res_sub = x.clone() - y.clone();
    assert_eq!(res_sub.eval(&vars, &num_ops, &round14).unwrap(), (-1.0f64).to_bits());
    let res_mul = x.clone() * y.clone();
    assert_eq!(res_mul.eval(&vars, &num_ops, &round14).unwrap(), 6.0f64.to_bits());
    let res_div = y.clone() / x.clone();
    assert_eq!(res_div.eval(&vars, &num_ops, &round14).unwrap(), 1.5f64.to_bits());

    let res_complicated = (res_add.pow(res_sub) * res_div) * res_mul;
    assert_eq!(res_complicated.eval(&vars, &num_ops, &round14).unwrap(), 1.8f64.to_bits());
}

#[test]
fn unbound_variable_fails() {
    let x = Expr::new_var("x");
    let vars = Bindings::new();
    match x.eval(&vars, &num_ops, &round14) {
        Err(EvalError::SymbolNotFound(s)) => assert_eq!(s.name, "x"),
        other => panic!("expected SymbolNotFound, got {:?}", other),
    }
}

#[test]
fn fractional_power_of_negative_base_fails() {
    let e = Expr::new_val((-1.0f64).to_bits()).pow(Expr::new_val(0.5f64.to_bits()));
    let vars = Bindings::new();
    assert!(matches!(
        e.eval(&vars, &num_ops, &round14),
        Err(EvalError::UndefinedOperation)
    ));
}

#[test]
fn overflowing_power_fails() {
    let e = Expr::new_val(1.0e300f64.to_bits()).pow(Expr::new_val(2.0f64.to_bits()));
    let vars = Bindings::new();
    assert!(matches!(
        e.eval(&vars, &num_ops, &round14),
        Err(EvalError::UndefinedOperation)
    ));
}

#[test]
fn division_by_zero_is_not_an_error() {
    let e = Expr::new_val(1.0f64.to_bits()) / Expr::new_val(0.0f64.to_bits());
    let vars = Bindings::new();
    let r = e.eval(&vars, &num_ops, &round14).unwrap();
    assert!(f64::from_bits(r).is_infinite());
}

#[test]
fn negation_and_constants() {
    let e = -Expr::new_val(2.5f64.to_bits());
    let vars = Bindings::new();
    assert_eq!(e.eval(&vars, &num_ops, &round14).unwrap(), (-2.5f64).to_bits());
}

#[test]
fn end_to_end_sum_of_products() {
    let x = Expr::new_var("x");
    let y = Expr::new_var("y");
    let c = Expr::new_val(3.0f64.to_bits());
    let p = Expr::new_val(2.0f64.to_bits());
    let mut vars = Bindings::new();
    vars.insert(x.get_symbol().unwrap(), 1.0f64.to_bits());
    vars.insert(y.get_symbol().unwrap(), 2.0f64.to_bits());

    let res = (x + y * c.pow(p)).eval(&vars, &num_ops, &round14).unwrap();
    assert_eq!(res, 19.0f64.to_bits());
}

#[test]
fn first_error_wins() {
    // The left subtree is evaluated first, so its missing symbol is the
    // error reported, although the right subtree also fails.
    let e = Expr::new_var("a") + Expr::new_var("b");
    let vars = Bindings::new();
    match e.eval(&vars, &num_ops, &round14) {
        Err(EvalError::SymbolNotFound(s)) => assert_eq!(s.name, "a"),
        other => panic!("expected SymbolNotFound, got {:?}", other),
    }
}

#[test]
fn bindings_replace_and_lookup() {
    let mut vars = Bindings::new();
    assert_eq!(vars.get(&Symbol::new("x")), None);
    assert_eq!(vars.insert(Symbol::new("x"), 1.0f64.to_bits()), None);
    assert_eq!(
        vars.insert(Symbol::new("x"), 2.0f64.to_bits()),
        Some(1.0f64.to_bits())
    );
    assert_eq!(vars.get(&Symbol::new("x")), Some(2.0f64.to_bits()));
    assert_eq!(vars.get(&Symbol::new("y")), None);
}
