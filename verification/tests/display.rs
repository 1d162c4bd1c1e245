use symbolic_math::expr::Expr;

fn fmt_const(c: u64) -> String {
    format!("{}", f64::from_bits(c))
}

fn val(x: f64) -> Expr {
    Expr::new_val(x.to_bits())
}

#[test]
fn operators_are_parenthesized() {
    let x = Expr::new_var("x");
    let y = Expr::new_var("y");
    assert_eq!(
        (x.clone() + y.clone()).to_display_string(&fmt_const),
        "(x + y)"
    );
    assert_eq!(
        (x.clone() - y.clone()).to_display_string(&fmt_const),
        "(x - y)"
    );
    assert_eq!(
        (x.clone() / y.clone()).to_display_string(&fmt_const),
        "(x / y)"
    );
    assert_eq!(
        x.clone().pow(y.clone()).to_display_string(&fmt_const),
        "(x ^ y)"
    );
    assert_eq!((-x.clone()).to_display_string(&fmt_const), "-x");
}

#[test]
fn coefficients_read_as_one_word() {
    let x = Expr::new_var("x");
    assert_eq!((val(2.0) * x.clone()).to_display_string(&fmt_const), "2x");
    assert_eq!((x.clone() * val(2.0)).to_display_string(&fmt_const), "2x");
    assert_eq!(
        (val(2.0) * val(3.0)).to_display_string(&fmt_const),
        "(2 * 3)"
    );
}

#[test]
fn constants_use_number_formatting() {
    assert_eq!(val(2.5).to_display_string(&fmt_const), "2.5");
    assert_eq!(val(-1.0).to_display_string(&fmt_const), "-1");
    assert_eq!(Expr::new_var("speed").to_display_string(&fmt_const), "speed");
}

#[test]
fn nested_rendering() {
    let x = Expr::new_var("x");
    let y = Expr::new_var("y");
    let e = (x.clone() + y.clone()).pow(val(2.0)) / x.clone();
    assert_eq!(e.to_display_string(&fmt_const), "(((x + y) ^ 2) / x)");
}
