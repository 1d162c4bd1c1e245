use symbolic_math::expr::Expr;
use symbolic_math::numeric::NumOp;

fn num_ops(op: NumOp, a: u64, b: u64) -> u64 {
    let x = f64::from_bits(a);
    let y = f64::from_bits(b);
    let r = match op {
        NumOp::Add => x + y,
        NumOp::Sub => x - y,
        NumOp::Mul => x * y,
        NumOp::Div => x / y,
        NumOp::Pow => x.powf(y),
    };
    r.to_bits()
}

fn val(x: f64) -> Expr {
    Expr::new_val(x.to_bits())
}

#[test]
fn simplify_add_const() {
    let c1 = val(2.0);
    let c2 = val(4.0);
    let res = c1 + c2;

    assert_eq!(res.simplify(&num_ops), val(6.0));
}

#[test]
fn sub_const() {
    let c1 = val(2.0);
    let c2 = val(4.0);
    let res = c1 - c2;

    assert_eq!(res.simplify(&num_ops), val(-2.0));
}

#[test]
fn mul_const() {
    let c1 = val(2.0);
    let c2 = val(4.0);
    let res = c1 * c2;

    assert_eq!(res.simplify(&num_ops), val(8.0));
}

#[test]
fn div_const() {
    let c1 = val(2.0);
    let c2 = val(4.0);
    let res = c1 / c2;

    assert_eq!(res.simplify(&num_ops), val(0.5));
}

#[test]
fn add_like_terms() {
    let x1 = Expr::new_var("x");
    let x2 = Expr::new_var("x");
    let res = x1 + x2;

    assert_eq!(res.simplify(&num_ops), val(2.0) * Expr::new_var("x"));
}

#[test]
fn coefficient_accumulates() {
    let x = Expr::new_var("x");
    // c*x + x becomes (c+1)*x ...
    let res = (val(2.0) * x.clone()) + x.clone();
    assert_eq!(res.simplify(&num_ops), val(3.0) * x.clone());
    // ... on either side, and with the constant on either side of the product.
    let res = x.clone() + (x.clone() * val(4.0));
    assert_eq!(res.simplify(&num_ops), val(5.0) * x.clone());
}

#[test]
fn nested_power_flattens() {
    let a = Expr::new_var("a");
    let b = Expr::new_var("b");
    let c = Expr::new_var("c");
    let res = a.clone().pow(b.clone()).pow(c.clone());

    assert_eq!(res.simplify(&num_ops), a.pow(b * c));
}

#[test]
fn squares_and_exponent_sums() {
    let x = Expr::new_var("x");
    assert_eq!(
        (x.clone() * x.clone()).simplify(&num_ops),
        x.clone().pow(val(2.0))
    );
    let a = Expr::new_var("a");
    let b = Expr::new_var("b");
    // x^a * x^b merges into x^(a+b); the sum is built, not folded, in this pass.
    assert_eq!(
        (x.clone().pow(a.clone()) * x.clone().pow(b.clone())).simplify(&num_ops),
        x.clone().pow(a + b)
    );
}

#[test]
fn identity_elements_drop() {
    let x = Expr::new_var("x");
    assert_eq!((val(0.0) + x.clone()).simplify(&num_ops), x.clone());
    assert_eq!((x.clone() - val(0.0)).simplify(&num_ops), x.clone());
    assert_eq!((x.clone() * val(1.0)).simplify(&num_ops), x.clone());
    assert_eq!((x.clone() / val(1.0)).simplify(&num_ops), x.clone());
    assert_eq!((x.clone() * val(0.0)).simplify(&num_ops), val(0.0));
    assert_eq!((val(0.0) / x.clone()).simplify(&num_ops), val(0.0));
    assert_eq!((x.clone() * val(-1.0)).simplify(&num_ops), -x.clone());
    assert_eq!(x.clone().pow(val(1.0)).simplify(&num_ops), x.clone());
    assert_eq!(x.clone().pow(val(0.0)).simplify(&num_ops), val(1.0));
    assert_eq!(val(1.0).pow(x.clone()).simplify(&num_ops), val(1.0));
}

#[test]
fn one_sided_identities_do_not_flip() {
    let x = Expr::new_var("x");
    // 0 - x is not x: collapsing it would lose the sign.
    assert_eq!(
        (val(0.0) - x.clone()).simplify(&num_ops),
        val(0.0) - x.clone()
    );
    // 1 / x is not x: it is a reciprocal.
    assert_eq!(
        (val(1.0) / x.clone()).simplify(&num_ops),
        val(1.0) / x.clone()
    );
}

#[test]
fn repeated_simplification_converges() {
    // One pass is not idempotent: merging x^2 * x^3 builds the exponent sum
    // 2 + 3, which only the next pass folds. A further pass changes nothing.
    let x = Expr::new_var("x");
    let e = x.clone().pow(val(2.0)) * x.clone().pow(val(3.0));
    let once = e.simplify(&num_ops);
    assert_eq!(once, x.clone().pow(val(2.0) + val(3.0)));
    let twice = once.simplify(&num_ops);
    assert_eq!(twice, x.clone().pow(val(5.0)));
    let thrice = twice.simplify(&num_ops);
    assert_eq!(thrice, twice);
}

#[test]
fn simplify_never_grows() {
    fn size(e: &Expr) -> usize {
        match e {
            Expr::Const(_) | Expr::Symbol(_) => 1,
            Expr::Add(l, r)
            | Expr::Sub(l, r)
            | Expr::Mul(l, r)
            | Expr::Div(l, r)
            | Expr::Pow(l, r) => 1 + size(l) + size(r),
            Expr::Neg(x) => 1 + size(x),
        }
    }
    let x = Expr::new_var("x");
    let y = Expr::new_var("y");
    let samples = vec![
        (x.clone() + x.clone()) + x.clone(),
        x.clone().pow(Expr::new_var("a")).pow(Expr::new_var("b")),
        (val(2.0) * x.clone()) + x.clone(),
        (x.clone() + y.clone()) * (x.clone() - y.clone()),
        -(val(1.5) + val(2.5)),
    ];
    for e in samples {
        let mut cur = e;
        for _ in 0..5 {
            let next = cur.simplify(&num_ops);
            assert!(size(&next) <= size(&cur));
            if next == cur {
                break;
            }
            cur = next;
        }
    }
}
