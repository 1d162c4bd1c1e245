use symbolic_math::symbol::Symbol;

#[test]
fn correct_name() {
    let symbol = Symbol::new("x");
    assert_eq!(symbol.name, "x");
}

#[test]
fn symbols_compare_by_name() {
    assert_eq!(Symbol::new("x"), Symbol::new("x"));
    assert_ne!(Symbol::new("x"), Symbol::new("y"));
    assert_eq!(Symbol::new("x").clone(), Symbol::new("x"));
}
