use splat_overload::{decimal_string, trait_name_for, tuple_ty_for};

#[test]
fn trait_name_capitalises_first_char() {
    assert_eq!(trait_name_for("foo"), "FooArgs");
    assert_eq!(trait_name_for("compute"), "ComputeArgs");
    assert_eq!(trait_name_for("_x"), "_xArgs");
    assert_eq!(trait_name_for("zeta"), "ZetaArgs");
    assert_eq!(trait_name_for("éclair"), "éclairArgs");
    assert_eq!(trait_name_for("Zeta"), "ZetaArgs_");
    assert_eq!(trait_name_for(""), "Args");
}

#[test]
fn decimal_texts() {
    assert_eq!(decimal_string(0), "0");
    assert_eq!(decimal_string(7), "7");
    assert_eq!(decimal_string(10), "10");
    assert_eq!(decimal_string(1234), "1234");
}

#[test]
fn tuple_types() {
    assert_eq!(tuple_ty_for(&[]), "()");
    assert_eq!(tuple_ty_for(&["i32".to_string()]), "(i32,)");
    assert_eq!(tuple_ty_for(&["i32".to_string(), "f64".to_string()]), "(i32, f64,)");
}
