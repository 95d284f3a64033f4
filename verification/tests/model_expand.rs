use splat_overload::{
    collect_args, expand, generate_free_functions, generate_methods, is_raw_ident, join_strings,
    methods_from_parts, output_ty_for, str_equals, trait_name_for, unraw_string, ArgModel,
    FnModel, OverloadError, OverloadInput, ReceiverKind,
};

fn typed(name: Option<&str>, ty: &str) -> ArgModel {
    ArgModel::Typed { name: name.map(|n| n.to_string()), ty: ty.to_string() }
}

fn receiver(reference: bool, mutability: bool, text: &str) -> ArgModel {
    ArgModel::Receiver { reference, mutability, text: text.to_string() }
}

fn func(name: &str, inputs: Vec<ArgModel>, output: Option<&str>, block: &str) -> FnModel {
    FnModel {
        name: name.to_string(),
        inputs,
        output: output.map(|o| o.to_string()),
        block: block.to_string(),
    }
}

const DIAGNOSTIC: &str = "#[diagnostic::on_unimplemented(message = \"missing overload for arguments `{Self}`\", label = \"the argument types `{Self}` do not match any overload\", note = \"check for missing or extra arguments, and check argument types\", note = \"consider adding a new overload in the overload! {{ ... }} block\",)] ";

#[test]
fn collect_args_skips_the_receiver() {
    let f = func(
        "check",
        vec![receiver(true, false, "&self"), typed(Some("x"), "i32"), typed(None, "(u8, u8)"), typed(Some("y"), "i32")],
        Some("bool"),
        "{ true }",
    );
    let (types, names, indices) = collect_args(&f);
    assert_eq!(types, vec!["i32", "(u8, u8)", "i32"]);
    assert_eq!(names, vec!["x", "_arg", "y"]);
    assert_eq!(indices, vec!["self.0", "self.1", "self.2"]);
}

#[test]
fn collect_args_counts_past_ten() {
    let inputs: Vec<ArgModel> = (0..12).map(|i| typed(Some(&format!("a{}", i)), "u8")).collect();
    let (_, _, indices) = collect_args(&func("f", inputs, None, "{}"));
    assert_eq!(indices[10], "self.10");
    assert_eq!(indices[11], "self.11");
}

#[test]
fn output_defaults_to_unit() {
    assert_eq!(output_ty_for(&func("f", vec![], None, "{}")), "()");
    assert_eq!(output_ty_for(&func("f", vec![], Some("Vec<i32>"), "{}")), "Vec<i32>");
}

#[test]
fn receiver_kinds() {
    let r = receiver(true, true, "&mut self");
    assert_eq!(ReceiverKind::from_args(&Some(&r)), ReceiverKind::RefMut);
    let r = receiver(true, false, "&self");
    assert_eq!(ReceiverKind::from_args(&Some(&r)), ReceiverKind::Ref);
    let r = receiver(false, false, "self");
    assert_eq!(ReceiverKind::from_args(&Some(&r)), ReceiverKind::Owned);
    let r = receiver(false, true, "mut self");
    assert_eq!(ReceiverKind::from_args(&Some(&r)), ReceiverKind::Owned);
    let t = typed(Some("x"), "i32");
    assert_eq!(ReceiverKind::from_args(&Some(&t)), ReceiverKind::NoReceiver);
    assert_eq!(ReceiverKind::from_args(&None), ReceiverKind::NoReceiver);
}

#[test]
fn free_functions_source() {
    let fns = vec![
        func("foo", vec![typed(Some("x"), "i32")], Some("i32"), "{ x * 2 }"),
        func("foo", vec![typed(Some("x"), "i32"), typed(Some("y"), "i32")], Some("Vec<i32>"), "{ vec![x, y] }"),
    ];
    let out = generate_free_functions(fns);
    let want = format!(
        "{}trait FooArgs: std::marker::Tuple {{ type Output; fn call(self) -> Self::Output; }} \
impl FooArgs for (i32,) {{ type Output = i32; fn call(self) -> Self::Output {{ let x = self.0; {{ x * 2 }} }} }} \
impl FooArgs for (i32, i32,) {{ type Output = Vec<i32>; fn call(self) -> Self::Output {{ let x = self.0; let y = self.1; {{ vec![x, y] }} }} }} \
fn foo<T: FooArgs>(#[rustc_splat] args: T) -> T::Output {{ args.call() }}",
        DIAGNOSTIC
    );
    assert_eq!(out, want);
}

#[test]
fn methods_source() {
    let fns = vec![
        func("check", vec![receiver(true, false, "&self")], Some("bool"), "{ self.threshold > 0 }"),
        func("check", vec![receiver(true, false, "&self"), typed(Some("x"), "i32")], Some("bool"), "{ x >= self.threshold }"),
    ];
    let out = generate_methods("Validator".to_string(), fns);
    let want = format!(
        "{}trait CheckArgs<R>: std::marker::Tuple {{ type Output; fn call(self, this: &R) -> Self::Output; }} \
impl CheckArgs<Validator> for () {{ type Output = bool; fn call(self, this: &Validator) -> Self::Output {{ this.__check_impl_0() }} }} \
impl CheckArgs<Validator> for (i32,) {{ type Output = bool; fn call(self, this: &Validator) -> Self::Output {{ let x = self.0; this.__check_impl_1(x) }} }} \
impl Validator {{ fn __check_impl_0(&self, ) -> bool {{ self.threshold > 0 }} fn __check_impl_1(&self, x: i32) -> bool {{ x >= self.threshold }} \
fn check<T: CheckArgs<Self>>(&self, #[rustc_splat] args: T) -> T::Output {{ args.call(self) }} }}",
        DIAGNOSTIC
    );
    assert_eq!(out, want);
}

#[test]
fn generation_errors() {
    assert_eq!(expand(OverloadInput::Functions(vec![])), Err(OverloadError::EmptyOverloadSet));
    let empty = OverloadInput::Methods { self_ty: "S".to_string(), functions: vec![] };
    assert_eq!(expand(empty), Err(OverloadError::EmptyOverloadSet));
    let mixed = vec![
        func("f", vec![receiver(true, false, "&self")], None, "{}"),
        func("f", vec![typed(Some("x"), "i32")], None, "{}"),
    ];
    let mixed = OverloadInput::Methods { self_ty: "S".to_string(), functions: mixed };
    assert_eq!(expand(mixed), Err(OverloadError::ReceiverMismatch));
    let by_ref_and_by_mut = vec![
        func("f", vec![receiver(true, false, "&self")], None, "{}"),
        func("f", vec![receiver(true, true, "&mut self")], None, "{}"),
    ];
    let by_ref_and_by_mut = OverloadInput::Methods { self_ty: "S".to_string(), functions: by_ref_and_by_mut };
    assert_eq!(expand(by_ref_and_by_mut), Err(OverloadError::ReceiverMismatch));
}

#[test]
fn raw_identifier_names() {
    let out = generate_free_functions(vec![func("r#type", vec![], None, "{}")]);
    let want = format!(
        "{}trait TypeArgs: std::marker::Tuple {{ type Output; fn call(self) -> Self::Output; }} \
impl TypeArgs for () {{ type Output = (); fn call(self) -> Self::Output {{ {{}} }} }} \
fn r#type<T: TypeArgs>(#[rustc_splat] args: T) -> T::Output {{ args.call() }}",
        DIAGNOSTIC
    );
    assert_eq!(out, want);
    let out = generate_methods("S".to_string(), vec![func("r#match", vec![], None, "{}")]);
    assert!(out.contains("fn __match_impl_0() -> () {}"));
    assert!(out.contains("fn r#match<T: MatchArgs<Self>>"));
}

#[test]
fn expand_dispatches_on_input_kind() {
    let free = OverloadInput::Functions(vec![func("g", vec![], None, "{}")]);
    assert!(expand(free).unwrap().ends_with("fn g<T: GArgs>(#[rustc_splat] args: T) -> T::Output { args.call() }"));
    let methods = OverloadInput::Methods {
        self_ty: "S".to_string(),
        functions: vec![func("g", vec![], None, "{}")],
    };
    assert!(expand(methods).unwrap().ends_with("fn g<T: GArgs<Self>>(#[rustc_splat] args: T) -> T::Output { args.call() } }"));
}

#[test]
fn input_from_parts() {
    match methods_from_parts(Some("S".to_string()), vec![Some(func("f", vec![], None, "{}"))]) {
        Ok(OverloadInput::Methods { self_ty, functions }) => {
            assert_eq!(self_ty, "S");
            assert_eq!(functions.len(), 1);
            assert_eq!(functions[0].name, "f");
        }
        _ => panic!("expected methods"),
    }
    assert!(matches!(methods_from_parts(None, vec![]), Err(OverloadError::NotPlainTypeName)));
    assert!(matches!(
        methods_from_parts(Some("S".to_string()), vec![Some(func("f", vec![], None, "{}")), None]),
        Err(OverloadError::NonFnImplItem)
    ));
}

#[test]
fn error_messages() {
    assert_eq!(OverloadError::Parse("expected `fn`".to_string()).message(), "expected `fn`");
    assert_eq!(OverloadError::NotPlainTypeName.message(), "overload! impl block must use a plain type name");
    assert_eq!(OverloadError::NonFnImplItem.message(), "overload! impl block may only contain fn items");
    assert_eq!(OverloadError::EmptyOverloadSet.message(), "index out of bounds: the len is 0 but the index is 0");
    assert_eq!(
        OverloadError::ReceiverMismatch.message(),
        "all overloads must use the same receiver kind (&self, &mut self, self, or no receiver)"
    );
    assert_eq!(OverloadError::Lex("bad".to_string()).message(), "bad");
}

#[test]
fn small_text_helpers() {
    assert_eq!(join_strings(&[], ", "), "");
    assert_eq!(join_strings(&["a".to_string()], ", "), "a");
    assert_eq!(join_strings(&["a".to_string(), "b".to_string(), "c".to_string()], ", "), "a, b, c");
    assert!(str_equals("impl", "impl"));
    assert!(!str_equals("impl", "impls"));
    assert!(!str_equals("impl", "Impl"));
    assert!(is_raw_ident("r#match"));
    assert!(!is_raw_ident("run"));
    assert!(!is_raw_ident("r"));
    assert_eq!(unraw_string("r#match"), "match");
    assert_eq!(unraw_string("run"), "run");
    assert_eq!(unraw_string("r"), "r");
}

#[test]
fn trait_names_are_unique() {
    assert_eq!(trait_name_for("foo"), "FooArgs");
    assert_eq!(trait_name_for("Foo"), "FooArgs_");
    assert_eq!(trait_name_for("_foo"), "_fooArgs");
    assert_ne!(trait_name_for("_Foo"), trait_name_for("Foo"));
    assert_ne!(trait_name_for("foo"), trait_name_for("Foo"));
    assert_ne!(trait_name_for("foo"), trait_name_for("fob"));
    assert_ne!(trait_name_for("foo"), "foo");
    assert_eq!(trait_name_for("r#foo"), trait_name_for("foo"));
    assert_eq!(trait_name_for("r#Foo"), "FooArgs_");
}

#[test]
fn hidden_method_names_are_distinct() {
    let fns = vec![
        func("m", vec![], None, "{ 0 }"),
        func("m", vec![typed(Some("a"), "u8")], None, "{ 1 }"),
        func("m", vec![typed(Some("a"), "u8"), typed(Some("b"), "u8")], None, "{ 2 }"),
    ];
    let out = generate_methods("S".to_string(), fns);
    assert!(out.contains("fn __m_impl_0() -> () { 0 }"));
    assert!(out.contains("fn __m_impl_1(a: u8) -> () { 1 }"));
    assert!(out.contains("fn __m_impl_2(a: u8, b: u8) -> () { 2 }"));
    assert!(out.contains("S::__m_impl_2(a, b)"));
}
