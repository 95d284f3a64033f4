use proc_macro2::TokenStream;
use splat_overload::{overload, ArgModel, OverloadError, OverloadInput};

const DIAGNOSTIC: &str = "#[diagnostic::on_unimplemented(message = \"missing overload for arguments `{Self}`\", label = \"the argument types `{Self}` do not match any overload\", note = \"check for missing or extra arguments, and check argument types\", note = \"consider adding a new overload in the overload! {{ ... }} block\",)]";

fn tokens(src: &str) -> TokenStream {
    src.parse::<TokenStream>().unwrap()
}

/// The tokens of `ts`, one text each, with the groups' delimiters written out; the
/// spacing of punctuation is left out.
fn token_texts(ts: &TokenStream, out: &mut Vec<String>) {
    for tt in ts.clone() {
        match tt {
            proc_macro2::TokenTree::Group(g) => {
                let (open, close) = match g.delimiter() {
                    proc_macro2::Delimiter::Parenthesis => ("(", ")"),
                    proc_macro2::Delimiter::Brace => ("{", "}"),
                    proc_macro2::Delimiter::Bracket => ("[", "]"),
                    proc_macro2::Delimiter::None => ("<none>", "</none>"),
                };
                out.push(open.to_string());
                token_texts(&g.stream(), out);
                out.push(close.to_string());
            }
            proc_macro2::TokenTree::Punct(p) => out.push(p.as_char().to_string()),
            other => out.push(other.to_string()),
        }
    }
}

fn shape(ts: &TokenStream) -> String {
    let mut out = Vec::new();
    token_texts(ts, &mut out);
    out.join(" ")
}

fn expand_src(src: &str) -> Result<String, OverloadError> {
    overload(tokens(src)).map(|t| shape(&t))
}

fn expected(src: &str) -> String {
    shape(&tokens(&format!("{} {}", DIAGNOSTIC, src)))
}

#[test]
fn free_functions_with_return_values() {
    let out = expand_src("fn foo(x: i32) -> i32 { x * 2 } fn foo(x: f64) -> f64 { x * 2.0 }").unwrap();
    let want = expected(
        "trait FooArgs: std::marker::Tuple { type Output; fn call(self) -> Self::Output; } \
         impl FooArgs for (i32,) { type Output = i32; fn call(self) -> Self::Output { let x = self.0; { x * 2 } } } \
         impl FooArgs for (f64,) { type Output = f64; fn call(self) -> Self::Output { let x = self.0; { x * 2.0 } } } \
         fn foo<T: FooArgs>(#[rustc_splat] args: T) -> T::Output { args.call() }",
    );
    assert_eq!(out, want);
}

#[test]
fn free_functions_zero_args_and_unit_output() {
    let out = expand_src("fn foo() -> i32 { 42 } fn foo(x: f64) { println!(\"{}\", x); }").unwrap();
    let want = expected(
        "trait FooArgs: std::marker::Tuple { type Output; fn call(self) -> Self::Output; } \
         impl FooArgs for () { type Output = i32; fn call(self) -> Self::Output { { 42 } } } \
         impl FooArgs for (f64,) { type Output = (); fn call(self) -> Self::Output { let x = self.0; { println!(\"{}\", x); } } } \
         fn foo<T: FooArgs>(#[rustc_splat] args: T) -> T::Output { args.call() }",
    );
    assert_eq!(out, want);
}

#[test]
fn free_functions_several_args_and_patterns() {
    let out = expand_src("fn show(a: i32, (b, c): (u8, u8)) {} fn show(nums: Vec<i32>) {}").unwrap();
    let want = expected(
        "trait ShowArgs: std::marker::Tuple { type Output; fn call(self) -> Self::Output; } \
         impl ShowArgs for (i32, (u8, u8),) { type Output = (); fn call(self) -> Self::Output { let a = self.0; let _arg = self.1; {} } } \
         impl ShowArgs for (Vec<i32>,) { type Output = (); fn call(self) -> Self::Output { let nums = self.0; {} } } \
         fn show<T: ShowArgs>(#[rustc_splat] args: T) -> T::Output { args.call() }",
    );
    assert_eq!(out, want);
}

#[test]
fn methods_with_shared_ref_receiver() {
    let out = expand_src(
        "impl Calculator { fn compute(&self, x: i32) -> i32 { x * 2 } fn compute(&self, x: i32, y: i32) -> i32 { x + y } }",
    )
    .unwrap();
    let want = expected(
        "trait ComputeArgs<R>: std::marker::Tuple { type Output; fn call(self, this: &R) -> Self::Output; } \
         impl ComputeArgs<Calculator> for (i32,) { type Output = i32; fn call(self, this: &Calculator) -> Self::Output { let x = self.0; this.__compute_impl_0(x) } } \
         impl ComputeArgs<Calculator> for (i32, i32,) { type Output = i32; fn call(self, this: &Calculator) -> Self::Output { let x = self.0; let y = self.1; this.__compute_impl_1(x, y) } } \
         impl Calculator { \
           fn __compute_impl_0(&self, x: i32) -> i32 { x * 2 } \
           fn __compute_impl_1(&self, x: i32, y: i32) -> i32 { x + y } \
           fn compute<T: ComputeArgs<Self>>(&self, #[rustc_splat] args: T) -> T::Output { args.call(self) } }",
    );
    assert_eq!(out, want);
}

#[test]
fn methods_with_mut_and_owned_receivers() {
    let out = expand_src("impl Counter { fn add(&mut self, x: i32) { self.value += x; } }").unwrap();
    let want = expected(
        "trait AddArgs<R>: std::marker::Tuple { type Output; fn call(self, this: &mut R) -> Self::Output; } \
         impl AddArgs<Counter> for (i32,) { type Output = (); fn call(self, this: &mut Counter) -> Self::Output { let x = self.0; this.__add_impl_0(x) } } \
         impl Counter { fn __add_impl_0(&mut self, x: i32) -> () { self.value += x; } \
           fn add<T: AddArgs<Self>>(&mut self, #[rustc_splat] args: T) -> T::Output { args.call(self) } }",
    );
    assert_eq!(out, want);

    let out = expand_src("impl Builder { fn build(self) -> String { self.parts.join(\"\") } }").unwrap();
    let want = expected(
        "trait BuildArgs<R>: std::marker::Tuple { type Output; fn call(self, this: R) -> Self::Output; } \
         impl BuildArgs<Builder> for () { type Output = String; fn call(self, this: Builder) -> Self::Output { this.__build_impl_0() } } \
         impl Builder { fn __build_impl_0(self,) -> String { self.parts.join(\"\") } \
           fn build<T: BuildArgs<Self>>(self, #[rustc_splat] args: T) -> T::Output { args.call(self) } }",
    );
    assert_eq!(out, want);
}

#[test]
fn associated_functions_without_receiver() {
    let out = expand_src("impl List { pub fn new() -> List { List::default() } pub fn new(count: usize) -> List { List::repeat(count) } }").unwrap();
    let want = expected(
        "trait NewArgs<R>: std::marker::Tuple { type Output; fn call(self) -> Self::Output; } \
         impl NewArgs<List> for () { type Output = List; fn call(self) -> Self::Output { List::__new_impl_0() } } \
         impl NewArgs<List> for (usize,) { type Output = List; fn call(self) -> Self::Output { let count = self.0; List::__new_impl_1(count) } } \
         impl List { fn __new_impl_0() -> List { List::default() } \
           fn __new_impl_1(count: usize) -> List { List::repeat(count) } \
           fn new<T: NewArgs<Self>>(#[rustc_splat] args: T) -> T::Output { args.call() } }",
    );
    assert_eq!(out, want);
}

#[test]
fn refused_inputs() {
    assert_eq!(
        expand_src("impl Foo { fn f(&self) {} fn f(&mut self, x: i32) {} }"),
        Err(OverloadError::ReceiverMismatch)
    );
    assert_eq!(expand_src("impl Foo { fn f(&self) {} const A: i32 = 1; }"), Err(OverloadError::NonFnImplItem));
    assert_eq!(expand_src("impl (A, B) { fn f(&self) {} }"), Err(OverloadError::NotPlainTypeName));
    assert_eq!(expand_src("impl Foo {}"), Err(OverloadError::EmptyOverloadSet));
    assert_eq!(expand_src(""), Err(OverloadError::EmptyOverloadSet));
    assert_eq!(expand_src("struct S; fn f() {}"), Err(OverloadError::Parse("expected `fn`".to_string())));
    assert!(matches!(expand_src("fn f(x) {}"), Err(OverloadError::Parse(_))));
    assert!(matches!(expand_src("impl Foo { fn f(&self) {} } fn g() {}"), Err(OverloadError::Parse(_))));
}

#[test]
fn readme_example() {
    let out = expand_src("fn show(num: i32) { println!(\"num: {}\", num); } fn show(nums: Vec<i32>) { println!(\"nums: {:?}\", nums); }").unwrap();
    let want = expected(
        "trait ShowArgs: std::marker::Tuple { type Output; fn call(self) -> Self::Output; } \
         impl ShowArgs for (i32,) { type Output = (); fn call(self) -> Self::Output { let num = self.0; { println!(\"num: {}\", num); } } } \
         impl ShowArgs for (Vec<i32>,) { type Output = (); fn call(self) -> Self::Output { let nums = self.0; { println!(\"nums: {:?}\", nums); } } } \
         fn show<T: ShowArgs>(#[rustc_splat] args: T) -> T::Output { args.call() }",
    );
    assert_eq!(out, want);

    let out = expand_src("impl Example { fn tell(&self, num: i32) -> i32 { return num; } fn tell(&self, nums: Vec<i32>) -> Vec<i32> { return nums; } }").unwrap();
    let want = expected(
        "trait TellArgs<R>: std::marker::Tuple { type Output; fn call(self, this: &R) -> Self::Output; } \
         impl TellArgs<Example> for (i32,) { type Output = i32; fn call(self, this: &Example) -> Self::Output { let num = self.0; this.__tell_impl_0(num) } } \
         impl TellArgs<Example> for (Vec<i32>,) { type Output = Vec<i32>; fn call(self, this: &Example) -> Self::Output { let nums = self.0; this.__tell_impl_1(nums) } } \
         impl Example { fn __tell_impl_0(&self, num: i32) -> i32 { return num; } \
           fn __tell_impl_1(&self, nums: Vec<i32>) -> Vec<i32> { return nums; } \
           fn tell<T: TellArgs<Self>>(&self, #[rustc_splat] args: T) -> T::Output { args.call(self) } }",
    );
    assert_eq!(out, want);
}

#[test]
fn impl_with_generics_and_trait_uses_last_segment() {
    let out = expand_src("impl<T> Display for crate::a::Wrapper<T> { fn show(&self) {} }").unwrap();
    let want = expected(
        "trait ShowArgs<R>: std::marker::Tuple { type Output; fn call(self, this: &R) -> Self::Output; } \
         impl ShowArgs<Wrapper> for () { type Output = (); fn call(self, this: &Wrapper) -> Self::Output { this.__show_impl_0() } } \
         impl Wrapper { fn __show_impl_0(&self,) -> () {} \
           fn show<T: ShowArgs<Self>>(&self, #[rustc_splat] args: T) -> T::Output { args.call(self) } }",
    );
    assert_eq!(out, want);
}

#[test]
fn inner_attribute_is_refused() {
    assert!(matches!(expand_src("#![allow(unused)] fn f() {}"), Err(OverloadError::Parse(_))));
}

#[test]
fn raw_identifier_set_name() {
    let out = expand_src("fn r#match(x: i32) {}").unwrap();
    let want = expected(
        "trait MatchArgs: std::marker::Tuple { type Output; fn call(self) -> Self::Output; } \
         impl MatchArgs for (i32,) { type Output = (); fn call(self) -> Self::Output { let x = self.0; {} } } \
         fn r#match<T: MatchArgs>(#[rustc_splat] args: T) -> T::Output { args.call() }",
    );
    assert_eq!(out, want);
}

#[test]
fn receivers_with_explicit_types() {
    let out = expand_src("impl Foo { fn get(self: &Self) -> i32 { 0 } fn get(&self, x: i32) -> i32 { x } }").unwrap();
    let want = expected(
        "trait GetArgs<R>: std::marker::Tuple { type Output; fn call(self, this: &R) -> Self::Output; } \
         impl GetArgs<Foo> for () { type Output = i32; fn call(self, this: &Foo) -> Self::Output { this.__get_impl_0() } } \
         impl GetArgs<Foo> for (i32,) { type Output = i32; fn call(self, this: &Foo) -> Self::Output { let x = self.0; this.__get_impl_1(x) } } \
         impl Foo { fn __get_impl_0(self: &Self, ) -> i32 { 0 } \
           fn __get_impl_1(&self, x: i32) -> i32 { x } \
           fn get<T: GetArgs<Self>>(self: &Self, #[rustc_splat] args: T) -> T::Output { args.call(self) } }",
    );
    assert_eq!(out, want);
    let out = expand_src("impl Foo { fn set(self: &mut Self) {} }").unwrap();
    let want = expected(
        "trait SetArgs<R>: std::marker::Tuple { type Output; fn call(self, this: &mut R) -> Self::Output; } \
         impl SetArgs<Foo> for () { type Output = (); fn call(self, this: &mut Foo) -> Self::Output { this.__set_impl_0() } } \
         impl Foo { fn __set_impl_0(self: &mut Self, ) -> () {} \
           fn set<T: SetArgs<Self>>(self: &mut Self, #[rustc_splat] args: T) -> T::Output { args.call(self) } }",
    );
    assert_eq!(out, want);
    assert_eq!(
        expand_src("impl Foo { fn get(self: &Self) {} fn get(self: &mut Self, x: i32) {} }"),
        Err(OverloadError::ReceiverMismatch)
    );
    assert_eq!(expand_src("impl Foo { fn get(mut self) {} fn get(self, x: i32) {} }").map(|_| ()), Ok(()));
}

#[test]
fn impl_block_in_an_invisible_group() {
    let inner = tokens("impl Foo { fn get(&self) -> i32 { 0 } }");
    let group = proc_macro2::Group::new(proc_macro2::Delimiter::None, inner);
    let input: TokenStream = std::iter::once(proc_macro2::TokenTree::Group(group)).collect();
    let out = shape(&overload(input).unwrap());
    assert_eq!(out, expand_src("impl Foo { fn get(&self) -> i32 { 0 } }").unwrap());
}

#[test]
fn trailing_tokens_after_functions_are_refused() {
    assert!(matches!(expand_src("fn f() {} 123"), Err(OverloadError::Parse(_))));
    assert_eq!(expand_src("fn f() {} fn g() {}").map(|_| ()), Ok(()));
}

#[test]
fn free_function_with_a_receiver_keeps_typed_args_only() {
    let out = expand_src("fn f(&self, x: i32) -> i32 { x }").unwrap();
    let want = expected(
        "trait FArgs: std::marker::Tuple { type Output; fn call(self) -> Self::Output; } \
         impl FArgs for (i32,) { type Output = i32; fn call(self) -> Self::Output { let x = self.0; { x } } } \
         fn f<T: FArgs>(#[rustc_splat] args: T) -> T::Output { args.call() }",
    );
    assert_eq!(out, want);
}

#[test]
fn parse_and_read_give_the_functions_in_order() {
    let input = tokens("impl a::b::Foo { fn f(&self) -> u8 { 1 } fn f(&self, y: u8) { } }");
    match OverloadInput::parse(input.clone()) {
        Ok(OverloadInput::Methods { self_ty, functions }) => {
            assert_eq!(self_ty, "Foo");
            assert_eq!(functions.len(), 2);
            assert_eq!(functions[0].name, "f");
            assert_eq!(functions[0].output.as_deref(), Some("u8"));
            assert_eq!(functions[1].output, None);
            assert!(matches!(&functions[0].inputs[0], ArgModel::Receiver { reference: true, mutability: false, .. }));
            assert!(matches!(&functions[1].inputs[1], ArgModel::Typed { name: Some(n), ty } if n == "y" && ty == "u8"));
        }
        _ => panic!("expected methods"),
    }
    assert!(matches!(OverloadInput::read(input), Ok(OverloadInput::Methods { .. })));
    match OverloadInput::parse(tokens("fn g() {} fn h(z: bool) -> bool { z }")) {
        Ok(OverloadInput::Functions(functions)) => {
            assert_eq!(functions.len(), 2);
            assert_eq!(functions[0].name, "g");
            assert_eq!(functions[1].name, "h");
            assert_eq!(functions[1].block, "{ z }");
        }
        _ => panic!("expected functions"),
    }
    assert!(matches!(
        OverloadInput::read(tokens("impl [u8] { fn f(&self) {} }")),
        Err(OverloadError::NotPlainTypeName)
    ));
    assert!(matches!(
        OverloadInput::read(tokens("impl Foo { const X: i32 = 0; fn f(&self) {} }")),
        Err(OverloadError::NonFnImplItem)
    ));
}

fn has_invisible_group(ts: &TokenStream) -> bool {
    ts.clone().into_iter().any(|tt| match tt {
        proc_macro2::TokenTree::Group(g) => {
            g.delimiter() == proc_macro2::Delimiter::None || has_invisible_group(&g.stream())
        }
        _ => false,
    })
}

#[test]
fn bodies_keep_their_invisible_groups() {
    // A body `{ $e * 2 }` where `$e` is `x + 1`, as another macro hands it over.
    let e = proc_macro2::Group::new(proc_macro2::Delimiter::None, tokens("x + 1"));
    let mut body = TokenStream::new();
    body.extend(std::iter::once(proc_macro2::TokenTree::Group(e)));
    body.extend(tokens("* 2"));
    let block = proc_macro2::Group::new(proc_macro2::Delimiter::Brace, body);
    let mut input = tokens("fn double(x: i32) -> i32");
    input.extend(std::iter::once(proc_macro2::TokenTree::Group(block)));
    let out = overload(input).unwrap();
    assert!(has_invisible_group(&out));
    assert!(!has_invisible_group(&overload(tokens("fn double(x: i32) -> i32 { x + 1 * 2 }")).unwrap()));
}

#[test]
fn argument_bindings_use_the_written_names() {
    let input = tokens("fn f(value: u8) -> u8 { value }");
    let out = overload(input).unwrap();
    let text = shape(&out);
    assert!(text.contains("let value = self . 0 ;"));
    assert!(text.contains("{ value }"));
    assert!(!text.contains("fragment"));
}
