//! Reading the macro input: the Rust syntax is parsed by `syn`, and the parts the
//! generator needs are taken out of it as plain values.
//!
//! What `syn` reads of a token stream is named here (`leading_ident`, `impl_read`,
//! `fns_read`): each reading item states that it hands back, as plain values, a part
//! of that named result. What is decided from those parts (which input kind, which
//! refusal, which functions in which order) is verified.

use vstd::prelude::*;

use crate::fragments::{
    lemma_placeholders_keep_refusals, name_fragments, name_fragments_of, names_lexed,
    part_fragments, placeholder_input, with_placeholders,
};
use crate::generate::{expand, expansion_result};
use crate::splice::{fragment_views, splice, spliced};
use crate::model::{ArgModel, ArgRead, FnModel, FnRead, OverloadError, OverloadInput, opt_text};
use crate::text::str_equals;
use proc_macro2::TokenStream;
use quote::ToTokens;
use syn::parse::Parser;
use syn::punctuated::Punctuated;
use syn::{FnArg, ImplItem, ItemFn, ItemImpl, Pat, ReturnType};

verus! {

/// A stream of Rust tokens (`proc_macro2::TokenStream`), held opaque.
#[verifier::external_type_specification]
#[verifier::external_body]
pub struct ExTokenStream(TokenStream);

/// The identifier that `syn` finds first in `tokens` (its cursor's `ident`, which
/// looks through invisible groups), as its text prints (keywords included, a raw
/// identifier with its `r#`); `None` when the first token is no identifier.
pub uninterp spec fn leading_ident(tokens: TokenStream) -> Option<Seq<char>>;

/// Whether `tokens` starts with the keyword `impl`, as `syn`'s `peek` sees it.
pub open spec fn starts_with_impl(tokens: TokenStream) -> bool {
    leading_ident(tokens) == Some("impl"@)
}

/// What `syn::parse2::<syn::ItemImpl>` reads of `tokens`: the parser's message when
/// the tokens are not one impl block; else the identifier of the last path segment
/// of the self type (`None` when that type is not a path) and, for each item in
/// order, the function it is (`None` when it is no function).
pub uninterp spec fn impl_read(tokens: TokenStream) -> Result<
    (Option<Seq<char>>, Seq<Option<FnRead>>),
    Seq<char>,
>;

/// What parsing all of `tokens` as function items, one after another
/// (`syn::ItemFn`, through `Punctuated::<ItemFn, Nothing>::parse_terminated`), reads:
/// the parser's message for the first one that fails, else the functions in order.
pub uninterp spec fn fns_read(tokens: TokenStream) -> Result<Seq<FnRead>, Seq<char>>;

/// Whether `tokens` is what reading the source text `src` as tokens
/// (`<TokenStream as FromStr>::from_str`) gave: a relation, not a function, since the
/// tokens read (their spans) depend on whether the call runs inside a macro expansion.
pub uninterp spec fn lexed_from(src: Seq<char>, tokens: TokenStream) -> bool;

/// The self type read of an impl block, when it was read.
pub open spec fn impl_self_ty(tokens: TokenStream) -> Option<Seq<char>> {
    match impl_read(tokens) {
        Ok((s, _)) => s,
        Err(_) => None,
    }
}

/// The items read of an impl block, when it was read.
pub open spec fn impl_items(tokens: TokenStream) -> Seq<Option<FnRead>> {
    match impl_read(tokens) {
        Ok((_, items)) => items,
        Err(_) => seq![],
    }
}

/// The functions read of a list of functions, when it was read.
pub open spec fn listed_fns(tokens: TokenStream) -> Seq<FnRead> {
    match fns_read(tokens) {
        Ok(fs) => fs,
        Err(_) => seq![],
    }
}

/// The text of the first identifier of `tokens` (`syn::buffer::TokenBuffer` and
/// `Cursor::ident`, then `Ident::to_string`). The claim: it is `leading_ident(tokens)`.
#[verifier::external_body]
fn leading_ident_text(tokens: &TokenStream) -> (r: Option<String>)
    ensures
        opt_text(r) == leading_ident(*tokens),
{
    let buffer = syn::buffer::TokenBuffer::new2(tokens.clone());
    let r = match buffer.begin().ident() {
        Some((ident, _)) => Some(ident.to_string()),
        None => None,
    };
    r
}

/// Parses `tokens` as one impl block (`syn::parse2::<syn::ItemImpl>`). The claim: the
/// message of the error (`syn::Error::to_string`), or the self type's identifier and
/// the number of items, as `impl_read(tokens)` has them.
#[verifier::external_body]
fn impl_header(tokens: &TokenStream) -> (r: Result<(Option<String>, usize), String>)
    ensures
        match impl_read(*tokens) {
            Err(m) => r matches Err(e) && e@ == m,
            Ok((s, items)) => r matches Ok((t, n)) && opt_text(t) == s && n == items.len(),
        },
{
    match syn::parse2::<ItemImpl>(tokens.clone()) {
        Err(e) => Err(e.to_string()),
        Ok(item) => Ok((match *item.self_ty {
            syn::Type::Path(p) => p.path.segments.last().map(|s| s.ident.to_string()),
            _ => None,
        }, item.items.len())),
    }
}

/// Item `i` of the impl block of `tokens`, when it is a function: its name, its number
/// of arguments, the text of its return type and of its body (`to_token_stream`, then
/// `to_string`). The claim: these are as `impl_read(tokens)` has them.
#[verifier::external_body]
fn impl_fn_header(tokens: &TokenStream, i: usize) -> (r: Option<(String, usize, Option<String>, String)>)
    requires
        impl_read(*tokens) is Ok,
        i < impl_items(*tokens).len(),
    ensures
        match impl_items(*tokens)[i as int] {
            None => r is None,
            Some(f) => r matches Some((name, n, out, block)) && name@ == f.name && n
                == f.inputs.len() && opt_text(out) == f.output && block@ == f.block,
        },
{
    match syn::parse2::<ItemImpl>(tokens.clone()).unwrap().items.swap_remove(i) {
        ImplItem::Fn(f) => Some((f.sig.ident.to_string(), f.sig.inputs.len(), match f.sig.output {
            ReturnType::Default => None,
            ReturnType::Type(_, ty) => Some(ty.to_token_stream().to_string()),
        }, f.block.to_token_stream().to_string())),
        _ => None,
    }
}

/// Argument `j` of function `i` of the impl block of `tokens`, when it is a receiver:
/// whether its type is a reference and whether `&mut`, and its text. The claim: these
/// are as `impl_read(tokens)` has them.
#[verifier::external_body]
fn impl_receiver(tokens: &TokenStream, i: usize, j: usize) -> (r: Option<(Option<bool>, String)>)
    requires
        impl_read(*tokens) is Ok,
        i < impl_items(*tokens).len(),
        impl_items(*tokens)[i as int] is Some,
        j < impl_items(*tokens)[i as int]->0.inputs.len(),
    ensures
        match impl_items(*tokens)[i as int]->0.inputs[j as int] {
            ArgRead::Receiver { by_ref, text } => r matches Some((b, t)) && b == by_ref && t@
                == text,
            ArgRead::Typed { .. } => r is None,
        },
{
    match syn::parse2::<ItemImpl>(tokens.clone()).unwrap().items.swap_remove(i) {
        ImplItem::Fn(f) => match f.sig.inputs.into_iter().nth(j).unwrap() {
            FnArg::Receiver(a) => Some((match &*a.ty {
                syn::Type::Reference(t) => Some(t.mutability.is_some()),
                _ => None,
            }, a.to_token_stream().to_string())),
            FnArg::Typed(_) => None,
        },
        _ => None,
    }
}

/// Argument `j` of function `i` of the impl block of `tokens`, when it is typed: the
/// identifier of its pattern (when the pattern is one) and the text of its type. The
/// claim: these are as `impl_read(tokens)` has them.
#[verifier::external_body]
fn impl_typed_arg(tokens: &TokenStream, i: usize, j: usize) -> (r: Option<(Option<String>, String)>)
    requires
        impl_read(*tokens) is Ok,
        i < impl_items(*tokens).len(),
        impl_items(*tokens)[i as int] is Some,
        j < impl_items(*tokens)[i as int]->0.inputs.len(),
    ensures
        match impl_items(*tokens)[i as int]->0.inputs[j as int] {
            ArgRead::Typed { name, ty } => r matches Some((n, t)) && opt_text(n) == name && t@
                == ty,
            ArgRead::Receiver { .. } => r is None,
        },
{
    match syn::parse2::<ItemImpl>(tokens.clone()).unwrap().items.swap_remove(i) {
        ImplItem::Fn(f) => match f.sig.inputs.into_iter().nth(j).unwrap() {
            FnArg::Typed(p) => Some((match *p.pat {
                Pat::Ident(x) => Some(x.ident.to_string()),
                _ => None,
            }, p.ty.to_token_stream().to_string())),
            FnArg::Receiver(_) => None,
        },
        _ => None,
    }
}

/// Parses `tokens` as function items, one after another. The claim: the message of
/// the error (`syn::Error::to_string`), or the number of functions, as `fns_read(tokens)`
/// has them.
#[verifier::external_body]
fn fns_count(tokens: &TokenStream) -> (r: Result<usize, String>)
    ensures
        match fns_read(*tokens) {
            Err(m) => r matches Err(e) && e@ == m,
            Ok(fs) => r matches Ok(n) && n == fs.len(),
        },
{
    match Punctuated::<ItemFn, syn::parse::Nothing>::parse_terminated.parse2(tokens.clone()) {
        Err(e) => Err(e.to_string()),
        Ok(fns) => Ok(fns.len()),
    }
}

/// Function `i` of the list of `tokens`: its name, its number of arguments, the text
/// of its return type and of its body. The claim: these are as `fns_read(tokens)` has
/// them.
#[verifier::external_body]
fn listed_fn_header(tokens: &TokenStream, i: usize) -> (r: (String, usize, Option<String>, String))
    requires
        fns_read(*tokens) is Ok,
        i < listed_fns(*tokens).len(),
    ensures
        r.0@ == listed_fns(*tokens)[i as int].name,
        r.1 == listed_fns(*tokens)[i as int].inputs.len(),
        opt_text(r.2) == listed_fns(*tokens)[i as int].output,
        r.3@ == listed_fns(*tokens)[i as int].block,
{
    let parsed = Punctuated::<ItemFn, syn::parse::Nothing>::parse_terminated.parse2(tokens.clone());
    let f = parsed.unwrap().into_iter().nth(i).unwrap();
    (f.sig.ident.to_string(), f.sig.inputs.len(), match f.sig.output {
        ReturnType::Default => None,
        ReturnType::Type(_, ty) => Some(ty.to_token_stream().to_string()),
    }, f.block.to_token_stream().to_string())
}

/// Argument `j` of function `i` of the list of `tokens`, when it is a receiver. The
/// claim: as `fns_read(tokens)` has it.
#[verifier::external_body]
fn listed_receiver(tokens: &TokenStream, i: usize, j: usize) -> (r: Option<(Option<bool>, String)>)
    requires
        fns_read(*tokens) is Ok,
        i < listed_fns(*tokens).len(),
        j < listed_fns(*tokens)[i as int].inputs.len(),
    ensures
        match listed_fns(*tokens)[i as int].inputs[j as int] {
            ArgRead::Receiver { by_ref, text } => r matches Some((b, t)) && b == by_ref && t@
                == text,
            ArgRead::Typed { .. } => r is None,
        },
{
    let parsed = Punctuated::<ItemFn, syn::parse::Nothing>::parse_terminated.parse2(tokens.clone());
    match parsed.unwrap().into_iter().nth(i).unwrap().sig.inputs.into_iter().nth(j).unwrap() {
        FnArg::Receiver(a) => Some((match &*a.ty {
            syn::Type::Reference(t) => Some(t.mutability.is_some()),
            _ => None,
        }, a.to_token_stream().to_string())),
        FnArg::Typed(_) => None,
    }
}

/// Argument `j` of function `i` of the list of `tokens`, when it is typed. The claim:
/// as `fns_read(tokens)` has it.
#[verifier::external_body]
fn listed_typed_arg(tokens: &TokenStream, i: usize, j: usize) -> (r: Option<(Option<String>, String)>)
    requires
        fns_read(*tokens) is Ok,
        i < listed_fns(*tokens).len(),
        j < listed_fns(*tokens)[i as int].inputs.len(),
    ensures
        match listed_fns(*tokens)[i as int].inputs[j as int] {
            ArgRead::Typed { name, ty } => r matches Some((n, t)) && opt_text(n) == name && t@
                == ty,
            ArgRead::Receiver { .. } => r is None,
        },
{
    let parsed = Punctuated::<ItemFn, syn::parse::Nothing>::parse_terminated.parse2(tokens.clone());
    match parsed.unwrap().into_iter().nth(i).unwrap().sig.inputs.into_iter().nth(j).unwrap() {
        FnArg::Typed(p) => Some((match *p.pat {
            Pat::Ident(x) => Some(x.ident.to_string()),
            _ => None,
        }, p.ty.to_token_stream().to_string())),
        FnArg::Receiver(_) => None,
    }
}

/// Reads source text as tokens (`<TokenStream as FromStr>::from_str`). The claim: the
/// tokens that come back are what `src` was read as (`lexed_from`). When it succeeds,
/// and the message of a failure (`LexError::to_string`), are left unsaid: inside a
/// macro expansion the compiler's lexer reads the text after `proc_macro2`'s own and
/// may still refuse it.
#[verifier::external_body]
pub(crate) fn tokens_from_source(src: &str) -> (r: Result<TokenStream, String>)
    ensures
        r matches Ok(t) ==> lexed_from(src@, t),
{
    match src.parse::<TokenStream>() {
        Ok(tokens) => Ok(tokens),
        Err(e) => Err(e.to_string()),
    }
}

/// The read of an optional function.
pub open spec fn opt_read(o: Option<FnModel>) -> Option<FnRead> {
    match o {
        Some(f) => Some(f@),
        None => None,
    }
}

/// The reads of a sequence of functions.
pub open spec fn fn_reads(fs: Seq<FnModel>) -> Seq<FnRead> {
    fs.map_values(|f: FnModel| f@)
}

/// The reads of a sequence of arguments.
spec fn arg_reads(args: Seq<ArgModel>) -> Seq<ArgRead> {
    args.map_values(|a: ArgModel| a@)
}

/// The reads of a sequence of optional functions.
spec fn opt_reads(items: Seq<Option<FnModel>>) -> Seq<Option<FnRead>> {
    items.map_values(|o: Option<FnModel>| opt_read(o))
}

/// Mapping a sequence extended by one element extends the mapped sequence by the
/// element's image.
proof fn lemma_map_push<A, B>(s: Seq<A>, x: A, f: spec_fn(A) -> B)
    ensures
        s.push(x).map_values(f) == s.map_values(f).push(f(x)),
{
    assert(s.push(x).map_values(f) =~= s.map_values(f).push(f(x)));
}

/// An argument from what was read of it: whether a receiver's type is a reference
/// (and `&mut`) and its text, or a typed argument's name and type.
fn arg_from_parts(receiver: Option<(Option<bool>, String)>, typed: Option<(Option<String>, String)>) -> (a: ArgModel)
    requires
        receiver is Some || typed is Some,
    ensures
        receiver matches Some((b, t)) ==> a@ == (ArgRead::Receiver { by_ref: b, text: t@ }),
        receiver is None ==> (typed matches Some((n, t)) && a@ == (ArgRead::Typed {
            name: opt_text(n),
            ty: t@,
        })),
{
    match receiver {
        Some((by_ref, text)) => {
            let mutability = match by_ref {
                Some(m) => m,
                None => false,
            };
            ArgModel::Receiver { reference: by_ref.is_some(), mutability, text }
        },
        None => {
            let (name, ty) = typed.unwrap();
            ArgModel::Typed { name, ty }
        },
    }
}

/// Reads function `i` of the impl block of `tokens`, when that item is a function.
fn read_impl_fn(tokens: &TokenStream, i: usize) -> (f: Option<FnModel>)
    requires
        impl_read(*tokens) is Ok,
        i < impl_items(*tokens).len(),
    ensures
        opt_read(f) == impl_items(*tokens)[i as int],
{
    match impl_fn_header(tokens, i) {
        None => None,
        Some((name, n, output, block)) => {
            let ghost fr = impl_items(*tokens)[i as int]->0;
            let mut inputs: Vec<ArgModel> = Vec::new();
            let mut j: usize = 0;
            while j < n
                invariant
                    j <= n,
                    impl_read(*tokens) is Ok,
                    i < impl_items(*tokens).len(),
                    impl_items(*tokens)[i as int] == Some(fr),
                    n == fr.inputs.len(),
                    arg_reads(inputs@) == fr.inputs.take(j as int),
                decreases n - j,
            {
                let receiver = impl_receiver(tokens, i, j);
                let typed = if receiver.is_some() {
                    None
                } else {
                    impl_typed_arg(tokens, i, j)
                };
                let a = arg_from_parts(receiver, typed);
                assert(a@ == fr.inputs[j as int]);
                proof {
                    lemma_map_push(inputs@, a, |a: ArgModel| a@);
                    assert(fr.inputs.take(j + 1) =~= fr.inputs.take(j as int).push(fr.inputs[j as int]));
                }
                inputs.push(a);
                j += 1;
            }
            assert(fr.inputs.take(n as int) =~= fr.inputs);
            Some(FnModel { name, inputs, output, block })
        },
    }
}

/// Reads function `i` of the list of functions of `tokens`.
fn read_listed_fn(tokens: &TokenStream, i: usize) -> (f: FnModel)
    requires
        fns_read(*tokens) is Ok,
        i < listed_fns(*tokens).len(),
    ensures
        f@ == listed_fns(*tokens)[i as int],
{
    let (name, n, output, block) = listed_fn_header(tokens, i);
    let ghost fr = listed_fns(*tokens)[i as int];
    let mut inputs: Vec<ArgModel> = Vec::new();
    let mut j: usize = 0;
    while j < n
        invariant
            j <= n,
            fns_read(*tokens) is Ok,
            i < listed_fns(*tokens).len(),
            fr == listed_fns(*tokens)[i as int],
            n == fr.inputs.len(),
            arg_reads(inputs@) == fr.inputs.take(j as int),
        decreases n - j,
    {
        let receiver = listed_receiver(tokens, i, j);
        let typed = if receiver.is_some() {
            None
        } else {
            listed_typed_arg(tokens, i, j)
        };
        let a = arg_from_parts(receiver, typed);
        assert(a@ == fr.inputs[j as int]);
        proof {
            lemma_map_push(inputs@, a, |a: ArgModel| a@);
            assert(fr.inputs.take(j + 1) =~= fr.inputs.take(j as int).push(fr.inputs[j as int]));
        }
        inputs.push(a);
        j += 1;
    }
    assert(fr.inputs.take(n as int) =~= fr.inputs);
    FnModel { name, inputs, output, block }
}

/// Whether every entry of `items` holds a function.
pub open spec fn all_functions(items: Seq<Option<FnModel>>) -> bool {
    forall|i: int| 0 <= i < items.len() ==> (#[trigger] items[i]) is Some
}

/// The functions that the entries of `items` hold.
pub open spec fn unwrap_functions(items: Seq<Option<FnModel>>) -> Seq<FnModel> {
    items.map_values(|o: Option<FnModel>| o->0)
}

/// Whether every item read holds a function.
pub open spec fn all_read(items: Seq<Option<FnRead>>) -> bool {
    forall|i: int| 0 <= i < items.len() ==> (#[trigger] items[i]) is Some
}

/// The functions that the items read hold.
pub open spec fn unwrap_reads(items: Seq<Option<FnRead>>) -> Seq<FnRead> {
    items.map_values(|o: Option<FnRead>| o->0)
}

/// Returns the functions of `items`, in order, when every entry holds one.
fn collect_functions(items: Vec<Option<FnModel>>) -> (r: Option<Vec<FnModel>>)
    ensures
        all_functions(items@) ==> (r matches Some(v) && v@ == unwrap_functions(items@)),
        !all_functions(items@) ==> r is None,
{
    let ghost orig = items@;
    let mut rest = items;
    let mut out: Vec<FnModel> = Vec::new();
    while rest.len() > 0
        invariant
            orig == items@,
            out@.len() + rest@.len() == orig.len(),
            rest@ == orig.skip(out@.len() as int),
            all_functions(orig.take(out@.len() as int)),
            out@ == unwrap_functions(orig.take(out@.len() as int)),
        decreases rest@.len(),
    {
        let ghost k = out@.len() as int;
        let item = rest.remove(0);
        assert(item == orig[k]);
        match item {
            Some(f) => {
                out.push(f);
                assert(orig.take(k + 1) =~= orig.take(k).push(orig[k]));
                assert(rest@ =~= orig.skip(k + 1));
                assert(out@ =~= unwrap_functions(orig.take(k + 1)));
            },
            None => {
                assert(orig[k] is None);
                assert(!all_functions(orig));
                return None;
            },
        }
    }
    assert(orig.take(orig.len() as int) =~= orig);
    Some(out)
}

/// Decides the input of an impl block from what was read of it: the identifier of
/// its self type (when the type is a plain path) and, for each item, its function
/// (when the item is one).
pub fn methods_from_parts(self_ty: Option<String>, items: Vec<Option<FnModel>>) -> (r: Result<
    OverloadInput,
    OverloadError,
>)
    ensures
        self_ty is None ==> r == Err::<OverloadInput, OverloadError>(
            OverloadError::NotPlainTypeName,
        ),
        self_ty is Some && !all_functions(items@) ==> r == Err::<OverloadInput, OverloadError>(
            OverloadError::NonFnImplItem,
        ),
        self_ty is Some && all_functions(items@) ==> (r matches Ok(
            OverloadInput::Methods { self_ty: s, functions },
        ) && s == self_ty->0 && functions@ == unwrap_functions(items@)),
{
    match self_ty {
        None => Err(OverloadError::NotPlainTypeName),
        Some(self_ty) => match collect_functions(items) {
            None => Err(OverloadError::NonFnImplItem),
            Some(functions) => Ok(OverloadInput::Methods { self_ty, functions }),
        },
    }
}

/// What reading the macro input gives. An input that starts with `impl` is one impl
/// block: the parser's error, or a refusal when its self type is not a plain type
/// path or one of its items is no function, else its methods in order with the
/// identifier of the self type's last path segment. Any other input is a list of
/// functions: the parser's error, else the functions in order.
pub open spec fn read_result(input: TokenStream, r: Result<OverloadInput, OverloadError>) -> bool {
    if starts_with_impl(input) {
        match impl_read(input) {
            Err(m) => r matches Err(OverloadError::Parse(e)) && e@ == m,
            Ok((s, items)) => if s is None {
                r == Err::<OverloadInput, OverloadError>(OverloadError::NotPlainTypeName)
            } else if !all_read(items) {
                r == Err::<OverloadInput, OverloadError>(OverloadError::NonFnImplItem)
            } else {
                r matches Ok(OverloadInput::Methods { self_ty, functions }) && self_ty@ == s->0
                    && fn_reads(functions@) == unwrap_reads(items)
            },
        }
    } else {
        match fns_read(input) {
            Err(m) => r matches Err(OverloadError::Parse(e)) && e@ == m,
            Ok(fs) => r matches Ok(OverloadInput::Functions(functions)) && fn_reads(functions@)
                == fs,
        }
    }
}

/// Whether the input is one the overload macro reads without refusing it: an impl
/// block that parses has a plain self type and holds functions only.
pub open spec fn admissible_input(input: TokenStream) -> bool {
    starts_with_impl(input) && impl_read(input) is Ok ==> impl_self_ty(input) is Some && all_read(
        impl_items(input),
    )
}

/// Reads the macro input, refusing what the overload macro cannot take.
fn read_tokens(input: &TokenStream) -> (r: Result<OverloadInput, OverloadError>)
    ensures
        read_result(*input, r),
{
    let starts_with_impl = match leading_ident_text(input) {
        Some(t) => str_equals(t.as_str(), "impl"),
        None => false,
    };
    if starts_with_impl {
        let (self_ty, n) = match impl_header(input) {
            Ok(header) => header,
            Err(m) => return Err(OverloadError::Parse(m)),
        };
        let ghost reads = impl_items(*input);
        let mut items: Vec<Option<FnModel>> = Vec::new();
        let mut i: usize = 0;
        while i < n
            invariant
                i <= n,
                impl_read(*input) is Ok,
                reads == impl_items(*input),
                n == reads.len(),
                opt_reads(items@) == reads.take(i as int),
            decreases n - i,
        {
            let f = read_impl_fn(input, i);
            assert(opt_read(f) == reads[i as int]);
            proof {
                lemma_map_push(items@, f, |o: Option<FnModel>| opt_read(o));
                assert(reads.take(i + 1) =~= reads.take(i as int).push(reads[i as int]));
            }
            items.push(f);
            i += 1;
        }
        proof {
            assert(reads.take(n as int) =~= reads);
            assert forall|k: int| 0 <= k < items@.len() implies (#[trigger] items@[k] is Some)
                == (reads[k] is Some) by {
                assert(opt_read(items@[k]) == reads[k]);
            }
            if all_functions(items@) {
                assert forall|k: int| 0 <= k < reads.len() implies (#[trigger] reads[k]) is Some by {
                    assert(items@[k] is Some);
                }
                assert(fn_reads(unwrap_functions(items@)) =~= unwrap_reads(reads)) by {
                    assert forall|k: int| 0 <= k < reads.len() implies fn_reads(
                        unwrap_functions(items@),
                    )[k] == #[trigger] unwrap_reads(reads)[k] by {
                        assert(opt_read(items@[k]) == reads[k]);
                    }
                }
            } else {
                let k = choose|k: int| 0 <= k < items@.len() && !(#[trigger] items@[k] is Some);
                assert(opt_read(items@[k]) == reads[k]);
                assert(!all_read(reads));
            }
        }
        methods_from_parts(self_ty, items)
    } else {
        let n = match fns_count(input) {
            Ok(n) => n,
            Err(m) => return Err(OverloadError::Parse(m)),
        };
        let ghost reads = listed_fns(*input);
        let mut functions: Vec<FnModel> = Vec::new();
        let mut i: usize = 0;
        while i < n
            invariant
                i <= n,
                fns_read(*input) is Ok,
                reads == listed_fns(*input),
                n == reads.len(),
                fn_reads(functions@) == reads.take(i as int),
            decreases n - i,
        {
            let f = read_listed_fn(input, i);
            assert(f@ == reads[i as int]);
            proof {
                lemma_map_push(functions@, f, |f: FnModel| f@);
                assert(reads.take(i + 1) =~= reads.take(i as int).push(reads[i as int]));
            }
            functions.push(f);
            i += 1;
        }
        assert(reads.take(n as int) =~= reads);
        Ok(OverloadInput::Functions(functions))
    }
}

impl OverloadInput {
    /// Reads the macro input, refusing what the overload macro cannot take: an impl
    /// block when it starts with `impl`, else a list of function items.
    pub fn read(input: TokenStream) -> (r: Result<OverloadInput, OverloadError>)
        ensures
            read_result(input, r),
    {
        read_tokens(&input)
    }

    /// Parses the macro input: an impl block when it starts with `impl`, else a list
    /// of function items.
    ///
    /// An impl block whose self type is not a plain type path, or which holds anything
    /// but functions, is outside what this parser takes: its contract leaves such input
    /// out, and admits only parse errors as refusals. `read` is the same reading for
    /// any input: it refuses those impl blocks with `NotPlainTypeName` and
    /// `NonFnImplItem`, and is what a caller that cannot tell the input apart beforehand
    /// calls (`overload` does).
    pub fn parse(input: TokenStream) -> (r: Result<OverloadInput, OverloadError>)
        requires
            admissible_input(input),
        ensures
            read_result(input, r),
            r matches Err(e) ==> e is Parse,
    {
        OverloadInput::read(input)
    }
}

/// The nesting of groups down to which the placeholders of the generated source are
/// looked for; the generated source nests them less deep.
pub open spec fn splice_depth() -> nat {
    16
}

/// What expanding the macro input gives, through the input read `p` and the source
/// `s` generated from it: the error of reading, or of generating, unchanged; else the
/// source `s2` generated from the input `q`, in which placeholders stand for the parts
/// the user wrote, read as tokens, or the lexer's error. The tokens that come back are
/// those read of `s2` with each placeholder replaced by what it stands for: the parts
/// as the user wrote them (`part_fragments`), and the names (`name_fragments_of`)
/// read from their texts.
pub open spec fn overload_outcome(
    input: TokenStream,
    p: Result<OverloadInput, OverloadError>,
    s: Result<String, OverloadError>,
    q: OverloadInput,
    s2: Result<String, OverloadError>,
    r: Result<TokenStream, OverloadError>,
) -> bool {
    &&& read_result(input, p)
    &&& match p {
        Err(e) => r == Err::<TokenStream, OverloadError>(e),
        Ok(parsed) => {
            &&& expansion_result(parsed, s)
            &&& match s {
                Err(e) => r == Err::<TokenStream, OverloadError>(e),
                Ok(_) => {
                    &&& placeholder_input(parsed, q)
                    &&& expansion_result(q, s2)
                    &&& match s2 {
                        Ok(src2) => {
                            &&& r matches Err(e) ==> e is Lex
                            &&& r matches Ok(t) ==> exists|
                                lexed: TokenStream,
                                trait_tokens: TokenStream,
                                hidden: Seq<TokenStream>,
                            |
                                #![trigger lexed_from(src2@, lexed), names_lexed(parsed, trait_tokens, hidden)]
                                {
                                    &&& lexed_from(src2@, lexed)
                                    &&& names_lexed(parsed, trait_tokens, hidden)
                                    &&& t == spliced(
                                        lexed,
                                        part_fragments(input, parsed) + name_fragments_of(
                                            input,
                                            parsed,
                                            trait_tokens,
                                            hidden,
                                        ),
                                        splice_depth(),
                                    )
                                }
                        },
                        Err(_) => false,
                    }
                },
            }
        },
    }
}

/// Expands an overload set given as tokens into the tokens of its trait, impls and
/// dispatch function, or the error that the expansion stops at. The parts that the
/// user wrote come back as the user's own tokens, with their spans and groups.
pub fn overload(input: TokenStream) -> (r: Result<TokenStream, OverloadError>)
    ensures
        exists|
            p: Result<OverloadInput, OverloadError>,
            s: Result<String, OverloadError>,
            q: OverloadInput,
            s2: Result<String, OverloadError>,
        | #[trigger] overload_outcome(input, p, s, q, s2, r),
{
    let parsed = read_tokens(&input);
    let ghost p = parsed;
    let parsed = match parsed {
        Ok(parsed) => parsed,
        Err(e) => {
            let r = Err(e);
            assert(overload_outcome(input, p, Err(OverloadError::EmptyOverloadSet), arbitrary(), Err(OverloadError::EmptyOverloadSet), r));
            return r;
        },
    };
    let ghost read_input = parsed;
    let (shadow, mut frags) = with_placeholders(&input, &parsed);
    let ghost parts = fragment_views(frags@);
    let names = name_fragments(&input, &parsed, &mut frags);
    let ghost q = shadow;
    let source = expand(parsed);
    let ghost s = source;
    if let Err(e) = source {
        let r = Err(e);
        assert(overload_outcome(input, p, s, q, Err(OverloadError::EmptyOverloadSet), r));
        return r;
    }
    let shadow_source = expand(shadow);
    let ghost s2 = shadow_source;
    proof {
        lemma_placeholders_keep_refusals(read_input, q, s, s2);
    }
    let text = match shadow_source {
        Ok(text) => text,
        Err(e) => {
            return Err(e);
        },
    };
    let r = match (tokens_from_source(text.as_str()), names) {
        (Ok(tokens), Ok(())) => {
            let t = splice(&tokens, &frags, 16);
            proof {
                let (tt, hs) = choose|tt: TokenStream, hs: Seq<TokenStream>|
                    #[trigger] names_lexed(read_input, tt, hs) && fragment_views(frags@) == parts
                        + name_fragments_of(input, read_input, tt, hs);
                assert(lexed_from(text@, tokens));
                assert(names_lexed(read_input, tt, hs));
                assert(spliced(
                    tokens,
                    part_fragments(input, read_input) + name_fragments_of(input, read_input, tt, hs),
                    splice_depth(),
                ) == t);
            }
            Ok(t)
        },
        (Err(m), _) => Err(OverloadError::Lex(m)),
        (_, Err(m)) => Err(OverloadError::Lex(m)),
    };
    assert(overload_outcome(input, p, s, q, s2, r));
    r
}

} // verus!
