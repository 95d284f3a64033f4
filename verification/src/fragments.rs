//! The parts of the macro input that the user wrote, kept as tokens, and the input in
//! which each of them stands as a placeholder identifier.
//!
//! What `syn` reads of each part, printed back as tokens (`to_token_stream`), is named
//! here; each reading item states that it hands back that named part.

use vstd::prelude::*;

use crate::generate::{expansion_result, receivers_agree};
use crate::model::{
    receiver_kind_of, ArgModel, ArgRead, FnModel, FnRead, OverloadError, OverloadInput, opt_text,
};
use crate::syntax::{fns_read, impl_items, impl_read, impl_self_ty, listed_fns, read_result};
use crate::generate::hidden_name_text;
use crate::splice::{fragment_views, respan_all, respanned_all};
use crate::syntax::lexed_from;
use crate::syntax::tokens_from_source;
use crate::text::{
    decimal_string, decimal_text, trait_name_for, trait_name_text, unraw_string, unraw_text,
};
use proc_macro2::TokenStream;
use quote::ToTokens;
use syn::parse::Parser;
use syn::punctuated::Punctuated;
use syn::{FnArg, ImplItem, ItemFn, ItemImpl, Pat, ReturnType};
use vstd::string::StringExecFns;

verus! {

/// The tokens of the identifier of the last path segment of the self type of the impl
/// block of `tokens`.
pub uninterp spec fn impl_self_tokens(tokens: TokenStream) -> TokenStream;

/// The tokens of the name of item `i` (a function) of the impl block of `tokens`.
pub uninterp spec fn impl_name_tokens(tokens: TokenStream, i: nat) -> TokenStream;

/// The tokens of the name of function `i` of the list of `tokens`.
pub uninterp spec fn listed_name_tokens(tokens: TokenStream, i: nat) -> TokenStream;

/// The tokens of the body of item `i` (a function) of the impl block of `tokens`.
pub uninterp spec fn impl_block_tokens(tokens: TokenStream, i: nat) -> TokenStream;

/// The tokens of the return type of item `i` of the impl block of `tokens`.
pub uninterp spec fn impl_output_tokens(tokens: TokenStream, i: nat) -> TokenStream;

/// The tokens of argument `j` of item `i` of the impl block of `tokens`: the whole
/// receiver, or the type of a typed argument.
pub uninterp spec fn impl_arg_tokens(tokens: TokenStream, i: nat, j: nat) -> TokenStream;

/// The tokens of the identifier of the pattern of argument `j` of item `i` of the impl
/// block of `tokens`.
pub uninterp spec fn impl_arg_name_tokens(tokens: TokenStream, i: nat, j: nat) -> TokenStream;

/// The tokens of the body of function `i` of the list of `tokens`.
pub uninterp spec fn listed_block_tokens(tokens: TokenStream, i: nat) -> TokenStream;

/// The tokens of the return type of function `i` of the list of `tokens`.
pub uninterp spec fn listed_output_tokens(tokens: TokenStream, i: nat) -> TokenStream;

/// The tokens of argument `j` of function `i` of the list of `tokens`: the whole
/// receiver, or the type of a typed argument.
pub uninterp spec fn listed_arg_tokens(tokens: TokenStream, i: nat, j: nat) -> TokenStream;

/// The tokens of the identifier of the pattern of argument `j` of function `i` of the
/// list of `tokens`.
pub uninterp spec fn listed_arg_name_tokens(tokens: TokenStream, i: nat, j: nat) -> TokenStream;

/// The tokens of the self type's last path segment (`syn::parse2::<syn::ItemImpl>`,
/// then `Ident::to_token_stream`). The claim: they are `impl_self_tokens(tokens)`.
#[verifier::external_body]
fn impl_self_fragment(tokens: &TokenStream) -> (r: TokenStream)
    requires
        impl_self_ty(*tokens) is Some,
    ensures
        r == impl_self_tokens(*tokens),
{
    match *syn::parse2::<ItemImpl>(tokens.clone()).unwrap().self_ty {
        syn::Type::Path(p) => p.path.segments.last().unwrap().ident.to_token_stream(),
        _ => TokenStream::new(),
    }
}

/// The tokens of the name of item `i` of the impl block (`Ident::to_token_stream`).
/// The claim: they are `impl_name_tokens(tokens, i)`.
#[verifier::external_body]
fn impl_name_fragment(tokens: &TokenStream, i: usize) -> (r: TokenStream)
    requires
        impl_read(*tokens) is Ok,
        i < impl_items(*tokens).len(),
        impl_items(*tokens)[i as int] is Some,
    ensures
        r == impl_name_tokens(*tokens, i as nat),
{
    match syn::parse2::<ItemImpl>(tokens.clone()).unwrap().items.swap_remove(i) {
        ImplItem::Fn(f) => f.sig.ident.to_token_stream(),
        _ => TokenStream::new(),
    }
}

/// The tokens of the name of function `i` of the list. The claim: they are
/// `listed_name_tokens(tokens, i)`.
#[verifier::external_body]
fn listed_name_fragment(tokens: &TokenStream, i: usize) -> (r: TokenStream)
    requires
        fns_read(*tokens) is Ok,
        i < listed_fns(*tokens).len(),
    ensures
        r == listed_name_tokens(*tokens, i as nat),
{
    let parsed = Punctuated::<ItemFn, syn::parse::Nothing>::parse_terminated.parse2(tokens.clone());
    parsed.unwrap().into_iter().nth(i).unwrap().sig.ident.to_token_stream()
}

/// The tokens of the body of item `i` of the impl block (`Block::to_token_stream`).
/// The claim: they are `impl_block_tokens(tokens, i)`.
#[verifier::external_body]
fn impl_block_fragment(tokens: &TokenStream, i: usize) -> (r: TokenStream)
    requires
        impl_read(*tokens) is Ok,
        i < impl_items(*tokens).len(),
        impl_items(*tokens)[i as int] is Some,
    ensures
        r == impl_block_tokens(*tokens, i as nat),
{
    match syn::parse2::<ItemImpl>(tokens.clone()).unwrap().items.swap_remove(i) {
        ImplItem::Fn(f) => f.block.to_token_stream(),
        _ => TokenStream::new(),
    }
}

/// The tokens of the return type of item `i` of the impl block. The claim: they are
/// `impl_output_tokens(tokens, i)`.
#[verifier::external_body]
fn impl_output_fragment(tokens: &TokenStream, i: usize) -> (r: TokenStream)
    requires
        impl_read(*tokens) is Ok,
        i < impl_items(*tokens).len(),
        impl_items(*tokens)[i as int] is Some,
        impl_items(*tokens)[i as int]->0.output is Some,
    ensures
        r == impl_output_tokens(*tokens, i as nat),
{
    match syn::parse2::<ItemImpl>(tokens.clone()).unwrap().items.swap_remove(i) {
        ImplItem::Fn(f) => match f.sig.output {
            ReturnType::Type(_, ty) => ty.to_token_stream(),
            ReturnType::Default => TokenStream::new(),
        },
        _ => TokenStream::new(),
    }
}

/// The tokens of argument `j` of item `i` of the impl block: a receiver whole, or the
/// type of a typed argument. The claim: they are `impl_arg_tokens(tokens, i, j)`.
#[verifier::external_body]
fn impl_arg_fragment(tokens: &TokenStream, i: usize, j: usize) -> (r: TokenStream)
    requires
        impl_read(*tokens) is Ok,
        i < impl_items(*tokens).len(),
        impl_items(*tokens)[i as int] is Some,
        j < impl_items(*tokens)[i as int]->0.inputs.len(),
    ensures
        r == impl_arg_tokens(*tokens, i as nat, j as nat),
{
    match syn::parse2::<ItemImpl>(tokens.clone()).unwrap().items.swap_remove(i) {
        ImplItem::Fn(f) => match f.sig.inputs.into_iter().nth(j).unwrap() {
            FnArg::Receiver(a) => a.to_token_stream(),
            FnArg::Typed(p) => p.ty.to_token_stream(),
        },
        _ => TokenStream::new(),
    }
}

/// The tokens of the pattern's identifier of argument `j` of item `i` of the impl
/// block. The claim: they are `impl_arg_name_tokens(tokens, i, j)`.
#[verifier::external_body]
fn impl_arg_name_fragment(tokens: &TokenStream, i: usize, j: usize) -> (r: TokenStream)
    requires
        impl_read(*tokens) is Ok,
        i < impl_items(*tokens).len(),
        impl_items(*tokens)[i as int] is Some,
        j < impl_items(*tokens)[i as int]->0.inputs.len(),
        impl_items(*tokens)[i as int]->0.inputs[j as int] matches ArgRead::Typed { name: Some(_), .. },
    ensures
        r == impl_arg_name_tokens(*tokens, i as nat, j as nat),
{
    match syn::parse2::<ItemImpl>(tokens.clone()).unwrap().items.swap_remove(i) {
        ImplItem::Fn(f) => match f.sig.inputs.into_iter().nth(j).unwrap() {
            FnArg::Typed(p) => match *p.pat {
                Pat::Ident(x) => x.ident.to_token_stream(),
                _ => TokenStream::new(),
            },
            FnArg::Receiver(_) => TokenStream::new(),
        },
        _ => TokenStream::new(),
    }
}

/// The tokens of the body of function `i` of the list. The claim: they are
/// `listed_block_tokens(tokens, i)`.
#[verifier::external_body]
fn listed_block_fragment(tokens: &TokenStream, i: usize) -> (r: TokenStream)
    requires
        fns_read(*tokens) is Ok,
        i < listed_fns(*tokens).len(),
    ensures
        r == listed_block_tokens(*tokens, i as nat),
{
    let parsed = Punctuated::<ItemFn, syn::parse::Nothing>::parse_terminated.parse2(tokens.clone());
    parsed.unwrap().into_iter().nth(i).unwrap().block.to_token_stream()
}

/// The tokens of the return type of function `i` of the list. The claim: they are
/// `listed_output_tokens(tokens, i)`.
#[verifier::external_body]
fn listed_output_fragment(tokens: &TokenStream, i: usize) -> (r: TokenStream)
    requires
        fns_read(*tokens) is Ok,
        i < listed_fns(*tokens).len(),
        listed_fns(*tokens)[i as int].output is Some,
    ensures
        r == listed_output_tokens(*tokens, i as nat),
{
    let parsed = Punctuated::<ItemFn, syn::parse::Nothing>::parse_terminated.parse2(tokens.clone());
    match parsed.unwrap().into_iter().nth(i).unwrap().sig.output {
        ReturnType::Type(_, ty) => ty.to_token_stream(),
        ReturnType::Default => TokenStream::new(),
    }
}

/// The tokens of argument `j` of function `i` of the list: a receiver whole, or the
/// type of a typed argument. The claim: they are `listed_arg_tokens(tokens, i, j)`.
#[verifier::external_body]
fn listed_arg_fragment(tokens: &TokenStream, i: usize, j: usize) -> (r: TokenStream)
    requires
        fns_read(*tokens) is Ok,
        i < listed_fns(*tokens).len(),
        j < listed_fns(*tokens)[i as int].inputs.len(),
    ensures
        r == listed_arg_tokens(*tokens, i as nat, j as nat),
{
    let parsed = Punctuated::<ItemFn, syn::parse::Nothing>::parse_terminated.parse2(tokens.clone());
    match parsed.unwrap().into_iter().nth(i).unwrap().sig.inputs.into_iter().nth(j).unwrap() {
        FnArg::Receiver(a) => a.to_token_stream(),
        FnArg::Typed(p) => p.ty.to_token_stream(),
    }
}

/// The tokens of the pattern's identifier of argument `j` of function `i` of the list.
/// The claim: they are `listed_arg_name_tokens(tokens, i, j)`.
#[verifier::external_body]
fn listed_arg_name_fragment(tokens: &TokenStream, i: usize, j: usize) -> (r: TokenStream)
    requires
        fns_read(*tokens) is Ok,
        i < listed_fns(*tokens).len(),
        j < listed_fns(*tokens)[i as int].inputs.len(),
        listed_fns(*tokens)[i as int].inputs[j as int] matches ArgRead::Typed { name: Some(_), .. },
    ensures
        r == listed_arg_name_tokens(*tokens, i as nat, j as nat),
{
    let parsed = Punctuated::<ItemFn, syn::parse::Nothing>::parse_terminated.parse2(tokens.clone());
    match parsed.unwrap().into_iter().nth(i).unwrap().sig.inputs.into_iter().nth(j).unwrap() {
        FnArg::Typed(p) => match *p.pat {
            Pat::Ident(x) => x.ident.to_token_stream(),
            _ => TokenStream::new(),
        },
        FnArg::Receiver(_) => TokenStream::new(),
    }
}

/// Whether the input was read as a list of functions (`listed`) or as an impl block.
pub open spec fn source_read(tokens: TokenStream, listed: bool) -> bool {
    if listed {
        fns_read(tokens) is Ok
    } else {
        impl_read(tokens) is Ok
    }
}

/// What was read of function `i` of the input.
pub open spec fn fn_read_at(tokens: TokenStream, listed: bool, i: int) -> Option<FnRead> {
    if listed {
        if 0 <= i < listed_fns(tokens).len() {
            Some(listed_fns(tokens)[i])
        } else {
            None
        }
    } else if 0 <= i < impl_items(tokens).len() {
        impl_items(tokens)[i]
    } else {
        None
    }
}

/// The placeholder of a part of function `i` of the set whose name (without `r#`) is
/// `stem`: `__stem_fragment_i_` and the part's name.
pub open spec fn placeholder_text(stem: Seq<char>, i: nat, part: Seq<char>) -> Seq<char> {
    "__"@ + stem + "_fragment_"@ + decimal_text(i) + "_"@ + part
}

/// The placeholder of the name of the set whose name (without `r#`) is `stem`.
pub open spec fn name_placeholder_text(stem: Seq<char>) -> Seq<char> {
    "__"@ + stem + "_fragment_name"@
}

/// The placeholder of the self type of the set whose name (without `r#`) is `stem`.
pub open spec fn self_placeholder_text(stem: Seq<char>) -> Seq<char> {
    "__"@ + stem + "_fragment_self"@
}

/// The part name of argument `j`.
pub open spec fn arg_part(j: nat) -> Seq<char> {
    "arg_"@ + decimal_text(j)
}

/// The part name of the pattern's identifier of argument `j`.
pub open spec fn name_part(j: nat) -> Seq<char> {
    "name_"@ + decimal_text(j)
}

/// `b` is argument `j` of function `i` as `a` is, with its receiver or its type, and
/// its name when it has one, replaced by placeholders.
pub open spec fn placeholder_arg(stem: Seq<char>, i: nat, j: nat, a: ArgModel, b: ArgModel) -> bool {
    match a {
        ArgModel::Receiver { reference, mutability, .. } => b matches ArgModel::Receiver {
            reference: r2,
            mutability: m2,
            text,
        } && r2 == reference && m2 == mutability && text@ == placeholder_text(stem, i, arg_part(j)),
        ArgModel::Typed { name, .. } => b matches ArgModel::Typed { name: n2, ty } && ty@
            == placeholder_text(stem, i, arg_part(j)) && opt_text(n2) == (if name is Some {
            Some(placeholder_text(stem, i, name_part(j)))
        } else {
            None
        }),
    }
}

/// `g` is function `i` as `f` is, with every part that the user wrote replaced by a
/// placeholder; the name by that of the set's name.
pub open spec fn placeholder_fn(stem: Seq<char>, i: nat, f: FnModel, g: FnModel) -> bool {
    &&& g.name@ == name_placeholder_text(stem)
    &&& g.block@ == placeholder_text(stem, i, "block"@)
    &&& opt_text(g.output) == (if f.output is Some {
        Some(placeholder_text(stem, i, "output"@))
    } else {
        None
    })
    &&& g.inputs@.len() == f.inputs@.len()
    &&& forall|j: int|
        0 <= j < f.inputs@.len() ==> placeholder_arg(
            stem,
            i,
            j as nat,
            #[trigger] f.inputs@[j],
            g.inputs@[j],
        )
}

/// The name, without `r#`, of the first function of `fns`.
pub open spec fn set_stem(fns: Seq<FnModel>) -> Seq<char> {
    if fns.len() > 0 {
        unraw_text(fns[0].name@)
    } else {
        seq![]
    }
}

/// `gs` are the functions `fs` with placeholders.
pub open spec fn placeholder_fns(fs: Seq<FnModel>, gs: Seq<FnModel>) -> bool {
    &&& gs.len() == fs.len()
    &&& forall|i: int|
        0 <= i < fs.len() ==> placeholder_fn(set_stem(fs), i as nat, #[trigger] fs[i], gs[i])
}

/// `q` is the input `p` with every part that the user wrote replaced by a placeholder.
pub open spec fn placeholder_input(p: OverloadInput, q: OverloadInput) -> bool {
    match p {
        OverloadInput::Functions(fs) => q matches OverloadInput::Functions(gs) && placeholder_fns(
            fs@,
            gs@,
        ),
        OverloadInput::Methods { functions: fs, .. } => q matches OverloadInput::Methods {
            self_ty,
            functions: gs,
        } && self_ty@ == self_placeholder_text(set_stem(fs@)) && placeholder_fns(fs@, gs@),
    }
}

/// A function with placeholders takes the same kind of receiver as the function.
proof fn lemma_placeholder_receiver(stem: Seq<char>, i: nat, f: FnModel, g: FnModel)
    requires
        placeholder_fn(stem, i, f, g),
    ensures
        receiver_kind_of(g.inputs@) == receiver_kind_of(f.inputs@),
{
    if f.inputs@.len() > 0 {
        assert(placeholder_arg(stem, i, 0, f.inputs@[0], g.inputs@[0]));
    }
}

/// Putting placeholders in an input changes none of its refusals: the input expands
/// exactly when the input with placeholders does, and to the same error when it does
/// not.
pub proof fn lemma_placeholders_keep_refusals(
    p: OverloadInput,
    q: OverloadInput,
    s1: Result<String, OverloadError>,
    s2: Result<String, OverloadError>,
)
    requires
        placeholder_input(p, q),
        expansion_result(p, s1),
        expansion_result(q, s2),
    ensures
        s1 is Ok <==> s2 is Ok,
        s1 is Err ==> s1 == s2,
{
    match p {
        OverloadInput::Functions(fs) => {},
        OverloadInput::Methods { functions: fs, .. } => {
            let gs = q->functions;
            if fs@.len() > 0 {
                let stem = set_stem(fs@);
                assert(placeholder_fn(stem, 0, fs@[0], gs@[0]));
                lemma_placeholder_receiver(stem, 0, fs@[0], gs@[0]);
                assert forall|i: int| 0 <= i < fs@.len() implies receiver_kind_of(
                    #[trigger] gs@[i].inputs@,
                ) == receiver_kind_of(fs@[i].inputs@) by {
                    assert(placeholder_fn(stem, i as nat, fs@[i], gs@[i]));
                    lemma_placeholder_receiver(stem, i as nat, fs@[i], gs@[i]);
                }
                if receivers_agree(fs@) {
                    assert forall|i: int| 0 <= i < gs@.len() implies receiver_kind_of(
                        #[trigger] gs@[i].inputs@,
                    ) == receiver_kind_of(gs@[0].inputs@) by {
                        assert(receiver_kind_of(fs@[i].inputs@) == receiver_kind_of(
                            fs@[0].inputs@,
                        ));
                    }
                } else {
                    let i = choose|i: int|
                        0 <= i < fs@.len() && receiver_kind_of(#[trigger] fs@[i].inputs@)
                            != receiver_kind_of(fs@[0].inputs@);
                    assert(receiver_kind_of(gs@[i].inputs@) == receiver_kind_of(fs@[i].inputs@));
                    assert(!receivers_agree(gs@));
                }
            }
        },
    }
}

/// The tokens of the body of function `i`, read as a list (`listed`) or an impl block.
pub open spec fn block_tokens_of(tokens: TokenStream, listed: bool, i: nat) -> TokenStream {
    if listed {
        listed_block_tokens(tokens, i)
    } else {
        impl_block_tokens(tokens, i)
    }
}

/// The tokens of the return type of function `i`.
pub open spec fn output_tokens_of(tokens: TokenStream, listed: bool, i: nat) -> TokenStream {
    if listed {
        listed_output_tokens(tokens, i)
    } else {
        impl_output_tokens(tokens, i)
    }
}

/// The tokens of argument `j` of function `i`: the receiver, or the type.
pub open spec fn arg_tokens_of(tokens: TokenStream, listed: bool, i: nat, j: nat) -> TokenStream {
    if listed {
        listed_arg_tokens(tokens, i, j)
    } else {
        impl_arg_tokens(tokens, i, j)
    }
}

/// The tokens of the pattern's identifier of argument `j` of function `i`.
pub open spec fn arg_name_tokens_of(tokens: TokenStream, listed: bool, i: nat, j: nat) -> TokenStream {
    if listed {
        listed_arg_name_tokens(tokens, i, j)
    } else {
        impl_arg_name_tokens(tokens, i, j)
    }
}

/// The tokens of the name of function `i`.
pub open spec fn name_tokens_of(tokens: TokenStream, listed: bool, i: nat) -> TokenStream {
    if listed {
        listed_name_tokens(tokens, i)
    } else {
        impl_name_tokens(tokens, i)
    }
}

/// The placeholders of argument `j` (`a`) of function `i`, with the tokens they stand
/// for: its receiver or type, then its name when it has one.
pub open spec fn one_arg_fragments(
    tokens: TokenStream,
    listed: bool,
    stem: Seq<char>,
    i: nat,
    j: nat,
    a: ArgModel,
) -> Seq<(Seq<char>, TokenStream)> {
    seq![(placeholder_text(stem, i, arg_part(j)), arg_tokens_of(tokens, listed, i, j))] + (
    if a matches ArgModel::Typed { name: Some(_), .. } {
        seq![(placeholder_text(stem, i, name_part(j)), arg_name_tokens_of(tokens, listed, i, j))]
    } else {
        seq![]
    })
}

/// The placeholders of the first `j` arguments `inputs` of function `i`.
pub open spec fn arg_fragments(
    tokens: TokenStream,
    listed: bool,
    stem: Seq<char>,
    i: nat,
    inputs: Seq<ArgModel>,
    j: nat,
) -> Seq<(Seq<char>, TokenStream)>
    decreases j,
{
    if j == 0 {
        seq![]
    } else {
        arg_fragments(tokens, listed, stem, i, inputs, (j - 1) as nat) + one_arg_fragments(
            tokens,
            listed,
            stem,
            i,
            (j - 1) as nat,
            inputs[j - 1],
        )
    }
}

/// The placeholders of function `i` (`f`), with the tokens they stand for: its body,
/// its return type when it has one, then its arguments.
pub open spec fn fn_fragments(
    tokens: TokenStream,
    listed: bool,
    stem: Seq<char>,
    i: nat,
    f: FnModel,
) -> Seq<(Seq<char>, TokenStream)> {
    seq![(placeholder_text(stem, i, "block"@), block_tokens_of(tokens, listed, i))] + (
    if f.output is Some {
        seq![(placeholder_text(stem, i, "output"@), output_tokens_of(tokens, listed, i))]
    } else {
        seq![]
    }) + arg_fragments(tokens, listed, stem, i, f.inputs@, f.inputs@.len())
}

/// The placeholders of the first `n` functions `fs`.
pub open spec fn fns_fragments(
    tokens: TokenStream,
    listed: bool,
    stem: Seq<char>,
    fs: Seq<FnModel>,
    n: nat,
) -> Seq<(Seq<char>, TokenStream)>
    decreases n,
{
    if n == 0 {
        seq![]
    } else {
        fns_fragments(tokens, listed, stem, fs, (n - 1) as nat) + fn_fragments(
            tokens,
            listed,
            stem,
            (n - 1) as nat,
            fs[n - 1],
        )
    }
}

/// The placeholders of the parts that the user wrote, but the names, with the tokens
/// they stand for, for the input `p` read from `tokens`: for methods, the self type
/// first; then, function after function, the body, the return type and the arguments.
pub open spec fn part_fragments(tokens: TokenStream, p: OverloadInput) -> Seq<(Seq<char>, TokenStream)> {
    match p {
        OverloadInput::Functions(fs) => fns_fragments(tokens, true, set_stem(fs@), fs@, fs@.len()),
        OverloadInput::Methods { functions: fs, .. } => seq![
            (self_placeholder_text(set_stem(fs@)), impl_self_tokens(tokens)),
        ] + fns_fragments(tokens, false, set_stem(fs@), fs@, fs@.len()),
    }
}

/// The functions of an input.
pub open spec fn set_fns(p: OverloadInput) -> Seq<FnModel> {
    match p {
        OverloadInput::Functions(fs) => fs@,
        OverloadInput::Methods { functions, .. } => functions@,
    }
}

/// `trait_tokens` are what the trait name's text of the set `p` was read as, and (for
/// methods) `hidden[i]` what the `i`-th hidden method's name was read as.
pub open spec fn names_lexed(p: OverloadInput, trait_tokens: TokenStream, hidden: Seq<TokenStream>) -> bool {
    let fs = set_fns(p);
    fs.len() > 0 ==> {
        &&& lexed_from(trait_name_text(fs[0].name@), trait_tokens)
        &&& p is Methods ==> hidden.len() == fs.len() && forall|i: int|
            0 <= i < fs.len() ==> lexed_from(
                hidden_name_text(fs[0].name@, i as nat),
                #[trigger] hidden[i],
            )
    }
}

/// The placeholders of the names, with the tokens they stand for: the trait name's,
/// with `trait_tokens`; for methods, each hidden method's, with `hidden[i]` given the
/// span of the set's name; then the set's name's, with the name as the user wrote it.
pub open spec fn name_fragments_of(
    tokens: TokenStream,
    p: OverloadInput,
    trait_tokens: TokenStream,
    hidden: Seq<TokenStream>,
) -> Seq<(Seq<char>, TokenStream)> {
    let fs = set_fns(p);
    if fs.len() == 0 {
        seq![]
    } else {
        let ph = name_placeholder_text(set_stem(fs));
        let nt = name_tokens_of(tokens, p is Functions, 0);
        seq![(trait_name_text(ph), trait_tokens)] + (if p is Methods {
            Seq::new(
                fs.len(),
                |i: int| (hidden_name_text(ph, i as nat), respanned_all(hidden[i], nt)),
            )
        } else {
            seq![]
        }) + seq![(ph, nt)]
    }
}

/// Pushing a pair onto a list of placeholders pushes its view.
proof fn lemma_views_push(v: Seq<(String, TokenStream)>, x: (String, TokenStream))
    ensures
        fragment_views(v.push(x)) == fragment_views(v).push((x.0@, x.1)),
{
    assert(fragment_views(v.push(x)) =~= fragment_views(v).push((x.0@, x.1)));
}

/// The tokens of the body of function `i`.
fn block_fragment(tokens: &TokenStream, listed: bool, i: usize) -> (r: TokenStream)
    requires
        source_read(*tokens, listed),
        fn_read_at(*tokens, listed, i as int) is Some,
    ensures
        r == block_tokens_of(*tokens, listed, i as nat),
{
    if listed {
        listed_block_fragment(tokens, i)
    } else {
        impl_block_fragment(tokens, i)
    }
}

/// The tokens of the return type of function `i`.
fn output_fragment(tokens: &TokenStream, listed: bool, i: usize) -> (r: TokenStream)
    requires
        source_read(*tokens, listed),
        fn_read_at(*tokens, listed, i as int) matches Some(f) && f.output is Some,
    ensures
        r == output_tokens_of(*tokens, listed, i as nat),
{
    if listed {
        listed_output_fragment(tokens, i)
    } else {
        impl_output_fragment(tokens, i)
    }
}

/// The tokens of argument `j` of function `i`: the receiver, or the type.
fn arg_fragment(tokens: &TokenStream, listed: bool, i: usize, j: usize) -> (r: TokenStream)
    requires
        source_read(*tokens, listed),
        fn_read_at(*tokens, listed, i as int) matches Some(f) && j < f.inputs.len(),
    ensures
        r == arg_tokens_of(*tokens, listed, i as nat, j as nat),
{
    if listed {
        listed_arg_fragment(tokens, i, j)
    } else {
        impl_arg_fragment(tokens, i, j)
    }
}

/// The tokens of the pattern's identifier of argument `j` of function `i`.
fn arg_name_fragment(tokens: &TokenStream, listed: bool, i: usize, j: usize) -> (r: TokenStream)
    requires
        source_read(*tokens, listed),
        fn_read_at(*tokens, listed, i as int) matches Some(f) && j < f.inputs.len()
            && f.inputs[j as int] matches ArgRead::Typed { name: Some(_), .. },
    ensures
        r == arg_name_tokens_of(*tokens, listed, i as nat, j as nat),
{
    if listed {
        listed_arg_name_fragment(tokens, i, j)
    } else {
        impl_arg_name_fragment(tokens, i, j)
    }
}

/// Returns `base` followed by `part`.
fn joined(base: &String, part: &str) -> (r: String)
    ensures
        r@ == base@ + part@,
{
    let mut r = base.clone();
    r.append(part);
    r
}

/// Returns `base` followed by `prefix` and the decimal text of `j`.
fn numbered(base: &String, prefix: &str, j: usize) -> (r: String)
    ensures
        r@ == base@ + prefix@ + decimal_text(j as nat),
{
    let mut r = base.clone();
    r.append(prefix);
    let digits = decimal_string(j);
    r.append(digits.as_str());
    r
}

/// Function `i` with placeholders in place of the parts the user wrote; each
/// placeholder is pushed onto `frags` with the tokens it stands for.
fn fn_with_placeholders(
    tokens: &TokenStream,
    listed: bool,
    i: usize,
    f: &FnModel,
    stem: &String,
    frags: &mut Vec<(String, TokenStream)>,
) -> (g: FnModel)
    requires
        source_read(*tokens, listed),
        fn_read_at(*tokens, listed, i as int) == Some(f@),
    ensures
        placeholder_fn(stem@, i as nat, *f, g),
        fragment_views(final(frags)@) == fragment_views(old(frags)@) + fn_fragments(
            *tokens,
            listed,
            stem@,
            i as nat,
            *f,
        ),
{
    let ghost start = fragment_views(frags@);
    let mut name = String::from_str("__");
    name.append(stem.as_str());
    name.append("_fragment_name");
    proof {
        reveal_strlit("_fragment_name");
        reveal_strlit("block");
        reveal_strlit("output");
        reveal_strlit("arg_");
        reveal_strlit("name_");
    }
    let mut base = String::from_str("__");
    base.append(stem.as_str());
    base.append("_fragment_");
    let digits = decimal_string(i);
    base.append(digits.as_str());
    base.append("_");
    assert(base@ =~= "__"@ + stem@ + "_fragment_"@ + decimal_text(i as nat) + "_"@);
    let block = joined(&base, "block");
    assert(block@ =~= placeholder_text(stem@, i as nat, "block"@));
    let block_pair = (block.clone(), block_fragment(tokens, listed, i));
    proof {
        lemma_views_push(frags@, block_pair);
    }
    frags.push(block_pair);
    let output = match &f.output {
        Some(_) => {
            let name = joined(&base, "output");
            assert(name@ =~= placeholder_text(stem@, i as nat, "output"@));
            let output_pair = (name.clone(), output_fragment(tokens, listed, i));
            proof {
                lemma_views_push(frags@, output_pair);
            }
            frags.push(output_pair);
            Some(name)
        },
        None => None,
    };
    let ghost head = fragment_views(frags@);
    assert(head =~= start + seq![
        (placeholder_text(stem@, i as nat, "block"@), block_tokens_of(*tokens, listed, i as nat)),
    ] + (if f.output is Some {
        seq![(placeholder_text(stem@, i as nat, "output"@), output_tokens_of(*tokens, listed, i as nat))]
    } else {
        seq![]
    }));
    let ghost fr = f@;
    let n = f.inputs.len();
    let mut inputs: Vec<ArgModel> = Vec::new();
    let mut j: usize = 0;
    while j < n
        invariant
            j <= n,
            n == f.inputs@.len(),
            fr == f@,
            source_read(*tokens, listed),
            fn_read_at(*tokens, listed, i as int) == Some(fr),
            base@ == "__"@ + stem@ + "_fragment_"@ + decimal_text(i as nat) + "_"@,
            inputs@.len() == j,
            fragment_views(frags@) == head + arg_fragments(
                *tokens,
                listed,
                stem@,
                i as nat,
                f.inputs@,
                j as nat,
            ),
            forall|k: int|
                0 <= k < j ==> placeholder_arg(
                    stem@,
                    i as nat,
                    k as nat,
                    #[trigger] f.inputs@[k],
                    inputs@[k],
                ),
        decreases n - j,
    {
        assert(fr.inputs[j as int] == f.inputs@[j as int]@);
        let ty = numbered(&base, "arg_", j);
        assert(ty@ =~= placeholder_text(stem@, i as nat, arg_part(j as nat)));
        let ghost before = fragment_views(frags@);
        let arg_pair = (ty.clone(), arg_fragment(tokens, listed, i, j));
        proof {
            lemma_views_push(frags@, arg_pair);
        }
        frags.push(arg_pair);
        let b = match &f.inputs[j] {
            ArgModel::Receiver { reference, mutability, .. } => ArgModel::Receiver {
                reference: *reference,
                mutability: *mutability,
                text: ty,
            },
            ArgModel::Typed { name, .. } => {
                let name_ph = match name {
                    Some(_) => {
                        let p = numbered(&base, "name_", j);
                        assert(p@ =~= placeholder_text(stem@, i as nat, name_part(j as nat)));
                        let name_pair = (p.clone(), arg_name_fragment(tokens, listed, i, j));
                        proof {
                            lemma_views_push(frags@, name_pair);
                        }
                        frags.push(name_pair);
                        Some(p)
                    },
                    None => None,
                };
                ArgModel::Typed { name: name_ph, ty }
            },
        };
        assert(placeholder_arg(stem@, i as nat, j as nat, f.inputs@[j as int], b));
        assert(fragment_views(frags@) =~= before + one_arg_fragments(
            *tokens,
            listed,
            stem@,
            i as nat,
            j as nat,
            f.inputs@[j as int],
        ));
        inputs.push(b);
        j += 1;
    }
    assert(output matches Some(o) ==> o@ =~= placeholder_text(stem@, i as nat, "output"@));
    assert(name@ =~= name_placeholder_text(stem@));
    FnModel { name, inputs, output, block }
}

/// The functions `functions` with placeholders; each placeholder is pushed onto
/// `frags` with the tokens it stands for.
fn fns_with_placeholders(
    tokens: &TokenStream,
    listed: bool,
    functions: &Vec<FnModel>,
    frags: &mut Vec<(String, TokenStream)>,
) -> (gs: Vec<FnModel>)
    requires
        source_read(*tokens, listed),
        forall|i: int|
            0 <= i < functions@.len() ==> fn_read_at(*tokens, listed, i) == Some(
                #[trigger] functions@[i]@,
            ),
    ensures
        placeholder_fns(functions@, gs@),
        fragment_views(final(frags)@) == fragment_views(old(frags)@) + fns_fragments(
            *tokens,
            listed,
            set_stem(functions@),
            functions@,
            functions@.len(),
        ),
{
    let ghost start = fragment_views(frags@);
    let stem = if functions.len() > 0 {
        unraw_string(functions[0].name.as_str())
    } else {
        String::new()
    };
    assert(stem@ == set_stem(functions@));
    let n = functions.len();
    let mut gs: Vec<FnModel> = Vec::new();
    let mut i: usize = 0;
    while i < n
        invariant
            i <= n,
            n == functions@.len(),
            stem@ == set_stem(functions@),
            source_read(*tokens, listed),
            forall|k: int|
                0 <= k < functions@.len() ==> fn_read_at(*tokens, listed, k) == Some(
                    #[trigger] functions@[k]@,
                ),
            gs@.len() == i,
            fragment_views(frags@) == start + fns_fragments(
                *tokens,
                listed,
                set_stem(functions@),
                functions@,
                i as nat,
            ),
            forall|k: int|
                0 <= k < i ==> placeholder_fn(
                    set_stem(functions@),
                    k as nat,
                    #[trigger] functions@[k],
                    gs@[k],
                ),
        decreases n - i,
    {
        assert(fn_read_at(*tokens, listed, i as int) == Some(functions@[i as int]@));
        let g = fn_with_placeholders(tokens, listed, i, &functions[i], &stem, frags);
        assert(fragment_views(frags@) =~= start + fns_fragments(
            *tokens,
            listed,
            set_stem(functions@),
            functions@,
            (i + 1) as nat,
        ));
        gs.push(g);
        i += 1;
    }
    gs
}

/// The input `parsed`, read from `input`, with placeholders in place of the parts the
/// user wrote, and the placeholders with the tokens they stand for.
pub fn with_placeholders(input: &TokenStream, parsed: &OverloadInput) -> (r: (
    OverloadInput,
    Vec<(String, TokenStream)>,
))
    requires
        read_result(*input, Ok::<OverloadInput, OverloadError>(*parsed)),
    ensures
        placeholder_input(*parsed, r.0),
        fragment_views(r.1@) == part_fragments(*input, *parsed),
{
    let mut frags: Vec<(String, TokenStream)> = Vec::new();
    match parsed {
        OverloadInput::Functions(functions) => {
            proof {
                assert forall|i: int| 0 <= i < functions@.len() implies fn_read_at(
                    *input,
                    true,
                    i,
                ) == Some(#[trigger] functions@[i]@) by {
                    assert(crate::syntax::fn_reads(functions@)[i] == functions@[i]@);
                }
            }
            assert(fragment_views(frags@) =~= seq![]);
            let gs = fns_with_placeholders(input, true, functions, &mut frags);
            assert(fragment_views(frags@) =~= part_fragments(*input, *parsed));
            (OverloadInput::Functions(gs), frags)
        },
        OverloadInput::Methods { functions, .. } => {
            proof {
                assert forall|i: int| 0 <= i < functions@.len() implies fn_read_at(
                    *input,
                    false,
                    i,
                ) == Some(#[trigger] functions@[i]@) by {
                    assert(crate::syntax::starts_with_impl(*input));
                    assert(impl_read(*input) is Ok);
                    let items = impl_items(*input);
                    assert(crate::syntax::all_read(items));
                    assert(crate::syntax::fn_reads(functions@) == crate::syntax::unwrap_reads(
                        items,
                    ));
                    assert(crate::syntax::fn_reads(functions@).len() == functions@.len());
                    assert(crate::syntax::unwrap_reads(items).len() == items.len());
                    assert(crate::syntax::fn_reads(functions@)[i] == functions@[i]@);
                    assert(crate::syntax::unwrap_reads(items)[i] == items[i]->0);
                    assert(items[i] is Some);
                }
            }
            let stem = if functions.len() > 0 {
                unraw_string(functions[0].name.as_str())
            } else {
                String::new()
            };
            let mut self_ph = String::from_str("__");
            self_ph.append(stem.as_str());
            self_ph.append("_fragment_self");
            proof {
                reveal_strlit("_fragment_self");
            }
            assert(self_ph@ =~= self_placeholder_text(set_stem(functions@)));
            let self_pair = (self_ph.clone(), impl_self_fragment(input));
            proof {
                lemma_views_push(frags@, self_pair);
            }
            frags.push(self_pair);
            assert(fragment_views(frags@) =~= seq![
                (self_placeholder_text(set_stem(functions@)), impl_self_tokens(*input)),
            ]);
            let gs = fns_with_placeholders(input, false, functions, &mut frags);
            assert(fragment_views(frags@) =~= part_fragments(*input, *parsed));
            (OverloadInput::Methods { self_ty: self_ph, functions: gs }, frags)
        },
    }
}

/// The tokens that the placeholders of the names stand for: the trait name, read from
/// its text; for methods each hidden method's name, read from its text and given the
/// span of the set's name; and the set's name as the user wrote it. They are pushed
/// onto `frags`, as `name_fragments_of` lists them; the lexer's message comes back when
/// a name's text is not read as tokens.
pub fn name_fragments(
    input: &TokenStream,
    parsed: &OverloadInput,
    frags: &mut Vec<(String, TokenStream)>,
) -> (r: Result<(), String>)
    requires
        read_result(*input, Ok::<OverloadInput, OverloadError>(*parsed)),
    ensures
        r is Ok ==> exists|trait_tokens: TokenStream, hidden: Seq<TokenStream>|
            #[trigger] names_lexed(*parsed, trait_tokens, hidden) && fragment_views(
                final(frags)@,
            ) == fragment_views(old(frags)@) + name_fragments_of(
                *input,
                *parsed,
                trait_tokens,
                hidden,
            ),
{
    let ghost start = fragment_views(frags@);
    let (listed, functions) = match parsed {
        OverloadInput::Functions(functions) => (true, functions),
        OverloadInput::Methods { functions, .. } => (false, functions),
    };
    assert(functions@ == set_fns(*parsed));
    if functions.len() == 0 {
        assert(names_lexed(*parsed, arbitrary(), seq![]));
        assert(fragment_views(frags@) =~= start + name_fragments_of(
            *input,
            *parsed,
            arbitrary(),
            seq![],
        ));
        return Ok(());
    }
    proof {
        assert(crate::syntax::fn_reads(functions@)[0] == functions@[0]@);
        if !listed {
            assert(crate::syntax::starts_with_impl(*input));
            assert(impl_read(*input) is Ok);
            let items = impl_items(*input);
            assert(crate::syntax::all_read(items));
            assert(crate::syntax::fn_reads(functions@) == crate::syntax::unwrap_reads(items));
            assert(crate::syntax::fn_reads(functions@).len() == functions@.len());
            assert(crate::syntax::unwrap_reads(items).len() == items.len());
            assert(crate::syntax::unwrap_reads(items)[0] == items[0]->0);
            assert(items[0] is Some);
        }
    }
    let name_tokens = if listed {
        listed_name_fragment(input, 0)
    } else {
        impl_name_fragment(input, 0)
    };
    let set_name = functions[0].name.as_str();
    let stem = unraw_string(set_name);
    let mut placeholder = String::from_str("__");
    placeholder.append(stem.as_str());
    placeholder.append("_fragment_name");
    proof {
        reveal_strlit("__");
        reveal_strlit("_fragment_name");
        reveal_strlit("Args");
        reveal_strlit("_impl_");
        reveal(trait_name_text);
    }
    assert(placeholder@ =~= name_placeholder_text(set_stem(functions@)));
    let ghost ph = placeholder@;
    assert(unraw_text(ph) == ph);
    let trait_name = trait_name_for(set_name);
    let trait_tokens = tokens_from_source(trait_name.as_str())?;
    let ghost trait_t = trait_tokens;
    let mut trait_placeholder = placeholder.clone();
    trait_placeholder.append("Args");
    assert(trait_placeholder@ =~= trait_name_text(ph));
    let trait_pair = (trait_placeholder, trait_tokens);
    proof {
        lemma_views_push(frags@, trait_pair);
    }
    frags.push(trait_pair);
    let ghost mid = fragment_views(frags@);
    let ghost mut hidden: Seq<TokenStream> = seq![];
    let ghost nt = name_tokens_of(*input, listed, 0);
    if !listed {
        let n = functions.len();
        let mut i: usize = 0;
        while i < n
            invariant
                i <= n,
                n == functions@.len(),
                n > 0,
                stem@ == unraw_text(functions@[0].name@),
                placeholder@ == ph,
                ph == name_placeholder_text(set_stem(functions@)),
                unraw_text(ph) == ph,
                name_tokens == nt,
                hidden.len() == i,
                forall|k: int|
                    0 <= k < i ==> lexed_from(
                        hidden_name_text(functions@[0].name@, k as nat),
                        #[trigger] hidden[k],
                    ),
                fragment_views(frags@) == mid + Seq::new(
                    i as nat,
                    |k: int| (hidden_name_text(ph, k as nat), respanned_all(hidden[k], nt)),
                ),
            decreases n - i,
        {
            let digits = decimal_string(i);
            let mut hidden_text = String::from_str("__");
            hidden_text.append(stem.as_str());
            hidden_text.append("_impl_");
            hidden_text.append(digits.as_str());
            assert(hidden_text@ =~= hidden_name_text(functions@[0].name@, i as nat));
            let hidden_tokens = tokens_from_source(hidden_text.as_str())?;
            let mut hidden_placeholder = String::from_str("__");
            hidden_placeholder.append(placeholder.as_str());
            hidden_placeholder.append("_impl_");
            hidden_placeholder.append(digits.as_str());
            assert(hidden_placeholder@ =~= hidden_name_text(ph, i as nat));
            let hidden_pair = (hidden_placeholder, respan_all(&hidden_tokens, &name_tokens));
            proof {
                lemma_views_push(frags@, hidden_pair);
                hidden = hidden.push(hidden_tokens);
            }
            frags.push(hidden_pair);
            assert(fragment_views(frags@) =~= mid + Seq::new(
                (i + 1) as nat,
                |k: int| (hidden_name_text(ph, k as nat), respanned_all(hidden[k], nt)),
            ));
            i += 1;
        }
    }
    let ghost before_name = fragment_views(frags@);
    let name_pair = (placeholder, name_tokens);
    proof {
        lemma_views_push(frags@, name_pair);
    }
    frags.push(name_pair);
    assert(names_lexed(*parsed, trait_t, hidden));
    assert(fragment_views(frags@) =~= start + name_fragments_of(*input, *parsed, trait_t, hidden));
    Ok(())
}

} // verus!
