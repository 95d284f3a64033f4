//! Source generation for an overload set: the argument trait, one impl per
//! overload, and the dispatch function.

use vstd::prelude::*;

use crate::args::{
    arg_index_texts, arg_name_texts, arg_type_texts, collect_args, output_text, output_ty_for,
    tuple_text, tuple_ty_for,
};
use crate::model::{receiver_kind_of, ArgModel, FnModel, OverloadError, OverloadInput, ReceiverKind};
use crate::text::{
    decimal_string, decimal_text, join_strings, join_text, texts, trait_name_for, trait_name_text,
    unraw_string, unraw_text,
};
use vstd::string::StrSliceExecFns;
use vstd::string::StringExecFns;

verus! {

/// The diagnostic attribute that the compiler shows when no overload matches.
pub open spec fn diagnostic_attr_text() -> Seq<char> {
    "#[diagnostic::on_unimplemented(message = \"missing overload for arguments `{Self}`\", label = \"the argument types `{Self}` do not match any overload\", note = \"check for missing or extra arguments, and check argument types\", note = \"consider adding a new overload in the overload! {{ ... }} block\",)] "@
}

fn push_diagnostic_attr(out: &mut String)
    ensures
        final(out)@ == old(out)@ + diagnostic_attr_text(),
{
    out.append(
        "#[diagnostic::on_unimplemented(message = \"missing overload for arguments `{Self}`\", label = \"the argument types `{Self}` do not match any overload\", note = \"check for missing or extra arguments, and check argument types\", note = \"consider adding a new overload in the overload! {{ ... }} block\",)] ",
    );
}

/// `let name = index;` for each typed argument, in order.
pub open spec fn bindings_text(names: Seq<Seq<char>>, indices: Seq<Seq<char>>) -> Seq<char>
    decreases names.len(),
{
    if names.len() == 0 {
        seq![]
    } else {
        bindings_text(names.drop_last(), indices.drop_last()) + "let "@ + names.last() + " = "@
            + indices[names.len() - 1] + "; "@
    }
}

/// The bindings of the arguments of `f` to the fields of the argument tuple.
pub open spec fn fn_bindings_text(f: FnModel) -> Seq<char> {
    bindings_text(arg_name_texts(f.inputs@), arg_index_texts(f.inputs@))
}

/// Appends `let name = index;` for each pair of `names` and `indices`.
fn push_bindings(out: &mut String, names: &Vec<String>, indices: &Vec<String>)
    requires
        names@.len() == indices@.len(),
    ensures
        final(out)@ == old(out)@ + bindings_text(texts(names@), texts(indices@)),
{
    let ghost start = out@;
    let n = names.len();
    let mut i: usize = 0;
    while i < n
        invariant
            0 <= i <= n,
            n == names@.len(),
            n == indices@.len(),
            out@ == start + bindings_text(texts(names@).take(i as int), texts(indices@).take(i as int)),
        decreases n - i,
    {
        out.append("let ");
        out.append(names[i].as_str());
        out.append(" = ");
        out.append(indices[i].as_str());
        out.append("; ");
        assert(texts(names@).take(i + 1).drop_last() =~= texts(names@).take(i as int));
        assert(texts(indices@).take(i + 1).drop_last() =~= texts(indices@).take(i as int));
        i += 1;
    }
    assert(texts(names@).take(n as int) =~= texts(names@));
    assert(texts(indices@).take(n as int) =~= texts(indices@));
}

/// The trait declaration for an overload set of free functions.
pub open spec fn free_trait_text(trait_name: Seq<char>) -> Seq<char> {
    diagnostic_attr_text() + "trait "@ + trait_name
        + ": std::marker::Tuple { type Output; fn call(self) -> Self::Output; } "@
}

/// The impl of the argument trait for the argument tuple of the free function `f`.
pub open spec fn free_impl_text(trait_name: Seq<char>, f: FnModel) -> Seq<char> {
    "impl "@ + trait_name + " for "@ + tuple_text(arg_type_texts(f.inputs@))
        + " { type Output = "@ + output_text(f.output)
        + "; fn call(self) -> Self::Output { "@ + fn_bindings_text(f) + f.block@ + " } } "@
}

/// The impls for all free functions of `fns`, in order.
pub open spec fn free_impls_text(trait_name: Seq<char>, fns: Seq<FnModel>) -> Seq<char>
    decreases fns.len(),
{
    if fns.len() == 0 {
        seq![]
    } else {
        free_impls_text(trait_name, fns.drop_last()) + free_impl_text(trait_name, fns.last())
    }
}

/// The dispatch function of a set of free functions named `name`.
pub open spec fn free_dispatch_text(name: Seq<char>, trait_name: Seq<char>) -> Seq<char> {
    "fn "@ + name + "<T: "@ + trait_name + ">(#[rustc_splat] args: T) -> T::Output { args.call() }"@
}

/// The source generated for a non-empty set of free functions; the set is named
/// after its first function.
pub open spec fn free_functions_text(fns: Seq<FnModel>) -> Seq<char> {
    let trait_name = trait_name_text(fns[0].name@);
    free_trait_text(trait_name) + free_impls_text(trait_name, fns) + free_dispatch_text(
        fns[0].name@,
        trait_name,
    )
}

/// What expanding the free functions `fns` gives: an error for an empty set, else
/// the source `free_functions_text(fns)`.
pub open spec fn free_functions_result(fns: Seq<FnModel>, r: Result<String, OverloadError>) -> bool {
    if fns.len() == 0 {
        r == Err::<String, OverloadError>(OverloadError::EmptyOverloadSet)
    } else {
        r matches Ok(s) && s@ == free_functions_text(fns)
    }
}

/// Appends the impl of the argument trait for one free function.
fn push_free_impl(out: &mut String, trait_name: &String, func: &FnModel)
    ensures
        final(out)@ == old(out)@ + free_impl_text(trait_name@, *func),
{
    let (arg_types, arg_names, arg_indices) = collect_args(func);
    let output_ty = output_ty_for(func);
    let tuple_ty = tuple_ty_for(arg_types.as_slice());
    out.append("impl ");
    out.append(trait_name.as_str());
    out.append(" for ");
    out.append(tuple_ty.as_str());
    out.append(" { type Output = ");
    out.append(output_ty.as_str());
    out.append("; fn call(self) -> Self::Output { ");
    push_bindings(out, &arg_names, &arg_indices);
    out.append(func.block.as_str());
    out.append(" } } ");
}

/// Generates the overloaded trait code for a non-empty list of free functions.
///
/// The set is named after its first function.
pub fn generate_free_functions(functions: Vec<FnModel>) -> (r: String)
    requires
        functions@.len() > 0,
    ensures
        r@ == free_functions_text(functions@),
{
    let fn_name = &functions[0].name;
    let trait_name = trait_name_for(fn_name.as_str());
    let mut out = String::new();
    push_diagnostic_attr(&mut out);
    out.append("trait ");
    out.append(trait_name.as_str());
    out.append(": std::marker::Tuple { type Output; fn call(self) -> Self::Output; } ");
    let ghost head = out@;
    assert(head =~= free_trait_text(trait_name@));

    let n = functions.len();
    let mut i: usize = 0;
    while i < n
        invariant
            0 <= i <= n,
            n == functions@.len(),
            out@ == head + free_impls_text(trait_name@, functions@.take(i as int)),
        decreases n - i,
    {
        push_free_impl(&mut out, &trait_name, &functions[i]);
        assert(functions@.take(i + 1).drop_last() =~= functions@.take(i as int));
        i += 1;
    }
    assert(functions@.take(n as int) =~= functions@);

    out.append("fn ");
    out.append(functions[0].name.as_str());
    out.append("<T: ");
    out.append(trait_name.as_str());
    out.append(">(#[rustc_splat] args: T) -> T::Output { args.call() }");
    assert(out@ =~= free_functions_text(functions@));
    out
}

/// The `this` parameter of the trait's `call` method, over the generic receiver type `R`.
pub open spec fn this_generic_text(kind: ReceiverKind) -> Seq<char> {
    match kind {
        ReceiverKind::RefMut => ", this: &mut R"@,
        ReceiverKind::Ref => ", this: &R"@,
        ReceiverKind::Owned => ", this: R"@,
        ReceiverKind::NoReceiver => seq![],
    }
}

/// The `this` parameter of `call` in an impl, over the concrete self type.
pub open spec fn this_concrete_text(kind: ReceiverKind, self_ty: Seq<char>) -> Seq<char> {
    match kind {
        ReceiverKind::RefMut => ", this: &mut "@ + self_ty,
        ReceiverKind::Ref => ", this: &"@ + self_ty,
        ReceiverKind::Owned => ", this: "@ + self_ty,
        ReceiverKind::NoReceiver => seq![],
    }
}

/// How an impl's `call` reaches the hidden method: through `this`, or through the
/// self type for an associated function.
pub open spec fn caller_receiver_text(kind: ReceiverKind, self_ty: Seq<char>) -> Seq<char> {
    match kind {
        ReceiverKind::NoReceiver => self_ty + "::"@,
        _ => "this."@,
    }
}

/// The receiver of a function followed by a comma, when its first argument is one.
pub open spec fn receiver_decl_text(inputs: Seq<ArgModel>) -> Seq<char> {
    if inputs.len() > 0 {
        match inputs[0] {
            ArgModel::Receiver { text, .. } => text@ + ", "@,
            ArgModel::Typed { .. } => seq![],
        }
    } else {
        seq![]
    }
}

/// `self` when the first argument of a function is a receiver.
pub open spec fn self_arg_text(inputs: Seq<ArgModel>) -> Seq<char> {
    if inputs.len() > 0 && inputs[0] is Receiver {
        "self"@
    } else {
        seq![]
    }
}

/// The name of the hidden method that holds the body of the `i`-th overload of the
/// set `name` (taken without `r#`).
pub open spec fn hidden_name_text(name: Seq<char>, i: nat) -> Seq<char> {
    "__"@ + unraw_text(name) + "_impl_"@ + decimal_text(i)
}

/// `name: type` for each typed argument.
pub open spec fn param_texts(names: Seq<Seq<char>>, types: Seq<Seq<char>>) -> Seq<Seq<char>> {
    Seq::new(names.len(), |k: int| names[k] + ": "@ + types[k])
}

/// The hidden method that holds the body of the `i`-th overload `f` of the set `name`.
pub open spec fn hidden_method_text(name: Seq<char>, i: nat, f: FnModel) -> Seq<char> {
    "fn "@ + hidden_name_text(name, i) + "("@ + receiver_decl_text(f.inputs@) + join_text(
        param_texts(arg_name_texts(f.inputs@), arg_type_texts(f.inputs@)),
        ", "@,
    ) + ") -> "@ + output_text(f.output) + " "@ + f.block@ + " "@
}

/// The hidden methods of all overloads of `fns`, numbered from 0.
pub open spec fn hidden_methods_text(name: Seq<char>, fns: Seq<FnModel>) -> Seq<char>
    decreases fns.len(),
{
    if fns.len() == 0 {
        seq![]
    } else {
        hidden_methods_text(name, fns.drop_last()) + hidden_method_text(
            name,
            (fns.len() - 1) as nat,
            fns.last(),
        )
    }
}

/// The impl of the argument trait for the argument tuple of the `i`-th overload `f`.
pub open spec fn method_impl_text(
    trait_name: Seq<char>,
    self_ty: Seq<char>,
    kind: ReceiverKind,
    name: Seq<char>,
    i: nat,
    f: FnModel,
) -> Seq<char> {
    "impl "@ + trait_name + "<"@ + self_ty + "> for "@ + tuple_text(arg_type_texts(f.inputs@))
        + " { type Output = "@ + output_text(f.output) + "; fn call(self"@ + this_concrete_text(
        kind,
        self_ty,
    ) + ") -> Self::Output { "@ + fn_bindings_text(f) + caller_receiver_text(kind, self_ty)
        + hidden_name_text(name, i) + "("@ + join_text(arg_name_texts(f.inputs@), ", "@)
        + ") } } "@
}

/// The impls for all overloads of `fns`, numbered from 0.
pub open spec fn method_impls_text(
    trait_name: Seq<char>,
    self_ty: Seq<char>,
    kind: ReceiverKind,
    name: Seq<char>,
    fns: Seq<FnModel>,
) -> Seq<char>
    decreases fns.len(),
{
    if fns.len() == 0 {
        seq![]
    } else {
        method_impls_text(trait_name, self_ty, kind, name, fns.drop_last()) + method_impl_text(
            trait_name,
            self_ty,
            kind,
            name,
            (fns.len() - 1) as nat,
            fns.last(),
        )
    }
}

/// The trait declaration for an overload set of methods.
pub open spec fn method_trait_text(trait_name: Seq<char>, kind: ReceiverKind) -> Seq<char> {
    diagnostic_attr_text() + "trait "@ + trait_name
        + "<R>: std::marker::Tuple { type Output; fn call(self"@ + this_generic_text(kind)
        + ") -> Self::Output; } "@
}

/// The inherent impl of the self type: the hidden methods, then the dispatch method,
/// whose receiver is that of the first overload `first`.
pub open spec fn self_impl_text(
    trait_name: Seq<char>,
    self_ty: Seq<char>,
    name: Seq<char>,
    fns: Seq<FnModel>,
    first: FnModel,
) -> Seq<char> {
    "impl "@ + self_ty + " { "@ + hidden_methods_text(name, fns) + "fn "@ + name + "<T: "@
        + trait_name + "<Self>>("@ + receiver_decl_text(first.inputs@)
        + "#[rustc_splat] args: T) -> T::Output { args.call("@ + self_arg_text(first.inputs@)
        + ") } }"@
}

/// Whether every overload of `fns` takes the same kind of receiver as the first.
pub open spec fn receivers_agree(fns: Seq<FnModel>) -> bool {
    forall|i: int|
        0 <= i < fns.len() ==> receiver_kind_of(#[trigger] fns[i].inputs@) == receiver_kind_of(
            fns[0].inputs@,
        )
}

/// The source generated for a non-empty set of methods of `self_ty` whose
/// receivers agree; the set is named after its first method.
pub open spec fn methods_text(self_ty: Seq<char>, fns: Seq<FnModel>) -> Seq<char> {
    let name = fns[0].name@;
    let trait_name = trait_name_text(name);
    let kind = receiver_kind_of(fns[0].inputs@);
    method_trait_text(trait_name, kind) + method_impls_text(trait_name, self_ty, kind, name, fns)
        + self_impl_text(trait_name, self_ty, name, fns, fns[0])
}

fn push_this_generic(out: &mut String, kind: ReceiverKind)
    ensures
        final(out)@ == old(out)@ + this_generic_text(kind),
{
    match kind {
        ReceiverKind::RefMut => out.append(", this: &mut R"),
        ReceiverKind::Ref => out.append(", this: &R"),
        ReceiverKind::Owned => out.append(", this: R"),
        ReceiverKind::NoReceiver => {
            assert(out@ =~= out@ + this_generic_text(kind));
        },
    }
}

fn push_this_concrete(out: &mut String, kind: ReceiverKind, self_ty: &String)
    ensures
        final(out)@ == old(out)@ + this_concrete_text(kind, self_ty@),
{
    match kind {
        ReceiverKind::RefMut => out.append(", this: &mut "),
        ReceiverKind::Ref => out.append(", this: &"),
        ReceiverKind::Owned => out.append(", this: "),
        ReceiverKind::NoReceiver => {
            assert(out@ =~= out@ + this_concrete_text(kind, self_ty@));
            return;
        },
    }
    out.append(self_ty.as_str());
}

fn push_caller_receiver(out: &mut String, kind: ReceiverKind, self_ty: &String)
    ensures
        final(out)@ == old(out)@ + caller_receiver_text(kind, self_ty@),
{
    match kind {
        ReceiverKind::NoReceiver => {
            out.append(self_ty.as_str());
            out.append("::");
        },
        _ => out.append("this."),
    }
}

fn push_receiver_decl(out: &mut String, func: &FnModel)
    ensures
        final(out)@ == old(out)@ + receiver_decl_text(func.inputs@),
{
    if func.inputs.len() > 0 {
        match &func.inputs[0] {
            ArgModel::Receiver { text, .. } => {
                out.append(text.as_str());
                out.append(", ");
            },
            ArgModel::Typed { .. } => {
                assert(out@ =~= out@ + receiver_decl_text(func.inputs@));
            },
        }
    } else {
        assert(out@ =~= out@ + receiver_decl_text(func.inputs@));
    }
}

fn push_self_arg(out: &mut String, func: &FnModel)
    ensures
        final(out)@ == old(out)@ + self_arg_text(func.inputs@),
{
    if func.inputs.len() > 0 {
        match &func.inputs[0] {
            ArgModel::Receiver { .. } => out.append("self"),
            ArgModel::Typed { .. } => {
                assert(out@ =~= out@ + self_arg_text(func.inputs@));
            },
        }
    } else {
        assert(out@ =~= out@ + self_arg_text(func.inputs@));
    }
}

fn push_hidden_name(out: &mut String, name: &String, i: usize)
    ensures
        final(out)@ == old(out)@ + hidden_name_text(name@, i as nat),
{
    out.append("__");
    let bare = unraw_string(name.as_str());
    out.append(bare.as_str());
    out.append("_impl_");
    let digits = decimal_string(i);
    out.append(digits.as_str());
}

/// Appends `name: type` for each pair of `names` and `types`, separated by commas.
fn push_params(out: &mut String, names: &Vec<String>, types: &Vec<String>)
    requires
        names@.len() == types@.len(),
    ensures
        final(out)@ == old(out)@ + join_text(param_texts(texts(names@), texts(types@)), ", "@),
{
    let ghost start = out@;
    let ghost params = param_texts(texts(names@), texts(types@));
    let n = names.len();
    let mut i: usize = 0;
    while i < n
        invariant
            0 <= i <= n,
            n == names@.len(),
            n == types@.len(),
            params == param_texts(texts(names@), texts(types@)),
            out@ == start + join_text(params.take(i as int), ", "@),
        decreases n - i,
    {
        if i > 0 {
            out.append(", ");
        }
        out.append(names[i].as_str());
        out.append(": ");
        out.append(types[i].as_str());
        assert(params.take(i + 1).drop_last() =~= params.take(i as int));
        assert(params[i as int] == names@[i as int]@ + ": "@ + types@[i as int]@);
        assert(out@ =~= start + join_text(params.take(i + 1), ", "@));
        i += 1;
    }
    assert(params.take(n as int) =~= params);
}

fn push_hidden_method(out: &mut String, name: &String, i: usize, func: &FnModel)
    ensures
        final(out)@ == old(out)@ + hidden_method_text(name@, i as nat, *func),
{
    let (arg_types, arg_names, _arg_indices) = collect_args(func);
    assert(arg_names@.len() == texts(arg_names@).len() && arg_types@.len() == texts(arg_types@).len());
    let output_ty = output_ty_for(func);
    out.append("fn ");
    push_hidden_name(out, name, i);
    out.append("(");
    push_receiver_decl(out, func);
    push_params(out, &arg_names, &arg_types);
    out.append(") -> ");
    out.append(output_ty.as_str());
    out.append(" ");
    out.append(func.block.as_str());
    out.append(" ");
}

fn push_method_impl(
    out: &mut String,
    trait_name: &String,
    self_ty: &String,
    kind: ReceiverKind,
    name: &String,
    i: usize,
    func: &FnModel,
)
    ensures
        final(out)@ == old(out)@ + method_impl_text(
            trait_name@,
            self_ty@,
            kind,
            name@,
            i as nat,
            *func,
        ),
{
    let (arg_types, arg_names, arg_indices) = collect_args(func);
    assert(arg_names@.len() == texts(arg_names@).len() && arg_indices@.len() == texts(arg_indices@).len());
    let output_ty = output_ty_for(func);
    let tuple_ty = tuple_ty_for(arg_types.as_slice());
    let mut head = String::from_str("impl ");
    head.append(trait_name.as_str());
    head.append("<");
    head.append(self_ty.as_str());
    head.append("> for ");
    head.append(tuple_ty.as_str());
    head.append(" { type Output = ");
    head.append(output_ty.as_str());
    head.append("; fn call(self");
    push_this_concrete(&mut head, kind, self_ty);
    head.append(") -> Self::Output { ");
    let mut body = String::new();
    push_bindings(&mut body, &arg_names, &arg_indices);
    push_caller_receiver(&mut body, kind, self_ty);
    push_hidden_name(&mut body, name, i);
    body.append("(");
    let joined = join_strings(arg_names.as_slice(), ", ");
    body.append(joined.as_str());
    body.append(") } } ");
    assert(body@ =~= fn_bindings_text(*func) + caller_receiver_text(kind, self_ty@)
        + hidden_name_text(name@, i as nat) + "("@ + join_text(arg_name_texts(func.inputs@), ", "@)
        + ") } } "@);
    out.append(head.as_str());
    out.append(body.as_str());
}

/// What expanding the methods `fns` of `self_ty` gives: an error for an empty set, an
/// error when the receivers differ, else the source `methods_text(self_ty, fns)`.
pub open spec fn methods_result(
    self_ty: Seq<char>,
    fns: Seq<FnModel>,
    r: Result<String, OverloadError>,
) -> bool {
    if fns.len() == 0 {
        r == Err::<String, OverloadError>(OverloadError::EmptyOverloadSet)
    } else if !receivers_agree(fns) {
        r == Err::<String, OverloadError>(OverloadError::ReceiverMismatch)
    } else {
        r matches Ok(s) && s@ == methods_text(self_ty, fns)
    }
}

/// Returns the receiver kind shared by all overloads, or `None` when two differ.
fn common_receiver_kind(functions: &Vec<FnModel>) -> (r: Option<ReceiverKind>)
    requires
        functions@.len() > 0,
    ensures
        receivers_agree(functions@) ==> r == Some(receiver_kind_of(functions@[0].inputs@)),
        !receivers_agree(functions@) ==> r is None,
{
    let n = functions.len();
    let receiver_kind = ReceiverKind::from_args(&functions[0].inputs.first());
    let mut j: usize = 0;
    while j < n
        invariant
            0 <= j <= n,
            n == functions@.len(),
            receiver_kind == receiver_kind_of(functions@[0].inputs@),
            forall|k: int|
                0 <= k < j ==> receiver_kind_of(#[trigger] functions@[k].inputs@)
                    == receiver_kind,
        decreases n - j,
    {
        let next_receiver = ReceiverKind::from_args(&functions[j].inputs.first());
        if next_receiver != receiver_kind {
            return None;
        }
        j += 1;
    }
    Some(receiver_kind)
}

/// Appends the impls of the argument trait for all overloads.
fn push_method_impls(
    out: &mut String,
    trait_name: &String,
    self_ty: &String,
    kind: ReceiverKind,
    name: &String,
    functions: &Vec<FnModel>,
)
    ensures
        final(out)@ == old(out)@ + method_impls_text(trait_name@, self_ty@, kind, name@, functions@),
{
    let ghost start = out@;
    let n = functions.len();
    let mut i: usize = 0;
    while i < n
        invariant
            0 <= i <= n,
            n == functions@.len(),
            out@ == start + method_impls_text(
                trait_name@,
                self_ty@,
                kind,
                name@,
                functions@.take(i as int),
            ),
        decreases n - i,
    {
        push_method_impl(out, trait_name, self_ty, kind, name, i, &functions[i]);
        assert(functions@.take(i + 1).drop_last() =~= functions@.take(i as int));
        i += 1;
    }
    assert(functions@.take(n as int) =~= functions@);
}

/// Appends the hidden methods of all overloads.
fn push_hidden_methods(out: &mut String, name: &String, functions: &Vec<FnModel>)
    ensures
        final(out)@ == old(out)@ + hidden_methods_text(name@, functions@),
{
    let ghost start = out@;
    let n = functions.len();
    let mut i: usize = 0;
    while i < n
        invariant
            0 <= i <= n,
            n == functions@.len(),
            out@ == start + hidden_methods_text(name@, functions@.take(i as int)),
        decreases n - i,
    {
        push_hidden_method(out, name, i, &functions[i]);
        assert(functions@.take(i + 1).drop_last() =~= functions@.take(i as int));
        i += 1;
    }
    assert(functions@.take(n as int) =~= functions@);
}

/// Builds the source of a non-empty set of methods whose receivers agree.
fn methods_source(
    self_ty: &String,
    functions: &Vec<FnModel>,
    trait_name: &String,
    receiver_kind: ReceiverKind,
) -> (out: String)
    requires
        functions@.len() > 0,
        trait_name@ == trait_name_text(functions@[0].name@),
        receiver_kind == receiver_kind_of(functions@[0].inputs@),
    ensures
        out@ == methods_text(self_ty@, functions@),
{
    let fn_name = &functions[0].name;
    let mut out = String::new();
    push_diagnostic_attr(&mut out);
    out.append("trait ");
    out.append(trait_name.as_str());
    out.append("<R>: std::marker::Tuple { type Output; fn call(self");
    push_this_generic(&mut out, receiver_kind);
    out.append(") -> Self::Output; } ");
    let ghost head = out@;
    assert(head =~= method_trait_text(trait_name@, receiver_kind));
    push_method_impls(&mut out, trait_name, self_ty, receiver_kind, fn_name, functions);
    let ghost impls = out@;
    out.append("impl ");
    out.append(self_ty.as_str());
    out.append(" { ");
    push_hidden_methods(&mut out, fn_name, functions);
    out.append("fn ");
    out.append(fn_name.as_str());
    out.append("<T: ");
    out.append(trait_name.as_str());
    out.append("<Self>>(");
    push_receiver_decl(&mut out, &functions[0]);
    out.append("#[rustc_splat] args: T) -> T::Output { args.call(");
    push_self_arg(&mut out, &functions[0]);
    out.append(") } }");
    assert(out@ =~= impls + self_impl_text(
        trait_name@,
        self_ty@,
        fn_name@,
        functions@,
        functions@[0],
    ));
    out
}

/// Generates the overloaded trait code for a non-empty list of methods or associated
/// functions of the type `self_ty` that all take the same kind of receiver (`&self`,
/// `&mut self`, `self`, or none).
///
/// The set is named after its first method.
pub fn generate_methods(self_ty: String, functions: Vec<FnModel>) -> (r: String)
    requires
        functions@.len() > 0,
        receivers_agree(functions@),
    ensures
        r@ == methods_text(self_ty@, functions@),
{
    let trait_name = trait_name_for(functions[0].name.as_str());
    let receiver_kind = ReceiverKind::from_args(&functions[0].inputs.first());
    methods_source(&self_ty, &functions, &trait_name, receiver_kind)
}

/// What expanding an overload input gives.
pub open spec fn expansion_result(input: OverloadInput, r: Result<String, OverloadError>) -> bool {
    match input {
        OverloadInput::Functions(functions) => free_functions_result(functions@, r),
        OverloadInput::Methods { self_ty, functions } => methods_result(self_ty@, functions@, r),
    }
}

/// Generates the source for a parsed overload input: free functions or methods.
///
/// Where a generator has nothing to generate from (an empty set), or the methods do
/// not all take the same kind of receiver, this returns the error in place of the
/// source.
pub fn expand(input: OverloadInput) -> (r: Result<String, OverloadError>)
    ensures
        expansion_result(input, r),
{
    match input {
        OverloadInput::Functions(functions) => {
            if functions.len() == 0 {
                Err(OverloadError::EmptyOverloadSet)
            } else {
                Ok(generate_free_functions(functions))
            }
        },
        OverloadInput::Methods { self_ty, functions } => {
            if functions.len() == 0 {
                return Err(OverloadError::EmptyOverloadSet);
            }
            // All overloads must take the same kind of receiver.
            match common_receiver_kind(&functions) {
                None => Err(OverloadError::ReceiverMismatch),
                Some(_) => Ok(generate_methods(self_ty, functions)),
            }
        },
    }
}

} // verus!
