//! What the generator reads of one function: its argument types, names and tuple
//! positions, its output type, and the tuple type of its arguments.

use vstd::prelude::*;

use crate::model::{ArgModel, FnModel};
use crate::text::{decimal_string, decimal_text, join_strings, join_text, texts};
use vstd::string::StringExecFns;

verus! {

/// The typed arguments of an argument list, in order (receivers left out).
pub open spec fn typed_args(inputs: Seq<ArgModel>) -> Seq<ArgModel>
    decreases inputs.len(),
{
    if inputs.len() == 0 {
        seq![]
    } else {
        let rest = typed_args(inputs.drop_last());
        if inputs.last() is Typed {
            rest.push(inputs.last())
        } else {
            rest
        }
    }
}

/// The type text of a typed argument.
pub open spec fn arg_type_text(a: ArgModel) -> Seq<char> {
    match a {
        ArgModel::Typed { ty, .. } => ty@,
        ArgModel::Receiver { .. } => seq![],
    }
}

/// The name under which a typed argument is bound: its identifier, or `_arg` when
/// its pattern is not a plain identifier.
pub open spec fn arg_name_text(a: ArgModel) -> Seq<char> {
    match a {
        ArgModel::Typed { name: Some(n), .. } => n@,
        _ => "_arg"@,
    }
}

/// The expression that reads the `k`-th field of the argument tuple.
pub open spec fn arg_index_text(k: nat) -> Seq<char> {
    "self."@ + decimal_text(k)
}

/// The type text of each argument of `args`.
pub open spec fn type_texts(args: Seq<ArgModel>) -> Seq<Seq<char>> {
    args.map_values(|a: ArgModel| arg_type_text(a))
}

/// The binding name of each argument of `args`.
pub open spec fn name_texts(args: Seq<ArgModel>) -> Seq<Seq<char>> {
    args.map_values(|a: ArgModel| arg_name_text(a))
}

/// The type texts of the typed arguments.
pub open spec fn arg_type_texts(inputs: Seq<ArgModel>) -> Seq<Seq<char>> {
    type_texts(typed_args(inputs))
}

/// The names of the typed arguments.
pub open spec fn arg_name_texts(inputs: Seq<ArgModel>) -> Seq<Seq<char>> {
    name_texts(typed_args(inputs))
}

/// The first `n` tuple field reads `self.0`, `self.1`, ...
pub open spec fn index_texts(n: nat) -> Seq<Seq<char>> {
    Seq::new(n, |k: int| arg_index_text(k as nat))
}

/// The tuple field reads of the typed arguments.
pub open spec fn arg_index_texts(inputs: Seq<ArgModel>) -> Seq<Seq<char>> {
    index_texts(typed_args(inputs).len())
}

/// The typed arguments of a prefix grow by the next argument when it is typed.
proof fn lemma_typed_args_step(inputs: Seq<ArgModel>, i: int)
    requires
        0 <= i < inputs.len(),
    ensures
        typed_args(inputs.take(i + 1)) == if inputs[i] is Typed {
            typed_args(inputs.take(i)).push(inputs[i])
        } else {
            typed_args(inputs.take(i))
        },
{
    assert(inputs.take(i + 1).drop_last() =~= inputs.take(i));
}

/// Collects the argument types, names, and tuple reads from a function signature.
/// Receivers are skipped; the `k`-th typed argument is read from `self.k`.
pub fn collect_args(func: &FnModel) -> (r: (Vec<String>, Vec<String>, Vec<String>))
    ensures
        texts(r.0@) == arg_type_texts(func.inputs@),
        texts(r.1@) == arg_name_texts(func.inputs@),
        texts(r.2@) == arg_index_texts(func.inputs@),
{
    let mut arg_types: Vec<String> = Vec::new();
    let mut arg_names: Vec<String> = Vec::new();
    let mut arg_indices: Vec<String> = Vec::new();
    let ghost inputs = func.inputs@;

    let n = func.inputs.len();
    let mut index: usize = 0;
    let mut i: usize = 0;
    while i < n
        invariant
            0 <= index <= i <= n,
            n == inputs.len(),
            inputs == func.inputs@,
            index == typed_args(inputs.take(i as int)).len(),
            texts(arg_types@) == type_texts(typed_args(inputs.take(i as int))),
            texts(arg_names@) == name_texts(typed_args(inputs.take(i as int))),
            texts(arg_indices@) == index_texts(index as nat),
        decreases n - i,
    {
        proof {
            lemma_typed_args_step(inputs, i as int);
        }
        let ghost prev_types = texts(arg_types@);
        let ghost prev_names = texts(arg_names@);
        let ghost prev_indices = texts(arg_indices@);
        let arg = &func.inputs[i];
        match arg {
            ArgModel::Typed { name, ty } => {
                assert(inputs[i as int] is Typed);
                assert(arg_type_text(inputs[i as int]) == ty@);
                arg_types.push(ty.clone());
                assert(texts(arg_types@) =~= prev_types.push(ty@));
                let arg_name = match name {
                    Some(ident) => ident.clone(),
                    None => String::from_str("_arg"),
                };
                arg_names.push(arg_name);
                assert(arg_name@ == arg_name_text(inputs[i as int]));
                assert(texts(arg_names@) =~= prev_names.push(arg_name@));
                let mut idx = String::from_str("self.");
                let digits = decimal_string(index);
                idx.append(digits.as_str());
                arg_indices.push(idx);
                assert(texts(arg_indices@) =~= prev_indices.push(arg_index_text(index as nat)));
                index += 1;
            },
            ArgModel::Receiver { .. } => {},
        }
        i += 1;
        assert(texts(arg_types@) =~= type_texts(typed_args(inputs.take(i as int))));
        assert(texts(arg_names@) =~= name_texts(typed_args(inputs.take(i as int))));
        assert(texts(arg_indices@) =~= index_texts(index as nat));
    }
    assert(inputs.take(n as int) =~= inputs);
    (arg_types, arg_names, arg_indices)
}

/// The output type text of a function: its return type, or `()` when it has none.
pub open spec fn output_text(output: Option<String>) -> Seq<char> {
    match output {
        Some(ty) => ty@,
        None => "()"@,
    }
}

/// Returns the output type for a function signature, replacing the default type with `()`.
pub fn output_ty_for(func: &FnModel) -> (r: String)
    ensures
        r@ == output_text(func.output),
{
    match &func.output {
        None => String::from_str("()"),
        Some(ty) => ty.clone(),
    }
}

/// The tuple type of a list of argument types: `()` for none, else each type
/// followed by a comma, so that one type gives a one-element tuple.
pub open spec fn tuple_text(arg_types: Seq<Seq<char>>) -> Seq<char> {
    if arg_types.len() == 0 {
        "()"@
    } else {
        "("@ + join_text(arg_types, ", "@) + ",)"@
    }
}

/// Transforms a list of argument types into a single tuple type containing those types.
pub fn tuple_ty_for(arg_types: &[String]) -> (r: String)
    ensures
        r@ == tuple_text(texts(arg_types@)),
{
    if arg_types.len() == 0 {
        String::from_str("()")
    } else {
        let mut r = String::from_str("(");
        let joined = join_strings(arg_types, ", ");
        r.append(joined.as_str());
        r.append(",)");
        r
    }
}

} // verus!
