//! What the generated source does with each argument of an overload, stated over the
//! overload's own argument list: which arguments count, which type, name and tuple
//! field each one gets, and how they are laid out.

use vstd::prelude::*;

use crate::args::{arg_index_texts, arg_name_texts, arg_type_texts, tuple_text, typed_args};
use crate::generate::{bindings_text, fn_bindings_text, param_texts};
use crate::model::{ArgModel, FnModel};
use crate::text::{decimal_text, join_text};

verus! {

/// The typed arguments of an argument list are exactly its entries that are not
/// receivers, in their order.
pub proof fn lemma_typed_args_are_the_typed_entries(inputs: Seq<ArgModel>)
    ensures
        typed_args(inputs) == inputs.filter(|a: ArgModel| a is Typed),
    decreases inputs.len(),
{
    reveal(Seq::filter);
    if inputs.len() > 0 {
        lemma_typed_args_are_the_typed_entries(inputs.drop_last());
    }
}

/// The `k`-th typed argument of an overload keeps its own type, is bound under its own
/// name (or `_arg` when its pattern is no identifier), and is read from the `k`-th
/// field of the argument tuple, `self.k`; there are as many of each as typed arguments.
pub proof fn lemma_each_arg_keeps_its_type_name_and_field(inputs: Seq<ArgModel>, k: int)
    requires
        0 <= k < typed_args(inputs).len(),
    ensures
        arg_type_texts(inputs).len() == typed_args(inputs).len(),
        arg_name_texts(inputs).len() == typed_args(inputs).len(),
        arg_index_texts(inputs).len() == typed_args(inputs).len(),
        typed_args(inputs)[k] matches ArgModel::Typed { name, ty } && arg_type_texts(inputs)[k]
            == ty@ && arg_name_texts(inputs)[k] == (match name {
            Some(n) => n@,
            None => "_arg"@,
        }),
        arg_index_texts(inputs)[k] == "self."@ + decimal_text(k as nat),
    decreases inputs.len(),
{
    lemma_typed_entries(inputs);
}

/// Every typed argument is typed.
proof fn lemma_typed_entries(inputs: Seq<ArgModel>)
    ensures
        forall|k: int| 0 <= k < typed_args(inputs).len() ==> (#[trigger] typed_args(inputs)[k]) is Typed,
    decreases inputs.len(),
{
    if inputs.len() > 0 {
        lemma_typed_entries(inputs.drop_last());
    }
}

/// Text joined with a separator is its pieces in order, each but the first behind the
/// separator.
pub proof fn lemma_join_is_each_piece_in_order(ts: Seq<Seq<char>>, sep: Seq<char>)
    ensures
        join_text(ts, sep) == Seq::new(
            ts.len(),
            |k: int|
                if k == 0 {
                    ts[k]
                } else {
                    sep + ts[k]
                },
        ).flatten(),
    decreases ts.len(),
{
    let pieces = Seq::new(
        ts.len(),
        |k: int|
            if k == 0 {
                ts[k]
            } else {
                sep + ts[k]
            },
    );
    pieces.lemma_flatten_and_flatten_alt_are_equivalent();
    if ts.len() == 0 {
    } else if ts.len() == 1 {
        assert(pieces.drop_last() =~= Seq::<Seq<char>>::empty());
        assert(pieces.drop_last().flatten_alt() =~= Seq::<char>::empty());
        assert(pieces.last() == ts[0]);
        assert(pieces.flatten_alt() == pieces.drop_last().flatten_alt() + pieces.last());
        assert(pieces.flatten_alt() =~= ts[0]);
    } else {
        let d = ts.drop_last();
        lemma_join_is_each_piece_in_order(d, sep);
        let prev = Seq::new(
            d.len(),
            |k: int|
                if k == 0 {
                    d[k]
                } else {
                    sep + d[k]
                },
        );
        assert(pieces.drop_last() =~= prev);
        prev.lemma_flatten_and_flatten_alt_are_equivalent();
        assert(pieces.last() == sep + ts.last());
        assert(join_text(ts, sep) =~= join_text(d, sep) + (sep + ts.last()));
    }
}

/// The tuple type of a list of argument types holds every one of them, in order: `()`
/// for none, else `(t0, t1, ..., tn,)`.
pub proof fn lemma_tuple_holds_every_type_in_order(ts: Seq<Seq<char>>)
    ensures
        ts.len() == 0 ==> tuple_text(ts) == "()"@,
        ts.len() > 0 ==> tuple_text(ts) == "("@ + Seq::new(
            ts.len(),
            |k: int|
                if k == 0 {
                    ts[k]
                } else {
                    ", "@ + ts[k]
                },
        ).flatten() + ",)"@,
{
    lemma_join_is_each_piece_in_order(ts, ", "@);
}

/// `let name_k = index_k;` for each `k`, in order.
proof fn lemma_bindings_pair_up(names: Seq<Seq<char>>, indices: Seq<Seq<char>>)
    requires
        names.len() == indices.len(),
    ensures
        bindings_text(names, indices) == Seq::new(
            names.len(),
            |k: int| "let "@ + names[k] + " = "@ + indices[k] + "; "@,
        ).flatten(),
    decreases names.len(),
{
    let pieces = Seq::new(names.len(), |k: int| "let "@ + names[k] + " = "@ + indices[k] + "; "@);
    pieces.lemma_flatten_and_flatten_alt_are_equivalent();
    if names.len() > 0 {
        let dn = names.drop_last();
        let di = indices.drop_last();
        lemma_bindings_pair_up(dn, di);
        let prev = Seq::new(dn.len(), |k: int| "let "@ + dn[k] + " = "@ + di[k] + "; "@);
        assert(pieces.drop_last() =~= prev);
        prev.lemma_flatten_and_flatten_alt_are_equivalent();
        assert(bindings_text(names, indices) =~= bindings_text(dn, di) + pieces.last());
    }
}

/// In the impl of an overload, its `k`-th typed argument is bound under its name to the
/// `k`-th field of the argument tuple, for every `k`, in order: `let name_k = self.k;`.
pub proof fn lemma_each_arg_is_bound_to_its_own_field(f: FnModel)
    ensures
        fn_bindings_text(f) == Seq::new(
            typed_args(f.inputs@).len(),
            |k: int| "let "@ + arg_name_texts(f.inputs@)[k] + " = "@ + "self."@ + decimal_text(k as nat) + "; "@,
        ).flatten(),
{
    let names = arg_name_texts(f.inputs@);
    let indices = arg_index_texts(f.inputs@);
    lemma_bindings_pair_up(names, indices);
    assert(Seq::new(names.len(), |k: int| "let "@ + names[k] + " = "@ + indices[k] + "; "@) =~= Seq::new(
        typed_args(f.inputs@).len(),
        |k: int| "let "@ + arg_name_texts(f.inputs@)[k] + " = "@ + "self."@ + decimal_text(k as nat) + "; "@,
    )) by {
        assert forall|k: int| 0 <= k < names.len() implies "let "@ + names[k] + " = "@ + indices[k]
            + "; "@ =~= "let "@ + names[k] + " = "@ + "self."@ + decimal_text(k as nat) + "; "@ by {
            assert(indices[k] == "self."@ + decimal_text(k as nat));
        }
    }
}

/// The parameter list of an overload's hidden method is its typed arguments in order,
/// each declared with its own name and its own type: `name_0: type_0, name_1: type_1, ...`.
pub proof fn lemma_each_param_keeps_its_own_type(f: FnModel)
    ensures
        join_text(param_texts(arg_name_texts(f.inputs@), arg_type_texts(f.inputs@)), ", "@)
            == Seq::new(
            typed_args(f.inputs@).len(),
            |k: int|
                if k == 0 {
                    arg_name_texts(f.inputs@)[k] + ": "@ + arg_type_texts(f.inputs@)[k]
                } else {
                    ", "@ + (arg_name_texts(f.inputs@)[k] + ": "@ + arg_type_texts(f.inputs@)[k])
                },
        ).flatten(),
{
    let names = arg_name_texts(f.inputs@);
    let types = arg_type_texts(f.inputs@);
    let ps = param_texts(names, types);
    lemma_join_is_each_piece_in_order(ps, ", "@);
    assert(Seq::new(
        ps.len(),
        |k: int|
            if k == 0 {
                ps[k]
            } else {
                ", "@ + ps[k]
            },
    ) =~= Seq::new(
        typed_args(f.inputs@).len(),
        |k: int|
            if k == 0 {
                arg_name_texts(f.inputs@)[k] + ": "@ + arg_type_texts(f.inputs@)[k]
            } else {
                ", "@ + (arg_name_texts(f.inputs@)[k] + ": "@ + arg_type_texts(f.inputs@)[k])
            },
    ));
}

} // verus!
