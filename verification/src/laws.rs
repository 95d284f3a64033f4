//! Properties of the expansion that span several functions.

use vstd::prelude::*;

use crate::args::{arg_index_text, arg_index_texts};
use crate::generate::{
    free_dispatch_text, free_functions_text, free_impl_text, free_impls_text, free_trait_text,
    hidden_method_text, hidden_methods_text, hidden_name_text, method_impl_text,
    method_impls_text, method_trait_text, methods_text, receiver_decl_text, self_arg_text,
    self_impl_text,
};
use crate::model::{receiver_kind_of, ArgModel, FnModel, ReceiverKind};
use crate::text::{
    ascii_upper, decimal_text, digit_char, is_ascii_lower, is_ascii_upper, trait_name_text,
    unraw_text,
};

verus! {

/// Whether `needle` occurs in `hay` as a contiguous piece.
pub open spec fn contains_text(hay: Seq<char>, needle: Seq<char>) -> bool {
    exists|k: int|
        0 <= k && k + needle.len() <= hay.len() && #[trigger] hay.subrange(k, k + needle.len())
            == needle
}

/// A piece of a text also occurs in any text that extends it on either side.
proof fn lemma_contains_extend(a: Seq<char>, hay: Seq<char>, b: Seq<char>, needle: Seq<char>)
    requires
        contains_text(hay, needle),
    ensures
        contains_text(a + hay + b, needle),
{
    let k = choose|k: int|
        0 <= k && k + needle.len() <= hay.len() && #[trigger] hay.subrange(k, k + needle.len())
            == needle;
    let big = a + hay + b;
    let k2 = a.len() + k;
    assert(big.subrange(k2, k2 + needle.len()) =~= hay.subrange(k, k + needle.len()));
}

/// The decimal text of a number is never empty, and has one digit exactly below ten.
proof fn lemma_decimal_len(n: nat)
    ensures
        decimal_text(n).len() >= 1,
        decimal_text(n).len() == 1 <==> n < 10,
    decreases n,
{
    if n >= 10 {
        lemma_decimal_len(n / 10);
    }
}

/// Different digits have different characters.
proof fn lemma_digit_injective(x: nat, y: nat)
    requires
        x < 10,
        y < 10,
        digit_char(x) == digit_char(y),
    ensures
        x == y,
{
    assert(digit_char(x) as int == 48 + x);
    assert(digit_char(y) as int == 48 + y);
}

/// Distinct numbers have distinct decimal texts.
pub proof fn lemma_decimal_injective(a: nat, b: nat)
    requires
        decimal_text(a) == decimal_text(b),
    ensures
        a == b,
    decreases a,
{
    lemma_decimal_len(a);
    lemma_decimal_len(b);
    if a >= 10 && b >= 10 {
        let ta = decimal_text(a);
        let tb = decimal_text(b);
        assert(ta.drop_last() =~= decimal_text(a / 10));
        assert(tb.drop_last() =~= decimal_text(b / 10));
        lemma_decimal_injective(a / 10, b / 10);
        assert(ta.last() == tb.last());
        lemma_digit_injective(a % 10, b % 10);
    } else if a < 10 && b < 10 {
        assert(decimal_text(a) == seq![digit_char(a)]);
        assert(decimal_text(b) == seq![digit_char(b)]);
        assert(seq![digit_char(a)][0] == digit_char(a));
        assert(seq![digit_char(b)][0] == digit_char(b));
        lemma_digit_injective(a, b);
    }
}

/// Two texts that start with the same prefix are equal only when their rests are.
proof fn lemma_common_prefix(p: Seq<char>, x: Seq<char>, y: Seq<char>)
    requires
        p + x == p + y,
    ensures
        x == y,
{
    assert((p + x).skip(p.len() as int) =~= x);
    assert((p + y).skip(p.len() as int) =~= y);
}

/// The hidden methods of two different overloads of a set never share a name.
pub proof fn lemma_hidden_names_distinct(name: Seq<char>, i: nat, j: nat)
    requires
        i != j,
    ensures
        hidden_name_text(name, i) != hidden_name_text(name, j),
{
    if hidden_name_text(name, i) == hidden_name_text(name, j) {
        let p = "__"@ + unraw_text(name) + "_impl_"@;
        lemma_common_prefix(p, decimal_text(i), decimal_text(j));
        lemma_decimal_injective(i, j);
    }
}

/// Two different typed arguments of one overload are read from different tuple fields.
pub proof fn lemma_arg_indices_distinct(inputs: Seq<ArgModel>, k: int, l: int)
    requires
        0 <= k < arg_index_texts(inputs).len(),
        0 <= l < arg_index_texts(inputs).len(),
        k != l,
    ensures
        arg_index_texts(inputs)[k] != arg_index_texts(inputs)[l],
{
    if arg_index_texts(inputs)[k] == arg_index_texts(inputs)[l] {
        assert(arg_index_texts(inputs)[k] == arg_index_text(k as nat));
        assert(arg_index_texts(inputs)[l] == arg_index_text(l as nat));
        lemma_common_prefix("self."@, decimal_text(k as nat), decimal_text(l as nat));
        lemma_decimal_injective(k as nat, l as nat);
    }
}

/// The length of a name without its `r#`.
proof fn lemma_unraw_len(name: Seq<char>)
    ensures
        unraw_text(name).len() == name.len() || unraw_text(name).len() + 2 == name.len(),
{
}

/// The trait name of an overload set is never the set's own name.
pub proof fn lemma_trait_name_differs_from_name(name: Seq<char>)
    ensures
        trait_name_text(name) != name,
{
    reveal(trait_name_text);
    reveal_strlit("Args");
    reveal_strlit("Args_");
    lemma_unraw_len(name);
    assert(trait_name_text(name).len() > name.len());
}

/// How a trait name starts and ends, by the first character of the name: an ASCII
/// lowercase letter gives an ASCII uppercase letter first and `s` last; an ASCII
/// uppercase letter gives `_` last; any other first character stays first, with `s`
/// last.
proof fn lemma_trait_name_shape(name: Seq<char>)
    ensures
        ({
            let u = unraw_text(name);
            let t = trait_name_text(name);
            let lower = u.len() > 0 && is_ascii_lower(u[0]);
            let upper = u.len() > 0 && is_ascii_upper(u[0]);
            &&& lower ==> is_ascii_upper(t[0]) && t.last() == 's' && t.len() == u.len() + 4
            &&& upper ==> t.last() == '_' && t.len() == u.len() + 5
            &&& !lower && !upper ==> t.last() == 's' && t.len() == u.len() + 4
            &&& !lower && !upper && u.len() > 0 ==> t[0] == u[0]
        }),
{
    reveal(trait_name_text);
    reveal_strlit("Args");
    reveal_strlit("Args_");
    let u = unraw_text(name);
    let t = trait_name_text(name);
    if u.len() > 0 && is_ascii_lower(u[0]) {
        assert(t[0] == ascii_upper(u[0]));
        assert(t.last() == "Args"@.last());
    } else if u.len() > 0 && is_ascii_upper(u[0]) {
        assert(t.last() == "Args_"@.last());
    } else {
        assert(t.last() == "Args"@.last());
        if u.len() > 0 {
            assert(t[0] == u[0]);
        }
    }
}

/// Two overload sets get the same trait name only when they have the same name
/// (a raw identifier `r#name` and `name` being the same name).
pub proof fn lemma_trait_name_unique(a: Seq<char>, b: Seq<char>)
    requires
        trait_name_text(a) == trait_name_text(b),
    ensures
        unraw_text(a) == unraw_text(b),
{
    reveal(trait_name_text);
    reveal_strlit("Args");
    reveal_strlit("Args_");
    let ua = unraw_text(a);
    let ub = unraw_text(b);
    let t = trait_name_text(a);
    let tb = trait_name_text(b);
    lemma_trait_name_shape(a);
    lemma_trait_name_shape(b);
    let la = ua.len() > 0 && is_ascii_lower(ua[0]);
    let lb = ub.len() > 0 && is_ascii_lower(ub[0]);
    let ca = ua.len() > 0 && is_ascii_upper(ua[0]);
    let cb = ub.len() > 0 && is_ascii_upper(ub[0]);
    if la && lb {
        assert(ascii_upper(ua[0]) == ascii_upper(ub[0]));
        assert(ua[0] == ub[0]);
        assert(t.subrange(1, ua.len() as int) =~= ua.drop_first());
        assert(tb.subrange(1, ub.len() as int) =~= ub.drop_first());
        assert(ua =~= seq![ua[0]] + ua.drop_first());
        assert(ub =~= seq![ub[0]] + ub.drop_first());
    } else if ca && cb {
        assert(t.subrange(0, ua.len() as int) =~= ua);
        assert(tb.subrange(0, ub.len() as int) =~= ub);
    } else if !la && !lb && !ca && !cb {
        assert(t.subrange(0, ua.len() as int) =~= ua);
        assert(tb.subrange(0, ub.len() as int) =~= ub);
    } else if la && !lb && !ca && !cb {
        // Both end in `s`; `a`'s starts with an uppercase letter, `b`'s with its own
        // first character, which is none, or is no ASCII letter.
        assert(ua.len() > 0);
        if ub.len() == 0 {
            assert(tb.len() == 4);
        } else {
            assert(tb[0] == ub[0]);
        }
    } else if lb && !la && !ca && !cb {
        assert(ub.len() > 0);
        if ua.len() == 0 {
            assert(t.len() == 4);
        } else {
            assert(t[0] == ua[0]);
        }
    } else {
        assert(t.last() != tb.last());
    }
}

/// The impls of the free functions of a prefix of the set start the impls of the set.
proof fn lemma_free_impls_prefix(t: Seq<char>, fns: Seq<FnModel>, m: int)
    requires
        0 <= m <= fns.len(),
    ensures
        free_impls_text(t, fns).subrange(0, free_impls_text(t, fns.take(m)).len() as int)
            == free_impls_text(t, fns.take(m)),
        free_impls_text(t, fns.take(m)).len() <= free_impls_text(t, fns).len(),
    decreases fns.len() - m,
{
    if m == fns.len() {
        assert(fns.take(m) =~= fns);
        assert(free_impls_text(t, fns).subrange(0, free_impls_text(t, fns).len() as int)
            =~= free_impls_text(t, fns));
    } else {
        let d = fns.drop_last();
        lemma_free_impls_prefix(t, d, m);
        assert(d.take(m) =~= fns.take(m));
        let whole = free_impls_text(t, fns);
        let part = free_impls_text(t, fns.take(m));
        assert(whole == free_impls_text(t, d) + free_impl_text(t, fns.last()));
        assert(whole.subrange(0, part.len() as int) =~= free_impls_text(t, d).subrange(
            0,
            part.len() as int,
        ));
    }
}

/// The impls of the free functions of a set contain the impl of each of them.
proof fn lemma_free_impls_contain(t: Seq<char>, fns: Seq<FnModel>, i: int)
    requires
        0 <= i < fns.len(),
    ensures
        contains_text(free_impls_text(t, fns), free_impl_text(t, fns[i])),
{
    lemma_free_impls_prefix(t, fns, i + 1);
    let pre = fns.take(i + 1);
    assert(pre.drop_last() =~= fns.take(i));
    let before = free_impls_text(t, fns.take(i));
    let piece = free_impl_text(t, fns[i]);
    assert(free_impls_text(t, pre) == before + piece);
    let whole = free_impls_text(t, fns);
    let k = before.len() as int;
    assert(whole.subrange(k, k + piece.len()) =~= (before + piece).subrange(k, k + piece.len()));
    assert((before + piece).subrange(k, k + piece.len()) =~= piece);
}

/// Every free function of a set is reached: the expansion holds the impl of the
/// argument trait for its argument tuple, with its output type and its body.
pub proof fn lemma_every_free_function_has_impl(fns: Seq<FnModel>, i: int)
    requires
        0 <= i < fns.len(),
    ensures
        contains_text(
            free_functions_text(fns),
            free_impl_text(trait_name_text(fns[0].name@), fns[i]),
        ),
{
    let t = trait_name_text(fns[0].name@);
    lemma_free_impls_contain(t, fns, i);
    let head = free_trait_text(t);
    let tail = free_dispatch_text(fns[0].name@, t);
    lemma_contains_extend(head, free_impls_text(t, fns), tail, free_impl_text(t, fns[i]));
}

/// The method impls of a prefix of the set start the method impls of the set.
proof fn lemma_method_impls_prefix(
    t: Seq<char>,
    self_ty: Seq<char>,
    kind: ReceiverKind,
    name: Seq<char>,
    fns: Seq<FnModel>,
    m: int,
)
    requires
        0 <= m <= fns.len(),
    ensures
        method_impls_text(t, self_ty, kind, name, fns.take(m)).len() <= method_impls_text(
            t,
            self_ty,
            kind,
            name,
            fns,
        ).len(),
        method_impls_text(t, self_ty, kind, name, fns).subrange(
            0,
            method_impls_text(t, self_ty, kind, name, fns.take(m)).len() as int,
        ) == method_impls_text(t, self_ty, kind, name, fns.take(m)),
    decreases fns.len() - m,
{
    let whole = method_impls_text(t, self_ty, kind, name, fns);
    if m == fns.len() {
        assert(fns.take(m) =~= fns);
        assert(whole.subrange(0, whole.len() as int) =~= whole);
    } else {
        let d = fns.drop_last();
        lemma_method_impls_prefix(t, self_ty, kind, name, d, m);
        assert(d.take(m) =~= fns.take(m));
        let part = method_impls_text(t, self_ty, kind, name, fns.take(m));
        assert(whole.subrange(0, part.len() as int) =~= method_impls_text(
            t,
            self_ty,
            kind,
            name,
            d,
        ).subrange(0, part.len() as int));
    }
}

/// The hidden methods of a prefix of the set start the hidden methods of the set.
proof fn lemma_hidden_methods_prefix(name: Seq<char>, fns: Seq<FnModel>, m: int)
    requires
        0 <= m <= fns.len(),
    ensures
        hidden_methods_text(name, fns.take(m)).len() <= hidden_methods_text(name, fns).len(),
        hidden_methods_text(name, fns).subrange(
            0,
            hidden_methods_text(name, fns.take(m)).len() as int,
        ) == hidden_methods_text(name, fns.take(m)),
    decreases fns.len() - m,
{
    let whole = hidden_methods_text(name, fns);
    if m == fns.len() {
        assert(fns.take(m) =~= fns);
        assert(whole.subrange(0, whole.len() as int) =~= whole);
    } else {
        let d = fns.drop_last();
        lemma_hidden_methods_prefix(name, d, m);
        assert(d.take(m) =~= fns.take(m));
        let part = hidden_methods_text(name, fns.take(m));
        assert(whole.subrange(0, part.len() as int) =~= hidden_methods_text(name, d).subrange(
            0,
            part.len() as int,
        ));
    }
}

/// A text that ends a prefix of a text occurs in that text.
proof fn lemma_prefix_end_contained(whole: Seq<char>, before: Seq<char>, piece: Seq<char>)
    requires
        (before + piece).len() <= whole.len(),
        whole.subrange(0, (before + piece).len() as int) == before + piece,
    ensures
        contains_text(whole, piece),
{
    let k = before.len() as int;
    assert(whole.subrange(k, k + piece.len()) =~= (before + piece).subrange(k, k + piece.len()));
    assert((before + piece).subrange(k, k + piece.len()) =~= piece);
}

/// Every method of a set is reached: the expansion holds the impl of the argument
/// trait for its argument tuple, which calls the `i`-th hidden method.
pub proof fn lemma_every_method_has_impl(self_ty: Seq<char>, fns: Seq<FnModel>, i: int)
    requires
        0 <= i < fns.len(),
    ensures
        contains_text(
            methods_text(self_ty, fns),
            method_impl_text(
                trait_name_text(fns[0].name@),
                self_ty,
                receiver_kind_of(fns[0].inputs@),
                fns[0].name@,
                i as nat,
                fns[i],
            ),
        ),
{
    let name = fns[0].name@;
    let t = trait_name_text(name);
    let kind = receiver_kind_of(fns[0].inputs@);
    let pre = fns.take(i + 1);
    assert(pre.drop_last() =~= fns.take(i));
    lemma_method_impls_prefix(t, self_ty, kind, name, fns, i + 1);
    let impls = method_impls_text(t, self_ty, kind, name, fns);
    let impl_i = method_impl_text(t, self_ty, kind, name, i as nat, fns[i]);
    lemma_prefix_end_contained(impls, method_impls_text(t, self_ty, kind, name, fns.take(i)), impl_i);
    let head = method_trait_text(t, kind);
    let rest = self_impl_text(t, self_ty, name, fns, fns[0]);
    lemma_contains_extend(head, impls, rest, impl_i);
}

/// Every method of a set keeps its body: the expansion holds the `i`-th hidden
/// method, which holds the body of the `i`-th method.
pub proof fn lemma_every_method_has_hidden_method(self_ty: Seq<char>, fns: Seq<FnModel>, i: int)
    requires
        0 <= i < fns.len(),
    ensures
        contains_text(
            methods_text(self_ty, fns),
            hidden_method_text(fns[0].name@, i as nat, fns[i]),
        ),
{
    let name = fns[0].name@;
    let t = trait_name_text(name);
    let kind = receiver_kind_of(fns[0].inputs@);
    let pre = fns.take(i + 1);
    assert(pre.drop_last() =~= fns.take(i));
    lemma_hidden_methods_prefix(name, fns, i + 1);
    let hidden = hidden_methods_text(name, fns);
    let hidden_i = hidden_method_text(name, i as nat, fns[i]);
    lemma_prefix_end_contained(hidden, hidden_methods_text(name, fns.take(i)), hidden_i);
    let head = method_trait_text(t, kind) + method_impls_text(
        t,
        self_ty,
        kind,
        name,
        fns,
    );
    let before = head + "impl "@ + self_ty + " { "@;
    let after = "fn "@ + name + "<T: "@ + t + "<Self>>("@ + receiver_decl_text(
        fns[0].inputs@,
    ) + "#[rustc_splat] args: T) -> T::Output { args.call("@ + self_arg_text(
        fns[0].inputs@,
    ) + ") } }"@;
    lemma_contains_extend(before, hidden, after, hidden_i);
    let si = self_impl_text(t, self_ty, name, fns, fns[0]);
    assert(si =~= "impl "@ + self_ty + " { "@ + hidden + after);
    assert(methods_text(self_ty, fns) == head + si);
    assert(head + si =~= before + hidden + after);
}

/// The expansion of a set of free functions ends with its dispatch function, which
/// bears the set's name and is bounded by the set's trait.
pub proof fn lemma_free_dispatch_named_after_set(fns: Seq<FnModel>)
    requires
        fns.len() > 0,
    ensures
        ({
            let d = free_dispatch_text(fns[0].name@, trait_name_text(fns[0].name@));
            let out = free_functions_text(fns);
            d.len() <= out.len() && out.subrange(out.len() - d.len(), out.len() as int) == d
        }),
{
    let t = trait_name_text(fns[0].name@);
    let d = free_dispatch_text(fns[0].name@, t);
    let pre = free_trait_text(t) + free_impls_text(t, fns);
    let out = free_functions_text(fns);
    assert(out == pre + d);
    assert(out.subrange(out.len() - d.len(), out.len() as int) =~= d);
}

} // verus!
