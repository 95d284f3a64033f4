//! Putting the user's own tokens into the generated tokens.
//!
//! The expansion is generated as source text in which every part written by the user
//! (a body, a type, an argument's name, a receiver, the self type) stands as a
//! placeholder identifier. Once that text is read as tokens, each placeholder is
//! replaced by the tokens that the user wrote, so that those keep their spans and
//! their invisible groups. What `proc_macro2` makes of token trees is named here
//! (`trees_of`, `ident_of`, `group_stream_of`, `regrouped`, `stream_of`).

use vstd::prelude::*;

use crate::model::opt_text;
use crate::text::str_equals;
use proc_macro2::{TokenStream, TokenTree};

verus! {

/// A token tree (`proc_macro2::TokenTree`), held opaque.
#[verifier::external_type_specification]
#[verifier::external_body]
pub struct ExTokenTree(TokenTree);

/// The top-level token trees of `ts`, in order (`TokenStream::into_iter`).
pub uninterp spec fn trees_of(ts: TokenStream) -> Seq<TokenTree>;

/// The text of `t` when it is an identifier (`Ident::to_string`).
pub uninterp spec fn ident_of(t: TokenTree) -> Option<Seq<char>>;

/// The tokens inside `t` when it is a group (`Group::stream`).
pub uninterp spec fn group_stream_of(t: TokenTree) -> Option<TokenStream>;

/// The group `t` with `s` in place of its tokens: a new group (`Group::new`) with the
/// delimiter of `t`, given the span of `t` (`Group::set_span`).
pub uninterp spec fn regrouped(t: TokenTree, s: TokenStream) -> TokenTree;

/// The tree `t` given the span of the first tree of `m` (`TokenTree::set_span`), or `t`
/// itself when `m` is empty.
pub uninterp spec fn respanned(t: TokenTree, m: TokenStream) -> TokenTree;

/// The stream of the token trees `trees`, in order (`FromIterator<TokenTree>`).
pub uninterp spec fn stream_of(trees: Seq<TokenTree>) -> TokenStream;

/// The top-level token trees of `ts`. The claim: they are `trees_of(ts)`.
#[verifier::external_body]
fn token_trees(ts: &TokenStream) -> (r: Vec<TokenTree>)
    ensures
        r@ == trees_of(*ts),
{
    ts.clone().into_iter().collect()
}

/// The text of an identifier tree. The claim: it is `ident_of(t)`.
#[verifier::external_body]
fn tree_ident(t: &TokenTree) -> (r: Option<String>)
    ensures
        opt_text(r) == ident_of(*t),
{
    match t {
        TokenTree::Ident(ident) => Some(ident.to_string()),
        _ => None,
    }
}

/// The tokens inside a group tree. The claim: they are `group_stream_of(t)`.
#[verifier::external_body]
fn tree_group_stream(t: &TokenTree) -> (r: Option<TokenStream>)
    ensures
        r == group_stream_of(*t),
{
    match t {
        TokenTree::Group(group) => Some(group.stream()),
        _ => None,
    }
}

/// A group like `t` around `s`. The claim: it is `regrouped(t, s)`.
#[verifier::external_body]
fn regroup(t: TokenTree, s: TokenStream) -> (r: TokenTree)
    requires
        group_stream_of(t) is Some,
    ensures
        r == regrouped(t, s),
{
    match t {
        TokenTree::Group(group) => {
            let mut new_group = proc_macro2::Group::new(group.delimiter(), s);
            new_group.set_span(group.span());
            TokenTree::Group(new_group)
        },
        other => other,
    }
}

/// A tree given the span of the first tree of `m`. The claim: it is `respanned(t, m)`.
#[verifier::external_body]
fn respan(t: TokenTree, m: &TokenStream) -> (r: TokenTree)
    ensures
        r == respanned(t, *m),
{
    let mut t = t;
    match m.clone().into_iter().next() {
        Some(first) => t.set_span(first.span()),
        None => {},
    }
    t
}

/// The stream of a sequence of trees. The claim: it is `stream_of(trees)`.
#[verifier::external_body]
fn stream_from(trees: Vec<TokenTree>) -> (r: TokenStream)
    ensures
        r == stream_of(trees@),
{
    trees.into_iter().collect()
}

/// The placeholders and their tokens, by the placeholders' texts.
pub open spec fn fragment_views(frags: Seq<(String, TokenStream)>) -> Seq<(Seq<char>, TokenStream)> {
    frags.map_values(|p: (String, TokenStream)| (p.0@, p.1))
}

/// The tokens of the first placeholder of `frags` whose text is `x`.
pub open spec fn fragment_for(frags: Seq<(Seq<char>, TokenStream)>, x: Seq<char>) -> Option<
    TokenStream,
>
    decreases frags.len(),
{
    if frags.len() == 0 {
        None
    } else if frags[0].0 == x {
        Some(frags[0].1)
    } else {
        fragment_for(frags.drop_first(), x)
    }
}

/// What a tree becomes: the tokens of its placeholder when it is the identifier of
/// one; else, with fuel left, a group with its own tokens replaced; else itself.
pub open spec fn spliced_trees(
    trees: Seq<TokenTree>,
    frags: Seq<(Seq<char>, TokenStream)>,
    fuel: nat,
) -> Seq<TokenTree>
    decreases fuel, trees.len(),
{
    if trees.len() == 0 {
        seq![]
    } else {
        let t = trees.last();
        let found = match ident_of(t) {
            Some(x) => fragment_for(frags, x),
            None => None,
        };
        let piece = match found {
            Some(f) => trees_of(f),
            None => if fuel > 0 && group_stream_of(t) is Some {
                seq![
                    regrouped(
                        t,
                        stream_of(
                            spliced_trees(
                                trees_of(group_stream_of(t)->0),
                                frags,
                                (fuel - 1) as nat,
                            ),
                        ),
                    ),
                ]
            } else {
                seq![t]
            },
        };
        spliced_trees(trees.drop_last(), frags, fuel) + piece
    }
}

/// The stream `ts` with each placeholder replaced by its tokens, in groups nested up
/// to `fuel` deep.
pub open spec fn spliced(ts: TokenStream, frags: Seq<(Seq<char>, TokenStream)>, fuel: nat) -> TokenStream {
    stream_of(spliced_trees(trees_of(ts), frags, fuel))
}

/// Returns the index of the first placeholder whose text is `x`.
fn find_fragment(frags: &Vec<(String, TokenStream)>, x: &str) -> (r: Option<usize>)
    ensures
        match r {
            Some(i) => i < frags@.len() && fragment_for(fragment_views(frags@), x@) == Some(
                frags@[i as int].1,
            ),
            None => fragment_for(fragment_views(frags@), x@) is None,
        },
{
    let ghost all = fragment_views(frags@);
    let n = frags.len();
    let mut k: usize = 0;
    assert(all.skip(0) =~= all);
    while k < n
        invariant
            k <= n,
            n == frags@.len(),
            all == fragment_views(frags@),
            fragment_for(all, x@) == fragment_for(all.skip(k as int), x@),
        decreases n - k,
    {
        assert(all.skip(k as int).drop_first() =~= all.skip(k + 1));
        if str_equals(frags[k].0.as_str(), x) {
            return Some(k);
        }
        k += 1;
    }
    None
}

/// Appends the trees of `ts` to `out`.
fn push_trees(out: &mut Vec<TokenTree>, ts: &TokenStream)
    ensures
        final(out)@ == old(out)@ + trees_of(*ts),
{
    let mut trees = token_trees(ts);
    let ghost start = out@;
    let ghost all = trees@;
    let n = trees.len();
    let mut k: usize = 0;
    while k < n
        invariant
            k <= n,
            n == all.len(),
            trees@ == all.skip(k as int),
            out@ == start + all.take(k as int),
        decreases n - k,
    {
        let t = trees.remove(0);
        out.push(t);
        assert(all.take(k + 1) =~= all.take(k as int).push(all[k as int]));
        assert(trees@ =~= all.skip(k + 1));
        k += 1;
    }
    assert(all.take(n as int) =~= all);
}

/// The trees of `ts`, each given the span of the first tree of `m`.
pub open spec fn respanned_all(ts: TokenStream, m: TokenStream) -> TokenStream {
    stream_of(trees_of(ts).map_values(|t: TokenTree| respanned(t, m)))
}

/// Returns the trees of `ts`, each given the span of the first tree of `m`.
pub fn respan_all(ts: &TokenStream, m: &TokenStream) -> (r: TokenStream)
    ensures
        r == respanned_all(*ts, *m),
{
    let mut rest = token_trees(ts);
    let ghost all = rest@;
    let mut out: Vec<TokenTree> = Vec::new();
    let n = rest.len();
    let mut k: usize = 0;
    while k < n
        invariant
            k <= n,
            n == all.len(),
            all == trees_of(*ts),
            rest@ == all.skip(k as int),
            out@ == all.take(k as int).map_values(|t: TokenTree| respanned(t, *m)),
        decreases n - k,
    {
        let t = rest.remove(0);
        assert(t == all[k as int]);
        assert(rest@ =~= all.skip(k + 1));
        out.push(respan(t, m));
        assert(out@ =~= all.take(k + 1).map_values(|t: TokenTree| respanned(t, *m)));
        k += 1;
    }
    assert(all.take(n as int) =~= all);
    stream_from(out)
}

/// Replaces each placeholder identifier of `ts` by its tokens, in groups nested up to
/// `fuel` deep.
pub fn splice(ts: &TokenStream, frags: &Vec<(String, TokenStream)>, fuel: usize) -> (r: TokenStream)
    ensures
        r == spliced(*ts, fragment_views(frags@), fuel as nat),
    decreases fuel,
{
    let ghost fv = fragment_views(frags@);
    let mut rest = token_trees(ts);
    let ghost all = rest@;
    let mut out: Vec<TokenTree> = Vec::new();
    let n = rest.len();
    let mut k: usize = 0;
    while k < n
        invariant
            k <= n,
            n == all.len(),
            all == trees_of(*ts),
            fv == fragment_views(frags@),
            rest@ == all.skip(k as int),
            out@ == spliced_trees(all.take(k as int), fv, fuel as nat),
        decreases n - k,
    {
        let t = rest.remove(0);
        assert(t == all[k as int]);
        assert(rest@ =~= all.skip(k + 1));
        let ghost before = out@;
        let found = match tree_ident(&t) {
            Some(x) => find_fragment(frags, x.as_str()),
            None => None,
        };
        match found {
            Some(i) => {
                push_trees(&mut out, &frags[i].1);
            },
            None => {
                let inner = tree_group_stream(&t);
                if fuel > 0 && inner.is_some() {
                    let replaced = splice(&inner.unwrap(), frags, fuel - 1);
                    out.push(regroup(t, replaced));
                } else {
                    out.push(t);
                }
            },
        }
        assert(all.take(k + 1).drop_last() =~= all.take(k as int));
        assert(all.take(k + 1).last() == all[k as int]);
        assert(out@ =~= spliced_trees(all.take(k + 1), fv, fuel as nat));
        k += 1;
    }
    assert(all.take(n as int) =~= all);
    stream_from(out)
}

} // verus!
