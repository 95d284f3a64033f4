//! Function overloading through argument tuples.
//!
//! An overload set (several free functions, or several methods of one type,
//! sharing one name) is turned into Rust source: a trait named after the overload
//! set, one impl of that trait for the argument tuple of each overload, and a
//! dispatch function that takes the splatted argument tuple.
//!
//! `overload` reads the set from tokens and gives back the tokens of the expansion;
//! `expand` gives the source of the expansion of a set already read.

mod arg_laws;
mod args;
mod fragments;
mod generate;
mod laws;
mod model;
mod splice;
mod syntax;
mod text;

pub use args::{
    arg_index_text, arg_index_texts, arg_name_text, arg_name_texts, arg_type_text,
    arg_type_texts, collect_args, index_texts, name_texts, output_text, output_ty_for,
    tuple_text, tuple_ty_for, type_texts, typed_args,
};
pub use generate::{
    bindings_text, caller_receiver_text, diagnostic_attr_text, expand, expansion_result,
    fn_bindings_text, free_dispatch_text, free_functions_result, free_functions_text,
    free_impl_text, free_impls_text, free_trait_text, generate_free_functions, generate_methods,
    hidden_method_text, hidden_methods_text, hidden_name_text, method_impl_text,
    method_impls_text, method_trait_text, methods_result, methods_text, param_texts,
    receiver_decl_text, receivers_agree, self_arg_text, self_impl_text, this_concrete_text,
    this_generic_text,
};
pub use laws::{
    contains_text, lemma_arg_indices_distinct, lemma_decimal_injective,
    lemma_every_free_function_has_impl, lemma_every_method_has_hidden_method,
    lemma_every_method_has_impl, lemma_free_dispatch_named_after_set,
    lemma_hidden_names_distinct, lemma_trait_name_differs_from_name, lemma_trait_name_unique,
};
pub use model::{
    error_message_text, opt_text, receiver_kind_of, receiver_kind_of_arg, ArgModel, ArgRead,
    FnModel, FnRead, OverloadError, OverloadInput, ReceiverKind,
};
pub use syntax::{
    admissible_input, all_functions, all_read, fn_reads, fns_read, impl_items, impl_read,
    impl_self_ty, leading_ident, lexed_from, listed_fns, methods_from_parts, opt_read, overload,
    overload_outcome, read_result, splice_depth, starts_with_impl, unwrap_functions,
    unwrap_reads,
};
pub use text::{
    ascii_upper, decimal_string, decimal_text, digit_char, is_ascii_lower, is_ascii_upper,
    is_raw_ident,
    is_raw_text, join_strings, join_text, str_equals, texts, trait_name_for, trait_name_text,
    unraw_string, unraw_text,
};
pub use splice::{
    fragment_for, fragment_views, group_stream_of, ident_of, regrouped, splice, spliced,
    respan_all, respanned, respanned_all, spliced_trees, stream_of, trees_of,
};
pub use fragments::{
    arg_fragments, arg_name_tokens_of, arg_tokens_of, block_tokens_of, fn_fragments,
    fns_fragments, name_fragments_of, name_tokens_of, names_lexed, one_arg_fragments,
    output_tokens_of, part_fragments, set_fns, arg_part, fn_read_at, lemma_placeholders_keep_refusals, name_part, name_placeholder_text,
    placeholder_arg, placeholder_fn, placeholder_fns, placeholder_input, placeholder_text,
    self_placeholder_text, set_stem, source_read,
};
pub use arg_laws::{
    lemma_each_arg_is_bound_to_its_own_field, lemma_each_arg_keeps_its_type_name_and_field,
    lemma_each_param_keeps_its_own_type, lemma_join_is_each_piece_in_order,
    lemma_tuple_holds_every_type_in_order, lemma_typed_args_are_the_typed_entries,
};
