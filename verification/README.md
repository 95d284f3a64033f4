# splat_overload

Function overloading through argument tuples, as a verified library.

An overload set (free functions, or methods of one type, sharing one name) is
expanded into Rust source: a trait named after the set (`foo` gives `FooArgs`, `Foo`
gives `FooArgs_`, so that different sets never share a trait name), one
impl of that trait for the argument tuple of each overload, and a dispatch function
that takes the splatted argument tuple (the nightly `splat` feature).

- `src/` is verified with Verus. `expand` (and `generate_free_functions`,
  `generate_methods`) have exact contracts over spec functions that spell out the
  generated source; `src/laws.rs` proves properties across them (every overload gets
  its impl, hidden method names never clash, different sets get different trait
  names, ...). `overload` reads the input tokens with `syn`: what `syn` reads is named
  by uninterpreted spec functions, the reading items state that they hand back parts
  of it, and the decisions taken on those parts are verified. The expansion is
  generated as text with placeholders for the parts that the user wrote; once read as
  tokens, each placeholder is replaced by the user's own tokens (`src/splice.rs`), so
  that they keep their spans and invisible groups.
- `app/` holds the body of the procedural-macro entry point and the C++
  `std::forward_list` handle, whose inline C++ needs the `cpp` build step.
