//! Text building blocks for the generated source: decimal numbers, joins,
//! identifiers, and the trait name of an overload set.

use vstd::prelude::*;
use vstd::string::StrSliceExecFns;
use vstd::string::StringExecFns;

verus! {

/// The character of the decimal digit `d` (`0 <= d < 10`).
pub open spec fn digit_char(d: nat) -> char {
    (48 + d) as char
}

/// The decimal text of `n`, without sign, leading zeros or suffix.
pub open spec fn decimal_text(n: nat) -> Seq<char>
    decreases n,
{
    if n < 10 {
        seq![digit_char(n)]
    } else {
        decimal_text(n / 10).push(digit_char(n % 10))
    }
}

/// Appends `c` to `s` (std's `String::push`).
#[verifier::external_body]
pub(crate) fn push_char(s: &mut String, c: char)
    ensures
        final(s)@ == old(s)@.push(c),
{
    s.push(c);
}

/// Returns the decimal text of `n`, as `n.to_string()` writes it.
pub fn decimal_string(n: usize) -> (s: String)
    ensures
        s@ == decimal_text(n as nat),
    decreases n,
{
    let d: u8 = (n % 10) as u8;
    let c: char = (48u8 + d) as char;
    if n < 10 {
        let mut s = String::new();
        push_char(&mut s, c);
        s
    } else {
        let mut s = decimal_string(n / 10);
        push_char(&mut s, c);
        s
    }
}

/// Whether an identifier's text is a raw identifier (`r#name`).
pub open spec fn is_raw_text(name: Seq<char>) -> bool {
    name.len() >= 2 && name[0] == 'r' && name[1] == '#'
}

/// Returns whether `name` is the text of a raw identifier.
pub fn is_raw_ident(name: &str) -> (b: bool)
    ensures
        b == is_raw_text(name@),
{
    let len = name.unicode_len();
    len >= 2 && name.get_char(0) == 'r' && name.get_char(1) == '#'
}

/// The identifier's text without the `r#` of a raw identifier: `r#fn` and `fn`
/// name the same thing.
pub open spec fn unraw_text(name: Seq<char>) -> Seq<char> {
    if is_raw_text(name) {
        name.skip(2)
    } else {
        name
    }
}

/// Returns the identifier's text without the `r#` of a raw identifier.
pub fn unraw_string(name: &str) -> (r: String)
    ensures
        r@ == unraw_text(name@),
{
    if is_raw_ident(name) {
        let len = name.unicode_len();
        let rest = name.substring_char(2, len);
        let mut r = String::new();
        r.append(rest);
        assert(r@ =~= name@.skip(2));
        r
    } else {
        let mut r = String::new();
        r.append(name);
        r
    }
}

/// Whether `c` is an ASCII lowercase letter.
pub open spec fn is_ascii_lower(c: char) -> bool {
    97 <= (c as int) <= 122
}

/// Whether `c` is an ASCII uppercase letter.
pub open spec fn is_ascii_upper(c: char) -> bool {
    65 <= (c as int) <= 90
}

/// The uppercase letter of the ASCII lowercase letter `c`.
pub open spec fn ascii_upper(c: char) -> char {
    ((c as int) - 32) as char
}

/// The trait name of an overload set named `name` (taken without `r#`): when the name
/// starts with an ASCII lowercase letter, that letter in upper case, the rest
/// unchanged, then `Args`; when it starts with an ASCII uppercase letter, the name,
/// then `Args_` (so that `Foo` does not take the trait name of `foo`); any other name
/// unchanged, then `Args`. Names that differ give trait names that differ.
#[verifier::opaque]
pub open spec fn trait_name_text(name: Seq<char>) -> Seq<char> {
    let u = unraw_text(name);
    if u.len() > 0 && is_ascii_lower(u[0]) {
        seq![ascii_upper(u[0])] + u.drop_first() + "Args"@
    } else if u.len() > 0 && is_ascii_upper(u[0]) {
        u + "Args_"@
    } else {
        u + "Args"@
    }
}

/// Returns a unique trait name for the overload set named `fn_name`, as in `foo` to
/// `FooArgs`, `_foo` to `_fooArgs` and `Foo` to `FooArgs_`.
pub fn trait_name_for(fn_name: &str) -> (r: String)
    ensures
        r@ == trait_name_text(fn_name@),
{
    proof {
        reveal(trait_name_text);
    }
    let u = unraw_string(fn_name);
    let len = u.as_str().unicode_len();
    let mut r = String::new();
    let first: char = if len > 0 {
        u.as_str().get_char(0)
    } else {
        ' '
    };
    if len > 0 && 'a' <= first && first <= 'z' {
        let code: u32 = first as u32;
        let up: char = ((code - 32) as u8) as char;
        assert(up == ascii_upper(u@[0]));
        push_char(&mut r, up);
        let rest = u.as_str().substring_char(1, len);
        r.append(rest);
        assert(r@ =~= seq![ascii_upper(u@[0])] + u@.drop_first());
        r.append("Args");
    } else if len > 0 && 'A' <= first && first <= 'Z' {
        r.append(u.as_str());
        r.append("Args_");
    } else {
        r.append(u.as_str());
        r.append("Args");
    }
    r
}

/// The texts of a sequence of strings.
pub open spec fn texts(items: Seq<String>) -> Seq<Seq<char>> {
    items.map_values(|s: String| s@)
}

/// `items` joined with `sep` between each two neighbours.
pub open spec fn join_text(items: Seq<Seq<char>>, sep: Seq<char>) -> Seq<char>
    decreases items.len(),
{
    if items.len() == 0 {
        seq![]
    } else if items.len() == 1 {
        items[0]
    } else {
        join_text(items.drop_last(), sep) + sep + items.last()
    }
}

/// Joins `items` with `sep` between each two neighbours.
pub fn join_strings(items: &[String], sep: &str) -> (r: String)
    ensures
        r@ == join_text(texts(items@), sep@),
{
    let mut r = String::new();
    let n = items.len();
    let mut i: usize = 0;
    while i < n
        invariant
            0 <= i <= n,
            n == items@.len(),
            r@ == join_text(texts(items@).take(i as int), sep@),
        decreases n - i,
    {
        if i > 0 {
            r.append(sep);
        }
        r.append(items[i].as_str());
        assert(texts(items@).take(i + 1).drop_last() =~= texts(items@).take(i as int));
        i += 1;
    }
    assert(texts(items@).take(n as int) =~= texts(items@));
    r
}

/// Returns whether `a` and `b` hold the same characters.
pub fn str_equals(a: &str, b: &str) -> (r: bool)
    ensures
        r == (a@ == b@),
{
    let n = a.unicode_len();
    if n != b.unicode_len() {
        return false;
    }
    let mut i: usize = 0;
    while i < n
        invariant
            0 <= i <= n,
            n == a@.len(),
            n == b@.len(),
            forall|k: int| 0 <= k < i ==> a@[k] == b@[k],
        decreases n - i,
    {
        if a.get_char(i) != b.get_char(i) {
            return false;
        }
        i += 1;
    }
    assert(a@ =~= b@);
    true
}

} // verus!
