//! Reserved-word handling.
//!
//! Item names that collide with a reserved word are rendered with a raw
//! identifier prefix so the emitted skeleton stays syntactically valid.

use vstd::prelude::*;

verus! {

use crate::text::{chars_of, eq_str, push_str, string_of};

/// True when `s` is a reserved word of the surface language.
pub open spec fn is_reserved_spec(s: Seq<char>) -> bool {
    ||| s == "as"@
    ||| s == "abstract"@
    ||| s == "async"@
    ||| s == "await"@
    ||| s == "become"@
    ||| s == "box"@
    ||| s == "break"@
    ||| s == "const"@
    ||| s == "continue"@
    ||| s == "crate"@
    ||| s == "do"@
    ||| s == "dyn"@
    ||| s == "else"@
    ||| s == "enum"@
    ||| s == "extern"@
    ||| s == "false"@
    ||| s == "final"@
    ||| s == "fn"@
    ||| s == "for"@
    ||| s == "if"@
    ||| s == "impl"@
    ||| s == "in"@
    ||| s == "let"@
    ||| s == "loop"@
    ||| s == "macro"@
    ||| s == "match"@
    ||| s == "mod"@
    ||| s == "move"@
    ||| s == "mut"@
    ||| s == "override"@
    ||| s == "priv"@
    ||| s == "pub"@
    ||| s == "ref"@
    ||| s == "return"@
    ||| s == "self"@
    ||| s == "Self"@
    ||| s == "static"@
    ||| s == "struct"@
    ||| s == "super"@
    ||| s == "trait"@
    ||| s == "true"@
    ||| s == "try"@
    ||| s == "type"@
    ||| s == "typeof"@
    ||| s == "unsafe"@
    ||| s == "unsized"@
    ||| s == "use"@
    ||| s == "virtual"@
    ||| s == "where"@
    ||| s == "while"@
    ||| s == "yield"@
}

/// Test whether a name is a reserved word.
pub fn is_reserved_chars(a: &Vec<char>) -> (r: bool)
    ensures
        r == is_reserved_spec(a@),
{
    eq_str(a, "as") || eq_str(a, "abstract") || eq_str(a, "async") || eq_str(a, "await") || eq_str(
        a,
        "become",
    ) || eq_str(a, "box") || eq_str(a, "break") || eq_str(a, "const") || eq_str(a, "continue")
        || eq_str(a, "crate") || eq_str(a, "do") || eq_str(a, "dyn") || eq_str(a, "else") || eq_str(
        a,
        "enum",
    ) || eq_str(a, "extern") || eq_str(a, "false") || eq_str(a, "final") || eq_str(a, "fn")
        || eq_str(a, "for") || eq_str(a, "if") || eq_str(a, "impl") || eq_str(a, "in") || eq_str(
        a,
        "let",
    ) || eq_str(a, "loop") || eq_str(a, "macro") || eq_str(a, "match") || eq_str(a, "mod")
        || eq_str(a, "move") || eq_str(a, "mut") || eq_str(a, "override") || eq_str(a, "priv")
        || eq_str(a, "pub") || eq_str(a, "ref") || eq_str(a, "return") || eq_str(a, "self")
        || eq_str(a, "Self") || eq_str(a, "static") || eq_str(a, "struct") || eq_str(a, "super")
        || eq_str(a, "trait") || eq_str(a, "true") || eq_str(a, "try") || eq_str(a, "type")
        || eq_str(a, "typeof") || eq_str(a, "unsafe") || eq_str(a, "unsized") || eq_str(a, "use")
        || eq_str(a, "virtual") || eq_str(a, "where") || eq_str(a, "while") || eq_str(a, "yield")
}

/// Test whether a string slice is a reserved word.
pub fn is_reserved_word(s: &str) -> (r: bool)
    ensures
        r == is_reserved_spec(s@),
{
    let a = chars_of(s);
    is_reserved_chars(&a)
}

/// A name with a raw-identifier prefix added when it collides with a
/// reserved word.
pub open spec fn escape_name_spec(s: Seq<char>) -> Seq<char> {
    if is_reserved_spec(s) {
        "r#"@ + s
    } else {
        s
    }
}

/// Escape a name that collides with a reserved word.
pub fn escape_name(a: &Vec<char>) -> (r: String)
    ensures
        r@ == escape_name_spec(a@),
{
    let s = string_of(a);
    if is_reserved_chars(a) {
        let mut out = String::new();
        push_str(&mut out, "r#");
        push_str(&mut out, s.as_str());
        proof {
            assert(out@ =~= "r#"@ + a@);
        }
        out
    } else {
        s
    }
}

} // verus!
