//! Declarative and procedural macro rendering.
//!
//! Pattern-macro bodies are re-emitted from their embedded source text. The
//! upstream extraction step is known to trail new-style declarative macros
//! with a stray, syntactically invalid `{ ... }` block; `fixed_macro_spec`
//! describes the narrow compensating fix-up that removes it. Procedural
//! macros render as an annotated stub whose shape depends on their role.

use vstd::prelude::*;

verus! {

use crate::items::{docs, docs_spec, render_name, render_name_spec};
use crate::keywords::{is_reserved_chars, is_reserved_spec};
use crate::model::{Item, ItemKind, MacroKind};
use crate::syntax::lit;
use crate::text::{
    chars_of,
    find_from,
    first_match_from,
    has_prefix,
    is_ws,
    is_ws_char,
    join,
    join_spec,
    matches_at,
    push_str,
    starts_with_str,
    string_of,
    subrange_vec,
    trim_start,
    trim_start_spec,
    views,
};

/// The index of the first non-whitespace character at or after `i`.
pub open spec fn skip_ws_spec(s: Seq<char>, i: int) -> int
    decreases s.len() - i,
{
    if 0 <= i && i < s.len() && is_ws(s[i]) {
        skip_ws_spec(s, i + 1)
    } else {
        i
    }
}

/// True when, from position `i`, the text reads as a closing brace, then a
/// whitespace-separated `{ ... }` block, then only whitespace to the end:
/// the defective trailing block the extraction step appends.
pub open spec fn tail_matches(s: Seq<char>, i: int) -> bool {
    &&& 0 <= i < s.len()
    &&& s[i] == '}'
    &&& {
        let a = skip_ws_spec(s, i + 1);
        &&& a < s.len()
        &&& s[a] == '{'
        &&& {
            let b = skip_ws_spec(s, a + 1);
            &&& b + 3 <= s.len()
            &&& s.subrange(b, b + 3) == "..."@
            &&& {
                let c = skip_ws_spec(s, b + 3);
                &&& c < s.len()
                &&& s[c] == '}'
                &&& skip_ws_spec(s, c + 1) == s.len()
            }
        }
    }
}

/// The first position from which the defective trailing block reads.
pub open spec fn first_tail_from(s: Seq<char>, i: int) -> Option<int>
    decreases s.len() - i,
{
    if i < 0 || i >= s.len() {
        None
    } else if tail_matches(s, i) {
        Some(i)
    } else {
        first_tail_from(s, i + 1)
    }
}

/// A macro body with the defective trailing block removed: only applied to
/// new-style (`macro`) definitions, and only when the block is present.
pub open spec fn fixed_macro_spec(ms: Seq<char>) -> Seq<char> {
    if has_prefix(ms, "macro "@) && !has_prefix(ms, "macro_rules!"@) {
        match first_tail_from(ms, 0) {
            Some(i) => ms.subrange(0, i) + "}"@,
            None => ms,
        }
    } else {
        ms
    }
}

/// The first position at or after `i` holding whitespace or an opening
/// brace: the end of a macro name.
pub open spec fn first_stop(s: Seq<char>, i: int) -> Option<int>
    decreases s.len() - i,
{
    if i < 0 || i >= s.len() {
        None
    } else if is_ws(s[i]) || s[i] == '{' {
        Some(i)
    } else {
        first_stop(s, i + 1)
    }
}

/// Find the first non-whitespace position at or after `i`.
fn skip_ws(s: &Vec<char>, i: usize) -> (r: usize)
    requires
        i <= s@.len(),
    ensures
        r == skip_ws_spec(s@, i as int),
        i <= r <= s@.len(),
{
    let mut j = i;
    while j < s.len() && is_ws_char(s[j])
        invariant
            i <= j <= s@.len(),
            skip_ws_spec(s@, i as int) == skip_ws_spec(s@, j as int),
        decreases s.len() - j,
    {
        j = j + 1;
    }
    j
}

/// Test `tail_matches` at one position.
fn tail_match_at(s: &Vec<char>, i: usize) -> (r: bool)
    requires
        i < s@.len(),
    ensures
        r == tail_matches(s@, i as int),
{
    let n = s.len();
    if s[i] != '}' {
        return false;
    }
    let a = skip_ws(s, i + 1);
    if a >= s.len() || s[a] != '{' {
        return false;
    }
    let b = skip_ws(s, a + 1);
    if s.len() - b < 3 {
        return false;
    }
    proof {
        reveal_strlit("...");
    }
    if !(s[b] == '.' && s[b + 1] == '.' && s[b + 2] == '.') {
        proof {
            assert(s@.subrange(b as int, b + 3) != "..."@) by {
                if s@.subrange(b as int, b + 3) == "..."@ {
                    assert(s@.subrange(b as int, b + 3)[0] == '.');
                    assert(s@.subrange(b as int, b + 3)[1] == '.');
                    assert(s@.subrange(b as int, b + 3)[2] == '.');
                }
            }
        }
        return false;
    }
    proof {
        assert(s@.subrange(b as int, b + 3) =~= "..."@);
    }
    let c = skip_ws(s, b + 3);
    if c >= s.len() || s[c] != '}' {
        return false;
    }
    let e = skip_ws(s, c + 1);
    e == s.len()
}

proof fn lemma_first_tail_skip(s: Seq<char>, from: int, upto: int)
    requires
        0 <= from <= upto,
        forall|j: int| from <= j < upto ==> !tail_matches(s, j),
    ensures
        first_tail_from(s, from) == first_tail_from(s, upto),
    decreases upto - from,
{
    if from < upto {
        if from >= s.len() {
            assert(upto >= s.len());
        } else {
            lemma_first_tail_skip(s, from + 1, upto);
        }
    }
}

/// Find the first position of the defective trailing block.
fn first_tail(s: &Vec<char>) -> (r: Option<usize>)
    ensures
        match r {
            Some(i) => first_tail_from(s@, 0) == Some(i as int) && tail_matches(s@, i as int),
            None => first_tail_from(s@, 0) is None,
        },
{
    let mut i: usize = 0;
    while i < s.len()
        invariant
            i <= s@.len(),
            forall|j: int| 0 <= j < i ==> !tail_matches(s@, j),
        decreases s.len() - i,
    {
        if tail_match_at(s, i) {
            proof {
                lemma_first_tail_skip(s@, 0, i as int);
            }
            return Some(i);
        }
        i = i + 1;
    }
    proof {
        lemma_first_tail_skip(s@, 0, i as int);
    }
    None
}

/// The rendered form of a pattern macro: documentation, an export
/// attribute, and the (possibly fixed-up) body, the macro's name escaped
/// when it collides with a reserved word.
pub open spec fn render_macro_spec(item: Item) -> Seq<char> {
    match item.inner {
        ItemKind::Macro(ms) => {
            let fixed = fixed_macro_spec(ms@);
            let tail = match first_match_from(fixed, "macro_rules!"@, 0) {
                Some(st) => {
                    let prefix = fixed.subrange(0, st + 12);
                    let rest = fixed.subrange(st + 12, fixed.len() as int);
                    let trimmed = trim_start_spec(rest);
                    match first_stop(trimmed, 0) {
                        Some(e) => {
                            let nm = trimmed.subrange(0, e);
                            let suffix = trimmed.subrange(e, trimmed.len() as int);
                            if is_reserved_spec(nm) {
                                prefix + " r#"@ + nm + suffix + "\n"@
                            } else {
                                fixed + "\n"@
                            }
                        },
                        None => fixed + "\n"@,
                    }
                },
                None => fixed + "\n"@,
            };
            docs_spec(item) + "#[macro_export]\n"@ + tail
        },
        _ => Seq::empty(),
    }
}

/// Find the end of the macro name: the first whitespace or opening brace.
fn find_stop(s: &Vec<char>) -> (r: Option<usize>)
    ensures
        match r {
            Some(i) => first_stop(s@, 0) == Some(i as int) && i < s@.len(),
            None => first_stop(s@, 0) is None,
        },
{
    let mut i: usize = 0;
    while i < s.len()
        invariant
            i <= s@.len(),
            first_stop(s@, 0) == first_stop(s@, i as int),
        decreases s.len() - i,
    {
        if is_ws_char(s[i]) || s[i] == '{' {
            return Some(i);
        }
        i = i + 1;
    }
    None
}

/// Render a pattern macro definition.
pub fn render_macro(item: &Item) -> (r: String)
    ensures
        r@ == render_macro_spec(*item),
{
    match &item.inner {
        ItemKind::Macro(ms) => {
            let mut out = docs(item);
            push_str(&mut out, "#[macro_export]\n");
            let fixed: Vec<char> = if starts_with_str(ms, "macro ") && !starts_with_str(
                ms,
                "macro_rules!",
            ) {
                match first_tail(ms) {
                    Some(i) => {
                        let mut head = subrange_vec(ms, 0, i);
                        head.push('}');
                        proof {
                            reveal_strlit("}");
                            assert(head@ =~= ms@.subrange(0, i as int) + "}"@);
                        }
                        head
                    },
                    None => crate::text::clone_chars(ms),
                }
            } else {
                crate::text::clone_chars(ms)
            };
            proof {
                assert(fixed@ == fixed_macro_spec(ms@));
            }
            let pat = chars_of("macro_rules!");
            match find_from(&fixed, &pat, 0) {
                Some(st) => {
                    let fl = fixed.len();
                    proof {
                        reveal_strlit("macro_rules!");
                        assert("macro_rules!"@.len() == 12);
                    }
                    let prefix = subrange_vec(&fixed, 0, st + 12);
                    let rest = subrange_vec(&fixed, st + 12, fl);
                    let trimmed = trim_start(&rest);
                    match find_stop(&trimmed) {
                        Some(e) => {
                            let nm = subrange_vec(&trimmed, 0, e);
                            let suffix = subrange_vec(&trimmed, e, trimmed.len());
                            if is_reserved_chars(&nm) {
                                let ghost pre = out@;
                                push_str(&mut out, string_of(&prefix).as_str());
                                push_str(&mut out, " r#");
                                push_str(&mut out, string_of(&nm).as_str());
                                push_str(&mut out, string_of(&suffix).as_str());
                                push_str(&mut out, "\n");
                                proof {
                                    assert(out@ =~= pre + (prefix@ + " r#"@ + nm@ + suffix@
                                        + "\n"@));
                                }
                            } else {
                                let ghost pre = out@;
                                push_str(&mut out, string_of(&fixed).as_str());
                                push_str(&mut out, "\n");
                                proof {
                                    assert(out@ =~= pre + (fixed@ + "\n"@));
                                }
                            }
                        },
                        None => {
                            let ghost pre = out@;
                            push_str(&mut out, string_of(&fixed).as_str());
                            push_str(&mut out, "\n");
                            proof {
                                assert(out@ =~= pre + (fixed@ + "\n"@));
                            }
                        },
                    }
                },
                None => {
                    let ghost pre = out@;
                    push_str(&mut out, string_of(&fixed).as_str());
                    push_str(&mut out, "\n");
                    proof {
                        assert(out@ =~= pre + (fixed@ + "\n"@));
                    }
                },
            }
            out
        },
        _ => String::new(),
    }
}

/// The rendered form of a procedural macro: an annotation matching the
/// macro's role, then a stub function whose parameter and return shape
/// depend on that role.
pub open spec fn render_proc_macro_spec(item: Item) -> Seq<char> {
    match item.inner {
        ItemKind::ProcMacro(pm) => {
            let name = render_name_spec(item);
            let attr = match pm.kind {
                MacroKind::Derive => {
                    if pm.helpers@.len() > 0 {
                        "#[proc_macro_derive("@ + name + ", attributes("@ + join_spec(
                            views(pm.helpers@),
                            ", "@,
                        ) + "))]\n"@
                    } else {
                        "#[proc_macro_derive("@ + name + ")]\n"@
                    }
                },
                MacroKind::Attr => "#[proc_macro_attribute]\n"@,
                MacroKind::Bang => "#[proc_macro]\n"@,
            };
            let args = match pm.kind {
                MacroKind::Attr => "attr: proc_macro::TokenStream, item: proc_macro::TokenStream"@,
                _ => "input: proc_macro::TokenStream"@,
            };
            docs_spec(item) + attr + "pub fn "@ + name + "("@ + args
                + ") -> proc_macro::TokenStream {}\n"@
        },
        _ => Seq::empty(),
    }
}

/// Render a procedural macro definition.
pub fn render_proc_macro(item: &Item) -> (r: String)
    ensures
        r@ == render_proc_macro_spec(*item),
{
    match &item.inner {
        ItemKind::ProcMacro(pm) => {
            let mut out = docs(item);
            let name = render_name(item);
            match pm.kind {
                MacroKind::Derive => {
                    if pm.helpers.len() > 0 {
                        push_str(&mut out, "#[proc_macro_derive(");
                        push_str(&mut out, name.as_str());
                        push_str(&mut out, ", attributes(");
                        let sep = chars_of(", ");
                        let joined = join(&pm.helpers, &sep);
                        push_str(&mut out, string_of(&joined).as_str());
                        push_str(&mut out, "))]\n");
                    } else {
                        push_str(&mut out, "#[proc_macro_derive(");
                        push_str(&mut out, name.as_str());
                        push_str(&mut out, ")]\n");
                    }
                },
                MacroKind::Attr => {
                    push_str(&mut out, "#[proc_macro_attribute]\n");
                },
                MacroKind::Bang => {
                    push_str(&mut out, "#[proc_macro]\n");
                },
            }
            push_str(&mut out, "pub fn ");
            push_str(&mut out, name.as_str());
            push_str(&mut out, "(");
            match pm.kind {
                MacroKind::Attr => {
                    push_str(
                        &mut out,
                        "attr: proc_macro::TokenStream, item: proc_macro::TokenStream",
                    );
                },
                _ => {
                    push_str(&mut out, "input: proc_macro::TokenStream");
                },
            }
            push_str(&mut out, ") -> proc_macro::TokenStream {}\n");
            proof {
                assert(out@ =~= render_proc_macro_spec(*item));
            }
            out
        },
        _ => String::new(),
    }
}

} // verus!
