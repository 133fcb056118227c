//! Single-fragment item renderers: documentation blocks, visibility, names,
//! functions, constants, statics, type aliases and associated items. None
//! of these recurses through the item graph.

use vstd::prelude::*;

verus! {

use crate::keywords::{escape_name, escape_name_spec};
use crate::model::{FunctionHeader, Item, ItemKind, Visibility};
use crate::syntax::{
    lit,
    render_bounds_spec,
    render_function_args,
    render_function_args_spec,
    render_generic_bounds,
    render_generics,
    render_generics_spec,
    render_return_type,
    render_return_type_spec,
    render_type_inner,
    render_type_spec,
    render_where_clause,
    render_where_clause_spec,
};
use crate::text::{
    chars_of,
    join_spec,
    join_strings,
    lines,
    lines_spec,
    push_str,
    string_of,
    string_views,
};

/// A documentation block: each line of the text as a line comment.
pub open spec fn doc_lines_spec(ls: Seq<Seq<char>>) -> Seq<char>
    decreases ls.len(),
{
    if ls.len() == 0 {
        Seq::empty()
    } else {
        "/// "@ + ls[0] + "\n"@ + doc_lines_spec(ls.drop_first())
    }
}

/// The rendered documentation of an item; empty without documentation.
pub open spec fn docs_spec(item: Item) -> Seq<char> {
    match item.docs {
        Option::None => Seq::empty(),
        Option::Some(d) => doc_lines_spec(lines_spec(d@)),
    }
}

/// Format documentation comments as triple-slash lines.
pub fn docs(item: &Item) -> (r: String)
    ensures
        r@ == docs_spec(*item),
{
    let mut out = String::new();
    match &item.docs {
        Option::None => {},
        Option::Some(d) => {
            let ls = lines(d);
            let ghost lv = crate::text::views(ls@);
            let mut i: usize = 0;
            proof {
                assert(lv.subrange(0, lv.len() as int) =~= lv);
                assert(lv.subrange(lv.len() as int, lv.len() as int) =~= Seq::<Seq<char>>::empty());
            }
            while i < ls.len()
                invariant
                    i <= ls@.len(),
                    lv == crate::text::views(ls@),
                    out@ + doc_lines_spec(lv.subrange(i as int, lv.len() as int)) == doc_lines_spec(
                        lv,
                    ),
                decreases ls.len() - i,
            {
                let ghost pre = out@;
                proof {
                    assert(lv.subrange(i as int, lv.len() as int).drop_first() =~= lv.subrange(
                        i + 1,
                        lv.len() as int,
                    ));
                    assert(lv.subrange(i as int, lv.len() as int)[0] == lv[i as int]);
                }
                push_str(&mut out, "/// ");
                push_str(&mut out, string_of(&ls[i]).as_str());
                push_str(&mut out, "\n");
                proof {
                    assert(out@ =~= pre + ("/// "@ + lv[i as int] + "\n"@));
                    assert(out@ + doc_lines_spec(lv.subrange(i + 1, lv.len() as int)) =~= pre
                        + doc_lines_spec(lv.subrange(i as int, lv.len() as int)));
                }
                i = i + 1;
            }
            proof {
                assert(out@ + doc_lines_spec(Seq::empty()) =~= out@);
            }
        },
    }
    out
}

/// The visibility keyword of an item; empty unless public.
pub open spec fn render_vis_spec(item: Item) -> Seq<char> {
    if item.visibility is Public {
        "pub "@
    } else {
        Seq::empty()
    }
}

/// Render the visibility modifier for an item if it is public.
pub fn render_vis(item: &Item) -> (r: String)
    ensures
        r@ == render_vis_spec(*item),
{
    match item.visibility {
        Visibility::Public => lit("pub "),
        Visibility::Other => String::new(),
    }
}

/// The rendered name of an item: a placeholder when nameless, escaped when
/// it collides with a reserved word.
pub open spec fn render_name_spec(item: Item) -> Seq<char> {
    match item.name {
        Option::None => "?"@,
        Option::Some(n) => escape_name_spec(n@),
    }
}

/// Render an item name, escaping reserved words when necessary.
pub fn render_name(item: &Item) -> (r: String)
    ensures
        r@ == render_name_spec(*item),
{
    match &item.name {
        Option::None => lit("?"),
        Option::Some(n) => escape_name(n),
    }
}

/// The function qualifiers present in a header, joined with spaces, in the
/// fixed order const, async, unsafe.
pub open spec fn qualifiers_spec(h: FunctionHeader) -> Seq<char> {
    let words = (if h.is_const {
        seq!["const"@]
    } else {
        Seq::empty()
    }) + (if h.is_async {
        seq!["async"@]
    } else {
        Seq::empty()
    }) + (if h.is_unsafe {
        seq!["unsafe"@]
    } else {
        Seq::empty()
    });
    join_spec(words, " "@)
}

/// Render the qualifiers of a function header.
pub fn qualifiers(h: &FunctionHeader) -> (r: String)
    ensures
        r@ == qualifiers_spec(*h),
{
    let mut words: Vec<String> = Vec::new();
    if h.is_const {
        words.push(lit("const"));
    }
    if h.is_async {
        words.push(lit("async"));
    }
    if h.is_unsafe {
        words.push(lit("unsafe"));
    }
    let r = join_strings(&words, " ");
    proof {
        let ws = (if h.is_const {
            seq!["const"@]
        } else {
            Seq::<Seq<char>>::empty()
        }) + (if h.is_async {
            seq!["async"@]
        } else {
            Seq::<Seq<char>>::empty()
        }) + (if h.is_unsafe {
            seq!["unsafe"@]
        } else {
            Seq::<Seq<char>>::empty()
        });
        assert(string_views(words@) =~= ws);
    }
    r
}

/// The rendered form of a function or method: documentation, visibility,
/// qualifiers, the signature, and an elided body — a bare terminator for
/// an abstract trait member.
pub open spec fn render_function_spec(item: Item, is_trait_method: bool) -> Seq<char> {
    match item.inner {
        ItemKind::Function(f) => {
            let head = docs_spec(item) + render_vis_spec(item) + " "@ + qualifiers_spec(f.header)
                + " fn "@ + render_name_spec(item) + render_generics_spec(f.generics) + "("@
                + render_function_args_spec(f.sig) + ")"@ + render_return_type_spec(f.sig)
                + render_where_clause_spec(f.generics);
            if is_trait_method && !f.has_body {
                head + ";\n\n"@
            } else {
                head + " {}\n\n"@
            }
        },
        _ => Seq::empty(),
    }
}

/// Render a function or method signature with an elided body.
pub fn render_function(item: &Item, is_trait_method: bool) -> (r: String)
    ensures
        r@ == render_function_spec(*item, is_trait_method),
{
    match &item.inner {
        ItemKind::Function(f) => {
            let mut out = docs(item);
            push_str(&mut out, render_vis(item).as_str());
            push_str(&mut out, " ");
            push_str(&mut out, qualifiers(&f.header).as_str());
            push_str(&mut out, " fn ");
            push_str(&mut out, render_name(item).as_str());
            push_str(&mut out, render_generics(&f.generics).as_str());
            push_str(&mut out, "(");
            push_str(&mut out, render_function_args(&f.sig).as_str());
            push_str(&mut out, ")");
            push_str(&mut out, render_return_type(&f.sig).as_str());
            push_str(&mut out, render_where_clause(&f.generics).as_str());
            if is_trait_method && !f.has_body {
                push_str(&mut out, ";\n\n");
            } else {
                push_str(&mut out, " {}\n\n");
            }
            out
        },
        _ => String::new(),
    }
}

/// The rendered form of a constant.
pub open spec fn render_constant_spec(item: Item) -> Seq<char> {
    match item.inner {
        ItemKind::Constant { type_, const_ } => {
            docs_spec(item) + render_vis_spec(item) + "const "@ + render_name_spec(item) + ": "@
                + render_type_spec(type_, false) + " = "@ + const_.expr@ + ";\n\n"@
        },
        _ => Seq::empty(),
    }
}

/// Render a constant definition with its value expression.
pub fn render_constant(item: &Item) -> (r: String)
    ensures
        r@ == render_constant_spec(*item),
{
    match &item.inner {
        ItemKind::Constant { type_, const_ } => {
            let mut out = docs(item);
            push_str(&mut out, render_vis(item).as_str());
            push_str(&mut out, "const ");
            push_str(&mut out, render_name(item).as_str());
            push_str(&mut out, ": ");
            push_str(&mut out, render_type_inner(type_, false).as_str());
            push_str(&mut out, " = ");
            push_str(&mut out, string_of(&const_.expr).as_str());
            push_str(&mut out, ";\n\n");
            out
        },
        _ => String::new(),
    }
}

/// The rendered form of a type alias.
pub open spec fn render_type_alias_spec(item: Item) -> Seq<char> {
    match item.inner {
        ItemKind::TypeAlias(ta) => {
            docs_spec(item) + render_vis_spec(item) + "type "@ + render_name_spec(item)
                + render_generics_spec(ta.generics) + render_where_clause_spec(ta.generics) + "= "@
                + render_type_spec(ta.type_, false) + ";\n\n"@
        },
        _ => Seq::empty(),
    }
}

/// Render a type alias with generics, bounds, and visibility.
pub fn render_type_alias(item: &Item) -> (r: String)
    ensures
        r@ == render_type_alias_spec(*item),
{
    match &item.inner {
        ItemKind::TypeAlias(ta) => {
            let mut out = docs(item);
            push_str(&mut out, render_vis(item).as_str());
            push_str(&mut out, "type ");
            push_str(&mut out, render_name(item).as_str());
            push_str(&mut out, render_generics(&ta.generics).as_str());
            push_str(&mut out, render_where_clause(&ta.generics).as_str());
            push_str(&mut out, "= ");
            push_str(&mut out, render_type_inner(&ta.type_, false).as_str());
            push_str(&mut out, ";\n\n");
            out
        },
        _ => String::new(),
    }
}

/// The rendered form of a static: documentation, visibility, mutability,
/// name, type and initial value.
pub open spec fn render_static_spec(item: Item) -> Seq<char> {
    match item.inner {
        ItemKind::Static(st) => {
            docs_spec(item) + render_vis_spec(item) + "static "@ + (if st.is_mutable {
                "mut "@
            } else {
                Seq::empty()
            }) + render_name_spec(item) + ": "@ + render_type_spec(st.type_, false) + " = "@
                + st.expr@ + ";

"@
        },
        _ => Seq::empty(),
    }
}

/// Render a static declaration with its initial value.
pub fn render_static(item: &Item) -> (r: String)
    ensures
        r@ == render_static_spec(*item),
{
    match &item.inner {
        ItemKind::Static(st) => {
            let mut out = docs(item);
            push_str(&mut out, render_vis(item).as_str());
            push_str(&mut out, "static ");
            if st.is_mutable {
                push_str(&mut out, "mut ");
            }
            push_str(&mut out, render_name(item).as_str());
            push_str(&mut out, ": ");
            push_str(&mut out, render_type_inner(&st.type_, false).as_str());
            push_str(&mut out, " = ");
            push_str(&mut out, string_of(&st.expr).as_str());
            push_str(&mut out, ";

");
            proof {
                assert(out@ =~= render_static_spec(*item));
            }
            out
        },
        _ => String::new(),
    }
}

/// The rendered form of an associated type inside an implementation block.
pub open spec fn render_associated_type_spec(item: Item) -> Seq<char> {
    match item.inner {
        ItemKind::AssocType { bounds, type_, .. } => {
            let bounds_part = if bounds@.len() > 0 {
                ": "@ + render_bounds_spec(bounds@)
            } else {
                Seq::empty()
            };
            let default_part = match type_ {
                Option::Some(t) => " = "@ + render_type_spec(t, false),
                Option::None => Seq::empty(),
            };
            "type "@ + render_name_spec(item) + bounds_part + default_part + ";\n"@
        },
        _ => Seq::empty(),
    }
}

/// Render an associated type definition, including defaults and bounds.
pub fn render_associated_type(item: &Item) -> (r: String)
    ensures
        r@ == render_associated_type_spec(*item),
{
    match &item.inner {
        ItemKind::AssocType { bounds, type_, .. } => {
            let mut out = lit("type ");
            push_str(&mut out, render_name(item).as_str());
            if bounds.len() > 0 {
                push_str(&mut out, ": ");
                push_str(&mut out, render_generic_bounds(bounds).as_str());
            }
            match type_ {
                Option::Some(t) => {
                    push_str(&mut out, " = ");
                    push_str(&mut out, render_type_inner(t, false).as_str());
                },
                Option::None => {},
            }
            push_str(&mut out, ";\n");
            proof {
                let bounds_part = if bounds@.len() > 0 {
                    ": "@ + render_bounds_spec(bounds@)
                } else {
                    Seq::<char>::empty()
                };
                let default_part = match item.inner->AssocType_type_ {
                    Option::Some(t) => " = "@ + render_type_spec(t, false),
                    Option::None => Seq::<char>::empty(),
                };
                assert(out@ =~= "type "@ + render_name_spec(*item) + bounds_part + default_part
                    + ";\n"@);
            }
            out
        },
        _ => String::new(),
    }
}

/// The rendered form of a trait member: a method with a body-elision token
/// or bare terminator, an associated constant with its optional default, an
/// associated type with optional bounds, generics and default; anything
/// else renders as nothing.
pub open spec fn render_trait_member_spec(item: Item) -> Seq<char> {
    match item.inner {
        ItemKind::Function(_) => render_function_spec(item, true),
        ItemKind::AssocConst { type_, value } => {
            let default_part = match value {
                Option::Some(v) => " = "@ + v@,
                Option::None => Seq::empty(),
            };
            "const "@ + render_name_spec(item) + ": "@ + render_type_spec(type_, false)
                + default_part + ";\n"@
        },
        ItemKind::AssocType { generics, bounds, type_ } => {
            let bounds_part = if bounds@.len() > 0 {
                ": "@ + render_bounds_spec(bounds@)
            } else {
                Seq::empty()
            };
            let default_part = match type_ {
                Option::Some(t) => " = "@ + render_type_spec(t, false),
                Option::None => Seq::empty(),
            };
            "type "@ + render_name_spec(item) + render_generics_spec(generics) + bounds_part
                + default_part + ";\n"@
        },
        _ => Seq::empty(),
    }
}

/// Render an item contained within a trait declaration.
pub fn render_trait_member(item: &Item) -> (r: String)
    ensures
        r@ == render_trait_member_spec(*item),
{
    match &item.inner {
        ItemKind::Function(_) => render_function(item, true),
        ItemKind::AssocConst { type_, value } => {
            let mut out = lit("const ");
            push_str(&mut out, render_name(item).as_str());
            push_str(&mut out, ": ");
            push_str(&mut out, render_type_inner(type_, false).as_str());
            match value {
                Option::Some(v) => {
                    push_str(&mut out, " = ");
                    push_str(&mut out, string_of(v).as_str());
                },
                Option::None => {},
            }
            push_str(&mut out, ";\n");
            proof {
                let default_part = match item.inner->AssocConst_value {
                    Option::Some(v) => " = "@ + v@,
                    Option::None => Seq::<char>::empty(),
                };
                assert(out@ =~= "const "@ + render_name_spec(*item) + ": "@ + render_type_spec(
                    item.inner->AssocConst_type_,
                    false,
                ) + default_part + ";\n"@);
            }
            out
        },
        ItemKind::AssocType { generics, bounds, type_ } => {
            let mut out = lit("type ");
            push_str(&mut out, render_name(item).as_str());
            push_str(&mut out, render_generics(generics).as_str());
            if bounds.len() > 0 {
                push_str(&mut out, ": ");
                push_str(&mut out, render_generic_bounds(bounds).as_str());
            }
            match type_ {
                Option::Some(t) => {
                    push_str(&mut out, " = ");
                    push_str(&mut out, render_type_inner(t, false).as_str());
                },
                Option::None => {},
            }
            push_str(&mut out, ";\n");
            proof {
                let bounds_part = if bounds@.len() > 0 {
                    ": "@ + render_bounds_spec(bounds@)
                } else {
                    Seq::<char>::empty()
                };
                let default_part = match item.inner->AssocType_type_ {
                    Option::Some(t) => " = "@ + render_type_spec(t, false),
                    Option::None => Seq::<char>::empty(),
                };
                assert(out@ =~= "type "@ + render_name_spec(*item) + render_generics_spec(
                    item.inner->AssocType_generics,
                ) + bounds_part + default_part + ";\n"@);
            }
            out
        },
        _ => String::new(),
    }
}

} // verus!
