//! Compact, declaration-only signatures for items: the one-line form shown
//! in search results and matched by the signature search domain.

use vstd::prelude::*;

verus! {

use crate::items::{
    qualifiers,
    qualifiers_spec,
    render_name,
    render_name_spec,
    render_vis,
    render_vis_spec,
};
use crate::model::{Item, ItemKind};
use crate::syntax::{
    lit,
    render_bounds_spec,
    render_function_args,
    render_function_args_spec,
    render_generic_bounds,
    render_generics,
    render_generics_spec,
    render_return_type,
    render_return_type_spec,
    render_type_inner,
    render_type_spec,
    render_where_clause,
    render_where_clause_spec,
};
use crate::text::{chars_of, push_str, string_of, trim, trim_spec};

/// The one-line signature of a function: visibility, qualifiers, name,
/// generics, parameters, return type and constraints, surrounding
/// whitespace dropped.
pub open spec fn function_signature_spec(item: Item) -> Seq<char> {
    match item.inner {
        ItemKind::Function(f) => {
            let vis_part = if item.visibility is Public {
                "pub "@
            } else {
                Seq::<char>::empty()
            };
            let quals = qualifiers_spec(f.header);
            let head = (if item.visibility is Public {
                "pub"@ + (if quals.len() > 0 {
                    " "@ + quals
                } else {
                    Seq::<char>::empty()
                })
            } else {
                quals
            });
            let lead = if head.len() > 0 {
                head + " fn"@
            } else {
                "fn"@
            };
            lead + " "@ + render_name_spec(item) + render_generics_spec(f.generics) + "("@
                + render_function_args_spec(f.sig) + ")"@ + render_return_type_spec(f.sig)
                + render_where_clause_spec(f.generics)
        },
        _ => Seq::empty(),
    }
}

/// Render a function signature without body or documentation.
pub fn function_signature(item: &Item) -> (r: String)
    ensures
        r@ == function_signature_spec(*item),
{
    match &item.inner {
        ItemKind::Function(f) => {
            let quals = qualifiers(&f.header);
            let mut out = String::new();
            match item.visibility {
                crate::model::Visibility::Public => {
                    push_str(&mut out, "pub");
                    if !quals.as_str().is_empty() {
                        push_str(&mut out, " ");
                        push_str(&mut out, quals.as_str());
                    }
                },
                crate::model::Visibility::Other => {
                    push_str(&mut out, quals.as_str());
                },
            }
            if !out.as_str().is_empty() {
                push_str(&mut out, " fn");
            } else {
                push_str(&mut out, "fn");
            }
            push_str(&mut out, " ");
            push_str(&mut out, render_name(item).as_str());
            push_str(&mut out, render_generics(&f.generics).as_str());
            push_str(&mut out, "(");
            push_str(&mut out, render_function_args(&f.sig).as_str());
            push_str(&mut out, ")");
            push_str(&mut out, render_return_type(&f.sig).as_str());
            push_str(&mut out, render_where_clause(&f.generics).as_str());
            proof {
                assert(out@ =~= function_signature_spec(*item));
            }
            out
        },
        _ => String::new(),
    }
}

/// The one-line signature of a type declaration with the given keyword.
pub open spec fn type_decl_signature_spec(item: Item, keyword: Seq<char>, generics_part: Seq<char>, where_part: Seq<char>) -> Seq<
    char,
> {
    trim_spec(render_vis_spec(item) + keyword + render_name_spec(item) + generics_part + where_part)
}

/// Render a struct-like, enum-like, union or trait-alias head.
fn type_decl_signature(item: &Item, keyword: &str, generics_part: &str, where_part: &str) -> (r:
    String)
    ensures
        r@ == type_decl_signature_spec(*item, keyword@, generics_part@, where_part@),
{
    let mut out = render_vis(item);
    push_str(&mut out, keyword);
    push_str(&mut out, render_name(item).as_str());
    push_str(&mut out, generics_part);
    push_str(&mut out, where_part);
    let cs = chars_of(out.as_str());
    let t = trim(&cs);
    string_of(&t)
}

/// The one-line signature of one item, by kind: the declaration head only.
pub open spec fn signature_spec(item: Item) -> Seq<char> {
    match item.inner {
        ItemKind::Function(_) => function_signature_spec(item),
        ItemKind::Struct(s) => type_decl_signature_spec(
            item,
            "struct "@,
            render_generics_spec(s.generics),
            render_where_clause_spec(s.generics),
        ),
        ItemKind::Enum(e) => type_decl_signature_spec(
            item,
            "enum "@,
            render_generics_spec(e.generics),
            render_where_clause_spec(e.generics),
        ),
        ItemKind::Trait(t) => {
            let bounds_part = if t.bounds@.len() > 0 {
                ": "@ + render_bounds_spec(t.bounds@)
            } else {
                Seq::<char>::empty()
            };
            trim_spec(
                render_vis_spec(item) + (if t.is_unsafe {
                    "unsafe "@
                } else {
                    Seq::<char>::empty()
                }) + "trait "@ + render_name_spec(item) + render_generics_spec(t.generics)
                    + bounds_part + render_where_clause_spec(t.generics),
            )
        },
        ItemKind::TraitAlias(a) => {
            let bounds = render_bounds_spec(a.params@);
            trim_spec(
                render_vis_spec(item) + "trait "@ + render_name_spec(item) + render_generics_spec(
                    a.generics,
                ) + (if bounds.len() > 0 {
                    " = "@ + bounds
                } else {
                    Seq::<char>::empty()
                }) + render_where_clause_spec(a.generics),
            )
        },
        ItemKind::TypeAlias(ta) => trim_spec(
            render_vis_spec(item) + "type "@ + render_name_spec(item) + render_generics_spec(
                ta.generics,
            ) + render_where_clause_spec(ta.generics) + " = "@ + render_type_spec(
                ta.type_,
                false,
            ),
        ),
        ItemKind::Constant { type_, .. } => trim_spec(
            render_vis_spec(item) + "const "@ + render_name_spec(item) + ": "@ + render_type_spec(
                type_,
                false,
            ),
        ),
        ItemKind::Static(st) => trim_spec(
            render_vis_spec(item) + "static "@ + render_name_spec(item) + ": "@ + render_type_spec(
                st.type_,
                false,
            ),
        ),
        ItemKind::AssocConst { type_, .. } => "const "@ + render_name_spec(item) + ": "@
            + render_type_spec(type_, false),
        ItemKind::AssocType { bounds, type_, .. } => {
            match type_ {
                Option::Some(t) => "type "@ + render_name_spec(item) + " = "@ + render_type_spec(
                    t,
                    false,
                ),
                Option::None => {
                    if bounds@.len() > 0 {
                        "type "@ + render_name_spec(item) + ": "@ + render_bounds_spec(bounds@)
                    } else {
                        "type "@ + render_name_spec(item)
                    }
                },
            }
        },
        ItemKind::Union(u) => type_decl_signature_spec(
            item,
            "union "@,
            render_generics_spec(u.generics),
            render_where_clause_spec(u.generics),
        ),
        ItemKind::Macro(_) => "macro "@ + render_name_spec(item),
        ItemKind::ProcMacro(pm) => (match pm.kind {
            crate::model::MacroKind::Derive => "#[proc_macro_derive] "@,
            crate::model::MacroKind::Attr => "#[proc_macro_attribute] "@,
            crate::model::MacroKind::Bang => "#[proc_macro] "@,
        }) + render_name_spec(item),
        ItemKind::Module(_) => trim_spec(render_vis_spec(item) + "mod "@ + render_name_spec(item)),
        ItemKind::Primitive => "primitive "@ + render_name_spec(item),
        ItemKind::StructField(t) => {
            let vis = render_vis_spec(item);
            let vis_part = if vis.len() > 0 {
                trim_spec(vis) + " "@
            } else {
                Seq::<char>::empty()
            };
            let name_part = match item.name {
                Option::Some(_) => render_name_spec(item) + ": "@,
                Option::None => Seq::<char>::empty(),
            };
            vis_part + name_part + render_type_spec(t, false)
        },
        ItemKind::Variant(_) => render_name_spec(item),
        ItemKind::Use(u) => {
            trim_spec(
                render_vis_spec(item) + "use "@ + u.source@ + (if u.name@ != crate::render::last_segment(
                    u.source@,
                ) {
                    " as "@ + u.name@
                } else {
                    Seq::<char>::empty()
                }) + (if u.is_glob {
                    "::*"@
                } else {
                    Seq::<char>::empty()
                }),
            )
        },
        ItemKind::Impl(im) => "impl "@ + render_type_spec(im.for_, false),
    }
}

/// Render the one-line signature of an item.
pub fn signature_of(item: &Item) -> (r: String)
    ensures
        r@ == signature_spec(*item),
{
    match &item.inner {
        ItemKind::Function(_) => function_signature(item),
        ItemKind::Struct(s) => type_decl_signature(
            item,
            "struct ",
            render_generics(&s.generics).as_str(),
            render_where_clause(&s.generics).as_str(),
        ),
        ItemKind::Enum(e) => type_decl_signature(
            item,
            "enum ",
            render_generics(&e.generics).as_str(),
            render_where_clause(&e.generics).as_str(),
        ),
        ItemKind::Trait(t) => {
            let mut out = render_vis(item);
            if t.is_unsafe {
                push_str(&mut out, "unsafe ");
            }
            push_str(&mut out, "trait ");
            push_str(&mut out, render_name(item).as_str());
            push_str(&mut out, render_generics(&t.generics).as_str());
            if t.bounds.len() > 0 {
                push_str(&mut out, ": ");
                push_str(&mut out, render_generic_bounds(&t.bounds).as_str());
            }
            push_str(&mut out, render_where_clause(&t.generics).as_str());
            proof {
                let bounds_part = if t.bounds@.len() > 0 {
                    ": "@ + render_bounds_spec(t.bounds@)
                } else {
                    Seq::<char>::empty()
                };
                assert(out@ =~= render_vis_spec(*item) + (if t.is_unsafe {
                    "unsafe "@
                } else {
                    Seq::<char>::empty()
                }) + "trait "@ + render_name_spec(*item) + render_generics_spec(t.generics)
                    + bounds_part + render_where_clause_spec(t.generics));
            }
            let cs = chars_of(out.as_str());
            let tr = trim(&cs);
            string_of(&tr)
        },
        ItemKind::TraitAlias(a) => {
            let mut out = render_vis(item);
            push_str(&mut out, "trait ");
            push_str(&mut out, render_name(item).as_str());
            push_str(&mut out, render_generics(&a.generics).as_str());
            let bounds = render_generic_bounds(&a.params);
            if !bounds.as_str().is_empty() {
                push_str(&mut out, " = ");
                push_str(&mut out, bounds.as_str());
            }
            push_str(&mut out, render_where_clause(&a.generics).as_str());
            let cs = chars_of(out.as_str());
            let tr = trim(&cs);
            proof {
                assert(out@ =~= render_vis_spec(*item) + "trait "@ + render_name_spec(*item)
                    + render_generics_spec(item.inner->TraitAlias_0.generics) + (
                if render_bounds_spec(item.inner->TraitAlias_0.params@).len() > 0 {
                    " = "@ + render_bounds_spec(item.inner->TraitAlias_0.params@)
                } else {
                    Seq::<char>::empty()
                }) + render_where_clause_spec(item.inner->TraitAlias_0.generics));
            }
            string_of(&tr)
        },
        ItemKind::TypeAlias(ta) => {
            let mut out = render_vis(item);
            push_str(&mut out, "type ");
            push_str(&mut out, render_name(item).as_str());
            push_str(&mut out, render_generics(&ta.generics).as_str());
            push_str(&mut out, render_where_clause(&ta.generics).as_str());
            push_str(&mut out, " = ");
            push_str(&mut out, render_type_inner(&ta.type_, false).as_str());
            proof {
                assert(out@ =~= render_vis_spec(*item) + "type "@ + render_name_spec(*item)
                    + render_generics_spec(ta.generics) + render_where_clause_spec(ta.generics)
                    + " = "@ + render_type_spec(ta.type_, false));
            }
            let cs = chars_of(out.as_str());
            let tr = trim(&cs);
            string_of(&tr)
        },
        ItemKind::Constant { type_, .. } => {
            let mut out = render_vis(item);
            push_str(&mut out, "const ");
            push_str(&mut out, render_name(item).as_str());
            push_str(&mut out, ": ");
            push_str(&mut out, render_type_inner(type_, false).as_str());
            proof {
                assert(out@ =~= render_vis_spec(*item) + "const "@ + render_name_spec(*item)
                    + ": "@ + render_type_spec(item.inner->Constant_type_, false));
            }
            let cs = chars_of(out.as_str());
            let tr = trim(&cs);
            string_of(&tr)
        },
        ItemKind::Static(st) => {
            let mut out = render_vis(item);
            push_str(&mut out, "static ");
            push_str(&mut out, render_name(item).as_str());
            push_str(&mut out, ": ");
            push_str(&mut out, render_type_inner(&st.type_, false).as_str());
            proof {
                assert(out@ =~= render_vis_spec(*item) + "static "@ + render_name_spec(*item)
                    + ": "@ + render_type_spec(st.type_, false));
            }
            let cs = chars_of(out.as_str());
            let tr = trim(&cs);
            string_of(&tr)
        },
        ItemKind::AssocConst { type_, .. } => {
            let mut out = lit("const ");
            push_str(&mut out, render_name(item).as_str());
            push_str(&mut out, ": ");
            push_str(&mut out, render_type_inner(type_, false).as_str());
            proof {
                assert(out@ =~= signature_spec(*item));
            }
            out
        },
        ItemKind::AssocType { bounds, type_, .. } => {
            let mut out = lit("type ");
            push_str(&mut out, render_name(item).as_str());
            match type_ {
                Option::Some(t) => {
                    push_str(&mut out, " = ");
                    push_str(&mut out, render_type_inner(t, false).as_str());
                },
                Option::None => {
                    if bounds.len() > 0 {
                        push_str(&mut out, ": ");
                        push_str(&mut out, render_generic_bounds(bounds).as_str());
                    }
                },
            }
            proof {
                assert(out@ =~= signature_spec(*item));
            }
            out
        },
        ItemKind::Union(u) => type_decl_signature(
            item,
            "union ",
            render_generics(&u.generics).as_str(),
            render_where_clause(&u.generics).as_str(),
        ),
        ItemKind::Macro(_) => {
            let mut out = lit("macro ");
            push_str(&mut out, render_name(item).as_str());
            proof {
                assert(out@ =~= "macro "@ + render_name_spec(*item));
            }
            out
        },
        ItemKind::ProcMacro(pm) => {
            let mut out = match pm.kind {
                crate::model::MacroKind::Derive => lit("#[proc_macro_derive] "),
                crate::model::MacroKind::Attr => lit("#[proc_macro_attribute] "),
                crate::model::MacroKind::Bang => lit("#[proc_macro] "),
            };
            push_str(&mut out, render_name(item).as_str());
            proof {
                assert(out@ =~= signature_spec(*item));
            }
            out
        },
        ItemKind::Module(_) => {
            let mut out = render_vis(item);
            push_str(&mut out, "mod ");
            push_str(&mut out, render_name(item).as_str());
            proof {
                assert(out@ =~= render_vis_spec(*item) + "mod "@ + render_name_spec(*item));
            }
            let cs = chars_of(out.as_str());
            let tr = trim(&cs);
            string_of(&tr)
        },
        ItemKind::Primitive => {
            let mut out = lit("primitive ");
            push_str(&mut out, render_name(item).as_str());
            proof {
                assert(out@ =~= "primitive "@ + render_name_spec(*item));
            }
            out
        },
        ItemKind::StructField(t) => {
            let mut out = String::new();
            let vis = render_vis(item);
            if !vis.as_str().is_empty() {
                let vcs = chars_of(vis.as_str());
                let vtr = trim(&vcs);
                push_str(&mut out, string_of(&vtr).as_str());
                push_str(&mut out, " ");
            }
            match &item.name {
                Option::Some(_) => {
                    push_str(&mut out, render_name(item).as_str());
                    push_str(&mut out, ": ");
                },
                Option::None => {},
            }
            push_str(&mut out, render_type_inner(t, false).as_str());
            proof {
                assert(out@ =~= signature_spec(*item));
            }
            out
        },
        ItemKind::Variant(_) => {
            let rr = render_name(item);
            proof {
                assert(rr@ == signature_spec(*item));
            }
            rr
        },
        ItemKind::Use(u) => {
            let mut out = render_vis(item);
            push_str(&mut out, "use ");
            push_str(&mut out, string_of(&u.source).as_str());
            let last = crate::text::string_of(&u.source);
            let last_cs = chars_of(last.as_str());
            proof {
                reveal_strlit("::");
                crate::text::lemma_split_len(u.source@, "::"@);
            }
            let parts = crate::text::split_str(&last_cs, "::");
            let tail = &parts[parts.len() - 1];
            proof {
                assert(tail@ == crate::text::views(parts@).last());
            }
            if !crate::text::eq_chars(&u.name, tail) {
                push_str(&mut out, " as ");
                push_str(&mut out, string_of(&u.name).as_str());
            }
            if u.is_glob {
                push_str(&mut out, "::*");
            }
            let cs = chars_of(out.as_str());
            let tr = trim(&cs);
            proof {
                assert(out@ =~= render_vis_spec(*item) + "use "@ + u.source@ + (
                if u.name@ != crate::render::last_segment(u.source@) {
                    " as "@ + u.name@
                } else {
                    Seq::<char>::empty()
                }) + (if u.is_glob {
                    "::*"@
                } else {
                    Seq::<char>::empty()
                }));
            }
            string_of(&tr)
        },
        ItemKind::Impl(im) => {
            let mut out = lit("impl ");
            push_str(&mut out, render_type_inner(&im.for_, false).as_str());
            proof {
                assert(out@ =~= "impl "@ + render_type_spec(im.for_, false));
            }
            out
        },
    }
}

} // verus!
