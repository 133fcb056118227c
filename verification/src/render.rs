//! The selection-aware render engine: the depth-first walk over the item
//! graph that decides, for every item, whether to emit it, in what shape,
//! and with which children, under the visibility policy, the path filter,
//! and the optional query selection.
//!
//! The spec functions in this module define the emitted text exactly; every
//! executable renderer returns the text its spec gives. A second family of
//! spec functions (`hit_*`) defines whether the walk ever classifies an
//! item as the filter's exact target, which decides the filter-not-matched
//! error.

use vstd::prelude::*;

verus! {

use crate::config::{Renderer, RenderSelection};
use crate::error::RipdocError;
use crate::graph::{children_of, ItemGraph, strong_children, weak_children};
use crate::items::{
    docs_spec,
    render_constant_spec,
    render_function_spec,
    render_name_spec,
    render_trait_member_spec,
    render_type_alias_spec,
    render_vis_spec,
};
use crate::items::render_associated_type_spec;
use crate::keywords::escape_name_spec;
use crate::macros::{render_macro_spec, render_proc_macro_spec};
use crate::model::{Id, Impl, Item, ItemKind, StructKind, Type, VariantKind};
use crate::paths::{escape_path_spec, ppush_spec};
use crate::state::{filter_hit_spec, should_filter_spec, should_module_doc_spec};
use crate::syntax::{
    render_bounds_spec,
    render_generics_spec,
    render_path_spec,
    render_type_spec,
    render_where_clause_spec,
};
use crate::items::{docs, render_name, render_vis};
use crate::text::{eq_str, join_spec, lines_spec, push_str, split_spec, string_views};

/// Whether an item passes the visibility gate.
pub open spec fn is_visible_spec(cfg: Renderer, item: Item) -> bool {
    cfg.render_private_items || item.visibility is Public
}

/// A module documentation block: each line as an inner line comment.
pub open spec fn module_doc_lines_spec(ls: Seq<Seq<char>>) -> Seq<char>
    decreases ls.len(),
{
    if ls.len() == 0 {
        Seq::empty()
    } else {
        "    //! "@ + ls[0] + "\n"@ + module_doc_lines_spec(ls.drop_first())
    }
}

/// The last segment of a path string.
pub open spec fn last_segment(s: Seq<char>) -> Seq<char> {
    split_spec(s, "::"@).last()
}

/// The fixed allow-list of annotation-synthesizable traits: an explicit
/// implementation of one of these renders as a derive-style annotation on
/// the type instead of an explicit block.
pub open spec fn is_derive_name(s: Seq<char>) -> bool {
    ||| s == "Clone"@
    ||| s == "Copy"@
    ||| s == "Debug"@
    ||| s == "Default"@
    ||| s == "Display"@
    ||| s == "Eq"@
    ||| s == "Error"@
    ||| s == "FromStr"@
    ||| s == "Hash"@
    ||| s == "Ord"@
    ||| s == "PartialEq"@
    ||| s == "PartialOrd"@
    ||| s == "Send"@
    ||| s == "StructuralPartialEq"@
    ||| s == "Sync"@
    ||| s == "Serialize"@
    ||| s == "Deserialize"@
}

/// Trait names rendered as a derive-style annotation for an
/// implementation list: the last path segment of every explicit (not
/// compiler-synthesized) implementation of an allow-listed trait, in order.
pub open spec fn inline_traits_spec(g: ItemGraph, impls: Seq<Id>) -> Seq<Seq<char>>
    decreases impls.len(),
{
    if impls.len() == 0 {
        Seq::empty()
    } else {
        let rest = inline_traits_spec(g, impls.drop_first());
        if g.contains(impls[0]) && g.at(impls[0]).inner is Impl {
            let im = g.at(impls[0]).inner->Impl_0;
            if !im.is_synthetic && (match im.trait_ {
                Option::Some(tr) => is_derive_name(last_segment(tr.path@)),
                Option::None => false,
            }) {
                seq![last_segment(im.trait_->0.path@)] + rest
            } else {
                rest
            }
        } else {
            rest
        }
    }
}

/// Whether an implementation block renders as an explicit block at all:
/// compiler-synthesized blocks only under the auto-implementation policy,
/// never a trait on the annotation allow-list (keyed, like the annotation
/// itself, on the trait's name — the last path segment), never a blanket
/// implementation.
pub open spec fn should_render_impl_spec(im: Impl, render_auto_impls: bool) -> bool {
    &&& !(im.is_synthetic && !render_auto_impls)
    &&& (match im.trait_ {
        Option::Some(tr) => !is_derive_name(last_segment(tr.path@)),
        Option::None => true,
    })
    &&& im.blanket_impl is None
}

/// The selection view at a container: whether a selection is active, and
/// whether this container expands all of its children.
pub open spec fn sel_active(cfg: Renderer) -> bool {
    cfg.selection is Some
}

/// Expansion at a container, with the given stand-in when no selection is
/// active.
pub open spec fn expands_self_spec(cfg: Renderer, id: Id, when_inactive: bool) -> bool {
    if sel_active(cfg) {
        cfg.sel_expands(id)
    } else {
        when_inactive
    }
}

/// Child inclusion under a container.
pub open spec fn includes_child_spec(cfg: Renderer, id: Id, when_inactive: bool, child: Id) -> bool {
    !sel_active(cfg) || expands_self_spec(cfg, id, when_inactive) || cfg.sel_context_contains(child)
}

/// The rendered form of one field of a named-field body: omitted when the
/// selection excludes it or the visibility gate fails, else documentation,
/// visibility, name and type.
pub open spec fn render_field_spec(cfg: Renderer, g: ItemGraph, field_id: Id, force: bool) -> Seq<
    char,
> {
    if !g.contains(field_id) {
        Seq::empty()
    } else {
        let field = g.at(field_id);
        if sel_active(cfg) && !force && !cfg.sel_context_contains(field_id) {
            Seq::empty()
        } else if !(force || is_visible_spec(cfg, field)) {
            Seq::empty()
        } else {
            match field.inner {
                ItemKind::StructField(t) => {
                    docs_spec(field) + render_vis_spec(field) + render_name_spec(field) + ": "@
                        + render_type_spec(t, false) + ",\n"@
                },
                _ => Seq::empty(),
            }
        }
    }
}

/// The rendered fields of a named-field body, concatenated.
pub open spec fn plain_fields_spec(cfg: Renderer, g: ItemGraph, fields: Seq<Id>, force: bool) -> Seq<
    char,
>
    decreases fields.len(),
{
    if fields.len() == 0 {
        Seq::empty()
    } else {
        render_field_spec(cfg, g, fields[0], force) + plain_fields_spec(
            cfg,
            g,
            fields.drop_first(),
            force,
        )
    }
}

/// The rendered pieces of a positional field list: a stripped field keeps
/// no position here (it was already absent from the input), a field the
/// selection excludes is omitted, a non-visible field renders as an opaque
/// placeholder occupying its position, and a visible field renders with
/// its visibility and type.
pub open spec fn tuple_fields_spec(cfg: Renderer, g: ItemGraph, fields: Seq<Option<Id>>, owner: Id) -> Seq<
    Seq<char>,
>
    decreases fields.len(),
{
    if fields.len() == 0 {
        Seq::empty()
    } else {
        let rest = tuple_fields_spec(cfg, g, fields.drop_first(), owner);
        match fields[0] {
            Option::None => rest,
            Option::Some(fid) => {
                if !includes_child_spec(cfg, owner, false, fid) {
                    rest
                } else if !g.contains(fid) {
                    rest
                } else {
                    let field = g.at(fid);
                    if !is_visible_spec(cfg, field) {
                        seq!["_"@] + rest
                    } else {
                        match field.inner {
                            ItemKind::StructField(t) => seq![
                                render_vis_spec(field) + render_type_spec(t, false),
                            ] + rest,
                            _ => rest,
                        }
                    }
                }
            },
        }
    }
}

/// The rendered pieces of a variant's positional field list: gated by the
/// selection unless all fields are included, each piece the field's type.
pub open spec fn variant_tuple_fields_spec(
    cfg: Renderer,
    g: ItemGraph,
    fields: Seq<Option<Id>>,
    include_all: bool,
) -> Seq<Seq<char>>
    decreases fields.len(),
{
    if fields.len() == 0 {
        Seq::empty()
    } else {
        let rest = variant_tuple_fields_spec(cfg, g, fields.drop_first(), include_all);
        match fields[0] {
            Option::None => rest,
            Option::Some(fid) => {
                if sel_active(cfg) && !include_all && !cfg.sel_context_contains(fid) {
                    rest
                } else if !g.contains(fid) {
                    rest
                } else {
                    match g.at(fid).inner {
                        ItemKind::StructField(t) => seq![render_type_spec(t, false)] + rest,
                        _ => rest,
                    }
                }
            },
        }
    }
}

/// The rendered named fields of one variant, each gated by the selection.
pub open spec fn variant_plain_fields_spec(
    cfg: Renderer,
    g: ItemGraph,
    fields: Seq<Id>,
    include_all: bool,
) -> Seq<char>
    decreases fields.len(),
{
    if fields.len() == 0 {
        Seq::empty()
    } else {
        let rest = variant_plain_fields_spec(cfg, g, fields.drop_first(), include_all);
        let here = if !sel_active(cfg) || include_all || cfg.sel_context_contains(fields[0]) {
            render_field_spec(cfg, g, fields[0], include_all || !sel_active(cfg))
        } else {
            Seq::empty()
        };
        here + rest
    }
}

/// The rendered form of one enum variant.
pub open spec fn render_variant_spec(
    cfg: Renderer,
    g: ItemGraph,
    variant_id: Id,
    include_all: bool,
) -> Seq<char> {
    if !g.contains(variant_id) {
        Seq::empty()
    } else {
        let item = g.at(variant_id);
        match item.inner {
            ItemKind::Variant(v) => {
                let body = match v.kind {
                    VariantKind::Plain => Seq::empty(),
                    VariantKind::Tuple(fields) => "("@ + join_spec(
                        variant_tuple_fields_spec(cfg, g, fields@, include_all),
                        ", "@,
                    ) + ")"@,
                    VariantKind::Struct { fields, .. } => " {\n"@ + variant_plain_fields_spec(
                        cfg,
                        g,
                        fields@,
                        include_all,
                    ) + "    }"@,
                };
                let disc = match v.discriminant {
                    Option::Some(d) => " = "@ + d.expr@,
                    Option::None => Seq::empty(),
                };
                docs_spec(item) + "    "@ + render_name_spec(item) + body + disc + ",\n"@
            },
            _ => Seq::empty(),
        }
    }
}

/// The rendered variants of an enum, each independently gated by the
/// selection, concatenated.
pub open spec fn enum_variants_spec(cfg: Renderer, g: ItemGraph, variants: Seq<Id>, owner: Id) -> Seq<
    char,
>
    decreases variants.len(),
{
    if variants.len() == 0 {
        Seq::empty()
    } else {
        let rest = enum_variants_spec(cfg, g, variants.drop_first(), owner);
        let vid = variants[0];
        let expands = expands_self_spec(cfg, owner, true);
        let should = !sel_active(cfg) || expands || includes_child_spec(cfg, owner, true, vid);
        let here = if should {
            let include_all = expands || !sel_active(cfg) || cfg.sel_matches(vid);
            render_variant_spec(cfg, g, vid, include_all)
        } else {
            Seq::empty()
        };
        here + rest
    }
}

/// The rendered form of one member of an implementation block: gated by
/// the selection and the path filter, then a single-fragment renderer.
pub open spec fn render_impl_member_spec(
    cfg: Renderer,
    g: ItemGraph,
    root: Id,
    prefix: Seq<char>,
    member: Id,
    include_all: bool,
) -> Seq<char> {
    if !g.contains(member) {
        Seq::empty()
    } else {
        let item = g.at(member);
        if !include_all && !cfg.sel_context_contains(member) {
            Seq::empty()
        } else if should_filter_spec(cfg, root, prefix, item) {
            Seq::empty()
        } else {
            match item.inner {
                ItemKind::Function(_) => render_function_spec(item, false),
                ItemKind::Constant { .. } => render_constant_spec(item),
                ItemKind::AssocType { .. } => render_associated_type_spec(item),
                ItemKind::TypeAlias(_) => render_type_alias_spec(item),
                _ => Seq::empty(),
            }
        }
    }
}

/// The rendered members of an implementation block, each behind the
/// selection and visibility gates, concatenated.
pub open spec fn impl_members_spec(
    cfg: Renderer,
    g: ItemGraph,
    root: Id,
    prefix: Seq<char>,
    members: Seq<Id>,
    is_trait_impl: bool,
    expand_children: bool,
) -> Seq<char>
    decreases members.len(),
{
    if members.len() == 0 {
        Seq::empty()
    } else {
        let rest = impl_members_spec(
            cfg,
            g,
            root,
            prefix,
            members.drop_first(),
            is_trait_impl,
            expand_children,
        );
        let mid = members[0];
        let here = if g.contains(mid) && (!sel_active(cfg) || expand_children
            || cfg.sel_context_contains(mid)) && (is_trait_impl || is_visible_spec(
            cfg,
            g.at(mid),
        )) {
            render_impl_member_spec(cfg, g, root, prefix, mid, expand_children)
        } else {
            Seq::empty()
        };
        here + rest
    }
}

/// Whether an implementation block expands its members.
pub open spec fn impl_expand_children(cfg: Renderer, im: Impl, impl_id: Id) -> bool {
    let parent_expanded = match im.for_ {
        Type::ResolvedPath(p) => cfg.sel_expands(p.id),
        _ => false,
    };
    !sel_active(cfg) || cfg.sel_expands(impl_id) || parent_expanded
}

/// The rendered form of an implementation block: suppressed entirely when
/// the selection excludes it, when its target trait fails the visibility
/// gate, or when no member survives filtering; otherwise the head plus the
/// surviving members.
pub open spec fn render_impl_spec(
    cfg: Renderer,
    g: ItemGraph,
    root: Id,
    prefix: Seq<char>,
    impl_id: Id,
) -> Seq<char> {
    if !g.contains(impl_id) {
        Seq::empty()
    } else {
        let item = g.at(impl_id);
        match item.inner {
            ItemKind::Impl(im) => {
                if !cfg.sel_context_contains(impl_id) {
                    Seq::empty()
                } else if (match im.trait_ {
                    Option::Some(tr) => g.contains(tr.id) && !is_visible_spec(cfg, g.at(tr.id)),
                    Option::None => false,
                }) {
                    Seq::empty()
                } else {
                    let expand_children = impl_expand_children(cfg, im, impl_id);
                    let where_clause = render_where_clause_spec(im.generics);
                    let trait_part = match im.trait_ {
                        Option::Some(tr) => {
                            let tp = render_path_spec(tr);
                            if tp.len() > 0 {
                                tp + " for "@
                            } else {
                                Seq::empty()
                            }
                        },
                        Option::None => Seq::empty(),
                    };
                    let head = docs_spec(item) + (if im.is_unsafe {
                        "unsafe "@
                    } else {
                        Seq::empty()
                    }) + "impl"@ + render_generics_spec(im.generics) + " "@ + trait_part
                        + render_type_spec(im.for_, false) + (if where_clause.len() > 0 {
                        "\n"@ + where_clause
                    } else {
                        Seq::empty()
                    }) + " {\n"@;
                    let prefix2 = ppush_spec(prefix, render_type_spec(im.for_, false));
                    let members = impl_members_spec(
                        cfg,
                        g,
                        root,
                        prefix2,
                        im.items@,
                        im.trait_ is Some,
                        expand_children,
                    );
                    if members.len() == 0 {
                        Seq::empty()
                    } else {
                        head + members + "}\n\n"@
                    }
                }
            },
            _ => Seq::empty(),
        }
    }
}

/// The rendered implementation blocks of a type, each behind the
/// annotation allow-list, auto-implementation and selection gates.
pub open spec fn type_impls_spec(
    cfg: Renderer,
    g: ItemGraph,
    root: Id,
    prefix: Seq<char>,
    impls: Seq<Id>,
    owner: Id,
) -> Seq<char>
    decreases impls.len(),
{
    if impls.len() == 0 {
        Seq::empty()
    } else {
        let rest = type_impls_spec(cfg, g, root, prefix, impls.drop_first(), owner);
        let iid = impls[0];
        let here = if g.contains(iid) && (g.at(iid).inner matches ItemKind::Impl(im)
            && should_render_impl_spec(im, cfg.render_auto_impls) && cfg.sel_allows_child(
            owner,
            iid,
        )) {
            render_impl_spec(cfg, g, root, prefix, iid)
        } else {
            Seq::empty()
        };
        here + rest
    }
}

/// The derive-style annotation line of a type; empty when no implemented
/// trait is on the allow-list.
pub open spec fn derive_line_spec(g: ItemGraph, impls: Seq<Id>) -> Seq<char> {
    let dts = inline_traits_spec(g, impls);
    if dts.len() > 0 {
        "#[derive("@ + join_spec(dts, ", "@) + ")]\n"@
    } else {
        Seq::empty()
    }
}

/// The rendered form of a struct-like item: documentation, the annotation
/// line, the declaration in unit, positional or named-field shape, then
/// its implementation blocks. A positional body whose pieces all vanish
/// suppresses the whole declaration unless the selection expands the type.
pub open spec fn render_struct_spec(
    cfg: Renderer,
    g: ItemGraph,
    root: Id,
    prefix: Seq<char>,
    id: Id,
) -> Seq<char> {
    let item = g.at(id);
    match item.inner {
        ItemKind::Struct(s) => {
            if !cfg.sel_context_contains(id) {
                Seq::empty()
            } else {
                let generics = render_generics_spec(s.generics);
                let where_clause = render_where_clause_spec(s.generics);
                let head = docs_spec(item) + derive_line_spec(g, s.impls@);
                let decl = match s.kind {
                    StructKind::Unit => render_vis_spec(item) + "struct "@ + render_name_spec(item)
                        + generics + where_clause + ";\n\n"@,
                    StructKind::Tuple(fields) => {
                        let pieces = tuple_fields_spec(cfg, g, fields@, id);
                        let fields_str = join_spec(pieces, ", "@);
                        if expands_self_spec(cfg, id, false) || fields_str.len() > 0 {
                            render_vis_spec(item) + "struct "@ + render_name_spec(item) + generics
                                + "("@ + fields_str + ")"@ + where_clause + ";\n\n"@
                        } else {
                            Seq::empty()
                        }
                    },
                    StructKind::Plain { fields, .. } => {
                        let force = sel_active(cfg) && expands_self_spec(cfg, id, false);
                        render_vis_spec(item) + "struct "@ + render_name_spec(item) + generics
                            + where_clause + " {\n"@ + plain_fields_spec(cfg, g, fields@, force)
                            + "}\n\n"@
                    },
                };
                head + decl + type_impls_spec(cfg, g, root, prefix, s.impls@, id)
            }
        },
        _ => Seq::empty(),
    }
}

/// The rendered form of an enum-like item: documentation, the annotation
/// line, the declaration with its selection-gated variants, then its
/// implementation blocks.
pub open spec fn render_enum_spec(
    cfg: Renderer,
    g: ItemGraph,
    root: Id,
    prefix: Seq<char>,
    id: Id,
) -> Seq<char> {
    let item = g.at(id);
    match item.inner {
        ItemKind::Enum(e) => {
            if !cfg.sel_context_contains(id) {
                Seq::empty()
            } else {
                docs_spec(item) + derive_line_spec(g, e.impls@) + render_vis_spec(item) + "enum "@
                    + render_name_spec(item) + render_generics_spec(e.generics)
                    + render_where_clause_spec(e.generics) + " {\n"@ + enum_variants_spec(
                    cfg,
                    g,
                    e.variants@,
                    id,
                ) + "}\n\n"@ + type_impls_spec(cfg, g, root, prefix, e.impls@, id)
            }
        },
        _ => Seq::empty(),
    }
}

/// The rendered members of a trait declaration, each gated by the
/// selection, concatenated.
pub open spec fn trait_members_spec(cfg: Renderer, g: ItemGraph, members: Seq<Id>, owner: Id) -> Seq<
    char,
>
    decreases members.len(),
{
    if members.len() == 0 {
        Seq::empty()
    } else {
        let rest = trait_members_spec(cfg, g, members.drop_first(), owner);
        let mid = members[0];
        let here = if includes_child_spec(cfg, owner, true, mid) && g.contains(mid) {
            render_trait_member_spec(g.at(mid))
        } else {
            Seq::empty()
        };
        here + rest
    }
}

/// The identifiers in a list that resolve to a visible item, in order.
pub open spec fn visible_children(cfg: Renderer, g: ItemGraph, ids: Seq<Id>) -> Seq<Id>
    decreases ids.len(),
{
    if ids.len() == 0 {
        Seq::empty()
    } else {
        let rest = visible_children(cfg, g, ids.drop_first());
        if g.contains(ids[0]) && is_visible_spec(cfg, g.at(ids[0])) {
            seq![ids[0]] + rest
        } else {
            rest
        }
    }
}

/// Every visible child is one of the original identifiers.
pub proof fn lemma_visible_children_sub(cfg: Renderer, g: ItemGraph, ids: Seq<Id>)
    ensures
        forall|k: int|
            0 <= k < visible_children(cfg, g, ids).len() ==> exists|j: int|
                0 <= j < ids.len() && ids[j] == #[trigger] visible_children(cfg, g, ids)[k],
    decreases ids.len(),
{
    if ids.len() > 0 {
        lemma_visible_children_sub(cfg, g, ids.drop_first());
        assert forall|k: int| 0 <= k < visible_children(cfg, g, ids).len() implies exists|j: int|
            0 <= j < ids.len() && ids[j] == #[trigger] visible_children(cfg, g, ids)[k] by {
            let rest = visible_children(cfg, g, ids.drop_first());
            if g.contains(ids[0]) && is_visible_spec(cfg, g.at(ids[0])) {
                if k == 0 {
                    assert(ids[0] == visible_children(cfg, g, ids)[0]);
                } else {
                    let jj = choose|j: int|
                        0 <= j < ids.drop_first().len() && ids.drop_first()[j] == rest[k - 1];
                    assert(ids[jj + 1] == visible_children(cfg, g, ids)[k]);
                }
            } else {
                let jj = choose|j: int|
                    0 <= j < ids.drop_first().len() && ids.drop_first()[j] == rest[k];
                assert(ids[jj + 1] == visible_children(cfg, g, ids)[k]);
            }
        }
    }
}

/// Ranked-below facts for a child list: any child the graph holds sits
/// strictly below the parent.
pub open spec fn kid_facts(g: ItemGraph, parent: Id, ids: Seq<Id>) -> bool {
    forall|k: int|
        0 <= k < ids.len() && g.contains(#[trigger] ids[k]) ==> g.rank_of(ids[k]) < g.rank_of(
            parent,
        )
}

/// The walk's well-formedness condition at one item.
pub open spec fn item_when(g: ItemGraph, id: Id) -> bool {
    g.wf() && g.contains(id)
}

/// The resolved target of an import, when held, sits strictly below it.
pub open spec fn use_kid_ok(g: ItemGraph, id: Id) -> bool {
    match g.at(id).inner {
        ItemKind::Use(u) => match u.id {
            Option::Some(t) => g.contains(t) ==> g.rank_of(t) < g.rank_of(id),
            Option::None => true,
        },
        _ => true,
    }
}

/// The rendered form of one item: nothing when the selection or the filter
/// gate stops it, else its kind-specific rendering, discarded when the
/// visibility gate fails (unless a re-export forces it visible).
pub open spec fn spec_render_item(
    cfg: Renderer,
    g: ItemGraph,
    root: Id,
    prefix: Seq<char>,
    id: Id,
    force_private: bool,
) -> Seq<char>
    decreases g.rank_of(id), 2int, 0int,
        when item_when(g, id)
{
    let item = g.at(id);
    if !cfg.sel_context_contains(id) {
        Seq::empty()
    } else if should_filter_spec(cfg, root, prefix, item) {
        Seq::empty()
    } else {
        let out = match item.inner {
            ItemKind::Module(_) => spec_render_module(cfg, g, root, prefix, id),
            ItemKind::Struct(_) => render_struct_spec(cfg, g, root, prefix, id),
            ItemKind::Enum(_) => render_enum_spec(cfg, g, root, prefix, id),
            ItemKind::Trait(_) => render_trait_spec(cfg, g, id),
            ItemKind::Use(_) => spec_render_use(cfg, g, root, prefix, id),
            ItemKind::Function(_) => render_function_spec(item, false),
            ItemKind::Constant { .. } => render_constant_spec(item),
            ItemKind::Static(_) => crate::items::render_static_spec(item),
            ItemKind::TypeAlias(_) => render_type_alias_spec(item),
            ItemKind::Macro(_) => render_macro_spec(item),
            ItemKind::ProcMacro(_) => render_proc_macro_spec(item),
            _ => Seq::empty(),
        };
        if !force_private && !is_visible_spec(cfg, item) {
            Seq::empty()
        } else {
            out
        }
    }
}

/// The rendered form of a module: a wrapper construct holding its
/// recursively rendered children, with a leading documentation header only
/// when the module is the filter's exact target or lies at or below it.
pub open spec fn spec_render_module(
    cfg: Renderer,
    g: ItemGraph,
    root: Id,
    prefix: Seq<char>,
    id: Id,
) -> Seq<char>
    decreases g.rank_of(id), 1int, 0int,
        when item_when(g, id)
{
    let item = g.at(id);
    match item.inner {
        ItemKind::Module(m) => {
            let name = render_name_spec(item);
            let prefix2 = ppush_spec(prefix, name);
            let doc_part = if should_module_doc_spec(cfg, prefix2, item) && item.docs is Some {
                module_doc_lines_spec(lines_spec(item.docs->0@)) + "\n"@
            } else {
                Seq::empty()
            };
            render_vis_spec(item) + "mod "@ + name + " {\n"@ + doc_part + spec_module_items(
                cfg,
                g,
                root,
                prefix2,
                m.items@,
                id,
            ) + "}\n\n"@
        },
        _ => Seq::empty(),
    }
}

/// The rendered children of a module, in declared order.
pub open spec fn spec_module_items(
    cfg: Renderer,
    g: ItemGraph,
    root: Id,
    prefix: Seq<char>,
    ids: Seq<Id>,
    parent: Id,
) -> Seq<char>
    decreases g.rank_of(parent), 0int, ids.len(),
        when g.wf() && kid_facts(g, parent, ids)
{
    if ids.len() == 0 {
        Seq::empty()
    } else {
        let here = if g.contains(ids[0]) {
            spec_render_item(cfg, g, root, prefix, ids[0], false)
        } else {
            Seq::empty()
        };
        here + spec_module_items(cfg, g, root, prefix, ids.drop_first(), parent)
    }
}

/// The rendered form of an import. A resolved import re-renders its target
/// in place with visibility forced; a wildcard import recurses into the
/// target's children filtered by their own visibility; an aliased import
/// emits the aliased form; an unresolved one is emitted verbatim.
pub open spec fn spec_render_use(
    cfg: Renderer,
    g: ItemGraph,
    root: Id,
    prefix: Seq<char>,
    id: Id,
) -> Seq<char>
    decreases g.rank_of(id), 1int, 0int,
        when item_when(g, id) && use_kid_ok(g, id)
{
    let item = g.at(id);
    match item.inner {
        ItemKind::Use(u) => {
            if u.is_glob {
                let simple = docs_spec(item) + "pub use "@ + escape_path_spec(u.source@) + "::*;\n"@;
                match u.id {
                    Option::Some(src) => {
                        if g.contains(src) {
                            match g.at(src).inner {
                                ItemKind::Module(m) => spec_use_items(
                                    cfg,
                                    g,
                                    root,
                                    prefix,
                                    visible_children(cfg, g, m.items@),
                                    id,
                                ),
                                ItemKind::Enum(e) => spec_use_items(
                                    cfg,
                                    g,
                                    root,
                                    prefix,
                                    visible_children(cfg, g, e.variants@),
                                    id,
                                ),
                                _ => simple,
                            }
                        } else {
                            simple
                        }
                    },
                    Option::None => simple,
                }
            } else {
                match u.id {
                    Option::Some(t) => {
                        if g.contains(t) {
                            spec_render_item(cfg, g, root, prefix, t, true)
                        } else {
                            spec_use_alias(item, u.source@, u.name@)
                        }
                    },
                    Option::None => spec_use_alias(item, u.source@, u.name@),
                }
            }
        },
        _ => Seq::empty(),
    }
}

/// An import that does not resolve within the graph: emitted aliased when
/// its local name differs from the source's last segment, else verbatim.
pub open spec fn spec_use_alias(item: Item, source: Seq<char>, name: Seq<char>) -> Seq<char> {
    let source_e = escape_path_spec(source);
    if name != last_segment(source) {
        docs_spec(item) + "pub use "@ + source_e + " as "@ + escape_name_spec(name) + ";\n"@
    } else {
        docs_spec(item) + "pub use "@ + source_e + ";\n"@
    }
}

/// The re-rendered targets of an import, each with visibility forced.
pub open spec fn spec_use_items(
    cfg: Renderer,
    g: ItemGraph,
    root: Id,
    prefix: Seq<char>,
    ids: Seq<Id>,
    parent: Id,
) -> Seq<char>
    decreases g.rank_of(parent), 0int, ids.len(),
        when g.wf() && kid_facts(g, parent, ids)
{
    if ids.len() == 0 {
        Seq::empty()
    } else {
        let here = if g.contains(ids[0]) {
            spec_render_item(cfg, g, root, prefix, ids[0], true)
        } else {
            Seq::empty()
        };
        here + spec_use_items(cfg, g, root, prefix, ids.drop_first(), parent)
    }
}

/// Whether the walk classifies some member of an implementation block as
/// the filter's exact target.
pub open spec fn hit_impl_members(
    cfg: Renderer,
    g: ItemGraph,
    root: Id,
    prefix: Seq<char>,
    members: Seq<Id>,
    is_trait_impl: bool,
    expand_children: bool,
) -> bool
    decreases members.len(),
{
    if members.len() == 0 {
        false
    } else {
        let rest = hit_impl_members(
            cfg,
            g,
            root,
            prefix,
            members.drop_first(),
            is_trait_impl,
            expand_children,
        );
        let mid = members[0];
        let here = g.contains(mid) && (!sel_active(cfg) || expand_children
            || cfg.sel_context_contains(mid)) && (is_trait_impl || is_visible_spec(cfg, g.at(mid)))
            && (expand_children || cfg.sel_context_contains(mid)) && filter_hit_spec(
            cfg,
            root,
            prefix,
            g.at(mid),
        );
        here || rest
    }
}

/// Whether the walk through an implementation block hits the filter.
pub open spec fn hit_impl(cfg: Renderer, g: ItemGraph, root: Id, prefix: Seq<char>, impl_id: Id) -> bool {
    if !g.contains(impl_id) {
        false
    } else {
        let item = g.at(impl_id);
        match item.inner {
            ItemKind::Impl(im) => {
                if !cfg.sel_context_contains(impl_id) {
                    false
                } else if (match im.trait_ {
                    Option::Some(tr) => g.contains(tr.id) && !is_visible_spec(cfg, g.at(tr.id)),
                    Option::None => false,
                }) {
                    false
                } else {
                    let prefix2 = ppush_spec(prefix, render_type_spec(im.for_, false));
                    hit_impl_members(
                        cfg,
                        g,
                        root,
                        prefix2,
                        im.items@,
                        im.trait_ is Some,
                        impl_expand_children(cfg, im, impl_id),
                    )
                }
            },
            _ => false,
        }
    }
}

/// Whether the walk through a type's implementation list hits the filter.
pub open spec fn hit_type_impls(
    cfg: Renderer,
    g: ItemGraph,
    root: Id,
    prefix: Seq<char>,
    impls: Seq<Id>,
    owner: Id,
) -> bool
    decreases impls.len(),
{
    if impls.len() == 0 {
        false
    } else {
        let rest = hit_type_impls(cfg, g, root, prefix, impls.drop_first(), owner);
        let iid = impls[0];
        let here = g.contains(iid) && (g.at(iid).inner matches ItemKind::Impl(im)
            && should_render_impl_spec(im, cfg.render_auto_impls) && cfg.sel_allows_child(
            owner,
            iid,
        )) && hit_impl(cfg, g, root, prefix, iid);
        here || rest
    }
}

/// Whether the walk from one item ever classifies an item as the filter's
/// exact target.
pub open spec fn hit_item(cfg: Renderer, g: ItemGraph, root: Id, prefix: Seq<char>, id: Id) -> bool
    decreases g.rank_of(id), 2int, 0int,
        when item_when(g, id)
{
    let item = g.at(id);
    if !cfg.sel_context_contains(id) {
        false
    } else if should_filter_spec(cfg, root, prefix, item) {
        filter_hit_spec(cfg, root, prefix, item)
    } else {
        filter_hit_spec(cfg, root, prefix, item) || (match item.inner {
            ItemKind::Module(m) => hit_module_items(
                cfg,
                g,
                root,
                ppush_spec(prefix, render_name_spec(item)),
                m.items@,
                id,
            ),
            ItemKind::Struct(s) => hit_type_impls(cfg, g, root, prefix, s.impls@, id),
            ItemKind::Enum(e) => hit_type_impls(cfg, g, root, prefix, e.impls@, id),
            ItemKind::Use(_) => hit_use(cfg, g, root, prefix, id),
            _ => false,
        })
    }
}

/// Whether the walk through a module's children hits the filter.
pub open spec fn hit_module_items(
    cfg: Renderer,
    g: ItemGraph,
    root: Id,
    prefix: Seq<char>,
    ids: Seq<Id>,
    parent: Id,
) -> bool
    decreases g.rank_of(parent), 0int, ids.len(),
        when g.wf() && kid_facts(g, parent, ids)
{
    if ids.len() == 0 {
        false
    } else {
        let here = g.contains(ids[0]) && hit_item(cfg, g, root, prefix, ids[0]);
        here || hit_module_items(cfg, g, root, prefix, ids.drop_first(), parent)
    }
}

/// Whether the walk through an import's re-rendered targets hits the
/// filter.
pub open spec fn hit_use(cfg: Renderer, g: ItemGraph, root: Id, prefix: Seq<char>, id: Id) -> bool
    decreases g.rank_of(id), 1int, 0int,
        when item_when(g, id) && use_kid_ok(g, id)
{
    let item = g.at(id);
    match item.inner {
        ItemKind::Use(u) => {
            if u.is_glob {
                match u.id {
                    Option::Some(src) => {
                        if g.contains(src) {
                            match g.at(src).inner {
                                ItemKind::Module(m) => hit_use_items(
                                    cfg,
                                    g,
                                    root,
                                    prefix,
                                    visible_children(cfg, g, m.items@),
                                    id,
                                ),
                                ItemKind::Enum(e) => hit_use_items(
                                    cfg,
                                    g,
                                    root,
                                    prefix,
                                    visible_children(cfg, g, e.variants@),
                                    id,
                                ),
                                _ => false,
                            }
                        } else {
                            false
                        }
                    },
                    Option::None => false,
                }
            } else {
                match u.id {
                    Option::Some(t) => g.contains(t) && hit_item(cfg, g, root, prefix, t),
                    Option::None => false,
                }
            }
        },
        _ => false,
    }
}

/// Whether the walk through an import's target list hits the filter.
pub open spec fn hit_use_items(
    cfg: Renderer,
    g: ItemGraph,
    root: Id,
    prefix: Seq<char>,
    ids: Seq<Id>,
    parent: Id,
) -> bool
    decreases g.rank_of(parent), 0int, ids.len(),
        when g.wf() && kid_facts(g, parent, ids)
{
    if ids.len() == 0 {
        false
    } else {
        let here = g.contains(ids[0]) && hit_item(cfg, g, root, prefix, ids[0]);
        here || hit_use_items(cfg, g, root, prefix, ids.drop_first(), parent)
    }
}

/// The rendered form of a trait declaration: documentation, qualifiers,
/// supertrait bounds, and each member gated by the selection.
pub open spec fn render_trait_spec(cfg: Renderer, g: ItemGraph, id: Id) -> Seq<char> {
    let item = g.at(id);
    match item.inner {
        ItemKind::Trait(t) => {
            if !cfg.sel_context_contains(id) {
                Seq::empty()
            } else {
                let bounds_part = if t.bounds@.len() > 0 {
                    ": "@ + render_bounds_spec(t.bounds@)
                } else {
                    Seq::empty()
                };
                docs_spec(item) + render_vis_spec(item) + (if t.is_unsafe {
                    "unsafe "@
                } else {
                    Seq::empty()
                }) + "trait "@ + render_name_spec(item) + render_generics_spec(t.generics)
                    + bounds_part + render_where_clause_spec(t.generics) + " {\n"@
                    + trait_members_spec(cfg, g, t.items@, id) + "}\n\n"@
            }
        },
        _ => Seq::empty(),
    }
}

/// Decide the visibility gate for an item.
pub fn is_visible(cfg: &Renderer, item: &Item) -> (r: bool)
    ensures
        r == is_visible_spec(*cfg, *item),
{
    cfg.render_private_items || item.visibility.is_public()
}

/// The last segment of a path, executably.
fn last_seg(s: &Vec<char>) -> (r: Vec<char>)
    ensures
        r@ == last_segment(s@),
{
    proof {
        reveal_strlit("::");
        crate::text::lemma_split_len(s@, "::"@);
    }
    let parts = crate::text::split_str(s, "::");
    let r = crate::text::clone_chars(&parts[parts.len() - 1]);
    proof {
        assert(r@ == crate::text::views(parts@).last());
    }
    r
}

/// Test membership in the annotation allow-list.
fn is_derive_name_chars(a: &Vec<char>) -> (r: bool)
    ensures
        r == is_derive_name(a@),
{
    eq_str(a, "Clone") || eq_str(a, "Copy") || eq_str(a, "Debug") || eq_str(a, "Default") || eq_str(
        a,
        "Display",
    ) || eq_str(a, "Eq") || eq_str(a, "Error") || eq_str(a, "FromStr") || eq_str(a, "Hash")
        || eq_str(a, "Ord") || eq_str(a, "PartialEq") || eq_str(a, "PartialOrd") || eq_str(
        a,
        "Send",
    ) || eq_str(a, "StructuralPartialEq") || eq_str(a, "Sync") || eq_str(a, "Serialize") || eq_str(
        a,
        "Deserialize",
    )
}

/// Collect the trait names rendered as a derive-style annotation for the
/// provided implementation list.
pub fn collect_inline_traits(g: &ItemGraph, impls: &Vec<Id>) -> (r: Vec<String>)
    requires
        g.wf(),
    ensures
        crate::text::string_views(r@) == inline_traits_spec(*g, impls@),
{
    let ghost whole = impls@;
    let mut out: Vec<String> = Vec::new();
    let mut i: usize = 0;
    proof {
        assert(whole.subrange(0, whole.len() as int) =~= whole);
        assert(crate::text::string_views(out@) =~= Seq::<Seq<char>>::empty());
        assert(crate::text::string_views(out@) + inline_traits_spec(*g, whole)
            =~= inline_traits_spec(*g, whole));
    }
    while i < impls.len()
        invariant
            i <= whole.len(),
            whole == impls@,
            g.wf(),
            crate::text::string_views(out@) + inline_traits_spec(
                *g,
                whole.subrange(i as int, whole.len() as int),
            ) == inline_traits_spec(*g, whole),
        decreases impls.len() - i,
    {
        let ghost pre = crate::text::string_views(out@);
        proof {
            assert(whole.subrange(i as int, whole.len() as int).drop_first() =~= whole.subrange(
                i + 1,
                whole.len() as int,
            ));
            assert(whole.subrange(i as int, whole.len() as int)[0] == whole[i as int]);
        }
        let mut included = false;
        match g.get(impls[i]) {
            Option::Some(impl_item) => {
                match &impl_item.inner {
                    ItemKind::Impl(im) => {
                        if !im.is_synthetic {
                            match &im.trait_ {
                                Option::Some(tr) => {
                                    let name = last_seg(&tr.path);
                                    if is_derive_name_chars(&name) {
                                        out.push(crate::text::string_of(&name));
                                        included = true;
                                        proof {
                                            assert(crate::text::string_views(out@) =~= pre + seq![
                                                last_segment(tr.path@),
                                            ]);
                                        }
                                    }
                                },
                                Option::None => {},
                            }
                        }
                    },
                    _ => {},
                }
            },
            Option::None => {},
        }
        proof {
            assert(crate::text::string_views(out@) + inline_traits_spec(
                *g,
                whole.subrange(i + 1, whole.len() as int),
            ) =~= pre + inline_traits_spec(*g, whole.subrange(i as int, whole.len() as int)));
        }
        i = i + 1;
    }
    proof {
        assert(whole.subrange(whole.len() as int, whole.len() as int) =~= Seq::<Id>::empty());
        assert(crate::text::string_views(out@) + inline_traits_spec(*g, Seq::empty())
            =~= crate::text::string_views(out@));
    }
    out
}

/// Determine whether an implementation block should be rendered as an
/// explicit block in the output.
pub fn should_render_impl(im: &Impl, render_auto_impls: bool) -> (r: bool)
    ensures
        r == should_render_impl_spec(*im, render_auto_impls),
{
    if im.is_synthetic && !render_auto_impls {
        return false;
    }
    match &im.trait_ {
        Option::Some(tr) => {
            let name = last_seg(&tr.path);
            if is_derive_name_chars(&name) {
                return false;
            }
        },
        Option::None => {},
    }
    match &im.blanket_impl {
        Option::Some(_) => false,
        Option::None => true,
    }
}

/// Render a struct field, optionally forcing visibility.
pub fn render_struct_field(cfg: &Renderer, g: &ItemGraph, field_id: Id, force: bool) -> (r: String)
    requires
        g.wf(),
    ensures
        r@ == render_field_spec(*cfg, *g, field_id, force),
{
    match g.get(field_id) {
        Option::None => String::new(),
        Option::Some(field) => {
            let active = match &cfg.selection {
                Option::Some(_) => true,
                Option::None => false,
            };
            if active && !force && !cfg.selection_context_contains(field_id) {
                return String::new();
            }
            if !(force || is_visible(cfg, field)) {
                return String::new();
            }
            match &field.inner {
                ItemKind::StructField(t) => {
                    let mut out = docs(field);
                    push_str(&mut out, render_vis(field).as_str());
                    push_str(&mut out, render_name(field).as_str());
                    push_str(&mut out, ": ");
                    push_str(&mut out, crate::syntax::render_type_inner(t, false).as_str());
                    push_str(&mut out, ",\n");
                    proof {
                        assert(out@ =~= render_field_spec(*cfg, *g, field_id, force));
                    }
                    out
                },
                _ => String::new(),
            }
        },
    }
}

/// Render the pieces of a positional field list.
fn tuple_fields(cfg: &Renderer, g: &ItemGraph, fields: &Vec<Option<Id>>, owner: Id) -> (r: Vec<
    String,
>)
    requires
        g.wf(),
    ensures
        string_views(r@) == tuple_fields_spec(*cfg, *g, fields@, owner),
{
    let ghost whole = fields@;
    let mut out: Vec<String> = Vec::new();
    let mut i: usize = 0;
    proof {
        assert(whole.subrange(0, whole.len() as int) =~= whole);
        assert(string_views(out@) =~= Seq::<Seq<char>>::empty());
        assert(string_views(out@) + tuple_fields_spec(*cfg, *g, whole, owner) =~= tuple_fields_spec(
            *cfg,
            *g,
            whole,
            owner,
        ));
    }
    while i < fields.len()
        invariant
            i <= whole.len(),
            whole == fields@,
            g.wf(),
            string_views(out@) + tuple_fields_spec(
                *cfg,
                *g,
                whole.subrange(i as int, whole.len() as int),
                owner,
            ) == tuple_fields_spec(*cfg, *g, whole, owner),
        decreases fields.len() - i,
    {
        let ghost pre = string_views(out@);
        proof {
            assert(whole.subrange(i as int, whole.len() as int).drop_first() =~= whole.subrange(
                i + 1,
                whole.len() as int,
            ));
            assert(whole.subrange(i as int, whole.len() as int)[0] == whole[i as int]);
        }
        match &fields[i] {
            Option::None => {},
            Option::Some(fid) => {
                let fid = *fid;
                let active = match &cfg.selection {
                    Option::Some(_) => true,
                    Option::None => false,
                };
                let expands = if active {
                    cfg.selection_expands(owner)
                } else {
                    false
                };
                let includes = !active || expands || cfg.selection_context_contains(fid);
                if includes {
                    match g.get(fid) {
                        Option::Some(field) => {
                            if !is_visible(cfg, field) {
                                out.push(crate::syntax::lit("_"));
                                proof {
                                    assert(string_views(out@) =~= pre + seq!["_"@]);
                                }
                            } else {
                                match &field.inner {
                                    ItemKind::StructField(t) => {
                                        let mut piece = render_vis(field);
                                        push_str(
                                            &mut piece,
                                            crate::syntax::render_type_inner(t, false).as_str(),
                                        );
                                        out.push(piece);
                                        proof {
                                            assert(string_views(out@) =~= pre + seq![
                                                render_vis_spec(g.at(fid)) + render_type_spec(
                                                    g.at(fid).inner->StructField_0,
                                                    false,
                                                ),
                                            ]);
                                        }
                                    },
                                    _ => {},
                                }
                            }
                        },
                        Option::None => {},
                    }
                }
            },
        }
        proof {
            assert(string_views(out@) + tuple_fields_spec(
                *cfg,
                *g,
                whole.subrange(i + 1, whole.len() as int),
                owner,
            ) =~= pre + tuple_fields_spec(
                *cfg,
                *g,
                whole.subrange(i as int, whole.len() as int),
                owner,
            ));
        }
        i = i + 1;
    }
    proof {
        assert(whole.subrange(whole.len() as int, whole.len() as int)
            =~= Seq::<Option<Id>>::empty());
        assert(string_views(out@) + tuple_fields_spec(*cfg, *g, Seq::empty(), owner)
            =~= string_views(out@));
    }
    out
}

/// Render the named fields of a struct body.
fn plain_fields(cfg: &Renderer, g: &ItemGraph, fields: &Vec<Id>, force: bool) -> (r: String)
    requires
        g.wf(),
    ensures
        r@ == plain_fields_spec(*cfg, *g, fields@, force),
{
    let ghost whole = fields@;
    let mut out = String::new();
    let mut i: usize = 0;
    proof {
        assert(whole.subrange(0, whole.len() as int) =~= whole);
        assert(out@ + plain_fields_spec(*cfg, *g, whole, force) =~= plain_fields_spec(
            *cfg,
            *g,
            whole,
            force,
        ));
    }
    while i < fields.len()
        invariant
            i <= whole.len(),
            whole == fields@,
            g.wf(),
            out@ + plain_fields_spec(*cfg, *g, whole.subrange(i as int, whole.len() as int), force)
                == plain_fields_spec(*cfg, *g, whole, force),
        decreases fields.len() - i,
    {
        let ghost pre = out@;
        proof {
            assert(whole.subrange(i as int, whole.len() as int).drop_first() =~= whole.subrange(
                i + 1,
                whole.len() as int,
            ));
            assert(whole.subrange(i as int, whole.len() as int)[0] == whole[i as int]);
        }
        let piece = render_struct_field(cfg, g, fields[i], force);
        push_str(&mut out, piece.as_str());
        proof {
            assert(out@ + plain_fields_spec(
                *cfg,
                *g,
                whole.subrange(i + 1, whole.len() as int),
                force,
            ) =~= pre + plain_fields_spec(
                *cfg,
                *g,
                whole.subrange(i as int, whole.len() as int),
                force,
            ));
        }
        i = i + 1;
    }
    proof {
        assert(whole.subrange(whole.len() as int, whole.len() as int) =~= Seq::<Id>::empty());
        assert(out@ + plain_fields_spec(*cfg, *g, Seq::empty(), force) =~= out@);
    }
    out
}

/// Render the pieces of a variant's positional field list.
fn variant_tuple_fields(
    cfg: &Renderer,
    g: &ItemGraph,
    fields: &Vec<Option<Id>>,
    include_all: bool,
) -> (r: Vec<String>)
    requires
        g.wf(),
    ensures
        string_views(r@) == variant_tuple_fields_spec(*cfg, *g, fields@, include_all),
{
    let ghost whole = fields@;
    let mut out: Vec<String> = Vec::new();
    let mut i: usize = 0;
    proof {
        assert(whole.subrange(0, whole.len() as int) =~= whole);
        assert(string_views(out@) =~= Seq::<Seq<char>>::empty());
        assert(string_views(out@) + variant_tuple_fields_spec(*cfg, *g, whole, include_all)
            =~= variant_tuple_fields_spec(*cfg, *g, whole, include_all));
    }
    while i < fields.len()
        invariant
            i <= whole.len(),
            whole == fields@,
            g.wf(),
            string_views(out@) + variant_tuple_fields_spec(
                *cfg,
                *g,
                whole.subrange(i as int, whole.len() as int),
                include_all,
            ) == variant_tuple_fields_spec(*cfg, *g, whole, include_all),
        decreases fields.len() - i,
    {
        let ghost pre = string_views(out@);
        proof {
            assert(whole.subrange(i as int, whole.len() as int).drop_first() =~= whole.subrange(
                i + 1,
                whole.len() as int,
            ));
            assert(whole.subrange(i as int, whole.len() as int)[0] == whole[i as int]);
        }
        match &fields[i] {
            Option::None => {},
            Option::Some(fid) => {
                let fid = *fid;
                let active = match &cfg.selection {
                    Option::Some(_) => true,
                    Option::None => false,
                };
                if !(active && !include_all && !cfg.selection_context_contains(fid)) {
                    match g.get(fid) {
                        Option::Some(field) => {
                            match &field.inner {
                                ItemKind::StructField(t) => {
                                    out.push(crate::syntax::render_type_inner(t, false));
                                    proof {
                                        assert(string_views(out@) =~= pre + seq![
                                            render_type_spec(g.at(fid).inner->StructField_0, false),
                                        ]);
                                    }
                                },
                                _ => {},
                            }
                        },
                        Option::None => {},
                    }
                }
            },
        }
        proof {
            assert(string_views(out@) + variant_tuple_fields_spec(
                *cfg,
                *g,
                whole.subrange(i + 1, whole.len() as int),
                include_all,
            ) =~= pre + variant_tuple_fields_spec(
                *cfg,
                *g,
                whole.subrange(i as int, whole.len() as int),
                include_all,
            ));
        }
        i = i + 1;
    }
    proof {
        assert(whole.subrange(whole.len() as int, whole.len() as int)
            =~= Seq::<Option<Id>>::empty());
        assert(string_views(out@) + variant_tuple_fields_spec(*cfg, *g, Seq::empty(), include_all)
            =~= string_views(out@));
    }
    out
}

/// Render the named fields of one variant.
fn variant_plain_fields(cfg: &Renderer, g: &ItemGraph, fields: &Vec<Id>, include_all: bool) -> (r:
    String)
    requires
        g.wf(),
    ensures
        r@ == variant_plain_fields_spec(*cfg, *g, fields@, include_all),
{
    let ghost whole = fields@;
    let mut out = String::new();
    let mut i: usize = 0;
    proof {
        assert(whole.subrange(0, whole.len() as int) =~= whole);
        assert(out@ + variant_plain_fields_spec(*cfg, *g, whole, include_all)
            =~= variant_plain_fields_spec(*cfg, *g, whole, include_all));
    }
    while i < fields.len()
        invariant
            i <= whole.len(),
            whole == fields@,
            g.wf(),
            out@ + variant_plain_fields_spec(
                *cfg,
                *g,
                whole.subrange(i as int, whole.len() as int),
                include_all,
            ) == variant_plain_fields_spec(*cfg, *g, whole, include_all),
        decreases fields.len() - i,
    {
        let ghost pre = out@;
        proof {
            assert(whole.subrange(i as int, whole.len() as int).drop_first() =~= whole.subrange(
                i + 1,
                whole.len() as int,
            ));
            assert(whole.subrange(i as int, whole.len() as int)[0] == whole[i as int]);
        }
        let fid = fields[i];
        let active = match &cfg.selection {
            Option::Some(_) => true,
            Option::None => false,
        };
        if !active || include_all || cfg.selection_context_contains(fid) {
            let piece = render_struct_field(cfg, g, fid, include_all || !active);
            push_str(&mut out, piece.as_str());
        }
        proof {
            assert(out@ + variant_plain_fields_spec(
                *cfg,
                *g,
                whole.subrange(i + 1, whole.len() as int),
                include_all,
            ) =~= pre + variant_plain_fields_spec(
                *cfg,
                *g,
                whole.subrange(i as int, whole.len() as int),
                include_all,
            ));
        }
        i = i + 1;
    }
    proof {
        assert(whole.subrange(whole.len() as int, whole.len() as int) =~= Seq::<Id>::empty());
        assert(out@ + variant_plain_fields_spec(*cfg, *g, Seq::empty(), include_all) =~= out@);
    }
    out
}

/// Render a single enum variant.
pub fn render_enum_variant(cfg: &Renderer, g: &ItemGraph, variant_id: Id, include_all: bool) -> (r:
    String)
    requires
        g.wf(),
    ensures
        r@ == render_variant_spec(*cfg, *g, variant_id, include_all),
{
    match g.get(variant_id) {
        Option::None => String::new(),
        Option::Some(item) => {
            match &item.inner {
                ItemKind::Variant(v) => {
                    let mut out = docs(item);
                    push_str(&mut out, "    ");
                    push_str(&mut out, render_name(item).as_str());
                    match &v.kind {
                        VariantKind::Plain => {},
                        VariantKind::Tuple(fields) => {
                            let pieces = variant_tuple_fields(cfg, g, fields, include_all);
                            push_str(&mut out, "(");
                            push_str(&mut out, crate::text::join_strings(&pieces, ", ").as_str());
                            push_str(&mut out, ")");
                        },
                        VariantKind::Struct { fields, .. } => {
                            push_str(&mut out, " {\n");
                            push_str(
                                &mut out,
                                variant_plain_fields(cfg, g, fields, include_all).as_str(),
                            );
                            push_str(&mut out, "    }");
                        },
                    }
                    match &v.discriminant {
                        Option::Some(d) => {
                            push_str(&mut out, " = ");
                            push_str(&mut out, crate::text::string_of(&d.expr).as_str());
                        },
                        Option::None => {},
                    }
                    push_str(&mut out, ",\n");
                    proof {
                        assert(out@ =~= render_variant_spec(*cfg, *g, variant_id, include_all));
                    }
                    out
                },
                _ => String::new(),
            }
        },
    }
}

/// Render the variants of an enum, each gated by the selection.
fn enum_variants(cfg: &Renderer, g: &ItemGraph, variants: &Vec<Id>, owner: Id) -> (r: String)
    requires
        g.wf(),
    ensures
        r@ == enum_variants_spec(*cfg, *g, variants@, owner),
{
    let ghost whole = variants@;
    let mut out = String::new();
    let mut i: usize = 0;
    proof {
        assert(whole.subrange(0, whole.len() as int) =~= whole);
        assert(out@ + enum_variants_spec(*cfg, *g, whole, owner) =~= enum_variants_spec(
            *cfg,
            *g,
            whole,
            owner,
        ));
    }
    while i < variants.len()
        invariant
            i <= whole.len(),
            whole == variants@,
            g.wf(),
            out@ + enum_variants_spec(*cfg, *g, whole.subrange(i as int, whole.len() as int), owner)
                == enum_variants_spec(*cfg, *g, whole, owner),
        decreases variants.len() - i,
    {
        let ghost pre = out@;
        proof {
            assert(whole.subrange(i as int, whole.len() as int).drop_first() =~= whole.subrange(
                i + 1,
                whole.len() as int,
            ));
            assert(whole.subrange(i as int, whole.len() as int)[0] == whole[i as int]);
        }
        let vid = variants[i];
        let active = match &cfg.selection {
            Option::Some(_) => true,
            Option::None => false,
        };
        let expands = if active {
            cfg.selection_expands(owner)
        } else {
            true
        };
        let should = !active || expands || (!active || expands || cfg.selection_context_contains(
            vid,
        ));
        if should {
            let include_all = expands || !active || cfg.selection_matches(vid);
            let piece = render_enum_variant(cfg, g, vid, include_all);
            push_str(&mut out, piece.as_str());
        }
        proof {
            assert(out@ + enum_variants_spec(
                *cfg,
                *g,
                whole.subrange(i + 1, whole.len() as int),
                owner,
            ) =~= pre + enum_variants_spec(
                *cfg,
                *g,
                whole.subrange(i as int, whole.len() as int),
                owner,
            ));
        }
        i = i + 1;
    }
    proof {
        assert(whole.subrange(whole.len() as int, whole.len() as int) =~= Seq::<Id>::empty());
        assert(out@ + enum_variants_spec(*cfg, *g, Seq::empty(), owner) =~= out@);
    }
    out
}

/// Whether one member of an implementation block hits the filter exactly.
pub open spec fn hit_impl_member(
    cfg: Renderer,
    g: ItemGraph,
    root: Id,
    prefix: Seq<char>,
    member: Id,
    include_all: bool,
) -> bool {
    g.contains(member) && (include_all || cfg.sel_context_contains(member)) && filter_hit_spec(
        cfg,
        root,
        prefix,
        g.at(member),
    )
}

/// Render the item inside an impl block.
pub fn render_impl_item(
    cfg: &Renderer,
    g: &ItemGraph,
    filter_matched: &mut bool,
    path_prefix: &Vec<char>,
    member: Id,
    include_all: bool,
) -> (r: String)
    requires
        g.wf(),
    ensures
        r@ == render_impl_member_spec(*cfg, *g, g.root_spec(), path_prefix@, member, include_all),
        *final(filter_matched) == (*old(filter_matched) || hit_impl_member(
            *cfg,
            *g,
            g.root_spec(),
            path_prefix@,
            member,
            include_all,
        )),
{
    match g.get(member) {
        Option::None => String::new(),
        Option::Some(item) => {
            if !include_all && !cfg.selection_context_contains(member) {
                return String::new();
            }
            if crate::state::should_filter(cfg, g.root(), filter_matched, path_prefix, item) {
                return String::new();
            }
            match &item.inner {
                ItemKind::Function(_) => crate::items::render_function(item, false),
                ItemKind::Constant { .. } => crate::items::render_constant(item),
                ItemKind::AssocType { .. } => crate::items::render_associated_type(item),
                ItemKind::TypeAlias(_) => crate::items::render_type_alias(item),
                _ => String::new(),
            }
        },
    }
}

/// Render the members of an implementation block.
fn impl_members(
    cfg: &Renderer,
    g: &ItemGraph,
    filter_matched: &mut bool,
    prefix: &Vec<char>,
    members: &Vec<Id>,
    is_trait_impl: bool,
    expand_children: bool,
) -> (r: String)
    requires
        g.wf(),
    ensures
        r@ == impl_members_spec(
            *cfg,
            *g,
            g.root_spec(),
            prefix@,
            members@,
            is_trait_impl,
            expand_children,
        ),
        *final(filter_matched) == (*old(filter_matched) || hit_impl_members(
            *cfg,
            *g,
            g.root_spec(),
            prefix@,
            members@,
            is_trait_impl,
            expand_children,
        )),
{
    let ghost whole = members@;
    let ghost root = g.root_spec();
    let ghost fm0 = *filter_matched;
    let mut out = String::new();
    let mut i: usize = 0;
    proof {
        assert(whole.subrange(0, whole.len() as int) =~= whole);
        assert(out@ + impl_members_spec(*cfg, *g, root, prefix@, whole, is_trait_impl,
            expand_children) =~= impl_members_spec(*cfg, *g, root, prefix@, whole, is_trait_impl,
            expand_children));
    }
    while i < members.len()
        invariant
            i <= whole.len(),
            whole == members@,
            g.wf(),
            root == g.root_spec(),
            out@ + impl_members_spec(
                *cfg,
                *g,
                root,
                prefix@,
                whole.subrange(i as int, whole.len() as int),
                is_trait_impl,
                expand_children,
            ) == impl_members_spec(
                *cfg,
                *g,
                root,
                prefix@,
                whole,
                is_trait_impl,
                expand_children,
            ),
            (*filter_matched || hit_impl_members(
                *cfg,
                *g,
                root,
                prefix@,
                whole.subrange(i as int, whole.len() as int),
                is_trait_impl,
                expand_children,
            )) == (fm0 || hit_impl_members(
                *cfg,
                *g,
                root,
                prefix@,
                whole,
                is_trait_impl,
                expand_children,
            )),
        decreases members.len() - i,
    {
        let ghost pre = out@;
        let ghost fm_pre = *filter_matched;
        proof {
            assert(whole.subrange(i as int, whole.len() as int).drop_first() =~= whole.subrange(
                i + 1,
                whole.len() as int,
            ));
            assert(whole.subrange(i as int, whole.len() as int)[0] == whole[i as int]);
        }
        let mid = members[i];
        let active = match &cfg.selection {
            Option::Some(_) => true,
            Option::None => false,
        };
        match g.get(mid) {
            Option::Some(member_item) => {
                if (!active || expand_children || cfg.selection_context_contains(mid)) && (
                is_trait_impl || is_visible(cfg, member_item)) {
                    let piece = render_impl_item(
                        cfg,
                        g,
                        filter_matched,
                        prefix,
                        mid,
                        expand_children,
                    );
                    push_str(&mut out, piece.as_str());
                }
            },
            Option::None => {},
        }
        proof {
            assert(out@ + impl_members_spec(
                *cfg,
                *g,
                root,
                prefix@,
                whole.subrange(i + 1, whole.len() as int),
                is_trait_impl,
                expand_children,
            ) =~= pre + impl_members_spec(
                *cfg,
                *g,
                root,
                prefix@,
                whole.subrange(i as int, whole.len() as int),
                is_trait_impl,
                expand_children,
            ));
        }
        i = i + 1;
    }
    proof {
        assert(whole.subrange(whole.len() as int, whole.len() as int) =~= Seq::<Id>::empty());
        assert(out@ + impl_members_spec(*cfg, *g, root, prefix@, Seq::empty(), is_trait_impl,
            expand_children) =~= out@);
    }
    out
}

/// Render an implementation block, respecting filtering rules.
pub fn render_impl(
    cfg: &Renderer,
    g: &ItemGraph,
    filter_matched: &mut bool,
    path_prefix: &Vec<char>,
    impl_id: Id,
) -> (r: String)
    requires
        g.wf(),
    ensures
        r@ == render_impl_spec(*cfg, *g, g.root_spec(), path_prefix@, impl_id),
        *final(filter_matched) == (*old(filter_matched) || hit_impl(
            *cfg,
            *g,
            g.root_spec(),
            path_prefix@,
            impl_id,
        )),
{
    match g.get(impl_id) {
        Option::None => String::new(),
        Option::Some(item) => {
            match &item.inner {
                ItemKind::Impl(im) => {
                    if !cfg.selection_context_contains(impl_id) {
                        return String::new();
                    }
                    let trait_hidden = match &im.trait_ {
                        Option::Some(tr) => {
                            match g.get(tr.id) {
                                Option::Some(trait_item) => !is_visible(cfg, trait_item),
                                Option::None => false,
                            }
                        },
                        Option::None => false,
                    };
                    if trait_hidden {
                        return String::new();
                    }
                    let active = match &cfg.selection {
                        Option::Some(_) => true,
                        Option::None => false,
                    };
                    let parent_expanded = match &im.for_ {
                        Type::ResolvedPath(p) => cfg.selection_expands(p.id),
                        _ => false,
                    };
                    let expand_children = !active || cfg.selection_expands(impl_id)
                        || parent_expanded;
                    let where_clause = crate::syntax::render_where_clause(&im.generics);
                    let mut head = docs(item);
                    if im.is_unsafe {
                        push_str(&mut head, "unsafe ");
                    }
                    push_str(&mut head, "impl");
                    push_str(&mut head, crate::syntax::render_generics(&im.generics).as_str());
                    push_str(&mut head, " ");
                    match &im.trait_ {
                        Option::Some(tr) => {
                            let tp = crate::syntax::render_path(tr);
                            if !tp.as_str().is_empty() {
                                push_str(&mut head, tp.as_str());
                                push_str(&mut head, " for ");
                            }
                        },
                        Option::None => {},
                    }
                    let for_text = crate::syntax::render_type_inner(&im.for_, false);
                    push_str(&mut head, for_text.as_str());
                    if !where_clause.as_str().is_empty() {
                        push_str(&mut head, "\n");
                        push_str(&mut head, where_clause.as_str());
                    }
                    push_str(&mut head, " {\n");
                    let prefix_str = crate::text::string_of(path_prefix);
                    let prefix2_s = crate::paths::ppush(prefix_str.as_str(), for_text.as_str());
                    let prefix2 = crate::text::chars_of(prefix2_s.as_str());
                    let is_trait_impl = match &im.trait_ {
                        Option::Some(_) => true,
                        Option::None => false,
                    };
                    let members = impl_members(
                        cfg,
                        g,
                        filter_matched,
                        &prefix2,
                        &im.items,
                        is_trait_impl,
                        expand_children,
                    );
                    if members.as_str().is_empty() {
                        return String::new();
                    }
                    let mut out = head;
                    push_str(&mut out, members.as_str());
                    push_str(&mut out, "}\n\n");
                    proof {
                        assert(out@ =~= render_impl_spec(
                            *cfg,
                            *g,
                            g.root_spec(),
                            path_prefix@,
                            impl_id,
                        ));
                    }
                    out
                },
                _ => String::new(),
            }
        },
    }
}

/// Render the implementation blocks of a type.
fn type_impls(
    cfg: &Renderer,
    g: &ItemGraph,
    filter_matched: &mut bool,
    prefix: &Vec<char>,
    impls: &Vec<Id>,
    owner: Id,
) -> (r: String)
    requires
        g.wf(),
    ensures
        r@ == type_impls_spec(*cfg, *g, g.root_spec(), prefix@, impls@, owner),
        *final(filter_matched) == (*old(filter_matched) || hit_type_impls(
            *cfg,
            *g,
            g.root_spec(),
            prefix@,
            impls@,
            owner,
        )),
{
    let ghost whole = impls@;
    let ghost root = g.root_spec();
    let ghost fm0 = *filter_matched;
    let mut out = String::new();
    let mut i: usize = 0;
    proof {
        assert(whole.subrange(0, whole.len() as int) =~= whole);
        assert(out@ + type_impls_spec(*cfg, *g, root, prefix@, whole, owner) =~= type_impls_spec(
            *cfg,
            *g,
            root,
            prefix@,
            whole,
            owner,
        ));
    }
    while i < impls.len()
        invariant
            i <= whole.len(),
            whole == impls@,
            g.wf(),
            root == g.root_spec(),
            out@ + type_impls_spec(
                *cfg,
                *g,
                root,
                prefix@,
                whole.subrange(i as int, whole.len() as int),
                owner,
            ) == type_impls_spec(*cfg, *g, root, prefix@, whole, owner),
            (*filter_matched || hit_type_impls(
                *cfg,
                *g,
                root,
                prefix@,
                whole.subrange(i as int, whole.len() as int),
                owner,
            )) == (fm0 || hit_type_impls(*cfg, *g, root, prefix@, whole, owner)),
        decreases impls.len() - i,
    {
        let ghost pre = out@;
        proof {
            assert(whole.subrange(i as int, whole.len() as int).drop_first() =~= whole.subrange(
                i + 1,
                whole.len() as int,
            ));
            assert(whole.subrange(i as int, whole.len() as int)[0] == whole[i as int]);
        }
        let iid = impls[i];
        match g.get(iid) {
            Option::Some(impl_item) => {
                match &impl_item.inner {
                    ItemKind::Impl(im) => {
                        if should_render_impl(im, cfg.render_auto_impls)
                            && cfg.selection_allows_child(owner, iid) {
                            let piece = render_impl(cfg, g, filter_matched, prefix, iid);
                            push_str(&mut out, piece.as_str());
                        }
                    },
                    _ => {},
                }
            },
            Option::None => {},
        }
        proof {
            assert(out@ + type_impls_spec(
                *cfg,
                *g,
                root,
                prefix@,
                whole.subrange(i + 1, whole.len() as int),
                owner,
            ) =~= pre + type_impls_spec(
                *cfg,
                *g,
                root,
                prefix@,
                whole.subrange(i as int, whole.len() as int),
                owner,
            ));
        }
        i = i + 1;
    }
    proof {
        assert(whole.subrange(whole.len() as int, whole.len() as int) =~= Seq::<Id>::empty());
        assert(out@ + type_impls_spec(*cfg, *g, root, prefix@, Seq::empty(), owner) =~= out@);
    }
    out
}

/// Render the derive-style annotation line of a type.
fn derive_line(g: &ItemGraph, impls: &Vec<Id>) -> (r: String)
    requires
        g.wf(),
    ensures
        r@ == derive_line_spec(*g, impls@),
{
    let dts = collect_inline_traits(g, impls);
    if dts.len() > 0 {
        let mut out = crate::syntax::lit("#[derive(");
        push_str(&mut out, crate::text::join_strings(&dts, ", ").as_str());
        push_str(&mut out, ")]\n");
        proof {
            assert(out@ =~= derive_line_spec(*g, impls@));
        }
        out
    } else {
        proof {
            assert(inline_traits_spec(*g, impls@).len() == string_views(dts@).len());
        }
        String::new()
    }
}

/// Render a struct declaration, its fields, and its implementation blocks.
pub fn render_struct(
    cfg: &Renderer,
    g: &ItemGraph,
    filter_matched: &mut bool,
    path_prefix: &Vec<char>,
    id: Id,
) -> (r: String)
    requires
        g.wf(),
        g.contains(id),
    ensures
        r@ == render_struct_spec(*cfg, *g, g.root_spec(), path_prefix@, id),
        *final(filter_matched) == (*old(filter_matched) || (g.at(id).inner is Struct
            && cfg.sel_context_contains(id) && hit_type_impls(
            *cfg,
            *g,
            g.root_spec(),
            path_prefix@,
            g.at(id).inner->Struct_0.impls@,
            id,
        ))),
{
    let item = g.must_get(id);
    match &item.inner {
        ItemKind::Struct(s) => {
            if !cfg.selection_context_contains(id) {
                return String::new();
            }
            let generics = crate::syntax::render_generics(&s.generics);
            let where_clause = crate::syntax::render_where_clause(&s.generics);
            let active = match &cfg.selection {
                Option::Some(_) => true,
                Option::None => false,
            };
            let expands = if active {
                cfg.selection_expands(id)
            } else {
                false
            };
            let ghost spec_decl = match g.at(id).inner->Struct_0.kind {
                StructKind::Unit => render_vis_spec(g.at(id)) + "struct "@ + render_name_spec(
                    g.at(id),
                ) + generics@ + where_clause@ + ";\n\n"@,
                StructKind::Tuple(fs) => {
                    let fields_str = join_spec(tuple_fields_spec(*cfg, *g, fs@, id), ", "@);
                    if expands_self_spec(*cfg, id, false) || fields_str.len() > 0 {
                        render_vis_spec(g.at(id)) + "struct "@ + render_name_spec(g.at(id))
                            + generics@ + "("@ + fields_str + ")"@ + where_clause@ + ";\n\n"@
                    } else {
                        Seq::<char>::empty()
                    }
                },
                StructKind::Plain { fields: fs, .. } => {
                    let force = sel_active(*cfg) && expands_self_spec(*cfg, id, false);
                    render_vis_spec(g.at(id)) + "struct "@ + render_name_spec(g.at(id)) + generics@
                        + where_clause@ + " {\n"@ + plain_fields_spec(*cfg, *g, fs@, force)
                        + "}\n\n"@
                },
            };
            let mut decl = String::new();
            match &s.kind {
                StructKind::Unit => {
                    push_str(&mut decl, render_vis(item).as_str());
                    push_str(&mut decl, "struct ");
                    push_str(&mut decl, render_name(item).as_str());
                    push_str(&mut decl, generics.as_str());
                    push_str(&mut decl, where_clause.as_str());
                    push_str(&mut decl, ";\n\n");
                    proof {
                        assert(decl@ =~= spec_decl);
                    }
                },
                StructKind::Tuple(fields) => {
                    let pieces = tuple_fields(cfg, g, fields, id);
                    let fields_str = crate::text::join_strings(&pieces, ", ");
                    if expands || !fields_str.as_str().is_empty() {
                        push_str(&mut decl, render_vis(item).as_str());
                        push_str(&mut decl, "struct ");
                        push_str(&mut decl, render_name(item).as_str());
                        push_str(&mut decl, generics.as_str());
                        push_str(&mut decl, "(");
                        push_str(&mut decl, fields_str.as_str());
                        push_str(&mut decl, ")");
                        push_str(&mut decl, where_clause.as_str());
                        push_str(&mut decl, ";\n\n");
                        proof {
                            assert(decl@ =~= spec_decl);
                        }
                    } else {
                        proof {
                            assert(decl@ =~= spec_decl);
                        }
                    }
                },
                StructKind::Plain { fields, .. } => {
                    let force = active && expands;
                    push_str(&mut decl, render_vis(item).as_str());
                    push_str(&mut decl, "struct ");
                    push_str(&mut decl, render_name(item).as_str());
                    push_str(&mut decl, generics.as_str());
                    push_str(&mut decl, where_clause.as_str());
                    push_str(&mut decl, " {\n");
                    push_str(&mut decl, plain_fields(cfg, g, fields, force).as_str());
                    push_str(&mut decl, "}\n\n");
                    proof {
                        assert(decl@ =~= spec_decl);
                    }
                },
            }
            let mut out = docs(item);
            push_str(&mut out, derive_line(g, &s.impls).as_str());
            push_str(&mut out, decl.as_str());
            let impls_text = type_impls(cfg, g, filter_matched, path_prefix, &s.impls, id);
            push_str(&mut out, impls_text.as_str());
            proof {
                assert(out@ =~= render_struct_spec(*cfg, *g, g.root_spec(), path_prefix@, id));
            }
            out
        },
        _ => String::new(),
    }
}

/// Render an enum definition, its variants, and its implementation blocks.
pub fn render_enum(
    cfg: &Renderer,
    g: &ItemGraph,
    filter_matched: &mut bool,
    path_prefix: &Vec<char>,
    id: Id,
) -> (r: String)
    requires
        g.wf(),
        g.contains(id),
    ensures
        r@ == render_enum_spec(*cfg, *g, g.root_spec(), path_prefix@, id),
        *final(filter_matched) == (*old(filter_matched) || (g.at(id).inner is Enum
            && cfg.sel_context_contains(id) && hit_type_impls(
            *cfg,
            *g,
            g.root_spec(),
            path_prefix@,
            g.at(id).inner->Enum_0.impls@,
            id,
        ))),
{
    let item = g.must_get(id);
    match &item.inner {
        ItemKind::Enum(e) => {
            if !cfg.selection_context_contains(id) {
                return String::new();
            }
            let mut out = docs(item);
            push_str(&mut out, derive_line(g, &e.impls).as_str());
            push_str(&mut out, render_vis(item).as_str());
            push_str(&mut out, "enum ");
            push_str(&mut out, render_name(item).as_str());
            push_str(&mut out, crate::syntax::render_generics(&e.generics).as_str());
            push_str(&mut out, crate::syntax::render_where_clause(&e.generics).as_str());
            push_str(&mut out, " {\n");
            push_str(&mut out, enum_variants(cfg, g, &e.variants, id).as_str());
            push_str(&mut out, "}\n\n");
            let impls_text = type_impls(cfg, g, filter_matched, path_prefix, &e.impls, id);
            push_str(&mut out, impls_text.as_str());
            proof {
                assert(out@ =~= render_enum_spec(*cfg, *g, g.root_spec(), path_prefix@, id));
            }
            out
        },
        _ => String::new(),
    }
}

/// Render the members of a trait declaration.
fn trait_members(cfg: &Renderer, g: &ItemGraph, members: &Vec<Id>, owner: Id) -> (r: String)
    requires
        g.wf(),
    ensures
        r@ == trait_members_spec(*cfg, *g, members@, owner),
{
    let ghost whole = members@;
    let mut out = String::new();
    let mut i: usize = 0;
    proof {
        assert(whole.subrange(0, whole.len() as int) =~= whole);
        assert(out@ + trait_members_spec(*cfg, *g, whole, owner) =~= trait_members_spec(
            *cfg,
            *g,
            whole,
            owner,
        ));
    }
    while i < members.len()
        invariant
            i <= whole.len(),
            whole == members@,
            g.wf(),
            out@ + trait_members_spec(*cfg, *g, whole.subrange(i as int, whole.len() as int), owner)
                == trait_members_spec(*cfg, *g, whole, owner),
        decreases members.len() - i,
    {
        let ghost pre = out@;
        proof {
            assert(whole.subrange(i as int, whole.len() as int).drop_first() =~= whole.subrange(
                i + 1,
                whole.len() as int,
            ));
            assert(whole.subrange(i as int, whole.len() as int)[0] == whole[i as int]);
        }
        let mid = members[i];
        let active = match &cfg.selection {
            Option::Some(_) => true,
            Option::None => false,
        };
        let expands = if active {
            cfg.selection_expands(owner)
        } else {
            true
        };
        if !active || expands || cfg.selection_context_contains(mid) {
            match g.get(mid) {
                Option::Some(member_item) => {
                    let piece = crate::items::render_trait_member(member_item);
                    push_str(&mut out, piece.as_str());
                },
                Option::None => {},
            }
        }
        proof {
            assert(out@ + trait_members_spec(
                *cfg,
                *g,
                whole.subrange(i + 1, whole.len() as int),
                owner,
            ) =~= pre + trait_members_spec(
                *cfg,
                *g,
                whole.subrange(i as int, whole.len() as int),
                owner,
            ));
        }
        i = i + 1;
    }
    proof {
        assert(whole.subrange(whole.len() as int, whole.len() as int) =~= Seq::<Id>::empty());
        assert(out@ + trait_members_spec(*cfg, *g, Seq::empty(), owner) =~= out@);
    }
    out
}

/// Render a trait definition.
pub fn render_trait(cfg: &Renderer, g: &ItemGraph, id: Id) -> (r: String)
    requires
        g.wf(),
        g.contains(id),
    ensures
        r@ == render_trait_spec(*cfg, *g, id),
{
    let item = g.must_get(id);
    match &item.inner {
        ItemKind::Trait(t) => {
            if !cfg.selection_context_contains(id) {
                return String::new();
            }
            let mut out = docs(item);
            push_str(&mut out, render_vis(item).as_str());
            if t.is_unsafe {
                push_str(&mut out, "unsafe ");
            }
            push_str(&mut out, "trait ");
            push_str(&mut out, render_name(item).as_str());
            push_str(&mut out, crate::syntax::render_generics(&t.generics).as_str());
            if t.bounds.len() > 0 {
                push_str(&mut out, ": ");
                push_str(&mut out, crate::syntax::render_generic_bounds(&t.bounds).as_str());
            }
            push_str(&mut out, crate::syntax::render_where_clause(&t.generics).as_str());
            push_str(&mut out, " {\n");
            push_str(&mut out, trait_members(cfg, g, &t.items, id).as_str());
            push_str(&mut out, "}\n\n");
            proof {
                assert(out@ =~= render_trait_spec(*cfg, *g, id));
            }
            out
        },
        _ => String::new(),
    }
}

/// Collect the identifiers in a list that resolve to a visible item.
fn visible_kids(cfg: &Renderer, g: &ItemGraph, ids: &Vec<Id>) -> (r: Vec<Id>)
    requires
        g.wf(),
    ensures
        r@ == visible_children(*cfg, *g, ids@),
{
    let ghost whole = ids@;
    let mut out: Vec<Id> = Vec::new();
    let mut i: usize = 0;
    proof {
        assert(whole.subrange(0, whole.len() as int) =~= whole);
        assert(out@ + visible_children(*cfg, *g, whole) =~= visible_children(*cfg, *g, whole));
    }
    while i < ids.len()
        invariant
            i <= whole.len(),
            whole == ids@,
            g.wf(),
            out@ + visible_children(*cfg, *g, whole.subrange(i as int, whole.len() as int))
                == visible_children(*cfg, *g, whole),
        decreases ids.len() - i,
    {
        let ghost pre = out@;
        proof {
            assert(whole.subrange(i as int, whole.len() as int).drop_first() =~= whole.subrange(
                i + 1,
                whole.len() as int,
            ));
            assert(whole.subrange(i as int, whole.len() as int)[0] == whole[i as int]);
        }
        match g.get(ids[i]) {
            Option::Some(child) => {
                if is_visible(cfg, child) {
                    out.push(ids[i]);
                    proof {
                        assert(out@ =~= pre + seq![whole[i as int]]);
                    }
                }
            },
            Option::None => {},
        }
        proof {
            assert(out@ + visible_children(*cfg, *g, whole.subrange(i + 1, whole.len() as int))
                =~= pre + visible_children(
                *cfg,
                *g,
                whole.subrange(i as int, whole.len() as int),
            ));
        }
        i = i + 1;
    }
    proof {
        assert(whole.subrange(whole.len() as int, whole.len() as int) =~= Seq::<Id>::empty());
        assert(out@ + visible_children(*cfg, *g, Seq::empty()) =~= out@);
    }
    out
}

/// Render an unresolved import in aliased or verbatim form.
fn render_use_alias(item: &Item, source: &Vec<char>, name: &Vec<char>) -> (r: String)
    ensures
        r@ == spec_use_alias(*item, source@, name@),
{
    let src_string = crate::text::string_of(source);
    let source_e = crate::paths::escape_path(src_string.as_str());
    let last = last_seg(source);
    let mut out = docs(item);
    push_str(&mut out, "pub use ");
    push_str(&mut out, source_e.as_str());
    if !crate::text::eq_chars(name, &last) {
        push_str(&mut out, " as ");
        push_str(&mut out, crate::keywords::escape_name(name).as_str());
        push_str(&mut out, ";\n");
        proof {
            assert(out@ =~= docs_spec(*item) + "pub use "@ + escape_path_spec(source@) + " as "@
                + escape_name_spec(name@) + ";\n"@);
        }
    } else {
        push_str(&mut out, ";\n");
        proof {
            assert(out@ =~= docs_spec(*item) + "pub use "@ + escape_path_spec(source@) + ";\n"@);
        }
    }
    out
}

/// Render the verbatim form of an unresolved wildcard import.
fn render_use_glob_simple(item: &Item, source: &Vec<char>) -> (r: String)
    ensures
        r@ == docs_spec(*item) + "pub use "@ + escape_path_spec(source@) + "::*;\n"@,
{
    let src_string = crate::text::string_of(source);
    let source_e = crate::paths::escape_path(src_string.as_str());
    let mut out = docs(item);
    push_str(&mut out, "pub use ");
    push_str(&mut out, source_e.as_str());
    push_str(&mut out, "::*;\n");
    proof {
        assert(out@ =~= docs_spec(*item) + "pub use "@ + escape_path_spec(source@) + "::*;\n"@);
    }
    out
}

/// Re-render the targets of an import in place, each with visibility
/// forced.
fn use_items(
    cfg: &Renderer,
    g: &ItemGraph,
    filter_matched: &mut bool,
    path_prefix: &Vec<char>,
    ids: &Vec<Id>,
    Ghost(parent): Ghost<Id>,
) -> (r: String)
    requires
        g.wf(),
        forall|k: int|
            0 <= k < ids@.len() ==> g.contains(#[trigger] ids@[k]) && g.rank_of(ids@[k])
                < g.rank_of(parent),
    ensures
        r@ == spec_use_items(*cfg, *g, g.root_spec(), path_prefix@, ids@, parent),
        *final(filter_matched) == (*old(filter_matched) || hit_use_items(
            *cfg,
            *g,
            g.root_spec(),
            path_prefix@,
            ids@,
            parent,
        )),
    decreases g.rank_of(parent), 0int,
{
    let ghost whole = ids@;
    let ghost root = g.root_spec();
    let ghost fm0 = *filter_matched;
    let mut out = String::new();
    let mut i: usize = 0;
    proof {
        assert(whole.subrange(0, whole.len() as int) =~= whole);
        assert(kid_facts(*g, parent, whole));
        assert(out@ + spec_use_items(*cfg, *g, root, path_prefix@, whole, parent)
            =~= spec_use_items(*cfg, *g, root, path_prefix@, whole, parent));
    }
    while i < ids.len()
        invariant
            i <= whole.len(),
            whole == ids@,
            g.wf(),
            root == g.root_spec(),
            forall|k: int|
                0 <= k < whole.len() ==> g.contains(#[trigger] whole[k]) && g.rank_of(whole[k])
                    < g.rank_of(parent),
            out@ + spec_use_items(
                *cfg,
                *g,
                root,
                path_prefix@,
                whole.subrange(i as int, whole.len() as int),
                parent,
            ) == spec_use_items(*cfg, *g, root, path_prefix@, whole, parent),
            (*filter_matched || hit_use_items(
                *cfg,
                *g,
                root,
                path_prefix@,
                whole.subrange(i as int, whole.len() as int),
                parent,
            )) == (fm0 || hit_use_items(*cfg, *g, root, path_prefix@, whole, parent)),
        decreases ids.len() - i,
    {
        let ghost pre = out@;
        proof {
            assert(whole.subrange(i as int, whole.len() as int).drop_first() =~= whole.subrange(
                i + 1,
                whole.len() as int,
            ));
            assert(whole.subrange(i as int, whole.len() as int)[0] == whole[i as int]);
            assert forall|k: int|
                0 <= k < whole.subrange(i as int, whole.len() as int).len() && g.contains(
                    #[trigger] whole.subrange(i as int, whole.len() as int)[k],
                ) implies g.rank_of(whole.subrange(i as int, whole.len() as int)[k]) < g.rank_of(
                parent,
            ) by {
                assert(whole.subrange(i as int, whole.len() as int)[k] == whole[i + k]);
            }
        }
        let piece = render_item(cfg, g, filter_matched, path_prefix, ids[i], true);
        push_str(&mut out, piece.as_str());
        proof {
            assert(out@ + spec_use_items(
                *cfg,
                *g,
                root,
                path_prefix@,
                whole.subrange(i + 1, whole.len() as int),
                parent,
            ) =~= pre + spec_use_items(
                *cfg,
                *g,
                root,
                path_prefix@,
                whole.subrange(i as int, whole.len() as int),
                parent,
            ));
        }
        i = i + 1;
    }
    proof {
        assert(whole.subrange(whole.len() as int, whole.len() as int) =~= Seq::<Id>::empty());
        assert(out@ + spec_use_items(*cfg, *g, root, path_prefix@, Seq::empty(), parent) =~= out@);
    }
    out
}

/// Render an import: re-render a resolved target in place, recurse into a
/// wildcard target's visible children, or emit the aliased or verbatim
/// form.
pub fn render_use(
    cfg: &Renderer,
    g: &ItemGraph,
    filter_matched: &mut bool,
    path_prefix: &Vec<char>,
    id: Id,
) -> (r: String)
    requires
        g.wf(),
        g.contains(id),
    ensures
        r@ == spec_render_use(*cfg, *g, g.root_spec(), path_prefix@, id),
        *final(filter_matched) == (*old(filter_matched) || (g.at(id).inner is Use && hit_use(
            *cfg,
            *g,
            g.root_spec(),
            path_prefix@,
            id,
        ))),
    decreases g.rank_of(id), 1int,
{
    let item = g.must_get(id);
    proof {
        if item.inner is Use {
            match item.inner->Use_0.id {
                Option::Some(t) => {
                    if g.contains(t) {
                        g.lemma_use_kid(id, t);
                    }
                },
                Option::None => {},
            }
        }
        assert(use_kid_ok(*g, id));
    }
    match &item.inner {
        ItemKind::Use(u) => {
            if u.is_glob {
                match &u.id {
                    Option::Some(src) => {
                        let src = *src;
                        match g.get(src) {
                            Option::Some(src_item) => {
                                match &src_item.inner {
                                    ItemKind::Module(m) => {
                                        let vis_ids = visible_kids(cfg, g, &m.items);
                                        proof {
                                            g.lemma_glob_module_kids(id, src);
                                            lemma_visible_children_sub(*cfg, *g, m.items@);
                                            assert forall|k: int|
                                                0 <= k < vis_ids@.len() implies g.contains(
                                                #[trigger] vis_ids@[k],
                                            ) && g.rank_of(vis_ids@[k]) < g.rank_of(id) by {
                                                let j = choose|j: int|
                                                    0 <= j < m.items@.len() && m.items@[j]
                                                        == vis_ids@[k];
                                                assert(g.contains(m.items@[j]));
                                            }
                                        }
                                        use_items(
                                            cfg,
                                            g,
                                            filter_matched,
                                            path_prefix,
                                            &vis_ids,
                                            Ghost(id),
                                        )
                                    },
                                    ItemKind::Enum(e) => {
                                        let vis_ids = visible_kids(cfg, g, &e.variants);
                                        proof {
                                            g.lemma_glob_enum_kids(id, src);
                                            lemma_visible_children_sub(*cfg, *g, e.variants@);
                                            assert forall|k: int|
                                                0 <= k < vis_ids@.len() implies g.contains(
                                                #[trigger] vis_ids@[k],
                                            ) && g.rank_of(vis_ids@[k]) < g.rank_of(id) by {
                                                let j = choose|j: int|
                                                    0 <= j < e.variants@.len() && e.variants@[j]
                                                        == vis_ids@[k];
                                                assert(g.contains(e.variants@[j]));
                                            }
                                        }
                                        use_items(
                                            cfg,
                                            g,
                                            filter_matched,
                                            path_prefix,
                                            &vis_ids,
                                            Ghost(id),
                                        )
                                    },
                                    _ => render_use_glob_simple(item, &u.source),
                                }
                            },
                            Option::None => render_use_glob_simple(item, &u.source),
                        }
                    },
                    Option::None => render_use_glob_simple(item, &u.source),
                }
            } else {
                match &u.id {
                    Option::Some(t) => {
                        let t = *t;
                        match g.get(t) {
                            Option::Some(_) => {
                                proof {
                                    g.lemma_use_kid(id, t);
                                }
                                render_item(cfg, g, filter_matched, path_prefix, t, true)
                            },
                            Option::None => render_use_alias(item, &u.source, &u.name),
                        }
                    },
                    Option::None => render_use_alias(item, &u.source, &u.name),
                }
            }
        },
        _ => String::new(),
    }
}

/// Render a module and its children.
pub fn render_module(
    cfg: &Renderer,
    g: &ItemGraph,
    filter_matched: &mut bool,
    path_prefix: &Vec<char>,
    id: Id,
) -> (r: String)
    requires
        g.wf(),
        g.contains(id),
    ensures
        r@ == spec_render_module(*cfg, *g, g.root_spec(), path_prefix@, id),
        *final(filter_matched) == (*old(filter_matched) || (g.at(id).inner is Module
            && hit_module_items(
            *cfg,
            *g,
            g.root_spec(),
            ppush_spec(path_prefix@, render_name_spec(g.at(id))),
            g.at(id).inner->Module_0.items@,
            id,
        ))),
    decreases g.rank_of(id), 1int,
{
    let item = g.must_get(id);
    match &item.inner {
        ItemKind::Module(m) => {
            proof {
                g.lemma_module_kids(id);
            }
            let name = render_name(item);
            let prefix_str = crate::text::string_of(path_prefix);
            let prefix2_s = crate::paths::ppush(prefix_str.as_str(), name.as_str());
            let prefix2 = crate::text::chars_of(prefix2_s.as_str());
            let mut out = render_vis(item);
            push_str(&mut out, "mod ");
            push_str(&mut out, name.as_str());
            push_str(&mut out, " {\n");
            let ghost after_head = out@;
            match &item.docs {
                Option::Some(d) => {
                    if crate::state::should_module_doc(cfg, &prefix2, item) {
                        let ls = crate::text::lines(d);
                        let ghost lv = crate::text::views(ls@);
                        let mut j: usize = 0;
                        let ghost doc_start = out@;
                        proof {
                            assert(lv.subrange(0, lv.len() as int) =~= lv);
                            assert(lv.subrange(lv.len() as int, lv.len() as int)
                                =~= Seq::<Seq<char>>::empty());
                        }
                        while j < ls.len()
                            invariant
                                j <= ls@.len(),
                                lv == crate::text::views(ls@),
                                out@ + module_doc_lines_spec(
                                    lv.subrange(j as int, lv.len() as int),
                                ) == doc_start + module_doc_lines_spec(lv),
                            decreases ls.len() - j,
                        {
                            let ghost pre = out@;
                            proof {
                                assert(lv.subrange(j as int, lv.len() as int).drop_first()
                                    =~= lv.subrange(j + 1, lv.len() as int));
                                assert(lv.subrange(j as int, lv.len() as int)[0] == lv[j as int]);
                            }
                            push_str(&mut out, "    //! ");
                            push_str(&mut out, crate::text::string_of(&ls[j]).as_str());
                            push_str(&mut out, "\n");
                            proof {
                                assert(out@ =~= pre + ("    //! "@ + lv[j as int] + "\n"@));
                                assert(out@ + module_doc_lines_spec(
                                    lv.subrange(j + 1, lv.len() as int),
                                ) =~= pre + module_doc_lines_spec(
                                    lv.subrange(j as int, lv.len() as int),
                                ));
                            }
                            j = j + 1;
                        }
                        push_str(&mut out, "\n");
                        proof {
                            assert(module_doc_lines_spec(Seq::empty()) =~= Seq::<char>::empty());
                            assert(out@ =~= after_head + (module_doc_lines_spec(lv) + "\n"@));
                        }
                    }
                },
                Option::None => {},
            }
            let ghost before_children = out@;
            let ghost whole = m.items@;
            let ghost root = g.root_spec();
            let ghost fm0 = *filter_matched;
            let mut i: usize = 0;
            proof {
                assert(whole.subrange(0, whole.len() as int) =~= whole);
                assert(kid_facts(*g, id, whole));
            }
            while i < m.items.len()
                invariant
                    i <= whole.len(),
                    whole == m.items@,
                    g.wf(),
                    root == g.root_spec(),
                    forall|k: int|
                        0 <= k < whole.len() ==> g.contains(#[trigger] whole[k]) && g.rank_of(
                            whole[k],
                        ) < g.rank_of(id),
                    out@ + spec_module_items(
                        *cfg,
                        *g,
                        root,
                        prefix2@,
                        whole.subrange(i as int, whole.len() as int),
                        id,
                    ) == before_children + spec_module_items(*cfg, *g, root, prefix2@, whole, id),
                    (*filter_matched || hit_module_items(
                        *cfg,
                        *g,
                        root,
                        prefix2@,
                        whole.subrange(i as int, whole.len() as int),
                        id,
                    )) == (fm0 || hit_module_items(*cfg, *g, root, prefix2@, whole, id)),
                decreases m.items.len() - i,
            {
                let ghost pre = out@;
                proof {
                    assert(whole.subrange(i as int, whole.len() as int).drop_first()
                        =~= whole.subrange(i + 1, whole.len() as int));
                    assert(whole.subrange(i as int, whole.len() as int)[0] == whole[i as int]);
                    assert forall|k: int|
                        0 <= k < whole.subrange(i as int, whole.len() as int).len() && g.contains(
                            #[trigger] whole.subrange(i as int, whole.len() as int)[k],
                        ) implies g.rank_of(whole.subrange(i as int, whole.len() as int)[k])
                        < g.rank_of(id) by {
                        assert(whole.subrange(i as int, whole.len() as int)[k] == whole[i + k]);
                    }
                }
                let piece = render_item(cfg, g, filter_matched, &prefix2, m.items[i], false);
                push_str(&mut out, piece.as_str());
                proof {
                    assert(out@ + spec_module_items(
                        *cfg,
                        *g,
                        root,
                        prefix2@,
                        whole.subrange(i + 1, whole.len() as int),
                        id,
                    ) =~= pre + spec_module_items(
                        *cfg,
                        *g,
                        root,
                        prefix2@,
                        whole.subrange(i as int, whole.len() as int),
                        id,
                    ));
                }
                i = i + 1;
            }
            push_str(&mut out, "}\n\n");
            proof {
                assert(whole.subrange(whole.len() as int, whole.len() as int)
                    =~= Seq::<Id>::empty());
                assert(out@ =~= spec_render_module(*cfg, *g, g.root_spec(), path_prefix@, id));
            }
            out
        },
        _ => String::new(),
    }
}


/// One unfolding of `spec_render_item` and `hit_item` past their gates.
pub(crate) proof fn lemma_item_unfold(
    cfg: Renderer,
    g: ItemGraph,
    root: Id,
    prefix: Seq<char>,
    id: Id,
    force_private: bool,
)
    requires
        item_when(g, id),
        cfg.sel_context_contains(id),
        !should_filter_spec(cfg, root, prefix, g.at(id)),
    ensures
        spec_render_item(cfg, g, root, prefix, id, force_private) == ({
            let it = g.at(id);
            let disp = match it.inner {
                ItemKind::Module(_) => spec_render_module(cfg, g, root, prefix, id),
                ItemKind::Struct(_) => render_struct_spec(cfg, g, root, prefix, id),
                ItemKind::Enum(_) => render_enum_spec(cfg, g, root, prefix, id),
                ItemKind::Trait(_) => render_trait_spec(cfg, g, id),
                ItemKind::Use(_) => spec_render_use(cfg, g, root, prefix, id),
                ItemKind::Function(_) => render_function_spec(it, false),
                ItemKind::Constant { .. } => render_constant_spec(it),
                ItemKind::Static(_) => crate::items::render_static_spec(it),
                ItemKind::TypeAlias(_) => render_type_alias_spec(it),
                ItemKind::Macro(_) => render_macro_spec(it),
                ItemKind::ProcMacro(_) => render_proc_macro_spec(it),
                _ => Seq::<char>::empty(),
            };
            if !force_private && !is_visible_spec(cfg, it) {
                Seq::<char>::empty()
            } else {
                disp
            }
        }),
        hit_item(cfg, g, root, prefix, id) == (filter_hit_spec(cfg, root, prefix, g.at(id)) || (
        match g.at(id).inner {
            ItemKind::Module(m) => hit_module_items(
                cfg,
                g,
                root,
                ppush_spec(prefix, render_name_spec(g.at(id))),
                m.items@,
                id,
            ),
            ItemKind::Struct(s) => hit_type_impls(cfg, g, root, prefix, s.impls@, id),
            ItemKind::Enum(e) => hit_type_impls(cfg, g, root, prefix, e.impls@, id),
            ItemKind::Use(_) => hit_use(cfg, g, root, prefix, id),
            _ => false,
        })),
{
    let it = g.at(id);
    match it.inner {
        ItemKind::Module(m) => {
            g.lemma_module_kids(id);
            assert(kid_facts(g, id, m.items@));
        },
        ItemKind::Use(u) => {
            match u.id {
                Option::Some(t) => {
                    if g.contains(t) {
                        g.lemma_use_kid(id, t);
                    }
                },
                Option::None => {},
            }
            assert(use_kid_ok(g, id));
        },
        _ => {},
    }
    if !force_private && !is_visible_spec(cfg, it) {
        assert(spec_render_item(cfg, g, root, prefix, id, force_private) == Seq::<char>::empty());
    } else {
        match it.inner {
            ItemKind::Module(_) => {
                assert(spec_render_item(cfg, g, root, prefix, id, force_private)
                    == spec_render_module(cfg, g, root, prefix, id));
            },
            ItemKind::Struct(_) => {
                assert(spec_render_item(cfg, g, root, prefix, id, force_private)
                    == render_struct_spec(cfg, g, root, prefix, id));
            },
            ItemKind::Enum(_) => {
                assert(spec_render_item(cfg, g, root, prefix, id, force_private)
                    == render_enum_spec(cfg, g, root, prefix, id));
            },
            ItemKind::Trait(_) => {
                assert(spec_render_item(cfg, g, root, prefix, id, force_private)
                    == render_trait_spec(cfg, g, id));
            },
            ItemKind::Use(_) => {
                assert(spec_render_item(cfg, g, root, prefix, id, force_private)
                    == spec_render_use(cfg, g, root, prefix, id));
            },
            ItemKind::Function(_) => {
                assert(spec_render_item(cfg, g, root, prefix, id, force_private)
                    == render_function_spec(it, false));
            },
            ItemKind::Constant { .. } => {
                assert(spec_render_item(cfg, g, root, prefix, id, force_private)
                    == render_constant_spec(it));
            },
            ItemKind::Static(_) => {
                assert(spec_render_item(cfg, g, root, prefix, id, force_private)
                    == crate::items::render_static_spec(it));
            },
            ItemKind::TypeAlias(_) => {
                assert(spec_render_item(cfg, g, root, prefix, id, force_private)
                    == render_type_alias_spec(it));
            },
            ItemKind::Macro(_) => {
                assert(spec_render_item(cfg, g, root, prefix, id, force_private)
                    == render_macro_spec(it));
            },
            ItemKind::ProcMacro(_) => {
                assert(spec_render_item(cfg, g, root, prefix, id, force_private)
                    == render_proc_macro_spec(it));
            },
            _ => {
                assert(spec_render_item(cfg, g, root, prefix, id, force_private)
                    == Seq::<char>::empty());
            },
        }
    }
    if should_filter_spec(cfg, root, prefix, it) {
    } else {
        match it.inner {
            ItemKind::Module(m) => {
                assert(hit_item(cfg, g, root, prefix, id) == (filter_hit_spec(
                    cfg,
                    root,
                    prefix,
                    it,
                ) || hit_module_items(
                    cfg,
                    g,
                    root,
                    ppush_spec(prefix, render_name_spec(it)),
                    m.items@,
                    id,
                )));
            },
            ItemKind::Struct(st) => {
                assert(hit_item(cfg, g, root, prefix, id) == (filter_hit_spec(
                    cfg,
                    root,
                    prefix,
                    it,
                ) || hit_type_impls(cfg, g, root, prefix, st.impls@, id)));
            },
            ItemKind::Enum(e) => {
                assert(hit_item(cfg, g, root, prefix, id) == (filter_hit_spec(
                    cfg,
                    root,
                    prefix,
                    it,
                ) || hit_type_impls(cfg, g, root, prefix, e.impls@, id)));
            },
            ItemKind::Use(_) => {
                assert(hit_item(cfg, g, root, prefix, id) == (filter_hit_spec(
                    cfg,
                    root,
                    prefix,
                    it,
                ) || hit_use(cfg, g, root, prefix, id)));
            },
            _ => {
                assert(hit_item(cfg, g, root, prefix, id) == filter_hit_spec(
                    cfg,
                    root,
                    prefix,
                    it,
                ));
            },
        }
    }
}

/// Render an item into skeleton text, appending nothing when the selection
/// or the filter gate stops it, and discarding the result of a
/// non-visible item unless a re-export forces it.
pub fn render_item(
    cfg: &Renderer,
    g: &ItemGraph,
    filter_matched: &mut bool,
    path_prefix: &Vec<char>,
    id: Id,
    force_private: bool,
) -> (r: String)
    requires
        g.wf(),
        g.contains(id),
    ensures
        r@ == spec_render_item(*cfg, *g, g.root_spec(), path_prefix@, id, force_private),
        *final(filter_matched) == (*old(filter_matched) || hit_item(
            *cfg,
            *g,
            g.root_spec(),
            path_prefix@,
            id,
        )),
    decreases g.rank_of(id), 2int,
{
    let item = g.must_get(id);
    if !cfg.selection_context_contains(id) {
        return String::new();
    }
    let filtered = crate::state::should_filter(cfg, g.root(), filter_matched, path_prefix, item);
    if filtered {
        return String::new();
    }
    let out = match &item.inner {
        ItemKind::Module(_) => render_module(cfg, g, filter_matched, path_prefix, id),
        ItemKind::Struct(_) => render_struct(cfg, g, filter_matched, path_prefix, id),
        ItemKind::Enum(_) => render_enum(cfg, g, filter_matched, path_prefix, id),
        ItemKind::Trait(_) => render_trait(cfg, g, id),
        ItemKind::Use(_) => render_use(cfg, g, filter_matched, path_prefix, id),
        ItemKind::Function(_) => crate::items::render_function(item, false),
        ItemKind::Constant { .. } => crate::items::render_constant(item),
        ItemKind::Static(_) => crate::items::render_static(item),
        ItemKind::TypeAlias(_) => crate::items::render_type_alias(item),
        ItemKind::Macro(_) => crate::macros::render_macro(item),
        ItemKind::ProcMacro(_) => crate::macros::render_proc_macro(item),
        _ => String::new(),
    };
    proof {
        lemma_item_unfold(*cfg, *g, g.root_spec(), path_prefix@, id, force_private);
    }
    if !force_private && !is_visible(cfg, item) {
        String::new()
    } else {
        out
    }
}

impl Renderer {
    /// Render a graph into raw skeleton text, starting at the root module.
    /// Fails exactly when a filter is configured and the walk never
    /// classifies any item as its exact target.
    pub fn render(&self, g: &ItemGraph) -> (r: Result<String, RipdocError>)
        requires
            g.wf(),
        ensures
            match r {
                Result::Ok(t) => t@ == spec_render_item(
                    *self,
                    *g,
                    g.root_spec(),
                    Seq::empty(),
                    g.root_spec(),
                    false,
                ) && (self.filter@.len() == 0 || hit_item(
                    *self,
                    *g,
                    g.root_spec(),
                    Seq::empty(),
                    g.root_spec(),
                )),
                Result::Err(e) => {
                    &&& e matches RipdocError::FilterNotMatched(f) && f@ == self.filter@
                    &&& self.filter@.len() > 0
                    &&& !hit_item(*self, *g, g.root_spec(), Seq::empty(), g.root_spec())
                },
            },
    {
        let mut fm = false;
        let prefix: Vec<char> = Vec::new();
        proof {
            g.lemma_wf_facts();
            assert(prefix@ =~= Seq::<char>::empty());
        }
        let out = render_item(self, g, &mut fm, &prefix, g.root(), false);
        if self.filter.len() > 0 && !fm {
            Result::Err(RipdocError::FilterNotMatched(crate::text::clone_chars(&self.filter)))
        } else {
            Result::Ok(out)
        }
    }
}

} // verus!
