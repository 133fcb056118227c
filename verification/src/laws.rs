//! Laws of the render engine and the selection builder, each proved from
//! the contracts the modules state.

use vstd::prelude::*;

verus! {

use crate::config::Renderer;
use crate::graph::{flatten_opt, ItemGraph};
use crate::model::{Id, Impl, Item, ItemKind, StructKind};
use crate::render::{
    includes_child_spec,
    inline_traits_spec,
    is_derive_name,
    is_visible_spec,
    item_when,
    last_segment,
    should_render_impl_spec,
    spec_render_item,
    tuple_fields_spec,
};
use crate::items::render_vis_spec;
use crate::syntax::render_type_spec;
use crate::search::{
    below_any,
    container_ids,
    entry_matches,
    expansion_extra,
    field_match,
    match_indices,
    result_ancestors,
    result_ids,
    SearchEntry,
    SearchOptions,
    SearchResult,
};
use crate::text::{fold_char, lemma_contains_sub_iff, matches_at};
use crate::state::should_filter_spec;

/// A non-public item never appears in default-mode output: whenever private
/// rendering is off and the item is not forced visible by a re-export, its
/// whole rendering — its own declaration and everything below it — is the
/// empty text.
pub proof fn lemma_private_item_hidden(
    cfg: Renderer,
    g: ItemGraph,
    root: Id,
    prefix: Seq<char>,
    id: Id,
)
    requires
        item_when(g, id),
        !cfg.render_private_items,
        !(g.at(id).visibility is Public),
    ensures
        spec_render_item(cfg, g, root, prefix, id, false) == Seq::<char>::empty(),
{
    let item = g.at(id);
    if !cfg.sel_context_contains(id) {
    } else if should_filter_spec(cfg, root, prefix, item) {
    } else {
        assert(!is_visible_spec(cfg, item));
    }
}

/// An item whose canonical path neither extends nor lies on the way to
/// the configured filter path renders as nothing: the filter gate stops it
/// before any text is emitted.
pub proof fn lemma_filter_miss_hidden(
    cfg: Renderer,
    g: ItemGraph,
    root: Id,
    prefix: Seq<char>,
    id: Id,
    force_private: bool,
)
    requires
        item_when(g, id),
        should_filter_spec(cfg, root, prefix, g.at(id)),
    ensures
        spec_render_item(cfg, g, root, prefix, id, force_private) == Seq::<char>::empty(),
{
}

/// With private rendering enabled, the visibility gate never discards an
/// item: rendering it normally and rendering it with visibility forced by
/// a re-export give the same text, so an item that renders at all renders
/// verbatim.
pub proof fn lemma_private_items_render(
    cfg: Renderer,
    g: ItemGraph,
    root: Id,
    prefix: Seq<char>,
    id: Id,
)
    requires
        item_when(g, id),
        cfg.render_private_items,
    ensures
        spec_render_item(cfg, g, root, prefix, id, false) == spec_render_item(
            cfg,
            g,
            root,
            prefix,
            id,
            true,
        ),
{
    let item = g.at(id);
    if !cfg.sel_context_contains(id) {
    } else if should_filter_spec(cfg, root, prefix, item) {
    } else {
        crate::render::lemma_item_unfold(cfg, g, root, prefix, id, false);
        crate::render::lemma_item_unfold(cfg, g, root, prefix, id, true);
        assert(is_visible_spec(cfg, item));
    }
}

/// The identifiers of the present positional fields, in order.
pub open spec fn present_fields(fields: Seq<Option<Id>>) -> Seq<Id> {
    flatten_opt(fields)
}

/// Positional-field arity preservation: with no selection active, a
/// positional body renders one piece per present field, in order — an
/// opaque placeholder for a non-visible field, the field's visibility and
/// type for a visible one. Count and order of positions are kept.
pub proof fn lemma_tuple_arity(cfg: Renderer, g: ItemGraph, fields: Seq<Option<Id>>, owner: Id)
    requires
        cfg.selection is None,
        forall|k: int|
            0 <= k < fields.len() ==> ((#[trigger] fields[k]) matches Option::Some(f) ==> g.contains(
                f,
            ) && g.at(f).inner is StructField),
    ensures
        tuple_fields_spec(cfg, g, fields, owner).len() == present_fields(fields).len(),
        forall|k: int|
            0 <= k < present_fields(fields).len() ==> #[trigger] tuple_fields_spec(
                cfg,
                g,
                fields,
                owner,
            )[k] == (if !is_visible_spec(cfg, g.at(present_fields(fields)[k])) {
                "_"@
            } else {
                render_vis_spec(g.at(present_fields(fields)[k])) + render_type_spec(
                    g.at(present_fields(fields)[k]).inner->StructField_0,
                    false,
                )
            }),
    decreases fields.len(),
{
    if fields.len() > 0 {
        assert forall|k: int|
            0 <= k < fields.drop_first().len() implies ((#[trigger] fields.drop_first()[k]) matches Option::Some(
            f,
        ) ==> g.contains(f) && g.at(f).inner is StructField) by {
            assert(fields.drop_first()[k] == fields[k + 1]);
        }
        lemma_tuple_arity(cfg, g, fields.drop_first(), owner);
        let rest_p = tuple_fields_spec(cfg, g, fields.drop_first(), owner);
        let rest_f = present_fields(fields.drop_first());
        match fields[0] {
            Option::Some(fid) => {
                assert(includes_child_spec(cfg, owner, false, fid));
                assert(present_fields(fields) == seq![fid] + rest_f);
                assert forall|k: int|
                    0 <= k < present_fields(fields).len() implies #[trigger] tuple_fields_spec(
                    cfg,
                    g,
                    fields,
                    owner,
                )[k] == (if !is_visible_spec(cfg, g.at(present_fields(fields)[k])) {
                    "_"@
                } else {
                    render_vis_spec(g.at(present_fields(fields)[k])) + render_type_spec(
                        g.at(present_fields(fields)[k]).inner->StructField_0,
                        false,
                    )
                }) by {
                    if k > 0 {
                        assert(present_fields(fields)[k] == rest_f[k - 1]);
                        assert(tuple_fields_spec(cfg, g, fields, owner)[k] == rest_p[k - 1]);
                    }
                }
            },
            Option::None => {
                assert(present_fields(fields) =~= rest_f);
            },
        }
    }
}

/// All-hidden positional type, the visible half: with no selection and
/// private rendering off, a positional body whose present fields are all
/// non-public renders every position as the opaque placeholder — count and
/// order intact — and, when the type has at least one present field, the
/// body is non-empty, so the declaration itself is emitted rather than
/// suppressed. (The non-public half is `lemma_private_item_hidden`: the
/// whole type disappears.)
pub proof fn lemma_all_hidden_positional(
    cfg: Renderer,
    g: ItemGraph,
    fields: Seq<Option<Id>>,
    owner: Id,
)
    requires
        cfg.selection is None,
        !cfg.render_private_items,
        forall|k: int|
            0 <= k < fields.len() ==> ((#[trigger] fields[k]) matches Option::Some(f) ==> g.contains(
                f,
            ) && g.at(f).inner is StructField && !(g.at(f).visibility is Public)),
    ensures
        tuple_fields_spec(cfg, g, fields, owner).len() == present_fields(fields).len(),
        forall|k: int|
            0 <= k < present_fields(fields).len() ==> #[trigger] tuple_fields_spec(
                cfg,
                g,
                fields,
                owner,
            )[k] == "_"@,
        present_fields(fields).len() > 0 ==> crate::text::join_spec(
            tuple_fields_spec(cfg, g, fields, owner),
            ", "@,
        ).len() > 0,
{
    lemma_tuple_arity(cfg, g, fields, owner);
    assert forall|k: int| 0 <= k < present_fields(fields).len() implies #[trigger] tuple_fields_spec(
        cfg,
        g,
        fields,
        owner,
    )[k] == "_"@ by {
        lemma_present_contained(g, fields, k);
        assert(!is_visible_spec(cfg, g.at(present_fields(fields)[k])));
    }
    if present_fields(fields).len() > 0 {
        let pieces = tuple_fields_spec(cfg, g, fields, owner);
        reveal_strlit("_");
        assert(pieces[0] == "_"@);
        lemma_join_first(pieces, ", "@);
    }
}

proof fn lemma_present_contained(g: ItemGraph, fields: Seq<Option<Id>>, k: int)
    requires
        0 <= k < present_fields(fields).len(),
        forall|j: int|
            0 <= j < fields.len() ==> ((#[trigger] fields[j]) matches Option::Some(f) ==> g.contains(
                f,
            ) && g.at(f).inner is StructField && !(g.at(f).visibility is Public)),
    ensures
        g.contains(present_fields(fields)[k]),
        !(g.at(present_fields(fields)[k]).visibility is Public),
    decreases fields.len(),
{
    if fields.len() > 0 {
        match fields[0] {
            Option::Some(fid) => {
                if k > 0 {
                    assert forall|j: int|
                        0 <= j < fields.drop_first().len() implies ((
                    #[trigger] fields.drop_first()[j]) matches Option::Some(f) ==> g.contains(f)
                        && g.at(f).inner is StructField && !(g.at(f).visibility is Public)) by {
                        assert(fields.drop_first()[j] == fields[j + 1]);
                    }
                    lemma_present_contained(g, fields.drop_first(), k - 1);
                    assert(present_fields(fields)[k] == present_fields(fields.drop_first())[k - 1]);
                }
            },
            Option::None => {
                assert forall|j: int|
                    0 <= j < fields.drop_first().len() implies ((
                #[trigger] fields.drop_first()[j]) matches Option::Some(f) ==> g.contains(f)
                    && g.at(f).inner is StructField && !(g.at(f).visibility is Public)) by {
                    assert(fields.drop_first()[j] == fields[j + 1]);
                }
                lemma_present_contained(g, fields.drop_first(), k);
                assert(present_fields(fields) =~= present_fields(fields.drop_first()));
            },
        }
    }
}

proof fn lemma_join_first(pieces: Seq<Seq<char>>, sep: Seq<char>)
    requires
        pieces.len() > 0,
        pieces[0].len() > 0,
    ensures
        crate::text::join_spec(pieces, sep).len() > 0,
{
}

/// Annotation synthesis: an explicit (not compiler-synthesized), non-blanket
/// implementation of an allow-listed trait is captured as a derive-style
/// annotation — its trait name is in the synthesized list — and is never
/// also rendered as an explicit block, under either auto-implementation
/// policy. Both gates key on the trait's name, the last path segment.
pub proof fn lemma_annotation_synthesis(
    g: ItemGraph,
    impls: Seq<Id>,
    k: int,
    im: Impl,
    auto: bool,
)
    requires
        0 <= k < impls.len(),
        g.contains(impls[k]),
        g.at(impls[k]).inner == ItemKind::Impl(im),
        !im.is_synthetic,
        im.blanket_impl is None,
        im.trait_ is Some,
        is_derive_name(last_segment(im.trait_->0.path@)),
    ensures
        !should_render_impl_spec(im, auto),
        inline_traits_spec(g, impls).contains(last_segment(im.trait_->0.path@)),
    decreases impls.len(),
{
    if k == 0 {
        assert(inline_traits_spec(g, impls)[0] == last_segment(im.trait_->0.path@));
    } else {
        lemma_annotation_synthesis(g, impls.drop_first(), k - 1, im, auto);
        let rest = inline_traits_spec(g, impls.drop_first());
        let w = choose|w: int|
            0 <= w < rest.len() && rest[w] == last_segment(im.trait_->0.path@);
        if g.contains(impls[0]) && g.at(impls[0]).inner is Impl {
            let im0 = g.at(impls[0]).inner->Impl_0;
            if !im0.is_synthetic && (match im0.trait_ {
                Option::Some(tr) => is_derive_name(last_segment(tr.path@)),
                Option::None => false,
            }) {
                assert(inline_traits_spec(g, impls)[w + 1] == rest[w]);
            } else {
                assert(inline_traits_spec(g, impls)[w] == rest[w]);
            }
        } else {
            assert(inline_traits_spec(g, impls)[w] == rest[w]);
        }
    }
}

/// Search containment and expansion: in a selection built from search
/// results, the context holds every match and every ancestor of every
/// match — a matched method's enclosing implementation block and module
/// chain among them. Absent expansion it holds nothing else, so an
/// unrelated sibling that neither matched nor is an ancestor of a match
/// stays out, and the expanded set is empty. With expansion, every matched
/// container is in the expanded set and every indexed entry below one —
/// every member — joins the context.
pub proof fn lemma_selection_containment(
    entries: Seq<SearchEntry>,
    results: Seq<SearchResult>,
    matches: Set<Id>,
    context: Set<Id>,
    expanded: Set<Id>,
    expand: bool,
)
    requires
        matches == result_ids(results).to_set(),
        context == matches.union(result_ancestors(results, 0).to_set()).union(
            (if expand {
                expansion_extra(entries, container_ids(results, 0), 0).to_set()
            } else {
                Set::<Id>::empty()
            }),
        ),
        expanded == (if expand {
            container_ids(results, 0).to_set()
        } else {
            Set::<Id>::empty()
        }),
    ensures
        forall|k: int| 0 <= k < results.len() ==> context.contains(#[trigger] results[k].id),
        forall|k: int, j: int|
            0 <= k < results.len() && 0 <= j < results[k].ancestors@.len() ==> context.contains(
                #[trigger] results[k].ancestors@[j],
            ),
        !expand ==> forall|x: Id|
            #[trigger] context.contains(x) ==> (exists|k: int|
                0 <= k < results.len() && results[k].id == x) || (exists|k: int, j: int|
                0 <= k < results.len() && 0 <= j < results[k].ancestors@.len()
                    && results[k].ancestors@[j] == x),
        !expand ==> expanded =~= Set::<Id>::empty(),
        expand ==> forall|k: int|
            0 <= k < results.len() && (#[trigger] results[k].kind).is_container_spec()
                ==> expanded.contains(results[k].id),
        expand ==> forall|e: int|
            0 <= e < entries.len() && below_any(#[trigger] entries[e], container_ids(results, 0))
                ==> context.contains(entries[e].id),
{
    broadcast use vstd::seq_lib::group_seq_properties;

    assert forall|k: int| 0 <= k < results.len() implies context.contains(
        #[trigger] results[k].id,
    ) by {
        assert(result_ids(results)[k] == results[k].id);
        assert(result_ids(results).contains(results[k].id));
    }
    assert forall|k: int, j: int|
        0 <= k < results.len() && 0 <= j < results[k].ancestors@.len() implies context.contains(
        #[trigger] results[k].ancestors@[j],
    ) by {
        lemma_anc_mem(results, 0, k, j);
    }
    if !expand {
        assert forall|x: Id| #[trigger] context.contains(x) implies (exists|k: int|
            0 <= k < results.len() && results[k].id == x) || (exists|k: int, j: int|
            0 <= k < results.len() && 0 <= j < results[k].ancestors@.len()
                && results[k].ancestors@[j] == x) by {
            if result_ids(results).to_set().contains(x) {
                let k = choose|k: int|
                    0 <= k < result_ids(results).len() && #[trigger] result_ids(results)[k] == x;
                assert(results[k].id == x);
            } else {
                assert(result_ancestors(results, 0).to_set().contains(x));
                lemma_anc_rev(results, 0, x);
            }
        }
    }
    if expand {
        assert forall|k: int|
            0 <= k < results.len() && (#[trigger] results[k].kind).is_container_spec() implies expanded.contains(
            results[k].id,
        ) by {
            lemma_container_mem(results, 0, k);
        }
        assert forall|e: int|
            0 <= e < entries.len() && below_any(
                #[trigger] entries[e],
                container_ids(results, 0),
            ) implies context.contains(entries[e].id) by {
            lemma_extra_mem(entries, container_ids(results, 0), 0, e);
        }
    }
}

proof fn lemma_extra_mem(entries: Seq<SearchEntry>, containers: Seq<Id>, i: int, e: int)
    requires
        0 <= i <= e < entries.len(),
        below_any(entries[e], containers),
    ensures
        expansion_extra(entries, containers, i).contains(entries[e].id),
    decreases e - i,
{
    if i == e {
        assert(expansion_extra(entries, containers, i)[0] == entries[e].id);
    } else {
        lemma_extra_mem(entries, containers, i + 1, e);
        let w = choose|w: int|
            0 <= w < expansion_extra(entries, containers, i + 1).len() && #[trigger] expansion_extra(
                entries,
                containers,
                i + 1,
            )[w] == entries[e].id;
        if below_any(entries[i], containers) {
            let off = 1 + entries[i].ancestors@.len();
            assert(expansion_extra(entries, containers, i)[off + w] == expansion_extra(
                entries,
                containers,
                i + 1,
            )[w]);
        } else {
            assert(expansion_extra(entries, containers, i)[w] == expansion_extra(
                entries,
                containers,
                i + 1,
            )[w]);
        }
    }
}

proof fn lemma_anc_mem(results: Seq<SearchResult>, i: int, k: int, j: int)
    requires
        i <= k < results.len(),
        0 <= i,
        0 <= j < results[k].ancestors@.len(),
    ensures
        result_ancestors(results, i).contains(results[k].ancestors@[j]),
    decreases k - i,
{
    if i == k {
        assert(result_ancestors(results, i)[j] == results[k].ancestors@[j]);
    } else {
        lemma_anc_mem(results, i + 1, k, j);
        let w = choose|w: int|
            0 <= w < result_ancestors(results, i + 1).len() && #[trigger] result_ancestors(
                results,
                i + 1,
            )[w] == results[k].ancestors@[j];
        assert(result_ancestors(results, i)[results[i].ancestors@.len() + w]
            == result_ancestors(results, i + 1)[w]);
    }
}

proof fn lemma_anc_rev(results: Seq<SearchResult>, i: int, x: Id)
    requires
        0 <= i,
        result_ancestors(results, i).contains(x),
    ensures
        exists|k: int, j: int|
            i <= k < results.len() && 0 <= j < results[k].ancestors@.len()
                && results[k].ancestors@[j] == x,
    decreases results.len() - i,
{
    let w = choose|w: int|
        0 <= w < result_ancestors(results, i).len() && #[trigger] result_ancestors(results, i)[w]
            == x;
    if w < results[i].ancestors@.len() {
        assert(results[i].ancestors@[w] == x);
    } else {
        assert(result_ancestors(results, i)[w] == result_ancestors(results, i + 1)[w
            - results[i].ancestors@.len()]);
        lemma_anc_rev(results, i + 1, x);
    }
}

proof fn lemma_container_mem(results: Seq<SearchResult>, i: int, k: int)
    requires
        0 <= i <= k < results.len(),
        results[k].kind.is_container_spec(),
    ensures
        container_ids(results, i).contains(results[k].id),
    decreases k - i,
{
    if i == k {
        assert(container_ids(results, i)[0] == results[k].id);
    } else {
        lemma_container_mem(results, i + 1, k);
        let w = choose|w: int|
            0 <= w < container_ids(results, i + 1).len() && #[trigger] container_ids(
                results,
                i + 1,
            )[w] == results[k].id;
        if results[i].kind.is_container_spec() {
            assert(container_ids(results, i)[w + 1] == container_ids(results, i + 1)[w]);
        } else {
            assert(container_ids(results, i)[w] == container_ids(results, i + 1)[w]);
        }
    }
}

proof fn lemma_fold_match(s: Seq<char>, q: Seq<char>, i: int)
    requires
        matches_at(s, q, i),
    ensures
        matches_at(
            s.map_values(|c: char| fold_char(c)),
            q.map_values(|c: char| fold_char(c)),
            i,
        ),
{
    let fs = s.map_values(|c: char| fold_char(c));
    let fq = q.map_values(|c: char| fold_char(c));
    assert forall|k: int| 0 <= k < fq.len() implies #[trigger] fs.subrange(i, i + fq.len())[k]
        == fq[k] by {
        assert(s.subrange(i, i + q.len())[k] == q[k]);
        assert(fs[i + k] == fold_char(s[i + k]));
    }
    assert(fs.subrange(i, i + fq.len()) =~= fq);
}

proof fn lemma_field_monotone(f: Seq<char>, q: Seq<char>)
    requires
        field_match(f, q, true),
    ensures
        field_match(f, q, false),
{
    if q.len() > 0 {
        lemma_contains_sub_iff(f, q);
        let i = choose|i: int| #[trigger] matches_at(f, q, i);
        lemma_fold_match(f, q, i);
        lemma_contains_sub_iff(
            f.map_values(|c: char| fold_char(c)),
            q.map_values(|c: char| fold_char(c)),
        );
    }
}

proof fn lemma_mi_mem(entries: Seq<SearchEntry>, o: SearchOptions, j: int, i: int)
    requires
        0 <= j <= i < entries.len(),
        entry_matches(entries[i], o),
    ensures
        match_indices(entries, o, j).contains(i),
    decreases i - j,
{
    if j == i {
        assert(match_indices(entries, o, j)[0] == i);
    } else {
        lemma_mi_mem(entries, o, j + 1, i);
        let w = choose|w: int|
            0 <= w < match_indices(entries, o, j + 1).len() && #[trigger] match_indices(
                entries,
                o,
                j + 1,
            )[w] == i;
        if entry_matches(entries[j], o) {
            assert(match_indices(entries, o, j)[w + 1] == match_indices(entries, o, j + 1)[w]);
        } else {
            assert(match_indices(entries, o, j)[w] == match_indices(entries, o, j + 1)[w]);
        }
    }
}

proof fn lemma_mi_mem_rev(entries: Seq<SearchEntry>, o: SearchOptions, j: int, x: int)
    requires
        0 <= j,
        match_indices(entries, o, j).contains(x),
    ensures
        j <= x < entries.len() && entry_matches(entries[x], o),
    decreases entries.len() - j,
{
    let w = choose|w: int|
        0 <= w < match_indices(entries, o, j).len() && #[trigger] match_indices(entries, o, j)[w]
            == x;
    if j >= entries.len() {
    } else if entry_matches(entries[j], o) {
        if w == 0 {
        } else {
            assert(match_indices(entries, o, j)[w] == match_indices(entries, o, j + 1)[w - 1]);
            lemma_mi_mem_rev(entries, o, j + 1, x);
        }
    } else {
        assert(match_indices(entries, o, j)[w] == match_indices(entries, o, j + 1)[w]);
        lemma_mi_mem_rev(entries, o, j + 1, x);
    }
}

/// Case-sensitivity is monotone: over the same entries, query and domains,
/// every case-sensitive hit is also a case-insensitive hit — folding both
/// sides can only widen substring containment.
pub proof fn lemma_case_sensitivity_monotone(
    entries: Seq<SearchEntry>,
    sensitive: SearchOptions,
    insensitive: SearchOptions,
)
    requires
        sensitive.query@ == insensitive.query@,
        sensitive.domains == insensitive.domains,
        sensitive.case_sensitive,
        !insensitive.case_sensitive,
    ensures
        forall|i: int|
            #[trigger] match_indices(entries, sensitive, 0).contains(i) ==> match_indices(
                entries,
                insensitive,
                0,
            ).contains(i),
{
    assert forall|i: int|
        #[trigger] match_indices(entries, sensitive, 0).contains(i) implies match_indices(
        entries,
        insensitive,
        0,
    ).contains(i) by {
        lemma_mi_mem_rev(entries, sensitive, 0, i);
        let e = entries[i];
        if field_match(e.raw_name@, sensitive.query@, true) {
            lemma_field_monotone(e.raw_name@, sensitive.query@);
        }
        if field_match(e.doc@, sensitive.query@, true) {
            lemma_field_monotone(e.doc@, sensitive.query@);
        }
        if field_match(e.path_string@, sensitive.query@, true) {
            lemma_field_monotone(e.path_string@, sensitive.query@);
        }
        if field_match(e.signature@, sensitive.query@, true) {
            lemma_field_monotone(e.signature@, sensitive.query@);
        }
        assert(entry_matches(e, insensitive));
        lemma_mi_mem(entries, insensitive, 0, i);
    }
}

} // verus!
