//! Per-render state: the path-filter classification and the single mutable
//! flag recording whether the filter has matched any item yet.

use vstd::prelude::*;

verus! {

use crate::config::Renderer;
use crate::model::{Id, Item};
use crate::paths::{FilterMatch, ppush_spec};
use crate::syntax::lit;
use crate::text::{
    chars_of,
    eq_chars,
    push_str,
    split,
    split_spec,
    split_str,
    string_of,
    views,
};

/// `p` is a leading run of `a`, component-wise.
pub open spec fn is_seq_prefix(a: Seq<Seq<char>>, p: Seq<Seq<char>>) -> bool {
    p.len() <= a.len() && a.subrange(0, p.len() as int) == p
}

/// Compare two component lists.
fn seqs_eq(a: &Vec<Vec<char>>, b: &Vec<Vec<char>>) -> (r: bool)
    ensures
        r == (views(a@) == views(b@)),
{
    if a.len() != b.len() {
        proof {
            assert(views(a@).len() != views(b@).len());
        }
        return false;
    }
    let mut i: usize = 0;
    while i < a.len()
        invariant
            i <= a@.len(),
            a@.len() == b@.len(),
            forall|j: int| 0 <= j < i ==> #[trigger] views(a@)[j] == views(b@)[j],
        decreases a.len() - i,
    {
        if !eq_chars(&a[i], &b[i]) {
            proof {
                assert(views(a@)[i as int] != views(b@)[i as int]);
            }
            return false;
        }
        i = i + 1;
    }
    proof {
        assert(views(a@) =~= views(b@));
    }
    true
}

/// Does the component list `a` start with `p`?
fn seqs_starts_with(a: &Vec<Vec<char>>, p: &Vec<Vec<char>>) -> (r: bool)
    ensures
        r == is_seq_prefix(views(a@), views(p@)),
{
    if p.len() > a.len() {
        return false;
    }
    let mut i: usize = 0;
    while i < p.len()
        invariant
            i <= p@.len(),
            p@.len() <= a@.len(),
            forall|j: int| 0 <= j < i ==> #[trigger] views(a@)[j] == views(p@)[j],
        decreases p.len() - i,
    {
        if !eq_chars(&a[i], &p[i]) {
            proof {
                assert(views(a@).subrange(0, views(p@).len() as int)[i as int] == views(a@)[
                i as int]);
            }
            return false;
        }
        i = i + 1;
    }
    proof {
        assert(views(a@).subrange(0, views(p@).len() as int) =~= views(p@));
    }
    true
}

/// How the configured filter relates to an item's canonical path: an exact
/// hit, the item an ancestor of the target, the item at or below the
/// target, or no relation.
pub open spec fn filter_match_spec(cfg: Renderer, prefix: Seq<char>, item: Item) -> FilterMatch {
    match item.name {
        Option::None => FilterMatch::Prefix,
        Option::Some(n) => {
            let item_path = ppush_spec(prefix, n@);
            let fc = split_spec(cfg.filter@, "::"@);
            let ic = split_spec(item_path, "::"@).drop_first();
            if fc == ic {
                FilterMatch::Hit
            } else if is_seq_prefix(fc, ic) {
                FilterMatch::Prefix
            } else if is_seq_prefix(ic, fc) {
                FilterMatch::Suffix
            } else {
                FilterMatch::Miss
            }
        },
    }
}

/// Evaluate how the current filter matches a candidate path.
pub fn filter_match(cfg: &Renderer, path_prefix: &Vec<char>, item: &Item) -> (r: FilterMatch)
    ensures
        r == filter_match_spec(*cfg, path_prefix@, *item),
{
    match &item.name {
        Option::None => FilterMatch::Prefix,
        Option::Some(n) => {
            let name = string_of(n);
            let prefix_str = string_of(path_prefix);
            let item_path_s = crate::paths::ppush(prefix_str.as_str(), name.as_str());
            let item_path = chars_of(item_path_s.as_str());
            proof {
                reveal_strlit("::");
            }
            let fc = split_str(&cfg.filter, "::");
            let mut ic = split_str(&item_path, "::");
            proof {
                crate::text::lemma_split_len(item_path@, "::"@);
            }
            ic.remove(0);
            proof {
                assert(views(ic@) =~= split_spec(item_path@, "::"@).drop_first());
            }
            if seqs_eq(&fc, &ic) {
                FilterMatch::Hit
            } else if seqs_starts_with(&fc, &ic) {
                FilterMatch::Prefix
            } else if seqs_starts_with(&ic, &fc) {
                FilterMatch::Suffix
            } else {
                FilterMatch::Miss
            }
        },
    }
}

/// True when the filter gate stops this item: the item is not the root,
/// a filter is configured, and the item's path has no relation to it.
pub open spec fn should_filter_spec(cfg: Renderer, root: Id, prefix: Seq<char>, item: Item) -> bool {
    item.id != root && cfg.filter@.len() > 0 && filter_match_spec(cfg, prefix, item)
        == FilterMatch::Miss
}

/// True when this item satisfies the filter exactly.
pub open spec fn filter_hit_spec(cfg: Renderer, root: Id, prefix: Seq<char>, item: Item) -> bool {
    item.id != root && cfg.filter@.len() > 0 && filter_match_spec(cfg, prefix, item)
        == FilterMatch::Hit
}

/// Determine whether an item is filtered out by the configured path filter,
/// recording in `filter_matched` whether the filter has hit its target.
/// The root module is never filtered: filters operate under the root.
pub fn should_filter(
    cfg: &Renderer,
    root: Id,
    filter_matched: &mut bool,
    path_prefix: &Vec<char>,
    item: &Item,
) -> (r: bool)
    ensures
        r == should_filter_spec(*cfg, root, path_prefix@, *item),
        *final(filter_matched) == (*old(filter_matched) || filter_hit_spec(
            *cfg,
            root,
            path_prefix@,
            *item,
        )),
{
    if item.id == root {
        return false;
    }
    if cfg.filter.len() == 0 {
        return false;
    }
    match filter_match(cfg, path_prefix, item) {
        FilterMatch::Hit => {
            *filter_matched = true;
            false
        },
        FilterMatch::Prefix => false,
        FilterMatch::Suffix => false,
        FilterMatch::Miss => true,
    }
}

/// True when a module at this path should emit its own documentation
/// header: with no filter always, otherwise only when the module is the
/// filter's exact target or lies at or below it.
pub open spec fn should_module_doc_spec(cfg: Renderer, prefix: Seq<char>, item: Item) -> bool {
    cfg.filter@.len() == 0 || filter_match_spec(cfg, prefix, item) == FilterMatch::Hit
        || filter_match_spec(cfg, prefix, item) == FilterMatch::Suffix
}

/// Determine whether a module should emit a documentation header.
pub fn should_module_doc(cfg: &Renderer, path_prefix: &Vec<char>, item: &Item) -> (r: bool)
    ensures
        r == should_module_doc_spec(*cfg, path_prefix@, *item),
{
    if cfg.filter.len() == 0 {
        return true;
    }
    match filter_match(cfg, path_prefix, item) {
        FilterMatch::Hit => true,
        FilterMatch::Suffix => true,
        FilterMatch::Prefix => false,
        FilterMatch::Miss => false,
    }
}

/// Captures how the current selection affects an item's children.
pub struct SelectionView {
    /// Whether a selection is active at all.
    pub active: bool,
    /// Whether this item expands all of its children.
    pub expands_self: bool,
}

impl SelectionView {
    /// Build the view of the selection at one item. With no selection the
    /// caller's `expands_when_inactive` stands in for expansion.
    pub fn new(cfg: &Renderer, id: Id, expands_when_inactive: bool) -> (r: SelectionView)
        ensures
            r.active == (cfg.selection is Some),
            r.expands_self == if cfg.selection is Some {
                cfg.sel_expands(id)
            } else {
                expands_when_inactive
            },
    {
        let active = match &cfg.selection {
            Option::Some(_) => true,
            Option::None => false,
        };
        let expands_self = if active {
            cfg.selection_expands(id)
        } else {
            expands_when_inactive
        };
        SelectionView { active, expands_self }
    }

    /// Whether the child should be included under this item.
    pub open spec fn includes_child_spec(self, cfg: Renderer, child: Id) -> bool {
        !self.active || self.expands_self || cfg.sel_context_contains(child)
    }

    /// Decide whether a child should be included under this item.
    pub fn includes_child(&self, cfg: &Renderer, child: Id) -> (r: bool)
        ensures
            r == self.includes_child_spec(*cfg, child),
    {
        if !self.active {
            return true;
        }
        self.expands_self || cfg.selection_context_contains(child)
    }

    /// Whether children are forced in regardless of their own status.
    pub open spec fn force_children_spec(self) -> bool {
        self.active && self.expands_self
    }

    /// Are children forced in regardless of their own status?
    pub fn force_children(&self) -> (r: bool)
        ensures
            r == self.force_children_spec(),
    {
        self.active && self.expands_self
    }

    /// Is a selection active?
    pub fn is_active(&self) -> (r: bool)
        ensures
            r == self.active,
    {
        self.active
    }

    /// Does this item expand its children?
    pub fn expands_self(&self) -> (r: bool)
        ensures
            r == self.expands_self,
    {
        self.expands_self
    }
}

} // verus!
