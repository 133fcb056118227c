//! Renderer configuration: output format, visibility and auto-implementation
//! policies, the path filter, and the optional selection that restricts a
//! render to query-relevant items.

use vstd::prelude::*;

verus! {

use crate::text::chars_of;

broadcast use vstd::std_specs::hash::group_hash_axioms;

/// Supported high-level output formats.
#[derive(Debug, Clone, Copy, PartialEq, Eq, Structural)]
pub enum RenderFormat {
    /// Render the graph as surface syntax (default).
    Rust,
    /// Render the graph in a prose-and-code-block layout.
    Markdown,
}

/// Selection of item identifiers used when rendering subsets of a graph.
pub struct RenderSelection {
    matches: std::collections::HashSet<u64>,
    context: std::collections::HashSet<u64>,
    expanded: std::collections::HashSet<u64>,
}

/// Insert every element of a list into a set.
fn insert_all(set: &mut std::collections::HashSet<u64>, ids: &Vec<u64>)
    ensures
        final(set)@ == old(set)@.union(ids@.to_set()),
{
    let mut i: usize = 0;
    proof {
        assert(ids@.subrange(0, 0).to_set() =~= Set::<u64>::empty());
        assert(set@.union(ids@.subrange(0, 0).to_set()) =~= set@);
    }
    while i < ids.len()
        invariant
            i <= ids@.len(),
            set@ == old(set)@.union(ids@.subrange(0, i as int).to_set()),
        decreases ids.len() - i,
    {
        let ghost pre = set@;
        set.insert(ids[i]);
        proof {
            assert(ids@.subrange(0, i + 1) =~= ids@.subrange(0, i as int).push(ids@[i as int]));
            broadcast use vstd::seq_lib::group_seq_properties;
            assert(ids@.subrange(0, i + 1).to_set() =~= ids@.subrange(0, i as int).to_set().insert(
                ids@[i as int],
            ));
            assert(set@ =~= old(set)@.union(ids@.subrange(0, i + 1).to_set()));
        }
        i = i + 1;
    }
    proof {
        assert(ids@.subrange(0, ids@.len() as int) =~= ids@);
    }
}

impl RenderSelection {
    /// Identifiers that directly satisfied the search query.
    pub closed spec fn matches_spec(self) -> Set<u64> {
        self.matches@
    }

    /// Identifiers kept to preserve hierarchy context; includes the matches.
    pub closed spec fn context_spec(self) -> Set<u64> {
        self.context@
    }

    /// Matched containers whose children should be fully expanded.
    pub closed spec fn expanded_spec(self) -> Set<u64> {
        self.expanded@
    }

    /// Create a selection from explicit match, context and expansion lists.
    /// The context always includes every match.
    pub fn new(matches: Vec<u64>, context: Vec<u64>, expanded: Vec<u64>) -> (r: RenderSelection)
        ensures
            r.matches_spec() == matches@.to_set(),
            r.context_spec() == matches@.to_set().union(context@.to_set()),
            r.expanded_spec() == expanded@.to_set(),
    {
        let mut mset: std::collections::HashSet<u64> = std::collections::HashSet::new();
        insert_all(&mut mset, &matches);
        let mut cset: std::collections::HashSet<u64> = std::collections::HashSet::new();
        insert_all(&mut cset, &context);
        insert_all(&mut cset, &matches);
        let mut eset: std::collections::HashSet<u64> = std::collections::HashSet::new();
        insert_all(&mut eset, &expanded);
        proof {
            assert(mset@ =~= matches@.to_set());
            assert(cset@ =~= matches@.to_set().union(context@.to_set()));
            assert(eset@ =~= expanded@.to_set());
        }
        RenderSelection { matches: mset, context: cset, expanded: eset }
    }

    /// Is the identifier a direct match?
    pub fn matches_contains(&self, id: u64) -> (r: bool)
        ensures
            r == self.matches_spec().contains(id),
    {
        self.matches.contains(&id)
    }

    /// Is the identifier in the retained context?
    pub fn context_contains(&self, id: u64) -> (r: bool)
        ensures
            r == self.context_spec().contains(id),
    {
        self.context.contains(&id)
    }

    /// Should the identifier's children be fully expanded?
    pub fn expanded_contains(&self, id: u64) -> (r: bool)
        ensures
            r == self.expanded_spec().contains(id),
    {
        self.expanded.contains(&id)
    }
}

/// Configurable renderer that turns an item graph into skeleton text.
pub struct Renderer {
    /// Target output format.
    pub format: RenderFormat,
    /// Whether compiler-synthesized trait implementations are included.
    pub render_auto_impls: bool,
    /// Whether private items are rendered.
    pub render_private_items: bool,
    /// Filter path relative to the graph root; empty means no filter.
    pub filter: Vec<char>,
    /// Optional selection restricting which items are rendered.
    pub selection: Option<RenderSelection>,
}

impl Renderer {
    /// Create a renderer with default configuration.
    pub fn new() -> (r: Renderer)
        ensures
            r.format == RenderFormat::Rust,
            !r.render_auto_impls,
            !r.render_private_items,
            r.filter@ == Seq::<char>::empty(),
            r.selection is None,
    {
        Renderer {
            format: RenderFormat::Rust,
            render_auto_impls: false,
            render_private_items: false,
            filter: Vec::new(),
            selection: Option::None,
        }
    }

    /// Apply a filter: a path below the outermost module.
    pub fn with_filter(self, filter: &str) -> (r: Renderer)
        ensures
            r.filter@ == filter@,
            r.format == self.format,
            r.render_auto_impls == self.render_auto_impls,
            r.render_private_items == self.render_private_items,
            r.selection == self.selection,
    {
        Renderer { filter: chars_of(filter), ..self }
    }

    /// Select the output format to render.
    pub fn with_format(self, format: RenderFormat) -> (r: Renderer)
        ensures
            r.format == format,
            r.filter == self.filter,
            r.render_auto_impls == self.render_auto_impls,
            r.render_private_items == self.render_private_items,
            r.selection == self.selection,
    {
        Renderer { format, ..self }
    }

    /// Render compiler-synthesized trait implementations too?
    pub fn with_auto_impls(self, render_auto_impls: bool) -> (r: Renderer)
        ensures
            r.render_auto_impls == render_auto_impls,
            r.format == self.format,
            r.filter == self.filter,
            r.render_private_items == self.render_private_items,
            r.selection == self.selection,
    {
        Renderer { render_auto_impls, ..self }
    }

    /// Render private items?
    pub fn with_private_items(self, render_private_items: bool) -> (r: Renderer)
        ensures
            r.render_private_items == render_private_items,
            r.format == self.format,
            r.filter == self.filter,
            r.render_auto_impls == self.render_auto_impls,
            r.selection == self.selection,
    {
        Renderer { render_private_items, ..self }
    }

    /// Restrict rendering to the provided selection.
    pub fn with_selection(self, selection: RenderSelection) -> (r: Renderer)
        ensures
            r.selection == Option::Some(selection),
            r.format == self.format,
            r.filter == self.filter,
            r.render_auto_impls == self.render_auto_impls,
            r.render_private_items == self.render_private_items,
    {
        Renderer { selection: Option::Some(selection), ..self }
    }

    /// Whether the selection context includes a particular item; with no
    /// selection, everything is in context.
    pub open spec fn sel_context_contains(self, id: u64) -> bool {
        match self.selection {
            Option::None => true,
            Option::Some(s) => s.context_spec().contains(id),
        }
    }

    /// Whether an item was an explicit match in the selection.
    pub open spec fn sel_matches(self, id: u64) -> bool {
        match self.selection {
            Option::None => false,
            Option::Some(s) => s.matches_spec().contains(id),
        }
    }

    /// Whether a matched container should expand its children.
    pub open spec fn sel_expands(self, id: u64) -> bool {
        match self.selection {
            Option::None => true,
            Option::Some(s) => s.expanded_spec().contains(id),
        }
    }

    /// Whether a child should render given its parent and the selection.
    pub open spec fn sel_allows_child(self, parent: u64, child: u64) -> bool {
        match self.selection {
            Option::None => true,
            Option::Some(_) => self.sel_expands(parent) || self.sel_context_contains(child),
        }
    }

    /// Determine whether the selection context includes the item.
    pub fn selection_context_contains(&self, id: u64) -> (r: bool)
        ensures
            r == self.sel_context_contains(id),
    {
        match &self.selection {
            Option::None => true,
            Option::Some(s) => s.context_contains(id),
        }
    }

    /// Check if an item was an explicit match in the selection.
    pub fn selection_matches(&self, id: u64) -> (r: bool)
        ensures
            r == self.sel_matches(id),
    {
        match &self.selection {
            Option::None => false,
            Option::Some(s) => s.matches_contains(id),
        }
    }

    /// Determine whether a matched container should expand its children.
    pub fn selection_expands(&self, id: u64) -> (r: bool)
        ensures
            r == self.sel_expands(id),
    {
        match &self.selection {
            Option::None => true,
            Option::Some(s) => s.expanded_contains(id),
        }
    }

    /// Determine whether a child item should be rendered based on its parent
    /// and the selection context.
    pub fn selection_allows_child(&self, parent: u64, child: u64) -> (r: bool)
        ensures
            r == self.sel_allows_child(parent, child),
    {
        match &self.selection {
            Option::None => true,
            Option::Some(_) => self.selection_expands(parent) || self.selection_context_contains(
                child,
            ),
        }
    }
}

impl Default for Renderer {
    /// The default renderer configuration.
    fn default() -> (r: Renderer)
        ensures
            r.format == RenderFormat::Rust,
            !r.render_auto_impls,
            !r.render_private_items,
            r.filter@ == Seq::<char>::empty(),
            r.selection is None,
    {
        Renderer::new()
    }
}

} // verus!
