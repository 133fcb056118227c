//! The search index and the selection builder: the item graph flattened
//! into searchable entries honoring the visibility policy, free-text search
//! over them, and conversion of search results into the three-set selection
//! consumed by the renderer.

use vstd::prelude::*;

verus! {

use crate::config::RenderSelection;
use crate::graph::ItemGraph;
use crate::model::{Id, Item, ItemKind, StructKind, VariantKind};
use crate::paths::{ppush, ppush_spec};
use crate::render::item_when;
use crate::signature::signature_of;
use crate::syntax::lit;
use crate::text::{
    chars_of,
    contains_seq,
    contains_sub,
    fold_char,
    fold_chars,
    string_of,
};

/// The active search domains.
#[derive(Clone, Copy, Debug, PartialEq, Eq, Structural)]
pub struct SearchDomain {
    /// Match against item names.
    pub name: bool,
    /// Match against documentation text.
    pub doc: bool,
    /// Match against canonical paths.
    pub path: bool,
    /// Match against rendered signatures.
    pub signature: bool,
}

impl SearchDomain {
    /// No domain active.
    pub fn empty() -> (r: SearchDomain)
        ensures
            !r.name && !r.doc && !r.path && !r.signature,
    {
        SearchDomain { name: false, doc: false, path: false, signature: false }
    }

    /// Only the name domain.
    pub fn names() -> (r: SearchDomain)
        ensures
            r.name && !r.doc && !r.path && !r.signature,
    {
        SearchDomain { name: true, doc: false, path: false, signature: false }
    }

    /// Only the documentation domain.
    pub fn docs() -> (r: SearchDomain)
        ensures
            !r.name && r.doc && !r.path && !r.signature,
    {
        SearchDomain { name: false, doc: true, path: false, signature: false }
    }

    /// Only the path domain.
    pub fn paths() -> (r: SearchDomain)
        ensures
            !r.name && !r.doc && r.path && !r.signature,
    {
        SearchDomain { name: false, doc: false, path: true, signature: false }
    }

    /// Only the signature domain.
    pub fn signatures() -> (r: SearchDomain)
        ensures
            !r.name && !r.doc && !r.path && r.signature,
    {
        SearchDomain { name: false, doc: false, path: false, signature: true }
    }

    /// The union of two domain sets.
    pub fn or(self, other: SearchDomain) -> (r: SearchDomain)
        ensures
            r.name == (self.name || other.name),
            r.doc == (self.doc || other.doc),
            r.path == (self.path || other.path),
            r.signature == (self.signature || other.signature),
    {
        SearchDomain {
            name: self.name || other.name,
            doc: self.doc || other.doc,
            path: self.path || other.path,
            signature: self.signature || other.signature,
        }
    }

    /// Whether every domain of `other` is active in `self`.
    pub open spec fn contains_spec(self, other: SearchDomain) -> bool {
        &&& (other.name ==> self.name)
        &&& (other.doc ==> self.doc)
        &&& (other.path ==> self.path)
        &&& (other.signature ==> self.signature)
    }

    /// Test whether every domain of `other` is active in `self`.
    pub fn contains(&self, other: SearchDomain) -> (r: bool)
        ensures
            r == self.contains_spec(other),
    {
        (!other.name || self.name) && (!other.doc || self.doc) && (!other.path || self.path) && (
        !other.signature || self.signature)
    }
}

impl Default for SearchDomain {
    /// The default domains: names, documentation and signatures, but not
    /// paths.
    fn default() -> (r: SearchDomain)
        ensures
            r.name && r.doc && !r.path && r.signature,
    {
        SearchDomain { name: true, doc: true, path: false, signature: true }
    }
}

/// The names of the active domains, in a fixed order.
pub fn describe_domains(d: SearchDomain) -> (r: Vec<String>)
    ensures
        crate::text::string_views(r@) == describe_domains_spec(d),
{
    let mut out: Vec<String> = Vec::new();
    if d.name {
        out.push(lit("name"));
    }
    if d.doc {
        out.push(lit("doc"));
    }
    if d.path {
        out.push(lit("path"));
    }
    if d.signature {
        out.push(lit("signature"));
    }
    proof {
        assert(crate::text::string_views(out@) =~= describe_domains_spec(d));
    }
    out
}

/// The names of the active domains.
pub open spec fn describe_domains_spec(d: SearchDomain) -> Seq<Seq<char>> {
    (if d.name {
        seq!["name"@]
    } else {
        Seq::empty()
    }) + (if d.doc {
        seq!["doc"@]
    } else {
        Seq::empty()
    }) + (if d.path {
        seq!["path"@]
    } else {
        Seq::empty()
    }) + (if d.signature {
        seq!["signature"@]
    } else {
        Seq::empty()
    })
}

/// The kind tag of a searchable entry.
#[derive(Clone, Copy, Debug, PartialEq, Eq, Structural)]
pub enum SearchItemKind {
    /// A module.
    Module,
    /// A struct-like type.
    Struct,
    /// An enum-like type.
    Enum,
    /// A trait declaration.
    Trait,
    /// A trait alias.
    TraitAlias,
    /// A free function or method.
    Function,
    /// A constant or associated constant.
    Constant,
    /// A static.
    Static,
    /// A type alias or associated type.
    TypeAlias,
    /// A pattern or procedural macro.
    Macro,
    /// A primitive type.
    Primitive,
    /// An import.
    Use,
    /// A `union` declaration.
    Union,
    /// A field.
    Field,
    /// An enum variant.
    Variant,
}

impl SearchItemKind {
    /// A short label for listings.
    pub fn label(&self) -> (r: String)
        ensures
            r@ == self.label_spec(),
    {
        match self {
            SearchItemKind::Module => lit("mod"),
            SearchItemKind::Struct => lit("struct"),
            SearchItemKind::Enum => lit("enum"),
            SearchItemKind::Trait => lit("trait"),
            SearchItemKind::TraitAlias => lit("trait"),
            SearchItemKind::Function => lit("fn"),
            SearchItemKind::Constant => lit("const"),
            SearchItemKind::Static => lit("static"),
            SearchItemKind::TypeAlias => lit("type"),
            SearchItemKind::Macro => lit("macro"),
            SearchItemKind::Primitive => lit("primitive"),
            SearchItemKind::Use => lit("use"),
            SearchItemKind::Union => lit("union"),
            SearchItemKind::Field => lit("field"),
            SearchItemKind::Variant => lit("variant"),
        }
    }

    /// The label text of a kind.
    pub open spec fn label_spec(self) -> Seq<char> {
        match self {
            SearchItemKind::Module => "mod"@,
            SearchItemKind::Struct => "struct"@,
            SearchItemKind::Enum => "enum"@,
            SearchItemKind::Trait => "trait"@,
            SearchItemKind::TraitAlias => "trait"@,
            SearchItemKind::Function => "fn"@,
            SearchItemKind::Constant => "const"@,
            SearchItemKind::Static => "static"@,
            SearchItemKind::TypeAlias => "type"@,
            SearchItemKind::Macro => "macro"@,
            SearchItemKind::Primitive => "primitive"@,
            SearchItemKind::Use => "use"@,
            SearchItemKind::Union => "union"@,
            SearchItemKind::Field => "field"@,
            SearchItemKind::Variant => "variant"@,
        }
    }

    /// Whether the kind is a container whose members can be expanded.
    pub open spec fn is_container_spec(self) -> bool {
        self is Module || self is Struct || self is Enum || self is Trait || self is Union
    }

    /// Test whether the kind is a container.
    pub fn is_container(&self) -> (r: bool)
        ensures
            r == self.is_container_spec(),
    {
        match self {
            SearchItemKind::Module => true,
            SearchItemKind::Struct => true,
            SearchItemKind::Enum => true,
            SearchItemKind::Trait => true,
            SearchItemKind::Union => true,
            _ => false,
        }
    }
}

/// One searchable entry: identifier, kind tag, canonical path, one-line
/// signature, raw name, documentation text, and the identifier chain of its
/// ancestors from the root down.
pub struct SearchEntry {
    /// The item's identifier.
    pub id: Id,
    /// The kind tag.
    pub kind: SearchItemKind,
    /// Root-qualified, segment-joined path.
    pub path_string: String,
    /// Declaration-head signature.
    pub signature: String,
    /// The raw declared name.
    pub raw_name: String,
    /// Documentation text; empty without documentation.
    pub doc: String,
    /// Ancestor identifiers, root first.
    pub ancestors: Vec<Id>,
}

/// Options controlling a search.
pub struct SearchOptions {
    /// The free-text query.
    pub query: String,
    /// The active domains.
    pub domains: SearchDomain,
    /// Case-sensitive matching?
    pub case_sensitive: bool,
    /// Include private items?
    pub include_private: bool,
    /// Expand matched containers?
    pub expand_containers: bool,
}

impl SearchOptions {
    /// Options with the given query and the default domains.
    pub fn new(query: &str) -> (r: SearchOptions)
        ensures
            r.query@ == query@,
            r.domains.name && r.domains.doc && !r.domains.path && r.domains.signature,
            !r.case_sensitive,
            !r.include_private,
            !r.expand_containers,
    {
        SearchOptions {
            query: query.to_owned(),
            domains: SearchDomain {
                name: true,
                doc: true,
                path: false,
                signature: true,
            },
            case_sensitive: false,
            include_private: false,
            expand_containers: false,
        }
    }
}

/// One search hit.
pub struct SearchResult {
    /// The matched item's identifier.
    pub id: Id,
    /// The kind tag.
    pub kind: SearchItemKind,
    /// Root-qualified path.
    pub path_string: String,
    /// The raw declared name.
    pub raw_name: String,
    /// The domains in which the query matched.
    pub matched: SearchDomain,
    /// Ancestor identifiers, root first.
    pub ancestors: Vec<Id>,
}

/// One line of a structured listing.
pub struct ListItem {
    /// The kind tag.
    pub kind: SearchItemKind,
    /// Root-qualified path.
    pub path: String,
}

/// The (kind, path) views of a listing.
pub open spec fn list_views(ls: Seq<ListItem>) -> Seq<(SearchItemKind, Seq<char>)> {
    ls.map_values(|l: ListItem| (l.kind, l.path@))
}

/// The outcome of a search: the hits and the rendered skeleton.
pub struct SearchResponse {
    /// The hits, in index order.
    pub results: Vec<SearchResult>,
    /// The skeleton narrowed to the hits.
    pub rendered: String,
}

/// The case-folded form of a text under a sensitivity flag.
pub open spec fn norm_spec(s: Seq<char>, case_sensitive: bool) -> Seq<char> {
    if case_sensitive {
        s
    } else {
        s.map_values(|c: char| fold_char(c))
    }
}

/// Whether the query occurs in a field under the sensitivity flag.
pub open spec fn field_match(field: Seq<char>, q: Seq<char>, case_sensitive: bool) -> bool {
    contains_sub(norm_spec(field, case_sensitive), norm_spec(q, case_sensitive))
}

/// The domains in which an entry matches the options.
pub open spec fn matched_spec(e: SearchEntry, o: SearchOptions) -> SearchDomain {
    SearchDomain {
        name: o.domains.name && field_match(e.raw_name@, o.query@, o.case_sensitive),
        doc: o.domains.doc && field_match(e.doc@, o.query@, o.case_sensitive),
        path: o.domains.path && field_match(e.path_string@, o.query@, o.case_sensitive),
        signature: o.domains.signature && field_match(e.signature@, o.query@, o.case_sensitive),
    }
}

/// Whether an entry matches in any active domain.
pub open spec fn entry_matches(e: SearchEntry, o: SearchOptions) -> bool {
    let m = matched_spec(e, o);
    m.name || m.doc || m.path || m.signature
}

/// The indices of the matching entries, in order.
pub open spec fn match_indices(entries: Seq<SearchEntry>, o: SearchOptions, i: int) -> Seq<int>
    decreases entries.len() - i,
{
    if i < 0 || i >= entries.len() {
        Seq::empty()
    } else {
        let rest = match_indices(entries, o, i + 1);
        if entry_matches(entries[i], o) {
            seq![i] + rest
        } else {
            rest
        }
    }
}

/// A result reports one entry faithfully.
pub open spec fn result_of_entry(r: SearchResult, e: SearchEntry, o: SearchOptions) -> bool {
    &&& r.id == e.id
    &&& r.kind == e.kind
    &&& r.path_string@ == e.path_string@
    &&& r.raw_name@ == e.raw_name@
    &&& r.matched == matched_spec(e, o)
    &&& r.ancestors@ == e.ancestors@
}

/// Case-fold a text unless matching case-sensitively.
fn norm(s: &str, case_sensitive: bool) -> (r: Vec<char>)
    ensures
        r@ == norm_spec(s@, case_sensitive),
{
    let cs = chars_of(s);
    if case_sensitive {
        cs
    } else {
        let f = fold_chars(&cs);
        proof {
            assert(f@ =~= s@.map_values(|c: char| fold_char(c)));
        }
        f
    }
}

/// The content of one searchable entry, as mathematical values.
pub ghost struct EntryView {
    /// The item's identifier.
    pub id: Id,
    /// The kind tag.
    pub kind: SearchItemKind,
    /// The canonical path text.
    pub path: Seq<char>,
    /// The one-line signature text.
    pub signature: Seq<char>,
    /// The raw name text.
    pub name: Seq<char>,
    /// The documentation text.
    pub doc: Seq<char>,
    /// The ancestor identifiers, root first.
    pub ancestors: Seq<Id>,
}

/// The view of one entry.
pub open spec fn entry_view(e: SearchEntry) -> EntryView {
    EntryView {
        id: e.id,
        kind: e.kind,
        path: e.path_string@,
        signature: e.signature@,
        name: e.raw_name@,
        doc: e.doc@,
        ancestors: e.ancestors@,
    }
}

/// The views of a list of entries.
pub open spec fn entry_views(es: Seq<SearchEntry>) -> Seq<EntryView> {
    es.map_values(|e: SearchEntry| entry_view(e))
}

/// The raw name text recorded for an item: its declared name, or a
/// placeholder when it has none.
pub open spec fn raw_name_spec(item: Item) -> Seq<char> {
    match item.name {
        Option::Some(n) => n@,
        Option::None => "?"@,
    }
}

/// The documentation text recorded for an item; empty without any.
pub open spec fn doc_of_spec(item: Item) -> Seq<char> {
    match item.docs {
        Option::Some(d) => d@,
        Option::None => Seq::empty(),
    }
}

/// The entry recorded for one item at one path under one ancestor chain.
pub open spec fn mk_entry(g: ItemGraph, id: Id, kind: SearchItemKind, path: Seq<char>, anc: Seq<
    Id,
>) -> EntryView {
    EntryView {
        id,
        kind,
        path,
        signature: crate::signature::signature_spec(g.at(id)),
        name: raw_name_spec(g.at(id)),
        doc: doc_of_spec(g.at(id)),
        ancestors: anc,
    }
}

/// Whether the visibility policy records an item.
pub open spec fn recorded_spec(inc: bool, item: Item) -> bool {
    inc || item.visibility is Public
}

/// The entry kind under which a member of an implementation block or trait
/// is indexed, when it is indexed at all.
pub open spec fn member_kind_spec(item: Item) -> Option<SearchItemKind> {
    match item.inner {
        ItemKind::Function(_) => Option::Some(SearchItemKind::Function),
        ItemKind::Constant { .. } => Option::Some(SearchItemKind::Constant),
        ItemKind::AssocConst { .. } => Option::Some(SearchItemKind::Constant),
        ItemKind::AssocType { .. } => Option::Some(SearchItemKind::TypeAlias),
        ItemKind::TypeAlias(_) => Option::Some(SearchItemKind::TypeAlias),
        _ => Option::None,
    }
}

/// The entries recorded for the fields of one type body, in order.
pub open spec fn fields_entries(
    g: ItemGraph,
    inc: bool,
    type_path: Seq<char>,
    anc: Seq<Id>,
    fields: Seq<Id>,
) -> Seq<EntryView>
    decreases fields.len(),
{
    if fields.len() == 0 {
        Seq::empty()
    } else {
        let rest = fields_entries(g, inc, type_path, anc, fields.drop_first());
        if g.contains(fields[0]) && recorded_spec(inc, g.at(fields[0])) {
            seq![
                mk_entry(
                    g,
                    fields[0],
                    SearchItemKind::Field,
                    ppush_spec(type_path, raw_name_spec(g.at(fields[0]))),
                    anc,
                ),
            ] + rest
        } else {
            rest
        }
    }
}

/// The entries recorded for the members of one implementation block or
/// trait, in order.
pub open spec fn members_entries(
    g: ItemGraph,
    inc: bool,
    type_path: Seq<char>,
    anc: Seq<Id>,
    members: Seq<Id>,
) -> Seq<EntryView>
    decreases members.len(),
{
    if members.len() == 0 {
        Seq::empty()
    } else {
        let rest = members_entries(g, inc, type_path, anc, members.drop_first());
        if g.contains(members[0]) && recorded_spec(inc, g.at(members[0]))
            && member_kind_spec(g.at(members[0])) is Some {
            seq![
                mk_entry(
                    g,
                    members[0],
                    member_kind_spec(g.at(members[0]))->0,
                    ppush_spec(type_path, raw_name_spec(g.at(members[0]))),
                    anc,
                ),
            ] + rest
        } else {
            rest
        }
    }
}

/// The entries recorded for the variants of one enum, in order.
pub open spec fn variants_entries(
    g: ItemGraph,
    inc: bool,
    enum_path: Seq<char>,
    anc: Seq<Id>,
    variants: Seq<Id>,
) -> Seq<EntryView>
    decreases variants.len(),
{
    if variants.len() == 0 {
        Seq::empty()
    } else {
        let rest = variants_entries(g, inc, enum_path, anc, variants.drop_first());
        if g.contains(variants[0]) && recorded_spec(inc, g.at(variants[0])) {
            seq![
                mk_entry(
                    g,
                    variants[0],
                    SearchItemKind::Variant,
                    ppush_spec(enum_path, raw_name_spec(g.at(variants[0]))),
                    anc,
                ),
            ] + rest
        } else {
            rest
        }
    }
}

/// The entries recorded for a type's implementation blocks: each block's
/// members, at the type's path, with the block in the ancestor chain.
pub open spec fn impls_entries(
    g: ItemGraph,
    inc: bool,
    type_path: Seq<char>,
    type_anc: Seq<Id>,
    impls: Seq<Id>,
) -> Seq<EntryView>
    decreases impls.len(),
{
    if impls.len() == 0 {
        Seq::empty()
    } else {
        let rest = impls_entries(g, inc, type_path, type_anc, impls.drop_first());
        let here = if g.contains(impls[0]) && g.at(impls[0]).inner is Impl {
            members_entries(
                g,
                inc,
                type_path,
                type_anc.push(impls[0]),
                g.at(impls[0]).inner->Impl_0.items@,
            )
        } else {
            Seq::empty()
        };
        here + rest
    }
}

/// The entry recorded for the item itself, when the policy records it.
pub open spec fn head_entry(
    g: ItemGraph,
    inc: bool,
    id: Id,
    kind: SearchItemKind,
    path: Seq<char>,
    anc: Seq<Id>,
) -> Seq<EntryView> {
    if recorded_spec(inc, g.at(id)) {
        seq![mk_entry(g, id, kind, path, anc)]
    } else {
        Seq::empty()
    }
}

/// The entries the index records for one item and everything searchable
/// below it: the item itself under the visibility policy, then — by kind —
/// module contents recursively, type fields and implementation members,
/// enum variants, and trait members, in depth-first declaration order.
pub open spec fn index_item_spec(
    g: ItemGraph,
    inc: bool,
    prefix: Seq<char>,
    anc: Seq<Id>,
    id: Id,
) -> Seq<EntryView>
    decreases g.rank_of(id), 1int, 0int,
        when item_when(g, id)
{
    let item = g.at(id);
    let path = ppush_spec(prefix, raw_name_spec(item));
    match item.inner {
        ItemKind::Module(m) => head_entry(g, inc, id, SearchItemKind::Module, path, anc)
            + index_module_items_spec(g, inc, path, anc.push(id), m.items@, id),
        ItemKind::Struct(s) => head_entry(g, inc, id, SearchItemKind::Struct, path, anc) + (
        match s.kind {
            StructKind::Plain { fields, .. } => fields_entries(
                g,
                inc,
                path,
                anc.push(id),
                fields@,
            ),
            StructKind::Tuple(fields) => fields_entries(
                g,
                inc,
                path,
                anc.push(id),
                crate::graph::flatten_opt(fields@),
            ),
            StructKind::Unit => Seq::empty(),
        }) + impls_entries(g, inc, path, anc.push(id), s.impls@),
        ItemKind::Enum(e) => head_entry(g, inc, id, SearchItemKind::Enum, path, anc)
            + variants_entries(g, inc, path, anc.push(id), e.variants@) + impls_entries(
            g,
            inc,
            path,
            anc.push(id),
            e.impls@,
        ),
        ItemKind::Trait(t) => head_entry(g, inc, id, SearchItemKind::Trait, path, anc)
            + members_entries(g, inc, path, anc.push(id), t.items@),
        ItemKind::Use(_) => head_entry(g, inc, id, SearchItemKind::Use, path, anc),
        ItemKind::Function(_) => head_entry(g, inc, id, SearchItemKind::Function, path, anc),
        ItemKind::Constant { .. } => head_entry(g, inc, id, SearchItemKind::Constant, path, anc),
        ItemKind::Static(_) => head_entry(g, inc, id, SearchItemKind::Static, path, anc),
        ItemKind::TypeAlias(_) => head_entry(g, inc, id, SearchItemKind::TypeAlias, path, anc),
        ItemKind::TraitAlias(_) => head_entry(g, inc, id, SearchItemKind::TraitAlias, path, anc),
        ItemKind::Macro(_) => head_entry(g, inc, id, SearchItemKind::Macro, path, anc),
        ItemKind::ProcMacro(_) => head_entry(g, inc, id, SearchItemKind::Macro, path, anc),
        ItemKind::Union(_) => head_entry(g, inc, id, SearchItemKind::Union, path, anc),
        ItemKind::Primitive => head_entry(g, inc, id, SearchItemKind::Primitive, path, anc),
        _ => Seq::empty(),
    }
}

/// The entries recorded for a module's children, in declaration order.
pub open spec fn index_module_items_spec(
    g: ItemGraph,
    inc: bool,
    prefix: Seq<char>,
    anc: Seq<Id>,
    ids: Seq<Id>,
    parent: Id,
) -> Seq<EntryView>
    decreases g.rank_of(parent), 0int, ids.len(),
        when g.wf() && crate::render::kid_facts(g, parent, ids)
{
    if ids.len() == 0 {
        Seq::empty()
    } else {
        let here = if g.contains(ids[0]) {
            index_item_spec(g, inc, prefix, anc, ids[0])
        } else {
            Seq::empty()
        };
        here + index_module_items_spec(g, inc, prefix, anc, ids.drop_first(), parent)
    }
}

proof fn lemma_entry_views_push(pre: Seq<SearchEntry>, e: SearchEntry)
    ensures
        entry_views(pre.push(e)) =~= entry_views(pre).push(entry_view(e)),
{
    assert forall|k: int| 0 <= k < pre.len() + 1 implies #[trigger] entry_views(pre.push(e))[k]
        == entry_views(pre).push(entry_view(e))[k] by {
        if k < pre.len() {
            assert(entry_views(pre.push(e))[k] == entry_view(pre.push(e)[k]));
            assert(entry_views(pre)[k] == entry_view(pre[k]));
        }
    }
}

/// Record one entry for an item.
fn push_entry(
    g: &ItemGraph,
    out: &mut Vec<SearchEntry>,
    id: Id,
    kind: SearchItemKind,
    path: &str,
    ancestors: &Vec<Id>,
)
    requires
        g.wf(),
        g.contains(id),
    ensures
        entry_views(final(out)@) == entry_views(old(out)@).push(
            mk_entry(*g, id, kind, path@, ancestors@),
        ),
{
    let item = g.must_get(id);
    let raw_name = match &item.name {
        Option::Some(n) => string_of(n),
        Option::None => lit("?"),
    };
    let doc = match &item.docs {
        Option::Some(d) => string_of(d),
        Option::None => String::new(),
    };
    let entry = SearchEntry {
        id,
        kind,
        path_string: path.to_owned(),
        signature: signature_of(item),
        raw_name,
        doc,
        ancestors: crate::graph::copy_ids(ancestors),
    };
    proof {
        assert(entry_view(entry) == mk_entry(*g, id, kind, path@, ancestors@));
    }
    let ghost pre = out@;
    out.push(entry);
    proof {
        lemma_entry_views_push(pre, entry);
    }
}

/// The raw name of an item, for paths and entries.
fn raw_name_of(item: &Item) -> (r: String)
    ensures
        r@ == raw_name_spec(*item),
{
    match &item.name {
        Option::Some(n) => string_of(n),
        Option::None => lit("?"),
    }
}

/// The entry kind of a member of an implementation block or trait, when it
/// is indexed at all.
fn member_kind(item: &Item) -> (r: Option<SearchItemKind>)
    ensures
        r == member_kind_spec(*item),
{
    match &item.inner {
        ItemKind::Function(_) => Option::Some(SearchItemKind::Function),
        ItemKind::Constant { .. } => Option::Some(SearchItemKind::Constant),
        ItemKind::AssocConst { .. } => Option::Some(SearchItemKind::Constant),
        ItemKind::AssocType { .. } => Option::Some(SearchItemKind::TypeAlias),
        ItemKind::TypeAlias(_) => Option::Some(SearchItemKind::TypeAlias),
        _ => Option::None,
    }
}

/// Record the members of an implementation block or trait.
fn index_members(
    g: &ItemGraph,
    include_private: bool,
    type_path: &str,
    ancestors: &Vec<Id>,
    members: &Vec<Id>,
    out: &mut Vec<SearchEntry>,
)
    requires
        g.wf(),
    ensures
        entry_views(final(out)@) == entry_views(old(out)@) + members_entries(
            *g,
            include_private,
            type_path@,
            ancestors@,
            members@,
        ),
{
    let ghost whole = members@;
    let ghost start = entry_views(out@);
    let mut i: usize = 0;
    proof {
        assert(whole.subrange(0, whole.len() as int) =~= whole);
        assert(start + members_entries(*g, include_private, type_path@, ancestors@, whole)
            =~= start + members_entries(*g, include_private, type_path@, ancestors@, whole));
    }
    while i < members.len()
        invariant
            i <= whole.len(),
            whole == members@,
            g.wf(),
            entry_views(out@) + members_entries(
                *g,
                include_private,
                type_path@,
                ancestors@,
                whole.subrange(i as int, whole.len() as int),
            ) == start + members_entries(*g, include_private, type_path@, ancestors@, whole),
        decreases members.len() - i,
    {
        let ghost pre = entry_views(out@);
        proof {
            assert(whole.subrange(i as int, whole.len() as int).drop_first() =~= whole.subrange(
                i + 1,
                whole.len() as int,
            ));
            assert(whole.subrange(i as int, whole.len() as int)[0] == whole[i as int]);
        }
        match g.get(members[i]) {
            Option::Some(member) => {
                if include_private || member.visibility.is_public() {
                    match member_kind(member) {
                        Option::Some(kind) => {
                            let mpath = ppush(type_path, raw_name_of(member).as_str());
                            push_entry(g, out, members[i], kind, mpath.as_str(), ancestors);
                        },
                        Option::None => {},
                    }
                }
            },
            Option::None => {},
        }
        proof {
            assert(entry_views(out@) + members_entries(
                *g,
                include_private,
                type_path@,
                ancestors@,
                whole.subrange(i + 1, whole.len() as int),
            ) =~= pre + members_entries(
                *g,
                include_private,
                type_path@,
                ancestors@,
                whole.subrange(i as int, whole.len() as int),
            ));
        }
        i = i + 1;
    }
    proof {
        assert(whole.subrange(whole.len() as int, whole.len() as int) =~= Seq::<Id>::empty());
        assert(entry_views(out@) + members_entries(
            *g,
            include_private,
            type_path@,
            ancestors@,
            Seq::empty(),
        ) =~= entry_views(out@));
    }
}

/// Record the fields of a struct-like body.
fn index_fields(
    g: &ItemGraph,
    include_private: bool,
    type_path: &str,
    ancestors: &Vec<Id>,
    fields: &Vec<Id>,
    out: &mut Vec<SearchEntry>,
)
    requires
        g.wf(),
    ensures
        entry_views(final(out)@) == entry_views(old(out)@) + fields_entries(
            *g,
            include_private,
            type_path@,
            ancestors@,
            fields@,
        ),
{
    let ghost whole = fields@;
    let ghost start = entry_views(out@);
    let mut i: usize = 0;
    proof {
        assert(whole.subrange(0, whole.len() as int) =~= whole);
    }
    while i < fields.len()
        invariant
            i <= whole.len(),
            whole == fields@,
            g.wf(),
            entry_views(out@) + fields_entries(
                *g,
                include_private,
                type_path@,
                ancestors@,
                whole.subrange(i as int, whole.len() as int),
            ) == start + fields_entries(*g, include_private, type_path@, ancestors@, whole),
        decreases fields.len() - i,
    {
        let ghost pre = entry_views(out@);
        proof {
            assert(whole.subrange(i as int, whole.len() as int).drop_first() =~= whole.subrange(
                i + 1,
                whole.len() as int,
            ));
            assert(whole.subrange(i as int, whole.len() as int)[0] == whole[i as int]);
        }
        match g.get(fields[i]) {
            Option::Some(field) => {
                if include_private || field.visibility.is_public() {
                    let fpath = ppush(type_path, raw_name_of(field).as_str());
                    push_entry(g, out, fields[i], SearchItemKind::Field, fpath.as_str(), ancestors);
                }
            },
            Option::None => {},
        }
        proof {
            assert(entry_views(out@) + fields_entries(
                *g,
                include_private,
                type_path@,
                ancestors@,
                whole.subrange(i + 1, whole.len() as int),
            ) =~= pre + fields_entries(
                *g,
                include_private,
                type_path@,
                ancestors@,
                whole.subrange(i as int, whole.len() as int),
            ));
        }
        i = i + 1;
    }
    proof {
        assert(whole.subrange(whole.len() as int, whole.len() as int) =~= Seq::<Id>::empty());
        assert(entry_views(out@) + fields_entries(
            *g,
            include_private,
            type_path@,
            ancestors@,
            Seq::empty(),
        ) =~= entry_views(out@));
    }
}

/// Record the variants of an enum.
fn index_variants(
    g: &ItemGraph,
    include_private: bool,
    enum_path: &str,
    ancestors: &Vec<Id>,
    variants: &Vec<Id>,
    out: &mut Vec<SearchEntry>,
)
    requires
        g.wf(),
    ensures
        entry_views(final(out)@) == entry_views(old(out)@) + variants_entries(
            *g,
            include_private,
            enum_path@,
            ancestors@,
            variants@,
        ),
{
    let ghost whole = variants@;
    let ghost start = entry_views(out@);
    let mut i: usize = 0;
    proof {
        assert(whole.subrange(0, whole.len() as int) =~= whole);
    }
    while i < variants.len()
        invariant
            i <= whole.len(),
            whole == variants@,
            g.wf(),
            entry_views(out@) + variants_entries(
                *g,
                include_private,
                enum_path@,
                ancestors@,
                whole.subrange(i as int, whole.len() as int),
            ) == start + variants_entries(*g, include_private, enum_path@, ancestors@, whole),
        decreases variants.len() - i,
    {
        let ghost pre = entry_views(out@);
        proof {
            assert(whole.subrange(i as int, whole.len() as int).drop_first() =~= whole.subrange(
                i + 1,
                whole.len() as int,
            ));
            assert(whole.subrange(i as int, whole.len() as int)[0] == whole[i as int]);
        }
        match g.get(variants[i]) {
            Option::Some(variant) => {
                if include_private || variant.visibility.is_public() {
                    let vpath = ppush(enum_path, raw_name_of(variant).as_str());
                    push_entry(
                        g,
                        out,
                        variants[i],
                        SearchItemKind::Variant,
                        vpath.as_str(),
                        ancestors,
                    );
                }
            },
            Option::None => {},
        }
        proof {
            assert(entry_views(out@) + variants_entries(
                *g,
                include_private,
                enum_path@,
                ancestors@,
                whole.subrange(i + 1, whole.len() as int),
            ) =~= pre + variants_entries(
                *g,
                include_private,
                enum_path@,
                ancestors@,
                whole.subrange(i as int, whole.len() as int),
            ));
        }
        i = i + 1;
    }
    proof {
        assert(whole.subrange(whole.len() as int, whole.len() as int) =~= Seq::<Id>::empty());
        assert(entry_views(out@) + variants_entries(
            *g,
            include_private,
            enum_path@,
            ancestors@,
            Seq::empty(),
        ) =~= entry_views(out@));
    }
}

/// Record the implementation blocks of a type: their members, at the
/// type's path.
fn index_type_impls(
    g: &ItemGraph,
    include_private: bool,
    type_path: &str,
    type_ancestors: &Vec<Id>,
    impls: &Vec<Id>,
    out: &mut Vec<SearchEntry>,
)
    requires
        g.wf(),
    ensures
        entry_views(final(out)@) == entry_views(old(out)@) + impls_entries(
            *g,
            include_private,
            type_path@,
            type_ancestors@,
            impls@,
        ),
{
    let ghost whole = impls@;
    let ghost start = entry_views(out@);
    let mut i: usize = 0;
    proof {
        assert(whole.subrange(0, whole.len() as int) =~= whole);
    }
    while i < impls.len()
        invariant
            i <= whole.len(),
            whole == impls@,
            g.wf(),
            entry_views(out@) + impls_entries(
                *g,
                include_private,
                type_path@,
                type_ancestors@,
                whole.subrange(i as int, whole.len() as int),
            ) == start + impls_entries(*g, include_private, type_path@, type_ancestors@, whole),
        decreases impls.len() - i,
    {
        let ghost pre = entry_views(out@);
        proof {
            assert(whole.subrange(i as int, whole.len() as int).drop_first() =~= whole.subrange(
                i + 1,
                whole.len() as int,
            ));
            assert(whole.subrange(i as int, whole.len() as int)[0] == whole[i as int]);
        }
        match g.get(impls[i]) {
            Option::Some(impl_item) => {
                match &impl_item.inner {
                    ItemKind::Impl(im) => {
                        let mut anc = crate::graph::copy_ids(type_ancestors);
                        anc.push(impls[i]);
                        proof {
                            assert(anc@ =~= type_ancestors@.push(whole[i as int]));
                        }
                        index_members(g, include_private, type_path, &anc, &im.items, out);
                    },
                    _ => {},
                }
            },
            Option::None => {},
        }
        proof {
            assert(entry_views(out@) + impls_entries(
                *g,
                include_private,
                type_path@,
                type_ancestors@,
                whole.subrange(i + 1, whole.len() as int),
            ) =~= pre + impls_entries(
                *g,
                include_private,
                type_path@,
                type_ancestors@,
                whole.subrange(i as int, whole.len() as int),
            ));
        }
        i = i + 1;
    }
    proof {
        assert(whole.subrange(whole.len() as int, whole.len() as int) =~= Seq::<Id>::empty());
        assert(entry_views(out@) + impls_entries(
            *g,
            include_private,
            type_path@,
            type_ancestors@,
            Seq::empty(),
        ) =~= entry_views(out@));
    }
}

/// Record one item and, depth first, everything searchable below it.
fn index_item(
    g: &ItemGraph,
    include_private: bool,
    prefix: &str,
    ancestors: &Vec<Id>,
    id: Id,
    out: &mut Vec<SearchEntry>,
)
    requires
        g.wf(),
        g.contains(id),
    ensures
        entry_views(final(out)@) == entry_views(old(out)@) + index_item_spec(
            *g,
            include_private,
            prefix@,
            ancestors@,
            id,
        ),
    decreases g.rank_of(id), 1int,
{
    let ghost start = entry_views(out@);
    let item = g.must_get(id);
    let visible = include_private || item.visibility.is_public();
    let path = ppush(prefix, raw_name_of(item).as_str());
    match &item.inner {
        ItemKind::Module(m) => {
            if visible {
                push_entry(g, out, id, SearchItemKind::Module, path.as_str(), ancestors);
            }
            proof {
                assert(entry_views(out@) =~= start + head_entry(
                    *g,
                    include_private,
                    id,
                    SearchItemKind::Module,
                    path@,
                    ancestors@,
                ));
            }
            let ghost after_head = entry_views(out@);
            let mut anc = crate::graph::copy_ids(ancestors);
            anc.push(id);
            proof {
                assert(anc@ =~= ancestors@.push(id));
                g.lemma_module_kids(id);
                assert(crate::render::kid_facts(*g, id, m.items@));
            }
            let ghost whole = m.items@;
            let mut i: usize = 0;
            proof {
                assert(whole.subrange(0, whole.len() as int) =~= whole);
            }
            while i < m.items.len()
                invariant
                    i <= whole.len(),
                    whole == m.items@,
                    g.wf(),
                    anc@ == ancestors@.push(id),
                    forall|k: int|
                        0 <= k < whole.len() ==> g.contains(#[trigger] whole[k]) && g.rank_of(
                            whole[k],
                        ) < g.rank_of(id),
                    entry_views(out@) + index_module_items_spec(
                        *g,
                        include_private,
                        path@,
                        anc@,
                        whole.subrange(i as int, whole.len() as int),
                        id,
                    ) == after_head + index_module_items_spec(
                        *g,
                        include_private,
                        path@,
                        anc@,
                        whole,
                        id,
                    ),
                decreases m.items.len() - i,
            {
                let ghost pre = entry_views(out@);
                proof {
                    assert(whole.subrange(i as int, whole.len() as int).drop_first()
                        =~= whole.subrange(i + 1, whole.len() as int));
                    assert(whole.subrange(i as int, whole.len() as int)[0] == whole[i as int]);
                    assert forall|k: int|
                        0 <= k < whole.subrange(i as int, whole.len() as int).len() && g.contains(
                            #[trigger] whole.subrange(i as int, whole.len() as int)[k],
                        ) implies g.rank_of(whole.subrange(i as int, whole.len() as int)[k])
                        < g.rank_of(id) by {
                        assert(whole.subrange(i as int, whole.len() as int)[k] == whole[i + k]);
                    }
                }
                index_item(g, include_private, path.as_str(), &anc, m.items[i], out);
                proof {
                    assert(entry_views(out@) + index_module_items_spec(
                        *g,
                        include_private,
                        path@,
                        anc@,
                        whole.subrange(i + 1, whole.len() as int),
                        id,
                    ) =~= pre + index_module_items_spec(
                        *g,
                        include_private,
                        path@,
                        anc@,
                        whole.subrange(i as int, whole.len() as int),
                        id,
                    ));
                }
                i = i + 1;
            }
            proof {
                assert(whole.subrange(whole.len() as int, whole.len() as int)
                    =~= Seq::<Id>::empty());
                assert(entry_views(out@) + index_module_items_spec(
                    *g,
                    include_private,
                    path@,
                    anc@,
                    Seq::empty(),
                    id,
                ) =~= entry_views(out@));
                assert(entry_views(out@) =~= start + index_item_spec(
                    *g,
                    include_private,
                    prefix@,
                    ancestors@,
                    id,
                ));
            }
        },
        ItemKind::Struct(s) => {
            if visible {
                push_entry(g, out, id, SearchItemKind::Struct, path.as_str(), ancestors);
            }
            proof {
                assert(entry_views(out@) =~= start + head_entry(
                    *g,
                    include_private,
                    id,
                    SearchItemKind::Struct,
                    path@,
                    ancestors@,
                ));
            }
            let mut anc = crate::graph::copy_ids(ancestors);
            anc.push(id);
            proof {
                assert(anc@ =~= ancestors@.push(id));
            }
            match &s.kind {
                StructKind::Plain { fields, .. } => {
                    index_fields(g, include_private, path.as_str(), &anc, fields, out);
                },
                StructKind::Tuple(fields) => {
                    let flat = crate::graph::flatten(fields);
                    index_fields(g, include_private, path.as_str(), &anc, &flat, out);
                },
                StructKind::Unit => {},
            }
            index_type_impls(g, include_private, path.as_str(), &anc, &s.impls, out);
            proof {
                assert(entry_views(out@) =~= start + index_item_spec(
                    *g,
                    include_private,
                    prefix@,
                    ancestors@,
                    id,
                ));
            }
        },
        ItemKind::Enum(e) => {
            if visible {
                push_entry(g, out, id, SearchItemKind::Enum, path.as_str(), ancestors);
            }
            proof {
                assert(entry_views(out@) =~= start + head_entry(
                    *g,
                    include_private,
                    id,
                    SearchItemKind::Enum,
                    path@,
                    ancestors@,
                ));
            }
            let mut anc = crate::graph::copy_ids(ancestors);
            anc.push(id);
            proof {
                assert(anc@ =~= ancestors@.push(id));
            }
            index_variants(g, include_private, path.as_str(), &anc, &e.variants, out);
            index_type_impls(g, include_private, path.as_str(), &anc, &e.impls, out);
            proof {
                assert(entry_views(out@) =~= start + index_item_spec(
                    *g,
                    include_private,
                    prefix@,
                    ancestors@,
                    id,
                ));
            }
        },
        ItemKind::Trait(t) => {
            if visible {
                push_entry(g, out, id, SearchItemKind::Trait, path.as_str(), ancestors);
            }
            proof {
                assert(entry_views(out@) =~= start + head_entry(
                    *g,
                    include_private,
                    id,
                    SearchItemKind::Trait,
                    path@,
                    ancestors@,
                ));
            }
            let mut anc = crate::graph::copy_ids(ancestors);
            anc.push(id);
            proof {
                assert(anc@ =~= ancestors@.push(id));
            }
            index_members(g, include_private, path.as_str(), &anc, &t.items, out);
            proof {
                assert(entry_views(out@) =~= start + index_item_spec(
                    *g,
                    include_private,
                    prefix@,
                    ancestors@,
                    id,
                ));
            }
        },
        ItemKind::Use(_) => {
            if visible {
                push_entry(g, out, id, SearchItemKind::Use, path.as_str(), ancestors);
            }
            proof {
                assert(entry_views(out@) =~= start + index_item_spec(
                    *g,
                    include_private,
                    prefix@,
                    ancestors@,
                    id,
                ));
            }
        },
        ItemKind::Function(_) => {
            if visible {
                push_entry(g, out, id, SearchItemKind::Function, path.as_str(), ancestors);
            }
            proof {
                assert(entry_views(out@) =~= start + index_item_spec(
                    *g,
                    include_private,
                    prefix@,
                    ancestors@,
                    id,
                ));
            }
        },
        ItemKind::Constant { .. } => {
            if visible {
                push_entry(g, out, id, SearchItemKind::Constant, path.as_str(), ancestors);
            }
            proof {
                assert(entry_views(out@) =~= start + index_item_spec(
                    *g,
                    include_private,
                    prefix@,
                    ancestors@,
                    id,
                ));
            }
        },
        ItemKind::Static(_) => {
            if visible {
                push_entry(g, out, id, SearchItemKind::Static, path.as_str(), ancestors);
            }
            proof {
                assert(entry_views(out@) =~= start + index_item_spec(
                    *g,
                    include_private,
                    prefix@,
                    ancestors@,
                    id,
                ));
            }
        },
        ItemKind::TypeAlias(_) => {
            if visible {
                push_entry(g, out, id, SearchItemKind::TypeAlias, path.as_str(), ancestors);
            }
            proof {
                assert(entry_views(out@) =~= start + index_item_spec(
                    *g,
                    include_private,
                    prefix@,
                    ancestors@,
                    id,
                ));
            }
        },
        ItemKind::TraitAlias(_) => {
            if visible {
                push_entry(g, out, id, SearchItemKind::TraitAlias, path.as_str(), ancestors);
            }
            proof {
                assert(entry_views(out@) =~= start + index_item_spec(
                    *g,
                    include_private,
                    prefix@,
                    ancestors@,
                    id,
                ));
            }
        },
        ItemKind::Macro(_) => {
            if visible {
                push_entry(g, out, id, SearchItemKind::Macro, path.as_str(), ancestors);
            }
            proof {
                assert(entry_views(out@) =~= start + index_item_spec(
                    *g,
                    include_private,
                    prefix@,
                    ancestors@,
                    id,
                ));
            }
        },
        ItemKind::ProcMacro(_) => {
            if visible {
                push_entry(g, out, id, SearchItemKind::Macro, path.as_str(), ancestors);
            }
            proof {
                assert(entry_views(out@) =~= start + index_item_spec(
                    *g,
                    include_private,
                    prefix@,
                    ancestors@,
                    id,
                ));
            }
        },
        ItemKind::Union(_) => {
            if visible {
                push_entry(g, out, id, SearchItemKind::Union, path.as_str(), ancestors);
            }
            proof {
                assert(entry_views(out@) =~= start + index_item_spec(
                    *g,
                    include_private,
                    prefix@,
                    ancestors@,
                    id,
                ));
            }
        },
        ItemKind::Primitive => {
            if visible {
                push_entry(g, out, id, SearchItemKind::Primitive, path.as_str(), ancestors);
            }
            proof {
                assert(entry_views(out@) =~= start + index_item_spec(
                    *g,
                    include_private,
                    prefix@,
                    ancestors@,
                    id,
                ));
            }
        },
        _ => {
            proof {
                assert(entry_views(out@) =~= start + index_item_spec(
                    *g,
                    include_private,
                    prefix@,
                    ancestors@,
                    id,
                ));
            }
        },
    }
}


/// The search index: the flattened entries, in traversal order.
pub struct SearchIndex {
    entries: Vec<SearchEntry>,
}

impl SearchIndex {
    /// The entries, in traversal order.
    pub fn entries(&self) -> (r: &Vec<SearchEntry>)
        ensures
            r == self.entries_ref(),
    {
        &self.entries
    }

    /// The entries as a value.
    pub closed spec fn entries_ref(self) -> Vec<SearchEntry> {
        self.entries
    }

    /// Flatten an item graph into searchable entries: a depth-first
    /// traversal from the root visiting module contents, type fields and
    /// variants, and implementation and trait members, recording an item
    /// only when it is public or `include_private` is set. The entries are
    /// exactly those of the traversal, in its order, each carrying the
    /// item's canonical path, one-line signature, raw name, documentation
    /// and ancestor chain.
    pub fn build(g: &ItemGraph, include_private: bool) -> (r: SearchIndex)
        requires
            g.wf(),
        ensures
            entry_views(r.entries_ref()@) == index_item_spec(
                *g,
                include_private,
                Seq::empty(),
                Seq::empty(),
                g.root_spec(),
            ),
    {
        let mut entries: Vec<SearchEntry> = Vec::new();
        proof {
            g.lemma_wf_facts();
        }
        let empty_prefix = String::new();
        let anc: Vec<Id> = Vec::new();
        proof {
            assert(anc@ =~= Seq::<Id>::empty());
            assert(entry_views(entries@) =~= Seq::<EntryView>::empty());
        }
        index_item(g, include_private, empty_prefix.as_str(), &anc, g.root(), &mut entries);
        proof {
            assert(entry_views(entries@) =~= Seq::<EntryView>::empty() + index_item_spec(
                *g,
                include_private,
                Seq::empty(),
                Seq::empty(),
                g.root_spec(),
            ));
        }
        SearchIndex { entries }
    }

    /// Search the entries: an entry is a hit when any active domain,
    /// normalized under the case flag, contains the similarly normalized
    /// query. Hits preserve index order and record the matching domains.
    pub fn search(&self, options: &SearchOptions) -> (r: Vec<SearchResult>)
        ensures
            r@.len() == match_indices(self.entries_ref()@, *options, 0).len(),
            forall|k: int|
                0 <= k < r@.len() ==> result_of_entry(
                    #[trigger] r@[k],
                    self.entries_ref()@[match_indices(self.entries_ref()@, *options, 0)[k]],
                    *options,
                ),
    {
        let ghost es = self.entries@;
        let q = &options.query;
        let mut out: Vec<SearchResult> = Vec::new();
        let mut i: usize = 0;
        proof {
            assert(match_indices(es, *options, es.len() as int) =~= Seq::<int>::empty());
        }
        while i < self.entries.len()
            invariant
                i <= es.len(),
                es == self.entries@,
                q == options.query,
                out@.len() + match_indices(es, *options, i as int).len() == match_indices(
                    es,
                    *options,
                    0,
                ).len(),
                forall|k: int|
                    0 <= k < out@.len() ==> result_of_entry(
                        #[trigger] out@[k],
                        es[match_indices(es, *options, 0)[k]],
                        *options,
                    ),
                match_indices(es, *options, 0) =~= match_indices(es, *options, 0).subrange(
                    0,
                    out@.len() as int,
                ) + match_indices(es, *options, i as int),
            decreases self.entries.len() - i,
        {
            let e = &self.entries[i];
            let nq = norm(q.as_str(), options.case_sensitive);
            let m_name = options.domains.name && contains_seq(
                &norm(e.raw_name.as_str(), options.case_sensitive),
                &nq,
            );
            let m_doc = options.domains.doc && contains_seq(
                &norm(e.doc.as_str(), options.case_sensitive),
                &nq,
            );
            let m_path = options.domains.path && contains_seq(
                &norm(e.path_string.as_str(), options.case_sensitive),
                &nq,
            );
            let m_sig = options.domains.signature && contains_seq(
                &norm(e.signature.as_str(), options.case_sensitive),
                &nq,
            );
            let matched = SearchDomain { name: m_name, doc: m_doc, path: m_path, signature: m_sig };
            proof {
                assert(matched == matched_spec(es[i as int], *options));
            }
            if m_name || m_doc || m_path || m_sig {
                out.push(
                    SearchResult {
                        id: e.id,
                        kind: e.kind,
                        path_string: string_of(&chars_of(e.path_string.as_str())),
                        raw_name: string_of(&chars_of(e.raw_name.as_str())),
                        matched,
                        ancestors: crate::graph::copy_ids(&e.ancestors),
                    },
                );
            }
            proof {
                assert(match_indices(es, *options, i as int) == (if entry_matches(
                    es[i as int],
                    *options,
                ) {
                    seq![i as int] + match_indices(es, *options, i + 1)
                } else {
                    match_indices(es, *options, i + 1)
                }));
                if entry_matches(es[i as int], *options) {
                    assert(match_indices(es, *options, 0)[out@.len() - 1] == i as int);
                    assert(match_indices(es, *options, 0) =~= match_indices(
                        es,
                        *options,
                        0,
                    ).subrange(0, out@.len() as int) + match_indices(es, *options, i + 1));
                } else {
                    assert(match_indices(es, *options, 0) =~= match_indices(
                        es,
                        *options,
                        0,
                    ).subrange(0, out@.len() as int) + match_indices(es, *options, i + 1));
                }
            }
            i = i + 1;
        }
        out
    }
}

/// The results are exactly the matching entries, in index order, each
/// reported faithfully with its matched domains.
pub open spec fn results_match(
    results: Seq<SearchResult>,
    entries: Seq<SearchEntry>,
    o: SearchOptions,
) -> bool {
    &&& results.len() == match_indices(entries, o, 0).len()
    &&& forall|k: int|
        0 <= k < results.len() ==> result_of_entry(
            #[trigger] results[k],
            entries[match_indices(entries, o, 0)[k]],
            o,
        )
}

/// The (kind, path) pairs of the entries that belong in a plain listing:
/// every entry except imports, in index order.
pub open spec fn listing(entries: Seq<SearchEntry>) -> Seq<(SearchItemKind, Seq<char>)>
    decreases entries.len(),
{
    if entries.len() == 0 {
        Seq::empty()
    } else {
        let rest = listing(entries.drop_first());
        if entries[0].kind is Use {
            rest
        } else {
            seq![(entries[0].kind, entries[0].path_string@)] + rest
        }
    }
}

/// The (kind, path) pairs of the search results that belong in a listing.
pub open spec fn listing_results(results: Seq<SearchResult>) -> Seq<(SearchItemKind, Seq<char>)>
    decreases results.len(),
{
    if results.len() == 0 {
        Seq::empty()
    } else {
        let rest = listing_results(results.drop_first());
        if results[0].kind is Use {
            rest
        } else {
            seq![(results[0].kind, results[0].path_string@)] + rest
        }
    }
}

/// The set of identifiers among a list.
pub open spec fn ids_set(ids: Seq<Id>) -> Set<Id> {
    ids.to_set()
}

/// The matched identifiers of a result list.
pub open spec fn result_ids(rs: Seq<SearchResult>) -> Seq<Id> {
    rs.map_values(|r: SearchResult| r.id)
}

/// The ancestors of all results, concatenated.
pub open spec fn result_ancestors(rs: Seq<SearchResult>, i: int) -> Seq<Id>
    decreases rs.len() - i,
{
    if i < 0 || i >= rs.len() {
        Seq::empty()
    } else {
        rs[i].ancestors@ + result_ancestors(rs, i + 1)
    }
}

/// The matched container identifiers of a result list.
pub open spec fn container_ids(rs: Seq<SearchResult>, i: int) -> Seq<Id>
    decreases rs.len() - i,
{
    if i < 0 || i >= rs.len() {
        Seq::empty()
    } else {
        let rest = container_ids(rs, i + 1);
        if rs[i].kind.is_container_spec() {
            seq![rs[i].id] + rest
        } else {
            rest
        }
    }
}

/// True when an entry lies below one of the given containers: some
/// ancestor of the entry is among them.
pub open spec fn below_any(e: SearchEntry, containers: Seq<Id>) -> bool {
    exists|j: int| 0 <= j < e.ancestors@.len() && containers.contains(#[trigger] e.ancestors@[j])
}

/// The identifiers pulled into context by container expansion: every
/// indexed entry below an expanded container, together with that entry's
/// whole ancestor chain.
pub open spec fn expansion_extra(entries: Seq<SearchEntry>, containers: Seq<Id>, i: int) -> Seq<Id>
    decreases entries.len() - i,
{
    if i < 0 || i >= entries.len() {
        Seq::empty()
    } else {
        let rest = expansion_extra(entries, containers, i + 1);
        if below_any(entries[i], containers) {
            seq![entries[i].id] + entries[i].ancestors@ + rest
        } else {
            rest
        }
    }
}

/// Convert search results into the three-set selection: the matches are
/// the result identifiers; the context adds every ancestor of every match
/// and, under container expansion, every indexed entry below a matched
/// container together with its ancestor chain; the expanded set holds the
/// matched containers when expansion is on, and nothing otherwise.
pub fn build_render_selection(
    index: &SearchIndex,
    results: &Vec<SearchResult>,
    expand_containers: bool,
) -> (r: RenderSelection)
    ensures
        r.matches_spec() == result_ids(results@).to_set(),
        r.context_spec() == result_ids(results@).to_set().union(
            result_ancestors(results@, 0).to_set(),
        ).union(
            (if expand_containers {
                expansion_extra(index.entries_ref()@, container_ids(results@, 0), 0).to_set()
            } else {
                Set::<Id>::empty()
            }),
        ),
        r.expanded_spec() == (if expand_containers {
            container_ids(results@, 0).to_set()
        } else {
            Set::<Id>::empty()
        }),
{
    let mut matches: Vec<Id> = Vec::new();
    let mut context: Vec<Id> = Vec::new();
    let mut expanded: Vec<Id> = Vec::new();
    let mut i: usize = 0;
    proof {
        assert(result_ancestors(results@, results@.len() as int) =~= Seq::<Id>::empty());
        assert(container_ids(results@, results@.len() as int) =~= Seq::<Id>::empty());
    }
    while i < results.len()
        invariant
            i <= results@.len(),
            matches@ == result_ids(results@).subrange(0, i as int),
            context@ + result_ancestors(results@, i as int) == result_ancestors(results@, 0),
            expanded@ + container_ids(results@, i as int) == (if expand_containers {
                container_ids(results@, 0)
            } else {
                container_ids(results@, i as int)
            }),
        decreases results.len() - i,
    {
        let r = &results[i];
        let ghost pre_m = matches@;
        let ghost pre_c = context@;
        let ghost pre_e = expanded@;
        matches.push(r.id);
        crate::graph::append_ids_to(&mut context, &r.ancestors);
        if expand_containers && r.kind.is_container() {
            expanded.push(r.id);
        }
        proof {
            assert(matches@ =~= result_ids(results@).subrange(0, i + 1));
            assert(context@ + result_ancestors(results@, i + 1) =~= pre_c + result_ancestors(
                results@,
                i as int,
            ));
            if expand_containers {
                if results@[i as int].kind.is_container_spec() {
                    assert(expanded@ =~= pre_e + seq![results@[i as int].id]);
                }
                assert(expanded@ + container_ids(results@, i + 1) =~= pre_e + container_ids(
                    results@,
                    i as int,
                ));
            } else {
                assert(expanded@ + container_ids(results@, i + 1) =~= container_ids(
                    results@,
                    i + 1,
                ));
            }
        }
        i = i + 1;
    }
    proof {
        assert(result_ids(results@).subrange(0, results@.len() as int) =~= result_ids(results@));
        if !expand_containers {
            assert(expanded@ =~= Seq::<Id>::empty());
            assert(expanded@.to_set() =~= Set::<Id>::empty());
        }
    }
    let ghost anc_all = result_ancestors(results@, 0);
    let ghost containers = container_ids(results@, 0);
    let mut extra: Vec<Id> = Vec::new();
    if expand_containers {
        let entries = index.entries();
        let mut e: usize = 0;
        proof {
            assert(expansion_extra(entries@, containers, entries@.len() as int)
                =~= Seq::<Id>::empty());
            assert(extra@ + expansion_extra(entries@, containers, 0) =~= expansion_extra(
                entries@,
                containers,
                0,
            ));
        }
        while e < entries.len()
            invariant
                e <= entries@.len(),
                entries == index.entries_ref(),
                containers == container_ids(results@, 0),
                expanded@ == containers,
                extra@ + expansion_extra(entries@, containers, e as int) == expansion_extra(
                    entries@,
                    containers,
                    0,
                ),
            decreases entries.len() - e,
        {
            let ghost pre = extra@;
            let entry = &entries[e];
            let mut found = false;
            let mut j: usize = 0;
            while j < entry.ancestors.len()
                invariant
                    j <= entry.ancestors@.len(),
                    expanded@ == containers,
                    found == (exists|w: int|
                        0 <= w < j && containers.contains(#[trigger] entry.ancestors@[w])),
                decreases entry.ancestors.len() - j,
            {
                let mut c: usize = 0;
                let mut here = false;
                while c < expanded.len()
                    invariant
                        c <= expanded@.len(),
                        j < entry.ancestors@.len(),
                        expanded@ == containers,
                        here == (exists|w: int|
                            0 <= w < c && containers[w] == entry.ancestors@[j as int]),
                    decreases expanded.len() - c,
                {
                    if expanded[c] == entry.ancestors[j] {
                        here = true;
                    }
                    c = c + 1;
                }
                proof {
                    assert(here == containers.contains(entry.ancestors@[j as int]));
                }
                if here {
                    found = true;
                }
                j = j + 1;
            }
            proof {
                assert(found == below_any(entries@[e as int], containers));
                assert(expansion_extra(entries@, containers, e as int) == (if below_any(
                    entries@[e as int],
                    containers,
                ) {
                    seq![entries@[e as int].id] + entries@[e as int].ancestors@ + expansion_extra(
                        entries@,
                        containers,
                        e + 1,
                    )
                } else {
                    expansion_extra(entries@, containers, e + 1)
                }));
            }
            if found {
                extra.push(entry.id);
                crate::graph::append_ids_to(&mut extra, &entry.ancestors);
                proof {
                    assert(extra@ =~= pre + (seq![entries@[e as int].id]
                        + entries@[e as int].ancestors@));
                    assert(extra@ + expansion_extra(entries@, containers, e + 1) =~= pre
                        + expansion_extra(entries@, containers, e as int));
                }
            }
            e = e + 1;
        }
    }
    let mut context_all = context;
    crate::graph::append_ids_to(&mut context_all, &extra);
    let r = RenderSelection::new(matches, context_all, expanded);
    proof {
        broadcast use vstd::seq_lib::group_seq_properties;
        if expand_containers {
            assert(context_all@.to_set() =~= anc_all.to_set().union(
                expansion_extra(index.entries_ref()@, containers, 0).to_set(),
            ));
        } else {
            assert(extra@ =~= Seq::<Id>::empty());
            assert(context_all@ =~= anc_all);
        }
        assert(result_ids(results@).to_set().union(anc_all.to_set()).union(
            (if expand_containers {
                expansion_extra(index.entries_ref()@, containers, 0).to_set()
            } else {
                Set::<Id>::empty()
            }),
        ) =~= r.context_spec());
    }
    r
}

} // verus!
