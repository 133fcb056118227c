//! The item graph: the root identifier plus the set of items, indexed by
//! identifier.
//!
//! The renderers and the search index walk the graph recursively, following
//! child edges from item to item. So that every walk provably terminates,
//! a graph is built by `ItemGraph::new`, which checks that the identifiers
//! are unique, that the root is a module, that the children a walk must
//! find are present, and that the child edges admit a rank function that
//! strictly decreases from parent to child. The rank is kept as a ghost
//! map and serves as the termination measure of every walk.

use vstd::prelude::*;

verus! {

use crate::model::{Id, Item, ItemKind, StructKind, VariantKind};

use vstd::pervasive::VecAdditionalExecFns;

broadcast use vstd::std_specs::hash::group_hash_axioms;

/// The identifiers among a positional field list, stripped fields skipped.
pub open spec fn flatten_opt(s: Seq<Option<Id>>) -> Seq<Id>
    decreases s.len(),
{
    if s.len() == 0 {
        Seq::empty()
    } else {
        match s[0] {
            Option::Some(id) => seq![id] + flatten_opt(s.drop_first()),
            Option::None => flatten_opt(s.drop_first()),
        }
    }
}

/// The children an item walk must be able to look up.
pub open spec fn strong_children(it: Item) -> Seq<Id> {
    match it.inner {
        ItemKind::Module(m) => m.items@,
        ItemKind::Struct(s) => (match s.kind {
            StructKind::Unit => Seq::empty(),
            StructKind::Tuple(fields) => flatten_opt(fields@),
            StructKind::Plain { fields, .. } => fields@,
        }) + s.impls@,
        ItemKind::Enum(e) => e.variants@ + e.impls@,
        ItemKind::Variant(v) => match v.kind {
            VariantKind::Plain => Seq::empty(),
            VariantKind::Tuple(fields) => flatten_opt(fields@),
            VariantKind::Struct { fields, .. } => fields@,
        },
        ItemKind::Trait(t) => t.items@,
        _ => Seq::empty(),
    }
}

/// The children an item walk looks up but tolerates missing: members of an
/// implementation block, and the target of an import.
pub open spec fn weak_children(it: Item) -> Seq<Id> {
    match it.inner {
        ItemKind::Impl(im) => im.items@,
        ItemKind::Use(u) => match u.id {
            Option::Some(id) => seq![id],
            Option::None => Seq::empty(),
        },
        _ => Seq::empty(),
    }
}

/// Every identifier an item refers to as a child.
pub open spec fn children_of(it: Item) -> Seq<Id> {
    strong_children(it) + weak_children(it)
}

/// True when some item in the list carries the identifier.
pub open spec fn has_id(items: Seq<Item>, id: Id) -> bool {
    exists|i: int| 0 <= i < items.len() && #[trigger] items[i].id == id
}

/// True when no two items share an identifier.
pub open spec fn ids_unique(items: Seq<Item>) -> bool {
    forall|i: int, j: int|
        0 <= i < j < items.len() ==> #[trigger] items[i].id != #[trigger] items[j].id
}

/// True when every child a walk must find is present.
pub open spec fn strong_present(items: Seq<Item>) -> bool {
    forall|i: int, j: int|
        0 <= i < items.len() && 0 <= j < strong_children(#[trigger] items[i]).len() ==> has_id(
            items,
            #[trigger] strong_children(items[i])[j],
        )
}

/// True when the root is present and is a module.
pub open spec fn root_ok(root: Id, items: Seq<Item>) -> bool {
    has_id(items, root) && forall|i: int|
        0 <= i < items.len() && (#[trigger] items[i].id) == root ==> items[i].inner is Module
}

/// True when `m` ranks every item and strictly decreases along every child
/// edge whose target is present.
pub open spec fn ranks_valid(items: Seq<Item>, m: Map<Id, nat>) -> bool {
    forall|i: int|
        0 <= i < items.len() ==> m.contains_key(#[trigger] items[i].id) && (forall|j: int|
            0 <= j < children_of(items[i]).len() && has_id(
                items,
                #[trigger] children_of(items[i])[j],
            ) ==> m[children_of(items[i])[j]] < m[items[i].id])
}

/// Everything `ItemGraph::new` accepts: unique identifiers, a module root,
/// the mandatory children present, and an acyclic child relation.
pub open spec fn build_ok(root: Id, items: Seq<Item>) -> bool {
    &&& ids_unique(items)
    &&& root_ok(root, items)
    &&& strong_present(items)
    &&& exists|m: Map<Id, nat>| ranks_valid(items, m)
}

/// The index map agrees with the item list: every key points at the item
/// carrying it, and every item is indexed.
pub open spec fn posm_wf(items: Seq<Item>, posm: Map<Id, usize>) -> bool {
    &&& forall|id: Id|
        posm.contains_key(id) ==> (#[trigger] posm[id]) < items.len()
            && items[posm[id] as int].id == id
    &&& forall|i: int|
        0 <= i < items.len() ==> posm.contains_key(#[trigger] items[i].id) && posm[items[i].id]
            == i
}

/// Every ranked item's present children are ranked strictly lower.
spec fn done_ok(items: Seq<Item>, posm: Map<Id, usize>, done: Seq<bool>, ranks: Seq<usize>) -> bool {
    forall|a: int, j: int|
        0 <= a < items.len() && done[a] && 0 <= j < children_of(items[a]).len()
            && posm.contains_key(#[trigger] children_of(items[a])[j]) ==> done[posm[children_of(
            items[a],
        )[j]] as int] && ranks[posm[children_of(items[a])[j]] as int] < ranks[a]
}

/// Every assigned rank stays at or below the number of ranked items.
spec fn rank_bound(done: Seq<bool>, ranks: Seq<usize>, cnt: nat) -> bool {
    forall|a: int| 0 <= a < done.len() && (#[trigger] done[a]) ==> ranks[a] <= cnt
}

/// An unranked item waits on some present, unranked child.
spec fn blocked(items: Seq<Item>, posm: Map<Id, usize>, done: Seq<bool>, a: int) -> bool {
    exists|j: int|
        0 <= j < children_of(items[a]).len() && posm.contains_key(
            #[trigger] children_of(items[a])[j],
        ) && !done[posm[children_of(items[a])[j]] as int]
}

/// Ranking can make no further progress.
spec fn stuck(items: Seq<Item>, posm: Map<Id, usize>, done: Seq<bool>) -> bool {
    forall|a: int| 0 <= a < items.len() && !(#[trigger] done[a]) ==> blocked(items, posm, done, a)
}

/// The number of ranked items.
spec fn count_done(s: Seq<bool>) -> nat
    decreases s.len(),
{
    if s.len() == 0 {
        0
    } else {
        count_done(s.drop_last()) + (if s.last() {
            1nat
        } else {
            0nat
        })
    }
}

proof fn lemma_count_done_zero(s: Seq<bool>)
    requires
        forall|j: int| 0 <= j < s.len() ==> !(#[trigger] s[j]),
    ensures
        count_done(s) == 0,
    decreases s.len(),
{
    if s.len() > 0 {
        lemma_count_done_zero(s.drop_last());
    }
}

proof fn lemma_count_done_le(s: Seq<bool>)
    ensures
        count_done(s) <= s.len(),
    decreases s.len(),
{
    if s.len() > 0 {
        lemma_count_done_le(s.drop_last());
    }
}

proof fn lemma_count_done_all(s: Seq<bool>)
    requires
        count_done(s) == s.len(),
    ensures
        forall|j: int| 0 <= j < s.len() ==> #[trigger] s[j],
    decreases s.len(),
{
    if s.len() > 0 {
        lemma_count_done_le(s.drop_last());
        lemma_count_done_all(s.drop_last());
        assert forall|j: int| 0 <= j < s.len() implies #[trigger] s[j] by {
            if j < s.len() - 1 {
                assert(s.drop_last()[j]);
            }
        }
    }
}

proof fn lemma_count_done_update(s: Seq<bool>, i: int)
    requires
        0 <= i < s.len(),
        !s[i],
    ensures
        count_done(s.update(i, true)) == count_done(s) + 1,
    decreases s.len(),
{
    let u = s.update(i, true);
    if i == s.len() - 1 {
        assert(u.drop_last() =~= s.drop_last());
    } else {
        assert(u.drop_last() =~= s.drop_last().update(i, true));
        lemma_count_done_update(s.drop_last(), i);
    }
}

/// At a fixpoint of the ranking pass, any valid rank map proves every item
/// ranked, by strong induction on its rank.
proof fn lemma_stuck_done(
    items: Seq<Item>,
    posm: Map<Id, usize>,
    done: Seq<bool>,
    m: Map<Id, nat>,
    k: nat,
)
    requires
        posm_wf(items, posm),
        done.len() == items.len(),
        stuck(items, posm, done),
        ranks_valid(items, m),
    ensures
        forall|a: int| 0 <= a < items.len() && m[#[trigger] items[a].id] <= k ==> done[a],
    decreases k,
{
    assert forall|a: int| 0 <= a < items.len() && m[#[trigger] items[a].id] <= k implies done[
    a] by {
        if !done[a] {
            assert(blocked(items, posm, done, a));
            let j = choose|j: int|
                0 <= j < children_of(items[a]).len() && posm.contains_key(
                    #[trigger] children_of(items[a])[j],
                ) && !done[posm[children_of(items[a])[j]] as int];
            let c = children_of(items[a])[j];
            let pc = posm[c] as int;
            assert(items[pc].id == c && 0 <= pc < items.len());
            assert(has_id(items, c));
            assert(m[c] < m[items[a].id]);
            if k > 0 {
                lemma_stuck_done(items, posm, done, m, (k - 1) as nat);
                assert(m[items[pc].id] <= k - 1);
                assert(done[pc]);
            }
        }
    }
}

/// Copy a list of identifiers.
pub fn copy_ids(a: &Vec<Id>) -> (r: Vec<Id>)
    ensures
        r@ == a@,
{
    let mut out: Vec<Id> = Vec::new();
    let mut i: usize = 0;
    while i < a.len()
        invariant
            i <= a@.len(),
            out@ == a@.subrange(0, i as int),
        decreases a.len() - i,
    {
        out.push(a[i]);
        i = i + 1;
        proof {
            assert(a@.subrange(0, i - 1).push(a@[i - 1]) =~= a@.subrange(0, i as int));
        }
    }
    proof {
        assert(a@.subrange(0, a@.len() as int) =~= a@);
    }
    out
}

/// Append identifiers to a list.
pub fn append_ids_to(out: &mut Vec<Id>, src: &Vec<Id>)
    ensures
        final(out)@ == old(out)@ + src@,
{
    append_ids(out, src)
}

/// Append identifiers to a list.
fn append_ids(out: &mut Vec<Id>, src: &Vec<Id>)
    ensures
        final(out)@ == old(out)@ + src@,
{
    let mut i: usize = 0;
    while i < src.len()
        invariant
            i <= src@.len(),
            out@ == old(out)@ + src@.subrange(0, i as int),
        decreases src.len() - i,
    {
        out.push(src[i]);
        i = i + 1;
        proof {
            assert(old(out)@ + src@.subrange(0, i - 1) + seq![src@[i - 1]] =~= old(out)@
                + src@.subrange(0, i as int));
        }
    }
    proof {
        assert(src@.subrange(0, src@.len() as int) =~= src@);
    }
}

/// Collect the identifiers of a positional field list.
pub fn flatten(fields: &Vec<Option<Id>>) -> (r: Vec<Id>)
    ensures
        r@ == flatten_opt(fields@),
{
    let ghost whole = fields@;
    let mut out: Vec<Id> = Vec::new();
    let mut i: usize = 0;
    proof {
        assert(whole.subrange(0, whole.len() as int) =~= whole);
        assert(out@ + flatten_opt(whole) =~= flatten_opt(whole));
    }
    while i < fields.len()
        invariant
            i <= whole.len(),
            whole == fields@,
            out@ + flatten_opt(whole.subrange(i as int, whole.len() as int)) == flatten_opt(whole),
        decreases fields.len() - i,
    {
        let ghost pre = out@;
        proof {
            assert(whole.subrange(i as int, whole.len() as int).drop_first() =~= whole.subrange(
                i + 1,
                whole.len() as int,
            ));
            assert(whole.subrange(i as int, whole.len() as int)[0] == whole[i as int]);
        }
        match &fields[i] {
            Option::Some(id) => {
                out.push(*id);
                proof {
                    assert(out@ =~= pre + seq![whole[i as int]->0]);
                    assert(out@ + flatten_opt(whole.subrange(i + 1, whole.len() as int)) =~= pre
                        + flatten_opt(whole.subrange(i as int, whole.len() as int)));
                }
            },
            Option::None => {
                proof {
                    assert(out@ + flatten_opt(whole.subrange(i + 1, whole.len() as int)) =~= pre
                        + flatten_opt(whole.subrange(i as int, whole.len() as int)));
                }
            },
        }
        i = i + 1;
    }
    proof {
        assert(whole.subrange(whole.len() as int, whole.len() as int)
            =~= Seq::<Option<Id>>::empty());
        assert(out@ + flatten_opt(Seq::empty()) =~= out@);
    }
    out
}

/// Collect the children an item walk must be able to look up.
pub fn strong_kids(it: &Item) -> (r: Vec<Id>)
    ensures
        r@ == strong_children(*it),
{
    let mut out: Vec<Id> = Vec::new();
    match &it.inner {
        ItemKind::Module(m) => {
            append_ids(&mut out, &m.items);
            proof {
                assert(out@ =~= m.items@);
            }
        },
        ItemKind::Struct(s) => {
            match &s.kind {
                StructKind::Unit => {},
                StructKind::Tuple(fields) => {
                    let f = flatten(fields);
                    append_ids(&mut out, &f);
                    proof {
                        assert(out@ =~= flatten_opt(fields@));
                    }
                },
                StructKind::Plain { fields, .. } => {
                    append_ids(&mut out, fields);
                    proof {
                        assert(out@ =~= fields@);
                    }
                },
            }
            let ghost mid = out@;
            append_ids(&mut out, &s.impls);
            proof {
                assert(out@ == mid + s.impls@);
                assert(Seq::<Id>::empty() + s.impls@ =~= s.impls@);
            }
        },
        ItemKind::Enum(e) => {
            append_ids(&mut out, &e.variants);
            proof {
                assert(out@ =~= e.variants@);
            }
            append_ids(&mut out, &e.impls);
        },
        ItemKind::Variant(v) => {
            match &v.kind {
                VariantKind::Plain => {},
                VariantKind::Tuple(fields) => {
                    let f = flatten(fields);
                    append_ids(&mut out, &f);
                    proof {
                        assert(out@ =~= flatten_opt(fields@));
                    }
                },
                VariantKind::Struct { fields, .. } => {
                    append_ids(&mut out, fields);
                    proof {
                        assert(out@ =~= fields@);
                    }
                },
            }
        },
        ItemKind::Trait(t) => {
            append_ids(&mut out, &t.items);
            proof {
                assert(out@ =~= t.items@);
            }
        },
        _ => {},
    }
    proof {
        assert(out@ == strong_children(*it));
    }
    out
}

/// Collect every identifier an item refers to as a child.
pub fn kids(it: &Item) -> (r: Vec<Id>)
    ensures
        r@ == children_of(*it),
{
    let mut out = strong_kids(it);
    match &it.inner {
        ItemKind::Impl(im) => {
            append_ids(&mut out, &im.items);
        },
        ItemKind::Use(u) => {
            match &u.id {
                Option::Some(id) => {
                    out.push(*id);
                    proof {
                        assert(out@ =~= strong_children(*it) + seq![u.id->0]);
                    }
                },
                Option::None => {
                    proof {
                        assert(out@ =~= strong_children(*it) + Seq::<Id>::empty());
                    }
                },
            }
        },
        _ => {
            proof {
                assert(out@ =~= strong_children(*it) + weak_children(*it));
            }
        },
    }
    proof {
        assert(out@ == children_of(*it));
    }
    out
}

/// The item graph.
pub struct ItemGraph {
    root: Id,
    items: Vec<Item>,
    pos: std::collections::HashMap<Id, usize>,
    rank: Ghost<Map<Id, nat>>,
}

impl ItemGraph {
    /// The root item's identifier; always a module.
    pub closed spec fn root_spec(self) -> Id {
        self.root
    }

    /// Read the root identifier.
    pub fn root(&self) -> (r: Id)
        ensures
            r == self.root_spec(),
    {
        self.root
    }

    /// The items the graph was built from, in their given order.
    pub closed spec fn items_spec(self) -> Seq<Item> {
        self.items@
    }

    /// The rank of an item, for termination measures.
    pub closed spec fn rank_of(self, id: Id) -> nat {
        self.rank@[id]
    }

    /// True when the graph holds an item with this identifier.
    pub closed spec fn contains(self, id: Id) -> bool {
        self.pos@.contains_key(id)
    }

    /// The item with this identifier.
    pub closed spec fn at(self, id: Id) -> Item {
        self.items@[self.pos@[id] as int]
    }

    /// The index map agrees with the item list.
    spec fn pos_wf(self) -> bool {
        &&& forall|id: Id|
            self.pos@.contains_key(id) ==> (#[trigger] self.pos@[id]) < self.items@.len()
                && self.items@[self.pos@[id] as int].id == id
        &&& forall|i: int|
            0 <= i < self.items@.len() ==> self.pos@.contains_key(#[trigger] self.items@[i].id)
                && self.pos@[self.items@[i].id] == i
    }

    /// Well-formedness: the index is consistent, the root is a module, the
    /// mandatory children are present, and the rank strictly decreases along
    /// every present child edge.
    pub closed spec fn wf(self) -> bool {
        &&& self.pos_wf()
        &&& self.contains(self.root_spec())
        &&& self.at(self.root_spec()).inner is Module
        &&& forall|id: Id| self.contains(id) ==> self.rank@.contains_key(id)
        &&& forall|id: Id, j: int|
            self.contains(id) && 0 <= j < strong_children(#[trigger] self.at(id)).len()
                ==> self.contains(#[trigger] strong_children(self.at(id))[j])
        &&& forall|id: Id, j: int|
            self.contains(id) && 0 <= j < children_of(#[trigger] self.at(id)).len()
                && self.contains(#[trigger] children_of(self.at(id))[j]) ==> self.rank@[children_of(
                self.at(id),
            )[j]] < self.rank@[id]
    }

    /// Facts every caller of an accessor may rely on.
    pub broadcast proof fn lemma_wf_facts(self)
        requires
            #[trigger] self.wf(),
        ensures
            self.contains(self.root_spec()),
            self.at(self.root_spec()).inner is Module,
            forall|id: Id| #[trigger] self.contains(id) ==> self.at(id).id == id,
            forall|id: Id, j: int|
                self.contains(id) && 0 <= j < strong_children(#[trigger] self.at(id)).len()
                    ==> self.contains(#[trigger] strong_children(self.at(id))[j]),
            forall|id: Id, j: int|
                self.contains(id) && 0 <= j < children_of(#[trigger] self.at(id)).len()
                    && self.contains(#[trigger] children_of(self.at(id))[j])
                    ==> self.rank_of(children_of(self.at(id))[j]) < self.rank_of(id),
    {
    }

    /// The children of a module are present and ranked below it.
    pub proof fn lemma_module_kids(self, id: Id)
        requires
            self.wf(),
            self.contains(id),
            self.at(id).inner is Module,
        ensures
            forall|k: int|
                0 <= k < self.at(id).inner->Module_0.items@.len() ==> self.contains(
                    #[trigger] self.at(id).inner->Module_0.items@[k],
                ) && self.rank_of(self.at(id).inner->Module_0.items@[k]) < self.rank_of(id),
    {
        let m = self.at(id).inner->Module_0;
        assert(strong_children(self.at(id)) == m.items@);
        assert forall|k: int| 0 <= k < m.items@.len() implies self.contains(
            #[trigger] m.items@[k],
        ) && self.rank_of(m.items@[k]) < self.rank_of(id) by {
            assert(strong_children(self.at(id))[k] == m.items@[k]);
            assert(children_of(self.at(id))[k] == m.items@[k]);
        }
    }

    /// The resolved target of an import, when present, is ranked below it.
    pub proof fn lemma_use_kid(self, id: Id, target: Id)
        requires
            self.wf(),
            self.contains(id),
            self.at(id).inner is Use,
            self.at(id).inner->Use_0.id == Some(target),
            self.contains(target),
        ensures
            self.rank_of(target) < self.rank_of(id),
    {
        let it = self.at(id);
        assert(strong_children(it) =~= Seq::<Id>::empty());
        assert(weak_children(it) =~= seq![target]);
        assert(children_of(it)[0] == target);
    }

    /// Through an import of a whole module, the module's children are
    /// present and ranked below the import.
    pub proof fn lemma_glob_module_kids(self, id: Id, source: Id)
        requires
            self.wf(),
            self.contains(id),
            self.at(id).inner is Use,
            self.at(id).inner->Use_0.id == Some(source),
            self.contains(source),
            self.at(source).inner is Module,
        ensures
            forall|k: int|
                0 <= k < self.at(source).inner->Module_0.items@.len() ==> self.contains(
                    #[trigger] self.at(source).inner->Module_0.items@[k],
                ) && self.rank_of(self.at(source).inner->Module_0.items@[k]) < self.rank_of(id),
    {
        self.lemma_use_kid(id, source);
        self.lemma_module_kids(source);
    }

    /// Through an import of a whole enum, the enum's variants are present
    /// and ranked below the import.
    pub proof fn lemma_glob_enum_kids(self, id: Id, source: Id)
        requires
            self.wf(),
            self.contains(id),
            self.at(id).inner is Use,
            self.at(id).inner->Use_0.id == Some(source),
            self.contains(source),
            self.at(source).inner is Enum,
        ensures
            forall|k: int|
                0 <= k < self.at(source).inner->Enum_0.variants@.len() ==> self.contains(
                    #[trigger] self.at(source).inner->Enum_0.variants@[k],
                ) && self.rank_of(self.at(source).inner->Enum_0.variants@[k]) < self.rank_of(id),
    {
        self.lemma_use_kid(id, source);
        let e = self.at(source).inner->Enum_0;
        assert forall|k: int| 0 <= k < e.variants@.len() implies self.contains(
            #[trigger] e.variants@[k],
        ) && self.rank_of(e.variants@[k]) < self.rank_of(source) by {
            assert(strong_children(self.at(source))[k] == e.variants@[k]);
            assert(children_of(self.at(source))[k] == e.variants@[k]);
        }
    }

    /// Look an item up by identifier.
    pub fn get(&self, id: Id) -> (r: Option<&Item>)
        requires
            self.wf(),
        ensures
            match r {
                Option::Some(it) => self.contains(id) && *it == self.at(id),
                Option::None => !self.contains(id),
            },
    {
        match self.pos.get(&id) {
            Option::Some(p) => Option::Some(&self.items[*p]),
            Option::None => Option::None,
        }
    }

    /// Build a graph from a root identifier and an item list.
    ///
    /// Succeeds exactly on acceptable inputs: identifiers unique, the root
    /// present and a module, every mandatory child present, and the child
    /// relation acyclic (a strictly decreasing rank exists).
    pub fn new(root: Id, items: Vec<Item>) -> (r: Option<ItemGraph>)
        ensures
            match r {
                Option::Some(g) => g.wf() && g.root_spec() == root && g.items_spec() == items@
                    && build_ok(root, items@),
                Option::None => !build_ok(root, items@),
            },
    {
        let n = items.len();
        let mut pos: std::collections::HashMap<Id, usize> = std::collections::HashMap::new();
        let mut i: usize = 0;
        while i < n
            invariant
                i <= n == items@.len(),
                forall|id: Id|
                    pos@.contains_key(id) ==> (#[trigger] pos@[id]) < i
                        && items@[pos@[id] as int].id == id,
                forall|j: int|
                    0 <= j < i ==> pos@.contains_key(#[trigger] items@[j].id)
                        && pos@[items@[j].id] == j,
            decreases n - i,
        {
            let id = items[i].id;
            if pos.contains_key(&id) {
                proof {
                    let p = pos@[id];
                    assert(items@[p as int].id == id && p < i);
                    assert(!ids_unique(items@));
                }
                return Option::None;
            }
            pos.insert(id, i);
            i = i + 1;
        }
        proof {
            assert(ids_unique(items@)) by {
                assert forall|a: int, b: int| 0 <= a < b < items@.len() implies items@[a].id
                    != items@[b].id by {
                    if items@[a].id == items@[b].id {
                        assert(pos@[items@[a].id] == a);
                        assert(pos@[items@[b].id] == b);
                    }
                }
            }
        }
        let root_is_module = match pos.get(&root) {
            Option::Some(p) => match items[*p].inner {
                ItemKind::Module(_) => true,
                _ => false,
            },
            Option::None => false,
        };
        if !root_is_module {
            proof {
                if root_ok(root, items@) {
                    let w = choose|w: int| 0 <= w < items@.len() && items@[w].id == root;
                    assert(pos@.contains_key(items@[w].id));
                    assert(pos@[root] == w);
                    assert(items@[pos@[root] as int].inner is Module);
                }
            }
            return Option::None;
        }
        let mut i: usize = 0;
        while i < n
            invariant
                i <= n == items@.len(),
                posm_wf(items@, pos@),
                forall|a: int, j: int|
                    0 <= a < i && 0 <= j < strong_children(#[trigger] items@[a]).len()
                        ==> pos@.contains_key(#[trigger] strong_children(items@[a])[j]),
            decreases n - i,
        {
            let sk = strong_kids(&items[i]);
            let mut t: usize = 0;
            while t < sk.len()
                invariant
                    t <= sk@.len(),
                    sk@ == strong_children(items@[i as int]),
                    i < items@.len(),
                    posm_wf(items@, pos@),
                    forall|j: int|
                        0 <= j < t ==> pos@.contains_key(#[trigger] strong_children(
                            items@[i as int],
                        )[j]),
                decreases sk.len() - t,
            {
                if !pos.contains_key(&sk[t]) {
                    proof {
                        assert(!has_id(items@, strong_children(items@[i as int])[t as int]))
                            by {
                            if has_id(items@, sk@[t as int]) {
                                let w = choose|w: int|
                                    0 <= w < items@.len() && items@[w].id == sk@[t as int];
                                assert(pos@.contains_key(items@[w].id));
                            }
                        }
                        assert(!strong_present(items@));
                    }
                    return Option::None;
                }
                t = t + 1;
            }
            i = i + 1;
        }
        proof {
            assert(strong_present(items@)) by {
                assert forall|a: int, j: int|
                    0 <= a < items@.len() && 0 <= j < strong_children(
                        #[trigger] items@[a],
                    ).len() implies has_id(items@, #[trigger] strong_children(items@[a])[j]) by {
                    let c = strong_children(items@[a])[j];
                    assert(pos@.contains_key(c));
                    let w = pos@[c] as int;
                    assert(items@[w].id == c && 0 <= w < items@.len());
                }
            }
        }
        let mut done: Vec<bool> = Vec::new();
        let mut ranks: Vec<usize> = Vec::new();
        let mut i: usize = 0;
        while i < n
            invariant
                i <= n,
                done@.len() == i,
                ranks@.len() == i,
                forall|j: int| 0 <= j < i ==> !(#[trigger] done@[j]),
            decreases n - i,
        {
            done.push(false);
            ranks.push(0);
            i = i + 1;
        }
        let mut num_done: usize = 0;
        proof {
            lemma_count_done_zero(done@);
        }
        loop
            invariant
                n == items@.len(),
                done@.len() == n,
                ranks@.len() == n,
                posm_wf(items@, pos@),
                strong_present(items@),
                num_done == count_done(done@),
                num_done <= n,
                done_ok(items@, pos@, done@, ranks@),
                rank_bound(done@, ranks@, count_done(done@)),
            ensures
                done@.len() == n,
                ranks@.len() == n,
                num_done == count_done(done@),
                posm_wf(items@, pos@),
                done_ok(items@, pos@, done@, ranks@),
                rank_bound(done@, ranks@, count_done(done@)),
                stuck(items@, pos@, done@),
            decreases n - num_done,
        {
            let ghost pass_start = num_done;
            let mut changed = false;
            let mut i: usize = 0;
            while i < n
                invariant
                    n == items@.len(),
                    done@.len() == n,
                    ranks@.len() == n,
                    i <= n,
                    posm_wf(items@, pos@),
                    strong_present(items@),
                    num_done == count_done(done@),
                    num_done <= n,
                    done_ok(items@, pos@, done@, ranks@),
                    rank_bound(done@, ranks@, count_done(done@)),
                    changed ==> num_done > pass_start,
                    num_done >= pass_start,
                    !changed ==> (forall|j: int|
                        0 <= j < i && !(#[trigger] done@[j]) ==> blocked(
                            items@,
                            pos@,
                            done@,
                            j,
                        )),
                decreases n - i,
            {
                if !done[i] {
                    let cs = kids(&items[i]);
                    let mut all = true;
                    let mut maxr: usize = 0;
                    let mut t: usize = 0;
                    while t < cs.len()
                        invariant
                            t <= cs@.len(),
                            cs@ == children_of(items@[i as int]),
                            i < n == items@.len(),
                            done@.len() == n,
                            ranks@.len() == n,
                            posm_wf(items@, pos@),
                            num_done == count_done(done@),
                            rank_bound(done@, ranks@, count_done(done@)),
                            maxr <= num_done,
                            all ==> (forall|j: int|
                                0 <= j < t && pos@.contains_key(
                                    #[trigger] children_of(items@[i as int])[j],
                                ) ==> done@[pos@[children_of(items@[i as int])[j]] as int]
                                    && ranks@[pos@[children_of(items@[i as int])[j]] as int]
                                    <= maxr),
                            !all ==> (exists|j: int|
                                0 <= j < t && pos@.contains_key(
                                    #[trigger] children_of(items@[i as int])[j],
                                ) && !done@[pos@[children_of(items@[i as int])[j]] as int]),
                        decreases cs.len() - t,
                    {
                        match pos.get(&cs[t]) {
                            Option::Some(p) => {
                                let p = *p;
                                if done[p] {
                                    if ranks[p] > maxr {
                                        maxr = ranks[p];
                                    }
                                } else {
                                    all = false;
                                }
                            },
                            Option::None => {},
                        }
                        t = t + 1;
                    }
                    if all {
                        proof {
                            assert(count_done(done@) < n) by {
                                lemma_count_done_le(done@);
                                if count_done(done@) == n {
                                    lemma_count_done_all(done@);
                                    assert(done@[i as int]);
                                }
                            }
                        }
                        let ghost old_done = done@;
                        let ghost old_ranks = ranks@;
                        ranks.set(i, maxr + 1);
                        done.set(i, true);
                        num_done = num_done + 1;
                        changed = true;
                        proof {
                            lemma_count_done_update(old_done, i as int);
                            assert(num_done == count_done(done@));
                            assert(done_ok(items@, pos@, done@, ranks@)) by {
                                assert forall|a: int, j: int|
                                    0 <= a < items@.len() && done@[a] && 0 <= j < children_of(
                                        items@[a],
                                    ).len() && pos@.contains_key(
                                        #[trigger] children_of(items@[a])[j],
                                    ) implies done@[pos@[children_of(items@[a])[j]] as int]
                                    && ranks@[pos@[children_of(items@[a])[j]] as int]
                                    < ranks@[a] by {
                                    let c = children_of(items@[a])[j];
                                    let pc = pos@[c] as int;
                                    if a == i as int {
                                        assert(old_done[pc] && old_ranks[pc] <= maxr);
                                        assert(pc != i as int);
                                    } else {
                                        assert(old_done[a]);
                                        assert(old_done[pc]);
                                        assert(pc != i as int);
                                    }
                                }
                            }
                            assert(rank_bound(done@, ranks@, count_done(done@))) by {
                                assert forall|a: int|
                                    0 <= a < done@.len() && done@[a] implies ranks@[a]
                                    <= count_done(done@) by {
                                    if a != i as int {
                                        assert(old_done[a] && old_ranks[a] <= count_done(
                                            old_done,
                                        ));
                                    }
                                }
                            }
                        }
                    }
                }
                i = i + 1;
            }
            if !changed {
                proof {
                    assert(stuck(items@, pos@, done@));
                }
                break;
            }
        }
        let mut i: usize = 0;
        while i < n
            invariant
                i <= n == items@.len(),
                done@.len() == n,
                posm_wf(items@, pos@),
                stuck(items@, pos@, done@),
                forall|j: int| 0 <= j < i ==> #[trigger] done@[j],
            decreases n - i,
        {
            if !done[i] {
                proof {
                    assert(!build_ok(root, items@)) by {
                        if exists|m: Map<Id, nat>| ranks_valid(items@, m) {
                            let m = choose|m: Map<Id, nat>| ranks_valid(items@, m);
                            lemma_stuck_done(items@, pos@, done@, m, m[items@[i as int].id]);
                        }
                    }
                }
                return Option::None;
            }
            i = i + 1;
        }
        let ghost rank_map = Map::new(
            |id: Id| pos@.contains_key(id),
            |id: Id| ranks@[pos@[id] as int] as nat,
        );
        let g = ItemGraph { root, items, pos, rank: Ghost(rank_map) };
        proof {
            assert(g.wf()) by {
                assert forall|id: Id, j: int|
                    g.contains(id) && 0 <= j < children_of(#[trigger] g.at(id)).len()
                        && g.contains(#[trigger] children_of(g.at(id))[j]) implies g.rank@[
                children_of(g.at(id))[j]] < g.rank@[id] by {
                    let a = g.pos@[id] as int;
                    let c = children_of(g.at(id))[j];
                    assert(done@[a]);
                    assert(done@[g.pos@[c] as int] && ranks@[g.pos@[c] as int] < ranks@[a]);
                }
            }
            assert(build_ok(root, g.items@)) by {
                assert(ranks_valid(g.items@, rank_map)) by {
                    assert forall|a: int| 0 <= a < g.items@.len() implies rank_map.contains_key(
                        #[trigger] g.items@[a].id,
                    ) && (forall|j: int|
                        0 <= j < children_of(g.items@[a]).len() && has_id(
                            g.items@,
                            #[trigger] children_of(g.items@[a])[j],
                        ) ==> rank_map[children_of(g.items@[a])[j]] < rank_map[g.items@[a].id]) by {
                        assert(g.pos@.contains_key(g.items@[a].id));
                        assert forall|j: int|
                            0 <= j < children_of(g.items@[a]).len() && has_id(
                                g.items@,
                                #[trigger] children_of(g.items@[a])[j],
                            ) implies rank_map[children_of(g.items@[a])[j]] < rank_map[g.items@[
                        a].id] by {
                            let c = children_of(g.items@[a])[j];
                            let w = choose|w: int|
                                0 <= w < g.items@.len() && #[trigger] g.items@[w].id == c;
                            assert(g.pos@.contains_key(c));
                            assert(done@[a]);
                            assert(ranks@[g.pos@[c] as int] < ranks@[a]);
                            assert(g.pos@[g.items@[a].id] == a);
                        }
                    }
                }
            }
        }
        Option::Some(g)
    }

    /// Look an item up that the graph is known to hold.
    pub fn must_get(&self, id: Id) -> (r: &Item)
        requires
            self.wf(),
            self.contains(id),
        ensures
            *r == self.at(id),
    {
        let p = *self.pos.get(&id).unwrap();
        &self.items[p]
    }
}

} // verus!
