//! The high-level API: configuration of a whole run, rendering and search
//! over an already-acquired item graph, and terminal highlighting of search
//! hits in rendered output.

use vstd::prelude::*;

use owo_colors::OwoColorize;

verus! {

use crate::config::{Renderer, RenderFormat};
use crate::error::RipdocError;
use crate::graph::ItemGraph;
use crate::render::{hit_item, spec_render_item};
use crate::search::{
    build_render_selection,
    container_ids,
    entry_views,
    expansion_extra,
    index_item_spec,
    list_views,
    listing,
    listing_results,
    ListItem,
    result_ancestors,
    result_ids,
    results_match,
    SearchEntry,
    SearchIndex,
    SearchItemKind,
    SearchOptions,
    SearchResponse,
    SearchResult,
};
use crate::text::{
    chars_of,
    count_char_spec,
    find_from,
    first_match_from,
    fold_char,
    fold_chars,
    has_prefix,
    has_suffix,
    non_ws,
    non_ws_spec,
    push_str,
    string_of,
    subrange_vec,
};

/// True when rendered output is essentially empty: nothing but one empty
/// module declaration once whitespace is dropped.
pub open spec fn is_empty_output_spec(rendered: Seq<char>) -> bool {
    let n = non_ws_spec(rendered);
    has_prefix(n, "pubmod"@) && has_suffix(n, "{}"@) && count_char_spec(n, '{') == 1
}

/// Check if the rendered output is essentially empty: just one empty module
/// declaration. Used to detect program-only packages with no public
/// interface.
pub fn is_empty_output(rendered: &str) -> (r: bool)
    ensures
        r == is_empty_output_spec(rendered@),
{
    let cs = chars_of(rendered);
    let n = non_ws(&cs);
    crate::text::starts_with_str(&n, "pubmod") && crate::text::ends_with_str(&n, "{}")
        && crate::text::count_char(&n, '{') == 1
}

/// Relies on `OwoColorize::red` and its `Display` implementation: the text
/// wrapped in the red foreground escape and the default-foreground escape.
#[verifier::external_body]
fn paint_red(s: &str) -> (r: String)
    ensures
        r@ == "\u{1b}[31m"@ + s@ + "\u{1b}[39m"@,
{
    s.red().to_string()
}

/// The case-folded form of a text under a sensitivity flag.
pub open spec fn folded(s: Seq<char>, case_sensitive: bool) -> Seq<char> {
    if case_sensitive {
        s
    } else {
        s.map_values(|c: char| fold_char(c))
    }
}

/// A fragment wrapped in the red and default-foreground escapes.
pub open spec fn red_of(s: Seq<char>) -> Seq<char> {
    "\u{1b}[31m"@ + s + "\u{1b}[39m"@
}

/// The text from `from` on, with every case-folded occurrence of the query
/// wrapped in red, scanning left to right without overlap.
pub open spec fn highlight_from(text: Seq<char>, q: Seq<char>, cs: bool, from: int) -> Seq<char>
    decreases text.len() - from,
        when 0 <= from && q.len() > 0
{
    match first_match_from(folded(text, cs), folded(q, cs), from) {
        Option::None => text.subrange(
            if from <= text.len() {
                from
            } else {
                text.len() as int
            },
            text.len() as int,
        ),
        Option::Some(p) => {
            if from <= p && p + q.len() <= text.len() {
                text.subrange(from, p) + red_of(text.subrange(p, p + q.len())) + highlight_from(
                    text,
                    q,
                    cs,
                    p + q.len(),
                )
            } else {
                Seq::empty()
            }
        },
    }
}

/// The whole text with every occurrence of the query highlighted; the text
/// unchanged for an empty query.
pub open spec fn highlight_spec(text: Seq<char>, q: Seq<char>, cs: bool) -> Seq<char> {
    if q.len() == 0 {
        text
    } else {
        highlight_from(text, q, cs, 0)
    }
}

/// The output so far, continued from `from`, completes the highlighting.
pub open spec fn out_connects(out: Seq<char>, text: Seq<char>, q: Seq<char>, cs: bool, from: int) -> bool {
    out + highlight_from(text, q, cs, from) == highlight_from(text, q, cs, 0)
}

proof fn lemma_first_match_lb(s: Seq<char>, p: Seq<char>, from: int)
    requires
        first_match_from(s, p, from) is Some,
    ensures
        from <= first_match_from(s, p, from)->0,
        first_match_from(s, p, from)->0 + p.len() <= s.len(),
    decreases s.len() - from,
{
    if p.len() == 0 || from < 0 || from + p.len() > s.len() {
    } else if crate::text::matches_at(s, p, from) {
    } else {
        lemma_first_match_lb(s, p, from + 1);
    }
}

/// Highlight all occurrences of the search query in the text.
pub fn highlight_matches(text: &str, query: &str, case_sensitive: bool) -> (r: String)
    ensures
        r@ == highlight_spec(text@, query@, case_sensitive),
{
    let tcs = chars_of(text);
    let qcs = chars_of(query);
    if qcs.len() == 0 {
        return string_of(&tcs);
    }
    let ntext = if case_sensitive {
        crate::text::clone_chars(&tcs)
    } else {
        let f = fold_chars(&tcs);
        proof {
            assert(f@ =~= folded(text@, case_sensitive));
        }
        f
    };
    let nquery = if case_sensitive {
        crate::text::clone_chars(&qcs)
    } else {
        let f = fold_chars(&qcs);
        proof {
            assert(f@ =~= folded(query@, case_sensitive));
        }
        f
    };
    let mut out = String::new();
    let mut from: usize = 0;
    loop
        invariant_except_break
            out_connects(out@, text@, query@, case_sensitive, from as int),
        invariant
            0 <= from <= tcs@.len() + nquery@.len(),
            tcs@ == text@,
            qcs@ == query@,
            ntext@ == folded(text@, case_sensitive),
            nquery@ == folded(query@, case_sensitive),
            nquery@.len() == query@.len(),
            ntext@.len() == text@.len(),
            qcs@.len() > 0,
        ensures
            out@ == highlight_from(text@, query@, case_sensitive, 0),
        decreases tcs@.len() + nquery@.len() - from,
    {
        match find_from(&ntext, &nquery, from) {
            Option::Some(p) => {
                proof {
                    lemma_first_match_lb(ntext@, nquery@, from as int);
                }
                let ghost pre = out@;
                let before = subrange_vec(&tcs, from, p);
                push_str(&mut out, string_of(&before).as_str());
                let tl = tcs.len();
                let hit = subrange_vec(&tcs, p, p + qcs.len());
                push_str(&mut out, paint_red(string_of(&hit).as_str()).as_str());
                proof {
                    assert(out@ =~= pre + (text@.subrange(from as int, p as int) + red_of(
                        text@.subrange(p as int, p + query@.len()),
                    )));
                    assert(highlight_from(text@, query@, case_sensitive, from as int)
                        == text@.subrange(from as int, p as int) + red_of(
                        text@.subrange(p as int, p + query@.len()),
                    ) + highlight_from(text@, query@, case_sensitive, p + query@.len()));
                    assert(out@ + highlight_from(text@, query@, case_sensitive, p + query@.len())
                        =~= pre + highlight_from(text@, query@, case_sensitive, from as int));
                }
                from = p + qcs.len();
            },
            Option::None => {
                let rest = subrange_vec(&tcs, if from <= tcs.len() {
                    from
                } else {
                    tcs.len()
                }, tcs.len());
                push_str(&mut out, string_of(&rest).as_str());
                proof {
                    assert(out@ =~= highlight_from(text@, query@, case_sensitive, 0));
                }
                break;
            },
        }
    }
    out
}

/// A renderer configured as a search render uses it: default format, the
/// given filter and policies, and a selection whose three sets are exactly
/// those the selection builder derives from the results and the index.
pub open spec fn search_cfg(
    cfg: Renderer,
    filter: Seq<char>,
    auto: bool,
    private: bool,
    results: Seq<SearchResult>,
    entries: Seq<SearchEntry>,
    expand: bool,
) -> bool {
    &&& cfg.format == RenderFormat::Rust
    &&& cfg.render_auto_impls == auto
    &&& cfg.render_private_items == private
    &&& cfg.filter@ == filter
    &&& cfg.selection matches Option::Some(s) && s.matches_spec() == result_ids(results).to_set()
        && s.context_spec() == result_ids(results).to_set().union(
        result_ancestors(results, 0).to_set(),
    ).union(
        (if expand {
            expansion_extra(entries, container_ids(results, 0), 0).to_set()
        } else {
            Set::<u64>::empty()
        }),
    ) && s.expanded_spec() == (if expand {
        container_ids(results, 0).to_set()
    } else {
        Set::<u64>::empty()
    })
}

proof fn lemma_list_views_push(pre: Seq<ListItem>, l: ListItem)
    ensures
        list_views(pre.push(l)) =~= list_views(pre).push((l.kind, l.path@)),
{
    assert forall|k: int| 0 <= k < pre.len() + 1 implies #[trigger] list_views(pre.push(l))[k]
        == list_views(pre).push((l.kind, l.path@))[k] by {
        if k < pre.len() {
            assert(list_views(pre.push(l))[k] == (pre.push(l)[k].kind, pre.push(l)[k].path@));
            assert(list_views(pre)[k] == (pre[k].kind, pre[k].path@));
        }
    }
}

/// The top-level configuration: whether the surrounding pipeline works
/// offline, whether compiler-synthesized implementations render, and
/// whether progress output is suppressed.
pub struct Ripdoc {
    /// In offline mode the surrounding pipeline must not touch the network.
    pub offline: bool,
    /// Whether to render compiler-synthesized trait implementations.
    pub auto_impls: bool,
    /// Whether to suppress output during processing.
    pub silent: bool,
}

/// A renderer configured as `Ripdoc` uses it: default format, no selection,
/// the given filter, policies as requested.
pub open spec fn base_cfg(cfg: Renderer, filter: Seq<char>, auto: bool, private: bool) -> bool {
    &&& cfg.format == RenderFormat::Rust
    &&& cfg.render_auto_impls == auto
    &&& cfg.render_private_items == private
    &&& cfg.filter@ == filter
    &&& cfg.selection is None
}

impl Ripdoc {
    /// Creates a new instance with default configuration.
    pub fn new() -> (r: Ripdoc)
        ensures
            !r.offline && !r.auto_impls && !r.silent,
    {
        Ripdoc { offline: false, auto_impls: false, silent: false }
    }

    /// Enables or disables offline mode.
    pub fn with_offline(self, offline: bool) -> (r: Ripdoc)
        ensures
            r.offline == offline && r.auto_impls == self.auto_impls && r.silent == self.silent,
    {
        Ripdoc { offline, ..self }
    }

    /// Enables or disables rendering of compiler-synthesized
    /// implementations.
    pub fn with_auto_impls(self, auto_impls: bool) -> (r: Ripdoc)
        ensures
            r.auto_impls == auto_impls && r.offline == self.offline && r.silent == self.silent,
    {
        Ripdoc { auto_impls, ..self }
    }

    /// Enables or disables silent mode.
    pub fn with_silent(self, silent: bool) -> (r: Ripdoc)
        ensures
            r.silent == silent && r.offline == self.offline && r.auto_impls == self.auto_impls,
    {
        Ripdoc { silent, ..self }
    }

    /// Render an item graph into raw skeleton text under a path filter.
    /// Succeeds exactly when the filter is empty or some item satisfies it.
    pub fn render(&self, graph: &ItemGraph, filter: &str, private_items: bool) -> (r: Result<
        String,
        RipdocError,
    >)
        requires
            graph.wf(),
        ensures
            exists|cfg: Renderer|
                #[trigger] base_cfg(cfg, filter@, self.auto_impls, private_items) && (match r {
                    Result::Ok(t) => t@ == spec_render_item(
                        cfg,
                        *graph,
                        graph.root_spec(),
                        Seq::empty(),
                        graph.root_spec(),
                        false,
                    ) && (filter@.len() == 0 || hit_item(
                        cfg,
                        *graph,
                        graph.root_spec(),
                        Seq::empty(),
                        graph.root_spec(),
                    )),
                    Result::Err(e) => {
                        &&& e matches RipdocError::FilterNotMatched(f) && f@ == filter@
                        &&& filter@.len() > 0
                        &&& !hit_item(
                            cfg,
                            *graph,
                            graph.root_spec(),
                            Seq::empty(),
                            graph.root_spec(),
                        )
                    },
                }),
    {
        let renderer = Renderer::new().with_filter(filter).with_auto_impls(
            self.auto_impls,
        ).with_private_items(private_items);
        let r = renderer.render(graph);
        proof {
            assert(base_cfg(renderer, filter@, self.auto_impls, private_items));
        }
        r
    }

    /// Execute a search against the graph and render the matched items plus
    /// the minimal context needed to keep the output structurally valid.
    /// The results are exactly the index's matches, in index order; with no
    /// hits, nothing is rendered; otherwise the rendered text is the
    /// selection-narrowed skeleton, and the call fails exactly when a
    /// filter is set and the walk never classifies an item as its target.
    pub fn search(&self, graph: &ItemGraph, filter: &str, options: &SearchOptions) -> (r: Result<
        SearchResponse,
        RipdocError,
    >)
        requires
            graph.wf(),
        ensures
            exists|entries: Seq<SearchEntry>|
                {
                    &&& #[trigger] entry_views(entries) == index_item_spec(
                        *graph,
                        options.include_private,
                        Seq::empty(),
                        Seq::empty(),
                        graph.root_spec(),
                    )
                    &&& match r {
                        Result::Ok(resp) => {
                            &&& results_match(resp.results@, entries, *options)
                            &&& (resp.results@.len() == 0 ==> resp.rendered@
                                == Seq::<char>::empty())
                            &&& (resp.results@.len() > 0 ==> exists|cfg: Renderer|
                                {
                                    &&& #[trigger] search_cfg(
                                        cfg,
                                        filter@,
                                        self.auto_impls,
                                        options.include_private,
                                        resp.results@,
                                        entries,
                                        options.expand_containers,
                                    )
                                    &&& resp.rendered@ == spec_render_item(
                                        cfg,
                                        *graph,
                                        graph.root_spec(),
                                        Seq::empty(),
                                        graph.root_spec(),
                                        false,
                                    )
                                    &&& (filter@.len() == 0 || hit_item(
                                        cfg,
                                        *graph,
                                        graph.root_spec(),
                                        Seq::empty(),
                                        graph.root_spec(),
                                    ))
                                })
                        },
                        Result::Err(e) => exists|results: Seq<SearchResult>, cfg: Renderer|
                            {
                                &&& results_match(results, entries, *options)
                                &&& #[trigger] search_cfg(
                                    cfg,
                                    filter@,
                                    self.auto_impls,
                                    options.include_private,
                                    results,
                                    entries,
                                    options.expand_containers,
                                )
                                &&& e matches RipdocError::FilterNotMatched(f) && f@ == filter@
                                &&& filter@.len() > 0
                                &&& !hit_item(
                                    cfg,
                                    *graph,
                                    graph.root_spec(),
                                    Seq::empty(),
                                    graph.root_spec(),
                                )
                            },
                    }
                },
    {
        let index = SearchIndex::build(graph, options.include_private);
        let ghost gentries = index.entries_ref()@;
        let results = index.search(options);
        let ghost gresults = results@;
        if results.len() == 0 {
            let resp = SearchResponse { results, rendered: String::new() };
            proof {
                assert(entry_views(gentries) == index_item_spec(
                    *graph,
                    options.include_private,
                    Seq::empty(),
                    Seq::empty(),
                    graph.root_spec(),
                ));
            }
            return Result::Ok(resp);
        }
        let selection = build_render_selection(&index, &results, options.expand_containers);
        let renderer = Renderer::new().with_filter(filter).with_auto_impls(
            self.auto_impls,
        ).with_private_items(options.include_private).with_selection(selection);
        proof {
            assert(search_cfg(
                renderer,
                filter@,
                self.auto_impls,
                options.include_private,
                gresults,
                gentries,
                options.expand_containers,
            ));
        }
        match renderer.render(graph) {
            Result::Ok(rendered) => Result::Ok(SearchResponse { results, rendered }),
            Result::Err(e) => {
                proof {
                    assert(results_match(gresults, gentries, *options));
                }
                Result::Err(e)
            },
        }
    }

    /// Produce a lightweight listing of the graph's items, optionally
    /// narrowed by a search query: the (kind, path) pairs of the index
    /// entries — or of the search results, when a query is given — in index
    /// order, with imports removed; private items are indexed when either
    /// inclusion flag asks for them.
    pub fn list(
        &self,
        graph: &ItemGraph,
        include_private: bool,
        search: Option<&SearchOptions>,
    ) -> (r: Vec<ListItem>)
        requires
            graph.wf(),
        ensures
            exists|entries: Seq<SearchEntry>|
                {
                    &&& #[trigger] entry_views(entries) == index_item_spec(
                        *graph,
                        include_private || (match search {
                            Option::Some(o) => o.include_private,
                            Option::None => false,
                        }),
                        Seq::empty(),
                        Seq::empty(),
                        graph.root_spec(),
                    )
                    &&& match search {
                        Option::Some(o) => exists|results: Seq<SearchResult>|
                            {
                                &&& #[trigger] results_match(results, entries, *o)
                                &&& list_views(r@) == listing_results(results)
                            },
                        Option::None => list_views(r@) == listing(entries),
                    }
                },
    {
        let with_private = include_private || (match search {
            Option::Some(o) => o.include_private,
            Option::None => false,
        });
        let index = SearchIndex::build(graph, with_private);
        let ghost gentries = index.entries_ref()@;
        let mut out: Vec<ListItem> = Vec::new();
        match search {
            Option::Some(o) => {
                let results = index.search(o);
                let ghost whole = results@;
                let mut i: usize = 0;
                proof {
                    assert(whole.subrange(0, whole.len() as int) =~= whole);
                }
                while i < results.len()
                    invariant
                        i <= whole.len(),
                        whole == results@,
                        list_views(out@) + listing_results(
                            whole.subrange(i as int, whole.len() as int),
                        ) == listing_results(whole),
                    decreases results.len() - i,
                {
                    let ghost pre = list_views(out@);
                    proof {
                        assert(whole.subrange(i as int, whole.len() as int).drop_first()
                            =~= whole.subrange(i + 1, whole.len() as int));
                        assert(whole.subrange(i as int, whole.len() as int)[0] == whole[i as int]);
                    }
                    let res = &results[i];
                    if !matches!(res.kind, SearchItemKind::Use) {
                        let ghost before = out@;
                        out.push(
                            ListItem {
                                kind: res.kind,
                                path: string_of(&chars_of(res.path_string.as_str())),
                            },
                        );
                        proof {
                            lemma_list_views_push(before, out@[out@.len() - 1]);
                        }
                    }
                    proof {
                        assert(list_views(out@) + listing_results(
                            whole.subrange(i + 1, whole.len() as int),
                        ) =~= pre + listing_results(
                            whole.subrange(i as int, whole.len() as int),
                        ));
                    }
                    i = i + 1;
                }
                proof {
                    assert(whole.subrange(whole.len() as int, whole.len() as int)
                        =~= Seq::<SearchResult>::empty());
                    assert(list_views(out@) + listing_results(Seq::empty()) =~= list_views(out@));
                    assert(list_views(out@) == listing_results(whole));
                    assert(results_match(whole, gentries, *o));
                    assert(entry_views(gentries) == index_item_spec(
                        *graph,
                        include_private || o.include_private,
                        Seq::empty(),
                        Seq::empty(),
                        graph.root_spec(),
                    ));
                }
            },
            Option::None => {
                let entries = index.entries();
                let ghost whole = entries@;
                let mut i: usize = 0;
                proof {
                    assert(whole.subrange(0, whole.len() as int) =~= whole);
                }
                while i < entries.len()
                    invariant
                        i <= whole.len(),
                        whole == entries@,
                        list_views(out@) + listing(whole.subrange(i as int, whole.len() as int))
                            == listing(whole),
                    decreases entries.len() - i,
                {
                    let ghost pre = list_views(out@);
                    proof {
                        assert(whole.subrange(i as int, whole.len() as int).drop_first()
                            =~= whole.subrange(i + 1, whole.len() as int));
                        assert(whole.subrange(i as int, whole.len() as int)[0] == whole[i as int]);
                    }
                    let e = &entries[i];
                    if !matches!(e.kind, SearchItemKind::Use) {
                        let ghost before = out@;
                        out.push(
                            ListItem {
                                kind: e.kind,
                                path: string_of(&chars_of(e.path_string.as_str())),
                            },
                        );
                        proof {
                            lemma_list_views_push(before, out@[out@.len() - 1]);
                        }
                    }
                    proof {
                        assert(list_views(out@) + listing(
                            whole.subrange(i + 1, whole.len() as int),
                        ) =~= pre + listing(whole.subrange(i as int, whole.len() as int)));
                    }
                    i = i + 1;
                }
                proof {
                    assert(whole.subrange(whole.len() as int, whole.len() as int)
                        =~= Seq::<SearchEntry>::empty());
                    assert(list_views(out@) + listing(Seq::<SearchEntry>::empty()) =~= list_views(
                        out@,
                    ));
                    assert(list_views(out@) == listing(gentries));
                    assert(entry_views(gentries) == index_item_spec(
                        *graph,
                        include_private,
                        Seq::empty(),
                        Seq::empty(),
                        graph.root_spec(),
                    ));
                }
            },
        }
        out
    }
}

impl Default for Ripdoc {
    /// The default configuration.
    fn default() -> (r: Ripdoc)
        ensures
            !r.offline && !r.auto_impls && !r.silent,
    {
        Ripdoc::new()
    }
}

} // verus!
