//! Search over a small fixture graph.

use ripdoc::graph::ItemGraph;
use ripdoc::model::{
    Function, FunctionHeader, FunctionSignature, Generics, Impl, Item, ItemKind, Module, Path,
    Struct, StructKind, Trait, Type, Visibility,
};
use ripdoc::search::{describe_domains, SearchDomain, SearchIndex, SearchOptions};

fn t(s: &str) -> Vec<char> {
    s.chars().collect()
}

fn empty_generics() -> Generics {
    Generics { params: Vec::new(), where_predicates: Vec::new() }
}

fn default_header() -> FunctionHeader {
    FunctionHeader { is_const: false, is_unsafe: false, is_async: false }
}

fn self_ref() -> Type {
    Type::BorrowedRef {
        lifetime: None,
        is_mutable: false,
        type_: Box::new(Type::Generic(t("Self"))),
    }
}

fn item(id: u64, name: Option<&str>, docs: Option<&str>, inner: ItemKind) -> Item {
    Item {
        id,
        name: name.map(t),
        visibility: Visibility::Public,
        docs: docs.map(t),
        inner,
    }
}

fn fixture_graph() -> ItemGraph {
    let root = 0u64;
    let widget = 1u64;
    let widget_field = 2u64;
    let widget_impl = 3u64;
    let render_method = 4u64;
    let helper_fn = 5u64;
    let paintable_trait = 6u64;
    let paint_method = 7u64;

    let items = vec![
        item(
            root,
            Some("fixture"),
            Some("Fixture root module"),
            ItemKind::Module(Module {
                is_crate: true,
                items: vec![widget, helper_fn, paintable_trait, widget_impl],
                is_stripped: false,
            }),
        ),
        item(
            widget,
            Some("Widget"),
            Some("Widget docs highlight the component"),
            ItemKind::Struct(Struct {
                kind: StructKind::Plain { fields: vec![widget_field], has_stripped_fields: false },
                generics: empty_generics(),
                impls: vec![widget_impl],
            }),
        ),
        item(
            widget_field,
            Some("id"),
            Some("Identifier for Widget"),
            ItemKind::StructField(Type::Primitive(t("u32"))),
        ),
        item(
            widget_impl,
            None,
            None,
            ItemKind::Impl(Impl {
                is_unsafe: false,
                generics: empty_generics(),
                trait_: None,
                for_: Type::ResolvedPath(Path { path: t("Widget"), id: widget, args: None }),
                items: vec![render_method],
                is_negative: false,
                is_synthetic: false,
                blanket_impl: None,
            }),
        ),
        item(
            render_method,
            Some("render"),
            Some("Render the widget"),
            ItemKind::Function(Function {
                sig: FunctionSignature {
                    inputs: vec![(t("self"), self_ref())],
                    output: Some(Type::Primitive(t("u32"))),
                    is_c_variadic: false,
                },
                generics: empty_generics(),
                header: default_header(),
                has_body: true,
            }),
        ),
        item(
            helper_fn,
            Some("helper"),
            Some("Helper docs mention Widget"),
            ItemKind::Function(Function {
                sig: FunctionSignature {
                    inputs: vec![(t("count"), Type::Primitive(t("i32")))],
                    output: Some(
                        Type::ResolvedPath(Path { path: t("Widget"), id: widget, args: None }),
                    ),
                    is_c_variadic: false,
                },
                generics: empty_generics(),
                header: default_header(),
                has_body: true,
            }),
        ),
        item(
            paintable_trait,
            Some("Paintable"),
            Some("Paintable trait handles colors"),
            ItemKind::Trait(Trait {
                is_auto: false,
                is_unsafe: false,
                is_dyn_compatible: true,
                items: vec![paint_method],
                generics: empty_generics(),
                bounds: Vec::new(),
                implementations: Vec::new(),
            }),
        ),
        item(
            paint_method,
            Some("paint"),
            Some("Paint method docs"),
            ItemKind::Function(Function {
                sig: FunctionSignature {
                    inputs: vec![(t("self"), self_ref())],
                    output: None,
                    is_c_variadic: false,
                },
                generics: empty_generics(),
                header: default_header(),
                has_body: false,
            }),
        ),
    ];

    ItemGraph::new(root, items).unwrap()
}

fn build_index() -> SearchIndex {
    let graph = fixture_graph();
    SearchIndex::build(&graph, false)
}

#[test]
fn name_domain_matches_impl_method() {
    let index = build_index();
    let mut options = SearchOptions::new("render");
    options.domains = SearchDomain::names();
    let results = index.search(&options);
    assert!(results.iter().any(|r| r.raw_name == "render"));
    assert!(results.iter().all(|r| r.matched.contains(SearchDomain::names())));
}

#[test]
fn multi_domain_hits_report_all_matches() {
    let index = build_index();
    let mut options = SearchOptions::new("Widget");
    options.domains = SearchDomain::names().or(SearchDomain::docs());
    let results = index.search(&options);
    let widget = results
        .into_iter()
        .find(|r| r.raw_name == "Widget")
        .expect("Widget result");
    assert!(widget.matched.contains(SearchDomain::names()));
    assert!(widget.matched.contains(SearchDomain::docs()));
}

#[test]
fn default_domains_exclude_paths() {
    let defaults: SearchDomain = Default::default();
    assert!(defaults.contains(SearchDomain::names()));
    assert!(defaults.contains(SearchDomain::docs()));
    assert!(defaults.contains(SearchDomain::signatures()));
    assert!(!defaults.contains(SearchDomain::paths()));
}

#[test]
fn path_domain_matches_impl_member() {
    let index = build_index();
    let mut options = SearchOptions::new("fixture::Widget::render");
    options.domains = SearchDomain::paths();
    let results = index.search(&options);
    assert!(results.iter().any(|r| r.raw_name == "render"));
}

#[test]
fn signature_domain_matches_free_function() {
    let index = build_index();
    let mut options = SearchOptions::new("fn helper");
    options.domains = SearchDomain::signatures();
    let results = index.search(&options);
    assert!(results.iter().any(|r| r.raw_name == "helper"));
}

#[test]
fn case_sensitive_toggle_affects_results() {
    let index = build_index();
    let mut options = SearchOptions::new("widget docs");
    options.domains = SearchDomain::docs();
    options.case_sensitive = true;
    assert!(index.search(&options).is_empty());
    options.case_sensitive = false;
    assert!(!index.search(&options).is_empty());
}

#[test]
fn negative_query_returns_empty() {
    let index = build_index();
    let options = SearchOptions::new("missing");
    assert!(index.search(&options).is_empty());
}

#[test]
fn describe_domains_lists_selected_flags() {
    assert_eq!(describe_domains(SearchDomain::empty()), Vec::<String>::new());
    assert_eq!(describe_domains(SearchDomain::names()), vec!["name".to_string()]);
    assert_eq!(
        describe_domains(SearchDomain::names().or(SearchDomain::docs())),
        vec!["name".to_string(), "doc".to_string()]
    );
}
