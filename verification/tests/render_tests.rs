//! Render scenarios over small graphs: visibility, positional arity,
//! annotation synthesis, filtering, selection, macros and highlighting.

use ripdoc::config::Renderer;
use ripdoc::core_api::{highlight_matches, is_empty_output, Ripdoc};
use ripdoc::error::RipdocError;
use ripdoc::graph::ItemGraph;
use ripdoc::model::{
    Function, FunctionHeader, FunctionSignature, Generics, Impl, Item, ItemKind, Module, Path,
    Static, Struct, StructKind, Type, Union, Visibility,
};
use ripdoc::search::{SearchDomain, SearchOptions};

fn t(s: &str) -> Vec<char> {
    s.chars().collect()
}

fn empty_generics() -> Generics {
    Generics { params: Vec::new(), where_predicates: Vec::new() }
}

fn default_header() -> FunctionHeader {
    FunctionHeader { is_const: false, is_unsafe: false, is_async: false }
}

fn named(id: u64, name: &str, public: bool, inner: ItemKind) -> Item {
    Item {
        id,
        name: Some(t(name)),
        visibility: if public { Visibility::Public } else { Visibility::Other },
        docs: None,
        inner,
    }
}

fn module(id: u64, name: &str, children: Vec<u64>) -> Item {
    named(
        id,
        name,
        true,
        ItemKind::Module(Module { is_crate: id == 0, items: children, is_stripped: false }),
    )
}

fn function(id: u64, name: &str, public: bool) -> Item {
    named(
        id,
        name,
        public,
        ItemKind::Function(Function {
            sig: FunctionSignature { inputs: vec![], output: None, is_c_variadic: false },
            generics: empty_generics(),
            header: default_header(),
            has_body: true,
        }),
    )
}

fn field(id: u64, name: &str, public: bool, ty: &str) -> Item {
    named(id, name, public, ItemKind::StructField(Type::Primitive(t(ty))))
}

#[test]
fn visibility_round_trip() {
    let items = vec![
        module(0, "demo", vec![1, 2]),
        function(1, "shown", true),
        function(2, "kept_back", false),
    ];
    let graph = ItemGraph::new(0, items).unwrap();

    let out = Renderer::new().render(&graph).unwrap();
    assert!(out.contains("shown"));
    assert!(!out.contains("kept_back"));

    let out = Renderer::new().with_private_items(true).render(&graph).unwrap();
    assert!(out.contains("shown"));
    assert!(out.contains("kept_back"));
}

#[test]
fn positional_arity_preserved() {
    let items = vec![
        module(0, "demo", vec![1]),
        named(
            1,
            "PrivateFieldsTuple",
            true,
            ItemKind::Struct(Struct {
                kind: StructKind::Tuple(vec![Some(2), Some(3), Some(4)]),
                generics: empty_generics(),
                impls: vec![],
            }),
        ),
        field(2, "0", true, "i32"),
        field(3, "1", false, "String"),
        field(4, "2", true, "bool"),
    ];
    let graph = ItemGraph::new(0, items).unwrap();
    let out = Renderer::new().render(&graph).unwrap();
    assert!(out.contains("PrivateFieldsTuple(pub i32, _, pub bool);"));
}

#[test]
fn all_hidden_positional_type() {
    let make = |public: bool| {
        let items = vec![
            module(0, "demo", vec![1]),
            named(
                1,
                "OnlyPrivateTuple",
                public,
                ItemKind::Struct(Struct {
                    kind: StructKind::Tuple(vec![Some(2), Some(3)]),
                    generics: empty_generics(),
                    impls: vec![],
                }),
            ),
            field(2, "0", false, "String"),
            field(3, "1", false, "i32"),
        ];
        ItemGraph::new(0, items).unwrap()
    };

    let out = Renderer::new().render(&make(false)).unwrap();
    assert!(!out.contains("OnlyPrivateTuple"));

    let out = Renderer::new().render(&make(true)).unwrap();
    assert!(out.contains("OnlyPrivateTuple(_, _);"));
}

#[test]
fn annotation_synthesis_rewrites_allow_listed_impl() {
    let items = vec![
        module(0, "demo", vec![1]),
        named(
            1,
            "Tagged",
            true,
            ItemKind::Struct(Struct {
                kind: StructKind::Unit,
                generics: empty_generics(),
                impls: vec![2],
            }),
        ),
        Item {
            id: 2,
            name: None,
            visibility: Visibility::Public,
            docs: None,
            inner: ItemKind::Impl(Impl {
                is_unsafe: false,
                generics: empty_generics(),
                trait_: Some(Path { path: t("Clone"), id: 9, args: None }),
                for_: Type::ResolvedPath(Path { path: t("Tagged"), id: 1, args: None }),
                items: vec![3],
                is_negative: false,
                is_synthetic: false,
                blanket_impl: None,
            }),
        },
        function(3, "clone", true),
    ];
    let graph = ItemGraph::new(0, items).unwrap();
    let out = Renderer::new().render(&graph).unwrap();
    assert!(out.contains("#[derive(Clone)]"));
    assert!(!out.contains("impl Clone for Tagged"));
}

#[test]
fn filter_selects_subtree_and_reports_misses() {
    let items = vec![
        module(0, "demo", vec![1, 4]),
        module(1, "inner", vec![2]),
        function(2, "wanted", true),
        function(4, "other", true),
    ];
    let graph = ItemGraph::new(0, items).unwrap();

    let out = Renderer::new().with_filter("inner").render(&graph).unwrap();
    assert!(out.contains("wanted"));
    assert!(!out.contains("other"));

    match Renderer::new().with_filter("nothing_here").render(&graph) {
        Err(RipdocError::FilterNotMatched(f)) => {
            assert_eq!(f.iter().collect::<String>(), "nothing_here");
        }
        _ => panic!("a filter naming no item must fail"),
    }
}

fn two_method_graph() -> ItemGraph {
    let self_ref = || Type::BorrowedRef {
        lifetime: None,
        is_mutable: false,
        type_: Box::new(Type::Generic(t("Self"))),
    };
    let method = |id: u64, name: &str| {
        named(
            id,
            name,
            true,
            ItemKind::Function(Function {
                sig: FunctionSignature {
                    inputs: vec![(t("self"), self_ref())],
                    output: None,
                    is_c_variadic: false,
                },
                generics: empty_generics(),
                header: default_header(),
                has_body: true,
            }),
        )
    };
    let items = vec![
        module(0, "demo", vec![1]),
        named(
            1,
            "Gadget",
            true,
            ItemKind::Struct(Struct {
                kind: StructKind::Plain { fields: vec![5], has_stripped_fields: false },
                generics: empty_generics(),
                impls: vec![2],
            }),
        ),
        Item {
            id: 2,
            name: None,
            visibility: Visibility::Public,
            docs: None,
            inner: ItemKind::Impl(Impl {
                is_unsafe: false,
                generics: empty_generics(),
                trait_: None,
                for_: Type::ResolvedPath(Path { path: t("Gadget"), id: 1, args: None }),
                items: vec![3, 4],
                is_negative: false,
                is_synthetic: false,
                blanket_impl: None,
            }),
        },
        method(3, "spin"),
        method(4, "halt"),
        field(5, "state", true, "u32"),
    ];
    ItemGraph::new(0, items).unwrap()
}

#[test]
fn search_selection_keeps_context_and_drops_siblings() {
    let graph = two_method_graph();
    let ripdoc = Ripdoc::new();
    let mut options = SearchOptions::new("spin");
    options.domains = SearchDomain::names();

    let response = ripdoc.search(&graph, "", &options).unwrap();
    assert!(response.results.iter().any(|r| r.raw_name == "spin"));
    assert!(response.rendered.contains("mod demo"));
    assert!(response.rendered.contains("impl Gadget"));
    assert!(response.rendered.contains("fn spin"));
    assert!(!response.rendered.contains("fn halt"));
    assert!(!response.rendered.contains("state"));
}

#[test]
fn search_expansion_includes_all_members() {
    let graph = two_method_graph();
    let ripdoc = Ripdoc::new();
    let mut options = SearchOptions::new("Gadget");
    options.domains = SearchDomain::names();
    options.expand_containers = true;

    let response = ripdoc.search(&graph, "", &options).unwrap();
    assert!(response.rendered.contains("fn spin"));
    assert!(response.rendered.contains("fn halt"));
    assert!(response.rendered.contains("state"));
}

#[test]
fn macro_trailing_block_is_removed() {
    let item = Item {
        id: 1,
        name: Some(t("example")),
        visibility: Visibility::Public,
        docs: None,
        inner: ItemKind::Macro(t("macro example($x:expr) {\n    body\n} {\n    ...\n}")),
    };
    let out = ripdoc::macros::render_macro(&item);
    assert!(out.contains("#[macro_export]"));
    assert!(out.ends_with("body\n}\n"));
    assert!(!out.contains("..."));
}

#[test]
fn empty_output_detection() {
    assert!(is_empty_output("pub mod demo {}\n"));
    assert!(is_empty_output("pub mod demo {\n}\n"));
    assert!(!is_empty_output("pub mod demo {\n    pub fn f() {}\n}\n"));
}

#[test]
fn highlight_wraps_matches_in_escapes() {
    assert_eq!(
        highlight_matches("abc", "b", true),
        "a\u{1b}[31mb\u{1b}[39mc"
    );
    assert_eq!(
        highlight_matches("Spin and SPIN", "spin", false),
        "\u{1b}[31mSpin\u{1b}[39m and \u{1b}[31mSPIN\u{1b}[39m"
    );
    assert_eq!(highlight_matches("plain", "", false), "plain");
}

#[test]
fn graph_rejects_duplicates_and_cycles() {
    let dup = vec![module(0, "demo", vec![]), function(0, "again", true)];
    assert!(ItemGraph::new(0, dup).is_none());

    let cyclic = vec![module(0, "demo", vec![0])];
    assert!(ItemGraph::new(0, cyclic).is_none());

    let missing_child = vec![module(0, "demo", vec![7])];
    assert!(ItemGraph::new(0, missing_child).is_none());
}

#[test]
fn annotation_synthesis_with_qualified_path() {
    let items = vec![
        module(0, "demo", vec![1]),
        named(
            1,
            "Record",
            true,
            ItemKind::Struct(Struct {
                kind: StructKind::Unit,
                generics: empty_generics(),
                impls: vec![2],
            }),
        ),
        Item {
            id: 2,
            name: None,
            visibility: Visibility::Public,
            docs: None,
            inner: ItemKind::Impl(Impl {
                is_unsafe: false,
                generics: empty_generics(),
                trait_: Some(Path { path: t("serde::Serialize"), id: 9, args: None }),
                for_: Type::ResolvedPath(Path { path: t("Record"), id: 1, args: None }),
                items: vec![3],
                is_negative: false,
                is_synthetic: false,
                blanket_impl: None,
            }),
        },
        function(3, "serialize", true),
    ];
    let graph = ItemGraph::new(0, items).unwrap();
    let out = Renderer::new().render(&graph).unwrap();
    assert!(out.contains("#[derive(Serialize)]"));
    assert!(!out.contains("impl serde::Serialize for Record"));
}

#[test]
fn static_renders_with_its_value() {
    let items = vec![
        module(0, "demo", vec![1]),
        named(
            1,
            "LIMIT",
            true,
            ItemKind::Static(Static {
                type_: Type::Primitive(t("u32")),
                is_mutable: false,
                expr: t("10"),
            }),
        ),
    ];
    let graph = ItemGraph::new(0, items).unwrap();
    let out = Renderer::new().render(&graph).unwrap();
    assert!(out.contains("pub static LIMIT: u32 = 10;"));
}

#[test]
fn listing_keeps_order_and_kinds() {
    let items = vec![
        module(0, "demo", vec![1, 2]),
        named(1, "Blend", true, ItemKind::Union(Union { generics: empty_generics() })),
        function(2, "mix", true),
    ];
    let graph = ItemGraph::new(0, items).unwrap();
    let listed = Ripdoc::new().list(&graph, false, None);
    let pairs: Vec<(String, String)> =
        listed.iter().map(|l| (l.kind.label(), l.path.clone())).collect();
    assert_eq!(
        pairs,
        vec![
            ("mod".to_string(), "demo".to_string()),
            ("union".to_string(), "demo::Blend".to_string()),
            ("fn".to_string(), "demo::mix".to_string()),
        ]
    );
}
