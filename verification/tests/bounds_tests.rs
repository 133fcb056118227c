//! Generic-bound rendering.

use ripdoc::model::{GenericBound, Path, PreciseCapturingArg, TraitBoundModifier};
use ripdoc::syntax::{render_generic_bound, render_generic_bounds};

fn t(s: &str) -> Vec<char> {
    s.chars().collect()
}

#[test]
fn test_render_generic_bound_with_const_modifier() {
    let trait_path = Path { id: 0, path: t("MyTrait"), args: None };
    let bound = GenericBound::TraitBound {
        trait_: trait_path,
        generic_params: vec![],
        modifier: TraitBoundModifier::MaybeConst,
    };

    let result = render_generic_bound(&bound);
    assert_eq!(result, "~const MyTrait");
}

#[test]
fn test_render_generic_bound_with_const_modifier_and_path() {
    let trait_path = Path { id: 0, path: t("fallback::DisjointBitOr"), args: None };
    let bound = GenericBound::TraitBound {
        trait_: trait_path,
        generic_params: vec![],
        modifier: TraitBoundModifier::MaybeConst,
    };

    let result = render_generic_bound(&bound);
    assert_eq!(result, "~const fallback::DisjointBitOr");
}

#[test]
fn test_render_generic_bound_with_maybe_modifier() {
    let trait_path = Path { id: 0, path: t("Sized"), args: None };
    let bound = GenericBound::TraitBound {
        trait_: trait_path,
        generic_params: vec![],
        modifier: TraitBoundModifier::Maybe,
    };

    let result = render_generic_bound(&bound);
    assert_eq!(result, "?Sized");
}

#[test]
fn test_render_generic_bound_no_modifier() {
    let trait_path = Path { id: 0, path: t("Debug"), args: None };
    let bound = GenericBound::TraitBound {
        trait_: trait_path,
        generic_params: vec![],
        modifier: TraitBoundModifier::Normal,
    };

    let result = render_generic_bound(&bound);
    assert_eq!(result, "Debug");
}

#[test]
fn test_render_generic_bounds_omits_precise_capturing() {
    let sized_path = Path { id: 0, path: t("Sized"), args: None };
    let trait_bound = GenericBound::TraitBound {
        trait_: sized_path,
        generic_params: vec![],
        modifier: TraitBoundModifier::Normal,
    };

    let use_bound = GenericBound::Use(vec![
        PreciseCapturingArg::Lifetime(t("'a")),
        PreciseCapturingArg::Param(t("T")),
    ]);

    let rendered = render_generic_bounds(&vec![trait_bound, use_bound]);
    assert_eq!(rendered, "Sized");
}

#[test]
fn test_render_generic_bounds_only_precise_capturing() {
    let use_only = GenericBound::Use(vec![
        PreciseCapturingArg::Lifetime(t("'a")),
        PreciseCapturingArg::Param(t("T")),
    ]);

    let rendered = render_generic_bounds(&vec![use_only]);
    assert_eq!(rendered, "");
}
