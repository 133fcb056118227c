//! Syntax renderers: pure functions turning model type, generic, bound and
//! path fragments into surface syntax.
//!
//! Every executable renderer returns exactly the text given by its spec
//! function; the spec functions below define that text by recursion over
//! the model.

use vstd::prelude::*;

verus! {

use crate::model::{
    AssocItemConstraint,
    AssocItemConstraintKind,
    DynTrait,
    FunctionPointer,
    FunctionSignature,
    GenericArg,
    GenericArgs,
    GenericBound,
    GenericParamDef,
    GenericParamDefKind,
    Generics,
    Path,
    PolyTrait,
    Term,
    TraitBoundModifier,
    Type,
    WherePredicate,
};
use crate::text::{
    chars_of,
    contains_char,
    contains_sub,
    eq_str,
    join_spec,
    join_strings,
    push_str,
    remove_all,
    remove_all_spec,
    string_of,
    string_views,
    trim,
    trim_spec,
    views,
};

/// A copy of a string slice, for literal pieces of output.
pub fn lit(s: &str) -> (r: String)
    ensures
        r@ == s@,
{
    s.to_owned()
}

/// The rendered generic arguments of an optional argument list.
pub open spec fn opt_args_spec(args: Option<Box<GenericArgs>>) -> Seq<char>
    decreases args,
{
    match args {
        Option::None => Seq::empty(),
        Option::Some(a) => render_generic_args_spec(*a),
    }
}

/// The rendered form of a path: its text with every `$crate::` marker
/// removed, followed by its generic arguments.
pub open spec fn render_path_spec(p: Path) -> Seq<char>
    decreases p,
{
    remove_all_spec(p.path@, "$crate::"@) + opt_args_spec(p.args)
}

/// The rendered forms of a list of generic arguments.
pub open spec fn rendered_args(s: Seq<GenericArg>) -> Seq<Seq<char>>
    decreases s,
{
    if s.len() == 0 {
        Seq::empty()
    } else {
        seq![render_generic_arg_spec(s[0])] + rendered_args(s.drop_first())
    }
}

/// The rendered form of one generic argument.
pub open spec fn render_generic_arg_spec(g: GenericArg) -> Seq<char>
    decreases g,
{
    match g {
        GenericArg::Lifetime(lt) => lt@,
        GenericArg::Type(t) => render_type_spec(t, false),
        GenericArg::Const(c) => {
            if contains_sub(c.expr@, seq!['$']) {
                "/* macro expression */"@
            } else {
                c.expr@
            }
        },
        GenericArg::Infer => "_"@,
    }
}

/// The rendered forms of a list of associated item constraints.
pub open spec fn rendered_constraints(s: Seq<AssocItemConstraint>) -> Seq<Seq<char>>
    decreases s,
{
    if s.len() == 0 {
        Seq::empty()
    } else {
        seq![render_constraint_spec(s[0])] + rendered_constraints(s.drop_first())
    }
}

/// The rendered form of one associated item constraint.
pub open spec fn render_constraint_spec(c: AssocItemConstraint) -> Seq<char>
    decreases c,
{
    c.name@ + match c.binding {
        AssocItemConstraintKind::Equality(t) => " = "@ + render_term_spec(t),
        AssocItemConstraintKind::Constraint(bounds) => {
            let b = join_spec(rendered_bounds(bounds@), " + "@);
            if b.len() == 0 {
                Seq::empty()
            } else {
                ": "@ + b
            }
        },
    }
}

/// The rendered form of a term.
pub open spec fn render_term_spec(t: Term) -> Seq<char>
    decreases t,
{
    match t {
        Term::Type(ty) => render_type_spec(ty, false),
        Term::Constant(c) => c.expr@,
    }
}

/// The rendered form of a generic argument list.
pub open spec fn render_generic_args_spec(a: GenericArgs) -> Seq<char>
    decreases a,
{
    match a {
        GenericArgs::AngleBracketed { args, constraints } => {
            if args@.len() == 0 && constraints@.len() == 0 {
                Seq::empty()
            } else {
                let args_str = join_spec(rendered_args(args@), ", "@);
                let bindings = join_spec(rendered_constraints(constraints@), ", "@);
                let all = if args_str.len() == 0 {
                    bindings
                } else if bindings.len() == 0 {
                    args_str
                } else {
                    args_str + ", "@ + bindings
                };
                "<"@ + all + ">"@
            }
        },
        GenericArgs::Parenthesized { inputs, output } => {
            let inputs_str = join_spec(rendered_plain_types(inputs@), ", "@);
            let output_str = match output {
                Option::Some(t) => " -> "@ + render_type_spec(t, false),
                Option::None => Seq::empty(),
            };
            "("@ + inputs_str + ")"@ + output_str
        },
        GenericArgs::ReturnTypeNotation => Seq::empty(),
    }
}

/// The rendered forms of a list of types, each in nested position.
pub open spec fn rendered_nested_types(s: Seq<Type>) -> Seq<Seq<char>>
    decreases s,
{
    if s.len() == 0 {
        Seq::empty()
    } else {
        seq![render_type_spec(s[0], true)] + rendered_nested_types(s.drop_first())
    }
}

/// The rendered forms of a list of types, each in top-level position.
pub open spec fn rendered_plain_types(s: Seq<Type>) -> Seq<Seq<char>>
    decreases s,
{
    if s.len() == 0 {
        Seq::empty()
    } else {
        seq![render_type_spec(s[0], false)] + rendered_plain_types(s.drop_first())
    }
}

/// The rendered forms of a list of trait-object bounds.
pub open spec fn rendered_poly_traits(s: Seq<PolyTrait>) -> Seq<Seq<char>>
    decreases s,
{
    if s.len() == 0 {
        Seq::empty()
    } else {
        seq![render_poly_trait_spec(s[0])] + rendered_poly_traits(s.drop_first())
    }
}

/// A universally quantified binder prefix assembled from already-rendered
/// parameters: empty when no parameter was declared or none rendered.
pub open spec fn binder_prefix_spec(params_declared: bool, rendered: Seq<Seq<char>>) -> Seq<char> {
    if !params_declared || rendered.len() == 0 {
        Seq::empty()
    } else {
        "for<"@ + join_spec(rendered, ", "@) + "> "@
    }
}

/// The rendered form of a trait with an optional binder.
pub open spec fn render_poly_trait_spec(pt: PolyTrait) -> Seq<char>
    decreases pt,
{
    binder_prefix_spec(pt.generic_params@.len() > 0, rendered_param_defs(pt.generic_params@))
        + render_path_spec(pt.trait_)
}

/// The rendered form of one bound in a bound list. An unstable
/// precise-capturing bound renders as nothing.
pub open spec fn render_bound_spec(b: GenericBound) -> Seq<char>
    decreases b,
{
    match b {
        GenericBound::TraitBound { trait_, generic_params, modifier } => {
            let poly = binder_prefix_spec(generic_params@.len() > 0, rendered_param_defs(
                generic_params@,
            )) + render_path_spec(trait_);
            match modifier {
                TraitBoundModifier::Normal => poly,
                TraitBoundModifier::MaybeConst => "~const "@ + poly,
                TraitBoundModifier::Maybe => "?"@ + poly,
            }
        },
        GenericBound::Outlives(lt) => lt@,
        GenericBound::Use(_) => Seq::empty(),
    }
}

/// The rendered bounds whose text is not blank, in order.
pub open spec fn rendered_bounds(s: Seq<GenericBound>) -> Seq<Seq<char>>
    decreases s,
{
    if s.len() == 0 {
        Seq::empty()
    } else {
        let first = render_bound_spec(s[0]);
        let rest = rendered_bounds(s.drop_first());
        if trim_spec(first).len() == 0 {
            rest
        } else {
            seq![first] + rest
        }
    }
}

/// A bound list joined with a conjunction separator, blank bounds dropped.
pub open spec fn render_bounds_spec(s: Seq<GenericBound>) -> Seq<char>
    decreases s,
{
    join_spec(rendered_bounds(s), " + "@)
}

/// The rendered form of one declared generic parameter; a synthetic type
/// parameter renders as nothing.
pub open spec fn render_param_def_spec(p: GenericParamDef) -> Option<Seq<char>>
    decreases p,
{
    match p.kind {
        GenericParamDefKind::Lifetime { outlives } => {
            let tail = if outlives@.len() == 0 {
                Seq::empty()
            } else {
                ": "@ + join_spec(views(outlives@), " + "@)
            };
            Option::Some(p.name@ + tail)
        },
        GenericParamDefKind::Type { bounds, default, is_synthetic } => {
            if is_synthetic {
                Option::None
            } else {
                let b = join_spec(rendered_bounds(bounds@), " + "@);
                let bounds_part = if bounds@.len() == 0 || b.len() == 0 {
                    Seq::empty()
                } else {
                    ": "@ + b
                };
                let default_part = match default {
                    Option::Some(t) => " = "@ + render_type_spec(t, false),
                    Option::None => Seq::empty(),
                };
                Option::Some(p.name@ + bounds_part + default_part)
            }
        },
        GenericParamDefKind::Const { type_, default } => {
            let default_part = match default {
                Option::Some(e) => " = "@ + e@,
                Option::None => Seq::empty(),
            };
            Option::Some("const "@ + p.name@ + ": "@ + render_type_spec(type_, false)
                + default_part)
        },
    }
}

/// The rendered parameters that produce text, in order.
pub open spec fn rendered_param_defs(s: Seq<GenericParamDef>) -> Seq<Seq<char>>
    decreases s,
{
    if s.len() == 0 {
        Seq::empty()
    } else {
        let rest = rendered_param_defs(s.drop_first());
        match render_param_def_spec(s[0]) {
            Option::Some(t) => seq![t] + rest,
            Option::None => rest,
        }
    }
}

/// The rendered generic parameter list of an item, with its brackets;
/// empty when no parameter renders.
pub open spec fn render_generics_spec(g: Generics) -> Seq<char>
    decreases g,
{
    let params = rendered_param_defs(g.params@);
    if params.len() == 0 {
        Seq::empty()
    } else {
        "<"@ + join_spec(params, ", "@) + ">"@
    }
}

/// True when some declared parameter is a compiler-synthesized type
/// parameter.
pub open spec fn has_synthetic_param(s: Seq<GenericParamDef>) -> bool {
    exists|i: int|
        0 <= i < s.len() && (#[trigger] s[i].kind matches GenericParamDefKind::Type {
            is_synthetic: true,
            ..
        })
}

/// The rendered form of one `where` predicate; a predicate over a
/// compiler-synthesized parameter, or one whose bound list renders as
/// nothing, is omitted.
pub open spec fn render_where_predicate_spec(p: WherePredicate) -> Option<Seq<char>>
    decreases p,
{
    match p {
        WherePredicate::BoundPredicate { type_, bounds, generic_params } => {
            if (type_ matches Type::Generic(_)) && has_synthetic_param(generic_params@) {
                Option::None
            } else {
                let hrtb = binder_prefix_spec(generic_params@.len() > 0, rendered_param_defs(
                    generic_params@,
                ));
                let bounds_str = join_spec(rendered_bounds(bounds@), " + "@);
                if bounds_str.len() == 0 {
                    Option::None
                } else {
                    Option::Some(hrtb + render_type_spec(type_, false) + ": "@ + bounds_str)
                }
            }
        },
        WherePredicate::LifetimePredicate { lifetime, outlives } => {
            if outlives@.len() == 0 {
                Option::Some(lifetime@)
            } else {
                Option::Some(lifetime@ + ": "@ + join_spec(views(outlives@), " + "@))
            }
        },
        WherePredicate::EqPredicate { lhs, rhs } => {
            Option::Some(render_type_spec(lhs, false) + " = "@ + render_term_spec(rhs))
        },
    }
}

/// The rendered predicates that remain, in order.
pub open spec fn rendered_preds(s: Seq<WherePredicate>) -> Seq<Seq<char>>
    decreases s,
{
    if s.len() == 0 {
        Seq::empty()
    } else {
        let rest = rendered_preds(s.drop_first());
        match render_where_predicate_spec(s[0]) {
            Option::Some(t) => seq![t] + rest,
            Option::None => rest,
        }
    }
}

/// The rendered `where` clause of an item; empty when no predicate remains.
pub open spec fn render_where_clause_spec(g: Generics) -> Seq<char>
    decreases g,
{
    let preds = rendered_preds(g.where_predicates@);
    if preds.len() == 0 {
        Seq::empty()
    } else {
        " where "@ + join_spec(preds, ", "@)
    }
}

/// The rendered forms of a function's parameters, in order.
pub open spec fn rendered_inputs(s: Seq<(Vec<char>, Type)>) -> Seq<Seq<char>>
    decreases s,
{
    if s.len() == 0 {
        Seq::empty()
    } else {
        seq![render_input_spec(s[0])] + rendered_inputs(s.drop_first())
    }
}

/// The rendered form of one function parameter. A `self` parameter is
/// rendered in its shorthand form where one exists.
pub open spec fn render_input_spec(inp: (Vec<char>, Type)) -> Seq<char>
    decreases inp,
{
    if inp.0@ == "self"@ {
        match inp.1 {
            Type::BorrowedRef { is_mutable, .. } => {
                if is_mutable {
                    "&mut self"@
                } else {
                    "&self"@
                }
            },
            Type::ResolvedPath(path) => {
                if path.path@ == "Self"@ && path.args is None {
                    "self"@
                } else {
                    "self: "@ + render_type_spec(Type::ResolvedPath(path), false)
                }
            },
            Type::Generic(name) => {
                if name@ == "Self"@ {
                    "self"@
                } else {
                    "self: "@ + render_type_spec(Type::Generic(name), false)
                }
            },
            t => "self: "@ + render_type_spec(t, false),
        }
    } else {
        inp.0@ + ": "@ + render_type_spec(inp.1, false)
    }
}

/// The rendered parameter list of a function, without its parentheses.
pub open spec fn render_function_args_spec(sig: FunctionSignature) -> Seq<char>
    decreases sig,
{
    join_spec(rendered_inputs(sig.inputs@), ", "@)
}

/// The rendered return type of a function, with its arrow; empty when the
/// return type is implied.
pub open spec fn render_return_type_spec(sig: FunctionSignature) -> Seq<char>
    decreases sig,
{
    match sig.output {
        Option::Some(t) => "-> "@ + render_type_spec(t, false),
        Option::None => Seq::empty(),
    }
}

/// The rendered form of a function pointer type.
pub open spec fn render_fn_pointer_spec(f: FunctionPointer) -> Seq<char>
    decreases f,
{
    "fn("@ + render_function_args_spec(f.sig) + ") "@ + render_return_type_spec(f.sig)
}

/// The rendered form of a trait object, parenthesized in nested position
/// when it could be misread as part of an enclosing type.
pub open spec fn render_dyn_trait_spec(dt: DynTrait, nested: bool) -> Seq<char>
    decreases dt,
{
    let traits = join_spec(rendered_poly_traits(dt.traits@), " + "@);
    let lifetime = match dt.lifetime {
        Option::Some(lt) => " + "@ + lt@,
        Option::None => Seq::empty(),
    };
    let inner = "dyn "@ + traits + lifetime;
    if nested && (dt.lifetime is Some || dt.traits@.len() > 1 || contains_sub(traits, " + "@)) {
        "("@ + inner + ")"@
    } else {
        inner
    }
}

/// The rendered form of a type. `nested` records whether the type stands
/// inside another type, where some forms need parentheses.
pub open spec fn render_type_spec(t: Type, nested: bool) -> Seq<char>
    decreases t,
{
    match t {
        Type::ResolvedPath(p) => render_path_spec(p),
        Type::DynTrait(dt) => render_dyn_trait_spec(dt, nested),
        Type::Generic(s) => s@,
        Type::Primitive(s) => s@,
        Type::FunctionPointer(f) => render_fn_pointer_spec(*f),
        Type::Tuple(ts) => "("@ + join_spec(rendered_nested_types(ts@), ", "@) + ")"@,
        Type::Slice(inner) => "["@ + render_type_spec(*inner, true) + "]"@,
        Type::Array { type_, len } => "["@ + render_type_spec(*type_, true) + "; "@ + len@ + "]"@,
        Type::ImplTrait(bounds) => {
            let b = join_spec(rendered_bounds(bounds@), " + "@);
            if nested && contains_sub(b, " + "@) {
                "(impl "@ + b + ")"@
            } else {
                "impl "@ + b
            }
        },
        Type::Infer => "_"@,
        Type::RawPointer { is_mutable, type_ } => {
            let m = if is_mutable {
                "mut"@
            } else {
                "const"@
            };
            "*"@ + m + " "@ + render_type_spec(*type_, true)
        },
        Type::BorrowedRef { lifetime, is_mutable, type_ } => {
            let lt = match lifetime {
                Option::Some(l) => l@ + " "@,
                Option::None => Seq::empty(),
            };
            let m = if is_mutable {
                "mut "@
            } else {
                Seq::empty()
            };
            "&"@ + lt + m + render_type_spec(*type_, true)
        },
        Type::QualifiedPath { name, args, self_type, trait_ } => {
            let self_str = render_type_spec(*self_type, true);
            let args_str = opt_args_spec(args);
            match trait_ {
                Option::Some(tr) => {
                    let trait_path = render_path_spec(tr);
                    if trait_path.len() > 0 {
                        "<"@ + self_str + " as "@ + trait_path + ">::"@ + name@ + args_str
                    } else {
                        self_str + "::"@ + name@ + args_str
                    }
                },
                Option::None => self_str + "::"@ + name@ + args_str,
            }
        },
        Type::Pat(_) => "/* pattern */"@,
    }
}

proof fn lemma_suffix_step<T>(s: Seq<T>, i: int)
    requires
        0 <= i < s.len(),
    ensures
        s.subrange(i, s.len() as int).len() == s.len() - i,
        s.subrange(i, s.len() as int)[0] == s[i],
        s.subrange(i, s.len() as int).drop_first() == s.subrange(i + 1, s.len() as int),
{
    assert(s.subrange(i, s.len() as int).drop_first() =~= s.subrange(i + 1, s.len() as int));
}

/// Render every generic argument in a list.
fn args_list(s: &Vec<GenericArg>) -> (r: Vec<String>)
    ensures
        string_views(r@) == rendered_args(s@),
    decreases s,
{
    let ghost whole = s@;
    let mut out: Vec<String> = Vec::new();
    let mut i: usize = 0;
    proof {
        assert(whole.subrange(0, whole.len() as int) =~= whole);
        assert(string_views(out@) =~= Seq::<Seq<char>>::empty());
        assert(string_views(out@) + rendered_args(whole) =~= rendered_args(whole));
    }
    while i < s.len()
        invariant
            i <= whole.len(),
            whole == s@,
            string_views(out@) + rendered_args(whole.subrange(i as int, whole.len() as int))
                == rendered_args(whole),
        decreases s.len() - i,
    {
        let ghost pre = string_views(out@);
        proof {
            lemma_suffix_step(whole, i as int);
        }
        let x = render_generic_arg(&s[i]);
        out.push(x);
        proof {
            assert(string_views(out@) =~= pre + seq![render_generic_arg_spec(whole[i as int])]);
            assert(string_views(out@) + rendered_args(
                whole.subrange(i + 1, whole.len() as int),
            ) =~= pre + rendered_args(whole.subrange(i as int, whole.len() as int)));
        }
        i = i + 1;
    }
    proof {
        assert(whole.subrange(whole.len() as int, whole.len() as int) =~= Seq::<GenericArg>::empty());
        assert(string_views(out@) + rendered_args(Seq::empty()) =~= string_views(out@));
    }
    out
}

/// Render one generic argument.
fn render_generic_arg(g: &GenericArg) -> (r: String)
    ensures
        r@ == render_generic_arg_spec(*g),
    decreases g,
{
    match g {
        GenericArg::Lifetime(lt) => string_of(lt),
        GenericArg::Type(t) => render_type_inner(t, false),
        GenericArg::Const(c) => {
            let expr_chars = &c.expr;
            if contains_char(expr_chars, '$') {
                proof {
                    reveal_strlit("$");
                    assert("$"@ =~= seq!['$']);
                    crate::text::lemma_contains_one(c.expr@, '$');
                }
                lit("/* macro expression */")
            } else {
                proof {
                    reveal_strlit("$");
                    assert("$"@ =~= seq!['$']);
                    crate::text::lemma_contains_one(c.expr@, '$');
                }
                string_of(&c.expr)
            }
        },
        GenericArg::Infer => lit("_"),
    }
}

/// Render every associated item constraint in a list.
fn constraints_list(s: &Vec<AssocItemConstraint>) -> (r: Vec<String>)
    ensures
        string_views(r@) == rendered_constraints(s@),
    decreases s,
{
    let ghost whole = s@;
    let mut out: Vec<String> = Vec::new();
    let mut i: usize = 0;
    proof {
        assert(whole.subrange(0, whole.len() as int) =~= whole);
        assert(string_views(out@) =~= Seq::<Seq<char>>::empty());
        assert(string_views(out@) + rendered_constraints(whole) =~= rendered_constraints(whole));
    }
    while i < s.len()
        invariant
            i <= whole.len(),
            whole == s@,
            string_views(out@) + rendered_constraints(
                whole.subrange(i as int, whole.len() as int),
            ) == rendered_constraints(whole),
        decreases s.len() - i,
    {
        let ghost pre = string_views(out@);
        proof {
            lemma_suffix_step(whole, i as int);
        }
        let x = render_type_constraint(&s[i]);
        out.push(x);
        proof {
            assert(string_views(out@) =~= pre + seq![render_constraint_spec(whole[i as int])]);
            assert(string_views(out@) + rendered_constraints(
                whole.subrange(i + 1, whole.len() as int),
            ) =~= pre + rendered_constraints(whole.subrange(i as int, whole.len() as int)));
        }
        i = i + 1;
    }
    proof {
        assert(whole.subrange(whole.len() as int, whole.len() as int)
            =~= Seq::<AssocItemConstraint>::empty());
        assert(string_views(out@) + rendered_constraints(Seq::empty()) =~= string_views(out@));
    }
    out
}

/// Render an associated type constraint with equality or bound semantics.
fn render_type_constraint(c: &AssocItemConstraint) -> (r: String)
    ensures
        r@ == render_constraint_spec(*c),
    decreases c,
{
    let mut out = string_of(&c.name);
    match &c.binding {
        AssocItemConstraintKind::Equality(t) => {
            push_str(&mut out, " = ");
            let term = render_term(t);
            push_str(&mut out, term.as_str());
            proof {
                assert(out@ =~= c.name@ + (" = "@ + render_term_spec(*t)));
            }
        },
        AssocItemConstraintKind::Constraint(bounds) => {
            let parts = bounds_list(bounds);
            let b = join_strings(&parts, " + ");
            if !b.as_str().is_empty() {
                push_str(&mut out, ": ");
                push_str(&mut out, b.as_str());
                proof {
                    assert(out@ =~= c.name@ + (": "@ + b@));
                }
            } else {
                proof {
                    assert(b@.len() == 0);
                    assert(out@ =~= c.name@ + Seq::<char>::empty());
                }
            }
        },
    }
    out
}

/// Render a `Term` appearing in associated type constraints.
fn render_term(t: &Term) -> (r: String)
    ensures
        r@ == render_term_spec(*t),
    decreases t,
{
    match t {
        Term::Type(ty) => render_type_inner(ty, false),
        Term::Constant(c) => string_of(&c.expr),
    }
}

/// Render concrete generic arguments used in a path.
pub fn render_generic_args(a: &GenericArgs) -> (r: String)
    ensures
        r@ == render_generic_args_spec(*a),
    decreases a,
{
    match a {
        GenericArgs::AngleBracketed { args, constraints } => {
            if args.len() == 0 && constraints.len() == 0 {
                String::new()
            } else {
                let arg_parts = args_list(args);
                let args_str = join_strings(&arg_parts, ", ");
                let constraint_parts = constraints_list(constraints);
                let bindings = join_strings(&constraint_parts, ", ");
                let mut out = lit("<");
                if args_str.as_str().is_empty() {
                    push_str(&mut out, bindings.as_str());
                } else if bindings.as_str().is_empty() {
                    push_str(&mut out, args_str.as_str());
                } else {
                    push_str(&mut out, args_str.as_str());
                    push_str(&mut out, ", ");
                    push_str(&mut out, bindings.as_str());
                }
                push_str(&mut out, ">");
                proof {
                    let all = if args_str@.len() == 0 {
                        bindings@
                    } else if bindings@.len() == 0 {
                        args_str@
                    } else {
                        args_str@ + ", "@ + bindings@
                    };
                    assert(out@ =~= "<"@ + all + ">"@);
                }
                out
            }
        },
        GenericArgs::Parenthesized { inputs, output } => {
            let input_parts = plain_types_list(inputs);
            let inputs_str = join_strings(&input_parts, ", ");
            let mut out = lit("(");
            push_str(&mut out, inputs_str.as_str());
            push_str(&mut out, ")");
            match output {
                Option::Some(t) => {
                    push_str(&mut out, " -> ");
                    let ty = render_type_inner(t, false);
                    push_str(&mut out, ty.as_str());
                    proof {
                        assert(out@ =~= "("@ + inputs_str@ + ")"@ + (" -> "@ + ty@));
                    }
                },
                Option::None => {
                    proof {
                        assert(out@ =~= "("@ + inputs_str@ + ")"@ + Seq::<char>::empty());
                    }
                },
            }
            out
        },
        GenericArgs::ReturnTypeNotation => String::new(),
    }
}

/// Render a type or module path into surface form.
pub fn render_path(p: &Path) -> (r: String)
    ensures
        r@ == render_path_spec(*p),
    decreases p,
{
    let path_chars = &p.path;
    proof {
        reveal_strlit("$crate::");
    }
    let cleaned = remove_all(path_chars, "$crate::");
    let mut out = string_of(&cleaned);
    match &p.args {
        Option::Some(b) => {
            let args = render_generic_args(b);
            push_str(&mut out, args.as_str());
        },
        Option::None => {},
    }
    proof {
        assert(out@ =~= remove_all_spec(p.path@, "$crate::"@) + opt_args_spec(p.args));
    }
    out
}

/// Render every trait-object bound in a list.
fn poly_traits_list(s: &Vec<PolyTrait>) -> (r: Vec<String>)
    ensures
        string_views(r@) == rendered_poly_traits(s@),
    decreases s,
{
    let ghost whole = s@;
    let mut out: Vec<String> = Vec::new();
    let mut i: usize = 0;
    proof {
        assert(whole.subrange(0, whole.len() as int) =~= whole);
        assert(string_views(out@) =~= Seq::<Seq<char>>::empty());
        assert(string_views(out@) + rendered_poly_traits(whole) =~= rendered_poly_traits(whole));
    }
    while i < s.len()
        invariant
            i <= whole.len(),
            whole == s@,
            string_views(out@) + rendered_poly_traits(
                whole.subrange(i as int, whole.len() as int),
            ) == rendered_poly_traits(whole),
        decreases s.len() - i,
    {
        let ghost pre = string_views(out@);
        proof {
            lemma_suffix_step(whole, i as int);
        }
        let x = render_poly_trait(&s[i]);
        out.push(x);
        proof {
            assert(string_views(out@) =~= pre + seq![render_poly_trait_spec(whole[i as int])]);
            assert(string_views(out@) + rendered_poly_traits(
                whole.subrange(i + 1, whole.len() as int),
            ) =~= pre + rendered_poly_traits(whole.subrange(i as int, whole.len() as int)));
        }
        i = i + 1;
    }
    proof {
        assert(whole.subrange(whole.len() as int, whole.len() as int)
            =~= Seq::<PolyTrait>::empty());
        assert(string_views(out@) + rendered_poly_traits(Seq::empty()) =~= string_views(out@));
    }
    out
}

/// Render the binder prefix from declared parameters.
fn binder_prefix(declared: bool, rendered: &Vec<String>) -> (r: String)
    ensures
        r@ == binder_prefix_spec(declared, string_views(rendered@)),
{
    if !declared || rendered.len() == 0 {
        String::new()
    } else {
        let joined = join_strings(rendered, ", ");
        let mut out = lit("for<");
        push_str(&mut out, joined.as_str());
        push_str(&mut out, "> ");
        proof {
            assert(out@ =~= "for<"@ + joined@ + "> "@);
        }
        out
    }
}

/// Render a `PolyTrait` including any generic parameters.
pub fn render_poly_trait(pt: &PolyTrait) -> (r: String)
    ensures
        r@ == render_poly_trait_spec(*pt),
    decreases pt,
{
    let params = param_defs_list(&pt.generic_params);
    let mut out = binder_prefix(pt.generic_params.len() > 0, &params);
    let path = render_path(&pt.trait_);
    push_str(&mut out, path.as_str());
    out
}

/// Render a generic bound expression into surface syntax.
pub fn render_generic_bound(b: &GenericBound) -> (r: String)
    ensures
        r@ == render_bound_spec(*b),
    decreases b,
{
    match b {
        GenericBound::TraitBound { trait_, generic_params, modifier } => {
            let params = param_defs_list(generic_params);
            let mut poly = binder_prefix(generic_params.len() > 0, &params);
            let path = render_path(trait_);
            push_str(&mut poly, path.as_str());
            match modifier {
                TraitBoundModifier::Normal => poly,
                TraitBoundModifier::MaybeConst => {
                    let mut out = lit("~const ");
                    push_str(&mut out, poly.as_str());
                    out
                },
                TraitBoundModifier::Maybe => {
                    let mut out = lit("?");
                    push_str(&mut out, poly.as_str());
                    out
                },
            }
        },
        GenericBound::Outlives(lt) => string_of(lt),
        GenericBound::Use(_) => String::new(),
    }
}

/// Render every non-blank bound in a list.
fn bounds_list(s: &Vec<GenericBound>) -> (r: Vec<String>)
    ensures
        string_views(r@) == rendered_bounds(s@),
    decreases s,
{
    let ghost whole = s@;
    let mut out: Vec<String> = Vec::new();
    let mut i: usize = 0;
    proof {
        assert(whole.subrange(0, whole.len() as int) =~= whole);
        assert(string_views(out@) =~= Seq::<Seq<char>>::empty());
        assert(string_views(out@) + rendered_bounds(whole) =~= rendered_bounds(whole));
    }
    while i < s.len()
        invariant
            i <= whole.len(),
            whole == s@,
            string_views(out@) + rendered_bounds(whole.subrange(i as int, whole.len() as int))
                == rendered_bounds(whole),
        decreases s.len() - i,
    {
        let ghost pre = string_views(out@);
        proof {
            lemma_suffix_step(whole, i as int);
        }
        let x = render_generic_bound(&s[i]);
        let x_chars = chars_of(x.as_str());
        let trimmed = trim(&x_chars);
        if trimmed.len() != 0 {
            out.push(x);
            proof {
                assert(string_views(out@) =~= pre + seq![render_bound_spec(whole[i as int])]);
                assert(string_views(out@) + rendered_bounds(
                    whole.subrange(i + 1, whole.len() as int),
                ) =~= pre + rendered_bounds(whole.subrange(i as int, whole.len() as int)));
            }
        } else {
            proof {
                assert(string_views(out@) + rendered_bounds(
                    whole.subrange(i + 1, whole.len() as int),
                ) =~= pre + rendered_bounds(whole.subrange(i as int, whole.len() as int)));
            }
        }
        i = i + 1;
    }
    proof {
        assert(whole.subrange(whole.len() as int, whole.len() as int)
            =~= Seq::<GenericBound>::empty());
        assert(string_views(out@) + rendered_bounds(Seq::empty()) =~= string_views(out@));
    }
    out
}

/// Render a comma-separated list of generic bounds joined with `+`.
pub fn render_generic_bounds(bounds: &Vec<GenericBound>) -> (r: String)
    ensures
        r@ == render_bounds_spec(bounds@),
    decreases bounds,
{
    let parts = bounds_list(bounds);
    join_strings(&parts, " + ")
}

/// Render an individual generic parameter definition; a synthetic type
/// parameter yields nothing.
pub fn render_generic_param_def(p: &GenericParamDef) -> (r: Option<String>)
    ensures
        match r {
            Option::Some(t) => render_param_def_spec(*p) == Option::Some(t@),
            Option::None => render_param_def_spec(*p) is None,
        },
    decreases p,
{
    match &p.kind {
        GenericParamDefKind::Lifetime { outlives } => {
            let mut out = string_of(&p.name);
            if outlives.len() != 0 {
                push_str(&mut out, ": ");
                let joined = join_views(outlives);
                push_str(&mut out, joined.as_str());
                proof {
                    assert(out@ =~= p.name@ + (": "@ + joined@));
                }
            } else {
                proof {
                    assert(out@ =~= p.name@ + Seq::<char>::empty());
                }
            }
            Option::Some(out)
        },
        GenericParamDefKind::Type { bounds, default, is_synthetic } => {
            if *is_synthetic {
                Option::None
            } else {
                let mut out = string_of(&p.name);
                let bound_parts = bounds_list(bounds);
                let b = join_strings(&bound_parts, " + ");
                let ghost bounds_part = if bounds@.len() == 0 || b@.len() == 0 {
                    Seq::<char>::empty()
                } else {
                    ": "@ + b@
                };
                if bounds.len() != 0 && !b.as_str().is_empty() {
                    push_str(&mut out, ": ");
                    push_str(&mut out, b.as_str());
                }
                let ghost mid = out@;
                proof {
                    assert(mid =~= p.name@ + bounds_part);
                }
                match default {
                    Option::Some(t) => {
                        push_str(&mut out, " = ");
                        let ty = render_type_inner(t, false);
                        push_str(&mut out, ty.as_str());
                        proof {
                            assert(out@ =~= p.name@ + bounds_part + (" = "@ + ty@));
                        }
                    },
                    Option::None => {
                        proof {
                            assert(out@ =~= p.name@ + bounds_part + Seq::<char>::empty());
                        }
                    },
                }
                Option::Some(out)
            }
        },
        GenericParamDefKind::Const { type_, default } => {
            let mut out = lit("const ");
            push_str(&mut out, string_of(&p.name).as_str());
            push_str(&mut out, ": ");
            let ty = render_type_inner(type_, false);
            push_str(&mut out, ty.as_str());
            let ghost mid = out@;
            proof {
                assert(mid =~= "const "@ + p.name@ + ": "@ + ty@);
            }
            match default {
                Option::Some(e) => {
                    push_str(&mut out, " = ");
                    push_str(&mut out, string_of(e).as_str());
                    proof {
                        assert(out@ =~= mid + (" = "@ + e@));
                    }
                },
                Option::None => {
                    proof {
                        assert(out@ =~= mid + Seq::<char>::empty());
                    }
                },
            }
            Option::Some(out)
        },
    }
}

/// Join a list of character vectors with `+` separators.
fn join_views(vs: &Vec<Vec<char>>) -> (r: String)
    ensures
        r@ == join_spec(views(vs@), " + "@),
{
    let mut parts: Vec<String> = Vec::new();
    let mut i: usize = 0;
    while i < vs.len()
        invariant
            i <= vs@.len(),
            string_views(parts@) == views(vs@).subrange(0, i as int),
            parts@.len() == i,
        decreases vs.len() - i,
    {
        parts.push(string_of(&vs[i]));
        proof {
            assert(string_views(parts@) =~= views(vs@).subrange(0, i + 1));
        }
        i = i + 1;
    }
    proof {
        assert(views(vs@).subrange(0, views(vs@).len() as int) =~= views(vs@));
    }
    join_strings(&parts, " + ")
}

/// Render every parameter that produces text.
fn param_defs_list(s: &Vec<GenericParamDef>) -> (r: Vec<String>)
    ensures
        string_views(r@) == rendered_param_defs(s@),
    decreases s,
{
    let ghost whole = s@;
    let mut out: Vec<String> = Vec::new();
    let mut i: usize = 0;
    proof {
        assert(whole.subrange(0, whole.len() as int) =~= whole);
        assert(string_views(out@) =~= Seq::<Seq<char>>::empty());
        assert(string_views(out@) + rendered_param_defs(whole) =~= rendered_param_defs(whole));
    }
    while i < s.len()
        invariant
            i <= whole.len(),
            whole == s@,
            string_views(out@) + rendered_param_defs(whole.subrange(i as int, whole.len() as int))
                == rendered_param_defs(whole),
        decreases s.len() - i,
    {
        let ghost pre = string_views(out@);
        proof {
            lemma_suffix_step(whole, i as int);
        }
        match render_generic_param_def(&s[i]) {
            Option::Some(x) => {
                out.push(x);
                proof {
                    assert(rendered_param_defs(whole.subrange(i as int, whole.len() as int))
                        == seq![render_param_def_spec(whole[i as int])->0] + rendered_param_defs(
                        whole.subrange(i + 1, whole.len() as int),
                    ));
                    assert(string_views(out@) =~= pre + seq![
                        render_param_def_spec(whole[i as int])->0,
                    ]);
                    assert(string_views(out@) + rendered_param_defs(
                        whole.subrange(i + 1, whole.len() as int),
                    ) =~= pre + rendered_param_defs(whole.subrange(i as int, whole.len() as int)));
                }
            },
            Option::None => {
                proof {
                    assert(string_views(out@) + rendered_param_defs(
                        whole.subrange(i + 1, whole.len() as int),
                    ) =~= pre + rendered_param_defs(whole.subrange(i as int, whole.len() as int)));
                }
            },
        }
        i = i + 1;
    }
    proof {
        assert(whole.subrange(whole.len() as int, whole.len() as int)
            =~= Seq::<GenericParamDef>::empty());
        assert(string_views(out@) + rendered_param_defs(Seq::empty()) =~= string_views(out@));
    }
    out
}

/// Render the generic parameter list for an item.
pub fn render_generics(g: &Generics) -> (r: String)
    ensures
        r@ == render_generics_spec(*g),
    decreases g,
{
    let params = param_defs_list(&g.params);
    if params.len() == 0 {
        String::new()
    } else {
        let joined = join_strings(&params, ", ");
        let mut out = lit("<");
        push_str(&mut out, joined.as_str());
        push_str(&mut out, ">");
        proof {
            assert(out@ =~= "<"@ + joined@ + ">"@);
        }
        out
    }
}

/// Render a single predicate within a `where` clause; a predicate over a
/// synthetic parameter, or one without rendered bounds, yields nothing.
pub fn render_where_predicate(p: &WherePredicate) -> (r: Option<String>)
    ensures
        match r {
            Option::Some(t) => render_where_predicate_spec(*p) == Option::Some(t@),
            Option::None => render_where_predicate_spec(*p) is None,
        },
    decreases p,
{
    match p {
        WherePredicate::BoundPredicate { type_, bounds, generic_params } => {
            let is_generic = match type_ {
                Type::Generic(_) => true,
                _ => false,
            };
            if is_generic && has_synthetic(generic_params) {
                Option::None
            } else {
                let params = param_defs_list(generic_params);
                let hrtb = binder_prefix(generic_params.len() > 0, &params);
                let bound_parts = bounds_list(bounds);
                let bounds_str = join_strings(&bound_parts, " + ");
                if bounds_str.as_str().is_empty() {
                    Option::None
                } else {
                    let mut out = hrtb;
                    let ty = render_type_inner(type_, false);
                    push_str(&mut out, ty.as_str());
                    push_str(&mut out, ": ");
                    push_str(&mut out, bounds_str.as_str());
                    proof {
                        assert(out@ =~= binder_prefix_spec(
                            generic_params@.len() > 0,
                            rendered_param_defs(generic_params@),
                        ) + ty@ + ": "@ + bounds_str@);
                    }
                    Option::Some(out)
                }
            }
        },
        WherePredicate::LifetimePredicate { lifetime, outlives } => {
            let mut out = string_of(lifetime);
            if outlives.len() != 0 {
                push_str(&mut out, ": ");
                let joined = join_views(outlives);
                push_str(&mut out, joined.as_str());
                proof {
                    assert(out@ =~= lifetime@ + ": "@ + joined@);
                }
            }
            Option::Some(out)
        },
        WherePredicate::EqPredicate { lhs, rhs } => {
            let mut out = render_type_inner(lhs, false);
            push_str(&mut out, " = ");
            let term = render_term(rhs);
            push_str(&mut out, term.as_str());
            proof {
                assert(out@ =~= render_type_spec(*lhs, false) + " = "@ + render_term_spec(*rhs));
            }
            Option::Some(out)
        },
    }
}

/// Test whether a parameter list holds a synthetic type parameter.
fn has_synthetic(s: &Vec<GenericParamDef>) -> (r: bool)
    ensures
        r == has_synthetic_param(s@),
{
    let mut i: usize = 0;
    while i < s.len()
        invariant
            i <= s@.len(),
            forall|j: int|
                0 <= j < i ==> !(#[trigger] s@[j].kind matches GenericParamDefKind::Type {
                    is_synthetic: true,
                    ..
                }),
        decreases s.len() - i,
    {
        let synthetic = match &s[i].kind {
            GenericParamDefKind::Type { is_synthetic, .. } => *is_synthetic,
            _ => false,
        };
        if synthetic {
            return true;
        }
        i = i + 1;
    }
    false
}

/// Render every predicate that remains.
fn preds_list(s: &Vec<WherePredicate>) -> (r: Vec<String>)
    ensures
        string_views(r@) == rendered_preds(s@),
    decreases s,
{
    let ghost whole = s@;
    let mut out: Vec<String> = Vec::new();
    let mut i: usize = 0;
    proof {
        assert(whole.subrange(0, whole.len() as int) =~= whole);
        assert(string_views(out@) =~= Seq::<Seq<char>>::empty());
        assert(string_views(out@) + rendered_preds(whole) =~= rendered_preds(whole));
    }
    while i < s.len()
        invariant
            i <= whole.len(),
            whole == s@,
            string_views(out@) + rendered_preds(whole.subrange(i as int, whole.len() as int))
                == rendered_preds(whole),
        decreases s.len() - i,
    {
        let ghost pre = string_views(out@);
        proof {
            lemma_suffix_step(whole, i as int);
        }
        match render_where_predicate(&s[i]) {
            Option::Some(x) => {
                out.push(x);
                proof {
                    assert(string_views(out@) =~= pre + seq![
                        render_where_predicate_spec(whole[i as int])->0,
                    ]);
                    assert(string_views(out@) + rendered_preds(
                        whole.subrange(i + 1, whole.len() as int),
                    ) =~= pre + rendered_preds(whole.subrange(i as int, whole.len() as int)));
                }
            },
            Option::None => {
                proof {
                    assert(string_views(out@) + rendered_preds(
                        whole.subrange(i + 1, whole.len() as int),
                    ) =~= pre + rendered_preds(whole.subrange(i as int, whole.len() as int)));
                }
            },
        }
        i = i + 1;
    }
    proof {
        assert(whole.subrange(whole.len() as int, whole.len() as int)
            =~= Seq::<WherePredicate>::empty());
        assert(string_views(out@) + rendered_preds(Seq::empty()) =~= string_views(out@));
    }
    out
}

/// Render a `where` clause for a generics block.
pub fn render_where_clause(g: &Generics) -> (r: String)
    ensures
        r@ == render_where_clause_spec(*g),
    decreases g,
{
    let preds = preds_list(&g.where_predicates);
    if preds.len() == 0 {
        String::new()
    } else {
        let joined = join_strings(&preds, ", ");
        let mut out = lit(" where ");
        push_str(&mut out, joined.as_str());
        proof {
            assert(out@ =~= " where "@ + joined@);
        }
        out
    }
}

/// Render every function parameter in a list.
fn inputs_list(s: &Vec<(Vec<char>, Type)>) -> (r: Vec<String>)
    ensures
        string_views(r@) == rendered_inputs(s@),
    decreases s,
{
    let ghost whole = s@;
    let mut out: Vec<String> = Vec::new();
    let mut i: usize = 0;
    proof {
        assert(whole.subrange(0, whole.len() as int) =~= whole);
        assert(string_views(out@) =~= Seq::<Seq<char>>::empty());
        assert(string_views(out@) + rendered_inputs(whole) =~= rendered_inputs(whole));
    }
    while i < s.len()
        invariant
            i <= whole.len(),
            whole == s@,
            string_views(out@) + rendered_inputs(whole.subrange(i as int, whole.len() as int))
                == rendered_inputs(whole),
        decreases s.len() - i,
    {
        let ghost pre = string_views(out@);
        proof {
            lemma_suffix_step(whole, i as int);
        }
        let x = render_input(&s[i]);
        out.push(x);
        proof {
            assert(string_views(out@) =~= pre + seq![render_input_spec(whole[i as int])]);
            assert(string_views(out@) + rendered_inputs(
                whole.subrange(i + 1, whole.len() as int),
            ) =~= pre + rendered_inputs(whole.subrange(i as int, whole.len() as int)));
        }
        i = i + 1;
    }
    proof {
        assert(whole.subrange(whole.len() as int, whole.len() as int)
            =~= Seq::<(Vec<char>, Type)>::empty());
        assert(string_views(out@) + rendered_inputs(Seq::empty()) =~= string_views(out@));
    }
    out
}

/// Render one function parameter.
fn render_input(inp: &(Vec<char>, Type)) -> (r: String)
    ensures
        r@ == render_input_spec(*inp),
    decreases inp,
{
    if eq_str(&inp.0, "self") {
        match &inp.1 {
            Type::BorrowedRef { is_mutable, .. } => {
                if *is_mutable {
                    lit("&mut self")
                } else {
                    lit("&self")
                }
            },
            Type::ResolvedPath(path) => {
                if eq_str(&path.path, "Self") && path.args.is_none() {
                    lit("self")
                } else {
                    let mut out = lit("self: ");
                    let ty = render_type_inner(&inp.1, false);
                    push_str(&mut out, ty.as_str());
                    out
                }
            },
            Type::Generic(name) => {
                if eq_str(name, "Self") {
                    lit("self")
                } else {
                    let mut out = lit("self: ");
                    let ty = render_type_inner(&inp.1, false);
                    push_str(&mut out, ty.as_str());
                    out
                }
            },
            _ => {
                let mut out = lit("self: ");
                let ty = render_type_inner(&inp.1, false);
                push_str(&mut out, ty.as_str());
                out
            },
        }
    } else {
        let mut out = string_of(&inp.0);
        push_str(&mut out, ": ");
        let ty = render_type_inner(&inp.1, false);
        push_str(&mut out, ty.as_str());
        proof {
            assert(out@ =~= inp.0@ + ": "@ + render_type_spec(inp.1, false));
        }
        out
    }
}

/// Render a function's parameter list, including names and types.
pub fn render_function_args(sig: &FunctionSignature) -> (r: String)
    ensures
        r@ == render_function_args_spec(*sig),
    decreases sig,
{
    let parts = inputs_list(&sig.inputs);
    join_strings(&parts, ", ")
}

/// Render a function's return type, including the arrow when one is needed.
pub fn render_return_type(sig: &FunctionSignature) -> (r: String)
    ensures
        r@ == render_return_type_spec(*sig),
    decreases sig,
{
    match &sig.output {
        Option::Some(t) => {
            let mut out = lit("-> ");
            let ty = render_type_inner(t, false);
            push_str(&mut out, ty.as_str());
            out
        },
        Option::None => String::new(),
    }
}

/// Render a function pointer signature.
fn render_function_pointer(f: &FunctionPointer) -> (r: String)
    ensures
        r@ == render_fn_pointer_spec(*f),
    decreases f,
{
    let mut out = lit("fn(");
    let args = render_function_args(&f.sig);
    push_str(&mut out, args.as_str());
    push_str(&mut out, ") ");
    let ret = render_return_type(&f.sig);
    push_str(&mut out, ret.as_str());
    proof {
        assert(out@ =~= "fn("@ + args@ + ") "@ + ret@);
    }
    out
}

/// Render a type, tracking whether it is nested for parentheses handling.
pub fn render_type_inner(ty: &Type, nested: bool) -> (r: String)
    ensures
        r@ == render_type_spec(*ty, nested),
    decreases ty,
{
    match ty {
        Type::ResolvedPath(p) => {
            let rr = render_path(p);
            proof {
                assert(rr@ == render_type_spec(*ty, nested));
            }
            rr
        },
        Type::DynTrait(dt) => {
            let parts = poly_traits_list(&dt.traits);
            let traits = join_strings(&parts, " + ");
            let mut inner = lit("dyn ");
            push_str(&mut inner, traits.as_str());
            match &dt.lifetime {
                Option::Some(l) => {
                    push_str(&mut inner, " + ");
                    push_str(&mut inner, string_of(l).as_str());
                    proof {
                        assert(inner@ =~= "dyn "@ + traits@ + (" + "@ + l@));
                    }
                },
                Option::None => {
                    proof {
                        assert(inner@ =~= "dyn "@ + traits@ + Seq::<char>::empty());
                    }
                },
            }
            let traits_chars = chars_of(traits.as_str());
            let plus = chars_of(" + ");
            let has_plus = crate::text::contains_seq(&traits_chars, &plus);
            proof {
                assert(render_type_spec(*ty, nested) == render_dyn_trait_spec(*dt, nested));
            }
            if nested && (dt.lifetime.is_some() || dt.traits.len() > 1 || has_plus) {
                let mut out = lit("(");
                push_str(&mut out, inner.as_str());
                push_str(&mut out, ")");
                proof {
                    assert(out@ =~= "("@ + inner@ + ")"@);
                }
                proof {
                    assert(out@ == render_type_spec(*ty, nested));
                }
                out
            } else {
                proof {
                    assert(inner@ == render_type_spec(*ty, nested));
                }
                inner
            }
        },
        Type::Generic(s) => {
            let rr = string_of(s);
            proof {
                assert(rr@ == render_type_spec(*ty, nested));
            }
            rr
        },
        Type::Primitive(s) => {
            let rr = string_of(s);
            proof {
                assert(rr@ == render_type_spec(*ty, nested));
            }
            rr
        },
        Type::FunctionPointer(f) => {
            let rr = render_function_pointer(f);
            proof {
                assert(rr@ == render_type_spec(*ty, nested));
            }
            rr
        },
        Type::Tuple(ts) => {
            let parts = nested_types_list(ts);
            let joined = join_strings(&parts, ", ");
            let mut out = lit("(");
            push_str(&mut out, joined.as_str());
            push_str(&mut out, ")");
            proof {
                assert(out@ =~= "("@ + joined@ + ")"@);
            }
            out
        },
        Type::Slice(inner) => {
            let mut out = lit("[");
            let t = render_type_inner(inner, true);
            push_str(&mut out, t.as_str());
            push_str(&mut out, "]");
            proof {
                assert(out@ =~= "["@ + t@ + "]"@);
            }
            out
        },
        Type::Array { type_, len } => {
            let mut out = lit("[");
            let t = render_type_inner(type_, true);
            push_str(&mut out, t.as_str());
            push_str(&mut out, "; ");
            push_str(&mut out, string_of(len).as_str());
            push_str(&mut out, "]");
            proof {
                assert(out@ =~= "["@ + t@ + "; "@ + len@ + "]"@);
            }
            out
        },
        Type::ImplTrait(bounds) => {
            let bound_parts = bounds_list(bounds);
            let b = join_strings(&bound_parts, " + ");
            let b_chars = chars_of(b.as_str());
            let plus = chars_of(" + ");
            let has_plus = crate::text::contains_seq(&b_chars, &plus);
            if nested && has_plus {
                let mut out = lit("(impl ");
                push_str(&mut out, b.as_str());
                push_str(&mut out, ")");
                proof {
                    assert(out@ =~= "(impl "@ + b@ + ")"@);
                }
                out
            } else {
                let mut out = lit("impl ");
                push_str(&mut out, b.as_str());
                proof {
                    assert(out@ == render_type_spec(*ty, nested));
                }
                out
            }
        },
        Type::Infer => {
            let rr = lit("_");
            proof {
                assert(rr@ == render_type_spec(*ty, nested));
            }
            rr
        },
        Type::RawPointer { is_mutable, type_ } => {
            let mut out = lit("*");
            if *is_mutable {
                push_str(&mut out, "mut");
            } else {
                push_str(&mut out, "const");
            }
            push_str(&mut out, " ");
            let t = render_type_inner(type_, true);
            push_str(&mut out, t.as_str());
            proof {
                let m = if *is_mutable {
                    "mut"@
                } else {
                    "const"@
                };
                assert(out@ =~= "*"@ + m + " "@ + t@);
            }
            out
        },
        Type::BorrowedRef { lifetime, is_mutable, type_ } => {
            let mut out = lit("&");
            match lifetime {
                Option::Some(l) => {
                    push_str(&mut out, string_of(l).as_str());
                    push_str(&mut out, " ");
                },
                Option::None => {},
            }
            if *is_mutable {
                push_str(&mut out, "mut ");
            }
            let t = render_type_inner(type_, true);
            push_str(&mut out, t.as_str());
            proof {
                let lt = match lifetime {
                    Option::Some(l) => l@ + " "@,
                    Option::None => Seq::<char>::empty(),
                };
                let m = if *is_mutable {
                    "mut "@
                } else {
                    Seq::<char>::empty()
                };
                assert(out@ =~= "&"@ + lt + m + t@);
            }
            out
        },
        Type::QualifiedPath { name, args, self_type, trait_ } => {
            let self_str = render_type_inner(self_type, true);
            let args_str = match args {
                Option::Some(b) => render_generic_args(b),
                Option::None => String::new(),
            };
            proof {
                assert(args_str@ == opt_args_spec(*args));
            }
            match trait_ {
                Option::Some(tr) => {
                    let trait_path = render_path(tr);
                    if !trait_path.as_str().is_empty() {
                        let mut out = lit("<");
                        push_str(&mut out, self_str.as_str());
                        push_str(&mut out, " as ");
                        push_str(&mut out, trait_path.as_str());
                        push_str(&mut out, ">::");
                        push_str(&mut out, string_of(name).as_str());
                        push_str(&mut out, args_str.as_str());
                        proof {
                            assert(out@ =~= "<"@ + self_str@ + " as "@ + trait_path@ + ">::"@
                                + name@ + args_str@);
                        }
                        out
                    } else {
                        let mut out = self_str;
                        push_str(&mut out, "::");
                        push_str(&mut out, string_of(name).as_str());
                        push_str(&mut out, args_str.as_str());
                        proof {
                            assert(out@ =~= render_type_spec(**self_type, true) + "::"@ + name@
                                + args_str@);
                        }
                        out
                    }
                },
                Option::None => {
                    let mut out = self_str;
                    push_str(&mut out, "::");
                    push_str(&mut out, string_of(name).as_str());
                    push_str(&mut out, args_str.as_str());
                    proof {
                        assert(out@ =~= render_type_spec(**self_type, true) + "::"@ + name@
                            + args_str@);
                    }
                    out
                },
            }
        },
        Type::Pat(_) => {
            let rr = lit("/* pattern */");
            proof {
                assert(rr@ == render_type_spec(*ty, nested));
            }
            rr
        },
    }
}

/// Render every type in a list, each in nested position.
fn nested_types_list(s: &Vec<Type>) -> (r: Vec<String>)
    ensures
        string_views(r@) == rendered_nested_types(s@),
    decreases s,
{
    let ghost whole = s@;
    let mut out: Vec<String> = Vec::new();
    let mut i: usize = 0;
    proof {
        assert(whole.subrange(0, whole.len() as int) =~= whole);
        assert(string_views(out@) =~= Seq::<Seq<char>>::empty());
        assert(string_views(out@) + rendered_nested_types(whole) =~= rendered_nested_types(whole));
    }
    while i < s.len()
        invariant
            i <= whole.len(),
            whole == s@,
            string_views(out@) + rendered_nested_types(
                whole.subrange(i as int, whole.len() as int),
            ) == rendered_nested_types(whole),
        decreases s.len() - i,
    {
        let ghost pre = string_views(out@);
        proof {
            lemma_suffix_step(whole, i as int);
        }
        let x = render_type_inner(&s[i], true);
        out.push(x);
        proof {
            assert(string_views(out@) =~= pre + seq![render_type_spec(whole[i as int], true)]);
            assert(string_views(out@) + rendered_nested_types(
                whole.subrange(i + 1, whole.len() as int),
            ) =~= pre + rendered_nested_types(whole.subrange(i as int, whole.len() as int)));
        }
        i = i + 1;
    }
    proof {
        assert(whole.subrange(whole.len() as int, whole.len() as int) =~= Seq::<Type>::empty());
        assert(string_views(out@) + rendered_nested_types(Seq::empty()) =~= string_views(out@));
    }
    out
}

/// Render every type in a list, each in top-level position.
fn plain_types_list(s: &Vec<Type>) -> (r: Vec<String>)
    ensures
        string_views(r@) == rendered_plain_types(s@),
    decreases s,
{
    let ghost whole = s@;
    let mut out: Vec<String> = Vec::new();
    let mut i: usize = 0;
    proof {
        assert(whole.subrange(0, whole.len() as int) =~= whole);
        assert(string_views(out@) =~= Seq::<Seq<char>>::empty());
        assert(string_views(out@) + rendered_plain_types(whole) =~= rendered_plain_types(whole));
    }
    while i < s.len()
        invariant
            i <= whole.len(),
            whole == s@,
            string_views(out@) + rendered_plain_types(
                whole.subrange(i as int, whole.len() as int),
            ) == rendered_plain_types(whole),
        decreases s.len() - i,
    {
        let ghost pre = string_views(out@);
        proof {
            lemma_suffix_step(whole, i as int);
        }
        let x = render_type_inner(&s[i], false);
        out.push(x);
        proof {
            assert(string_views(out@) =~= pre + seq![render_type_spec(whole[i as int], false)]);
            assert(string_views(out@) + rendered_plain_types(
                whole.subrange(i + 1, whole.len() as int),
            ) =~= pre + rendered_plain_types(whole.subrange(i as int, whole.len() as int)));
        }
        i = i + 1;
    }
    proof {
        assert(whole.subrange(whole.len() as int, whole.len() as int) =~= Seq::<Type>::empty());
        assert(string_views(out@) + rendered_plain_types(Seq::empty()) =~= string_views(out@));
    }
    out
}

/// Render a type without considering nesting.
pub fn render_type(ty: &Type) -> (r: String)
    ensures
        r@ == render_type_spec(*ty, false),
{
    render_type_inner(ty, false)
}

} // verus!
