//! The item model: a closed set of declaration kinds.
//!
//! Every piece of text in the model is held as a `Vec<char>`, so that
//! contracts over the model can speak directly about character sequences.
//! An item graph pairs a root identifier with a set of items; items refer
//! to each other by identifier (see `graph`).

use vstd::prelude::*;

verus! {

/// Graph-unique identifier of an item.
pub type Id = u64;

/// Whether an item is exported.
pub enum Visibility {
    /// Externally visible.
    Public,
    /// Anything else: private, crate-local, restricted.
    Other,
}

impl Visibility {
    /// True for `Visibility::Public`.
    pub open spec fn spec_is_public(self) -> bool {
        self is Public
    }

    /// Executable test for `Visibility::Public`.
    pub fn is_public(&self) -> (r: bool)
        ensures
            r == self.spec_is_public(),
    {
        match self {
            Visibility::Public => true,
            Visibility::Other => false,
        }
    }
}

/// One declaration, with its kind-specific payload.
pub struct Item {
    /// Graph-unique identifier.
    pub id: Id,
    /// Declared name; implementation blocks have none.
    pub name: Option<Vec<char>>,
    /// Export status.
    pub visibility: Visibility,
    /// Documentation text, if any.
    pub docs: Option<Vec<char>>,
    /// The kind-specific payload.
    pub inner: ItemKind,
}

/// The closed set of item kinds.
pub enum ItemKind {
    /// A module and the identifiers of its children.
    Module(Module),
    /// A struct-like type.
    Struct(Struct),
    /// A field of a struct-like type or of a variant; the payload is its type.
    StructField(Type),
    /// An enum-like type.
    Enum(Enum),
    /// One variant of an enum-like type.
    Variant(Variant),
    /// A trait declaration.
    Trait(Trait),
    /// A trait alias.
    TraitAlias(TraitAlias),
    /// An implementation block.
    Impl(Impl),
    /// A free function or method.
    Function(Function),
    /// A constant with its type and value expression.
    Constant {
        /// Declared type.
        type_: Type,
        /// Value expression.
        const_: Constant,
    },
    /// A static with its type.
    Static(Static),
    /// An associated constant of a trait.
    AssocConst {
        /// Declared type.
        type_: Type,
        /// Default value expression, if any.
        value: Option<Vec<char>>,
    },
    /// An associated type of a trait.
    AssocType {
        /// Generic parameters.
        generics: Generics,
        /// Bounds on the associated type.
        bounds: Vec<GenericBound>,
        /// Default type, if any.
        type_: Option<Type>,
    },
    /// A type alias.
    TypeAlias(TypeAlias),
    /// A pattern macro, carried as its source text.
    Macro(Vec<char>),
    /// A procedural macro.
    ProcMacro(ProcMacro),
    /// An import.
    Use(Use),
    /// A `union` declaration.
    Union(Union),
    /// A primitive type.
    Primitive,
}

/// A module's payload.
pub struct Module {
    /// True for the crate root module.
    pub is_crate: bool,
    /// Identifiers of the module's children, in declaration order.
    pub items: Vec<Id>,
    /// True when private children were stripped out.
    pub is_stripped: bool,
}

/// The field layout of a struct-like type.
pub enum StructKind {
    /// No fields at all.
    Unit,
    /// Positional fields; a stripped field is `None` but keeps its position.
    Tuple(Vec<Option<Id>>),
    /// Named fields.
    Plain {
        /// Identifiers of the fields, in declaration order.
        fields: Vec<Id>,
        /// True when non-public fields were stripped out.
        has_stripped_fields: bool,
    },
}

/// A struct-like type's payload.
pub struct Struct {
    /// Field layout.
    pub kind: StructKind,
    /// Generic parameters and constraints.
    pub generics: Generics,
    /// Identifiers of the implementation blocks for this type.
    pub impls: Vec<Id>,
}

/// An enum-like type's payload.
pub struct Enum {
    /// Generic parameters and constraints.
    pub generics: Generics,
    /// Identifiers of the variants, in declaration order.
    pub variants: Vec<Id>,
    /// Identifiers of the implementation blocks for this type.
    pub impls: Vec<Id>,
}

/// The field layout of one enum variant.
pub enum VariantKind {
    /// No payload.
    Plain,
    /// Positional fields; a stripped field is `None` but keeps its position.
    Tuple(Vec<Option<Id>>),
    /// Named fields.
    Struct {
        /// Identifiers of the fields, in declaration order.
        fields: Vec<Id>,
        /// True when non-public fields were stripped out.
        has_stripped_fields: bool,
    },
}

/// An enum variant's payload.
pub struct Variant {
    /// Field layout.
    pub kind: VariantKind,
    /// Explicit discriminant expression, if any.
    pub discriminant: Option<Constant>,
}

/// A trait declaration's payload.
pub struct Trait {
    /// True for auto traits.
    pub is_auto: bool,
    /// True for `unsafe` traits.
    pub is_unsafe: bool,
    /// True when the trait can be used as a trait object.
    pub is_dyn_compatible: bool,
    /// Identifiers of the trait's members.
    pub items: Vec<Id>,
    /// Generic parameters and constraints.
    pub generics: Generics,
    /// Supertrait bounds.
    pub bounds: Vec<GenericBound>,
    /// Identifiers of known implementations.
    pub implementations: Vec<Id>,
}

/// A trait alias' payload.
pub struct TraitAlias {
    /// Generic parameters and constraints.
    pub generics: Generics,
    /// The aliased bounds.
    pub params: Vec<GenericBound>,
}

/// An implementation block's payload.
pub struct Impl {
    /// True for `unsafe impl`.
    pub is_unsafe: bool,
    /// Generic parameters and constraints.
    pub generics: Generics,
    /// The implemented trait, or none for an inherent block.
    pub trait_: Option<Path>,
    /// The implementing type.
    pub for_: Type,
    /// Identifiers of the block's members.
    pub items: Vec<Id>,
    /// True for negative implementations.
    pub is_negative: bool,
    /// True for compiler-synthesized implementations.
    pub is_synthetic: bool,
    /// The blanket type for blanket implementations.
    pub blanket_impl: Option<Type>,
}

/// A function's payload.
pub struct Function {
    /// Parameter and return types.
    pub sig: FunctionSignature,
    /// Generic parameters and constraints.
    pub generics: Generics,
    /// Qualifiers.
    pub header: FunctionHeader,
    /// True when the declaration has a body (a default method body, say).
    pub has_body: bool,
}

/// Function qualifiers.
pub struct FunctionHeader {
    /// `const fn`.
    pub is_const: bool,
    /// `unsafe fn`.
    pub is_unsafe: bool,
    /// `async fn`.
    pub is_async: bool,
}

/// Function parameter and return types.
pub struct FunctionSignature {
    /// Named inputs, in declaration order.
    pub inputs: Vec<(Vec<char>, Type)>,
    /// Return type; none means the unit type is implied.
    pub output: Option<Type>,
    /// True for C-variadic signatures.
    pub is_c_variadic: bool,
}

/// A static's payload.
pub struct Static {
    /// Declared type.
    pub type_: Type,
    /// True for mutable statics.
    pub is_mutable: bool,
    /// The initial-value expression, as source text.
    pub expr: Vec<char>,
}

/// A union's payload.
pub struct Union {
    /// Generic parameters and constraints.
    pub generics: Generics,
}

/// A type alias' payload.
pub struct TypeAlias {
    /// The aliased type.
    pub type_: Type,
    /// Generic parameters and constraints.
    pub generics: Generics,
}

/// The role of a procedural macro.
pub enum MacroKind {
    /// A derive macro.
    Derive,
    /// An attribute macro.
    Attr,
    /// A function-like macro.
    Bang,
}

/// A procedural macro's payload.
pub struct ProcMacro {
    /// Role of the macro.
    pub kind: MacroKind,
    /// Helper attributes declared by a derive macro.
    pub helpers: Vec<Vec<char>>,
}

/// An import's payload.
pub struct Use {
    /// The path being imported.
    pub source: Vec<char>,
    /// The local name of the import.
    pub name: Vec<char>,
    /// The imported item, when it resolves within the graph.
    pub id: Option<Id>,
    /// True for wildcard imports.
    pub is_glob: bool,
}

/// A constant expression, carried as source text.
pub struct Constant {
    /// The expression.
    pub expr: Vec<char>,
}

/// A (possibly generic) path to an item.
pub struct Path {
    /// The path text.
    pub path: Vec<char>,
    /// The target item.
    pub id: Id,
    /// Generic arguments applied at the last segment.
    pub args: Option<Box<GenericArgs>>,
}

/// Generic arguments applied to a path segment.
pub enum GenericArgs {
    /// `<'a, T, N, Assoc = U>`.
    AngleBracketed {
        /// The arguments.
        args: Vec<GenericArg>,
        /// Associated item constraints.
        constraints: Vec<AssocItemConstraint>,
    },
    /// `Fn(A, B) -> C` sugar.
    Parenthesized {
        /// The input types.
        inputs: Vec<Type>,
        /// The output type.
        output: Option<Type>,
    },
    /// `T::method(..)` return-type notation; renders as nothing.
    ReturnTypeNotation,
}

/// One generic argument.
pub enum GenericArg {
    /// A lifetime.
    Lifetime(Vec<char>),
    /// A type.
    Type(Type),
    /// A constant expression.
    Const(Constant),
    /// An inferred argument.
    Infer,
}

/// An associated item constraint inside generic arguments.
pub struct AssocItemConstraint {
    /// The associated item's name.
    pub name: Vec<char>,
    /// Equality or bound constraint.
    pub binding: AssocItemConstraintKind,
}

/// The two shapes of associated item constraints.
pub enum AssocItemConstraintKind {
    /// `Assoc = term`.
    Equality(Term),
    /// `Assoc: bounds`.
    Constraint(Vec<GenericBound>),
}

/// A type or constant on the right-hand side of a constraint.
pub enum Term {
    /// A type.
    Type(Type),
    /// A constant expression.
    Constant(Constant),
}

/// One bound in a bound list.
pub enum GenericBound {
    /// A trait bound with an optional binder and modifier.
    TraitBound {
        /// The bounding trait.
        trait_: Path,
        /// Universally quantified parameters (`for<'a>`).
        generic_params: Vec<GenericParamDef>,
        /// `?`, `~const`, or nothing.
        modifier: TraitBoundModifier,
    },
    /// A lifetime bound.
    Outlives(Vec<char>),
    /// An unstable precise-capturing bound; it has no valid rendering.
    Use(Vec<PreciseCapturingArg>),
}

/// One captured argument of a precise-capturing bound.
pub enum PreciseCapturingArg {
    /// A captured lifetime.
    Lifetime(Vec<char>),
    /// A captured type or const parameter.
    Param(Vec<char>),
}

/// The modifier attached to a trait bound.
pub enum TraitBoundModifier {
    /// No modifier.
    Normal,
    /// `?Trait`.
    Maybe,
    /// `~const Trait`.
    MaybeConst,
}

/// A trait with an optional `for<..>` binder.
pub struct PolyTrait {
    /// The trait path.
    pub trait_: Path,
    /// Universally quantified parameters.
    pub generic_params: Vec<GenericParamDef>,
}

/// One declared generic parameter.
pub struct GenericParamDef {
    /// The parameter's name.
    pub name: Vec<char>,
    /// Lifetime, type, or const parameter.
    pub kind: GenericParamDefKind,
}

/// The kind-specific payload of a generic parameter.
pub enum GenericParamDefKind {
    /// A lifetime parameter.
    Lifetime {
        /// Lifetimes it must outlive.
        outlives: Vec<Vec<char>>,
    },
    /// A type parameter.
    Type {
        /// Its bounds.
        bounds: Vec<GenericBound>,
        /// Its default type.
        default: Option<Type>,
        /// True for compiler-synthesized parameters, which are not rendered.
        is_synthetic: bool,
    },
    /// A const parameter.
    Const {
        /// Its type.
        type_: Type,
        /// Its default value expression.
        default: Option<Vec<char>>,
    },
}

/// Declared generic parameters together with the `where` clause.
pub struct Generics {
    /// The parameters, in declaration order.
    pub params: Vec<GenericParamDef>,
    /// The `where` clause predicates.
    pub where_predicates: Vec<WherePredicate>,
}

/// One predicate of a `where` clause.
pub enum WherePredicate {
    /// `for<..> T: bounds`.
    BoundPredicate {
        /// The constrained type.
        type_: Type,
        /// The bounds.
        bounds: Vec<GenericBound>,
        /// Universally quantified parameters.
        generic_params: Vec<GenericParamDef>,
    },
    /// `'a: 'b + 'c`.
    LifetimePredicate {
        /// The constrained lifetime.
        lifetime: Vec<char>,
        /// The lifetimes it must outlive.
        outlives: Vec<Vec<char>>,
    },
    /// `T = U`.
    EqPredicate {
        /// The left-hand type.
        lhs: Type,
        /// The right-hand term.
        rhs: Term,
    },
}

/// A function pointer type.
pub struct FunctionPointer {
    /// Parameter and return types.
    pub sig: FunctionSignature,
}

/// A trait object type.
pub struct DynTrait {
    /// The object's trait bounds.
    pub traits: Vec<PolyTrait>,
    /// An optional lifetime bound.
    pub lifetime: Option<Vec<char>>,
}

/// The surface syntax of types.
pub enum Type {
    /// A named type, possibly with generic arguments.
    ResolvedPath(Path),
    /// A trait object.
    DynTrait(DynTrait),
    /// A generic parameter used as a type.
    Generic(Vec<char>),
    /// A primitive type.
    Primitive(Vec<char>),
    /// A function pointer.
    FunctionPointer(Box<FunctionPointer>),
    /// A tuple.
    Tuple(Vec<Type>),
    /// A slice.
    Slice(Box<Type>),
    /// An array with its length expression.
    Array {
        /// The element type.
        type_: Box<Type>,
        /// The length expression.
        len: Vec<char>,
    },
    /// An opaque existential type.
    ImplTrait(Vec<GenericBound>),
    /// An inferred type.
    Infer,
    /// A raw pointer.
    RawPointer {
        /// True for `*mut`.
        is_mutable: bool,
        /// The pointee type.
        type_: Box<Type>,
    },
    /// A borrowed reference.
    BorrowedRef {
        /// The reference's lifetime, if written.
        lifetime: Option<Vec<char>>,
        /// True for `&mut`.
        is_mutable: bool,
        /// The referent type.
        type_: Box<Type>,
    },
    /// A qualified path such as `<T as Trait>::Assoc`.
    QualifiedPath {
        /// The associated item's name.
        name: Vec<char>,
        /// Generic arguments applied to the associated item.
        args: Option<Box<GenericArgs>>,
        /// The self type.
        self_type: Box<Type>,
        /// The qualifying trait, if any.
        trait_: Option<Path>,
    },
    /// An unstable pattern type; renders as a placeholder.
    Pat(Box<Type>),
}

} // verus!
