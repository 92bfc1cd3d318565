//! The part of the rustdoc JSON data model that lookup and rendering read.
use vstd::prelude::*;

verus! {

/// An item identifier, unique within one crate's documentation.
pub type Id = u32;

/// Item visibility.
pub enum Visibility {
    Public,
    Default,
    Crate,
    Restricted { path: String },
}

/// A path to a type or trait, with optional generic arguments.
pub struct Path {
    pub path: String,
    pub args: Option<Box<GenericArgs>>,
}

/// Generic arguments of a path.
pub enum GenericArgs {
    AngleBracketed { args: Vec<GenericArg>, constraints: Vec<AssocItemConstraint> },
    Parenthesized { inputs: Vec<Type>, output: Option<Type> },
    ReturnTypeNotation,
}

/// One generic argument. A constant carries its evaluated value, if known.
pub enum GenericArg {
    Lifetime(String),
    Type(Type),
    Const(Option<String>),
    Infer,
}

/// An associated item constraint such as `Item = u8` or `Item: Clone`.
pub struct AssocItemConstraint {
    pub name: String,
    pub binding: AssocItemConstraintKind,
}

pub enum AssocItemConstraintKind {
    Equality(Term),
    Constraint(Vec<GenericBound>),
}

/// The right-hand side of an equality constraint. A constant carries its value, if known.
pub enum Term {
    Type(Type),
    Constant(Option<String>),
}

pub enum TraitBoundModifier {
    Plain,
    Maybe,
    MaybeConst,
}

/// A bound on a generic parameter.
pub enum GenericBound {
    TraitBound { trait_: Path, modifier: TraitBoundModifier },
    Outlives(String),
    Use,
}

/// A trait object type; `traits` holds the path of each trait.
pub struct DynTrait {
    pub traits: Vec<Path>,
    pub lifetime: Option<String>,
}

/// A function signature: named inputs and an optional output type.
pub struct FunctionSignature {
    pub inputs: Vec<(String, Type)>,
    pub output: Option<Type>,
}

/// A type, as rustdoc describes it.
pub enum Type {
    ResolvedPath(Path),
    DynTrait(DynTrait),
    Generic(String),
    Primitive(String),
    FunctionPointer(Box<FunctionSignature>),
    Tuple(Vec<Type>),
    Slice(Box<Type>),
    Array { type_: Box<Type>, len: String },
    Pat { type_: Box<Type> },
    ImplTrait(Vec<GenericBound>),
    Infer,
    RawPointer { is_mutable: bool, type_: Box<Type> },
    BorrowedRef { lifetime: Option<String>, is_mutable: bool, type_: Box<Type> },
    QualifiedPath { name: String, self_type: Box<Type>, trait_: Option<Path> },
}

/// The kind of a generic parameter.
#[allow(inconsistent_fields)]
pub enum GenericParamDefKind {
    Lifetime { outlives: Vec<String> },
    Type { bounds: Vec<GenericBound>, default: Option<Type>, is_synthetic: bool },
    Const { type_: Type, default: Option<String> },
}

/// A generic parameter: its name and kind.
pub struct GenericParamDef {
    pub name: String,
    pub kind: GenericParamDefKind,
}

/// A predicate of a `where` clause.
pub enum WherePredicate {
    BoundPredicate { type_: Type, bounds: Vec<GenericBound> },
    LifetimePredicate { lifetime: String, outlives: Vec<String> },
    EqPredicate { lhs: Type, rhs: Term },
}

/// Generic parameters and `where` predicates.
pub struct Generics {
    pub params: Vec<GenericParamDef>,
    pub where_predicates: Vec<WherePredicate>,
}

/// The qualifiers of a function.
pub struct FunctionHeader {
    pub is_const: bool,
    pub is_unsafe: bool,
    pub is_async: bool,
}

pub struct Function {
    pub sig: FunctionSignature,
    pub generics: Generics,
    pub header: FunctionHeader,
}

/// The shape of a struct; a plain struct lists the ids of its fields.
pub enum StructKind {
    Unit,
    Tuple,
    Plain { fields: Vec<Id> },
}

pub struct Struct {
    pub kind: StructKind,
    pub generics: Generics,
    pub impls: Vec<Id>,
}

pub struct Enum {
    pub generics: Generics,
    pub variants: Vec<Id>,
    pub impls: Vec<Id>,
}

pub struct Union {
    pub impls: Vec<Id>,
}

pub struct Trait {
    pub is_unsafe: bool,
    pub items: Vec<Id>,
    pub generics: Generics,
    pub bounds: Vec<GenericBound>,
}

pub struct TypeAlias {
    pub type_: Type,
    pub generics: Generics,
}

/// An impl block. `trait_` is the implemented trait, if any.
pub struct Impl {
    pub is_synthetic: bool,
    pub blanket_impl: Option<Type>,
    pub trait_: Option<Path>,
    pub generics: Generics,
    pub for_: Type,
    pub items: Vec<Id>,
}

/// A `use` item: the path it imports from, the name it binds, and the id of
/// the item it refers to, when that item is documented.
pub struct Use {
    pub source: String,
    pub name: String,
    pub id: Option<Id>,
}

pub struct Module {
    pub items: Vec<Id>,
}

/// The kind of an item, as the path table records it.
#[derive(Clone, Copy, PartialEq, Eq, Structural)]
pub enum ItemKind {
    Module,
    ExternCrate,
    Use,
    Struct,
    StructField,
    Union,
    Enum,
    Variant,
    Function,
    TypeAlias,
    Constant,
    Trait,
    TraitAlias,
    Impl,
    Static,
    ExternType,
    Macro,
    ProcAttribute,
    ProcDerive,
    AssocConst,
    AssocType,
    Primitive,
    Keyword,
    Attribute,
}

/// What an item is, with the data that lookup and rendering read.
/// Items of the remaining kinds carry only their kind.
pub enum ItemEnum {
    Module(Module),
    Use(Use),
    Union(Union),
    Struct(Struct),
    StructField(Type),
    Enum(Enum),
    Function(Function),
    Trait(Trait),
    Impl(Impl),
    TypeAlias(TypeAlias),
    Constant { type_: Type, value: Option<String> },
    Other(ItemKind),
}

/// A documented item.
pub struct Item {
    pub name: Option<String>,
    pub visibility: Visibility,
    pub docs: Option<String>,
    pub inner: ItemEnum,
}

/// An entry of the path table: the full path of an item and its kind.
pub struct ItemSummary {
    pub path: Vec<String>,
    pub kind: ItemKind,
}

} // verus!
