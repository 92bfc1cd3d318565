use std::collections::HashMap;

use wtr::cli::{self, VersionSource};
use wtr::fetch::{self, Crate, FetchAction, FetchError, FetchEvent, FetchPlan};
use wtr::lookup::{self, LookupError};
use wtr::model::{
    AssocItemConstraint, AssocItemConstraintKind, DynTrait, Enum, Function, FunctionHeader,
    FunctionSignature, GenericArg, GenericArgs, GenericBound, GenericParamDef, GenericParamDefKind,
    Generics, Id, Item, ItemEnum, ItemKind, ItemSummary, Module, Path, Struct, StructKind, Term,
    Trait, TraitBoundModifier, Type, TypeAlias, Use, Visibility, WherePredicate,
};
use wtr::query;
use wtr::render;
use wtr::strings;
use wtr::workspace::{self, Metadata, MetadataDep, MetadataNode, MetadataResolve};

fn s(x: &str) -> String {
    x.to_string()
}

fn path(name: &str) -> Path {
    Path { path: s(name), args: None }
}

fn path_with(name: &str, args: Vec<Type>) -> Path {
    Path {
        path: s(name),
        args: Some(Box::new(GenericArgs::AngleBracketed {
            args: args.into_iter().map(GenericArg::Type).collect(),
            constraints: Vec::new(),
        })),
    }
}

fn ty(name: &str) -> Type {
    Type::ResolvedPath(path(name))
}

fn prim(name: &str) -> Type {
    Type::Primitive(s(name))
}

fn generic(name: &str) -> Type {
    Type::Generic(s(name))
}

fn no_generics() -> Generics {
    Generics { params: Vec::new(), where_predicates: Vec::new() }
}

fn trait_bound(name: &str, modifier: TraitBoundModifier) -> GenericBound {
    GenericBound::TraitBound { trait_: path(name), modifier }
}

fn plain_header() -> FunctionHeader {
    FunctionHeader { is_const: false, is_unsafe: false, is_async: false }
}

fn func(inputs: Vec<(&str, Type)>, output: Option<Type>) -> Function {
    Function {
        sig: FunctionSignature { inputs: inputs.into_iter().map(|(n, t)| (s(n), t)).collect(), output },
        generics: no_generics(),
        header: plain_header(),
    }
}

fn item(name: Option<&str>, vis: Visibility, docs: Option<&str>, inner: ItemEnum) -> Item {
    Item { name: name.map(s), visibility: vis, docs: docs.map(s), inner }
}

fn krate(items: Vec<(Id, Item)>, paths: Vec<(Id, &[&str], ItemKind)>) -> Crate {
    let mut index = HashMap::new();
    for (id, it) in items {
        index.insert(id, it);
    }
    let paths = paths
        .into_iter()
        .map(|(id, p, kind)| (id, ItemSummary { path: p.iter().map(|x| s(x)).collect(), kind }))
        .collect();
    Crate { root: 0, crate_version: None, index, paths }
}

fn empty_crate() -> Crate {
    krate(vec![(0, item(Some("c"), Visibility::Public, None, ItemEnum::Module(Module { items: Vec::new() })))], Vec::new())
}

// ── Types ───────────────────────────────────────────────────────────────

#[test]
fn render_type_references_and_paths() {
    let t = Type::BorrowedRef {
        lifetime: Some(s("'a")),
        is_mutable: true,
        type_: Box::new(Type::ResolvedPath(path_with("Vec", vec![generic("T")]))),
    };
    assert_eq!(render::render_type(&t), "&'a mut Vec<T>");
    let t = Type::BorrowedRef { lifetime: None, is_mutable: false, type_: Box::new(prim("str")) };
    assert_eq!(render::render_type(&t), "&str");
}

#[test]
fn render_type_compound() {
    assert_eq!(render::render_type(&Type::Tuple(vec![prim("u8"), prim("bool")])), "(u8, bool)");
    assert_eq!(render::render_type(&Type::Tuple(Vec::new())), "()");
    assert_eq!(render::render_type(&Type::Slice(Box::new(prim("u8")))), "[u8]");
    assert_eq!(render::render_type(&Type::Array { type_: Box::new(prim("u8")), len: s("4") }), "[u8; 4]");
    assert_eq!(render::render_type(&Type::RawPointer { is_mutable: true, type_: Box::new(prim("u8")) }), "*mut u8");
    assert_eq!(render::render_type(&Type::RawPointer { is_mutable: false, type_: Box::new(prim("u8")) }), "*const u8");
    assert_eq!(render::render_type(&Type::Infer), "_");
    assert_eq!(render::render_type(&Type::Pat { type_: Box::new(prim("u32")) }), "u32");
}

#[test]
fn render_type_functions_and_traits() {
    let f = Type::FunctionPointer(Box::new(FunctionSignature {
        inputs: vec![(s("_"), prim("u8")), (s("_"), prim("u16"))],
        output: Some(prim("bool")),
    }));
    assert_eq!(render::render_type(&f), "fn(u8, u16) -> bool");
    let f = Type::FunctionPointer(Box::new(FunctionSignature { inputs: Vec::new(), output: None }));
    assert_eq!(render::render_type(&f), "fn()");
    let iter = Path {
        path: s("Iterator"),
        args: Some(Box::new(GenericArgs::AngleBracketed {
            args: Vec::new(),
            constraints: vec![AssocItemConstraint {
                name: s("Item"),
                binding: AssocItemConstraintKind::Equality(Term::Type(prim("u8"))),
            }],
        })),
    };
    let it = Type::ImplTrait(vec![
        GenericBound::TraitBound { trait_: iter, modifier: TraitBoundModifier::Plain },
        trait_bound("Sized", TraitBoundModifier::Maybe),
        GenericBound::Use,
        GenericBound::Outlives(s("'a")),
    ]);
    assert_eq!(render::render_type(&it), "impl Iterator<Item = u8> + ?Sized + 'a");
    let d = Type::DynTrait(DynTrait { traits: vec![path("Error"), path("Send")], lifetime: Some(s("'static")) });
    assert_eq!(render::render_type(&d), "dyn Error + Send + 'static");
    let c = Type::ImplTrait(vec![trait_bound("Fn", TraitBoundModifier::MaybeConst)]);
    assert_eq!(render::render_type(&c), "impl ~const Fn");
}

#[test]
fn render_type_qualified_and_args() {
    let q = Type::QualifiedPath { name: s("Item"), self_type: Box::new(generic("T")), trait_: Some(path("Iterator")) };
    assert_eq!(render::render_type(&q), "<T as Iterator>::Item");
    let q = Type::QualifiedPath { name: s("Item"), self_type: Box::new(generic("T")), trait_: Some(path("")) };
    assert_eq!(render::render_type(&q), "T::Item");
    let q = Type::QualifiedPath { name: s("Item"), self_type: Box::new(generic("T")), trait_: None };
    assert_eq!(render::render_type(&q), "T::Item");
    let p = Type::ResolvedPath(Path {
        path: s("Fn"),
        args: Some(Box::new(GenericArgs::Parenthesized { inputs: vec![prim("u8")], output: Some(prim("bool")) })),
    });
    assert_eq!(render::render_type(&p), "Fn(u8) -> bool");
    let p = Type::ResolvedPath(Path { path: s("f"), args: Some(Box::new(GenericArgs::ReturnTypeNotation)) });
    assert_eq!(render::render_type(&p), "f(..)");
    let p = Type::ResolvedPath(Path {
        path: s("Arr"),
        args: Some(Box::new(GenericArgs::AngleBracketed {
            args: vec![GenericArg::Lifetime(s("'a")), GenericArg::Const(None), GenericArg::Const(Some(s("3"))), GenericArg::Infer],
            constraints: vec![AssocItemConstraint {
                name: s("Out"),
                binding: AssocItemConstraintKind::Constraint(vec![trait_bound("Clone", TraitBoundModifier::Plain)]),
            }],
        })),
    });
    assert_eq!(render::render_type(&p), "Arr<'a, _, 3, _, Out: Clone>");
    let empty = Type::ResolvedPath(Path {
        path: s("X"),
        args: Some(Box::new(GenericArgs::AngleBracketed { args: Vec::new(), constraints: Vec::new() })),
    });
    assert_eq!(render::render_type(&empty), "X");
}

// ── Generics and signatures ─────────────────────────────────────────────

fn rich_generics() -> Generics {
    Generics {
        params: vec![
            GenericParamDef { name: s("'a"), kind: GenericParamDefKind::Lifetime { outlives: vec![s("'b")] } },
            GenericParamDef {
                name: s("T"),
                kind: GenericParamDefKind::Type {
                    bounds: vec![trait_bound("Clone", TraitBoundModifier::Plain), trait_bound("Sized", TraitBoundModifier::Maybe)],
                    default: Some(prim("u8")),
                    is_synthetic: false,
                },
            },
            GenericParamDef {
                name: s("impl Display"),
                kind: GenericParamDefKind::Type { bounds: Vec::new(), default: None, is_synthetic: true },
            },
            GenericParamDef { name: s("N"), kind: GenericParamDefKind::Const { type_: prim("usize"), default: Some(s("3")) } },
        ],
        where_predicates: vec![
            WherePredicate::BoundPredicate { type_: generic("T"), bounds: vec![trait_bound("Debug", TraitBoundModifier::Plain)] },
            WherePredicate::BoundPredicate { type_: generic("U"), bounds: vec![GenericBound::Use] },
            WherePredicate::LifetimePredicate { lifetime: s("'a"), outlives: vec![s("'b"), s("'c")] },
            WherePredicate::EqPredicate {
                lhs: Type::QualifiedPath { name: s("Item"), self_type: Box::new(generic("T")), trait_: Some(path("Iterator")) },
                rhs: Term::Constant(None),
            },
        ],
    }
}

#[test]
fn render_generics_and_where() {
    let g = rich_generics();
    assert_eq!(render::render_generics_params(&g), "<'a: 'b, T: Clone + ?Sized = u8, const N: usize = 3>");
    assert_eq!(
        render::render_where_clause(&g),
        "\nwhere\n    T: Debug,\n    'a: 'b + 'c,\n    <T as Iterator>::Item = _"
    );
    assert_eq!(render::render_generics_params(&no_generics()), "");
    assert_eq!(render::render_where_clause(&no_generics()), "");
}

#[test]
fn render_function_signatures() {
    let mut f = func(vec![("self", generic("Self")), ("x", prim("u8"))], Some(prim("bool")));
    f.header = FunctionHeader { is_const: true, is_unsafe: true, is_async: true };
    f.generics = Generics {
        params: vec![GenericParamDef { name: s("T"), kind: GenericParamDefKind::Type { bounds: Vec::new(), default: None, is_synthetic: false } }],
        where_predicates: Vec::new(),
    };
    let it = item(Some("f"), Visibility::Public, None, ItemEnum::Function(func(Vec::new(), None)));
    assert_eq!(render::render_function_sig(&it, &f), "pub const async unsafe fn f<T>(self, x: u8) -> bool");
    let by_ref = func(vec![("self", Type::BorrowedRef { lifetime: None, is_mutable: false, type_: Box::new(generic("Self")) })], None);
    let it = item(None, Visibility::Crate, None, ItemEnum::Function(func(Vec::new(), None)));
    assert_eq!(render::render_function_sig(&it, &by_ref), "pub(crate) fn _(&self)");
    let by_mut = func(vec![("self", Type::BorrowedRef { lifetime: None, is_mutable: true, type_: Box::new(generic("Self")) })], None);
    let it = item(Some("g"), Visibility::Restricted { path: s("crate::a") }, None, ItemEnum::Function(func(Vec::new(), None)));
    assert_eq!(render::render_function_sig(&it, &by_mut), "pub(in crate::a) fn g(&mut self)");
    let boxed = func(vec![("self", Type::ResolvedPath(path_with("Box", vec![generic("Self")])))], None);
    let it = item(Some("h"), Visibility::Default, None, ItemEnum::Function(func(Vec::new(), None)));
    assert_eq!(render::render_function_sig(&it, &boxed), "fn h(self: Box<Self>)");
}

// ── Items ───────────────────────────────────────────────────────────────

fn enum_crate(n_variants: u32) -> Crate {
    let variant_ids: Vec<Id> = (0..n_variants).map(|i| 100 + i).collect();
    let mut items = vec![(
        1,
        item(
            Some("Color"),
            Visibility::Public,
            Some("A color.\n\nMore about colors."),
            ItemEnum::Enum(Enum { generics: no_generics(), variants: variant_ids.clone(), impls: Vec::new() }),
        ),
    )];
    for (i, id) in variant_ids.iter().enumerate() {
        let name = format!("V{i}");
        let docs = if i == 0 { Some("The first one.") } else { None };
        items.push((*id, item(Some(&name), Visibility::Default, docs, ItemEnum::Other(ItemKind::Variant))));
    }
    krate(items, Vec::new())
}

#[test]
fn render_enum_summary_previews_five_variants() {
    let k = enum_crate(7);
    let it = k.index.get(&1).unwrap();
    assert_eq!(
        render::render_item_summary(it, &k),
        "pub enum Color { V0, V1, V2, V3, V4, /* ... 2 more */ }\n\nA color.\n"
    );
    let k = enum_crate(2);
    let it = k.index.get(&1).unwrap();
    assert_eq!(render::render_item_summary(it, &k), "pub enum Color { V0, V1 }\n\nA color.\n");
    let k = enum_crate(0);
    let it = k.index.get(&1).unwrap();
    assert_eq!(render::render_item_summary(it, &k), "pub enum Color\n\nA color.\n");
}

#[test]
fn render_enum_full_lists_variants() {
    let k = enum_crate(2);
    let it = k.index.get(&1).unwrap();
    assert_eq!(
        render::render_item_full(it, &k),
        "pub enum Color { V0, V1 }\n\nA color.\n\nMore about colors.\n\nVariants:\n  V0\n    The first one.\n  V1\n"
    );
}

#[test]
fn render_struct_full_lists_fields() {
    let k = krate(
        vec![
            (1, item(Some("P"), Visibility::Public, None, ItemEnum::Struct(Struct { kind: StructKind::Plain { fields: vec![2, 3] }, generics: no_generics(), impls: Vec::new() }))),
            (2, item(Some("x"), Visibility::Public, Some("  The x.  "), ItemEnum::StructField(prim("i32")))),
            (3, item(None, Visibility::Public, None, ItemEnum::StructField(prim("u8")))),
        ],
        Vec::new(),
    );
    let it = k.index.get(&1).unwrap();
    assert_eq!(render::render_item_summary(it, &k), "pub struct P { /* fields */ }\n");
    assert_eq!(
        render::render_item_full(it, &k),
        "pub struct P { /* fields */ }\n\nFields:\n  x: i32\n    The x.\n  _: u8\n"
    );
    let t = item(Some("T"), Visibility::Default, None, ItemEnum::Struct(Struct { kind: StructKind::Tuple, generics: no_generics(), impls: Vec::new() }));
    assert_eq!(render::render_item_summary(&t, &k), "struct T(...)\n");
    let u = item(Some("U"), Visibility::Default, None, ItemEnum::Struct(Struct { kind: StructKind::Unit, generics: no_generics(), impls: Vec::new() }));
    assert_eq!(render::render_item_summary(&u, &k), "struct U\n");
}

#[test]
fn render_other_item_summaries() {
    let k = krate(
        vec![
            (1, item(Some("next"), Visibility::Default, None, ItemEnum::Function(func(vec![("self", Type::BorrowedRef { lifetime: None, is_mutable: true, type_: Box::new(generic("Self")) })], Some(prim("u8")))))),
            (2, item(Some("NAME"), Visibility::Default, None, ItemEnum::Other(ItemKind::AssocConst))),
        ],
        Vec::new(),
    );
    let tr = item(
        Some("Walk"),
        Visibility::Public,
        Some("Walks."),
        ItemEnum::Trait(Trait { is_unsafe: true, items: vec![1, 2, 9], generics: no_generics(), bounds: vec![trait_bound("Clone", TraitBoundModifier::Plain), GenericBound::Use] }),
    );
    assert_eq!(render::render_item_summary(&tr, &k), "pub unsafe trait Walk: Clone {\n    fn next(&mut self) -> u8;\n}\n\nWalks.\n");
    let ta = item(Some("Res"), Visibility::Public, None, ItemEnum::TypeAlias(TypeAlias { type_: Type::ResolvedPath(path_with("Result", vec![generic("T")])), generics: no_generics() }));
    assert_eq!(render::render_item_summary(&ta, &k), "pub type Res = Result<T>;\n");
    let c = item(Some("MAX"), Visibility::Public, None, ItemEnum::Constant { type_: prim("u32"), value: Some(s("7")) });
    assert_eq!(render::render_item_summary(&c, &k), "pub const MAX: u32 = 7;\n");
    let c = item(Some("MIN"), Visibility::Public, None, ItemEnum::Constant { type_: prim("u32"), value: None });
    assert_eq!(render::render_item_summary(&c, &k), "pub const MIN: u32;\n");
    let m = item(Some("io"), Visibility::Public, None, ItemEnum::Module(Module { items: Vec::new() }));
    assert_eq!(render::render_item_summary(&m, &k), "pub mod io\n");
    let o = item(Some("vec"), Visibility::Public, Some("\n  \n Makes a vector. \nMore."), ItemEnum::Other(ItemKind::Macro));
    assert_eq!(render::render_item_summary(&o, &k), "vec\n\nMakes a vector.\n");
    let nameless = item(None, Visibility::Public, None, ItemEnum::Other(ItemKind::Impl));
    assert_eq!(render::render_item_summary(&nameless, &k), "");
}

fn module_crate() -> Crate {
    krate(
        vec![
            (0, item(Some("top"), Visibility::Public, None, ItemEnum::Module(Module { items: vec![1, 2, 3, 4, 5, 6, 7] }))),
            (1, item(Some("sub"), Visibility::Public, None, ItemEnum::Module(Module { items: Vec::new() }))),
            (2, item(Some("S"), Visibility::Public, None, ItemEnum::Struct(Struct { kind: StructKind::Unit, generics: no_generics(), impls: Vec::new() }))),
            (3, item(Some("f"), Visibility::Public, None, ItemEnum::Function(func(Vec::new(), None)))),
            (4, item(None, Visibility::Public, None, ItemEnum::Use(Use { source: s("other::Thing"), name: s("Thing"), id: None }))),
            (5, item(None, Visibility::Public, None, ItemEnum::Use(Use { source: s("self::S"), name: s("Alias"), id: Some(2) }))),
            (6, item(Some("m"), Visibility::Public, None, ItemEnum::Other(ItemKind::Macro))),
            (7, item(Some("K"), Visibility::Public, None, ItemEnum::Constant { type_: prim("u8"), value: None })),
        ],
        vec![(0, &["top"], ItemKind::Module)],
    )
}

#[test]
fn render_module_full_groups_children() {
    let k = module_crate();
    let it = k.index.get(&0).unwrap();
    assert_eq!(
        render::render_item_full(it, &k),
        "pub mod top\n\nModules:\n  sub\n\nStructs:\n  S\n  Alias\n\nFunctions:\n  f\n\nConstants:\n  K\n\nMacros:\n  m\n\nRe-exports:\n  Thing\n"
    );
}

#[test]
fn suggestions_for_module_are_limited_to_three_children() {
    let k = module_crate();
    let it = k.index.get(&0).unwrap();
    let out = render::render_suggestions("top", &[], it, &k, false, false, false);
    assert_eq!(
        out,
        "\nSee more:\n  wtr top --full       Full documentation\n  wtr top::sub\n  wtr top::S\n  wtr top::f\n"
    );
}

#[test]
fn suggestions_list_in_order() {
    let k = krate(vec![(1, item(Some("P"), Visibility::Public, None, ItemEnum::Struct(Struct { kind: StructKind::Unit, generics: no_generics(), impls: Vec::new() })))], Vec::new());
    let it = k.index.get(&1).unwrap();
    let out = render::render_suggestions("c", &[s("a"), s("P")], it, &k, false, false, false);
    assert_eq!(
        out,
        "\nSee more:\n  wtr c::a::P --methods    List methods\n  wtr c::a::P --full       Full documentation\n  wtr c::a::P --traits     Trait implementations\n"
    );
}

#[test]
fn methods_and_impls_when_absent() {
    let k = krate(vec![(1, item(Some("P"), Visibility::Public, None, ItemEnum::Struct(Struct { kind: StructKind::Unit, generics: no_generics(), impls: Vec::new() })))], Vec::new());
    let it = k.index.get(&1).unwrap();
    assert_eq!(render::render_methods(it, &k), "No inherent methods found.\n");
    assert_eq!(render::render_trait_impls(it, &k), "No trait implementations found.\n");
}

fn impl_crate() -> Crate {
    let imp = |trait_: Option<&str>, synthetic: bool, blanket: bool, items: Vec<Id>| {
        item(
            None,
            Visibility::Default,
            None,
            ItemEnum::Impl(wtr::model::Impl {
                is_synthetic: synthetic,
                blanket_impl: if blanket { Some(generic("T")) } else { None },
                trait_: trait_.map(path),
                generics: if blanket {
                    Generics { params: vec![GenericParamDef { name: s("T"), kind: GenericParamDefKind::Type { bounds: Vec::new(), default: None, is_synthetic: false } }], where_predicates: Vec::new() }
                } else {
                    no_generics()
                },
                for_: ty("W"),
                items,
            }),
        )
    };
    krate(
        vec![
            (1, item(Some("W"), Visibility::Public, None, ItemEnum::Struct(Struct { kind: StructKind::Unit, generics: no_generics(), impls: vec![2, 3, 4, 5, 6] }))),
            (2, imp(None, false, false, vec![10, 11, 99])),
            (3, imp(Some("Clone"), false, false, vec![12])),
            (4, imp(Some("Send"), true, false, Vec::new())),
            (5, imp(Some("From"), false, true, Vec::new())),
            (6, imp(None, false, false, vec![13])),
            (10, item(Some("new"), Visibility::Public, Some("Makes one."), ItemEnum::Function(func(Vec::new(), Some(generic("Self")))))),
            (11, item(Some("LEN"), Visibility::Public, None, ItemEnum::Constant { type_: prim("usize"), value: None })),
            (12, item(Some("clone"), Visibility::Default, None, ItemEnum::Function(func(vec![("self", Type::BorrowedRef { lifetime: None, is_mutable: false, type_: Box::new(generic("Self")) })], Some(generic("Self")))))),
            (13, item(Some("len"), Visibility::Public, None, ItemEnum::Function(func(vec![("self", Type::BorrowedRef { lifetime: None, is_mutable: false, type_: Box::new(generic("Self")) })], Some(prim("usize")))))),
        ],
        Vec::new(),
    )
}

#[test]
fn methods_come_from_inherent_impls_in_order() {
    let k = impl_crate();
    let it = k.index.get(&1).unwrap();
    let names: Vec<_> = lookup::find_methods(&k, it).iter().map(|m| m.name.clone().unwrap()).collect();
    assert_eq!(names, vec![s("new"), s("LEN"), s("len")]);
    assert_eq!(
        render::render_methods(it, &k),
        "Methods for W:\n\npub fn new() -> Self\n  Makes one.\n\npub fn len(&self) -> usize\n\n"
    );
}

#[test]
fn trait_impls_skip_synthetic_and_blanket() {
    let k = impl_crate();
    let it = k.index.get(&1).unwrap();
    let impls = lookup::find_trait_impls(&k, it);
    let names: Vec<_> = impls.iter().map(|(_, n)| n.clone()).collect();
    assert_eq!(names, vec![s("Clone")]);
    assert_eq!(
        render::render_trait_impls(it, &k),
        "Trait implementations for W:\n\nimpl Clone for W\n  fn clone(&self) -> Self\n\n"
    );
}

// ── Lookup ──────────────────────────────────────────────────────────────

#[test]
fn lookup_errors_carry_messages() {
    let k = Crate { root: 7, crate_version: None, index: HashMap::new(), paths: Vec::new() };
    match lookup::lookup_item(&k, &[]) {
        Err(e) => {
            assert!(matches!(e, LookupError::RootMissing));
            assert_eq!(e.message(), "root item not found in index");
        }
        Ok(_) => panic!("root should be missing"),
    }
    let k = empty_crate();
    match lookup::lookup_item(&k, &[s("a"), s("b")]) {
        Err(e) => assert_eq!(e.message(), "item `a::b` not found"),
        Ok(_) => panic!("nothing should be found"),
    }
}

#[test]
fn lookup_stops_at_undocumented_reexport_target() {
    // A `use` whose target is not documented ends the module walk with nothing.
    let k = krate(
        vec![
            (0, item(Some("c"), Visibility::Public, None, ItemEnum::Module(Module { items: vec![1, 2] }))),
            (1, item(None, Visibility::Public, None, ItemEnum::Use(Use { source: s("x::Gone"), name: s("Gone"), id: Some(50) }))),
            (2, item(Some("Gone"), Visibility::Public, None, ItemEnum::Other(ItemKind::Static))),
        ],
        Vec::new(),
    );
    assert!(lookup::find_by_module_walk(&k, &[s("Gone")]).is_none());
}

#[test]
fn lookup_method_through_reexport_keeps_source() {
    let k = krate(
        vec![
            (0, item(Some("c"), Visibility::Public, None, ItemEnum::Module(Module { items: vec![1] }))),
            (1, item(None, Visibility::Public, None, ItemEnum::Use(Use { source: s("inner::W"), name: s("W"), id: Some(2) }))),
            (2, item(Some("W"), Visibility::Public, None, ItemEnum::Struct(Struct { kind: StructKind::Unit, generics: no_generics(), impls: vec![3] }))),
            (3, item(None, Visibility::Default, None, ItemEnum::Impl(wtr::model::Impl { is_synthetic: false, blanket_impl: None, trait_: None, generics: no_generics(), for_: ty("W"), items: vec![4] }))),
            (4, item(Some("go"), Visibility::Public, None, ItemEnum::Function(func(Vec::new(), None)))),
        ],
        Vec::new(),
    );
    let r = lookup::lookup_item(&k, &[s("W"), s("go")]).ok().unwrap();
    assert_eq!(r.item.name.as_deref(), Some("go"));
    assert_eq!(r.reexport_source.as_deref(), Some("inner::W"));
}

#[test]
fn lookup_by_path_needs_a_longer_path() {
    // A path table entry equal to the query itself is no match: the entry must be longer.
    let k = krate(
        vec![
            (0, item(Some("c"), Visibility::Public, None, ItemEnum::Module(Module { items: Vec::new() }))),
            (1, item(Some("X"), Visibility::Public, None, ItemEnum::Other(ItemKind::Static))),
        ],
        vec![(1, &["X"], ItemKind::Static)],
    );
    assert!(lookup::lookup_item(&k, &[s("X")]).is_err());
}

// ── Search ──────────────────────────────────────────────────────────────

fn search_crate(n: u32) -> Crate {
    let mut items = vec![(0, item(Some("c"), Visibility::Public, None, ItemEnum::Module(Module { items: Vec::new() })))];
    let mut paths: Vec<(Id, Vec<String>, ItemKind)> = Vec::new();
    for i in 0..n {
        let name = format!("Widget{:02}", n - 1 - i);
        items.push((i + 1, item(Some(&name), Visibility::Public, None, ItemEnum::Other(ItemKind::Static))));
        paths.push((i + 1, vec![s("c"), s("m"), name], ItemKind::Static));
    }
    items.push((500, item(Some("widget"), Visibility::Public, None, ItemEnum::Other(ItemKind::Static))));
    paths.push((500, vec![s("c"), s("z"), s("widget")], ItemKind::Static));
    items.push((501, item(Some("Widget99"), Visibility::Public, None, ItemEnum::Other(ItemKind::Variant))));
    paths.push((501, vec![s("c"), s("Widget99")], ItemKind::Variant));
    paths.push((502, vec![s("c"), s("WidgetGhost")], ItemKind::Static));
    let mut index = HashMap::new();
    for (id, it) in items {
        index.insert(id, it);
    }
    let paths = paths.into_iter().map(|(id, p, kind)| (id, ItemSummary { path: p, kind })).collect();
    Crate { root: 0, crate_version: None, index, paths }
}

#[test]
fn search_orders_exact_first_then_by_path_and_truncates() {
    let k = search_crate(25);
    let results = lookup::search_items(&k, "WIDGET");
    assert_eq!(results.len(), 20);
    assert!(results[0].exact);
    assert_eq!(results[0].item.name.as_deref(), Some("widget"));
    let names: Vec<_> = results[1..].iter().map(|r| r.item.name.clone().unwrap()).collect();
    let expected: Vec<_> = (0..19).map(|i| format!("Widget{i:02}")).collect();
    assert_eq!(names, expected);
    assert!(results.iter().all(|r| r.kind != ItemKind::Variant));
}

#[test]
fn search_keeps_table_order_among_equal_hits() {
    let mut index = HashMap::new();
    index.insert(0, item(Some("c"), Visibility::Public, None, ItemEnum::Module(Module { items: Vec::new() })));
    let mut paths = Vec::new();
    for (id, p) in [(7, "b"), (3, "a"), (9, "b"), (5, "a")] {
        let doc = id.to_string();
        index.insert(id, item(Some("Gadget"), Visibility::Public, Some(&doc), ItemEnum::Other(ItemKind::Static)));
        paths.push((id, ItemSummary { path: vec![s("c"), s(p), s("Gadget")], kind: ItemKind::Static }));
    }
    let k = Crate { root: 0, crate_version: None, index, paths };
    let results = lookup::search_items(&k, "gadget");
    assert!(results.iter().all(|r| r.exact));
    let got: Vec<_> = results.iter().map(|r| (r.path[1].clone(), r.item.docs.clone().unwrap())).collect();
    // Equal keys keep the order of the path table: id 3 before id 5, id 7 before id 9.
    assert_eq!(got, vec![(s("a"), s("3")), (s("a"), s("5")), (s("b"), s("7")), (s("b"), s("9"))]);
}

#[test]
fn newest_release_prefers_stable() {
    assert_eq!(cli::newest_release(Some(s("1.0.0")), Some(s("2.0.0-rc.1"))), Some(s("1.0.0")));
    assert_eq!(cli::newest_release(None, Some(s("0.1.0-alpha"))), Some(s("0.1.0-alpha")));
    assert_eq!(cli::newest_release(None, None), None);
}

#[test]
fn search_ignores_case_of_the_term() {
    let k = search_crate(3);
    let a: Vec<_> = lookup::search_items(&k, "widget0").iter().map(|r| r.path.join("::")).collect();
    let b: Vec<_> = lookup::search_items(&k, "WIDGET0").iter().map(|r| r.path.join("::")).collect();
    assert_eq!(a, b);
    assert_eq!(a.len(), 3);
}

#[test]
fn search_output_lists_hits() {
    let k = search_crate(2);
    let results = lookup::search_items(&k, "widget0");
    assert_eq!(render::render_search_results(&results, "crate"), "  crate::m::Widget00  (static)\n  crate::m::Widget01  (static)\n");
    let out = cli::render_search_output(s("H\n"), "widget0", "crate", &results);
    assert_eq!(out, "H\nSearch results for \"widget0\" (2 found):\n\n  crate::m::Widget00  (static)\n  crate::m::Widget01  (static)\n");
    let none = lookup::search_items(&k, "zzz");
    assert_eq!(cli::render_search_output(s("H\n"), "zzz", "crate", &none), "H\nNo items matching \"zzz\" found.\n");
}

#[test]
fn alternatives_show_at_most_five() {
    let k = search_crate(8);
    let results = lookup::search_items(&k, "Widget0");
    assert_eq!(results.len(), 8);
    let text = cli::render_alternatives("c", results).unwrap();
    assert!(text.starts_with("\nDid you mean?\n\n"));
    assert_eq!(text.lines().filter(|l| l.starts_with("  c::")).count(), 5);
    assert!(cli::render_alternatives("c", Vec::new()).is_none());
}

// ── Queries ─────────────────────────────────────────────────────────────

#[test]
fn parse_query_splits_on_double_colons() {
    let (c, p) = query::parse_query("jiff::Timestamp::now").ok().unwrap();
    assert_eq!(c, "jiff");
    assert_eq!(p, vec![s("Timestamp"), s("now")]);
    let (c, p) = query::parse_query("jiff").ok().unwrap();
    assert_eq!(c, "jiff");
    assert!(p.is_empty());
    let (c, p) = query::parse_query("a:::b").ok().unwrap();
    assert_eq!(c, "a");
    assert_eq!(p, vec![s(":b")]);
    let (c, p) = query::parse_query("a::").ok().unwrap();
    assert_eq!(c, "a");
    assert_eq!(p, vec![s("")]);
}

#[test]
fn parse_query_refuses_missing_crate_name() {
    for q in ["", "::Item"] {
        match query::parse_query(q) {
            Err(e) => assert_eq!(e.message(), "invalid query: expected format like `crate::Item`"),
            Ok(_) => panic!("{q} should be refused"),
        }
    }
}

#[test]
fn parsed_query_joins_back() {
    for q in ["serde::de::Deserialize", "x", "a:::b::", "é::ü"] {
        let parts = query::split_query(q);
        assert_eq!(parts.join("::"), q);
        assert!(parts.iter().all(|p| !p.contains("::")));
    }
}

// ── Versions and headers ────────────────────────────────────────────────

#[test]
fn effective_version_prefers_workspace_for_latest() {
    let (v, src) = cli::effective_version("latest", Some(s("1.2.3")));
    assert_eq!(v, "1.2.3");
    assert!(src == VersionSource::Workspace);
    let (v, src) = cli::effective_version("latest", None);
    assert_eq!(v, "latest");
    assert!(src == VersionSource::Latest);
    let (v, src) = cli::effective_version("0.9", Some(s("1.2.3")));
    assert_eq!(v, "0.9");
    assert!(src == VersionSource::Explicit);
    assert!(cli::is_latest("latest"));
    assert!(!cli::is_latest("Latest"));
}

#[test]
fn header_notes_workspace_versions() {
    let v = s("1.0.0");
    assert_eq!(cli::render_header("a", &v, VersionSource::Explicit, &None), "// a 1.0.0\n\n");
    assert_eq!(cli::render_header("a", &v, VersionSource::Workspace, &Some(s("1.0.0"))), "// a 1.0.0 (from workspace, latest)\n\n");
    assert_eq!(cli::render_header("a", &v, VersionSource::Workspace, &Some(s("2.0.0"))), "// a 1.0.0 (from workspace; latest is 2.0.0)\n\n");
    assert_eq!(cli::render_header("a", &v, VersionSource::Workspace, &None), "// a 1.0.0 (from workspace)\n\n");
    assert_eq!(cli::views_shown(false, true, false, false), (false, true, false));
    assert_eq!(cli::views_shown(false, false, false, true), (true, true, true));
}

#[test]
fn lookup_output_assembles_sections() {
    let k = impl_crate();
    let found = lookup::lookup_item(&k, &[]).err();
    assert!(found.is_some());
    let k2 = krate(
        vec![
            (0, item(Some("c"), Visibility::Public, None, ItemEnum::Module(Module { items: vec![1] }))),
            (1, item(None, Visibility::Public, None, ItemEnum::Use(Use { source: s("inner::f"), name: s("f"), id: Some(2) }))),
            (2, item(Some("f"), Visibility::Public, None, ItemEnum::Function(func(Vec::new(), None)))),
        ],
        Vec::new(),
    );
    let r = lookup::lookup_item(&k2, &[s("f")]).ok().unwrap();
    let out = cli::render_lookup_output(&k2, s("// c 1\n\n"), &r, false, true, false);
    assert_eq!(out, "// c 1\n\n// note: re-exported from inner::f\n\npub fn f()\n\nNo inherent methods found.\n");
}

// ── Fetching ────────────────────────────────────────────────────────────

#[test]
fn format_version_checks() {
    assert!(fetch::check_format_version(38, "x").is_err());
    assert!(matches!(fetch::check_format_version(57, "x"), Ok(None)));
    match fetch::check_format_version(39, "x") {
        Ok(Some(w)) => assert_eq!(w, "warning: rustdoc JSON for `x` uses format version 39 (expected 57)."),
        _ => panic!("39 is accepted with a warning"),
    }
    match fetch::check_format_version(1, "fake") {
        Err(e) => assert_eq!(e.message(), "rustdoc JSON for `fake` uses format version 1, which is too old (minimum supported: 39)"),
        Ok(_) => panic!("1 is too old"),
    }
    match fetch::check_format_version(56, "x") {
        Ok(Some(w)) => assert_eq!(w, "warning: rustdoc JSON for `x` uses format version 56 (expected 57)."),
        _ => panic!("56 is accepted with a warning"),
    }
}

#[test]
fn format_version_newer_than_supported_is_refused() {
    match fetch::check_format_version(58, "newer") {
        Err(e) => {
            assert!(matches!(e, FetchError::FormatTooNew { version: 58, .. }));
            assert_eq!(
                e.message(),
                "rustdoc JSON for `newer` uses format version 58, which is too new (maximum supported: 57)"
            );
        }
        Ok(_) => panic!("58 is newer than supported"),
    }
    assert!(fetch::check_format_version(u32::MAX, "x").is_err());
}

#[test]
fn fetch_error_messages() {
    assert_eq!(FetchError::NoCacheDir.message(), "could not determine cache directory");
    assert_eq!(FetchError::Connect.message(), "failed to connect to docs.rs");
    assert_eq!(
        FetchError::NotFound { crate_name: s("a"), version: s("1") }.message(),
        "crate `a` version `1` not found on docs.rs.\nThis could mean:\n  - The crate name is misspelled\n  - The version doesn't exist\n  - Rustdoc JSON is not available (only crates published after 2025-05-23 have it)"
    );
    assert_eq!(
        FetchError::Http { status: 503, reason: Some(s("Service Unavailable")) }.message(),
        "docs.rs returned HTTP 503 Service Unavailable: Service Unavailable"
    );
    assert_eq!(FetchError::Http { status: 599, reason: None }.message(), "docs.rs returned HTTP 599 <unknown status code>: unknown");
    assert_eq!(FetchError::ReadBody.message(), "failed to read response body");
    assert_eq!(FetchError::Decompress.message(), "failed to decompress zstd data");
    assert_eq!(FetchError::FormatUnreadable.message(), "failed to read format_version from rustdoc JSON");
    assert_eq!(
        FetchError::Parse { crate_name: s("a"), version: 60 }.message(),
        "failed to parse rustdoc JSON for `a` (format version 60, expected 57)"
    );
}

#[test]
fn cache_paths() {
    let dir = fetch::cache_dir("/home/u/.cache");
    assert_eq!(dir, "/home/u/.cache/wtr");
    assert_eq!(fetch::crate_cache_dir(&dir, "serde"), "/home/u/.cache/wtr/serde");
    assert_eq!(fetch::cached_json_path(&dir, "serde", "1.0.0"), "/home/u/.cache/wtr/serde/1.0.0.json");
    assert_eq!(fetch::sidecar_path(&dir, "serde"), "/home/u/.cache/wtr/serde/latest.version");
    assert_eq!(fetch::join_path("/a/", "b"), "/a/b");
    assert_eq!(fetch::join_path("", "b"), "b");
    assert_eq!(fetch::join_path("/a", "/b"), "/b");
    assert_eq!(
        fetch::join_path("/a", "b"),
        std::path::Path::new("/a").join("b").to_string_lossy()
    );
}

#[test]
fn sidecar_freshness() {
    assert_eq!(fetch::fresh_sidecar_version(100, "  1.2.3\n"), Some(s("1.2.3")));
    assert_eq!(fetch::fresh_sidecar_version(86399, "1.2.3"), Some(s("1.2.3")));
    assert_eq!(fetch::fresh_sidecar_version(86400, "1.2.3"), None);
    assert!(fetch::sidecar_fresh(86399));
    assert!(!fetch::sidecar_fresh(86400));
    assert_eq!(fetch::fresh_sidecar_version(86401, "1.2.3"), None);
    assert_eq!(fetch::fresh_sidecar_version(0, " \n\t"), None);
}

fn plan(version: &str, refresh: bool) -> FetchPlan {
    FetchPlan { crate_name: s("jiff"), version: s(version), refresh }
}

#[test]
fn fetch_steps() {
    let url = "https://docs.rs/crate/jiff/latest/json";
    assert!(matches!(fetch::next_step(&plan("latest", false), FetchEvent::Start), FetchAction::ReadSidecar));
    assert!(matches!(fetch::next_step(&plan("latest", true), FetchEvent::Start), FetchAction::Download { url: u } if u == url));
    assert!(matches!(fetch::next_step(&plan("0.2", false), FetchEvent::Start), FetchAction::LoadCache { version } if version == "0.2"));
    assert!(matches!(fetch::next_step(&plan("latest", false), FetchEvent::Sidecar(Some(s("0.2.1")))), FetchAction::LoadCache { version } if version == "0.2.1"));
    assert!(matches!(fetch::next_step(&plan("latest", false), FetchEvent::Sidecar(None)), FetchAction::Download { url: u } if u == url));
    assert!(matches!(fetch::next_step(&plan("0.2", false), FetchEvent::CacheMiss), FetchAction::Download { url: u } if u == "https://docs.rs/crate/jiff/0.2/json"));
    assert!(matches!(fetch::next_step(&plan("0.2", false), FetchEvent::CacheHit { version: s("0.2") }), FetchAction::Done { version } if version == "0.2"));
    assert!(matches!(
        fetch::next_step(&plan("0.2", false), FetchEvent::Response { status: 404, reason: Some(s("Not Found")) }),
        FetchAction::Fail(FetchError::NotFound { crate_name, version }) if crate_name == "jiff" && version == "0.2"
    ));
    assert!(matches!(
        fetch::next_step(&plan("0.2", false), FetchEvent::Response { status: 500, reason: None }),
        FetchAction::Fail(FetchError::Http { status: 500, reason: None })
    ));
    assert!(matches!(fetch::next_step(&plan("0.2", false), FetchEvent::Response { status: 200, reason: Some(s("OK")) }), FetchAction::Decode));
    assert!(matches!(
        fetch::next_step(&plan("latest", false), FetchEvent::Parsed { crate_version: Some(s("0.2.5")) }),
        FetchAction::Store { version, record_latest: true } if version == "0.2.5"
    ));
    assert!(matches!(
        fetch::next_step(&plan("0.2", false), FetchEvent::Parsed { crate_version: None }),
        FetchAction::Store { version, record_latest: false } if version == "0.2"
    ));
}

#[test]
fn decompress_body_decodes_zstd() {
    let plain = b"{\"format_version\": 57}".to_vec();
    let compressed = zstd::stream::encode_all(&plain[..], 3).unwrap();
    assert_ne!(compressed, plain);
    assert_eq!(fetch::decompress_body(&compressed).ok().unwrap(), plain);
    assert!(matches!(fetch::decompress_body(b"not zstd"), Err(FetchError::Decompress)));
}

// ── Workspace ───────────────────────────────────────────────────────────

fn dep(name: Option<&str>, pkg: Option<&str>) -> MetadataDep {
    MetadataDep { name: name.map(s), pkg: pkg.map(s) }
}

fn metadata(deps: Vec<MetadataDep>) -> Metadata {
    Metadata {
        resolve: Some(MetadataResolve {
            root: Some(s("app 0.1.0")),
            nodes: Some(vec![
                MetadataNode { id: None, deps: None },
                MetadataNode { id: Some(s("other")), deps: Some(Vec::new()) },
                MetadataNode { id: Some(s("app 0.1.0")), deps: Some(deps) },
            ]),
        }),
    }
}

#[test]
fn infer_dep_version_reads_package_ids() {
    let m = metadata(vec![
        dep(Some("anyhow"), Some("registry+https://github.com/rust-lang/crates.io-index#anyhow@1.0.98")),
        dep(Some("serde_json"), Some("registry+https://github.com/rust-lang/crates.io-index#serde_json@1.0.140")),
    ]);
    assert_eq!(workspace::infer_dep_version(&m, "serde-json"), Some(s("1.0.140")));
    assert_eq!(workspace::infer_dep_version(&m, "serde_json"), Some(s("1.0.140")));
    assert_eq!(workspace::infer_dep_version(&m, "anyhow"), Some(s("1.0.98")));
    assert_eq!(workspace::infer_dep_version(&m, "tokio"), None);
}

#[test]
fn infer_dep_version_edge_cases() {
    let m = metadata(vec![dep(Some("a"), Some("a@")), dep(Some("a"), Some("path+file:///x#a@0.3.0"))]);
    assert_eq!(workspace::infer_dep_version(&m, "a"), Some(s("0.3.0")));
    let m = metadata(vec![dep(None, Some("x@1")), dep(Some("a"), Some("a@1"))]);
    assert_eq!(workspace::infer_dep_version(&m, "a"), None);
    let m = metadata(vec![dep(Some("a"), None), dep(Some("a"), Some("a@1"))]);
    assert_eq!(workspace::infer_dep_version(&m, "a"), None);
    let m = metadata(vec![dep(Some("a"), Some("1.2"))]);
    assert_eq!(workspace::infer_dep_version(&m, "a"), Some(s("1.2")));
    assert_eq!(workspace::infer_dep_version(&Metadata { resolve: None }, "a"), None);
}

// ── Strings ─────────────────────────────────────────────────────────────

#[test]
fn string_helpers() {
    assert_eq!(strings::to_decimal(0), "0");
    assert_eq!(strings::to_decimal(1207), "1207");
    assert_eq!(strings::trim_str("\u{3000} a b \u{2009}\n"), "a b");
    assert_eq!(strings::first_line("\n   \n  Hello world  \r\nmore"), Some(s("Hello world")));
    assert_eq!(strings::first_line(" \n\t"), None);
    assert!(strings::contains_str("RangeMap", "geM"));
    assert!(strings::contains_str("x", ""));
    assert!(!strings::contains_str("ab", "abc"));
    assert!(strings::str_less("ab", "abc"));
    assert!(strings::str_less("B", "a"));
    assert!(!strings::str_less("b", "b"));
    assert_eq!(strings::join(&vec![s("a"), s("b"), s("c")], ", "), "a, b, c");
    assert_eq!(strings::join(&Vec::new(), ", "), "");
}
