use std::collections::HashMap;

use wtr::fetch::{self, Crate};
use wtr::lookup;
use wtr::model::{
    Function, FunctionHeader, FunctionSignature, GenericArg, GenericArgs, GenericParamDef,
    GenericParamDefKind, Generics, Id, Impl, Item, ItemEnum, ItemKind, ItemSummary, Module, Path,
    Struct, StructKind, Trait, Type, Use, Visibility,
};
use wtr::render;

fn s(x: &str) -> String {
    x.to_string()
}

fn no_generics() -> Generics {
    Generics { params: Vec::new(), where_predicates: Vec::new() }
}

fn type_params(names: &[&str]) -> Generics {
    Generics {
        params: names
            .iter()
            .map(|n| GenericParamDef {
                name: s(n),
                kind: GenericParamDefKind::Type {
                    bounds: Vec::new(),
                    default: None,
                    is_synthetic: false,
                },
            })
            .collect(),
        where_predicates: Vec::new(),
    }
}

fn resolved(name: &str, args: Vec<Type>) -> Type {
    let args = if args.is_empty() {
        None
    } else {
        Some(Box::new(GenericArgs::AngleBracketed {
            args: args.into_iter().map(GenericArg::Type).collect(),
            constraints: Vec::new(),
        }))
    };
    Type::ResolvedPath(Path { path: s(name), args })
}

fn generic(name: &str) -> Type {
    Type::Generic(s(name))
}

fn reference(is_mutable: bool, ty: Type) -> Type {
    Type::BorrowedRef { lifetime: None, is_mutable, type_: Box::new(ty) }
}

fn item(name: Option<&str>, docs: Option<&str>, inner: ItemEnum) -> Item {
    Item { name: name.map(s), visibility: Visibility::Public, docs: docs.map(s), inner }
}

fn method(name: &str, docs: &str, inputs: Vec<(&str, Type)>, output: Option<Type>) -> Item {
    item(
        Some(name),
        Some(docs),
        ItemEnum::Function(Function {
            sig: FunctionSignature {
                inputs: inputs.into_iter().map(|(n, t)| (s(n), t)).collect(),
                output,
            },
            generics: no_generics(),
            header: FunctionHeader { is_const: false, is_unsafe: false, is_async: false },
        }),
    )
}

fn impl_block(trait_: Option<&str>, synthetic: bool, for_: Type, items: Vec<Id>) -> Item {
    let mut it = item(
        None,
        None,
        ItemEnum::Impl(Impl {
            is_synthetic: synthetic,
            blanket_impl: None,
            trait_: trait_.map(|t| Path { path: s(t), args: None }),
            generics: type_params(&["K", "V"]),
            for_,
            items,
        }),
    );
    it.visibility = Visibility::Default;
    it
}

fn entry(id: Id, path: &[&str], kind: ItemKind) -> (Id, ItemSummary) {
    (id, ItemSummary { path: path.iter().map(|p| s(p)).collect(), kind })
}

/// A model of the documentation of the `rangemap` crate.
fn rangemap(version: &str) -> Crate {
    let range_map_ty = resolved("RangeMap", vec![generic("K"), generic("V")]);
    let mut index: HashMap<Id, Item> = HashMap::new();
    index.insert(0, item(Some("rangemap"), Some("Range maps and sets."), ItemEnum::Module(Module { items: vec![1, 2, 3, 4, 5] })));
    index.insert(1, item(Some("map"), None, ItemEnum::Module(Module { items: vec![10] })));
    index.insert(2, item(Some("set"), None, ItemEnum::Module(Module { items: vec![20] })));
    index.insert(3, item(Some("std_ext"), None, ItemEnum::Module(Module { items: vec![30] })));
    index.insert(4, item(None, None, ItemEnum::Use(Use { source: s("crate::map::RangeMap"), name: s("RangeMap"), id: Some(10) })));
    index.insert(5, item(None, None, ItemEnum::Use(Use { source: s("crate::set::RangeSet"), name: s("RangeSet"), id: Some(20) })));
    index.insert(
        10,
        item(
            Some("RangeMap"),
            Some("A map whose keys are stored as (half-open) ranges bounded\ninclusively below and exclusively above `(start..end)`.\n\nContiguous and overlapping ranges that map to the same value\nare coalesced into a single range."),
            ItemEnum::Struct(Struct {
                kind: StructKind::Plain { fields: Vec::new() },
                generics: type_params(&["K", "V"]),
                impls: vec![11, 12, 13],
            }),
        ),
    );
    index.insert(11, impl_block(None, false, range_map_ty.clone_type(), vec![14, 15, 16]));
    index.insert(12, impl_block(Some("Clone"), false, range_map_ty.clone_type(), vec![17]));
    index.insert(13, impl_block(Some("Send"), true, range_map_ty.clone_type(), Vec::new()));
    index.insert(14, method("new", "Makes a new empty `RangeMap`.", Vec::new(), Some(generic("Self"))));
    index.insert(
        15,
        method(
            "insert",
            "Insert a pair of key range and value into the map.",
            vec![
                ("self", reference(true, generic("Self"))),
                ("range", resolved("Range", vec![generic("K")])),
                ("value", generic("V")),
            ],
            None,
        ),
    );
    index.insert(
        16,
        method(
            "get",
            "Returns a reference to the value corresponding to the given key,\nif the key is covered by any range in the map.",
            vec![("self", reference(false, generic("Self"))), ("key", reference(false, generic("K")))],
            Some(resolved("Option", vec![reference(false, generic("V"))])),
        ),
    );
    index.insert(17, method("clone", "", vec![("self", reference(false, generic("Self")))], Some(generic("Self"))));
    index.insert(
        20,
        item(
            Some("RangeSet"),
            Some("A set whose items are stored as (half-open) ranges."),
            ItemEnum::Struct(Struct {
                kind: StructKind::Plain { fields: Vec::new() },
                generics: type_params(&["T"]),
                impls: vec![21],
            }),
        ),
    );
    index.insert(21, impl_block(None, false, resolved("RangeSet", vec![generic("T")]), vec![22]));
    index.insert(
        22,
        method(
            "insert",
            "Insert a range into the set.",
            vec![("self", reference(true, generic("Self"))), ("range", resolved("Range", vec![generic("T")]))],
            None,
        ),
    );
    index.insert(
        30,
        item(
            Some("StepLite"),
            Some("Minimal version of unstable `Step` trait."),
            ItemEnum::Trait(Trait { is_unsafe: false, items: Vec::new(), generics: no_generics(), bounds: Vec::new() }),
        ),
    );
    let paths = vec![
        entry(0, &["rangemap"], ItemKind::Module),
        entry(1, &["rangemap", "map"], ItemKind::Module),
        entry(2, &["rangemap", "set"], ItemKind::Module),
        entry(3, &["rangemap", "std_ext"], ItemKind::Module),
        entry(10, &["rangemap", "map", "RangeMap"], ItemKind::Struct),
        entry(20, &["rangemap", "set", "RangeSet"], ItemKind::Struct),
        entry(30, &["rangemap", "std_ext", "StepLite"], ItemKind::Trait),
        entry(11, &["rangemap", "map", "RangeMap"], ItemKind::Impl),
    ];
    Crate { root: 0, crate_version: Some(s(version)), index, paths }
}

trait CloneType {
    fn clone_type(&self) -> Type;
}

impl CloneType for Type {
    fn clone_type(&self) -> Type {
        match self {
            Type::ResolvedPath(p) => Type::ResolvedPath(Path {
                path: p.path.clone(),
                args: p.args.as_ref().map(|a| match &**a {
                    GenericArgs::AngleBracketed { args, .. } => Box::new(GenericArgs::AngleBracketed {
                        args: args
                            .iter()
                            .map(|g| match g {
                                GenericArg::Type(t) => GenericArg::Type(t.clone_type()),
                                GenericArg::Lifetime(l) => GenericArg::Lifetime(l.clone()),
                                GenericArg::Const(c) => GenericArg::Const(c.clone()),
                                GenericArg::Infer => GenericArg::Infer,
                            })
                            .collect(),
                        constraints: Vec::new(),
                    }),
                    _ => Box::new(GenericArgs::ReturnTypeNotation),
                }),
            }),
            Type::Generic(n) => Type::Generic(n.clone()),
            _ => Type::Infer,
        }
    }
}

fn load_rangemap_v1_7_1() -> Crate {
    rangemap("1.7.1")
}

fn load_rangemap_v1_6_0() -> Crate {
    rangemap("1.6.0")
}

fn is_module(it: &Item) -> bool {
    matches!(it.inner, ItemEnum::Module(_))
}

fn is_struct(it: &Item) -> bool {
    matches!(it.inner, ItemEnum::Struct(_))
}

fn is_function(it: &Item) -> bool {
    matches!(it.inner, ItemEnum::Function(_))
}

// ── Format version ──────────────────────────────────────────────────────

#[test]
fn unsupported_old_format_version_gives_clear_error() {
    let err = fetch::check_format_version(1, "fake").unwrap_err();
    let msg = err.message();
    assert!(msg.contains("too old"), "expected 'too old' error, got: {msg}");
}

// ── Lookup (v57) ────────────────────────────────────────────────────────

#[test]
fn lookup_crate_root() {
    let krate = load_rangemap_v1_7_1();
    let result = lookup::lookup_item(&krate, &[]).ok().unwrap();
    assert!(is_module(result.item));
}

#[test]
fn lookup_top_level_struct() {
    let krate = load_rangemap_v1_7_1();
    let result = lookup::lookup_item(&krate, &["RangeMap".into()]).ok().unwrap();
    assert!(is_struct(result.item));
    assert_eq!(result.item.name.as_deref(), Some("RangeMap"));
}

#[test]
fn lookup_top_level_struct_rangeset() {
    let krate = load_rangemap_v1_7_1();
    let result = lookup::lookup_item(&krate, &["RangeSet".into()]).ok().unwrap();
    assert!(is_struct(result.item));
}

#[test]
fn lookup_method() {
    let krate = load_rangemap_v1_7_1();
    let result = lookup::lookup_item(&krate, &["RangeMap".into(), "insert".into()]).ok().unwrap();
    assert!(is_function(result.item));
    assert_eq!(result.item.name.as_deref(), Some("insert"));
}

#[test]
fn lookup_nonexistent_item_fails() {
    let krate = load_rangemap_v1_7_1();
    let result = lookup::lookup_item(&krate, &["NonExistent".into()]);
    assert!(result.is_err());
}

#[test]
fn lookup_nonexistent_method_fails() {
    let krate = load_rangemap_v1_7_1();
    let result = lookup::lookup_item(&krate, &["RangeMap".into(), "nonexistent_method".into()]);
    assert!(result.is_err());
}

// Re-exported items: RangeMap is defined in `map::RangeMap` but re-exported
// at the crate root. It should be findable via both paths.
#[test]
fn lookup_reexported_struct_via_submodule_path() {
    let krate = load_rangemap_v1_7_1();
    let result = lookup::lookup_item(&krate, &["map".into(), "RangeMap".into()]).ok().unwrap();
    assert!(is_struct(result.item));
    assert_eq!(result.item.name.as_deref(), Some("RangeMap"));
}

#[test]
fn lookup_reexported_trait_via_submodule_path() {
    let krate = load_rangemap_v1_7_1();
    let result = lookup::lookup_item(&krate, &["std_ext".into(), "StepLite".into()]).ok().unwrap();
    assert_eq!(result.item.name.as_deref(), Some("StepLite"));
}

// ── Module walk ─────────────────────────────────────────────────────────

#[test]
fn module_walk_finds_reexported_struct() {
    let krate = load_rangemap_v1_7_1();
    let result = lookup::find_by_module_walk(&krate, &["RangeMap".into()]);
    let result = result.expect("should find RangeMap via module walk");
    assert!(is_struct(result.item));
    assert_eq!(result.item.name.as_deref(), Some("RangeMap"));
}

#[test]
fn module_walk_finds_item_in_submodule() {
    let krate = load_rangemap_v1_7_1();
    let result = lookup::find_by_module_walk(&krate, &["map".into(), "RangeMap".into()]);
    let result = result.expect("should find map::RangeMap via module walk");
    assert!(is_struct(result.item));
    assert_eq!(result.item.name.as_deref(), Some("RangeMap"));
}

#[test]
fn module_walk_returns_none_for_missing() {
    let krate = load_rangemap_v1_7_1();
    let result = lookup::find_by_module_walk(&krate, &["NonExistent".into()]);
    assert!(result.is_none());
}

#[test]
fn module_walk_reports_reexport_source() {
    let krate = load_rangemap_v1_7_1();
    let result = lookup::find_by_module_walk(&krate, &["RangeMap".into()]).expect("should find RangeMap");
    assert!(result.reexport_source.is_some(), "RangeMap is re-exported, should have reexport_source");
    let source = result.reexport_source.unwrap();
    assert!(source.contains("map"), "reexport_source should reference the map module, got: {source}");
}

// ── Lookup (v54) ────────────────────────────────────────────────────────

#[test]
fn v54_lookup_struct() {
    let krate = load_rangemap_v1_6_0();
    let result = lookup::lookup_item(&krate, &["RangeMap".into()]).ok().unwrap();
    assert!(is_struct(result.item));
    assert_eq!(result.item.name.as_deref(), Some("RangeMap"));
}

#[test]
fn v54_lookup_method() {
    let krate = load_rangemap_v1_6_0();
    let result = lookup::lookup_item(&krate, &["RangeMap".into(), "insert".into()]).ok().unwrap();
    assert!(is_function(result.item));
    assert_eq!(result.item.name.as_deref(), Some("insert"));
}

// ── find_methods / find_trait_impls ─────────────────────────────────────

#[test]
fn find_methods_returns_methods() {
    let krate = load_rangemap_v1_7_1();
    let result = lookup::lookup_item(&krate, &["RangeMap".into()]).ok().unwrap();
    let methods = lookup::find_methods(&krate, result.item);
    assert!(!methods.is_empty(), "RangeMap should have methods");
    let names: Vec<_> = methods.iter().filter_map(|m| m.name.as_deref()).collect();
    assert!(names.contains(&"insert"), "should have insert method");
    assert!(names.contains(&"get"), "should have get method");
}

#[test]
fn find_trait_impls_returns_impls() {
    let krate = load_rangemap_v1_7_1();
    let result = lookup::lookup_item(&krate, &["RangeMap".into()]).ok().unwrap();
    let impls = lookup::find_trait_impls(&krate, result.item);
    let trait_names: Vec<_> = impls.iter().map(|(_, name)| name.as_str()).collect();
    assert!(
        trait_names.iter().any(|n| n.contains("Clone")),
        "RangeMap should implement Clone, got: {trait_names:?}"
    );
}

// ── Rendering (v57) ─────────────────────────────────────────────────────

#[test]
fn render_struct_summary() {
    let krate = load_rangemap_v1_7_1();
    let result = lookup::lookup_item(&krate, &["RangeMap".into()]).ok().unwrap();
    let output = render::render_item_summary(result.item, &krate);
    assert!(output.contains("struct RangeMap"), "output: {output}");
    assert!(output.contains("pub"), "should show pub visibility: {output}");
}

#[test]
fn render_method_signature() {
    let krate = load_rangemap_v1_7_1();
    let result = lookup::lookup_item(&krate, &["RangeMap".into(), "insert".into()]).ok().unwrap();
    let output = render::render_item_summary(result.item, &krate);
    assert!(output.contains("fn insert"), "output: {output}");
}

#[test]
fn render_methods_list() {
    let krate = load_rangemap_v1_7_1();
    let result = lookup::lookup_item(&krate, &["RangeMap".into()]).ok().unwrap();
    let output = render::render_methods(result.item, &krate);
    assert!(output.contains("Methods for RangeMap"), "output: {output}");
    assert!(output.contains("fn insert"), "output: {output}");
    assert!(output.contains("fn get"), "output: {output}");
}

#[test]
fn render_full_includes_docs() {
    let krate = load_rangemap_v1_7_1();
    let result = lookup::lookup_item(&krate, &["RangeMap".into()]).ok().unwrap();
    let output = render::render_item_full(result.item, &krate);
    let summary = render::render_item_summary(result.item, &krate);
    assert!(output.len() > summary.len(), "full output should be longer than summary");
}

#[test]
fn render_trait_impls_output() {
    let krate = load_rangemap_v1_7_1();
    let result = lookup::lookup_item(&krate, &["RangeMap".into()]).ok().unwrap();
    let output = render::render_trait_impls(result.item, &krate);
    assert!(output.contains("Trait implementations for RangeMap"), "output: {output}");
}

// ── Rendering (v54) ─────────────────────────────────────────────────────

#[test]
fn v54_render_struct_summary() {
    let krate = load_rangemap_v1_6_0();
    let result = lookup::lookup_item(&krate, &["RangeMap".into()]).ok().unwrap();
    let output = render::render_item_summary(result.item, &krate);
    assert!(output.contains("struct RangeMap"), "output: {output}");
}

#[test]
fn v54_render_methods() {
    let krate = load_rangemap_v1_6_0();
    let result = lookup::lookup_item(&krate, &["RangeMap".into()]).ok().unwrap();
    let output = render::render_methods(result.item, &krate);
    assert!(output.contains("fn insert"), "output: {output}");
}

// ── Suggestions ─────────────────────────────────────────────────────────

#[test]
fn suggestions_for_struct() {
    let krate = load_rangemap_v1_7_1();
    let result = lookup::lookup_item(&krate, &["RangeMap".into()]).ok().unwrap();
    let suggestions =
        render::render_suggestions("rangemap", &["RangeMap".into()], result.item, &krate, false, false, false);
    assert!(suggestions.contains("--methods"), "suggestions: {suggestions}");
    assert!(suggestions.contains("--full"), "suggestions: {suggestions}");
    assert!(suggestions.contains("--traits"), "suggestions: {suggestions}");
}

#[test]
fn suggestions_omit_used_flags() {
    let krate = load_rangemap_v1_7_1();
    let result = lookup::lookup_item(&krate, &["RangeMap".into()]).ok().unwrap();
    let suggestions =
        render::render_suggestions("rangemap", &["RangeMap".into()], result.item, &krate, false, true, false);
    assert!(!suggestions.contains("--methods"), "should omit --methods");
    assert!(suggestions.contains("--full"), "should still have --full");
}

#[test]
fn suggestions_empty_when_all_used() {
    let krate = load_rangemap_v1_7_1();
    let result = lookup::lookup_item(&krate, &["RangeMap".into()]).ok().unwrap();
    let suggestions =
        render::render_suggestions("rangemap", &["RangeMap".into()], result.item, &krate, true, true, true);
    assert!(suggestions.is_empty(), "should be empty: {suggestions}");
}

#[test]
fn no_suggestions_for_function() {
    let krate = load_rangemap_v1_7_1();
    let result = lookup::lookup_item(&krate, &["RangeMap".into(), "insert".into()]).ok().unwrap();
    let suggestions = render::render_suggestions(
        "rangemap",
        &["RangeMap".into(), "insert".into()],
        result.item,
        &krate,
        false,
        false,
        false,
    );
    // Functions don't have --methods or --traits suggestions.
    assert!(!suggestions.contains("--methods"), "suggestions: {suggestions}");
    assert!(!suggestions.contains("--traits"), "suggestions: {suggestions}");
    // But should still suggest --full.
    assert!(suggestions.contains("--full"), "suggestions: {suggestions}");
}

// ── Search ──────────────────────────────────────────────────────────────

#[test]
fn search_finds_exact_match() {
    let krate = load_rangemap_v1_7_1();
    let results = lookup::search_items(&krate, "RangeMap");
    assert!(!results.is_empty(), "should find RangeMap");
    let has_rangemap = results.iter().any(|r| r.item.name.as_deref() == Some("RangeMap") && r.exact);
    assert!(has_rangemap, "should have an exact match for RangeMap");
}

#[test]
fn search_finds_substring_match() {
    let krate = load_rangemap_v1_7_1();
    let results = lookup::search_items(&krate, "range");
    let names: Vec<_> = results.iter().filter_map(|r| r.item.name.as_deref()).collect();
    assert!(names.iter().any(|n| *n == "RangeMap"), "should find RangeMap: {names:?}");
    assert!(names.iter().any(|n| *n == "RangeSet"), "should find RangeSet: {names:?}");
}

#[test]
fn search_is_case_insensitive() {
    let krate = load_rangemap_v1_7_1();
    let results = lookup::search_items(&krate, "rangemap");
    let names: Vec<_> = results.iter().filter_map(|r| r.item.name.as_deref()).collect();
    assert!(names.contains(&"RangeMap"), "case-insensitive search should find RangeMap: {names:?}");
}

#[test]
fn search_no_results() {
    let krate = load_rangemap_v1_7_1();
    let results = lookup::search_items(&krate, "nonexistent");
    assert!(results.is_empty(), "should find nothing: {results:?}", results = results.len());
}

// ── Module children ─────────────────────────────────────────────────────

#[test]
fn render_module_full_lists_children() {
    let krate = load_rangemap_v1_7_1();
    let result = lookup::lookup_item(&krate, &["map".into()]).ok().unwrap();
    let output = render::render_item_full(result.item, &krate);
    assert!(output.contains("Structs:"), "should have Structs heading: {output}");
    assert!(output.contains("RangeMap"), "should list RangeMap child: {output}");
}

#[test]
fn render_crate_root_full_lists_children() {
    let krate = load_rangemap_v1_7_1();
    let result = lookup::lookup_item(&krate, &[]).ok().unwrap();
    let output = render::render_item_full(result.item, &krate);
    // The root module should list top-level items.
    assert!(
        output.contains("RangeMap") || output.contains("Modules:"),
        "root full output should list children: {output}"
    );
}

#[test]
fn suggestions_for_module_suggest_children() {
    let krate = load_rangemap_v1_7_1();
    let result = lookup::lookup_item(&krate, &["map".into()]).ok().unwrap();
    let suggestions = render::render_suggestions("rangemap", &["map".into()], result.item, &krate, true, false, false);
    assert!(suggestions.contains("wtr rangemap::map::"), "should suggest child paths: {suggestions}");
}
