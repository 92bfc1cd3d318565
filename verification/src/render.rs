//! Rendering items of the data model as Rust-like text.
use crate::fetch::Crate;
use crate::lookup::{
    derefs, find_methods, find_trait_impls, get_item, hits, impl_pairs, item_at, methods_of, opt_view,
    trait_impls_of, SearchResult,
};
use crate::model::{
    AssocItemConstraint, AssocItemConstraintKind, Function, FunctionSignature, GenericArg,
    GenericArgs, GenericBound, GenericParamDef, GenericParamDefKind, Generics, Id, Item, ItemEnum,
    ItemKind, Path, StructKind, Term, TraitBoundModifier, Type, Visibility, WherePredicate,
};
use crate::strings::{
    chars_of, copy_str, decimal, first_line, first_text_line, join, join_seq, lemma_views_push,
    str_equal, to_decimal, trim, trim_str, views,
};
use vstd::string::{StrSliceExecFns, StringExecFns};
use vstd::prelude::*;

verus! {

// ── What the text of each part of a type is ─────────────────────────────

/// `text` if present, else `_`.
pub open spec fn value_or_underscore(v: Option<String>) -> Seq<char> {
    match v {
        Some(s) => s@,
        Option::None => "_"@,
    }
}

/// The text of a path: its name followed by its generic arguments, if any.
pub open spec fn path_text(p: Path) -> Seq<char>
    decreases p,
{
    match p.args {
        Some(a) => p.path@ + args_text(*a),
        Option::None => p.path@,
    }
}

/// The text of a type.
pub open spec fn type_text(t: Type) -> Seq<char>
    decreases t,
{
    match t {
        Type::ResolvedPath(p) => path_text(p),
        Type::Generic(name) => name@,
        Type::Primitive(name) => name@,
        Type::BorrowedRef { lifetime, is_mutable, type_ } => {
            let lt = match lifetime {
                Some(l) => l@ + " "@,
                Option::None => Seq::empty(),
            };
            let m = if is_mutable { "mut "@ } else { Seq::empty() };
            "&"@ + lt + m + type_text(*type_)
        },
        Type::Tuple(types) => "("@ + join_seq(types_text(types@), ", "@) + ")"@,
        Type::Slice(inner) => "["@ + type_text(*inner) + "]"@,
        Type::Array { type_, len } => "["@ + type_text(*type_) + "; "@ + len@ + "]"@,
        Type::RawPointer { is_mutable, type_ } => if is_mutable {
            "*mut "@ + type_text(*type_)
        } else {
            "*const "@ + type_text(*type_)
        },
        Type::FunctionPointer(sig) => fn_pointer_text(*sig),
        Type::ImplTrait(bounds) => "impl "@ + join_seq(bounds_text(bounds@), " + "@),
        Type::DynTrait(d) => {
            let base = "dyn "@ + join_seq(paths_text(d.traits@), " + "@);
            match d.lifetime {
                Some(l) => base + " + "@ + l@,
                Option::None => base,
            }
        },
        Type::QualifiedPath { name, self_type, trait_ } => match trait_ {
            Some(tr) => if tr.path@.len() > 0 {
                "<"@ + type_text(*self_type) + " as "@ + tr.path@ + ">::"@ + name@
            } else {
                type_text(*self_type) + "::"@ + name@
            },
            Option::None => type_text(*self_type) + "::"@ + name@,
        },
        Type::Infer => "_"@,
        Type::Pat { type_ } => type_text(*type_),
    }
}

/// The text of a function pointer type.
pub open spec fn fn_pointer_text(sig: FunctionSignature) -> Seq<char>
    decreases sig,
{
    let base = "fn("@ + join_seq(inputs_text(sig.inputs@), ", "@) + ")"@;
    match sig.output {
        Some(out) => base + " -> "@ + type_text(out),
        Option::None => base,
    }
}

/// The texts of a sequence of types, in order.
pub open spec fn types_text(s: Seq<Type>) -> Seq<Seq<char>>
    decreases s,
{
    if s.len() == 0 {
        Seq::empty()
    } else {
        types_text(s.subrange(0, s.len() - 1)).push(type_text(s[s.len() - 1]))
    }
}

/// The texts of the types of a sequence of named inputs, in order.
pub open spec fn inputs_text(s: Seq<(String, Type)>) -> Seq<Seq<char>>
    decreases s,
{
    if s.len() == 0 {
        Seq::empty()
    } else {
        inputs_text(s.subrange(0, s.len() - 1)).push(type_text(s[s.len() - 1].1))
    }
}

/// The texts of a sequence of paths, in order.
pub open spec fn paths_text(s: Seq<Path>) -> Seq<Seq<char>>
    decreases s,
{
    if s.len() == 0 {
        Seq::empty()
    } else {
        paths_text(s.subrange(0, s.len() - 1)).push(path_text(s[s.len() - 1]))
    }
}

/// The text of a bound; a `use<..>` bound has none.
pub open spec fn bound_text(b: GenericBound) -> Option<Seq<char>>
    decreases b,
{
    match b {
        GenericBound::TraitBound { trait_, modifier } => {
            let prefix = match modifier {
                TraitBoundModifier::Maybe => "?"@,
                TraitBoundModifier::MaybeConst => "~const "@,
                TraitBoundModifier::Plain => Seq::empty(),
            };
            Some(prefix + path_text(trait_))
        },
        GenericBound::Outlives(lt) => Some(lt@),
        GenericBound::Use => Option::None,
    }
}

/// The texts of the bounds that have one, in order.
pub open spec fn bounds_text(s: Seq<GenericBound>) -> Seq<Seq<char>>
    decreases s,
{
    if s.len() == 0 {
        Seq::empty()
    } else {
        let rest = bounds_text(s.subrange(0, s.len() - 1));
        match bound_text(s[s.len() - 1]) {
            Some(t) => rest.push(t),
            Option::None => rest,
        }
    }
}

/// The text of one generic argument.
pub open spec fn arg_text(a: GenericArg) -> Seq<char>
    decreases a,
{
    match a {
        GenericArg::Lifetime(lt) => lt@,
        GenericArg::Type(t) => type_text(t),
        GenericArg::Const(v) => value_or_underscore(v),
        GenericArg::Infer => "_"@,
    }
}

/// The texts of a sequence of generic arguments, in order.
pub open spec fn arg_list_text(s: Seq<GenericArg>) -> Seq<Seq<char>>
    decreases s,
{
    if s.len() == 0 {
        Seq::empty()
    } else {
        arg_list_text(s.subrange(0, s.len() - 1)).push(arg_text(s[s.len() - 1]))
    }
}

/// The text of a term.
pub open spec fn term_text(t: Term) -> Seq<char>
    decreases t,
{
    match t {
        Term::Type(ty) => type_text(ty),
        Term::Constant(v) => value_or_underscore(v),
    }
}

/// The text of an associated item constraint.
pub open spec fn constraint_text(c: AssocItemConstraint) -> Seq<char>
    decreases c,
{
    match c.binding {
        AssocItemConstraintKind::Equality(t) => c.name@ + " = "@ + term_text(t),
        AssocItemConstraintKind::Constraint(bounds) => c.name@ + ": "@ + join_seq(
            bounds_text(bounds@),
            " + "@,
        ),
    }
}

/// The texts of a sequence of constraints, in order.
pub open spec fn constraints_text(s: Seq<AssocItemConstraint>) -> Seq<Seq<char>>
    decreases s,
{
    if s.len() == 0 {
        Seq::empty()
    } else {
        constraints_text(s.subrange(0, s.len() - 1)).push(constraint_text(s[s.len() - 1]))
    }
}

/// The text of generic arguments: `<..>` (empty when there is nothing inside),
/// `(..) -> ..`, or `(..)`.
pub open spec fn args_text(a: GenericArgs) -> Seq<char>
    decreases a,
{
    match a {
        GenericArgs::AngleBracketed { args, constraints } => {
            let parts = arg_list_text(args@) + constraints_text(constraints@);
            if parts.len() == 0 {
                Seq::empty()
            } else {
                "<"@ + join_seq(parts, ", "@) + ">"@
            }
        },
        GenericArgs::Parenthesized { inputs, output } => {
            let base = "("@ + join_seq(types_text(inputs@), ", "@) + ")"@;
            match output {
                Some(out) => base + " -> "@ + type_text(out),
                Option::None => base,
            }
        },
        GenericArgs::ReturnTypeNotation => "(..)"@,
    }
}

// ── Rendering types ─────────────────────────────────────────────────────

/// `value`, or `_` when the value is unknown.
fn render_value(v: &Option<String>) -> (r: String)
    ensures
        r@ == value_or_underscore(*v),
{
    match v {
        Some(s) => copy_str(s),
        Option::None => String::from_str("_"),
    }
}

/// Renders a path with its generic arguments.
fn render_path(p: &Path) -> (r: String)
    ensures
        r@ == path_text(*p),
    decreases p,
{
    let mut s = copy_str(&p.path);
    match &p.args {
        Some(a) => {
            let rendered = render_generic_args(&**a);
            s.append(rendered.as_str());
        },
        Option::None => {},
    }
    s
}

/// Renders a type as Rust source text.
pub fn render_type(ty: &Type) -> (r: String)
    ensures
        r@ == type_text(*ty),
    decreases ty,
{
    match ty {
        Type::ResolvedPath(p) => render_path(p),
        Type::Generic(name) => copy_str(name),
        Type::Primitive(name) => copy_str(name),
        Type::BorrowedRef { lifetime, is_mutable, type_ } => {
            let mut s = String::from_str("&");
            match lifetime {
                Some(lt) => {
                    s.append(lt.as_str());
                    s.append(" ");
                },
                Option::None => {},
            }
            if *is_mutable {
                s.append("mut ");
            }
            let inner = render_type(&**type_);
            s.append(inner.as_str());
            s
        },
        Type::Tuple(types) => {
            let parts = render_types(types);
            let mut s = String::from_str("(");
            let inner = join(&parts, ", ");
            s.append(inner.as_str());
            s.append(")");
            s
        },
        Type::Slice(inner) => {
            let mut s = String::from_str("[");
            let t = render_type(&**inner);
            s.append(t.as_str());
            s.append("]");
            s
        },
        Type::Array { type_, len } => {
            let mut s = String::from_str("[");
            let t = render_type(&**type_);
            s.append(t.as_str());
            s.append("; ");
            s.append(len.as_str());
            s.append("]");
            s
        },
        Type::RawPointer { is_mutable, type_ } => {
            let mut s = if *is_mutable {
                String::from_str("*mut ")
            } else {
                String::from_str("*const ")
            };
            let t = render_type(&**type_);
            s.append(t.as_str());
            s
        },
        Type::FunctionPointer(sig) => render_fn_pointer(&**sig),
        Type::ImplTrait(bounds) => {
            let parts = render_bounds(bounds);
            let mut s = String::from_str("impl ");
            let inner = join(&parts, " + ");
            s.append(inner.as_str());
            s
        },
        Type::DynTrait(d) => {
            let parts = render_paths(&d.traits);
            let mut s = String::from_str("dyn ");
            let inner = join(&parts, " + ");
            s.append(inner.as_str());
            match &d.lifetime {
                Some(lt) => {
                    s.append(" + ");
                    s.append(lt.as_str());
                },
                Option::None => {},
            }
            s
        },
        Type::QualifiedPath { name, self_type, trait_ } => {
            let self_text = render_type(&**self_type);
            match trait_ {
                Some(tr) => {
                    if tr.path.unicode_len() > 0 {
                        let mut s = String::from_str("<");
                        s.append(self_text.as_str());
                        s.append(" as ");
                        s.append(tr.path.as_str());
                        s.append(">::");
                        s.append(name.as_str());
                        return s;
                    }
                },
                Option::None => {},
            }
            let mut s = self_text;
            s.append("::");
            s.append(name.as_str());
            s
        },
        Type::Infer => String::from_str("_"),
        Type::Pat { type_ } => render_type(&**type_),
    }
}

/// Renders a function pointer type.
fn render_fn_pointer(sig: &FunctionSignature) -> (r: String)
    ensures
        r@ == fn_pointer_text(*sig),
    decreases sig,
{
    let parts = render_inputs(&sig.inputs);
    let mut s = String::from_str("fn(");
    let inner = join(&parts, ", ");
    s.append(inner.as_str());
    s.append(")");
    match &sig.output {
        Some(out) => {
            s.append(" -> ");
            let t = render_type(out);
            s.append(t.as_str());
        },
        Option::None => {},
    }
    s
}

/// Renders each type of `v`, in order.
fn render_types(v: &Vec<Type>) -> (r: Vec<String>)
    ensures
        views(r@) == types_text(v@),
    decreases v,
{
    let mut parts: Vec<String> = Vec::new();
    let mut i: usize = 0;
    while i < v.len()
        invariant
            i <= v.len(),
            views(parts@) == types_text(v@.subrange(0, i as int)),
        decreases v.len() - i,
    {
        proof {
            assert(decreases_to!(v => v@[i as int]));
        }
        let t = render_type(&v[i]);
        parts.push(t);
        assert(v@.subrange(0, i + 1).subrange(0, i as int) =~= v@.subrange(0, i as int));
        assert(views(parts@) =~= types_text(v@.subrange(0, i + 1)));
        i = i + 1;
    }
    assert(v@.subrange(0, v.len() as int) =~= v@);
    parts
}

/// Renders the type of each named input of `v`, in order.
fn render_inputs(v: &Vec<(String, Type)>) -> (r: Vec<String>)
    ensures
        views(r@) == inputs_text(v@),
    decreases v,
{
    let mut parts: Vec<String> = Vec::new();
    let mut i: usize = 0;
    while i < v.len()
        invariant
            i <= v.len(),
            views(parts@) == inputs_text(v@.subrange(0, i as int)),
        decreases v.len() - i,
    {
        proof {
            assert(decreases_to!(v => v@[i as int]));
            assert(decreases_to!(v@[i as int] => v@[i as int].1));
        }
        let t = render_type(&v[i].1);
        parts.push(t);
        assert(v@.subrange(0, i + 1).subrange(0, i as int) =~= v@.subrange(0, i as int));
        assert(views(parts@) =~= inputs_text(v@.subrange(0, i + 1)));
        i = i + 1;
    }
    assert(v@.subrange(0, v.len() as int) =~= v@);
    parts
}

/// Renders each path of `v`, in order.
fn render_paths(v: &Vec<Path>) -> (r: Vec<String>)
    ensures
        views(r@) == paths_text(v@),
    decreases v,
{
    let mut parts: Vec<String> = Vec::new();
    let mut i: usize = 0;
    while i < v.len()
        invariant
            i <= v.len(),
            views(parts@) == paths_text(v@.subrange(0, i as int)),
        decreases v.len() - i,
    {
        proof {
            assert(decreases_to!(v => v@[i as int]));
        }
        let t = render_path(&v[i]);
        parts.push(t);
        assert(v@.subrange(0, i + 1).subrange(0, i as int) =~= v@.subrange(0, i as int));
        assert(views(parts@) =~= paths_text(v@.subrange(0, i + 1)));
        i = i + 1;
    }
    assert(v@.subrange(0, v.len() as int) =~= v@);
    parts
}

/// Renders a bound; a `use<..>` bound renders as nothing.
fn render_generic_bound(b: &GenericBound) -> (r: Option<String>)
    ensures
        match r {
            Some(s) => bound_text(*b) == Some(s@),
            Option::None => bound_text(*b) is None,
        },
    decreases b,
{
    match b {
        GenericBound::TraitBound { trait_, modifier } => {
            let mut s = match modifier {
                TraitBoundModifier::Maybe => String::from_str("?"),
                TraitBoundModifier::MaybeConst => String::from_str("~const "),
                TraitBoundModifier::Plain => String::new(),
            };
            let t = render_path(trait_);
            s.append(t.as_str());
            Some(s)
        },
        GenericBound::Outlives(lt) => Some(copy_str(lt)),
        GenericBound::Use => Option::None,
    }
}

/// Renders the bounds of `v` that render as something, in order.
fn render_bounds(v: &Vec<GenericBound>) -> (r: Vec<String>)
    ensures
        views(r@) == bounds_text(v@),
    decreases v,
{
    let mut parts: Vec<String> = Vec::new();
    let mut i: usize = 0;
    while i < v.len()
        invariant
            i <= v.len(),
            views(parts@) == bounds_text(v@.subrange(0, i as int)),
        decreases v.len() - i,
    {
        proof {
            assert(decreases_to!(v => v@[i as int]));
        }
        let t = render_generic_bound(&v[i]);
        assert(v@.subrange(0, i + 1).subrange(0, i as int) =~= v@.subrange(0, i as int));
        match t {
            Some(t) => {
                parts.push(t);
            },
            Option::None => {},
        }
        assert(views(parts@) =~= bounds_text(v@.subrange(0, i + 1)));
        i = i + 1;
    }
    assert(v@.subrange(0, v.len() as int) =~= v@);
    parts
}

/// Renders one generic argument.
fn render_generic_arg(a: &GenericArg) -> (r: String)
    ensures
        r@ == arg_text(*a),
    decreases a,
{
    match a {
        GenericArg::Lifetime(lt) => copy_str(lt),
        GenericArg::Type(t) => render_type(t),
        GenericArg::Const(v) => render_value(v),
        GenericArg::Infer => String::from_str("_"),
    }
}

/// Renders each generic argument of `v`, in order.
fn render_arg_list(v: &Vec<GenericArg>) -> (r: Vec<String>)
    ensures
        views(r@) == arg_list_text(v@),
    decreases v,
{
    let mut parts: Vec<String> = Vec::new();
    let mut i: usize = 0;
    while i < v.len()
        invariant
            i <= v.len(),
            views(parts@) == arg_list_text(v@.subrange(0, i as int)),
        decreases v.len() - i,
    {
        proof {
            assert(decreases_to!(v => v@[i as int]));
        }
        let t = render_generic_arg(&v[i]);
        parts.push(t);
        assert(v@.subrange(0, i + 1).subrange(0, i as int) =~= v@.subrange(0, i as int));
        assert(views(parts@) =~= arg_list_text(v@.subrange(0, i + 1)));
        i = i + 1;
    }
    assert(v@.subrange(0, v.len() as int) =~= v@);
    parts
}

/// Renders a term.
fn render_term(t: &Term) -> (r: String)
    ensures
        r@ == term_text(*t),
    decreases t,
{
    match t {
        Term::Type(ty) => render_type(ty),
        Term::Constant(v) => render_value(v),
    }
}

/// Renders an associated item constraint.
fn render_constraint(c: &AssocItemConstraint) -> (r: String)
    ensures
        r@ == constraint_text(*c),
    decreases c,
{
    let mut s = copy_str(&c.name);
    match &c.binding {
        AssocItemConstraintKind::Equality(t) => {
            s.append(" = ");
            let rendered = render_term(t);
            s.append(rendered.as_str());
        },
        AssocItemConstraintKind::Constraint(bounds) => {
            s.append(": ");
            let parts = render_bounds(bounds);
            let rendered = join(&parts, " + ");
            s.append(rendered.as_str());
        },
    }
    s
}

/// Renders each constraint of `v`, in order.
fn render_constraints(v: &Vec<AssocItemConstraint>) -> (r: Vec<String>)
    ensures
        views(r@) == constraints_text(v@),
    decreases v,
{
    let mut parts: Vec<String> = Vec::new();
    let mut i: usize = 0;
    while i < v.len()
        invariant
            i <= v.len(),
            views(parts@) == constraints_text(v@.subrange(0, i as int)),
        decreases v.len() - i,
    {
        proof {
            assert(decreases_to!(v => v@[i as int]));
        }
        let t = render_constraint(&v[i]);
        parts.push(t);
        assert(v@.subrange(0, i + 1).subrange(0, i as int) =~= v@.subrange(0, i as int));
        assert(views(parts@) =~= constraints_text(v@.subrange(0, i + 1)));
        i = i + 1;
    }
    assert(v@.subrange(0, v.len() as int) =~= v@);
    parts
}

/// Renders generic arguments.
fn render_generic_args(a: &GenericArgs) -> (r: String)
    ensures
        r@ == args_text(*a),
    decreases a,
{
    match a {
        GenericArgs::AngleBracketed { args, constraints } => {
            let mut parts = render_arg_list(args);
            let mut more = render_constraints(constraints);
            let ghost p1 = parts@;
            let ghost p2 = more@;
            parts.append(&mut more);
            assert(views(parts@) =~= views(p1) + views(p2));
            if parts.len() == 0 {
                String::new()
            } else {
                let mut s = String::from_str("<");
                let inner = join(&parts, ", ");
                s.append(inner.as_str());
                s.append(">");
                s
            }
        },
        GenericArgs::Parenthesized { inputs, output } => {
            let parts = render_types(inputs);
            let mut s = String::from_str("(");
            let inner = join(&parts, ", ");
            s.append(inner.as_str());
            s.append(")");
            match output {
                Some(out) => {
                    s.append(" -> ");
                    let t = render_type(out);
                    s.append(t.as_str());
                },
                Option::None => {},
            }
            s
        },
        GenericArgs::ReturnTypeNotation => String::from_str("(..)"),
    }
}

// ── Generics, visibility and signatures ─────────────────────────────────

/// The text of a generic parameter; a synthetic one (from `impl Trait` in
/// argument position) has none.
pub open spec fn param_text(p: GenericParamDef) -> Option<Seq<char>> {
    match p.kind {
        GenericParamDefKind::Lifetime { outlives } => Some(
            if outlives.len() == 0 {
                p.name@
            } else {
                p.name@ + ": "@ + join_seq(views(outlives@), " + "@)
            },
        ),
        GenericParamDefKind::Type { bounds, default, is_synthetic } => if is_synthetic {
            Option::None
        } else {
            let bs = bounds_text(bounds@);
            let with_bounds = if bs.len() == 0 {
                p.name@
            } else {
                p.name@ + ": "@ + join_seq(bs, " + "@)
            };
            Some(
                match default {
                    Some(d) => with_bounds + " = "@ + type_text(d),
                    Option::None => with_bounds,
                },
            )
        },
        GenericParamDefKind::Const { type_, default } => Some(
            "const "@ + p.name@ + ": "@ + type_text(type_) + match default {
                Some(d) => " = "@ + d@,
                Option::None => Seq::empty(),
            },
        ),
    }
}

/// The texts of the parameters of `s` that have one, in order.
pub open spec fn params_text(s: Seq<GenericParamDef>) -> Seq<Seq<char>>
    decreases s.len(),
{
    if s.len() == 0 {
        Seq::empty()
    } else {
        let rest = params_text(s.drop_last());
        match param_text(s.last()) {
            Some(t) => rest.push(t),
            Option::None => rest,
        }
    }
}

/// The generic parameter list `<..>`, or nothing when no parameter is shown.
pub open spec fn generics_params_text(g: Generics) -> Seq<char> {
    let ps = params_text(g.params@);
    if ps.len() == 0 {
        Seq::empty()
    } else {
        "<"@ + join_seq(ps, ", "@) + ">"@
    }
}

/// The text of a `where` predicate; a bound predicate whose bounds all render
/// as nothing has none.
pub open spec fn predicate_text(p: WherePredicate) -> Option<Seq<char>> {
    match p {
        WherePredicate::BoundPredicate { type_, bounds } => {
            let bs = bounds_text(bounds@);
            if bs.len() == 0 {
                Option::None
            } else {
                Some(type_text(type_) + ": "@ + join_seq(bs, " + "@))
            }
        },
        WherePredicate::LifetimePredicate { lifetime, outlives } => Some(
            lifetime@ + ": "@ + join_seq(views(outlives@), " + "@),
        ),
        WherePredicate::EqPredicate { lhs, rhs } => Some(type_text(lhs) + " = "@ + term_text(rhs)),
    }
}

/// The texts of the predicates of `s` that have one, in order.
pub open spec fn predicates_text(s: Seq<WherePredicate>) -> Seq<Seq<char>>
    decreases s.len(),
{
    if s.len() == 0 {
        Seq::empty()
    } else {
        let rest = predicates_text(s.drop_last());
        match predicate_text(s.last()) {
            Some(t) => rest.push(t),
            Option::None => rest,
        }
    }
}

/// The `where` clause on lines of its own, or nothing when no predicate is shown.
pub open spec fn where_text(g: Generics) -> Seq<char> {
    let ps = predicates_text(g.where_predicates@);
    if ps.len() == 0 {
        Seq::empty()
    } else {
        "\nwhere\n    "@ + join_seq(ps, ",\n    "@)
    }
}

/// The visibility qualifier, with a trailing space when there is one.
pub open spec fn visibility_text(v: Visibility) -> Seq<char> {
    match v {
        Visibility::Public => "pub "@,
        Visibility::Crate => "pub(crate) "@,
        Visibility::Restricted { path } => "pub(in "@ + path@ + ") "@,
        Visibility::Default => Seq::empty(),
    }
}

/// The text of one function input, given its name and the text of its type;
/// `self` inputs of the usual types are shortened.
pub open spec fn input_text(name: Seq<char>, ty: Seq<char>) -> Seq<char> {
    if name == "self"@ {
        if ty == "Self"@ {
            "self"@
        } else if ty == "&Self"@ {
            "&self"@
        } else if ty == "&mut Self"@ {
            "&mut self"@
        } else {
            "self: "@ + ty
        }
    } else {
        name + ": "@ + ty
    }
}

/// The texts of the inputs of a signature, in order.
pub open spec fn sig_inputs_text(s: Seq<(String, Type)>) -> Seq<Seq<char>>
    decreases s.len(),
{
    if s.len() == 0 {
        Seq::empty()
    } else {
        sig_inputs_text(s.drop_last()).push(input_text(s.last().0@, type_text(s.last().1)))
    }
}

/// The signature of a function item: visibility, qualifiers, name, generics,
/// inputs, output and `where` clause.
#[verifier::opaque]
pub open spec fn fn_sig_text(item: Item, f: Function) -> Seq<char> {
    visibility_text(item.visibility) + (if f.header.is_const {
        "const "@
    } else {
        Seq::empty()
    }) + (if f.header.is_async {
        "async "@
    } else {
        Seq::empty()
    }) + (if f.header.is_unsafe {
        "unsafe "@
    } else {
        Seq::empty()
    }) + "fn "@ + value_or_underscore(item.name) + generics_params_text(f.generics) + "("@
        + join_seq(sig_inputs_text(f.sig.inputs@), ", "@) + ")"@ + match f.sig.output {
        Some(out) => " -> "@ + type_text(out),
        Option::None => Seq::empty(),
    } + where_text(f.generics)
}

/// Renders a generic parameter.
fn render_param(p: &GenericParamDef) -> (r: Option<String>)
    ensures
        match r {
            Some(s) => param_text(*p) == Some(s@),
            Option::None => param_text(*p) is None,
        },
{
    match &p.kind {
        GenericParamDefKind::Lifetime { outlives } => {
            let mut s = copy_str(&p.name);
            if outlives.len() != 0 {
                s.append(": ");
                let j = join(outlives, " + ");
                s.append(j.as_str());
            }
            Some(s)
        },
        GenericParamDefKind::Type { bounds, default, is_synthetic } => {
            if *is_synthetic {
                return Option::None;
            }
            let mut s = copy_str(&p.name);
            let rendered = render_bounds(bounds);
            if rendered.len() != 0 {
                s.append(": ");
                let j = join(&rendered, " + ");
                s.append(j.as_str());
            }
            match default {
                Some(d) => {
                    s.append(" = ");
                    let t = render_type(d);
                    s.append(t.as_str());
                },
                Option::None => {},
            }
            Some(s)
        },
        GenericParamDefKind::Const { type_, default } => {
            let mut s = String::from_str("const ");
            s.append(p.name.as_str());
            s.append(": ");
            let t = render_type(type_);
            s.append(t.as_str());
            match default {
                Some(d) => {
                    s.append(" = ");
                    s.append(d.as_str());
                },
                Option::None => {},
            }
            Some(s)
        },
    }
}

/// Renders the generic parameter list of an item, e.g. `<T: Clone, 'a>`;
/// empty when no parameter is shown.
pub fn render_generics_params(generics: &Generics) -> (r: String)
    ensures
        r@ == generics_params_text(*generics),
{
    let v = &generics.params;
    let mut parts: Vec<String> = Vec::new();
    let mut i: usize = 0;
    while i < v.len()
        invariant
            i <= v.len(),
            v == &generics.params,
            views(parts@) == params_text(v@.take(i as int)),
        decreases v.len() - i,
    {
        assert(v@.take(i + 1).drop_last() =~= v@.take(i as int));
        assert(v@.take(i + 1).last() == v@[i as int]);
        match render_param(&v[i]) {
            Some(t) => {
                let ghost before = parts@;
                parts.push(t);
                proof {
                    lemma_views_push(before, t);
                }
            },
            Option::None => {},
        }
        i = i + 1;
    }
    assert(v@.take(v.len() as int) =~= v@);
    if parts.len() == 0 {
        String::new()
    } else {
        let mut s = String::from_str("<");
        let j = join(&parts, ", ");
        s.append(j.as_str());
        s.append(">");
        s
    }
}

/// Renders a `where` predicate.
fn render_predicate(p: &WherePredicate) -> (r: Option<String>)
    ensures
        match r {
            Some(s) => predicate_text(*p) == Some(s@),
            Option::None => predicate_text(*p) is None,
        },
{
    match p {
        WherePredicate::BoundPredicate { type_, bounds } => {
            let rendered = render_bounds(bounds);
            if rendered.len() == 0 {
                Option::None
            } else {
                let mut s = render_type(type_);
                s.append(": ");
                let j = join(&rendered, " + ");
                s.append(j.as_str());
                Some(s)
            }
        },
        WherePredicate::LifetimePredicate { lifetime, outlives } => {
            let mut s = copy_str(lifetime);
            s.append(": ");
            let j = join(outlives, " + ");
            s.append(j.as_str());
            Some(s)
        },
        WherePredicate::EqPredicate { lhs, rhs } => {
            let mut s = render_type(lhs);
            s.append(" = ");
            let t = render_term(rhs);
            s.append(t.as_str());
            Some(s)
        },
    }
}

/// Renders the `where` clause of an item on lines of its own; empty when no
/// predicate is shown.
pub fn render_where_clause(generics: &Generics) -> (r: String)
    ensures
        r@ == where_text(*generics),
{
    let v = &generics.where_predicates;
    let mut parts: Vec<String> = Vec::new();
    let mut i: usize = 0;
    while i < v.len()
        invariant
            i <= v.len(),
            v == &generics.where_predicates,
            views(parts@) == predicates_text(v@.take(i as int)),
        decreases v.len() - i,
    {
        assert(v@.take(i + 1).drop_last() =~= v@.take(i as int));
        assert(v@.take(i + 1).last() == v@[i as int]);
        match render_predicate(&v[i]) {
            Some(t) => {
                let ghost before = parts@;
                parts.push(t);
                proof {
                    lemma_views_push(before, t);
                }
            },
            Option::None => {},
        }
        i = i + 1;
    }
    assert(v@.take(v.len() as int) =~= v@);
    if parts.len() == 0 {
        String::new()
    } else {
        let mut s = String::from_str("\nwhere\n    ");
        let j = join(&parts, ",\n    ");
        s.append(j.as_str());
        s
    }
}

/// Renders a visibility qualifier.
fn render_visibility(vis: &Visibility) -> (r: String)
    ensures
        r@ == visibility_text(*vis),
{
    match vis {
        Visibility::Public => String::from_str("pub "),
        Visibility::Crate => String::from_str("pub(crate) "),
        Visibility::Restricted { path } => {
            let mut s = String::from_str("pub(in ");
            s.append(path.as_str());
            s.append(") ");
            s
        },
        Visibility::Default => String::new(),
    }
}

/// Renders one function input.
fn render_input(name: &String, ty: &Type) -> (r: String)
    ensures
        r@ == input_text(name@, type_text(*ty)),
{
    let ty_str = render_type(ty);
    if str_equal(name.as_str(), "self") {
        if str_equal(ty_str.as_str(), "Self") {
            String::from_str("self")
        } else if str_equal(ty_str.as_str(), "&Self") {
            String::from_str("&self")
        } else if str_equal(ty_str.as_str(), "&mut Self") {
            String::from_str("&mut self")
        } else {
            let mut s = String::from_str("self: ");
            s.append(ty_str.as_str());
            s
        }
    } else {
        let mut s = copy_str(name);
        s.append(": ");
        s.append(ty_str.as_str());
        s
    }
}

/// Renders the signature of a function item.
pub fn render_function_sig(item: &Item, func: &Function) -> (r: String)
    ensures
        r@ == fn_sig_text(*item, *func),
{
    reveal(fn_sig_text);
    let mut s = render_visibility(&item.visibility);
    if func.header.is_const {
        s.append("const ");
    }
    if func.header.is_async {
        s.append("async ");
    }
    if func.header.is_unsafe {
        s.append("unsafe ");
    }
    s.append("fn ");
    let name = render_value(&item.name);
    s.append(name.as_str());
    let g = render_generics_params(&func.generics);
    s.append(g.as_str());
    let v = &func.sig.inputs;
    let mut args: Vec<String> = Vec::new();
    let mut i: usize = 0;
    while i < v.len()
        invariant
            i <= v.len(),
            v == &func.sig.inputs,
            views(args@) == sig_inputs_text(v@.take(i as int)),
        decreases v.len() - i,
    {
        assert(v@.take(i + 1).drop_last() =~= v@.take(i as int));
        assert(v@.take(i + 1).last() == v@[i as int]);
        let a = render_input(&v[i].0, &v[i].1);
        let ghost before = args@;
        args.push(a);
        proof {
            lemma_views_push(before, a);
        }
        i = i + 1;
    }
    assert(v@.take(v.len() as int) =~= v@);
    s.append("(");
    let j = join(&args, ", ");
    s.append(j.as_str());
    s.append(")");
    match &func.sig.output {
        Some(out) => {
            s.append(" -> ");
            let t = render_type(out);
            s.append(t.as_str());
        },
        Option::None => {},
    }
    let w = render_where_clause(&func.generics);
    s.append(w.as_str());
    s
}

// ── Items ───────────────────────────────────────────────────────────────

/// The first non-blank line of an item's docs, trimmed.
pub open spec fn doc_line(docs: Option<String>) -> Option<Seq<char>> {
    match docs {
        Some(d) => first_text_line(d@),
        Option::None => Option::None,
    }
}

/// The first non-blank line of `docs`, trimmed.
fn first_doc_line(docs: &Option<String>) -> (r: Option<String>)
    ensures
        opt_view(r) == doc_line(*docs),
{
    match docs {
        Some(d) => first_line(d.as_str()),
        Option::None => Option::None,
    }
}

/// The names of the documented, named items among `ids`, in order.
pub open spec fn item_names(k: Crate, ids: Seq<Id>) -> Seq<Seq<char>>
    decreases ids.len(),
{
    if ids.len() == 0 {
        Seq::empty()
    } else {
        let rest = item_names(k, ids.drop_last());
        match item_at(k, ids.last()) {
            Some(v) => match v.name {
                Some(n) => rest.push(n@),
                Option::None => rest,
            },
            Option::None => rest,
        }
    }
}

/// The inline list of variant names of an enum: at most five names, and a
/// count of the others.
pub open spec fn variants_preview(names: Seq<Seq<char>>) -> Seq<char> {
    if names.len() == 0 {
        Seq::empty()
    } else {
        let shown = if names.len() <= 5 {
            names
        } else {
            names.take(5)
        };
        let more = if names.len() > 5 {
            ", /* ... "@ + decimal((names.len() - 5) as nat) + " more */"@
        } else {
            Seq::empty()
        };
        " { "@ + join_seq(shown, ", "@) + more + " }"@
    }
}

/// One line per function among the items `ids`, indented, with `;`.
pub open spec fn trait_fns_text(k: Crate, ids: Seq<Id>) -> Seq<char>
    decreases ids.len(),
{
    if ids.len() == 0 {
        Seq::empty()
    } else {
        trait_fns_text(k, ids.drop_last()) + match item_at(k, ids.last()) {
            Some(a) => match a.inner {
                ItemEnum::Function(f) => "    "@ + fn_sig_text(a, f) + ";\n"@,
                _ => Seq::empty(),
            },
            Option::None => Seq::empty(),
        }
    }
}

/// The summary of an item: its declaration on one line (a trait with the
/// signatures of its functions), then its first doc line after a blank line.
pub open spec fn summary_text(k: Crate, item: Item) -> Seq<char> {
    let vis = visibility_text(item.visibility);
    let name = value_or_underscore(item.name);
    let head = match item.inner {
        ItemEnum::Function(f) => fn_sig_text(item, f) + "\n"@,
        ItemEnum::Struct(st) => vis + "struct "@ + name + generics_params_text(st.generics)
            + match st.kind {
            StructKind::Unit => Seq::empty(),
            StructKind::Tuple => "(...)"@,
            StructKind::Plain { .. } => " { /* fields */ }"@,
        } + where_text(st.generics) + "\n"@,
        ItemEnum::Enum(e) => vis + "enum "@ + name + generics_params_text(e.generics) + variants_preview(
            item_names(k, e.variants@),
        ) + where_text(e.generics) + "\n"@,
        ItemEnum::Trait(t) => {
            let bs = bounds_text(t.bounds@);
            vis + (if t.is_unsafe {
                "unsafe "@
            } else {
                Seq::empty()
            }) + "trait "@ + name + generics_params_text(t.generics) + (if bs.len() == 0 {
                Seq::empty()
            } else {
                ": "@ + join_seq(bs, " + "@)
            }) + where_text(t.generics) + " {\n"@ + trait_fns_text(k, t.items@) + "}\n"@
        },
        ItemEnum::TypeAlias(ta) => vis + "type "@ + name + generics_params_text(ta.generics) + " = "@
            + type_text(ta.type_) + ";\n"@,
        ItemEnum::Constant { type_, value } => vis + "const "@ + name + ": "@ + type_text(type_)
            + match value {
            Some(v) => " = "@ + v@,
            Option::None => Seq::empty(),
        } + ";\n"@,
        ItemEnum::Module(_) => vis + "mod "@ + name + "\n"@,
        _ => match item.name {
            Some(n) => n@ + "\n"@,
            Option::None => Seq::empty(),
        },
    };
    head + match doc_line(item.docs) {
        Some(l) => "\n"@ + l + "\n"@,
        Option::None => Seq::empty(),
    }
}

/// The names of the documented, named items among `ids`.
fn collect_names(krate: &Crate, ids: &Vec<Id>) -> (r: Vec<String>)
    ensures
        views(r@) == item_names(*krate, ids@),
{
    let mut names: Vec<String> = Vec::new();
    let mut i: usize = 0;
    while i < ids.len()
        invariant
            i <= ids.len(),
            views(names@) == item_names(*krate, ids@.take(i as int)),
        decreases ids.len() - i,
    {
        assert(ids@.take(i + 1).drop_last() =~= ids@.take(i as int));
        assert(ids@.take(i + 1).last() == ids@[i as int]);
        match get_item(krate, ids[i]) {
            Some(v) => match &v.name {
                Some(n) => {
                    let c = copy_str(n);
                    let ghost before = names@;
                    names.push(c);
                    proof {
                        lemma_views_push(before, c);
                    }
                },
                Option::None => {},
            },
            Option::None => {},
        }
        i = i + 1;
    }
    assert(ids@.take(ids.len() as int) =~= ids@);
    names
}

/// Renders the inline list of variant names of an enum.
fn render_variants_preview(names: &mut Vec<String>) -> (r: String)
    ensures
        r@ == variants_preview(views(old(names)@)),
{
    let ghost all = views(names@);
    if names.len() == 0 {
        return String::new();
    }
    let total = names.len();
    if total > 5 {
        names.truncate(5);
        assert(views(names@) =~= all.take(5));
    }
    let mut s = String::from_str(" { ");
    let j = join(names, ", ");
    s.append(j.as_str());
    if total > 5 {
        s.append(", /* ... ");
        let d = to_decimal(total - 5);
        s.append(d.as_str());
        s.append(" more */");
    }
    s.append(" }");
    s
}

/// Appends the signatures of the functions among `ids`, one per line.
fn push_trait_fns(krate: &Crate, ids: &Vec<Id>, out: &mut String)
    ensures
        final(out)@ == old(out)@ + trait_fns_text(*krate, ids@),
{
    let ghost start = out@;
    let mut i: usize = 0;
    while i < ids.len()
        invariant
            i <= ids.len(),
            out@ == start + trait_fns_text(*krate, ids@.take(i as int)),
        decreases ids.len() - i,
    {
        assert(ids@.take(i + 1).drop_last() =~= ids@.take(i as int));
        assert(ids@.take(i + 1).last() == ids@[i as int]);
        match get_item(krate, ids[i]) {
            Some(a) => match &a.inner {
                ItemEnum::Function(f) => {
                    out.append("    ");
                    let sig = render_function_sig(a, f);
                    out.append(sig.as_str());
                    out.append(";\n");
                },
                _ => {},
            },
            Option::None => {},
        }
        i = i + 1;
    }
    assert(ids@.take(ids.len() as int) =~= ids@);
}

/// Renders an item in summary mode: its declaration and its first doc line.
#[verifier::rlimit(40)]
pub fn render_item_summary(item: &Item, krate: &Crate) -> (r: String)
    ensures
        r@ == summary_text(*krate, *item),
{
    let mut out = String::new();
    match &item.inner {
        ItemEnum::Function(func) => {
            let sig = render_function_sig(item, func);
            out.append(sig.as_str());
            out.append("\n");
        },
        ItemEnum::Struct(st) => {
            let vis = render_visibility(&item.visibility);
            out.append(vis.as_str());
            out.append("struct ");
            let name = render_value(&item.name);
            out.append(name.as_str());
            let g = render_generics_params(&st.generics);
            out.append(g.as_str());
            match &st.kind {
                StructKind::Unit => {},
                StructKind::Tuple => {
                    out.append("(...)");
                },
                StructKind::Plain { .. } => {
                    out.append(" { /* fields */ }");
                },
            }
            let w = render_where_clause(&st.generics);
            out.append(w.as_str());
            out.append("\n");
        },
        ItemEnum::Enum(e) => {
            let vis = render_visibility(&item.visibility);
            out.append(vis.as_str());
            out.append("enum ");
            let name = render_value(&item.name);
            out.append(name.as_str());
            let g = render_generics_params(&e.generics);
            out.append(g.as_str());
            let mut names = collect_names(krate, &e.variants);
            let preview = render_variants_preview(&mut names);
            out.append(preview.as_str());
            let w = render_where_clause(&e.generics);
            out.append(w.as_str());
            out.append("\n");
        },
        ItemEnum::Trait(t) => {
            let vis = render_visibility(&item.visibility);
            out.append(vis.as_str());
            if t.is_unsafe {
                out.append("unsafe ");
            }
            out.append("trait ");
            let name = render_value(&item.name);
            out.append(name.as_str());
            let g = render_generics_params(&t.generics);
            out.append(g.as_str());
            let rendered = render_bounds(&t.bounds);
            if rendered.len() != 0 {
                out.append(": ");
                let j = join(&rendered, " + ");
                out.append(j.as_str());
            }
            let w = render_where_clause(&t.generics);
            out.append(w.as_str());
            out.append(" {\n");
            push_trait_fns(krate, &t.items, &mut out);
            out.append("}\n");
        },
        ItemEnum::TypeAlias(ta) => {
            let vis = render_visibility(&item.visibility);
            out.append(vis.as_str());
            out.append("type ");
            let name = render_value(&item.name);
            out.append(name.as_str());
            let g = render_generics_params(&ta.generics);
            out.append(g.as_str());
            out.append(" = ");
            let t = render_type(&ta.type_);
            out.append(t.as_str());
            out.append(";\n");
        },
        ItemEnum::Constant { type_, value } => {
            let vis = render_visibility(&item.visibility);
            out.append(vis.as_str());
            out.append("const ");
            let name = render_value(&item.name);
            out.append(name.as_str());
            out.append(": ");
            let t = render_type(type_);
            out.append(t.as_str());
            match value {
                Some(v) => {
                    out.append(" = ");
                    out.append(v.as_str());
                },
                Option::None => {},
            }
            out.append(";\n");
        },
        ItemEnum::Module(_) => {
            let vis = render_visibility(&item.visibility);
            out.append(vis.as_str());
            out.append("mod ");
            let name = render_value(&item.name);
            out.append(name.as_str());
            out.append("\n");
        },
        _ => match &item.name {
            Some(n) => {
                out.append(n.as_str());
                out.append("\n");
            },
            Option::None => {},
        },
    }
    match first_doc_line(&item.docs) {
        Some(line) => {
            out.append("\n");
            out.append(line.as_str());
            out.append("\n");
        },
        Option::None => {},
    }
    out
}

// ── Full documentation ──────────────────────────────────────────────────

/// The lines of an item's fields: name and type, and the first doc line below.
pub open spec fn fields_text(k: Crate, ids: Seq<Id>) -> Seq<char>
    decreases ids.len(),
{
    if ids.len() == 0 {
        Seq::empty()
    } else {
        fields_text(k, ids.drop_last()) + match item_at(k, ids.last()) {
            Some(f) => match f.inner {
                ItemEnum::StructField(ty) => "  "@ + value_or_underscore(f.name) + ": "@ + type_text(
                    ty,
                ) + "\n"@ + match doc_line(f.docs) {
                    Some(l) => "    "@ + l + "\n"@,
                    Option::None => Seq::empty(),
                },
                _ => Seq::empty(),
            },
            Option::None => Seq::empty(),
        }
    }
}

/// The lines of an enum's variants: name, and the first doc line below.
pub open spec fn variants_text(k: Crate, ids: Seq<Id>) -> Seq<char>
    decreases ids.len(),
{
    if ids.len() == 0 {
        Seq::empty()
    } else {
        variants_text(k, ids.drop_last()) + match item_at(k, ids.last()) {
            Some(v) => "  "@ + value_or_underscore(v.name) + "\n"@ + match doc_line(v.docs) {
                Some(l) => "    "@ + l + "\n"@,
                Option::None => Seq::empty(),
            },
            Option::None => Seq::empty(),
        }
    }
}

/// The number of groups under which a module's children are listed.
pub open spec fn n_groups() -> nat {
    11
}

/// The group under which a module lists a child of this item's kind.
pub open spec fn group_of(it: Item) -> nat {
    match it.inner {
        ItemEnum::Module(_) => 0,
        ItemEnum::Struct(_) => 1,
        ItemEnum::Enum(_) => 2,
        ItemEnum::Union(_) => 3,
        ItemEnum::Trait(_) => 4,
        ItemEnum::Function(_) => 5,
        ItemEnum::TypeAlias(_) => 6,
        ItemEnum::Constant { .. } => 7,
        ItemEnum::Other(kind) => if kind == ItemKind::Macro || kind == ItemKind::ProcAttribute
            || kind == ItemKind::ProcDerive {
            8
        } else {
            9
        },
        _ => 9,
    }
}

/// The heading of a group of module children.
pub open spec fn group_heading(g: nat) -> Seq<char> {
    if g == 0 {
        "Modules"@
    } else if g == 1 {
        "Structs"@
    } else if g == 2 {
        "Enums"@
    } else if g == 3 {
        "Unions"@
    } else if g == 4 {
        "Traits"@
    } else if g == 5 {
        "Functions"@
    } else if g == 6 {
        "Type Aliases"@
    } else if g == 7 {
        "Constants"@
    } else if g == 8 {
        "Macros"@
    } else if g == 9 {
        "Other items"@
    } else {
        "Re-exports"@
    }
}

/// How a module lists one of its children: the group and the name. A `use`
/// item is listed under its own name, in the group of the item it refers to,
/// or under re-exports when that item is not documented. Unnamed items are not listed.
pub open spec fn child_entry(k: Crate, it: Item) -> Option<(nat, Seq<char>)> {
    match it.inner {
        ItemEnum::Use(u) => match u.id {
            Some(id) => match item_at(k, id) {
                Some(t) => Some((group_of(t), u.name@)),
                Option::None => Some((10, u.name@)),
            },
            Option::None => Some((10, u.name@)),
        },
        _ => match it.name {
            Some(n) => Some((group_of(it), n@)),
            Option::None => Option::None,
        },
    }
}

/// The names of the children among `ids` listed in group `g`, in order.
pub open spec fn group_names(k: Crate, ids: Seq<Id>, g: nat) -> Seq<Seq<char>>
    decreases ids.len(),
{
    if ids.len() == 0 {
        Seq::empty()
    } else {
        let rest = group_names(k, ids.drop_last(), g);
        match item_at(k, ids.last()) {
            Some(it) => match child_entry(k, it) {
                Some((cg, n)) => if cg == g {
                    rest.push(n)
                } else {
                    rest
                },
                Option::None => rest,
            },
            Option::None => rest,
        }
    }
}

/// One indented line per name.
pub open spec fn name_lines(names: Seq<Seq<char>>) -> Seq<char>
    decreases names.len(),
{
    if names.len() == 0 {
        Seq::empty()
    } else {
        name_lines(names.drop_last()) + "  "@ + names.last() + "\n"@
    }
}

/// The listing of the first `n` groups of the children `ids`; a group with no
/// child is left out.
pub open spec fn groups_text(k: Crate, ids: Seq<Id>, n: nat) -> Seq<char>
    decreases n,
{
    if n == 0 {
        Seq::empty()
    } else {
        let names = group_names(k, ids, (n - 1) as nat);
        groups_text(k, ids, (n - 1) as nat) + if names.len() == 0 {
            Seq::empty()
        } else {
            "\n"@ + group_heading((n - 1) as nat) + ":\n"@ + name_lines(names)
        }
    }
}

/// `out` without the line `line` (and its newline) at its end, if it ends so.
pub open spec fn without_last_line(out: Seq<char>, line: Option<Seq<char>>) -> Seq<char> {
    match line {
        Some(l) => {
            let n = l.len() + 1;
            if out.len() >= n && out.subrange(out.len() - n, out.len() as int) == l + "\n"@ {
                out.subrange(0, out.len() - n)
            } else {
                out
            }
        },
        Option::None => out,
    }
}

/// The full documentation of an item: its summary with the first doc line
/// replaced by the whole docs (trimmed), then the fields of a plain struct, the
/// variants of an enum, or the children of a module, grouped by kind.
pub open spec fn full_text(k: Crate, item: Item) -> Seq<char> {
    let out0 = summary_text(k, item);
    let out1 = match item.docs {
        Some(d) => without_last_line(out0, first_text_line(d@)) + trim(d@) + "\n"@,
        Option::None => out0,
    };
    out1 + match item.inner {
        ItemEnum::Struct(st) => match st.kind {
            StructKind::Plain { fields } => if fields.len() > 0 {
                "\nFields:\n"@ + fields_text(k, fields@)
            } else {
                Seq::empty()
            },
            _ => Seq::empty(),
        },
        ItemEnum::Enum(e) => "\nVariants:\n"@ + variants_text(k, e.variants@),
        ItemEnum::Module(m) => groups_text(k, m.items@, n_groups()),
        _ => Seq::empty(),
    }
}

/// Appends the lines of the fields `ids`.
fn push_fields(krate: &Crate, ids: &Vec<Id>, out: &mut String)
    ensures
        final(out)@ == old(out)@ + fields_text(*krate, ids@),
{
    let ghost start = out@;
    let mut i: usize = 0;
    while i < ids.len()
        invariant
            i <= ids.len(),
            out@ == start + fields_text(*krate, ids@.take(i as int)),
        decreases ids.len() - i,
    {
        assert(ids@.take(i + 1).drop_last() =~= ids@.take(i as int));
        assert(ids@.take(i + 1).last() == ids@[i as int]);
        match get_item(krate, ids[i]) {
            Some(f) => match &f.inner {
                ItemEnum::StructField(ty) => {
                    out.append("  ");
                    let name = render_value(&f.name);
                    out.append(name.as_str());
                    out.append(": ");
                    let t = render_type(ty);
                    out.append(t.as_str());
                    out.append("\n");
                    match first_doc_line(&f.docs) {
                        Some(l) => {
                            out.append("    ");
                            out.append(l.as_str());
                            out.append("\n");
                        },
                        Option::None => {},
                    }
                },
                _ => {},
            },
            Option::None => {},
        }
        i = i + 1;
    }
    assert(ids@.take(ids.len() as int) =~= ids@);
}

/// Appends the lines of the variants `ids`.
fn push_variants(krate: &Crate, ids: &Vec<Id>, out: &mut String)
    ensures
        final(out)@ == old(out)@ + variants_text(*krate, ids@),
{
    let ghost start = out@;
    let mut i: usize = 0;
    while i < ids.len()
        invariant
            i <= ids.len(),
            out@ == start + variants_text(*krate, ids@.take(i as int)),
        decreases ids.len() - i,
    {
        assert(ids@.take(i + 1).drop_last() =~= ids@.take(i as int));
        assert(ids@.take(i + 1).last() == ids@[i as int]);
        match get_item(krate, ids[i]) {
            Some(v) => {
                out.append("  ");
                let name = render_value(&v.name);
                out.append(name.as_str());
                out.append("\n");
                match first_doc_line(&v.docs) {
                    Some(l) => {
                        out.append("    ");
                        out.append(l.as_str());
                        out.append("\n");
                    },
                    Option::None => {},
                }
            },
            Option::None => {},
        }
        i = i + 1;
    }
    assert(ids@.take(ids.len() as int) =~= ids@);
}

/// The group under which a module lists a child of this item's kind.
fn item_group(it: &Item) -> (r: usize)
    ensures
        r == group_of(*it),
{
    match &it.inner {
        ItemEnum::Module(_) => 0,
        ItemEnum::Struct(_) => 1,
        ItemEnum::Enum(_) => 2,
        ItemEnum::Union(_) => 3,
        ItemEnum::Trait(_) => 4,
        ItemEnum::Function(_) => 5,
        ItemEnum::TypeAlias(_) => 6,
        ItemEnum::Constant { .. } => 7,
        ItemEnum::Other(kind) => match kind {
            ItemKind::Macro | ItemKind::ProcAttribute | ItemKind::ProcDerive => 8,
            _ => 9,
        },
        _ => 9,
    }
}

/// How a module lists the child `it`: its group and name.
fn child_of(krate: &Crate, it: &Item) -> (r: Option<(usize, String)>)
    ensures
        match r {
            Some((g, n)) => child_entry(*krate, *it) == Some((g as nat, n@)),
            Option::None => child_entry(*krate, *it) is None,
        },
{
    match &it.inner {
        ItemEnum::Use(u) => {
            let g = match u.id {
                Some(id) => match get_item(krate, id) {
                    Some(t) => item_group(t),
                    Option::None => 10,
                },
                Option::None => 10,
            };
            Some((g, copy_str(&u.name)))
        },
        _ => match &it.name {
            Some(n) => Some((item_group(it), copy_str(n))),
            Option::None => Option::None,
        },
    }
}

/// The heading of a group of module children.
fn render_group_heading(g: usize) -> (r: String)
    ensures
        r@ == group_heading(g as nat),
{
    if g == 0 {
        String::from_str("Modules")
    } else if g == 1 {
        String::from_str("Structs")
    } else if g == 2 {
        String::from_str("Enums")
    } else if g == 3 {
        String::from_str("Unions")
    } else if g == 4 {
        String::from_str("Traits")
    } else if g == 5 {
        String::from_str("Functions")
    } else if g == 6 {
        String::from_str("Type Aliases")
    } else if g == 7 {
        String::from_str("Constants")
    } else if g == 8 {
        String::from_str("Macros")
    } else if g == 9 {
        String::from_str("Other items")
    } else {
        String::from_str("Re-exports")
    }
}

/// The names of the children among `ids` listed in group `g`.
fn collect_group(krate: &Crate, ids: &Vec<Id>, g: usize) -> (r: Vec<String>)
    ensures
        views(r@) == group_names(*krate, ids@, g as nat),
{
    let mut names: Vec<String> = Vec::new();
    let mut i: usize = 0;
    while i < ids.len()
        invariant
            i <= ids.len(),
            views(names@) == group_names(*krate, ids@.take(i as int), g as nat),
        decreases ids.len() - i,
    {
        assert(ids@.take(i + 1).drop_last() =~= ids@.take(i as int));
        assert(ids@.take(i + 1).last() == ids@[i as int]);
        match get_item(krate, ids[i]) {
            Some(it) => match child_of(krate, it) {
                Some((cg, n)) => {
                    if cg == g {
                        let ghost before = names@;
                        names.push(n);
                        proof {
                            lemma_views_push(before, n);
                        }
                    }
                },
                Option::None => {},
            },
            Option::None => {},
        }
        i = i + 1;
    }
    assert(ids@.take(ids.len() as int) =~= ids@);
    names
}

/// Appends one indented line per name.
fn push_name_lines(names: &Vec<String>, out: &mut String)
    ensures
        final(out)@ == old(out)@ + name_lines(views(names@)),
{
    let ghost start = out@;
    let ghost vs = views(names@);
    let mut i: usize = 0;
    while i < names.len()
        invariant
            i <= names.len(),
            vs == views(names@),
            out@ == start + name_lines(vs.take(i as int)),
        decreases names.len() - i,
    {
        assert(vs.take(i + 1).drop_last() =~= vs.take(i as int));
        out.append("  ");
        out.append(names[i].as_str());
        out.append("\n");
        i = i + 1;
    }
    assert(vs.take(names.len() as int) =~= vs);
}

/// Appends the children `ids` of a module, grouped by kind.
fn push_children(krate: &Crate, ids: &Vec<Id>, out: &mut String)
    ensures
        final(out)@ == old(out)@ + groups_text(*krate, ids@, n_groups()),
{
    let ghost start = out@;
    let mut g: usize = 0;
    while g < 11
        invariant
            g <= 11,
            out@ == start + groups_text(*krate, ids@, g as nat),
        decreases 11 - g,
    {
        let names = collect_group(krate, ids, g);
        if names.len() != 0 {
            out.append("\n");
            let h = render_group_heading(g);
            out.append(h.as_str());
            out.append(":\n");
            push_name_lines(&names, out);
        }
        g = g + 1;
    }
}

/// Removes `line` and its newline from the end of `out`, if `out` ends so.
fn drop_last_line(out: String, line: &Option<String>) -> (r: String)
    ensures
        r@ == without_last_line(out@, opt_view(*line)),
{
    match line {
        Some(l) => {
            let o = chars_of(out.as_str());
            let mut lc = chars_of(l.as_str());
            lc.push('\n');
            proof {
                reveal_strlit("\n");
            }
            assert(lc@ =~= l@ + "\n"@);
            assert(opt_view(*line) == Some(l@));
            if o.len() < lc.len() {
                return out;
            }
            let off = o.len() - lc.len();
            let mut i: usize = 0;
            while i < lc.len()
                invariant
                    o@ == out@,
                    lc@ == l@ + "\n"@,
                    opt_view(*line) == Some(l@),
                    lc.len() == l@.len() + 1,
                    off + lc.len() == o.len(),
                    i <= lc.len(),
                    forall|j: int| 0 <= j < i ==> o@[off + j] == lc@[j],
                decreases lc.len() - i,
            {
                if o[off + i] != lc[i] {
                    assert(o@.subrange(off as int, o.len() as int)[i as int] != lc@[i as int]);
                    assert(out@.subrange(off as int, out@.len() as int) != l@ + "\n"@);
                    assert(opt_view(*line) == Some(l@));
                    assert(off == out@.len() - (l@.len() + 1));
                    return out;
                }
                i = i + 1;
            }
            assert(o@.subrange(off as int, o.len() as int) =~= lc@);
            out.as_str().substring_char(0, off).to_owned()
        },
        Option::None => out,
    }
}

/// Renders the full documentation of an item.
pub fn render_item_full(item: &Item, krate: &Crate) -> (r: String)
    ensures
        r@ == full_text(*krate, *item),
{
    let mut out = render_item_summary(item, krate);
    match &item.docs {
        Some(docs) => {
            let first = first_line(docs.as_str());
            out = drop_last_line(out, &first);
            let t = trim_str(docs.as_str());
            out.append(t.as_str());
            out.append("\n");
        },
        Option::None => {},
    }
    match &item.inner {
        ItemEnum::Struct(st) => match &st.kind {
            StructKind::Plain { fields } => {
                if fields.len() > 0 {
                    out.append("\nFields:\n");
                    push_fields(krate, fields, &mut out);
                }
            },
            _ => {},
        },
        ItemEnum::Enum(e) => {
            out.append("\nVariants:\n");
            push_variants(krate, &e.variants, &mut out);
        },
        ItemEnum::Module(m) => {
            push_children(krate, &m.items, &mut out);
        },
        _ => {},
    }
    out
}

/// The summary of an item ends with its first doc line and a newline when it has one.
proof fn lemma_summary_ends_with_doc_line(k: Crate, item: Item)
    ensures
        doc_line(item.docs) matches Some(l) ==> ("\n"@ + l + "\n"@).is_suffix_of(summary_text(k, item)),
{
    if let Some(l) = doc_line(item.docs) {
        let out = summary_text(k, item);
        let suf = "\n"@ + l + "\n"@;
        let head = out.subrange(0, out.len() - suf.len());
        assert(out.subrange(out.len() - suf.len(), out.len() as int) =~= suf);
    }
}

/// The full documentation of an item shows its whole docs, trimmed, in place of
/// the first doc line of its summary: without docs it begins with the summary;
/// with docs whose first line is `l`, the summary is some text `x` followed by
/// `l` and a newline, and the full view begins with `x`, the trimmed docs and a
/// newline. After that come the fields of a plain struct that has fields, the
/// variants of an enum, or the children of a module, and nothing for other items.
pub proof fn lemma_full_text_shape(k: Crate, item: Item)
    ensures
        item.docs is None ==> summary_text(k, item).is_prefix_of(full_text(k, item)),
        item.docs matches Some(d) ==> (first_text_line(d@) matches Some(l) ==> exists|x: Seq<char>|
            summary_text(k, item) == x + l + "\n"@ && (x + trim(d@) + "\n"@).is_prefix_of(
                #[trigger] full_text(k, item),
            )),
        item.docs matches Some(d) ==> (first_text_line(d@) is None ==> (summary_text(k, item) + trim(d@)
            + "\n"@).is_prefix_of(full_text(k, item))),
        item.inner matches ItemEnum::Enum(e) ==> ("\nVariants:\n"@ + variants_text(k, e.variants@)).is_suffix_of(
            full_text(k, item),
        ),
        item.inner matches ItemEnum::Struct(st) ==> (st.kind matches StructKind::Plain { fields } ==> (fields.len()
            > 0 ==> ("\nFields:\n"@ + fields_text(k, fields@)).is_suffix_of(full_text(k, item)))),
        item.inner matches ItemEnum::Module(m) ==> groups_text(k, m.items@, n_groups()).is_suffix_of(
            full_text(k, item),
        ),
{
    let out0 = summary_text(k, item);
    let out1 = match item.docs {
        Some(d) => without_last_line(out0, first_text_line(d@)) + trim(d@) + "\n"@,
        Option::None => out0,
    };
    let extra = full_text(k, item).subrange(out1.len() as int, full_text(k, item).len() as int);
    assert(full_text(k, item) =~= out1 + extra);
    lemma_prefix_of_concat(out1, extra);
    let full = full_text(k, item);
    if let Some(d) = item.docs {
        if let Some(l) = first_text_line(d@) {
            lemma_summary_ends_with_doc_line(k, item);
            reveal_strlit("\n");
            let n = l.len() + 1;
            let x = out0.subrange(0, out0.len() - n);
            assert(out0.subrange(out0.len() - n, out0.len() as int) =~= l + "\n"@) by {
                let suf = "\n"@ + l + "\n"@;
                assert(out0.subrange(out0.len() - suf.len(), out0.len() as int) == suf);
                assert(out0.subrange(out0.len() - n, out0.len() as int) =~= suf.subrange(1, suf.len() as int));
                assert(suf.subrange(1, suf.len() as int) =~= l + "\n"@);
            }
            assert(out0 =~= x + l + "\n"@);
            assert(without_last_line(out0, Some(l)) =~= x);
            assert(out1 =~= x + trim(d@) + "\n"@);
            assert(full_text(k, item) == full);
        }
    }
    match item.inner {
        ItemEnum::Enum(e) => {
            let suf = "\nVariants:\n"@ + variants_text(k, e.variants@);
            assert(full =~= out1 + suf);
            assert(full.subrange(full.len() - suf.len(), full.len() as int) =~= suf);
        },
        ItemEnum::Struct(st) => {
            if let StructKind::Plain { fields } = st.kind {
                if fields.len() > 0 {
                    let suf = "\nFields:\n"@ + fields_text(k, fields@);
                    assert(full =~= out1 + suf);
                    assert(full.subrange(full.len() - suf.len(), full.len() as int) =~= suf);
                }
            }
        },
        ItemEnum::Module(m) => {
            let suf = groups_text(k, m.items@, n_groups());
            assert(full =~= out1 + suf);
            assert(full.subrange(full.len() - suf.len(), full.len() as int) =~= suf);
        },
        _ => {},
    }
}

// ── Methods and trait implementations ───────────────────────────────────

/// The entry of a function in a method list: its signature, its first doc
/// line indented below, and a blank line. Other items have none.
pub open spec fn method_entry(m: Item) -> Seq<char> {
    match m.inner {
        ItemEnum::Function(f) => fn_sig_text(m, f) + "\n"@ + match doc_line(m.docs) {
            Some(l) => "  "@ + l + "\n"@,
            Option::None => Seq::empty(),
        } + "\n"@,
        _ => Seq::empty(),
    }
}

/// The entries of the items `ms`, in order.
pub open spec fn method_lines(ms: Seq<Item>) -> Seq<char>
    decreases ms.len(),
{
    if ms.len() == 0 {
        Seq::empty()
    } else {
        method_lines(ms.drop_last()) + method_entry(ms.last())
    }
}

/// Appends the entry of `method` in a method list.
fn push_method_entry(method: &Item, out: &mut String)
    ensures
        final(out)@ == old(out)@ + method_entry(*method),
{
    match &method.inner {
        ItemEnum::Function(func) => {
            let sig = render_function_sig(method, func);
            out.append(sig.as_str());
            out.append("\n");
            match first_doc_line(&method.docs) {
                Some(l) => {
                    out.append("  ");
                    out.append(l.as_str());
                    out.append("\n");
                },
                Option::None => {},
            }
            out.append("\n");
        },
        _ => {},
    }
}

/// The list of inherent methods of a type.
pub open spec fn methods_text(k: Crate, item: Item) -> Seq<char> {
    let ms = methods_of(k, item);
    if ms.len() == 0 {
        "No inherent methods found.\n"@
    } else {
        "Methods for "@ + value_or_underscore(item.name) + ":\n\n"@ + method_lines(ms)
    }
}

/// Renders the list of inherent methods of a type.
#[verifier::rlimit(40)]
pub fn render_methods(item: &Item, krate: &Crate) -> (r: String)
    ensures
        r@ == methods_text(*krate, *item),
{
    let methods = find_methods(krate, item);
    if methods.len() == 0 {
        return String::from_str("No inherent methods found.\n");
    }
    let mut out = String::from_str("Methods for ");
    let name = render_value(&item.name);
    out.append(name.as_str());
    out.append(":\n\n");
    let ghost start = out@;
    let ghost ms = derefs(methods@);
    let mut i: usize = 0;
    while i < methods.len()
        invariant
            i <= methods.len(),
            ms == derefs(methods@),
            out@ == start + method_lines(ms.take(i as int)),
        decreases methods.len() - i,
    {
        assert(ms.take(i + 1).drop_last() =~= ms.take(i as int));
        assert(ms.take(i + 1).last() == *methods@[i as int]);
        push_method_entry(methods[i], &mut out);
        i = i + 1;
    }
    assert(ms.take(methods.len() as int) =~= ms);
    out
}

/// One indented signature line per function among the items `ids`.
pub open spec fn assoc_fn_lines(k: Crate, ids: Seq<Id>) -> Seq<char>
    decreases ids.len(),
{
    if ids.len() == 0 {
        Seq::empty()
    } else {
        assoc_fn_lines(k, ids.drop_last()) + match item_at(k, ids.last()) {
            Some(a) => match a.inner {
                ItemEnum::Function(f) => "  "@ + fn_sig_text(a, f) + "\n"@,
                _ => Seq::empty(),
            },
            Option::None => Seq::empty(),
        }
    }
}

/// For each trait implementation: `impl Trait<..> for Type`, the signatures
/// of its functions, and a blank line.
pub open spec fn impl_lines(k: Crate, s: Seq<(Item, Seq<char>)>) -> Seq<char>
    decreases s.len(),
{
    if s.len() == 0 {
        Seq::empty()
    } else {
        impl_lines(k, s.drop_last()) + impl_entry(k, s.last().0, s.last().1)
    }
}

/// The entry of a trait implementation: `impl Trait<..> for Type`, the
/// signatures of its functions, and a blank line.
pub open spec fn impl_entry(k: Crate, imp: Item, name: Seq<char>) -> Seq<char> {
    match imp.inner {
        ItemEnum::Impl(d) => "impl "@ + name + generics_params_text(d.generics) + " for "@
            + type_text(d.for_) + "\n"@ + assoc_fn_lines(k, d.items@) + "\n"@,
        _ => Seq::empty(),
    }
}

/// Appends the entry of a trait implementation.
fn push_impl_entry(krate: &Crate, imp: &Item, trait_name: &String, out: &mut String)
    ensures
        final(out)@ == old(out)@ + impl_entry(*krate, *imp, trait_name@),
{
    match &imp.inner {
        ItemEnum::Impl(d) => {
            out.append("impl ");
            out.append(trait_name.as_str());
            let g = render_generics_params(&d.generics);
            out.append(g.as_str());
            out.append(" for ");
            let t = render_type(&d.for_);
            out.append(t.as_str());
            out.append("\n");
            push_assoc_fns(krate, &d.items, out);
            out.append("\n");
        },
        _ => {},
    }
}

/// The list of trait implementations of a type.
pub open spec fn trait_impls_text(k: Crate, item: Item) -> Seq<char> {
    let impls = trait_impls_of(k, item);
    if impls.len() == 0 {
        "No trait implementations found.\n"@
    } else {
        "Trait implementations for "@ + value_or_underscore(item.name) + ":\n\n"@ + impl_lines(
            k,
            impls,
        )
    }
}

/// Appends the signatures of the functions among `ids`, one indented line each.
fn push_assoc_fns(krate: &Crate, ids: &Vec<Id>, out: &mut String)
    ensures
        final(out)@ == old(out)@ + assoc_fn_lines(*krate, ids@),
{
    let ghost start = out@;
    let mut i: usize = 0;
    while i < ids.len()
        invariant
            i <= ids.len(),
            out@ == start + assoc_fn_lines(*krate, ids@.take(i as int)),
        decreases ids.len() - i,
    {
        assert(ids@.take(i + 1).drop_last() =~= ids@.take(i as int));
        assert(ids@.take(i + 1).last() == ids@[i as int]);
        match get_item(krate, ids[i]) {
            Some(a) => match &a.inner {
                ItemEnum::Function(f) => {
                    out.append("  ");
                    let sig = render_function_sig(a, f);
                    out.append(sig.as_str());
                    out.append("\n");
                },
                _ => {},
            },
            Option::None => {},
        }
        i = i + 1;
    }
    assert(ids@.take(ids.len() as int) =~= ids@);
}

/// Renders the list of trait implementations of a type.
#[verifier::rlimit(40)]
pub fn render_trait_impls(item: &Item, krate: &Crate) -> (r: String)
    ensures
        r@ == trait_impls_text(*krate, *item),
{
    let impls = find_trait_impls(krate, item);
    if impls.len() == 0 {
        return String::from_str("No trait implementations found.\n");
    }
    let mut out = String::from_str("Trait implementations for ");
    let name = render_value(&item.name);
    out.append(name.as_str());
    out.append(":\n\n");
    let ghost start = out@;
    let ghost ps = impl_pairs(impls@);
    let mut i: usize = 0;
    while i < impls.len()
        invariant
            i <= impls.len(),
            ps == impl_pairs(impls@),
            out@ == start + impl_lines(*krate, ps.take(i as int)),
        decreases impls.len() - i,
    {
        assert(ps.take(i + 1).drop_last() =~= ps.take(i as int));
        assert(ps.take(i + 1).last() == ps[i as int]);
        let (imp, trait_name) = &impls[i];
        push_impl_entry(krate, imp, trait_name, &mut out);
        i = i + 1;
    }
    assert(ps.take(impls.len() as int) =~= ps);
    out
}

/// The entries of a list of items are the entries of its parts, in order.
pub proof fn lemma_method_lines_concat(a: Seq<Item>, b: Seq<Item>)
    ensures
        method_lines(a + b) == method_lines(a) + method_lines(b),
    decreases b.len(),
{
    if b.len() == 0 {
        assert(a + b =~= a);
        assert(method_lines(b) =~= Seq::<char>::empty());
        assert(method_lines(a) + method_lines(b) =~= method_lines(a));
    } else {
        assert((a + b).drop_last() =~= a + b.drop_last());
        assert((a + b).last() == b.last());
        lemma_method_lines_concat(a, b.drop_last());
        assert(method_lines(a + b) =~= method_lines(a) + method_lines(b));
    }
}

/// The methods view of a type lists what `find_methods` finds: "No inherent
/// methods found." when it finds nothing; otherwise the heading with the type's
/// name, then, for each found item in order, a function's signature, its first
/// doc line indented when it has one, and a blank line; other items add nothing.
pub proof fn lemma_methods_view(k: Crate, item: Item)
    ensures
        methods_of(k, item).len() == 0 ==> methods_text(k, item) == "No inherent methods found.\n"@,
        methods_of(k, item).len() > 0 ==> methods_text(k, item) == "Methods for "@ + value_or_underscore(
            item.name,
        ) + ":\n\n"@ + method_lines(methods_of(k, item)),
        forall|i: int|
            0 <= i < methods_of(k, item).len() ==> method_lines(methods_of(k, item).take(i + 1))
                == method_lines(methods_of(k, item).take(i)) + method_entry(
                #[trigger] methods_of(k, item)[i],
            ),
        forall|m: Item|
            #![trigger method_entry(m)]
            match m.inner {
                ItemEnum::Function(f) => method_entry(m) == fn_sig_text(m, f) + "\n"@ + match doc_line(
                    m.docs,
                ) {
                    Some(l) => "  "@ + l + "\n"@,
                    Option::None => Seq::empty(),
                } + "\n"@,
                _ => method_entry(m) == Seq::<char>::empty(),
            },
{
    let ms = methods_of(k, item);
    assert forall|i: int| 0 <= i < ms.len() implies method_lines(ms.take(i + 1)) == method_lines(
        ms.take(i),
    ) + method_entry(#[trigger] ms[i]) by {
        assert(ms.take(i + 1).drop_last() =~= ms.take(i));
        assert(ms.take(i + 1).last() == ms[i]);
    }
}

/// The entries of a list of trait implementations are the entries of its parts, in order.
pub proof fn lemma_impl_lines_concat(k: Crate, a: Seq<(Item, Seq<char>)>, b: Seq<(Item, Seq<char>)>)
    ensures
        impl_lines(k, a + b) == impl_lines(k, a) + impl_lines(k, b),
    decreases b.len(),
{
    if b.len() == 0 {
        assert(a + b =~= a);
        assert(impl_lines(k, b) =~= Seq::<char>::empty());
        assert(impl_lines(k, a) + impl_lines(k, b) =~= impl_lines(k, a));
    } else {
        assert((a + b).drop_last() =~= a + b.drop_last());
        assert((a + b).last() == b.last());
        lemma_impl_lines_concat(k, a, b.drop_last());
        assert(impl_lines(k, a + b) =~= impl_lines(k, a) + impl_lines(k, b));
    }
}

/// The trait-impls view of a type lists what `find_trait_impls` finds: "No
/// trait implementations found." when it finds nothing; otherwise the heading
/// with the type's name, then, for each found impl in order, `impl Trait<..>
/// for Type`, one indented signature line per function of the impl, and a
/// blank line.
pub proof fn lemma_trait_impls_view(k: Crate, item: Item)
    ensures
        trait_impls_of(k, item).len() == 0 ==> trait_impls_text(k, item)
            == "No trait implementations found.\n"@,
        trait_impls_of(k, item).len() > 0 ==> trait_impls_text(k, item) == "Trait implementations for "@
            + value_or_underscore(item.name) + ":\n\n"@ + impl_lines(k, trait_impls_of(k, item)),
        forall|i: int|
            0 <= i < trait_impls_of(k, item).len() ==> impl_lines(k, trait_impls_of(k, item).take(i + 1))
                == impl_lines(k, trait_impls_of(k, item).take(i)) + impl_entry(
                k,
                (#[trigger] trait_impls_of(k, item)[i]).0,
                trait_impls_of(k, item)[i].1,
            ),
        forall|imp: Item, name: Seq<char>|
            #![trigger impl_entry(k, imp, name)]
            imp.inner matches ItemEnum::Impl(d) ==> impl_entry(k, imp, name) == "impl "@ + name
                + generics_params_text(d.generics) + " for "@ + type_text(d.for_) + "\n"@ + assoc_fn_lines(
                k,
                d.items@,
            ) + "\n"@,
{
    let s = trait_impls_of(k, item);
    assert forall|i: int| 0 <= i < s.len() implies impl_lines(k, s.take(i + 1)) == impl_lines(
        k,
        s.take(i),
    ) + impl_entry(k, (#[trigger] s[i]).0, s[i].1) by {
        assert(s.take(i + 1).drop_last() =~= s.take(i));
        assert(s.take(i + 1).last() == s[i]);
    }
}

/// A reference is written `&`, its lifetime and a space if it has one, `mut `
/// exactly when it is mutable, then the referenced type; the mutable form is the
/// shared form with `mut ` inserted before the referenced type.
pub proof fn lemma_reference_text(lifetime: Option<String>, inner: Box<Type>)
    ensures
        ({
            let lt = match lifetime {
                Some(l) => l@ + " "@,
                Option::None => Seq::<char>::empty(),
            };
            let shared = type_text(Type::BorrowedRef { lifetime, is_mutable: false, type_: inner });
            let unique = type_text(Type::BorrowedRef { lifetime, is_mutable: true, type_: inner });
            &&& shared == "&"@ + lt + type_text(*inner)
            &&& unique == "&"@ + lt + "mut "@ + type_text(*inner)
            &&& unique.len() == shared.len() + 4
        }),
{
    let lt = match lifetime {
        Some(l) => l@ + " "@,
        Option::None => Seq::<char>::empty(),
    };
    assert("&"@ + lt + Seq::<char>::empty() + type_text(*inner) =~= "&"@ + lt + type_text(*inner));
    reveal_strlit("mut ");
}

/// The declaration in the summary of a struct, an enum, a trait or a type
/// alias begins with its visibility, the keyword (`unsafe trait` for an unsafe
/// trait), its name, and then at once its generic parameter list as
/// `render_generics_params` writes it.
pub proof fn lemma_summary_declares_generics(k: Crate, item: Item)
    ensures
        ({
            let vis = visibility_text(item.visibility);
            let name = value_or_underscore(item.name);
            match item.inner {
                ItemEnum::Struct(st) => (vis + "struct "@ + name + generics_params_text(st.generics)).is_prefix_of(
                    summary_text(k, item),
                ),
                ItemEnum::Enum(e) => (vis + "enum "@ + name + generics_params_text(e.generics)).is_prefix_of(
                    summary_text(k, item),
                ),
                ItemEnum::Trait(t) => (vis + (if t.is_unsafe {
                    "unsafe "@
                } else {
                    Seq::empty()
                }) + "trait "@ + name + generics_params_text(t.generics)).is_prefix_of(summary_text(k, item)),
                ItemEnum::TypeAlias(ta) => (vis + "type "@ + name + generics_params_text(ta.generics)).is_prefix_of(
                    summary_text(k, item),
                ),
                _ => true,
            }
        }),
{
    match item.inner {
        ItemEnum::Struct(_) => lemma_struct_summary_prefix(k, item),
        ItemEnum::Enum(_) => lemma_enum_summary_prefix(k, item),
        ItemEnum::Trait(_) => lemma_trait_summary_prefix(k, item),
        ItemEnum::TypeAlias(_) => lemma_alias_summary_prefix(k, item),
        _ => {},
    }
}

/// `pre` is a prefix of `pre + rest`.
proof fn lemma_prefix_of_concat(pre: Seq<char>, rest: Seq<char>)
    ensures
        pre.is_prefix_of(pre + rest),
{
    assert((pre + rest).subrange(0, pre.len() as int) =~= pre);
}

/// The text after an item's declaration: its first doc line after a blank line, if any.
spec fn doc_tail(item: Item) -> Seq<char> {
    match doc_line(item.docs) {
        Some(l) => "\n"@ + l + "\n"@,
        Option::None => Seq::empty(),
    }
}

proof fn lemma_struct_summary_prefix(k: Crate, item: Item)
    requires
        item.inner is Struct,
    ensures
        (visibility_text(item.visibility) + "struct "@ + value_or_underscore(item.name) + generics_params_text(
            item.inner->Struct_0.generics,
        )).is_prefix_of(summary_text(k, item)),
{
    let st = item.inner->Struct_0;
    let pre = visibility_text(item.visibility) + "struct "@ + value_or_underscore(item.name)
        + generics_params_text(st.generics);
    let rest = match st.kind {
        StructKind::Unit => Seq::empty(),
        StructKind::Tuple => "(...)"@,
        StructKind::Plain { .. } => " { /* fields */ }"@,
    } + where_text(st.generics) + "\n"@ + doc_tail(item);
    assert(summary_text(k, item) =~= pre + rest);
    lemma_prefix_of_concat(pre, rest);
}

proof fn lemma_enum_summary_prefix(k: Crate, item: Item)
    requires
        item.inner is Enum,
    ensures
        (visibility_text(item.visibility) + "enum "@ + value_or_underscore(item.name) + generics_params_text(
            item.inner->Enum_0.generics,
        )).is_prefix_of(summary_text(k, item)),
{
    let e = item.inner->Enum_0;
    let pre = visibility_text(item.visibility) + "enum "@ + value_or_underscore(item.name)
        + generics_params_text(e.generics);
    let rest = variants_preview(item_names(k, e.variants@)) + where_text(e.generics) + "\n"@ + doc_tail(
        item,
    );
    assert(summary_text(k, item) =~= pre + rest);
    lemma_prefix_of_concat(pre, rest);
}

proof fn lemma_trait_summary_prefix(k: Crate, item: Item)
    requires
        item.inner is Trait,
    ensures
        (visibility_text(item.visibility) + (if item.inner->Trait_0.is_unsafe {
            "unsafe "@
        } else {
            Seq::empty()
        }) + "trait "@ + value_or_underscore(item.name) + generics_params_text(
            item.inner->Trait_0.generics,
        )).is_prefix_of(summary_text(k, item)),
{
    let t = item.inner->Trait_0;
    let bs = bounds_text(t.bounds@);
    let pre = visibility_text(item.visibility) + (if t.is_unsafe {
        "unsafe "@
    } else {
        Seq::empty()
    }) + "trait "@ + value_or_underscore(item.name) + generics_params_text(t.generics);
    let rest = (if bs.len() == 0 {
        Seq::empty()
    } else {
        ": "@ + join_seq(bs, " + "@)
    }) + where_text(t.generics) + " {\n"@ + trait_fns_text(k, t.items@) + "}\n"@ + doc_tail(item);
    assert(summary_text(k, item) =~= pre + rest);
    lemma_prefix_of_concat(pre, rest);
}

proof fn lemma_alias_summary_prefix(k: Crate, item: Item)
    requires
        item.inner is TypeAlias,
    ensures
        (visibility_text(item.visibility) + "type "@ + value_or_underscore(item.name) + generics_params_text(
            item.inner->TypeAlias_0.generics,
        )).is_prefix_of(summary_text(k, item)),
{
    let ta = item.inner->TypeAlias_0;
    let pre = visibility_text(item.visibility) + "type "@ + value_or_underscore(item.name)
        + generics_params_text(ta.generics);
    let rest = " = "@ + type_text(ta.type_) + ";\n"@ + doc_tail(item);
    assert(summary_text(k, item) =~= pre + rest);
    lemma_prefix_of_concat(pre, rest);
}

/// Whether a generic parameter is left out of a parameter list: a synthetic
/// type parameter (one that stands for an `impl Trait` argument).
pub open spec fn param_hidden(p: GenericParamDef) -> bool {
    p.kind matches GenericParamDefKind::Type { is_synthetic, .. } && is_synthetic
}

proof fn lemma_params_shown(s: Seq<GenericParamDef>)
    ensures
        params_text(s).len() == 0 <==> forall|i: int| 0 <= i < s.len() ==> param_hidden(#[trigger] s[i]),
    decreases s.len(),
{
    if s.len() > 0 {
        lemma_params_shown(s.drop_last());
        if forall|i: int| 0 <= i < s.len() ==> param_hidden(#[trigger] s[i]) {
            assert(param_hidden(s.last()));
            assert forall|i: int| 0 <= i < s.drop_last().len() implies param_hidden(
                #[trigger] s.drop_last()[i],
            ) by {
                assert(s.drop_last()[i] == s[i]);
            }
        } else {
            let i = choose|i: int| 0 <= i < s.len() && !param_hidden(#[trigger] s[i]);
            if i < s.len() - 1 {
                assert(s.drop_last()[i] == s[i]);
            } else {
                assert(s[i] == s.last());
            }
        }
    }
}

/// A generic parameter list is empty exactly when every parameter is hidden
/// (there are none, or all are synthetic); otherwise it is enclosed in `<` and `>`.
pub proof fn lemma_generics_list(g: Generics)
    ensures
        generics_params_text(g).len() == 0 <==> forall|i: int|
            0 <= i < g.params@.len() ==> param_hidden(#[trigger] g.params@[i]),
        generics_params_text(g).len() > 0 ==> generics_params_text(g)[0] == '<' && generics_params_text(
            g,
        ).last() == '>',
{
    lemma_params_shown(g.params@);
    reveal_strlit("<");
    reveal_strlit(">");
}

/// A function's signature begins with its visibility, its `const`, `async`
/// and `unsafe` qualifiers in that order, `fn`, its name and at once its generic
/// parameter list and `(`; it ends with ` -> ` and the return type when it has
/// one, followed by its `where` clause.
pub proof fn lemma_function_sig_shape(item: Item, f: Function)
    ensures
        (visibility_text(item.visibility) + (if f.header.is_const {
            "const "@
        } else {
            Seq::empty()
        }) + (if f.header.is_async {
            "async "@
        } else {
            Seq::empty()
        }) + (if f.header.is_unsafe {
            "unsafe "@
        } else {
            Seq::empty()
        }) + "fn "@ + value_or_underscore(item.name) + generics_params_text(f.generics) + "("@).is_prefix_of(
            fn_sig_text(item, f),
        ),
        f.sig.output matches Some(out) ==> (" -> "@ + type_text(out) + where_text(f.generics)).is_suffix_of(
            fn_sig_text(item, f),
        ),
        f.sig.output is None ==> (")"@ + where_text(f.generics)).is_suffix_of(fn_sig_text(item, f)),
{
    reveal(fn_sig_text);
    let pre = visibility_text(item.visibility) + (if f.header.is_const {
        "const "@
    } else {
        Seq::empty()
    }) + (if f.header.is_async {
        "async "@
    } else {
        Seq::empty()
    }) + (if f.header.is_unsafe {
        "unsafe "@
    } else {
        Seq::empty()
    }) + "fn "@ + value_or_underscore(item.name) + generics_params_text(f.generics) + "("@;
    let mid = join_seq(sig_inputs_text(f.sig.inputs@), ", "@);
    let out = match f.sig.output {
        Some(o) => " -> "@ + type_text(o),
        Option::None => Seq::empty(),
    };
    let w = where_text(f.generics);
    assert(fn_sig_text(item, f) =~= pre + (mid + ")"@ + out + w));
    lemma_prefix_of_concat(pre, mid + ")"@ + out + w);
    let full = fn_sig_text(item, f);
    match f.sig.output {
        Some(o) => {
            let suf = " -> "@ + type_text(o) + w;
            assert(full =~= (pre + mid + ")"@) + suf);
            assert(full.subrange(full.len() - suf.len(), full.len() as int) =~= suf);
        },
        Option::None => {
            let suf = ")"@ + w;
            assert(full =~= (pre + mid) + suf);
            assert(full.subrange(full.len() - suf.len(), full.len() as int) =~= suf);
        },
    }
}

/// Raw pointers are written `*const T` or `*mut T` as they are mutable; a slice
/// `[T]`; an array `[T; N]`; a tuple its element types between parentheses,
/// separated by `, `; an inferred type `_`.
pub proof fn lemma_type_text_forms(inner: Box<Type>, len: String, elems: Vec<Type>)
    ensures
        type_text(Type::RawPointer { is_mutable: false, type_: inner }) == "*const "@ + type_text(*inner),
        type_text(Type::RawPointer { is_mutable: true, type_: inner }) == "*mut "@ + type_text(*inner),
        type_text(Type::Slice(inner)) == "["@ + type_text(*inner) + "]"@,
        type_text(Type::Array { type_: inner, len }) == "["@ + type_text(*inner) + "; "@ + len@ + "]"@,
        type_text(Type::Tuple(elems)) == "("@ + join_seq(types_text(elems@), ", "@) + ")"@,
        types_text(elems@).len() == elems@.len(),
        forall|i: int| 0 <= i < elems@.len() ==> #[trigger] types_text(elems@)[i] == type_text(elems@[i]),
        type_text(Type::Infer) == "_"@,
{
    lemma_types_text_each(elems@);
}

proof fn lemma_types_text_each(s: Seq<Type>)
    ensures
        types_text(s).len() == s.len(),
        forall|i: int| 0 <= i < s.len() ==> #[trigger] types_text(s)[i] == type_text(s[i]),
    decreases s.len(),
{
    if s.len() > 0 {
        lemma_types_text_each(s.drop_last());
        assert forall|i: int| 0 <= i < s.len() implies #[trigger] types_text(s)[i] == type_text(s[i]) by {
            if i < s.len() - 1 {
                assert(s.drop_last()[i] == s[i]);
            }
        }
    }
}

proof fn lemma_arg_list_each(s: Seq<GenericArg>)
    ensures
        arg_list_text(s).len() == s.len(),
        forall|i: int| 0 <= i < s.len() ==> #[trigger] arg_list_text(s)[i] == arg_text(s[i]),
    decreases s.len(),
{
    if s.len() > 0 {
        let r = s.subrange(0, s.len() - 1);
        lemma_arg_list_each(r);
        assert forall|i: int| 0 <= i < s.len() implies #[trigger] arg_list_text(s)[i] == arg_text(s[i]) by {
            if i < s.len() - 1 {
                assert(r[i] == s[i]);
            }
        }
    }
}

proof fn lemma_constraints_each(s: Seq<AssocItemConstraint>)
    ensures
        constraints_text(s).len() == s.len(),
        forall|i: int| 0 <= i < s.len() ==> #[trigger] constraints_text(s)[i] == constraint_text(s[i]),
    decreases s.len(),
{
    if s.len() > 0 {
        let r = s.subrange(0, s.len() - 1);
        lemma_constraints_each(r);
        assert forall|i: int| 0 <= i < s.len() implies #[trigger] constraints_text(s)[i] == constraint_text(
            s[i],
        ) by {
            if i < s.len() - 1 {
                assert(r[i] == s[i]);
            }
        }
    }
}

/// Angle-bracketed generic arguments list the arguments in order and then the
/// associated item constraints in order, separated by `, ` inside `<` and `>`;
/// with neither they add nothing. A lifetime argument is its name, a type its
/// text, a const its value (`_` when unknown), an inferred argument `_`. A
/// constraint is `Name = term` or `Name: bounds`. Parenthesized arguments are
/// the input types in `(..)`, then ` -> ` and the output type when there is one.
pub proof fn lemma_generic_args_forms(
    args: Vec<GenericArg>,
    constraints: Vec<AssocItemConstraint>,
    inputs: Vec<Type>,
    output: Option<Type>,
)
    ensures
        ({
            let parts = arg_list_text(args@) + constraints_text(constraints@);
            &&& parts.len() == args@.len() + constraints@.len()
            &&& forall|i: int| 0 <= i < args@.len() ==> parts[i] == arg_text(#[trigger] args@[i])
            &&& forall|i: int|
                0 <= i < constraints@.len() ==> parts[args@.len() + i] == constraint_text(
                    #[trigger] constraints@[i],
                )
            &&& args_text(GenericArgs::AngleBracketed { args, constraints }) == if args@.len()
                + constraints@.len() == 0 {
                Seq::<char>::empty()
            } else {
                "<"@ + join_seq(parts, ", "@) + ">"@
            }
        }),
        args_text(GenericArgs::Parenthesized { inputs, output }) == "("@ + join_seq(
            types_text(inputs@),
            ", "@,
        ) + ")"@ + match output {
            Some(o) => " -> "@ + type_text(o),
            Option::None => Seq::empty(),
        },
        forall|a: GenericArg|
            #![trigger arg_text(a)]
            arg_text(a) == match a {
                GenericArg::Lifetime(lt) => lt@,
                GenericArg::Type(t) => type_text(t),
                GenericArg::Const(v) => match v {
                    Some(x) => x@,
                    Option::None => "_"@,
                },
                GenericArg::Infer => "_"@,
            },
        forall|c: AssocItemConstraint|
            #![trigger constraint_text(c)]
            constraint_text(c) == match c.binding {
                AssocItemConstraintKind::Equality(t) => c.name@ + " = "@ + term_text(t),
                AssocItemConstraintKind::Constraint(bounds) => c.name@ + ": "@ + join_seq(
                    bounds_text(bounds@),
                    " + "@,
                ),
            },
{
    lemma_arg_list_each(args@);
    lemma_constraints_each(constraints@);
    let parts = arg_list_text(args@) + constraints_text(constraints@);
    assert forall|i: int| 0 <= i < constraints@.len() implies parts[args@.len() + i] == constraint_text(
        #[trigger] constraints@[i],
    ) by {
        assert(parts[args@.len() + i] == constraints_text(constraints@)[i]);
    }
    let base = "("@ + join_seq(types_text(inputs@), ", "@) + ")"@;
    match output {
        Some(o) => {},
        Option::None => {
            assert(base + Seq::<char>::empty() =~= base);
        },
    }
}

/// A trait bound is its path, after `?` for a `?Trait` bound and `~const ` for a
/// `~const Trait` bound; an outlives bound is its lifetime; a `use<..>` bound is not shown.
pub proof fn lemma_bound_forms(b: GenericBound)
    ensures
        bound_text(b) == match b {
            GenericBound::TraitBound { trait_, modifier } => Some(
                match modifier {
                    TraitBoundModifier::Maybe => "?"@ + path_text(trait_),
                    TraitBoundModifier::MaybeConst => "~const "@ + path_text(trait_),
                    TraitBoundModifier::Plain => path_text(trait_),
                },
            ),
            GenericBound::Outlives(lt) => Some(lt@),
            GenericBound::Use => Option::None,
        },
{
    if let GenericBound::TraitBound { trait_, modifier } = b {
        if modifier is Plain {
            assert(Seq::<char>::empty() + path_text(trait_) =~= path_text(trait_));
        }
    }
}

// ── Suggestions and search results ──────────────────────────────────────

/// How many children of a module are suggested as further lookups.
pub open spec fn max_child_suggestions() -> nat {
    3
}

/// The names of the documented children among `ids` that a module lists, in order.
pub open spec fn child_names(k: Crate, ids: Seq<Id>) -> Seq<Seq<char>>
    decreases ids.len(),
{
    if ids.len() == 0 {
        Seq::empty()
    } else {
        let rest = child_names(k, ids.drop_last());
        match item_at(k, ids.last()) {
            Some(it) => match child_entry(k, it) {
                Some((_, n)) => rest.push(n),
                Option::None => rest,
            },
            Option::None => rest,
        }
    }
}

/// The query that names an item: the crate name, then the path, joined with `::`.
pub open spec fn query_text(crate_name: Seq<char>, path: Seq<Seq<char>>) -> Seq<char> {
    if path.len() == 0 {
        crate_name
    } else {
        crate_name + "::"@ + join_seq(path, "::"@)
    }
}

/// One suggestion line per child name: a lookup of the child.
pub open spec fn child_suggestions(query: Seq<char>, names: Seq<Seq<char>>) -> Seq<Seq<char>>
    decreases names.len(),
{
    if names.len() == 0 {
        Seq::empty()
    } else {
        child_suggestions(query, names.drop_last()).push("  wtr "@ + query + "::"@ + names.last())
    }
}

/// The suggestion lines for further commands: `--methods` and `--traits` for
/// types that have impls, `--full` unless it was used, and for a module the
/// lookup of its first few children.
pub open spec fn suggestion_lines(
    k: Crate,
    crate_name: Seq<char>,
    path: Seq<Seq<char>>,
    item: Item,
    used_full: bool,
    used_methods: bool,
    used_traits: bool,
) -> Seq<Seq<char>> {
    let has_impls = item.inner is Struct || item.inner is Enum || item.inner is Union;
    let q = query_text(crate_name, path);
    let a: Seq<Seq<char>> = if !used_methods && has_impls {
        seq!["  wtr "@ + q + " --methods    List methods"@]
    } else {
        Seq::empty()
    };
    let b: Seq<Seq<char>> = if !used_full {
        seq!["  wtr "@ + q + " --full       Full documentation"@]
    } else {
        Seq::empty()
    };
    let c: Seq<Seq<char>> = if !used_traits && has_impls {
        seq!["  wtr "@ + q + " --traits     Trait implementations"@]
    } else {
        Seq::empty()
    };
    let d = match item.inner {
        ItemEnum::Module(m) => {
            let names = child_names(k, m.items@);
            child_suggestions(
                q,
                if names.len() <= max_child_suggestions() {
                    names
                } else {
                    names.take(max_child_suggestions() as int)
                },
            )
        },
        _ => Seq::empty(),
    };
    a + b + c + d
}

/// The lines of `s`, each followed by a newline.
pub open spec fn lines_text(s: Seq<Seq<char>>) -> Seq<char>
    decreases s.len(),
{
    if s.len() == 0 {
        Seq::empty()
    } else {
        lines_text(s.drop_last()) + s.last() + "\n"@
    }
}

/// The suggestions block: empty when there is nothing to suggest, else a
/// `See more:` heading and one line per suggestion.
pub open spec fn suggestions_text(lines: Seq<Seq<char>>) -> Seq<char> {
    if lines.len() == 0 {
        Seq::empty()
    } else {
        "\nSee more:\n"@ + lines_text(lines)
    }
}

/// The names of the children among `ids` that a module lists.
fn collect_child_names(krate: &Crate, ids: &Vec<Id>) -> (r: Vec<String>)
    ensures
        views(r@) == child_names(*krate, ids@),
{
    let mut names: Vec<String> = Vec::new();
    let mut i: usize = 0;
    while i < ids.len()
        invariant
            i <= ids.len(),
            views(names@) == child_names(*krate, ids@.take(i as int)),
        decreases ids.len() - i,
    {
        assert(ids@.take(i + 1).drop_last() =~= ids@.take(i as int));
        assert(ids@.take(i + 1).last() == ids@[i as int]);
        match get_item(krate, ids[i]) {
            Some(it) => match child_of(krate, it) {
                Some((_, n)) => {
                    let ghost before = names@;
                    names.push(n);
                    proof {
                        lemma_views_push(before, n);
                    }
                },
                Option::None => {},
            },
            Option::None => {},
        }
        i = i + 1;
    }
    assert(ids@.take(ids.len() as int) =~= ids@);
    names
}

proof fn lemma_child_suggestions_each(q: Seq<char>, names: Seq<Seq<char>>)
    ensures
        child_suggestions(q, names).len() == names.len(),
        forall|j: int|
            0 <= j < names.len() ==> #[trigger] child_suggestions(q, names)[j] == "  wtr "@ + q + "::"@ + names[j],
    decreases names.len(),
{
    if names.len() > 0 {
        lemma_child_suggestions_each(q, names.drop_last());
        assert forall|j: int| 0 <= j < names.len() implies #[trigger] child_suggestions(q, names)[j] == "  wtr "@
            + q + "::"@ + names[j] by {
            if j < names.len() - 1 {
                assert(names.drop_last()[j] == names[j]);
            }
        }
    }
}

/// The suggestions for an item, in order: `--methods` for a struct, enum or
/// union unless methods were shown; `--full` unless the full view was shown;
/// `--traits` for a struct, enum or union unless trait impls were shown; and for
/// a module, one line per listed child, for its first three children. The query
/// is the crate name, followed by the path joined with `::` when there is one.
pub proof fn lemma_suggestion_lines(
    k: Crate,
    crate_name: Seq<char>,
    path: Seq<Seq<char>>,
    item: Item,
    used_full: bool,
    used_methods: bool,
    used_traits: bool,
)
    ensures
        ({
            let lines = suggestion_lines(k, crate_name, path, item, used_full, used_methods, used_traits);
            let typelike = item.inner is Struct || item.inner is Enum || item.inner is Union;
            let q = if path.len() == 0 {
                crate_name
            } else {
                crate_name + "::"@ + join_seq(path, "::"@)
            };
            let na: int = if !used_methods && typelike { 1 } else { 0 };
            let nb: int = if !used_full { 1 } else { 0 };
            let nc: int = if !used_traits && typelike { 1 } else { 0 };
            let children = match item.inner {
                ItemEnum::Module(m) => child_names(k, m.items@),
                _ => Seq::empty(),
            };
            let nd: int = if children.len() < 3 { children.len() as int } else { 3 };
            &&& lines.len() == na + nb + nc + nd
            &&& na == 1 ==> lines[0] == "  wtr "@ + q + " --methods    List methods"@
            &&& nb == 1 ==> lines[na] == "  wtr "@ + q + " --full       Full documentation"@
            &&& nc == 1 ==> lines[na + nb] == "  wtr "@ + q + " --traits     Trait implementations"@
            &&& forall|j: int| 0 <= j < nd ==> #[trigger] lines[na + nb + nc + j] == "  wtr "@ + q + "::"@ + children[j]
        }),
{
    let q = query_text(crate_name, path);
    match item.inner {
        ItemEnum::Module(m) => {
            let names = child_names(k, m.items@);
            let shown = if names.len() <= max_child_suggestions() {
                names
            } else {
                names.take(max_child_suggestions() as int)
            };
            lemma_child_suggestions_each(q, shown);
        },
        _ => {},
    }
}

/// Renders suggestions for further commands. `path` is the looked-up path
/// within the crate, and the flags say which views were already shown.
pub fn render_suggestions(
    crate_name: &str,
    path: &[String],
    item: &Item,
    krate: &Crate,
    used_full: bool,
    used_methods: bool,
    used_traits: bool,
) -> (r: String)
    ensures
        r@ == suggestions_text(
            suggestion_lines(
                *krate,
                crate_name@,
                views(path@),
                *item,
                used_full,
                used_methods,
                used_traits,
            ),
        ),
{
    let has_impls = match &item.inner {
        ItemEnum::Struct(_) | ItemEnum::Enum(_) | ItemEnum::Union(_) => true,
        _ => false,
    };
    let mut query = String::from_str(crate_name);
    if path.len() != 0 {
        let mut parts: Vec<String> = Vec::new();
        let mut i: usize = 0;
        while i < path.len()
            invariant
                i <= path.len(),
                views(parts@) == views(path@).take(i as int),
            decreases path.len() - i,
        {
            let c = copy_str(&path[i]);
            let ghost before = parts@;
            parts.push(c);
            proof {
                lemma_views_push(before, c);
            }
            assert(views(parts@) =~= views(path@).take(i + 1));
            i = i + 1;
        }
        assert(views(path@).take(path.len() as int) =~= views(path@));
        query.append("::");
        let j = join(&parts, "::");
        query.append(j.as_str());
    }
    let ghost q = query@;
    assert(q == query_text(crate_name@, views(path@)));
    let mut suggestions: Vec<String> = Vec::new();
    if !used_methods && has_impls {
        let mut s = String::from_str("  wtr ");
        s.append(query.as_str());
        s.append(" --methods    List methods");
        let ghost before = suggestions@;
        suggestions.push(s);
        proof {
            lemma_views_push(before, s);
        }
    }
    if !used_full {
        let mut s = String::from_str("  wtr ");
        s.append(query.as_str());
        s.append(" --full       Full documentation");
        let ghost before = suggestions@;
        suggestions.push(s);
        proof {
            lemma_views_push(before, s);
        }
    }
    if !used_traits && has_impls {
        let mut s = String::from_str("  wtr ");
        s.append(query.as_str());
        s.append(" --traits     Trait implementations");
        let ghost before = suggestions@;
        suggestions.push(s);
        proof {
            lemma_views_push(before, s);
        }
    }
    let ghost abc = views(suggestions@);
    match &item.inner {
        ItemEnum::Module(m) => {
            let mut names = collect_child_names(krate, &m.items);
            let ghost all = views(names@);
            if names.len() > 3 {
                names.truncate(3);
                assert(views(names@) =~= all.take(3));
            }
            let ghost shown = views(names@);
            let mut i: usize = 0;
            while i < names.len()
                invariant
                    i <= names.len(),
                    shown == views(names@),
                    query@ == q,
                    views(suggestions@) == abc + child_suggestions(q, shown.take(i as int)),
                decreases names.len() - i,
            {
                assert(shown.take(i + 1).drop_last() =~= shown.take(i as int));
                let mut s = String::from_str("  wtr ");
                s.append(query.as_str());
                s.append("::");
                s.append(names[i].as_str());
                let ghost before = suggestions@;
                suggestions.push(s);
                proof {
                    lemma_views_push(before, s);
                }
                assert(views(suggestions@) =~= abc + child_suggestions(q, shown.take(i + 1)));
                i = i + 1;
            }
            assert(shown.take(names.len() as int) =~= shown);
        },
        _ => {
            assert(views(suggestions@) =~= abc + Seq::<Seq<char>>::empty());
        },
    }
    assert(views(suggestions@) =~= suggestion_lines(
        *krate,
        crate_name@,
        views(path@),
        *item,
        used_full,
        used_methods,
        used_traits,
    ));
    if suggestions.len() == 0 {
        return String::new();
    }
    let mut out = String::from_str("\nSee more:\n");
    let ghost start = out@;
    let ghost ls = views(suggestions@);
    let mut i: usize = 0;
    while i < suggestions.len()
        invariant
            i <= suggestions.len(),
            ls == views(suggestions@),
            out@ == start + lines_text(ls.take(i as int)),
        decreases suggestions.len() - i,
    {
        assert(ls.take(i + 1).drop_last() =~= ls.take(i as int));
        out.append(suggestions[i].as_str());
        out.append("\n");
        i = i + 1;
    }
    assert(ls.take(suggestions.len() as int) =~= ls);
    out
}

/// The word for an item kind in search results.
pub open spec fn kind_name(kind: ItemKind) -> Seq<char> {
    match kind {
        ItemKind::Module => "mod"@,
        ItemKind::ExternCrate => "extern crate"@,
        ItemKind::Use => "use"@,
        ItemKind::Struct => "struct"@,
        ItemKind::StructField => "field"@,
        ItemKind::Union => "union"@,
        ItemKind::Enum => "enum"@,
        ItemKind::Variant => "variant"@,
        ItemKind::Function => "fn"@,
        ItemKind::TypeAlias => "type"@,
        ItemKind::Constant => "const"@,
        ItemKind::Trait => "trait"@,
        ItemKind::TraitAlias => "trait alias"@,
        ItemKind::Impl => "impl"@,
        ItemKind::Static => "static"@,
        ItemKind::ExternType => "extern type"@,
        ItemKind::Macro => "macro"@,
        ItemKind::ProcAttribute => "attribute macro"@,
        ItemKind::ProcDerive => "derive macro"@,
        ItemKind::AssocConst => "assoc const"@,
        ItemKind::AssocType => "assoc type"@,
        ItemKind::Primitive => "primitive"@,
        ItemKind::Keyword => "keyword"@,
        ItemKind::Attribute => "attribute"@,
    }
}

/// The word for an item kind in search results.
fn render_kind(kind: ItemKind) -> (r: String)
    ensures
        r@ == kind_name(kind),
{
    match kind {
        ItemKind::Module => String::from_str("mod"),
        ItemKind::ExternCrate => String::from_str("extern crate"),
        ItemKind::Use => String::from_str("use"),
        ItemKind::Struct => String::from_str("struct"),
        ItemKind::StructField => String::from_str("field"),
        ItemKind::Union => String::from_str("union"),
        ItemKind::Enum => String::from_str("enum"),
        ItemKind::Variant => String::from_str("variant"),
        ItemKind::Function => String::from_str("fn"),
        ItemKind::TypeAlias => String::from_str("type"),
        ItemKind::Constant => String::from_str("const"),
        ItemKind::Trait => String::from_str("trait"),
        ItemKind::TraitAlias => String::from_str("trait alias"),
        ItemKind::Impl => String::from_str("impl"),
        ItemKind::Static => String::from_str("static"),
        ItemKind::ExternType => String::from_str("extern type"),
        ItemKind::Macro => String::from_str("macro"),
        ItemKind::ProcAttribute => String::from_str("attribute macro"),
        ItemKind::ProcDerive => String::from_str("derive macro"),
        ItemKind::AssocConst => String::from_str("assoc const"),
        ItemKind::AssocType => String::from_str("assoc type"),
        ItemKind::Primitive => String::from_str("primitive"),
        ItemKind::Keyword => String::from_str("keyword"),
        ItemKind::Attribute => String::from_str("attribute"),
    }
}

/// Each component, preceded by `::`.
pub open spec fn path_suffix_text(s: Seq<Seq<char>>) -> Seq<char>
    decreases s.len(),
{
    if s.len() == 0 {
        Seq::empty()
    } else {
        path_suffix_text(s.drop_last()) + "::"@ + s.last()
    }
}

/// The line of a search hit: its path, with the crate name in place of the
/// path's first component, and its kind in brackets.
pub open spec fn hit_line(crate_name: Seq<char>, hit: (Item, Seq<Seq<char>>, ItemKind, bool)) -> Seq<char> {
    let rest = if hit.1.len() == 0 {
        Seq::empty()
    } else {
        hit.1.drop_first()
    };
    "  "@ + crate_name + path_suffix_text(rest) + "  ("@ + kind_name(hit.2) + ")\n"@
}

/// The lines of the search hits `s`, in order.
pub open spec fn hit_lines(crate_name: Seq<char>, s: Seq<(Item, Seq<Seq<char>>, ItemKind, bool)>) -> Seq<char>
    decreases s.len(),
{
    if s.len() == 0 {
        Seq::empty()
    } else {
        hit_lines(crate_name, s.drop_last()) + hit_line(crate_name, s.last())
    }
}

/// Appends the line of one search hit.
fn push_hit_line(crate_name: &str, r: &SearchResult, out: &mut String)
    ensures
        final(out)@ == old(out)@ + hit_line(crate_name@, crate::lookup::hit_of(*r)),
{
    let ghost p = views(r.path@);
    let ghost rest = if p.len() == 0 {
        Seq::empty()
    } else {
        p.drop_first()
    };
    let ghost o = out@;
    out.append("  ");
    out.append(crate_name);
    let ghost start = out@;
    assert(start =~= o + "  "@ + crate_name@);
    let mut i: usize = 1;
    assert(rest.take(0) =~= Seq::<Seq<char>>::empty());
    while i < r.path.len()
        invariant
            1 <= i,
            p == views(r.path@),
            rest == (if p.len() == 0 {
                Seq::empty()
            } else {
                p.drop_first()
            }),
            i <= r.path.len() || r.path.len() == 0,
            r.path.len() == 0 ==> i == 1,
            out@ == start + path_suffix_text(rest.take(i - 1)),
        decreases r.path.len() - i,
    {
        assert(rest.take(i as int).drop_last() =~= rest.take(i - 1));
        assert(rest.take(i as int).last() == r.path@[i as int]@);
        out.append("::");
        out.append(r.path[i].as_str());
        i = i + 1;
    }
    if r.path.len() > 0 {
        assert(i == r.path.len());
        assert(rest.len() == i - 1);
        assert(rest.take(i - 1) =~= rest);
    } else {
        assert(rest =~= Seq::<Seq<char>>::empty());
        assert(rest.take(i - 1) =~= rest);
    }
    let ghost mid = out@;
    assert(mid =~= start + path_suffix_text(rest));
    assert(mid =~= o + "  "@ + crate_name@ + path_suffix_text(rest));
    out.append("  (");
    let k = render_kind(r.kind);
    out.append(k.as_str());
    out.append(")\n");
    assert(out@ =~= o + hit_line(crate_name@, crate::lookup::hit_of(*r)));
}

/// Renders search hits, one line each.
pub fn render_search_results(results: &Vec<SearchResult>, crate_name: &str) -> (r: String)
    ensures
        r@ == hit_lines(crate_name@, hits(results@)),
{
    let mut out = String::new();
    let ghost hs = hits(results@);
    let mut i: usize = 0;
    while i < results.len()
        invariant
            i <= results.len(),
            hs == hits(results@),
            out@ == hit_lines(crate_name@, hs.take(i as int)),
        decreases results.len() - i,
    {
        assert(hs.take(i + 1).drop_last() =~= hs.take(i as int));
        push_hit_line(crate_name, &results[i], &mut out);
        i = i + 1;
    }
    assert(hs.take(results.len() as int) =~= hs);
    out
}

} // verus!
