//! Finding items in a crate's documentation: by path, through the module tree,
//! as associated items of a type, and by name.
use crate::fetch::Crate;
use crate::model::{Id, Item, ItemEnum, ItemKind, ItemSummary};
use crate::strings::{
    contains_str, copy_str, has_substr, join, join_seq, lemma_str_lt_asym, lemma_str_lt_trans,
    lemma_views_push, lowercase, str_eq, str_less, str_lt, to_lowercase, views,
};
use vstd::prelude::*;

verus! {

broadcast use vstd::std_specs::hash::group_hash_axioms;

/// A found item, with the source path of the `use` item it was reached
/// through, when it was found via a re-export.
pub struct LookupResult<'a> {
    pub item: &'a Item,
    pub reexport_source: Option<String>,
}

/// Why a lookup failed.
pub enum LookupError {
    /// The root module is not in the index.
    RootMissing,
    /// No item has the path, which is given joined with `::`.
    NotFound { path: String },
}

// ── What the lookups find ───────────────────────────────────────────────

/// The characters of an optional string.
pub open spec fn opt_view(o: Option<String>) -> Option<Seq<char>> {
    match o {
        Some(s) => Some(s@),
        Option::None => Option::None,
    }
}

/// What a lookup result says: the item, and the re-export source if any.
pub open spec fn found<'a>(r: Option<LookupResult<'a>>) -> Option<(Item, Option<Seq<char>>)> {
    match r {
        Some(x) => Some((*x.item, opt_view(x.reexport_source))),
        Option::None => Option::None,
    }
}

/// The item that `id` identifies, if it is documented.
pub open spec fn item_at(k: Crate, id: Id) -> Option<Item> {
    if k.index@.contains_key(id) {
        Some(k.index@[id])
    } else {
        Option::None
    }
}

/// Whether `name` is the name of the item.
pub open spec fn has_name(it: Item, name: Seq<char>) -> bool {
    it.name matches Some(n) && n@ == name
}

/// Whether `q` is a proper tail of `path`: `path` is longer and ends with `q`.
pub open spec fn has_tail(path: Seq<Seq<char>>, q: Seq<Seq<char>>) -> bool {
    path.len() > q.len() && path.subrange(path.len() - q.len(), path.len() as int) == q
}

/// The documented item of the first entry in `entries` whose path has `q` as a proper tail.
pub open spec fn first_by_path(k: Crate, entries: Seq<(Id, ItemSummary)>, q: Seq<Seq<char>>) -> Option<Item>
    decreases entries.len(),
{
    if entries.len() == 0 {
        Option::None
    } else if has_tail(views(entries[0].1.path@), q) && item_at(k, entries[0].0) is Some {
        item_at(k, entries[0].0)
    } else {
        first_by_path(k, entries.drop_first(), q)
    }
}

/// The item found by a direct match of `q` against the path table.
pub open spec fn by_path(k: Crate, q: Seq<Seq<char>>) -> Option<Item> {
    first_by_path(k, k.paths@, q)
}

/// The item reached by walking `q` down from the items `children` of a module.
/// A `use` item whose name matches the last component yields its target (or
/// nothing at all if the target is not documented), together with the `use`'s source.
pub open spec fn walk(k: Crate, children: Seq<Id>, q: Seq<Seq<char>>) -> Option<(Item, Option<Seq<char>>)>
    decreases q.len(), children.len(),
{
    if q.len() == 0 || children.len() == 0 {
        Option::None
    } else {
        let target = q[0];
        let rest = q.drop_first();
        let next = walk(k, children.drop_first(), q);
        match item_at(k, children[0]) {
            Option::None => next,
            Some(child) => match child.inner {
                ItemEnum::Use(u) => if u.name@ == target {
                    if rest.len() == 0 {
                        match u.id {
                            Some(id) => match item_at(k, id) {
                                Some(t) => Some((t, Some(u.source@))),
                                Option::None => Option::None,
                            },
                            Option::None => Option::None,
                        }
                    } else {
                        match u.id {
                            Some(id) => match item_at(k, id) {
                                Some(t) => match t.inner {
                                    ItemEnum::Module(m) => walk(k, m.items@, rest),
                                    _ => next,
                                },
                                Option::None => next,
                            },
                            Option::None => next,
                        }
                    }
                } else {
                    next
                },
                _ => if has_name(child, target) {
                    if rest.len() == 0 {
                        Some((child, Option::None))
                    } else {
                        match child.inner {
                            ItemEnum::Module(m) => walk(k, m.items@, rest),
                            _ => next,
                        }
                    }
                } else {
                    next
                },
            },
        }
    }
}

/// The item reached by walking `q` down the module tree from the root.
pub open spec fn module_walk(k: Crate, q: Seq<Seq<char>>) -> Option<(Item, Option<Seq<char>>)> {
    match item_at(k, k.root) {
        Some(r) => match r.inner {
            ItemEnum::Module(m) => walk(k, m.items@, q),
            _ => Option::None,
        },
        Option::None => Option::None,
    }
}

/// The ids of the impl blocks of a struct, enum or union.
pub open spec fn impl_ids(it: Item) -> Option<Seq<Id>> {
    match it.inner {
        ItemEnum::Struct(s) => Some(s.impls@),
        ItemEnum::Enum(e) => Some(e.impls@),
        ItemEnum::Union(u) => Some(u.impls@),
        _ => Option::None,
    }
}

/// The first documented item among `ids` with the given name.
pub open spec fn first_named(k: Crate, ids: Seq<Id>, name: Seq<char>) -> Option<Item>
    decreases ids.len(),
{
    if ids.len() == 0 {
        Option::None
    } else {
        match item_at(k, ids[0]) {
            Some(it) => if has_name(it, name) {
                Some(it)
            } else {
                first_named(k, ids.drop_first(), name)
            },
            Option::None => first_named(k, ids.drop_first(), name),
        }
    }
}

/// The first item named `name` in the impl blocks `impls`, searched in order;
/// the search stops with nothing at the first impl id that is not documented.
pub open spec fn assoc_in_impls(k: Crate, impls: Seq<Id>, name: Seq<char>) -> Option<Item>
    decreases impls.len(),
{
    if impls.len() == 0 {
        Option::None
    } else {
        match item_at(k, impls[0]) {
            Option::None => Option::None,
            Some(imp) => match imp.inner {
                ItemEnum::Impl(d) => match first_named(k, d.items@, name) {
                    Some(it) => Some(it),
                    Option::None => assoc_in_impls(k, impls.drop_first(), name),
                },
                _ => assoc_in_impls(k, impls.drop_first(), name),
            },
        }
    }
}

/// The associated item named `name` of a struct, enum or union.
pub open spec fn assoc_item(k: Crate, ty: Item, name: Seq<char>) -> Option<Item> {
    match impl_ids(ty) {
        Some(ids) => assoc_in_impls(k, ids, name),
        Option::None => Option::None,
    }
}

/// The type that `q` names: by the path table first, else by the module tree.
pub open spec fn type_lookup(k: Crate, q: Seq<Seq<char>>) -> Option<(Item, Option<Seq<char>>)> {
    match by_path(k, q) {
        Some(t) => Some((t, Option::None)),
        Option::None => module_walk(k, q),
    }
}

/// What a lookup of `q` finds: the root module for an empty path; else a
/// direct path match; else a module-tree match; else, for two or more
/// components, the associated item named by the last component of the type
/// that the others name.
pub open spec fn lookup(k: Crate, q: Seq<Seq<char>>) -> Option<(Item, Option<Seq<char>>)> {
    if q.len() == 0 {
        match item_at(k, k.root) {
            Some(r) => Some((r, Option::None)),
            Option::None => Option::None,
        }
    } else if by_path(k, q) is Some {
        Some((by_path(k, q).unwrap(), Option::None))
    } else if module_walk(k, q) is Some {
        module_walk(k, q)
    } else if q.len() >= 2 {
        match type_lookup(k, q.drop_last()) {
            Some((t, src)) => match assoc_item(k, t, q.last()) {
                Some(m) => Some((m, src)),
                Option::None => Option::None,
            },
            Option::None => Option::None,
        }
    } else {
        Option::None
    }
}

// ── The lookups ─────────────────────────────────────────────────────────

/// The documented item with id `id`.
pub fn get_item<'a>(krate: &'a Crate, id: Id) -> (r: Option<&'a Item>)
    ensures
        match r {
            Some(it) => item_at(*krate, id) == Some(*it),
            Option::None => item_at(*krate, id) is None,
        },
{
    krate.index.get(&id)
}

/// Whether `query` is a proper tail of `path`.
fn tail_equals(path: &Vec<String>, query: &[String]) -> (r: bool)
    ensures
        r == has_tail(views(path@), views(query@)),
{
    if path.len() <= query.len() {
        return false;
    }
    let off = path.len() - query.len();
    let ghost p = views(path@);
    let ghost q = views(query@);
    let mut i: usize = 0;
    while i < query.len()
        invariant
            off + query.len() == path.len(),
            i <= query.len(),
            p == views(path@),
            q == views(query@),
            forall|j: int| 0 <= j < i ==> p[off + j] == q[j],
        decreases query.len() - i,
    {
        if !str_eq(&path[off + i], &query[i]) {
            assert(p.subrange(off as int, p.len() as int)[i as int] != q[i as int]);
            return false;
        }
        i = i + 1;
    }
    assert(p.subrange(off as int, p.len() as int) =~= q);
    true
}

/// Finds an item whose full path ends with `query` (and is longer than it),
/// by searching the path table.
fn find_by_path<'a>(krate: &'a Crate, query: &[String]) -> (r: Option<&'a Item>)
    ensures
        match r {
            Some(it) => by_path(*krate, views(query@)) == Some(*it),
            Option::None => by_path(*krate, views(query@)) is None,
        },
{
    let ghost q = views(query@);
    let mut i: usize = 0;
    assert(krate.paths@.skip(0) =~= krate.paths@);
    while i < krate.paths.len()
        invariant
            i <= krate.paths.len(),
            q == views(query@),
            by_path(*krate, q) == first_by_path(*krate, krate.paths@.skip(i as int), q),
        decreases krate.paths.len() - i,
    {
        assert(krate.paths@.skip(i as int).drop_first() =~= krate.paths@.skip(i + 1));
        let entry = &krate.paths[i];
        if tail_equals(&entry.1.path, query) {
            match get_item(krate, entry.0) {
                Some(item) => {
                    return Some(item);
                },
                Option::None => {},
            }
        }
        i = i + 1;
    }
    Option::None
}

/// Walks the module tree from the root, matching `query` component by component.
/// This finds items re-exported under a path other than their own.
pub fn find_by_module_walk<'a>(krate: &'a Crate, query: &[String]) -> (r: Option<LookupResult<'a>>)
    ensures
        found(r) == module_walk(*krate, views(query@)),
{
    match get_item(krate, krate.root) {
        Some(root) => match &root.inner {
            ItemEnum::Module(m) => {
                assert(views(query@).skip(0) =~= views(query@));
                walk_module_children(krate, &m.items, query, 0)
            },
            _ => Option::None,
        },
        Option::None => Option::None,
    }
}

/// Matches `query[start..]` against the items `children` of a module and
/// their descendants.
fn walk_module_children<'a>(krate: &'a Crate, children: &Vec<Id>, query: &[String], start: usize) -> (r: Option<LookupResult<'a>>)
    requires
        start <= query.len(),
    ensures
        found(r) == walk(*krate, children@, views(query@).skip(start as int)),
    decreases query.len() - start,
{
    if start >= query.len() {
        return Option::None;
    }
    let ghost q = views(query@).skip(start as int);
    let target = &query[start];
    assert(q[0] == target@);
    assert(q.drop_first() =~= views(query@).skip(start + 1));
    let last = start + 1 == query.len();
    assert(last == (q.drop_first().len() == 0));
    let mut i: usize = 0;
    assert(children@.skip(0) =~= children@);
    while i < children.len()
        invariant
            i <= children.len(),
            start < query.len(),
            q == views(query@).skip(start as int),
            q[0] == target@,
            q.drop_first() =~= views(query@).skip(start + 1),
            last == (q.drop_first().len() == 0),
            walk(*krate, children@, q) == walk(*krate, children@.skip(i as int), q),
        decreases children.len() - i,
    {
        let ghost cs = children@.skip(i as int);
        assert(cs[0] == children@[i as int]);
        assert(cs.drop_first() =~= children@.skip(i + 1));
        match get_item(krate, children[i]) {
            Option::None => {},
            Some(child) => match &child.inner {
                ItemEnum::Use(u) => {
                    if str_eq(&u.name, target) {
                        if last {
                            match u.id {
                                Some(id) => match get_item(krate, id) {
                                    Some(t) => {
                                        return Some(
                                            LookupResult { item: t, reexport_source: Some(copy_str(&u.source)) },
                                        );
                                    },
                                    Option::None => {
                                        return Option::None;
                                    },
                                },
                                Option::None => {
                                    return Option::None;
                                },
                            }
                        }
                        match u.id {
                            Some(id) => match get_item(krate, id) {
                                Some(t) => match &t.inner {
                                    ItemEnum::Module(m) => {
                                        return walk_module_children(krate, &m.items, query, start + 1);
                                    },
                                    _ => {},
                                },
                                Option::None => {},
                            },
                            Option::None => {},
                        }
                    }
                },
                _ => {
                    let named = match &child.name {
                        Some(n) => str_eq(n, target),
                        Option::None => false,
                    };
                    if named {
                        if last {
                            return Some(LookupResult { item: child, reexport_source: Option::None });
                        }
                        match &child.inner {
                            ItemEnum::Module(m) => {
                                return walk_module_children(krate, &m.items, query, start + 1);
                            },
                            _ => {},
                        }
                    }
                },
            },
        }
        i = i + 1;
    }
    Option::None
}

/// The ids of the impl blocks of a struct, enum or union.
fn get_impl_ids(item: &Item) -> (r: Option<&Vec<Id>>)
    ensures
        match r {
            Some(v) => impl_ids(*item) == Some(v@),
            Option::None => impl_ids(*item) is None,
        },
{
    match &item.inner {
        ItemEnum::Struct(s) => Some(&s.impls),
        ItemEnum::Enum(e) => Some(&e.impls),
        ItemEnum::Union(u) => Some(&u.impls),
        _ => Option::None,
    }
}

/// The first documented item among `ids` named `name`.
fn find_named<'a>(krate: &'a Crate, ids: &Vec<Id>, name: &String) -> (r: Option<&'a Item>)
    ensures
        match r {
            Some(it) => first_named(*krate, ids@, name@) == Some(*it),
            Option::None => first_named(*krate, ids@, name@) is None,
        },
{
    let mut i: usize = 0;
    assert(ids@.skip(0) =~= ids@);
    while i < ids.len()
        invariant
            i <= ids.len(),
            first_named(*krate, ids@, name@) == first_named(*krate, ids@.skip(i as int), name@),
        decreases ids.len() - i,
    {
        assert(ids@.skip(i as int).drop_first() =~= ids@.skip(i + 1));
        match get_item(krate, ids[i]) {
            Some(it) => {
                let named = match &it.name {
                    Some(n) => str_eq(n, name),
                    Option::None => false,
                };
                if named {
                    return Some(it);
                }
            },
            Option::None => {},
        }
        i = i + 1;
    }
    Option::None
}

/// Finds a method or associated item named `name` in the impl blocks of a type.
fn find_assoc_item<'a>(krate: &'a Crate, type_item: &Item, name: &String) -> (r: Option<&'a Item>)
    ensures
        match r {
            Some(it) => assoc_item(*krate, *type_item, name@) == Some(*it),
            Option::None => assoc_item(*krate, *type_item, name@) is None,
        },
{
    let impls = match get_impl_ids(type_item) {
        Some(v) => v,
        Option::None => {
            return Option::None;
        },
    };
    let mut i: usize = 0;
    assert(impls@.skip(0) =~= impls@);
    while i < impls.len()
        invariant
            i <= impls.len(),
            impl_ids(*type_item) == Some(impls@),
            assoc_item(*krate, *type_item, name@) == assoc_in_impls(*krate, impls@.skip(i as int), name@),
        decreases impls.len() - i,
    {
        assert(impls@.skip(i as int).drop_first() =~= impls@.skip(i + 1));
        match get_item(krate, impls[i]) {
            Option::None => {
                return Option::None;
            },
            Some(imp) => match &imp.inner {
                ItemEnum::Impl(d) => match find_named(krate, &d.items, name) {
                    Some(it) => {
                        return Some(it);
                    },
                    Option::None => {},
                },
                _ => {},
            },
        }
        i = i + 1;
    }
    Option::None
}

/// Copies the first `n` strings of `v`.
fn copy_prefix(v: &[String], n: usize) -> (r: Vec<String>)
    requires
        n <= v@.len(),
    ensures
        views(r@) == views(v@).take(n as int),
{
    let mut r: Vec<String> = Vec::new();
    let mut i: usize = 0;
    while i < n
        invariant
            i <= n,
            n <= v@.len(),
            views(r@) == views(v@).take(i as int),
        decreases n - i,
    {
        let c = copy_str(&v[i]);
        let ghost before = r@;
        r.push(c);
        proof {
            lemma_views_push(before, c);
        }
        assert(views(r@) =~= views(v@).take(i + 1));
        i = i + 1;
    }
    r
}

impl LookupError {
    /// The error's message.
    pub fn message(&self) -> (r: String)
        ensures
            r@ == match self {
                LookupError::RootMissing => "root item not found in index"@,
                LookupError::NotFound { path } => "item `"@ + path@ + "` not found"@,
            },
    {
        match self {
            LookupError::RootMissing => String::from_str("root item not found in index"),
            LookupError::NotFound { path } => {
                let mut s = String::from_str("item `");
                s.append(path.as_str());
                s.append("` not found");
                s
            },
        }
    }
}

/// Finds an item by path components (e.g. `["Timestamp"]` or `["de", "Deserialize"]`).
///
/// An empty path gives the root module. Otherwise the path table is tried first,
/// then the module tree (which finds re-exports); for a path of two or more
/// components, the last is then looked up as an associated item of the type that
/// the others name.
pub fn lookup_item<'a>(krate: &'a Crate, path: &[String]) -> (r: Result<LookupResult<'a>, LookupError>)
    ensures
        match r {
            Ok(x) => lookup(*krate, views(path@)) == Some((*x.item, opt_view(x.reexport_source))),
            Err(e) => lookup(*krate, views(path@)) is None && match e {
                LookupError::RootMissing => path@.len() == 0,
                LookupError::NotFound { path: p } => path@.len() > 0 && p@ == join_seq(
                    views(path@),
                    "::"@,
                ),
            },
        },
{
    let ghost q = views(path@);
    if path.len() == 0 {
        return match get_item(krate, krate.root) {
            Some(item) => Ok(LookupResult { item, reexport_source: Option::None }),
            Option::None => Err(LookupError::RootMissing),
        };
    }
    match find_by_path(krate, path) {
        Some(item) => {
            return Ok(LookupResult { item, reexport_source: Option::None });
        },
        Option::None => {},
    }
    match find_by_module_walk(krate, path) {
        Some(result) => {
            return Ok(result);
        },
        Option::None => {},
    }
    if path.len() >= 2 {
        let n = path.len() - 1;
        let type_path = copy_prefix(path, n);
        assert(views(type_path@) =~= q.drop_last());
        let method_name = &path[n];
        let type_result = match find_by_path(krate, type_path.as_slice()) {
            Some(item) => Some(LookupResult { item, reexport_source: Option::None }),
            Option::None => find_by_module_walk(krate, type_path.as_slice()),
        };
        assert(found(type_result) == type_lookup(*krate, q.drop_last()));
        match type_result {
            Some(t) => match find_assoc_item(krate, t.item, method_name) {
                Some(method) => {
                    return Ok(LookupResult { item: method, reexport_source: t.reexport_source });
                },
                Option::None => {},
            },
            Option::None => {},
        }
    }
    let mut parts: Vec<String> = Vec::new();
    let mut i: usize = 0;
    while i < path.len()
        invariant
            i <= path.len(),
            views(parts@) == views(path@).take(i as int),
        decreases path.len() - i,
    {
        let c = copy_str(&path[i]);
        let ghost before = parts@;
        parts.push(c);
        proof {
            lemma_views_push(before, c);
        }
        assert(views(parts@) =~= views(path@).take(i + 1));
        i = i + 1;
    }
    assert(views(path@).take(path.len() as int) =~= views(path@));
    Err(LookupError::NotFound { path: join(&parts, "::") })
}

// ── Methods and trait implementations ───────────────────────────────────

/// The documented items among `ids`, in order.
pub open spec fn documented(k: Crate, ids: Seq<Id>) -> Seq<Item>
    decreases ids.len(),
{
    if ids.len() == 0 {
        Seq::empty()
    } else {
        let rest = documented(k, ids.drop_last());
        match item_at(k, ids.last()) {
            Some(it) => rest.push(it),
            Option::None => rest,
        }
    }
}

/// The items of the inherent (trait-less) impl blocks among `impls`, in order.
pub open spec fn inherent_items(k: Crate, impls: Seq<Id>) -> Seq<Item>
    decreases impls.len(),
{
    if impls.len() == 0 {
        Seq::empty()
    } else {
        let rest = inherent_items(k, impls.drop_last());
        match item_at(k, impls.last()) {
            Some(imp) => match imp.inner {
                ItemEnum::Impl(d) => if d.trait_ is None {
                    rest + documented(k, d.items@)
                } else {
                    rest
                },
                _ => rest,
            },
            Option::None => rest,
        }
    }
}

/// The inherent methods of a type: the items of its inherent impl blocks.
pub open spec fn methods_of(k: Crate, ty: Item) -> Seq<Item> {
    match impl_ids(ty) {
        Some(ids) => inherent_items(k, ids),
        Option::None => Seq::empty(),
    }
}

/// The trait impl blocks among `impls` that are neither synthetic nor blanket
/// impls, each with the path of its trait, in order.
pub open spec fn trait_impls_in(k: Crate, impls: Seq<Id>) -> Seq<(Item, Seq<char>)>
    decreases impls.len(),
{
    if impls.len() == 0 {
        Seq::empty()
    } else {
        let rest = trait_impls_in(k, impls.drop_last());
        match item_at(k, impls.last()) {
            Some(imp) => match imp.inner {
                ItemEnum::Impl(d) => match d.trait_ {
                    Some(tr) => if d.is_synthetic || d.blanket_impl is Some {
                        rest
                    } else {
                        rest.push((imp, tr.path@))
                    },
                    Option::None => rest,
                },
                _ => rest,
            },
            Option::None => rest,
        }
    }
}

/// The trait implementations of a type.
pub open spec fn trait_impls_of(k: Crate, ty: Item) -> Seq<(Item, Seq<char>)> {
    match impl_ids(ty) {
        Some(ids) => trait_impls_in(k, ids),
        Option::None => Seq::empty(),
    }
}

/// The items that a sequence of references refers to.
pub open spec fn derefs<'a>(s: Seq<&'a Item>) -> Seq<Item> {
    s.map_values(|x: &'a Item| *x)
}

/// Appends the documented items among `ids` to `out`.
fn push_documented<'a>(krate: &'a Crate, ids: &Vec<Id>, out: &mut Vec<&'a Item>)
    ensures
        derefs(final(out)@) == derefs(old(out)@) + documented(*krate, ids@),
{
    let ghost start = derefs(out@);
    let mut i: usize = 0;
    while i < ids.len()
        invariant
            i <= ids.len(),
            derefs(out@) == start + documented(*krate, ids@.take(i as int)),
        decreases ids.len() - i,
    {
        assert(ids@.take(i + 1).drop_last() =~= ids@.take(i as int));
        assert(ids@.take(i + 1).last() == ids@[i as int]);
        match get_item(krate, ids[i]) {
            Some(it) => {
                let ghost before = out@;
                out.push(it);
                assert(derefs(out@) =~= derefs(before).push(*it));
                assert(derefs(out@) =~= start + documented(*krate, ids@.take(i + 1)));
            },
            Option::None => {},
        }
        i = i + 1;
    }
    assert(ids@.take(ids.len() as int) =~= ids@);
}

/// Collects the inherent methods (items of impl blocks without a trait) of a type.
pub fn find_methods<'a>(krate: &'a Crate, type_item: &Item) -> (r: Vec<&'a Item>)
    ensures
        derefs(r@) == methods_of(*krate, *type_item),
{
    let mut methods: Vec<&'a Item> = Vec::new();
    let impls = match get_impl_ids(type_item) {
        Some(v) => v,
        Option::None => {
            assert(derefs(methods@) =~= Seq::empty());
            return methods;
        },
    };
    let mut i: usize = 0;
    assert(derefs(methods@) =~= inherent_items(*krate, impls@.take(0)));
    while i < impls.len()
        invariant
            i <= impls.len(),
            derefs(methods@) == inherent_items(*krate, impls@.take(i as int)),
        decreases impls.len() - i,
    {
        assert(impls@.take(i + 1).drop_last() =~= impls@.take(i as int));
        assert(impls@.take(i + 1).last() == impls@[i as int]);
        match get_item(krate, impls[i]) {
            Some(imp) => match &imp.inner {
                ItemEnum::Impl(d) => {
                    if d.trait_.is_none() {
                        push_documented(krate, &d.items, &mut methods);
                    }
                },
                _ => {},
            },
            Option::None => {},
        }
        i = i + 1;
    }
    assert(impls@.take(impls.len() as int) =~= impls@);
    methods
}

/// The items and trait paths of a sequence of trait implementations.
pub open spec fn impl_pairs<'a>(s: Seq<(&'a Item, String)>) -> Seq<(Item, Seq<char>)> {
    s.map_values(|x: (&'a Item, String)| (*x.0, x.1@))
}

/// Collects the trait implementations of a type, each with the path of its trait.
/// Synthetic and blanket impls are left out.
pub fn find_trait_impls<'a>(krate: &'a Crate, type_item: &Item) -> (r: Vec<(&'a Item, String)>)
    ensures
        impl_pairs(r@) == trait_impls_of(*krate, *type_item),
{
    let mut out: Vec<(&'a Item, String)> = Vec::new();
    let impls = match get_impl_ids(type_item) {
        Some(v) => v,
        Option::None => {
            assert(impl_pairs(out@) =~= Seq::empty());
            return out;
        },
    };
    let mut i: usize = 0;
    assert(impl_pairs(out@) =~= trait_impls_in(*krate, impls@.take(0)));
    while i < impls.len()
        invariant
            i <= impls.len(),
            impl_pairs(out@) == trait_impls_in(*krate, impls@.take(i as int)),
        decreases impls.len() - i,
    {
        assert(impls@.take(i + 1).drop_last() =~= impls@.take(i as int));
        assert(impls@.take(i + 1).last() == impls@[i as int]);
        match get_item(krate, impls[i]) {
            Some(imp) => match &imp.inner {
                ItemEnum::Impl(d) => match &d.trait_ {
                    Some(tr) => {
                        if !d.is_synthetic && d.blanket_impl.is_none() {
                            out.push((imp, copy_str(&tr.path)));
                            assert(impl_pairs(out@) =~= trait_impls_in(*krate, impls@.take(i + 1)));
                        }
                    },
                    Option::None => {},
                },
                _ => {},
            },
            Option::None => {},
        }
        i = i + 1;
    }
    assert(impls@.take(impls.len() as int) =~= impls@);
    out
}

// ── Search ──────────────────────────────────────────────────────────────

/// A search hit.
pub struct SearchResult<'a> {
    pub item: &'a Item,
    /// The full path of the item, starting with the crate name.
    pub path: &'a Vec<String>,
    pub kind: ItemKind,
    /// True if the item name matches the search term exactly (case-insensitive).
    pub exact: bool,
}

/// The most results a search returns.
pub const MAX_SEARCH_RESULTS: usize = 20;

/// Kinds left out of search results (internal details).
pub open spec fn excluded_kind(kind: ItemKind) -> bool {
    kind == ItemKind::Impl || kind == ItemKind::Variant || kind == ItemKind::StructField
}

/// Whether `kind` is left out of search results.
fn is_excluded_kind(kind: ItemKind) -> (r: bool)
    ensures
        r == excluded_kind(kind),
{
    match kind {
        ItemKind::Impl | ItemKind::Variant | ItemKind::StructField => true,
        _ => false,
    }
}

/// What a search hit says: the item, its full path, its kind, and whether the match is exact.
pub open spec fn hit_of<'a>(r: SearchResult<'a>) -> (Item, Seq<Seq<char>>, ItemKind, bool) {
    (*r.item, views(r.path@), r.kind, r.exact)
}

/// What a sequence of search hits says.
pub open spec fn hits<'a>(s: Seq<SearchResult<'a>>) -> Seq<(Item, Seq<Seq<char>>, ItemKind, bool)> {
    s.map_values(|r: SearchResult<'a>| hit_of(r))
}

/// The hits for `term` among the path table entries `entries`, in table order:
/// entries of a kind that is not excluded, with a path of more than the crate
/// name, whose last path component contains the term ignoring case, and whose
/// item is documented. A hit is exact when the lowercased name equals the lowercased term.
pub open spec fn search_hits(k: Crate, entries: Seq<(Id, ItemSummary)>, term: Seq<char>) -> Seq<
    (Item, Seq<Seq<char>>, ItemKind, bool),
>
    decreases entries.len(),
{
    if entries.len() == 0 {
        Seq::empty()
    } else {
        let rest = search_hits(k, entries.drop_last(), term);
        let e = entries.last();
        let p = views(e.1.path@);
        if !excluded_kind(e.1.kind) && p.len() > 1 && has_substr(lowercase(p.last()), lowercase(term))
            && item_at(k, e.0) is Some {
            rest.push((item_at(k, e.0).unwrap(), p, e.1.kind, lowercase(p.last()) == lowercase(term)))
        } else {
            rest
        }
    }
}

/// Lexicographic order on paths, comparing components in code-point order:
/// whether `a` comes strictly before `b`.
pub open spec fn path_lt(a: Seq<Seq<char>>, b: Seq<Seq<char>>) -> bool
    decreases a.len(),
{
    if b.len() == 0 {
        false
    } else if a.len() == 0 {
        true
    } else if a[0] != b[0] {
        str_lt(a[0], b[0])
    } else {
        path_lt(a.drop_first(), b.drop_first())
    }
}

/// Whether hit `a` is listed before hit `b`: exact matches first, then by path.
pub open spec fn hit_before(a: (Item, Seq<Seq<char>>, ItemKind, bool), b: (Item, Seq<Seq<char>>, ItemKind, bool)) -> bool {
    (a.3 && !b.3) || (a.3 == b.3 && path_lt(a.1, b.1))
}

/// Whether no hit of `s` should come before an earlier one.
pub open spec fn ordered(s: Seq<(Item, Seq<Seq<char>>, ItemKind, bool)>) -> bool {
    forall|i: int, j: int| 0 <= i < j < s.len() ==> !hit_before(#[trigger] s[j], #[trigger] s[i])
}

/// `x` inserted into `s` just before the first hit that `x` is listed before,
/// or at the end: after every hit that is not listed after it.
pub open spec fn insert_hit(
    s: Seq<(Item, Seq<Seq<char>>, ItemKind, bool)>,
    x: (Item, Seq<Seq<char>>, ItemKind, bool),
) -> Seq<(Item, Seq<Seq<char>>, ItemKind, bool)>
    decreases s.len(),
{
    if s.len() == 0 {
        seq![x]
    } else if hit_before(x, s[0]) {
        seq![x] + s
    } else {
        seq![s[0]] + insert_hit(s.drop_first(), x)
    }
}

/// The hits `s` sorted stably by `hit_before`: exact matches first, then by
/// path, and hits that neither comes before keep the order they have in `s`.
pub open spec fn sort_hits(s: Seq<(Item, Seq<Seq<char>>, ItemKind, bool)>) -> Seq<
    (Item, Seq<Seq<char>>, ItemKind, bool),
>
    decreases s.len(),
{
    if s.len() == 0 {
        Seq::empty()
    } else {
        insert_hit(sort_hits(s.drop_last()), s.last())
    }
}

/// Whether each id occurs at most once in the path table, as in the map it is read from.
pub open spec fn paths_unique(k: Crate) -> bool {
    forall|i: int, j: int|
        0 <= i < j < k.paths@.len() ==> #[trigger] k.paths@[i].0 != #[trigger] k.paths@[j].0
}

/// Paths are ordered component by component: `a` comes before `b` exactly
/// when they agree on the first `n` components and then `a` ends while `b` goes
/// on, or `a`'s component at `n` comes before `b`'s.
pub proof fn lemma_path_lt_lexicographic(a: Seq<Seq<char>>, b: Seq<Seq<char>>, n: int)
    requires
        0 <= n <= a.len(),
        n <= b.len(),
        a.take(n) == b.take(n),
    ensures
        n == a.len() && n < b.len() ==> path_lt(a, b),
        n < a.len() && n < b.len() && str_lt(a[n], b[n]) ==> path_lt(a, b),
        n < a.len() && n < b.len() && str_lt(b[n], a[n]) ==> !path_lt(a, b),
        n == b.len() ==> !path_lt(a, b),
    decreases n,
{
    if n > 0 {
        assert(a[0] == a.take(n)[0] && b[0] == b.take(n)[0]);
        assert(a.drop_first().take(n - 1) =~= a.take(n).drop_first());
        assert(b.drop_first().take(n - 1) =~= b.take(n).drop_first());
        lemma_path_lt_lexicographic(a.drop_first(), b.drop_first(), n - 1);
    } else if n < a.len() && n < b.len() {
        lemma_str_lt_asym(a[0], b[0]);
    }
}

/// `path_lt` is irreflexive and asymmetric.
proof fn lemma_path_lt_asym(a: Seq<Seq<char>>, b: Seq<Seq<char>>)
    ensures
        !path_lt(a, a),
        path_lt(a, b) ==> !path_lt(b, a),
    decreases a.len(),
{
    if a.len() > 0 {
        lemma_path_lt_asym(a.drop_first(), a.drop_first());
        if b.len() > 0 {
            lemma_path_lt_asym(a.drop_first(), b.drop_first());
            lemma_str_lt_asym(a[0], b[0]);
        }
    }
}

/// `path_lt` is transitive.
proof fn lemma_path_lt_trans(a: Seq<Seq<char>>, b: Seq<Seq<char>>, c: Seq<Seq<char>>)
    requires
        path_lt(a, b),
        path_lt(b, c),
    ensures
        path_lt(a, c),
    decreases a.len(),
{
    if a.len() > 0 && b.len() > 0 && c.len() > 0 {
        if a[0] == b[0] && b[0] == c[0] {
            lemma_path_lt_trans(a.drop_first(), b.drop_first(), c.drop_first());
        } else if a[0] != b[0] && b[0] != c[0] {
            lemma_str_lt_trans(a[0], b[0], c[0]);
            lemma_str_lt_asym(a[0], c[0]);
            if a[0] == c[0] {
                lemma_str_lt_asym(a[0], b[0]);
                lemma_str_lt_trans(b[0], c[0], a[0]);
            }
        }
    }
}

/// `hit_before` is asymmetric and transitive.
proof fn lemma_hit_before(
    a: (Item, Seq<Seq<char>>, ItemKind, bool),
    b: (Item, Seq<Seq<char>>, ItemKind, bool),
    c: (Item, Seq<Seq<char>>, ItemKind, bool),
)
    ensures
        hit_before(a, b) ==> !hit_before(b, a),
        hit_before(a, b) && hit_before(b, c) ==> hit_before(a, c),
{
    lemma_path_lt_asym(a.1, b.1);
    if path_lt(a.1, b.1) && path_lt(b.1, c.1) {
        lemma_path_lt_trans(a.1, b.1, c.1);
    }
}

/// Whether path `a` comes strictly before path `b`.
fn path_less(a: &Vec<String>, b: &Vec<String>) -> (r: bool)
    ensures
        r == path_lt(views(a@), views(b@)),
{
    let ghost x = views(a@);
    let ghost y = views(b@);
    let mut i: usize = 0;
    assert(x.skip(0) =~= x);
    assert(y.skip(0) =~= y);
    while i < a.len() && i < b.len()
        invariant
            x == views(a@),
            y == views(b@),
            i <= a.len(),
            i <= b.len(),
            path_lt(x, y) == path_lt(x.skip(i as int), y.skip(i as int)),
        decreases a.len() - i,
    {
        assert(x.skip(i as int)[0] == x[i as int]);
        assert(y.skip(i as int)[0] == y[i as int]);
        assert(x.skip(i as int).drop_first() =~= x.skip(i + 1));
        assert(y.skip(i as int).drop_first() =~= y.skip(i + 1));
        if !str_eq(&a[i], &b[i]) {
            return str_less(a[i].as_str(), b[i].as_str());
        }
        i = i + 1;
    }
    i < b.len()
}

/// Whether hit `a` is listed before hit `b`.
fn result_before<'a>(a: &SearchResult<'a>, b: &SearchResult<'a>) -> (r: bool)
    ensures
        r == hit_before(hit_of(*a), hit_of(*b)),
{
    if a.exact != b.exact {
        a.exact
    } else {
        path_less(a.path, b.path)
    }
}

/// Inserts `c` into the ordered hits `out`, after every hit not listed after it.
fn insert_ordered<'a>(out: &mut Vec<SearchResult<'a>>, c: SearchResult<'a>)
    requires
        ordered(hits(old(out)@)),
    ensures
        hits(final(out)@) == insert_hit(hits(old(out)@), hit_of(c)),
        ordered(hits(final(out)@)),
        hits(final(out)@).to_multiset() == hits(old(out)@).to_multiset().insert(hit_of(c)),
{
    let ghost before = hits(out@);
    let ghost x = hit_of(c);
    let mut p: usize = 0;
    assert(before.take(0) + insert_hit(before.skip(0), x) =~= insert_hit(before, x)) by {
        assert(before.skip(0) =~= before);
    }
    while p < out.len() && !result_before(&c, &out[p])
        invariant
            p <= out.len(),
            before == hits(out@),
            x == hit_of(c),
            forall|j: int| 0 <= j < p ==> !hit_before(hit_of(c), #[trigger] before[j]),
            insert_hit(before, x) == before.take(p as int) + insert_hit(before.skip(p as int), x),
        decreases out.len() - p,
    {
        proof {
            let t = before.skip(p as int);
            assert(t[0] == before[p as int]);
            assert(t.drop_first() =~= before.skip(p + 1));
            assert(before.take(p as int) + seq![before[p as int]] =~= before.take(p + 1));
            assert(before.take(p as int) + (seq![t[0]] + insert_hit(t.drop_first(), x)) =~= before.take(p
                + 1) + insert_hit(before.skip(p + 1), x));
        }
        p = p + 1;
    }
    out.insert(p, c);
    assert(hits(out@) =~= before.insert(p as int, x));
    proof {
        let t = before.skip(p as int);
        if p == before.len() {
            assert(t =~= Seq::<(Item, Seq<Seq<char>>, ItemKind, bool)>::empty());
        } else {
            assert(t[0] == before[p as int]);
        }
        assert(before.insert(p as int, x) =~= before.take(p as int) + insert_hit(t, x));
    }
    proof {
        vstd::seq_lib::to_multiset_insert(before, p as int, x);
        let after = hits(out@);
        assert forall|i: int, j: int| 0 <= i < j < after.len() implies !hit_before(
            #[trigger] after[j],
            #[trigger] after[i],
        ) by {
            if j == p {
                assert(after[i] == before[i]);
            } else if i == p {
                assert(after[j] == before[j - 1]);
                lemma_hit_before(x, before[p as int], before[j - 1]);
                lemma_hit_before(before[j - 1], x, before[p as int]);
            } else {
                let bi = if i < p { i } else { i - 1 };
                let bj = if j < p { j } else { j - 1 };
                assert(after[i] == before[bi]);
                assert(after[j] == before[bj]);
            }
        }
    }
}

/// Searches the path table for items whose name contains `term`, ignoring case.
///
/// Exact matches come first, then the rest in path order; at most
/// `MAX_SEARCH_RESULTS` hits are returned.
pub fn search_items<'a>(krate: &'a Crate, term: &str) -> (r: Vec<SearchResult<'a>>)
    requires
        paths_unique(*krate),
    ensures
        ({
            let all = search_hits(*krate, krate.paths@, term@);
            let got = hits(r@);
            &&& got == sort_hits(all).take(got.len() as int)
            &&& got.len() == if all.len() < MAX_SEARCH_RESULTS {
                all.len()
            } else {
                MAX_SEARCH_RESULTS as nat
            }
            &&& ordered(got)
            &&& forall|i: int| 0 <= i < got.len() ==> hit_matches(#[trigger] got[i], term@)
            &&& got.to_multiset().subset_of(all.to_multiset())
            &&& forall|x: (Item, Seq<Seq<char>>, ItemKind, bool)|
                #![trigger all.to_multiset().count(x)]
                all.to_multiset().count(x) > got.to_multiset().count(x) ==> forall|i: int|
                    0 <= i < got.len() ==> !hit_before(x, got[i])
        }),
{
    let term_lower = to_lowercase(term);
    let mut results: Vec<SearchResult<'a>> = Vec::new();
    let mut i: usize = 0;
    assert(hits(results@) =~= Seq::empty());
    while i < krate.paths.len()
        invariant
            i <= krate.paths.len(),
            term_lower@ == lowercase(term@),
            ordered(hits(results@)),
            hits(results@) == sort_hits(search_hits(*krate, krate.paths@.take(i as int), term@)),
            hits(results@).to_multiset() == search_hits(*krate, krate.paths@.take(i as int), term@).to_multiset(),
        decreases krate.paths.len() - i,
    {
        assert(krate.paths@.take(i + 1).drop_last() =~= krate.paths@.take(i as int));
        assert(krate.paths@.take(i + 1).last() == krate.paths@[i as int]);
        let entry = &krate.paths[i];
        let summary = &entry.1;
        let n = summary.path.len();
        if !is_excluded_kind(summary.kind) && n > 1 {
            let name_lower = to_lowercase(summary.path[n - 1].as_str());
            assert(views(summary.path@).last() == summary.path@[n - 1]@);
            if contains_str(name_lower.as_str(), term_lower.as_str()) {
                match get_item(krate, entry.0) {
                    Some(item) => {
                        let exact = str_eq(&name_lower, &term_lower);
                        let hit = SearchResult { item, path: &summary.path, kind: summary.kind, exact };
                        insert_ordered(&mut results, hit);
                        proof {
                            let prev = search_hits(*krate, krate.paths@.take(i as int), term@);
                            assert(prev.push(hit_of(hit)).drop_last() =~= prev);
                            vstd::seq_lib::to_multiset_build(
                                search_hits(*krate, krate.paths@.take(i as int), term@),
                                hit_of(hit),
                            );
                        }
                    },
                    Option::None => {},
                }
            }
        }
        i = i + 1;
    }
    assert(krate.paths@.take(krate.paths.len() as int) =~= krate.paths@);
    let ghost all_sorted = hits(results@);
    let ghost all = search_hits(*krate, krate.paths@, term@);
    results.truncate(MAX_SEARCH_RESULTS);
    proof {
        let got = hits(results@);
        let n = got.len();
        lemma_search_hits_match(*krate, krate.paths@, term@);
        assert forall|i: int| 0 <= i < got.len() implies hit_matches(#[trigger] got[i], term@) by {
            assert(got[i] == all_sorted[i]);
            vstd::seq_lib::to_multiset_contains(all_sorted, all_sorted[i]);
            vstd::seq_lib::to_multiset_contains(all, all_sorted[i]);
            assert(all.contains(all_sorted[i]));
        }
        assert(got =~= all_sorted.take(n as int));
        assert(all_sorted == sort_hits(all));
        vstd::seq_lib::lemma_multiset_commutative(all_sorted.take(n as int), all_sorted.skip(n as int));
        assert(all_sorted =~= all_sorted.take(n as int) + all_sorted.skip(n as int));
        vstd::seq_lib::to_multiset_len(all_sorted);
        vstd::seq_lib::to_multiset_len(all);
        assert forall|x: (Item, Seq<Seq<char>>, ItemKind, bool)|
            #![trigger all.to_multiset().count(x)]
            all.to_multiset().count(x) > got.to_multiset().count(x) implies forall|i: int|
                0 <= i < got.len() ==> !hit_before(x, got[i]) by {
            let rest = all_sorted.skip(n as int);
            assert(rest.to_multiset().count(x) > 0);
            vstd::seq_lib::to_multiset_contains(rest, x);
            let k = choose|k: int| 0 <= k < rest.len() && rest[k] == x;
            assert(all_sorted[n + k] == x);
            assert forall|i: int| 0 <= i < got.len() implies !hit_before(x, got[i]) by {
                assert(got[i] == all_sorted[i]);
            }
        }
    }
    results
}

// ── Laws ────────────────────────────────────────────────────────────────

/// An item found by the module walk, not through a re-export, is named by the
/// last component of the query; one found through a re-export has a query of
/// at least one component.
pub proof fn lemma_walk_finds_named(k: Crate, children: Seq<Id>, q: Seq<Seq<char>>)
    ensures
        walk(k, children, q) matches Some((it, src)) ==> q.len() >= 1 && (src is None ==> has_name(
            it,
            q.last(),
        )),
    decreases q.len(), children.len(),
{
    if q.len() == 0 || children.len() == 0 {
    } else {
        let rest = q.drop_first();
        lemma_walk_finds_named(k, children.drop_first(), q);
        if rest.len() > 0 {
            assert(rest.last() == q.last());
            match item_at(k, children[0]) {
                Some(child) => {
                    match child.inner {
                        ItemEnum::Use(u) => {
                            match u.id {
                                Some(id) => match item_at(k, id) {
                                    Some(t) => match t.inner {
                                        ItemEnum::Module(m) => {
                                            lemma_walk_finds_named(k, m.items@, rest);
                                        },
                                        _ => {},
                                    },
                                    Option::None => {},
                                },
                                Option::None => {},
                            }
                        },
                        ItemEnum::Module(m) => {
                            lemma_walk_finds_named(k, m.items@, rest);
                        },
                        _ => {},
                    }
                },
                Option::None => {},
            }
        } else {
            assert(q.last() == q[0]);
        }
    }
}

/// The first item among `ids` with a name has that name.
proof fn lemma_first_named(k: Crate, ids: Seq<Id>, name: Seq<char>)
    ensures
        first_named(k, ids, name) matches Some(it) ==> has_name(it, name),
    decreases ids.len(),
{
    if ids.len() > 0 {
        lemma_first_named(k, ids.drop_first(), name);
    }
}

/// An associated item found among impl blocks has the name looked for.
proof fn lemma_assoc_in_impls(k: Crate, impls: Seq<Id>, name: Seq<char>)
    ensures
        assoc_in_impls(k, impls, name) matches Some(it) ==> has_name(it, name),
    decreases impls.len(),
{
    if impls.len() > 0 {
        lemma_assoc_in_impls(k, impls.drop_first(), name);
        match item_at(k, impls[0]) {
            Some(imp) => match imp.inner {
                ItemEnum::Impl(d) => {
                    lemma_first_named(k, d.items@, name);
                },
                _ => {},
            },
            Option::None => {},
        }
    }
}

/// A lookup that finds an item by walking the module tree or as an associated
/// item, and not through a re-export, finds an item named by the last
/// component of the path.
pub proof fn lemma_lookup_finds_named(k: Crate, q: Seq<Seq<char>>)
    ensures
        q.len() > 0 && by_path(k, q) is None ==> (lookup(k, q) matches Some((it, src)) ==> (src is None
            ==> has_name(it, q.last()))),
{
    match item_at(k, k.root) {
        Some(r) => match r.inner {
            ItemEnum::Module(m) => {
                lemma_walk_finds_named(k, m.items@, q);
            },
            _ => {},
        },
        Option::None => {},
    }
    if q.len() >= 2 {
        match type_lookup(k, q.drop_last()) {
            Some((t, src)) => match impl_ids(t) {
                Some(ids) => {
                    lemma_assoc_in_impls(k, ids, q.last());
                },
                Option::None => {},
            },
            Option::None => {},
        }
    }
}

/// Whether a hit matches the search term: its path has more than the crate
/// name, its kind is not excluded, its name contains the term ignoring case,
/// and it is exact exactly when its name equals the term ignoring case.
pub open spec fn hit_matches(h: (Item, Seq<Seq<char>>, ItemKind, bool), term: Seq<char>) -> bool {
    &&& h.1.len() > 1
    &&& !excluded_kind(h.2)
    &&& has_substr(lowercase(h.1.last()), lowercase(term))
    &&& h.3 == (lowercase(h.1.last()) == lowercase(term))
}

/// Every hit of a search matches its term.
pub proof fn lemma_search_hits_match(k: Crate, entries: Seq<(Id, ItemSummary)>, term: Seq<char>)
    ensures
        forall|i: int| 0 <= i < search_hits(k, entries, term).len() ==> hit_matches(
            #[trigger] search_hits(k, entries, term)[i],
            term,
        ),
    decreases entries.len(),
{
    if entries.len() > 0 {
        lemma_search_hits_match(k, entries.drop_last(), term);
        let rest = search_hits(k, entries.drop_last(), term);
        let all = search_hits(k, entries, term);
        assert forall|i: int| 0 <= i < all.len() implies hit_matches(#[trigger] all[i], term) by {
            if i < rest.len() {
                assert(all[i] == rest[i]);
            }
        }
    }
}

/// The search ignores case: terms with the same lowercase form find the same hits.
pub proof fn lemma_search_ignores_case(k: Crate, entries: Seq<(Id, ItemSummary)>, t1: Seq<char>, t2: Seq<char>)
    requires
        lowercase(t1) == lowercase(t2),
    ensures
        search_hits(k, entries, t1) == search_hits(k, entries, t2),
    decreases entries.len(),
{
    if entries.len() > 0 {
        lemma_search_ignores_case(k, entries.drop_last(), t1, t2);
    }
}


/// Whether `path` is longer than `q` and its last `q.len()` components are
/// those of `q`, one by one.
pub open spec fn ends_with_query(path: Seq<Seq<char>>, q: Seq<Seq<char>>) -> bool {
    &&& path.len() > q.len()
    &&& forall|j: int| 0 <= j < q.len() ==> #[trigger] path[path.len() - q.len() + j] == q[j]
}

/// Whether a path-table entry answers the query `q`: its path ends with the
/// whole query and its item is documented.
pub open spec fn entry_answers(k: Crate, e: (Id, ItemSummary), q: Seq<Seq<char>>) -> bool {
    ends_with_query(views(e.1.path@), q) && k.index@.contains_key(e.0)
}

proof fn lemma_has_tail_components(p: Seq<Seq<char>>, q: Seq<Seq<char>>)
    ensures
        has_tail(p, q) <==> ends_with_query(p, q),
{
    if has_tail(p, q) {
        assert forall|j: int| 0 <= j < q.len() implies #[trigger] p[p.len() - q.len() + j] == q[j] by {
            assert(p.subrange(p.len() - q.len(), p.len() as int)[j] == p[p.len() - q.len() + j]);
        }
    }
    if ends_with_query(p, q) {
        assert(p.subrange(p.len() - q.len(), p.len() as int) =~= q) by {
            assert forall|j: int| 0 <= j < q.len() implies p.subrange(p.len() - q.len(), p.len() as int)[j]
                == q[j] by {
                assert(p[p.len() - q.len() + j] == q[j]);
            }
        }
    }
}

proof fn lemma_first_by_path_at(k: Crate, entries: Seq<(Id, ItemSummary)>, q: Seq<Seq<char>>, i: int)
    requires
        0 <= i < entries.len(),
        entry_answers(k, entries[i], q),
        forall|j: int| 0 <= j < i ==> !entry_answers(k, #[trigger] entries[j], q),
    ensures
        first_by_path(k, entries, q) == Some(k.index@[entries[i].0]),
    decreases i,
{
    lemma_has_tail_components(views(entries[0].1.path@), q);
    if i > 0 {
        assert(!entry_answers(k, entries[0], q));
        let rest = entries.drop_first();
        assert forall|j: int| 0 <= j < i - 1 implies !entry_answers(k, #[trigger] rest[j], q) by {
            assert(rest[j] == entries[j + 1]);
        }
        lemma_first_by_path_at(k, rest, q, i - 1);
    }
}

proof fn lemma_first_by_path_found(k: Crate, entries: Seq<(Id, ItemSummary)>, q: Seq<Seq<char>>)
    requires
        first_by_path(k, entries, q) is Some,
    ensures
        exists|i: int|
            0 <= i < entries.len() && entry_answers(k, #[trigger] entries[i], q) && first_by_path(k, entries, q)
                == Some(k.index@[entries[i].0]),
    decreases entries.len(),
{
    lemma_has_tail_components(views(entries[0].1.path@), q);
    if has_tail(views(entries[0].1.path@), q) && item_at(k, entries[0].0) is Some {
        assert(entry_answers(k, entries[0], q));
    } else {
        let rest = entries.drop_first();
        lemma_first_by_path_found(k, rest, q);
        let i = choose|i: int|
            0 <= i < rest.len() && entry_answers(k, #[trigger] rest[i], q) && first_by_path(k, rest, q)
                == Some(k.index@[rest[i].0]);
        assert(entries[i + 1] == rest[i]);
    }
}

/// A lookup of a non-empty path answers with the first path-table entry whose
/// path ends with the whole query, component by component, and whose item is
/// documented; it is not reached through a re-export.
pub proof fn lemma_lookup_first_path_match(k: Crate, q: Seq<Seq<char>>, i: int)
    requires
        q.len() > 0,
        0 <= i < k.paths@.len(),
        entry_answers(k, k.paths@[i], q),
        forall|j: int| 0 <= j < i ==> !entry_answers(k, #[trigger] k.paths@[j], q),
    ensures
        lookup(k, q) == Some((k.index@[k.paths@[i].0], Option::<Seq<char>>::None)),
{
    lemma_first_by_path_at(k, k.paths@, q, i);
}

/// An item that a lookup finds through the path table comes from an entry whose
/// path ends with the whole query, component by component.
pub proof fn lemma_path_match_ends_with_query(k: Crate, q: Seq<Seq<char>>)
    requires
        by_path(k, q) is Some,
    ensures
        exists|i: int|
            0 <= i < k.paths@.len() && entry_answers(k, #[trigger] k.paths@[i], q) && by_path(k, q)
                == Some(k.index@[k.paths@[i].0]),
{
    lemma_first_by_path_found(k, k.paths@, q);
}

/// Whether a path-table entry is a search hit for `term`: it is not an impl, a
/// variant or a field, its path is longer than the crate name, its item is
/// documented, and its lowercased name contains the lowercased term anywhere.
pub open spec fn entry_hits(k: Crate, e: (Id, ItemSummary), term: Seq<char>) -> bool {
    let p = views(e.1.path@);
    &&& e.1.kind != ItemKind::Impl && e.1.kind != ItemKind::Variant && e.1.kind != ItemKind::StructField
    &&& p.len() >= 2
    &&& k.index@.contains_key(e.0)
    &&& exists|at: int|
        0 <= at && at + lowercase(term).len() <= lowercase(p[p.len() - 1]).len() && #[trigger] lowercase(
            p[p.len() - 1],
        ).subrange(at, at + lowercase(term).len()) == lowercase(term)
}

/// The search hit that an entry gives: its item, its path, its kind, and
/// whether its name equals the term ignoring case.
pub open spec fn entry_hit(k: Crate, e: (Id, ItemSummary), term: Seq<char>) -> (Item, Seq<Seq<char>>, ItemKind, bool) {
    let p = views(e.1.path@);
    (k.index@[e.0], p, e.1.kind, lowercase(p[p.len() - 1]) == lowercase(term))
}

/// The hits of a search are exactly the entries that are hits, each once, in
/// path-table order: nothing that matches anywhere in the name is left out.
pub proof fn lemma_search_hits_complete(k: Crate, entries: Seq<(Id, ItemSummary)>, term: Seq<char>)
    ensures
        search_hits(k, entries, term) == entries.filter(|e: (Id, ItemSummary)| entry_hits(k, e, term)).map_values(
            |e: (Id, ItemSummary)| entry_hit(k, e, term),
        ),
    decreases entries.len(),
{
    let pred = |e: (Id, ItemSummary)| entry_hits(k, e, term);
    let f = |e: (Id, ItemSummary)| entry_hit(k, e, term);
    if entries.len() > 0 {
        lemma_search_hits_complete(k, entries.drop_last(), term);
        let e = entries.last();
        let p = views(e.1.path@);
        let sub = entries.drop_last().filter(pred);
        if p.len() >= 2 {
            assert(p.last() == p[p.len() - 1]);
            let hay = lowercase(p[p.len() - 1]);
            let needle = lowercase(term);
            if has_substr(hay, needle) {
                let at = choose|at: int|
                    0 <= at <= hay.len() - needle.len() && #[trigger] hay.subrange(at, at + needle.len())
                        == needle;
                assert(hay.subrange(at, at + needle.len()) == needle);
            }
            if exists|at: int|
                0 <= at && at + needle.len() <= hay.len() && #[trigger] hay.subrange(at, at + needle.len())
                    == needle {
                let at = choose|at: int|
                    0 <= at && at + needle.len() <= hay.len() && #[trigger] hay.subrange(at, at + needle.len())
                        == needle;
                assert(hay.subrange(at, at + needle.len()) == needle);
            }
            assert(has_substr(hay, needle) == exists|at: int|
                0 <= at && at + needle.len() <= hay.len() && #[trigger] hay.subrange(at, at + needle.len())
                    == needle);
        }
        assert(pred(e) == (!excluded_kind(e.1.kind) && p.len() > 1 && has_substr(
            lowercase(p.last()),
            lowercase(term),
        ) && item_at(k, e.0) is Some));
        reveal(Seq::filter);
        assert(entries.filter(pred) == if pred(e) {
            sub.push(e)
        } else {
            sub
        });
        if pred(e) {
            assert(sub.push(e).map_values(f) =~= sub.map_values(f).push(f(e)));
        }
        assert(search_hits(k, entries, term) =~= entries.filter(pred).map_values(f));
    } else {
        reveal(Seq::filter);
        assert(search_hits(k, entries, term) =~= entries.filter(pred).map_values(f));
    }
}


/// Whether `id` is a documented impl block without a trait.
pub open spec fn is_inherent_impl(k: Crate, id: Id) -> bool {
    k.index@.contains_key(id) && k.index@[id].inner is Impl && k.index@[id].inner->Impl_0.trait_ is None
}

/// The item ids of the impl block `id`.
pub open spec fn impl_items(k: Crate, id: Id) -> Seq<Id> {
    k.index@[id].inner->Impl_0.items@
}

proof fn lemma_documented_members(k: Crate, ids: Seq<Id>)
    ensures
        forall|x: Item|
            documented(k, ids).contains(x) <==> exists|j: int|
                0 <= j < ids.len() && k.index@.contains_key(#[trigger] ids[j]) && k.index@[ids[j]] == x,
    decreases ids.len(),
{
    if ids.len() > 0 {
        let rest = ids.drop_last();
        lemma_documented_members(k, rest);
        assert forall|x: Item|
            documented(k, ids).contains(x) <==> exists|j: int|
                0 <= j < ids.len() && k.index@.contains_key(#[trigger] ids[j]) && k.index@[ids[j]] == x by {
            if documented(k, ids).contains(x) {
                let d = documented(k, ids);
                let n = choose|n: int| 0 <= n < d.len() && d[n] == x;
                if n < documented(k, rest).len() {
                    assert(documented(k, rest)[n] == x);
                    assert(documented(k, rest).contains(x));
                    let j = choose|j: int|
                        0 <= j < rest.len() && k.index@.contains_key(#[trigger] rest[j]) && k.index@[rest[j]] == x;
                    assert(ids[j] == rest[j]);
                } else {
                    assert(ids[ids.len() - 1] == ids.last());
                }
            }
            if exists|j: int| 0 <= j < ids.len() && k.index@.contains_key(#[trigger] ids[j]) && k.index@[ids[j]] == x {
                let j = choose|j: int|
                    0 <= j < ids.len() && k.index@.contains_key(#[trigger] ids[j]) && k.index@[ids[j]] == x;
                if j < ids.len() - 1 {
                    assert(rest[j] == ids[j]);
                    assert(documented(k, rest).contains(x));
                    let n = choose|n: int| 0 <= n < documented(k, rest).len() && documented(k, rest)[n] == x;
                    assert(documented(k, ids)[n] == x);
                } else {
                    assert(documented(k, ids).last() == x);
                }
            }
        }
    }
}

/// The inherent methods found among the impl blocks `impls` are exactly the
/// documented items of the impl blocks without a trait: each such item is
/// found, and nothing else is (no item of a trait impl).
pub proof fn lemma_inherent_items_members(k: Crate, impls: Seq<Id>)
    ensures
        forall|i: int, j: int|
            0 <= i < impls.len() && is_inherent_impl(k, impls[i]) && 0 <= j < impl_items(k, impls[i]).len()
                && k.index@.contains_key(#[trigger] impl_items(k, impls[i])[j]) ==> inherent_items(
                k,
                impls,
            ).contains(k.index@[impl_items(k, impls[i])[j]]),
        forall|x: Item|
            #[trigger] inherent_items(k, impls).contains(x) ==> exists|i: int, j: int|
                0 <= i < impls.len() && is_inherent_impl(k, impls[i]) && 0 <= j < impl_items(k, impls[i]).len()
                    && k.index@.contains_key(#[trigger] impl_items(k, impls[i])[j]) && k.index@[impl_items(
                    k,
                    impls[i],
                )[j]] == x,
    decreases impls.len(),
{
    if impls.len() > 0 {
        let rest = impls.drop_last();
        let last = impls.last();
        lemma_inherent_items_members(k, rest);
        let r = inherent_items(k, rest);
        let all = inherent_items(k, impls);
        let own = if is_inherent_impl(k, last) {
            documented(k, impl_items(k, last))
        } else {
            Seq::empty()
        };
        assert(all == r + own);
        if is_inherent_impl(k, last) {
            lemma_documented_members(k, impl_items(k, last));
        }
        assert forall|i: int, j: int|
            0 <= i < impls.len() && is_inherent_impl(k, impls[i]) && 0 <= j < impl_items(k, impls[i]).len()
                && k.index@.contains_key(#[trigger] impl_items(k, impls[i])[j]) implies all.contains(
                k.index@[impl_items(k, impls[i])[j]],
            ) by {
            let x = k.index@[impl_items(k, impls[i])[j]];
            if i < impls.len() - 1 {
                assert(rest[i] == impls[i]);
                assert(r.contains(x));
                let n = choose|n: int| 0 <= n < r.len() && r[n] == x;
                assert(all[n] == x);
            } else {
                assert(impls[i] == last);
                assert(own.contains(x));
                let n = choose|n: int| 0 <= n < own.len() && own[n] == x;
                assert(all[r.len() + n] == x);
            }
        }
        assert forall|x: Item| #[trigger] all.contains(x) implies exists|i: int, j: int|
            0 <= i < impls.len() && is_inherent_impl(k, impls[i]) && 0 <= j < impl_items(k, impls[i]).len()
                && k.index@.contains_key(#[trigger] impl_items(k, impls[i])[j]) && k.index@[impl_items(
                k,
                impls[i],
            )[j]] == x by {
            let n = choose|n: int| 0 <= n < all.len() && all[n] == x;
            if n < r.len() {
                assert(r[n] == x);
                assert(r.contains(x));
                let (i, j) = choose|i: int, j: int|
                    0 <= i < rest.len() && is_inherent_impl(k, rest[i]) && 0 <= j < impl_items(k, rest[i]).len()
                        && k.index@.contains_key(#[trigger] impl_items(k, rest[i])[j]) && k.index@[impl_items(
                        k,
                        rest[i],
                    )[j]] == x;
                assert(impls[i] == rest[i]);
                assert(k.index@.contains_key(impl_items(k, impls[i])[j]));
            } else {
                assert(own[n - r.len()] == x);
                assert(own.contains(x));
                let j = choose|j: int|
                    0 <= j < impl_items(k, last).len() && k.index@.contains_key(#[trigger] impl_items(k, last)[j])
                        && k.index@[impl_items(k, last)[j]] == x;
                assert(impls[impls.len() - 1] == last);
                assert(k.index@.contains_key(impl_items(k, impls[impls.len() - 1])[j]));
            }
        }
    }
}

/// Whether `id` is a documented impl block of a trait that is neither
/// synthetic nor a blanket impl.
pub open spec fn is_listed_trait_impl(k: Crate, id: Id) -> bool {
    &&& k.index@.contains_key(id)
    &&& k.index@[id].inner is Impl
    &&& k.index@[id].inner->Impl_0.trait_ is Some
    &&& !k.index@[id].inner->Impl_0.is_synthetic
    &&& k.index@[id].inner->Impl_0.blanket_impl is None
}

/// The trait implementations found among the impl blocks `impls` are exactly
/// the documented trait impl blocks that are neither synthetic nor blanket
/// impls, one for each, in order, each with the path of its trait.
pub proof fn lemma_trait_impls_members(k: Crate, impls: Seq<Id>)
    ensures
        trait_impls_in(k, impls) == impls.filter(|id: Id| is_listed_trait_impl(k, id)).map_values(
            |id: Id| (k.index@[id], k.index@[id].inner->Impl_0.trait_->0.path@),
        ),
    decreases impls.len(),
{
    let pred = |id: Id| is_listed_trait_impl(k, id);
    let f = |id: Id| (k.index@[id], k.index@[id].inner->Impl_0.trait_->0.path@);
    reveal(Seq::filter);
    if impls.len() > 0 {
        lemma_trait_impls_members(k, impls.drop_last());
        let sub = impls.drop_last().filter(pred);
        if pred(impls.last()) {
            assert(sub.push(impls.last()).map_values(f) =~= sub.map_values(f).push(f(impls.last())));
        }
    }
    assert(trait_impls_in(k, impls) =~= impls.filter(pred).map_values(f));
}

/// Search hits in order: every exact match comes before every other hit, and
/// among hits that are both exact or both not, paths never decrease.
pub proof fn lemma_ordered_hits(s: Seq<(Item, Seq<Seq<char>>, ItemKind, bool)>)
    requires
        ordered(s),
    ensures
        forall|i: int, j: int| 0 <= i < j < s.len() && (#[trigger] s[j]).3 ==> (#[trigger] s[i]).3,
        forall|i: int, j: int|
            0 <= i < j < s.len() && (#[trigger] s[i]).3 == (#[trigger] s[j]).3 ==> !path_lt(s[j].1, s[i].1),
{
}


/// Whether the module child `id` answers to `name` in a module walk: it is
/// documented, and it is a `use` item of that name or another item of that name.
pub open spec fn claims(k: Crate, id: Id, name: Seq<char>) -> bool {
    &&& k.index@.contains_key(id)
    &&& match k.index@[id].inner {
        ItemEnum::Use(u) => u.name@ == name,
        _ => k.index@[id].name matches Some(n) && n@ == name,
    }
}

/// A module walk is decided by the first child that answers to the first
/// query component. For a one-component query it is that child, or, for a
/// re-export, the item the `use` refers to (with the `use`'s source), or nothing
/// when that item is not documented. For a longer query it goes on in that child
/// module, or in the module a `use` refers to, with the rest of the query.
pub proof fn lemma_walk_first_claim(k: Crate, children: Seq<Id>, q: Seq<Seq<char>>, i: int)
    requires
        q.len() >= 1,
        0 <= i < children.len(),
        claims(k, children[i], q[0]),
        forall|j: int| 0 <= j < i ==> !claims(k, #[trigger] children[j], q[0]),
    ensures
        ({
            let c = k.index@[children[i]];
            &&& q.len() == 1 && !(c.inner is Use) ==> walk(k, children, q) == Some((c, Option::<Seq<char>>::None))
            &&& q.len() == 1 && c.inner is Use ==> walk(k, children, q) == match c.inner->Use_0.id {
                Some(id) => if k.index@.contains_key(id) {
                    Some((k.index@[id], Some(c.inner->Use_0.source@)))
                } else {
                    Option::None
                },
                Option::None => Option::None,
            }
            &&& q.len() > 1 && c.inner is Module ==> walk(k, children, q) == walk(
                k,
                c.inner->Module_0.items@,
                q.drop_first(),
            )
            &&& q.len() > 1 && c.inner is Use && c.inner->Use_0.id is Some && k.index@.contains_key(
                c.inner->Use_0.id->0,
            ) && k.index@[c.inner->Use_0.id->0].inner is Module ==> walk(k, children, q) == walk(
                k,
                k.index@[c.inner->Use_0.id->0].inner->Module_0.items@,
                q.drop_first(),
            )
        }),
    decreases i,
{
    if i > 0 {
        let rest = children.drop_first();
        assert(!claims(k, children[0], q[0]));
        assert forall|j: int| 0 <= j < i - 1 implies !claims(k, #[trigger] rest[j], q[0]) by {
            assert(rest[j] == children[j + 1]);
        }
        lemma_walk_first_claim(k, rest, q, i - 1);
        assert(children[i] == rest[i - 1]);
    }
}


/// Whether `id` is a documented item named `name`.
pub open spec fn named_here(k: Crate, id: Id, name: Seq<char>) -> bool {
    &&& k.index@.contains_key(id)
    &&& k.index@[id].name matches Some(n) && n@ == name
}

proof fn lemma_first_named_at(k: Crate, ids: Seq<Id>, name: Seq<char>, j: int)
    requires
        0 <= j < ids.len(),
        named_here(k, ids[j], name),
        forall|m: int| 0 <= m < j ==> !named_here(k, #[trigger] ids[m], name),
    ensures
        first_named(k, ids, name) == Some(k.index@[ids[j]]),
    decreases j,
{
    if j > 0 {
        let rest = ids.drop_first();
        assert(!named_here(k, ids[0], name));
        assert forall|m: int| 0 <= m < j - 1 implies !named_here(k, #[trigger] rest[m], name) by {
            assert(rest[m] == ids[m + 1]);
        }
        lemma_first_named_at(k, rest, name, j - 1);
        assert(ids[j] == rest[j - 1]);
    }
}

proof fn lemma_first_named_none(k: Crate, ids: Seq<Id>, name: Seq<char>)
    requires
        forall|m: int| 0 <= m < ids.len() ==> !named_here(k, #[trigger] ids[m], name),
    ensures
        first_named(k, ids, name) is None,
    decreases ids.len(),
{
    if ids.len() > 0 {
        let rest = ids.drop_first();
        assert(!named_here(k, ids[0], name));
        assert forall|m: int| 0 <= m < rest.len() implies !named_here(k, #[trigger] rest[m], name) by {
            assert(rest[m] == ids[m + 1]);
        }
        lemma_first_named_none(k, rest, name);
    }
}

/// An associated item `Type::name` is the first documented item named `name`
/// in the first impl block of the type that has one, when the impl blocks
/// before it are documented.
pub proof fn lemma_assoc_first(k: Crate, impls: Seq<Id>, name: Seq<char>, i: int, j: int)
    requires
        0 <= i < impls.len(),
        forall|a: int| 0 <= a <= i ==> k.index@.contains_key(#[trigger] impls[a]),
        forall|a: int, m: int|
            0 <= a < i && k.index@[impls[a]].inner is Impl && 0 <= m < impl_items(k, impls[a]).len()
                ==> !named_here(k, #[trigger] impl_items(k, impls[a])[m], name),
        k.index@[impls[i]].inner is Impl,
        0 <= j < impl_items(k, impls[i]).len(),
        named_here(k, impl_items(k, impls[i])[j], name),
        forall|m: int| 0 <= m < j ==> !named_here(k, #[trigger] impl_items(k, impls[i])[m], name),
    ensures
        assoc_in_impls(k, impls, name) == Some(k.index@[impl_items(k, impls[i])[j]]),
    decreases i,
{
    if i > 0 {
        let rest = impls.drop_first();
        assert(k.index@.contains_key(impls[0]));
        if k.index@[impls[0]].inner is Impl {
            assert forall|m: int| 0 <= m < impl_items(k, impls[0]).len() implies !named_here(
                k,
                #[trigger] impl_items(k, impls[0])[m],
                name,
            ) by {}
            lemma_first_named_none(k, impl_items(k, impls[0]), name);
        }
        assert forall|a: int| 0 <= a <= i - 1 implies k.index@.contains_key(#[trigger] rest[a]) by {
            assert(rest[a] == impls[a + 1]);
        }
        assert forall|a: int, m: int|
            0 <= a < i - 1 && k.index@[rest[a]].inner is Impl && 0 <= m < impl_items(k, rest[a]).len()
                implies !named_here(k, #[trigger] impl_items(k, rest[a])[m], name) by {
            assert(rest[a] == impls[a + 1]);
        }
        assert(rest[i - 1] == impls[i]);
        lemma_assoc_first(k, rest, name, i - 1, j);
    } else {
        lemma_first_named_at(k, impl_items(k, impls[0]), name, j);
    }
}

} // verus!
