//! Finding the version of a direct dependency in the current workspace, from
//! the output of `cargo metadata`.
use crate::strings::{chars_of, str_eq};
use vstd::prelude::*;
use vstd::string::{StrSliceExecFns, StringExecFns};

verus! {

/// A dependency of a node of the resolved graph. A field that is missing or
/// not a string is `None`.
pub struct MetadataDep {
    pub name: Option<String>,
    /// The package id, such as `registry+...#crate-name@1.2.3` or `crate-name@1.2.3`.
    pub pkg: Option<String>,
}

/// A node of the resolved dependency graph. A field that is missing, or is
/// not a string (`id`) or an array (`deps`), is `None`.
pub struct MetadataNode {
    pub id: Option<String>,
    pub deps: Option<Vec<MetadataDep>>,
}

/// The resolved dependency graph. A field that is missing, or is not a string
/// (`root`) or an array (`nodes`), is `None`.
pub struct MetadataResolve {
    pub root: Option<String>,
    pub nodes: Option<Vec<MetadataNode>>,
}

/// What `cargo metadata` reports that is read here: the resolved graph, if any.
pub struct Metadata {
    pub resolve: Option<MetadataResolve>,
}

/// `s` with every `-` replaced by `_`.
pub open spec fn normalize(s: Seq<char>) -> Seq<char> {
    s.map_values(|c: char| if c == '-' { '_' } else { c })
}

/// The part of `s` after its last `@` (all of `s` when it has none).
pub open spec fn after_last_at(s: Seq<char>) -> Seq<char>
    decreases s.len(),
{
    if s.len() == 0 {
        s
    } else if s.last() == '@' {
        Seq::empty()
    } else {
        after_last_at(s.drop_last()).push(s.last())
    }
}

/// The version of the first dependency among `deps` whose name matches `q`
/// (after normalizing both) and whose package id ends in a non-empty version.
/// A dependency without a name, or a matching one without a package id, ends
/// the search with nothing.
pub open spec fn dep_version(deps: Seq<MetadataDep>, q: Seq<char>) -> Option<Seq<char>>
    decreases deps.len(),
{
    if deps.len() == 0 {
        Option::None
    } else {
        match deps[0].name {
            Option::None => Option::None,
            Some(n) => if normalize(n@) != q {
                dep_version(deps.drop_first(), q)
            } else {
                match deps[0].pkg {
                    Option::None => Option::None,
                    Some(p) => {
                        let v = after_last_at(p@);
                        if v.len() == 0 {
                            dep_version(deps.drop_first(), q)
                        } else {
                            Some(v)
                        }
                    },
                }
            },
        }
    }
}

/// The first node among `nodes` whose id is `root`.
pub open spec fn root_node(nodes: Seq<MetadataNode>, root: Seq<char>) -> Option<MetadataNode>
    decreases nodes.len(),
{
    if nodes.len() == 0 {
        Option::None
    } else if nodes[0].id matches Some(id) && id@ == root {
        Some(nodes[0])
    } else {
        root_node(nodes.drop_first(), root)
    }
}

/// The version of the direct dependency `crate_name` of the workspace root.
pub open spec fn workspace_dep_version(meta: Metadata, crate_name: Seq<char>) -> Option<Seq<char>> {
    match meta.resolve {
        Some(r) => match r.root {
            Some(root) => match r.nodes {
                Some(nodes) => match root_node(nodes@, root@) {
                    Some(node) => match node.deps {
                        Some(deps) => dep_version(deps@, normalize(crate_name)),
                        Option::None => Option::None,
                    },
                    Option::None => Option::None,
                },
                Option::None => Option::None,
            },
            Option::None => Option::None,
        },
        Option::None => Option::None,
    }
}

/// `s` with every `-` replaced by `_`.
pub fn normalize_name(s: &str) -> (r: Vec<char>)
    ensures
        r@ == normalize(s@),
{
    let v = chars_of(s);
    let mut out: Vec<char> = Vec::new();
    let mut i: usize = 0;
    while i < v.len()
        invariant
            i <= v.len(),
            v@ == s@,
            out@ == normalize(v@.take(i as int)),
        decreases v.len() - i,
    {
        let c = if v[i] == '-' {
            '_'
        } else {
            v[i]
        };
        out.push(c);
        assert(out@ =~= normalize(v@.take(i + 1)));
        i = i + 1;
    }
    assert(v@.take(v.len() as int) =~= v@);
    out
}

/// The part of `s` after its last `@`.
pub fn version_of_pkg(s: &str) -> (r: String)
    ensures
        r@ == after_last_at(s@),
{
    let v = chars_of(s);
    let mut i = v.len();
    assert(v@.take(i as int) =~= v@);
    assert(v@.subrange(i as int, v.len() as int) =~= Seq::<char>::empty());
    assert(after_last_at(s@) =~= after_last_at(v@.take(i as int)) + v@.subrange(i as int, v.len() as int));
    while i > 0 && v[i - 1] != '@'
        invariant
            i <= v.len(),
            v@ == s@,
            after_last_at(s@) == after_last_at(v@.take(i as int)) + v@.subrange(i as int, v.len() as int),
        decreases i,
    {
        let ghost t = v@.take(i as int);
        assert(t.drop_last() =~= v@.take(i - 1));
        assert(t.last() == v@[i - 1]);
        assert(after_last_at(t) == after_last_at(v@.take(i - 1)).push(v@[i - 1]));
        assert(v@.subrange(i - 1, v.len() as int) =~= seq![v@[i - 1]] + v@.subrange(i as int, v.len() as int));
        i = i - 1;
    }
    if i > 0 {
        let ghost t = v@.take(i as int);
        assert(t.last() == '@');
        assert(after_last_at(t) == Seq::<char>::empty());
    } else {
        assert(v@.take(0) =~= Seq::<char>::empty());
    }
    assert(after_last_at(s@) =~= v@.subrange(i as int, v.len() as int));
    s.substring_char(i, v.len()).to_owned()
}

/// Whether two character sequences are equal.
fn chars_eq(a: &Vec<char>, b: &Vec<char>) -> (r: bool)
    ensures
        r == (a@ == b@),
{
    if a.len() != b.len() {
        return false;
    }
    let mut i: usize = 0;
    while i < a.len()
        invariant
            a.len() == b.len(),
            i <= a.len(),
            forall|k: int| 0 <= k < i ==> a@[k] == b@[k],
        decreases a.len() - i,
    {
        if a[i] != b[i] {
            return false;
        }
        i = i + 1;
    }
    assert(a@ =~= b@);
    true
}

/// The first node among `nodes` whose id is `root`.
fn find_root_node<'a>(nodes: &'a Vec<MetadataNode>, root: &String) -> (r: Option<&'a MetadataNode>)
    ensures
        match r {
            Some(n) => root_node(nodes@, root@) == Some(*n),
            Option::None => root_node(nodes@, root@) is None,
        },
{
    let mut i: usize = 0;
    assert(nodes@.skip(0) =~= nodes@);
    while i < nodes.len()
        invariant
            i <= nodes.len(),
            root_node(nodes@, root@) == root_node(nodes@.skip(i as int), root@),
        decreases nodes.len() - i,
    {
        assert(nodes@.skip(i as int).drop_first() =~= nodes@.skip(i + 1));
        let is_root = match &nodes[i].id {
            Some(id) => str_eq(id, root),
            Option::None => false,
        };
        if is_root {
            return Some(&nodes[i]);
        }
        i = i + 1;
    }
    Option::None
}

/// Finds the version that the workspace root depends on for `crate_name`,
/// comparing names with `-` and `_` taken as the same.
pub fn infer_dep_version(meta: &Metadata, crate_name: &str) -> (r: Option<String>)
    ensures
        match r {
            Some(v) => workspace_dep_version(*meta, crate_name@) == Some(v@),
            Option::None => workspace_dep_version(*meta, crate_name@) is None,
        },
{
    let resolve = match &meta.resolve {
        Some(r) => r,
        Option::None => {
            return Option::None;
        },
    };
    let root = match &resolve.root {
        Some(r) => r,
        Option::None => {
            return Option::None;
        },
    };
    let nodes = match &resolve.nodes {
        Some(n) => n,
        Option::None => {
            return Option::None;
        },
    };
    let node = match find_root_node(nodes, root) {
        Some(n) => n,
        Option::None => {
            return Option::None;
        },
    };
    let deps = match &node.deps {
        Some(d) => d,
        Option::None => {
            return Option::None;
        },
    };
    let query = normalize_name(crate_name);
    let mut j: usize = 0;
    assert(deps@.skip(0) =~= deps@);
    while j < deps.len()
        invariant
            j <= deps.len(),
            query@ == normalize(crate_name@),
            workspace_dep_version(*meta, crate_name@) == dep_version(deps@, query@),
            dep_version(deps@, query@) == dep_version(deps@.skip(j as int), query@),
        decreases deps.len() - j,
    {
        assert(deps@.skip(j as int).drop_first() =~= deps@.skip(j + 1));
        let dep = &deps[j];
        let name = match &dep.name {
            Some(n) => n,
            Option::None => {
                return Option::None;
            },
        };
        let normalized = normalize_name(name.as_str());
        if chars_eq(&normalized, &query) {
            let pkg = match &dep.pkg {
                Some(p) => p,
                Option::None => {
                    return Option::None;
                },
            };
            let version = version_of_pkg(pkg.as_str());
            if version.unicode_len() != 0 {
                return Some(version);
            }
        }
        j = j + 1;
    }
    Option::None
}

/// Names that differ only in `-` versus `_` find the same version.
pub proof fn lemma_dash_underscore_same(meta: Metadata, a: Seq<char>, b: Seq<char>)
    requires
        normalize(a) == normalize(b),
    ensures
        workspace_dep_version(meta, a) == workspace_dep_version(meta, b),
{
}


/// The version part of a package id is what follows its last `@`: it holds no
/// `@`, ends the id, and is either the whole id or preceded by an `@`.
pub proof fn lemma_after_last_at(s: Seq<char>)
    ensures
        ({
            let v = after_last_at(s);
            &&& v.len() <= s.len()
            &&& v == s.subrange(s.len() - v.len(), s.len() as int)
            &&& forall|i: int| 0 <= i < v.len() ==> #[trigger] v[i] != '@'
            &&& v.len() < s.len() ==> s[s.len() - v.len() - 1] == '@'
        }),
    decreases s.len(),
{
    if s.len() > 0 && s.last() != '@' {
        let r = s.drop_last();
        lemma_after_last_at(r);
        let v = after_last_at(s);
        let w = after_last_at(r);
        assert(v == w.push(s.last()));
        assert(v =~= s.subrange(s.len() - v.len(), s.len() as int));
        assert forall|i: int| 0 <= i < v.len() implies #[trigger] v[i] != '@' by {
            if i < w.len() {
                assert(v[i] == w[i]);
            }
        }
        if v.len() < s.len() {
            assert(s[s.len() - v.len() - 1] == r[r.len() - w.len() - 1]);
        }
    } else if s.len() > 0 {
        assert(after_last_at(s) =~= s.subrange(s.len() as int, s.len() as int));
    }
}

/// A name is normalized by writing `_` for each `-` and keeping every other character.
pub proof fn lemma_normalize_chars(s: Seq<char>)
    ensures
        normalize(s).len() == s.len(),
        forall|i: int| 0 <= i < s.len() ==> #[trigger] normalize(s)[i] == (if s[i] == '-' { '_' } else { s[i] }),
        forall|i: int| 0 <= i < s.len() ==> #[trigger] normalize(s)[i] != '-',
{
}

/// The version found among a node's dependencies belongs to a dependency whose
/// normalized name is the query: it is the non-empty part of that
/// dependency's package id after its last `@`.
pub proof fn lemma_dep_version_source(deps: Seq<MetadataDep>, q: Seq<char>)
    requires
        dep_version(deps, q) is Some,
    ensures
        exists|i: int|
            {
                &&& 0 <= i < deps.len()
                &&& (#[trigger] deps[i]).name matches Some(n) && normalize(n@) == q
                &&& deps[i].pkg matches Some(p) && dep_version(deps, q) == Some(after_last_at(p@))
                    && after_last_at(p@).len() > 0
            },
    decreases deps.len(),
{
    let n = deps[0].name->0;
    if normalize(n@) != q || after_last_at(deps[0].pkg->0@).len() == 0 {
        let rest = deps.drop_first();
        lemma_dep_version_source(rest, q);
        let i = choose|i: int|
            {
                &&& 0 <= i < rest.len()
                &&& (#[trigger] rest[i]).name matches Some(n) && normalize(n@) == q
                &&& rest[i].pkg matches Some(p) && dep_version(rest, q) == Some(after_last_at(p@))
                    && after_last_at(p@).len() > 0
            };
        assert(deps[i + 1] == rest[i]);
    } else {
        assert(deps[0].name matches Some(n) && normalize(n@) == q);
    }
}

} // verus!
