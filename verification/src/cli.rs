//! The decisions of the command line tool: which version to look up, the
//! header line, and the assembled output.
use crate::fetch::Crate;
use crate::lookup::{hits, opt_view, LookupResult, SearchResult};
use crate::render::{
    full_text, hit_lines, methods_text, render_item_full, render_item_summary, render_methods,
    render_search_results, render_trait_impls, summary_text, trait_impls_text,
};
use crate::strings::{copy_str, decimal, str_eq, str_equal, to_decimal};
use vstd::prelude::*;
use vstd::string::StringExecFns;

verus! {

/// Where the version to look up came from.
#[derive(Clone, Copy, PartialEq, Eq, Structural)]
pub enum VersionSource {
    /// Given on the command line.
    Explicit,
    /// The version the current workspace depends on.
    Workspace,
    /// The newest version.
    Latest,
}

/// Whether a requested version asks for the newest release (and so for a
/// look at the workspace first).
pub fn is_latest(version: &str) -> (r: bool)
    ensures
        r == (version@ == "latest"@),
{
    str_equal(version, "latest")
}

/// The version to look up and where it came from: an explicit request stands;
/// for `latest`, the workspace's version if one was found, else `latest`.
pub fn effective_version(requested: &str, workspace_version: Option<String>) -> (r: (String, VersionSource))
    ensures
        requested@ != "latest"@ ==> r.0@ == requested@ && r.1 == VersionSource::Explicit,
        requested@ == "latest"@ ==> match workspace_version {
            Some(v) => r.0@ == v@ && r.1 == VersionSource::Workspace,
            Option::None => r.0@ == "latest"@ && r.1 == VersionSource::Latest,
        },
{
    if is_latest(requested) {
        match workspace_version {
            Some(v) => (v, VersionSource::Workspace),
            Option::None => (String::from_str("latest"), VersionSource::Latest),
        }
    } else {
        (String::from_str(requested), VersionSource::Explicit)
    }
}

/// The newest release of a crate as crates.io reports it: the newest stable
/// version when there is one, else the newest version of any kind.
pub fn newest_release(max_stable_version: Option<String>, max_version: Option<String>) -> (r: Option<String>)
    ensures
        opt_view(r) == match max_stable_version {
            Some(v) => Some(v@),
            Option::None => opt_view(max_version),
        },
{
    match max_stable_version {
        Some(v) => Some(v),
        Option::None => max_version,
    }
}

/// The header line: the crate and version; for a version taken from the
/// workspace, a note on how it relates to the newest release, when known.
pub open spec fn header_text(
    crate_name: Seq<char>,
    version: Seq<char>,
    source: VersionSource,
    latest: Option<Seq<char>>,
) -> Seq<char> {
    let note = if source == VersionSource::Workspace {
        match latest {
            Some(l) => if l == version {
                " (from workspace, latest)"@
            } else {
                " (from workspace; latest is "@ + l + ")"@
            },
            Option::None => " (from workspace)"@,
        }
    } else {
        Seq::empty()
    };
    "// "@ + crate_name + " "@ + version + note + "\n\n"@
}

/// Renders the header line.
pub fn render_header(crate_name: &str, version: &String, source: VersionSource, latest: &Option<String>) -> (r: String)
    ensures
        r@ == header_text(crate_name@, version@, source, opt_view(*latest)),
{
    let mut s = String::from_str("// ");
    s.append(crate_name);
    s.append(" ");
    s.append(version.as_str());
    if source == VersionSource::Workspace {
        match latest {
            Some(l) => {
                if str_eq(l, version) {
                    s.append(" (from workspace, latest)");
                } else {
                    s.append(" (from workspace; latest is ");
                    s.append(l.as_str());
                    s.append(")");
                }
            },
            Option::None => {
                s.append(" (from workspace)");
            },
        }
    }
    s.append("\n\n");
    s
}

/// The output of a search: the header, then either a note that nothing
/// matched or the number of hits and one line per hit.
pub open spec fn search_output_text<'a>(header: Seq<char>, term: Seq<char>, crate_name: Seq<char>, results: Seq<SearchResult<'a>>) -> Seq<char> {
    if results.len() == 0 {
        header + "No items matching \""@ + term + "\" found.\n"@
    } else {
        header + "Search results for \""@ + term + "\" ("@ + decimal(results.len()) + " found):\n\n"@
            + hit_lines(crate_name, hits(results))
    }
}

/// Renders the output of a search.
pub fn render_search_output(header: String, term: &str, crate_name: &str, results: &Vec<SearchResult>) -> (r: String)
    ensures
        r@ == search_output_text(header@, term@, crate_name@, results@),
{
    let mut body = header;
    if results.len() == 0 {
        body.append("No items matching \"");
        body.append(term);
        body.append("\" found.\n");
    } else {
        body.append("Search results for \"");
        body.append(term);
        body.append("\" (");
        let n = to_decimal(results.len());
        body.append(n.as_str());
        body.append(" found):\n\n");
        let lines = render_search_results(results, crate_name);
        body.append(lines.as_str());
    }
    body
}

/// How many hits a failed lookup offers as alternatives.
pub const MAX_ALTERNATIVES: usize = 5;

/// The alternatives offered after a failed lookup: nothing when the search
/// found nothing, else a heading and the lines of its first few hits.
pub open spec fn alternatives_text<'a>(crate_name: Seq<char>, results: Seq<SearchResult<'a>>) -> Option<Seq<char>> {
    if results.len() == 0 {
        Option::None
    } else {
        let shown = if results.len() <= MAX_ALTERNATIVES {
            results
        } else {
            results.take(MAX_ALTERNATIVES as int)
        };
        Some("\nDid you mean?\n\n"@ + hit_lines(crate_name, hits(shown)))
    }
}

/// Renders the alternatives offered after a failed lookup.
pub fn render_alternatives(crate_name: &str, results: Vec<SearchResult>) -> (r: Option<String>)
    ensures
        opt_view(r) == alternatives_text(crate_name@, results@),
{
    let mut shown = results;
    if shown.len() == 0 {
        return Option::None;
    }
    let ghost all = shown@;
    if shown.len() > MAX_ALTERNATIVES {
        shown.truncate(MAX_ALTERNATIVES);
    }
    assert(shown@ == if all.len() <= MAX_ALTERNATIVES {
        all
    } else {
        all.take(MAX_ALTERNATIVES as int)
    });
    let mut s = String::from_str("\nDid you mean?\n\n");
    let lines = render_search_results(&shown, crate_name);
    s.append(lines.as_str());
    Some(s)
}

/// What the output shows: the full docs (`--full` or `--all`), the methods
/// (`--methods` or `--all`), the trait implementations (`--traits` or `--all`).
pub fn views_shown(full: bool, methods: bool, traits: bool, all: bool) -> (r: (bool, bool, bool))
    ensures
        r == (full || all, methods || all, traits || all),
{
    (full || all, methods || all, traits || all)
}

/// The output of a lookup: the header; a note on the re-export the item was
/// found through; the item's summary or full docs; then, on request, its
/// methods and its trait implementations, each after a blank line.
pub open spec fn lookup_output_text<'a>(
    k: Crate,
    header: Seq<char>,
    found: LookupResult<'a>,
    show_full: bool,
    show_methods: bool,
    show_traits: bool,
) -> Seq<char> {
    let item = *found.item;
    header + match found.reexport_source {
        Some(src) => "// note: re-exported from "@ + src@ + "\n\n"@,
        Option::None => Seq::empty(),
    } + (if show_full {
        full_text(k, item)
    } else {
        summary_text(k, item)
    }) + (if show_methods {
        "\n"@ + methods_text(k, item)
    } else {
        Seq::empty()
    }) + (if show_traits {
        "\n"@ + trait_impls_text(k, item)
    } else {
        Seq::empty()
    })
}

/// Renders the output of a lookup.
pub fn render_lookup_output(
    krate: &Crate,
    header: String,
    found: &LookupResult,
    show_full: bool,
    show_methods: bool,
    show_traits: bool,
) -> (r: String)
    ensures
        r@ == lookup_output_text(*krate, header@, *found, show_full, show_methods, show_traits),
{
    let mut body = header;
    match &found.reexport_source {
        Some(src) => {
            body.append("// note: re-exported from ");
            body.append(src.as_str());
            body.append("\n\n");
        },
        Option::None => {},
    }
    let main = if show_full {
        render_item_full(found.item, krate)
    } else {
        render_item_summary(found.item, krate)
    };
    body.append(main.as_str());
    if show_methods {
        body.append("\n");
        let m = render_methods(found.item, krate);
        body.append(m.as_str());
    }
    if show_traits {
        body.append("\n");
        let t = render_trait_impls(found.item, krate);
        body.append(t.as_str());
    }
    body
}


/// `pre` is a prefix of `pre + rest`, and `rest` a suffix.
proof fn lemma_concat_ends(pre: Seq<char>, rest: Seq<char>)
    ensures
        pre.is_prefix_of(pre + rest),
        rest.is_suffix_of(pre + rest),
{
    assert((pre + rest).subrange(0, pre.len() as int) =~= pre);
    assert((pre + rest).subrange(pre.len() as int, (pre + rest).len() as int) =~= rest);
}

/// The output of a lookup begins with the header, then the re-export note
/// exactly when the item was found through a re-export, then the full docs or
/// the summary; it ends with the trait implementations when they were asked
/// for, else with the methods when those were, else with the docs.
pub proof fn lemma_lookup_output_shape<'a>(
    k: Crate,
    header: Seq<char>,
    found: LookupResult<'a>,
    show_full: bool,
    show_methods: bool,
    show_traits: bool,
)
    ensures
        ({
            let out = lookup_output_text(k, header, found, show_full, show_methods, show_traits);
            let note = match found.reexport_source {
                Some(src) => "// note: re-exported from "@ + src@ + "\n\n"@,
                Option::None => Seq::<char>::empty(),
            };
            let docs = if show_full {
                full_text(k, *found.item)
            } else {
                summary_text(k, *found.item)
            };
            &&& (header + note + docs).is_prefix_of(out)
            &&& show_traits ==> ("\n"@ + trait_impls_text(k, *found.item)).is_suffix_of(out)
            &&& show_methods && !show_traits ==> ("\n"@ + methods_text(k, *found.item)).is_suffix_of(out)
            &&& !show_methods && !show_traits ==> out == header + note + docs
        }),
{
    let item = *found.item;
    let note = match found.reexport_source {
        Some(src) => "// note: re-exported from "@ + src@ + "\n\n"@,
        Option::None => Seq::<char>::empty(),
    };
    let docs = if show_full {
        full_text(k, item)
    } else {
        summary_text(k, item)
    };
    let m = if show_methods {
        "\n"@ + methods_text(k, item)
    } else {
        Seq::empty()
    };
    let t = if show_traits {
        "\n"@ + trait_impls_text(k, item)
    } else {
        Seq::empty()
    };
    let out = lookup_output_text(k, header, found, show_full, show_methods, show_traits);
    assert(out =~= (header + note + docs) + (m + t));
    lemma_concat_ends(header + note + docs, m + t);
    assert(out =~= (header + note + docs + m) + t);
    lemma_concat_ends(header + note + docs + m, t);
    if show_methods && !show_traits {
        assert(out =~= (header + note + docs) + m);
        lemma_concat_ends(header + note + docs, m);
    }
    if !show_methods && !show_traits {
        assert(out =~= header + note + docs);
    }
}

/// The header names the crate and the version after `// `, and ends with a
/// blank line; only a version taken from the workspace carries a note, which
/// says `latest` when the newest release is that version and names the newest
/// release when it differs.
pub proof fn lemma_header_note(crate_name: Seq<char>, version: Seq<char>, source: VersionSource, latest: Option<Seq<char>>)
    ensures
        ("// "@ + crate_name + " "@ + version).is_prefix_of(header_text(crate_name, version, source, latest)),
        "\n\n"@.is_suffix_of(header_text(crate_name, version, source, latest)),
        source != VersionSource::Workspace ==> header_text(crate_name, version, source, latest) == "// "@
            + crate_name + " "@ + version + "\n\n"@,
        source == VersionSource::Workspace ==> (latest matches Some(l) ==> (l == version ==> header_text(
            crate_name,
            version,
            source,
            latest,
        ) == "// "@ + crate_name + " "@ + version + " (from workspace, latest)\n\n"@)),
        source == VersionSource::Workspace ==> (latest matches Some(l) ==> (l != version ==> header_text(
            crate_name,
            version,
            source,
            latest,
        ) == "// "@ + crate_name + " "@ + version + " (from workspace; latest is "@ + l + ")\n\n"@)),
        source == VersionSource::Workspace && latest is None ==> header_text(crate_name, version, source, latest)
            == "// "@ + crate_name + " "@ + version + " (from workspace)\n\n"@,
{
    let pre = "// "@ + crate_name + " "@ + version;
    let h = header_text(crate_name, version, source, latest);
    let note = h.subrange(pre.len() as int, h.len() - 2);
    reveal_strlit("\n\n");
    reveal_strlit(" (from workspace, latest)");
    reveal_strlit(" (from workspace, latest)\n\n");
    reveal_strlit(" (from workspace; latest is ");
    reveal_strlit(")");
    reveal_strlit(")\n\n");
    reveal_strlit(" (from workspace)");
    reveal_strlit(" (from workspace)\n\n");
    assert(h =~= pre + (note + "\n\n"@));
    lemma_concat_ends(pre, note + "\n\n"@);
    assert(h =~= (pre + note) + "\n\n"@);
    lemma_concat_ends(pre + note, "\n\n"@);
    assert(" (from workspace, latest)"@ + "\n\n"@ =~= " (from workspace, latest)\n\n"@);
    assert(" (from workspace)"@ + "\n\n"@ =~= " (from workspace)\n\n"@);
    assert(")"@ + "\n\n"@ =~= ")\n\n"@);
    if source == VersionSource::Workspace {
        if let Some(l) = latest {
            if l != version {
                assert(h =~= "// "@ + crate_name + " "@ + version + " (from workspace; latest is "@ + l + ")\n\n"@);
            } else {
                assert(h =~= "// "@ + crate_name + " "@ + version + " (from workspace, latest)\n\n"@);
            }
        } else {
            assert(h =~= "// "@ + crate_name + " "@ + version + " (from workspace)\n\n"@);
        }
    }
}

} // verus!
