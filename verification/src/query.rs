//! Splitting a query such as `jiff::Timestamp::now` into a crate name and an item path.
use crate::strings::{chars_of, join_seq, views};
use vstd::prelude::*;
use vstd::string::{StrSliceExecFns, StringExecFns};

verus! {

/// Whether `s` has the separator `::` at position `i`.
pub open spec fn sep_at(s: Seq<char>, i: int) -> bool {
    0 <= i && i + 1 < s.len() && s[i] == ':' && s[i + 1] == ':'
}

/// Whether `s` holds no `::`.
pub open spec fn no_sep(s: Seq<char>) -> bool {
    forall|k: int| !#[trigger] sep_at(s, k)
}

/// The position of the first `::` in `s`, if any.
pub open spec fn first_sep(s: Seq<char>) -> Option<nat>
    decreases s.len(),
{
    if s.len() < 2 {
        Option::None
    } else if s[0] == ':' && s[1] == ':' {
        Some(0)
    } else {
        match first_sep(s.drop_first()) {
            Some(i) => Some(i + 1),
            Option::None => Option::None,
        }
    }
}

/// The pieces of `s` between the occurrences of `::`, found left to right
/// (what `str::split("::")` yields).
pub open spec fn split_seps(s: Seq<char>) -> Seq<Seq<char>>
    decreases s.len(),
{
    match first_sep(s) {
        Some(i) => if i + 2 <= s.len() {
            seq![s.take(i as int)] + split_seps(s.skip(i + 2 as int))
        } else {
            seq![s]
        },
        Option::None => seq![s],
    }
}

/// `first_sep` finds the first separator: there is none before it, and one at it.
proof fn lemma_first_sep(s: Seq<char>)
    ensures
        match first_sep(s) {
            Some(i) => sep_at(s, i as int) && forall|k: int| 0 <= k < i ==> !sep_at(s, k),
            Option::None => forall|k: int| !sep_at(s, k),
        },
    decreases s.len(),
{
    if s.len() >= 2 && !(s[0] == ':' && s[1] == ':') {
        lemma_first_sep(s.drop_first());
        let t = s.drop_first();
        assert forall|k: int| 0 < k implies sep_at(s, k) == sep_at(t, k - 1) by {}
        match first_sep(t) {
            Some(i) => {
                assert forall|k: int| 0 <= k < i + 1 implies !sep_at(s, k) by {
                    if k > 0 {
                        assert(!sep_at(t, k - 1));
                    }
                }
            },
            Option::None => {
                assert forall|k: int| !sep_at(s, k) by {
                    if k > 0 {
                        assert(!sep_at(t, k - 1));
                    }
                }
            },
        }
    }
}

/// A separator at `i` with none before it is the first one.
proof fn lemma_first_sep_is(s: Seq<char>, i: int)
    requires
        sep_at(s, i),
        forall|k: int| 0 <= k < i ==> !sep_at(s, k),
    ensures
        first_sep(s) == Some(i as nat),
{
    lemma_first_sep(s);
    match first_sep(s) {
        Some(j) => {
            if j < i {
                assert(!sep_at(s, j as int));
            }
            if j > i {
                assert(!sep_at(s, i));
            }
        },
        Option::None => {
            assert(!sep_at(s, i));
        },
    }
}

/// With no separator in `s`, `first_sep` finds none.
proof fn lemma_first_sep_none(s: Seq<char>)
    requires
        forall|k: int| 0 <= k ==> !sep_at(s, k),
    ensures
        first_sep(s) is None,
{
    lemma_first_sep(s);
    match first_sep(s) {
        Some(j) => {
            assert(!sep_at(s, j as int));
        },
        Option::None => {},
    }
}

/// Joining the pieces with `::` gives back the string.
pub proof fn lemma_split_join(s: Seq<char>)
    ensures
        join_seq(split_seps(s), "::"@) == s,
        split_seps(s).len() >= 1,
    decreases s.len(),
{
    reveal_strlit("::");
    lemma_first_sep(s);
    match first_sep(s) {
        Some(i) => {
            let rest = s.skip(i + 2 as int);
            lemma_split_join(rest);
            let head = s.take(i as int);
            let parts = split_seps(s);
            assert(parts == seq![head] + split_seps(rest));
            lemma_join_cons(head, split_seps(rest), "::"@);
            assert(s =~= head + "::"@ + rest);
        },
        Option::None => {
            assert(split_seps(s) == seq![s]);
        },
    }
}

/// Joining a piece in front of other pieces.
pub proof fn lemma_join_cons(head: Seq<char>, rest: Seq<Seq<char>>, sep: Seq<char>)
    requires
        rest.len() >= 1,
    ensures
        join_seq(seq![head] + rest, sep) == head + sep + join_seq(rest, sep),
    decreases rest.len(),
{
    let all = seq![head] + rest;
    if rest.len() == 1 {
        assert(all.drop_last() =~= seq![head]);
        assert(all.last() == rest[0]);
        assert(join_seq(seq![head], sep) == head);
        assert(join_seq(rest, sep) == rest[0]);
        assert(join_seq(all, sep) == join_seq(all.drop_last(), sep) + sep + all.last());
    } else {
        lemma_join_cons(head, rest.drop_last(), sep);
        assert(all.drop_last() =~= seq![head] + rest.drop_last());
        assert(all.last() == rest.last());
        assert(join_seq(all, sep) == join_seq(all.drop_last(), sep) + sep + all.last());
        assert(join_seq(rest, sep) == join_seq(rest.drop_last(), sep) + sep + rest.last());
        assert(join_seq(all, sep) =~= head + sep + join_seq(rest, sep));
    }
}

/// No piece holds the separator.
pub proof fn lemma_split_pieces(s: Seq<char>)
    ensures
        forall|j: int| 0 <= j < split_seps(s).len() ==> no_sep(#[trigger] split_seps(s)[j]),
    decreases s.len(),
{
    lemma_first_sep(s);
    match first_sep(s) {
        Some(i) => {
            let rest = s.skip(i + 2 as int);
            lemma_split_pieces(rest);
            let head = s.take(i as int);
            assert forall|k: int| !sep_at(head, k) by {
                if sep_at(head, k) {
                    assert(sep_at(s, k));
                }
            }
            assert forall|j: int| 0 <= j < split_seps(s).len() implies no_sep(#[trigger] split_seps(s)[j]) by {
                if j > 0 {
                    assert(split_seps(s)[j] == split_seps(rest)[j - 1]);
                }
            }
        },
        Option::None => {},
    }
}

/// The query is split at the leftmost separators: no piece but the last ends
/// with `:` (else a separator would have begun one character earlier).
pub proof fn lemma_split_leftmost(s: Seq<char>)
    ensures
        forall|j: int|
            0 <= j < split_seps(s).len() - 1 ==> (#[trigger] split_seps(s)[j]).len() == 0 || split_seps(
                s,
            )[j].last() != ':',
    decreases s.len(),
{
    lemma_first_sep(s);
    match first_sep(s) {
        Some(i) => {
            let rest = s.skip(i + 2 as int);
            lemma_split_leftmost(rest);
            let head = s.take(i as int);
            if head.len() > 0 && head.last() == ':' {
                assert(sep_at(s, i - 1));
            }
            assert forall|j: int| 0 <= j < split_seps(s).len() - 1 implies (#[trigger] split_seps(s)[j]).len()
                == 0 || split_seps(s)[j].last() != ':' by {
                if j > 0 {
                    assert(split_seps(s)[j] == split_seps(rest)[j - 1]);
                }
            }
        },
        Option::None => {},
    }
}

/// Why a query was refused.
pub enum QueryError {
    /// The query does not start with a crate name.
    MissingCrateName,
}

impl QueryError {
    /// The error's message.
    pub fn message(&self) -> (r: String)
        ensures
            r@ == "invalid query: expected format like `crate::Item`"@,
    {
        String::from_str("invalid query: expected format like `crate::Item`")
    }
}

/// The pieces of `s` between the occurrences of `::`, left to right.
pub fn split_query(s: &str) -> (r: Vec<String>)
    ensures
        views(r@) == split_seps(s@),
{
    let v = chars_of(s);
    let n = v.len();
    let mut parts: Vec<String> = Vec::new();
    let mut start: usize = 0;
    let mut i: usize = 0;
    assert(v@.skip(0) =~= v@);
    while n >= 1 && i < n - 1
        invariant
            v@ == s@,
            n == v.len(),
            start <= i <= n,
            views(parts@) + split_seps(v@.skip(start as int)) == split_seps(s@),
            forall|k: int| start <= k < i ==> !sep_at(v@, k),
        decreases n - i,
    {
        if v[i] == ':' && v[i + 1] == ':' {
            let ghost rest = v@.skip(start as int);
            proof {
                assert forall|k: int| 0 <= k < i - start implies !sep_at(rest, k) by {
                    assert(sep_at(rest, k) == sep_at(v@, k + start));
                }
                assert(sep_at(rest, i - start));
                lemma_first_sep_is(rest, i - start);
                assert(rest.take(i - start) =~= v@.subrange(start as int, i as int));
                assert(rest.skip(i - start + 2) =~= v@.skip(i + 2));
            }
            let piece = s.substring_char(start, i).to_owned();
            let ghost before = views(parts@);
            parts.push(piece);
            assert(views(parts@) =~= before.push(piece@));
            assert(views(parts@) + split_seps(v@.skip(i + 2)) =~= before + split_seps(rest));
            start = i + 2;
            i = i + 2;
        } else {
            assert(!sep_at(v@, i as int));
            i = i + 1;
        }
    }
    let ghost rest = v@.skip(start as int);
    proof {
        assert forall|k: int| 0 <= k implies !sep_at(rest, k) by {
            assert(sep_at(rest, k) ==> sep_at(v@, k + start));
        }
        lemma_first_sep_none(rest);
        assert(rest =~= v@.subrange(start as int, n as int));
    }
    let piece = s.substring_char(start, n).to_owned();
    let ghost before = views(parts@);
    parts.push(piece);
    assert(views(parts@) =~= before.push(piece@));
    assert(views(parts@) =~= before + split_seps(rest));
    parts
}

/// Splits a query such as `crate::Item::method` into the crate name and the
/// item path. The first piece must be non-empty.
pub fn parse_query(query: &str) -> (r: Result<(String, Vec<String>), QueryError>)
    ensures
        ({
            let parts = split_seps(query@);
            match r {
                Ok((c, p)) => parts[0].len() > 0 && c@ == parts[0] && views(p@) == parts.drop_first(),
                Err(_) => parts[0].len() == 0,
            }
        }),
{
    let mut parts = split_query(query);
    proof {
        lemma_split_join(query@);
    }
    if parts.len() == 0 || parts[0].unicode_len() == 0 {
        return Err(QueryError::MissingCrateName);
    }
    let ghost all = views(parts@);
    let crate_name = parts.remove(0);
    assert(views(parts@) =~= all.drop_first());
    Ok((crate_name, parts))
}

/// A parsed query names its input: the crate name, then each path component,
/// joined with `::`, gives back the query; no component holds `::`; and the
/// split is made at the leftmost separators, so no component but the last ends with `:`.
pub proof fn lemma_query_round_trip(query: Seq<char>)
    ensures
        ({
            let parts = split_seps(query);
            &&& parts.len() >= 1
            &&& parts.drop_first().len() == 0 ==> parts[0] == query
            &&& parts.drop_first().len() > 0 ==> parts[0] + "::"@ + join_seq(parts.drop_first(), "::"@)
                == query
            &&& forall|j: int| 0 <= j < parts.len() ==> no_sep(#[trigger] parts[j])
            &&& forall|j: int|
                0 <= j < parts.len() - 1 ==> (#[trigger] parts[j]).len() == 0 || parts[j].last() != ':'
        }),
{
    lemma_split_leftmost(query);
    lemma_split_join(query);
    lemma_split_pieces(query);
    let parts = split_seps(query);
    if parts.len() > 1 {
        assert(parts =~= seq![parts[0]] + parts.drop_first());
        lemma_join_cons(parts[0], parts.drop_first(), "::"@);
    } else {
        assert(parts =~= seq![parts[0]]);
    }
}

} // verus!
