//! The documentation of a crate as fetched, and the decisions around fetching it.
use crate::lookup::opt_view;
use crate::model::{Id, Item, ItemSummary};
use crate::strings::{chars_of, copy_str, decimal, str_equal, to_decimal, trim, trim_str};
use std::collections::HashMap;
use vstd::prelude::*;
use vstd::string::StringExecFns;

verus! {

/// A crate's documentation: the root module's id, the crate version, every
/// documented item by id, and the path table (each entry an id and its summary).
pub struct Crate {
    pub root: Id,
    pub crate_version: Option<String>,
    pub index: HashMap<Id, Item>,
    pub paths: Vec<(Id, ItemSummary)>,
}

/// A crate's documentation together with the version it was resolved to.
pub struct FetchedCrate {
    pub krate: Crate,
    pub version: String,
}

// ── Format versions ─────────────────────────────────────────────────────

/// The oldest rustdoc JSON format version that can be read.
pub const MIN_FORMAT_VERSION: u32 = 39;

/// The format version that the rustdoc data model was written for
/// (`rustdoc_types::FORMAT_VERSION`).
pub open spec fn expected_version() -> u32 {
    57
}

/// Reads `rustdoc_types::FORMAT_VERSION`, which the crate's source defines as 57.
#[verifier::external_body]
fn expected_format_version() -> (v: u32)
    ensures
        v == expected_version(),
{
    rustdoc_types::FORMAT_VERSION
}

/// Why fetching or reading a crate's documentation failed.
#[allow(inconsistent_fields)]
pub enum FetchError {
    /// No cache directory could be determined.
    NoCacheDir,
    /// docs.rs could not be reached.
    Connect,
    /// docs.rs has no rustdoc JSON for this crate and version.
    NotFound { crate_name: String, version: String },
    /// docs.rs answered with another unsuccessful status; `reason` is the
    /// status's canonical reason phrase, if it has one.
    Http { status: u16, reason: Option<String> },
    /// The response body could not be read.
    ReadBody,
    /// The response body is not zstd data.
    Decompress,
    /// The JSON has no readable `format_version`.
    FormatUnreadable,
    /// The JSON's format version is older than `MIN_FORMAT_VERSION`.
    FormatTooOld { crate_name: String, version: u32 },
    /// The JSON's format version is newer than the one the data model was
    /// written for.
    FormatTooNew { crate_name: String, version: u32 },
    /// The JSON could not be parsed as rustdoc output.
    Parse { crate_name: String, version: u32 },
}

/// The message of a fetch error.
pub open spec fn fetch_error_text(e: FetchError) -> Seq<char> {
    match e {
        FetchError::NoCacheDir => "could not determine cache directory"@,
        FetchError::Connect => "failed to connect to docs.rs"@,
        FetchError::NotFound { crate_name, version } => "crate `"@ + crate_name@ + "` version `"@
            + version@ + "` not found on docs.rs.\nThis could mean:\n  - The crate name is misspelled\n  - The version doesn't exist\n  - Rustdoc JSON is not available (only crates published after 2025-05-23 have it)"@,
        FetchError::Http { status, reason } => "docs.rs returned HTTP "@ + decimal(status as nat) + " "@
            + match reason {
            Some(r) => r@,
            Option::None => "<unknown status code>"@,
        } + ": "@ + match reason {
            Some(r) => r@,
            Option::None => "unknown"@,
        },
        FetchError::ReadBody => "failed to read response body"@,
        FetchError::Decompress => "failed to decompress zstd data"@,
        FetchError::FormatUnreadable => "failed to read format_version from rustdoc JSON"@,
        FetchError::FormatTooOld { crate_name, version } => "rustdoc JSON for `"@ + crate_name@
            + "` uses format version "@ + decimal(version as nat)
            + ", which is too old (minimum supported: "@ + decimal(MIN_FORMAT_VERSION as nat) + ")"@,
        FetchError::FormatTooNew { crate_name, version } => "rustdoc JSON for `"@ + crate_name@
            + "` uses format version "@ + decimal(version as nat)
            + ", which is too new (maximum supported: "@ + decimal(expected_version() as nat) + ")"@,
        FetchError::Parse { crate_name, version } => "failed to parse rustdoc JSON for `"@ + crate_name@
            + "` (format version "@ + decimal(version as nat) + ", expected "@ + decimal(
            expected_version() as nat,
        ) + ")"@,
    }
}

impl FetchError {
    /// The error's message.
    pub fn message(&self) -> (r: String)
        ensures
            r@ == fetch_error_text(*self),
    {
        match self {
            FetchError::NoCacheDir => String::from_str("could not determine cache directory"),
            FetchError::Connect => String::from_str("failed to connect to docs.rs"),
            FetchError::NotFound { crate_name, version } => {
                let mut s = String::from_str("crate `");
                s.append(crate_name.as_str());
                s.append("` version `");
                s.append(version.as_str());
                s.append(
                    "` not found on docs.rs.\nThis could mean:\n  - The crate name is misspelled\n  - The version doesn't exist\n  - Rustdoc JSON is not available (only crates published after 2025-05-23 have it)",
                );
                s
            },
            FetchError::Http { status, reason } => {
                let mut s = String::from_str("docs.rs returned HTTP ");
                let d = to_decimal(*status as usize);
                s.append(d.as_str());
                s.append(" ");
                match reason {
                    Some(r) => {
                        s.append(r.as_str());
                    },
                    Option::None => {
                        s.append("<unknown status code>");
                    },
                }
                s.append(": ");
                match reason {
                    Some(r) => {
                        s.append(r.as_str());
                    },
                    Option::None => {
                        s.append("unknown");
                    },
                }
                s
            },
            FetchError::ReadBody => String::from_str("failed to read response body"),
            FetchError::Decompress => String::from_str("failed to decompress zstd data"),
            FetchError::FormatUnreadable => String::from_str(
                "failed to read format_version from rustdoc JSON",
            ),
            FetchError::FormatTooOld { crate_name, version } => {
                let mut s = String::from_str("rustdoc JSON for `");
                s.append(crate_name.as_str());
                s.append("` uses format version ");
                let d = to_decimal(*version as usize);
                s.append(d.as_str());
                s.append(", which is too old (minimum supported: ");
                let m = to_decimal(MIN_FORMAT_VERSION as usize);
                s.append(m.as_str());
                s.append(")");
                s
            },
            FetchError::FormatTooNew { crate_name, version } => {
                let mut s = String::from_str("rustdoc JSON for `");
                s.append(crate_name.as_str());
                s.append("` uses format version ");
                let d = to_decimal(*version as usize);
                s.append(d.as_str());
                s.append(", which is too new (maximum supported: ");
                let m = to_decimal(expected_format_version() as usize);
                s.append(m.as_str());
                s.append(")");
                s
            },
            FetchError::Parse { crate_name, version } => {
                let mut s = String::from_str("failed to parse rustdoc JSON for `");
                s.append(crate_name.as_str());
                s.append("` (format version ");
                let d = to_decimal(*version as usize);
                s.append(d.as_str());
                s.append(", expected ");
                let e = to_decimal(expected_format_version() as usize);
                s.append(e.as_str());
                s.append(")");
                s
            },
        }
    }
}

/// The warning for a format version that differs from the expected one.
pub open spec fn format_warning_text(crate_name: Seq<char>, version: u32) -> Seq<char> {
    "warning: rustdoc JSON for `"@ + crate_name + "` uses format version "@ + decimal(version as nat)
        + " (expected "@ + decimal(expected_version() as nat) + ")."@
}

/// Checks the format version of a crate's rustdoc JSON before it is parsed.
/// The supported versions run from `MIN_FORMAT_VERSION` to the expected one;
/// a version outside them is refused with an error that says which bound it
/// crosses. A supported version other than the expected one is accepted with a
/// warning, which is returned.
pub fn check_format_version(version: u32, crate_name: &str) -> (r: Result<Option<String>, FetchError>)
    ensures
        (version < MIN_FORMAT_VERSION || version > expected_version()) <==> r is Err,
        match r {
            Err(e) => if version < MIN_FORMAT_VERSION {
                e matches FetchError::FormatTooOld { crate_name: c, version: v } && c@ == crate_name@
                    && v == version
            } else {
                e matches FetchError::FormatTooNew { crate_name: c, version: v } && c@ == crate_name@
                    && v == version
            },
            Ok(w) => match w {
                Some(t) => version != expected_version() && t@ == format_warning_text(crate_name@, version),
                Option::None => version == expected_version(),
            },
        },
{
    if version < MIN_FORMAT_VERSION {
        return Err(FetchError::FormatTooOld { crate_name: String::from_str(crate_name), version });
    }
    let expected = expected_format_version();
    if version > expected {
        return Err(FetchError::FormatTooNew { crate_name: String::from_str(crate_name), version });
    }
    if version != expected {
        let mut s = String::from_str("warning: rustdoc JSON for `");
        s.append(crate_name);
        s.append("` uses format version ");
        let d = to_decimal(version as usize);
        s.append(d.as_str());
        s.append(" (expected ");
        let e = to_decimal(expected as usize);
        s.append(e.as_str());
        s.append(").");
        return Ok(Some(s));
    }
    Ok(Option::None)
}

// ── Cache layout ────────────────────────────────────────────────────────

/// `seg` appended to the path `base` as `PathBuf::push` does on Unix: an
/// absolute `seg` replaces `base`; otherwise a `/` separates the two unless
/// `base` is empty or already ends with one.
pub open spec fn path_join(base: Seq<char>, seg: Seq<char>) -> Seq<char> {
    if seg.len() > 0 && seg[0] == '/' {
        seg
    } else if base.len() == 0 || base.last() == '/' {
        base + seg
    } else {
        base + "/"@ + seg
    }
}

/// Joins the path `seg` onto `base`.
pub fn join_path(base: &str, seg: &str) -> (r: String)
    ensures
        r@ == path_join(base@, seg@),
{
    let b = chars_of(base);
    let t = chars_of(seg);
    if t.len() > 0 && t[0] == '/' {
        return String::from_str(seg);
    }
    let mut s = String::from_str(base);
    if !(b.len() == 0 || b[b.len() - 1] == '/') {
        s.append("/");
    }
    s.append(seg);
    s
}

/// The cache directory of the tool inside the user's cache directory `base`.
pub fn cache_dir(base: &str) -> (r: String)
    ensures
        r@ == path_join(base@, "wtr"@),
{
    join_path(base, "wtr")
}

/// The cache directory of one crate.
pub fn crate_cache_dir(cache_dir: &str, crate_name: &str) -> (r: String)
    ensures
        r@ == path_join(cache_dir@, crate_name@),
{
    join_path(cache_dir, crate_name)
}

/// Where the decompressed JSON of one crate version is cached:
/// `<version>.json` in the crate's cache directory.
pub fn cached_json_path(cache_dir: &str, crate_name: &str, version: &str) -> (r: String)
    ensures
        r@ == path_join(path_join(cache_dir@, crate_name@), version@ + ".json"@),
{
    let dir = crate_cache_dir(cache_dir, crate_name);
    let mut file = String::from_str(version);
    file.append(".json");
    join_path(dir.as_str(), file.as_str())
}

/// Where the version that `latest` last resolved to is kept:
/// `latest.version` in the crate's cache directory.
pub fn sidecar_path(cache_dir: &str, crate_name: &str) -> (r: String)
    ensures
        r@ == path_join(path_join(cache_dir@, crate_name@), "latest.version"@),
{
    let dir = crate_cache_dir(cache_dir, crate_name);
    join_path(dir.as_str(), "latest.version")
}

/// How long a resolution of `latest` stays fresh, in seconds.
pub const SIDECAR_MAX_AGE_SECS: u64 = 86400;

/// Whether a record of `latest` that is `age_secs` seconds old is still fresh:
/// it is while it is less than a day old.
pub fn sidecar_fresh(age_secs: u64) -> (r: bool)
    ensures
        r == (age_secs < SIDECAR_MAX_AGE_SECS),
{
    age_secs < SIDECAR_MAX_AGE_SECS
}

/// The version recorded for `latest`, given the age of the record in seconds
/// and its contents: nothing once it is a day old or older, or when it holds
/// only whitespace; else its contents, trimmed.
pub fn fresh_sidecar_version(age_secs: u64, contents: &str) -> (r: Option<String>)
    ensures
        age_secs >= SIDECAR_MAX_AGE_SECS ==> r is None,
        age_secs < SIDECAR_MAX_AGE_SECS ==> opt_view(r) == if trim(contents@).len() == 0 {
            Option::<Seq<char>>::None
        } else {
            Some(trim(contents@))
        },
{
    if !sidecar_fresh(age_secs) {
        return Option::None;
    }
    let version = trim_str(contents);
    if version.unicode_len() == 0 {
        return Option::None;
    }
    Some(version)
}

// ── Fetching ────────────────────────────────────────────────────────────

/// The docs.rs address of a crate version's rustdoc JSON.
pub open spec fn docs_url_text(crate_name: Seq<char>, version: Seq<char>) -> Seq<char> {
    "https://docs.rs/crate/"@ + crate_name + "/"@ + version + "/json"@
}

/// The docs.rs address of a crate version's rustdoc JSON.
pub fn docs_url(crate_name: &str, version: &str) -> (r: String)
    ensures
        r@ == docs_url_text(crate_name@, version@),
{
    let mut s = String::from_str("https://docs.rs/crate/");
    s.append(crate_name);
    s.append("/");
    s.append(version);
    s.append("/json");
    s
}

/// What is being fetched: a crate, a version (or `latest`), and whether the
/// cache is bypassed.
pub struct FetchPlan {
    pub crate_name: String,
    pub version: String,
    pub refresh: bool,
}

/// What happened in the last step of a fetch.
pub enum FetchEvent {
    /// The fetch begins.
    Start,
    /// The record of `latest` was read; it holds the version if it is fresh.
    Sidecar(Option<String>),
    /// The cached JSON of this version was found and parsed.
    CacheHit { version: String },
    /// No cached JSON was found for the version tried.
    CacheMiss,
    /// docs.rs answered with this status and its canonical reason phrase.
    Response { status: u16, reason: Option<String> },
    /// The downloaded JSON was parsed; it names this crate version, if any.
    Parsed { crate_version: Option<String> },
}

/// What to do next in a fetch.
pub enum FetchAction {
    /// Read the record of what `latest` resolved to.
    ReadSidecar,
    /// Load the cached JSON of this version.
    LoadCache { version: String },
    /// Download the rustdoc JSON from this address.
    Download { url: String },
    /// Decompress and parse the downloaded body.
    Decode,
    /// Cache the JSON under this version (and record it as `latest` if so
    /// asked), then finish with it.
    Store { version: String, record_latest: bool },
    /// Finish with the documentation of this version.
    Done { version: String },
    /// Give up with this error.
    Fail(FetchError),
}

/// The next action of a fetch after an event.
///
/// A fetch of `latest` first looks for a fresh record of what `latest` last
/// resolved to and then for the cache of that version; an explicit version
/// looks in the cache first; `refresh` skips both. A miss downloads. A 404 is
/// reported as a missing crate version, another unsuccessful status as an HTTP
/// error; a success is decoded. The parsed JSON is stored under the version it
/// names, else under the requested one, and recorded as `latest` when that was requested.
pub open spec fn fetch_step(plan: FetchPlan, event: FetchEvent, a: FetchAction) -> bool {
    let latest = plan.version@ == "latest"@;
    let download = a matches FetchAction::Download { url } && url@ == docs_url_text(
        plan.crate_name@,
        plan.version@,
    );
    match event {
        FetchEvent::Start => if plan.refresh {
            download
        } else if latest {
            a is ReadSidecar
        } else {
            a matches FetchAction::LoadCache { version } && version@ == plan.version@
        },
        FetchEvent::Sidecar(v) => match v {
            Some(resolved) => a matches FetchAction::LoadCache { version } && version@ == resolved@,
            Option::None => download,
        },
        FetchEvent::CacheHit { version } => a matches FetchAction::Done { version: w } && w@
            == version@,
        FetchEvent::CacheMiss => download,
        FetchEvent::Response { status, reason } => if status == 404 {
            a matches FetchAction::Fail(FetchError::NotFound { crate_name, version }) && crate_name@
                == plan.crate_name@ && version@ == plan.version@
        } else if status < 200 || status > 299 {
            a matches FetchAction::Fail(FetchError::Http { status: s, reason: r }) && s == status
                && opt_view(r) == opt_view(reason)
        } else {
            a is Decode
        },
        FetchEvent::Parsed { crate_version } => a matches FetchAction::Store {
            version,
            record_latest,
        } && version@ == match crate_version {
            Some(v) => v@,
            Option::None => plan.version@,
        } && record_latest == latest,
    }
}

/// The next action of a fetch after an event.
pub fn next_step(plan: &FetchPlan, event: FetchEvent) -> (r: FetchAction)
    ensures
        fetch_step(*plan, event, r),
{
    let latest = str_equal(plan.version.as_str(), "latest");
    match event {
        FetchEvent::Start => {
            if plan.refresh {
                FetchAction::Download { url: docs_url(plan.crate_name.as_str(), plan.version.as_str()) }
            } else if latest {
                FetchAction::ReadSidecar
            } else {
                FetchAction::LoadCache { version: copy_str(&plan.version) }
            }
        },
        FetchEvent::Sidecar(v) => match v {
            Some(resolved) => FetchAction::LoadCache { version: resolved },
            Option::None => FetchAction::Download {
                url: docs_url(plan.crate_name.as_str(), plan.version.as_str()),
            },
        },
        FetchEvent::CacheHit { version } => FetchAction::Done { version },
        FetchEvent::CacheMiss => FetchAction::Download {
            url: docs_url(plan.crate_name.as_str(), plan.version.as_str()),
        },
        FetchEvent::Response { status, reason } => {
            if status == 404 {
                FetchAction::Fail(
                    FetchError::NotFound {
                        crate_name: copy_str(&plan.crate_name),
                        version: copy_str(&plan.version),
                    },
                )
            } else if status < 200 || status > 299 {
                FetchAction::Fail(FetchError::Http { status, reason })
            } else {
                FetchAction::Decode
            }
        },
        FetchEvent::Parsed { crate_version } => {
            let version = match crate_version {
                Some(v) => v,
                Option::None => copy_str(&plan.version),
            };
            FetchAction::Store { version, record_latest: latest }
        },
    }
}

/// What the zstd decoder yields for these bytes: the decompressed bytes, or
/// nothing when they are not a valid zstd stream.
pub uninterp spec fn zstd_decoded(data: Seq<u8>) -> Option<Seq<u8>>;

/// Calls `zstd::stream::decode_all` on the bytes; its result is named
/// `zstd_decoded` of the input bytes, an error standing for `None`.
#[verifier::external_body]
fn zstd_decode_all(data: &[u8]) -> (r: Option<Vec<u8>>)
    ensures
        match r {
            Some(v) => zstd_decoded(data@) == Some(v@),
            Option::None => zstd_decoded(data@) is None,
        },
{
    zstd::stream::decode_all(data).ok()
}

/// Decompresses a zstd-compressed response body.
pub fn decompress_body(data: &[u8]) -> (r: Result<Vec<u8>, FetchError>)
    ensures
        match r {
            Ok(v) => zstd_decoded(data@) == Some(v@),
            Err(e) => zstd_decoded(data@) is None && e is Decompress,
        },
{
    match zstd_decode_all(data) {
        Some(v) => Ok(v),
        Option::None => Err(FetchError::Decompress),
    }
}


/// With `refresh`, a fetch starts by downloading the JSON of the requested
/// crate and version from docs.rs, for `latest` and an explicit version alike;
/// neither the record of `latest` nor the cache is read, and no answer from
/// docs.rs or parsed download leads to them either.
pub proof fn lemma_refresh_downloads(plan: FetchPlan, event: FetchEvent, a: FetchAction)
    requires
        plan.refresh,
        event is Start || event is Response || event is Parsed,
        fetch_step(plan, event, a),
    ensures
        event is Start ==> (a matches FetchAction::Download { url } && url@ == docs_url_text(
            plan.crate_name@,
            plan.version@,
        )),
        !(a is ReadSidecar),
        !(a is LoadCache),
{
}

/// Without `refresh`, a fetch of an explicit version first tries the cache of
/// that version, and a fetch of `latest` first reads the record of what
/// `latest` resolved to.
pub proof fn lemma_cache_first(plan: FetchPlan, a: FetchAction)
    requires
        !plan.refresh,
        fetch_step(plan, FetchEvent::Start, a),
    ensures
        plan.version@ == "latest"@ ==> a is ReadSidecar,
        plan.version@ != "latest"@ ==> (a matches FetchAction::LoadCache { version } && version@
            == plan.version@),
{
}


/// How a fetch answers what docs.rs and the cache say: a fresh record of
/// `latest` leads to the cache of the version it names and no record to a
/// download; a cache hit finishes with that version and a miss downloads; a 404
/// is reported as a missing crate version, another status outside 200–299 as an
/// HTTP error with its status and reason, and a success is decoded; parsed JSON
/// is stored under the version it names, else the requested one, and recorded
/// as `latest` exactly when `latest` was requested.
pub proof fn lemma_fetch_answers(plan: FetchPlan, event: FetchEvent, a: FetchAction)
    requires
        fetch_step(plan, event, a),
    ensures
        event matches FetchEvent::Sidecar(Some(v)) ==> (a matches FetchAction::LoadCache { version }
            && version@ == v@),
        event matches FetchEvent::Sidecar(None) ==> (a matches FetchAction::Download { url } && url@
            == docs_url_text(plan.crate_name@, plan.version@)),
        event matches FetchEvent::CacheHit { version } ==> (a matches FetchAction::Done { version: w }
            && w@ == version@),
        event is CacheMiss ==> (a matches FetchAction::Download { url } && url@ == docs_url_text(
            plan.crate_name@,
            plan.version@,
        )),
        event matches FetchEvent::Response { status, reason } ==> (status == 404 <==> a matches FetchAction::Fail(
            FetchError::NotFound { .. },
        )),
        event matches FetchEvent::Response { status, reason } ==> (200 <= status <= 299 <==> a is Decode),
        event matches FetchEvent::Response { status, reason } ==> (a matches FetchAction::Fail(
            FetchError::NotFound { crate_name, version },
        ) ==> crate_name@ == plan.crate_name@ && version@ == plan.version@),
        event matches FetchEvent::Response { status, reason } ==> (status != 404 && (status < 200 || status
            > 299) ==> (a matches FetchAction::Fail(FetchError::Http { status: s, reason: r }) && s == status
            && opt_view(r) == opt_view(reason))),
        event matches FetchEvent::Parsed { crate_version } ==> (a matches FetchAction::Store {
            version,
            record_latest,
        } && record_latest == (plan.version@ == "latest"@) && version@ == match crate_version {
            Some(v) => v@,
            Option::None => plan.version@,
        }),
{
}

/// The docs.rs address of a crate version is
/// `https://docs.rs/crate/<crate>/<version>/json`: the crate name and the
/// version stand between slashes after the fixed prefix.
pub proof fn lemma_docs_url_parts(crate_name: Seq<char>, version: Seq<char>)
    ensures
        ({
            let u = docs_url_text(crate_name, version);
            let pre = "https://docs.rs/crate/"@;
            let a = pre.len() as int;
            let c = a + crate_name.len();
            let v = c + 1 + version.len();
            &&& u.len() == v + 5
            &&& u.subrange(0, a) == pre
            &&& u.subrange(a, c) == crate_name
            &&& u[c] == '/'
            &&& u.subrange(c + 1, v) == version
            &&& u.subrange(v, v + 5) == "/json"@
        }),
{
    reveal_strlit("https://docs.rs/crate/");
    reveal_strlit("/");
    reveal_strlit("/json");
    let pre = "https://docs.rs/crate/"@;
    let u = docs_url_text(crate_name, version);
    let a = pre.len() as int;
    let c = a + crate_name.len();
    let v = c + 1 + version.len();
    assert(u.subrange(0, a) =~= pre);
    assert(u.subrange(a, c) =~= crate_name);
    assert(u.subrange(c + 1, v) =~= version);
    assert(u.subrange(v, v + 5) =~= "/json"@);
}

} // verus!
