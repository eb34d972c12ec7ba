//! Reconciling the lock file against the on-disk cache: every configured
//! package is classified as synced, missing, outdated or corrupted.  The
//! directory listing is handed in as data; nothing here touches the disk.
use crate::config::Config;
use crate::lockfile::{entries_view, lookup_version, spec_lookup, LockEntry};
use crate::storage::spec_entry_dir;
use crate::strutil::{
    lex_le, match_at, opt_string_view, spec_ends_with, str_ends_with, str_eq, str_starts_with,
    strings_view,
};
use vstd::prelude::*;
use vstd::string::StrSliceExecFns;
use vstd::string::StringExecFns;

verus! {

/// The classification of one package's cache entry.
#[derive(Debug, Clone, Copy, PartialEq, Eq, Structural)]
pub enum SyncStatus {
    /// The locked version is cached with recognizable content.
    Synced,
    /// Nothing usable is cached, or the package is not in the lock file.
    Missing,
    /// Only a different version is cached.
    Outdated,
    /// The locked version's directory exists but holds no recognizable content.
    Corrupted,
}

impl SyncStatus {
    /// The label each classification prints as.
    pub open spec fn spec_str(self) -> Seq<char> {
        match self {
            SyncStatus::Synced => "Synced"@,
            SyncStatus::Missing => "Missing"@,
            SyncStatus::Outdated => "Outdated"@,
            SyncStatus::Corrupted => "Corrupted"@,
        }
    }

    /// Names the classification.
    pub fn as_str(self) -> (r: &'static str)
        ensures
            r@ == self.spec_str(),
    {
        match self {
            SyncStatus::Synced => "Synced",
            SyncStatus::Missing => "Missing",
            SyncStatus::Outdated => "Outdated",
            SyncStatus::Corrupted => "Corrupted",
        }
    }
}

/// One package's reconciliation result.
#[derive(Debug, Clone, PartialEq, Eq)]
pub struct StatusRow {
    pub crate_name: String,
    /// The version the lock file requires, when the package is locked.
    pub lock_version: Option<String>,
    /// The version found on disk, which may differ from the locked one.
    pub synced_version: Option<String>,
    pub status: SyncStatus,
}

/// One directory of the cache tree: its name and the names of its files.
#[derive(Debug, Clone, PartialEq, Eq)]
pub struct CacheDir {
    pub name: String,
    pub files: Vec<String>,
}

/// A directory holds recognizable content when some file is a Markdown
/// document or the metadata marker.
pub open spec fn spec_has_docs(files: Seq<Seq<char>>) -> bool {
    exists|i: int|
        0 <= i < files.len() && (spec_ends_with(#[trigger] files[i], ".md"@) || files[i]
            == ".aifd-meta.toml"@)
}

/// Whether a directory listing holds recognizable documentation content.
pub fn has_docs_content(files: &Vec<String>) -> (r: bool)
    ensures
        r == spec_has_docs(strings_view(files@)),
{
    let mut i: usize = 0;
    while i < files.len()
        invariant
            0 <= i <= files@.len(),
            forall|k: int|
                0 <= k < i ==> !(spec_ends_with(#[trigger] strings_view(files@)[k], ".md"@)
                    || strings_view(files@)[k] == ".aifd-meta.toml"@),
        decreases files@.len() - i,
    {
        let is_doc = str_ends_with(files[i].as_str(), ".md") || str_eq(
            files[i].as_str(),
            ".aifd-meta.toml",
        );
        proof {
            assert(strings_view(files@)[i as int] == files@[i as int]@);
        }
        if is_doc {
            return true;
        }
        i += 1;
    }
    false
}

/// The first directory with exactly this name, from position `i` on.
pub open spec fn spec_find_dir_from(dirs: Seq<CacheDir>, name: Seq<char>, i: int) -> Option<int>
    decreases dirs.len() - i,
    when 0 <= i
{
    if i >= dirs.len() {
        None
    } else if dirs[i].name@ == name {
        Some(i)
    } else {
        spec_find_dir_from(dirs, name, i + 1)
    }
}

/// The first directory with exactly this name.
pub open spec fn spec_find_dir(dirs: Seq<CacheDir>, name: Seq<char>) -> Option<int> {
    spec_find_dir_from(dirs, name, 0)
}

/// Finds the directory with exactly this name.
fn find_dir(dirs: &Vec<CacheDir>, name: &str) -> (r: Option<usize>)
    ensures
        match r {
            Some(j) => spec_find_dir(dirs@, name@) == Some(j as int) && j < dirs@.len(),
            None => spec_find_dir(dirs@, name@) is None,
        },
{
    let mut i: usize = 0;
    while i < dirs.len()
        invariant
            0 <= i <= dirs@.len(),
            spec_find_dir(dirs@, name@) == spec_find_dir_from(dirs@, name@, i as int),
        decreases dirs@.len() - i,
    {
        if str_eq(dirs[i].name.as_str(), name) {
            return Some(i);
        }
        i += 1;
    }
    None
}

/// The version suffix of the first directory named `{prefix}{version}`,
/// from position `i` on.
pub open spec fn spec_any_version_from(
    dirs: Seq<CacheDir>,
    prefix: Seq<char>,
    i: int,
) -> Option<Seq<char>>
    decreases dirs.len() - i,
    when 0 <= i
{
    if i >= dirs.len() {
        None
    } else if match_at(dirs[i].name@, prefix, 0) {
        Some(dirs[i].name@.skip(prefix.len() as int))
    } else {
        spec_any_version_from(dirs, prefix, i + 1)
    }
}

/// The version suffix of the first directory whose name starts with the
/// package's `{name}@` prefix.
pub open spec fn spec_any_version(dirs: Seq<CacheDir>, name: Seq<char>) -> Option<Seq<char>> {
    spec_any_version_from(dirs, name + "@"@, 0)
}

/// Finds the version of any cache directory belonging to this package.
pub fn find_any_synced_version(dirs: &Vec<CacheDir>, crate_name: &str) -> (r: Option<String>)
    ensures
        match r {
            Some(v) => spec_any_version(dirs@, crate_name@) == Some(v@),
            None => spec_any_version(dirs@, crate_name@) is None,
        },
{
    let mut prefix = String::new();
    prefix.append(crate_name);
    prefix.append("@");
    let prefix_len = prefix.as_str().unicode_len();
    let mut i: usize = 0;
    while i < dirs.len()
        invariant
            0 <= i <= dirs@.len(),
            prefix@ == crate_name@ + "@"@,
            prefix_len == prefix@.len(),
            spec_any_version(dirs@, crate_name@) == spec_any_version_from(
                dirs@,
                prefix@,
                i as int,
            ),
        decreases dirs@.len() - i,
    {
        if str_starts_with(dirs[i].name.as_str(), prefix.as_str()) {
            let name_len = dirs[i].name.as_str().unicode_len();
            let suffix = dirs[i].name.as_str().substring_char(prefix_len, name_len);
            proof {
                assert(suffix@ =~= dirs@[i as int].name@.skip(prefix@.len() as int));
            }
            return Some(String::from_str(suffix));
        }
        i += 1;
    }
    None
}

/// What reconciliation decides for one package, in priority order: a missing
/// lock entry is `Missing`; the locked version's directory with content is
/// `Synced`, without content `Corrupted`; any other cached version is
/// `Outdated`; otherwise `Missing`.
pub open spec fn spec_detect_status(
    dirs: Seq<CacheDir>,
    name: Seq<char>,
    lockv: Option<Seq<char>>,
) -> (Option<Seq<char>>, SyncStatus) {
    match lockv {
        None => (None, SyncStatus::Missing),
        Some(lv) => match spec_find_dir(dirs, spec_entry_dir(name, lv)) {
            Some(d) => if spec_has_docs(strings_view(dirs[d].files@)) {
                (Some(lv), SyncStatus::Synced)
            } else {
                (Some(lv), SyncStatus::Corrupted)
            },
            None => match spec_any_version(dirs, name) {
                Some(v) => (Some(v), SyncStatus::Outdated),
                None => (None, SyncStatus::Missing),
            },
        },
    }
}

/// Classifies one package against the cache listing: the version found on
/// disk (if any) and its classification.
pub fn detect_status(dirs: &Vec<CacheDir>, crate_name: &str, lock_version: &Option<String>) -> (r:
    (Option<String>, SyncStatus))
    ensures
        (opt_string_view(r.0), r.1) == spec_detect_status(
            dirs@,
            crate_name@,
            opt_string_view(*lock_version),
        ),
{
    let lv = match lock_version {
        Some(lv) => lv,
        None => {
            return (None, SyncStatus::Missing);
        },
    };
    let expected = crate::storage::entry_dir_name(crate_name, lv.as_str());
    match find_dir(dirs, expected.as_str()) {
        Some(d) => {
            if has_docs_content(&dirs[d].files) {
                (Some(lv.clone()), SyncStatus::Synced)
            } else {
                (Some(lv.clone()), SyncStatus::Corrupted)
            }
        },
        None => {
            match find_any_synced_version(dirs, crate_name) {
                Some(v) => (Some(v), SyncStatus::Outdated),
                None => (None, SyncStatus::Missing),
            }
        },
    }
}

/// The locked version's directory is cached, with or without content.
pub open spec fn spec_exact_dir(dirs: Seq<CacheDir>, name: Seq<char>, lv: Seq<char>) -> Option<
    int,
> {
    spec_find_dir(dirs, spec_entry_dir(name, lv))
}

/// The package is synced: locked, its exact directory cached, with content.
pub open spec fn spec_is_synced(
    dirs: Seq<CacheDir>,
    name: Seq<char>,
    lockv: Option<Seq<char>>,
) -> bool {
    &&& lockv is Some
    &&& spec_exact_dir(dirs, name, lockv->0) matches Some(d) && spec_has_docs(
        strings_view(dirs[d].files@),
    )
}

/// The package is corrupted: locked, its exact directory cached, no content.
pub open spec fn spec_is_corrupted(
    dirs: Seq<CacheDir>,
    name: Seq<char>,
    lockv: Option<Seq<char>>,
) -> bool {
    &&& lockv is Some
    &&& spec_exact_dir(dirs, name, lockv->0) matches Some(d) && !spec_has_docs(
        strings_view(dirs[d].files@),
    )
}

/// The package is outdated: locked, the exact directory absent, but some
/// directory of the package is cached.
pub open spec fn spec_is_outdated(
    dirs: Seq<CacheDir>,
    name: Seq<char>,
    lockv: Option<Seq<char>>,
) -> bool {
    &&& lockv is Some
    &&& spec_exact_dir(dirs, name, lockv->0) is None
    &&& spec_any_version(dirs, name) is Some
}

/// The package is missing: not locked at all, or nothing of it is cached.
pub open spec fn spec_is_missing(
    dirs: Seq<CacheDir>,
    name: Seq<char>,
    lockv: Option<Seq<char>>,
) -> bool {
    ||| lockv is None
    ||| (spec_exact_dir(dirs, name, lockv->0) is None && spec_any_version(dirs, name) is None)
}

/// Classification is total and mutually exclusive: every package maps to
/// exactly one of the four classifications, and `spec_detect_status` returns
/// precisely the one whose predicate holds.
pub proof fn lemma_status_total_exclusive(
    dirs: Seq<CacheDir>,
    name: Seq<char>,
    lockv: Option<Seq<char>>,
)
    ensures
        spec_is_synced(dirs, name, lockv) <==> spec_detect_status(dirs, name, lockv).1
            == SyncStatus::Synced,
        spec_is_missing(dirs, name, lockv) <==> spec_detect_status(dirs, name, lockv).1
            == SyncStatus::Missing,
        spec_is_outdated(dirs, name, lockv) <==> spec_detect_status(dirs, name, lockv).1
            == SyncStatus::Outdated,
        spec_is_corrupted(dirs, name, lockv) <==> spec_detect_status(dirs, name, lockv).1
            == SyncStatus::Corrupted,
        spec_is_synced(dirs, name, lockv) || spec_is_missing(dirs, name, lockv) || spec_is_outdated(
            dirs,
            name,
            lockv,
        ) || spec_is_corrupted(dirs, name, lockv),
        !(spec_is_synced(dirs, name, lockv) && spec_is_missing(dirs, name, lockv)),
        !(spec_is_synced(dirs, name, lockv) && spec_is_outdated(dirs, name, lockv)),
        !(spec_is_synced(dirs, name, lockv) && spec_is_corrupted(dirs, name, lockv)),
        !(spec_is_missing(dirs, name, lockv) && spec_is_outdated(dirs, name, lockv)),
        !(spec_is_missing(dirs, name, lockv) && spec_is_corrupted(dirs, name, lockv)),
        !(spec_is_outdated(dirs, name, lockv) && spec_is_corrupted(dirs, name, lockv)),
{
}

/// The tallies of one reconciliation run.
#[derive(Debug, Default, Clone, Copy, PartialEq, Eq, Structural)]
pub struct StatusSummary {
    pub total: usize,
    pub synced: usize,
    pub missing: usize,
    pub outdated: usize,
    pub corrupted: usize,
}

/// How many rows from position `i` on carry classification `s`.
pub open spec fn spec_count_from(rows: Seq<StatusRow>, s: SyncStatus, i: int) -> nat
    decreases rows.len() - i,
    when 0 <= i
{
    if i >= rows.len() {
        0
    } else {
        (if rows[i].status == s {
            1nat
        } else {
            0nat
        }) + spec_count_from(rows, s, i + 1)
    }
}

impl StatusSummary {
    /// Tallies the rows per classification.
    pub fn from_rows(rows: &Vec<StatusRow>) -> (r: StatusSummary)
        ensures
            r.total == rows@.len(),
            r.synced == spec_count_from(rows@, SyncStatus::Synced, 0),
            r.missing == spec_count_from(rows@, SyncStatus::Missing, 0),
            r.outdated == spec_count_from(rows@, SyncStatus::Outdated, 0),
            r.corrupted == spec_count_from(rows@, SyncStatus::Corrupted, 0),
    {
        let mut synced: usize = 0;
        let mut missing: usize = 0;
        let mut outdated: usize = 0;
        let mut corrupted: usize = 0;
        let mut i: usize = 0;
        while i < rows.len()
            invariant
                0 <= i <= rows@.len(),
                spec_count_from(rows@, SyncStatus::Synced, 0) == synced + spec_count_from(
                    rows@,
                    SyncStatus::Synced,
                    i as int,
                ),
                spec_count_from(rows@, SyncStatus::Missing, 0) == missing + spec_count_from(
                    rows@,
                    SyncStatus::Missing,
                    i as int,
                ),
                spec_count_from(rows@, SyncStatus::Outdated, 0) == outdated + spec_count_from(
                    rows@,
                    SyncStatus::Outdated,
                    i as int,
                ),
                spec_count_from(rows@, SyncStatus::Corrupted, 0) == corrupted + spec_count_from(
                    rows@,
                    SyncStatus::Corrupted,
                    i as int,
                ),
                synced + missing + outdated + corrupted <= i,
            decreases rows@.len() - i,
        {
            match rows[i].status {
                SyncStatus::Synced => {
                    synced += 1;
                },
                SyncStatus::Missing => {
                    missing += 1;
                },
                SyncStatus::Outdated => {
                    outdated += 1;
                },
                SyncStatus::Corrupted => {
                    corrupted += 1;
                },
            }
            i += 1;
        }
        StatusSummary { total: rows.len(), synced, missing, outdated, corrupted }
    }

    /// Whether anything needs a forced re-sync.
    pub fn has_sync_issues(self) -> (r: bool)
        ensures
            r == (self.missing > 0 || self.outdated > 0 || self.corrupted > 0),
    {
        self.missing > 0 || self.outdated > 0 || self.corrupted > 0
    }
}

/// Reconciles every configured package against the lock file and the cache
/// listing: one row per package, ordered by package name.
pub fn collect_status_rows(
    config: &Config,
    locked_versions: &Vec<LockEntry>,
    dirs: &Vec<CacheDir>,
) -> (rows: Vec<StatusRow>)
    ensures
        rows@.len() == config.crates@.len(),
        forall|i: int, j: int|
            0 <= i < j < rows@.len() ==> lex_le(
                (#[trigger] rows@[i]).crate_name@,
                (#[trigger] rows@[j]).crate_name@,
            ),
        rows@.map_values(|r: StatusRow| r.crate_name@).to_multiset() == config.crates@.map_values(
            |c: crate::config::CrateEntry| c.name@,
        ).to_multiset(),
        forall|i: int|
            0 <= i < rows@.len() ==> {
                let n = (#[trigger] rows@[i]).crate_name@;
                let lockv = spec_lookup(entries_view(locked_versions@), n);
                &&& opt_string_view(rows@[i].lock_version) == lockv
                &&& (opt_string_view(rows@[i].synced_version), rows@[i].status)
                    == spec_detect_status(dirs@, n, lockv)
            },
{
    let mut names: Vec<String> = Vec::new();
    let mut i: usize = 0;
    while i < config.crates.len()
        invariant
            0 <= i <= config.crates@.len(),
            names@.len() == i,
            forall|k: int| 0 <= k < i ==> #[trigger] names@[k]@ == config.crates@[k].name@,
        decreases config.crates@.len() - i,
    {
        names.push(config.crates[i].name.clone());
        i += 1;
    }
    proof {
        assert(strings_view(names@) =~= config.crates@.map_values(
            |c: crate::config::CrateEntry| c.name@,
        ));
    }
    let sorted = crate::strutil::sort_strings(names);
    let mut rows: Vec<StatusRow> = Vec::new();
    let mut j: usize = 0;
    while j < sorted.len()
        invariant
            0 <= j <= sorted@.len(),
            rows@.len() == j,
            forall|k: int| 0 <= k < j ==> (#[trigger] rows@[k]).crate_name@ == sorted@[k]@,
            forall|k: int|
                0 <= k < j ==> {
                    let n = (#[trigger] rows@[k]).crate_name@;
                    let lockv = spec_lookup(entries_view(locked_versions@), n);
                    &&& opt_string_view(rows@[k].lock_version) == lockv
                    &&& (opt_string_view(rows@[k].synced_version), rows@[k].status)
                        == spec_detect_status(dirs@, n, lockv)
                },
        decreases sorted@.len() - j,
    {
        let name = sorted[j].clone();
        let lock_version = lookup_version(locked_versions, name.as_str());
        let detected = detect_status(dirs, name.as_str(), &lock_version);
        rows.push(
            StatusRow {
                crate_name: name,
                lock_version,
                synced_version: detected.0,
                status: detected.1,
            },
        );
        j += 1;
    }
    proof {
        assert(rows@.map_values(|r: StatusRow| r.crate_name@) =~= strings_view(sorted@));
    }
    rows
}

/// The cell printed for an optional version: the version or a dash.
pub open spec fn spec_opt_cell(v: Option<String>) -> Seq<char> {
    match v {
        Some(s) => s@,
        None => "-"@,
    }
}

/// The larger of two lengths.
pub open spec fn nmax(a: nat, b: nat) -> nat {
    if a >= b {
        a
    } else {
        b
    }
}

/// The longest cell from position `i` on.
pub open spec fn spec_max_len_from(cells: Seq<Seq<char>>, i: int) -> nat
    decreases cells.len() - i,
    when 0 <= i
{
    if i >= cells.len() {
        0
    } else {
        nmax(cells[i].len(), spec_max_len_from(cells, i + 1))
    }
}

/// A column's width: its header or its longest cell.
pub open spec fn spec_width(cells: Seq<Seq<char>>, header: Seq<char>) -> nat {
    nmax(header.len(), spec_max_len_from(cells, 0))
}

/// A cell padded with spaces to the column width.
pub open spec fn spec_pad(s: Seq<char>, w: nat) -> Seq<char> {
    if s.len() >= w {
        s
    } else {
        s + crate::strutil::spec_repeat(' ', (w - s.len()) as nat)
    }
}

/// The four columns' cells.
pub open spec fn spec_crate_cells(rows: Seq<StatusRow>) -> Seq<Seq<char>> {
    rows.map_values(|r: StatusRow| r.crate_name@)
}

pub open spec fn spec_lock_cells(rows: Seq<StatusRow>) -> Seq<Seq<char>> {
    rows.map_values(|r: StatusRow| spec_opt_cell(r.lock_version))
}

pub open spec fn spec_synced_cells(rows: Seq<StatusRow>) -> Seq<Seq<char>> {
    rows.map_values(|r: StatusRow| spec_opt_cell(r.synced_version))
}

pub open spec fn spec_status_cells(rows: Seq<StatusRow>) -> Seq<Seq<char>> {
    rows.map_values(|r: StatusRow| r.status.spec_str())
}

/// One printed line of four padded cells.
pub open spec fn spec_table_line(
    c1: Seq<char>,
    c2: Seq<char>,
    c3: Seq<char>,
    c4: Seq<char>,
    w1: nat,
    w2: nat,
    w3: nat,
    w4: nat,
) -> Seq<char> {
    spec_pad(c1, w1) + "  "@ + spec_pad(c2, w2) + "  "@ + spec_pad(c3, w3) + "  "@ + spec_pad(
        c4,
        w4,
    ) + "\n"@
}

/// The printed rows from position `i` on.
pub open spec fn spec_row_lines_from(
    rows: Seq<StatusRow>,
    i: int,
    w1: nat,
    w2: nat,
    w3: nat,
    w4: nat,
) -> Seq<char>
    decreases rows.len() - i,
    when 0 <= i
{
    if i >= rows.len() {
        Seq::empty()
    } else {
        spec_table_line(
            rows[i].crate_name@,
            spec_opt_cell(rows[i].lock_version),
            spec_opt_cell(rows[i].synced_version),
            rows[i].status.spec_str(),
            w1,
            w2,
            w3,
            w4,
        ) + spec_row_lines_from(rows, i + 1, w1, w2, w3, w4)
    }
}

/// The tally line under the table.
pub open spec fn spec_summary_line(rows: Seq<StatusRow>) -> Seq<char> {
    "Summary: total="@ + crate::strutil::spec_dec(rows.len()) + ", synced="@
        + crate::strutil::spec_dec(spec_count_from(rows, SyncStatus::Synced, 0)) + ", missing="@
        + crate::strutil::spec_dec(spec_count_from(rows, SyncStatus::Missing, 0)) + ", outdated="@
        + crate::strutil::spec_dec(spec_count_from(rows, SyncStatus::Outdated, 0)) + ", corrupted="@
        + crate::strutil::spec_dec(spec_count_from(rows, SyncStatus::Corrupted, 0)) + "\n"@
}

/// Whether the table must end with the forced re-sync hint.
pub open spec fn spec_has_issues(rows: Seq<StatusRow>) -> bool {
    spec_count_from(rows, SyncStatus::Missing, 0) > 0 || spec_count_from(
        rows,
        SyncStatus::Outdated,
        0,
    ) > 0 || spec_count_from(rows, SyncStatus::Corrupted, 0) > 0
}

/// The whole printed status table: header, separator, one line per row,
/// the tally line, and the re-sync hint when anything is off.
pub open spec fn spec_status_table(rows: Seq<StatusRow>) -> Seq<char> {
    let w1 = spec_width(spec_crate_cells(rows), "Crate"@);
    let w2 = spec_width(spec_lock_cells(rows), "Lock"@);
    let w3 = spec_width(spec_synced_cells(rows), "Synced"@);
    let w4 = spec_width(spec_status_cells(rows), "Status"@);
    spec_table_line("Crate"@, "Lock"@, "Synced"@, "Status"@, w1, w2, w3, w4)
        + crate::strutil::spec_repeat('-', w1) + "  "@ + crate::strutil::spec_repeat('-', w2)
        + "  "@ + crate::strutil::spec_repeat('-', w3) + "  "@ + crate::strutil::spec_repeat(
        '-',
        w4,
    ) + "\n"@ + spec_row_lines_from(rows, 0, w1, w2, w3, w4) + spec_summary_line(rows) + (
    if spec_has_issues(rows) {
        "Run cargo ai-docs sync --force\n"@
    } else {
        Seq::<char>::empty()
    })
}

/// The dash cell of an optional version.
fn opt_cell(v: &Option<String>) -> (r: String)
    ensures
        r@ == spec_opt_cell(*v),
{
    match v {
        Some(s) => s.clone(),
        None => String::from_str("-"),
    }
}

/// The width of one column over its cells.
fn max_width(cells: &Vec<String>, header: &str) -> (w: usize)
    ensures
        w as nat == spec_width(strings_view(cells@), header@),
{
    let ghost cs = strings_view(cells@);
    let mut w: usize = header.unicode_len();
    let mut i: usize = cells.len();
    proof {
        assert(spec_max_len_from(cs, i as int) == 0);
    }
    while i > 0
        invariant
            0 <= i <= cells@.len(),
            cs == strings_view(cells@),
            w as nat == nmax(header@.len(), spec_max_len_from(cs, i as int)),
        decreases i,
    {
        i -= 1;
        let len = cells[i].as_str().unicode_len();
        proof {
            assert(cs[i as int] == cells@[i as int]@);
        }
        if len > w {
            w = len;
        }
    }
    w
}

/// A cell padded with spaces to the column width.
fn pad_cell(s: &str, w: usize) -> (r: String)
    ensures
        r@ == spec_pad(s@, w as nat),
{
    let len = s.unicode_len();
    let mut r = String::from_str(s);
    if len < w {
        r.append(crate::strutil::spaces(w - len).as_str());
    }
    r
}

/// Renders the status table: header, separator, one line per row, the tally
/// line, and the re-sync hint when anything needs attention.
#[verifier::rlimit(100)]
pub fn print_status_table_to(rows: &Vec<StatusRow>) -> (out: String)
    ensures
        out@ == spec_status_table(rows@),
{
    let mut crate_cells: Vec<String> = Vec::new();
    let mut lock_cells: Vec<String> = Vec::new();
    let mut synced_cells: Vec<String> = Vec::new();
    let mut status_cells: Vec<String> = Vec::new();
    let mut i: usize = 0;
    while i < rows.len()
        invariant
            0 <= i <= rows@.len(),
            crate_cells@.len() == i,
            lock_cells@.len() == i,
            synced_cells@.len() == i,
            status_cells@.len() == i,
            forall|k: int| 0 <= k < i ==> #[trigger] crate_cells@[k]@ == rows@[k].crate_name@,
            forall|k: int|
                0 <= k < i ==> #[trigger] lock_cells@[k]@ == spec_opt_cell(rows@[k].lock_version),
            forall|k: int|
                0 <= k < i ==> #[trigger] synced_cells@[k]@ == spec_opt_cell(
                    rows@[k].synced_version,
                ),
            forall|k: int|
                0 <= k < i ==> #[trigger] status_cells@[k]@ == rows@[k].status.spec_str(),
        decreases rows@.len() - i,
    {
        crate_cells.push(rows[i].crate_name.clone());
        lock_cells.push(opt_cell(&rows[i].lock_version));
        synced_cells.push(opt_cell(&rows[i].synced_version));
        status_cells.push(String::from_str(rows[i].status.as_str()));
        i += 1;
    }
    proof {
        assert(strings_view(crate_cells@) =~= spec_crate_cells(rows@));
        assert(strings_view(lock_cells@) =~= spec_lock_cells(rows@));
        assert(strings_view(synced_cells@) =~= spec_synced_cells(rows@));
        assert(strings_view(status_cells@) =~= spec_status_cells(rows@));
    }
    let w1 = max_width(&crate_cells, "Crate");
    let w2 = max_width(&lock_cells, "Lock");
    let w3 = max_width(&synced_cells, "Synced");
    let w4 = max_width(&status_cells, "Status");
    let mut out = String::new();
    out.append(pad_cell("Crate", w1).as_str());
    out.append("  ");
    out.append(pad_cell("Lock", w2).as_str());
    out.append("  ");
    out.append(pad_cell("Synced", w3).as_str());
    out.append("  ");
    out.append(pad_cell("Status", w4).as_str());
    out.append("\n");
    out.append(crate::strutil::dashes(w1).as_str());
    out.append("  ");
    out.append(crate::strutil::dashes(w2).as_str());
    out.append("  ");
    out.append(crate::strutil::dashes(w3).as_str());
    out.append("  ");
    out.append(crate::strutil::dashes(w4).as_str());
    out.append("\n");
    let ghost head = out@;
    let mut j: usize = 0;
    while j < rows.len()
        invariant
            0 <= j <= rows@.len(),
            head + spec_row_lines_from(rows@, 0, w1 as nat, w2 as nat, w3 as nat, w4 as nat) == out@
                + spec_row_lines_from(rows@, j as int, w1 as nat, w2 as nat, w3 as nat, w4 as nat),
        decreases rows@.len() - j,
    {
        out.append(pad_cell(rows[j].crate_name.as_str(), w1).as_str());
        out.append("  ");
        out.append(pad_cell(opt_cell(&rows[j].lock_version).as_str(), w2).as_str());
        out.append("  ");
        out.append(pad_cell(opt_cell(&rows[j].synced_version).as_str(), w3).as_str());
        out.append("  ");
        out.append(pad_cell(rows[j].status.as_str(), w4).as_str());
        out.append("\n");
        j += 1;
        proof {
            assert(head + spec_row_lines_from(rows@, 0, w1 as nat, w2 as nat, w3 as nat, w4 as nat)
                =~= out@ + spec_row_lines_from(
                rows@,
                j as int,
                w1 as nat,
                w2 as nat,
                w3 as nat,
                w4 as nat,
            ));
        }
    }
    proof {
        assert(spec_row_lines_from(rows@, j as int, w1 as nat, w2 as nat, w3 as nat, w4 as nat)
            =~= Seq::<char>::empty());
        assert(head + spec_row_lines_from(rows@, 0, w1 as nat, w2 as nat, w3 as nat, w4 as nat)
            =~= out@);
    }
    let summary = StatusSummary::from_rows(rows);
    out.append("Summary: total=");
    out.append(crate::strutil::u64_to_string(summary.total as u64).as_str());
    out.append(", synced=");
    out.append(crate::strutil::u64_to_string(summary.synced as u64).as_str());
    out.append(", missing=");
    out.append(crate::strutil::u64_to_string(summary.missing as u64).as_str());
    out.append(", outdated=");
    out.append(crate::strutil::u64_to_string(summary.outdated as u64).as_str());
    out.append(", corrupted=");
    out.append(crate::strutil::u64_to_string(summary.corrupted as u64).as_str());
    out.append("\n");
    if summary.has_sync_issues() {
        out.append("Run cargo ai-docs sync --force\n");
    }
    proof {
        assert(out@ =~= spec_status_table(rows@));
    }
    out
}

/// Round trip: a cache listing that holds the directory a persist wrote --
/// named `{name}@{version}` and containing the summary document -- makes the
/// package report as synced at exactly that version.
pub proof fn lemma_persist_then_synced(
    dirs: Seq<CacheDir>,
    name: Seq<char>,
    version: Seq<char>,
    d: int,
)
    requires
        spec_find_dir(dirs, spec_entry_dir(name, version)) == Some(d),
        0 <= d < dirs.len(),
        exists|i: int|
            0 <= i < dirs[d].files.len() && (#[trigger] dirs[d].files[i])@ == "_SUMMARY.md"@,
    ensures
        spec_detect_status(dirs, name, Some(version)) == (
            Some(version),
            SyncStatus::Synced,
        ),
{
    let i = choose|i: int|
        0 <= i < dirs[d].files.len() && (#[trigger] dirs[d].files[i])@ == "_SUMMARY.md"@;
    reveal_strlit("_SUMMARY.md");
    reveal_strlit(".md");
    let files = strings_view(dirs[d].files@);
    assert(files[i] == "_SUMMARY.md"@);
    assert(spec_ends_with(files[i], ".md"@)) by {
        assert("_SUMMARY.md"@.len() == 11);
        assert(".md"@.len() == 3);
        assert(match_at(files[i], ".md"@, 8)) by {
            assert(files[i][8] == '.' && files[i][9] == 'm' && files[i][10] == 'd');
            assert(".md"@[0] == '.' && ".md"@[1] == 'm' && ".md"@[2] == 'd');
        }
    }
    assert(spec_has_docs(files));
}

} // verus!
