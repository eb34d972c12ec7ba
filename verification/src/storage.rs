//! Preparing the cache artifacts: size-capped, provenance-headed file
//! contents, the per-package summary and the global index.  Writing to disk
//! happens outside the library; everything written is rendered and
//! specified here.
use vstd::prelude::*;
use vstd::string::StrSliceExecFns;
use vstd::string::StringExecFns;

verus! {

/// Which ecosystem a package belongs to; it names the cache subdirectory.
#[derive(Debug, Clone, Copy, PartialEq, Eq)]
pub enum Ecosystem {
    Rust,
    Npm,
}

impl Ecosystem {
    /// The cache subdirectory of each ecosystem.
    pub open spec fn spec_dir(self) -> Seq<char> {
        match self {
            Ecosystem::Rust => "rust"@,
            Ecosystem::Npm => "npm"@,
        }
    }

    /// Names the cache subdirectory of this ecosystem.
    pub fn as_dir(self) -> (r: &'static str)
        ensures
            r@ == self.spec_dir(),
    {
        match self {
            Ecosystem::Rust => "rust",
            Ecosystem::Npm => "npm",
        }
    }
}

/// One fetched document, ready to be stored.
#[derive(Debug, Clone, PartialEq, Eq)]
pub struct ResolvedFile {
    /// Name of the file inside the package's cache directory.
    pub filename: String,
    /// Path of the file within the source repository.
    pub source_path: String,
    /// Where the content was fetched from.
    pub source_url: String,
    /// The document text.
    pub content: String,
}

/// One package's fetched documents with the notes that accompany them.
#[derive(Debug, Clone)]
pub struct ResolvedCrate {
    pub name: String,
    pub version: String,
    pub ai_notes: String,
    pub files: Vec<ResolvedFile>,
    pub ecosystem: Ecosystem,
}

/// A repository path turned into a flat cache filename: every `/` becomes `__`.
pub open spec fn spec_flat_filename(path: Seq<char>) -> Seq<char>
    decreases path.len(),
    via spec_flat_filename_decreases
{
    match crate::strutil::spec_find(path, seq!['/']) {
        Some(i) => path.take(i) + "__"@ + spec_flat_filename(path.skip(i + 1)),
        None => path,
    }
}

#[via_fn]
proof fn spec_flat_filename_decreases(path: Seq<char>) {
    crate::strutil::lemma_find_from_props(path, seq!['/'], 0);
}

/// Builds the stored file for one fetched document: the cache filename is
/// the repository path with every `/` flattened to `__`.
pub fn resolved_file_from_fetch(path: &str, url: &str, content: String) -> (r: ResolvedFile)
    ensures
        r.filename@ == spec_flat_filename(path@),
        r.source_path@ == path@,
        r.source_url@ == url@,
        r.content == content,
{
    ResolvedFile {
        filename: flat_filename(path),
        source_path: String::from_str(path),
        source_url: String::from_str(url),
        content,
    }
}

/// Flattens a repository path to a single filename.
fn flat_filename(path: &str) -> (r: String)
    ensures
        r@ == spec_flat_filename(path@),
    decreases path@.len(),
{
    proof {
        reveal_strlit("/");
        assert("/"@ =~= seq!['/']);
    }
    match crate::strutil::find_first(path, "/") {
        Some(i) => {
            proof {
                crate::strutil::lemma_find_from_props(path@, seq!['/'], 0);
            }
            let path_len = path.unicode_len();
            let head = path.substring_char(0, i);
            let tail = path.substring_char(i + 1, path_len);
            proof {
                assert(head@ =~= path@.take(i as int));
                assert(tail@ =~= path@.skip(i + 1));
            }
            let mut s = String::from_str(head);
            s.append("__");
            let rest = flat_filename(tail);
            s.append(rest.as_str());
            s
        },
        None => String::from_str(path),
    }
}

/// The marker appended to content cut at the size cap.
pub open spec fn spec_truncation_marker() -> Seq<char> {
    "\n\n<!-- truncated by cargo-ai-fdocs -->\n"@
}

/// The UTF-8 byte length of a text.
pub open spec fn spec_byte_len(s: Seq<char>) -> nat {
    vstd::utf8::encode_utf8(s).len()
}

/// The byte lengths of a text's two parts add up.
pub proof fn lemma_byte_len_concat(a: Seq<char>, b: Seq<char>)
    ensures
        spec_byte_len(a + b) == spec_byte_len(a) + spec_byte_len(b),
    decreases a.len(),
{
    if a.len() == 0 {
        assert(a + b =~= b);
    } else {
        assert((a + b).drop_first() =~= a.drop_first() + b);
        assert((a + b)[0] == a[0]);
        lemma_byte_len_concat(a.drop_first(), b);
    }
}

/// How many characters of the text fit within the byte cap: the longest
/// prefix whose UTF-8 encoding is at most `limit` bytes long.
pub open spec fn spec_cut_len(s: Seq<char>, limit: nat) -> nat
    decreases s.len(),
{
    if s.len() == 0 {
        0
    } else {
        let w = vstd::utf8::encode_scalar(s[0] as u32).len();
        if w <= limit {
            1 + spec_cut_len(s.drop_first(), (limit - w) as nat)
        } else {
            0
        }
    }
}

/// Content cut at the byte cap: within the cap it is unchanged; over it, it
/// is the longest prefix ending on a character boundary whose encoding fits
/// the cap, with the fixed marker appended.
pub open spec fn spec_truncated(content: Seq<char>, limit: nat) -> Seq<char> {
    if spec_byte_len(content) <= limit {
        content
    } else {
        content.take(spec_cut_len(content, limit) as int) + spec_truncation_marker()
    }
}

/// The number of bytes one character occupies in UTF-8.
fn char_utf8_len(c: char) -> (r: usize)
    ensures
        r == vstd::utf8::encode_scalar(c as u32).len(),
        1 <= r <= 4,
{
    let v = c as u32;
    if v < 0x80 {
        1
    } else if v < 0x800 {
        2
    } else if v < 0x10000 {
        3
    } else {
        4
    }
}

/// Cuts content at the byte cap, on a character boundary, marking the cut
/// visibly.
pub fn truncate_content(content: &str, limit: usize) -> (r: String)
    ensures
        r@ == spec_truncated(content@, limit as nat),
{
    let n = content.unicode_len();
    let mut i: usize = 0;
    let mut used: usize = 0;
    let mut fits = true;
    proof {
        assert(content@.take(0) =~= Seq::<char>::empty());
        assert(content@.skip(0) =~= content@);
    }
    while fits && i < n
        invariant
            0 <= i <= n,
            n == content@.len(),
            used <= limit,
            used == spec_byte_len(content@.take(i as int)),
            fits ==> spec_cut_len(content@, limit as nat) == i + spec_cut_len(
                content@.skip(i as int),
                (limit - used) as nat,
            ),
            !fits ==> i < n && spec_cut_len(content@, limit as nat) == i && spec_byte_len(content@)
                > limit,
        decreases n - i, if fits { 1int } else { 0int },
    {
        let c = content.get_char(i);
        let w = char_utf8_len(c);
        let ghost rest = content@.skip(i as int);
        proof {
            assert(rest[0] == content@[i as int]);
        }
        if w <= limit - used {
            proof {
                assert(content@.take(i + 1) =~= content@.take(i as int) + seq![
                    content@[i as int],
                ]);
                lemma_byte_len_concat(content@.take(i as int), seq![content@[i as int]]);
                assert(spec_byte_len(seq![content@[i as int]]) == vstd::utf8::encode_scalar(
                    content@[i as int] as u32,
                ).len()) by {
                    let one = seq![content@[i as int]];
                    assert(one.drop_first() =~= Seq::<char>::empty());
                    assert(vstd::utf8::encode_utf8(one) == vstd::utf8::encode_scalar(
                        one[0] as u32,
                    ) + vstd::utf8::encode_utf8(one.drop_first()));
                    assert(vstd::utf8::encode_utf8(Seq::<char>::empty())
                        =~= Seq::<u8>::empty());
                }
                assert(rest.drop_first() =~= content@.skip(i + 1));
            }
            used += w;
            i += 1;
        } else {
            proof {
                assert(spec_cut_len(rest, (limit - used) as nat) == 0);
                assert(content@ =~= content@.take(i as int) + rest);
                lemma_byte_len_concat(content@.take(i as int), rest);
                assert(spec_byte_len(rest) >= vstd::utf8::encode_scalar(rest[0] as u32).len())
                    by {
                    assert(vstd::utf8::encode_utf8(rest) == vstd::utf8::encode_scalar(
                        rest[0] as u32,
                    ) + vstd::utf8::encode_utf8(rest.drop_first()));
                }
            }
            fits = false;
        }
    }
    if fits {
        proof {
            assert(content@.take(n as int) =~= content@);
            assert(spec_byte_len(content@) <= limit);
        }
        String::from_str(content)
    } else {
        let cut = content.substring_char(0, i);
        proof {
            assert(cut@ =~= content@.take(i as int));
        }
        let mut s = String::from_str(cut);
        s.append("\n\n<!-- truncated by cargo-ai-fdocs -->\n");
        s
    }
}

/// The provenance header every stored file carries, before the body.
pub open spec fn spec_with_header(path: Seq<char>, url: Seq<char>, body: Seq<char>) -> Seq<char> {
    "<!-- source_path: "@ + path + " -->\n<!-- source_url: "@ + url + " -->\n\n"@ + body
}

/// Renders one stored file: the provenance header, then the size-capped body.
pub fn render_file_content(file: &ResolvedFile, limit: usize) -> (r: String)
    ensures
        r@ == spec_with_header(
            file.source_path@,
            file.source_url@,
            spec_truncated(file.content@, limit as nat),
        ),
{
    let body = truncate_content(file.content.as_str(), limit);
    let mut s = String::new();
    s.append("<!-- source_path: ");
    s.append(file.source_path.as_str());
    s.append(" -->\n<!-- source_url: ");
    s.append(file.source_url.as_str());
    s.append(" -->\n\n");
    s.append(body.as_str());
    s
}

/// The cache directory name of one package at one version: `{name}@{version}`.
pub open spec fn spec_entry_dir(name: Seq<char>, version: Seq<char>) -> Seq<char> {
    name + "@"@ + version
}

/// Names the cache directory of one package at one version.
pub fn entry_dir_name(name: &str, version: &str) -> (r: String)
    ensures
        r@ == spec_entry_dir(name@, version@),
{
    let mut s = String::new();
    s.append(name);
    s.append("@");
    s.append(version);
    s
}

/// The `- {filename}` lines of the summary, from position `i` on.
pub open spec fn spec_file_lines_from(filenames: Seq<Seq<char>>, i: int) -> Seq<char>
    decreases filenames.len() - i,
    when 0 <= i
{
    if i >= filenames.len() {
        Seq::empty()
    } else {
        "- "@ + filenames[i] + "\n"@ + spec_file_lines_from(filenames, i + 1)
    }
}

/// The filenames a package's stored files carry.
pub open spec fn spec_filenames(files: Seq<ResolvedFile>) -> Seq<Seq<char>> {
    files.map_values(|f: ResolvedFile| f.filename@)
}

/// The per-package summary document: title, the notes when any exist, and
/// the list of stored files.
pub open spec fn spec_summary(
    name: Seq<char>,
    version: Seq<char>,
    notes: Seq<char>,
    filenames: Seq<Seq<char>>,
) -> Seq<char> {
    "# "@ + name + "@"@ + version + "\n\n"@ + (if notes.len() > 0 {
        "## AI Notes\n"@ + notes + "\n\n"@
    } else {
        Seq::<char>::empty()
    }) + "## Files\n"@ + spec_file_lines_from(filenames, 0)
}

/// Renders the per-package summary document.
pub fn render_summary(item: &ResolvedCrate) -> (r: String)
    ensures
        r@ == spec_summary(item.name@, item.version@, item.ai_notes@, spec_filenames(item.files@)),
{
    let ghost filenames = spec_filenames(item.files@);
    let mut s = String::new();
    s.append("# ");
    s.append(item.name.as_str());
    s.append("@");
    s.append(item.version.as_str());
    s.append("\n\n");
    if item.ai_notes.as_str().unicode_len() > 0 {
        s.append("## AI Notes\n");
        s.append(item.ai_notes.as_str());
        s.append("\n\n");
    }
    s.append("## Files\n");
    let ghost head = s@;
    let mut i: usize = 0;
    while i < item.files.len()
        invariant
            0 <= i <= item.files@.len(),
            filenames == spec_filenames(item.files@),
            filenames.len() == item.files@.len(),
            head + spec_file_lines_from(filenames, 0) == s@ + spec_file_lines_from(
                filenames,
                i as int,
            ),
        decreases item.files@.len() - i,
    {
        proof {
            assert(filenames[i as int] == item.files@[i as int].filename@);
        }
        s.append("- ");
        s.append(item.files[i].filename.as_str());
        s.append("\n");
        i += 1;
        proof {
            assert(head + spec_file_lines_from(filenames, 0) =~= s@ + spec_file_lines_from(
                filenames,
                i as int,
            ));
        }
    }
    proof {
        assert(spec_file_lines_from(filenames, i as int) =~= Seq::<char>::empty());
        assert(head + spec_file_lines_from(filenames, 0) =~= s@);
        assert(s@ =~= spec_summary(
            item.name@,
            item.version@,
            item.ai_notes@,
            spec_filenames(item.files@),
        ));
    }
    s
}

/// One document prepared for writing: its directory within the ecosystem's
/// cache tree, its filename, and its full content.
#[derive(Debug, Clone, PartialEq, Eq)]
pub struct RenderedDoc {
    /// `{name}@{version}`, the package's directory.
    pub entry_dir: String,
    pub filename: String,
    pub content: String,
}

/// Renders everything one package's cache directory holds: each fetched
/// file with its provenance header and size cap, then the summary document.
pub fn render_crate_files(item: &ResolvedCrate, limit: usize) -> (r: Vec<RenderedDoc>)
    ensures
        r@.len() == item.files@.len() + 1,
        forall|i: int|
            0 <= i < item.files@.len() ==> {
                &&& (#[trigger] r@[i]).entry_dir@ == spec_entry_dir(item.name@, item.version@)
                &&& r@[i].filename@ == item.files@[i].filename@
                &&& r@[i].content@ == spec_with_header(
                    item.files@[i].source_path@,
                    item.files@[i].source_url@,
                    spec_truncated(item.files@[i].content@, limit as nat),
                )
            },
        r@.last().entry_dir@ == spec_entry_dir(item.name@, item.version@),
        r@.last().filename@ == "_SUMMARY.md"@,
        r@.last().content@ == spec_summary(
            item.name@,
            item.version@,
            item.ai_notes@,
            spec_filenames(item.files@),
        ),
{
    let mut r: Vec<RenderedDoc> = Vec::new();
    let mut i: usize = 0;
    while i < item.files.len()
        invariant
            0 <= i <= item.files@.len(),
            r@.len() == i,
            forall|k: int|
                0 <= k < i ==> {
                    &&& (#[trigger] r@[k]).entry_dir@ == spec_entry_dir(item.name@, item.version@)
                    &&& r@[k].filename@ == item.files@[k].filename@
                    &&& r@[k].content@ == spec_with_header(
                        item.files@[k].source_path@,
                        item.files@[k].source_url@,
                        spec_truncated(item.files@[k].content@, limit as nat),
                    )
                },
        decreases item.files@.len() - i,
    {
        let doc = RenderedDoc {
            entry_dir: entry_dir_name(item.name.as_str(), item.version.as_str()),
            filename: item.files[i].filename.clone(),
            content: render_file_content(&item.files[i], limit),
        };
        r.push(doc);
        i += 1;
    }
    let summary = RenderedDoc {
        entry_dir: entry_dir_name(item.name.as_str(), item.version.as_str()),
        filename: String::from_str("_SUMMARY.md"),
        content: render_summary(item),
    };
    r.push(summary);
    r
}

/// The `- {eco}/{name}/{name}@{version}` lines of the index, from `i` on.
pub open spec fn spec_index_lines_from(crates: Seq<ResolvedCrate>, i: int) -> Seq<char>
    decreases crates.len() - i,
    when 0 <= i
{
    if i >= crates.len() {
        Seq::empty()
    } else {
        "- "@ + crates[i].ecosystem.spec_dir() + "/"@ + crates[i].name@ + "/"@ + crates[i].name@
            + "@"@ + crates[i].version@ + "\n"@ + spec_index_lines_from(crates, i + 1)
    }
}

/// The global index document listing every package persisted in the run.
pub open spec fn spec_index(crates: Seq<ResolvedCrate>) -> Seq<char> {
    "# AI Vendor Docs Index\n\n"@ + spec_index_lines_from(crates, 0)
}

/// Renders the global index document.
pub fn render_index(crates: &Vec<ResolvedCrate>) -> (r: String)
    ensures
        r@ == spec_index(crates@),
{
    let mut s = String::new();
    s.append("# AI Vendor Docs Index\n\n");
    let ghost head = s@;
    let mut i: usize = 0;
    while i < crates.len()
        invariant
            0 <= i <= crates@.len(),
            head + spec_index_lines_from(crates@, 0) == s@ + spec_index_lines_from(
                crates@,
                i as int,
            ),
        decreases crates@.len() - i,
    {
        s.append("- ");
        s.append(crates[i].ecosystem.as_dir());
        s.append("/");
        s.append(crates[i].name.as_str());
        s.append("/");
        s.append(crates[i].name.as_str());
        s.append("@");
        s.append(crates[i].version.as_str());
        s.append("\n");
        i += 1;
        proof {
            assert(head + spec_index_lines_from(crates@, 0) =~= s@ + spec_index_lines_from(
                crates@,
                i as int,
            ));
        }
    }
    proof {
        assert(spec_index_lines_from(crates@, i as int) =~= Seq::<char>::empty());
        assert(s@ =~= spec_index(crates@));
    }
    s
}


/// A cached directory is stale when it is named `{package}@{version}` and the
/// lock file no longer requires exactly that version of that package.
pub open spec fn spec_should_prune(
    name: Seq<char>,
    entries: Seq<(Seq<char>, Seq<char>)>,
) -> bool {
    match crate::strutil::spec_find(name, seq!['@']) {
        Some(i) => crate::lockfile::spec_lookup(entries, name.take(i)) != Some(name.skip(i + 1)),
        None => false,
    }
}

/// The stale directory names from position `i` on, in listing order.
pub open spec fn spec_prune_from(
    names: Seq<Seq<char>>,
    entries: Seq<(Seq<char>, Seq<char>)>,
    i: int,
) -> Seq<Seq<char>>
    decreases names.len() - i,
    when 0 <= i
{
    if i >= names.len() {
        Seq::empty()
    } else {
        (if spec_should_prune(names[i], entries) {
            seq![names[i]]
        } else {
            Seq::<Seq<char>>::empty()
        }) + spec_prune_from(names, entries, i + 1)
    }
}

/// The pre-sync prune step's decision: which cached directories to remove
/// because their package versions are no longer in the lock file.
pub fn prune_candidates(dir_names: &Vec<String>, locked: &Vec<crate::lockfile::LockEntry>) -> (r:
    Vec<String>)
    ensures
        crate::strutil::strings_view(r@) == spec_prune_from(
            crate::strutil::strings_view(dir_names@),
            crate::lockfile::entries_view(locked@),
            0,
        ),
{
    let ghost names = crate::strutil::strings_view(dir_names@);
    let ghost entries = crate::lockfile::entries_view(locked@);
    let mut r: Vec<String> = Vec::new();
    let mut i: usize = 0;
    while i < dir_names.len()
        invariant
            0 <= i <= dir_names@.len(),
            names == crate::strutil::strings_view(dir_names@),
            entries == crate::lockfile::entries_view(locked@),
            crate::strutil::strings_view(r@) + spec_prune_from(names, entries, i as int)
                == spec_prune_from(names, entries, 0),
        decreases dir_names@.len() - i,
    {
        let name = &dir_names[i];
        proof {
            reveal_strlit("@");
            assert("@"@ =~= seq!['@']);
            assert(names[i as int] == name@);
        }
        let stale = match crate::strutil::find_first(name.as_str(), "@") {
            Some(at) => {
                proof {
                    crate::strutil::lemma_find_from_props(name@, seq!['@'], 0);
                }
                let name_len = name.as_str().unicode_len();
                let pkg = name.as_str().substring_char(0, at);
                let ver = name.as_str().substring_char(at + 1, name_len);
                proof {
                    assert(pkg@ =~= name@.take(at as int));
                    assert(ver@ =~= name@.skip(at + 1));
                }
                match crate::lockfile::lookup_version(locked, pkg) {
                    Some(required) => !crate::strutil::str_eq(required.as_str(), ver),
                    None => true,
                }
            },
            None => false,
        };
        if stale {
            r.push(name.clone());
        }
        i += 1;
        proof {
            assert(crate::strutil::strings_view(r@) + spec_prune_from(names, entries, i as int)
                =~= spec_prune_from(names, entries, 0));
        }
    }
    proof {
        assert(spec_prune_from(names, entries, i as int) =~= Seq::<Seq<char>>::empty());
        assert(crate::strutil::strings_view(r@) =~= spec_prune_from(names, entries, 0));
    }
    r
}

} // verus!
