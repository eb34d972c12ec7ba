//! Fetch policy: how single-file fetch responses are acted on, which
//! default files are probed, and how explicitly configured files are
//! collected.  The network calls themselves live outside the library; the
//! decisions over their outcomes are verified here.
use crate::errors::DocsError;
use crate::strutil::{opt_strings_view, strings_view};
use vstd::prelude::*;
use vstd::string::StringExecFns;

verus! {

/// One file fetched from a repository at a resolved reference.
#[derive(Debug, Clone, PartialEq, Eq)]
pub struct FetchedFile {
    /// Path of the file within the repository.
    pub path: String,
    /// The raw text content.
    pub content: String,
}

/// What to do with one fetch response.
#[derive(Clone, Copy, Debug, PartialEq, Eq)]
pub enum FetchAction {
    /// Deliver the response body as the file's content.
    Deliver,
    /// Treat the file as absent; this is not an error.
    Absent,
    /// Abort: the provider is rate limiting, and a retry never helps.
    AbortRateLimited,
    /// Retry once after a fixed short delay.
    RetryAfterDelay,
}

/// Decides what one fetch response status leads to.  On the first attempt a
/// server-side error earns one retry; on the retry any success delivers,
/// a rate limit is still a hard failure, and everything else degrades to
/// absent.
pub fn fetch_file_action(status: u16, is_retry: bool) -> (r: FetchAction)
    ensures
        is_retry ==> if 200 <= status < 300 {
            r == FetchAction::Deliver
        } else if status == 429 {
            r == FetchAction::AbortRateLimited
        } else {
            r == FetchAction::Absent
        },
        !is_retry ==> {
            &&& status == 200 ==> r == FetchAction::Deliver
            &&& status == 404 ==> r == FetchAction::Absent
            &&& status == 429 ==> r == FetchAction::AbortRateLimited
            &&& status >= 500 ==> r == FetchAction::RetryAfterDelay
            &&& (status != 200 && status != 404 && status != 429 && status < 500) ==> r
                == FetchAction::Absent
        },
{
    if is_retry {
        if 200 <= status && status < 300 {
            FetchAction::Deliver
        } else if status == 429 {
            FetchAction::AbortRateLimited
        } else {
            FetchAction::Absent
        }
    } else if status == 200 {
        FetchAction::Deliver
    } else if status == 404 {
        FetchAction::Absent
    } else if status == 429 {
        FetchAction::AbortRateLimited
    } else if status >= 500 {
        FetchAction::RetryAfterDelay
    } else {
        FetchAction::Absent
    }
}

/// A candidate path: the filename, prefixed by the configured subpath if any.
pub open spec fn spec_prefixed(subpath: Option<Seq<char>>, name: Seq<char>) -> Seq<char> {
    match subpath {
        Some(sp) => sp + "/"@ + name,
        None => name,
    }
}

/// The README filenames probed, in order, when no explicit files are set.
pub open spec fn spec_readme_candidates(subpath: Option<Seq<char>>) -> Seq<Seq<char>> {
    seq![
        spec_prefixed(subpath, "README.md"@),
        spec_prefixed(subpath, "readme.md"@),
        spec_prefixed(subpath, "Readme.md"@),
    ]
}

/// The CHANGELOG filenames probed, in order, when no explicit files are set.
pub open spec fn spec_changelog_candidates(subpath: Option<Seq<char>>) -> Seq<Seq<char>> {
    seq![
        spec_prefixed(subpath, "CHANGELOG.md"@),
        spec_prefixed(subpath, "Changelog.md"@),
        spec_prefixed(subpath, "changelog.md"@),
    ]
}

/// One candidate path with the subpath prefix applied.
fn prefixed(subpath: &Option<String>, name: &str) -> (r: String)
    ensures
        r@ == spec_prefixed(crate::strutil::opt_string_view(*subpath), name@),
{
    match subpath {
        Some(sp) => {
            let mut s = String::new();
            s.append(sp.as_str());
            s.append("/");
            s.append(name);
            s
        },
        None => String::from_str(name),
    }
}

/// Builds the README candidate paths, in probe order.
pub fn readme_candidates(subpath: &Option<String>) -> (r: Vec<String>)
    ensures
        strings_view(r@) == spec_readme_candidates(crate::strutil::opt_string_view(*subpath)),
{
    let mut r: Vec<String> = Vec::new();
    r.push(prefixed(subpath, "README.md"));
    r.push(prefixed(subpath, "readme.md"));
    r.push(prefixed(subpath, "Readme.md"));
    proof {
        assert(strings_view(r@) =~= spec_readme_candidates(
            crate::strutil::opt_string_view(*subpath),
        ));
    }
    r
}

/// Builds the CHANGELOG candidate paths, in probe order.
pub fn changelog_candidates(subpath: &Option<String>) -> (r: Vec<String>)
    ensures
        strings_view(r@) == spec_changelog_candidates(crate::strutil::opt_string_view(*subpath)),
{
    let mut r: Vec<String> = Vec::new();
    r.push(prefixed(subpath, "CHANGELOG.md"));
    r.push(prefixed(subpath, "Changelog.md"));
    r.push(prefixed(subpath, "changelog.md"));
    proof {
        assert(strings_view(r@) =~= spec_changelog_candidates(
            crate::strutil::opt_string_view(*subpath),
        ));
    }
    r
}

/// The first candidate whose fetch outcome carried content, paired with that
/// content; later candidates are skipped.
pub open spec fn spec_first_hit(
    cs: Seq<Seq<char>>,
    os: Seq<Option<Seq<char>>>,
) -> Option<(Seq<char>, Seq<char>)>
    decreases cs.len(),
{
    if cs.len() == 0 {
        None
    } else {
        match os[0] {
            Some(content) => Some((cs[0], content)),
            None => spec_first_hit(cs.skip(1), os.skip(1)),
        }
    }
}

/// Takes the first candidate that was present: its path and its content
/// become the fetched file.
pub fn first_present(candidates: &Vec<String>, outcomes: &Vec<Option<String>>) -> (r: Option<
    FetchedFile,
>)
    requires
        candidates@.len() == outcomes@.len(),
    ensures
        match r {
            Some(f) => spec_first_hit(strings_view(candidates@), opt_strings_view(outcomes@))
                == Some((f.path@, f.content@)),
            None => spec_first_hit(strings_view(candidates@), opt_strings_view(outcomes@))
                is None,
        },
{
    let ghost cs = strings_view(candidates@);
    let ghost os = opt_strings_view(outcomes@);
    let n = candidates.len();
    let mut i: usize = 0;
    proof {
        assert(cs.skip(0) =~= cs);
        assert(os.skip(0) =~= os);
    }
    while i < n
        invariant
            0 <= i <= n,
            n == candidates@.len(),
            n == outcomes@.len(),
            cs == strings_view(candidates@),
            os == opt_strings_view(outcomes@),
            spec_first_hit(cs, os) == spec_first_hit(cs.skip(i as int), os.skip(i as int)),
        decreases n - i,
    {
        proof {
            assert(cs.skip(i as int)[0] == candidates@[i as int]@);
            assert(os.skip(i as int)[0] == opt_strings_view(outcomes@)[i as int]);
        }
        match &outcomes[i] {
            Some(content) => {
                return Some(
                    FetchedFile { path: candidates[i].clone(), content: content.clone() },
                );
            },
            None => {
                proof {
                    assert(cs.skip(i as int).skip(1) =~= cs.skip(i + 1));
                    assert(os.skip(i as int).skip(1) =~= os.skip(i + 1));
                }
                i += 1;
            },
        }
    }
    None
}

/// Combines the optional README and CHANGELOG hits into the default file
/// set: whichever was found, README first.
pub fn select_default_files(readme: Option<FetchedFile>, changelog: Option<FetchedFile>) -> (r:
    Vec<FetchedFile>)
    ensures
        match (readme, changelog) {
            (Some(rd), Some(ch)) => r@.len() == 2 && r@[0] == rd && r@[1] == ch,
            (Some(rd), None) => r@.len() == 1 && r@[0] == rd,
            (None, Some(ch)) => r@.len() == 1 && r@[0] == ch,
            (None, None) => r@.len() == 0,
        },
{
    let mut r: Vec<FetchedFile> = Vec::new();
    if let Some(rd) = readme {
        r.push(rd);
    }
    if let Some(ch) = changelog {
        r.push(ch);
    }
    r
}

/// The position of the first path whose fetch came back absent, if any.
pub open spec fn spec_first_missing(os: Seq<Option<Seq<char>>>) -> Option<int>
    decreases os.len(),
{
    if os.len() == 0 {
        None
    } else if os[0] is None {
        Some(0int)
    } else {
        match spec_first_missing(os.skip(1)) {
            Some(i) => Some(i + 1),
            None => None,
        }
    }
}

/// Collects explicitly configured files: every one of them is mandatory, so
/// the first absent path fails the whole package's sync with an error naming
/// the path, the repository and the resolved reference.
pub fn collect_explicit_files(
    paths: &Vec<String>,
    outcomes: &Vec<Option<String>>,
    repo: &str,
    git_ref: &str,
) -> (r: Result<Vec<FetchedFile>, DocsError>)
    requires
        paths@.len() == outcomes@.len(),
    ensures
        match r {
            Ok(files) => spec_first_missing(opt_strings_view(outcomes@)) is None && files@.len()
                == paths@.len() && forall|i: int|
                0 <= i < files@.len() ==> (#[trigger] files@[i]).path@ == paths@[i]@ && Some(
                    files@[i].content@,
                ) == opt_strings_view(outcomes@)[i],
            Err(e) => {
                &&& spec_first_missing(opt_strings_view(outcomes@)) matches Some(m)
                &&& (e matches DocsError::ExplicitFileMissing { repo: r2, path: p2, git_ref: g2 }
                    && p2@ == paths@[spec_first_missing(opt_strings_view(outcomes@))->0]@ && r2@
                    == repo@ && g2@ == git_ref@)
            },
        },
{
    let ghost os = opt_strings_view(outcomes@);
    let n = paths.len();
    let mut files: Vec<FetchedFile> = Vec::new();
    let mut i: usize = 0;
    while i < n
        invariant
            0 <= i <= n,
            n == paths@.len(),
            n == outcomes@.len(),
            os == opt_strings_view(outcomes@),
            files@.len() == i,
            forall|k: int| 0 <= k < i ==> os[k] is Some,
            forall|k: int|
                0 <= k < i ==> (#[trigger] files@[k]).path@ == paths@[k]@ && Some(
                    files@[k].content@,
                ) == os[k],
        decreases n - i,
    {
        proof {
            assert(os[i as int] == crate::strutil::opt_string_view(outcomes@[i as int]));
        }
        match &outcomes[i] {
            Some(content) => {
                files.push(FetchedFile { path: paths[i].clone(), content: content.clone() });
                i += 1;
            },
            None => {
                proof {
                    lemma_first_missing_at(os, i as int);
                }
                return Err(
                    DocsError::ExplicitFileMissing {
                        repo: String::from_str(repo),
                        path: paths[i].clone(),
                        git_ref: String::from_str(git_ref),
                    },
                );
            },
        }
    }
    proof {
        lemma_first_missing_none(os);
    }
    Ok(files)
}

/// When every earlier outcome is present and position `i` is absent, `i` is
/// the first missing position.
proof fn lemma_first_missing_at(os: Seq<Option<Seq<char>>>, i: int)
    requires
        0 <= i < os.len(),
        os[i] is None,
        forall|k: int| 0 <= k < i ==> os[k] is Some,
    ensures
        spec_first_missing(os) == Some(i),
    decreases i,
{
    if i > 0 {
        lemma_first_missing_at(os.skip(1), i - 1);
    }
}

/// When every outcome is present, nothing is missing.
proof fn lemma_first_missing_none(os: Seq<Option<Seq<char>>>)
    requires
        forall|k: int| 0 <= k < os.len() ==> os[k] is Some,
    ensures
        spec_first_missing(os) is None,
    decreases os.len(),
{
    if os.len() > 0 {
        lemma_first_missing_none(os.skip(1));
    }
}

/// Where a file of a repository is fetched from at a reference; the stored
/// provenance header carries the same URL.
pub open spec fn spec_raw_file_url(repo: Seq<char>, git_ref: Seq<char>, path: Seq<char>) -> Seq<
    char,
> {
    "https://raw.githubusercontent.com/"@ + repo + "/"@ + git_ref + "/"@ + path
}

/// Builds the raw-content URL of one file at one reference.
pub fn raw_file_url(repo: &str, git_ref: &str, path: &str) -> (r: String)
    ensures
        r@ == spec_raw_file_url(repo@, git_ref@, path@),
{
    let mut s = String::new();
    s.append("https://raw.githubusercontent.com/");
    s.append(repo);
    s.append("/");
    s.append(git_ref);
    s.append("/");
    s.append(path);
    s
}

} // verus!
