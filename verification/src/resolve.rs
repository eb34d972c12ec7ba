//! Resolving a package version to an immutable source reference.
//!
//! An ordered list of tag-name candidates is probed against the hosting
//! provider's tag-lookup endpoint; the first existing tag wins.  A rate-limit
//! response aborts the resolution.  When no candidate exists, the repository's
//! default branch is used and the reference is marked as a fallback.
use crate::errors::DocsError;
use vstd::prelude::*;
use vstd::string::StringExecFns;

verus! {

/// The immutable reference a version resolved to.
#[derive(Debug, Clone, PartialEq, Eq)]
pub struct ResolvedRef {
    pub git_ref: String,
    /// True when no version tag matched and the default branch is used.
    pub is_fallback: bool,
}

/// What one tag-existence probe came back with.
#[derive(Clone, Copy, Debug, PartialEq, Eq)]
pub enum ProbeOutcome {
    /// The tag exists.
    Found,
    /// The tag does not exist; the next candidate is tried.
    Absent,
    /// The provider is rate limiting; resolution aborts.
    RateLimited,
    /// Any other response status; the candidate is skipped.
    Unexpected(u16),
}

/// Classifies the response status of a tag-existence probe.
pub fn classify_tag_probe(status: u16) -> (r: ProbeOutcome)
    ensures
        status == 200 ==> r == ProbeOutcome::Found,
        status == 404 ==> r == ProbeOutcome::Absent,
        status == 429 ==> r == ProbeOutcome::RateLimited,
        status != 200 && status != 404 && status != 429 ==> r == ProbeOutcome::Unexpected(status),
{
    if status == 200 {
        ProbeOutcome::Found
    } else if status == 404 {
        ProbeOutcome::Absent
    } else if status == 429 {
        ProbeOutcome::RateLimited
    } else {
        ProbeOutcome::Unexpected(status)
    }
}

/// The tag candidates for a version, in the order they are tried.
pub open spec fn spec_tag_candidates(name: Seq<char>, version: Seq<char>) -> Seq<Seq<char>> {
    seq![
        "v"@ + version,
        version,
        name + "-v"@ + version,
        name + "-"@ + version,
    ]
}

/// Builds the tag candidates for a package and version, in probe order.
pub fn tag_candidates(crate_name: &str, version: &str) -> (r: Vec<String>)
    ensures
        crate::strutil::strings_view(r@) == spec_tag_candidates(crate_name@, version@),
{
    let mut c0 = String::new();
    c0.append("v");
    c0.append(version);
    let c1 = String::from_str(version);
    let mut c2 = String::new();
    c2.append(crate_name);
    c2.append("-v");
    c2.append(version);
    let mut c3 = String::new();
    c3.append(crate_name);
    c3.append("-");
    c3.append(version);
    let mut r: Vec<String> = Vec::new();
    r.push(c0);
    r.push(c1);
    r.push(c2);
    r.push(c3);
    proof {
        assert(crate::strutil::strings_view(r@) =~= spec_tag_candidates(crate_name@, version@));
    }
    r
}

/// The branch used when the repository metadata gives none.
pub open spec fn spec_default_or_main(branch: Option<Seq<char>>) -> Seq<char> {
    match branch {
        Some(b) => b,
        None => "main"@,
    }
}

/// The reference resolution policy over a full list of probe outcomes:
/// the first found candidate wins; a rate limit aborts; with no hit the
/// default branch is the fallback.
pub open spec fn spec_resolve(
    cs: Seq<Seq<char>>,
    os: Seq<ProbeOutcome>,
    branch: Option<Seq<char>>,
) -> Result<(Seq<char>, bool), ()>
    decreases cs.len(),
{
    if cs.len() == 0 {
        Ok((spec_default_or_main(branch), true))
    } else {
        match os[0] {
            ProbeOutcome::Found => Ok((cs[0], false)),
            ProbeOutcome::RateLimited => Err(()),
            _ => spec_resolve(cs.skip(1), os.skip(1), branch),
        }
    }
}

/// What one probe outcome decides during resolution.
#[derive(Debug)]
pub enum ResolveAction {
    /// The probed tag exists: use it, not a fallback.
    UseTag(ResolvedRef),
    /// Probe the next candidate.
    Next,
    /// Abort the whole resolution.
    AbortRateLimited,
    /// All candidates are exhausted: fall back to the default branch.
    Fallback,
}

/// Decides what follows one candidate's probe outcome.
pub fn resolve_step(candidates: &Vec<String>, idx: usize, outcome: &ProbeOutcome) -> (r:
    ResolveAction)
    requires
        idx < candidates@.len(),
    ensures
        match outcome {
            ProbeOutcome::Found => r matches ResolveAction::UseTag(rr) && rr.git_ref@
                == candidates@[idx as int]@ && !rr.is_fallback,
            ProbeOutcome::RateLimited => r is AbortRateLimited,
            _ => if idx + 1 == candidates@.len() {
                r is Fallback
            } else {
                r is Next
            },
        },
{
    match outcome {
        ProbeOutcome::Found => ResolveAction::UseTag(
            ResolvedRef { git_ref: candidates[idx].clone(), is_fallback: false },
        ),
        ProbeOutcome::RateLimited => ResolveAction::AbortRateLimited,
        _ => {
            if idx == candidates.len() - 1 {
                ResolveAction::Fallback
            } else {
                ResolveAction::Next
            }
        },
    }
}

/// The fallback reference: the default branch (or `main`), marked as such.
pub fn fallback_ref(branch: &Option<String>) -> (r: ResolvedRef)
    ensures
        r.git_ref@ == spec_default_or_main(crate::strutil::opt_string_view(*branch)),
        r.is_fallback,
{
    let git_ref = match branch {
        Some(b) => b.clone(),
        None => {
            let mut s = String::new();
            s.append("main");
            s
        },
    };
    ResolvedRef { git_ref, is_fallback: true }
}

/// Resolves a reference from the outcomes of probing every candidate,
/// exactly as `spec_resolve` describes.
pub fn resolve_from_outcomes(
    candidates: &Vec<String>,
    outcomes: &Vec<ProbeOutcome>,
    branch: &Option<String>,
) -> (r: Result<ResolvedRef, DocsError>)
    requires
        candidates@.len() == outcomes@.len(),
    ensures
        match r {
            Ok(rr) => spec_resolve(
                crate::strutil::strings_view(candidates@),
                outcomes@,
                crate::strutil::opt_string_view(*branch),
            ) == Ok::<(Seq<char>, bool), ()>((rr.git_ref@, rr.is_fallback)),
            Err(e) => spec_resolve(
                crate::strutil::strings_view(candidates@),
                outcomes@,
                crate::strutil::opt_string_view(*branch),
            ) == Err::<(Seq<char>, bool), ()>(()) && e == DocsError::RateLimited,
        },
{
    let ghost cs = crate::strutil::strings_view(candidates@);
    let ghost os = outcomes@;
    let ghost db = crate::strutil::opt_string_view(*branch);
    let n = candidates.len();
    let mut i: usize = 0;
    proof {
        assert(cs.skip(0) =~= cs);
        assert(os.skip(0) =~= os);
    }
    while i < n
        invariant
            0 <= i <= n,
            n == candidates@.len(),
            n == outcomes@.len(),
            cs == crate::strutil::strings_view(candidates@),
            os == outcomes@,
            db == crate::strutil::opt_string_view(*branch),
            spec_resolve(cs, os, db) == spec_resolve(cs.skip(i as int), os.skip(i as int), db),
        decreases n - i,
    {
        proof {
            assert(cs.skip(i as int)[0] == candidates@[i as int]@);
            assert(os.skip(i as int)[0] == outcomes@[i as int]);
        }
        match outcomes[i] {
            ProbeOutcome::Found => {
                return Ok(ResolvedRef { git_ref: candidates[i].clone(), is_fallback: false });
            },
            ProbeOutcome::RateLimited => {
                return Err(DocsError::RateLimited);
            },
            _ => {
                proof {
                    assert(cs.skip(i as int).skip(1) =~= cs.skip(i + 1));
                    assert(os.skip(i as int).skip(1) =~= os.skip(i + 1));
                }
                i += 1;
            },
        }
    }
    proof {
        assert(cs.skip(i as int).len() == 0);
    }
    Ok(fallback_ref(branch))
}

/// The resolution policy in full: the candidates are tried in order and the
/// first that exists wins; probes after an earlier hit or rate limit never
/// matter; when no candidate exists, the default branch is returned with the
/// fallback mark set.
pub proof fn lemma_resolve_order(
    cs: Seq<Seq<char>>,
    os: Seq<ProbeOutcome>,
    branch: Option<Seq<char>>,
)
    requires
        cs.len() == os.len(),
    ensures
        forall|i: int|
            0 <= i < os.len() && #[trigger] os[i] == ProbeOutcome::Found && (forall|j: int|
                0 <= j < i ==> #[trigger] os[j] != ProbeOutcome::Found && os[j]
                    != ProbeOutcome::RateLimited) ==> spec_resolve(cs, os, branch) == Ok::<
                (Seq<char>, bool),
                (),
            >((cs[i], false)),
        (forall|i: int|
            0 <= i < os.len() ==> #[trigger] os[i] != ProbeOutcome::Found && os[i]
                != ProbeOutcome::RateLimited) ==> spec_resolve(cs, os, branch) == Ok::<
            (Seq<char>, bool),
            (),
        >((spec_default_or_main(branch), true)),
    decreases cs.len(),
{
    if cs.len() > 0 {
        lemma_resolve_order(cs.skip(1), os.skip(1), branch);
        assert forall|i: int|
            0 <= i < os.len() && #[trigger] os[i] == ProbeOutcome::Found && (forall|j: int|
                0 <= j < i ==> #[trigger] os[j] != ProbeOutcome::Found && os[j]
                    != ProbeOutcome::RateLimited) implies spec_resolve(cs, os, branch) == Ok::<
            (Seq<char>, bool),
            (),
        >((cs[i], false)) by {
            if i == 0 {
            } else {
                assert(os[0] != ProbeOutcome::Found && os[0] != ProbeOutcome::RateLimited);
                let i2 = i - 1;
                assert(os.skip(1)[i2] == os[i]);
                assert forall|j: int| 0 <= j < i2 implies #[trigger] os.skip(1)[j]
                    != ProbeOutcome::Found && os.skip(1)[j] != ProbeOutcome::RateLimited by {
                    assert(os.skip(1)[j] == os[j + 1]);
                }
                assert(spec_resolve(cs.skip(1), os.skip(1), branch) == Ok::<
                    (Seq<char>, bool),
                    (),
                >((cs.skip(1)[i2], false)));
                assert(cs.skip(1)[i2] == cs[i]);
            }
        }
        if forall|i: int|
            0 <= i < os.len() ==> #[trigger] os[i] != ProbeOutcome::Found && os[i]
                != ProbeOutcome::RateLimited {
            assert(os[0] != ProbeOutcome::Found && os[0] != ProbeOutcome::RateLimited);
            assert forall|i: int| 0 <= i < os.skip(1).len() implies #[trigger] os.skip(1)[i]
                != ProbeOutcome::Found && os.skip(1)[i] != ProbeOutcome::RateLimited by {
                assert(os.skip(1)[i] == os[i + 1]);
            }
        }
    }
}

} // verus!
