//! Trimming a changelog to the section for one version.
//!
//! The section starts at the first heading line that contains the version
//! string and runs up to (but excluding) the next top-level heading, or to
//! the end of the file.  When no heading matches, the content is returned
//! unchanged.
use crate::strutil::{
    find_first, lemma_find_at_zero, lemma_find_from_props, match_at, spec_find,
};
use vstd::prelude::*;
use vstd::string::StrSliceExecFns;
use vstd::string::StringExecFns;

verus! {

/// The changelog section marker for a version: `## {version}`.
pub open spec fn spec_marker(version: Seq<char>) -> Seq<char> {
    "## "@ + version
}

/// The start of a following top-level heading.
pub open spec fn spec_heading() -> Seq<char> {
    "\n## "@
}

/// What trimming returns: the section from the version marker up to (but
/// excluding) the next top-level heading line, the section to the end of the
/// file when no further heading exists, or the whole content when the marker
/// does not occur.
pub open spec fn spec_trim(content: Seq<char>, version: Seq<char>) -> Seq<char> {
    let marker = spec_marker(version);
    match spec_find(content, marker) {
        Some(start) => {
            let rest = content.skip(start);
            match spec_find(rest.skip(marker.len() as int), spec_heading()) {
                Some(next) => rest.take(marker.len() + next + 1),
                None => rest,
            }
        },
        None => content,
    }
}

/// Trims `content` to the section belonging to `version`.
pub fn trim_changelog(content: &str, version: &str) -> (r: String)
    ensures
        r@ == spec_trim(content@, version@),
{
    let mut marker = String::new();
    marker.append("## ");
    marker.append(version);
    assert(marker@ == spec_marker(version@));
    match find_first(content, marker.as_str()) {
        Some(start) => {
            proof {
                lemma_find_from_props(content@, marker@, 0);
            }
            let content_len = content.unicode_len();
            let rest = content.substring_char(start, content_len);
            proof {
                assert(rest@ =~= content@.skip(start as int));
            }
            let marker_len = marker.as_str().unicode_len();
            let rest_len = rest.unicode_len();
            let tail = rest.substring_char(marker_len, rest_len);
            proof {
                assert(tail@ =~= rest@.skip(marker_len as int));
            }
            match find_first(tail, "\n## ") {
                Some(next) => {
                    proof {
                        lemma_find_from_props(tail@, "\n## "@, 0);
                        reveal_strlit("\n## ");
                        assert("\n## "@.len() == 4);
                        assert(marker_len + next + 1 <= rest_len);
                    }
                    let section = rest.substring_char(0, marker_len + next + 1);
                    proof {
                        assert(section@ =~= rest@.take(marker_len + next + 1 as int));
                    }
                    String::from_str(section)
                },
                None => String::from_str(rest),
            }
        },
        None => String::from_str(content),
    }
}

/// Trimming is idempotent: trimming an already-trimmed section with the
/// same version yields the same content.
pub proof fn lemma_trim_idempotent(content: Seq<char>, version: Seq<char>)
    ensures
        spec_trim(spec_trim(content, version), version) == spec_trim(content, version),
{
    let m = spec_marker(version);
    let h = spec_heading();
    reveal_strlit("\n## ");
    assert(h.len() == 4);
    lemma_find_from_props(content, m, 0);
    match spec_find(content, m) {
        None => {
        },
        Some(start) => {
            let rest = content.skip(start);
            assert(match_at(content, m, start));
            assert(match_at(rest, m, 0)) by {
                assert forall|k: int| 0 <= k < m.len() implies rest[k] == m[k] by {
                    assert(rest[k] == content[start + k]);
                }
            }
            let tail = rest.skip(m.len() as int);
            lemma_find_from_props(tail, h, 0);
            match spec_find(tail, h) {
                Some(next) => {
                    let t = rest.take(m.len() + next + 1);
                    assert(spec_trim(content, version) == t);
                    assert(match_at(t, m, 0)) by {
                        assert forall|k: int| 0 <= k < m.len() implies t[k] == m[k] by {
                            assert(t[k] == rest[k]);
                        }
                    }
                    lemma_find_at_zero(t, m);
                    let t_rest = t.skip(0);
                    assert(t_rest =~= t);
                    let t_tail = t.skip(m.len() as int);
                    lemma_find_from_props(t_tail, h, 0);
                    match spec_find(t_tail, h) {
                        Some(q) => {
                            assert(match_at(t_tail, h, q));
                            assert(q + h.len() <= t_tail.len());
                            assert(t_tail.len() == next + 1);
                            assert(q < next);
                            assert(match_at(tail, h, q)) by {
                                assert forall|k: int| 0 <= k < h.len() implies tail[q + k]
                                    == h[k] by {
                                    assert(t_tail[q + k] == t[m.len() + q + k]);
                                    assert(t[m.len() + q + k] == rest[m.len() + q + k]);
                                    assert(tail[q + k] == rest[m.len() + q + k]);
                                }
                            }
                            assert(false);
                        },
                        None => {
                            assert(spec_trim(t, version) == t_rest);
                        },
                    }
                },
                None => {
                    let t = rest;
                    assert(spec_trim(content, version) == t);
                    lemma_find_at_zero(t, m);
                    assert(t.skip(0) =~= t);
                    assert(spec_trim(t, version) == t);
                },
            }
        },
    }
}


/// An upper-case ASCII letter folded to lower case; all else unchanged.
pub open spec fn spec_lower_ascii(c: char) -> char {
    if 'A' <= c && c <= 'Z' {
        ((c as u8) + 32) as char
    } else {
        c
    }
}

/// `s` ends with `suffix`, comparing ASCII letters without regard to case;
/// `suffix` is given in lower case.
pub open spec fn spec_ends_with_ignore_ascii_case(s: Seq<char>, suffix: Seq<char>) -> bool {
    &&& suffix.len() <= s.len()
    &&& forall|k: int|
        0 <= k < suffix.len() ==> spec_lower_ascii(s[s.len() - suffix.len() + k]) == #[trigger] suffix[k]
}

/// Whether a fetched path names a changelog document, whatever its casing.
pub open spec fn spec_is_changelog_path(path: Seq<char>) -> bool {
    spec_ends_with_ignore_ascii_case(path, "changelog.md"@)
}

/// Folds an upper-case ASCII letter to lower case.
fn lower_ascii(c: char) -> (r: char)
    ensures
        r == spec_lower_ascii(c),
{
    if 'A' <= c && c <= 'Z' {
        ((c as u8) + 32) as char
    } else {
        c
    }
}

/// Decides whether a fetched path names a changelog document: it ends with
/// `changelog.md` in any ASCII casing.
pub fn is_changelog_path(path: &str) -> (r: bool)
    ensures
        r == spec_is_changelog_path(path@),
{
    let suffix = "changelog.md";
    let path_len = path.unicode_len();
    let suffix_len = suffix.unicode_len();
    if suffix_len > path_len {
        return false;
    }
    let start = path_len - suffix_len;
    let mut k: usize = 0;
    while k < suffix_len
        invariant
            0 <= k <= suffix_len,
            path_len == path@.len(),
            suffix_len == suffix@.len(),
            suffix@ == "changelog.md"@,
            suffix_len <= path_len,
            start == path_len - suffix_len,
            forall|m: int|
                0 <= m < k ==> spec_lower_ascii(path@[start + m]) == #[trigger] suffix@[m],
        decreases suffix_len - k,
    {
        if lower_ascii(path.get_char(start + k)) != suffix.get_char(k) {
            return false;
        }
        k += 1;
    }
    true
}

} // verus!
