//! Reading the lock manifest: a line-oriented pass over its text that
//! collects, for every `[[package]]` section, the quoted `name` and
//! `version` values.  Lines and fields the grammar does not know are
//! tolerated and skipped; a manifest without any package section, or with a
//! package section that lacks its `name` or `version`, is a structural
//! error.
use crate::errors::DocsError;
use crate::strutil::{find_first, match_at, spec_find, str_eq};
use vstd::prelude::*;
use vstd::string::StrSliceExecFns;
use vstd::string::StringExecFns;

verus! {

/// One resolved dependency: package name and exact version.
#[derive(Debug, Clone, PartialEq, Eq)]
pub struct LockEntry {
    pub name: String,
    pub version: String,
}

impl LockEntry {
    /// The pair of character sequences an entry stands for.
    pub open spec fn view_pair(&self) -> (Seq<char>, Seq<char>) {
        (self.name@, self.version@)
    }
}

/// The entries a vector of them stands for.
pub open spec fn entries_view(v: Seq<LockEntry>) -> Seq<(Seq<char>, Seq<char>)> {
    v.map_values(|e: LockEntry| e.view_pair())
}

/// The text split at every newline.
pub open spec fn spec_lines(s: Seq<char>) -> Seq<Seq<char>>
    decreases s.len(),
    via spec_lines_decreases
{
    match spec_find(s, seq!['\n']) {
        Some(i) => seq![s.take(i)] + spec_lines(s.skip(i + 1)),
        None => seq![s],
    }
}

#[via_fn]
proof fn spec_lines_decreases(s: Seq<char>) {
    crate::strutil::lemma_find_from_props(s, seq!['\n'], 0);
}

/// The line opening a package section.
pub open spec fn is_package_header(line: Seq<char>) -> bool {
    line == "[[package]]"@
}

/// Any other section or array-of-tables header; it ends a package section.
pub open spec fn is_section_header(line: Seq<char>) -> bool {
    line.len() > 0 && line[0] == '['
}

/// The quoted value of `key = "..."` on this line, if the line has that shape.
pub open spec fn spec_line_value(line: Seq<char>, prefix: Seq<char>) -> Option<Seq<char>> {
    if line.len() >= prefix.len() + 1 && match_at(line, prefix, 0) && line[line.len() - 1] == '"' {
        Some(line.subrange(prefix.len() as int, line.len() - 1))
    } else {
        None
    }
}

/// The parser's state between lines.
#[verifier::ext_equal]
pub ghost struct LockParse {
    /// Whether the current lines belong to a `[[package]]` section.
    pub in_pkg: bool,
    /// Whether any `[[package]]` header was seen at all.
    pub saw_pkg: bool,
    /// The `name` value of the current package section, once seen.
    pub name: Option<Seq<char>>,
    /// The `version` value of the current package section, once seen.
    pub version: Option<Seq<char>>,
    /// The (name, version) pairs of the completed package sections.
    pub entries: Seq<(Seq<char>, Seq<char>)>,
    /// The first structural error, once one is seen; it ends the parse.
    pub error: Option<Seq<char>>,
}

/// The state before any line.
pub open spec fn init_state() -> LockParse {
    LockParse {
        in_pkg: false,
        saw_pkg: false,
        name: None,
        version: None,
        entries: Seq::empty(),
        error: None,
    }
}

/// Closing the current package section: a section with both a name and a
/// version contributes an entry; one that lacks a required field is a
/// structural error.
pub open spec fn flush(st: LockParse) -> LockParse {
    if st.error is Some || !st.in_pkg {
        st
    } else {
        match (st.name, st.version) {
            (Some(n), Some(v)) => LockParse { entries: st.entries.push((n, v)), ..st },
            (None, _) => LockParse {
                error: Some("a `package` entry has no `name`"@),
                ..st
            },
            (Some(_), None) => LockParse {
                error: Some("a `package` entry has no `version`"@),
                ..st
            },
        }
    }
}

/// One line's effect on the parser state; after an error nothing changes.
pub open spec fn step_line(st: LockParse, line: Seq<char>) -> LockParse {
    if st.error is Some {
        st
    } else if is_package_header(line) {
        let f = flush(st);
        if f.error is Some {
            f
        } else {
            LockParse { in_pkg: true, saw_pkg: true, name: None, version: None, ..f }
        }
    } else if is_section_header(line) {
        let f = flush(st);
        if f.error is Some {
            f
        } else {
            LockParse { in_pkg: false, name: None, version: None, ..f }
        }
    } else if st.in_pkg {
        match spec_line_value(line, "name = \""@) {
            Some(v) => LockParse { name: Some(v), ..st },
            None => match spec_line_value(line, "version = \""@) {
                Some(v) => LockParse { version: Some(v), ..st },
                None => st,
            },
        }
    } else {
        st
    }
}

/// The state after a sequence of lines.
pub open spec fn run_lines(st: LockParse, lines: Seq<Seq<char>>) -> LockParse
    decreases lines.len(),
{
    if lines.len() == 0 {
        st
    } else {
        run_lines(step_line(st, lines[0]), lines.skip(1))
    }
}

/// What parsing the whole manifest yields: the completed entries, or the
/// message of the structural error -- an incomplete package section, or no
/// package list at all.
pub open spec fn spec_lock_entries(content: Seq<char>) -> Result<
    Seq<(Seq<char>, Seq<char>)>,
    Seq<char>,
> {
    let st = flush(run_lines(init_state(), spec_lines(content)));
    match st.error {
        Some(m) => Err(m),
        None => if st.saw_pkg {
            Ok(st.entries)
        } else {
            Err("`package` array is missing"@)
        },
    }
}

/// The parser state carried by the executable pass.
struct LockState {
    in_pkg: bool,
    saw_pkg: bool,
    name: Option<String>,
    version: Option<String>,
    entries: Vec<LockEntry>,
    error: Option<String>,
}

impl LockState {
    /// The abstract state this stands for.
    spec fn view_state(&self) -> LockParse {
        LockParse {
            in_pkg: self.in_pkg,
            saw_pkg: self.saw_pkg,
            name: match self.name {
                Some(n) => Some(n@),
                None => None,
            },
            version: match self.version {
                Some(v) => Some(v@),
                None => None,
            },
            entries: entries_view(self.entries@),
            error: match self.error {
                Some(m) => Some(m@),
                None => None,
            },
        }
    }
}

/// Closes the current package section, as `flush` describes.
fn flush_state(st: &mut LockState)
    ensures
        final(st).view_state() == flush(old(st).view_state()),
{
    if st.error.is_some() || !st.in_pkg {
        proof {
            assert(st.view_state() =~= flush(old(st).view_state()));
        }
        return ;
    }
    if st.name.is_none() {
        let mut m = String::new();
        m.append("a `package` entry has no `name`");
        st.error = Some(m);
        proof {
            assert(st.view_state() =~= flush(old(st).view_state()));
        }
        return ;
    }
    if st.version.is_none() {
        let mut m = String::new();
        m.append("a `package` entry has no `version`");
        st.error = Some(m);
        proof {
            assert(st.view_state() =~= flush(old(st).view_state()));
        }
        return ;
    }
    let name = st.name.as_ref().unwrap().clone();
    let version = st.version.as_ref().unwrap().clone();
    st.entries.push(LockEntry { name, version });
    proof {
        assert(entries_view(st.entries@) =~= flush(old(st).view_state()).entries);
        assert(st.view_state() =~= flush(old(st).view_state()));
    }
}

/// The value of `{key} = "..."` on this line, if it has that shape.
fn line_value(line: &str, prefix: &str) -> (r: Option<String>)
    ensures
        match r {
            Some(v) => spec_line_value(line@, prefix@) == Some(v@),
            None => spec_line_value(line@, prefix@) is None,
        },
{
    let line_len = line.unicode_len();
    let prefix_len = prefix.unicode_len();
    if line_len <= prefix_len {
        return None;
    }
    if !crate::strutil::str_starts_with(line, prefix) {
        return None;
    }
    if line.get_char(line_len - 1) != '"' {
        return None;
    }
    let value = line.substring_char(prefix_len, line_len - 1);
    Some(String::from_str(value))
}

/// One line's effect on the state, as `step_line` describes.
fn process_line(st: &mut LockState, line: &str)
    ensures
        final(st).view_state() == step_line(old(st).view_state(), line@),
{
    if st.error.is_some() {
        return ;
    }
    if str_eq(line, "[[package]]") {
        flush_state(st);
        if st.error.is_none() {
            st.in_pkg = true;
            st.saw_pkg = true;
            st.name = None;
            st.version = None;
        }
        return ;
    }
    let line_len = line.unicode_len();
    if line_len > 0 && line.get_char(0) == '[' {
        flush_state(st);
        if st.error.is_none() {
            st.in_pkg = false;
            st.name = None;
            st.version = None;
        }
        return ;
    }
    if !st.in_pkg {
        return ;
    }
    if let Some(v) = line_value(line, "name = \"") {
        st.name = Some(v);
        return;
    }
    if let Some(v) = line_value(line, "version = \"") {
        st.version = Some(v);
        return;
    }
}

/// Reads the lock manifest's text and returns every package's exact
/// version, in order of appearance.  Fails when the manifest has no
/// package list at all, or when a package section lacks its `name` or
/// `version`.
pub fn resolve_cargo_versions(content: &str) -> (r: Result<Vec<LockEntry>, DocsError>)
    ensures
        match r {
            Ok(v) => spec_lock_entries(content@) == Ok::<
                Seq<(Seq<char>, Seq<char>)>,
                Seq<char>,
            >(entries_view(v@)),
            Err(e) => {
                &&& spec_lock_entries(content@) is Err
                &&& (e matches DocsError::LockParseError(d) && spec_lock_entries(content@) == Err::<
                    Seq<(Seq<char>, Seq<char>)>,
                    Seq<char>,
                >(d@))
            },
        },
{
    let content_len = content.unicode_len();
    let mut st = LockState {
        in_pkg: false,
        saw_pkg: false,
        name: None,
        version: None,
        entries: Vec::new(),
        error: None,
    };
    assert(st.view_state() == init_state());
    assert(entries_view(st.entries@) =~= Seq::<(Seq<char>, Seq<char>)>::empty());
    let mut pos: usize = 0;
    let mut done = false;
    proof {
        assert(content@.skip(0) =~= content@);
    }
    while !done
        invariant
            0 <= pos <= content_len,
            content_len == content@.len(),
            run_lines(init_state(), spec_lines(content@)) == if done {
                st.view_state()
            } else {
                run_lines(st.view_state(), spec_lines(content@.skip(pos as int)))
            },
        decreases content_len - pos, if done { 0int } else { 1int },
    {
        let rem = content.substring_char(pos, content_len);
        proof {
            assert(rem@ =~= content@.skip(pos as int));
            reveal_strlit("\n");
            assert("\n"@ =~= seq!['\n']);
        }
        match find_first(rem, "\n") {
            Some(i) => {
                proof {
                    crate::strutil::lemma_find_from_props(rem@, seq!['\n'], 0);
                }
                let line = rem.substring_char(0, i);
                proof {
                    assert(line@ =~= rem@.take(i as int));
                }
                let ghost prev = st.view_state();
                process_line(&mut st, line);
                proof {
                    let lines = spec_lines(rem@);
                    assert(lines == seq![rem@.take(i as int)] + spec_lines(rem@.skip(i + 1)));
                    assert(lines[0] == line@);
                    assert(lines.skip(1) =~= spec_lines(rem@.skip(i + 1)));
                    assert(run_lines(prev, lines) == run_lines(st.view_state(), lines.skip(1)));
                    assert(rem@.skip(i + 1) =~= content@.skip(pos + i + 1));
                }
                pos = pos + i + 1;
            },
            None => {
                let ghost prev = st.view_state();
                process_line(&mut st, rem);
                proof {
                    let lines = spec_lines(rem@);
                    assert(lines == seq![rem@]);
                    assert(lines[0] == rem@);
                    assert(lines.skip(1) =~= Seq::<Seq<char>>::empty());
                    assert(run_lines(prev, lines) == run_lines(
                        step_line(prev, lines[0]),
                        lines.skip(1),
                    ));
                    assert(run_lines(st.view_state(), lines.skip(1)) == st.view_state());
                    assert(run_lines(prev, lines) == st.view_state());
                }
                done = true;
            },
        }
    }
    flush_state(&mut st);
    if st.error.is_some() {
        let detail = st.error.as_ref().unwrap().clone();
        return Err(DocsError::LockParseError(detail));
    }
    if st.saw_pkg {
        Ok(st.entries)
    } else {
        let mut detail = String::new();
        detail.append("`package` array is missing");
        Err(DocsError::LockParseError(detail))
    }
}

/// The version recorded for `name`: with duplicate entries the last wins.
pub open spec fn spec_lookup(entries: Seq<(Seq<char>, Seq<char>)>, name: Seq<char>) -> Option<
    Seq<char>,
>
    decreases entries.len(),
{
    if entries.len() == 0 {
        None
    } else if entries.last().0 == name {
        Some(entries.last().1)
    } else {
        spec_lookup(entries.drop_last(), name)
    }
}

/// Looks a package's locked version up; with duplicate entries the last wins.
pub fn lookup_version(entries: &Vec<LockEntry>, name: &str) -> (r: Option<String>)
    ensures
        match r {
            Some(v) => spec_lookup(entries_view(entries@), name@) == Some(v@),
            None => spec_lookup(entries_view(entries@), name@) is None,
        },
{
    let mut i: usize = entries.len();
    proof {
        assert(entries_view(entries@).take(entries@.len() as int) =~= entries_view(entries@));
    }
    while i > 0
        invariant
            0 <= i <= entries.len(),
            spec_lookup(entries_view(entries@), name@) == spec_lookup(
                entries_view(entries@).take(i as int),
                name@,
            ),
        decreases i,
    {
        i -= 1;
        let ghost pre = entries_view(entries@).take(i + 1);
        proof {
            assert(pre.last() == entries@[i as int].view_pair());
            assert(pre.drop_last() =~= entries_view(entries@).take(i as int));
        }
        if str_eq(entries[i].name.as_str(), name) {
            return Some(entries[i].version.clone());
        }
    }
    proof {
        assert(entries_view(entries@).take(0) =~= Seq::<(Seq<char>, Seq<char>)>::empty());
    }
    None
}

} // verus!
