//! The repository-metadata answer of the hosting provider: a JSON document
//! from which only the default branch is read.  The reading itself is
//! `serde_json`'s, behind one trusted declaration whose result is named;
//! the decision of which branch name to use is verified against that name.
use crate::resolve::spec_default_or_main;
use vstd::prelude::*;
use vstd::string::StringExecFns;

verus! {

/// Whether a text parses as a JSON document; it depends on the text alone.
pub uninterp spec fn json_parses(s: Seq<char>) -> bool;

/// The `default_branch` string of a JSON document, when the document parses
/// and carries one; it depends on the text alone.
pub uninterp spec fn default_branch_of(s: Seq<char>) -> Option<Seq<char>>;

/// Relies on serde_json::from_str, Value::get and Value::as_str: reads the
/// `default_branch` string out of a JSON document.  from_str succeeds on
/// exactly the well-formed documents; get looks the key up in an object;
/// as_str gives the payload of a string value.  The result is a function of
/// the text alone.
#[verifier::external_body]
fn read_default_branch(body: &str) -> (r: Option<String>)
    ensures
        crate::strutil::opt_string_view(r) == default_branch_of(body@),
        !json_parses(body@) ==> r is None,
{
    match serde_json::from_str::<serde_json::Value>(body) {
        Err(_) => None,
        Ok(v) => match v.get("default_branch") {
            None => None,
            Some(b) => match b.as_str() {
                None => None,
                Some(s) => Some(s.to_string()),
            },
        },
    }
}

/// Reads the default branch out of the repository-metadata document.  A body
/// that does not parse, or that carries no `default_branch` string, counts as
/// unavailable: the branch is then assumed to be `main`.
pub fn default_branch_from_body(body: &str) -> (r: String)
    ensures
        r@ == spec_default_or_main(default_branch_of(body@)),
        !json_parses(body@) ==> r@ == "main"@,
{
    match read_default_branch(body) {
        Some(branch) => branch,
        None => {
            let mut main = String::new();
            main.append("main");
            main
        },
    }
}

} // verus!
