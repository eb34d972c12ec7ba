//! Verified helpers for working with strings as sequences of characters:
//! substring matching and search, lexicographic comparison, and rendering
//! of unsigned numbers in decimal.
use vstd::prelude::*;
use vstd::string::StrSliceExecFns;
use vstd::string::StringExecFns;

verus! {

broadcast use vstd::string::group_string_axioms;

/// `pat` occurs in `s` at position `i`.
pub open spec fn match_at(s: Seq<char>, pat: Seq<char>, i: int) -> bool {
    &&& 0 <= i
    &&& i + pat.len() <= s.len()
    &&& forall|k: int| 0 <= k < pat.len() ==> s[i + k] == #[trigger] pat[k]
}

/// The first position `>= i` at which `pat` occurs in `s`, if any.
pub open spec fn spec_find_from(s: Seq<char>, pat: Seq<char>, i: int) -> Option<int>
    decreases s.len() - i,
    when 0 <= i <= s.len()
{
    if i + pat.len() <= s.len() {
        if match_at(s, pat, i) {
            Some(i)
        } else {
            spec_find_from(s, pat, i + 1)
        }
    } else {
        None
    }
}

/// The first position at which `pat` occurs in `s`, if any.
pub open spec fn spec_find(s: Seq<char>, pat: Seq<char>) -> Option<int> {
    spec_find_from(s, pat, 0)
}

/// What `spec_find_from` returns: either the least match position `>= i`,
/// or `None` when no position `>= i` matches.
pub proof fn lemma_find_from_props(s: Seq<char>, pat: Seq<char>, i: int)
    requires
        0 <= i <= s.len(),
    ensures
        match spec_find_from(s, pat, i) {
            Some(j) => i <= j && match_at(s, pat, j) && forall|k: int|
                i <= k < j ==> !match_at(s, pat, k),
            None => forall|k: int| k >= i ==> !match_at(s, pat, k),
        },
    decreases s.len() - i,
{
    if i + pat.len() <= s.len() {
        if !match_at(s, pat, i) {
            lemma_find_from_props(s, pat, i + 1);
        }
    } else {
        assert forall|k: int| k >= i implies !match_at(s, pat, k) by {
            if k + pat.len() <= s.len() {
                assert(k < i);
            }
        }
    }
}

/// A match at the start is always found first.
pub proof fn lemma_find_at_zero(s: Seq<char>, pat: Seq<char>)
    requires
        match_at(s, pat, 0),
    ensures
        spec_find(s, pat) == Some(0int),
{
}

/// Whether `pat` occurs in `s` at position `i`, checked character by character.
pub fn contains_at(s: &str, pat: &str, i: usize) -> (r: bool)
    requires
        i <= s@.len(),
    ensures
        r == match_at(s@, pat@, i as int),
{
    let s_len = s.unicode_len();
    let pat_len = pat.unicode_len();
    if pat_len > s_len - i {
        return false;
    }
    let mut k: usize = 0;
    while k < pat_len
        invariant
            0 <= k <= pat_len,
            i + pat_len <= s_len,
            s_len == s@.len(),
            pat_len == pat@.len(),
            forall|m: int| 0 <= m < k ==> s@[i + m] == #[trigger] pat@[m],
        decreases pat_len - k,
    {
        if s.get_char(i + k) != pat.get_char(k) {
            return false;
        }
        k += 1;
    }
    true
}

/// The first occurrence of `pat` in `s`, scanning left to right.
pub fn find_first(s: &str, pat: &str) -> (r: Option<usize>)
    ensures
        match r {
            Some(j) => spec_find(s@, pat@) == Some(j as int),
            None => spec_find(s@, pat@) is None,
        },
{
    let s_len = s.unicode_len();
    let pat_len = pat.unicode_len();
    if pat_len > s_len {
        return None;
    }
    let mut i: usize = 0;
    while i <= s_len - pat_len
        invariant
            0 <= i <= s_len,
            pat_len <= s_len,
            s_len == s@.len(),
            pat_len == pat@.len(),
            spec_find(s@, pat@) == spec_find_from(s@, pat@, i as int),
        decreases s_len - i,
    {
        if contains_at(s, pat, i) {
            return Some(i);
        }
        i += 1;
    }
    None
}

/// `s` starts with `pat`.
pub fn str_starts_with(s: &str, pat: &str) -> (r: bool)
    ensures
        r == match_at(s@, pat@, 0),
{
    contains_at(s, pat, 0)
}

/// `s` ends with `pat`.
pub fn str_ends_with(s: &str, pat: &str) -> (r: bool)
    ensures
        r == (pat@.len() <= s@.len() && match_at(s@, pat@, s@.len() - pat@.len())),
{
    let s_len = s.unicode_len();
    let pat_len = pat.unicode_len();
    if pat_len > s_len {
        return false;
    }
    contains_at(s, pat, s_len - pat_len)
}

/// Character-for-character equality of two string slices.
pub fn str_eq(a: &str, b: &str) -> (r: bool)
    ensures
        r == (a@ == b@),
{
    let a_len = a.unicode_len();
    let b_len = b.unicode_len();
    if a_len != b_len {
        return false;
    }
    let r = contains_at(a, b, 0);
    proof {
        if r {
            assert(a@ =~= b@);
        }
    }
    r
}

/// The character sequences a vector of strings stands for.
pub open spec fn strings_view(v: Seq<String>) -> Seq<Seq<char>> {
    v.map_values(|s: String| s@)
}

/// The character sequence an optional string stands for.
pub open spec fn opt_string_view(o: Option<String>) -> Option<Seq<char>> {
    match o {
        Some(s) => Some(s@),
        None => None,
    }
}

/// The character sequences a vector of optional strings stands for.
pub open spec fn opt_strings_view(v: Seq<Option<String>>) -> Seq<Option<Seq<char>>> {
    v.map_values(|o: Option<String>| opt_string_view(o))
}

/// `s` ends with `suffix`.
pub open spec fn spec_ends_with(s: Seq<char>, suffix: Seq<char>) -> bool {
    suffix.len() <= s.len() && match_at(s, suffix, s.len() - suffix.len())
}

/// Lexicographic order on character sequences, by code point.
pub open spec fn lex_le(a: Seq<char>, b: Seq<char>) -> bool
    decreases a.len(),
{
    if a.len() == 0 {
        true
    } else if b.len() == 0 {
        false
    } else if a[0] < b[0] {
        true
    } else if a[0] > b[0] {
        false
    } else {
        lex_le(a.skip(1), b.skip(1))
    }
}

/// Any two sequences are comparable under `lex_le`.
pub proof fn lemma_lex_le_total(a: Seq<char>, b: Seq<char>)
    ensures
        lex_le(a, b) || lex_le(b, a),
    decreases a.len(),
{
    if a.len() > 0 && b.len() > 0 && a[0] == b[0] {
        lemma_lex_le_total(a.skip(1), b.skip(1));
    }
}

/// `lex_le` is transitive.
pub proof fn lemma_lex_le_trans(a: Seq<char>, b: Seq<char>, c: Seq<char>)
    requires
        lex_le(a, b),
        lex_le(b, c),
    ensures
        lex_le(a, c),
    decreases a.len(),
{
    if a.len() > 0 && b.len() > 0 && c.len() > 0 && a[0] == b[0] && b[0] == c[0] {
        lemma_lex_le_trans(a.skip(1), b.skip(1), c.skip(1));
    }
}

/// Comparison of two sequences whose first `i` characters agree reduces to
/// comparison of the remainders.
proof fn lemma_lex_le_skip(a: Seq<char>, b: Seq<char>, i: int)
    requires
        0 <= i <= a.len(),
        i <= b.len(),
        forall|k: int| 0 <= k < i ==> a[k] == b[k],
    ensures
        lex_le(a, b) == lex_le(a.skip(i), b.skip(i)),
    decreases i,
{
    if i > 0 {
        assert(a.len() > 0 && b.len() > 0 && a[0] == b[0]);
        lemma_lex_le_skip(a.skip(1), b.skip(1), i - 1);
        assert(a.skip(1).skip(i - 1) =~= a.skip(i));
        assert(b.skip(1).skip(i - 1) =~= b.skip(i));
    } else {
        assert(a.skip(0) =~= a);
        assert(b.skip(0) =~= b);
    }
}

/// Lexicographic comparison of two string slices.
pub fn str_le(a: &str, b: &str) -> (r: bool)
    ensures
        r == lex_le(a@, b@),
{
    let a_len = a.unicode_len();
    let b_len = b.unicode_len();
    let mut i: usize = 0;
    loop
        invariant
            0 <= i <= a_len,
            i <= b_len,
            a_len == a@.len(),
            b_len == b@.len(),
            forall|k: int| 0 <= k < i ==> a@[k] == b@[k],
        decreases a_len - i,
    {
        proof {
            lemma_lex_le_skip(a@, b@, i as int);
        }
        if i >= a_len {
            assert(a@.skip(i as int).len() == 0);
            return true;
        }
        if i >= b_len {
            assert(b@.skip(i as int).len() == 0);
            return false;
        }
        let ca = a.get_char(i);
        let cb = b.get_char(i);
        assert(a@.skip(i as int)[0] == a@[i as int]);
        assert(b@.skip(i as int)[0] == b@[i as int]);
        if ca < cb {
            return true;
        }
        if cb < ca {
            return false;
        }
        assert(ca == cb);
        i += 1;
    }
}

/// The decimal digit character for a value below ten.
pub open spec fn spec_digit(d: int) -> char {
    if d == 0 {
        '0'
    } else if d == 1 {
        '1'
    } else if d == 2 {
        '2'
    } else if d == 3 {
        '3'
    } else if d == 4 {
        '4'
    } else if d == 5 {
        '5'
    } else if d == 6 {
        '6'
    } else if d == 7 {
        '7'
    } else if d == 8 {
        '8'
    } else {
        '9'
    }
}

/// The decimal rendering of a natural number, most significant digit first.
pub open spec fn spec_dec(n: nat) -> Seq<char>
    decreases n,
{
    if n < 10 {
        seq![spec_digit(n as int)]
    } else {
        spec_dec(n / 10) + seq![spec_digit((n % 10) as int)]
    }
}

/// The one-character string for a decimal digit.
fn digit_str(d: u64) -> (r: &'static str)
    requires
        d < 10,
    ensures
        r@ =~= seq![spec_digit(d as int)],
{
    proof {
        reveal_strlit("0");
        reveal_strlit("1");
        reveal_strlit("2");
        reveal_strlit("3");
        reveal_strlit("4");
        reveal_strlit("5");
        reveal_strlit("6");
        reveal_strlit("7");
        reveal_strlit("8");
        reveal_strlit("9");
    }
    match d {
        0 => "0",
        1 => "1",
        2 => "2",
        3 => "3",
        4 => "4",
        5 => "5",
        6 => "6",
        7 => "7",
        8 => "8",
        _ => "9",
    }
}

/// Renders a number in decimal.
pub fn u64_to_string(n: u64) -> (s: String)
    ensures
        s@ == spec_dec(n as nat),
    decreases n,
{
    if n < 10 {
        let s = String::from_str(digit_str(n));
        proof {
            assert(s@ =~= spec_dec(n as nat));
        }
        s
    } else {
        let mut s = u64_to_string(n / 10);
        s.append(digit_str(n % 10));
        proof {
            assert(s@ =~= spec_dec(n as nat));
        }
        s
    }
}

/// `n` copies of one character.
pub open spec fn spec_repeat(c: char, n: nat) -> Seq<char>
    decreases n,
{
    if n == 0 {
        Seq::empty()
    } else {
        spec_repeat(c, (n - 1) as nat) + seq![c]
    }
}

/// A string of `n` spaces.
pub fn spaces(n: usize) -> (s: String)
    ensures
        s@ == spec_repeat(' ', n as nat),
{
    let mut s = String::new();
    let mut i: usize = 0;
    while i < n
        invariant
            0 <= i <= n,
            s@ == spec_repeat(' ', i as nat),
        decreases n - i,
    {
        s.append(" ");
        i += 1;
        proof {
            reveal_strlit(" ");
            assert(" "@ =~= seq![' ']);
        }
    }
    s
}

/// A string of `n` dashes.
pub fn dashes(n: usize) -> (s: String)
    ensures
        s@ == spec_repeat('-', n as nat),
{
    let mut s = String::new();
    let mut i: usize = 0;
    while i < n
        invariant
            0 <= i <= n,
            s@ == spec_repeat('-', i as nat),
        decreases n - i,
    {
        s.append("-");
        i += 1;
        proof {
            reveal_strlit("-");
            assert("-"@ =~= seq!['-']);
        }
    }
    s
}


/// Sorts strings lexicographically, keeping the multiset of strings.
pub fn sort_strings(names: Vec<String>) -> (r: Vec<String>)
    ensures
        r@.len() == names@.len(),
        forall|i: int, j: int|
            0 <= i < j < r@.len() ==> lex_le(#[trigger] r@[i]@, #[trigger] r@[j]@),
        strings_view(r@).to_multiset() == strings_view(names@).to_multiset(),
{
    broadcast use vstd::seq_lib::group_to_multiset_ensures;
    broadcast use vstd::multiset::group_multiset_axioms;

    let ghost orig = strings_view(names@);
    let mut work = names;
    let mut out: Vec<String> = Vec::new();
    proof {
        assert(strings_view(out@).to_multiset().add(strings_view(work@).to_multiset())
            =~= orig.to_multiset());
    }
    while work.len() > 0
        invariant
            out@.len() + work@.len() == orig.len(),
            forall|i: int, j: int|
                0 <= i < j < out@.len() ==> lex_le(#[trigger] out@[i]@, #[trigger] out@[j]@),
            forall|i: int, j: int|
                0 <= i < out@.len() && 0 <= j < work@.len() ==> lex_le(
                    (#[trigger] out@[i])@,
                    (#[trigger] work@[j])@,
                ),
            strings_view(out@).to_multiset().add(strings_view(work@).to_multiset())
                == orig.to_multiset(),
        decreases work@.len(),
    {
        let mut m: usize = 0;
        let mut k: usize = 1;
        proof {
            lemma_lex_le_total(work@[0]@, work@[0]@);
        }
        while k < work.len()
            invariant
                0 <= m < k <= work@.len(),
                work@.len() > 0,
                forall|j: int| 0 <= j < k ==> lex_le(work@[m as int]@, (#[trigger] work@[j])@),
            decreases work@.len() - k,
        {
            if str_le(work[k].as_str(), work[m].as_str()) {
                proof {
                    assert forall|j: int| 0 <= j < k + 1 implies lex_le(
                        work@[k as int]@,
                        (#[trigger] work@[j])@,
                    ) by {
                        if j == k {
                            lemma_lex_le_total(work@[k as int]@, work@[k as int]@);
                        } else {
                            lemma_lex_le_trans(work@[k as int]@, work@[m as int]@, work@[j]@);
                        }
                    }
                }
                m = k;
            } else {
                proof {
                    lemma_lex_le_total(work@[m as int]@, work@[k as int]@);
                }
            }
            k += 1;
        }
        let ghost wv = strings_view(work@);
        let ghost ov = strings_view(out@);
        let x = work.remove(m);
        out.push(x);
        proof {
            wv.to_multiset_ensures();
            ov.to_multiset_ensures();
            assert(strings_view(work@) =~= wv.remove(m as int));
            assert(strings_view(out@) =~= ov.push(wv[m as int]));
            assert(wv.remove(m as int).to_multiset() =~= wv.to_multiset().remove(wv[m as int]));
            assert(ov.push(wv[m as int]).to_multiset() =~= ov.to_multiset().insert(
                wv[m as int],
            ));
            assert(wv.to_multiset().count(wv[m as int]) > 0) by {
                assert(wv.contains(wv[m as int]));
            }
            assert(ov.to_multiset().insert(wv[m as int]).add(wv.to_multiset().remove(wv[m as int]))
                =~= ov.to_multiset().add(wv.to_multiset()));
            assert forall|i: int, j: int|
                0 <= i < out@.len() && 0 <= j < work@.len() implies lex_le(
                (#[trigger] out@[i])@,
                (#[trigger] work@[j])@,
            ) by {
                assert(work@[j]@ == (if j < m { wv[j] } else { wv[j + 1] }));
                if i < out@.len() - 1 {
                } else {
                    assert(out@[i]@ == wv[m as int]);
                }
            }
        }
    }
    out
}

} // verus!
