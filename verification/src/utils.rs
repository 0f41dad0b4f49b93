//! Character classes, whitespace skipping and identifiers for the source
//! grammar, together with small string helpers shared by the parsers.

use vstd::prelude::*;

verus! {

/// An ASCII decimal digit.
pub open spec fn is_digit(c: char) -> bool {
    '0' <= c && c <= '9'
}

/// An ASCII letter.
pub open spec fn is_alpha(c: char) -> bool {
    ('a' <= c && c <= 'z') || ('A' <= c && c <= 'Z')
}

/// A character that may start an identifier.
pub open spec fn is_ident_start(c: char) -> bool {
    is_alpha(c) || c == '_'
}

/// A character that may continue an identifier.
pub open spec fn is_ident_char(c: char) -> bool {
    is_alpha(c) || is_digit(c) || c == '_'
}

/// Horizontal whitespace: space or tab.
pub open spec fn is_space(c: char) -> bool {
    c == ' ' || c == '\t'
}

/// Any whitespace: space, tab, carriage return or newline.
pub open spec fn is_multispace(c: char) -> bool {
    c == ' ' || c == '\t' || c == '\r' || c == '\n'
}

/// Decides `is_space` at position `j`.
fn space_at(s: &str, j: usize) -> (r: bool)
    requires
        j < s@.len(),
    ensures
        r == is_space(s@[j as int]),
{
    let c = s.get_char(j);
    c == ' ' || c == '\t'
}

/// Decides `is_multispace` at position `j`.
fn multispace_at(s: &str, j: usize) -> (r: bool)
    requires
        j < s@.len(),
    ensures
        r == is_multispace(s@[j as int]),
{
    let c = s.get_char(j);
    c == ' ' || c == '\t' || c == '\r' || c == '\n'
}

/// Decides `is_ident_char` at position `j`.
fn ident_char_at(s: &str, j: usize) -> (r: bool)
    requires
        j < s@.len(),
    ensures
        r == is_ident_char(s@[j as int]),
{
    let c = s.get_char(j);
    ('a' <= c && c <= 'z') || ('A' <= c && c <= 'Z') || ('0' <= c && c <= '9') || c == '_'
}

/// Decides `is_digit` at position `j`.
pub fn digit_at(s: &str, j: usize) -> (r: bool)
    requires
        j < s@.len(),
    ensures
        r == is_digit(s@[j as int]),
{
    let c = s.get_char(j);
    '0' <= c && c <= '9'
}

/// Exact string equality, decided character by character.
pub fn eq_str(a: &str, b: &str) -> (r: bool)
    ensures
        r == (a@ == b@),
{
    let an = a.unicode_len();
    let bn = b.unicode_len();
    if an != bn {
        return false;
    }
    let mut i: usize = 0;
    while i < an
        invariant
            0 <= i <= an,
            an == a@.len(),
            an == b@.len(),
            forall|j: int| 0 <= j < i ==> a@[j] == b@[j],
        decreases an - i,
    {
        if a.get_char(i) != b.get_char(i) {
            return false;
        }
        i = i + 1;
    }
    proof {
        assert(a@ =~= b@);
    }
    true
}

/// Whether the string `t` occurs in `s` starting at position `i`.
pub open spec fn has_prefix_at(s: Seq<char>, i: int, t: Seq<char>) -> bool {
    &&& 0 <= i
    &&& i + t.len() <= s.len()
    &&& s.subrange(i, i + t.len()) == t
}

/// Decides whether `t` occurs in `s` at character position `i`.
pub fn prefix_at(s: &str, i: usize, t: &str) -> (r: bool)
    requires
        i <= s@.len(),
    ensures
        r == has_prefix_at(s@, i as int, t@),
{
    let n = s.unicode_len();
    let tn = t.unicode_len();
    if tn > n - i {
        proof {
            assert(!has_prefix_at(s@, i as int, t@));
        }
        return false;
    }
    let mut j: usize = 0;
    while j < tn
        invariant
            0 <= j <= tn,
            i + tn <= n,
            n == s@.len(),
            tn == t@.len(),
            forall|k: int| 0 <= k < j ==> s@[i + k] == t@[k],
        decreases tn - j,
    {
        if s.get_char(i + j) != t.get_char(j) {
            proof {
                assert(s@.subrange(i as int, i + t@.len())[j as int] != t@[j as int]);
            }
            return false;
        }
        j = j + 1;
    }
    proof {
        assert(s@.subrange(i as int, i + t@.len()) =~= t@);
    }
    true
}

/// The end of the run of characters satisfying horizontal whitespace that
/// starts at `i`.
pub open spec fn space_end(s: Seq<char>, i: int) -> int
    decreases s.len() - i,
{
    if 0 <= i < s.len() && is_space(s[i]) {
        space_end(s, i + 1)
    } else {
        i
    }
}

/// The end of the run of whitespace characters (including line breaks) that
/// starts at `i`.
pub open spec fn multispace_end(s: Seq<char>, i: int) -> int
    decreases s.len() - i,
{
    if 0 <= i < s.len() && is_multispace(s[i]) {
        multispace_end(s, i + 1)
    } else {
        i
    }
}

pub proof fn lemma_space_end_bounds(s: Seq<char>, i: int)
    requires
        0 <= i <= s.len(),
    ensures
        i <= space_end(s, i) <= s.len(),
    decreases s.len() - i,
{
    if i < s.len() && is_space(s[i]) {
        lemma_space_end_bounds(s, i + 1);
    }
}

pub proof fn lemma_multispace_end_bounds(s: Seq<char>, i: int)
    requires
        0 <= i <= s.len(),
    ensures
        i <= multispace_end(s, i) <= s.len(),
    decreases s.len() - i,
{
    if i < s.len() && is_multispace(s[i]) {
        lemma_multispace_end_bounds(s, i + 1);
    }
}

/// Skips horizontal whitespace (spaces and tabs) starting at `i`.
pub fn skip_space(s: &str, i: usize) -> (r: usize)
    requires
        i <= s@.len(),
    ensures
        r == space_end(s@, i as int),
        i <= r <= s@.len(),
{
    let n = s.unicode_len();
    let mut j: usize = i;
    while j < n && space_at(s, j)
        invariant
            i <= j <= n,
            n == s@.len(),
            space_end(s@, i as int) == space_end(s@, j as int),
        decreases n - j,
    {
        j = j + 1;
    }
    proof {
        lemma_space_end_bounds(s@, j as int);
    }
    j
}

/// Skips whitespace including line breaks, starting at `i`.
pub fn skip_multispace(s: &str, i: usize) -> (r: usize)
    requires
        i <= s@.len(),
    ensures
        r == multispace_end(s@, i as int),
        i <= r <= s@.len(),
{
    let n = s.unicode_len();
    let mut j: usize = i;
    while j < n && multispace_at(s, j)
        invariant
            i <= j <= n,
            n == s@.len(),
            multispace_end(s@, i as int) == multispace_end(s@, j as int),
        decreases n - j,
    {
        j = j + 1;
    }
    proof {
        lemma_multispace_end_bounds(s@, j as int);
    }
    j
}

/// The end of the identifier that starts at `i`: the first position at or
/// after `i + 1` whose character no longer belongs to an identifier.
pub open spec fn ident_end(s: Seq<char>, i: int) -> int
    decreases s.len() - i,
{
    if 0 <= i < s.len() && is_ident_char(s[i]) {
        ident_end(s, i + 1)
    } else {
        i
    }
}

pub proof fn lemma_ident_end_bounds(s: Seq<char>, i: int)
    requires
        0 <= i <= s.len(),
    ensures
        i <= ident_end(s, i) <= s.len(),
    decreases s.len() - i,
{
    if i < s.len() && is_ident_char(s[i]) {
        lemma_ident_end_bounds(s, i + 1);
    }
}

/// Decides `is_ident_start` at position `j`.
pub fn ident_start_at(s: &str, j: usize) -> (r: bool)
    requires
        j < s@.len(),
    ensures
        r == is_ident_start(s@[j as int]),
{
    let c = s.get_char(j);
    ('a' <= c && c <= 'z') || ('A' <= c && c <= 'Z') || c == '_'
}

/// Scans to the end of the identifier starting at `i`.
pub fn scan_ident(s: &str, i: usize) -> (r: usize)
    requires
        i <= s@.len(),
    ensures
        r == ident_end(s@, i as int),
        i <= r <= s@.len(),
{
    let n = s.unicode_len();
    let mut j: usize = i;
    while j < n && ident_char_at(s, j)
        invariant
            i <= j <= n,
            n == s@.len(),
            ident_end(s@, i as int) == ident_end(s@, j as int),
        decreases n - j,
    {
        j = j + 1;
    }
    proof {
        lemma_ident_end_bounds(s@, j as int);
    }
    j
}

/// Whether an identifier starts at the beginning of `s`: a letter or an
/// underscore, followed by letters, digits and underscores.
pub open spec fn ident_starts(s: Seq<char>) -> bool {
    s.len() > 0 && is_ident_start(s[0])
}

/// Recognises an identifier at the start of the input: a letter or
/// underscore followed by any run of letters, digits and underscores.
/// Returns the rest of the input and the matched identifier.
pub fn identifier(input: &str) -> (r: Result<(&str, &str), crate::parse_error::ParseError>)
    ensures
        ident_starts(input@) ==> {
            &&& r is Ok
            &&& r->Ok_0.1@ == input@.subrange(0, ident_end(input@, 0))
            &&& r->Ok_0.0@ == input@.subrange(ident_end(input@, 0), input@.len() as int)
        },
        !ident_starts(input@) ==> r == Err::<(&str, &str), crate::parse_error::ParseError>(
            crate::parse_error::ParseError::NoMatch,
        ),
{
    let n = input.unicode_len();
    if n == 0 || !ident_start_at(input, 0) {
        return Err(crate::parse_error::ParseError::NoMatch);
    }
    let j = scan_ident(input, 0);
    let name = input.substring_char(0, j);
    let rest = input.substring_char(j, n);
    Ok((rest, name))
}

} // verus!
