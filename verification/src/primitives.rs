//! Parsers for the literal values of the source grammar: numeric literals
//! with optional underscore separators, and byte-string literals in either
//! the quoted, backslash-escaped form or the bracketed list-of-bytes form.
//!
//! Each parser is specified against a mathematical definition of the
//! grammar over the input's character sequence; on success it returns the
//! unconsumed rest of the input together with the parsed value.

use vstd::prelude::*;
use vstd::string::StrSliceExecFns;
use vstd::string::StringExecFns;
use vstd::utf8::encode_utf8;

use crate::expression::{Expr, Primitive};
use crate::parse_error::ParseError;
use crate::utils::{digit_at, is_digit};

verus! {

/// The end of the run of decimal digits starting at `i`.
pub open spec fn digits_end(s: Seq<char>, i: int) -> int
    decreases s.len() - i,
{
    if 0 <= i < s.len() && is_digit(s[i]) {
        digits_end(s, i + 1)
    } else {
        i
    }
}

proof fn lemma_digits_end_bounds(s: Seq<char>, i: int)
    requires
        0 <= i <= s.len(),
    ensures
        i <= digits_end(s, i) <= s.len(),
    decreases s.len() - i,
{
    if i < s.len() && is_digit(s[i]) {
        lemma_digits_end_bounds(s, i + 1);
    }
}

/// The end of the numeric token starting at `i`: a run of digits, extended
/// over each underscore that is immediately followed by another digit. An
/// underscore not followed by a digit is left unconsumed.
pub open spec fn num_end(s: Seq<char>, i: int) -> int
    decreases s.len() - i,
    via num_end_decreases
{
    if digits_end(s, i) < s.len() && s[digits_end(s, i)] == '_' && digits_end(s, i) + 1 < s.len()
        && is_digit(s[digits_end(s, i) + 1]) {
        num_end(s, digits_end(s, i) + 1)
    } else {
        digits_end(s, i)
    }
}

#[via_fn]
proof fn num_end_decreases(s: Seq<char>, i: int) {
    if 0 <= i <= s.len() {
        lemma_digits_end_bounds(s, i);
    }
}

/// The numeric value of a decimal digit, and zero for any other character.
pub open spec fn digit_val(c: char) -> nat {
    if c == '1' {
        1
    } else if c == '2' {
        2
    } else if c == '3' {
        3
    } else if c == '4' {
        4
    } else if c == '5' {
        5
    } else if c == '6' {
        6
    } else if c == '7' {
        7
    } else if c == '8' {
        8
    } else if c == '9' {
        9
    } else {
        0
    }
}

/// The value of the digits of `s` between `i` and `end`, read left to right
/// in base ten onto `acc`; non-digit characters (the underscore separators)
/// are skipped.
pub open spec fn num_value(s: Seq<char>, i: int, end: int, acc: nat) -> nat
    decreases end - i,
{
    if i < end {
        if is_digit(s[i]) {
            num_value(s, i + 1, end, acc * 10 + digit_val(s[i]))
        } else {
            num_value(s, i + 1, end, acc)
        }
    } else {
        acc
    }
}

proof fn lemma_num_value_lower(s: Seq<char>, i: int, end: int, acc: nat)
    ensures
        num_value(s, i, end, acc) >= acc,
    decreases end - i,
{
    if i < end {
        if is_digit(s[i]) {
            lemma_num_value_lower(s, i + 1, end, acc * 10 + digit_val(s[i]));
        } else {
            lemma_num_value_lower(s, i + 1, end, acc);
        }
    }
}

/// Whether a numeric token starts at position `i`.
pub open spec fn num_starts(s: Seq<char>, i: int) -> bool {
    0 <= i < s.len() && is_digit(s[i])
}

/// Decides the value of a digit character.
fn digit_val_exec(c: char) -> (r: u64)
    ensures
        r == digit_val(c),
{
    if c == '1' {
        1
    } else if c == '2' {
        2
    } else if c == '3' {
        3
    } else if c == '4' {
        4
    } else if c == '5' {
        5
    } else if c == '6' {
        6
    } else if c == '7' {
        7
    } else if c == '8' {
        8
    } else if c == '9' {
        9
    } else {
        0
    }
}

/// Scans to the end of the digit run starting at `i`.
fn scan_digits(input: &str, i: usize) -> (r: usize)
    requires
        i <= input@.len(),
    ensures
        r == digits_end(input@, i as int),
        i <= r <= input@.len(),
{
    let n = input.unicode_len();
    let mut j: usize = i;
    while j < n && digit_at(input, j)
        invariant
            i <= j <= n,
            n == input@.len(),
            digits_end(input@, i as int) == digits_end(input@, j as int),
        decreases n - j,
    {
        j = j + 1;
    }
    proof {
        lemma_digits_end_bounds(input@, j as int);
    }
    j
}

/// Scans to the end of the numeric token starting at `i`.
fn scan_num(input: &str, i: usize) -> (r: usize)
    requires
        i <= input@.len(),
    ensures
        r == num_end(input@, i as int),
        i <= r <= input@.len(),
    decreases input@.len() - i,
{
    let n = input.unicode_len();
    let j = scan_digits(input, i);
    if j < n && input.get_char(j) == '_' && j + 1 < n && digit_at(input, j + 1) {
        scan_num(input, j + 1)
    } else {
        j
    }
}

/// Computes the base-ten value of the digits between `i` and `end`,
/// skipping underscores; reports whether the value exceeds `u64::MAX`.
fn token_value(input: &str, i: usize, end: usize) -> (r: Option<u64>)
    requires
        i <= end <= input@.len(),
    ensures
        match r {
            Some(v) => v == num_value(input@, i as int, end as int, 0),
            None => num_value(input@, i as int, end as int, 0) > u64::MAX,
        },
{
    let mut acc: u64 = 0;
    let mut j: usize = i;
    while j < end
        invariant
            i <= j <= end <= input@.len(),
            num_value(input@, i as int, end as int, 0) == num_value(
                input@,
                j as int,
                end as int,
                acc as nat,
            ),
        decreases end - j,
    {
        if digit_at(input, j) {
            let d = digit_val_exec(input.get_char(j));
            if acc > u64::MAX / 10 {
                proof {
                    lemma_num_value_lower(
                        input@,
                        j + 1,
                        end as int,
                        acc as nat * 10 + digit_val(input@[j as int]),
                    );
                }
                return None;
            }
            let shifted = acc * 10;
            if d > u64::MAX - shifted {
                proof {
                    lemma_num_value_lower(
                        input@,
                        j + 1,
                        end as int,
                        acc as nat * 10 + digit_val(input@[j as int]),
                    );
                }
                return None;
            }
            acc = shifted + d;
        }
        j = j + 1;
    }
    Some(acc)
}

/// Parses a `UInt64` literal at the start of the input: one or more digit
/// groups separated by single underscores, with the underscores ignored for
/// the value. Fails with `InvalidNumValue` if the value does not fit an
/// unsigned 64-bit integer, and with `NoMatch` if the input does not start
/// with a digit.
pub fn uint64(input: &str) -> (r: Result<(&str, Expr), ParseError>)
    ensures
        !num_starts(input@, 0) ==> r == Err::<(&str, Expr), ParseError>(ParseError::NoMatch),
        num_starts(input@, 0) && num_value(input@, 0, num_end(input@, 0), 0) > u64::MAX ==> r
            == Err::<(&str, Expr), ParseError>(ParseError::InvalidNumValue),
        num_starts(input@, 0) && num_value(input@, 0, num_end(input@, 0), 0) <= u64::MAX ==> {
            &&& r is Ok
            &&& r->Ok_0.1 == Expr::Primitive(
                Primitive::UInt64(num_value(input@, 0, num_end(input@, 0), 0) as u64),
            )
            &&& r->Ok_0.0@ == input@.subrange(num_end(input@, 0), input@.len() as int)
        },
{
    let n = input.unicode_len();
    if n == 0 || !digit_at(input, 0) {
        return Err(ParseError::NoMatch);
    }
    let end = scan_num(input, 0);
    match token_value(input, 0, end) {
        Some(v) => {
            let rest = input.substring_char(end, n);
            Ok((rest, Expr::Primitive(Primitive::UInt64(v))))
        }
        None => Err(ParseError::InvalidNumValue),
    }
}

/// The end of a byte token starting at `i`: digits and underscores,
/// trailing underscores included.
pub open spec fn byte_token_end(s: Seq<char>, i: int) -> int
    decreases s.len() - i,
{
    if 0 <= i < s.len() && (is_digit(s[i]) || s[i] == '_') {
        byte_token_end(s, i + 1)
    } else {
        i
    }
}

proof fn lemma_byte_token_end_bounds(s: Seq<char>, i: int)
    requires
        0 <= i <= s.len(),
    ensures
        i <= byte_token_end(s, i) <= s.len(),
        num_starts(s, i) ==> i + 1 <= byte_token_end(s, i),
    decreases s.len() - i,
{
    if i < s.len() && (is_digit(s[i]) || s[i] == '_') {
        lemma_byte_token_end_bounds(s, i + 1);
    }
}

/// The outcome of reading one byte value at position `i`: the end of its
/// token and its value. The token must start with a digit; its value must
/// fit an unsigned 64-bit integer and then lie in `0..=255`.
pub open spec fn spec_byte_at(s: Seq<char>, i: int) -> Result<(int, u8), ParseError> {
    if !num_starts(s, i) {
        Err(ParseError::NoMatch)
    } else {
        let end = byte_token_end(s, i);
        let v = num_value(s, i, end, 0);
        if v > u64::MAX {
            Err(ParseError::InvalidNumValue)
        } else if v > 255 {
            Err(ParseError::InvalidByteValue)
        } else {
            Ok((end, v as u8))
        }
    }
}

/// Scans to the end of the byte token starting at `i`.
fn scan_byte_token(input: &str, i: usize) -> (r: usize)
    requires
        i <= input@.len(),
    ensures
        r == byte_token_end(input@, i as int),
        i <= r <= input@.len(),
{
    let n = input.unicode_len();
    let mut j: usize = i;
    while j < n && byte_token_char_at(input, j)
        invariant
            i <= j <= n,
            n == input@.len(),
            byte_token_end(input@, i as int) == byte_token_end(input@, j as int),
        decreases n - j,
    {
        j = j + 1;
    }
    proof {
        lemma_byte_token_end_bounds(input@, j as int);
    }
    j
}

/// Decides whether the character at `j` belongs to a byte token.
fn byte_token_char_at(s: &str, j: usize) -> (r: bool)
    requires
        j < s@.len(),
    ensures
        r == (is_digit(s@[j as int]) || s@[j as int] == '_'),
{
    let c = s.get_char(j);
    ('0' <= c && c <= '9') || c == '_'
}

/// Reads one byte value at position `i`.
fn byte_at(input: &str, i: usize) -> (r: Result<(usize, u8), ParseError>)
    requires
        i <= input@.len(),
    ensures
        match spec_byte_at(input@, i as int) {
            Ok(p) => r is Ok && r->Ok_0.0 == p.0 && r->Ok_0.1 == p.1 && i < r->Ok_0.0
                <= input@.len(),
            Err(e) => r == Err::<(usize, u8), ParseError>(e),
        },
{
    let n = input.unicode_len();
    if i >= n || !digit_at(input, i) {
        return Err(ParseError::NoMatch);
    }
    proof {
        lemma_byte_token_end_bounds(input@, i as int);
    }
    let end = scan_byte_token(input, i);
    match token_value(input, i, end) {
        Some(v) => {
            if v > 255 {
                Err(ParseError::InvalidByteValue)
            } else {
                Ok((end, v as u8))
            }
        }
        None => Err(ParseError::InvalidNumValue),
    }
}

/// Parses one byte value at the start of the input: digits with optional
/// underscores, trailing underscores consumed. The value must fit an
/// unsigned 64-bit integer (`InvalidNumValue` otherwise) and lie in
/// `0..=255` (`InvalidByteValue` otherwise).
pub fn byte_as_number(input: &str) -> (r: Result<(&str, u8), ParseError>)
    ensures
        match spec_byte_at(input@, 0) {
            Ok(p) => r is Ok && r->Ok_0.1 == p.1 && r->Ok_0.0@ == input@.subrange(
                p.0,
                input@.len() as int,
            ),
            Err(e) => r == Err::<(&str, u8), ParseError>(e),
        },
{
    let n = input.unicode_len();
    match byte_at(input, 0) {
        Ok((end, v)) => {
            let rest = input.substring_char(end, n);
            Ok((rest, v))
        }
        Err(e) => Err(e),
    }
}

/// The bytes of a bracketed list from position `i` on, which must point at
/// the first byte token; `acc` holds the bytes already read. The list ends
/// at the first byte token not followed by a comma.
pub open spec fn spec_array_items(s: Seq<char>, i: int, acc: Seq<u8>) -> Result<
    (int, Seq<u8>),
    ParseError,
>
    decreases s.len() - i,
    via spec_array_items_decreases
{
    match spec_byte_at(s, i) {
        Err(e) => Err(e),
        Ok(p) => if p.0 < s.len() && s[p.0] == ',' {
            spec_array_items(s, p.0 + 1, acc.push(p.1))
        } else {
            Ok((p.0, acc.push(p.1)))
        },
    }
}

#[via_fn]
proof fn spec_array_items_decreases(s: Seq<char>, i: int, acc: Seq<u8>) {
    if num_starts(s, i) {
        lemma_byte_token_end_bounds(s, i);
    }
}

/// The outcome of parsing a bracketed byte-string literal at position `i`:
/// an opening bracket, a comma-separated list of byte values with no
/// surrounding whitespace, and a closing bracket.
pub open spec fn spec_array(s: Seq<char>, i: int) -> Result<(int, Seq<u8>), ParseError> {
    if !(0 <= i < s.len() && s[i] == '[') {
        Err(ParseError::NoMatch)
    } else if i + 1 < s.len() && s[i + 1] == ']' {
        Ok((i + 2, Seq::empty()))
    } else if num_starts(s, i + 1) {
        match spec_array_items(s, i + 1, Seq::empty()) {
            Ok(p) => if p.0 < s.len() && s[p.0] == ']' {
                Ok((p.0 + 1, p.1))
            } else {
                Err(ParseError::NoMatch)
            },
            Err(e) => Err(e),
        }
    } else {
        Err(ParseError::NoMatch)
    }
}

/// Reads the items of a bracketed list from position `i` on.
fn array_items(input: &str, i: usize, acc: Vec<u8>) -> (r: Result<(usize, Vec<u8>), ParseError>)
    requires
        i <= input@.len(),
    ensures
        match spec_array_items(input@, i as int, acc@) {
            Ok(p) => r is Ok && r->Ok_0.0 == p.0 && r->Ok_0.1@ == p.1 && p.0 <= input@.len(),
            Err(e) => r == Err::<(usize, Vec<u8>), ParseError>(e),
        },
    decreases input@.len() - i,
{
    let n = input.unicode_len();
    match byte_at(input, i) {
        Err(e) => Err(e),
        Ok((end, v)) => {
            let mut acc2 = acc;
            acc2.push(v);
            if end < n && input.get_char(end) == ',' {
                array_items(input, end + 1, acc2)
            } else {
                Ok((end, acc2))
            }
        }
    }
}

/// Parses a bracketed byte-string literal at the start of the input: `[`,
/// a comma-separated list of byte values, `]`. Fails with `NoMatch` on a
/// malformed shape and propagates an invalid byte value's error.
pub fn array_byteslice(input: &str) -> (r: Result<(&str, Expr), ParseError>)
    ensures
        match spec_array(input@, 0) {
            Ok(p) => {
                &&& r is Ok
                &&& r->Ok_0.0@ == input@.subrange(p.0, input@.len() as int)
                &&& r->Ok_0.1 matches Expr::Primitive(Primitive::Byteslice(v)) && v@ == p.1
            },
            Err(e) => r == Err::<(&str, Expr), ParseError>(e),
        },
{
    let n = input.unicode_len();
    if n == 0 || input.get_char(0) != '[' {
        return Err(ParseError::NoMatch);
    }
    if 1 < n && input.get_char(1) == ']' {
        let rest = input.substring_char(2, n);
        let bytes: Vec<u8> = Vec::new();
        return Ok((rest, Expr::Primitive(Primitive::Byteslice(bytes))));
    }
    if 1 >= n || !digit_at(input, 1) {
        return Err(ParseError::NoMatch);
    }
    let items: Vec<u8> = Vec::new();
    match array_items(input, 1, items) {
        Ok((end, bytes)) => {
            if end < n && input.get_char(end) == ']' {
                let rest = input.substring_char(end + 1, n);
                Ok((rest, Expr::Primitive(Primitive::Byteslice(bytes))))
            } else {
                Err(ParseError::NoMatch)
            }
        }
        Err(e) => Err(e),
    }
}

/// The quoted-literal content starting at `i`: the position of the first
/// unconsumed character, and the unescaped content. Reading stops at a
/// plain double quote; a backslash followed by a double quote contributes
/// a double quote to the content; a backslash followed by anything else
/// stops before the backslash.
pub open spec fn quoted_inner_at_spec(s: Seq<char>, i: int) -> (int, Seq<char>)
    decreases s.len() - i,
{
    if !(0 <= i < s.len()) {
        (i, Seq::empty())
    } else if s[i] == '"' {
        (i, Seq::empty())
    } else if s[i] == '\\' {
        if i + 1 < s.len() && s[i + 1] == '"' {
            let rest = quoted_inner_at_spec(s, i + 2);
            (rest.0, seq!['"'] + rest.1)
        } else {
            (i, Seq::empty())
        }
    } else {
        let rest = quoted_inner_at_spec(s, i + 1);
        (rest.0, seq![s[i]] + rest.1)
    }
}

/// Reads quoted-literal content from position `i` on.
fn quoted_inner_exec(input: &str, i: usize) -> (r: (usize, String))
    requires
        i <= input@.len(),
    ensures
        r.0 == quoted_inner_at_spec(input@, i as int).0,
        r.1@ == quoted_inner_at_spec(input@, i as int).1,
        i <= r.0 <= input@.len(),
    decreases input@.len() - i,
{
    let n = input.unicode_len();
    if i >= n {
        return (i, String::new());
    }
    let c = input.get_char(i);
    if c == '"' {
        (i, String::new())
    } else if c == '\\' {
        if i + 1 < n && input.get_char(i + 1) == '"' {
            let rest = quoted_inner_exec(input, i + 2);
            let mut s = String::from_str("\"");
            proof {
                reveal_strlit("\"");
                assert(s@ =~= seq!['"']);
            }
            s.append(rest.1.as_str());
            (rest.0, s)
        } else {
            (i, String::new())
        }
    } else {
        let rest = quoted_inner_exec(input, i + 1);
        let piece = input.substring_char(i, i + 1);
        let mut s = String::from_str(piece);
        proof {
            assert(s@ =~= seq![input@[i as int]]);
        }
        s.append(rest.1.as_str());
        (rest.0, s)
    }
}

/// Reads quoted-literal content at the start of the input, possibly empty;
/// never fails.
pub fn quoted_inner(input: &str) -> (r: Result<(&str, String), ParseError>)
    ensures
        r is Ok,
        r->Ok_0.1@ == quoted_inner_at_spec(input@, 0).1,
        r->Ok_0.0@ == input@.subrange(quoted_inner_at_spec(input@, 0).0, input@.len() as int),
{
    let n = input.unicode_len();
    let (end, content) = quoted_inner_exec(input, 0);
    let rest = input.substring_char(end, n);
    Ok((rest, content))
}

/// Reads quoted-literal content at the start of the input; fails with
/// `NoMatch` when it can consume nothing at all.
pub fn quoted_inner_escape(input: &str) -> (r: Result<(&str, String), ParseError>)
    ensures
        quoted_inner_at_spec(input@, 0).0 == 0 ==> r == Err::<(&str, String), ParseError>(
            ParseError::NoMatch,
        ),
        quoted_inner_at_spec(input@, 0).0 != 0 ==> {
            &&& r is Ok
            &&& r->Ok_0.1@ == quoted_inner_at_spec(input@, 0).1
            &&& r->Ok_0.0@ == input@.subrange(
                quoted_inner_at_spec(input@, 0).0,
                input@.len() as int,
            )
        },
{
    let n = input.unicode_len();
    let (end, content) = quoted_inner_exec(input, 0);
    if end == 0 {
        Err(ParseError::NoMatch)
    } else {
        let rest = input.substring_char(end, n);
        Ok((rest, content))
    }
}

/// The outcome of parsing a quoted byte-string literal at position `i`: a
/// double quote, escaped content, and a closing double quote; the value is
/// the content's character sequence.
pub open spec fn spec_quoted(s: Seq<char>, i: int) -> Result<(int, Seq<char>), ParseError> {
    if !(0 <= i < s.len() && s[i] == '"') {
        Err(ParseError::NoMatch)
    } else {
        let inner = quoted_inner_at_spec(s, i + 1);
        if inner.0 < s.len() && s[inner.0] == '"' {
            Ok((inner.0 + 1, inner.1))
        } else {
            Err(ParseError::NoMatch)
        }
    }
}

/// Parses a quoted byte-string literal at the start of the input. The
/// value is the byte string whose bytes are the UTF-8 encoding of the
/// unescaped content.
pub fn quoted_byteslice(input: &str) -> (r: Result<(&str, Expr), ParseError>)
    ensures
        match spec_quoted(input@, 0) {
            Ok(p) => {
                &&& r is Ok
                &&& r->Ok_0.0@ == input@.subrange(p.0, input@.len() as int)
                &&& r->Ok_0.1 matches Expr::Primitive(Primitive::Byteslice(v)) && v@
                    == encode_utf8(p.1)
            },
            Err(e) => r == Err::<(&str, Expr), ParseError>(e),
        },
{
    let n = input.unicode_len();
    if n == 0 || input.get_char(0) != '"' {
        return Err(ParseError::NoMatch);
    }
    let (end, content) = quoted_inner_exec(input, 1);
    if end < n && input.get_char(end) == '"' {
        let rest = input.substring_char(end + 1, n);
        Ok((rest, Expr::Primitive(Primitive::from_text(content.as_str()))))
    } else {
        Err(ParseError::NoMatch)
    }
}

/// The outcome of parsing a byte-string literal in either form at position
/// `i`, with its decoded bytes: the bracketed form when the input opens
/// with `[`, the quoted form when it opens with `"`. Both forms agree on
/// the decoded bytes of the values they can both denote.
pub open spec fn spec_byteslice(s: Seq<char>, i: int) -> Result<(int, Seq<u8>), ParseError> {
    if 0 <= i < s.len() && s[i] == '[' {
        spec_array(s, i)
    } else {
        match spec_quoted(s, i) {
            Ok(p) => Ok((p.0, encode_utf8(p.1))),
            Err(e) => Err(e),
        }
    }
}

/// Parses a byte-string literal at the start of the input, in either the
/// bracketed or the quoted form.
pub fn byteslice(input: &str) -> (r: Result<(&str, Expr), ParseError>)
    ensures
        match spec_byteslice(input@, 0) {
            Ok(p) => {
                &&& r is Ok
                &&& r->Ok_0.0@ == input@.subrange(p.0, input@.len() as int)
                &&& r->Ok_0.1 matches Expr::Primitive(Primitive::Byteslice(v)) && v@ == p.1
            },
            Err(e) => r == Err::<(&str, Expr), ParseError>(e),
        },
{
    let n = input.unicode_len();
    if n > 0 && input.get_char(0) == '[' {
        array_byteslice(input)
    } else {
        quoted_byteslice(input)
    }
}

/// Round trip of byte-string literals: whichever form a literal is written
/// in, the decoded value `v` is pinned by [`spec_byteslice`]; the resulting
/// primitive resolves to the `Byteslice` type under every context, and its
/// compiled output is exactly the push of `v`'s hexadecimal encoding —
/// the emitted code encodes exactly `v`.
pub proof fn lemma_byteslice_literal_roundtrip(
    s: Seq<char>,
    v: Vec<u8>,
    m: Map<Seq<char>, crate::typing::TypeEnum>,
    binds: Map<Seq<char>, Seq<char>>,
    labels: int,
)
    requires
        spec_byteslice(s, 0) matches Ok(p) && v@ == p.1,
    ensures
        crate::resolve::spec_resolve(Expr::Primitive(Primitive::Byteslice(v)), m) == Ok::<
            crate::typing::TypeEnum,
            crate::typing::TypeError,
        >(crate::typing::TypeEnum::Simple(crate::typing::TypePrimitive::Byteslice)),
        crate::compile::spec_compile(Expr::Primitive(Primitive::Byteslice(v)), binds, None, labels)
            == Ok::<(Seq<char>, int), crate::compile::CompilationError>(
            ("byte 0x"@ + crate::compile::spec_hex(v@), labels),
        ),
{
}

} // verus!
