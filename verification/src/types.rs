//! Parsers for type names and schema declarations: a field is
//! `name: Type`, a field list is comma-separated with an optional trailing
//! comma and free use of whitespace and line breaks, a schema block wraps a
//! field list in braces, and a schema declaration prefixes the block with
//! `schema local` or `schema global`.

use vstd::prelude::*;
use vstd::string::StrSliceExecFns;
use vstd::string::StringExecFns;

use crate::parse_error::ParseError;
use crate::struct_def::{FieldMap, StructDef};
use crate::typing::TypePrimitive;
use crate::utils::{
    has_prefix_at, ident_end, is_ident_start, multispace_end, space_end,
};

verus! {

/// The outcome of parsing a primitive type name at position `i`: exactly
/// one of `Void`, `UInt64`, `Byteslice`, `Halt`, case-sensitively, with no
/// leading whitespace and no prefix matching.
pub open spec fn spec_type_primitive(s: Seq<char>, i: int) -> Result<
    (int, TypePrimitive),
    ParseError,
> {
    if has_prefix_at(s, i, "Void"@) {
        Ok((i + "Void"@.len(), TypePrimitive::Void))
    } else if has_prefix_at(s, i, "UInt64"@) {
        Ok((i + "UInt64"@.len(), TypePrimitive::UInt64))
    } else if has_prefix_at(s, i, "Byteslice"@) {
        Ok((i + "Byteslice"@.len(), TypePrimitive::Byteslice))
    } else if has_prefix_at(s, i, "Halt"@) {
        Ok((i + "Halt"@.len(), TypePrimitive::Halt))
    } else {
        Err(ParseError::InvalidTypeName)
    }
}

/// Reads a primitive type name at position `i`.
fn type_primitive_at(input: &str, i: usize) -> (r: Result<(usize, TypePrimitive), ParseError>)
    requires
        i <= input@.len(),
    ensures
        match spec_type_primitive(input@, i as int) {
            Ok(p) => r is Ok && r->Ok_0.0 == p.0 && r->Ok_0.1 == p.1 && i < r->Ok_0.0
                <= input@.len(),
            Err(e) => r == Err::<(usize, TypePrimitive), ParseError>(e),
        },
{
    let n = input.unicode_len();
    proof {
        reveal_strlit("Void");
        reveal_strlit("UInt64");
        reveal_strlit("Byteslice");
        reveal_strlit("Halt");
        assert(n == input@.len());
    }
    if crate::utils::prefix_at(input, i, "Void") {
        Ok((i + 4, TypePrimitive::Void))
    } else if crate::utils::prefix_at(input, i, "UInt64") {
        Ok((i + 6, TypePrimitive::UInt64))
    } else if crate::utils::prefix_at(input, i, "Byteslice") {
        Ok((i + 9, TypePrimitive::Byteslice))
    } else if crate::utils::prefix_at(input, i, "Halt") {
        Ok((i + 4, TypePrimitive::Halt))
    } else {
        Err(ParseError::InvalidTypeName)
    }
}

/// Parses a primitive type name at the start of the input.
pub fn type_primitive(input: &str) -> (r: Result<(&str, TypePrimitive), ParseError>)
    ensures
        match spec_type_primitive(input@, 0) {
            Ok(p) => r is Ok && r->Ok_0.1 == p.1 && r->Ok_0.0@ == input@.subrange(
                p.0,
                input@.len() as int,
            ),
            Err(e) => r == Err::<(&str, TypePrimitive), ParseError>(e),
        },
{
    let n = input.unicode_len();
    match type_primitive_at(input, 0) {
        Ok((end, t)) => Ok((input.substring_char(end, n), t)),
        Err(e) => Err(e),
    }
}

/// The outcome of parsing one schema field at position `i`: an identifier,
/// a colon with optional horizontal whitespace around it, and a primitive
/// type name; the value is the field's name and type.
pub open spec fn spec_struct_def_field(s: Seq<char>, i: int) -> Result<
    (int, (Seq<char>, TypePrimitive)),
    ParseError,
> {
    if !(0 <= i < s.len() && is_ident_start(s[i])) {
        Err(ParseError::NoMatch)
    } else {
        let ie = ident_end(s, i);
        let c = space_end(s, ie);
        if !(c < s.len() && s[c] == ':') {
            Err(ParseError::NoMatch)
        } else {
            let t = space_end(s, c + 1);
            match spec_type_primitive(s, t) {
                Ok(p) => Ok((p.0, (s.subrange(i, ie), p.1))),
                Err(e) => Err(e),
            }
        }
    }
}

/// A successfully parsed field ends strictly after where it began, within
/// the input.
proof fn lemma_field_bounds(s: Seq<char>, i: int)
    requires
        0 <= i <= s.len(),
    ensures
        spec_struct_def_field(s, i) matches Ok(p) ==> i < p.0 <= s.len(),
{
    reveal_strlit("Void");
    reveal_strlit("UInt64");
    reveal_strlit("Byteslice");
    reveal_strlit("Halt");
    if 0 <= i < s.len() && is_ident_start(s[i]) {
        crate::utils::lemma_ident_end_bounds(s, i);
        let ie = ident_end(s, i);
        crate::utils::lemma_space_end_bounds(s, ie);
        let c = space_end(s, ie);
        if c < s.len() && s[c] == ':' {
            crate::utils::lemma_space_end_bounds(s, c + 1);
        }
    }
}

/// Reads one schema field at position `i`.
fn struct_def_field_at(input: &str, i: usize) -> (r: Result<
    (usize, (String, TypePrimitive)),
    ParseError,
>)
    requires
        i <= input@.len(),
    ensures
        match spec_struct_def_field(input@, i as int) {
            Ok(p) => {
                &&& r is Ok
                &&& r->Ok_0.0 == p.0
                &&& i < r->Ok_0.0 <= input@.len()
                &&& r->Ok_0.1.0@ == p.1.0
                &&& r->Ok_0.1.1 == p.1.1
            },
            Err(e) => r == Err::<(usize, (String, TypePrimitive)), ParseError>(e),
        },
{
    let n = input.unicode_len();
    if i >= n || !crate::utils::ident_start_at(input, i) {
        return Err(ParseError::NoMatch);
    }
    let ie = crate::utils::scan_ident(input, i);
    let name = String::from_str(input.substring_char(i, ie));
    let c = crate::utils::skip_space(input, ie);
    if c >= n || input.get_char(c) != ':' {
        return Err(ParseError::NoMatch);
    }
    let t = crate::utils::skip_space(input, c + 1);
    match type_primitive_at(input, t) {
        Ok((end, tp)) => Ok((end, (name, tp))),
        Err(e) => Err(e),
    }
}

/// Parses one schema field at the start of the input.
pub fn struct_def_field(input: &str) -> (r: Result<(&str, (String, TypePrimitive)), ParseError>)
    ensures
        match spec_struct_def_field(input@, 0) {
            Ok(p) => {
                &&& r is Ok
                &&& r->Ok_0.0@ == input@.subrange(p.0, input@.len() as int)
                &&& r->Ok_0.1.0@ == p.1.0
                &&& r->Ok_0.1.1 == p.1.1
            },
            Err(e) => r == Err::<(&str, (String, TypePrimitive)), ParseError>(e),
        },
{
    let n = input.unicode_len();
    match struct_def_field_at(input, 0) {
        Ok((end, pair)) => Ok((input.substring_char(end, n), pair)),
        Err(e) => Err(e),
    }
}

/// The fields read from position `i` on, folded into `acc` with a later
/// binding of a name replacing an earlier one. Each field may be wrapped
/// in whitespace; a comma continues the list when another field follows
/// it, and is otherwise consumed as a trailing comma.
pub open spec fn spec_fields_items(
    s: Seq<char>,
    i: int,
    acc: Map<Seq<char>, TypePrimitive>,
) -> Result<(int, Map<Seq<char>, TypePrimitive>), ParseError>
    decreases s.len() - i,
    via spec_fields_items_decreases
{
    match spec_struct_def_field(s, multispace_end(s, i)) {
        Err(e) => Err(e),
        Ok(p) => {
            let k = multispace_end(s, p.0);
            let acc2 = acc.insert(p.1.0, p.1.1);
            if k < s.len() && s[k] == ',' {
                if spec_struct_def_field(s, multispace_end(s, k + 1)) is Ok {
                    spec_fields_items(s, k + 1, acc2)
                } else {
                    Ok((k + 1, acc2))
                }
            } else {
                Ok((k, acc2))
            }
        },
    }
}

#[via_fn]
proof fn spec_fields_items_decreases(s: Seq<char>, i: int, acc: Map<Seq<char>, TypePrimitive>) {
    if 0 <= i <= s.len() {
        crate::utils::lemma_multispace_end_bounds(s, i);
        let j = multispace_end(s, i);
        lemma_field_bounds(s, j);
        match spec_struct_def_field(s, j) {
            Ok(p) => {
                crate::utils::lemma_multispace_end_bounds(s, p.0);
            }
            Err(_) => {}
        }
    } else if i < 0 {
        assert(multispace_end(s, i) == i);
    } else {
        assert(multispace_end(s, i) == i);
    }
}

/// Reads schema fields from position `i` on into `acc`.
fn fields_items(input: &str, i: usize, acc: FieldMap) -> (r: Result<(usize, FieldMap), ParseError>)
    requires
        i <= input@.len(),
        acc.wf(),
    ensures
        match spec_fields_items(input@, i as int, acc@) {
            Ok(p) => {
                &&& r is Ok
                &&& r->Ok_0.0 == p.0
                &&& r->Ok_0.0 <= input@.len()
                &&& r->Ok_0.1@ == p.1
                &&& r->Ok_0.1.wf()
            },
            Err(e) => r == Err::<(usize, FieldMap), ParseError>(e),
        },
    decreases input@.len() - i,
{
    let n = input.unicode_len();
    let j = crate::utils::skip_multispace(input, i);
    match struct_def_field_at(input, j) {
        Err(e) => Err(e),
        Ok((fe, (name, tp))) => {
            let k = crate::utils::skip_multispace(input, fe);
            let mut acc2 = acc;
            acc2.insert(name, tp);
            if k < n && input.get_char(k) == ',' {
                let j2 = crate::utils::skip_multispace(input, k + 1);
                match struct_def_field_at(input, j2) {
                    Ok(_) => fields_items(input, k + 1, acc2),
                    Err(_) => Ok((k + 1, acc2)),
                }
            } else {
                Ok((k, acc2))
            }
        }
    }
}

/// Parses a comma-separated, whitespace-tolerant field list at the start
/// of the input, with an optional trailing comma; at least one field is
/// required. When a name is declared twice, the later declaration wins.
pub fn struct_def_fields(input: &str) -> (r: Result<(&str, StructDef), ParseError>)
    ensures
        match spec_fields_items(input@, 0, Map::empty()) {
            Ok(p) => {
                &&& r is Ok
                &&& r->Ok_0.0@ == input@.subrange(p.0, input@.len() as int)
                &&& r->Ok_0.1.fields@ == p.1
                &&& r->Ok_0.1.fields.wf()
            },
            Err(e) => r == Err::<(&str, StructDef), ParseError>(e),
        },
{
    let n = input.unicode_len();
    match fields_items(input, 0, FieldMap::new()) {
        Ok((end, fields)) => Ok(
            (input.substring_char(end, n), StructDef { fields }),
        ),
        Err(e) => Err(e),
    }
}

/// The outcome of parsing a schema block at position `i`: a field list in
/// braces, with whitespace allowed around both braces.
pub open spec fn spec_struct_def(s: Seq<char>, i: int) -> Result<
    (int, Map<Seq<char>, TypePrimitive>),
    ParseError,
> {
    let a = multispace_end(s, i);
    if !(a < s.len() && s[a] == '{') {
        Err(ParseError::NoMatch)
    } else {
        match spec_fields_items(s, a + 1, Map::empty()) {
            Ok(p) => {
                let c = multispace_end(s, p.0);
                if c < s.len() && s[c] == '}' {
                    Ok((multispace_end(s, c + 1), p.1))
                } else {
                    Err(ParseError::NoMatch)
                }
            },
            Err(e) => Err(e),
        }
    }
}

/// Reads a schema block at position `i`.
fn struct_def_at(input: &str, i: usize) -> (r: Result<(usize, FieldMap), ParseError>)
    requires
        i <= input@.len(),
    ensures
        match spec_struct_def(input@, i as int) {
            Ok(p) => {
                &&& r is Ok
                &&& r->Ok_0.0 == p.0
                &&& r->Ok_0.0 <= input@.len()
                &&& r->Ok_0.1@ == p.1
                &&& r->Ok_0.1.wf()
            },
            Err(e) => r == Err::<(usize, FieldMap), ParseError>(e),
        },
{
    let n = input.unicode_len();
    let a = crate::utils::skip_multispace(input, i);
    if a >= n || input.get_char(a) != '{' {
        return Err(ParseError::NoMatch);
    }
    match fields_items(input, a + 1, FieldMap::new()) {
        Ok((fe, fields)) => {
            let c = crate::utils::skip_multispace(input, fe);
            if c < n && input.get_char(c) == '}' {
                let d = crate::utils::skip_multispace(input, c + 1);
                Ok((d, fields))
            } else {
                Err(ParseError::NoMatch)
            }
        }
        Err(e) => Err(e),
    }
}

/// Parses a schema block at the start of the input: `{`, a field list,
/// `}`.
pub fn struct_def(input: &str) -> (r: Result<(&str, StructDef), ParseError>)
    ensures
        match spec_struct_def(input@, 0) {
            Ok(p) => {
                &&& r is Ok
                &&& r->Ok_0.0@ == input@.subrange(p.0, input@.len() as int)
                &&& r->Ok_0.1.fields@ == p.1
                &&& r->Ok_0.1.fields.wf()
            },
            Err(e) => r == Err::<(&str, StructDef), ParseError>(e),
        },
{
    let n = input.unicode_len();
    match struct_def_at(input, 0) {
        Ok((end, fields)) => Ok((input.substring_char(end, n), StructDef { fields })),
        Err(e) => Err(e),
    }
}

/// The outcome of parsing a schema declaration at position `i`, given its
/// exact keyword prefix: the keyword, then a schema block.
pub open spec fn spec_schema(s: Seq<char>, i: int, keyword: Seq<char>) -> Result<
    (int, Map<Seq<char>, TypePrimitive>),
    ParseError,
> {
    if has_prefix_at(s, i, keyword) {
        spec_struct_def(s, i + keyword.len())
    } else {
        Err(ParseError::NoMatch)
    }
}

/// Parses a local-storage schema declaration at the start of the input:
/// the exact keyword `schema local`, then a schema block.
pub fn local_schema(input: &str) -> (r: Result<(&str, StructDef), ParseError>)
    ensures
        match spec_schema(input@, 0, "schema local"@) {
            Ok(p) => {
                &&& r is Ok
                &&& r->Ok_0.0@ == input@.subrange(p.0, input@.len() as int)
                &&& r->Ok_0.1.fields@ == p.1
                &&& r->Ok_0.1.fields.wf()
            },
            Err(e) => r == Err::<(&str, StructDef), ParseError>(e),
        },
{
    let n = input.unicode_len();
    proof {
        reveal_strlit("schema local");
    }
    if !crate::utils::prefix_at(input, 0, "schema local") {
        return Err(ParseError::NoMatch);
    }
    match struct_def_at(input, 12) {
        Ok((end, fields)) => Ok((input.substring_char(end, n), StructDef { fields })),
        Err(e) => Err(e),
    }
}

/// Parses a global-storage schema declaration at the start of the input:
/// the exact keyword `schema global`, then a schema block.
pub fn global_schema(input: &str) -> (r: Result<(&str, StructDef), ParseError>)
    ensures
        match spec_schema(input@, 0, "schema global"@) {
            Ok(p) => {
                &&& r is Ok
                &&& r->Ok_0.0@ == input@.subrange(p.0, input@.len() as int)
                &&& r->Ok_0.1.fields@ == p.1
                &&& r->Ok_0.1.fields.wf()
            },
            Err(e) => r == Err::<(&str, StructDef), ParseError>(e),
        },
{
    let n = input.unicode_len();
    proof {
        reveal_strlit("schema global");
    }
    if !crate::utils::prefix_at(input, 0, "schema global") {
        return Err(ParseError::NoMatch);
    }
    match struct_def_at(input, 13) {
        Ok((end, fields)) => Ok((input.substring_char(end, n), StructDef { fields })),
        Err(e) => Err(e),
    }
}

} // verus!
