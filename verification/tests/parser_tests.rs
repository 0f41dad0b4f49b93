use rusteal::expression::{Expr, Primitive};
use rusteal::parse_error::ParseError;
use rusteal::primitives::{array_byteslice, byte_as_number, byteslice, quoted_byteslice,
    quoted_inner, quoted_inner_escape, uint64};
use rusteal::types::{global_schema, local_schema, struct_def, struct_def_field,
    struct_def_fields, type_primitive};
use rusteal::typing::TypePrimitive;
use rusteal::utils::identifier;

#[test]
fn lib_test_parse_uint64() {
    let (rest, res) = uint64("123").unwrap();
    assert_eq!(res, Expr::Primitive(Primitive::UInt64(123)));
    assert_eq!(rest, "");

    let (rest, res) = uint64("123_456_789").unwrap();
    assert_eq!(res, Expr::Primitive(Primitive::UInt64(123456789)));
    assert_eq!(rest, "");

    let (rest, res) = uint64("123_456_789_").unwrap();
    assert_eq!(res, Expr::Primitive(Primitive::UInt64(123456789)));
    assert_eq!(rest, "_");

    uint64("_123_456_789")
        .err()
        .expect("underscore at beginning of number shoud fail!");
}

#[test]
fn lib_test_parse_byteslice() {
    let (rest, res) = byteslice("\"hi\"").unwrap();
    assert_eq!(res, Expr::Primitive(Primitive::Byteslice(vec![104, 105])));
    assert_eq!(rest, "");

    let (rest, res) = byteslice("[1,2,3]").unwrap();
    assert_eq!(res, Expr::Primitive(Primitive::Byteslice(vec![1, 2, 3])));
    assert_eq!(rest, "");

    let (rest, res) = byteslice("\"\"hi").unwrap();
    assert_eq!(res, Expr::Primitive(Primitive::Byteslice(vec![])));
    assert_eq!(rest, "hi");

    let (rest, res) = byteslice("\"\\\"\"").unwrap();
    assert_eq!(res, Expr::Primitive(Primitive::Byteslice(vec![34])));
    assert_eq!(rest, "");

    byteslice("[101, 234, 356]")
        .err()
        .expect("array byteslice with value > 255 should fail!");
}

#[test]
fn primitives_test_parse_uint64() {
    let (rest, res) = uint64("123").unwrap();
    assert_eq!(res, Expr::Primitive(Primitive::UInt64(123)));
    assert_eq!(rest, "");

    let (rest, res) = uint64("123_456_789").unwrap();
    assert_eq!(res, Expr::Primitive(Primitive::UInt64(123456789)));
    assert_eq!(rest, "");

    let (rest, res) = uint64("123_456_789_").unwrap();
    assert_eq!(res, Expr::Primitive(Primitive::UInt64(123456789)));
    assert_eq!(rest, "_");

    uint64("_123_456_789")
        .err()
        .expect("underscore at beginning of number should fail!");
}

#[test]
fn primitives_test_parse_byteslice() {
    let (rest, res) = byteslice("\"hi\"").unwrap();
    assert_eq!(res, Expr::Primitive(Primitive::Byteslice(vec![104, 105])));
    assert_eq!(rest, "");

    let (rest, res) = byteslice("[0,2,3]").unwrap();
    assert_eq!(res, Expr::Primitive(Primitive::Byteslice(vec![0, 2, 3])));
    assert_eq!(rest, "");

    let (rest, res) = byteslice("\"\"hi").unwrap();
    assert_eq!(res, Expr::Primitive(Primitive::Byteslice(vec![])));
    assert_eq!(rest, "hi");

    let (rest, res) = byteslice("\"\\\"\"").unwrap();
    assert_eq!(res, Expr::Primitive(Primitive::Byteslice(vec![34])));
    assert_eq!(rest, "");

    byteslice("[100, 234, 356]")
        .err()
        .expect("array byteslice with value > 254 should fail!");
}

#[test]
fn test_primitive() {
    let (rest, res) = type_primitive("Void").unwrap();
    assert_eq!(res, TypePrimitive::Void);
    assert_eq!(rest, "");

    let (rest, res) = type_primitive("UInt64").unwrap();
    assert_eq!(res, TypePrimitive::UInt64);
    assert_eq!(rest, "");

    let (rest, res) = type_primitive("Byteslice").unwrap();
    assert_eq!(res, TypePrimitive::Byteslice);
    assert_eq!(rest, "");

    let (rest, res) = type_primitive("Halt").unwrap();
    assert_eq!(res, TypePrimitive::Halt);
    assert_eq!(rest, "");

    type_primitive("void")
        .err()
        .expect("primitive types names should be case-sensitive");
    type_primitive(" Void")
        .err()
        .expect("primitive types name should include optional whitespace");
    type_primitive("AHalt").err().expect("should not take prefix");
}

#[test]
fn test_struct_def_field() {
    let (rest, (name, ty)) = struct_def_field("foo: Void").unwrap();
    assert_eq!(name, "foo");
    assert_eq!(ty, TypePrimitive::Void);
    assert_eq!(rest, "");

    let (rest, (name, ty)) = struct_def_field("length: UInt64,").unwrap();
    assert_eq!(name, "length");
    assert_eq!(ty, TypePrimitive::UInt64);
    assert_eq!(rest, ",");

    let (rest, (name, ty)) = struct_def_field("best_husbandos: Byteslice").unwrap();
    assert_eq!(name, "best_husbandos");
    assert_eq!(ty, TypePrimitive::Byteslice);
    assert_eq!(rest, "");

    let (rest, (name, ty)) = struct_def_field("its_time_to_st0p: Halt").unwrap();
    assert_eq!(name, "its_time_to_st0p");
    assert_eq!(ty, TypePrimitive::Halt);
    assert_eq!(rest, "");

    struct_def_field("foo:,").err().expect("field should contain type");
    struct_def_field("foo: ,").err().expect("field should contain type");
    struct_def_field("foo: MeaningOfLife,")
        .err()
        .expect("field type should be one of the defined primitives");
}

#[test]
pub fn test_struct_def_fields() {
    let (rest, def) =
        struct_def_fields("foo: Void, bar: UInt64, baz: Byteslice, qux: Halt").unwrap();
    let fields = def.as_ref();
    assert_eq!(fields.len(), 4);
    assert_eq!(fields.get("foo"), Some(&TypePrimitive::Void));
    assert_eq!(fields.get("bar"), Some(&TypePrimitive::UInt64));
    assert_eq!(fields.get("baz"), Some(&TypePrimitive::Byteslice));
    assert_eq!(fields.get("qux"), Some(&TypePrimitive::Halt));
    assert_eq!(rest, "");

    let (rest, def) =
        struct_def_fields("foo: Void, bar: UInt64, baz: Byteslice, qux: Halt,").unwrap();
    let fields = def.as_ref();
    assert_eq!(fields.len(), 4);
    assert_eq!(fields.get("foo"), Some(&TypePrimitive::Void));
    assert_eq!(fields.get("bar"), Some(&TypePrimitive::UInt64));
    assert_eq!(fields.get("baz"), Some(&TypePrimitive::Byteslice));
    assert_eq!(fields.get("qux"), Some(&TypePrimitive::Halt));
    assert_eq!(rest, "");

    let (rest, def) =
        struct_def_fields("foo: Void,\n bar: UInt64,\n baz: Byteslice,\n qux: Halt").unwrap();
    let fields = def.as_ref();
    assert_eq!(fields.len(), 4);
    assert_eq!(fields.get("foo"), Some(&TypePrimitive::Void));
    assert_eq!(fields.get("bar"), Some(&TypePrimitive::UInt64));
    assert_eq!(fields.get("baz"), Some(&TypePrimitive::Byteslice));
    assert_eq!(fields.get("qux"), Some(&TypePrimitive::Halt));
    assert_eq!(rest, "");

    let (rest, def) =
        struct_def_fields("\tfoo: Void,\n\tbar: UInt64,\n\tbaz: Byteslice,\n\tqux: Halt").unwrap();
    let fields = def.as_ref();
    assert_eq!(fields.len(), 4);
    assert_eq!(fields.get("foo"), Some(&TypePrimitive::Void));
    assert_eq!(fields.get("bar"), Some(&TypePrimitive::UInt64));
    assert_eq!(fields.get("baz"), Some(&TypePrimitive::Byteslice));
    assert_eq!(fields.get("qux"), Some(&TypePrimitive::Halt));
    assert_eq!(rest, "");

    let (rest, def) =
        struct_def_fields("\tfoo: Void,\r\n\tbar: UInt64,\r\n\tbaz: Byteslice,\r\n\tqux: Halt")
            .unwrap();
    let fields = def.as_ref();
    assert_eq!(fields.len(), 4);
    assert_eq!(fields.get("foo"), Some(&TypePrimitive::Void));
    assert_eq!(fields.get("bar"), Some(&TypePrimitive::UInt64));
    assert_eq!(fields.get("baz"), Some(&TypePrimitive::Byteslice));
    assert_eq!(fields.get("qux"), Some(&TypePrimitive::Halt));
    assert_eq!(rest, "");

    let (rest, def) = struct_def_fields(
        "\tfoo: Void,\r\n\t bar: UInt64,\t\r\n  \tbaz: Byteslice,\t  \t\r\nqux: Halt",
    )
    .unwrap();
    let fields = def.as_ref();
    assert_eq!(fields.len(), 4);
    assert_eq!(fields.get("foo"), Some(&TypePrimitive::Void));
    assert_eq!(fields.get("bar"), Some(&TypePrimitive::UInt64));
    assert_eq!(fields.get("baz"), Some(&TypePrimitive::Byteslice));
    assert_eq!(fields.get("qux"), Some(&TypePrimitive::Halt));
    assert_eq!(rest, "");

    let (rest, fields) =
        struct_def_fields("foo: Void; bar: UInt64; baz: Byteslice; qux: Halt;").unwrap();
    let fields = fields.as_ref();
    assert_eq!(fields.len(), 1);
    assert_eq!(rest, "; bar: UInt64; baz: Byteslice; qux: Halt;");

    let (rest, fields) =
        struct_def_fields("\tfoo: Void\n\tbar: UInt64\n\tbaz: Byteslice\n\tqux: Halt").unwrap();
    let fields = fields.as_ref();
    assert_eq!(fields.len(), 1);
    assert_eq!(rest, "bar: UInt64\n\tbaz: Byteslice\n\tqux: Halt");
}

#[test]
fn test_struct_def() {
    let (rest, def) = struct_def("{ foo: Void, bar: UInt64, baz: Byteslice, qux: Halt }").unwrap();
    let fields = def.as_ref();
    assert_eq!(fields.len(), 4);
    assert_eq!(fields.get("foo"), Some(&TypePrimitive::Void));
    assert_eq!(fields.get("bar"), Some(&TypePrimitive::UInt64));
    assert_eq!(fields.get("baz"), Some(&TypePrimitive::Byteslice));
    assert_eq!(fields.get("qux"), Some(&TypePrimitive::Halt));
    assert_eq!(rest, "");

    let (rest, def) =
        struct_def("{\n\tfoo: Void,\n\t bar: UInt64,\n\t baz: Byteslice,\n\t qux: Halt\n}")
            .unwrap();
    let fields = def.as_ref();
    assert_eq!(fields.len(), 4);
    assert_eq!(fields.get("foo"), Some(&TypePrimitive::Void));
    assert_eq!(fields.get("bar"), Some(&TypePrimitive::UInt64));
    assert_eq!(fields.get("baz"), Some(&TypePrimitive::Byteslice));
    assert_eq!(fields.get("qux"), Some(&TypePrimitive::Halt));
    assert_eq!(rest, "");

    struct_def("{\n\tfoo: Void,\n\t bar: UInt64,\n\t baz: Byteslice,\n\t qux: Halt\n")
        .err()
        .expect("should fail on missing closing brace");
    struct_def("\n\tfoo: Void,\n\t bar: UInt64,\n\t baz: Byteslice,\n\t qux: Halt\n}")
        .err()
        .expect("should fail on missing opening brace");
    struct_def("\n\tfoo: Void,\n\t bar: UInt64,\n\t baz: Byteslice,\n\t qux: Halt\n")
        .err()
        .expect("should fail on no braces");
}

#[test]
fn test_local_schema() {
    let (rest, def) =
        local_schema("schema local { foo: Void, bar: UInt64, baz: Byteslice, qux: Halt }")
            .unwrap();
    let fields = def.as_ref();
    assert_eq!(fields.len(), 4);
    assert_eq!(fields.get("foo"), Some(&TypePrimitive::Void));
    assert_eq!(fields.get("bar"), Some(&TypePrimitive::UInt64));
    assert_eq!(fields.get("baz"), Some(&TypePrimitive::Byteslice));
    assert_eq!(fields.get("qux"), Some(&TypePrimitive::Halt));
    assert_eq!(rest, "");

    let (rest, def) =
        local_schema("schema local\n{ foo: Void, bar: UInt64, baz: Byteslice, qux: Halt }")
            .unwrap();
    let fields = def.as_ref();
    assert_eq!(fields.len(), 4);
    assert_eq!(fields.get("foo"), Some(&TypePrimitive::Void));
    assert_eq!(fields.get("bar"), Some(&TypePrimitive::UInt64));
    assert_eq!(fields.get("baz"), Some(&TypePrimitive::Byteslice));
    assert_eq!(fields.get("qux"), Some(&TypePrimitive::Halt));
    assert_eq!(rest, "");

    let (rest, def) =
        local_schema("schema local{ foo: Void, bar: UInt64, baz: Byteslice, qux: Halt }").unwrap();
    let fields = def.as_ref();
    assert_eq!(fields.len(), 4);
    assert_eq!(fields.get("foo"), Some(&TypePrimitive::Void));
    assert_eq!(fields.get("bar"), Some(&TypePrimitive::UInt64));
    assert_eq!(fields.get("baz"), Some(&TypePrimitive::Byteslice));
    assert_eq!(fields.get("qux"), Some(&TypePrimitive::Halt));
    assert_eq!(rest, "");

    local_schema("schema global { foo: Void, bar: UInt64, baz: Byteslice, qux: Halt }")
        .err()
        .expect("should fail if given global schema");
    local_schema("schema { foo: Void, bar: UInt64, baz: Byteslice, qux: Halt }")
        .err()
        .expect("should fail if local keyword not given");
    local_schema("{ foo: Void, bar: UInt64, baz: Byteslice, qux: Halt }")
        .err()
        .expect("should fail on just struct def");
}

#[test]
fn test_global_schema() {
    let (rest, def) =
        global_schema("schema global { foo: Void, bar: UInt64, baz: Byteslice, qux: Halt }")
            .unwrap();
    let fields = def.as_ref();
    assert_eq!(fields.len(), 4);
    assert_eq!(fields.get("foo"), Some(&TypePrimitive::Void));
    assert_eq!(fields.get("bar"), Some(&TypePrimitive::UInt64));
    assert_eq!(fields.get("baz"), Some(&TypePrimitive::Byteslice));
    assert_eq!(fields.get("qux"), Some(&TypePrimitive::Halt));
    assert_eq!(rest, "");

    let (rest, def) =
        global_schema("schema global \n{ foo: Void, bar: UInt64, baz: Byteslice, qux: Halt }")
            .unwrap();
    let fields = def.as_ref();
    assert_eq!(fields.len(), 4);
    assert_eq!(fields.get("foo"), Some(&TypePrimitive::Void));
    assert_eq!(fields.get("bar"), Some(&TypePrimitive::UInt64));
    assert_eq!(fields.get("baz"), Some(&TypePrimitive::Byteslice));
    assert_eq!(fields.get("qux"), Some(&TypePrimitive::Halt));
    assert_eq!(rest, "");

    let (rest, def) =
        global_schema("schema global { foo: Void, bar: UInt64, baz: Byteslice, qux: Halt }")
            .unwrap();
    let fields = def.as_ref();
    assert_eq!(fields.len(), 4);
    assert_eq!(fields.get("foo"), Some(&TypePrimitive::Void));
    assert_eq!(fields.get("bar"), Some(&TypePrimitive::UInt64));
    assert_eq!(fields.get("baz"), Some(&TypePrimitive::Byteslice));
    assert_eq!(fields.get("qux"), Some(&TypePrimitive::Halt));
    assert_eq!(rest, "");

    global_schema("schema local { foo: Void, bar: UInt64, baz: Byteslice, qux: Halt }")
        .err()
        .expect("should fail if given local schema");
    global_schema("schema { foo: Void, bar: UInt64, baz: Byteslice, qux: Halt }")
        .err()
        .expect("should fail if global keyword not given");
    global_schema("{ foo: Void, bar: UInt64, baz: Byteslice, qux: Halt }")
        .err()
        .expect("should fail on just struct def");
}

#[test]
fn test_uint64_overflow() {
    assert_eq!(uint64("18446744073709551615").unwrap().1,
        Expr::Primitive(Primitive::UInt64(u64::MAX)));
    assert_eq!(uint64("18446744073709551616"), Err(ParseError::InvalidNumValue));
    assert_eq!(uint64("abc"), Err(ParseError::NoMatch));
}

#[test]
fn test_byte_as_number_values() {
    let (rest, v) = byte_as_number("255,").unwrap();
    assert_eq!(v, 255);
    assert_eq!(rest, ",");

    let (rest, v) = byte_as_number("1_2__x").unwrap();
    assert_eq!(v, 12);
    assert_eq!(rest, "x");

    assert_eq!(byte_as_number("256"), Err(ParseError::InvalidByteValue));
    assert_eq!(byte_as_number("99999999999999999999"), Err(ParseError::InvalidNumValue));
    assert_eq!(byte_as_number("_1"), Err(ParseError::NoMatch));
}

#[test]
fn test_array_byteslice_shapes() {
    let (rest, res) = array_byteslice("[]tail").unwrap();
    assert_eq!(res, Expr::Primitive(Primitive::Byteslice(vec![])));
    assert_eq!(rest, "tail");

    let (rest, res) = array_byteslice("[7]").unwrap();
    assert_eq!(res, Expr::Primitive(Primitive::Byteslice(vec![7])));
    assert_eq!(rest, "");

    assert!(array_byteslice("[1,2").is_err());
    assert!(array_byteslice("[1,]").is_err());
    assert!(array_byteslice("(1)").is_err());
    assert_eq!(array_byteslice("[300]"), Err(ParseError::InvalidByteValue));
}

#[test]
fn test_quoted_forms() {
    let (rest, res) = quoted_byteslice("\"a\\\"b\"").unwrap();
    assert_eq!(res, Expr::Primitive(Primitive::Byteslice(vec![97, 34, 98])));
    assert_eq!(rest, "");

    assert!(quoted_byteslice("\"open").is_err());
    assert!(quoted_byteslice("\"bad\\escape\"").is_err());

    let (rest, content) = quoted_inner("abc\"x").unwrap();
    assert_eq!(content, "abc");
    assert_eq!(rest, "\"x");

    assert!(quoted_inner_escape("\"x").is_err());
    let (rest, content) = quoted_inner_escape("ab").unwrap();
    assert_eq!(content, "ab");
    assert_eq!(rest, "");
}

#[test]
fn test_identifier() {
    let (rest, name) = identifier("foo bar").unwrap();
    assert_eq!(name, "foo");
    assert_eq!(rest, " bar");

    let (rest, name) = identifier("_x1y").unwrap();
    assert_eq!(name, "_x1y");
    assert_eq!(rest, "");

    assert!(identifier("1abc").is_err());
    assert!(identifier("").is_err());
}

#[test]
fn test_duplicate_field_names() {
    let (rest, def) = struct_def_fields("a: Void, a: UInt64").unwrap();
    let fields = def.as_ref();
    assert_eq!(fields.len(), 1);
    assert_eq!(fields.get("a"), Some(&TypePrimitive::UInt64));
    assert_eq!(fields.get("b"), None);
    assert_eq!(rest, "");
}
