use thrust_parser::ast::FieldAttribute;
use thrust_parser::parser::{Error, Parser};
use thrust_parser::token::{Keyword, Token};

#[test]
fn eat_token() {
    let mut p = Parser::new(":");
    assert_eq!(p.eat(&Token::Colon), true);
}

#[test]
fn eat_keywords() {
    let mut p = Parser::new("oneway");
    assert_eq!(p.eat_keyword(Keyword::Oneway), true);
}

#[test]
fn parse_namespace() {
    let mut p = Parser::new("namespace rust foobar");
    let ns = p.parse_namespace().unwrap();
    assert_eq!(&*ns.lang, "rust");
    assert_eq!(&*ns.module, "foobar");
}

#[test]
fn parse_namespaace() {
    let mut p = Parser::new("namespace rust foobar");
    let ns = p.parse_namespace().unwrap();
    assert_eq!(&*ns.lang, "rust");
    assert_eq!(&*ns.module, "foobar");
}

#[test]
fn parse_include() {
    let mut p = Parser::new("include \"./../include.thrift\"");
    let ns = p.parse_include().unwrap();
    assert_eq!(&*ns.path, "./../include.thrift");
}

#[test]
fn parse_typedef() {
    let mut p = Parser::new("typedef i32 MyInteger");
    let def = p.parse_typedef().unwrap();
    assert_eq!(&*def.0, "i32");
    assert_eq!(&*def.1, "MyInteger");
}

#[test]
fn parse_empty_enum() {
    let mut p = Parser::new("enum FooBar {}");
    let def = p.parse_enum().unwrap();
    assert_eq!(&*def.ident, "FooBar");
    assert_eq!(def.variants.len(), 0);
}

#[test]
fn parse_one_variant_enum() {
    let mut p = Parser::new("enum Hello { ONE }");
    let def = p.parse_enum().unwrap();
    assert_eq!(&*def.ident, "Hello");
    assert_eq!(def.variants.len(), 1);
    assert_eq!(&*def.variants[0], "ONE");
}

#[test]
fn parse_multi_variant_enum() {
    let mut p = Parser::new("enum Hello { ONE, TWO }");
    let def = p.parse_enum().unwrap();
    assert_eq!(&*def.ident, "Hello");
    assert_eq!(def.variants.len(), 2);
    assert_eq!(&*def.variants[0], "ONE");
    assert_eq!(&*def.variants[1], "TWO");
}

#[test]
fn parse_empty_struct() {
    let mut p = Parser::new("struct FooBar {}");
    let def = p.parse_struct().unwrap();
    assert_eq!(&*def.ident, "FooBar");
    assert_eq!(def.fields.len(), 0);
}

#[test]
fn parse_struct_w_field() {
    let mut p = Parser::new("struct FooBar { 1: required i32 mycat }");
    let def = p.parse_struct().unwrap();
    assert_eq!(&*def.ident, "FooBar");
    assert_eq!(def.fields.len(), 1);
}

#[test]
fn parse_struct_w_multi_field() {
    let mut p = Parser::new("struct FooBar { 1: required i32 mycat; 2: required i32 two }");
    let def = p.parse_struct().unwrap();
    assert_eq!(&*def.ident, "FooBar");
    assert_eq!(def.fields.len(), 2);
}

#[test]
fn parse_struct_field_optional() {
    let mut p = Parser::new("1: optional i32 foobar");
    let def = p.parse_struct_field().unwrap();
    assert_eq!(&*def.ident, "foobar");
    assert_eq!(&*def.ty, "i32");
    assert_eq!(def.seq, 1);
    assert_eq!(def.attr, FieldAttribute::Optional);
}

#[test]
fn parse_struct_field_required() {
    let mut p = Parser::new("1: required i32 foobar");
    let def = p.parse_struct_field().unwrap();
    assert_eq!(&*def.ident, "foobar");
    assert_eq!(&*def.ty, "i32");
    assert_eq!(def.seq, 1);
    assert_eq!(def.attr, FieldAttribute::Required);
}

#[test]
fn struct_fields_in_declared_order() {
    let mut p = Parser::new("struct S { 1: required i32 x; 2: optional i32 y }");
    let def = p.parse_struct().unwrap();
    assert_eq!(&*def.ident, "S");
    assert_eq!(def.fields.len(), 2);
    assert_eq!(def.fields[0].seq, 1);
    assert_eq!(def.fields[0].attr, FieldAttribute::Required);
    assert_eq!(&*def.fields[0].ty, "i32");
    assert_eq!(&*def.fields[0].ident, "x");
    assert_eq!(def.fields[1].seq, 2);
    assert_eq!(def.fields[1].attr, FieldAttribute::Optional);
    assert_eq!(&*def.fields[1].ty, "i32");
    assert_eq!(&*def.fields[1].ident, "y");
}

#[test]
fn struct_field_missing_attribute_is_rejected() {
    let mut p = Parser::new("struct S { 1: i32 x }");
    assert!(matches!(p.parse_struct(), Err(Error::Expected)));
}

#[test]
fn number_where_ident_expected_is_rejected() {
    let mut p = Parser::new("typedef 1 MyInt");
    assert!(matches!(p.parse_typedef(), Err(Error::Expected)));
}

#[test]
fn field_number_out_of_range_is_rejected() {
    let mut p = Parser::new("32768: required i32 x");
    assert!(matches!(p.parse_struct_field(), Err(Error::NumberRange)));
}

#[test]
fn enum_missing_separator_needs_close_brace() {
    let mut p = Parser::new("enum E { A B }");
    assert!(matches!(p.parse_enum(), Err(Error::Expected)));
}

#[test]
fn comments_inside_definitions_are_skipped() {
    let mut p = Parser::new("enum E { /* one */ A, // line\n B # hash\n }");
    let def = p.parse_enum().unwrap();
    assert_eq!(&*def.ident, "E");
    assert_eq!(def.variants.len(), 2);
    assert_eq!(&*def.variants[0], "A");
    assert_eq!(&*def.variants[1], "B");
}

#[test]
fn lookahead_does_not_consume() {
    let mut p = Parser::new("enum E {}");
    assert!(p.lookahead_keyword(Keyword::Enum));
    assert!(!p.lookahead_keyword(Keyword::Struct));
    let def = p.parse_enum().unwrap();
    assert_eq!(&*def.ident, "E");
}
