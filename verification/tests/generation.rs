use thrust_parser::codegen::{compile_schema, find_rust_namespace, templates_for, DataValue, Error};
use thrust_parser::parser::Parser;
use thrust_parser::token::Keyword;
use thrust_parser::types::Ty;

#[test]
fn find_rust_namespace_first_match() {
    let mut p = Parser::new("namespace rust foobar");
    let ns = find_rust_namespace(&mut p).unwrap();
    assert_eq!(&*ns.lang, "rust");
    assert_eq!(&*ns.module, "foobar");
}

#[test]
fn find_rust_namespace_skips_other_languages() {
    let mut p = Parser::new("namespace java example_java namespace py example namespace rust mymod");
    let ns = find_rust_namespace(&mut p).unwrap();
    assert_eq!(&*ns.lang, "rust");
    assert_eq!(&*ns.module, "mymod");
}

#[test]
fn find_rust_namespace_exhausted_input_fails() {
    let mut p = Parser::new("namespace java example_java");
    assert!(matches!(find_rust_namespace(&mut p), Err(Error::Parser(_))));
}

#[test]
fn ty_classifies_primitives() {
    assert!(matches!(Ty::from_name("string".to_string()), Ty::Str));
    assert!(matches!(Ty::from_name("i16".to_string()), Ty::I16));
    assert!(matches!(Ty::from_name("i32".to_string()), Ty::I32));
    assert!(matches!(Ty::from_name("i64".to_string()), Ty::I64));
    assert!(matches!(Ty::from_name("bool".to_string()), Ty::Bool));
    match Ty::from_name("UserDefined".to_string()) {
        Ty::Named(s) => assert_eq!(s, "UserDefined"),
        other => panic!("expected a named type, got {:?}", other),
    }
}

#[test]
fn ty_to_rust_spellings() {
    assert_eq!(Ty::from_name("string".to_string()).to_rust().unwrap(), "String");
    assert_eq!(Ty::from_name("i16".to_string()).to_rust().unwrap(), "i16");
    assert_eq!(Ty::from_name("i32".to_string()).to_rust().unwrap(), "i32");
    assert_eq!(Ty::from_name("i64".to_string()).to_rust().unwrap(), "i64");
    assert_eq!(Ty::from_name("bool".to_string()).to_rust().unwrap(), "bool");
    assert!(Ty::from_name("UserDefined".to_string()).to_rust().is_none());
}

#[test]
fn ty_to_protocol_operations() {
    assert_eq!(Ty::from_name("string".to_string()).to_protocol().unwrap(), "write_str");
    assert_eq!(Ty::from_name("i16".to_string()).to_protocol().unwrap(), "write_i16");
    assert_eq!(Ty::from_name("i32".to_string()).to_protocol().unwrap(), "write_i32");
    assert_eq!(Ty::from_name("i64".to_string()).to_protocol().unwrap(), "write_i64");
    assert_eq!(Ty::from_name("bool".to_string()).to_protocol().unwrap(), "write_bool");
    assert!(Ty::from_name("UserDefined".to_string()).to_protocol().is_none());
}

#[test]
fn ty_read_expressions() {
    assert_eq!(
        Ty::from_name("string".to_string()).read_expr().unwrap(),
        "de.deserialize_str()"
    );
    assert_eq!(Ty::from_name("i16".to_string()).read_expr().unwrap(), "de.deserialize_i16()");
    assert_eq!(Ty::from_name("i32".to_string()).read_expr().unwrap(), "de.deserialize_i32()");
    assert_eq!(Ty::from_name("i64".to_string()).read_expr().unwrap(), "de.deserialize_i64()");
    assert_eq!(Ty::from_name("bool".to_string()).read_expr().unwrap(), "de.deserialize_bool()");
    assert!(Ty::from_name("UserDefined".to_string()).read_expr().is_none());
}

#[test]
fn one_template_per_plain_construct() {
    assert_eq!(templates_for(Keyword::Struct), vec!["struct".to_string()]);
    assert_eq!(templates_for(Keyword::Enum), vec!["enum".to_string()]);
    assert_eq!(templates_for(Keyword::Typedef), vec!["typedef".to_string()]);
    assert_eq!(templates_for(Keyword::Const), vec!["const".to_string()]);
}

#[test]
fn service_renders_three_templates() {
    assert_eq!(
        templates_for(Keyword::Service),
        vec![
            "service".to_string(),
            "service_client".to_string(),
            "service_server".to_string()
        ]
    );
}

#[test]
fn compile_emits_base_then_definitions() {
    let mut p = Parser::new(
        "enum Color { RED, GREEN }\nstruct Point { 1: required i32 x; 2: required i32 y }\ntypedef i64 Stamp",
    );
    let emissions = compile_schema(&mut p).unwrap();
    assert_eq!(emissions.len(), 4);
    assert_eq!(emissions[0].template, "base");
    assert_eq!(emissions[0].data.entries.len(), 0);
    assert_eq!(emissions[1].template, "enum");
    assert_eq!(emissions[1].data.entries[0].0, "ident");
    match &emissions[1].data.entries[0].1 {
        DataValue::Str(s) => assert_eq!(s, "Color"),
        other => panic!("expected a string value, got {:?}", other),
    }
    match &emissions[1].data.entries[1].1 {
        DataValue::StrSeq(vs) => assert_eq!(vs, &vec!["RED".to_string(), "GREEN".to_string()]),
        other => panic!("expected a string sequence, got {:?}", other),
    }
    assert_eq!(emissions[2].template, "struct");
    match &emissions[2].data.entries[1].1 {
        DataValue::FieldSeq(fs) => {
            assert_eq!(fs.len(), 2);
            assert_eq!(fs[0].seq, 1);
            assert_eq!(&*fs[1].ident, "y");
        },
        other => panic!("expected a field sequence, got {:?}", other),
    }
    assert_eq!(emissions[3].template, "typedef");
    match &emissions[3].data.entries[0].1 {
        DataValue::Str(s) => assert_eq!(s, "i64"),
        other => panic!("expected a string value, got {:?}", other),
    }
}

#[test]
fn compile_stops_at_unrecognized_construct() {
    let mut p = Parser::new("enum E { A } service Svc {}");
    let emissions = compile_schema(&mut p).unwrap();
    assert_eq!(emissions.len(), 2);
    assert_eq!(emissions[1].template, "enum");
}

#[test]
fn compile_fails_whole_run_on_malformed_construct() {
    let mut p = Parser::new("enum Good { A }\nstruct Bad { 1: i32 x }\nenum Later { B }");
    assert!(matches!(
        compile_schema(&mut p),
        Err(Error::Parser(thrust_parser::parser::Error::Expected))
    ));
}

#[test]
fn compile_empty_input_emits_only_base() {
    let mut p = Parser::new("");
    let emissions = compile_schema(&mut p).unwrap();
    assert_eq!(emissions.len(), 1);
    assert_eq!(emissions[0].template, "base");
}
