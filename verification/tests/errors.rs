use dataclasses::def::{GenError, RawField, RawType, Shape, Type};
use dataclasses::gen::try_construct;
use dataclasses::resolve::resolve;

fn ty0(name: &str) -> Type {
    Type { name: name.to_string(), generics: Vec::new() }
}

fn field(name: &str, t: Type, attr: &str) -> RawField {
    RawField { name: name.to_string(), ty: t, attr: attr.to_string() }
}

fn named(name: &str, attr: &str, fields: Vec<RawField>) -> RawType {
    RawType {
        name: name.to_string(),
        generics: Vec::new(),
        shape: Shape::NamedStruct,
        attr: attr.to_string(),
        fields,
    }
}

#[test]
fn unknown_key_rejected() {
    let raw = named("T0", "", vec![field("x", ty0("i32"), "defualt = \"1\"")]);
    match resolve(raw) {
        Err(GenError::UnknownKey { field, key }) => {
            assert_eq!(field, "x");
            assert_eq!(key, "defualt");
        },
        other => panic!("expected an unknown-key error, got {:?}", other),
    }
}

#[test]
fn unknown_type_key_rejected() {
    let raw = named("T1", "compare", vec![]);
    match resolve(raw) {
        Err(GenError::UnknownKey { field, key }) => {
            assert_eq!(field, "T1");
            assert_eq!(key, "compare");
        },
        other => panic!("expected an unknown-key error, got {:?}", other),
    }
}

#[test]
fn conflicting_defaults_rejected() {
    let raw = named(
        "T2",
        "",
        vec![field("x", ty0("i32"), "default = \"1\", default_factory = \"mk\"")],
    );
    match resolve(raw) {
        Err(GenError::ConflictingDefaults { field }) => assert_eq!(field, "x"),
        other => panic!("expected a conflicting-defaults error, got {:?}", other),
    }
}

#[test]
fn bad_default_literal_rejected() {
    let raw = named("T3", "", vec![field("x", ty0("i32"), "default = \"1 +\"")]);
    match resolve(raw) {
        Err(GenError::BadLiteral { field, expr }) => {
            assert_eq!(field, "x");
            assert_eq!(expr, "1 +");
        },
        other => panic!("expected a bad-literal error, got {:?}", other),
    }
}

#[test]
fn valid_default_literal_accepted() {
    let raw = named("T4", "", vec![field("x", ty0("i32"), "default = \"1 + 2\"")]);
    let dc = resolve(raw).unwrap();
    match &dc.fields[0].default {
        Some(dataclasses::def::ValueProvider::Value(t)) => assert_eq!(t, "1 + 2"),
        other => panic!("expected a literal default, got {:?}", other),
    }
}

#[test]
fn field_order_rejected() {
    let raw = named(
        "T5",
        "",
        vec![
            field("a", ty0("i32"), "default = \"1\""),
            field("b", ty0("i32"), ""),
        ],
    );
    match resolve(raw) {
        Err(GenError::FieldOrder { field }) => assert_eq!(field, "b"),
        other => panic!("expected a field-order error, got {:?}", other),
    }
}

#[test]
fn kw_only_field_exempt_from_order() {
    let raw = named(
        "T6",
        "",
        vec![
            field("a", ty0("i32"), "default = \"1\""),
            field("b", ty0("i32"), "kw_only"),
        ],
    );
    assert!(resolve(raw).is_ok());
}

#[test]
fn not_a_struct_rejected() {
    let raw = RawType {
        name: "E0".to_string(),
        generics: Vec::new(),
        shape: Shape::NotAStruct,
        attr: String::new(),
        fields: Vec::new(),
    };
    match resolve(raw) {
        Err(GenError::NotAStruct { name }) => assert_eq!(name, "E0"),
        other => panic!("expected a not-a-struct error, got {:?}", other),
    }
}

#[test]
fn unnamed_fields_rejected() {
    let raw = RawType {
        name: "E1".to_string(),
        generics: Vec::new(),
        shape: Shape::UnnamedStruct,
        attr: String::new(),
        fields: Vec::new(),
    };
    match resolve(raw) {
        Err(GenError::NoNamedFields { name }) => assert_eq!(name, "E1"),
        other => panic!("expected a no-named-fields error, got {:?}", other),
    }
}

#[test]
fn wrong_argument_count_rejected() {
    let raw = named(
        "T7",
        "",
        vec![field("a", ty0("i32"), ""), field("b", ty0("i32"), "")],
    );
    let dc = resolve(raw).unwrap();
    match try_construct(&dc, &vec!["1".to_string()]) {
        Err(GenError::WrongArgCount { expected, got }) => {
            assert_eq!(expected, 2);
            assert_eq!(got, 1);
        },
        other => panic!("expected a wrong-argument-count error, got {:?}", other),
    }
}

#[test]
fn bad_flag_text_rejected() {
    let raw = named("T8", "", vec![field("x", ty0("i32"), "init = maybe")]);
    match resolve(raw) {
        Err(GenError::Malformed { field, key }) => {
            assert_eq!(field, "x");
            assert_eq!(key, "init");
        },
        other => panic!("expected a malformed-directive error, got {:?}", other),
    }
}

#[test]
fn bare_factory_rejected() {
    let raw = named("T9", "", vec![field("x", ty0("i32"), "default_factory")]);
    match resolve(raw) {
        Err(GenError::Malformed { field, key }) => {
            assert_eq!(field, "x");
            assert_eq!(key, "default_factory");
        },
        other => panic!("expected a malformed-directive error, got {:?}", other),
    }
}
