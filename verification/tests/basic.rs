use dataclasses::def::{RawField, RawType, Shape, Type};
use dataclasses::gen::{clone_instance, default_construct, instances_equal, synthesize, try_construct};
use dataclasses::parse::parse_annotation;
use dataclasses::resolve::resolve;

fn ty0(name: &str) -> Type {
    Type { name: name.to_string(), generics: Vec::new() }
}

fn ty1(name: &str, inner: Type) -> Type {
    Type { name: name.to_string(), generics: vec![inner] }
}

fn field(name: &str, t: Type, attr: &str) -> RawField {
    RawField { name: name.to_string(), ty: t, attr: attr.to_string() }
}

fn named(name: &str, generics: Vec<String>, attr: &str, fields: Vec<RawField>) -> RawType {
    RawType {
        name: name.to_string(),
        generics,
        shape: Shape::NamedStruct,
        attr: attr.to_string(),
        fields,
    }
}

#[test]
fn it_works() {
    assert_eq!(2 + 2, 4);
}

#[test]
fn basic_new_and_defaults() {
    let raw = named(
        "Person",
        Vec::new(),
        "",
        vec![
            field("name", ty0("String"), ""),
            field("age", ty0("i32"), ""),
            field("nickname", ty1("Option", ty0("String")), "default"),
            field("tags", ty1("Vec", ty0("String")), "default = \"Vec::new()\""),
        ],
    );
    let dc = resolve(raw).unwrap();
    let g = synthesize(&dc);
    assert_eq!(g.ctor_params, vec!["name".to_string(), "age".to_string()]);
    let p = try_construct(&dc, &vec!["Alice".to_string(), "30".to_string()]).unwrap();
    assert_eq!(p.values[0].1, "Alice");
    assert_eq!(p.values[1].1, "30");
    assert_eq!(p.values[2].1, "::core::default::Default::default()");
    assert_eq!(p.values[3].1, "Vec::new()");
    let cloned = clone_instance(&p);
    assert!(instances_equal(&dc, &p, &cloned));
}

#[test]
fn default_impl_all_default() {
    let raw = named(
        "AllDefault",
        Vec::new(),
        "",
        vec![
            field("a", ty0("i32"), "default = \"1\""),
            field("b", ty0("String"), "default"),
        ],
    );
    let dc = resolve(raw).unwrap();
    let g = synthesize(&dc);
    assert!(g.has_default_ctor);
    let d = default_construct(&dc).unwrap();
    assert_eq!(d.values[0].1, "1");
    assert_eq!(d.values[1].1, "::core::default::Default::default()");
}

#[test]
fn generics_and_defaults() {
    let raw = named(
        "Wrapper",
        vec!["T".to_string()],
        "",
        vec![
            field("value", ty0("T"), ""),
            field("opt", ty1("Option", ty0("T")), "default"),
        ],
    );
    let dc = resolve(raw).unwrap();
    let g = synthesize(&dc);
    assert_eq!(g.ctor_params, vec!["value".to_string()]);
    assert_eq!(
        g.bounds,
        vec![
            "Clone".to_string(),
            "Debug".to_string(),
            "PartialEq".to_string(),
            "Eq".to_string(),
            "Default".to_string(),
        ]
    );
    let w = try_construct(&dc, &vec!["100".to_string()]).unwrap();
    assert_eq!(w.values[0].1, "100");
    assert_eq!(w.values[1].1, "::core::default::Default::default()");
}

#[test]
fn default_expr_with_commas() {
    let ds = parse_annotation(&"v".to_string(), "default = \"vec![1, 2]\"", true).unwrap();
    assert_eq!(ds.len(), 1);
    assert_eq!(ds[0].key, "default");
    assert_eq!(ds[0].value, Some("vec![1, 2]".to_string()));

    let raw = named(
        "WithVec",
        Vec::new(),
        "",
        vec![field("v", ty1("Vec", ty0("i32")), "default = \"vec![1, 2]\"")],
    );
    let dc = resolve(raw).unwrap();
    let d = default_construct(&dc).unwrap();
    assert_eq!(d.values[0].1, "vec![1, 2]");
}

#[test]
fn quoted_comma_single_directive() {
    let ds = parse_annotation(&"xs".to_string(), "default = \"makeList(1, 2)\"", true).unwrap();
    assert_eq!(ds.len(), 1);
    assert_eq!(ds[0].key, "default");
    assert_eq!(ds[0].value, Some("makeList(1, 2)".to_string()));
}

#[test]
fn factory_default_is_a_call() {
    let raw = named(
        "WithFactory",
        Vec::new(),
        "",
        vec![field("addr", ty0("String"), "default_factory = \"mk_addr\"")],
    );
    let dc = resolve(raw).unwrap();
    let d = default_construct(&dc).unwrap();
    assert_eq!(d.values[0].1, "mk_addr()");
}

#[test]
fn field_overrides_and_metadata() {
    let raw = named(
        "Annotated",
        Vec::new(),
        "",
        vec![field(
            "x",
            ty0("i32"),
            "init = false, metadata = \"{}\", validate = \"check\", hash = true, init_var",
        )],
    );
    let dc = resolve(raw).unwrap();
    let f = &dc.fields[0];
    assert!(!f.init);
    assert_eq!(f.metadata, Some("{}".to_string()));
    assert_eq!(f.validate, Some("check".to_string()));
    assert_eq!(f.hash, Some(true));
    assert!(f.init_var);
    assert!(f.repr);
    assert!(f.compare);
}
