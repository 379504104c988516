use dataclasses::def::{Dataclass, RawField, RawType, Shape, Type};
use dataclasses::example::InventoryItem;
use dataclasses::gen::{construct, first_difference, format_instance, instances_equal, replace_instance, synthesize, type_text};
use dataclasses::render::render_code;
use dataclasses::resolve::resolve;
use dataclasses::ByName;

fn ty0(name: &str) -> Type {
    Type { name: name.to_string(), generics: Vec::new() }
}

fn ty1(name: &str, inner: Type) -> Type {
    Type { name: name.to_string(), generics: vec![inner] }
}

fn field(name: &str, t: Type, attr: &str) -> RawField {
    RawField { name: name.to_string(), ty: t, attr: attr.to_string() }
}

fn named(name: &str, generics: Vec<String>, attr: &str, fields: Vec<RawField>) -> RawType {
    RawType {
        name: name.to_string(),
        generics,
        shape: Shape::NamedStruct,
        attr: attr.to_string(),
        fields,
    }
}

#[test]
fn type_text_nested() {
    assert_eq!(type_text(&ty0("String")), "String");
    assert_eq!(type_text(&ty1("Option", ty0("String"))), "Option<String>");
    assert_eq!(
        type_text(&Type {
            name: "Map".to_string(),
            generics: vec![ty0("String"), ty1("Vec", ty0("u8"))],
        }),
        "Map<String, Vec<u8>>"
    );
}

#[test]
fn generate_renders_the_struct() {
    let raw = named(
        "Person",
        Vec::new(),
        "",
        vec![
            field("name", ty0("String"), ""),
            field("nickname", ty1("Option", ty0("String")), "default"),
        ],
    );
    let dc = resolve(raw).unwrap();
    let text = dc.generate();
    assert!(text.contains("struct Person"));
    assert!(text.contains("name"));
    assert!(text.contains("Option<String>"));
}

#[test]
fn render_code_constructor_and_impls() {
    let raw = named(
        "Person",
        Vec::new(),
        "",
        vec![
            field("name", ty0("String"), ""),
            field("age", ty0("i32"), ""),
            field("tags", ty1("Vec", ty0("String")), "default = \"Vec::new()\""),
        ],
    );
    let dc = resolve(raw).unwrap();
    let code = render_code(&dc);
    assert!(code.contains("impl Person { pub fn new(name: String, age: i32) -> Self"));
    assert!(code.contains("Self { name, age, tags: Vec::new() }"));
    assert!(code.contains("impl Clone for Person"));
    assert!(code.contains("name: self.name.clone()"));
    assert!(code.contains("impl PartialEq for Person"));
    assert!(code.contains("self.name == other.name && self.age == other.age"));
    assert!(code.contains("impl Eq for Person {}"));
    assert!(!code.contains("Default for Person"));
}

#[test]
fn render_code_default_and_bounds() {
    let raw = named(
        "Wrapper",
        vec!["T".to_string()],
        "",
        vec![field("opt", ty1("Option", ty0("T")), "default")],
    );
    let dc = resolve(raw).unwrap();
    let code = render_code(&dc);
    assert!(code.contains("impl<T> Wrapper<T> { pub fn new() -> Self"));
    assert!(code.contains(
        "impl<T> Default for Wrapper<T> where T: Clone + Debug + PartialEq + Eq + Default"
    ));
    assert!(code.contains("opt: ::core::default::Default::default()"));
}

#[test]
fn formatter_skips_repr_disabled() {
    let raw = named(
        "Creds",
        Vec::new(),
        "",
        vec![
            field("user", ty0("String"), ""),
            field("secret", ty0("String"), "repr = false"),
            field("host", ty0("String"), ""),
        ],
    );
    let dc = resolve(raw).unwrap();
    let g = synthesize(&dc);
    assert_eq!(g.repr_fields, vec!["user".to_string(), "host".to_string()]);
    let x = construct(
        &dc,
        &vec!["u".to_string(), "s".to_string(), "h".to_string()],
    );
    let shown = format_instance(&dc, &x);
    assert_eq!(shown.len(), 2);
    assert_eq!(shown[0], ("user".to_string(), "u".to_string()));
    assert_eq!(shown[1], ("host".to_string(), "h".to_string()));
    let code = render_code(&dc);
    assert!(!code.contains(".field(\"secret\""));
    assert!(code.contains(".field(\"user\", &self.user)"));
}

#[test]
fn compare_disabled_field_ignored() {
    let raw = named(
        "Pt",
        Vec::new(),
        "",
        vec![
            field("x", ty0("i32"), ""),
            field("note", ty0("String"), "compare = false"),
        ],
    );
    let dc = resolve(raw).unwrap();
    let a = construct(&dc, &vec!["1".to_string(), "left".to_string()]);
    let b = construct(&dc, &vec!["1".to_string(), "right".to_string()]);
    let c = construct(&dc, &vec!["2".to_string(), "left".to_string()]);
    assert!(instances_equal(&dc, &a, &b));
    assert!(!instances_equal(&dc, &a, &c));
}

#[test]
fn type_flags_recorded() {
    let raw = named(
        "Frozen",
        Vec::new(),
        "frozen = true, post_init = \"after\", namespace = \"models\"",
        vec![],
    );
    let dc = resolve(raw).unwrap();
    assert!(dc.frozen);
    assert_eq!(dc.post_init, Some("after".to_string()));
    assert_eq!(dc.namespace, "models");
}

#[test]
fn type_default_table() {
    let dc = Dataclass::default();
    assert!(dc.init);
    assert!(dc.repr);
    assert!(dc.eq);
    assert!(!dc.order);
    assert!(!dc.hash);
    assert!(!dc.frozen);
    assert!(!dc.kw_only);
    assert_eq!(dc.name, "");
    assert!(dc.fields.is_empty());
    assert!(dc.post_init.is_none());
}

#[test]
fn helpers_construct() {
    let b: ByName<i32> = ByName::new("count".to_string());
    assert_eq!(b.name, "count");
    let item = InventoryItem::init("hammer".to_string(), "aisle 3".to_string());
    assert_eq!(item.name, "hammer");
    assert_eq!(item.adress, "aisle 3");
    assert_eq!(item.generated, "");
}

#[test]
fn replace_overrides_named_fields() {
    let raw = named(
        "Person",
        Vec::new(),
        "",
        vec![field("name", ty0("String"), ""), field("age", ty0("i32"), "")],
    );
    let dc = resolve(raw).unwrap();
    let p = construct(&dc, &vec!["Alice".to_string(), "30".to_string()]);
    let q = replace_instance(
        &dc,
        &p,
        &vec![
            ("age".to_string(), "31".to_string()),
            ("waist".to_string(), "ignored".to_string()),
            ("age".to_string(), "32".to_string()),
        ],
    );
    assert_eq!(q.values[0].1, "Alice");
    assert_eq!(q.values[1].1, "32");
    assert_eq!(q.values.len(), 2);
}

#[test]
fn ordering_turns_on_first_unequal_field() {
    let raw = named(
        "Pt",
        Vec::new(),
        "",
        vec![
            field("x", ty0("i32"), ""),
            field("note", ty0("String"), "compare = false"),
            field("y", ty0("i32"), ""),
        ],
    );
    let dc = resolve(raw).unwrap();
    let a = construct(&dc, &vec!["1".to_string(), "n1".to_string(), "2".to_string()]);
    let b = construct(&dc, &vec!["1".to_string(), "n2".to_string(), "3".to_string()]);
    let c = construct(&dc, &vec!["1".to_string(), "n3".to_string(), "2".to_string()]);
    assert_eq!(first_difference(&dc, &a, &b), Some(2));
    assert_eq!(first_difference(&dc, &a, &c), None);
    assert!(instances_equal(&dc, &a, &c));
}
