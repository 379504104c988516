use vstd::prelude::*;

verus! {

/// A reference to a field's type: a base name and its generic arguments,
/// e.g. `Option<String>` is `Type { name: "Option", generics: [String] }`.
#[derive(Debug)]
pub struct Type {
    pub name: String,
    pub generics: Vec<Type>,
}

/// How a defaulted field obtains its value when the caller supplies none:
/// either a named zero-argument factory resolved at generation time, or a
/// literal expression given as source text.  A field has at most one of the
/// two; the single tagged value makes the mutual exclusion structural.
#[derive(Debug)]
pub enum ValueProvider {
    Factory(String),
    Value(String),
}

/// A validated field descriptor: the per-field policy flags are already
/// resolved against the class-wide defaults, except `hash`, which keeps its
/// three states (inherit / force-on / force-off) for the synthesizer.
#[derive(Debug)]
pub struct Field {
    pub name: String,
    pub ty: Type,
    pub default: Option<ValueProvider>,
    pub hash: Option<bool>,
    pub validate: Option<String>,
    pub init: bool,
    pub repr: bool,
    pub compare: bool,
    pub kw_only: bool,
    pub metadata: Option<String>,
    pub init_var: bool,
}

/// The validated model of one annotated type: its name, generic parameter
/// names, class-wide policy flags, and field descriptors in declared order.
#[derive(Debug)]
pub struct Dataclass {
    pub name: String,
    pub generics: Vec<String>,
    pub init: bool,
    pub repr: bool,
    pub eq: bool,
    pub order: bool,
    pub hash: bool,
    pub frozen: bool,
    pub kw_only: bool,
    pub namespace: String,
    pub fields: Vec<Field>,
    pub post_init: Option<String>,
}

impl Default for Dataclass {
    /// The fixed table of class-wide policy defaults.
    fn default() -> (d: Self)
        ensures
            d.name@ == Seq::<char>::empty(),
            d.generics@ == Seq::<String>::empty(),
            d.init,
            d.repr,
            d.eq,
            !d.order,
            !d.hash,
            !d.frozen,
            !d.kw_only,
            d.namespace@ == Seq::<char>::empty(),
            d.fields@ == Seq::<Field>::empty(),
            d.post_init is None,
    {
        Dataclass {
            name: String::new(),
            generics: Vec::new(),
            init: true,
            repr: true,
            eq: true,
            order: false,
            hash: false,
            frozen: false,
            kw_only: false,
            namespace: String::new(),
            fields: Vec::new(),
            post_init: None,
        }
    }
}

/// The shape of the declaration the annotation was applied to.  Only a
/// struct with named fields can be processed.
#[derive(Debug)]
pub enum Shape {
    NamedStruct,
    UnnamedStruct,
    NotAStruct,
}

/// One raw field as handed in by the invoking mechanism: its name, its type,
/// and the raw annotation text attached to it (empty when unannotated).
#[derive(Debug)]
pub struct RawField {
    pub name: String,
    pub ty: Type,
    pub attr: String,
}

/// One raw type definition as handed in by the invoking mechanism.
#[derive(Debug)]
pub struct RawType {
    pub name: String,
    pub generics: Vec<String>,
    pub shape: Shape,
    pub attr: String,
    pub fields: Vec<RawField>,
}

/// Every way processing a type can fail.  Each error names the field or type
/// it is tied to; a single error aborts generation for the whole type.
#[derive(Debug)]
pub enum GenError {
    /// A directive key outside the fixed vocabulary.
    UnknownKey { field: String, key: String },
    /// A directive whose value text does not fit the key: a non-boolean text
    /// on a boolean key, or a bare key that requires a value.
    Malformed { field: String, key: String },
    /// A `default` expression that does not parse as an expression.
    BadLiteral { field: String, expr: String },
    /// `default` and `default_factory` on the same field.
    ConflictingDefaults { field: String },
    /// A field without a default after a field with one, neither keyword-only.
    FieldOrder { field: String },
    /// The annotation was applied to something that is not a struct.
    NotAStruct { name: String },
    /// The annotation was applied to a struct without named fields.
    NoNamedFields { name: String },
    /// A constructor call with the wrong number of supplied values.
    WrongArgCount { expected: usize, got: usize },
}

} // verus!
