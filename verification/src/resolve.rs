//! The policy resolver: raw directive lists become the validated model.
//! Type-wide defaults are merged with per-field overrides, the two default
//! providers are checked for conflict, default expressions are checked
//! against the expression grammar, and the positional field order is
//! validated.  Any failing check aborts resolution for the whole type.

use vstd::prelude::*;
use crate::def::{Dataclass, Field, GenError, RawField, RawType, Shape, ValueProvider};
use crate::ext::is_expr;
use crate::parse::{
    dviews, key_in_vocab, parse_annotation, sdirs, spec_opt_view, str_is, Directive,
};

verus! {

/// The content of one directive: key and optional value text.
pub type DirView = (Seq<char>, Option<Seq<char>>);

// ---------------------------------------------------------------------------
// Looking directives up; the last occurrence of a key wins
// ---------------------------------------------------------------------------

/// The index of the last directive with this key, or -1.
pub open spec fn last_index_of(ds: Seq<DirView>, key: Seq<char>) -> int
    decreases ds.len(),
{
    if ds.len() == 0 {
        -1
    } else if ds.last().0 == key {
        ds.len() - 1
    } else {
        last_index_of(ds.drop_last(), key)
    }
}

pub open spec fn has_key(ds: Seq<DirView>, key: Seq<char>) -> bool {
    last_index_of(ds, key) >= 0
}

/// The value text of the last directive with this key; `None` both when the
/// key is absent and when it stands bare — `has_key` tells the two apart.
pub open spec fn value_of(ds: Seq<DirView>, key: Seq<char>) -> Option<Seq<char>> {
    if has_key(ds, key) {
        ds[last_index_of(ds, key)].1
    } else {
        None
    }
}

proof fn lemma_last_index(ds: Seq<DirView>, key: Seq<char>)
    ensures
        -1 <= last_index_of(ds, key) < ds.len(),
        last_index_of(ds, key) >= 0 ==> ds[last_index_of(ds, key)].0 == key,
        last_index_of(ds, key) == -1 ==> forall|i: int| 0 <= i < ds.len() ==> (#[trigger] ds[i]).0 != key,
    decreases ds.len(),
{
    if ds.len() > 0 && ds.last().0 != key {
        lemma_last_index(ds.drop_last(), key);
        assert forall|i: int| last_index_of(ds, key) == -1 && 0 <= i < ds.len() implies (
        #[trigger] ds[i]).0 != key by {
            if i < ds.len() - 1 {
                assert(ds.drop_last()[i] == ds[i]);
            }
        }
    }
}

/// Find the last directive with this key.
fn last_entry(ds: &Vec<Directive>, key: &str) -> (r: Option<usize>)
    ensures
        r is Some <==> has_key(dviews(ds@), key@),
        r matches Some(i) ==> i == last_index_of(dviews(ds@), key@),
{
    let ghost dv = dviews(ds@);
    let mut found: Option<usize> = None;
    let mut i: usize = 0;
    while i < ds.len()
        invariant
            dv == dviews(ds@),
            dv.len() == ds@.len(),
            0 <= i <= ds.len(),
            match found {
                None => last_index_of(dv.take(i as int), key@) == -1,
                Some(j) => 0 <= j < i && last_index_of(dv.take(i as int), key@) == j,
            },
        decreases ds.len() - i,
    {
        proof {
            assert(dv[i as int].0 == ds@[i as int].key@);
            assert(dv.take(i as int + 1).drop_last() =~= dv.take(i as int));
            assert(dv.take(i as int + 1).last() == dv[i as int]);
        }
        if str_is(&ds[i].key, key) {
            found = Some(i);
        }
        i += 1;
    }
    proof {
        assert(dv.take(ds@.len() as int) =~= dv);
    }
    found
}

// ---------------------------------------------------------------------------
// Boolean and text directives
// ---------------------------------------------------------------------------

/// A boolean directive's meaning: bare means true; otherwise the value text
/// must read `true` or `false`.
pub open spec fn bool_text(v: Option<Seq<char>>) -> Option<bool> {
    match v {
        None => Some(true),
        Some(t) => if t == "true"@ {
            Some(true)
        } else if t == "false"@ {
            Some(false)
        } else {
            None
        },
    }
}

/// The directive, if present, carries a readable boolean.
pub open spec fn flag_ok(ds: Seq<DirView>, key: Seq<char>) -> bool {
    has_key(ds, key) ==> bool_text(value_of(ds, key)) is Some
}

/// The three-state reading of a boolean directive: absent means inherit.
pub open spec fn flag_opt(ds: Seq<DirView>, key: Seq<char>) -> Option<bool> {
    if has_key(ds, key) {
        bool_text(value_of(ds, key))
    } else {
        None
    }
}

/// The resolved value of a boolean directive against its inherited default.
pub open spec fn flag_value(ds: Seq<DirView>, key: Seq<char>, inherit: bool) -> bool {
    match flag_opt(ds, key) {
        Some(b) => b,
        None => inherit,
    }
}

/// The directive, if present, carries a value text (it may not stand bare).
pub open spec fn text_ok(ds: Seq<DirView>, key: Seq<char>) -> bool {
    has_key(ds, key) ==> value_of(ds, key) is Some
}

/// Read a boolean directive in its three states.
fn get_flag3(ds: &Vec<Directive>, key: &str, owner: &String) -> (r: Result<Option<bool>, GenError>)
    ensures
        r is Ok <==> flag_ok(dviews(ds@), key@),
        r matches Ok(v) ==> v == flag_opt(dviews(ds@), key@),
        r matches Err(e) ==> (e matches GenError::Malformed { field, key: k } && field@ == owner@
            && k@ == key@),
{
    let ghost dv = dviews(ds@);
    match last_entry(ds, key) {
        None => Ok(None),
        Some(i) => {
            proof {
                lemma_last_index(dv, key@);
                assert(dv[i as int].1 == spec_opt_view(ds@[i as int].value));
            }
            match &ds[i].value {
                None => Ok(Some(true)),
                Some(t) => {
                    if str_is(t, "true") {
                        Ok(Some(true))
                    } else if str_is(t, "false") {
                        Ok(Some(false))
                    } else {
                        Err(GenError::Malformed { field: owner.clone(), key: key.to_owned() })
                    }
                },
            }
        },
    }
}

/// Read a boolean directive, resolved against its inherited default.
fn get_flag(ds: &Vec<Directive>, key: &str, inherit: bool, owner: &String) -> (r: Result<
    bool,
    GenError,
>)
    ensures
        r is Ok <==> flag_ok(dviews(ds@), key@),
        r matches Ok(b) ==> b == flag_value(dviews(ds@), key@, inherit),
        r matches Err(e) ==> (e matches GenError::Malformed { field, key: k } && field@ == owner@
            && k@ == key@),
{
    match get_flag3(ds, key, owner) {
        Ok(Some(b)) => Ok(b),
        Ok(None) => Ok(inherit),
        Err(e) => Err(e),
    }
}

/// Read a text-valued directive; bare is malformed.
fn get_text(ds: &Vec<Directive>, key: &str, owner: &String) -> (r: Result<Option<String>, GenError>)
    ensures
        r is Ok <==> text_ok(dviews(ds@), key@),
        r matches Ok(v) ==> spec_opt_view(v) == value_of(dviews(ds@), key@),
        r matches Err(e) ==> (e matches GenError::Malformed { field, key: k } && field@ == owner@
            && k@ == key@),
{
    let ghost dv = dviews(ds@);
    match last_entry(ds, key) {
        None => Ok(None),
        Some(i) => {
            proof {
                lemma_last_index(dv, key@);
                assert(dv[i as int].1 == spec_opt_view(ds@[i as int].value));
            }
            match &ds[i].value {
                Some(t) => Ok(Some(t.clone())),
                None => Err(GenError::Malformed { field: owner.clone(), key: key.to_owned() }),
            }
        },
    }
}

// ---------------------------------------------------------------------------
// The default provider
// ---------------------------------------------------------------------------

/// The expression a bare `default` denotes: the type's zero value.
pub open spec fn zero_expr() -> Seq<char> {
    "::core::default::Default::default()"@
}

fn zero_expr_text() -> (r: String)
    ensures
        r@ == zero_expr(),
{
    "::core::default::Default::default()".to_owned()
}

pub open spec fn has_def(ds: Seq<DirView>) -> bool {
    has_key(ds, "default"@)
}

pub open spec fn has_fac(ds: Seq<DirView>) -> bool {
    has_key(ds, "default_factory"@)
}

/// The default directives are legal: not both providers, a factory names its
/// callable, and an explicit default parses as an expression.
pub open spec fn default_ok(ds: Seq<DirView>) -> bool {
    &&& !(has_def(ds) && has_fac(ds))
    &&& (has_fac(ds) ==> value_of(ds, "default_factory"@) is Some)
    &&& (match value_of(ds, "default"@) {
        Some(t) => is_expr(t),
        None => true,
    })
}

/// The provider the directives denote, as a relation on the result.
pub open spec fn provider_matches(p: Option<ValueProvider>, ds: Seq<DirView>) -> bool {
    &&& (p is None <==> !has_def(ds) && !has_fac(ds))
    &&& (has_fac(ds) ==> (p matches Some(ValueProvider::Factory(n)) && Some(n@) == value_of(
        ds,
        "default_factory"@,
    )))
    &&& (has_def(ds) && value_of(ds, "default"@) is None ==> (p matches Some(
        ValueProvider::Value(t),
    ) && t@ == zero_expr()))
    &&& (match value_of(ds, "default"@) {
        Some(e) => p matches Some(ValueProvider::Value(t)) && t@ == e,
        None => true,
    })
}

/// Resolve the two default directives into the single tagged provider.
fn resolve_default(ds: &Vec<Directive>, owner: &String) -> (r: Result<
    Option<ValueProvider>,
    GenError,
>)
    ensures
        r is Ok <==> default_ok(dviews(ds@)),
        r matches Ok(p) ==> provider_matches(p, dviews(ds@)),
        r matches Err(e) ==> match e {
            GenError::ConflictingDefaults { field } => field@ == owner@ && has_def(dviews(ds@))
                && has_fac(dviews(ds@)),
            GenError::Malformed { field, key } => field@ == owner@ && key@ == "default_factory"@
                && has_fac(dviews(ds@)) && value_of(dviews(ds@), "default_factory"@) is None,
            GenError::BadLiteral { field, expr } => field@ == owner@ && Some(expr@) == value_of(
                dviews(ds@),
                "default"@,
            ) && !is_expr(expr@),
            _ => false,
        },
{
    let ghost dv = dviews(ds@);
    let d = last_entry(ds, "default");
    let f = last_entry(ds, "default_factory");
    proof {
        lemma_last_index(dv, "default"@);
        lemma_last_index(dv, "default_factory"@);
    }
    if d.is_some() && f.is_some() {
        return Err(GenError::ConflictingDefaults { field: owner.clone() });
    }
    match f {
        Some(i) => {
            proof {
                assert(dv[i as int].1 == spec_opt_view(ds@[i as int].value));
            }
            match &ds[i].value {
                Some(n) => Ok(Some(ValueProvider::Factory(n.clone()))),
                None => Err(
                    GenError::Malformed { field: owner.clone(), key: "default_factory".to_owned() },
                ),
            }
        },
        None => match d {
            Some(i) => {
                proof {
                    assert(dv[i as int].1 == spec_opt_view(ds@[i as int].value));
                }
                match &ds[i].value {
                    None => Ok(Some(ValueProvider::Value(zero_expr_text()))),
                    Some(e) => {
                        if crate::ext::expr_parses(e.as_str()) {
                            Ok(Some(ValueProvider::Value(e.clone())))
                        } else {
                            Err(GenError::BadLiteral { field: owner.clone(), expr: e.clone() })
                        }
                    },
                }
            },
            None => Ok(None),
        },
    }
}

// ---------------------------------------------------------------------------
// One field
// ---------------------------------------------------------------------------

/// Every directive key is in the vocabulary of its level.
pub open spec fn all_known(ds: Seq<DirView>, field_level: bool) -> bool {
    forall|i: int| 0 <= i < ds.len() ==> key_in_vocab((#[trigger] ds[i]).0, field_level)
}

/// Every check on one field's directives passes.
pub open spec fn field_ok(ds: Seq<DirView>) -> bool {
    &&& flag_ok(ds, "init"@)
    &&& flag_ok(ds, "repr"@)
    &&& flag_ok(ds, "compare"@)
    &&& flag_ok(ds, "hash"@)
    &&& flag_ok(ds, "kw_only"@)
    &&& flag_ok(ds, "init_var"@)
    &&& default_ok(ds)
    &&& text_ok(ds, "validate"@)
    &&& text_ok(ds, "metadata"@)
}

/// Which single failing check a field-scoped error reports: an unknown key
/// that occurs in the directives, a directive whose value text does not fit
/// its key, a default expression outside the expression grammar, or both
/// default providers at once.
pub open spec fn field_err(e: GenError, dv: Seq<DirView>, owner: Seq<char>, field_level: bool) -> bool {
    match e {
        GenError::UnknownKey { field, key } => field@ == owner && !key_in_vocab(key@, field_level)
            && exists|i: int| 0 <= i < dv.len() && (#[trigger] dv[i]).0 == key@,
        GenError::Malformed { field, key } => field@ == owner && has_key(dv, key@) && (bool_text(
            value_of(dv, key@),
        ) is None || value_of(dv, key@) is None),
        GenError::BadLiteral { field, expr } => field@ == owner && value_of(dv, "default"@)
            == Some(expr@) && !is_expr(expr@),
        GenError::ConflictingDefaults { field } => field@ == owner && has_def(dv) && has_fac(dv),
        _ => false,
    }
}

/// The resolved field a raw field and the type-wide flags denote.
pub open spec fn field_matches(
    f: Field,
    rf: RawField,
    t_init: bool,
    t_repr: bool,
    t_eq: bool,
    t_kw: bool,
) -> bool {
    let dv = sdirs(rf.attr@);
    &&& f.name == rf.name
    &&& f.ty == rf.ty
    &&& f.init == flag_value(dv, "init"@, t_init)
    &&& f.repr == flag_value(dv, "repr"@, t_repr)
    &&& f.compare == flag_value(dv, "compare"@, t_eq)
    &&& f.kw_only == flag_value(dv, "kw_only"@, t_kw)
    &&& f.init_var == flag_value(dv, "init_var"@, false)
    &&& f.hash == flag_opt(dv, "hash"@)
    &&& spec_opt_view(f.validate) == value_of(dv, "validate"@)
    &&& spec_opt_view(f.metadata) == value_of(dv, "metadata"@)
    &&& provider_matches(f.default, dv)
}

/// Parse one field's annotation text and resolve it against the type-wide
/// flags into a field descriptor.
pub fn resolve_field(raw: RawField, t_init: bool, t_repr: bool, t_eq: bool, t_kw: bool) -> (r:
    Result<Field, GenError>)
    ensures
        r is Ok <==> all_known(sdirs(raw.attr@), true) && field_ok(sdirs(raw.attr@)),
        r matches Ok(f) ==> field_matches(f, raw, t_init, t_repr, t_eq, t_kw),
        r matches Err(e) ==> field_err(e, sdirs(raw.attr@), raw.name@, true),
{
    let RawField { name, ty, attr } = raw;
    let ghost dv = sdirs(attr@);
    let ds = match parse_annotation(&name, attr.as_str(), true) {
        Ok(ds) => ds,
        Err(e) => {
            proof {
                assert(!all_known(dv, true));
            }
            return Err(e);
        },
    };
    let init = match get_flag(&ds, "init", t_init, &name) {
        Ok(b) => b,
        Err(e) => return Err(e),
    };
    let repr = match get_flag(&ds, "repr", t_repr, &name) {
        Ok(b) => b,
        Err(e) => return Err(e),
    };
    let compare = match get_flag(&ds, "compare", t_eq, &name) {
        Ok(b) => b,
        Err(e) => return Err(e),
    };
    let kw_only = match get_flag(&ds, "kw_only", t_kw, &name) {
        Ok(b) => b,
        Err(e) => return Err(e),
    };
    let init_var = match get_flag(&ds, "init_var", false, &name) {
        Ok(b) => b,
        Err(e) => return Err(e),
    };
    let hash = match get_flag3(&ds, "hash", &name) {
        Ok(v) => v,
        Err(e) => return Err(e),
    };
    let validate = match get_text(&ds, "validate", &name) {
        Ok(v) => v,
        Err(e) => return Err(e),
    };
    let metadata = match get_text(&ds, "metadata", &name) {
        Ok(v) => v,
        Err(e) => return Err(e),
    };
    let default = match resolve_default(&ds, &name) {
        Ok(p) => p,
        Err(e) => return Err(e),
    };
    Ok(Field { name, ty, default, hash, validate, init, repr, compare, kw_only, metadata, init_var })
}

// ---------------------------------------------------------------------------
// Field order
// ---------------------------------------------------------------------------

/// Field `i` breaks the positional order: it has no default and is not
/// keyword-only, yet a non-keyword-only field with a default precedes it.
pub open spec fn offending(fs: Seq<Field>, i: int) -> bool {
    &&& 0 <= i < fs.len()
    &&& fs[i].default is None
    &&& !fs[i].kw_only
    &&& exists|j: int| 0 <= j < i && (#[trigger] fs[j]).default is Some && !fs[j].kw_only
}

/// Check the positional constructor order, naming the first offending field.
pub fn check_order(fs: &Vec<Field>) -> (r: Result<(), GenError>)
    ensures
        r is Ok <==> (forall|i: int| 0 <= i < fs@.len() ==> !offending(fs@, i)),
        r matches Err(e) ==> (e matches GenError::FieldOrder { field } && exists|i: int|
            offending(fs@, i) && field@ == fs@[i].name@ && (forall|j: int|
                0 <= j < i ==> !offending(fs@, j))),
{
    let mut seen_default = false;
    let mut i: usize = 0;
    while i < fs.len()
        invariant
            0 <= i <= fs@.len(),
            seen_default == exists|j: int|
                0 <= j < i && (#[trigger] fs@[j]).default is Some && !fs@[j].kw_only,
            forall|j: int| 0 <= j < i ==> !offending(fs@, j),
        decreases fs@.len() - i,
    {
        let has_default = fs[i].default.is_some();
        let kw = fs[i].kw_only;
        if !has_default && !kw && seen_default {
            proof {
                assert(offending(fs@, i as int));
            }
            return Err(GenError::FieldOrder { field: fs[i].name.clone() });
        }
        proof {
            assert(!offending(fs@, i as int));
        }
        if has_default && !kw {
            seen_default = true;
        }
        i += 1;
    }
    Ok(())
}

// ---------------------------------------------------------------------------
// The whole type
// ---------------------------------------------------------------------------

/// Every check on the type-level directives passes.
pub open spec fn type_ok(ds: Seq<DirView>) -> bool {
    &&& flag_ok(ds, "init"@)
    &&& flag_ok(ds, "repr"@)
    &&& flag_ok(ds, "eq"@)
    &&& flag_ok(ds, "order"@)
    &&& flag_ok(ds, "hash"@)
    &&& flag_ok(ds, "frozen"@)
    &&& flag_ok(ds, "kw_only"@)
    &&& text_ok(ds, "namespace"@)
    &&& text_ok(ds, "post_init"@)
}

/// A text value, or empty when absent.
pub open spec fn text_or_empty(v: Option<Seq<char>>) -> Seq<char> {
    match v {
        Some(t) => t,
        None => Seq::empty(),
    }
}

/// Field `i` of the raw type breaks the positional order, read directly off
/// the raw directive lists.
pub open spec fn raw_offending(raw: RawType, i: int) -> bool {
    let t_kw = flag_value(sdirs(raw.attr@), "kw_only"@, false);
    &&& 0 <= i < raw.fields@.len()
    &&& !has_def(sdirs(raw.fields@[i].attr@)) && !has_fac(sdirs(raw.fields@[i].attr@))
    &&& !flag_value(sdirs(raw.fields@[i].attr@), "kw_only"@, t_kw)
    &&& exists|j: int|
        0 <= j < i && (has_def(sdirs((#[trigger] raw.fields@[j]).attr@)) || has_fac(
            sdirs(raw.fields@[j].attr@),
        )) && !flag_value(sdirs(raw.fields@[j].attr@), "kw_only"@, t_kw)
}

/// Every check on a whole raw type passes.
pub open spec fn raw_ok(raw: RawType) -> bool {
    &&& raw.shape is NamedStruct
    &&& all_known(sdirs(raw.attr@), false)
    &&& type_ok(sdirs(raw.attr@))
    &&& (forall|i: int|
        0 <= i < raw.fields@.len() ==> all_known(
            sdirs((#[trigger] raw.fields@[i]).attr@),
            true,
        ) && field_ok(sdirs(raw.fields@[i].attr@)))
    &&& (forall|i: int| 0 <= i < raw.fields@.len() ==> !raw_offending(raw, i))
}

/// Turn one raw type definition into the validated model, or the first
/// error any check raises.  No model is produced for a type with any
/// failing check.
pub fn resolve(raw: RawType) -> (r: Result<Dataclass, GenError>)
    ensures
        r is Ok <==> raw_ok(raw),
        r matches Ok(dc) ==> {
            let tdv = sdirs(raw.attr@);
            &&& dc.name == raw.name
            &&& dc.generics == raw.generics
            &&& dc.init == flag_value(tdv, "init"@, true)
            &&& dc.repr == flag_value(tdv, "repr"@, true)
            &&& dc.eq == flag_value(tdv, "eq"@, true)
            &&& dc.order == flag_value(tdv, "order"@, false)
            &&& dc.hash == flag_value(tdv, "hash"@, false)
            &&& dc.frozen == flag_value(tdv, "frozen"@, false)
            &&& dc.kw_only == flag_value(tdv, "kw_only"@, false)
            &&& dc.namespace@ == text_or_empty(value_of(tdv, "namespace"@))
            &&& spec_opt_view(dc.post_init) == value_of(tdv, "post_init"@)
            &&& dc.fields@.len() == raw.fields@.len()
            &&& (forall|i: int|
                0 <= i < raw.fields@.len() ==> field_matches(
                    #[trigger] dc.fields@[i],
                    raw.fields@[i],
                    dc.init,
                    dc.repr,
                    dc.eq,
                    dc.kw_only,
                ))
        },
        raw.shape is NotAStruct ==> (r matches Err(e) && e matches GenError::NotAStruct { name }
            && name@ == raw.name@),
        raw.shape is UnnamedStruct ==> (r matches Err(e) && e matches GenError::NoNamedFields {
            name,
        } && name@ == raw.name@),
        r matches Err(e) ==> (e matches GenError::FieldOrder { field } ==> exists|i: int|
            raw_offending(raw, i) && field@ == (#[trigger] raw.fields@[i]).name@),
        raw.shape is NamedStruct ==> (r matches Err(e) ==> ({
            ||| field_err(e, sdirs(raw.attr@), raw.name@, false)
            ||| exists|k: int|
                0 <= k < raw.fields@.len() && field_err(
                    e,
                    sdirs((#[trigger] raw.fields@[k]).attr@),
                    raw.fields@[k].name@,
                    true,
                )
            ||| e matches GenError::FieldOrder { field: _ }
        })),
{
    let RawType { name, generics, shape, attr, fields } = raw;
    match shape {
        Shape::NotAStruct => {
            return Err(GenError::NotAStruct { name });
        },
        Shape::UnnamedStruct => {
            return Err(GenError::NoNamedFields { name });
        },
        Shape::NamedStruct => {},
    }
    let ghost tdv = sdirs(attr@);
    let tds = match parse_annotation(&name, attr.as_str(), false) {
        Ok(ds) => ds,
        Err(e) => {
            proof {
                assert(!all_known(tdv, false));
            }
            return Err(e);
        },
    };
    let t_init = match get_flag(&tds, "init", true, &name) {
        Ok(b) => b,
        Err(e) => return Err(e),
    };
    let t_repr = match get_flag(&tds, "repr", true, &name) {
        Ok(b) => b,
        Err(e) => return Err(e),
    };
    let t_eq = match get_flag(&tds, "eq", true, &name) {
        Ok(b) => b,
        Err(e) => return Err(e),
    };
    let t_order = match get_flag(&tds, "order", false, &name) {
        Ok(b) => b,
        Err(e) => return Err(e),
    };
    let t_hash = match get_flag(&tds, "hash", false, &name) {
        Ok(b) => b,
        Err(e) => return Err(e),
    };
    let t_frozen = match get_flag(&tds, "frozen", false, &name) {
        Ok(b) => b,
        Err(e) => return Err(e),
    };
    let t_kw = match get_flag(&tds, "kw_only", false, &name) {
        Ok(b) => b,
        Err(e) => return Err(e),
    };
    let namespace = match get_text(&tds, "namespace", &name) {
        Ok(Some(t)) => t,
        Ok(None) => String::new(),
        Err(e) => return Err(e),
    };
    let post_init = match get_text(&tds, "post_init", &name) {
        Ok(v) => v,
        Err(e) => return Err(e),
    };

    let ghost raw_fields = fields@;
    let mut rest = fields;
    let mut fs: Vec<Field> = Vec::new();
    proof {
        assert(rest@ =~= raw_fields.subrange(0, raw_fields.len() as int));
        assert(raw.shape is NamedStruct);
        assert(raw.fields@ == raw_fields);
        assert(tdv == sdirs(raw.attr@));
        assert(t_kw == flag_value(sdirs(raw.attr@), "kw_only"@, false));
    }
    while rest.len() > 0
        invariant
            raw.shape is NamedStruct,
            raw.fields@ == raw_fields,
            tdv == sdirs(raw.attr@),
            t_kw == flag_value(sdirs(raw.attr@), "kw_only"@, false),
            fs@.len() + rest@.len() == raw_fields.len(),
            rest@ == raw_fields.subrange(fs@.len() as int, raw_fields.len() as int),
            forall|j: int|
                0 <= j < fs@.len() ==> all_known(
                    sdirs((#[trigger] raw_fields[j]).attr@),
                    true,
                ) && field_ok(sdirs(raw_fields[j].attr@)),
            forall|j: int|
                0 <= j < fs@.len() ==> field_matches(
                    #[trigger] fs@[j],
                    raw_fields[j],
                    t_init,
                    t_repr,
                    t_eq,
                    t_kw,
                ),
        decreases rest@.len(),
    {
        let ghost k = fs@.len() as int;
        let rf = rest.remove(0);
        proof {
            assert(rf == raw_fields[k]);
            assert(rest@ =~= raw_fields.subrange(k + 1, raw_fields.len() as int));
        }
        let f = match resolve_field(rf, t_init, t_repr, t_eq, t_kw) {
            Ok(f) => f,
            Err(e) => {
                proof {
                    assert(0 <= k < raw.fields@.len());
                    assert(!(all_known(sdirs((#[trigger] raw.fields@[k]).attr@), true)
                        && field_ok(sdirs(raw.fields@[k].attr@))));
                    assert(!raw_ok(raw));
                }
                return Err(e);
            },
        };
        fs.push(f);
    }

    proof {
        assert forall|i: int| 0 <= i < fs@.len() implies (offending(fs@, i) == raw_offending(
            raw,
            i,
        )) by {
            if offending(fs@, i) {
                let j = choose|j: int|
                    0 <= j < i && (#[trigger] fs@[j]).default is Some && !fs@[j].kw_only;
                assert(has_def(sdirs(raw.fields@[j].attr@)) || has_fac(
                    sdirs(raw.fields@[j].attr@),
                ));
                assert(raw_offending(raw, i));
            }
            if raw_offending(raw, i) {
                let t_kw0 = flag_value(sdirs(raw.attr@), "kw_only"@, false);
                let j = choose|j: int|
                    0 <= j < i && (has_def(sdirs((#[trigger] raw.fields@[j]).attr@)) || has_fac(
                        sdirs(raw.fields@[j].attr@),
                    )) && !flag_value(sdirs(raw.fields@[j].attr@), "kw_only"@, t_kw0);
                assert(fs@[j].default is Some && !fs@[j].kw_only);
                assert(offending(fs@, i));
            }
        }
    }
    match check_order(&fs) {
        Ok(()) => {
            proof {
                assert forall|i: int| 0 <= i < raw.fields@.len() implies !raw_offending(
                    raw,
                    i,
                ) by {
                    assert(!offending(fs@, i));
                }
                assert(raw_ok(raw));
            }
        },
        Err(e) => {
            proof {
                let i = choose|i: int| offending(fs@, i);
                assert(raw_offending(raw, i));
                assert(!raw_ok(raw));
            }
            return Err(e);
        },
    }

    let dc = Dataclass {
        name,
        generics,
        init: t_init,
        repr: t_repr,
        eq: t_eq,
        order: t_order,
        hash: t_hash,
        frozen: t_frozen,
        kw_only: t_kw,
        namespace,
        fields: fs,
        post_init,
    };
    Ok(dc)
}

} // verus!
