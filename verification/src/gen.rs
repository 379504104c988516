//! The code synthesizer: a validated model becomes the concrete set of
//! generated operations.  The structural summary (constructor parameters,
//! formatter fields, comparison fields, shared generic bounds, default
//! constructor eligibility) is computed here, together with the value-level
//! meaning of the generated operations: constructing an instance from
//! supplied values and defaults, cloning it, comparing it, and formatting it.

use vstd::prelude::*;
use vstd::string::*;
use crate::def::{Dataclass, Field, GenError, Type, ValueProvider};
use crate::ext::{render_struct, struct_decl_of};

verus! {

// ---------------------------------------------------------------------------
// Rendering a type reference
// ---------------------------------------------------------------------------

/// The text of a type reference, e.g. `Option<String>`.
pub open spec fn spec_type_text(t: Type) -> Seq<char>
    decreases t, 0int,
{
    if t.generics@.len() == 0 {
        t.name@
    } else {
        t.name@ + "<"@ + spec_types_text(t.generics@, 0) + ">"@
    }
}

/// The comma-joined texts of the type references `ts[i..]`.
pub open spec fn spec_types_text(ts: Seq<Type>, i: int) -> Seq<char>
    decreases ts, ts.len() - i,
{
    if i < 0 || i >= ts.len() {
        Seq::empty()
    } else if i == ts.len() - 1 {
        spec_type_text(ts[i])
    } else {
        spec_type_text(ts[i]) + ", "@ + spec_types_text(ts, i + 1)
    }
}

/// Render a type reference as source text.
pub fn type_text(t: &Type) -> (r: String)
    ensures
        r@ == spec_type_text(*t),
    decreases *t, 0int,
{
    if t.generics.len() == 0 {
        t.name.clone()
    } else {
        let mut s = t.name.clone();
        s.append("<");
        let inner = types_text(&t.generics, 0);
        s.append(inner.as_str());
        s.append(">");
        proof {
            assert(s@ =~= spec_type_text(*t));
        }
        s
    }
}

fn types_text(ts: &Vec<Type>, i: usize) -> (r: String)
    requires
        i < ts@.len(),
    ensures
        r@ == spec_types_text(ts@, i as int),
    decreases ts@, ts@.len() - i,
{
    let mut s = type_text(&ts[i]);
    if ts.len() - i > 1 {
        s.append(", ");
        let rest = types_text(ts, i + 1);
        s.append(rest.as_str());
        proof {
            assert(s@ =~= spec_types_text(ts@, i as int));
        }
    }
    s
}

// ---------------------------------------------------------------------------
// Field selections
// ---------------------------------------------------------------------------

/// The names of the fields in `fs[i..]` without a default: the positional
/// constructor parameters, in declared order.
pub open spec fn required_names(fs: Seq<Field>, i: int) -> Seq<Seq<char>>
    decreases fs.len() - i,
{
    if i < 0 || i >= fs.len() {
        Seq::empty()
    } else if fs[i].default is None {
        seq![fs[i].name@] + required_names(fs, i + 1)
    } else {
        required_names(fs, i + 1)
    }
}

/// The names of the formatter-enabled fields in `fs[i..]`, in declared order.
pub open spec fn repr_names(fs: Seq<Field>, i: int) -> Seq<Seq<char>>
    decreases fs.len() - i,
{
    if i < 0 || i >= fs.len() {
        Seq::empty()
    } else if fs[i].repr {
        seq![fs[i].name@] + repr_names(fs, i + 1)
    } else {
        repr_names(fs, i + 1)
    }
}

/// The names of the comparison-enabled fields in `fs[i..]`, in declared order.
pub open spec fn compare_names(fs: Seq<Field>, i: int) -> Seq<Seq<char>>
    decreases fs.len() - i,
{
    if i < 0 || i >= fs.len() {
        Seq::empty()
    } else if fs[i].compare {
        seq![fs[i].name@] + compare_names(fs, i + 1)
    } else {
        compare_names(fs, i + 1)
    }
}

/// Every field resolves to a value without caller input.
pub open spec fn all_default(fs: Seq<Field>) -> bool {
    forall|i: int| 0 <= i < fs.len() ==> (#[trigger] fs[i]).default is Some
}

/// The capability set imposed on every generic parameter, resolved once and
/// shared by every emitted operation.
pub open spec fn cap_names() -> Seq<Seq<char>> {
    seq!["Clone"@, "Debug"@, "PartialEq"@, "Eq"@, "Default"@]
}

// ---------------------------------------------------------------------------
// The structural summary of the generated operations
// ---------------------------------------------------------------------------

/// What the synthesizer emits for one validated model.
#[derive(Debug)]
pub struct Generated {
    /// Positional constructor parameters: fields without a default, in order.
    pub ctor_params: Vec<String>,
    /// Fields the formatter lists, in declared order.
    pub repr_fields: Vec<String>,
    /// Fields equality and ordering compare, in declared order.
    pub compare_fields: Vec<String>,
    /// The capability bounds put on every generic parameter, shared by all
    /// operations; empty when the type has no generic parameters.
    pub bounds: Vec<String>,
    /// Whether a zero-argument constructor is emitted.
    pub has_default_ctor: bool,
}

/// Compute the structural summary of every policy-enabled operation.
pub fn synthesize(dc: &Dataclass) -> (g: Generated)
    ensures
        g.ctor_params@.map_values(|s: String| s@) == required_names(dc.fields@, 0),
        g.repr_fields@.map_values(|s: String| s@) == repr_names(dc.fields@, 0),
        g.compare_fields@.map_values(|s: String| s@) == compare_names(dc.fields@, 0),
        g.has_default_ctor == all_default(dc.fields@),
        g.bounds@.map_values(|s: String| s@) == if dc.generics@.len() == 0 {
            Seq::<Seq<char>>::empty()
        } else {
            cap_names()
        },
{
    let fs = &dc.fields;
    let mut ctor_params: Vec<String> = Vec::new();
    let mut repr_fields: Vec<String> = Vec::new();
    let mut compare_fields: Vec<String> = Vec::new();
    let mut has_default_ctor = true;
    let mut i: usize = 0;
    while i < fs.len()
        invariant
            0 <= i <= fs@.len(),
            ctor_params@.map_values(|s: String| s@) + required_names(fs@, i as int)
                =~= required_names(fs@, 0),
            repr_fields@.map_values(|s: String| s@) + repr_names(fs@, i as int)
                =~= repr_names(fs@, 0),
            compare_fields@.map_values(|s: String| s@) + compare_names(fs@, i as int)
                =~= compare_names(fs@, 0),
            has_default_ctor == (forall|j: int| 0 <= j < i ==> (#[trigger] fs@[j]).default is Some),
        decreases fs@.len() - i,
    {
        let f = &fs[i];
        if f.default.is_none() {
            let ghost old = ctor_params@;
            ctor_params.push(f.name.clone());
            has_default_ctor = false;
            proof {
                assert(ctor_params@.map_values(|s: String| s@)
                    =~= old.map_values(|s: String| s@).push(fs@[i as int].name@));
            }
        }
        if f.repr {
            let ghost old = repr_fields@;
            repr_fields.push(f.name.clone());
            proof {
                assert(repr_fields@.map_values(|s: String| s@)
                    =~= old.map_values(|s: String| s@).push(fs@[i as int].name@));
            }
        }
        if f.compare {
            let ghost old = compare_fields@;
            compare_fields.push(f.name.clone());
            proof {
                assert(compare_fields@.map_values(|s: String| s@)
                    =~= old.map_values(|s: String| s@).push(fs@[i as int].name@));
            }
        }
        i += 1;
    }
    let mut bounds: Vec<String> = Vec::new();
    if dc.generics.len() > 0 {
        bounds.push("Clone".to_owned());
        bounds.push("Debug".to_owned());
        bounds.push("PartialEq".to_owned());
        bounds.push("Eq".to_owned());
        bounds.push("Default".to_owned());
    }
    proof {
        if dc.generics@.len() > 0 {
            assert(bounds@.map_values(|s: String| s@) =~= cap_names());
        } else {
            assert(bounds@.map_values(|s: String| s@) =~= Seq::<Seq<char>>::empty());
        }
        assert(ctor_params@.map_values(|s: String| s@) =~= required_names(fs@, 0));
        assert(repr_fields@.map_values(|s: String| s@) =~= repr_names(fs@, 0));
        assert(compare_fields@.map_values(|s: String| s@) =~= compare_names(fs@, 0));
    }
    Generated { ctor_params, repr_fields, compare_fields, bounds, has_default_ctor }
}

// ---------------------------------------------------------------------------
// The value-level meaning of the generated operations
// ---------------------------------------------------------------------------

/// A constructed instance: one value text per stored field, in declared
/// order, each paired with its field name.
#[derive(Debug)]
pub struct Instance {
    pub values: Vec<(String, String)>,
}

/// How many of the first `i` fields lack a default: the position among the
/// constructor arguments of the next required field.
pub open spec fn req_count(fs: Seq<Field>, i: int) -> int
    decreases i,
{
    if i <= 0 {
        0
    } else {
        req_count(fs, i - 1) + if fs[i - 1].default is None {
            1int
        } else {
            0int
        }
    }
}

/// The value a defaulted field receives: its literal text, or a call of its
/// factory.
pub open spec fn default_text(p: ValueProvider) -> Seq<char> {
    match p {
        ValueProvider::Value(t) => t@,
        ValueProvider::Factory(n) => n@ + "()"@,
    }
}

proof fn lemma_req_count_mono(fs: Seq<Field>, i: int, j: int)
    requires
        0 <= i <= j,
    ensures
        req_count(fs, i) <= req_count(fs, j),
    decreases j - i,
{
    if i < j {
        lemma_req_count_mono(fs, i, j - 1);
    }
}

/// Apply the synthesized constructor: each field without a default takes the
/// next supplied value, in declared order; each defaulted field takes its
/// literal or factory default.
pub fn construct(dc: &Dataclass, args: &Vec<String>) -> (r: Instance)
    requires
        args@.len() == req_count(dc.fields@, dc.fields@.len() as int),
    ensures
        r.values@.len() == dc.fields@.len(),
        forall|i: int|
            0 <= i < dc.fields@.len() ==> (#[trigger] r.values@[i]).0@ == dc.fields@[i].name@,
        forall|i: int|
            0 <= i < dc.fields@.len() && dc.fields@[i].default is None ==> (
            #[trigger] r.values@[i]).1@ == args@[req_count(dc.fields@, i)]@,
        forall|i: int|
            0 <= i < dc.fields@.len() ==> match dc.fields@[i].default {
                Some(p) => (#[trigger] r.values@[i]).1@ == default_text(p),
                None => true,
            },
{
    let fs = &dc.fields;
    let mut values: Vec<(String, String)> = Vec::new();
    let mut k: usize = 0;
    let mut i: usize = 0;
    while i < fs.len()
        invariant
            0 <= i <= fs@.len(),
            args@.len() == req_count(fs@, fs@.len() as int),
            k == req_count(fs@, i as int),
            k <= i,
            k <= args@.len(),
            values@.len() == i,
            forall|j: int| 0 <= j < i ==> (#[trigger] values@[j]).0@ == fs@[j].name@,
            forall|j: int|
                0 <= j < i && fs@[j].default is None ==> (#[trigger] values@[j]).1@ == args@[
                    req_count(fs@, j)
                ]@,
            forall|j: int|
                0 <= j < i ==> match fs@[j].default {
                    Some(p) => (#[trigger] values@[j]).1@ == default_text(p),
                    None => true,
                },
        decreases fs@.len() - i,
    {
        let name = fs[i].name.clone();
        match &fs[i].default {
            None => {
                proof {
                    assert(req_count(fs@, i as int + 1) == k + 1);
                    lemma_req_count_mono(fs@, i as int + 1, fs@.len() as int);
                    assert(k < args@.len());
                }
                let v = args[k].clone();
                values.push((name, v));
                k = k + 1;
            },
            Some(ValueProvider::Value(t)) => {
                values.push((name, t.clone()));
            },
            Some(ValueProvider::Factory(n)) => {
                let mut call = n.clone();
                call.append("()");
                values.push((name, call));
            },
        }
        i += 1;
    }
    Instance { values }
}

/// Apply the constructor after checking the argument count, as the generated
/// positional constructor enforces it at its call site.
pub fn try_construct(dc: &Dataclass, args: &Vec<String>) -> (r: Result<Instance, GenError>)
    ensures
        r is Ok <==> args@.len() == req_count(dc.fields@, dc.fields@.len() as int),
        r matches Err(e) ==> (e matches GenError::WrongArgCount { expected, got } && expected
            == req_count(dc.fields@, dc.fields@.len() as int) && got == args@.len()),
        r matches Ok(x) ==> x.values@.len() == dc.fields@.len(),
{
    let fs = &dc.fields;
    let mut expected: usize = 0;
    let mut i: usize = 0;
    while i < fs.len()
        invariant
            0 <= i <= fs@.len(),
            expected == req_count(fs@, i as int),
            expected <= i,
        decreases fs@.len() - i,
    {
        if fs[i].default.is_none() {
            expected = expected + 1;
        }
        i += 1;
    }
    if args.len() != expected {
        return Err(GenError::WrongArgCount { expected, got: args.len() });
    }
    Ok(construct(dc, args))
}

/// The zero-argument constructor's instance: every field from its default.
pub fn default_construct(dc: &Dataclass) -> (r: Option<Instance>)
    ensures
        r is Some <==> all_default(dc.fields@),
        r matches Some(x) ==> {
            &&& x.values@.len() == dc.fields@.len()
            &&& (forall|i: int|
                0 <= i < dc.fields@.len() ==> (#[trigger] x.values@[i]).0@ == dc.fields@[i].name@)
            &&& (forall|i: int|
                0 <= i < dc.fields@.len() ==> match dc.fields@[i].default {
                    Some(p) => (#[trigger] x.values@[i]).1@ == default_text(p),
                    None => true,
                })
        },
{
    let fs = &dc.fields;
    let mut values: Vec<(String, String)> = Vec::new();
    let mut i: usize = 0;
    while i < fs.len()
        invariant
            fs@ == dc.fields@,
            0 <= i <= fs@.len(),
            values@.len() == i,
            forall|j: int| 0 <= j < i ==> (#[trigger] fs@[j]).default is Some,
            forall|j: int| 0 <= j < i ==> (#[trigger] values@[j]).0@ == fs@[j].name@,
            forall|j: int|
                0 <= j < i ==> match fs@[j].default {
                    Some(p) => (#[trigger] values@[j]).1@ == default_text(p),
                    None => true,
                },
        decreases fs@.len() - i,
    {
        let name = fs[i].name.clone();
        match &fs[i].default {
            None => {
                proof {
                    assert(!((#[trigger] fs@[i as int]).default is Some));
                    assert(!all_default(fs@));
                }
                return None;
            },
            Some(ValueProvider::Value(t)) => {
                values.push((name, t.clone()));
            },
            Some(ValueProvider::Factory(n)) => {
                let mut call = n.clone();
                call.append("()");
                values.push((name, call));
            },
        }
        i += 1;
    }
    Some(Instance { values })
}

/// Field-wise duplication: what the generated clone does.
pub fn clone_instance(x: &Instance) -> (r: Instance)
    ensures
        r.values@ == x.values@,
{
    let mut values: Vec<(String, String)> = Vec::new();
    let mut i: usize = 0;
    while i < x.values.len()
        invariant
            0 <= i <= x.values@.len(),
            values@ =~= x.values@.take(i as int),
        decreases x.values@.len() - i,
    {
        values.push((x.values[i].0.clone(), x.values[i].1.clone()));
        i += 1;
    }
    proof {
        assert(values@ =~= x.values@);
    }
    Instance { values }
}

/// What the generated equality means: the comparison-enabled fields agree.
pub open spec fn inst_eq(fs: Seq<Field>, av: Seq<(String, String)>, bv: Seq<(String, String)>) -> bool {
    forall|i: int| 0 <= i < fs.len() && (#[trigger] fs[i]).compare ==> av[i].1@ == bv[i].1@
}

/// The generated equality: the conjunction, in declared field order, of the
/// per-field checks, restricted to comparison-enabled fields.
pub fn instances_equal(dc: &Dataclass, a: &Instance, b: &Instance) -> (r: bool)
    requires
        a.values@.len() == dc.fields@.len(),
        b.values@.len() == dc.fields@.len(),
    ensures
        r == inst_eq(dc.fields@, a.values@, b.values@),
{
    let fs = &dc.fields;
    let mut i: usize = 0;
    while i < fs.len()
        invariant
            fs@ == dc.fields@,
            0 <= i <= fs@.len(),
            a.values@.len() == fs@.len(),
            b.values@.len() == fs@.len(),
            forall|j: int| 0 <= j < i && (#[trigger] fs@[j]).compare ==> a.values@[j].1@
                == b.values@[j].1@,
        decreases fs@.len() - i,
    {
        if fs[i].compare {
            if !(a.values[i].1 == b.values[i].1) {
                proof {
                    assert((#[trigger] fs@[i as int]).compare && a.values@[i as int].1@
                        != b.values@[i as int].1@);
                    assert(!inst_eq(fs@, a.values@, b.values@));
                }
                return false;
            }
        }
        i += 1;
    }
    true
}

/// Clone then compare: an instance always equals its clone, whatever the
/// comparison-enabled field set — the round-trip law of the generated clone
/// and equality.
pub proof fn lemma_clone_equal(fs: Seq<Field>, x: Instance, c: Instance)
    requires
        x.values@.len() == fs.len(),
        c.values@ == x.values@,
    ensures
        inst_eq(fs, x.values@, c.values@),
{
}

/// The (name, value) pairs of the formatter-listed fields in `fs[i..]`.
pub open spec fn repr_pairs(fs: Seq<Field>, av: Seq<(String, String)>, i: int) -> Seq<
    (Seq<char>, Seq<char>),
>
    decreases fs.len() - i,
{
    if i < 0 || i >= fs.len() {
        Seq::empty()
    } else if fs[i].repr {
        seq![(fs[i].name@, av[i].1@)] + repr_pairs(fs, av, i + 1)
    } else {
        repr_pairs(fs, av, i + 1)
    }
}

/// The generated formatter: each formatter-enabled field's name paired with
/// its value, in declared order; a field with `repr` disabled is omitted
/// entirely.
pub fn format_instance(dc: &Dataclass, x: &Instance) -> (r: Vec<(String, String)>)
    requires
        x.values@.len() == dc.fields@.len(),
    ensures
        r@.map_values(|p: (String, String)| (p.0@, p.1@)) == repr_pairs(dc.fields@, x.values@, 0),
{
    let fs = &dc.fields;
    let mut out: Vec<(String, String)> = Vec::new();
    let mut i: usize = 0;
    while i < fs.len()
        invariant
            0 <= i <= fs@.len(),
            x.values@.len() == fs@.len(),
            out@.map_values(|p: (String, String)| (p.0@, p.1@)) + repr_pairs(
                fs@,
                x.values@,
                i as int,
            ) =~= repr_pairs(fs@, x.values@, 0),
        decreases fs@.len() - i,
    {
        if fs[i].repr {
            let ghost old = out@;
            out.push((fs[i].name.clone(), x.values[i].1.clone()));
            proof {
                assert(out@.map_values(|p: (String, String)| (p.0@, p.1@))
                    =~= old.map_values(|p: (String, String)| (p.0@, p.1@)).push(
                    (fs@[i as int].name@, x.values@[i as int].1@),
                ));
            }
        }
        i += 1;
    }
    proof {
        assert(out@.map_values(|p: (String, String)| (p.0@, p.1@)) =~= repr_pairs(
            fs@,
            x.values@,
            0,
        ));
    }
    out
}



/// Field `i` decides: it takes part in comparison and the two instances
/// disagree on it.
pub open spec fn differing(
    fs: Seq<Field>,
    av: Seq<(String, String)>,
    bv: Seq<(String, String)>,
    i: int,
) -> bool {
    0 <= i < fs.len() && fs[i].compare && av[i].1@ != bv[i].1@
}

/// What the generated ordering turns on: the first comparison-enabled field,
/// in declared order, on which the two instances disagree — lexicographic by
/// field order, the first non-equal field decides.  `None` exactly when the
/// generated equality holds.
pub fn first_difference(dc: &Dataclass, a: &Instance, b: &Instance) -> (r: Option<usize>)
    requires
        a.values@.len() == dc.fields@.len(),
        b.values@.len() == dc.fields@.len(),
    ensures
        r is None <==> inst_eq(dc.fields@, a.values@, b.values@),
        r matches Some(i) ==> differing(dc.fields@, a.values@, b.values@, i as int) && (forall|
            j: int,
        |
            0 <= j < i ==> !differing(dc.fields@, a.values@, b.values@, j)),
{
    let fs = &dc.fields;
    let mut i: usize = 0;
    while i < fs.len()
        invariant
            fs@ == dc.fields@,
            0 <= i <= fs@.len(),
            a.values@.len() == fs@.len(),
            b.values@.len() == fs@.len(),
            forall|j: int| 0 <= j < i ==> !differing(fs@, a.values@, b.values@, j),
        decreases fs@.len() - i,
    {
        if fs[i].compare {
            if !(a.values[i].1 == b.values[i].1) {
                proof {
                    assert(differing(fs@, a.values@, b.values@, i as int));
                    assert((#[trigger] fs@[i as int]).compare && a.values@[i as int].1@
                        != b.values@[i as int].1@);
                    assert(!inst_eq(fs@, a.values@, b.values@));
                }
                return Some(i);
            }
        }
        i += 1;
    }
    proof {
        assert forall|j: int|
            0 <= j < fs@.len() && (#[trigger] fs@[j]).compare implies a.values@[j].1@
            == b.values@[j].1@ by {
            assert(!differing(fs@, a.values@, b.values@, j));
        }
    }
    None
}

/// The index of the last change naming this field, or -1.
pub open spec fn change_at(cs: Seq<(String, String)>, name: Seq<char>) -> int
    decreases cs.len(),
{
    if cs.len() == 0 {
        -1
    } else if cs.last().0@ == name {
        cs.len() - 1
    } else {
        change_at(cs.drop_last(), name)
    }
}

proof fn lemma_change_at(cs: Seq<(String, String)>, name: Seq<char>)
    ensures
        -1 <= change_at(cs, name) < cs.len(),
    decreases cs.len(),
{
    if cs.len() > 0 && cs.last().0@ != name {
        lemma_change_at(cs.drop_last(), name);
    }
}

/// Find the last change naming this field.
fn last_change(cs: &Vec<(String, String)>, name: &str) -> (r: Option<usize>)
    ensures
        r is Some <==> change_at(cs@, name@) >= 0,
        r matches Some(i) ==> i == change_at(cs@, name@),
{
    let mut found: Option<usize> = None;
    let mut i: usize = 0;
    while i < cs.len()
        invariant
            0 <= i <= cs@.len(),
            match found {
                None => change_at(cs@.take(i as int), name@) == -1,
                Some(j) => 0 <= j < i && change_at(cs@.take(i as int), name@) == j,
            },
        decreases cs@.len() - i,
    {
        proof {
            assert(cs@.take(i as int + 1).drop_last() =~= cs@.take(i as int));
            assert(cs@.take(i as int + 1).last() == cs@[i as int]);
        }
        if crate::parse::str_is(&cs[i].0, name) {
            found = Some(i);
        }
        i += 1;
    }
    proof {
        assert(cs@.take(cs@.len() as int) =~= cs@);
    }
    found
}

/// The copy-with-changes builder: duplicate the instance, and give each
/// field named by a change that change's value (the last change wins);
/// every other field keeps its value.
pub fn replace_instance(dc: &Dataclass, x: &Instance, changes: &Vec<(String, String)>) -> (r:
    Instance)
    requires
        x.values@.len() == dc.fields@.len(),
    ensures
        r.values@.len() == dc.fields@.len(),
        forall|i: int|
            0 <= i < dc.fields@.len() ==> (#[trigger] r.values@[i]).0@ == x.values@[i].0@,
        forall|i: int|
            0 <= i < dc.fields@.len() ==> (#[trigger] r.values@[i]).1@ == {
                let c = change_at(changes@, dc.fields@[i].name@);
                if c >= 0 {
                    changes@[c].1@
                } else {
                    x.values@[i].1@
                }
            },
{
    let fs = &dc.fields;
    let mut values: Vec<(String, String)> = Vec::new();
    let mut i: usize = 0;
    while i < fs.len()
        invariant
            fs@ == dc.fields@,
            x.values@.len() == fs@.len(),
            0 <= i <= fs@.len(),
            values@.len() == i,
            forall|j: int| 0 <= j < i ==> (#[trigger] values@[j]).0@ == x.values@[j].0@,
            forall|j: int|
                0 <= j < i ==> (#[trigger] values@[j]).1@ == {
                    let c = change_at(changes@, fs@[j].name@);
                    if c >= 0 {
                        changes@[c].1@
                    } else {
                        x.values@[j].1@
                    }
                },
        decreases fs@.len() - i,
    {
        let name = x.values[i].0.clone();
        let value = match last_change(changes, fs[i].name.as_str()) {
            Some(c) => {
                proof {
                    lemma_change_at(changes@, fs@[i as int].name@);
                }
                changes[c].1.clone()
            },
            None => x.values[i].1.clone(),
        };
        values.push((name, value));
        i += 1;
    }
    Instance { values }
}

// ---------------------------------------------------------------------------
// Rendering the declared struct itself
// ---------------------------------------------------------------------------

/// The (name, type text) declaration pairs of the fields in `fs[i..]`.
pub open spec fn field_decls(fs: Seq<Field>, i: int) -> Seq<(Seq<char>, Seq<char>)>
    decreases fs.len() - i,
{
    if i < 0 || i >= fs.len() {
        Seq::empty()
    } else {
        seq![(fs[i].name@, spec_type_text(fs[i].ty))] + field_decls(fs, i + 1)
    }
}

impl Dataclass {
    /// Render the declaration of the modeled struct itself.
    pub fn generate(&self) -> (r: String)
        ensures
            r@ == struct_decl_of(self.name@, field_decls(self.fields@, 0)),
    {
        let mut decls: Vec<(String, String)> = Vec::new();
        let mut i: usize = 0;
        while i < self.fields.len()
            invariant
                0 <= i <= self.fields@.len(),
                decls@.map_values(|p: (String, String)| (p.0@, p.1@)) + field_decls(
                    self.fields@,
                    i as int,
                ) =~= field_decls(self.fields@, 0),
            decreases self.fields@.len() - i,
        {
            let ghost old = decls@;
            decls.push((self.fields[i].name.clone(), type_text(&self.fields[i].ty)));
            proof {
                assert(decls@.map_values(|p: (String, String)| (p.0@, p.1@))
                    =~= old.map_values(|p: (String, String)| (p.0@, p.1@)).push(
                    (self.fields@[i as int].name@, spec_type_text(self.fields@[i as int].ty)),
                ));
            }
            i += 1;
        }
        proof {
            assert(decls@.map_values(|p: (String, String)| (p.0@, p.1@)) =~= field_decls(
                self.fields@,
                0,
            ));
        }
        render_struct(self.name.as_str(), &decls)
    }
}


} // verus!
