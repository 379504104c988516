//! Rendering the generated operations as source text.  The emitted text is
//! pinned exactly: each operation is a concatenation of the model's names,
//! type texts and default texts, and an operation a policy flag disables is
//! absent from the output.

use vstd::prelude::*;
use vstd::string::*;
use crate::def::{Dataclass, Field};
use crate::gen::{all_default, cap_names, default_text, spec_type_text, type_text};

verus! {

// ---------------------------------------------------------------------------
// Joining
// ---------------------------------------------------------------------------

/// The pieces joined by the separator.
pub open spec fn spec_join(ss: Seq<Seq<char>>, sep: Seq<char>) -> Seq<char>
    decreases ss.len(),
{
    if ss.len() == 0 {
        Seq::empty()
    } else if ss.len() == 1 {
        ss[0]
    } else {
        ss[0] + sep + spec_join(ss.subrange(1, ss.len() as int), sep)
    }
}

proof fn lemma_join_push(ss: Seq<Seq<char>>, x: Seq<char>, sep: Seq<char>)
    ensures
        spec_join(ss.push(x), sep) == if ss.len() == 0 {
            x
        } else {
            spec_join(ss, sep) + sep + x
        },
    decreases ss.len(),
{
    if ss.len() == 0 {
        assert(spec_join(ss.push(x), sep) == ss.push(x)[0]);
        assert(ss.push(x)[0] == x);
    } else if ss.len() == 1 {
        assert(ss.push(x).subrange(1, 2) =~= seq![x]);
        assert(spec_join(seq![x], sep) == x);
        assert(spec_join(ss.push(x), sep) =~= ss[0] + sep + x);
        assert(spec_join(ss, sep) == ss[0]);
    } else {
        lemma_join_push(ss.subrange(1, ss.len() as int), x, sep);
        assert(ss.push(x).subrange(1, ss.len() as int + 1) =~= ss.subrange(
            1,
            ss.len() as int,
        ).push(x));
        assert(spec_join(ss.push(x), sep) == ss[0] + sep + spec_join(
            ss.subrange(1, ss.len() as int).push(x),
            sep,
        ));
        assert(spec_join(ss, sep) + sep + x =~= ss[0] + sep + (spec_join(
            ss.subrange(1, ss.len() as int),
            sep,
        ) + sep + x));
    }
}

/// Join the items with the separator.
pub fn join(items: &Vec<String>, sep: &str) -> (r: String)
    ensures
        r@ == spec_join(items@.map_values(|s: String| s@), sep@),
{
    let ghost ss = items@.map_values(|s: String| s@);
    let mut out = String::new();
    let mut i: usize = 0;
    while i < items.len()
        invariant
            ss == items@.map_values(|s: String| s@),
            0 <= i <= items@.len(),
            out@ == spec_join(ss.take(i as int), sep@),
        decreases items@.len() - i,
    {
        proof {
            assert(ss.take(i as int + 1) =~= ss.take(i as int).push(ss[i as int]));
            lemma_join_push(ss.take(i as int), ss[i as int], sep@);
            assert(ss[i as int] == items@[i as int]@);
        }
        if i > 0 {
            out.append(sep);
        }
        out.append(items[i].as_str());
        i += 1;
    }
    proof {
        assert(ss.take(items@.len() as int) =~= ss);
    }
    out
}

// ---------------------------------------------------------------------------
// The per-field texts of each operation
// ---------------------------------------------------------------------------

/// Constructor parameters: `name: Type` for each field without a default.
pub open spec fn param_texts(fs: Seq<Field>, i: int) -> Seq<Seq<char>>
    decreases fs.len() - i,
{
    if i < 0 || i >= fs.len() {
        Seq::empty()
    } else if fs[i].default is None {
        seq![fs[i].name@ + ": "@ + spec_type_text(fs[i].ty)] + param_texts(fs, i + 1)
    } else {
        param_texts(fs, i + 1)
    }
}

/// Constructor body fields: the bare name for a supplied field, and
/// `name: default` for a defaulted one.
pub open spec fn init_texts(fs: Seq<Field>, i: int) -> Seq<Seq<char>>
    decreases fs.len() - i,
{
    if i < 0 || i >= fs.len() {
        Seq::empty()
    } else {
        let t = match fs[i].default {
            None => fs[i].name@,
            Some(p) => fs[i].name@ + ": "@ + default_text(p),
        };
        seq![t] + init_texts(fs, i + 1)
    }
}

/// Clone body fields: `name: self.name.clone()` for every field.
pub open spec fn clone_texts(fs: Seq<Field>, i: int) -> Seq<Seq<char>>
    decreases fs.len() - i,
{
    if i < 0 || i >= fs.len() {
        Seq::empty()
    } else {
        seq![fs[i].name@ + ": self."@ + fs[i].name@ + ".clone()"@] + clone_texts(fs, i + 1)
    }
}

/// Formatter chain: `.field("name", &self.name)` for each field with `repr`
/// enabled; a disabled field is omitted entirely.
pub open spec fn debug_texts(fs: Seq<Field>, i: int) -> Seq<Seq<char>>
    decreases fs.len() - i,
{
    if i < 0 || i >= fs.len() {
        Seq::empty()
    } else if fs[i].repr {
        seq![".field(\""@ + fs[i].name@ + "\", &self."@ + fs[i].name@ + ")"@] + debug_texts(
            fs,
            i + 1,
        )
    } else {
        debug_texts(fs, i + 1)
    }
}

/// Equality checks: `self.name == other.name` for each field with `compare`
/// enabled.
pub open spec fn eq_texts(fs: Seq<Field>, i: int) -> Seq<Seq<char>>
    decreases fs.len() - i,
{
    if i < 0 || i >= fs.len() {
        Seq::empty()
    } else if fs[i].compare {
        seq!["self."@ + fs[i].name@ + " == other."@ + fs[i].name@] + eq_texts(fs, i + 1)
    } else {
        eq_texts(fs, i + 1)
    }
}

/// Default body fields: `name: default` for every field.
pub open spec fn default_texts(fs: Seq<Field>, i: int) -> Seq<Seq<char>>
    decreases fs.len() - i,
{
    if i < 0 || i >= fs.len() {
        Seq::empty()
    } else {
        let t = match fs[i].default {
            None => fs[i].name@,
            Some(p) => fs[i].name@ + ": "@ + default_text(p),
        };
        seq![t] + default_texts(fs, i + 1)
    }
}

/// One generic parameter's bound: the shared capability set.
pub open spec fn bound_text(g: Seq<char>) -> Seq<char> {
    g + ": "@ + spec_join(cap_names(), " + "@)
}

/// The where-clause bounds, one per generic parameter.
pub open spec fn bound_texts(gs: Seq<String>, i: int) -> Seq<Seq<char>>
    decreases gs.len() - i,
{
    if i < 0 || i >= gs.len() {
        Seq::empty()
    } else {
        seq![bound_text(gs[i]@)] + bound_texts(gs, i + 1)
    }
}

// ---------------------------------------------------------------------------
// The whole emitted text
// ---------------------------------------------------------------------------

/// `<T, U>`, or empty without generic parameters.
pub open spec fn generics_text(gs: Seq<String>) -> Seq<char> {
    if gs.len() == 0 {
        Seq::empty()
    } else {
        "<"@ + spec_join(gs.map_values(|g: String| g@), ", "@) + ">"@
    }
}

/// ` where T: ...`, or empty without generic parameters.
pub open spec fn where_text(gs: Seq<String>) -> Seq<char> {
    if gs.len() == 0 {
        Seq::empty()
    } else {
        " where "@ + spec_join(bound_texts(gs, 0), ", "@)
    }
}

/// The head of an inherent or trait impl: `impl<G> Name<G>` or
/// `impl<G> Trait for Name<G> where ...`.
pub open spec fn impl_head(dc: Dataclass, tr: Seq<char>) -> Seq<char> {
    "impl"@ + generics_text(dc.generics@) + " "@ + tr + dc.name@ + generics_text(dc.generics@)
        + where_text(dc.generics@)
}

/// The emitted constructor.
pub open spec fn ctor_code(dc: Dataclass) -> Seq<char> {
    "impl"@ + generics_text(dc.generics@) + " "@ + dc.name@ + generics_text(dc.generics@)
        + " { pub fn new("@ + spec_join(param_texts(dc.fields@, 0), ", "@)
        + ") -> Self { Self { "@ + spec_join(init_texts(dc.fields@, 0), ", "@) + " } } }\n"@
}

/// The emitted clone.
pub open spec fn clone_code(dc: Dataclass) -> Seq<char> {
    impl_head(dc, "Clone for "@) + " { fn clone(&self) -> Self { Self { "@ + spec_join(
        clone_texts(dc.fields@, 0),
        ", "@,
    ) + " } } }\n"@
}

/// The emitted formatter.
pub open spec fn debug_code(dc: Dataclass) -> Seq<char> {
    impl_head(dc, "std::fmt::Debug for "@)
        + " { fn fmt(&self, f: &mut std::fmt::Formatter<'_>) -> std::fmt::Result { f.debug_struct(\""@
        + dc.name@ + "\")"@ + spec_join(debug_texts(dc.fields@, 0), ""@) + ".finish() } }\n"@
}

/// The emitted equality.
pub open spec fn eq_code(dc: Dataclass) -> Seq<char> {
    impl_head(dc, "PartialEq for "@) + " { fn eq(&self, other: &Self) -> bool { "@ + spec_join(
        eq_texts(dc.fields@, 0),
        " && "@,
    ) + " } }\n"@ + impl_head(dc, "Eq for "@) + " {}\n"@
}

/// The emitted zero-argument constructor, present only when every field has
/// a default.
pub open spec fn default_code(dc: Dataclass) -> Seq<char> {
    impl_head(dc, "Default for "@) + " { fn default() -> Self { Self { "@ + spec_join(
        default_texts(dc.fields@, 0),
        ", "@,
    ) + " } } }\n"@
}

/// Everything the synthesizer emits for one model, in order: constructor,
/// clone, formatter, equality, and — exactly when every field has a
/// default — the zero-argument constructor.
pub open spec fn spec_code(dc: Dataclass) -> Seq<char> {
    let base = ctor_code(dc) + clone_code(dc) + debug_code(dc) + eq_code(dc);
    if all_default(dc.fields@) {
        base + default_code(dc)
    } else {
        base
    }
}


// ---------------------------------------------------------------------------
// Rendering
// ---------------------------------------------------------------------------

fn caps_joined() -> (r: String)
    ensures
        r@ == spec_join(cap_names(), " + "@),
{
    let mut caps: Vec<String> = Vec::new();
    caps.push("Clone".to_owned());
    caps.push("Debug".to_owned());
    caps.push("PartialEq".to_owned());
    caps.push("Eq".to_owned());
    caps.push("Default".to_owned());
    proof {
        assert(caps@.map_values(|s: String| s@) =~= cap_names());
    }
    join(&caps, " + ")
}

fn generics_txt(dc: &Dataclass) -> (r: String)
    ensures
        r@ == generics_text(dc.generics@),
{
    if dc.generics.len() == 0 {
        String::new()
    } else {
        let mut s = String::new();
        s.append("<");
        let inner = join(&dc.generics, ", ");
        s.append(inner.as_str());
        s.append(">");
        proof {
            assert(s@ =~= generics_text(dc.generics@));
        }
        s
    }
}

fn where_txt(dc: &Dataclass) -> (r: String)
    ensures
        r@ == where_text(dc.generics@),
{
    if dc.generics.len() == 0 {
        String::new()
    } else {
        let caps = caps_joined();
        let mut bounds: Vec<String> = Vec::new();
        let mut i: usize = 0;
        while i < dc.generics.len()
            invariant
                caps@ == spec_join(cap_names(), " + "@),
                0 <= i <= dc.generics@.len(),
                bounds@.map_values(|s: String| s@) + bound_texts(dc.generics@, i as int)
                    =~= bound_texts(dc.generics@, 0),
            decreases dc.generics@.len() - i,
        {
            let mut b = dc.generics[i].clone();
            b.append(": ");
            b.append(caps.as_str());
            let ghost old = bounds@;
            bounds.push(b);
            proof {
                assert(bounds@.map_values(|s: String| s@)
                    =~= old.map_values(|s: String| s@).push(bound_text(dc.generics@[i as int]@)));
            }
            i += 1;
        }
        let mut s = String::new();
        s.append(" where ");
        let inner = join(&bounds, ", ");
        s.append(inner.as_str());
        proof {
            assert(bounds@.map_values(|s: String| s@) =~= bound_texts(dc.generics@, 0));
            assert(s@ =~= where_text(dc.generics@));
        }
        s
    }
}

fn impl_head_text(dc: &Dataclass, tr: &str) -> (r: String)
    ensures
        r@ == impl_head(*dc, tr@),
{
    let g = generics_txt(dc);
    let w = where_txt(dc);
    let mut s = String::new();
    s.append("impl");
    s.append(g.as_str());
    s.append(" ");
    s.append(tr);
    s.append(dc.name.as_str());
    s.append(g.as_str());
    s.append(w.as_str());
    proof {
        assert(s@ =~= impl_head(*dc, tr@));
    }
    s
}

/// Emit the generated operations as source text: constructor, clone,
/// formatter, equality, and the zero-argument constructor exactly when
/// every field has a default.
pub fn render_code(dc: &Dataclass) -> (r: String)
    ensures
        r@ == spec_code(*dc),
{
    let fs = &dc.fields;
    let mut params: Vec<String> = Vec::new();
    let mut inits: Vec<String> = Vec::new();
    let mut clones: Vec<String> = Vec::new();
    let mut debugs: Vec<String> = Vec::new();
    let mut eqs: Vec<String> = Vec::new();
    let mut defaults: Vec<String> = Vec::new();
    let mut i: usize = 0;
    while i < fs.len()
        invariant
            fs@ == dc.fields@,
            0 <= i <= fs@.len(),
            params@.map_values(|s: String| s@) + param_texts(fs@, i as int)
                =~= param_texts(fs@, 0),
            inits@.map_values(|s: String| s@) + init_texts(fs@, i as int) =~= init_texts(fs@, 0),
            clones@.map_values(|s: String| s@) + clone_texts(fs@, i as int)
                =~= clone_texts(fs@, 0),
            debugs@.map_values(|s: String| s@) + debug_texts(fs@, i as int)
                =~= debug_texts(fs@, 0),
            eqs@.map_values(|s: String| s@) + eq_texts(fs@, i as int) =~= eq_texts(fs@, 0),
            defaults@.map_values(|s: String| s@) + default_texts(fs@, i as int)
                =~= default_texts(fs@, 0),
        decreases fs@.len() - i,
    {
        let f = &fs[i];
        match &f.default {
            None => {
                let mut p = f.name.clone();
                p.append(": ");
                let t = type_text(&f.ty);
                p.append(t.as_str());
                let ghost old = params@;
                params.push(p);
                proof {
                    assert(params@.map_values(|s: String| s@)
                        =~= old.map_values(|s: String| s@).push(
                        fs@[i as int].name@ + ": "@ + spec_type_text(fs@[i as int].ty),
                    ));
                }
                let ghost oldi = inits@;
                inits.push(f.name.clone());
                let ghost oldd = defaults@;
                defaults.push(f.name.clone());
                proof {
                    assert(inits@.map_values(|s: String| s@)
                        =~= oldi.map_values(|s: String| s@).push(fs@[i as int].name@));
                    assert(defaults@.map_values(|s: String| s@)
                        =~= oldd.map_values(|s: String| s@).push(fs@[i as int].name@));
                }
            },
            Some(p) => {
                let dtext = match p {
                    crate::def::ValueProvider::Value(t) => t.clone(),
                    crate::def::ValueProvider::Factory(n) => {
                        let mut c = n.clone();
                        c.append("()");
                        c
                    },
                };
                let mut a = f.name.clone();
                a.append(": ");
                a.append(dtext.as_str());
                let ghost oldi = inits@;
                inits.push(a.clone());
                let ghost oldd = defaults@;
                defaults.push(a);
                proof {
                    let t = fs@[i as int].name@ + ": "@ + default_text(
                        fs@[i as int].default->Some_0,
                    );
                    assert(inits@.map_values(|s: String| s@)
                        =~= oldi.map_values(|s: String| s@).push(t));
                    assert(defaults@.map_values(|s: String| s@)
                        =~= oldd.map_values(|s: String| s@).push(t));
                }
            },
        }
        let mut c = f.name.clone();
        c.append(": self.");
        c.append(f.name.as_str());
        c.append(".clone()");
        let ghost oldc = clones@;
        clones.push(c);
        proof {
            assert(clones@.map_values(|s: String| s@) =~= oldc.map_values(|s: String| s@).push(
                fs@[i as int].name@ + ": self."@ + fs@[i as int].name@ + ".clone()"@,
            ));
        }
        if f.repr {
            let mut d = String::new();
            d.append(".field(\"");
            d.append(f.name.as_str());
            d.append("\", &self.");
            d.append(f.name.as_str());
            d.append(")");
            let ghost oldd = debugs@;
            debugs.push(d);
            proof {
                assert(debugs@.map_values(|s: String| s@)
                    =~= oldd.map_values(|s: String| s@).push(
                    ".field(\""@ + fs@[i as int].name@ + "\", &self."@ + fs@[i as int].name@
                        + ")"@,
                ));
            }
        }
        if f.compare {
            let mut e = String::new();
            e.append("self.");
            e.append(f.name.as_str());
            e.append(" == other.");
            e.append(f.name.as_str());
            let ghost olde = eqs@;
            eqs.push(e);
            proof {
                assert(eqs@.map_values(|s: String| s@) =~= olde.map_values(|s: String| s@).push(
                    "self."@ + fs@[i as int].name@ + " == other."@ + fs@[i as int].name@,
                ));
            }
        }
        i += 1;
    }

    let g = generics_txt(dc);
    let mut out = String::new();

    out.append("impl");
    out.append(g.as_str());
    out.append(" ");
    out.append(dc.name.as_str());
    out.append(g.as_str());
    out.append(" { pub fn new(");
    let jp = join(&params, ", ");
    out.append(jp.as_str());
    out.append(") -> Self { Self { ");
    let ji = join(&inits, ", ");
    out.append(ji.as_str());
    out.append(" } } }\n");
    proof {
        assert(out@ =~= ctor_code(*dc));
    }

    let hc = impl_head_text(dc, "Clone for ");
    out.append(hc.as_str());
    out.append(" { fn clone(&self) -> Self { Self { ");
    let jc = join(&clones, ", ");
    out.append(jc.as_str());
    out.append(" } } }\n");
    proof {
        assert(out@ =~= ctor_code(*dc) + clone_code(*dc));
    }

    let hd = impl_head_text(dc, "std::fmt::Debug for ");
    out.append(hd.as_str());
    out.append(" { fn fmt(&self, f: &mut std::fmt::Formatter<'_>) -> std::fmt::Result { f.debug_struct(\"");
    out.append(dc.name.as_str());
    out.append("\")");
    let jd = join(&debugs, "");
    out.append(jd.as_str());
    out.append(".finish() } }\n");
    proof {
        assert(out@ =~= ctor_code(*dc) + clone_code(*dc) + debug_code(*dc));
    }

    let he = impl_head_text(dc, "PartialEq for ");
    out.append(he.as_str());
    out.append(" { fn eq(&self, other: &Self) -> bool { ");
    let je = join(&eqs, " && ");
    out.append(je.as_str());
    out.append(" } }\n");
    let hq = impl_head_text(dc, "Eq for ");
    out.append(hq.as_str());
    out.append(" {}\n");
    proof {
        assert(out@ =~= ctor_code(*dc) + clone_code(*dc) + debug_code(*dc) + eq_code(*dc));
    }

    let mut is_all = true;
    let mut j: usize = 0;
    while j < fs.len()
        invariant
            fs@ == dc.fields@,
            0 <= j <= fs@.len(),
            is_all == (forall|k: int| 0 <= k < j ==> (#[trigger] fs@[k]).default is Some),
        decreases fs@.len() - j,
    {
        if fs[j].default.is_none() {
            is_all = false;
        }
        j += 1;
    }
    if is_all {
        let hf = impl_head_text(dc, "Default for ");
        out.append(hf.as_str());
        out.append(" { fn default() -> Self { Self { ");
        let jf = join(&defaults, ", ");
        out.append(jf.as_str());
        out.append(" } } }\n");
        proof {
            assert(out@ =~= spec_code(*dc));
        }
    }
    out
}

} // verus!
