//! The directive parser: a raw annotation text is split on commas (tracking
//! double-quote state, so commas inside quoted literal text never separate),
//! each piece is trimmed, and each non-empty piece becomes one directive,
//! a key with an optional value text.

use vstd::prelude::*;
use vstd::string::*;
use crate::def::GenError;

verus! {

/// One parsed directive: a key, and the value text after `=` if there was one.
#[derive(Debug)]
pub struct Directive {
    pub key: String,
    pub value: Option<String>,
}

// ---------------------------------------------------------------------------
// Splitting on commas outside double quotes
// ---------------------------------------------------------------------------

/// The comma-split of `s` from position `i`, where the current piece began at
/// `start` and `inq` says whether position `i` is inside double quotes.
/// A comma inside quotes does not separate; a final empty piece is dropped.
pub open spec fn split_from(s: Seq<char>, i: int, start: int, inq: bool) -> Seq<Seq<char>>
    decreases s.len() - i,
{
    if i >= s.len() {
        if start < s.len() {
            seq![s.subrange(start, s.len() as int)]
        } else {
            Seq::empty()
        }
    } else if s[i] == ',' && !inq {
        seq![s.subrange(start, i)] + split_from(s, i + 1, i + 1, inq)
    } else if s[i] == '"' {
        split_from(s, i + 1, start, !inq)
    } else {
        split_from(s, i + 1, start, inq)
    }
}

/// The raw comma-separated pieces of an annotation text.
pub open spec fn split_pieces(s: Seq<char>) -> Seq<Seq<char>> {
    split_from(s, 0, 0, false)
}

/// Split on commas, tracking quote state character by character so that a
/// comma inside quoted literal text is not treated as a separator.
pub fn split_directives(s: &str) -> (parts: Vec<String>)
    ensures
        parts@.map_values(|p: String| p@) == split_pieces(s@),
{
    let n = s.unicode_len();
    let mut parts: Vec<String> = Vec::new();
    let mut i: usize = 0;
    let mut start: usize = 0;
    let mut inq = false;
    while i < n
        invariant
            n == s@.len(),
            start <= i <= n,
            parts@.map_values(|p: String| p@) + split_from(s@, i as int, start as int, inq)
                =~= split_pieces(s@),
        decreases n - i,
    {
        let c = s.get_char(i);
        if c == ',' && !inq {
            let piece = s.substring_char(start, i).to_owned();
            let ghost old_parts = parts@;
            parts.push(piece);
            proof {
                assert(parts@.map_values(|p: String| p@)
                    =~= old_parts.map_values(|p: String| p@).push(s@.subrange(start as int, i as int)));
            }
            start = i + 1;
        } else if c == '"' {
            inq = !inq;
        }
        i += 1;
    }
    if start < n {
        let piece = s.substring_char(start, n).to_owned();
        let ghost old_parts = parts@;
        parts.push(piece);
        proof {
            assert(parts@.map_values(|p: String| p@)
                =~= old_parts.map_values(|p: String| p@).push(s@.subrange(start as int, n as int)));
        }
    }
    proof {
        assert(parts@.map_values(|p: String| p@) =~= split_pieces(s@));
    }
    parts
}

// ---------------------------------------------------------------------------
// Trimming
// ---------------------------------------------------------------------------

/// ASCII whitespace, as the splitter ignores it around pieces.
pub open spec fn is_space(c: char) -> bool {
    c == ' ' || c == '\t' || c == '\n' || c == '\r'
}

/// The first index at or after `i` holding a non-space, or the length.
pub open spec fn trim_start_from(s: Seq<char>, i: int) -> int
    decreases s.len() - i,
{
    if 0 <= i < s.len() && is_space(s[i]) {
        trim_start_from(s, i + 1)
    } else {
        i
    }
}

/// The end of the last non-space run at or before `j`, or zero.
pub open spec fn trim_end_from(s: Seq<char>, j: int) -> int
    decreases j,
{
    if 0 < j <= s.len() && is_space(s[j - 1]) {
        trim_end_from(s, j - 1)
    } else {
        j
    }
}

/// `s` with leading and trailing whitespace removed.
pub open spec fn spec_trim(s: Seq<char>) -> Seq<char> {
    let a = trim_start_from(s, 0);
    let b = trim_end_from(s, s.len() as int);
    if a < b {
        s.subrange(a, b)
    } else {
        Seq::empty()
    }
}

proof fn lemma_trim_end_le(s: Seq<char>, j: int)
    requires
        j <= s.len(),
    ensures
        trim_end_from(s, j) <= j,
    decreases j,
{
    if 0 < j <= s.len() && is_space(s[j - 1]) {
        lemma_trim_end_le(s, j - 1);
    }
}

fn space_char(c: char) -> (r: bool)
    ensures
        r == is_space(c),
{
    c == ' ' || c == '\t' || c == '\n' || c == '\r'
}

/// Remove leading and trailing ASCII whitespace.
pub fn trim_text(s: &str) -> (r: String)
    ensures
        r@ == spec_trim(s@),
{
    let n = s.unicode_len();
    let mut a: usize = 0;
    while a < n && space_char(s.get_char(a))
        invariant
            n == s@.len(),
            0 <= a <= n,
            trim_start_from(s@, 0) == trim_start_from(s@, a as int),
        decreases n - a,
    {
        a += 1;
    }
    if a == n {
        proof {
            lemma_trim_end_le(s@, s@.len() as int);
        }
        return String::new();
    }
    let mut b: usize = n;
    while b > a && space_char(s.get_char(b - 1))
        invariant
            n == s@.len(),
            a < n,
            !is_space(s@[a as int]),
            a < b <= n,
            trim_end_from(s@, n as int) == trim_end_from(s@, b as int),
        decreases b,
    {
        proof {
            assert(b - 1 > a || !is_space(s@[b - 1]));
        }
        b -= 1;
    }
    s.substring_char(a, b).to_owned()
}

// ---------------------------------------------------------------------------
// One piece -> one directive
// ---------------------------------------------------------------------------

/// The position of the first `=` at or after `i`, or the length.
pub open spec fn eq_pos_from(s: Seq<char>, i: int) -> int
    decreases s.len() - i,
{
    if 0 <= i < s.len() {
        if s[i] == '=' {
            i
        } else {
            eq_pos_from(s, i + 1)
        }
    } else {
        i
    }
}

proof fn lemma_eq_pos_bounds(s: Seq<char>, i: int)
    requires
        0 <= i <= s.len(),
    ensures
        i <= eq_pos_from(s, i) <= s.len(),
    decreases s.len() - i,
{
    if i < s.len() && s[i] != '=' {
        lemma_eq_pos_bounds(s, i + 1);
    }
}

/// Surrounding double quotes removed, when both are present.
pub open spec fn strip_quotes_spec(s: Seq<char>) -> Seq<char> {
    if s.len() >= 2 && s[0] == '"' && s[s.len() - 1] == '"' {
        s.subrange(1, s.len() - 1)
    } else {
        s
    }
}

/// The key of a piece: the trimmed text before the first `=`, or the whole
/// trimmed piece when there is none.
pub open spec fn spec_key(p: Seq<char>) -> Seq<char> {
    spec_trim(p.subrange(0, eq_pos_from(p, 0)))
}

/// The value of a piece: the trimmed text after the first `=`, with
/// surrounding quotes removed; `None` when there is no `=`.
pub open spec fn spec_value(p: Seq<char>) -> Option<Seq<char>> {
    let e = eq_pos_from(p, 0);
    if e >= p.len() {
        None
    } else {
        Some(strip_quotes_spec(spec_trim(p.subrange(e + 1, p.len() as int))))
    }
}

fn strip_quotes(s: &str) -> (r: String)
    ensures
        r@ == strip_quotes_spec(s@),
{
    let n = s.unicode_len();
    if n >= 2 && s.get_char(0) == '"' && s.get_char(n - 1) == '"' {
        s.substring_char(1, n - 1).to_owned()
    } else {
        s.to_owned()
    }
}

/// Parse one trimmed, non-empty piece into a directive.
pub fn parse_directive(p: &str) -> (d: Directive)
    ensures
        d.key@ == spec_key(p@),
        d.value is Some <==> spec_value(p@) is Some,
        d.value matches Some(v) ==> spec_value(p@) == Some(v@),
{
    let n = p.unicode_len();
    let mut i: usize = 0;
    while i < n && p.get_char(i) != '='
        invariant
            n == p@.len(),
            0 <= i <= n,
            eq_pos_from(p@, 0) == eq_pos_from(p@, i as int),
        decreases n - i,
    {
        i += 1;
    }
    proof {
        lemma_eq_pos_bounds(p@, 0);
    }
    let key = trim_text(p.substring_char(0, i));
    if i < n {
        let rest = trim_text(p.substring_char(i + 1, n));
        let value = strip_quotes(rest.as_str());
        Directive { key, value: Some(value) }
    } else {
        Directive { key, value: None }
    }
}

// ---------------------------------------------------------------------------
// The directive vocabulary
// ---------------------------------------------------------------------------

/// The field-level vocabulary.
pub open spec fn is_field_key(k: Seq<char>) -> bool {
    ||| k == "default"@
    ||| k == "default_factory"@
    ||| k == "init"@
    ||| k == "repr"@
    ||| k == "compare"@
    ||| k == "hash"@
    ||| k == "kw_only"@
    ||| k == "validate"@
    ||| k == "metadata"@
    ||| k == "init_var"@
}

/// The type-level vocabulary.
pub open spec fn is_type_key(k: Seq<char>) -> bool {
    ||| k == "init"@
    ||| k == "repr"@
    ||| k == "eq"@
    ||| k == "order"@
    ||| k == "hash"@
    ||| k == "frozen"@
    ||| k == "kw_only"@
    ||| k == "namespace"@
    ||| k == "post_init"@
}

/// Which vocabulary a directive is checked against.
pub open spec fn key_in_vocab(k: Seq<char>, field_level: bool) -> bool {
    if field_level {
        is_field_key(k)
    } else {
        is_type_key(k)
    }
}

pub(crate) fn str_is(s: &String, lit: &str) -> (r: bool)
    ensures
        r == (s@ == lit@),
{
    *s == lit.to_owned()
}

fn field_key_ok(k: &String) -> (r: bool)
    ensures
        r == is_field_key(k@),
{
    str_is(k, "default") || str_is(k, "default_factory") || str_is(k, "init")
        || str_is(k, "repr") || str_is(k, "compare") || str_is(k, "hash")
        || str_is(k, "kw_only") || str_is(k, "validate") || str_is(k, "metadata")
        || str_is(k, "init_var")
}

fn type_key_ok(k: &String) -> (r: bool)
    ensures
        r == is_type_key(k@),
{
    str_is(k, "init") || str_is(k, "repr") || str_is(k, "eq") || str_is(k, "order")
        || str_is(k, "hash") || str_is(k, "frozen") || str_is(k, "kw_only")
        || str_is(k, "namespace") || str_is(k, "post_init")
}

// ---------------------------------------------------------------------------
// The whole annotation
// ---------------------------------------------------------------------------

/// The trimmed, non-empty pieces among `parts[i..]`.
pub open spec fn cleaned_from(parts: Seq<Seq<char>>, i: int) -> Seq<Seq<char>>
    decreases parts.len() - i,
{
    if i >= parts.len() {
        Seq::empty()
    } else {
        let t = spec_trim(parts[i]);
        if t.len() == 0 {
            cleaned_from(parts, i + 1)
        } else {
            seq![t] + cleaned_from(parts, i + 1)
        }
    }
}

/// The directive pieces of a raw annotation text: split on unquoted commas,
/// trimmed, empty pieces dropped.
pub open spec fn pieces_of(s: Seq<char>) -> Seq<Seq<char>> {
    cleaned_from(split_pieces(s), 0)
}

/// The mathematical content of one directive: its key and optional value.
pub open spec fn spec_opt_view(v: Option<String>) -> Option<Seq<char>> {
    match v {
        Some(t) => Some(t@),
        None => None,
    }
}

/// The content of a list of parsed directives.
pub open spec fn dviews(ds: Seq<Directive>) -> Seq<(Seq<char>, Option<Seq<char>>)> {
    ds.map_values(|d: Directive| (d.key@, spec_opt_view(d.value)))
}

/// The directives an annotation text denotes, key and value per piece.
pub open spec fn sdirs(s: Seq<char>) -> Seq<(Seq<char>, Option<Seq<char>>)> {
    pieces_of(s).map_values(|p: Seq<char>| (spec_key(p), spec_value(p)))
}

/// Split, trim, and drop empty pieces.
fn clean_directives(s: &str) -> (parts: Vec<String>)
    ensures
        parts@.map_values(|p: String| p@) == pieces_of(s@),
{
    let raw = split_directives(s);
    let ghost rawv = raw@.map_values(|p: String| p@);
    let mut parts: Vec<String> = Vec::new();
    let mut i: usize = 0;
    while i < raw.len()
        invariant
            rawv == raw@.map_values(|p: String| p@),
            0 <= i <= raw.len(),
            parts@.map_values(|p: String| p@) + cleaned_from(rawv, i as int)
                =~= pieces_of(s@),
        decreases raw.len() - i,
    {
        let t = trim_text(raw[i].as_str());
        proof {
            assert(rawv[i as int] == raw@[i as int]@);
        }
        if !t.as_str().is_empty() {
            let ghost old_parts = parts@;
            parts.push(t);
            proof {
                assert(parts@.map_values(|p: String| p@)
                    =~= old_parts.map_values(|p: String| p@).push(spec_trim(rawv[i as int])));
            }
        }
        i += 1;
    }
    proof {
        assert(parts@.map_values(|p: String| p@) =~= pieces_of(s@));
    }
    parts
}

/// Parse a raw annotation text into its directives, checking every key
/// against the vocabulary of its level.  `owner` is the field or type name
/// the text is attached to, used for the error.
pub fn parse_annotation(owner: &String, s: &str, field_level: bool) -> (r: Result<
    Vec<Directive>,
    GenError,
>)
    ensures
        r is Ok <==> (forall|i: int|
            0 <= i < pieces_of(s@).len() ==> key_in_vocab(
                #[trigger] sdirs(s@)[i].0,
                field_level,
            )),
        r matches Ok(ds) ==> dviews(ds@) == sdirs(s@),
        r matches Err(e) ==> e matches GenError::UnknownKey { field, key }
            && field@ == owner@
            && exists|i: int|
                0 <= i < sdirs(s@).len() && key@ == #[trigger] sdirs(s@)[i].0
                && !key_in_vocab(key@, field_level),
{
    let parts = clean_directives(s);
    let ghost ps = pieces_of(s@);
    let mut ds: Vec<Directive> = Vec::new();
    let mut i: usize = 0;
    while i < parts.len()
        invariant
            parts@.map_values(|p: String| p@) == ps,
            ps == pieces_of(s@),
            0 <= i <= parts.len(),
            ds@.len() == i,
            forall|j: int| 0 <= j < i ==> key_in_vocab(#[trigger] sdirs(s@)[j].0, field_level),
            dviews(ds@) =~= sdirs(s@).take(i as int),
        decreases parts.len() - i,
    {
        proof {
            assert(ps[i as int] == parts@[i as int]@);
            assert(sdirs(s@)[i as int] == (spec_key(ps[i as int]), spec_value(ps[i as int])));
        }
        let d = parse_directive(parts[i].as_str());
        let known = if field_level {
            field_key_ok(&d.key)
        } else {
            type_key_ok(&d.key)
        };
        if !known {
            proof {
                assert(sdirs(s@).len() == pieces_of(s@).len());
                assert(d.key@ == sdirs(s@)[i as int].0);
                assert(!key_in_vocab(#[trigger] sdirs(s@)[i as int].0, field_level));
            }
            return Err(GenError::UnknownKey { field: owner.clone(), key: d.key });
        }
        let ghost old_ds = ds@;
        ds.push(d);
        proof {
            assert(dviews(ds@) =~= dviews(old_ds).push((d.key@, spec_opt_view(d.value))));
            assert(dviews(ds@) =~= sdirs(s@).take(i as int + 1));
        }
        i += 1;
    }
    proof {
        assert(sdirs(s@).take(parts@.len() as int) =~= sdirs(s@));
    }
    Ok(ds)
}

} // verus!
