//! The two places where the pipeline leans on an outside crate: checking
//! that a default expression is well-formed, and rendering a struct
//! declaration.  Each call stands behind a contract on a named result.

use vstd::prelude::*;

verus! {

/// Whether a text parses as an expression of the target expression grammar.
pub uninterp spec fn is_expr(s: Seq<char>) -> bool;

/// Relies on `syn::parse_str::<syn::Expr>`: whether a text parses as a Rust
/// expression is a function of the text alone.
#[verifier::external_body]
pub(crate) fn expr_parses(s: &str) -> (r: bool)
    ensures
        r == is_expr(s@),
{
    syn::parse_str::<syn::Expr>(s).is_ok()
}

/// The rendered declaration of a struct with the given name and named
/// fields, each a (name, type) pair.
pub uninterp spec fn struct_decl_of(name: Seq<char>, fields: Seq<(Seq<char>, Seq<char>)>) -> Seq<char>;

/// Relies on `codegen::Scope`: the text rendered for a scope holding one
/// struct with the given named fields is a function of those names alone.
#[verifier::external_body]
pub(crate) fn render_struct(name: &str, fields: &Vec<(String, String)>) -> (r: String)
    ensures
        r@ == struct_decl_of(name@, fields@.map_values(|p: (String, String)| (p.0@, p.1@))),
{
    let mut scope = codegen::Scope::new();
    let st = scope.new_struct(name);
    for f in fields.iter() {
        st.field(&f.0, &f.1);
    }
    scope.to_string()
}

} // verus!
