use vstd::prelude::*;

verus! {

/// Relies on `syn::parse_str::<syn::Type>` to tell whether the text is one
/// type. The verdict depends on which lexer proc-macro2 uses in this process
/// (the compiler's inside a procedural macro, its own elsewhere), so nothing
/// is promised of it.
#[verifier::external_body]
pub(crate) fn parses_as_type(s: &str) -> (r: bool) {
    match syn::parse_str::<syn::Type>(s) {
        Ok(_) => true,
        Err(_) => false,
    }
}

/// Relies on `syn::parse_str::<syn::Expr>` to tell whether the text is one
/// expression. As for types, the verdict depends on the lexer in use, so
/// nothing is promised of it.
#[verifier::external_body]
pub(crate) fn parses_as_expr(s: &str) -> (r: bool) {
    match syn::parse_str::<syn::Expr>(s) {
        Ok(_) => true,
        Err(_) => false,
    }
}

} // verus!
