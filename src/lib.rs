//! Generates fallible conversion routines from annotated struct declarations.
//!
//! A target declaration names its source type with `source` and its error
//! type with `err`; each field is populated with its type's default value
//! (`default`), with an expression (`expr`), or by a fallible conversion of the
//! source reference. The engine checks the directives, resolves a strategy for
//! every field, and renders the routine as source text.
pub mod attrs;
pub mod decl;
pub mod ir;
pub mod item;
pub mod laws;
pub mod routine;
pub mod syntax;
pub mod utils;

use crate::decl::{Declaration, GenError};
use crate::ir::{declaration_verdicts, verdicts_fit, verdicts_view, IR};
use crate::item::{item_of, routine_text, Item};
use vstd::prelude::*;

verus! {

/// The routine that a declaration yields, as text, or why it yields none, for
/// the verdicts `sv` of syn's grammar checks on the declaration's own
/// attributes and `fv` on those of its fields. Checks run in this order:
/// generic parameters, the declaration's own attributes, its shape, then each
/// field in order.
pub open spec fn generate_of(d: Declaration, sv: Seq<bool>, fv: Seq<Seq<bool>>) -> Result<
    Seq<char>,
    GenError,
> {
    if d.generic_params > 0 {
        Err(GenError::GenericTarget)
    } else {
        match item_of(d, sv, fv) {
            Err(e) => Err(e),
            Ok(it) => Ok(routine_text(it)),
        }
    }
}

pub open spec fn generated_view(r: Result<String, GenError>) -> Result<Seq<char>, GenError> {
    match r {
        Ok(s) => Ok(s@),
        Err(e) => Err(e),
    }
}

/// Generates the conversion routine of a target declaration, for the
/// verdicts `sv` of the grammar checks on the declaration's attributes and
/// `fv` on those of its fields.
pub fn generate_with(input: Declaration, sv: &Vec<bool>, fv: &Vec<Vec<bool>>) -> (r: Result<
    String,
    GenError,
>)
    requires
        sv@.len() == input.attrs@.len(),
        fv@.len() == input.fields@.len(),
        forall|i: int| 0 <= i < fv@.len() ==> (#[trigger] fv@[i])@.len() == input.fields@[i].attrs@.len(),
    ensures
        generated_view(r) == generate_of(input, sv@, verdicts_view(fv@)),
{
    let ir = IR::new(input);
    if let Err(e) = ir.validate() {
        return Err(e);
    }
    match Item::from_ir_with(&ir, sv, fv) {
        Ok(item) => Ok(item.render()),
        Err(e) => Err(e),
    }
}

/// Generates the conversion routine of a target declaration, with the
/// verdicts that syn gives on the attribute arguments.
pub fn derive_try_from(input: Declaration) -> (r: Result<String, GenError>)
    ensures
        exists|sv: Seq<bool>, fv: Seq<Seq<bool>>|
            verdicts_fit(input, sv, fv) && #[trigger] generate_of(input, sv, fv) == generated_view(r),
{
    let (sv, fv) = declaration_verdicts(&input);
    let ghost d = input;
    assert forall|i: int| 0 <= i < fv@.len() implies (#[trigger] fv@[i])@.len()
        == input.fields@[i].attrs@.len() by {
        assert(verdicts_view(fv@)[i] == fv@[i]@);
    }
    let r = generate_with(input, &sv, &fv);
    assert(verdicts_fit(d, sv@, verdicts_view(fv@)));
    r
}

} // verus!
