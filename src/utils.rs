use crate::decl::{AttrArgs, AttrError, Attribute};
use crate::syntax::{parses_as_expr, parses_as_type};
use vstd::prelude::*;

verus! {

/// The grammar that a directive's argument must follow.
#[derive(Clone, Copy, Debug, PartialEq, Eq, Structural)]
pub enum Grammar {
    Type,
    Expr,
}

/// The text of an argument written `#[key(arg)]`.
pub open spec fn arg_text(args: AttrArgs) -> Option<Seq<char>> {
    match args {
        AttrArgs::List(s) => Some(s@),
        _ => None,
    }
}

/// The argument of an attribute written `#[key(arg)]`, when the grammar check
/// on `arg` gave `accepted`.
pub open spec fn parsed_arg(args: AttrArgs, accepted: bool) -> Option<Seq<char>> {
    if accepted {
        arg_text(args)
    } else {
        None
    }
}

/// Takes the verdict of a grammar check on the argument of the attribute at
/// `index`: its text when it is written `#[key(arg)]` and was accepted, the
/// error on which generation aborts otherwise.
pub fn check_arg(args: &AttrArgs, accepted: bool, index: usize) -> (r: Result<String, AttrError>)
    ensures
        match r {
            Ok(s) => parsed_arg(*args, accepted) == Some(s@),
            Err(e) => parsed_arg(*args, accepted) is None && e == AttrError::InvalidArgument(index),
        },
{
    match args {
        AttrArgs::List(s) => if accepted {
            Ok(s.clone())
        } else {
            Err(AttrError::InvalidArgument(index))
        },
        _ => Err(AttrError::InvalidArgument(index)),
    }
}

/// Reads the argument of the attribute at `index` of its list, checked against
/// `g` by syn, or gives the error on which generation aborts. The text is
/// returned verbatim; an argument not written `#[key(arg)]` is always rejected.
pub fn parse_attr_or_abort(attr: &Attribute, g: Grammar, index: usize) -> (r: Result<
    String,
    AttrError,
>)
    ensures
        parsed_arg(attr.args, r is Ok) == match r {
            Ok(s) => Some(s@),
            Err(_) => None::<Seq<char>>,
        },
        r is Err ==> r == Err::<String, AttrError>(AttrError::InvalidArgument(index)),
        arg_text(attr.args) is None ==> r is Err,
{
    let accepted = match &attr.args {
        AttrArgs::List(s) => match g {
            Grammar::Type => parses_as_type(s.as_str()),
            Grammar::Expr => parses_as_expr(s.as_str()),
        },
        _ => false,
    };
    check_arg(&attr.args, accepted, index)
}

/// The error for the attribute at `index` of its list, used where its
/// directive does not belong.
pub fn invalid_attr_context(index: usize) -> (r: AttrError)
    ensures
        r == AttrError::WrongContext(index),
{
    AttrError::WrongContext(index)
}

} // verus!
