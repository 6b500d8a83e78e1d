use vstd::prelude::*;

verus! {

/// How the arguments of an attribute are written.
#[derive(Clone, Debug)]
pub enum AttrArgs {
    /// `#[key]`: no argument.
    Word,
    /// `#[key(...)]`: the tokens between the delimiters, as text.
    List(String),
    /// `#[key = ...]`: the tokens after `=`, as text.
    NameValue(String),
}

/// One attribute of a declaration or of a field.
#[derive(Clone, Debug)]
pub struct Attribute {
    /// The attribute's path when it is a single identifier, `None` otherwise.
    pub key: Option<String>,
    pub args: AttrArgs,
}

/// The shape of the declared data.
#[derive(Clone, Copy, Debug, PartialEq, Eq, Structural)]
pub enum Shape {
    /// A struct with named fields.
    Named,
    /// A tuple struct.
    Tuple,
    /// A struct without fields.
    Unit,
    Enum,
    Union,
}

/// One field of the target declaration.
#[derive(Clone, Debug)]
pub struct FieldDecl {
    /// The field's identifier; `None` for a positional field.
    pub name: Option<String>,
    pub attrs: Vec<Attribute>,
}

/// A parsed target type declaration.
#[derive(Clone, Debug)]
pub struct Declaration {
    /// The target type's identifier.
    pub ident: String,
    /// How many generic parameters (lifetimes, types, constants) it declares.
    pub generic_params: usize,
    pub shape: Shape,
    /// The attributes of the declaration itself.
    pub attrs: Vec<Attribute>,
    /// The fields, in declaration order.
    pub fields: Vec<FieldDecl>,
}

/// A directive key that the engine recognises.
#[derive(Clone, Copy, Debug, PartialEq, Eq, Structural)]
pub enum Directive {
    Source,
    /// The `err` key.
    Error,
    Default,
    Expr,
}

/// Why an attribute list was rejected. An index is the position of the
/// offending attribute in its list.
#[derive(Clone, Copy, Debug, PartialEq, Eq, Structural)]
pub enum AttrError {
    /// An attribute whose key is not a directive.
    UnknownKey(usize),
    /// A directive used outside the context it belongs to.
    WrongContext(usize),
    /// A directive whose argument does not follow its grammar.
    InvalidArgument(usize),
    /// `source` or `err` given a second time.
    Duplicate(usize),
    MissingSource,
    MissingErr,
    /// `default` and `expr` on one field.
    ExclusiveDirectives,
}

/// Why no routine was generated for a declaration.
#[derive(Clone, Copy, Debug, PartialEq, Eq, Structural)]
pub enum GenError {
    /// The target declares generic parameters.
    GenericTarget,
    /// The target is not a struct with named fields.
    UnsupportedShape,
    /// The declaration's own attributes were rejected.
    Struct(AttrError),
    /// The attributes of the field at this index were rejected.
    Field(usize, AttrError),
}

pub open spec fn directive_of(key: Option<String>) -> Option<Directive> {
    match key {
        Some(k) => if k@ == "source"@ {
            Some(Directive::Source)
        } else if k@ == "err"@ {
            Some(Directive::Error)
        } else if k@ == "default"@ {
            Some(Directive::Default)
        } else if k@ == "expr"@ {
            Some(Directive::Expr)
        } else {
            None
        },
        None => None,
    }
}

fn same_text(a: &String, b: &str) -> (r: bool)
    ensures
        r == (a@ == b@),
{
    let b = String::from_str(b);
    *a == b
}

/// The directive that an attribute names, if any.
pub fn directive(attr: &Attribute) -> (r: Option<Directive>)
    ensures
        r == directive_of(attr.key),
{
    match &attr.key {
        Some(k) => if same_text(k, "source") {
            Some(Directive::Source)
        } else if same_text(k, "err") {
            Some(Directive::Error)
        } else if same_text(k, "default") {
            Some(Directive::Default)
        } else if same_text(k, "expr") {
            Some(Directive::Expr)
        } else {
            None
        },
        None => None,
    }
}

} // verus!
