use crate::decl::{directive, directive_of, AttrArgs, AttrError, Attribute, Directive};
use crate::utils::{check_arg, invalid_attr_context, parse_attr_or_abort, parsed_arg, Grammar};
use vstd::prelude::*;

verus! {

pub open spec fn opt_view(o: Option<String>) -> Option<Seq<char>> {
    match o {
        Some(s) => Some(s@),
        None => None,
    }
}

/// What the scan of a declaration's attributes has found so far: the `source`
/// and the `err` argument.
pub type StructScan = (Option<Seq<char>>, Option<Seq<char>>);

/// What the scan of a field's attributes has found so far: whether `default`
/// was seen, and the last `expr` argument.
pub type FieldScan = (bool, Option<Seq<char>>);

/// One step of the scan of a declaration's attributes, on the attribute at
/// `i`, where `accepted` is the verdict of the grammar check on its argument.
pub open spec fn struct_step(st: StructScan, a: Attribute, i: usize, accepted: bool) -> Result<
    StructScan,
    AttrError,
> {
    match directive_of(a.key) {
        None => Err(AttrError::UnknownKey(i)),
        Some(Directive::Default) | Some(Directive::Expr) => Err(AttrError::WrongContext(i)),
        Some(Directive::Source) => if st.0 is Some {
            Err(AttrError::Duplicate(i))
        } else {
            match parsed_arg(a.args, accepted) {
                Some(t) => Ok((Some(t), st.1)),
                None => Err(AttrError::InvalidArgument(i)),
            }
        },
        Some(Directive::Error) => if st.1 is Some {
            Err(AttrError::Duplicate(i))
        } else {
            match parsed_arg(a.args, accepted) {
                Some(t) => Ok((st.0, Some(t))),
                None => Err(AttrError::InvalidArgument(i)),
            }
        },
    }
}

/// The scan of a declaration's attributes, in order; the first rejected
/// attribute ends it. `v[i]` is the verdict of the grammar check on the
/// argument of attribute `i`, where one is made.
pub open spec fn struct_scan(attrs: Seq<Attribute>, v: Seq<bool>) -> Result<StructScan, AttrError>
    decreases attrs.len(),
{
    if attrs.len() == 0 {
        Ok((None, None))
    } else {
        match struct_scan(attrs.drop_last(), v.drop_last()) {
            Err(e) => Err(e),
            Ok(st) => struct_step(st, attrs.last(), (attrs.len() - 1) as usize, v.last()),
        }
    }
}

/// The source and error types that a declaration's attributes give, or why
/// they are rejected.
pub open spec fn struct_attrs_of(attrs: Seq<Attribute>, v: Seq<bool>) -> Result<
    (Seq<char>, Seq<char>),
    AttrError,
> {
    match struct_scan(attrs, v) {
        Err(e) => Err(e),
        Ok((s, e)) => match s {
            None => Err(AttrError::MissingSource),
            Some(s) => match e {
                None => Err(AttrError::MissingErr),
                Some(e) => Ok((s, e)),
            },
        },
    }
}

/// One step of the scan of a field's attributes, on the attribute at `i`,
/// where `accepted` is the verdict of the grammar check on its argument.
pub open spec fn field_step(st: FieldScan, a: Attribute, i: usize, accepted: bool) -> Result<
    FieldScan,
    AttrError,
> {
    match directive_of(a.key) {
        None => Err(AttrError::UnknownKey(i)),
        Some(Directive::Source) | Some(Directive::Error) => Err(AttrError::WrongContext(i)),
        Some(Directive::Default) => match a.args {
            AttrArgs::Word => Ok((true, st.1)),
            _ => Err(AttrError::InvalidArgument(i)),
        },
        Some(Directive::Expr) => match parsed_arg(a.args, accepted) {
            Some(x) => Ok((st.0, Some(x))),
            None => Err(AttrError::InvalidArgument(i)),
        },
    }
}

/// The scan of a field's attributes, in order; the first rejected attribute
/// ends it. `v[i]` is the verdict of the grammar check on the argument of
/// attribute `i`, where one is made.
pub open spec fn field_scan(attrs: Seq<Attribute>, v: Seq<bool>) -> Result<FieldScan, AttrError>
    decreases attrs.len(),
{
    if attrs.len() == 0 {
        Ok((false, None))
    } else {
        match field_scan(attrs.drop_last(), v.drop_last()) {
            Err(e) => Err(e),
            Ok(st) => field_step(st, attrs.last(), (attrs.len() - 1) as usize, v.last()),
        }
    }
}

/// The directives that a field's attributes give, or why they are rejected.
pub open spec fn field_attrs_of(attrs: Seq<Attribute>, v: Seq<bool>) -> Result<FieldScan, AttrError> {
    match field_scan(attrs, v) {
        Err(e) => Err(e),
        Ok((d, x)) => if d && x is Some {
            Err(AttrError::ExclusiveDirectives)
        } else {
            Ok((d, x))
        },
    }
}

proof fn lemma_struct_scan_stops(attrs: Seq<Attribute>, v: Seq<bool>, k: int)
    requires
        0 <= k <= attrs.len(),
        v.len() == attrs.len(),
        struct_scan(attrs.subrange(0, k), v.subrange(0, k)) is Err,
    ensures
        struct_scan(attrs, v) == struct_scan(attrs.subrange(0, k), v.subrange(0, k)),
    decreases attrs.len() - k,
{
    if k == attrs.len() {
        assert(attrs.subrange(0, k) =~= attrs);
        assert(v.subrange(0, k) =~= v);
    } else {
        let p = attrs.drop_last();
        let w = v.drop_last();
        assert(p.subrange(0, k) =~= attrs.subrange(0, k));
        assert(w.subrange(0, k) =~= v.subrange(0, k));
        lemma_struct_scan_stops(p, w, k);
    }
}

proof fn lemma_field_scan_stops(attrs: Seq<Attribute>, v: Seq<bool>, k: int)
    requires
        0 <= k <= attrs.len(),
        v.len() == attrs.len(),
        field_scan(attrs.subrange(0, k), v.subrange(0, k)) is Err,
    ensures
        field_scan(attrs, v) == field_scan(attrs.subrange(0, k), v.subrange(0, k)),
    decreases attrs.len() - k,
{
    if k == attrs.len() {
        assert(attrs.subrange(0, k) =~= attrs);
        assert(v.subrange(0, k) =~= v);
    } else {
        let p = attrs.drop_last();
        let w = v.drop_last();
        assert(p.subrange(0, k) =~= attrs.subrange(0, k));
        assert(w.subrange(0, k) =~= v.subrange(0, k));
        lemma_field_scan_stops(p, w, k);
    }
}

pub open spec fn struct_attrs_view(r: Result<StructAttrs, AttrError>) -> Result<(Seq<char>, Seq<char>), AttrError> {
    match r {
        Ok(sa) => Ok((sa.source_view(), sa.error_view())),
        Err(e) => Err(e),
    }
}

pub open spec fn field_attrs_view(r: Result<FieldAttrs, AttrError>) -> Result<FieldScan, AttrError> {
    match r {
        Ok(fa) => Ok((fa.default_view(), fa.expr_view())),
        Err(e) => Err(e),
    }
}

/// The verdicts of syn on the arguments of a declaration's attributes: for a
/// `source` or `err` argument, whether it is one type; false elsewhere.
pub fn struct_verdicts(attrs: &Vec<Attribute>) -> (v: Vec<bool>)
    ensures
        v@.len() == attrs@.len(),
{
    let mut v: Vec<bool> = Vec::new();
    let mut i: usize = 0;
    while i < attrs.len()
        invariant
            i <= attrs.len(),
            v@.len() == i,
        decreases attrs.len() - i,
    {
        let attr = &attrs[i];
        let accepted = match directive(attr) {
            Some(Directive::Source) | Some(Directive::Error) => parse_attr_or_abort(
                attr,
                Grammar::Type,
                i,
            ).is_ok(),
            _ => false,
        };
        v.push(accepted);
        i = i + 1;
    }
    v
}

/// The verdicts of syn on the arguments of a field's attributes: for an
/// `expr` argument, whether it is one expression; false elsewhere.
pub fn field_verdicts(attrs: &Vec<Attribute>) -> (v: Vec<bool>)
    ensures
        v@.len() == attrs@.len(),
{
    let mut v: Vec<bool> = Vec::new();
    let mut i: usize = 0;
    while i < attrs.len()
        invariant
            i <= attrs.len(),
            v@.len() == i,
        decreases attrs.len() - i,
    {
        let attr = &attrs[i];
        let accepted = match directive(attr) {
            Some(Directive::Expr) => parse_attr_or_abort(attr, Grammar::Expr, i).is_ok(),
            _ => false,
        };
        v.push(accepted);
        i = i + 1;
    }
    v
}

/// The directives given on a target declaration itself.
pub struct StructAttrs {
    source: String,
    err: String,
}

impl StructAttrs {
    pub closed spec fn source_view(&self) -> Seq<char> {
        self.source@
    }

    pub closed spec fn error_view(&self) -> Seq<char> {
        self.err@
    }

    /// Reads `source` and `err` from a declaration's attributes, where `v[i]`
    /// is the verdict of the grammar check on the argument of attribute `i`.
    /// Every other key, a repeated `source` or `err`, or an argument not
    /// written `#[key(arg)]` or not accepted, rejects the list, as does a
    /// missing `source` or `err`.
    pub fn parse_with(attrs: &Vec<Attribute>, v: &Vec<bool>) -> (r: Result<StructAttrs, AttrError>)
        requires
            v@.len() == attrs@.len(),
        ensures
            struct_attrs_view(r) == struct_attrs_of(attrs@, v@),
    {
        let mut source: Option<String> = None;
        let mut err: Option<String> = None;
        let mut i: usize = 0;
        assert(attrs@.subrange(0, 0) =~= Seq::<Attribute>::empty());
        assert(v@.subrange(0, 0) =~= Seq::<bool>::empty());
        while i < attrs.len()
            invariant
                0 <= i <= attrs.len(),
                v@.len() == attrs@.len(),
                struct_scan(attrs@.subrange(0, i as int), v@.subrange(0, i as int)) == Ok::<
                    StructScan,
                    AttrError,
                >((opt_view(source), opt_view(err))),
            decreases attrs.len() - i,
        {
            let attr = &attrs[i];
            let ghost cur = attrs@.subrange(0, i + 1);
            let ghost cv = v@.subrange(0, i + 1);
            assert(cur.drop_last() =~= attrs@.subrange(0, i as int));
            assert(cv.drop_last() =~= v@.subrange(0, i as int));
            assert(cur.last() == attrs@[i as int]);
            assert(cv.last() == v@[i as int]);
            let step: Result<(), AttrError> = match directive(attr) {
                None => Err(AttrError::UnknownKey(i)),
                Some(Directive::Default) | Some(Directive::Expr) => Err(invalid_attr_context(i)),
                Some(Directive::Source) => if source.is_some() {
                    Err(AttrError::Duplicate(i))
                } else {
                    match check_arg(&attr.args, v[i], i) {
                        Ok(t) => {
                            source = Some(t);
                            Ok(())
                        },
                        Err(e) => Err(e),
                    }
                },
                Some(Directive::Error) => if err.is_some() {
                    Err(AttrError::Duplicate(i))
                } else {
                    match check_arg(&attr.args, v[i], i) {
                        Ok(t) => {
                            err = Some(t);
                            Ok(())
                        },
                        Err(e) => Err(e),
                    }
                },
            };
            if let Err(e) = step {
                proof {
                    lemma_struct_scan_stops(attrs@, v@, i + 1);
                }
                return Err(e);
            }
            i = i + 1;
        }
        assert(attrs@.subrange(0, attrs.len() as int) =~= attrs@);
        assert(v@.subrange(0, attrs.len() as int) =~= v@);
        match source {
            None => Err(AttrError::MissingSource),
            Some(source) => match err {
                None => Err(AttrError::MissingErr),
                Some(err) => Ok(StructAttrs { source, err }),
            },
        }
    }

    /// Reads `source` and `err` from a declaration's attributes, with the
    /// verdicts that syn gives on their arguments.
    pub fn parse(attrs: &Vec<Attribute>) -> (r: Result<StructAttrs, AttrError>)
        ensures
            exists|v: Seq<bool>|
                v.len() == attrs@.len() && #[trigger] struct_attrs_of(attrs@, v) == struct_attrs_view(r),
    {
        let v = struct_verdicts(attrs);
        StructAttrs::parse_with(attrs, &v)
    }

    /// The source type, as text.
    pub fn source(&self) -> (r: &String)
        ensures
            r@ == self.source_view(),
    {
        &self.source
    }

    /// The error type, as text.
    pub fn error(&self) -> (r: &String)
        ensures
            r@ == self.error_view(),
    {
        &self.err
    }
}

/// The directives given on one field.
pub struct FieldAttrs {
    default: bool,
    expr: Option<String>,
}

impl FieldAttrs {
    pub closed spec fn default_view(&self) -> bool {
        self.default
    }

    pub closed spec fn expr_view(&self) -> Option<Seq<char>> {
        opt_view(self.expr)
    }

    /// Reads `default` and `expr` from a field's attributes, where `v[i]` is
    /// the verdict of the grammar check on the argument of attribute `i`.
    /// Every other key, `default` with an argument, or an `expr` argument not
    /// written `#[expr(arg)]` or not accepted rejects the list, as do
    /// `default` and `expr` together. Of several `expr`, the last one counts.
    pub fn parse_with(attrs: &Vec<Attribute>, v: &Vec<bool>) -> (r: Result<FieldAttrs, AttrError>)
        requires
            v@.len() == attrs@.len(),
        ensures
            field_attrs_view(r) == field_attrs_of(attrs@, v@),
    {
        let mut default = false;
        let mut expr: Option<String> = None;
        let mut i: usize = 0;
        assert(attrs@.subrange(0, 0) =~= Seq::<Attribute>::empty());
        assert(v@.subrange(0, 0) =~= Seq::<bool>::empty());
        while i < attrs.len()
            invariant
                0 <= i <= attrs.len(),
                v@.len() == attrs@.len(),
                field_scan(attrs@.subrange(0, i as int), v@.subrange(0, i as int)) == Ok::<
                    FieldScan,
                    AttrError,
                >((default, opt_view(expr))),
            decreases attrs.len() - i,
        {
            let attr = &attrs[i];
            let ghost cur = attrs@.subrange(0, i + 1);
            let ghost cv = v@.subrange(0, i + 1);
            assert(cur.drop_last() =~= attrs@.subrange(0, i as int));
            assert(cv.drop_last() =~= v@.subrange(0, i as int));
            assert(cur.last() == attrs@[i as int]);
            assert(cv.last() == v@[i as int]);
            let step: Result<(), AttrError> = match directive(attr) {
                None => Err(AttrError::UnknownKey(i)),
                Some(Directive::Source) | Some(Directive::Error) => Err(invalid_attr_context(i)),
                Some(Directive::Default) => match &attr.args {
                    AttrArgs::Word => {
                        default = true;
                        Ok(())
                    },
                    _ => Err(AttrError::InvalidArgument(i)),
                },
                Some(Directive::Expr) => match check_arg(&attr.args, v[i], i) {
                    Ok(x) => {
                        expr = Some(x);
                        Ok(())
                    },
                    Err(e) => Err(e),
                },
            };
            if let Err(e) = step {
                proof {
                    lemma_field_scan_stops(attrs@, v@, i + 1);
                }
                return Err(e);
            }
            i = i + 1;
        }
        assert(attrs@.subrange(0, attrs.len() as int) =~= attrs@);
        assert(v@.subrange(0, attrs.len() as int) =~= v@);
        if default && expr.is_some() {
            return Err(AttrError::ExclusiveDirectives);
        }
        Ok(FieldAttrs { default, expr })
    }

    /// Reads `default` and `expr` from a field's attributes, with the verdicts
    /// that syn gives on the `expr` arguments.
    pub fn parse(attrs: &Vec<Attribute>) -> (r: Result<FieldAttrs, AttrError>)
        ensures
            exists|v: Seq<bool>|
                v.len() == attrs@.len() && #[trigger] field_attrs_of(attrs@, v) == field_attrs_view(r),
    {
        let v = field_verdicts(attrs);
        FieldAttrs::parse_with(attrs, &v)
    }

    /// Whether the field takes its type's default value.
    pub fn default(&self) -> (r: bool)
        ensures
            r == self.default_view(),
    {
        self.default
    }

    /// The expression that populates the field, if one is given.
    pub fn expr(&self) -> (r: Option<&String>)
        ensures
            match r {
                Some(x) => self.expr_view() == Some(x@),
                None => self.expr_view() is None,
            },
    {
        match &self.expr {
            Some(x) => Some(x),
            None => None,
        }
    }
}

} // verus!
