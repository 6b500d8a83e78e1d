use crate::attrs::{
    field_attrs_of, field_verdicts, struct_attrs_of, struct_attrs_view,
    struct_verdicts, FieldAttrs, FieldScan, StructAttrs,
};
use crate::decl::{AttrError, Declaration, FieldDecl, GenError, Shape};
use vstd::prelude::*;

verus! {

/// How the generated routine populates one field.
#[derive(Clone, Debug, PartialEq, Eq)]
pub enum Strategy {
    /// With the field type's default value.
    UseDefault,
    /// With the given expression, evaluated in the routine's scope.
    UseExpression(String),
    /// By a fallible conversion of the source reference into the field's type.
    RecursiveConvert,
}

/// The mathematical form of a [`Strategy`].
pub enum PlanView {
    UseDefault,
    UseExpression(Seq<char>),
    RecursiveConvert,
}

impl View for Strategy {
    type V = PlanView;

    open spec fn view(&self) -> PlanView {
        match self {
            Strategy::UseDefault => PlanView::UseDefault,
            Strategy::UseExpression(x) => PlanView::UseExpression(x@),
            Strategy::RecursiveConvert => PlanView::RecursiveConvert,
        }
    }
}

/// One field of the target and the strategy that populates it.
#[derive(Clone, Debug, PartialEq, Eq)]
pub struct FieldPlan {
    pub name: String,
    pub strategy: Strategy,
}

pub open spec fn plan_view(p: FieldPlan) -> (Seq<char>, PlanView) {
    (p.name@, p.strategy@)
}

pub open spec fn plans_view(ps: Seq<FieldPlan>) -> Seq<(Seq<char>, PlanView)> {
    ps.map_values(|p: FieldPlan| plan_view(p))
}

/// The strategy that a field's directives select: `default` first, then
/// `expr`, else a recursive conversion.
pub open spec fn strategy_of(fa: FieldScan) -> PlanView {
    if fa.0 {
        PlanView::UseDefault
    } else {
        match fa.1 {
            Some(x) => PlanView::UseExpression(x),
            None => PlanView::RecursiveConvert,
        }
    }
}

/// The plan of the field at `i`, or why generation fails on it, for the
/// verdicts `v` of the grammar checks on its attributes.
pub open spec fn field_plan_of(f: FieldDecl, i: usize, v: Seq<bool>) -> Result<(Seq<char>, PlanView), GenError> {
    match f.name {
        None => Err(GenError::UnsupportedShape),
        Some(n) => match field_attrs_of(f.attrs@, v) {
            Err(e) => Err(GenError::Field(i, e)),
            Ok(fa) => Ok((n@, strategy_of(fa))),
        },
    }
}

/// The plans of the fields, in declaration order; the first rejected field
/// ends the scan. `fv[i]` holds the verdicts for the attributes of field `i`.
pub open spec fn field_plans_of(fs: Seq<FieldDecl>, fv: Seq<Seq<bool>>) -> Result<
    Seq<(Seq<char>, PlanView)>,
    GenError,
>
    decreases fs.len(),
{
    if fs.len() == 0 {
        Ok(Seq::empty())
    } else {
        match field_plans_of(fs.drop_last(), fv.drop_last()) {
            Err(e) => Err(e),
            Ok(ps) => match field_plan_of(fs.last(), (fs.len() - 1) as usize, fv.last()) {
                Err(e) => Err(e),
                Ok(p) => Ok(ps.push(p)),
            },
        }
    }
}

pub open spec fn is_record_shape(s: Shape) -> bool {
    s == Shape::Named || s == Shape::Unit
}

/// The plans of a declaration's fields, or why they cannot be built.
pub open spec fn fields_of(d: Declaration, fv: Seq<Seq<bool>>) -> Result<
    Seq<(Seq<char>, PlanView)>,
    GenError,
> {
    if is_record_shape(d.shape) {
        field_plans_of(d.fields@, fv)
    } else {
        Err(GenError::UnsupportedShape)
    }
}

/// The name to which the generated routine binds the source reference.
pub open spec fn source_ident_spec() -> Seq<char> {
    "input"@
}

pub open spec fn verdicts_view(fv: Seq<Vec<bool>>) -> Seq<Seq<bool>> {
    fv.map_values(|x: Vec<bool>| x@)
}

/// Verdicts shaped like a declaration: one per attribute of the declaration
/// (`sv`) and one per attribute of each field (`fv`).
pub open spec fn verdicts_fit(d: Declaration, sv: Seq<bool>, fv: Seq<Seq<bool>>) -> bool {
    &&& sv.len() == d.attrs@.len()
    &&& fv.len() == d.fields@.len()
    &&& forall|i: int| 0 <= i < fv.len() ==> (#[trigger] fv[i]).len() == d.fields@[i].attrs@.len()
}

/// The verdicts of syn on the attribute arguments of a declaration and of its
/// fields.
pub fn declaration_verdicts(d: &Declaration) -> (r: (Vec<bool>, Vec<Vec<bool>>))
    ensures
        verdicts_fit(*d, r.0@, verdicts_view(r.1@)),
{
    let sv = struct_verdicts(&d.attrs);
    let mut fv: Vec<Vec<bool>> = Vec::new();
    let mut i: usize = 0;
    while i < d.fields.len()
        invariant
            i <= d.fields@.len(),
            fv@.len() == i,
            forall|j: int| 0 <= j < i ==> (#[trigger] fv@[j])@.len() == d.fields@[j].attrs@.len(),
        decreases d.fields.len() - i,
    {
        let v = field_verdicts(&d.fields[i].attrs);
        fv.push(v);
        i = i + 1;
    }
    (sv, fv)
}

pub open spec fn plans_result_view(r: Result<Vec<FieldPlan>, GenError>) -> Result<
    Seq<(Seq<char>, PlanView)>,
    GenError,
> {
    match r {
        Ok(ps) => Ok(plans_view(ps@)),
        Err(e) => Err(e),
    }
}

pub open spec fn plan_result_view(r: Result<FieldPlan, GenError>) -> Result<(Seq<char>, PlanView), GenError> {
    match r {
        Ok(p) => Ok(plan_view(p)),
        Err(e) => Err(e),
    }
}

pub open spec fn text_result_view(r: Result<String, AttrError>) -> Result<Seq<char>, AttrError> {
    match r {
        Ok(s) => Ok(s@),
        Err(e) => Err(e),
    }
}

proof fn lemma_field_plans_stop(fs: Seq<FieldDecl>, fv: Seq<Seq<bool>>, k: int)
    requires
        0 <= k <= fs.len(),
        fv.len() == fs.len(),
        field_plans_of(fs.subrange(0, k), fv.subrange(0, k)) is Err,
    ensures
        field_plans_of(fs, fv) == field_plans_of(fs.subrange(0, k), fv.subrange(0, k)),
    decreases fs.len() - k,
{
    if k == fs.len() {
        assert(fs.subrange(0, k) =~= fs);
        assert(fv.subrange(0, k) =~= fv);
    } else {
        let p = fs.drop_last();
        let w = fv.drop_last();
        assert(p.subrange(0, k) =~= fs.subrange(0, k));
        assert(w.subrange(0, k) =~= fv.subrange(0, k));
        lemma_field_plans_stop(p, w, k);
    }
}

/// The intermediate representation of a target declaration.
pub struct IR {
    input: Declaration,
}

impl IR {
    pub closed spec fn decl(&self) -> Declaration {
        self.input
    }

    /// Wraps a declaration.
    pub fn new(input: Declaration) -> (r: IR)
        ensures
            r.decl() == input,
    {
        IR { input }
    }

    /// The target type's identifier.
    pub fn target_ident(&self) -> (r: String)
        ensures
            r@ == self.decl().ident@,
    {
        self.input.ident.clone()
    }

    /// Rejects a generic target.
    pub fn validate(&self) -> (r: Result<(), GenError>)
        ensures
            r is Ok <==> self.decl().generic_params == 0,
            r is Err ==> r == Err::<(), GenError>(GenError::GenericTarget),
    {
        if self.is_generic() {
            Err(GenError::GenericTarget)
        } else {
            Ok(())
        }
    }

    /// Whether the target declares generic parameters.
    pub fn is_generic(&self) -> (r: bool)
        ensures
            r == (self.decl().generic_params > 0),
    {
        self.input.generic_params > 0
    }

    /// The declaration that the IR wraps.
    pub fn declaration(&self) -> (r: &Declaration)
        ensures
            *r == self.decl(),
    {
        &self.input
    }

    /// The directives on the target declaration itself, for the verdicts `sv`
    /// of the grammar checks on its attributes.
    pub fn struct_attrs_with(&self, sv: &Vec<bool>) -> (r: Result<StructAttrs, AttrError>)
        requires
            sv@.len() == self.decl().attrs@.len(),
        ensures
            struct_attrs_view(r) == struct_attrs_of(self.decl().attrs@, sv@),
    {
        StructAttrs::parse_with(&self.input.attrs, sv)
    }

    /// The directives on the target declaration itself.
    pub fn struct_attrs(&self) -> (r: Result<StructAttrs, AttrError>)
        ensures
            exists|v: Seq<bool>| #[trigger] struct_attrs_of(self.decl().attrs@, v) == struct_attrs_view(r),
    {
        StructAttrs::parse(&self.input.attrs)
    }

    /// The source type, as text.
    pub fn source(&self) -> (r: Result<String, AttrError>)
        ensures
            exists|v: Seq<bool>|
                match #[trigger] struct_attrs_of(self.decl().attrs@, v) {
                    Ok(st) => text_result_view(r) == Ok::<Seq<char>, AttrError>(st.0),
                    Err(e) => text_result_view(r) == Err::<Seq<char>, AttrError>(e),
                },
    {
        match self.struct_attrs() {
            Ok(sa) => Ok(sa.source().clone()),
            Err(e) => Err(e),
        }
    }

    /// The error type, as text.
    pub fn error(&self) -> (r: Result<String, AttrError>)
        ensures
            exists|v: Seq<bool>|
                match #[trigger] struct_attrs_of(self.decl().attrs@, v) {
                    Ok(st) => text_result_view(r) == Ok::<Seq<char>, AttrError>(st.1),
                    Err(e) => text_result_view(r) == Err::<Seq<char>, AttrError>(e),
                },
    {
        match self.struct_attrs() {
            Ok(sa) => Ok(sa.error().clone()),
            Err(e) => Err(e),
        }
    }

    /// The name to which the generated routine binds the source reference.
    pub fn source_ident(&self) -> (r: String)
        ensures
            r@ == source_ident_spec(),
    {
        source_ident()
    }

    /// The plan of every field, in declaration order, for the verdicts `fv`
    /// of the grammar checks on the fields' attributes.
    pub fn fields_with(&self, fv: &Vec<Vec<bool>>) -> (r: Result<Vec<FieldPlan>, GenError>)
        requires
            fv@.len() == self.decl().fields@.len(),
            forall|i: int|
                0 <= i < fv@.len() ==> (#[trigger] fv@[i])@.len() == self.decl().fields@[i].attrs@.len(),
        ensures
            plans_result_view(r) == fields_of(self.decl(), verdicts_view(fv@)),
    {
        let fs = match self.data() {
            Ok(fs) => fs,
            Err(e) => return Err(e),
        };
        let ghost vv = verdicts_view(fv@);
        let mut out: Vec<FieldPlan> = Vec::new();
        let mut i: usize = 0;
        assert(fs@.subrange(0, 0) =~= Seq::<FieldDecl>::empty());
        assert(vv.subrange(0, 0) =~= Seq::<Seq<bool>>::empty());
        assert(plans_view(out@) =~= Seq::<(Seq<char>, PlanView)>::empty());
        while i < fs.len()
            invariant
                0 <= i <= fs.len(),
                fs@ == self.decl().fields@,
                is_record_shape(self.decl().shape),
                vv == verdicts_view(fv@),
                vv.len() == fs@.len(),
                forall|j: int| 0 <= j < fv@.len() ==> (#[trigger] fv@[j])@.len() == fs@[j].attrs@.len(),
                field_plans_of(fs@.subrange(0, i as int), vv.subrange(0, i as int)) == Ok::<
                    Seq<(Seq<char>, PlanView)>,
                    GenError,
                >(plans_view(out@)),
            decreases fs.len() - i,
        {
            let ghost cur = fs@.subrange(0, i + 1);
            let ghost cv = vv.subrange(0, i + 1);
            assert(cur.drop_last() =~= fs@.subrange(0, i as int));
            assert(cv.drop_last() =~= vv.subrange(0, i as int));
            assert(cur.last() == fs@[i as int]);
            assert(cv.last() == fv@[i as int]@);
            assert(fv@[i as int]@.len() == fs@[i as int].attrs@.len());
            match to_field_definition_with(&fs[i], i, &fv[i]) {
                Ok(p) => {
                    let ghost before = out@;
                    out.push(p);
                    assert(plans_view(out@) =~= plans_view(before).push(plan_view(p)));
                },
                Err(e) => {
                    proof {
                        lemma_field_plans_stop(fs@, vv, i + 1);
                    }
                    return Err(e);
                },
            }
            i = i + 1;
        }
        assert(fs@.subrange(0, fs.len() as int) =~= fs@);
        assert(vv.subrange(0, fs.len() as int) =~= vv);
        Ok(out)
    }

    /// The plan of every field, in declaration order, for the verdicts that
    /// syn gives.
    pub fn fields(&self) -> (r: Result<Vec<FieldPlan>, GenError>)
        ensures
            exists|fv: Seq<Seq<bool>>|
                fv.len() == self.decl().fields@.len() && #[trigger] fields_of(self.decl(), fv)
                    == plans_result_view(r),
    {
        let (_, fv) = declaration_verdicts(&self.input);
        assert forall|i: int| 0 <= i < fv@.len() implies (#[trigger] fv@[i])@.len()
            == self.decl().fields@[i].attrs@.len() by {
            assert(verdicts_view(fv@)[i] == fv@[i]@);
        }
        let r = self.fields_with(&fv);
        assert(fields_of(self.decl(), verdicts_view(fv@)) == plans_result_view(r));
        r
    }

    fn data(&self) -> (r: Result<&Vec<FieldDecl>, GenError>)
        ensures
            match r {
                Ok(fs) => is_record_shape(self.decl().shape) && fs@ == self.decl().fields@,
                Err(e) => !is_record_shape(self.decl().shape) && e == GenError::UnsupportedShape,
            },
    {
        match self.input.shape {
            Shape::Named | Shape::Unit => Ok(&self.input.fields),
            _ => Err(GenError::UnsupportedShape),
        }
    }
}

/// The plan of the field at index `i`: its name and the strategy that its
/// directives select, for the verdicts `v` of the grammar checks on its
/// attributes.
pub fn to_field_definition_with(field: &FieldDecl, i: usize, v: &Vec<bool>) -> (r: Result<
    FieldPlan,
    GenError,
>)
    requires
        v@.len() == field.attrs@.len(),
    ensures
        plan_result_view(r) == field_plan_of(*field, i, v@),
{
    let name = match &field.name {
        Some(n) => n.clone(),
        None => return Err(GenError::UnsupportedShape),
    };
    let attrs = match FieldAttrs::parse_with(&field.attrs, v) {
        Ok(a) => a,
        Err(e) => return Err(GenError::Field(i, e)),
    };
    let strategy = if attrs.default() {
        Strategy::UseDefault
    } else if let Some(x) = attrs.expr() {
        Strategy::UseExpression(x.clone())
    } else {
        Strategy::RecursiveConvert
    };
    Ok(FieldPlan { name, strategy })
}

/// The plan of the field at index `i`, for the verdicts that syn gives on
/// its `expr` arguments.
pub fn to_field_definition(field: &FieldDecl, i: usize) -> (r: Result<FieldPlan, GenError>)
    ensures
        exists|v: Seq<bool>|
            v.len() == field.attrs@.len() && #[trigger] field_plan_of(*field, i, v) == plan_result_view(r),
{
    let v = field_verdicts(&field.attrs);
    to_field_definition_with(field, i, &v)
}

/// The name to which the generated routine binds the source reference.
pub fn source_ident() -> (r: String)
    ensures
        r@ == source_ident_spec(),
{
    String::from_str("input")
}

} // verus!
