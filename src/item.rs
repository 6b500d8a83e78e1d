use crate::attrs::struct_attrs_of;
use crate::decl::{Declaration, GenError};
use crate::ir::{
    declaration_verdicts, fields_of, plans_view, source_ident_spec, verdicts_fit,
    verdicts_view, FieldPlan, PlanView, Strategy, IR,
};
use vstd::prelude::*;

verus! {

/// The mathematical form of an [`Item`].
pub struct ItemView {
    pub source: Seq<char>,
    pub target: Seq<char>,
    pub error: Seq<char>,
    pub input: Seq<char>,
    pub fields: Seq<(Seq<char>, PlanView)>,
}

/// The text that initialises a field with strategy `p`, where `input` names the
/// source reference.
pub open spec fn initializer(p: PlanView, input: Seq<char>) -> Seq<char> {
    match p {
        PlanView::UseDefault => "Default::default()"@,
        PlanView::UseExpression(x) => x,
        PlanView::RecursiveConvert => input + ".try_into()?"@,
    }
}

/// The field initialisers of the routine's struct literal, in order, each
/// followed by a comma.
pub open spec fn field_inits(ps: Seq<(Seq<char>, PlanView)>, input: Seq<char>) -> Seq<char>
    decreases ps.len(),
{
    if ps.len() == 0 {
        Seq::empty()
    } else {
        field_inits(ps.drop_last(), input) + ps.last().0 + ": "@ + initializer(ps.last().1, input)
            + ", "@
    }
}

/// The text of the routine up to its field initialisers.
pub open spec fn routine_head(it: ItemView) -> Seq<char> {
    "#[automatically_derived] impl ::core::convert::TryFrom<&'_ "@ + it.source + "> for "@
        + it.target + " { type Error = "@ + it.error + "; fn try_from("@ + it.input + ": &'_ "@
        + it.source + ") -> ::core::result::Result<Self, Self::Error> { Ok(Self { "@
}

/// The text of the conversion routine that an item stands for.
pub open spec fn routine_text(it: ItemView) -> Seq<char> {
    routine_head(it) + field_inits(it.fields, it.input) + "}) } }"@
}

/// The item that a declaration yields, or why it yields none, for the
/// verdicts `sv` of the grammar checks on the declaration's own attributes and
/// `fv` on those of its fields. Generic parameters are not looked at here.
pub open spec fn item_of(d: Declaration, sv: Seq<bool>, fv: Seq<Seq<bool>>) -> Result<ItemView, GenError> {
    match struct_attrs_of(d.attrs@, sv) {
        Err(e) => Err(GenError::Struct(e)),
        Ok(st) => match fields_of(d, fv) {
            Err(e) => Err(e),
            Ok(ps) => Ok(
                ItemView {
                    source: st.0,
                    target: d.ident@,
                    error: st.1,
                    input: source_ident_spec(),
                    fields: ps,
                },
            ),
        },
    }
}

pub open spec fn item_result_view(r: Result<Item, GenError>) -> Result<ItemView, GenError> {
    match r {
        Ok(it) => Ok(it@),
        Err(e) => Err(e),
    }
}

/// A conversion routine ready to be rendered.
pub struct Item {
    source: String,
    target: String,
    error_ty: String,
    input: String,
    fields: Vec<FieldPlan>,
}

impl View for Item {
    type V = ItemView;

    closed spec fn view(&self) -> ItemView {
        ItemView {
            source: self.source@,
            target: self.target@,
            error: self.error_ty@,
            input: self.input@,
            fields: plans_view(self.fields@),
        }
    }
}

impl Item {
    /// Builds the item of an IR: its source and error types, its target, and
    /// the plan of each field, for the verdicts `sv` of the grammar checks on
    /// the declaration's attributes and `fv` on those of its fields.
    pub fn from_ir_with(ir: &IR, sv: &Vec<bool>, fv: &Vec<Vec<bool>>) -> (r: Result<Item, GenError>)
        requires
            sv@.len() == ir.decl().attrs@.len(),
            fv@.len() == ir.decl().fields@.len(),
            forall|i: int|
                0 <= i < fv@.len() ==> (#[trigger] fv@[i])@.len() == ir.decl().fields@[i].attrs@.len(),
        ensures
            item_result_view(r) == item_of(ir.decl(), sv@, verdicts_view(fv@)),
    {
        let sa = match ir.struct_attrs_with(sv) {
            Ok(sa) => sa,
            Err(e) => return Err(GenError::Struct(e)),
        };
        let source = sa.source().clone();
        let error_ty = sa.error().clone();
        let target = ir.target_ident();
        let input = ir.source_ident();
        match ir.fields_with(fv) {
            Ok(fields) => Ok(Item { source, target, error_ty, input, fields }),
            Err(e) => Err(e),
        }
    }

    /// Builds the item of an IR, for the verdicts that syn gives on the
    /// attribute arguments.
    pub fn from_ir(ir: &IR) -> (r: Result<Item, GenError>)
        ensures
            exists|sv: Seq<bool>, fv: Seq<Seq<bool>>|
                verdicts_fit(ir.decl(), sv, fv) && #[trigger] item_of(ir.decl(), sv, fv)
                    == item_result_view(r),
    {
        let (sv, fv) = declaration_verdicts(ir.declaration());
        assert forall|i: int| 0 <= i < fv@.len() implies (#[trigger] fv@[i])@.len()
            == ir.decl().fields@[i].attrs@.len() by {
            assert(verdicts_view(fv@)[i] == fv@[i]@);
        }
        let r = Item::from_ir_with(ir, &sv, &fv);
        assert(verdicts_fit(ir.decl(), sv@, verdicts_view(fv@)));
        r
    }

    /// The source text of the conversion routine.
    pub fn render(&self) -> (r: String)
        ensures
            r@ == routine_text(self@),
    {
        let mut s = String::new();
        s.append("#[automatically_derived] impl ::core::convert::TryFrom<&'_ ");
        s.append(self.source.as_str());
        s.append("> for ");
        s.append(self.target.as_str());
        s.append(" { type Error = ");
        s.append(self.error_ty.as_str());
        s.append("; fn try_from(");
        s.append(self.input.as_str());
        s.append(": &'_ ");
        s.append(self.source.as_str());
        s.append(") -> ::core::result::Result<Self, Self::Error> { Ok(Self { ");
        let ghost head = s@;
        assert(head =~= routine_head(self@));
        let ghost ps = plans_view(self.fields@);
        let mut i: usize = 0;
        assert(ps.subrange(0, 0) =~= Seq::<(Seq<char>, PlanView)>::empty());
        assert(s@ =~= head + field_inits(ps.subrange(0, 0), self.input@));
        while i < self.fields.len()
            invariant
                0 <= i <= self.fields.len(),
                ps == plans_view(self.fields@),
                head == routine_head(self@),
                s@ == head + field_inits(ps.subrange(0, i as int), self.input@),
            decreases self.fields.len() - i,
        {
            let f = &self.fields[i];
            let ghost before = s@;
            s.append(f.name.as_str());
            s.append(": ");
            match &f.strategy {
                Strategy::UseDefault => s.append("Default::default()"),
                Strategy::UseExpression(x) => s.append(x.as_str()),
                Strategy::RecursiveConvert => {
                    s.append(self.input.as_str());
                    s.append(".try_into()?");
                },
            }
            s.append(", ");
            let ghost cur = ps.subrange(0, i + 1);
            assert(cur.drop_last() =~= ps.subrange(0, i as int));
            assert(cur.last() == ps[i as int]);
            assert(s@ =~= head + field_inits(cur, self.input@));
            i = i + 1;
        }
        assert(ps.subrange(0, self.fields.len() as int) =~= ps);
        s.append("}) } }");
        s
    }
}

} // verus!
