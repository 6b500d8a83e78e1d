use crate::attrs::{field_attrs_of, field_scan, opt_view, struct_scan};
use crate::decl::{directive_of, AttrArgs, Attribute, Declaration, Directive, FieldDecl};
use crate::generate_of;
use crate::ir::{field_plan_of, field_plans_of, PlanView};
use crate::utils::arg_text;
use vstd::prelude::*;

verus! {

pub open spec fn args_view(a: AttrArgs) -> (int, Seq<char>) {
    match a {
        AttrArgs::Word => (0, Seq::empty()),
        AttrArgs::List(s) => (1, s@),
        AttrArgs::NameValue(s) => (2, s@),
    }
}

/// Two attributes with the same key and the same argument text.
pub open spec fn same_attr(a: Attribute, b: Attribute) -> bool {
    opt_view(a.key) == opt_view(b.key) && args_view(a.args) == args_view(b.args)
}

pub open spec fn same_attrs(a: Seq<Attribute>, b: Seq<Attribute>) -> bool {
    a.len() == b.len() && forall|i: int| 0 <= i < a.len() ==> same_attr(#[trigger] a[i], b[i])
}

pub open spec fn same_field(a: FieldDecl, b: FieldDecl) -> bool {
    opt_view(a.name) == opt_view(b.name) && same_attrs(a.attrs@, b.attrs@)
}

/// Two declarations that read the same: same identifier, generic parameters,
/// shape, and the same attributes and fields in the same order.
pub open spec fn same_decl(a: Declaration, b: Declaration) -> bool {
    a.ident@ == b.ident@ && a.generic_params == b.generic_params && a.shape == b.shape
        && same_attrs(a.attrs@, b.attrs@) && a.fields@.len() == b.fields@.len() && forall|i: int|
        0 <= i < a.fields@.len() ==> same_field(#[trigger] a.fields@[i], b.fields@[i])
}

proof fn lemma_same_directive(a: Attribute, b: Attribute)
    requires
        opt_view(a.key) == opt_view(b.key),
    ensures
        directive_of(a.key) == directive_of(b.key),
{
}

proof fn lemma_struct_scan_same(a: Seq<Attribute>, b: Seq<Attribute>, v: Seq<bool>)
    requires
        same_attrs(a, b),
    ensures
        struct_scan(a, v) == struct_scan(b, v),
    decreases a.len(),
{
    if a.len() > 0 {
        lemma_struct_scan_same(a.drop_last(), b.drop_last(), v.drop_last());
        lemma_same_directive(a.last(), b.last());
        assert(same_attr(a[a.len() - 1], b[b.len() - 1]));
    }
}

proof fn lemma_field_scan_same(a: Seq<Attribute>, b: Seq<Attribute>, v: Seq<bool>)
    requires
        same_attrs(a, b),
    ensures
        field_scan(a, v) == field_scan(b, v),
    decreases a.len(),
{
    if a.len() > 0 {
        lemma_field_scan_same(a.drop_last(), b.drop_last(), v.drop_last());
        lemma_same_directive(a.last(), b.last());
        assert(same_attr(a[a.len() - 1], b[b.len() - 1]));
    }
}

proof fn lemma_field_plans_same(a: Seq<FieldDecl>, b: Seq<FieldDecl>, fv: Seq<Seq<bool>>)
    requires
        a.len() == b.len(),
        forall|i: int| 0 <= i < a.len() ==> same_field(#[trigger] a[i], b[i]),
    ensures
        field_plans_of(a, fv) == field_plans_of(b, fv),
    decreases a.len(),
{
    if a.len() > 0 {
        lemma_field_plans_same(a.drop_last(), b.drop_last(), fv.drop_last());
        assert(same_field(a[a.len() - 1], b[b.len() - 1]));
        lemma_field_scan_same(a.last().attrs@, b.last().attrs@, fv.last());
    }
}

/// Generating twice from declarations that read the same, with the same
/// verdicts from the grammar checks, yields the same routine, or the same
/// error.
pub proof fn lemma_generation_deterministic(
    a: Declaration,
    b: Declaration,
    sv: Seq<bool>,
    fv: Seq<Seq<bool>>,
)
    requires
        same_decl(a, b),
    ensures
        generate_of(a, sv, fv) == generate_of(b, sv, fv),
{
    lemma_struct_scan_same(a.attrs@, b.attrs@, sv);
    lemma_field_plans_same(a.fields@, b.fields@, fv);
}

proof fn lemma_default_kept(attrs: Seq<Attribute>, v: Seq<bool>, j: int)
    requires
        0 <= j < attrs.len(),
        directive_of(attrs[j].key) == Some(Directive::Default),
    ensures
        field_scan(attrs, v) is Err || field_scan(attrs, v)->Ok_0.0,
    decreases attrs.len(),
{
    if j < attrs.len() - 1 {
        lemma_default_kept(attrs.drop_last(), v.drop_last(), j);
    }
}

proof fn lemma_expr_kept(attrs: Seq<Attribute>, v: Seq<bool>, j: int)
    requires
        0 <= j < attrs.len(),
        directive_of(attrs[j].key) == Some(Directive::Expr),
    ensures
        field_scan(attrs, v) is Err || field_scan(attrs, v)->Ok_0.1 is Some,
    decreases attrs.len(),
{
    if j < attrs.len() - 1 {
        lemma_expr_kept(attrs.drop_last(), v.drop_last(), j);
    }
}

proof fn lemma_field_scan_rejects(attrs: Seq<Attribute>, v: Seq<bool>, j: int)
    requires
        0 <= j < attrs.len(),
        directive_of(attrs[j].key) == Some(Directive::Source) || directive_of(attrs[j].key)
            == Some(Directive::Error),
    ensures
        field_scan(attrs, v) is Err,
    decreases attrs.len(),
{
    if j < attrs.len() - 1 {
        lemma_field_scan_rejects(attrs.drop_last(), v.drop_last(), j);
    }
}

proof fn lemma_struct_scan_rejects(attrs: Seq<Attribute>, v: Seq<bool>, j: int)
    requires
        0 <= j < attrs.len(),
        directive_of(attrs[j].key) == Some(Directive::Default) || directive_of(attrs[j].key)
            == Some(Directive::Expr),
    ensures
        struct_scan(attrs, v) is Err,
    decreases attrs.len(),
{
    if j < attrs.len() - 1 {
        lemma_struct_scan_rejects(attrs.drop_last(), v.drop_last(), j);
    }
}

proof fn lemma_field_plans_reject(fs: Seq<FieldDecl>, fv: Seq<Seq<bool>>, i: int)
    requires
        0 <= i < fs.len(),
        forall|v: Seq<bool>| #[trigger] field_plan_of(fs[i], i as usize, v) is Err,
    ensures
        field_plans_of(fs, fv) is Err,
    decreases fs.len(),
{
    if i < fs.len() - 1 {
        lemma_field_plans_reject(fs.drop_last(), fv.drop_last(), i);
    } else {
        assert(field_plan_of(fs.last(), i as usize, fv.last()) is Err);
    }
}

proof fn lemma_field_rejected_fails(d: Declaration, i: int, sv: Seq<bool>, fv: Seq<Seq<bool>>)
    requires
        0 <= i < d.fields@.len(),
        forall|v: Seq<bool>| #[trigger] field_attrs_of(d.fields@[i].attrs@, v) is Err,
    ensures
        generate_of(d, sv, fv) is Err,
{
    assert forall|v: Seq<bool>| #[trigger] field_plan_of(d.fields@[i], i as usize, v) is Err by {
        assert(field_attrs_of(d.fields@[i].attrs@, v) is Err);
    }
    lemma_field_plans_reject(d.fields@, fv, i);
}

/// A field that carries both `default` and `expr` makes generation fail,
/// whatever the grammar checks decide: neither is picked silently.
pub proof fn lemma_exclusive_directives_fail(
    d: Declaration,
    i: int,
    j: int,
    k: int,
    sv: Seq<bool>,
    fv: Seq<Seq<bool>>,
)
    requires
        0 <= i < d.fields@.len(),
        0 <= j < d.fields@[i].attrs@.len(),
        0 <= k < d.fields@[i].attrs@.len(),
        directive_of(d.fields@[i].attrs@[j].key) == Some(Directive::Default),
        directive_of(d.fields@[i].attrs@[k].key) == Some(Directive::Expr),
    ensures
        generate_of(d, sv, fv) is Err,
{
    assert forall|v: Seq<bool>| #[trigger] field_attrs_of(d.fields@[i].attrs@, v) is Err by {
        lemma_default_kept(d.fields@[i].attrs@, v, j);
        lemma_expr_kept(d.fields@[i].attrs@, v, k);
    }
    lemma_field_rejected_fails(d, i, sv, fv);
}

/// `source` or `err` on a field makes generation fail, whatever the grammar
/// checks decide.
pub proof fn lemma_type_directive_on_field_fails(
    d: Declaration,
    i: int,
    j: int,
    sv: Seq<bool>,
    fv: Seq<Seq<bool>>,
)
    requires
        0 <= i < d.fields@.len(),
        0 <= j < d.fields@[i].attrs@.len(),
        directive_of(d.fields@[i].attrs@[j].key) == Some(Directive::Source) || directive_of(
            d.fields@[i].attrs@[j].key,
        ) == Some(Directive::Error),
    ensures
        generate_of(d, sv, fv) is Err,
{
    assert forall|v: Seq<bool>| #[trigger] field_attrs_of(d.fields@[i].attrs@, v) is Err by {
        lemma_field_scan_rejects(d.fields@[i].attrs@, v, j);
    }
    lemma_field_rejected_fails(d, i, sv, fv);
}

/// `default` or `expr` on the target declaration itself makes generation
/// fail, whatever the grammar checks decide.
pub proof fn lemma_field_directive_on_type_fails(
    d: Declaration,
    j: int,
    sv: Seq<bool>,
    fv: Seq<Seq<bool>>,
)
    requires
        0 <= j < d.attrs@.len(),
        directive_of(d.attrs@[j].key) == Some(Directive::Default) || directive_of(d.attrs@[j].key)
            == Some(Directive::Expr),
    ensures
        generate_of(d, sv, fv) is Err,
{
    lemma_struct_scan_rejects(d.attrs@, sv, j);
}

/// Whether some attribute of the list names directive `dir`.
pub open spec fn has_directive(attrs: Seq<Attribute>, dir: Directive) -> bool {
    exists|j: int| 0 <= j < attrs.len() && #[trigger] directive_of(attrs[j].key) == Some(dir)
}

proof fn lemma_has_directive_push(p: Seq<Attribute>, a: Attribute, dir: Directive)
    ensures
        has_directive(p.push(a), dir) <==> (has_directive(p, dir) || directive_of(a.key) == Some(
            dir,
        )),
{
    let q = p.push(a);
    if has_directive(q, dir) {
        let j = choose|j: int| 0 <= j < q.len() && #[trigger] directive_of(q[j].key) == Some(dir);
        if j < p.len() {
            assert(q[j] == p[j]);
        }
    }
    if has_directive(p, dir) {
        let j = choose|j: int| 0 <= j < p.len() && #[trigger] directive_of(p[j].key) == Some(dir);
        assert(q[j] == p[j]);
    }
    if directive_of(a.key) == Some(dir) {
        assert(q[p.len() as int] == a);
    }
}

proof fn lemma_field_scan_tracks(attrs: Seq<Attribute>, v: Seq<bool>)
    requires
        field_scan(attrs, v) is Ok,
    ensures
        field_scan(attrs, v)->Ok_0.0 <==> has_directive(attrs, Directive::Default),
        field_scan(attrs, v)->Ok_0.1 is None <==> !has_directive(attrs, Directive::Expr),
        field_scan(attrs, v)->Ok_0.1 is Some ==> exists|j: int|
            0 <= j < attrs.len() && #[trigger] directive_of(attrs[j].key) == Some(Directive::Expr)
                && arg_text(attrs[j].args) == field_scan(attrs, v)->Ok_0.1,
    decreases attrs.len(),
{
    if attrs.len() > 0 {
        let p = attrs.drop_last();
        let a = attrs.last();
        let n = attrs.len() - 1;
        lemma_field_scan_tracks(p, v.drop_last());
        assert(p.push(a) =~= attrs);
        lemma_has_directive_push(p, a, Directive::Default);
        lemma_has_directive_push(p, a, Directive::Expr);
        let st = field_scan(attrs, v)->Ok_0;
        if st.1 is Some {
            if directive_of(a.key) == Some(Directive::Expr) {
                assert(attrs[n] == a);
            } else {
                let j = choose|j: int|
                    0 <= j < p.len() && #[trigger] directive_of(p[j].key) == Some(Directive::Expr)
                        && arg_text(p[j].args) == field_scan(p, v.drop_last())->Ok_0.1;
                assert(attrs[j] == p[j]);
            }
        }
    }
}

/// The strategy of a field that generation accepts: `default` when some
/// attribute is `default`; else an expression, given verbatim by one of its
/// `expr` attributes; and a recursive conversion exactly when neither
/// directive is present.
pub proof fn lemma_field_strategy(f: FieldDecl, i: usize, v: Seq<bool>)
    requires
        field_plan_of(f, i, v) is Ok,
    ensures
        field_plan_of(f, i, v)->Ok_0.1 is UseDefault <==> has_directive(f.attrs@, Directive::Default),
        field_plan_of(f, i, v)->Ok_0.1 is RecursiveConvert <==> (!has_directive(
            f.attrs@,
            Directive::Default,
        ) && !has_directive(f.attrs@, Directive::Expr)),
        match field_plan_of(f, i, v)->Ok_0.1 {
            PlanView::UseExpression(x) => exists|j: int|
                0 <= j < f.attrs@.len() && #[trigger] directive_of(f.attrs@[j].key) == Some(
                    Directive::Expr,
                ) && arg_text(f.attrs@[j].args) == Some(x),
            _ => true,
        },
        field_plan_of(f, i, v)->Ok_0.0 == f.name->Some_0@,
{
    lemma_field_scan_tracks(f.attrs@, v);
}

} // verus!
