use crate::decl::Declaration;
use crate::generate_of;
use crate::ir::{fields_of, PlanView};
use vstd::prelude::*;

verus! {

/// The strategies of a declaration's fields, in declaration order, for the
/// verdicts `fv` of the grammar checks on their attributes.
pub open spec fn routine_plans(d: Declaration, fv: Seq<Seq<bool>>) -> Seq<PlanView> {
    fields_of(d, fv)->Ok_0.map_values(|p: (Seq<char>, PlanView)| p.1)
}

/// Whether the initialiser of a field with strategy `p` fails when its nested
/// conversion gives `c`.
pub open spec fn fails<V, E>(p: PlanView, c: Result<V, E>) -> bool {
    p is RecursiveConvert && c is Err
}

/// What the generated routine returns. It evaluates the initialisers of its
/// struct literal in field order: field `i` takes `default_value(i)` under
/// `default`, `expr_value(i)` under `expr`, and otherwise the result of its
/// nested conversion `convert(i)`, whose error `?` returns at once.
pub open spec fn run_fields<V, E>(
    plans: Seq<PlanView>,
    default_value: spec_fn(int) -> V,
    expr_value: spec_fn(int) -> V,
    convert: spec_fn(int) -> Result<V, E>,
) -> Result<Seq<V>, E>
    decreases plans.len(),
{
    if plans.len() == 0 {
        Ok(Seq::empty())
    } else {
        let i = plans.len() - 1;
        match run_fields(plans.drop_last(), default_value, expr_value, convert) {
            Err(e) => Err(e),
            Ok(vs) => match plans.last() {
                PlanView::UseDefault => Ok(vs.push(default_value(i))),
                PlanView::UseExpression(_) => Ok(vs.push(expr_value(i))),
                PlanView::RecursiveConvert => match convert(i) {
                    Ok(v) => Ok(vs.push(v)),
                    Err(e) => Err(e),
                },
            },
        }
    }
}

/// The index of the first field whose nested conversion fails, if any.
pub open spec fn first_failure<V, E>(plans: Seq<PlanView>, convert: spec_fn(int) -> Result<V, E>) -> Option<int>
    decreases plans.len(),
{
    if plans.len() == 0 {
        None
    } else {
        match first_failure(plans.drop_last(), convert) {
            Some(k) => Some(k),
            None => if fails(plans.last(), convert(plans.len() - 1)) {
                Some(plans.len() - 1)
            } else {
                None
            },
        }
    }
}

proof fn lemma_first_failure_is<V, E>(plans: Seq<PlanView>, convert: spec_fn(int) -> Result<V, E>, k: int)
    ensures
        first_failure(plans, convert) == Some(k) <==> (0 <= k < plans.len() && fails(
            plans[k],
            convert(k),
        ) && forall|j: int| 0 <= j < k ==> !fails(#[trigger] plans[j], convert(j))),
    decreases plans.len(),
{
    if plans.len() > 0 {
        let p = plans.drop_last();
        let n = plans.len() - 1;
        lemma_first_failure_is(p, convert, k);
        assert forall|j: int| 0 <= j < n implies p[j] == plans[j] by {}
        match first_failure(p, convert) {
            Some(m) => {
                lemma_first_failure_is(p, convert, m);
                if k == n && fails(plans[k], convert(k)) && forall|j: int|
                    0 <= j < k ==> !fails(#[trigger] plans[j], convert(j)) {
                    assert(!fails(plans[m], convert(m)));
                }
            },
            None => {
                assert forall|j: int| 0 <= j < n implies !fails(#[trigger] plans[j], convert(j)) by {
                    lemma_first_failure_none_at(p, convert, j);
                }
            },
        }
    }
}

proof fn lemma_first_failure_none_at<V, E>(plans: Seq<PlanView>, convert: spec_fn(int) -> Result<V, E>, m: int)
    requires
        first_failure(plans, convert) is None,
        0 <= m < plans.len(),
    ensures
        !fails(plans[m], convert(m)),
    decreases plans.len(),
{
    if m < plans.len() - 1 {
        lemma_first_failure_none_at(plans.drop_last(), convert, m);
    }
}

proof fn lemma_run_outcome<V, E>(
    plans: Seq<PlanView>,
    default_value: spec_fn(int) -> V,
    expr_value: spec_fn(int) -> V,
    convert: spec_fn(int) -> Result<V, E>,
)
    ensures
        match first_failure(plans, convert) {
            Some(k) => run_fields(plans, default_value, expr_value, convert) == Err::<Seq<V>, E>(
                convert(k)->Err_0,
            ),
            None => run_fields(plans, default_value, expr_value, convert) is Ok,
        },
    decreases plans.len(),
{
    if plans.len() > 0 {
        lemma_run_outcome(plans.drop_last(), default_value, expr_value, convert);
    }
}

proof fn lemma_run_values<V, E>(
    plans: Seq<PlanView>,
    default_value: spec_fn(int) -> V,
    expr_value: spec_fn(int) -> V,
    convert: spec_fn(int) -> Result<V, E>,
)
    requires
        run_fields(plans, default_value, expr_value, convert) is Ok,
    ensures
        ({
            let vs = run_fields(plans, default_value, expr_value, convert)->Ok_0;
            &&& vs.len() == plans.len()
            &&& forall|i: int|
                0 <= i < plans.len() ==> match #[trigger] plans[i] {
                    PlanView::UseDefault => vs[i] == default_value(i),
                    PlanView::UseExpression(_) => vs[i] == expr_value(i),
                    PlanView::RecursiveConvert => convert(i) == Ok::<V, E>(vs[i]),
                }
        }),
    decreases plans.len(),
{
    if plans.len() > 0 {
        let p = plans.drop_last();
        lemma_run_values(p, default_value, expr_value, convert);
        let vs = run_fields(plans, default_value, expr_value, convert)->Ok_0;
        let ws = run_fields(p, default_value, expr_value, convert)->Ok_0;
        assert forall|i: int| 0 <= i < plans.len() - 1 implies plans[i] == p[i] && vs[i] == ws[i] by {}
    }
}

/// When every field is converted and every nested conversion succeeds, the
/// routine returns the conversions' outputs, in declaration order.
pub proof fn lemma_all_converted<V, E>(
    d: Declaration,
    sv: Seq<bool>,
    fv: Seq<Seq<bool>>,
    default_value: spec_fn(int) -> V,
    expr_value: spec_fn(int) -> V,
    convert: spec_fn(int) -> Result<V, E>,
)
    requires
        generate_of(d, sv, fv) is Ok,
        forall|i: int|
            0 <= i < routine_plans(d, fv).len() ==> #[trigger] routine_plans(d, fv)[i] is RecursiveConvert
                && convert(i) is Ok,
    ensures
        run_fields(routine_plans(d, fv), default_value, expr_value, convert) == Ok::<Seq<V>, E>(
            Seq::new(routine_plans(d, fv).len(), |i: int| convert(i)->Ok_0),
        ),
{
    let plans = routine_plans(d, fv);
    if first_failure(plans, convert) is Some {
        let k = first_failure(plans, convert)->Some_0;
        lemma_first_failure_is(plans, convert, k);
    }
    lemma_run_outcome(plans, default_value, expr_value, convert);
    lemma_run_values(plans, default_value, expr_value, convert);
    let vs = run_fields(plans, default_value, expr_value, convert)->Ok_0;
    assert forall|i: int| 0 <= i < plans.len() implies vs[i] == convert(i)->Ok_0 by {
        assert(plans[i] is RecursiveConvert);
    }
    assert(vs =~= Seq::new(plans.len(), |i: int| convert(i)->Ok_0));
}

/// A field under `default` holds its type's default value, whatever the
/// source holds.
pub proof fn lemma_default_field<V, E>(
    d: Declaration,
    sv: Seq<bool>,
    fv: Seq<Seq<bool>>,
    default_value: spec_fn(int) -> V,
    expr_value: spec_fn(int) -> V,
    convert: spec_fn(int) -> Result<V, E>,
    i: int,
)
    requires
        generate_of(d, sv, fv) is Ok,
        0 <= i < routine_plans(d, fv).len(),
        routine_plans(d, fv)[i] is UseDefault,
        run_fields(routine_plans(d, fv), default_value, expr_value, convert) is Ok,
    ensures
        run_fields(routine_plans(d, fv), default_value, expr_value, convert)->Ok_0[i] == default_value(i),
{
    lemma_run_values(routine_plans(d, fv), default_value, expr_value, convert);
}

/// A field under `expr` holds its expression's value, whatever else the
/// source holds.
pub proof fn lemma_expression_field<V, E>(
    d: Declaration,
    sv: Seq<bool>,
    fv: Seq<Seq<bool>>,
    default_value: spec_fn(int) -> V,
    expr_value: spec_fn(int) -> V,
    convert: spec_fn(int) -> Result<V, E>,
    i: int,
)
    requires
        generate_of(d, sv, fv) is Ok,
        0 <= i < routine_plans(d, fv).len(),
        routine_plans(d, fv)[i] is UseExpression,
        run_fields(routine_plans(d, fv), default_value, expr_value, convert) is Ok,
    ensures
        run_fields(routine_plans(d, fv), default_value, expr_value, convert)->Ok_0[i] == expr_value(i),
{
    lemma_run_values(routine_plans(d, fv), default_value, expr_value, convert);
}

/// When the nested conversion of field `k` fails and none before it does, the
/// routine returns exactly that error, and nothing after field `k` has any
/// effect: any other conversions, defaults or expression values for the
/// later fields give the same result.
pub proof fn lemma_short_circuit<V, E>(
    d: Declaration,
    sv: Seq<bool>,
    fv: Seq<Seq<bool>>,
    default_value: spec_fn(int) -> V,
    expr_value: spec_fn(int) -> V,
    convert: spec_fn(int) -> Result<V, E>,
    k: int,
    other_default: spec_fn(int) -> V,
    other_expr: spec_fn(int) -> V,
    other_convert: spec_fn(int) -> Result<V, E>,
)
    requires
        generate_of(d, sv, fv) is Ok,
        0 <= k < routine_plans(d, fv).len(),
        routine_plans(d, fv)[k] is RecursiveConvert,
        convert(k) is Err,
        forall|j: int| 0 <= j < k ==> !fails(#[trigger] routine_plans(d, fv)[j], convert(j)),
        forall|j: int| 0 <= j <= k ==> #[trigger] other_convert(j) == convert(j),
    ensures
        run_fields(routine_plans(d, fv), default_value, expr_value, convert) == Err::<Seq<V>, E>(
            convert(k)->Err_0,
        ),
        run_fields(routine_plans(d, fv), other_default, other_expr, other_convert) == Err::<Seq<V>, E>(
            convert(k)->Err_0,
        ),
{
    let plans = routine_plans(d, fv);
    lemma_first_failure_is(plans, convert, k);
    lemma_first_failure_is(plans, other_convert, k);
    assert forall|j: int| 0 <= j < k implies !fails(#[trigger] plans[j], other_convert(j)) by {
        assert(other_convert(j) == convert(j));
    }
    lemma_run_outcome(plans, default_value, expr_value, convert);
    lemma_run_outcome(plans, other_default, other_expr, other_convert);
}

} // verus!
