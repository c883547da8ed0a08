use vstd::prelude::*;

use crate::column::{empty_model, ListColumn, ListModel};
use crate::dispatch::{eval_list_spec, eval_post, strategy_spec, Strategy};
use crate::expr::{contains_cast_spec, contains_named_column_spec, Expr};
use crate::{ListEvalError, IDX_MAX};

verus! {

/// Whatever the parallel flag, two results of `eval` on the same column and expression
/// are the same column (offsets, validity, values and name) or the same error.
pub proof fn law_parallel_agrees(c: ListColumn, e: Expr, r1: Result<ListColumn, ListEvalError>, r2: Result<ListColumn, ListEvalError>)
    requires
        eval_post(c, e, r1),
        eval_post(c, e, r2),
    ensures
        r1 is Ok <==> r2 is Ok,
        r1 is Ok ==> r1->Ok_0@ == r2->Ok_0@ && r1->Ok_0.name@ == r2->Ok_0.name@,
        r1 is Err ==> r1->Err_0 == r2->Err_0,
{
}

/// Every successful evaluation has as many rows as its input.
pub proof fn law_row_count(m: ListModel, e: Expr)
    requires
        m.wf(),
        eval_list_spec(m, e) is Ok,
    ensures
        eval_list_spec(m, e)->Ok_0.n_rows() == m.n_rows(),
{
}

/// A column with no rows gives the empty column, whatever the expression would do on elements.
pub proof fn law_empty_column(m: ListModel, e: Expr)
    requires
        m.wf(),
        m.n_rows() == 0,
        !contains_cast_spec(e),
        !contains_named_column_spec(e),
    ensures
        eval_list_spec(m, e) == Ok::<ListModel, ListEvalError>(empty_model()),
{
}

/// A column whose rows are all null comes back unchanged, without evaluating anything.
pub proof fn law_all_null(m: ListModel, e: Expr)
    requires
        m.wf(),
        m.n_rows() > 0,
        m.all_null(),
        !contains_cast_spec(e),
        !contains_named_column_spec(e),
    ensures
        eval_list_spec(m, e) == Ok::<ListModel, ListEvalError>(m),
{
}

/// Columns with more elements than a row index can count never go to the group engine.
pub proof fn law_no_groups_past_index_width(m: ListModel, e: Expr)
    requires
        m.values.len() > IDX_MAX,
    ensures
        strategy_spec(m, e) != Strategy::GroupAggregation,
{
}

/// Evaluating the current element gives back the rows of the input; a column whose
/// offsets start at zero and end at its last value comes back unchanged.
pub proof fn law_identity_round_trip(m: ListModel, e: Expr)
    requires
        m.wf(),
        e is Column,
        e->Column_0@.len() == 0,
    ensures
        eval_list_spec(m, e) is Ok,
        eval_list_spec(m, e)->Ok_0.rows() == m.rows(),
        m.n_rows() > 0 && m.offsets[0] == 0 && m.offsets.last() == m.values.len()
            ==> eval_list_spec(m, e) == Ok::<ListModel, ListEvalError>(m),
{
    let r = eval_list_spec(m, e)->Ok_0;
    if m.n_rows() > 0 && !m.all_null() {
        let nm = m.normalized();
        assert(r == nm);
        let o0 = m.offsets[0] as int;
        assert forall|i: int| 0 <= i < m.n_rows() implies nm.row(i) == m.row(i) by {
            assert(m.offsets[0] <= m.offsets[i] && m.offsets[i] <= m.offsets[i + 1] && m.offsets[i + 1] <= m.offsets.last());
            assert(nm.raw_row(i) =~= m.raw_row(i));
        }
        assert(r.rows() =~= m.rows());
        if m.offsets[0] == 0 && m.offsets.last() == m.values.len() {
            assert(nm.offsets =~= m.offsets);
            assert(nm.values =~= m.values);
        }
    } else if m.n_rows() == 0 {
        assert(r.rows() =~= m.rows());
    }
}

} // verus!
