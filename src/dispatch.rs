use vstd::prelude::*;

use crate::column::{empty_model, ListColumn, ListModel, Row};
use crate::expr::{
    classify_spec, contains_cast_spec, contains_named_column_spec, contains_user_map_spec,
    eval_spec, returns_scalar_spec, Expr, PushdownGroup,
};
use crate::strategy::{
    elementwise_spec, per_row_output, per_row_spec, row_result, rows_ok, run_elementwise_on_values,
    run_on_group_by_engine, run_per_sublist,
};
use crate::{ListEvalError, IDX_MAX};

verus! {

/// How an expression is run over a list column.
#[derive(Debug, Clone, Copy, PartialEq, Eq, Structural)]
pub enum Strategy {
    /// Once over all elements, keeping the row boundaries.
    Elementwise,
    /// Once per row through the group engine.
    GroupAggregation,
    /// Once per row, each row as its own input.
    PerSublist,
}

pub open spec fn select_spec(
    group: PushdownGroup,
    returns_scalar: bool,
    n_values: nat,
    has_null_rows: bool,
    has_null_elements: bool,
    user_map: bool,
) -> Strategy {
    if (group == PushdownGroup::Pushable || (group == PushdownGroup::Fallible && !has_null_elements))
        && !returns_scalar {
        Strategy::Elementwise
    } else if n_values <= IDX_MAX && !has_null_rows && !user_map {
        Strategy::GroupAggregation
    } else {
        Strategy::PerSublist
    }
}

/// Picks the strategy from what is known of the expression and the column.
pub fn select_strategy(
    group: PushdownGroup,
    returns_scalar: bool,
    n_values: usize,
    has_null_rows: bool,
    has_null_elements: bool,
    user_map: bool,
) -> (r: Strategy)
    ensures
        r == select_spec(group, returns_scalar, n_values as nat, has_null_rows, has_null_elements, user_map),
{
    let pushable = match group {
        PushdownGroup::Pushable => true,
        PushdownGroup::Fallible => !has_null_elements,
        PushdownGroup::Barrier => false,
    };
    if pushable && !returns_scalar {
        Strategy::Elementwise
    } else if (n_values as u128) <= (IDX_MAX as u128) && !has_null_rows && !user_map {
        Strategy::GroupAggregation
    } else {
        Strategy::PerSublist
    }
}

/// The strategy chosen for `e` over `m`.
pub open spec fn strategy_spec(m: ListModel, e: Expr) -> Strategy {
    select_spec(
        classify_spec(e),
        returns_scalar_spec(e),
        m.values.len(),
        m.has_null_rows(),
        m.has_null_elements(),
        contains_user_map_spec(e),
    )
}

/// What evaluating `e` over the rows of `m` gives.
pub open spec fn eval_list_spec(m: ListModel, e: Expr) -> Result<ListModel, ListEvalError> {
    if contains_cast_spec(e) {
        Err(ListEvalError::CategoricalCast)
    } else if contains_named_column_spec(e) {
        Err(ListEvalError::NamedColumn)
    } else if m.n_rows() == 0 {
        Ok(empty_model())
    } else if m.all_null() {
        Ok(m)
    } else if strategy_spec(m, e) == Strategy::Elementwise {
        elementwise_spec(m, e)
    } else {
        per_row_spec(m, e)
    }
}

/// What `eval` promises of its result `r` for column `c` and expression `e`.
pub open spec fn eval_post(c: ListColumn, e: Expr, r: Result<ListColumn, ListEvalError>) -> bool {
    match (r, eval_list_spec(c@, e)) {
        (Ok(out), Ok(m)) => out@ == m && out.name@ == c.name@,
        (Err(x), Err(y)) => x == y,
        _ => false,
    }
}

/// Without casts and named columns the only failure left is an overflow.
pub proof fn lemma_only_overflow(e: Expr, s: Row)
    requires
        !contains_cast_spec(e),
        !contains_named_column_spec(e),
        eval_spec(e, s) is Err,
    ensures
        eval_spec(e, s) == Err::<Row, ListEvalError>(ListEvalError::Overflow),
    decreases e,
{
    match e {
        Expr::FillNull(a, _) => lemma_only_overflow(*a, s),
        Expr::AddScalar(a, _) => if eval_spec(*a, s) is Err { lemma_only_overflow(*a, s) },
        Expr::MulScalar(a, _) => if eval_spec(*a, s) is Err { lemma_only_overflow(*a, s) },
        Expr::Sum(a) => if eval_spec(*a, s) is Err { lemma_only_overflow(*a, s) },
        Expr::Len(a) => if eval_spec(*a, s) is Err { lemma_only_overflow(*a, s) },
        Expr::MapList(a) => lemma_only_overflow(*a, s),
        _ => {},
    }
}

impl ListColumn {
    /// The strategy that `eval` uses for `e` on this column.
    pub fn strategy_for(&self, e: &Expr) -> (r: Strategy)
        requires
            self@.wf(),
        ensures
            r == strategy_spec(self@, *e),
    {
        select_strategy(
            e.classify(),
            e.returns_scalar(),
            self.values.len(),
            self.has_null_rows(),
            self.has_null_elements(),
            e.contains_user_map(),
        )
    }

    /// Runs `expr` on the elements of each row, with the fastest strategy that is safe.
    pub fn eval(&self, expr: &Expr, parallel: bool) -> (r: Result<ListColumn, ListEvalError>)
        requires
            self@.wf(),
        ensures
            eval_post(*self, *expr, r),
            r is Ok ==> r->Ok_0@.wf(),
            r is Ok ==> rows_ok(self@, *expr) && r->Ok_0@.rows() == per_row_output(self@, *expr),
    {
        if expr.contains_cast() {
            return Err(ListEvalError::CategoricalCast);
        }
        if expr.contains_named_column() {
            return Err(ListEvalError::NamedColumn);
        }
        if self.len() == 0 {
            let out = ListColumn {
                name: self.name.clone(),
                offsets: vec![0usize],
                validity: Vec::new(),
                values: Vec::new(),
            };
            assert(out@.offsets =~= seq![0usize]);
            assert(out@.validity =~= Seq::<bool>::empty());
            assert(out@.values =~= Seq::<Option<i64>>::empty());
            assert(out@.rows() =~= per_row_output(self@, *expr));
            return Ok(out);
        }
        if self.is_all_null() {
            assert(self@.rows() =~= per_row_output(self@, *expr));
            return Ok(self.copy());
        }
        match self.strategy_for(expr) {
            Strategy::Elementwise => {
                let r = run_elementwise_on_values(self, expr);
                proof {
                    if r is Err {
                        lemma_only_overflow(*expr, self@.normalized().values);
                    }
                }
                r
            },
            Strategy::GroupAggregation => {
                let r = run_on_group_by_engine(self.name.clone(), self, expr);
                proof {
                    if r is Err {
                        let i = choose|i: int| 0 <= i < self@.n_rows()
                            && row_result(*expr, self@.row(i)) == Err::<Option<Row>, ListEvalError>(r->Err_0);
                        lemma_only_overflow(*expr, self@.row(i)->Some_0);
                    }
                }
                r
            },
            Strategy::PerSublist => {
                let r = run_per_sublist(self, expr, parallel);
                proof {
                    if r is Err {
                        let i = choose|i: int| 0 <= i < self@.n_rows()
                            && row_result(*expr, self@.row(i)) == Err::<Option<Row>, ListEvalError>(r->Err_0);
                        lemma_only_overflow(*expr, self@.row(i)->Some_0);
                    }
                }
                r
            },
        }
    }
}

} // verus!
