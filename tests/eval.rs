use list_eval::column::ListColumn;
use list_eval::dispatch::{select_strategy, Strategy};
use list_eval::expr::{eval_expr, Expr, PushdownGroup};
use list_eval::strategy::{offsets_to_groups, run_elementwise_on_values, run_on_group_by_engine, run_per_sublist, GroupSlice};
use list_eval::{ListEvalError, IDX_MAX};

fn element() -> Expr {
    Expr::Column(String::new())
}

fn ints(v: &[i64]) -> Option<Vec<Option<i64>>> {
    Some(v.iter().map(|x| Some(*x)).collect())
}

fn sample() -> ListColumn {
    ListColumn::from_rows("a".to_string(), &vec![ints(&[1, 2, 3]), ints(&[4, 5]), None, ints(&[])])
}

#[test]
fn multiply_each_element() {
    let e = Expr::MulScalar(Box::new(element()), 2);
    let out = sample().eval(&e, false).unwrap();
    assert_eq!(out.rows(), vec![ints(&[2, 4, 6]), ints(&[8, 10]), None, ints(&[])]);
    assert_eq!(out.name, "a");
}

#[test]
fn sum_of_elements_per_row() {
    let e = Expr::Sum(Box::new(element()));
    let out = sample().eval(&e, false).unwrap();
    assert_eq!(out.rows(), vec![ints(&[6]), ints(&[9]), None, ints(&[0])]);
}

#[test]
fn sum_of_elements_per_row_in_parallel() {
    let e = Expr::Sum(Box::new(element()));
    let c = sample();
    assert_eq!(c.strategy_for(&e), Strategy::PerSublist);
    let out = c.eval(&e, true).unwrap();
    assert_eq!(out.rows(), vec![ints(&[6]), ints(&[9]), None, ints(&[0])]);
}

#[test]
fn fallible_with_null_elements_avoids_elementwise() {
    let c = ListColumn::from_rows("a".to_string(), &vec![Some(vec![Some(1), None, Some(3)])]);
    let e = Expr::AddScalar(Box::new(element()), 1);
    assert_eq!(e.classify(), PushdownGroup::Fallible);
    assert_ne!(c.strategy_for(&e), Strategy::Elementwise);
    assert_eq!(c.strategy_for(&e), Strategy::GroupAggregation);
    let out = c.eval(&e, false).unwrap();
    assert_eq!(out.rows(), vec![Some(vec![Some(2), None, Some(4)])]);
}

#[test]
fn fallible_with_null_rows_runs_per_sublist() {
    let c = ListColumn::from_rows("a".to_string(), &vec![Some(vec![Some(1), None, Some(3)]), None]);
    let e = Expr::AddScalar(Box::new(element()), 1);
    assert_eq!(c.strategy_for(&e), Strategy::PerSublist);
    for parallel in [false, true] {
        let out = c.eval(&e, parallel).unwrap();
        assert_eq!(out.rows(), vec![Some(vec![Some(2), None, Some(4)]), None]);
    }
}

#[test]
fn fallible_without_nulls_runs_elementwise() {
    let e = Expr::AddScalar(Box::new(element()), 1);
    let c = ListColumn::from_rows("a".to_string(), &vec![ints(&[1, 2]), ints(&[3])]);
    assert_eq!(c.strategy_for(&e), Strategy::Elementwise);
    assert_eq!(c.eval(&e, false).unwrap().rows(), vec![ints(&[2, 3]), ints(&[4])]);
}

#[test]
fn parallel_and_sequential_agree() {
    let exprs = vec![
        element(),
        Expr::MulScalar(Box::new(element()), 2),
        Expr::Sum(Box::new(element())),
        Expr::MapList(Box::new(element())),
    ];
    for e in exprs.iter() {
        let a = sample().eval(e, false).unwrap();
        let b = sample().eval(e, true).unwrap();
        assert_eq!(a.offsets, b.offsets);
        assert_eq!(a.validity, b.validity);
        assert_eq!(a.values, b.values);
        assert_eq!(a.name, b.name);
    }
}

#[test]
fn row_count_kept_by_every_strategy() {
    let c = sample();
    let e = Expr::Len(Box::new(element()));
    assert_eq!(c.eval(&element(), false).unwrap().len(), 4);
    assert_eq!(c.eval(&e, false).unwrap().len(), 4);
    assert_eq!(run_per_sublist(&c, &e, true).unwrap().len(), 4);
    let no_nulls = ListColumn::from_rows("b".to_string(), &vec![ints(&[1]), ints(&[]), ints(&[2, 3])]);
    assert_eq!(no_nulls.strategy_for(&e), Strategy::GroupAggregation);
    let out = no_nulls.eval(&e, false).unwrap();
    assert_eq!(out.rows(), vec![ints(&[1]), ints(&[0]), ints(&[2])]);
}

#[test]
fn empty_column_gives_empty_column() {
    let c = ListColumn::from_rows("e".to_string(), &vec![]);
    let e = Expr::AddScalar(Box::new(element()), i64::MAX);
    let out = c.eval(&e, false).unwrap();
    assert_eq!(out.len(), 0);
    assert_eq!(out.offsets, vec![0]);
    assert!(out.values.is_empty());
    assert_eq!(out.name, "e");
}

#[test]
fn all_null_column_comes_back_unchanged() {
    // The hidden values would overflow if the expression ran on them.
    let c = ListColumn::new("n".to_string(), vec![0, 1, 2], vec![false, false], vec![Some(i64::MAX), Some(5)]).unwrap();
    let e = Expr::AddScalar(Box::new(element()), 1);
    let out = c.eval(&e, true).unwrap();
    assert_eq!(out.offsets, vec![0, 1, 2]);
    assert_eq!(out.validity, vec![false, false]);
    assert_eq!(out.values, vec![Some(i64::MAX), Some(5)]);
}

#[test]
fn index_width_limit_routes_away_from_groups() {
    let n = IDX_MAX as usize;
    assert_eq!(select_strategy(PushdownGroup::Barrier, true, n, false, false, false), Strategy::GroupAggregation);
    assert_eq!(select_strategy(PushdownGroup::Barrier, true, n + 1, false, false, false), Strategy::PerSublist);
}

#[test]
fn strategy_selection_table() {
    assert_eq!(select_strategy(PushdownGroup::Pushable, false, 10, true, true, false), Strategy::Elementwise);
    assert_eq!(select_strategy(PushdownGroup::Fallible, false, 10, false, true, false), Strategy::GroupAggregation);
    assert_eq!(select_strategy(PushdownGroup::Fallible, false, 10, false, false, false), Strategy::Elementwise);
    assert_eq!(select_strategy(PushdownGroup::Pushable, true, 10, false, false, false), Strategy::GroupAggregation);
    assert_eq!(select_strategy(PushdownGroup::Barrier, false, 10, false, false, true), Strategy::PerSublist);
    assert_eq!(select_strategy(PushdownGroup::Barrier, false, 10, true, false, false), Strategy::PerSublist);
}

#[test]
fn identity_round_trip() {
    let c = sample();
    let out = c.eval(&element(), false).unwrap();
    assert_eq!(out.offsets, c.offsets);
    assert_eq!(out.validity, c.validity);
    assert_eq!(out.values, c.values);
    assert_eq!(out.rows(), c.rows());
}

#[test]
fn identity_normalizes_offsets() {
    let c = ListColumn::new("s".to_string(), vec![1, 3, 4], vec![true, true], vec![Some(9), Some(1), Some(2), Some(3), Some(8)]).unwrap();
    let out = c.eval(&element(), false).unwrap();
    assert_eq!(out.offsets, vec![0, 2, 3]);
    assert_eq!(out.values, vec![Some(1), Some(2), Some(3)]);
    assert_eq!(out.rows(), c.rows());
}

#[test]
fn categorical_cast_is_refused() {
    let e = Expr::Sum(Box::new(Expr::CastCategorical(Box::new(element()))));
    assert_eq!(sample().eval(&e, false).unwrap_err(), ListEvalError::CategoricalCast);
}

#[test]
fn named_column_is_refused() {
    let e = Expr::AddScalar(Box::new(Expr::Column("x".to_string())), 1);
    assert_eq!(sample().eval(&e, false).unwrap_err(), ListEvalError::NamedColumn);
    let empty = ListColumn::from_rows("e".to_string(), &vec![]);
    assert_eq!(empty.eval(&e, false).unwrap_err(), ListEvalError::NamedColumn);
}

#[test]
fn overflow_fails_the_whole_call() {
    let c = ListColumn::from_rows("a".to_string(), &vec![ints(&[1]), ints(&[i64::MAX]), None]);
    let e = Expr::AddScalar(Box::new(element()), 1);
    assert_eq!(c.eval(&e, false).unwrap_err(), ListEvalError::Overflow);
    assert_eq!(c.eval(&e, true).unwrap_err(), ListEvalError::Overflow);
    let s = Expr::Sum(Box::new(element()));
    let big = ListColumn::from_rows("a".to_string(), &vec![ints(&[i64::MAX, 1])]);
    assert_eq!(big.eval(&s, false).unwrap_err(), ListEvalError::Overflow);
}

#[test]
fn invalid_layout_is_refused() {
    let bad = ListColumn::new("x".to_string(), vec![0, 2, 1], vec![true, true], vec![Some(1), Some(2)]);
    assert_eq!(bad.unwrap_err(), ListEvalError::InvalidLayout);
    let short = ListColumn::new("x".to_string(), vec![0, 3], vec![true], vec![Some(1)]);
    assert_eq!(short.unwrap_err(), ListEvalError::InvalidLayout);
    let count = ListColumn::new("x".to_string(), vec![0, 1], vec![true, false], vec![Some(1)]);
    assert_eq!(count.unwrap_err(), ListEvalError::InvalidLayout);
}

#[test]
fn groups_from_offsets() {
    let g = offsets_to_groups(&vec![2, 5, 5, 9]).unwrap();
    assert_eq!(
        g,
        vec![GroupSlice { offset: 2, len: 3 }, GroupSlice { offset: 5, len: 0 }, GroupSlice { offset: 5, len: 4 }]
    );
    assert!(offsets_to_groups(&vec![0, 4294967296]).is_none());
    assert_eq!(offsets_to_groups(&vec![1, 4294967296]).unwrap(), vec![GroupSlice { offset: 1, len: 4294967295 }]);
    assert!(offsets_to_groups(&vec![7]).unwrap().is_empty());
}

#[test]
fn expressions_on_one_row() {
    let s = vec![Some(3), None, Some(-1)];
    assert_eq!(eval_expr(&Expr::Len(Box::new(element())), &s).unwrap(), vec![Some(3)]);
    assert_eq!(eval_expr(&Expr::MapList(Box::new(element())), &s).unwrap(), vec![Some(-1), None, Some(3)]);
    assert_eq!(eval_expr(&Expr::FillNull(Box::new(element()), 7), &s).unwrap(), vec![Some(3), Some(7), Some(-1)]);
    assert_eq!(eval_expr(&Expr::Sum(Box::new(element())), &s).unwrap(), vec![Some(2)]);
    assert_eq!(eval_expr(&Expr::MulScalar(Box::new(element()), -4), &s).unwrap(), vec![Some(-12), None, Some(4)]);
}

#[test]
fn strategies_agree_on_rows() {
    let c = ListColumn::from_rows("a".to_string(), &vec![ints(&[1, 2]), ints(&[]), ints(&[3])]);
    let e = Expr::MulScalar(Box::new(element()), 3);
    let a = run_elementwise_on_values(&c, &e).unwrap();
    let b = run_on_group_by_engine("a".to_string(), &c, &e).unwrap();
    let p = run_per_sublist(&c, &e, true).unwrap();
    let q = run_per_sublist(&c, &e, false).unwrap();
    let want = vec![ints(&[3, 6]), ints(&[]), ints(&[9])];
    assert_eq!(a.rows(), want);
    assert_eq!(b.rows(), want);
    assert_eq!(p.rows(), want);
    assert_eq!(q.rows(), want);
}

#[test]
fn user_map_skips_group_engine() {
    let c = ListColumn::from_rows("a".to_string(), &vec![ints(&[1, 2, 3]), ints(&[4])]);
    let e = Expr::MapList(Box::new(element()));
    assert_eq!(c.strategy_for(&e), Strategy::PerSublist);
    assert_eq!(c.eval(&e, true).unwrap().rows(), vec![ints(&[3, 2, 1]), ints(&[4])]);
}
