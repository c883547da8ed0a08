use vstd::prelude::*;

use rayon::iter::IntoParallelRefIterator;
use rayon::iter::ParallelIterator;

use crate::column::{copy_vec_range, from_rows_model, row_view, ListColumn, ListModel, Row};
use crate::expr::{add_fits, classify_spec, contains_named_column_spec, eval_expr, eval_spec, mul_fits, Expr, PushdownGroup};
use crate::{ListEvalError, IDX_MAX};

verus! {

/// The element range of one row: its start in the values and its length.
#[derive(Debug, Clone, Copy, PartialEq, Eq, Structural)]
pub struct GroupSlice {
    pub offset: usize,
    pub len: u32,
}

/// Turns row boundaries into one group per row, or `None` when the elements they span
/// are more than a row index can count.
pub fn offsets_to_groups(offsets: &Vec<usize>) -> (r: Option<Vec<GroupSlice>>)
    requires
        offsets@.len() >= 1,
        forall|i: int, j: int| 0 <= i <= j < offsets@.len() ==> offsets@[i] <= offsets@[j],
    ensures
        r is None <==> offsets@.last() - offsets@[0] > IDX_MAX,
        r is Some ==> r->Some_0@.len() == offsets@.len() - 1,
        r is Some ==> forall|i: int| 0 <= i < offsets@.len() - 1 ==>
            (#[trigger] r->Some_0@[i]).offset == offsets@[i]
            && r->Some_0@[i].len == offsets@[i + 1] - offsets@[i],
{
    let n = offsets.len();
    let mut start = offsets[0];
    let end = offsets[n - 1];
    if end - start > 4294967295usize {
        return None;
    }
    let mut groups: Vec<GroupSlice> = Vec::new();
    let mut i: usize = 1;
    while i < n
        invariant
            1 <= i <= n,
            n == offsets@.len(),
            start == offsets@[i - 1],
            end == offsets@[n - 1],
            end - offsets@[0] <= IDX_MAX,
            forall|a: int, b: int| 0 <= a <= b < offsets@.len() ==> offsets@[a] <= offsets@[b],
            groups@.len() == i - 1,
            forall|k: int| 0 <= k < i - 1 ==>
                (#[trigger] groups@[k]).offset == offsets@[k] && groups@[k].len == offsets@[k + 1] - offsets@[k],
        decreases n - i,
    {
        let e = offsets[i];
        assert(offsets@[0] <= start && e <= end);
        groups.push(GroupSlice { offset: start, len: (e - start) as u32 });
        start = e;
        i += 1;
    }
    Some(groups)
}

/// What one row gives: null stays null, otherwise the expression on its elements.
pub open spec fn row_result(e: Expr, r: Option<Row>) -> Result<Option<Row>, ListEvalError> {
    match r {
        None => Ok(None),
        Some(s) => match eval_spec(e, s) {
            Ok(t) => Ok(Some(t)),
            Err(x) => Err(x),
        },
    }
}

pub open spec fn result_view(r: Result<Option<Vec<Option<i64>>>, ListEvalError>) -> Result<Option<Row>, ListEvalError> {
    match r {
        Ok(v) => Ok(row_view(v)),
        Err(x) => Err(x),
    }
}

/// Every row of `m` evaluates without error.
pub open spec fn rows_ok(m: ListModel, e: Expr) -> bool {
    forall|i: int| 0 <= i < m.n_rows() ==> (#[trigger] row_result(e, m.row(i))) is Ok
}

/// The rows that evaluating `e` row by row gives.
pub open spec fn per_row_output(m: ListModel, e: Expr) -> Seq<Option<Row>> {
    Seq::new(m.n_rows(), |i: int| row_result(e, m.row(i))->Ok_0)
}

/// The result of evaluating `e` row by row over `m`, laid out from scratch.
pub open spec fn per_row_spec(m: ListModel, e: Expr) -> Result<ListModel, ListEvalError> {
    if rows_ok(m, e) {
        Ok(from_rows_model(per_row_output(m, e)))
    } else {
        Err(ListEvalError::Overflow)
    }
}

/// Row `i` of `c` as its own vector, or `None` for a null row.
fn row_vec(c: &ListColumn, i: usize) -> (r: Option<Vec<Option<i64>>>)
    requires
        c@.wf(),
        i < c@.n_rows(),
    ensures
        row_view(r) == c@.row(i as int),
{
    let _n: usize = c.offsets.len();
    if c.validity[i] {
        Some(copy_vec_range(&c.values, c.offsets[i], c.offsets[i + 1]))
    } else {
        None
    }
}

/// Evaluates `e` on one row; a null row gives a null row.
fn eval_row(e: &Expr, row: &Option<Vec<Option<i64>>>) -> (r: Result<Option<Vec<Option<i64>>>, ListEvalError>)
    ensures
        result_view(r) == row_result(*e, row_view(*row)),
{
    match row {
        None => Ok(None),
        Some(s) => match eval_expr(e, s) {
            Ok(t) => Ok(Some(t)),
            Err(x) => Err(x),
        },
    }
}

/// Relies on rayon's `par_iter().map(..).collect()` into a `Vec`, which keeps the order of
/// its input; each item is `eval_row` of the row at the same position.
#[verifier::external_body]
fn par_eval_rows(e: &Expr, rows: &Vec<Option<Vec<Option<i64>>>>) -> (r: Vec<Result<Option<Vec<Option<i64>>>, ListEvalError>>)
    ensures
        r@.len() == rows@.len(),
        forall|i: int| 0 <= i < r@.len() ==> result_view(#[trigger] r@[i]) == row_result(*e, row_view(rows@[i])),
{
    rows.par_iter().map(|row| eval_row(e, row)).collect()
}

/// Gathers per-row results in order; the first failed row, by position, gives the error.
fn collect_results(
    m: Ghost<ListModel>,
    e: &Expr,
    results: Vec<Result<Option<Vec<Option<i64>>>, ListEvalError>>,
) -> (r: Result<Vec<Option<Vec<Option<i64>>>>, ListEvalError>)
    requires
        results@.len() == m@.n_rows(),
        forall|i: int| 0 <= i < results@.len() ==> result_view(#[trigger] results@[i]) == row_result(*e, m@.row(i)),
    ensures
        r is Ok <==> rows_ok(m@, *e),
        r is Ok ==> r->Ok_0@.map_values(|x: Option<Vec<Option<i64>>>| row_view(x)) == per_row_output(m@, *e),
        r is Err ==> exists|i: int| 0 <= i < m@.n_rows() && row_result(*e, m@.row(i)) == Err::<Option<Row>, ListEvalError>(r->Err_0),
{
    let n = results.len();
    let mut out: Vec<Option<Vec<Option<i64>>>> = Vec::new();
    let mut results = results;
    let ghost all = results@;
    let mut i: usize = 0;
    while i < n
        invariant
            i <= n,
            n == all.len(),
            n == m@.n_rows(),
            results@ == all,
            forall|k: int| 0 <= k < all.len() ==> result_view(#[trigger] all[k]) == row_result(*e, m@.row(k)),
            forall|k: int| 0 <= k < i ==> (#[trigger] row_result(*e, m@.row(k))) is Ok,
            out@.map_values(|x: Option<Vec<Option<i64>>>| row_view(x)) == per_row_output(m@, *e).take(i as int),
        decreases n - i,
    {
        let item = match &results[i] {
            Ok(v) => match v {
                Some(t) => Some(copy_vec_range(t, 0, t.len())),
                None => None,
            },
            Err(x) => {
                assert(all[i as int] is Err);
                assert(result_view(all[i as int]) == row_result(*e, m@.row(i as int)));
                assert(!rows_ok(m@, *e));
                return Err(*x);
            },
        };
        proof {
            assert(result_view(all[i as int]) == row_result(*e, m@.row(i as int)));
            assert(all[i as int] is Ok);
            if all[i as int]->Ok_0 is Some {
                let t = all[i as int]->Ok_0->Some_0@;
                assert(t.subrange(0, t.len() as int) =~= t);
            }
            assert(row_view(item) == per_row_output(m@, *e)[i as int]);
        }
        let ghost before = out@;
        out.push(item);
        assert(out@.map_values(|x: Option<Vec<Option<i64>>>| row_view(x)) =~= before.map_values(|x: Option<Vec<Option<i64>>>| row_view(x)).push(row_view(item)));
        i += 1;
        assert(out@.map_values(|x: Option<Vec<Option<i64>>>| row_view(x)) =~= per_row_output(m@, *e).take(i as int));
    }
    assert(per_row_output(m@, *e).take(i as int) =~= per_row_output(m@, *e));
    Ok(out)
}

/// Evaluates `e` on each row of `c` separately, in parallel across the thread pool
/// when `parallel` is set; row order is kept either way.
pub fn run_per_sublist(c: &ListColumn, e: &Expr, parallel: bool) -> (r: Result<ListColumn, ListEvalError>)
    requires
        c@.wf(),
    ensures
        r is Ok <==> rows_ok(c@, *e),
        r is Ok ==> r->Ok_0@ == from_rows_model(per_row_output(c@, *e)) && r->Ok_0.name@ == c.name@,
        r is Ok ==> r->Ok_0@.rows() == per_row_output(c@, *e),
        r is Ok ==> r->Ok_0@.wf(),
        r is Err ==> exists|i: int| 0 <= i < c@.n_rows() && row_result(*e, c@.row(i)) == Err::<Option<Row>, ListEvalError>(r->Err_0),
{
    let n = c.validity.len();
    let out = if parallel {
        let mut rows: Vec<Option<Vec<Option<i64>>>> = Vec::new();
        let mut i: usize = 0;
        while i < n
            invariant
                i <= n,
                n == c@.n_rows(),
                c@.wf(),
                rows@.len() == i,
                forall|k: int| 0 <= k < i ==> row_view(#[trigger] rows@[k]) == c@.row(k),
            decreases n - i,
        {
            rows.push(row_vec(c, i));
            i += 1;
        }
        let results = par_eval_rows(e, &rows);
        match collect_results(Ghost(c@), e, results) {
            Ok(out) => out,
            Err(x) => return Err(x),
        }
    } else {
        let mut out: Vec<Option<Vec<Option<i64>>>> = Vec::new();
        let mut i: usize = 0;
        while i < n
            invariant
                i <= n,
                n == c@.n_rows(),
                c@.wf(),
                forall|k: int| 0 <= k < i ==> (#[trigger] row_result(*e, c@.row(k))) is Ok,
                out@.map_values(|x: Option<Vec<Option<i64>>>| row_view(x)) == per_row_output(c@, *e).take(i as int),
            decreases n - i,
        {
            let row = row_vec(c, i);
            let item = match eval_row(e, &row) {
                Ok(v) => v,
                Err(x) => {
                    assert(!rows_ok(c@, *e));
                    return Err(x);
                },
            };
            let ghost before = out@;
            out.push(item);
            assert(out@.map_values(|x: Option<Vec<Option<i64>>>| row_view(x))
                =~= before.map_values(|x: Option<Vec<Option<i64>>>| row_view(x)).push(row_view(item)));
            i += 1;
            assert(out@.map_values(|x: Option<Vec<Option<i64>>>| row_view(x)) =~= per_row_output(c@, *e).take(i as int));
        }
        assert(per_row_output(c@, *e).take(i as int) =~= per_row_output(c@, *e));
        out
    };
    Ok(ListColumn::from_rows(c.name.clone(), &out))
}

/// Evaluates `e` once per group, each group being the elements of one row.
pub fn run_on_group_by_engine(name: String, c: &ListColumn, e: &Expr) -> (r: Result<ListColumn, ListEvalError>)
    requires
        c@.wf(),
        !c@.has_null_rows(),
        c@.values.len() <= IDX_MAX,
    ensures
        r is Ok <==> rows_ok(c@, *e),
        r is Ok ==> r->Ok_0@ == from_rows_model(per_row_output(c@, *e)) && r->Ok_0.name == name,
        r is Ok ==> r->Ok_0@.rows() == per_row_output(c@, *e),
        r is Ok ==> r->Ok_0@.wf(),
        r is Err ==> exists|i: int| 0 <= i < c@.n_rows() && row_result(*e, c@.row(i)) == Err::<Option<Row>, ListEvalError>(r->Err_0),
{
    let groups = match offsets_to_groups(&c.offsets) {
        Some(g) => g,
        None => {
            assert(false);
            return Err(ListEvalError::Overflow);
        },
    };
    let n = groups.len();
    let mut out: Vec<Option<Vec<Option<i64>>>> = Vec::new();
    let mut i: usize = 0;
    while i < n
        invariant
            i <= n,
            n == c@.n_rows(),
            groups@.len() == n,
            c@.wf(),
            !c@.has_null_rows(),
            forall|k: int| 0 <= k < n ==>
                (#[trigger] groups@[k]).offset == c@.offsets[k] && groups@[k].len == c@.offsets[k + 1] - c@.offsets[k],
            forall|k: int| 0 <= k < i ==> (#[trigger] row_result(*e, c@.row(k))) is Ok,
            out@.map_values(|x: Option<Vec<Option<i64>>>| row_view(x)) == per_row_output(c@, *e).take(i as int),
        decreases n - i,
    {
        let g = groups[i];
        assert(c@.offsets[i as int] <= c@.offsets[i + 1] && c@.offsets[i + 1] <= c@.offsets.last());
        let s = copy_vec_range(&c.values, g.offset, g.offset + g.len as usize);
        assert(c@.validity[i as int]);
        assert(s@ == c@.raw_row(i as int));
        assert(c@.row(i as int) == Some(s@));
        let item = match eval_expr(e, &s) {
            Ok(t) => Some(t),
            Err(x) => {
                assert(row_result(*e, c@.row(i as int)) is Err);
                assert(!rows_ok(c@, *e));
                return Err(x);
            },
        };
        let ghost before = out@;
        out.push(item);
        assert(out@.map_values(|x: Option<Vec<Option<i64>>>| row_view(x))
            =~= before.map_values(|x: Option<Vec<Option<i64>>>| row_view(x)).push(row_view(item)));
        i += 1;
        assert(out@.map_values(|x: Option<Vec<Option<i64>>>| row_view(x)) =~= per_row_output(c@, *e).take(i as int));
    }
    assert(per_row_output(c@, *e).take(i as int) =~= per_row_output(c@, *e));
    Ok(ListColumn::from_rows(name, &out))
}

/// An expression that is not a barrier keeps the number of elements.
pub proof fn lemma_elementwise_len(e: Expr, s: Row)
    requires
        classify_spec(e) != PushdownGroup::Barrier,
        eval_spec(e, s) is Ok,
    ensures
        eval_spec(e, s)->Ok_0.len() == s.len(),
    decreases e,
{
    match e {
        Expr::FillNull(a, _) => lemma_elementwise_len(*a, s),
        Expr::AddScalar(a, _) => lemma_elementwise_len(*a, s),
        Expr::MulScalar(a, _) => lemma_elementwise_len(*a, s),
        _ => {},
    }
}

/// What a non-barrier expression gives on one element.
pub open spec fn elem_spec(e: Expr, x: Option<i64>) -> Result<Option<i64>, ListEvalError>
    decreases e,
{
    match e {
        Expr::FillNull(a, k) => match elem_spec(*a, x) {
            Ok(Some(y)) => Ok(Some(y)),
            Ok(None) => Ok(Some(k)),
            Err(z) => Err(z),
        },
        Expr::AddScalar(a, k) => match elem_spec(*a, x) {
            Ok(Some(y)) => match y.checked_add(k) {
                Some(z) => Ok(Some(z)),
                None => Err(ListEvalError::Overflow),
            },
            Ok(None) => Ok(None),
            Err(z) => Err(z),
        },
        Expr::MulScalar(a, k) => match elem_spec(*a, x) {
            Ok(Some(y)) => match y.checked_mul(k) {
                Some(z) => Ok(Some(z)),
                None => Err(ListEvalError::Overflow),
            },
            Ok(None) => Ok(None),
            Err(z) => Err(z),
        },
        _ => Ok(x),
    }
}

/// A non-barrier expression works element by element.
pub proof fn lemma_pointwise(e: Expr, s: Row)
    requires
        classify_spec(e) != PushdownGroup::Barrier,
        !contains_named_column_spec(e),
    ensures
        eval_spec(e, s) is Ok <==> forall|i: int| 0 <= i < s.len() ==> (#[trigger] elem_spec(e, s[i])) is Ok,
        eval_spec(e, s) is Ok ==> eval_spec(e, s)->Ok_0 == Seq::new(s.len(), |i: int| elem_spec(e, s[i])->Ok_0),
    decreases e,
{
    match e {
        Expr::Column(n) => {
            assert(n@.len() == 0);
            assert(eval_spec(e, s) == Ok::<Row, ListEvalError>(s));
            assert forall|i: int| 0 <= i < s.len() implies (#[trigger] elem_spec(e, s[i])) is Ok by {
                assert(elem_spec(e, s[i]) == Ok::<Option<i64>, ListEvalError>(s[i]));
            }
            assert(s =~= Seq::new(s.len(), |i: int| elem_spec(e, s[i])->Ok_0));
        },
        Expr::FillNull(a, k) => {
            lemma_pointwise(*a, s);
            if eval_spec(*a, s) is Ok {
                assert(eval_spec(e, s)->Ok_0 =~= Seq::new(s.len(), |i: int| elem_spec(e, s[i])->Ok_0));
                assert forall|i: int| 0 <= i < s.len() implies (#[trigger] elem_spec(e, s[i])) is Ok by {
                    assert(elem_spec(*a, s[i]) is Ok);
                }
            } else {
                let i = choose|i: int| 0 <= i < s.len() && !(#[trigger] elem_spec(*a, s[i]) is Ok);
                assert(!(elem_spec(e, s[i]) is Ok));
            }
        },
        Expr::AddScalar(a, k) => {
            lemma_pointwise(*a, s);
            if eval_spec(*a, s) is Ok {
                let t = eval_spec(*a, s)->Ok_0;
                if add_fits(t, k) {
                    assert(eval_spec(e, s)->Ok_0 =~= Seq::new(s.len(), |i: int| elem_spec(e, s[i])->Ok_0));
                    assert forall|i: int| 0 <= i < s.len() implies (#[trigger] elem_spec(e, s[i])) is Ok by {
                        assert(t[i] == elem_spec(*a, s[i])->Ok_0);
                    }
                } else {
                    let i = choose|i: int| 0 <= i < t.len() && (#[trigger] t[i]) is Some && !(t[i]->Some_0.checked_add(k) is Some);
                    assert(t[i] == elem_spec(*a, s[i])->Ok_0);
                    assert(!(elem_spec(e, s[i]) is Ok));
                }
            } else {
                let i = choose|i: int| 0 <= i < s.len() && !(#[trigger] elem_spec(*a, s[i]) is Ok);
                assert(!(elem_spec(e, s[i]) is Ok));
            }
        },
        Expr::MulScalar(a, k) => {
            lemma_pointwise(*a, s);
            if eval_spec(*a, s) is Ok {
                let t = eval_spec(*a, s)->Ok_0;
                if mul_fits(t, k) {
                    assert(eval_spec(e, s)->Ok_0 =~= Seq::new(s.len(), |i: int| elem_spec(e, s[i])->Ok_0));
                    assert forall|i: int| 0 <= i < s.len() implies (#[trigger] elem_spec(e, s[i])) is Ok by {
                        assert(t[i] == elem_spec(*a, s[i])->Ok_0);
                    }
                } else {
                    let i = choose|i: int| 0 <= i < t.len() && (#[trigger] t[i]) is Some && !(t[i]->Some_0.checked_mul(k) is Some);
                    assert(t[i] == elem_spec(*a, s[i])->Ok_0);
                    assert(!(elem_spec(e, s[i]) is Ok));
                }
            } else {
                let i = choose|i: int| 0 <= i < s.len() && !(#[trigger] elem_spec(*a, s[i]) is Ok);
                assert(!(elem_spec(e, s[i]) is Ok));
            }
        },
        _ => {},
    }
}

/// The result of running `e` once over the referenced values of `m`, keeping its rows.
pub open spec fn elementwise_spec(m: ListModel, e: Expr) -> Result<ListModel, ListEvalError> {
    match eval_spec(e, m.normalized().values) {
        Ok(v) => Ok(ListModel { offsets: m.normalized().offsets, validity: m.validity, values: v }),
        Err(x) => Err(x),
    }
}

/// Running a non-barrier expression over a stretch of values gives the matching stretch
/// of running it over all of them.
pub proof fn lemma_pointwise_subrange(e: Expr, s: Row, a: int, b: int)
    requires
        classify_spec(e) != PushdownGroup::Barrier,
        !contains_named_column_spec(e),
        eval_spec(e, s) is Ok,
        0 <= a <= b <= s.len(),
    ensures
        eval_spec(e, s.subrange(a, b)) == Ok::<Row, ListEvalError>(eval_spec(e, s)->Ok_0.subrange(a, b)),
{
    lemma_pointwise(e, s);
    let t = s.subrange(a, b);
    lemma_pointwise(e, t);
    assert forall|i: int| 0 <= i < t.len() implies (#[trigger] elem_spec(e, t[i])) is Ok by {
        assert(t[i] == s[i + a]);
        assert(elem_spec(e, s[i + a]) is Ok);
    }
    assert(eval_spec(e, t)->Ok_0 =~= eval_spec(e, s)->Ok_0.subrange(a, b));
}

/// The elementwise result holds, row by row, what evaluating each row alone gives.
pub proof fn lemma_elementwise_rows(m: ListModel, e: Expr)
    requires
        m.wf(),
        classify_spec(e) != PushdownGroup::Barrier,
        !contains_named_column_spec(e),
        elementwise_spec(m, e) is Ok,
    ensures
        rows_ok(m, e),
        elementwise_spec(m, e)->Ok_0.rows() == per_row_output(m, e),
{
    let nm = m.normalized();
    let w = eval_spec(e, nm.values)->Ok_0;
    let out = elementwise_spec(m, e)->Ok_0;
    lemma_elementwise_len(e, nm.values);
    let o0 = m.offsets[0] as int;
    assert forall|i: int| 0 <= i < m.n_rows() implies
        (#[trigger] row_result(e, m.row(i))) is Ok && out.row(i) == row_result(e, m.row(i))->Ok_0 by {
        assert(m.offsets[0] <= m.offsets[i] && m.offsets[i] <= m.offsets[i + 1] && m.offsets[i + 1] <= m.offsets.last());
        let a = m.offsets[i] - o0;
        let b = m.offsets[i + 1] - o0;
        lemma_pointwise_subrange(e, nm.values, a, b);
        assert(nm.values.subrange(a, b) =~= m.raw_row(i));
    }
    assert(out.rows() =~= per_row_output(m, e));
}

/// Evaluates `e` once over all elements of `c` and keeps the row boundaries and nulls.
pub fn run_elementwise_on_values(c: &ListColumn, e: &Expr) -> (r: Result<ListColumn, ListEvalError>)
    requires
        c@.wf(),
        classify_spec(*e) != PushdownGroup::Barrier,
        !contains_named_column_spec(*e),
    ensures
        match (r, elementwise_spec(c@, *e)) {
            (Ok(out), Ok(m)) => out@ == m && out.name@ == c.name@,
            (Err(x), Err(y)) => x == y,
            _ => false,
        },
        r is Ok ==> r->Ok_0@.wf(),
        r is Ok ==> rows_ok(c@, *e) && r->Ok_0@.rows() == per_row_output(c@, *e),
{
    let n = c.offsets.len();
    let first = c.offsets[0];
    let last = c.offsets[n - 1];
    assert(first <= last);
    let values = copy_vec_range(&c.values, first, last);
    let mut offsets: Vec<usize> = Vec::new();
    let mut i: usize = 0;
    while i < n
        invariant
            i <= n,
            n == c@.offsets.len(),
            c@.wf(),
            first == c@.offsets[0],
            offsets@ == c@.normalized().offsets.take(i as int),
        decreases n - i,
    {
        assert(first <= c@.offsets[i as int]);
        offsets.push(c.offsets[i] - first);
        i += 1;
        assert(offsets@ =~= c@.normalized().offsets.take(i as int));
    }
    assert(offsets@ =~= c@.normalized().offsets);
    let mut validity: Vec<bool> = Vec::new();
    let mut j: usize = 0;
    while j < c.validity.len()
        invariant
            j <= c@.validity.len(),
            validity@ == c@.validity.take(j as int),
        decreases c@.validity.len() - j,
    {
        validity.push(c.validity[j]);
        j += 1;
        assert(validity@ =~= c@.validity.take(j as int));
    }
    assert(validity@ =~= c@.validity);
    match eval_expr(e, &values) {
        Ok(v) => {
            proof {
                lemma_elementwise_len(*e, values@);
            }
            let out = ListColumn { name: c.name.clone(), offsets, validity, values: v };
            assert forall|a: int, b: int| 0 <= a <= b < out@.offsets.len() implies out@.offsets[a] <= out@.offsets[b] by {
                assert(c@.offsets[a] <= c@.offsets[b]);
                assert(c@.offsets[0] <= c@.offsets[a]);
            }
            assert(c@.offsets[0] <= c@.offsets.last());
            proof {
                lemma_elementwise_rows(c@, *e);
            }
            Ok(out)
        },
        Err(x) => Err(x),
    }
}

} // verus!
