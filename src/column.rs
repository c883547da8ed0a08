use vstd::prelude::*;

use crate::ListEvalError;

verus! {

/// A list column as plain sequences.
pub struct ListModel {
    pub offsets: Seq<usize>,
    pub validity: Seq<bool>,
    pub values: Seq<Option<i64>>,
}

/// A list column: one chunk of concatenated values, row boundaries and a row validity mask.
#[derive(Debug)]
pub struct ListColumn {
    pub name: String,
    pub offsets: Vec<usize>,
    pub validity: Vec<bool>,
    pub values: Vec<Option<i64>>,
}

impl View for ListColumn {
    type V = ListModel;

    open spec fn view(&self) -> ListModel {
        ListModel { offsets: self.offsets@, validity: self.validity@, values: self.values@ }
    }
}

/// The values of a row of a column.
pub type Row = Seq<Option<i64>>;

impl ListModel {
    pub open spec fn n_rows(self) -> nat {
        self.validity.len()
    }

    /// One offset more than rows, non-decreasing, and within the values.
    pub open spec fn wf(self) -> bool {
        &&& self.offsets.len() == self.validity.len() + 1
        &&& forall|i: int, j: int|
            0 <= i <= j < self.offsets.len() ==> self.offsets[i] <= self.offsets[j]
        &&& self.offsets.last() <= self.values.len()
    }

    /// The elements stored for row `i`, whether or not the row is null.
    pub open spec fn raw_row(self, i: int) -> Row {
        self.values.subrange(self.offsets[i] as int, self.offsets[i + 1] as int)
    }

    /// Row `i` as the user sees it.
    pub open spec fn row(self, i: int) -> Option<Row> {
        if self.validity[i] {
            Some(self.raw_row(i))
        } else {
            None
        }
    }

    pub open spec fn rows(self) -> Seq<Option<Row>> {
        Seq::new(self.n_rows(), |i: int| self.row(i))
    }

    pub open spec fn all_null(self) -> bool {
        forall|i: int| 0 <= i < self.n_rows() ==> !self.validity[i]
    }

    pub open spec fn has_null_rows(self) -> bool {
        exists|i: int| 0 <= i < self.n_rows() && !self.validity[i]
    }

    /// Some row, null or not, stores a null element.
    pub open spec fn has_null_elements(self) -> bool {
        exists|j: int|
            self.offsets[0] <= j < self.offsets.last() && #[trigger] self.values[j] is None
    }

    /// The same column with its values cut to the referenced range and offsets starting at zero.
    pub open spec fn normalized(self) -> ListModel {
        ListModel {
            offsets: Seq::new(self.offsets.len(), |i: int| (self.offsets[i] - self.offsets[0]) as usize),
            validity: self.validity,
            values: self.values.subrange(self.offsets[0] as int, self.offsets.last() as int),
        }
    }
}

/// The elements of the non-null rows of `rows`, concatenated in order.
pub open spec fn flat(rows: Seq<Option<Row>>) -> Row
    decreases rows.len(),
{
    if rows.len() == 0 {
        Seq::empty()
    } else {
        let last = match rows.last() {
            Some(r) => r,
            None => Seq::empty(),
        };
        flat(rows.drop_last()) + last
    }
}

/// The column that holds `rows` with offsets from zero and nothing stored for null rows.
pub open spec fn from_rows_model(rows: Seq<Option<Row>>) -> ListModel {
    ListModel {
        offsets: Seq::new(rows.len() + 1, |i: int| flat(rows.take(i)).len() as usize),
        validity: Seq::new(rows.len(), |i: int| rows[i] is Some),
        values: flat(rows),
    }
}

/// The column with no rows.
pub open spec fn empty_model() -> ListModel {
    ListModel { offsets: seq![0usize], validity: Seq::empty(), values: Seq::empty() }
}

pub open spec fn row_view(r: Option<Vec<Option<i64>>>) -> Option<Row> {
    match r {
        Some(v) => Some(v@),
        None => None,
    }
}

proof fn lemma_flat_step(rows: Seq<Option<Row>>, i: int)
    requires
        0 <= i < rows.len(),
    ensures
        flat(rows.take(i + 1)) == flat(rows.take(i)) + match rows[i] {
            Some(r) => r,
            None => Seq::empty(),
        },
{
    assert(rows.take(i + 1).drop_last() =~= rows.take(i));
}

proof fn lemma_flat_prefix(rows: Seq<Option<Row>>, k: int, m: int)
    requires
        0 <= k <= m <= rows.len(),
    ensures
        flat(rows.take(k)).len() <= flat(rows.take(m)).len(),
        flat(rows.take(m)).take(flat(rows.take(k)).len() as int) == flat(rows.take(k)),
    decreases m,
{
    if m == k {
        assert(flat(rows.take(m)).take(flat(rows.take(k)).len() as int) =~= flat(rows.take(k)));
    } else {
        lemma_flat_prefix(rows, k, m - 1);
        lemma_flat_step(rows, m - 1);
        assert(flat(rows.take(m)).take(flat(rows.take(k)).len() as int)
            =~= flat(rows.take(m - 1)).take(flat(rows.take(k)).len() as int));
    }
}

/// Building a column from rows gives a well-formed column that holds those rows.
pub proof fn lemma_from_rows(rows: Seq<Option<Row>>)
    requires
        flat(rows).len() <= usize::MAX,
    ensures
        from_rows_model(rows).wf(),
        from_rows_model(rows).rows() == rows,
{
    let m = from_rows_model(rows);
    let n = rows.len() as int;
    assert(rows.take(n) =~= rows);
    assert forall|i: int, j: int| 0 <= i <= j < m.offsets.len() implies m.offsets[i] <= m.offsets[j] by {
        lemma_flat_prefix(rows, i, j);
        lemma_flat_prefix(rows, j, n);
    }
    assert forall|i: int| 0 <= i < n implies m.row(i) == rows[i] by {
        lemma_flat_prefix(rows, i, i + 1);
        lemma_flat_prefix(rows, i + 1, n);
        lemma_flat_prefix(rows, i, n);
        lemma_flat_step(rows, i);
        let a = flat(rows.take(i)).len() as int;
        let b = flat(rows.take(i + 1)).len() as int;
        assert(m.raw_row(i) =~= flat(rows.take(i + 1)).subrange(a, b));
        match rows[i] {
            Some(r) => {
                assert(flat(rows.take(i + 1)).subrange(a, b) =~= r);
            },
            None => {},
        }
    }
    assert(m.rows() =~= rows);
}

impl ListColumn {
    /// Builds a column holding `rows`, in order; a `None` row is null.
    pub fn from_rows(name: String, rows: &Vec<Option<Vec<Option<i64>>>>) -> (r: ListColumn)
        ensures
            r.name == name,
            r@ == from_rows_model(rows@.map_values(|x: Option<Vec<Option<i64>>>| row_view(x))),
            r@.wf(),
            r@.rows() == rows@.map_values(|x: Option<Vec<Option<i64>>>| row_view(x)),
    {
        let ghost rv = rows@.map_values(|x: Option<Vec<Option<i64>>>| row_view(x));
        let mut offsets: Vec<usize> = vec![0usize];
        let mut validity: Vec<bool> = Vec::new();
        let mut values: Vec<Option<i64>> = Vec::new();
        let mut i: usize = 0;
        assert(flat(rv.take(0)) =~= Seq::<Option<i64>>::empty());
        while i < rows.len()
            invariant
                i <= rows@.len(),
                rv == rows@.map_values(|x: Option<Vec<Option<i64>>>| row_view(x)),
                offsets@ == Seq::new(i as nat + 1, |j: int| flat(rv.take(j)).len() as usize),
                validity@ == Seq::new(i as nat, |j: int| rv[j] is Some),
                values@ == flat(rv.take(i as int)),
            decreases rows@.len() - i,
        {
            proof {
                lemma_flat_step(rv, i as int);
            }
            match &rows[i] {
                Some(v) => {
                    let ghost start = values@;
                    let mut j: usize = 0;
                    while j < v.len()
                        invariant
                            j <= v@.len(),
                            values@ == start + v@.take(j as int),
                        decreases v@.len() - j,
                    {
                        values.push(v[j]);
                        j += 1;
                        assert(values@ =~= start + v@.take(j as int));
                    }
                    assert(v@.take(j as int) =~= v@);
                    validity.push(true);
                },
                None => {
                    validity.push(false);
                },
            }
            offsets.push(values.len());
            i += 1;
            assert(offsets@ =~= Seq::new(i as nat + 1, |j: int| flat(rv.take(j)).len() as usize));
            assert(validity@ =~= Seq::new(i as nat, |j: int| rv[j] is Some));
        }
        assert(rv.take(i as int) =~= rv);
        let total: usize = values.len();
        proof {
            lemma_from_rows(rv);
        }
        let r = ListColumn { name, offsets, validity, values };
        assert(r@.offsets =~= from_rows_model(rv).offsets);
        assert(r@.validity =~= from_rows_model(rv).validity);
        r
    }
}

/// A copy of the elements of `v` in `[a, b)`.
pub fn copy_vec_range(v: &Vec<Option<i64>>, a: usize, b: usize) -> (r: Vec<Option<i64>>)
    requires
        a <= b <= v@.len(),
    ensures
        r@ == v@.subrange(a as int, b as int),
{
    let mut r: Vec<Option<i64>> = Vec::new();
    let mut j: usize = a;
    while j < b
        invariant
            a <= j <= b,
            b <= v@.len(),
            r@ == v@.subrange(a as int, j as int),
        decreases b - j,
    {
        r.push(v[j]);
        j += 1;
        assert(r@ =~= v@.subrange(a as int, j as int));
    }
    r
}

/// A copy of `v`.
pub fn copy_vec<T: Copy>(v: &Vec<T>) -> (r: Vec<T>)
    ensures
        r@ == v@,
{
    let mut r: Vec<T> = Vec::new();
    let mut i: usize = 0;
    while i < v.len()
        invariant
            i <= v@.len(),
            r@ == v@.take(i as int),
        decreases v@.len() - i,
    {
        r.push(v[i]);
        i += 1;
        assert(r@ =~= v@.take(i as int));
    }
    assert(r@ =~= v@);
    r
}

impl ListColumn {
    /// Builds a column from its parts, refusing parts that do not describe a list column.
    pub fn new(name: String, offsets: Vec<usize>, validity: Vec<bool>, values: Vec<Option<i64>>) -> (r: Result<ListColumn, ListEvalError>)
        ensures
            r is Ok <==> (ListModel { offsets: offsets@, validity: validity@, values: values@ }).wf(),
            r is Ok ==> r->Ok_0@ == (ListModel { offsets: offsets@, validity: validity@, values: values@ })
                && r->Ok_0.name == name,
            r is Err ==> r->Err_0 == ListEvalError::InvalidLayout,
    {
        let ghost m = ListModel { offsets: offsets@, validity: validity@, values: values@ };
        let n = offsets.len();
        if n == 0 || n - 1 != validity.len() {
            return Err(ListEvalError::InvalidLayout);
        }
        let mut i: usize = 1;
        while i < n
            invariant
                1 <= i <= n,
                n == offsets@.len(),
                m.offsets == offsets@,
                forall|a: int, b: int| 0 <= a <= b < i ==> offsets@[a] <= offsets@[b],
            decreases n - i,
        {
            if offsets[i - 1] > offsets[i] {
                proof {
                    if m.wf() {
                        assert(m.offsets[i - 1] <= m.offsets[i as int]);
                    }
                }
                return Err(ListEvalError::InvalidLayout);
            }
            i += 1;
        }
        if offsets[n - 1] > values.len() {
            return Err(ListEvalError::InvalidLayout);
        }
        Ok(ListColumn { name, offsets, validity, values })
    }

    /// The number of rows.
    pub fn len(&self) -> (r: usize)
        ensures
            r == self@.n_rows(),
    {
        self.validity.len()
    }

    /// Whether some row is null.
    pub fn has_null_rows(&self) -> (r: bool)
        ensures
            r == self@.has_null_rows(),
    {
        let mut i: usize = 0;
        while i < self.validity.len()
            invariant
                i <= self@.validity.len(),
                forall|k: int| 0 <= k < i ==> self@.validity[k],
            decreases self@.validity.len() - i,
        {
            if !self.validity[i] {
                return true;
            }
            i += 1;
        }
        false
    }

    /// Whether every row is null.
    pub fn is_all_null(&self) -> (r: bool)
        ensures
            r == self@.all_null(),
    {
        let mut i: usize = 0;
        while i < self.validity.len()
            invariant
                i <= self@.validity.len(),
                forall|k: int| 0 <= k < i ==> !self@.validity[k],
            decreases self@.validity.len() - i,
        {
            if self.validity[i] {
                return false;
            }
            i += 1;
        }
        true
    }

    /// Whether some referenced element is null.
    pub fn has_null_elements(&self) -> (r: bool)
        requires
            self@.wf(),
        ensures
            r == self@.has_null_elements(),
    {
        let n = self.offsets.len();
        let last = self.offsets[n - 1];
        let mut j: usize = self.offsets[0];
        while j < last
            invariant
                self@.offsets[0] <= j,
                last == self@.offsets.last(),
                last <= self@.values.len(),
                forall|k: int| self@.offsets[0] <= k < j ==> (#[trigger] self@.values[k]) is Some,
            decreases last - j,
        {
            if self.values[j].is_none() {
                return true;
            }
            j += 1;
        }
        false
    }

    /// The rows of this column, in order; a null row is `None`.
    pub fn rows(&self) -> (r: Vec<Option<Vec<Option<i64>>>>)
        requires
            self@.wf(),
        ensures
            r@.map_values(|x: Option<Vec<Option<i64>>>| row_view(x)) == self@.rows(),
    {
        let n = self.validity.len();
        let _m: usize = self.offsets.len();
        let mut out: Vec<Option<Vec<Option<i64>>>> = Vec::new();
        let mut i: usize = 0;
        while i < n
            invariant
                i <= n,
                n == self@.n_rows(),
                self@.wf(),
                out@.map_values(|x: Option<Vec<Option<i64>>>| row_view(x)) == self@.rows().take(i as int),
            decreases n - i,
        {
            let item = if self.validity[i] {
                let a = self.offsets[i];
                let b = self.offsets[i + 1];
                assert(a <= b && b <= self@.offsets.last());
                Some(copy_vec_range(&self.values, a, b))
            } else {
                None
            };
            let ghost before = out@;
            out.push(item);
            assert(out@.map_values(|x: Option<Vec<Option<i64>>>| row_view(x))
                =~= before.map_values(|x: Option<Vec<Option<i64>>>| row_view(x)).push(row_view(item)));
            i += 1;
            assert(out@.map_values(|x: Option<Vec<Option<i64>>>| row_view(x)) =~= self@.rows().take(i as int));
        }
        assert(self@.rows().take(i as int) =~= self@.rows());
        out
    }

    /// A copy of this column.
    pub fn copy(&self) -> (r: ListColumn)
        ensures
            r@ == self@,
            r.name@ == self.name@,
    {
        ListColumn {
            name: self.name.clone(),
            offsets: copy_vec(&self.offsets),
            validity: copy_vec(&self.validity),
            values: copy_vec(&self.values),
        }
    }
}

} // verus!
