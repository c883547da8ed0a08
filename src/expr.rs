use vstd::prelude::*;

use crate::column::Row;
use crate::ListEvalError;

verus! {

/// An expression evaluated over the elements of one list row.
#[derive(Debug)]
pub enum Expr {
    /// A column by name; the empty name is the current element.
    Column(String),
    /// Replaces null elements by a constant.
    FillNull(Box<Expr>, i64),
    /// Adds a constant to each element; fails on overflow.
    AddScalar(Box<Expr>, i64),
    /// Multiplies each element by a constant; fails on overflow.
    MulScalar(Box<Expr>, i64),
    /// The sum of the non-null elements, as one value.
    Sum(Box<Expr>),
    /// The number of elements, as one value.
    Len(Box<Expr>),
    /// A cast to a categorical or enum type.
    CastCategorical(Box<Expr>),
    /// A list-mapping function supplied by the user; this one reverses the list.
    MapList(Box<Expr>),
}

/// Whether an expression may run once over all rows' elements at once.
#[derive(Debug, Clone, Copy, PartialEq, Eq, Structural)]
pub enum PushdownGroup {
    /// Safe to run over the flattened values.
    Pushable,
    /// Safe to run over the flattened values when no element is null.
    Fallible,
    /// Must run row by row.
    Barrier,
}

pub open spec fn join_group(a: PushdownGroup, b: PushdownGroup) -> PushdownGroup {
    if a == PushdownGroup::Barrier || b == PushdownGroup::Barrier {
        PushdownGroup::Barrier
    } else if a == PushdownGroup::Fallible || b == PushdownGroup::Fallible {
        PushdownGroup::Fallible
    } else {
        PushdownGroup::Pushable
    }
}

/// The pushdown group of an expression: the worst over its nodes.
pub open spec fn classify_spec(e: Expr) -> PushdownGroup
    decreases e,
{
    match e {
        Expr::Column(_) => PushdownGroup::Pushable,
        Expr::FillNull(a, _) => classify_spec(*a),
        Expr::AddScalar(a, _) => join_group(PushdownGroup::Fallible, classify_spec(*a)),
        Expr::MulScalar(a, _) => join_group(PushdownGroup::Fallible, classify_spec(*a)),
        _ => PushdownGroup::Barrier,
    }
}

/// Whether the expression reduces a row to one value.
pub open spec fn returns_scalar_spec(e: Expr) -> bool
    decreases e,
{
    match e {
        Expr::Column(_) => false,
        Expr::FillNull(a, _) => returns_scalar_spec(*a),
        Expr::AddScalar(a, _) => returns_scalar_spec(*a),
        Expr::MulScalar(a, _) => returns_scalar_spec(*a),
        Expr::Sum(_) => true,
        Expr::Len(_) => true,
        Expr::CastCategorical(a) => returns_scalar_spec(*a),
        Expr::MapList(_) => false,
    }
}

pub open spec fn contains_cast_spec(e: Expr) -> bool
    decreases e,
{
    match e {
        Expr::Column(_) => false,
        Expr::FillNull(a, _) => contains_cast_spec(*a),
        Expr::AddScalar(a, _) => contains_cast_spec(*a),
        Expr::MulScalar(a, _) => contains_cast_spec(*a),
        Expr::Sum(a) => contains_cast_spec(*a),
        Expr::Len(a) => contains_cast_spec(*a),
        Expr::CastCategorical(_) => true,
        Expr::MapList(a) => contains_cast_spec(*a),
    }
}

pub open spec fn contains_named_column_spec(e: Expr) -> bool
    decreases e,
{
    match e {
        Expr::Column(n) => n@.len() != 0,
        Expr::FillNull(a, _) => contains_named_column_spec(*a),
        Expr::AddScalar(a, _) => contains_named_column_spec(*a),
        Expr::MulScalar(a, _) => contains_named_column_spec(*a),
        Expr::Sum(a) => contains_named_column_spec(*a),
        Expr::Len(a) => contains_named_column_spec(*a),
        Expr::CastCategorical(a) => contains_named_column_spec(*a),
        Expr::MapList(a) => contains_named_column_spec(*a),
    }
}

pub open spec fn contains_user_map_spec(e: Expr) -> bool
    decreases e,
{
    match e {
        Expr::Column(_) => false,
        Expr::FillNull(a, _) => contains_user_map_spec(*a),
        Expr::AddScalar(a, _) => contains_user_map_spec(*a),
        Expr::MulScalar(a, _) => contains_user_map_spec(*a),
        Expr::Sum(a) => contains_user_map_spec(*a),
        Expr::Len(a) => contains_user_map_spec(*a),
        Expr::CastCategorical(a) => contains_user_map_spec(*a),
        Expr::MapList(_) => true,
    }
}

pub open spec fn fill_null_seq(s: Row, k: i64) -> Row {
    Seq::new(s.len(), |i: int| match s[i] { Some(x) => Some(x), None => Some(k) })
}

pub open spec fn add_fits(s: Row, k: i64) -> bool {
    forall|i: int| 0 <= i < s.len() && (#[trigger] s[i]) is Some ==> s[i]->Some_0.checked_add(k) is Some
}

pub open spec fn add_seq(s: Row, k: i64) -> Row {
    Seq::new(s.len(), |i: int| match s[i] { Some(x) => x.checked_add(k), None => None })
}

pub open spec fn mul_fits(s: Row, k: i64) -> bool {
    forall|i: int| 0 <= i < s.len() && (#[trigger] s[i]) is Some ==> s[i]->Some_0.checked_mul(k) is Some
}

pub open spec fn mul_seq(s: Row, k: i64) -> Row {
    Seq::new(s.len(), |i: int| match s[i] { Some(x) => x.checked_mul(k), None => None })
}

/// The sum of the non-null elements.
pub open spec fn sum_of(s: Row) -> int
    decreases s.len(),
{
    if s.len() == 0 {
        0
    } else {
        sum_of(s.drop_last()) + match s.last() { Some(x) => x as int, None => 0 }
    }
}

pub open spec fn fits_i64(x: int) -> bool {
    i64::MIN <= x <= i64::MAX
}

/// What the expression gives on the elements `s` of one row.
pub open spec fn eval_spec(e: Expr, s: Row) -> Result<Row, ListEvalError>
    decreases e,
{
    match e {
        Expr::Column(n) => if n@.len() == 0 { Ok(s) } else { Err(ListEvalError::NamedColumn) },
        Expr::FillNull(a, k) => match eval_spec(*a, s) {
            Ok(t) => Ok(fill_null_seq(t, k)),
            Err(x) => Err(x),
        },
        Expr::AddScalar(a, k) => match eval_spec(*a, s) {
            Ok(t) => if add_fits(t, k) { Ok(add_seq(t, k)) } else { Err(ListEvalError::Overflow) },
            Err(x) => Err(x),
        },
        Expr::MulScalar(a, k) => match eval_spec(*a, s) {
            Ok(t) => if mul_fits(t, k) { Ok(mul_seq(t, k)) } else { Err(ListEvalError::Overflow) },
            Err(x) => Err(x),
        },
        Expr::Sum(a) => match eval_spec(*a, s) {
            Ok(t) => if fits_i64(sum_of(t)) {
                Ok(seq![Some(sum_of(t) as i64)])
            } else {
                Err(ListEvalError::Overflow)
            },
            Err(x) => Err(x),
        },
        Expr::Len(a) => match eval_spec(*a, s) {
            Ok(t) => if t.len() <= i64::MAX {
                Ok(seq![Some(t.len() as i64)])
            } else {
                Err(ListEvalError::Overflow)
            },
            Err(x) => Err(x),
        },
        Expr::CastCategorical(_) => Err(ListEvalError::CategoricalCast),
        Expr::MapList(a) => match eval_spec(*a, s) {
            Ok(t) => Ok(t.reverse()),
            Err(x) => Err(x),
        },
    }
}

fn join(a: PushdownGroup, b: PushdownGroup) -> (r: PushdownGroup)
    ensures
        r == join_group(a, b),
{
    match (a, b) {
        (PushdownGroup::Barrier, _) | (_, PushdownGroup::Barrier) => PushdownGroup::Barrier,
        (PushdownGroup::Fallible, _) | (_, PushdownGroup::Fallible) => PushdownGroup::Fallible,
        _ => PushdownGroup::Pushable,
    }
}

impl Expr {
    /// The pushdown group of this expression.
    pub fn classify(&self) -> (r: PushdownGroup)
        ensures
            r == classify_spec(*self),
        decreases self,
    {
        match self {
            Expr::Column(_) => PushdownGroup::Pushable,
            Expr::FillNull(a, _) => a.classify(),
            Expr::AddScalar(a, _) => join(PushdownGroup::Fallible, a.classify()),
            Expr::MulScalar(a, _) => join(PushdownGroup::Fallible, a.classify()),
            _ => PushdownGroup::Barrier,
        }
    }

    /// Whether this expression reduces a row to one value.
    pub fn returns_scalar(&self) -> (r: bool)
        ensures
            r == returns_scalar_spec(*self),
        decreases self,
    {
        match self {
            Expr::Column(_) => false,
            Expr::FillNull(a, _) => a.returns_scalar(),
            Expr::AddScalar(a, _) => a.returns_scalar(),
            Expr::MulScalar(a, _) => a.returns_scalar(),
            Expr::Sum(_) => true,
            Expr::Len(_) => true,
            Expr::CastCategorical(a) => a.returns_scalar(),
            Expr::MapList(_) => false,
        }
    }

    /// Whether some node casts to a categorical or enum type.
    pub fn contains_cast(&self) -> (r: bool)
        ensures
            r == contains_cast_spec(*self),
        decreases self,
    {
        match self {
            Expr::Column(_) => false,
            Expr::FillNull(a, _) => a.contains_cast(),
            Expr::AddScalar(a, _) => a.contains_cast(),
            Expr::MulScalar(a, _) => a.contains_cast(),
            Expr::Sum(a) => a.contains_cast(),
            Expr::Len(a) => a.contains_cast(),
            Expr::CastCategorical(_) => true,
            Expr::MapList(a) => a.contains_cast(),
        }
    }

    /// Whether some node reads a column by a non-empty name.
    pub fn contains_named_column(&self) -> (r: bool)
        ensures
            r == contains_named_column_spec(*self),
        decreases self,
    {
        match self {
            Expr::Column(n) => !n.as_str().is_empty(),
            Expr::FillNull(a, _) => a.contains_named_column(),
            Expr::AddScalar(a, _) => a.contains_named_column(),
            Expr::MulScalar(a, _) => a.contains_named_column(),
            Expr::Sum(a) => a.contains_named_column(),
            Expr::Len(a) => a.contains_named_column(),
            Expr::CastCategorical(a) => a.contains_named_column(),
            Expr::MapList(a) => a.contains_named_column(),
        }
    }

    /// Whether some node is a user-supplied list mapping.
    pub fn contains_user_map(&self) -> (r: bool)
        ensures
            r == contains_user_map_spec(*self),
        decreases self,
    {
        match self {
            Expr::Column(_) => false,
            Expr::FillNull(a, _) => a.contains_user_map(),
            Expr::AddScalar(a, _) => a.contains_user_map(),
            Expr::MulScalar(a, _) => a.contains_user_map(),
            Expr::Sum(a) => a.contains_user_map(),
            Expr::Len(a) => a.contains_user_map(),
            Expr::CastCategorical(a) => a.contains_user_map(),
            Expr::MapList(_) => true,
        }
    }
}

fn fill_null_vec(s: Vec<Option<i64>>, k: i64) -> (r: Vec<Option<i64>>)
    ensures
        r@ == fill_null_seq(s@, k),
{
    let mut r: Vec<Option<i64>> = Vec::new();
    let mut i: usize = 0;
    while i < s.len()
        invariant
            i <= s@.len(),
            r@ == fill_null_seq(s@, k).take(i as int),
        decreases s@.len() - i,
    {
        let x = match s[i] {
            Some(x) => Some(x),
            None => Some(k),
        };
        r.push(x);
        i += 1;
        assert(r@ =~= fill_null_seq(s@, k).take(i as int));
    }
    assert(r@ =~= fill_null_seq(s@, k));
    r
}

fn add_vec(s: Vec<Option<i64>>, k: i64) -> (r: Option<Vec<Option<i64>>>)
    ensures
        r is Some <==> add_fits(s@, k),
        r is Some ==> r->Some_0@ == add_seq(s@, k),
{
    let mut r: Vec<Option<i64>> = Vec::new();
    let mut i: usize = 0;
    while i < s.len()
        invariant
            i <= s@.len(),
            add_fits(s@.take(i as int), k),
            r@ == add_seq(s@, k).take(i as int),
        decreases s@.len() - i,
    {
        let x = match s[i] {
            Some(x) => match x.checked_add(k) {
                Some(y) => Some(y),
                None => {
                    assert(!add_fits(s@, k)) by {
                        assert(s@[i as int] is Some);
                    }
                    return None;
                },
            },
            None => None,
        };
        r.push(x);
        i += 1;
        assert(r@ =~= add_seq(s@, k).take(i as int));
        assert forall|j: int| 0 <= j < s@.take(i as int).len() && (#[trigger] s@.take(i as int)[j]) is Some
            implies s@.take(i as int)[j]->Some_0.checked_add(k) is Some by {
            if j < i - 1 {
                assert(s@.take(i - 1)[j] == s@[j]);
            }
        }
    }
    assert(r@ =~= add_seq(s@, k));
    assert(s@.take(i as int) =~= s@);
    Some(r)
}

fn mul_vec(s: Vec<Option<i64>>, k: i64) -> (r: Option<Vec<Option<i64>>>)
    ensures
        r is Some <==> mul_fits(s@, k),
        r is Some ==> r->Some_0@ == mul_seq(s@, k),
{
    let mut r: Vec<Option<i64>> = Vec::new();
    let mut i: usize = 0;
    while i < s.len()
        invariant
            i <= s@.len(),
            mul_fits(s@.take(i as int), k),
            r@ == mul_seq(s@, k).take(i as int),
        decreases s@.len() - i,
    {
        let x = match s[i] {
            Some(x) => match x.checked_mul(k) {
                Some(y) => Some(y),
                None => {
                    assert(!mul_fits(s@, k)) by {
                        assert(s@[i as int] is Some);
                    }
                    return None;
                },
            },
            None => None,
        };
        r.push(x);
        i += 1;
        assert(r@ =~= mul_seq(s@, k).take(i as int));
        assert forall|j: int| 0 <= j < s@.take(i as int).len() && (#[trigger] s@.take(i as int)[j]) is Some
            implies s@.take(i as int)[j]->Some_0.checked_mul(k) is Some by {
            if j < i - 1 {
                assert(s@.take(i - 1)[j] == s@[j]);
            }
        }
    }
    assert(r@ =~= mul_seq(s@, k));
    assert(s@.take(i as int) =~= s@);
    Some(r)
}

/// The running sum never leaves 64 bits times the count of elements summed.
proof fn lemma_sum_bound(s: Row)
    ensures
        -(s.len() as int) * 0x8000_0000_0000_0000 <= sum_of(s) <= (s.len() as int) * 0x8000_0000_0000_0000,
    decreases s.len(),
{
    if s.len() > 0 {
        lemma_sum_bound(s.drop_last());
        let n = s.len() as int;
        assert(-(n - 1) * 0x8000_0000_0000_0000 - 0x8000_0000_0000_0000 == -n * 0x8000_0000_0000_0000) by (nonlinear_arith);
        assert((n - 1) * 0x8000_0000_0000_0000 + 0x8000_0000_0000_0000 == n * 0x8000_0000_0000_0000) by (nonlinear_arith);
    }
}

fn sum_vec(s: &Vec<Option<i64>>) -> (r: Option<i64>)
    ensures
        r is Some <==> fits_i64(sum_of(s@)),
        r is Some ==> r->Some_0 == sum_of(s@),
{
    let n: usize = s.len();
    let mut acc: i128 = 0;
    let mut i: usize = 0;
    while i < n
        invariant
            i <= s@.len(),
            acc == sum_of(s@.take(i as int)),
            -(i as int) * 0x8000_0000_0000_0000 <= acc <= (i as int) * 0x8000_0000_0000_0000,
            n == s@.len(),
        decreases s@.len() - i,
    {
        proof {
            assert(s@.take(i + 1).drop_last() =~= s@.take(i as int));
            let ii = i as int;
            assert(ii * 0x8000_0000_0000_0000 <= 0xFFFF_FFFF_FFFF_FFFF * 0x8000_0000_0000_0000) by (nonlinear_arith)
                requires ii <= 0xFFFF_FFFF_FFFF_FFFF;
            assert((ii + 1) * 0x8000_0000_0000_0000 == ii * 0x8000_0000_0000_0000 + 0x8000_0000_0000_0000) by (nonlinear_arith);
        }
        match s[i] {
            Some(x) => {
                acc = acc + x as i128;
            },
            None => {},
        }
        i += 1;
    }
    assert(s@.take(i as int) =~= s@);
    if acc < i64::MIN as i128 || acc > i64::MAX as i128 {
        None
    } else {
        Some(acc as i64)
    }
}

fn reverse_vec(s: Vec<Option<i64>>) -> (r: Vec<Option<i64>>)
    ensures
        r@ == s@.reverse(),
{
    let mut r: Vec<Option<i64>> = Vec::new();
    let mut i: usize = s.len();
    while i > 0
        invariant
            i <= s@.len(),
            r@ == s@.reverse().take(s@.len() - i),
        decreases i,
    {
        i -= 1;
        r.push(s[i]);
        assert(r@ =~= s@.reverse().take(s@.len() - i));
    }
    assert(r@ =~= s@.reverse());
    r
}

/// Evaluates `e` on the elements `s` of one row.
pub fn eval_expr(e: &Expr, s: &Vec<Option<i64>>) -> (r: Result<Vec<Option<i64>>, ListEvalError>)
    ensures
        match (r, eval_spec(*e, s@)) {
            (Ok(v), Ok(t)) => v@ == t,
            (Err(x), Err(y)) => x == y,
            _ => false,
        },
    decreases e,
{
    match e {
        Expr::Column(n) => {
            if n.as_str().is_empty() {
                let mut r: Vec<Option<i64>> = Vec::new();
                let mut i: usize = 0;
                while i < s.len()
                    invariant
                        i <= s@.len(),
                        r@ == s@.take(i as int),
                    decreases s@.len() - i,
                {
                    r.push(s[i]);
                    i += 1;
                    assert(r@ =~= s@.take(i as int));
                }
                assert(r@ =~= s@);
                Ok(r)
            } else {
                Err(ListEvalError::NamedColumn)
            }
        },
        Expr::FillNull(a, k) => {
            let t = match eval_expr(a, s) {
                Ok(t) => t,
                Err(x) => return Err(x),
            };
            Ok(fill_null_vec(t, *k))
        },
        Expr::AddScalar(a, k) => {
            let t = match eval_expr(a, s) {
                Ok(t) => t,
                Err(x) => return Err(x),
            };
            match add_vec(t, *k) {
                Some(v) => Ok(v),
                None => Err(ListEvalError::Overflow),
            }
        },
        Expr::MulScalar(a, k) => {
            let t = match eval_expr(a, s) {
                Ok(t) => t,
                Err(x) => return Err(x),
            };
            match mul_vec(t, *k) {
                Some(v) => Ok(v),
                None => Err(ListEvalError::Overflow),
            }
        },
        Expr::Sum(a) => {
            let t = match eval_expr(a, s) {
                Ok(t) => t,
                Err(x) => return Err(x),
            };
            match sum_vec(&t) {
                Some(x) => {
                    let v = vec![Some(x)];
                    assert(v@ =~= seq![Some(sum_of(t@) as i64)]);
                    Ok(v)
                },
                None => Err(ListEvalError::Overflow),
            }
        },
        Expr::Len(a) => {
            let t = match eval_expr(a, s) {
                Ok(t) => t,
                Err(x) => return Err(x),
            };
            if (t.len() as u128) <= 9223372036854775807u128 {
                let v = vec![Some(t.len() as i64)];
                assert(v@ =~= seq![Some(t@.len() as i64)]);
                Ok(v)
            } else {
                Err(ListEvalError::Overflow)
            }
        },
        Expr::CastCategorical(_) => Err(ListEvalError::CategoricalCast),
        Expr::MapList(a) => {
            let t = match eval_expr(a, s) {
                Ok(t) => t,
                Err(x) => return Err(x),
            };
            Ok(reverse_vec(t))
        },
    }
}

} // verus!
