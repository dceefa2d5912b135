use vstd::prelude::*;
use crate::rat::{Rat, NUM_MAX};

verus! {

/// Logical type of a column.
#[derive(Clone, Copy, Debug, PartialEq, Eq, Structural)]
pub enum DType {
    Numeric,
    Boolean,
    Text,
}

/// One scalar value of a column.
#[derive(Debug)]
pub enum Value {
    Num(Rat),
    Bool(bool),
    Text(String),
}

/// Structural similarity of two scalar values: what a clone preserves.
/// Numerics and booleans are kept exactly; a text is kept character for
/// character.
pub open spec fn val_sim(a: Value, b: Value) -> bool {
    match (a, b) {
        (Value::Num(x), Value::Num(y)) => x == y,
        (Value::Bool(x), Value::Bool(y)) => x == y,
        (Value::Text(x), Value::Text(y)) => x@ == y@,
        _ => false,
    }
}

impl Clone for Value {
    fn clone(&self) -> (r: Value)
        ensures
            val_sim(*self, r),
    {
        match self {
            Value::Num(x) => Value::Num(*x),
            Value::Bool(b) => Value::Bool(*b),
            Value::Text(s) => Value::Text(s.clone()),
        }
    }
}

/// Similarity of two nullable cells.
pub open spec fn cell_sim(a: Option<Value>, b: Option<Value>) -> bool {
    match (a, b) {
        (Option::Some(x), Option::Some(y)) => val_sim(x, y),
        (Option::None, Option::None) => true,
        _ => false,
    }
}

/// Equality of two scalar values: numerics by rational value, texts by
/// their characters; values of different types are never equal.
pub open spec fn val_eq(a: Value, b: Value) -> bool {
    match (a, b) {
        (Value::Num(x), Value::Num(y)) => x.spec_eq_val(y),
        (Value::Bool(x), Value::Bool(y)) => x == y,
        (Value::Text(x), Value::Text(y)) => x@ == y@,
        _ => false,
    }
}

/// A value is well formed when a held rational is.
pub open spec fn val_wf(v: Value) -> bool {
    match v {
        Value::Num(x) => x.wf(),
        _ => true,
    }
}

/// A value matches a column type.
pub open spec fn val_of_dtype(v: Value, t: DType) -> bool {
    match (v, t) {
        (Value::Num(_), DType::Numeric) => true,
        (Value::Bool(_), DType::Boolean) => true,
        (Value::Text(_), DType::Text) => true,
        _ => false,
    }
}

/// The numeric reading of a value: a rational as it is, a boolean as zero
/// or one, and no reading for text.
pub open spec fn num_view(v: Value) -> Option<Rat> {
    match v {
        Value::Num(x) => Some(x),
        Value::Bool(b) => Some(Rat { num: if b { 1 } else { 0 }, den: 1 }),
        Value::Text(_) => None,
    }
}

/// Decides equality of two scalar values.
pub fn value_eq(a: &Value, b: &Value) -> (r: bool)
    requires
        val_wf(*a),
        val_wf(*b),
    ensures
        r == val_eq(*a, *b),
{
    match (a, b) {
        (Value::Num(x), Value::Num(y)) => x.eq_val(*y),
        (Value::Bool(x), Value::Bool(y)) => *x == *y,
        (Value::Text(x), Value::Text(y)) => *x == *y,
        _ => false,
    }
}

/// A nullable cell either is null or holds a well-formed value of the
/// column type.
pub open spec fn cell_ok(v: Option<Value>, t: DType) -> bool {
    match v {
        Some(x) => val_of_dtype(x, t) && val_wf(x),
        None => true,
    }
}

/// A named column of nullable scalar values of one type.
#[derive(Debug)]
pub struct Column {
    pub name: String,
    pub dtype: DType,
    pub values: Vec<Option<Value>>,
}

impl Column {
    /// Every present value matches the column type and is well formed, and
    /// the column is short enough for counts over it to stay exact.
    pub open spec fn wf(self) -> bool {
        &&& forall|i: int|
            0 <= i < self.values@.len() ==> cell_ok(#[trigger] self.values@[i], self.dtype)
        &&& self.values@.len() <= NUM_MAX
    }
}

/// An ordered set of named columns with a uniform row count.
#[derive(Debug)]
pub struct Dataset {
    pub cols: Vec<Column>,
}

impl Dataset {
    /// Uniform row count across columns, well-formed columns.
    pub open spec fn wf(self) -> bool {
        &&& forall|c: int| 0 <= c < self.cols@.len() ==> (#[trigger] self.cols@[c]).wf()
        &&& forall|c: int|
            0 <= c < self.cols@.len() ==> (#[trigger] self.cols@[c]).values@.len()
                == self.spec_height()
    }

    /// The row count (zero for a dataset without columns).
    pub open spec fn spec_height(self) -> nat {
        if self.cols@.len() == 0 {
            0
        } else {
            self.cols@[0].values@.len()
        }
    }

    /// The row count.
    pub fn height(&self) -> (h: usize)
        ensures
            h == self.spec_height(),
    {
        if self.cols.len() == 0 {
            0
        } else {
            self.cols[0].values.len()
        }
    }
}

/// Relies on rand::random_range over `0..bound`: a uniformly random index
/// strictly below `bound`.
#[verifier::external_body]
fn random_index(bound: usize) -> (r: usize)
    requires
        bound >= 1,
    ensures
        r < bound,
{
    rand::random_range(0..bound)
}

/// Draws `k` distinct uniformly random row indices below `n`, in the order
/// drawn.
fn sample_indices(n: usize, k: usize) -> (idx: Vec<usize>)
    requires
        k <= n,
    ensures
        idx@.len() == k,
        forall|i: int| 0 <= i < k ==> #[trigger] idx@[i] < n,
        forall|i: int, j: int| 0 <= i < j < k ==> idx@[i] != idx@[j],
{
    let mut pool: Vec<usize> = Vec::new();
    let mut v: usize = 0;
    while v < n
        invariant
            v <= n,
            pool@.len() == v,
            forall|i: int| 0 <= i < v ==> #[trigger] pool@[i] == i,
        decreases n - v,
    {
        pool.push(v);
        v = v + 1;
    }
    let mut i: usize = 0;
    while i < k
        invariant
            i <= k <= n,
            pool@.len() == n,
            forall|a: int| 0 <= a < n ==> #[trigger] pool@[a] < n,
            forall|a: int, b: int| 0 <= a < b < n ==> pool@[a] != pool@[b],
        decreases k - i,
    {
        let j = i + random_index(n - i);
        let pi = pool[i];
        let pj = pool[j];
        pool.set(i, pj);
        pool.set(j, pi);
        i = i + 1;
    }
    let mut idx: Vec<usize> = Vec::new();
    let mut t: usize = 0;
    while t < k
        invariant
            t <= k <= n,
            pool@.len() == n,
            forall|a: int| 0 <= a < n ==> #[trigger] pool@[a] < n,
            forall|a: int, b: int| 0 <= a < b < n ==> pool@[a] != pool@[b],
            idx@.len() == t,
            forall|a: int| 0 <= a < t ==> #[trigger] idx@[a] == pool@[a],
        decreases k - t,
    {
        idx.push(pool[t]);
        t = t + 1;
    }
    idx
}

/// Similarity preserves value well-formedness.
pub proof fn lemma_sim_val_wf(a: Value, b: Value)
    requires
        val_sim(a, b),
        val_wf(a),
    ensures
        val_wf(b),
{
    match (a, b) {
        (Value::Num(p), Value::Num(q)) => {},
        (Value::Bool(p), Value::Bool(q)) => {},
        (Value::Text(p), Value::Text(q)) => {},
        _ => {},
    }
}

/// Similarity preserves cell well-formedness.
proof fn lemma_sim_cell_ok(a: Option<Value>, b: Option<Value>, t: DType)
    requires
        cell_sim(a, b),
        cell_ok(a, t),
    ensures
        cell_ok(b, t),
{
    match (a, b) {
        (Option::Some(x), Option::Some(y)) => {
            match (x, y) {
                (Value::Num(p), Value::Num(q)) => {},
                (Value::Bool(p), Value::Bool(q)) => {},
                (Value::Text(p), Value::Text(q)) => {},
                _ => {},
            }
        },
        _ => {},
    }
}

/// Keeps only the rows at the given indices, in the given order, across
/// all columns.
fn take_rows(ds: &Dataset, idx: &Vec<usize>) -> (out: Dataset)
    requires
        ds.wf(),
        idx@.len() <= ds.spec_height(),
        forall|i: int| 0 <= i < idx@.len() ==> #[trigger] idx@[i] < ds.spec_height(),
    ensures
        out.wf(),
        out.cols@.len() == ds.cols@.len(),
        out.spec_height() == if ds.cols@.len() == 0 {
            0nat
        } else {
            idx@.len()
        },
        forall|c: int|
            0 <= c < ds.cols@.len() ==> (#[trigger] out.cols@[c]).name@ == ds.cols@[c].name@
                && out.cols@[c].dtype == ds.cols@[c].dtype,
        forall|c: int, i: int|
            0 <= c < ds.cols@.len() && 0 <= i < idx@.len() ==> cell_sim(
                ds.cols@[c].values@[idx@[i] as int],
                #[trigger] out.cols@[c].values@[i],
            ),
{
    let mut cols: Vec<Column> = Vec::new();
    let mut c: usize = 0;
    while c < ds.cols.len()
        invariant
            c <= ds.cols@.len(),
            ds.wf(),
            idx@.len() <= ds.spec_height(),
            forall|i: int| 0 <= i < idx@.len() ==> #[trigger] idx@[i] < ds.spec_height(),
            cols@.len() == c,
            forall|a: int|
                0 <= a < c ==> (#[trigger] cols@[a]).name@ == ds.cols@[a].name@ && cols@[a].dtype
                    == ds.cols@[a].dtype && cols@[a].values@.len() == idx@.len(),
            forall|a: int, i: int|
                0 <= a < c && 0 <= i < idx@.len() ==> cell_sim(
                    ds.cols@[a].values@[idx@[i] as int],
                    #[trigger] cols@[a].values@[i],
                ),
            forall|a: int| 0 <= a < c ==> (#[trigger] cols@[a]).wf(),
        decreases ds.cols@.len() - c,
    {
        let src = &ds.cols[c];
        let mut vals: Vec<Option<Value>> = Vec::new();
        let mut i: usize = 0;
        while i < idx.len()
            invariant
                i <= idx@.len(),
                ds.wf(),
                0 <= c < ds.cols@.len(),
                src == ds.cols@[c as int],
                forall|t: int| 0 <= t < idx@.len() ==> #[trigger] idx@[t] < ds.spec_height(),
                vals@.len() == i,
                forall|t: int|
                    0 <= t < i ==> cell_sim(
                        ds.cols@[c as int].values@[idx@[t] as int],
                        #[trigger] vals@[t],
                    ),
            decreases idx@.len() - i,
        {
            vals.push(src.values[idx[i]].clone());
            i = i + 1;
        }
        let col = Column { name: src.name.clone(), dtype: src.dtype, values: vals };
        assert(col.wf()) by {
            assert forall|t: int|
                0 <= t < col.values@.len() implies cell_ok(
                #[trigger] col.values@[t],
                col.dtype,
            ) by {
                lemma_sim_cell_ok(
                    ds.cols@[c as int].values@[idx@[t] as int],
                    col.values@[t],
                    col.dtype,
                );
            }
            assert(ds.cols@[c as int].wf());
            assert(col.values@.len() == idx@.len() <= ds.spec_height());
            assert(ds.spec_height() == ds.cols@[c as int].values@.len());
            assert(col.values@.len() <= NUM_MAX);
        }
        cols.push(col);
        c = c + 1;
    }
    Dataset { cols }
}

/// Reduces the dataset to at most `cap` rows by drawing a uniform random
/// sample without replacement; a dataset within the cap is returned
/// unchanged.  The result always has `min(cap, height)` rows (for a
/// dataset that has columns), and every kept row is one row of the
/// original: the ghost result names the source row of each kept row.
pub fn sample_to_cap(ds: Dataset, cap: usize) -> (r: (Dataset, Ghost<Seq<int>>))
    requires
        ds.wf(),
    ensures
        r.0.wf(),
        r.0.cols@.len() == ds.cols@.len(),
        ds.spec_height() <= cap ==> r.0 == ds,
        ds.cols@.len() > 0 ==> r.0.spec_height() == vstd::math::min(
            cap as int,
            ds.spec_height() as int,
        ),
        forall|c: int|
            0 <= c < ds.cols@.len() ==> (#[trigger] r.0.cols@[c]).name@ == ds.cols@[c].name@
                && r.0.cols@[c].dtype == ds.cols@[c].dtype,
        r.1@.len() == r.0.spec_height(),
        forall|i: int| 0 <= i < r.1@.len() ==> 0 <= #[trigger] r.1@[i] < ds.spec_height(),
        forall|i: int, j: int| 0 <= i < j < r.1@.len() ==> r.1@[i] != r.1@[j],
        forall|c: int, i: int|
            0 <= c < ds.cols@.len() && 0 <= i < r.1@.len() ==> cell_sim(
                ds.cols@[c].values@[r.1@[i]],
                #[trigger] r.0.cols@[c].values@[i],
            ),
{
    let h = ds.height();
    if h <= cap {
        let ghost picks = Seq::new(ds.spec_height(), |i: int| i);
        assert forall|c: int, i: int|
            0 <= c < ds.cols@.len() && 0 <= i < picks.len() implies cell_sim(
            ds.cols@[c].values@[picks[i]],
            #[trigger] ds.cols@[c].values@[i],
        ) by {
            assert(picks[i] == i);
            match ds.cols@[c].values@[i] {
                Option::Some(v) => {
                    assert(val_sim(v, v));
                },
                Option::None => {},
            }
        }
        (ds, Ghost(picks))
    } else {
        let idx = sample_indices(h, cap);
        let out = take_rows(&ds, &idx);
        let ghost picks = Seq::new(idx@.len() as nat, |i: int| idx@[i] as int);
        (out, Ghost(picks))
    }
}

} // verus!
