use vstd::prelude::*;
use crate::rat::{Rat, add_c, div_c, NUM_MAX};
use crate::dataset::{Column, Value, num_view, val_eq, val_wf, value_eq};

verus! {

/// Every rational in the sequence is well formed.
pub open spec fn all_wf(s: Seq<Rat>) -> bool {
    forall|i: int| 0 <= i < s.len() ==> (#[trigger] s[i]).wf()
}

/// Number of null cells.
pub open spec fn count_nulls(s: Seq<Option<Value>>) -> nat
    decreases s.len(),
{
    if s.len() == 0 {
        0
    } else {
        count_nulls(s.drop_last()) + if s.last() is None {
            1nat
        } else {
            0nat
        }
    }
}

/// The numeric readings of the non-null cells, in order: text columns
/// contribute nothing, booleans read as zero or one.
pub open spec fn nums_of(s: Seq<Option<Value>>) -> Seq<Rat>
    decreases s.len(),
{
    if s.len() == 0 {
        Seq::empty()
    } else {
        nums_of(s.drop_last()) + match s.last() {
            Some(v) => match num_view(v) {
                Some(r) => seq![r],
                None => Seq::empty(),
            },
            None => Seq::empty(),
        }
    }
}

/// Number of zero values.
pub open spec fn count_zeros(s: Seq<Rat>) -> nat
    decreases s.len(),
{
    if s.len() == 0 {
        0
    } else {
        count_zeros(s.drop_last()) + if s.last().num == 0 {
            1nat
        } else {
            0nat
        }
    }
}

/// Number of strictly negative values.
pub open spec fn count_negs(s: Seq<Rat>) -> nat
    decreases s.len(),
{
    if s.len() == 0 {
        0
    } else {
        count_negs(s.drop_last()) + if s.last().num < 0 {
            1nat
        } else {
            0nat
        }
    }
}

/// Checked sum of a sequence of rationals, absent as soon as one partial
/// sum cannot be represented.
pub open spec fn sum_c(s: Seq<Rat>) -> Option<Rat>
    decreases s.len(),
{
    if s.len() == 0 {
        Some(Rat { num: 0, den: 1 })
    } else {
        match sum_c(s.drop_last()) {
            Some(a) => add_c(a, s.last()),
            None => None,
        }
    }
}

/// Checked mean: the sum divided by the length.
pub open spec fn mean_c(s: Seq<Rat>) -> Option<Rat>
    recommends
        s.len() <= NUM_MAX,
{
    if s.len() == 0 {
        None
    } else {
        match sum_c(s) {
            Some(t) => div_c(t, Rat { num: s.len() as i64, den: 1 }),
            None => None,
        }
    }
}

/// A value somewhere in the sequence is not an integer.
pub open spec fn any_nonintegral(s: Seq<Rat>) -> bool {
    exists|i: int| 0 <= i < s.len() && !(#[trigger] s[i]).spec_is_integral()
}

/// A column never has more nulls than cells.
pub proof fn lemma_count_nulls_le(s: Seq<Option<Value>>)
    ensures
        count_nulls(s) <= s.len(),
    decreases s.len(),
{
    if s.len() > 0 {
        lemma_count_nulls_le(s.drop_last());
    }
}

/// An absent checked sum stays absent when the sequence grows.
pub proof fn lemma_sum_none_absorbs(s: Seq<Rat>, i: int)
    requires
        0 <= i <= s.len(),
        sum_c(s.take(i)) is None,
    ensures
        sum_c(s) is None,
    decreases s.len() - i,
{
    if i == s.len() {
        assert(s.take(i) =~= s);
    } else {
        assert(s.take(i + 1).drop_last() =~= s.take(i));
        lemma_sum_none_absorbs(s, i + 1);
    }
}

/// Counts the null cells of a column.
pub fn nulls_of(values: &Vec<Option<Value>>) -> (c: usize)
    ensures
        c == count_nulls(values@),
        c <= values@.len(),
{
    let mut c: usize = 0;
    let mut i: usize = 0;
    while i < values.len()
        invariant
            i <= values@.len(),
            c == count_nulls(values@.take(i as int)),
            c <= i,
        decreases values@.len() - i,
    {
        proof {
            assert(values@.take(i + 1).drop_last() =~= values@.take(i as int));
        }
        if values[i].is_none() {
            c = c + 1;
        }
        i = i + 1;
    }
    proof {
        assert(values@.take(values@.len() as int) =~= values@);
    }
    c
}

/// Extracts the numeric readings of the non-null cells.
pub fn numeric_values(col: &Column) -> (v: Vec<Rat>)
    requires
        col.wf(),
    ensures
        v@ == nums_of(col.values@),
        all_wf(v@),
        v@.len() <= col.values@.len(),
{
    let mut v: Vec<Rat> = Vec::new();
    let mut i: usize = 0;
    let s = &col.values;
    while i < s.len()
        invariant
            i <= s@.len(),
            col.wf(),
            s == col.values,
            v@ == nums_of(s@.take(i as int)),
            all_wf(v@),
            v@.len() <= i,
        decreases s@.len() - i,
    {
        proof {
            assert(s@.take(i + 1).drop_last() =~= s@.take(i as int));
        }
        match &s[i] {
            Some(val) => {
                match val {
                    Value::Num(x) => {
                        v.push(*x);
                    },
                    Value::Bool(b) => {
                        v.push(Rat { num: if *b { 1 } else { 0 }, den: 1 });
                    },
                    Value::Text(_) => {},
                }
            },
            None => {},
        }
        i = i + 1;
    }
    proof {
        assert(s@.take(s@.len() as int) =~= s@);
    }
    v
}

/// Counts the zero values.
pub fn zeros_of(vals: &Vec<Rat>) -> (c: usize)
    ensures
        c == count_zeros(vals@),
        c <= vals@.len(),
{
    let mut c: usize = 0;
    let mut i: usize = 0;
    while i < vals.len()
        invariant
            i <= vals@.len(),
            c == count_zeros(vals@.take(i as int)),
            c <= i,
        decreases vals@.len() - i,
    {
        proof {
            assert(vals@.take(i + 1).drop_last() =~= vals@.take(i as int));
        }
        if vals[i].num == 0 {
            c = c + 1;
        }
        i = i + 1;
    }
    proof {
        assert(vals@.take(vals@.len() as int) =~= vals@);
    }
    c
}

/// Counts the strictly negative values.
pub fn negs_of(vals: &Vec<Rat>) -> (c: usize)
    ensures
        c == count_negs(vals@),
        c <= vals@.len(),
{
    let mut c: usize = 0;
    let mut i: usize = 0;
    while i < vals.len()
        invariant
            i <= vals@.len(),
            c == count_negs(vals@.take(i as int)),
            c <= i,
        decreases vals@.len() - i,
    {
        proof {
            assert(vals@.take(i + 1).drop_last() =~= vals@.take(i as int));
        }
        if vals[i].num < 0 {
            c = c + 1;
        }
        i = i + 1;
    }
    proof {
        assert(vals@.take(vals@.len() as int) =~= vals@);
    }
    c
}

/// Checked sum of the values.
pub fn sum_of(vals: &Vec<Rat>) -> (r: Option<Rat>)
    requires
        all_wf(vals@),
    ensures
        r == sum_c(vals@),
        r matches Some(v) ==> v.wf(),
{
    let mut acc = Rat { num: 0, den: 1 };
    let mut i: usize = 0;
    while i < vals.len()
        invariant
            i <= vals@.len(),
            all_wf(vals@),
            Some(acc) == sum_c(vals@.take(i as int)),
            acc.wf(),
        decreases vals@.len() - i,
    {
        proof {
            assert(vals@.take(i + 1).drop_last() =~= vals@.take(i as int));
        }
        match acc.checked_add(vals[i]) {
            Some(a) => {
                acc = a;
            },
            None => {
                proof {
                    lemma_sum_none_absorbs(vals@, i + 1);
                }
                return None;
            },
        }
        i = i + 1;
    }
    proof {
        assert(vals@.take(vals@.len() as int) =~= vals@);
    }
    Some(acc)
}

/// Checked mean of the values; absent for an empty sequence or when a
/// partial result cannot be represented.
pub fn mean_of(vals: &Vec<Rat>) -> (r: Option<Rat>)
    requires
        all_wf(vals@),
        vals@.len() <= NUM_MAX,
    ensures
        r == mean_c(vals@),
        r matches Some(v) ==> v.wf(),
{
    if vals.len() == 0 {
        return None;
    }
    match sum_of(vals) {
        Some(t) => t.checked_div(Rat { num: vals.len() as i64, den: 1 }),
        None => None,
    }
}

/// The first minimum of the sequence: the element at `i` is less than or
/// equal to every element and strictly less than every earlier element.
pub open spec fn first_min_at(s: Seq<Rat>, i: int) -> bool {
    &&& 0 <= i < s.len()
    &&& forall|j: int| 0 <= j < s.len() ==> s[i].spec_le(#[trigger] s[j])
    &&& forall|j: int| 0 <= j < i ==> s[i].spec_lt(#[trigger] s[j])
}

/// The first maximum of the sequence.
pub open spec fn first_max_at(s: Seq<Rat>, i: int) -> bool {
    &&& 0 <= i < s.len()
    &&& forall|j: int| 0 <= j < s.len() ==> (#[trigger] s[j]).spec_le(s[i])
    &&& forall|j: int| 0 <= j < i ==> (#[trigger] s[j]).spec_lt(s[i])
}

/// Ordering of rationals is transitive.
pub proof fn lemma_le_trans(a: Rat, b: Rat, c: Rat)
    requires
        a.wf(),
        b.wf(),
        c.wf(),
        a.spec_le(b),
        b.spec_le(c),
    ensures
        a.spec_le(c),
{
    assert(a.num * c.den <= c.num * a.den) by (nonlinear_arith)
        requires
            a.num * b.den <= b.num * a.den,
            b.num * c.den <= c.num * b.den,
            a.den >= 1,
            b.den >= 1,
            c.den >= 1,
    {}
}

/// A strict bound carries through a non-strict one.
pub proof fn lemma_lt_le_trans(a: Rat, b: Rat, c: Rat)
    requires
        a.wf(),
        b.wf(),
        c.wf(),
        a.spec_lt(b),
        b.spec_le(c),
    ensures
        a.spec_lt(c),
{
    assert(a.num * c.den < c.num * a.den) by (nonlinear_arith)
        requires
            a.num * b.den < b.num * a.den,
            b.num * c.den <= c.num * b.den,
            a.den >= 1,
            b.den >= 1,
            c.den >= 1,
    {}
}

/// A non-strict bound carries through a strict one.
pub proof fn lemma_le_lt_trans(a: Rat, b: Rat, c: Rat)
    requires
        a.wf(),
        b.wf(),
        c.wf(),
        a.spec_le(b),
        b.spec_lt(c),
    ensures
        a.spec_lt(c),
{
    assert(a.num * c.den < c.num * a.den) by (nonlinear_arith)
        requires
            a.num * b.den <= b.num * a.den,
            b.num * c.den < c.num * b.den,
            a.den >= 1,
            b.den >= 1,
            c.den >= 1,
    {}
}

/// The first minimum of the values; absent only for an empty sequence.
pub fn min_of(vals: &Vec<Rat>) -> (r: Option<Rat>)
    requires
        all_wf(vals@),
    ensures
        r is Some <==> vals@.len() > 0,
        r matches Some(m) ==> m.wf() && exists|i: int| first_min_at(vals@, i) && m == vals@[i],
{
    if vals.len() == 0 {
        return None;
    }
    let mut m = vals[0];
    let ghost mut mi: int = 0;
    let mut i: usize = 1;
    while i < vals.len()
        invariant
            1 <= i <= vals@.len(),
            all_wf(vals@),
            0 <= mi < i,
            m == vals@[mi],
            forall|j: int| 0 <= j < i ==> m.spec_le(#[trigger] vals@[j]),
            forall|j: int| 0 <= j < mi ==> m.spec_lt(#[trigger] vals@[j]),
        decreases vals@.len() - i,
    {
        if vals[i].lt(m) {
            proof {
                assert forall|j: int| 0 <= j < i implies vals@[i as int].spec_lt(
                    #[trigger] vals@[j],
                ) by {
                    lemma_lt_le_trans(vals@[i as int], m, vals@[j]);
                }
            }
            m = vals[i];
            proof {
                mi = i as int;
            }
        } else {
            proof {
                assert(m.spec_le(vals@[i as int]));
            }
        }
        i = i + 1;
    }
    assert(first_min_at(vals@, mi));
    Some(m)
}

/// The first maximum of the values; absent only for an empty sequence.
pub fn max_of(vals: &Vec<Rat>) -> (r: Option<Rat>)
    requires
        all_wf(vals@),
    ensures
        r is Some <==> vals@.len() > 0,
        r matches Some(m) ==> m.wf() && exists|i: int| first_max_at(vals@, i) && m == vals@[i],
{
    if vals.len() == 0 {
        return None;
    }
    let mut m = vals[0];
    let ghost mut mi: int = 0;
    let mut i: usize = 1;
    while i < vals.len()
        invariant
            1 <= i <= vals@.len(),
            all_wf(vals@),
            0 <= mi < i,
            m == vals@[mi],
            forall|j: int| 0 <= j < i ==> (#[trigger] vals@[j]).spec_le(m),
            forall|j: int| 0 <= j < mi ==> (#[trigger] vals@[j]).spec_lt(m),
        decreases vals@.len() - i,
    {
        if m.lt(vals[i]) {
            proof {
                assert forall|j: int| 0 <= j < i implies (#[trigger] vals@[j]).spec_lt(
                    vals@[i as int],
                ) by {
                    lemma_le_lt_trans(vals@[j], m, vals@[i as int]);
                }
            }
            m = vals[i];
            proof {
                mi = i as int;
            }
        }
        i = i + 1;
    }
    assert(first_max_at(vals@, mi));
    Some(m)
}

/// Whether some value is not an integer: whether the column holds
/// non-integral numeric values.
pub fn any_nonintegral_of(vals: &Vec<Rat>) -> (r: bool)
    requires
        all_wf(vals@),
    ensures
        r == any_nonintegral(vals@),
{
    let mut i: usize = 0;
    while i < vals.len()
        invariant
            i <= vals@.len(),
            all_wf(vals@),
            forall|j: int| 0 <= j < i ==> (#[trigger] vals@[j]).spec_is_integral(),
        decreases vals@.len() - i,
    {
        if !vals[i].is_integral() {
            return true;
        }
        i = i + 1;
    }
    false
}

/// Every present value of the sequence is well formed.
pub open spec fn cells_wf(s: Seq<Option<Value>>) -> bool {
    forall|i: int|
        0 <= i < s.len() ==> match #[trigger] s[i] {
            Some(w) => val_wf(w),
            None => true,
        }
}

/// The cell holds a value equal to `v`.
pub open spec fn cell_has(c: Option<Value>, v: Value) -> bool {
    match c {
        Some(w) => val_eq(w, v),
        None => false,
    }
}

/// Some cell of the sequence holds a value equal to `v`.
pub open spec fn occurs(s: Seq<Option<Value>>, v: Value) -> bool {
    exists|j: int| 0 <= j < s.len() && cell_has(#[trigger] s[j], v)
}

/// Number of distinct non-null values: cells whose value occurs at no
/// earlier position.
pub open spec fn distinct_count(s: Seq<Option<Value>>) -> nat
    decreases s.len(),
{
    if s.len() == 0 {
        0
    } else {
        distinct_count(s.drop_last()) + match s.last() {
            Some(v) => if !occurs(s.drop_last(), v) {
                1nat
            } else {
                0nat
            },
            None => 0nat,
        }
    }
}

/// Number of cells holding a value equal to `v`.
pub open spec fn count_val(s: Seq<Option<Value>>, v: Value) -> nat
    decreases s.len(),
{
    if s.len() == 0 {
        0
    } else {
        count_val(s.drop_last(), v) + if cell_has(s.last(), v) {
            1nat
        } else {
            0nat
        }
    }
}

/// The occurrence count of a cell's value; zero for a null cell.
pub open spec fn cell_count(s: Seq<Option<Value>>, c: Option<Value>) -> nat {
    match c {
        Some(v) => count_val(s, v),
        None => 0,
    }
}

/// Every value equals itself.
pub proof fn lemma_val_eq_refl(v: Value)
    ensures
        val_eq(v, v),
{
    match v {
        Value::Num(x) => {},
        Value::Bool(b) => {},
        Value::Text(t) => {},
    }
}

/// A count over a prefix never exceeds the count over the whole.
pub proof fn lemma_count_val_mono(s: Seq<Option<Value>>, i: int, v: Value)
    requires
        0 <= i <= s.len(),
    ensures
        count_val(s.take(i), v) <= count_val(s, v),
    decreases s.len() - i,
{
    if i == s.len() {
        assert(s.take(i) =~= s);
    } else {
        assert(s.take(i + 1).drop_last() =~= s.take(i));
        lemma_count_val_mono(s, i + 1, v);
    }
}

/// Whether a value equal to `v` occurs among the first `upto` cells.
fn occurs_before(values: &Vec<Option<Value>>, upto: usize, v: &Value) -> (r: bool)
    requires
        upto <= values@.len(),
        cells_wf(values@),
        val_wf(*v),
    ensures
        r == occurs(values@.take(upto as int), *v),
{
    let mut j: usize = 0;
    while j < upto
        invariant
            j <= upto <= values@.len(),
            cells_wf(values@),
            val_wf(*v),
            forall|t: int| 0 <= t < j ==> !cell_has(#[trigger] values@[t], *v),
        decreases upto - j,
    {
        match &values[j] {
            Some(w) => {
                if value_eq(w, v) {
                    proof {
                        assert(values@.take(upto as int)[j as int] == values@[j as int]);
                        assert(cell_has(values@.take(upto as int)[j as int], *v));
                    }
                    return true;
                }
            },
            None => {},
        }
        j = j + 1;
    }
    proof {
        assert forall|t: int| 0 <= t < upto implies !cell_has(
            #[trigger] values@.take(upto as int)[t],
            *v,
        ) by {
            assert(values@.take(upto as int)[t] == values@[t]);
        }
    }
    false
}

/// Counts the distinct non-null values.
pub fn distinct_of(values: &Vec<Option<Value>>) -> (c: usize)
    requires
        cells_wf(values@),
    ensures
        c == distinct_count(values@),
        c <= values@.len(),
{
    let mut c: usize = 0;
    let mut i: usize = 0;
    while i < values.len()
        invariant
            i <= values@.len(),
            cells_wf(values@),
            c == distinct_count(values@.take(i as int)),
            c <= i,
        decreases values@.len() - i,
    {
        proof {
            assert(values@.take(i + 1).drop_last() =~= values@.take(i as int));
        }
        match &values[i] {
            Some(v) => {
                let dup = occurs_before(values, i, v);
                if !dup {
                    c = c + 1;
                }
            },
            None => {},
        }
        i = i + 1;
    }
    proof {
        assert(values@.take(values@.len() as int) =~= values@);
    }
    c
}

/// Counts the cells holding a value equal to `v`.
fn count_value(values: &Vec<Option<Value>>, v: &Value) -> (c: usize)
    requires
        cells_wf(values@),
        val_wf(*v),
    ensures
        c == count_val(values@, *v),
        c <= values@.len(),
{
    let mut c: usize = 0;
    let mut j: usize = 0;
    while j < values.len()
        invariant
            j <= values@.len(),
            cells_wf(values@),
            val_wf(*v),
            c == count_val(values@.take(j as int), *v),
            c <= j,
        decreases values@.len() - j,
    {
        proof {
            assert(values@.take(j + 1).drop_last() =~= values@.take(j as int));
        }
        let hit = match &values[j] {
            Some(w) => value_eq(w, v),
            None => false,
        };
        if hit {
            c = c + 1;
        }
        j = j + 1;
    }
    proof {
        assert(values@.take(values@.len() as int) =~= values@);
    }
    c
}

/// The modal value: the index of the first cell whose value is at least as
/// frequent as every value in the column, with its occurrence count.
/// Absent exactly when every cell is null.
pub fn mode_of(values: &Vec<Option<Value>>) -> (r: Option<(usize, usize)>)
    requires
        cells_wf(values@),
    ensures
        r is None <==> (forall|j: int| 0 <= j < values@.len() ==> (#[trigger] values@[j]) is None),
        r matches Some((bi, bc)) ==> {
            &&& bi < values@.len()
            &&& bc <= values@.len()
            &&& values@[bi as int] is Some
            &&& bc == cell_count(values@, values@[bi as int])
            &&& bc >= 1
            &&& forall|j: int|
                0 <= j < values@.len() ==> cell_count(values@, #[trigger] values@[j]) <= bc
            &&& forall|j: int|
                0 <= j < bi ==> (#[trigger] values@[j]) is None || cell_count(
                    values@,
                    values@[j],
                ) < bc
        },
{
    let mut bi: usize = 0;
    let mut bc: usize = 0;
    let mut i: usize = 0;
    while i < values.len()
        invariant
            i <= values@.len(),
            cells_wf(values@),
            bc <= values@.len(),
            bc == 0 ==> forall|j: int| 0 <= j < i ==> (#[trigger] values@[j]) is None,
            bc > 0 ==> bi < i && values@[bi as int] is Some && bc == cell_count(
                values@,
                values@[bi as int],
            ),
            forall|j: int| 0 <= j < i ==> cell_count(values@, #[trigger] values@[j]) <= bc,
            bc > 0 ==> forall|j: int|
                0 <= j < bi ==> (#[trigger] values@[j]) is None || cell_count(
                    values@,
                    values@[j],
                ) < bc,
        decreases values@.len() - i,
    {
        match &values[i] {
            Some(v) => {
                let c = count_value(values, v);
                proof {
                    lemma_val_eq_refl(*v);
                    assert(cell_has(values@[i as int], *v));
                    lemma_count_val_mono(values@, i + 1, *v);
                    assert(values@.take(i + 1).drop_last() =~= values@.take(i as int));
                    assert(count_val(values@.take(i + 1), *v) >= 1);
                    assert(c >= 1);
                }
                if c > bc {
                    bi = i;
                    bc = c;
                }
            },
            None => {},
        }
        i = i + 1;
    }
    if bc == 0 {
        None
    } else {
        Some((bi, bc))
    }
}

} // verus!

