use vstd::prelude::*;
use crate::rat::Rat;
use crate::dataset::{Value, num_view, val_wf, value_eq};
use crate::stats::{cells_wf, cell_has, occurs, lemma_lt_le_trans, lemma_le_lt_trans};

verus! {

/// Every row whose key cell holds a value equal to `v` is null in `col`:
/// the partition keyed by `v` is missing for that column.
pub open spec fn partition_missing(
    key: Seq<Option<Value>>,
    col: Seq<Option<Value>>,
    v: Value,
) -> bool {
    forall|r: int| 0 <= r < key.len() && cell_has(#[trigger] key[r], v) ==> col[r] is None
}

/// Position `i` holds the first occurrence of a partition key whose
/// partition is missing for `col`.
pub open spec fn is_missing_first(
    key: Seq<Option<Value>>,
    col: Seq<Option<Value>>,
    i: int,
) -> bool {
    match key[i] {
        Some(v) => !occurs(key.take(i), v) && partition_missing(key, col, v),
        None => false,
    }
}

/// The numeric reading of the key at `i` when `i` is the first occurrence
/// of a missing partition's key; nothing otherwise.
pub open spec fn missing_key_num(
    key: Seq<Option<Value>>,
    col: Seq<Option<Value>>,
    i: int,
) -> Option<Rat> {
    match key[i] {
        Some(v) => if !occurs(key.take(i), v) && partition_missing(key, col, v) {
            num_view(v)
        } else {
            None
        },
        None => None,
    }
}

/// Position `i` keys a missing partition but has no numeric reading.
pub open spec fn missing_key_nonnum(
    key: Seq<Option<Value>>,
    col: Seq<Option<Value>>,
    i: int,
) -> bool {
    is_missing_first(key, col, i) && missing_key_num(key, col, i) is None
}

/// Number of missing partitions among the first `upto` rows' keys.
pub open spec fn missing_parts_count(
    key: Seq<Option<Value>>,
    col: Seq<Option<Value>>,
    upto: int,
) -> nat
    decreases upto,
{
    if upto <= 0 {
        0
    } else {
        missing_parts_count(key, col, upto - 1) + if is_missing_first(key, col, upto - 1) {
            1nat
        } else {
            0nat
        }
    }
}

/// A positive missing-partition count names at least one missing
/// partition.
proof fn lemma_count_pos_exists(key: Seq<Option<Value>>, col: Seq<Option<Value>>, upto: int)
    requires
        missing_parts_count(key, col, upto) > 0,
    ensures
        exists|j: int| 0 <= j < upto && #[trigger] is_missing_first(key, col, j),
    decreases upto,
{
    if upto > 0 {
        if is_missing_first(key, col, upto - 1) {
        } else {
            lemma_count_pos_exists(key, col, upto - 1);
        }
    }
}

/// Whether every row of the partition keyed by `v` is null in `col`.
fn partition_all_null(key: &Vec<Option<Value>>, col: &Vec<Option<Value>>, v: &Value) -> (r: bool)
    requires
        cells_wf(key@),
        val_wf(*v),
        key@.len() == col@.len(),
    ensures
        r == partition_missing(key@, col@, *v),
{
    let mut t: usize = 0;
    while t < key.len()
        invariant
            t <= key@.len() == col@.len(),
            cells_wf(key@),
            val_wf(*v),
            forall|r: int| 0 <= r < t && cell_has(#[trigger] key@[r], *v) ==> col@[r] is None,
        decreases key@.len() - t,
    {
        let hit = match &key[t] {
            Some(w) => value_eq(w, v),
            None => false,
        };
        if hit {
            if col[t].is_some() {
                proof {
                    assert(cell_has(key@[t as int], *v));
                }
                return false;
            }
        }
        t = t + 1;
    }
    true
}

/// Whether a value equal to `v` occurs among the first `upto` key cells.
fn key_occurs_before(key: &Vec<Option<Value>>, upto: usize, v: &Value) -> (r: bool)
    requires
        upto <= key@.len(),
        cells_wf(key@),
        val_wf(*v),
    ensures
        r == occurs(key@.take(upto as int), *v),
{
    let mut j: usize = 0;
    while j < upto
        invariant
            j <= upto <= key@.len(),
            cells_wf(key@),
            val_wf(*v),
            forall|t: int| 0 <= t < j ==> !cell_has(#[trigger] key@[t], *v),
        decreases upto - j,
    {
        let hit = match &key[j] {
            Some(w) => value_eq(w, v),
            None => false,
        };
        if hit {
            proof {
                assert(key@.take(upto as int)[j as int] == key@[j as int]);
                assert(cell_has(key@.take(upto as int)[j as int], *v));
            }
            return true;
        }
        j = j + 1;
    }
    proof {
        assert forall|t: int| 0 <= t < upto implies !cell_has(
            #[trigger] key@.take(upto as int)[t],
            *v,
        ) by {
            assert(key@.take(upto as int)[t] == key@[t]);
        }
    }
    false
}

/// The missing-partition statistics of one column against the key column:
/// the number of partitions that are entirely null for the column, and the
/// least and greatest numeric key among them.  The extremes are absent when
/// there is no missing partition or some missing partition's key has no
/// numeric reading.
pub fn missing_partition_stats(key: &Vec<Option<Value>>, col: &Vec<Option<Value>>) -> (r: (
    usize,
    Option<Rat>,
    Option<Rat>,
))
    requires
        cells_wf(key@),
        key@.len() == col@.len(),
    ensures
        r.0 == missing_parts_count(key@, col@, key@.len() as int),
        r.0 <= key@.len(),
        r.1 matches Some(m) ==> m.wf() && (exists|j: int|
            0 <= j < key@.len() && #[trigger] missing_key_num(key@, col@, j) == Some(m)) && (
        forall|j: int|
            0 <= j < key@.len() ==> match #[trigger] missing_key_num(key@, col@, j) {
                Some(x) => m.spec_le(x),
                None => true,
            }),
        r.2 matches Some(m) ==> m.wf() && (exists|j: int|
            0 <= j < key@.len() && #[trigger] missing_key_num(key@, col@, j) == Some(m)) && (
        forall|j: int|
            0 <= j < key@.len() ==> match #[trigger] missing_key_num(key@, col@, j) {
                Some(x) => x.spec_le(m),
                None => true,
            }),
        (r.1 is None) == (r.0 == 0 || exists|j: int|
            0 <= j < key@.len() && #[trigger] missing_key_nonnum(key@, col@, j)),
        (r.2 is None) == (r.1 is None),
{
    let mut cnt: usize = 0;
    let mut minv: Option<Rat> = None;
    let mut maxv: Option<Rat> = None;
    let mut nonnum: bool = false;
    let mut i: usize = 0;
    while i < key.len()
        invariant
            i <= key@.len() == col@.len(),
            cells_wf(key@),
            cnt == missing_parts_count(key@, col@, i as int),
            cnt <= i,
            nonnum == exists|j: int|
                0 <= j < i && #[trigger] missing_key_nonnum(key@, col@, j),
            minv matches Some(m) ==> m.wf() && (exists|j: int|
                0 <= j < i && #[trigger] missing_key_num(key@, col@, j) == Some(m)) && (forall|
                j: int,
            |
                0 <= j < i ==> match #[trigger] missing_key_num(key@, col@, j) {
                    Some(x) => m.spec_le(x),
                    None => true,
                }),
            maxv matches Some(m) ==> m.wf() && (exists|j: int|
                0 <= j < i && #[trigger] missing_key_num(key@, col@, j) == Some(m)) && (forall|
                j: int,
            |
                0 <= j < i ==> match #[trigger] missing_key_num(key@, col@, j) {
                    Some(x) => x.spec_le(m),
                    None => true,
                }),
            minv is None ==> forall|j: int|
                0 <= j < i ==> #[trigger] missing_key_num(key@, col@, j) is None,
            (maxv is None) == (minv is None),
            minv is Some ==> cnt >= 1,
        decreases key@.len() - i,
    {
        let step_missing_first: bool = match &key[i] {
            Some(v) => {
                if key_occurs_before(key, i, v) {
                    false
                } else {
                    partition_all_null(key, col, v)
                }
            },
            None => false,
        };
        let nv: Option<Rat> = match &key[i] {
            Some(v) => {
                match v {
                    Value::Num(x) => Some(*x),
                    Value::Bool(b) => Some(Rat { num: if *b { 1 } else { 0 }, den: 1 }),
                    Value::Text(_) => None,
                }
            },
            None => None,
        };
        proof {
            assert(step_missing_first == is_missing_first(key@, col@, i as int));
            assert(missing_key_num(key@, col@, i as int) == if is_missing_first(
                key@,
                col@,
                i as int,
            ) {
                nv
            } else {
                None::<Rat>
            });
            assert(missing_key_nonnum(key@, col@, i as int) == (is_missing_first(
                key@,
                col@,
                i as int,
            ) && nv is None));
        }
        if step_missing_first {
            cnt = cnt + 1;
            match nv {
                Some(x) => {
                    proof {
                        assert(missing_key_num(key@, col@, i as int) == Some(x));
                        assert(val_wf(key@[i as int].unwrap()));
                    }
                    minv = match minv {
                        Some(m) => if x.lt(m) {
                            proof {
                                assert forall|j: int| 0 <= j < i + 1 implies match #[trigger] missing_key_num(
                                    key@,
                                    col@,
                                    j,
                                ) {
                                    Some(y) => x.spec_le(y),
                                    None => true,
                                } by {
                                    if j < i {
                                        match missing_key_num(key@, col@, j) {
                                            Some(y) => {
                                                lemma_lt_le_trans(x, m, y);
                                            },
                                            None => {},
                                        }
                                    }
                                }
                            }
                            Some(x)
                        } else {
                            Some(m)
                        },
                        None => Some(x),
                    };
                    maxv = match maxv {
                        Some(m) => if m.lt(x) {
                            proof {
                                assert forall|j: int| 0 <= j < i + 1 implies match #[trigger] missing_key_num(
                                    key@,
                                    col@,
                                    j,
                                ) {
                                    Some(y) => y.spec_le(x),
                                    None => true,
                                } by {
                                    if j < i {
                                        match missing_key_num(key@, col@, j) {
                                            Some(y) => {
                                                lemma_le_lt_trans(y, m, x);
                                            },
                                            None => {},
                                        }
                                    }
                                }
                            }
                            Some(x)
                        } else {
                            Some(m)
                        },
                        None => Some(x),
                    };
                },
                None => {
                    nonnum = true;
                },
            }
        }
        i = i + 1;
    }
    if nonnum || cnt == 0 {
        (cnt, None, None)
    } else {
        proof {
            if minv is None {
                lemma_count_pos_exists(key@, col@, key@.len() as int);
                let j = choose|j: int|
                    0 <= j < key@.len() && #[trigger] is_missing_first(key@, col@, j);
                assert(missing_key_num(key@, col@, j) is None);
                assert(missing_key_nonnum(key@, col@, j));
            }
        }
        (cnt, minv, maxv)
    }
}

} // verus!
