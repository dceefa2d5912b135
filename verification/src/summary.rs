use vstd::prelude::*;
use vstd::string::StringExecFns;
use crate::rat::{Rat, div_c, NUM_MAX};
use crate::dataset::{Column, DType, Dataset, Value, cell_ok, val_sim, num_view};
use crate::stats::{
    all_wf, any_nonintegral, any_nonintegral_of, cell_count, cells_wf, count_negs, count_nulls,
    count_zeros, distinct_count, distinct_of, first_max_at, first_min_at, max_of, mean_c, mean_of,
    min_of, mode_of, negs_of, nulls_of, numeric_values, nums_of, sum_c, sum_of, zeros_of,
};
use crate::sortq::{quantile_c, quantile_of, sort_spec, sort_rats, lemma_sort_len};
use crate::skew::{skew_c, skew_of};
use crate::missing::{missing_key_num, missing_key_nonnum, missing_parts_count,
    missing_partition_stats};

verus! {

/// One row of the summary table: the fixed set of statistics of one source
/// column.  A `None` field is an absent statistic: one that could not be
/// computed for this column, never to be read as zero.
pub struct SummaryRow {
    pub name: String,
    pub dtype: String,
    pub count: Rat,
    pub n_unique: Rat,
    pub perc_missing: Option<Rat>,
    pub perc_zeros: Option<Rat>,
    pub num_zeros: Option<Rat>,
    pub num_negative: Option<Rat>,
    pub perc_negative: Option<Rat>,
    pub perc_distinct: Option<Rat>,
    pub val_most_freq: Option<Value>,
    pub perc_most_freq: Option<Rat>,
    pub min_val: Option<Rat>,
    pub p05: Option<Rat>,
    pub p25: Option<Rat>,
    pub median: Option<Rat>,
    pub p75: Option<Rat>,
    pub p95: Option<Rat>,
    pub mean: Option<Rat>,
    pub max_val: Option<Rat>,
    pub skew: Option<Rat>,
    pub decimal_col: Option<bool>,
    pub num_missing_partitions: Option<Rat>,
    pub min_missing_partition: Option<Rat>,
    pub max_missing_partition: Option<Rat>,
}

/// The rendered tag of a column type.
pub open spec fn dtype_name(dt: DType) -> Seq<char> {
    match dt {
        DType::Numeric => "numeric"@,
        DType::Boolean => "boolean"@,
        DType::Text => "object"@,
    }
}

/// The rational holding a whole number.
pub open spec fn int_rat(n: int) -> Rat {
    Rat { num: n as i64, den: 1 }
}

/// Position `bi` holds a first-encountered modal value of the column.
pub open spec fn mode_at(s: Seq<Option<Value>>, bi: int) -> bool {
    &&& 0 <= bi < s.len()
    &&& s[bi] is Some
    &&& forall|j: int| 0 <= j < s.len() ==> cell_count(s, #[trigger] s[j]) <= cell_count(s, s[bi])
    &&& forall|j: int|
        0 <= j < bi ==> (#[trigger] s[j]) is None || cell_count(s, s[j]) < cell_count(s, s[bi])
}

/// The modal-value fields of a row are those of the column: absent exactly
/// for an all-null column, otherwise a copy of the first modal value with
/// its share of the non-null cells.
pub open spec fn mode_fields_ok(s: Seq<Option<Value>>, vmf: Option<Value>, pmf: Option<Rat>) -> bool {
    match vmf {
        None => (forall|j: int| 0 <= j < s.len() ==> (#[trigger] s[j]) is None) && pmf is None,
        Some(v) => exists|bi: int|
            #[trigger] mode_at(s, bi) && val_sim(s[bi]->Some_0, v) && pmf == div_c(
                int_rat(cell_count(s, s[bi]) as int),
                int_rat(s.len() - count_nulls(s)),
            ),
    }
}

/// The minimum field is the first minimum of the numeric readings, absent
/// exactly when there are none.
pub open spec fn min_field_ok(nums: Seq<Rat>, f: Option<Rat>) -> bool {
    match f {
        None => nums.len() == 0,
        Some(m) => m.wf() && exists|i: int| #[trigger] first_min_at(nums, i) && m == nums[i],
    }
}

/// The maximum field is the first maximum of the numeric readings, absent
/// exactly when there are none.
pub open spec fn max_field_ok(nums: Seq<Rat>, f: Option<Rat>) -> bool {
    match f {
        None => nums.len() == 0,
        Some(m) => m.wf() && exists|i: int| #[trigger] first_max_at(nums, i) && m == nums[i],
    }
}

/// A percentile field: absent for no numeric readings, else the checked
/// linear interpolation over the sorted readings.
pub open spec fn quantile_field_ok(nums: Seq<Rat>, pct: nat, f: Option<Rat>) -> bool {
    if nums.len() == 0 {
        f is None
    } else {
        f == quantile_c(sort_spec(nums), pct)
    }
}

/// The missing-partition fields of a row against an optional key column.
pub open spec fn missing_fields_ok(
    key: Option<Seq<Option<Value>>>,
    col: Seq<Option<Value>>,
    row: SummaryRow,
) -> bool {
    match key {
        None => row.num_missing_partitions is None && row.min_missing_partition is None
            && row.max_missing_partition is None,
        Some(k) => {
            &&& row.num_missing_partitions == Some(
                int_rat(missing_parts_count(k, col, k.len() as int) as int),
            )
            &&& (row.min_missing_partition matches Some(m) ==> m.wf() && (exists|j: int|
                0 <= j < k.len() && #[trigger] missing_key_num(k, col, j) == Some(m)) && (forall|
                j: int,
            |
                0 <= j < k.len() ==> match #[trigger] missing_key_num(k, col, j) {
                    Some(x) => m.spec_le(x),
                    None => true,
                }))
            &&& (row.max_missing_partition matches Some(m) ==> m.wf() && (exists|j: int|
                0 <= j < k.len() && #[trigger] missing_key_num(k, col, j) == Some(m)) && (forall|
                j: int,
            |
                0 <= j < k.len() ==> match #[trigger] missing_key_num(k, col, j) {
                    Some(x) => x.spec_le(m),
                    None => true,
                }))
            &&& (row.min_missing_partition is None) == (missing_parts_count(k, col, k.len() as int)
                == 0 || exists|j: int|
                0 <= j < k.len() && #[trigger] missing_key_nonnum(k, col, j))
            &&& (row.max_missing_partition is None) == (row.min_missing_partition is None)
        },
    }
}

/// The full specification of one summary row against its source column
/// (and the optional missing-by key column).
pub open spec fn row_matches(
    row: SummaryRow,
    name: Seq<char>,
    s: Seq<Option<Value>>,
    dt: DType,
    key: Option<Seq<Option<Value>>>,
) -> bool {
    let nums = nums_of(s);
    let nonnull = s.len() - count_nulls(s);
    &&& row.name@ == name
    &&& row.dtype@ == dtype_name(dt)
    &&& row.count == int_rat(nonnull)
    &&& row.n_unique == int_rat(distinct_count(s) as int)
    &&& row.perc_missing == (if s.len() == 0 {
        None::<Rat>
    } else {
        div_c(int_rat(count_nulls(s) as int), int_rat(s.len() as int))
    })
    &&& row.num_zeros == (if dt is Text {
        None::<Rat>
    } else {
        Some(int_rat(count_zeros(nums) as int))
    })
    &&& row.num_negative == (if dt is Text {
        None::<Rat>
    } else {
        Some(int_rat(count_negs(nums) as int))
    })
    &&& row.perc_zeros == (if dt is Text {
        None::<Rat>
    } else {
        div_c(int_rat(count_zeros(nums) as int), int_rat(nums.len() as int))
    })
    &&& row.perc_negative == (if dt is Text {
        None::<Rat>
    } else {
        div_c(int_rat(count_negs(nums) as int), int_rat(nums.len() as int))
    })
    &&& row.perc_distinct == div_c(int_rat(distinct_count(s) as int), int_rat(nonnull))
    &&& mode_fields_ok(s, row.val_most_freq, row.perc_most_freq)
    &&& min_field_ok(nums, row.min_val)
    &&& max_field_ok(nums, row.max_val)
    &&& quantile_field_ok(nums, 5, row.p05)
    &&& quantile_field_ok(nums, 25, row.p25)
    &&& quantile_field_ok(nums, 50, row.median)
    &&& quantile_field_ok(nums, 75, row.p75)
    &&& quantile_field_ok(nums, 95, row.p95)
    &&& row.mean == mean_c(nums)
    &&& row.skew == skew_c(nums)
    &&& row.decimal_col == (if dt is Text {
        None::<bool>
    } else {
        Some(any_nonintegral(nums))
    })
    &&& missing_fields_ok(key, s, row)
    &&& row.row_wf()
}

impl SummaryRow {
    /// Every held rational is well formed.
    pub open spec fn row_wf(self) -> bool {
        &&& self.count.wf()
        &&& self.n_unique.wf()
        &&& (self.perc_missing matches Some(x) ==> x.wf())
        &&& (self.perc_zeros matches Some(x) ==> x.wf())
        &&& (self.num_zeros matches Some(x) ==> x.wf())
        &&& (self.num_negative matches Some(x) ==> x.wf())
        &&& (self.perc_negative matches Some(x) ==> x.wf())
        &&& (self.perc_distinct matches Some(x) ==> x.wf())
        &&& (self.perc_most_freq matches Some(x) ==> x.wf())
        &&& (self.val_most_freq matches Some(v) ==> crate::dataset::val_wf(v))
        &&& (self.min_val matches Some(x) ==> x.wf())
        &&& (self.p05 matches Some(x) ==> x.wf())
        &&& (self.p25 matches Some(x) ==> x.wf())
        &&& (self.median matches Some(x) ==> x.wf())
        &&& (self.p75 matches Some(x) ==> x.wf())
        &&& (self.p95 matches Some(x) ==> x.wf())
        &&& (self.mean matches Some(x) ==> x.wf())
        &&& (self.max_val matches Some(x) ==> x.wf())
        &&& (self.skew matches Some(x) ==> x.wf())
        &&& (self.num_missing_partitions matches Some(x) ==> x.wf())
        &&& (self.min_missing_partition matches Some(x) ==> x.wf())
        &&& (self.max_missing_partition matches Some(x) ==> x.wf())
    }
}

/// The derived table: one row per source column, in source column order.
pub struct SummaryTable {
    pub rows: Vec<SummaryRow>,
}

/// The whole summary table matches the dataset: one row per column, in
/// order, each meeting `row_matches` against its column and the key column
/// chosen by `missing_by` (none when no column bears that name).
pub open spec fn table_matches(ds: Dataset, missing_by: Seq<char>, t: SummaryTable) -> bool {
    &&& t.rows@.len() == ds.cols@.len()
    &&& forall|c: int|
        0 <= c < ds.cols@.len() ==> row_matches(
            #[trigger] t.rows@[c],
            ds.cols@[c].name@,
            ds.cols@[c].values@,
            ds.cols@[c].dtype,
            spec_key_of(ds, missing_by),
        )
}

/// The values of the column named `missing_by`, if one exists (the first
/// such column).
pub open spec fn spec_key_of(ds: Dataset, missing_by: Seq<char>) -> Option<Seq<Option<Value>>> {
    if exists|k: int| 0 <= k < ds.cols@.len() && (#[trigger] ds.cols@[k]).name@ == missing_by {
        let k = choose|k: int|
            0 <= k < ds.cols@.len() && (#[trigger] ds.cols@[k]).name@ == missing_by && forall|
                j: int,
            | 0 <= j < k ==> (#[trigger] ds.cols@[j]).name@ != missing_by;
        Some(ds.cols@[k].values@)
    } else {
        None
    }
}

/// The tag string of a column type.
fn dtype_tag(dt: DType) -> (s: String)
    ensures
        s@ == dtype_name(dt),
{
    match dt {
        DType::Numeric => String::from_str("numeric"),
        DType::Boolean => String::from_str("boolean"),
        DType::Text => String::from_str("object"),
    }
}

/// The modal-value fields of a column.
fn mode_fields(values: &Vec<Option<Value>>, count_rat: Rat) -> (r: (Option<Value>, Option<Rat>))
    requires
        cells_wf(values@),
        values@.len() <= NUM_MAX,
        count_rat.wf(),
        count_rat == int_rat(values@.len() - count_nulls(values@)),
    ensures
        mode_fields_ok(values@, r.0, r.1),
        r.0 matches Some(v) ==> crate::dataset::val_wf(v),
        r.1 matches Some(x) ==> x.wf(),
{
    match mode_of(values) {
        Some((bi, bc)) => {
            let v = match &values[bi] {
                Some(v) => v.clone(),
                None => {
                    proof {
                        assert(false);
                    }
                    Value::Bool(false)
                },
            };
            let share = Rat::from_int(bc as i64).checked_div(count_rat);
            proof {
                assert(mode_at(values@, bi as int));
                match values@[bi as int] {
                    Some(w) => {
                        crate::dataset::lemma_sim_val_wf(w, v);
                    },
                    None => {},
                }
            }
            (Some(v), share)
        },
        None => (None, None),
    }
}

/// The five percentile fields of a column's numeric readings.
fn quantile_fields(nums: &Vec<Rat>) -> (r: (
    Option<Rat>,
    Option<Rat>,
    Option<Rat>,
    Option<Rat>,
    Option<Rat>,
))
    requires
        all_wf(nums@),
        nums@.len() <= NUM_MAX,
    ensures
        quantile_field_ok(nums@, 5, r.0),
        quantile_field_ok(nums@, 25, r.1),
        quantile_field_ok(nums@, 50, r.2),
        quantile_field_ok(nums@, 75, r.3),
        quantile_field_ok(nums@, 95, r.4),
        r.0 matches Some(x) ==> x.wf(),
        r.1 matches Some(x) ==> x.wf(),
        r.2 matches Some(x) ==> x.wf(),
        r.3 matches Some(x) ==> x.wf(),
        r.4 matches Some(x) ==> x.wf(),
{
    let sorted = sort_rats(nums);
    if sorted.len() == 0 {
        proof {
            assert(nums@.len() == 0) by {
                if nums@.len() > 0 {
                    assert(sort_spec(nums@).len() > 0) by {
                        lemma_sort_len(nums@);
                    }
                }
            }
        }
        (None, None, None, None, None)
    } else {
        proof {
            lemma_sort_len(nums@);
        }
        (
            quantile_of(&sorted, 5),
            quantile_of(&sorted, 25),
            quantile_of(&sorted, 50),
            quantile_of(&sorted, 75),
            quantile_of(&sorted, 95),
        )
    }
}

/// Summarizes one column.
#[verifier::rlimit(100)]
fn summarize_column(col: &Column, key: Option<&Vec<Option<Value>>>) -> (row: SummaryRow)
    requires
        col.wf(),
        key matches Some(k) ==> cells_wf(k@) && k@.len() == col.values@.len(),
    ensures
        row_matches(
            row,
            col.name@,
            col.values@,
            col.dtype,
            match key {
                Some(k) => Some(k@),
                None => None,
            },
        ),
{
    proof {
        assert(cells_wf(col.values@)) by {
            assert forall|i: int| 0 <= i < col.values@.len() implies match #[trigger] col.values@[i] {
                Some(w) => crate::dataset::val_wf(w),
                None => true,
            } by {
                assert(cell_ok(col.values@[i], col.dtype));
            }
        }
    }
    let h = col.values.len();
    let nulls = nulls_of(&col.values);
    let nonnull = h - nulls;
    let nums = numeric_values(col);
    let is_text = match col.dtype {
        DType::Text => true,
        _ => false,
    };
    let zeros = zeros_of(&nums);
    let negs = negs_of(&nums);
    let distinct = distinct_of(&col.values);
    let count_rat = Rat::from_int(nonnull as i64);
    let n_unique_rat = Rat::from_int(distinct as i64);
    let perc_missing = if h == 0 {
        None
    } else {
        Rat::from_int(nulls as i64).checked_div(Rat::from_int(h as i64))
    };
    let zeros_rat = Rat::from_int(zeros as i64);
    let negs_rat = Rat::from_int(negs as i64);
    let nums_len_rat = Rat::from_int(nums.len() as i64);
    let num_zeros = if is_text {
        None
    } else {
        Some(zeros_rat)
    };
    let num_negative = if is_text {
        None
    } else {
        Some(negs_rat)
    };
    let perc_zeros = if is_text {
        None
    } else {
        zeros_rat.checked_div(nums_len_rat)
    };
    let perc_negative = if is_text {
        None
    } else {
        negs_rat.checked_div(nums_len_rat)
    };
    let perc_distinct = n_unique_rat.checked_div(count_rat);
    let (val_most_freq, perc_most_freq) = mode_fields(&col.values, count_rat);
    let min_val = min_of(&nums);
    let max_val = max_of(&nums);
    let (p05, p25, median, p75, p95) = quantile_fields(&nums);
    let mean = mean_of(&nums);
    let skew = skew_of(&nums);
    let decimal_col = if is_text {
        None
    } else {
        Some(any_nonintegral_of(&nums))
    };
    let (num_missing_partitions, min_missing_partition, max_missing_partition) = match key {
        Some(k) => {
            let (cnt, mn, mx) = missing_partition_stats(k, &col.values);
            (Some(Rat::from_int(cnt as i64)), mn, mx)
        },
        None => (None, None, None),
    };
    proof {
        if key matches Some(k) {
            assert(num_missing_partitions matches Some(x) ==> x.wf());
        }
    }
    SummaryRow {
        name: col.name.clone(),
        dtype: dtype_tag(col.dtype),
        count: count_rat,
        n_unique: n_unique_rat,
        perc_missing,
        perc_zeros,
        num_zeros,
        num_negative,
        perc_negative,
        perc_distinct,
        val_most_freq,
        perc_most_freq,
        min_val,
        p05,
        p25,
        median,
        p75,
        p95,
        mean,
        max_val,
        skew,
        decimal_col,
        num_missing_partitions,
        min_missing_partition,
        max_missing_partition,
    }
}

/// Builders of the summary table.
pub trait Summary {
    /// The summary is correct for this input and key-column name.
    spec fn summary_ok(&self, missing_by: Seq<char>, t: SummaryTable) -> bool;

    /// Whether this input admits summarization.
    spec fn summary_wf(&self) -> bool;

    /// Reduces the input to its summary table: one row per column, one
    /// field per statistic, grouped for missing partitions by the column
    /// named `missing_by` when it exists.  Row order and the leading name
    /// field follow the source columns exactly
    /// (`crate::laws::lemma_row_correspondence`), and every row's missing
    /// fraction is bounded (`crate::laws::lemma_table_perc_missing_bounds`).
    fn summarize(&self, missing_by: String) -> (t: SummaryTable)
        requires
            self.summary_wf(),
        ensures
            self.summary_ok(missing_by@, t),
    ;
}

impl Summary for Dataset {
    open spec fn summary_ok(&self, missing_by: Seq<char>, t: SummaryTable) -> bool {
        table_matches(*self, missing_by, t)
    }

    open spec fn summary_wf(&self) -> bool {
        self.wf()
    }

    #[verifier::rlimit(100)]
    fn summarize(&self, missing_by: String) -> (t: SummaryTable) {
        let mut key_idx: Option<usize> = None;
        let mut k: usize = 0;
        while k < self.cols.len()
            invariant
                k <= self.cols@.len(),
                key_idx is None ==> forall|j: int|
                    0 <= j < k ==> (#[trigger] self.cols@[j]).name@ != missing_by@,
                key_idx matches Some(ki) ==> ki < k && self.cols@[ki as int].name@ == missing_by@
                    && forall|j: int|
                    0 <= j < ki ==> (#[trigger] self.cols@[j]).name@ != missing_by@,
            decreases self.cols@.len() - k,
        {
            if key_idx.is_none() {
                if self.cols[k].name == missing_by {
                    key_idx = Some(k);
                }
            }
            k = k + 1;
        }
        proof {
            match key_idx {
                Some(ki) => {
                    assert(spec_key_of(*self, missing_by@) == Some(
                        self.cols@[ki as int].values@,
                    )) by {
                        let w = choose|w: int|
                            0 <= w < self.cols@.len() && (#[trigger] self.cols@[w]).name@
                                == missing_by@ && forall|j: int|
                                0 <= j < w ==> (#[trigger] self.cols@[j]).name@ != missing_by@;
                        assert(0 <= ki < self.cols@.len() && self.cols@[ki as int].name@
                            == missing_by@ && forall|j: int|
                            0 <= j < ki ==> (#[trigger] self.cols@[j]).name@ != missing_by@);
                        if w < ki as int {
                            assert(self.cols@[w].name@ != missing_by@);
                        }
                        if (ki as int) < w {
                            assert(self.cols@[ki as int].name@ != missing_by@);
                        }
                    }
                },
                None => {
                    assert(spec_key_of(*self, missing_by@) is None);
                },
            }
        }
        let mut rows: Vec<SummaryRow> = Vec::new();
        let mut c: usize = 0;
        while c < self.cols.len()
            invariant
                c <= self.cols@.len(),
                self.wf(),
                rows@.len() == c,
                key_idx matches Some(ki) ==> ki < self.cols@.len(),
                (match key_idx {
                    Some(ki) => Some(self.cols@[ki as int].values@),
                    None => None,
                }) == spec_key_of(*self, missing_by@),
                forall|a: int|
                    0 <= a < c ==> row_matches(
                        #[trigger] rows@[a],
                        self.cols@[a].name@,
                        self.cols@[a].values@,
                        self.cols@[a].dtype,
                        spec_key_of(*self, missing_by@),
                    ),
            decreases self.cols@.len() - c,
        {
            let col = &self.cols[c];
            let row = match key_idx {
                Some(ki) => {
                    let keyv = &self.cols[ki].values;
                    proof {
                        assert(self.cols@[ki as int].wf());
                        assert(cells_wf(keyv@)) by {
                            assert forall|i: int| 0 <= i < keyv@.len() implies match #[trigger] keyv@[i] {
                                Some(w) => crate::dataset::val_wf(w),
                                None => true,
                            } by {
                                assert(cell_ok(keyv@[i], self.cols@[ki as int].dtype));
                            }
                        }
                    }
                    summarize_column(col, Some(keyv))
                },
                None => summarize_column(col, None),
            };
            rows.push(row);
            c = c + 1;
        }
        SummaryTable { rows }
    }
}

} // verus!
