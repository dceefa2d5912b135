use vstd::prelude::*;
use crate::rat::{Rat, gcd, lemma_gcd_divides, reduced_parts, rat_fits, div_c, div_nd, NUM_MAX};
use crate::dataset::{DType, Dataset, Value};
use crate::report::{WarnV, DataQualityRule, warns_spec, rule_warns, count_level};
use crate::summary::{SummaryRow, SummaryTable, row_matches, table_matches, int_rat};
use crate::stats::{count_nulls, lemma_count_nulls_le};

verus! {

/// `f` embeds `s` into `t`: in order and position by position.
pub open spec fn subseq_map_ok(s: Seq<WarnV>, t: Seq<WarnV>, f: Seq<int>) -> bool {
    &&& f.len() == s.len()
    &&& forall|i: int| 0 <= i < f.len() ==> 0 <= #[trigger] f[i] < t.len() && s[i] == t[f[i]]
    &&& forall|i: int, j: int| 0 <= i < j < f.len() ==> f[i] < f[j]
}

/// `s` is a subsequence of `t`.
pub open spec fn is_subsequence(s: Seq<WarnV>, t: Seq<WarnV>) -> bool {
    exists|f: Seq<int>| #[trigger] subseq_map_ok(s, t, f)
}

/// Every sequence is a subsequence of itself.
proof fn lemma_subseq_refl(s: Seq<WarnV>)
    ensures
        is_subsequence(s, s),
{
    let f = Seq::new(s.len(), |i: int| i);
    assert(subseq_map_ok(s, s, f));
}

/// Appending the same block on both sides keeps the embedding.
proof fn lemma_subseq_append_same(s1: Seq<WarnV>, s2: Seq<WarnV>, b: Seq<WarnV>)
    requires
        is_subsequence(s1, s2),
    ensures
        is_subsequence(s1 + b, s2 + b),
{
    let f = choose|f: Seq<int>| #[trigger] subseq_map_ok(s1, s2, f);
    let f2 = Seq::new(
        s1.len() + b.len(),
        |i: int|
            if i < s1.len() {
                f[i]
            } else {
                s2.len() + (i - s1.len())
            },
    );
    assert forall|i: int| 0 <= i < f2.len() implies 0 <= #[trigger] f2[i] < (s2 + b).len() && (s1
        + b)[i] == (s2 + b)[f2[i]] by {
        if i < s1.len() {
            assert((s1 + b)[i] == s1[i]);
            assert((s2 + b)[f[i]] == s2[f[i]]);
        } else {
            assert((s1 + b)[i] == b[i - s1.len()]);
            assert((s2 + b)[s2.len() + (i - s1.len())] == b[i - s1.len()]);
        }
    }
    assert(subseq_map_ok(s1 + b, s2 + b, f2));
}

/// A subsequence stays one when the right side grows at its end.
proof fn lemma_subseq_extend(s: Seq<WarnV>, t: Seq<WarnV>, b: Seq<WarnV>)
    requires
        is_subsequence(s, t),
    ensures
        is_subsequence(s, t + b),
{
    let f = choose|f: Seq<int>| #[trigger] subseq_map_ok(s, t, f);
    assert forall|i: int| 0 <= i < f.len() implies 0 <= #[trigger] f[i] < (t + b).len() && s[i] == (
    t + b)[f[i]] by {
        assert((t + b)[f[i]] == t[f[i]]);
    }
    assert(subseq_map_ok(s, t + b, f));
}

/// Severity filter monotonicity: against a fixed rule set and table, the
/// warnings of a lower (more restrictive) threshold are a subsequence of
/// the warnings of any higher threshold; raising the threshold never
/// removes or reorders a warning.
pub proof fn lemma_severity_monotone(
    rules: Seq<DataQualityRule>,
    rows: Seq<SummaryRow>,
    t1: u32,
    t2: u32,
)
    requires
        t1 <= t2,
    ensures
        is_subsequence(warns_spec(rules, rows, t1), warns_spec(rules, rows, t2)),
    decreases rules.len(),
{
    if rules.len() == 0 {
        lemma_subseq_refl(warns_spec(rules, rows, t1));
    } else {
        let head = rules.drop_last();
        lemma_severity_monotone(head, rows, t1, t2);
        let w1 = warns_spec(head, rows, t1);
        let w2 = warns_spec(head, rows, t2);
        let r = rules.last();
        if r.level <= t1 {
            lemma_subseq_append_same(w1, w2, rule_warns(r, rows));
        } else if r.level <= t2 {
            lemma_subseq_extend(w1, w2, rule_warns(r, rows));
            assert(warns_spec(rules, rows, t1) =~= w1);
        } else {
            assert(warns_spec(rules, rows, t1) =~= w1);
            assert(warns_spec(rules, rows, t2) =~= w2);
        }
    }
}

/// Row correspondence: a summary table that matches its dataset has one
/// row per source column, in source column order, each carrying that
/// column's name in its leading field.
pub proof fn lemma_row_correspondence(ds: Dataset, missing_by: Seq<char>, t: SummaryTable)
    requires
        table_matches(ds, missing_by, t),
    ensures
        t.rows@.len() == ds.cols@.len(),
        forall|c: int|
            0 <= c < ds.cols@.len() ==> (#[trigger] t.rows@[c]).name@ == ds.cols@[c].name@,
{
    assert forall|c: int| 0 <= c < ds.cols@.len() implies (#[trigger] t.rows@[c]).name@
        == ds.cols@[c].name@ by {
        assert(row_matches(
            t.rows@[c],
            ds.cols@[c].name@,
            ds.cols@[c].values@,
            ds.cols@[c].dtype,
            crate::summary::spec_key_of(ds, missing_by),
        ));
    }
}

/// The sum of the per-level warning counts for the levels from `l` up to
/// (excluding) `lmax`.
pub open spec fn sum_counts(ws: Seq<WarnV>, l: int, lmax: int) -> nat
    decreases lmax - l,
{
    if l >= lmax {
        0
    } else {
        count_level(ws, l) + sum_counts(ws, l + 1, lmax)
    }
}

/// Dropping the last warning lowers exactly one in-range bucket by one.
proof fn lemma_sum_counts_drop(ws: Seq<WarnV>, l: int, lmax: int)
    requires
        ws.len() > 0,
    ensures
        sum_counts(ws, l, lmax) == sum_counts(ws.drop_last(), l, lmax) + (if l
            <= ws.last().level < lmax {
            1nat
        } else {
            0nat
        }),
    decreases lmax - l,
{
    if l < lmax {
        lemma_sum_counts_drop(ws, l + 1, lmax);
    }
}

/// Count consistency: the per-level counts of the summary line sum to the
/// number of warnings, whenever every warning's level lies below the
/// range bound.  These counts are the very numbers the summary line
/// renders, so the counts read back from it sum to the warning count.
pub proof fn lemma_count_consistency(ws: Seq<WarnV>, lmax: int)
    requires
        forall|i: int| 0 <= i < ws.len() ==> (#[trigger] ws[i]).level < lmax,
        0 <= lmax,
    ensures
        sum_counts(ws, 0, lmax) == ws.len(),
    decreases ws.len(),
{
    if ws.len() == 0 {
        lemma_sum_counts_empty(ws, 0, lmax);
    } else {
        lemma_count_consistency(ws.drop_last(), lmax);
        lemma_sum_counts_drop(ws, 0, lmax);
        assert(0 <= ws.last().level < lmax);
    }
}

/// An empty warning list has empty buckets.
proof fn lemma_sum_counts_empty(ws: Seq<WarnV>, l: int, lmax: int)
    requires
        ws.len() == 0,
    ensures
        sum_counts(ws, l, lmax) == 0,
    decreases lmax - l,
{
    if l < lmax {
        lemma_sum_counts_empty(ws, l + 1, lmax);
    }
}

/// The missing fraction of one row is present, bounded by zero and one,
/// and one exactly when the row's non-null count is zero.
pub open spec fn perc_missing_bounded(row: SummaryRow) -> bool {
    row.perc_missing matches Some(p) && (Rat { num: 0, den: 1 }).spec_le(p) && p.spec_le(
        Rat { num: 1, den: 1 },
    ) && (p.spec_eq_val(Rat { num: 1, den: 1 }) <==> row.count.num == 0)
}

/// Missing-fraction bound over a whole summary table: for a dataset with
/// at least one row, every row of a matching table has `perc_missing`
/// present, between zero and one, and equal to one exactly when `count`
/// is zero.
pub proof fn lemma_table_perc_missing_bounds(ds: Dataset, missing_by: Seq<char>, t: SummaryTable)
    requires
        ds.wf(),
        table_matches(ds, missing_by, t),
        ds.spec_height() >= 1,
    ensures
        forall|c: int| 0 <= c < t.rows@.len() ==> perc_missing_bounded(#[trigger] t.rows@[c]),
{
    assert forall|c: int| 0 <= c < t.rows@.len() implies perc_missing_bounded(
        #[trigger] t.rows@[c],
    ) by {
        assert(row_matches(
            t.rows@[c],
            ds.cols@[c].name@,
            ds.cols@[c].values@,
            ds.cols@[c].dtype,
            crate::summary::spec_key_of(ds, missing_by),
        ));
        assert((#[trigger] ds.cols@[c]).wf());
        lemma_perc_missing_bounds(
            t.rows@[c],
            ds.cols@[c].name@,
            ds.cols@[c].values@,
            ds.cols@[c].dtype,
            crate::summary::spec_key_of(ds, missing_by),
        );
    }
}

/// Missing-fraction bound: in every summary row of a column with at least
/// one cell, `perc_missing` is present, lies between zero and one, and is
/// one exactly when the column has no non-null cell (`count` is zero).
pub proof fn lemma_perc_missing_bounds(
    row: SummaryRow,
    name: Seq<char>,
    s: Seq<Option<Value>>,
    dt: DType,
    key: Option<Seq<Option<Value>>>,
)
    requires
        row_matches(row, name, s, dt, key),
        1 <= s.len() <= NUM_MAX,
    ensures
        row.perc_missing is Some,
        row.perc_missing matches Some(p) ==> {
            &&& (Rat { num: 0, den: 1 }).spec_le(p)
            &&& p.spec_le(Rat { num: 1, den: 1 })
            &&& (p.spec_eq_val(Rat { num: 1, den: 1 }) <==> row.count.num == 0)
        },
{
    lemma_count_nulls_le(s);
    let n = count_nulls(s) as int;
    let h = s.len() as int;
    let a = int_rat(n);
    let b = int_rat(h);
    assert(a.num == n && a.den == 1);
    assert(b.num == h && b.den == 1);
    assert(div_nd(a, b) == (n * 1, 1 * h));
    assert(n * 1 == n && 1 * h == h);
    lemma_gcd_divides(n as nat, h as nat);
    let g = gcd(n as nat, h as nat) as int;
    let kn = choose|k: int| n == #[trigger] (g * k);
    let kh = choose|k: int| h == #[trigger] (g * k);
    vstd::arithmetic::div_mod::lemma_div_multiples_vanish(kn, g);
    vstd::arithmetic::div_mod::lemma_div_multiples_vanish(kh, g);
    assert(kn >= 0) by (nonlinear_arith)
        requires
            n == g * kn,
            n >= 0,
            g >= 1,
    {}
    assert(kh >= 1) by (nonlinear_arith)
        requires
            h == g * kh,
            h >= 1,
            g >= 1,
    {}
    assert(kn <= kh) by (nonlinear_arith)
        requires
            n == g * kn,
            h == g * kh,
            n <= h,
            g >= 1,
    {}
    assert(kn <= n && kh <= h) by (nonlinear_arith)
        requires
            n == g * kn,
            h == g * kh,
            g >= 1,
            kn >= 0,
            kh >= 1,
    {}
    assert(reduced_parts(n, h) == (kn, kh));
    assert(rat_fits(n, h));
    assert(row.perc_missing == div_c(a, b));
    let p = Rat { num: kn as i64, den: kh as u64 };
    assert(row.perc_missing == Some(p));
    assert((Rat { num: 0, den: 1 }).spec_le(p));
    assert(p.spec_le(Rat { num: 1, den: 1 }));
    assert(p.spec_eq_val(Rat { num: 1, den: 1 }) <==> kn == kh);
    assert(kn == kh <==> n == h) by (nonlinear_arith)
        requires
            n == g * kn,
            h == g * kh,
            g >= 1,
    {}
    assert(row.count == int_rat(h - n));
    assert(row.count.num == 0 <==> n == h);
}

} // verus!
