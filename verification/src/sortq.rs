use vstd::prelude::*;
use vstd::arithmetic::div_mod::{lemma_fundamental_div_mod, lemma_div_multiples_vanish};
use crate::rat::{Rat, add_c, sub_c, mul_c, NUM_MAX};
use vstd::multiset::Multiset;
use crate::stats::{all_wf, lemma_le_trans};

verus! {

/// Insertion of `x` into a sequence, before the first element that `x` is
/// less than or equal to.
pub open spec fn insert_sorted(x: Rat, s: Seq<Rat>) -> Seq<Rat>
    decreases s.len(),
{
    if s.len() == 0 {
        seq![x]
    } else if x.spec_le(s[0]) {
        seq![x] + s
    } else {
        seq![s[0]] + insert_sorted(x, s.skip(1))
    }
}

/// The sequence sorted by insertion, element by element from the left.
pub open spec fn sort_spec(s: Seq<Rat>) -> Seq<Rat>
    decreases s.len(),
{
    if s.len() == 0 {
        Seq::empty()
    } else {
        insert_sorted(s.last(), sort_spec(s.drop_last()))
    }
}

/// Insertion grows a sequence by one.
pub proof fn lemma_insert_len(x: Rat, s: Seq<Rat>)
    ensures
        insert_sorted(x, s).len() == s.len() + 1,
    decreases s.len(),
{
    if s.len() > 0 && !x.spec_le(s[0]) {
        lemma_insert_len(x, s.skip(1));
    }
}

/// Sorting keeps the length.
pub proof fn lemma_sort_len(s: Seq<Rat>)
    ensures
        sort_spec(s).len() == s.len(),
    decreases s.len(),
{
    if s.len() > 0 {
        lemma_sort_len(s.drop_last());
        lemma_insert_len(s.last(), sort_spec(s.drop_last()));
    }
}

/// Inserting at the position the definition picks equals splicing there.
proof fn lemma_insert_at(x: Rat, s: Seq<Rat>, p: int)
    requires
        0 <= p <= s.len(),
        forall|j: int| 0 <= j < p ==> !x.spec_le(#[trigger] s[j]),
        p < s.len() ==> x.spec_le(s[p]),
    ensures
        insert_sorted(x, s) =~= s.take(p) + seq![x] + s.skip(p),
    decreases s.len(),
{
    if s.len() == 0 {
        assert(insert_sorted(x, s) =~= s.take(0) + seq![x] + s.skip(0));
    } else if x.spec_le(s[0]) {
        assert(p == 0);
        assert(insert_sorted(x, s) =~= s.take(0) + seq![x] + s.skip(0));
    } else {
        assert(p >= 1);
        lemma_insert_at(x, s.skip(1), p - 1);
        assert(insert_sorted(x, s) =~= seq![s[0]] + (s.skip(1).take(p - 1) + seq![x] + s.skip(
            1,
        ).skip(p - 1)));
        assert(seq![s[0]] + (s.skip(1).take(p - 1) + seq![x] + s.skip(1).skip(p - 1)) =~= s.take(p)
            + seq![x] + s.skip(p));
    }
}

/// Inserts `x` before the first element it is less than or equal to.
fn insert_into_sorted(out: &mut Vec<Rat>, x: Rat)
    requires
        all_wf(old(out)@),
        x.wf(),
    ensures
        final(out)@ == insert_sorted(x, old(out)@),
        all_wf(final(out)@),
{
    let mut p: usize = 0;
    while p < out.len() && !x.le(out[p])
        invariant
            p <= out@.len(),
            all_wf(out@),
            x.wf(),
            out == old(out),
            forall|j: int| 0 <= j < p ==> !x.spec_le(#[trigger] out@[j]),
        decreases out@.len() - p,
    {
        p = p + 1;
    }
    proof {
        lemma_insert_at(x, out@, p as int);
    }
    out.insert(p, x);
    proof {
        assert(out@ =~= old(out)@.take(p as int) + seq![x] + old(out)@.skip(p as int));
        assert(out@ =~= insert_sorted(x, old(out)@));
        assert forall|j: int| 0 <= j < out@.len() implies (#[trigger] out@[j]).wf() by {
            assert(out@ == old(out)@.take(p as int) + seq![x] + old(out)@.skip(p as int));
        }
    }
}

/// Sorts the values ascending (stable insertion order).
pub fn sort_rats(vals: &Vec<Rat>) -> (out: Vec<Rat>)
    requires
        all_wf(vals@),
    ensures
        out@ == sort_spec(vals@),
        all_wf(out@),
{
    let mut out: Vec<Rat> = Vec::new();
    let mut i: usize = 0;
    while i < vals.len()
        invariant
            i <= vals@.len(),
            all_wf(vals@),
            out@ == sort_spec(vals@.take(i as int)),
            all_wf(out@),
        decreases vals@.len() - i,
    {
        proof {
            assert(vals@.take(i + 1).drop_last() =~= vals@.take(i as int));
        }
        insert_into_sorted(&mut out, vals[i]);
        i = i + 1;
    }
    proof {
        assert(vals@.take(vals@.len() as int) =~= vals@);
    }
    out
}

/// The sequence is ascending under the rational order.
pub open spec fn sorted_rats(s: Seq<Rat>) -> bool {
    forall|i: int, j: int| 0 <= i <= j < s.len() ==> (#[trigger] s[i]).spec_le(#[trigger] s[j])
}

/// Insertion keeps the elements (as a multiset), keeps order, and adds
/// nothing but `x`.
proof fn lemma_insert_sorted_props(x: Rat, s: Seq<Rat>)
    requires
        x.wf(),
        all_wf(s),
        sorted_rats(s),
    ensures
        insert_sorted(x, s).to_multiset() =~= s.to_multiset().insert(x),
        sorted_rats(insert_sorted(x, s)),
        forall|k: int|
            0 <= k < insert_sorted(x, s).len() ==> (#[trigger] insert_sorted(x, s)[k] == x
                || s.contains(insert_sorted(x, s)[k])),
    decreases s.len(),
{
    broadcast use vstd::seq_lib::group_to_multiset_ensures;
    broadcast use vstd::multiset::group_multiset_axioms;

    let out = insert_sorted(x, s);
    if s.len() == 0 {
        assert(out =~= s.push(x));
        assert(s.push(x).to_multiset() =~= s.to_multiset().insert(x));
    } else if x.spec_le(s[0]) {
        assert(out == seq![x] + s);
        assert(out.remove(0) =~= s);
        assert(out.remove(0).to_multiset() =~= out.to_multiset().remove(x));
        assert(s.to_multiset() == out.to_multiset().remove(x));
        assert(out.contains(x));
        assert(out.to_multiset().count(x) > 0);
        assert(out.to_multiset() =~= s.to_multiset().insert(x));
        assert forall|i: int, j: int| 0 <= i <= j < out.len() implies (#[trigger] out[i]).spec_le(
            #[trigger] out[j],
        ) by {
            if i == 0 && j > 0 {
                lemma_le_trans(x, s[0], s[j - 1]);
            }
        }
        assert forall|k: int| 0 <= k < out.len() implies (#[trigger] out[k] == x || s.contains(
            out[k],
        )) by {
            if k > 0 {
                assert(out[k] == s[k - 1]);
            }
        }
    } else {
        let tail = s.skip(1);
        assert(all_wf(tail) && sorted_rats(tail)) by {
            assert(forall|k: int| 0 <= k < tail.len() ==> #[trigger] tail[k] == s[k + 1]);
        }
        lemma_insert_sorted_props(x, tail);
        let rec = insert_sorted(x, tail);
        assert(out == seq![s[0]] + rec);
        assert(out.remove(0) =~= rec);
        assert(out.remove(0).to_multiset() =~= out.to_multiset().remove(s[0]));
        assert(rec.to_multiset() == out.to_multiset().remove(s[0]));
        assert(out.contains(s[0]));
        assert(out.to_multiset().count(s[0]) > 0);
        assert(s.remove(0) =~= tail);
        assert(s.remove(0).to_multiset() =~= s.to_multiset().remove(s[0]));
        assert(tail.to_multiset() == s.to_multiset().remove(s[0]));
        assert(s.contains(s[0]));
        assert(s.to_multiset().count(s[0]) > 0);
        assert(out.to_multiset() =~= s.to_multiset().insert(x));
        assert(s[0].spec_le(x)) by {
            assert(!x.spec_le(s[0]));
        }
        assert forall|k: int| 0 <= k < out.len() implies (#[trigger] out[k] == x || s.contains(
            out[k],
        )) by {
            if k > 0 {
                assert(out[k] == rec[k - 1]);
                if rec[k - 1] == x {
                } else {
                    assert(tail.contains(rec[k - 1]));
                    let t = choose|t: int| 0 <= t < tail.len() && tail[t] == rec[k - 1];
                    assert(s[t + 1] == rec[k - 1]);
                }
            }
        }
        assert forall|i: int, j: int| 0 <= i <= j < out.len() implies (#[trigger] out[i]).spec_le(
            #[trigger] out[j],
        ) by {
            if i == 0 && j > 0 {
                assert(out[j] == rec[j - 1]);
                if rec[j - 1] == x {
                    assert(s[0].spec_le(x));
                } else {
                    assert(tail.contains(rec[j - 1]));
                    let t = choose|t: int| 0 <= t < tail.len() && tail[t] == rec[j - 1];
                    assert(s[0].spec_le(s[t + 1]));
                }
            } else if i > 0 {
                assert(out[i] == rec[i - 1] && out[j] == rec[j - 1]);
            }
        }
    }
}

/// The specification sort is correct: it keeps exactly the elements of
/// its input and orders them ascending.
pub proof fn lemma_sort_spec_correct(s: Seq<Rat>)
    requires
        all_wf(s),
    ensures
        sort_spec(s).to_multiset() =~= s.to_multiset(),
        sorted_rats(sort_spec(s)),
    decreases s.len(),
{
    broadcast use vstd::seq_lib::group_to_multiset_ensures;
    broadcast use vstd::multiset::group_multiset_axioms;

    if s.len() > 0 {
        assert(all_wf(s.drop_last())) by {
            assert(forall|k: int|
                0 <= k < s.drop_last().len() ==> #[trigger] s.drop_last()[k] == s[k]);
        }
        lemma_sort_spec_correct(s.drop_last());
        let base = sort_spec(s.drop_last());
        assert(all_wf(base)) by {
            assert forall|k: int| 0 <= k < base.len() implies (#[trigger] base[k]).wf() by {
                assert(base.to_multiset().contains(base[k]));
                assert(s.drop_last().to_multiset().contains(base[k]));
                assert(s.drop_last().contains(base[k]));
            }
        }
        lemma_insert_sorted_props(s.last(), base);
        assert(s =~= s.drop_last().push(s.last()));
        assert(s.to_multiset() =~= s.drop_last().to_multiset().insert(s.last()));
    }
}

/// The linear-interpolated `pct`-th percentile of a sorted sequence: with
/// `pos = pct * (len - 1)`, the element at `pos / 100`, moved toward the
/// next element by the remainder of that division over one hundred.
pub open spec fn quantile_c(s: Seq<Rat>, pct: nat) -> Option<Rat>
    recommends
        s.len() >= 1,
        pct <= 100,
{
    let pos = pct * (s.len() - 1) as nat;
    let l = pos / 100;
    let rem = pos % 100;
    if rem == 0 {
        Some(s[l as int])
    } else {
        match sub_c(s[l as int + 1], s[l as int]) {
            Some(d) => match mul_c(d, Rat { num: rem as i64, den: 100 }) {
                Some(t) => add_c(s[l as int], t),
                None => None,
            },
            None => None,
        }
    }
}

/// The linear-interpolated percentile of an already sorted sequence.
pub fn quantile_of(sorted: &Vec<Rat>, pct: u64) -> (r: Option<Rat>)
    requires
        all_wf(sorted@),
        1 <= sorted@.len() <= NUM_MAX,
        pct <= 100,
    ensures
        r == quantile_c(sorted@, pct as nat),
        r matches Some(v) ==> v.wf(),
{
    let n = sorted.len();
    proof {
        assert((pct as int) * ((n - 1) as int) <= 100 * (NUM_MAX as int)) by (nonlinear_arith)
            requires
                0 <= pct <= 100,
                1 <= n,
                (n - 1) as int <= NUM_MAX as int,
        {}
    }
    let pos: u128 = (pct as u128) * ((n - 1) as u128);
    let ghost spos: nat = (pct as nat) * (sorted@.len() - 1) as nat;
    proof {
        assert(pos == spos);
        assert(pos <= 100 * (n - 1)) by (nonlinear_arith)
            requires
                pos == (pct as int) * ((n - 1) as int),
                pct <= 100,
                n >= 1,
        {}
    }
    let l128 = pos / 100;
    let rem = pos % 100;
    proof {
        lemma_fundamental_div_mod(pos as int, 100);
        lemma_div_multiples_vanish((n - 1) as int, 100);
        assert((100 * ((n - 1) as int)) / 100 == (n - 1) as int);
        assert(l128 <= ((100 * ((n - 1) as int)) / 100)) by {
            vstd::arithmetic::div_mod::lemma_div_is_ordered(
                pos as int,
                100 * ((n - 1) as int),
                100,
            );
        }
        assert(l128 <= n - 1);
        if rem != 0 {
            assert(l128 < n - 1) by (nonlinear_arith)
                requires
                    pos as int == 100 * (l128 as int) + (rem as int),
                    1 <= rem as int <= 99,
                    pos <= 100 * (n - 1),
                    l128 <= n - 1,
            {}
        }
    }
    let l = l128 as usize;
    if rem == 0 {
        Some(sorted[l])
    } else {
        let lo = sorted[l];
        let hi = sorted[l + 1];
        match hi.checked_sub(lo) {
            Some(d) => match d.checked_mul(Rat { num: rem as i64, den: 100 }) {
                Some(t) => lo.checked_add(t),
                None => None,
            },
            None => None,
        }
    }
}

} // verus!
