use vstd::prelude::*;
use crate::rat::{Rat, add_c, sub_c, mul_c, div_c, NUM_MAX};
use crate::stats::{all_wf, mean_c, mean_of};

verus! {

/// Fixed-point scale for the square root of the second moment (2^31).
pub const SQRT_SCALE: i64 = 0x8000_0000;

/// Floor of the square root.
pub open spec fn isqrt_spec(x: nat) -> nat
    decreases x,
{
    if x == 0 {
        0
    } else {
        let p = isqrt_spec((x - 1) as nat);
        if (p + 1) * (p + 1) <= x {
            p + 1
        } else {
            p
        }
    }
}

/// The floor square root is characterized by its two bounds.
pub proof fn lemma_isqrt_char(x: nat)
    ensures
        isqrt_spec(x) * isqrt_spec(x) <= x,
        x < (isqrt_spec(x) + 1) * (isqrt_spec(x) + 1),
    decreases x,
{
    if x == 0 {
        let s0 = isqrt_spec(x);
        assert(s0 == 0);
        assert(s0 * s0 <= x && x < (s0 + 1) * (s0 + 1)) by (nonlinear_arith)
            requires
                s0 == 0,
                x == 0,
        {}
    } else {
        lemma_isqrt_char((x - 1) as nat);
        let p = isqrt_spec((x - 1) as nat);
        assert(p * p <= ((x - 1) as nat));
        assert(((x - 1) as nat) < (p + 1) * (p + 1));
        assert(isqrt_spec(x) == if (p + 1) * (p + 1) <= x {
            p + 1
        } else {
            p
        });
        if (p + 1) * (p + 1) <= x {
            assert(x < ((p + 1) + 1) * ((p + 1) + 1)) by (nonlinear_arith)
                requires
                    ((x - 1) as int) < (p + 1) * (p + 1),
                    (p + 1) * (p + 1) <= x,
                    x >= 1,
                    p >= 0,
            {}
        } else {
            assert(p * p <= x);
            assert(x < (p + 1) * (p + 1));
        }
    }
}

/// Only one natural satisfies both square-root bounds.
pub proof fn lemma_isqrt_unique(x: nat, r: nat)
    requires
        r * r <= x,
        x < (r + 1) * (r + 1),
    ensures
        r == isqrt_spec(x),
{
    lemma_isqrt_char(x);
    let s = isqrt_spec(x);
    if r < s {
        assert((r + 1) * (r + 1) <= s * s) by (nonlinear_arith)
            requires
                r + 1 <= s,
                r >= 0,
        {}
    }
    if s < r {
        assert((s + 1) * (s + 1) <= r * r) by (nonlinear_arith)
            requires
                s + 1 <= r,
                s >= 0,
        {}
    }
}

/// Floor square root by binary search.
fn isqrt(x: u128) -> (r: u64)
    requires
        x <= 21267647932558653966460912964485513216u128,
    ensures
        r as nat == isqrt_spec(x as nat),
        r <= 0x4000_0000_0000_0000u64,
{
    let mut lo: u128 = 0;
    let mut hi: u128 = 0x4000_0000_0000_0000u128;
    proof {
        assert(x < (hi as int + 1) * (hi as int + 1)) by (nonlinear_arith)
            requires
                x <= 21267647932558653966460912964485513216u128,
                hi == 0x4000_0000_0000_0000u128,
        {}
    }
    while lo < hi
        invariant
            lo <= hi <= 0x4000_0000_0000_0000u128,
            (lo as int) * (lo as int) <= x,
            x < (hi as int + 1) * (hi as int + 1),
        decreases hi - lo,
    {
        let mid = lo + (hi - lo + 1) / 2;
        proof {
            assert(lo < mid <= hi);
            assert((mid as int) * (mid as int)
                <= 21267647932558653966460912964485513216) by (nonlinear_arith)
                requires
                    0 <= mid <= 0x4000_0000_0000_0000u128,
            {}
        }
        if mid * mid <= x {
            lo = mid;
        } else {
            hi = mid - 1;
        }
    }
    proof {
        lemma_isqrt_unique(x as nat, lo as nat);
    }
    lo as u64
}

/// Checked sum of squared deviations from `mu`.
pub open spec fn sum2_c(s: Seq<Rat>, mu: Rat) -> Option<Rat>
    decreases s.len(),
{
    if s.len() == 0 {
        Some(Rat { num: 0, den: 1 })
    } else {
        match sum2_c(s.drop_last(), mu) {
            Some(a) => match sub_c(s.last(), mu) {
                Some(d) => match mul_c(d, d) {
                    Some(q) => add_c(a, q),
                    None => None,
                },
                None => None,
            },
            None => None,
        }
    }
}

/// Checked sum of cubed deviations from `mu`.
pub open spec fn sum3_c(s: Seq<Rat>, mu: Rat) -> Option<Rat>
    decreases s.len(),
{
    if s.len() == 0 {
        Some(Rat { num: 0, den: 1 })
    } else {
        match sum3_c(s.drop_last(), mu) {
            Some(a) => match sub_c(s.last(), mu) {
                Some(d) => match mul_c(d, d) {
                    Some(q) => match mul_c(q, d) {
                        Some(q3) => add_c(a, q3),
                        None => None,
                    },
                    None => None,
                },
                None => None,
            },
            None => None,
        }
    }
}

/// An absent checked square sum stays absent when the sequence grows.
proof fn lemma_sum2_none_absorbs(s: Seq<Rat>, mu: Rat, i: int)
    requires
        0 <= i <= s.len(),
        sum2_c(s.take(i), mu) is None,
    ensures
        sum2_c(s, mu) is None,
    decreases s.len() - i,
{
    if i == s.len() {
        assert(s.take(i) =~= s);
    } else {
        assert(s.take(i + 1).drop_last() =~= s.take(i));
        lemma_sum2_none_absorbs(s, mu, i + 1);
    }
}

/// An absent checked cube sum stays absent when the sequence grows.
proof fn lemma_sum3_none_absorbs(s: Seq<Rat>, mu: Rat, i: int)
    requires
        0 <= i <= s.len(),
        sum3_c(s.take(i), mu) is None,
    ensures
        sum3_c(s, mu) is None,
    decreases s.len() - i,
{
    if i == s.len() {
        assert(s.take(i) =~= s);
    } else {
        assert(s.take(i + 1).drop_last() =~= s.take(i));
        lemma_sum3_none_absorbs(s, mu, i + 1);
    }
}

/// Checked sum of squared deviations.
fn sum2_of(vals: &Vec<Rat>, mu: Rat) -> (r: Option<Rat>)
    requires
        all_wf(vals@),
        mu.wf(),
    ensures
        r == sum2_c(vals@, mu),
        r matches Some(v) ==> v.wf(),
{
    let mut acc = Rat { num: 0, den: 1 };
    let mut i: usize = 0;
    while i < vals.len()
        invariant
            i <= vals@.len(),
            all_wf(vals@),
            mu.wf(),
            Some(acc) == sum2_c(vals@.take(i as int), mu),
            acc.wf(),
        decreases vals@.len() - i,
    {
        proof {
            assert(vals@.take(i + 1).drop_last() =~= vals@.take(i as int));
        }
        let next = match vals[i].checked_sub(mu) {
            Some(d) => match d.checked_mul(d) {
                Some(q) => acc.checked_add(q),
                None => None,
            },
            None => None,
        };
        match next {
            Some(a) => {
                acc = a;
            },
            None => {
                proof {
                    lemma_sum2_none_absorbs(vals@, mu, i + 1);
                }
                return None;
            },
        }
        i = i + 1;
    }
    proof {
        assert(vals@.take(vals@.len() as int) =~= vals@);
    }
    Some(acc)
}

/// Checked sum of cubed deviations.
fn sum3_of(vals: &Vec<Rat>, mu: Rat) -> (r: Option<Rat>)
    requires
        all_wf(vals@),
        mu.wf(),
    ensures
        r == sum3_c(vals@, mu),
        r matches Some(v) ==> v.wf(),
{
    let mut acc = Rat { num: 0, den: 1 };
    let mut i: usize = 0;
    while i < vals.len()
        invariant
            i <= vals@.len(),
            all_wf(vals@),
            mu.wf(),
            Some(acc) == sum3_c(vals@.take(i as int), mu),
            acc.wf(),
        decreases vals@.len() - i,
    {
        proof {
            assert(vals@.take(i + 1).drop_last() =~= vals@.take(i as int));
        }
        let next = match vals[i].checked_sub(mu) {
            Some(d) => match d.checked_mul(d) {
                Some(q) => match q.checked_mul(d) {
                    Some(q3) => acc.checked_add(q3),
                    None => None,
                },
                None => None,
            },
            None => None,
        };
        match next {
            Some(a) => {
                acc = a;
            },
            None => {
                proof {
                    lemma_sum3_none_absorbs(vals@, mu, i + 1);
                }
                return None;
            },
        }
        i = i + 1;
    }
    proof {
        assert(vals@.take(vals@.len() as int) =~= vals@);
    }
    Some(acc)
}

/// The standardized third-moment skewness, in fixed point: the third
/// central moment divided by the second, the latter also divided by the
/// floor square root of itself at scale 2^31.  Absent for an empty or
/// constant sequence, and whenever a checked step cannot be represented.
pub open spec fn skew_c(s: Seq<Rat>) -> Option<Rat>
    recommends
        s.len() <= NUM_MAX,
{
    if s.len() == 0 {
        None
    } else {
        match mean_c(s) {
            None => None,
            Some(mu) => match sum2_c(s, mu) {
                None => None,
                Some(t2) => match sum3_c(s, mu) {
                    None => None,
                    Some(t3) => {
                        let n_rat = Rat { num: s.len() as i64, den: 1 };
                        match div_c(t2, n_rat) {
                            None => None,
                            Some(m2) => match div_c(t3, n_rat) {
                                None => None,
                                Some(m3) => {
                                    if m2.num <= 0 {
                                        None
                                    } else {
                                        let xv = (m2.num * SQRT_SCALE * SQRT_SCALE) / (
                                        m2.den as int);
                                        let sq = isqrt_spec(xv as nat);
                                        if sq == 0 {
                                            None
                                        } else {
                                            match mul_c(m3, Rat { num: SQRT_SCALE, den: 1 }) {
                                                None => None,
                                                Some(a) => match mul_c(
                                                    m2,
                                                    Rat { num: sq as i64, den: 1 },
                                                ) {
                                                    None => None,
                                                    Some(b) => div_c(a, b),
                                                },
                                            }
                                        }
                                    }
                                },
                            },
                        }
                    },
                },
            },
        }
    }
}

/// The fixed-point skewness of the values.
pub fn skew_of(vals: &Vec<Rat>) -> (r: Option<Rat>)
    requires
        all_wf(vals@),
        vals@.len() <= NUM_MAX,
    ensures
        r == skew_c(vals@),
        r matches Some(v) ==> v.wf(),
{
    if vals.len() == 0 {
        return None;
    }
    let mu = match mean_of(vals) {
        Some(m) => m,
        None => {
            return None;
        },
    };
    let t2 = match sum2_of(vals, mu) {
        Some(t) => t,
        None => {
            return None;
        },
    };
    let t3 = match sum3_of(vals, mu) {
        Some(t) => t,
        None => {
            return None;
        },
    };
    let n_rat = Rat { num: vals.len() as i64, den: 1 };
    let m2 = match t2.checked_div(n_rat) {
        Some(m) => m,
        None => {
            return None;
        },
    };
    let m3 = match t3.checked_div(n_rat) {
        Some(m) => m,
        None => {
            return None;
        },
    };
    if m2.num <= 0 {
        return None;
    }
    proof {
        assert((m2.num as int) * (SQRT_SCALE as int) * (SQRT_SCALE as int) <= (0x4000_0000_0000_0000
            * 0x8000_0000) * 0x8000_0000) by (nonlinear_arith)
            requires
                0 < m2.num <= 0x4000_0000_0000_0000i64,
        {}
    }
    let xn: u128 = ((m2.num as u128) * (SQRT_SCALE as u128)) * (SQRT_SCALE as u128);
    let xv: u128 = xn / (m2.den as u128);
    proof {
        assert(xv <= xn) by {
            vstd::arithmetic::div_mod::lemma_div_is_ordered_by_denominator(
                xn as int,
                1,
                m2.den as int,
            );
        }
        assert(xv as int == (m2.num * SQRT_SCALE * SQRT_SCALE) / (m2.den as int));
    }
    let sq = isqrt(xv);
    if sq == 0 {
        return None;
    }
    proof {
        assert(sq as int <= NUM_MAX as int);
    }
    let a = match m3.checked_mul(Rat { num: SQRT_SCALE, den: 1 }) {
        Some(a) => a,
        None => {
            return None;
        },
    };
    let b = match m2.checked_mul(Rat { num: sq as i64, den: 1 }) {
        Some(b) => b,
        None => {
            return None;
        },
    };
    a.checked_div(b)
}

} // verus!
