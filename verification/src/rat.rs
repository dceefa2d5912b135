use vstd::prelude::*;
use vstd::arithmetic::div_mod::{lemma_fundamental_div_mod, lemma_div_multiples_vanish};

verus! {

/// Largest numerator magnitude a `Rat` may hold (2^62).  The bound leaves
/// headroom so that cross products of two well-formed rationals always fit
/// in an `i128` intermediate.
pub const NUM_MAX: i64 = 0x4000_0000_0000_0000;

/// Largest denominator a `Rat` may hold (2^62).
pub const DEN_MAX: u64 = 0x4000_0000_0000_0000;

/// An exact rational number `num / den` with `den >= 1`.
///
/// Arithmetic is checked: an operation returns `None` exactly when the
/// fully reduced result does not fit the representation bounds, so a
/// statistic that cannot be represented becomes "absent" instead of being
/// silently wrong.
#[derive(Clone, Copy, Debug, PartialEq, Eq, Structural)]
pub struct Rat {
    pub num: i64,
    pub den: u64,
}

/// `d` divides `x` over the integers.
pub open spec fn divides(d: int, x: int) -> bool {
    exists|k: int| x == #[trigger] (d * k)
}

/// Euclid's greatest common divisor.
pub open spec fn gcd(a: nat, b: nat) -> nat
    decreases b,
{
    if b == 0 {
        a
    } else {
        gcd(b, a % b)
    }
}

/// The gcd divides both arguments and is positive when either is.
pub proof fn lemma_gcd_divides(a: nat, b: nat)
    ensures
        divides(gcd(a, b) as int, a as int),
        divides(gcd(a, b) as int, b as int),
        a > 0 || b > 0 ==> gcd(a, b) >= 1,
    decreases b,
{
    if b == 0 {
        assert(a as int == (a as int) * 1);
        assert(0int == (a as int) * 0);
    } else {
        lemma_gcd_divides(b, a % b);
        let g = gcd(b, a % b) as int;
        let k1 = choose|k: int| b as int == #[trigger] (g * k);
        let k2 = choose|k: int| (a % b) as int == #[trigger] (g * k);
        lemma_fundamental_div_mod(a as int, b as int);
        let q = a as int / b as int;
        assert(a as int == g * (k1 * q + k2)) by (nonlinear_arith)
            requires
                a as int == (b as int) * q + (a % b) as int,
                b as int == g * k1,
                (a % b) as int == g * k2,
        {}
        assert(divides(g, a as int));
    }
}

/// Numerator and denominator of `n / d` after full reduction by the gcd.
pub open spec fn reduced_parts(n: int, d: int) -> (int, int)
    recommends
        d >= 1,
{
    let m = if n >= 0 { n } else { -n };
    let g = gcd(m as nat, d as nat) as int;
    (n / g, d / g)
}

/// Whether the fully reduced form of `n / d` fits a `Rat`.
pub open spec fn rat_fits(n: int, d: int) -> bool
    recommends
        d >= 1,
{
    let (rn, rd) = reduced_parts(n, d);
    -(NUM_MAX as int) <= rn <= NUM_MAX as int && rd <= DEN_MAX as int
}

/// Product of two magnitude-bounded integers is magnitude-bounded.
pub proof fn lemma_mul_bound(a: int, b: int, ca: int, cb: int)
    requires
        -ca <= a <= ca,
        -cb <= b <= cb,
        0 <= ca,
        0 <= cb,
    ensures
        -(ca * cb) <= a * b <= ca * cb,
{
    assert(-(ca * cb) <= a * b <= ca * cb) by (nonlinear_arith)
        requires
            -ca <= a <= ca,
            -cb <= b <= cb,
            0 <= ca,
            0 <= cb,
    {}
}

fn gcd_u128(a0: u128, b0: u128) -> (g: u128)
    ensures
        g as nat == gcd(a0 as nat, b0 as nat),
{
    let mut a = a0;
    let mut b = b0;
    while b != 0
        invariant
            gcd(a as nat, b as nat) == gcd(a0 as nat, b0 as nat),
        decreases b,
    {
        let r = a % b;
        a = b;
        b = r;
    }
    a
}

/// Builds the fully reduced `Rat` for `n / d`, or `None` when the reduced
/// form does not fit the representation bounds.
fn make_rat_i128(n: i128, d: u128) -> (r: Option<Rat>)
    requires
        1 <= d,
        -85070591730234615865843651857942052864i128 <= n
            <= 85070591730234615865843651857942052864i128,
        d <= 85070591730234615865843651857942052864u128,
    ensures
        r is Some <==> rat_fits(n as int, d as int),
        r matches Some(v) ==> v.wf() && v.num as int == reduced_parts(n as int, d as int).0
            && v.den as int == reduced_parts(n as int, d as int).1,
{
    let neg = n < 0;
    let m: u128 = if neg {
        (-n) as u128
    } else {
        n as u128
    };
    let g = gcd_u128(m, d);
    proof {
        lemma_gcd_divides(m as nat, d as nat);
    }
    let ghost km = choose|k: int| m as int == #[trigger] ((g as int) * k);
    let ghost kd = choose|k: int| d as int == #[trigger] ((g as int) * k);
    proof {
        lemma_div_multiples_vanish(km, g as int);
        lemma_div_multiples_vanish(kd, g as int);
        if neg {
            lemma_div_multiples_vanish(-km, g as int);
            assert((g as int) * -km == -((g as int) * km)) by (nonlinear_arith) {}
        }
        assert(km >= 0) by (nonlinear_arith)
            requires
                m as int == (g as int) * km,
                m >= 0,
                g >= 1,
        {}
        assert(kd >= 1) by (nonlinear_arith)
            requires
                d as int == (g as int) * kd,
                d >= 1,
                g >= 1,
        {}
    }
    let mr = m / g;
    let dr = d / g;
    assert(mr as int == km);
    assert(dr as int == kd);
    assert(reduced_parts(n as int, d as int).0 == if neg {
        -km
    } else {
        km
    });
    assert(reduced_parts(n as int, d as int).1 == kd);
    if mr <= NUM_MAX as u128 && dr <= DEN_MAX as u128 {
        let num: i64 = if neg {
            -(mr as i64)
        } else {
            mr as i64
        };
        Some(Rat { num, den: dr as u64 })
    } else {
        None
    }
}

/// Exact numerator and denominator of `a + b`, before reduction.
pub open spec fn add_nd(a: Rat, b: Rat) -> (int, int) {
    (a.num * b.den + b.num * a.den, a.den * b.den)
}

/// Exact numerator and denominator of `a - b`, before reduction.
pub open spec fn sub_nd(a: Rat, b: Rat) -> (int, int) {
    (a.num * b.den - b.num * a.den, a.den * b.den)
}

/// Exact numerator and denominator of `a * b`, before reduction.
pub open spec fn mul_nd(a: Rat, b: Rat) -> (int, int) {
    (a.num * b.num, a.den * b.den)
}

/// Exact numerator and denominator of `a / b` (for `b != 0`), before
/// reduction, with the denominator kept positive.
pub open spec fn div_nd(a: Rat, b: Rat) -> (int, int) {
    if b.num >= 0 {
        (a.num * b.den, a.den * b.num)
    } else {
        (-(a.num * b.den), a.den * -b.num)
    }
}

/// The reduced `Rat` for `n / d`, or `None` when it does not fit.
pub open spec fn make_c(n: int, d: int) -> Option<Rat>
    recommends
        d >= 1,
{
    if rat_fits(n, d) {
        Some(Rat { num: reduced_parts(n, d).0 as i64, den: reduced_parts(n, d).1 as u64 })
    } else {
        None
    }
}

/// Checked addition, at the specification level.
pub open spec fn add_c(a: Rat, b: Rat) -> Option<Rat> {
    make_c(add_nd(a, b).0, add_nd(a, b).1)
}

/// Checked subtraction, at the specification level.
pub open spec fn sub_c(a: Rat, b: Rat) -> Option<Rat> {
    make_c(sub_nd(a, b).0, sub_nd(a, b).1)
}

/// Checked multiplication, at the specification level.
pub open spec fn mul_c(a: Rat, b: Rat) -> Option<Rat> {
    make_c(mul_nd(a, b).0, mul_nd(a, b).1)
}

/// Checked division, at the specification level.
pub open spec fn div_c(a: Rat, b: Rat) -> Option<Rat> {
    if b.num == 0 {
        None
    } else {
        make_c(div_nd(a, b).0, div_nd(a, b).1)
    }
}

/// For `m >= 0` and `d >= 1`, divisibility coincides with a zero remainder.
pub proof fn lemma_divides_mod(d: int, m: int)
    requires
        d >= 1,
        m >= 0,
    ensures
        divides(d, m) <==> m % d == 0,
{
    if m % d == 0 {
        lemma_fundamental_div_mod(m, d);
        assert(m == d * (m / d));
    }
    if divides(d, m) {
        let k = choose|k: int| m == #[trigger] (d * k);
        lemma_div_multiples_vanish(k, d);
        lemma_fundamental_div_mod(m, d);
    }
}

impl Rat {
    /// Representation bounds every `Rat` in the library satisfies.
    pub open spec fn wf(self) -> bool {
        1 <= self.den <= DEN_MAX && -NUM_MAX <= self.num <= NUM_MAX
    }

    /// The rational with integer value `i`.
    pub fn from_int(i: i64) -> (r: Rat)
        requires
            -NUM_MAX <= i <= NUM_MAX,
        ensures
            r.wf(),
            r.num == i,
            r.den == 1,
    {
        Rat { num: i, den: 1 }
    }

    /// The reduced rational `num / den`; `None` when `den` is zero or the
    /// reduced form does not fit the representation bounds.
    pub fn new(num: i64, den: u64) -> (r: Option<Rat>)
        ensures
            den == 0 ==> r is None,
            den >= 1 ==> (r is Some <==> rat_fits(num as int, den as int)),
            r matches Some(v) ==> v.wf() && v.num as int == reduced_parts(
                num as int,
                den as int,
            ).0 && v.den as int == reduced_parts(num as int, den as int).1,
    {
        if den == 0 {
            None
        } else {
            make_rat_i128(num as i128, den as u128)
        }
    }

    /// Checked addition; `None` exactly when the reduced sum does not fit.
    pub fn checked_add(self, o: Rat) -> (r: Option<Rat>)
        requires
            self.wf(),
            o.wf(),
        ensures
            r is Some <==> rat_fits(add_nd(self, o).0, add_nd(self, o).1),
            r matches Some(v) ==> v.wf() && v.num as int == reduced_parts(
                add_nd(self, o).0,
                add_nd(self, o).1,
            ).0 && v.den as int == reduced_parts(add_nd(self, o).0, add_nd(self, o).1).1,
            r == add_c(self, o),
    {
        proof {
            lemma_mul_bound(self.num as int, o.den as int, NUM_MAX as int, DEN_MAX as int);
            lemma_mul_bound(o.num as int, self.den as int, NUM_MAX as int, DEN_MAX as int);
            lemma_mul_bound(self.den as int, o.den as int, DEN_MAX as int, DEN_MAX as int);
            assert(self.den as int * o.den as int >= 1) by (nonlinear_arith)
                requires
                    self.den >= 1,
                    o.den >= 1,
            {}
        }
        let n: i128 = (self.num as i128) * (o.den as i128) + (o.num as i128) * (self.den as i128);
        let d: u128 = (self.den as u128) * (o.den as u128);
        make_rat_i128(n, d)
    }

    /// Checked subtraction; `None` exactly when the reduced difference does
    /// not fit.
    pub fn checked_sub(self, o: Rat) -> (r: Option<Rat>)
        requires
            self.wf(),
            o.wf(),
        ensures
            r is Some <==> rat_fits(sub_nd(self, o).0, sub_nd(self, o).1),
            r matches Some(v) ==> v.wf() && v.num as int == reduced_parts(
                sub_nd(self, o).0,
                sub_nd(self, o).1,
            ).0 && v.den as int == reduced_parts(sub_nd(self, o).0, sub_nd(self, o).1).1,
            r == sub_c(self, o),
    {
        proof {
            lemma_mul_bound(self.num as int, o.den as int, NUM_MAX as int, DEN_MAX as int);
            lemma_mul_bound(o.num as int, self.den as int, NUM_MAX as int, DEN_MAX as int);
            lemma_mul_bound(self.den as int, o.den as int, DEN_MAX as int, DEN_MAX as int);
            assert(self.den as int * o.den as int >= 1) by (nonlinear_arith)
                requires
                    self.den >= 1,
                    o.den >= 1,
            {}
        }
        let n: i128 = (self.num as i128) * (o.den as i128) - (o.num as i128) * (self.den as i128);
        let d: u128 = (self.den as u128) * (o.den as u128);
        make_rat_i128(n, d)
    }

    /// Checked multiplication; `None` exactly when the reduced product does
    /// not fit.
    pub fn checked_mul(self, o: Rat) -> (r: Option<Rat>)
        requires
            self.wf(),
            o.wf(),
        ensures
            r is Some <==> rat_fits(mul_nd(self, o).0, mul_nd(self, o).1),
            r matches Some(v) ==> v.wf() && v.num as int == reduced_parts(
                mul_nd(self, o).0,
                mul_nd(self, o).1,
            ).0 && v.den as int == reduced_parts(mul_nd(self, o).0, mul_nd(self, o).1).1,
            r == mul_c(self, o),
    {
        proof {
            lemma_mul_bound(self.num as int, o.num as int, NUM_MAX as int, NUM_MAX as int);
            lemma_mul_bound(self.den as int, o.den as int, DEN_MAX as int, DEN_MAX as int);
            assert(self.den as int * o.den as int >= 1) by (nonlinear_arith)
                requires
                    self.den >= 1,
                    o.den >= 1,
            {}
        }
        let n: i128 = (self.num as i128) * (o.num as i128);
        let d: u128 = (self.den as u128) * (o.den as u128);
        make_rat_i128(n, d)
    }

    /// Checked division.  `None` when the divisor is zero, or exactly when
    /// the reduced quotient does not fit.
    pub fn checked_div(self, o: Rat) -> (r: Option<Rat>)
        requires
            self.wf(),
            o.wf(),
        ensures
            o.num == 0 ==> r is None,
            o.num != 0 ==> (r is Some <==> rat_fits(div_nd(self, o).0, div_nd(self, o).1)),
            r matches Some(v) ==> v.wf() && v.num as int == reduced_parts(
                div_nd(self, o).0,
                div_nd(self, o).1,
            ).0 && v.den as int == reduced_parts(div_nd(self, o).0, div_nd(self, o).1).1,
            r == div_c(self, o),
    {
        if o.num == 0 {
            return None;
        }
        proof {
            lemma_mul_bound(self.num as int, o.den as int, NUM_MAX as int, DEN_MAX as int);
            if o.num >= 0 {
                lemma_mul_bound(self.den as int, o.num as int, DEN_MAX as int, NUM_MAX as int);
                assert(self.den as int * o.num as int >= 1) by (nonlinear_arith)
                    requires
                        self.den >= 1,
                        o.num >= 1,
                {}
            } else {
                lemma_mul_bound(self.den as int, -o.num as int, DEN_MAX as int, NUM_MAX as int);
                assert(self.den as int * (-o.num as int) >= 1) by (nonlinear_arith)
                    requires
                        self.den >= 1,
                        -o.num as int >= 1,
                {}
            }
        }
        let n0: i128 = (self.num as i128) * (o.den as i128);
        if o.num >= 0 {
            let d: u128 = (self.den as u128) * (o.num as u128);
            make_rat_i128(n0, d)
        } else {
            let d: u128 = (self.den as u128) * ((-(o.num as i128)) as u128);
            make_rat_i128(-n0, d)
        }
    }

    /// `self <= other` as rational values.
    pub fn le(self, o: Rat) -> (r: bool)
        requires
            self.wf(),
            o.wf(),
        ensures
            r == self.spec_le(o),
    {
        proof {
            lemma_mul_bound(self.num as int, o.den as int, NUM_MAX as int, DEN_MAX as int);
            lemma_mul_bound(o.num as int, self.den as int, NUM_MAX as int, DEN_MAX as int);
        }
        (self.num as i128) * (o.den as i128) <= (o.num as i128) * (self.den as i128)
    }

    /// `self < other` as rational values.
    pub fn lt(self, o: Rat) -> (r: bool)
        requires
            self.wf(),
            o.wf(),
        ensures
            r == self.spec_lt(o),
    {
        proof {
            lemma_mul_bound(self.num as int, o.den as int, NUM_MAX as int, DEN_MAX as int);
            lemma_mul_bound(o.num as int, self.den as int, NUM_MAX as int, DEN_MAX as int);
        }
        (self.num as i128) * (o.den as i128) < (o.num as i128) * (self.den as i128)
    }

    /// `self == other` as rational values.
    pub fn eq_val(self, o: Rat) -> (r: bool)
        requires
            self.wf(),
            o.wf(),
        ensures
            r == self.spec_eq_val(o),
    {
        proof {
            lemma_mul_bound(self.num as int, o.den as int, NUM_MAX as int, DEN_MAX as int);
            lemma_mul_bound(o.num as int, self.den as int, NUM_MAX as int, DEN_MAX as int);
        }
        (self.num as i128) * (o.den as i128) == (o.num as i128) * (self.den as i128)
    }

    /// Whether the value is zero.
    pub fn is_zero(self) -> (r: bool)
        requires
            self.wf(),
        ensures
            r == (self.num == 0),
    {
        self.num == 0
    }

    /// Whether the value is strictly negative.
    pub fn is_neg(self) -> (r: bool)
        requires
            self.wf(),
        ensures
            r == (self.num < 0),
    {
        self.num < 0
    }

    /// Whether the value is an integer.
    pub fn is_integral(self) -> (r: bool)
        requires
            self.wf(),
        ensures
            r == self.spec_is_integral(),
    {
        let m: u64 = if self.num < 0 {
            (-self.num) as u64
        } else {
            self.num as u64
        };
        proof {
            lemma_divides_mod(self.den as int, m as int);
            if self.num < 0 {
                if divides(self.den as int, m as int) {
                    let k = choose|k: int| m as int == #[trigger] ((self.den as int) * k);
                    assert(self.num as int == (self.den as int) * (-k)) by (nonlinear_arith)
                        requires
                            m as int == (self.den as int) * k,
                            self.num as int == -(m as int),
                    {}
                }
                if divides(self.den as int, self.num as int) {
                    let k = choose|k: int| self.num as int == #[trigger] ((self.den as int) * k);
                    assert(m as int == (self.den as int) * (-k)) by (nonlinear_arith)
                        requires
                            self.num as int == (self.den as int) * k,
                            m as int == -(self.num as int),
                    {}
                }
            }
        }
        m % self.den == 0
    }

    /// The absolute value.
    pub fn abs(self) -> (r: Rat)
        requires
            self.wf(),
        ensures
            r.wf(),
            r == self.spec_abs(),
    {
        if self.num < 0 {
            Rat { num: -self.num, den: self.den }
        } else {
            self
        }
    }

    /// `self <= other` as rational values.
    pub open spec fn spec_le(self, o: Rat) -> bool {
        self.num * o.den <= o.num * self.den
    }

    /// `self < other` as rational values.
    pub open spec fn spec_lt(self, o: Rat) -> bool {
        self.num * o.den < o.num * self.den
    }

    /// `self == other` as rational values.
    pub open spec fn spec_eq_val(self, o: Rat) -> bool {
        self.num * o.den == o.num * self.den
    }

    /// The rational value is an integer.
    pub open spec fn spec_is_integral(self) -> bool {
        divides(self.den as int, self.num as int)
    }

    /// The absolute value, at the specification level.
    pub open spec fn spec_abs(self) -> Rat {
        Rat {
            num: if self.num >= 0 {
                self.num
            } else {
                (-(self.num as int)) as i64
            },
            den: self.den,
        }
    }
}

} // verus!
