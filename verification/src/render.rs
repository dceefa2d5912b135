use vstd::prelude::*;
use vstd::string::StringExecFns;
use crate::rat::Rat;

verus! {

/// The character for one decimal digit.
pub open spec fn digit_char(d: nat) -> char {
    if d == 0 {
        '0'
    } else if d == 1 {
        '1'
    } else if d == 2 {
        '2'
    } else if d == 3 {
        '3'
    } else if d == 4 {
        '4'
    } else if d == 5 {
        '5'
    } else if d == 6 {
        '6'
    } else if d == 7 {
        '7'
    } else if d == 8 {
        '8'
    } else {
        '9'
    }
}

/// The decimal digits of `n`, most significant first.
pub open spec fn dec_digits(n: nat) -> Seq<char>
    decreases n,
{
    if n < 10 {
        seq![digit_char(n)]
    } else {
        dec_digits(n / 10) + seq![digit_char(n % 10)]
    }
}

/// The decimal rendering of a signed integer.
pub open spec fn dec_int_digits(n: int) -> Seq<char> {
    if n >= 0 {
        dec_digits(n as nat)
    } else {
        seq!['-'] + dec_digits((-n) as nat)
    }
}

/// Appends the character for digit `d`.
fn push_digit(s: &mut String, d: u64)
    requires
        d < 10,
    ensures
        final(s)@ == old(s)@ + seq![digit_char(d as nat)],
{
    match d {
        0 => {
            proof {
                reveal_strlit("0");
            }
            s.append("0");
        },
        1 => {
            proof {
                reveal_strlit("1");
            }
            s.append("1");
        },
        2 => {
            proof {
                reveal_strlit("2");
            }
            s.append("2");
        },
        3 => {
            proof {
                reveal_strlit("3");
            }
            s.append("3");
        },
        4 => {
            proof {
                reveal_strlit("4");
            }
            s.append("4");
        },
        5 => {
            proof {
                reveal_strlit("5");
            }
            s.append("5");
        },
        6 => {
            proof {
                reveal_strlit("6");
            }
            s.append("6");
        },
        7 => {
            proof {
                reveal_strlit("7");
            }
            s.append("7");
        },
        8 => {
            proof {
                reveal_strlit("8");
            }
            s.append("8");
        },
        _ => {
            proof {
                reveal_strlit("9");
            }
            s.append("9");
        },
    }
}

/// Appends the decimal digits of `n`.
fn push_u64_digits(s: &mut String, n: u64)
    ensures
        final(s)@ == old(s)@ + dec_digits(n as nat),
    decreases n,
{
    if n >= 10 {
        push_u64_digits(s, n / 10);
    }
    push_digit(s, n % 10);
}

/// The decimal rendering of `n`.
pub fn u64_to_string(n: u64) -> (s: String)
    ensures
        s@ == dec_digits(n as nat),
{
    let mut s = String::new();
    push_u64_digits(&mut s, n);
    s
}

/// Appends the decimal rendering of `n`, with a leading minus sign when
/// negative.
pub fn push_i64_digits(s: &mut String, n: i64)
    ensures
        final(s)@ == old(s)@ + dec_int_digits(n as int),
{
    if n < 0 {
        proof {
            reveal_strlit("-");
        }
        s.append("-");
        let m: u64 = (-(n as i128)) as u64;
        push_u64_digits(s, m);
    } else {
        push_u64_digits(s, n as u64);
    }
}

/// The rendering of a rational: its integer numerator, and `/` followed by
/// the denominator when the value is not an integer multiple of one.
pub open spec fn rat_digits(r: Rat) -> Seq<char> {
    if r.den == 1 {
        dec_int_digits(r.num as int)
    } else {
        dec_int_digits(r.num as int) + seq!['/'] + dec_digits(r.den as nat)
    }
}

/// Appends the rendering of a rational.
pub fn push_rat(s: &mut String, r: Rat)
    requires
        r.wf(),
    ensures
        final(s)@ == old(s)@ + rat_digits(r),
{
    push_i64_digits(s, r.num);
    if r.den != 1 {
        proof {
            reveal_strlit("/");
        }
        s.append("/");
        push_u64_digits(s, r.den);
    }
}

} // verus!
