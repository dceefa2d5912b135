use vstd::prelude::*;
use vstd::string::StringExecFns;
use crate::rat::Rat;
use crate::dataset::Value;
use crate::summary::SummaryRow;

verus! {

/// A predicate over one summary row: comparisons against constants,
/// membership, truth of a flag field, and the usual connectives.  Fields
/// are named; a name the table does not know fails the whole predicate.
pub enum Pred {
    Gt(String, Rat),
    Lt(String, Rat),
    Ge(String, Rat),
    Le(String, Rat),
    EqNum(String, Rat),
    EqText(String, String),
    AbsGt(String, Rat),
    IsTrue(String),
    InNum(String, Vec<Rat>),
    And(Box<Pred>, Box<Pred>),
    Or(Box<Pred>, Box<Pred>),
    Not(Box<Pred>),
}

/// Three-valued logic: a comparison against an absent statistic is `Null`,
/// which never matches.
#[derive(Clone, Copy, Debug, PartialEq, Eq, Structural)]
pub enum Tri {
    True,
    False,
    Null,
}

/// What reading a named field of a row yields.
pub enum FieldRead {
    Unknown,
    Absent,
    Num(Rat),
    Flag(bool),
    Text(String),
}

/// Every rational constant of the predicate is well formed.
pub open spec fn pred_wf(p: Pred) -> bool
    decreases p,
{
    match p {
        Pred::Gt(_, c) => c.wf(),
        Pred::Lt(_, c) => c.wf(),
        Pred::Ge(_, c) => c.wf(),
        Pred::Le(_, c) => c.wf(),
        Pred::EqNum(_, c) => c.wf(),
        Pred::EqText(_, _) => true,
        Pred::AbsGt(_, c) => c.wf(),
        Pred::IsTrue(_) => true,
        Pred::InNum(_, l) => forall|i: int| 0 <= i < l@.len() ==> (#[trigger] l@[i]).wf(),
        Pred::And(a, b) => pred_wf(*a) && pred_wf(*b),
        Pred::Or(a, b) => pred_wf(*a) && pred_wf(*b),
        Pred::Not(a) => pred_wf(*a),
    }
}

/// The reading of an optional numeric statistic.
pub open spec fn k_opt(x: Option<Rat>) -> FieldRead {
    match x {
        Some(r) => FieldRead::Num(r),
        None => FieldRead::Absent,
    }
}

/// The reading of a named field of a row; `Unknown` for a name outside the
/// summary schema.
pub open spec fn field_kind(row: SummaryRow, name: Seq<char>) -> FieldRead {
    if name == "Fields"@ {
        FieldRead::Text(row.name)
    } else if name == "dtype"@ {
        FieldRead::Text(row.dtype)
    } else if name == "count"@ {
        FieldRead::Num(row.count)
    } else if name == "n_unique"@ {
        FieldRead::Num(row.n_unique)
    } else if name == "perc_missing"@ {
        k_opt(row.perc_missing)
    } else if name == "perc_zeros"@ {
        k_opt(row.perc_zeros)
    } else if name == "num_zeros"@ {
        k_opt(row.num_zeros)
    } else if name == "num_negative"@ {
        k_opt(row.num_negative)
    } else if name == "perc_negative"@ {
        k_opt(row.perc_negative)
    } else if name == "perc_distinct"@ {
        k_opt(row.perc_distinct)
    } else if name == "val_most_freq"@ {
        match row.val_most_freq {
            None => FieldRead::Absent,
            Some(Value::Num(x)) => FieldRead::Num(x),
            Some(Value::Bool(b)) => FieldRead::Flag(b),
            Some(Value::Text(t)) => FieldRead::Text(t),
        }
    } else if name == "perc_most_freq"@ {
        k_opt(row.perc_most_freq)
    } else if name == "min"@ {
        k_opt(row.min_val)
    } else if name == "p05"@ {
        k_opt(row.p05)
    } else if name == "p25"@ {
        k_opt(row.p25)
    } else if name == "median"@ {
        k_opt(row.median)
    } else if name == "p75"@ {
        k_opt(row.p75)
    } else if name == "p95"@ {
        k_opt(row.p95)
    } else if name == "mean"@ {
        k_opt(row.mean)
    } else if name == "max"@ {
        k_opt(row.max_val)
    } else if name == "skew"@ {
        k_opt(row.skew)
    } else if name == "decimal_col"@ {
        match row.decimal_col {
            Some(b) => FieldRead::Flag(b),
            None => FieldRead::Absent,
        }
    } else if name == "num_missing_partitions"@ {
        k_opt(row.num_missing_partitions)
    } else if name == "min_missing_partition"@ {
        k_opt(row.min_missing_partition)
    } else if name == "max_missing_partition"@ {
        k_opt(row.max_missing_partition)
    } else {
        FieldRead::Unknown
    }
}

/// The exec reading matches the spec reading (texts by their characters).
pub open spec fn read_matches(r: FieldRead, k: FieldRead) -> bool {
    match (r, k) {
        (FieldRead::Unknown, FieldRead::Unknown) => true,
        (FieldRead::Absent, FieldRead::Absent) => true,
        (FieldRead::Num(a), FieldRead::Num(b)) => a == b,
        (FieldRead::Flag(a), FieldRead::Flag(b)) => a == b,
        (FieldRead::Text(a), FieldRead::Text(b)) => a@ == b@,
        _ => false,
    }
}

/// Reads an optional statistic.
fn opt_read(x: &Option<Rat>) -> (r: FieldRead)
    ensures
        r == k_opt(*x),
{
    match x {
        Some(v) => FieldRead::Num(*v),
        None => FieldRead::Absent,
    }
}

/// Reads the named field of a row.
pub fn lookup_field(row: &SummaryRow, name: &String) -> (r: FieldRead)
    ensures
        read_matches(r, field_kind(*row, name@)),
{
    if *name == String::from_str("Fields") {
        FieldRead::Text(row.name.clone())
    } else if *name == String::from_str("dtype") {
        FieldRead::Text(row.dtype.clone())
    } else if *name == String::from_str("count") {
        FieldRead::Num(row.count)
    } else if *name == String::from_str("n_unique") {
        FieldRead::Num(row.n_unique)
    } else if *name == String::from_str("perc_missing") {
        opt_read(&row.perc_missing)
    } else if *name == String::from_str("perc_zeros") {
        opt_read(&row.perc_zeros)
    } else if *name == String::from_str("num_zeros") {
        opt_read(&row.num_zeros)
    } else if *name == String::from_str("num_negative") {
        opt_read(&row.num_negative)
    } else if *name == String::from_str("perc_negative") {
        opt_read(&row.perc_negative)
    } else if *name == String::from_str("perc_distinct") {
        opt_read(&row.perc_distinct)
    } else if *name == String::from_str("val_most_freq") {
        match &row.val_most_freq {
            None => FieldRead::Absent,
            Some(Value::Num(x)) => FieldRead::Num(*x),
            Some(Value::Bool(b)) => FieldRead::Flag(*b),
            Some(Value::Text(t)) => FieldRead::Text(t.clone()),
        }
    } else if *name == String::from_str("perc_most_freq") {
        opt_read(&row.perc_most_freq)
    } else if *name == String::from_str("min") {
        opt_read(&row.min_val)
    } else if *name == String::from_str("p05") {
        opt_read(&row.p05)
    } else if *name == String::from_str("p25") {
        opt_read(&row.p25)
    } else if *name == String::from_str("median") {
        opt_read(&row.median)
    } else if *name == String::from_str("p75") {
        opt_read(&row.p75)
    } else if *name == String::from_str("p95") {
        opt_read(&row.p95)
    } else if *name == String::from_str("mean") {
        opt_read(&row.mean)
    } else if *name == String::from_str("max") {
        opt_read(&row.max_val)
    } else if *name == String::from_str("skew") {
        opt_read(&row.skew)
    } else if *name == String::from_str("decimal_col") {
        match row.decimal_col {
            Some(b) => FieldRead::Flag(b),
            None => FieldRead::Absent,
        }
    } else if *name == String::from_str("num_missing_partitions") {
        opt_read(&row.num_missing_partitions)
    } else if *name == String::from_str("min_missing_partition") {
        opt_read(&row.min_missing_partition)
    } else if *name == String::from_str("max_missing_partition") {
        opt_read(&row.max_missing_partition)
    } else {
        FieldRead::Unknown
    }
}

/// The predicate is a greater-than comparison of the named field against
/// the constant.
pub open spec fn is_gt(p: Pred, f: Seq<char>, c: Rat) -> bool {
    p matches Pred::Gt(g, k) && g@ == f && k == c
}

/// The predicate is a less-than comparison of the named field.
pub open spec fn is_lt(p: Pred, f: Seq<char>, c: Rat) -> bool {
    p matches Pred::Lt(g, k) && g@ == f && k == c
}

/// The predicate is an at-most comparison of the named field.
pub open spec fn is_le(p: Pred, f: Seq<char>, c: Rat) -> bool {
    p matches Pred::Le(g, k) && g@ == f && k == c
}

/// The predicate is a numeric equality of the named field.
pub open spec fn is_eq_num(p: Pred, f: Seq<char>, c: Rat) -> bool {
    p matches Pred::EqNum(g, k) && g@ == f && k == c
}

/// The predicate is a text equality of the named field.
pub open spec fn is_eq_text(p: Pred, f: Seq<char>, t: Seq<char>) -> bool {
    p matches Pred::EqText(g, k) && g@ == f && k@ == t
}

/// The predicate is an absolute-value comparison of the named field.
pub open spec fn is_abs_gt(p: Pred, f: Seq<char>, c: Rat) -> bool {
    p matches Pred::AbsGt(g, k) && g@ == f && k == c
}

/// The predicate is the truth of the named flag field.
pub open spec fn checks_flag(p: Pred, f: Seq<char>) -> bool {
    p matches Pred::IsTrue(g) && g@ == f
}

/// Three-valued truth of a boolean.
pub open spec fn tri_of(b: bool) -> Tri {
    if b {
        Tri::True
    } else {
        Tri::False
    }
}

/// A value is a member of the list, by rational value.
pub open spec fn in_list(x: Rat, l: Seq<Rat>) -> bool {
    exists|i: int| 0 <= i < l.len() && x.spec_eq_val(#[trigger] l[i])
}

/// Evaluation of a predicate against a row.  `None` means a referenced
/// field is unknown to the table, or a comparison was typed wrongly: the
/// rule holding the predicate fails as a whole.  An absent statistic
/// evaluates to `Null`, which no comparison turns into a match, and the
/// connectives follow three-valued logic.
pub open spec fn eval_pred(p: Pred, row: SummaryRow) -> Option<Tri>
    decreases p,
{
    match p {
        Pred::Gt(f, c) => match field_kind(row, f@) {
            FieldRead::Num(x) => Some(tri_of(c.spec_lt(x))),
            FieldRead::Absent => Some(Tri::Null),
            _ => None,
        },
        Pred::Lt(f, c) => match field_kind(row, f@) {
            FieldRead::Num(x) => Some(tri_of(x.spec_lt(c))),
            FieldRead::Absent => Some(Tri::Null),
            _ => None,
        },
        Pred::Ge(f, c) => match field_kind(row, f@) {
            FieldRead::Num(x) => Some(tri_of(c.spec_le(x))),
            FieldRead::Absent => Some(Tri::Null),
            _ => None,
        },
        Pred::Le(f, c) => match field_kind(row, f@) {
            FieldRead::Num(x) => Some(tri_of(x.spec_le(c))),
            FieldRead::Absent => Some(Tri::Null),
            _ => None,
        },
        Pred::EqNum(f, c) => match field_kind(row, f@) {
            FieldRead::Num(x) => Some(tri_of(x.spec_eq_val(c))),
            FieldRead::Absent => Some(Tri::Null),
            _ => None,
        },
        Pred::EqText(f, c) => match field_kind(row, f@) {
            FieldRead::Text(t) => Some(tri_of(t@ == c@)),
            FieldRead::Absent => Some(Tri::Null),
            _ => None,
        },
        Pred::AbsGt(f, c) => match field_kind(row, f@) {
            FieldRead::Num(x) => Some(tri_of(c.spec_lt(x.spec_abs()))),
            FieldRead::Absent => Some(Tri::Null),
            _ => None,
        },
        Pred::IsTrue(f) => match field_kind(row, f@) {
            FieldRead::Flag(b) => Some(tri_of(b)),
            FieldRead::Absent => Some(Tri::Null),
            _ => None,
        },
        Pred::InNum(f, l) => match field_kind(row, f@) {
            FieldRead::Num(x) => Some(tri_of(in_list(x, l@))),
            FieldRead::Absent => Some(Tri::Null),
            _ => None,
        },
        Pred::And(a, b) => match (eval_pred(*a, row), eval_pred(*b, row)) {
            (Some(x), Some(y)) => Some(tri_and(x, y)),
            _ => None,
        },
        Pred::Or(a, b) => match (eval_pred(*a, row), eval_pred(*b, row)) {
            (Some(x), Some(y)) => Some(tri_or(x, y)),
            _ => None,
        },
        Pred::Not(a) => match eval_pred(*a, row) {
            Some(x) => Some(tri_not(x)),
            None => None,
        },
    }
}

/// Three-valued conjunction.
pub open spec fn tri_and(a: Tri, b: Tri) -> Tri {
    if a is False || b is False {
        Tri::False
    } else if a is Null || b is Null {
        Tri::Null
    } else {
        Tri::True
    }
}

/// Three-valued disjunction.
pub open spec fn tri_or(a: Tri, b: Tri) -> Tri {
    if a is True || b is True {
        Tri::True
    } else if a is Null || b is Null {
        Tri::Null
    } else {
        Tri::False
    }
}

/// Three-valued negation.
pub open spec fn tri_not(a: Tri) -> Tri {
    match a {
        Tri::True => Tri::False,
        Tri::False => Tri::True,
        Tri::Null => Tri::Null,
    }
}

/// Evaluates a predicate against a row.
pub fn eval(p: &Pred, row: &SummaryRow) -> (r: Option<Tri>)
    requires
        pred_wf(*p),
        row.row_wf(),
    ensures
        r == eval_pred(*p, *row),
    decreases *p,
{
    match p {
        Pred::Gt(f, c) => match lookup_field(row, f) {
            FieldRead::Num(x) => {
                proof {
                    lemma_lookup_num_wf(*row, f@, x);
                }
                Some(if c.lt(x) {
                    Tri::True
                } else {
                    Tri::False
                })
            },
            FieldRead::Absent => Some(Tri::Null),
            _ => None,
        },
        Pred::Lt(f, c) => match lookup_field(row, f) {
            FieldRead::Num(x) => {
                proof {
                    lemma_lookup_num_wf(*row, f@, x);
                }
                Some(if x.lt(*c) {
                    Tri::True
                } else {
                    Tri::False
                })
            },
            FieldRead::Absent => Some(Tri::Null),
            _ => None,
        },
        Pred::Ge(f, c) => match lookup_field(row, f) {
            FieldRead::Num(x) => {
                proof {
                    lemma_lookup_num_wf(*row, f@, x);
                }
                Some(if c.le(x) {
                    Tri::True
                } else {
                    Tri::False
                })
            },
            FieldRead::Absent => Some(Tri::Null),
            _ => None,
        },
        Pred::Le(f, c) => match lookup_field(row, f) {
            FieldRead::Num(x) => {
                proof {
                    lemma_lookup_num_wf(*row, f@, x);
                }
                Some(if x.le(*c) {
                    Tri::True
                } else {
                    Tri::False
                })
            },
            FieldRead::Absent => Some(Tri::Null),
            _ => None,
        },
        Pred::EqNum(f, c) => match lookup_field(row, f) {
            FieldRead::Num(x) => {
                proof {
                    lemma_lookup_num_wf(*row, f@, x);
                }
                Some(if x.eq_val(*c) {
                    Tri::True
                } else {
                    Tri::False
                })
            },
            FieldRead::Absent => Some(Tri::Null),
            _ => None,
        },
        Pred::EqText(f, c) => match lookup_field(row, f) {
            FieldRead::Text(t) => Some(
                if t == *c {
                    Tri::True
                } else {
                    Tri::False
                },
            ),
            FieldRead::Absent => Some(Tri::Null),
            _ => None,
        },
        Pred::AbsGt(f, c) => match lookup_field(row, f) {
            FieldRead::Num(x) => {
                proof {
                    lemma_lookup_num_wf(*row, f@, x);
                }
                Some(if c.lt(x.abs()) {
                    Tri::True
                } else {
                    Tri::False
                })
            },
            FieldRead::Absent => Some(Tri::Null),
            _ => None,
        },
        Pred::IsTrue(f) => match lookup_field(row, f) {
            FieldRead::Flag(b) => Some(
                if b {
                    Tri::True
                } else {
                    Tri::False
                },
            ),
            FieldRead::Absent => Some(Tri::Null),
            _ => None,
        },
        Pred::InNum(f, l) => match lookup_field(row, f) {
            FieldRead::Num(x) => {
                proof {
                    lemma_lookup_num_wf(*row, f@, x);
                }
                let mut found = false;
                let mut i: usize = 0;
                while i < l.len()
                    invariant
                        i <= l@.len(),
                        x.wf(),
                        forall|t: int| 0 <= t < l@.len() ==> (#[trigger] l@[t]).wf(),
                        found == exists|t: int|
                            0 <= t < i && x.spec_eq_val(#[trigger] l@[t]),
                    decreases l@.len() - i,
                {
                    if x.eq_val(l[i]) {
                        found = true;
                    }
                    i = i + 1;
                }
                Some(if found {
                    Tri::True
                } else {
                    Tri::False
                })
            },
            FieldRead::Absent => Some(Tri::Null),
            _ => None,
        },
        Pred::And(a, b) => {
            let ra = eval(&**a, row);
            let rb = eval(&**b, row);
            match (ra, rb) {
                (Some(x), Some(y)) => Some(
                    if matches!(x, Tri::False) || matches!(y, Tri::False) {
                        Tri::False
                    } else if matches!(x, Tri::Null) || matches!(y, Tri::Null) {
                        Tri::Null
                    } else {
                        Tri::True
                    },
                ),
                _ => None,
            }
        },
        Pred::Or(a, b) => {
            let ra = eval(&**a, row);
            let rb = eval(&**b, row);
            match (ra, rb) {
                (Some(x), Some(y)) => Some(
                    if matches!(x, Tri::True) || matches!(y, Tri::True) {
                        Tri::True
                    } else if matches!(x, Tri::Null) || matches!(y, Tri::Null) {
                        Tri::Null
                    } else {
                        Tri::False
                    },
                ),
                _ => None,
            }
        },
        Pred::Not(a) => match eval(&**a, row) {
            Some(x) => Some(
                match x {
                    Tri::True => Tri::False,
                    Tri::False => Tri::True,
                    Tri::Null => Tri::Null,
                },
            ),
            None => None,
        },
    }
}

/// A numeric reading of a well-formed row is well formed.
pub proof fn lemma_lookup_num_wf(row: SummaryRow, name: Seq<char>, x: Rat)
    requires
        row.row_wf(),
        field_kind(row, name) == FieldRead::Num(x),
    ensures
        x.wf(),
{
}

} // verus!
