use vstd::prelude::*;
use vstd::string::StringExecFns;
use crate::rat::Rat;
use crate::render::{rat_digits, push_rat, dec_digits, u64_to_string};
use crate::rules::{Pred, Tri, FieldRead, pred_wf, field_kind, eval_pred, eval, lookup_field,
    is_gt, is_lt, is_le, is_eq_num, is_eq_text, is_abs_gt, checks_flag};
use crate::summary::{SummaryRow, SummaryTable, Summary, table_matches, row_matches, spec_key_of};
use crate::dataset::{Dataset, cell_sim};
use crate::dataset::sample_to_cap;

verus! {

/// A severity-tagged predicate over one summary row, with the list of
/// fields to surface in the warning text and an optional message prefix.
/// Level zero is the most severe; higher levels are advisory.
pub struct DataQualityRule {
    pub level: u32,
    pub condition: Pred,
    pub fields: Vec<String>,
    pub msg: Option<String>,
}

impl DataQualityRule {
    /// The rule's rational constants are well formed.
    pub open spec fn wf(self) -> bool {
        pred_wf(self.condition)
    }
}

/// One rule match tied to one source column.
pub struct DataQualityWarning {
    pub level: u32,
    pub field: String,
    pub msg: String,
}

/// The mathematical reading of a warning: its texts as character
/// sequences.
pub struct WarnV {
    pub level: u32,
    pub field: Seq<char>,
    pub msg: Seq<char>,
}

impl View for DataQualityWarning {
    type V = WarnV;

    open spec fn view(&self) -> WarnV {
        WarnV { level: self.level, field: self.field@, msg: self.msg@ }
    }
}

/// The views of a sequence of warnings.
pub open spec fn views_of(s: Seq<DataQualityWarning>) -> Seq<WarnV> {
    s.map_values(|w: DataQualityWarning| w@)
}

/// The rendering of one field of a row in a warning message: a number by
/// its digits, a flag as `true` or `false`, a text as itself, and an
/// absent or unknown statistic as the `null` placeholder.
pub open spec fn field_text(row: SummaryRow, name: Seq<char>) -> Seq<char> {
    match field_kind(row, name) {
        FieldRead::Num(x) => rat_digits(x),
        FieldRead::Flag(b) => if b {
            "true"@
        } else {
            "false"@
        },
        FieldRead::Text(t) => t@,
        _ => "null"@,
    }
}

/// The comma-joined `name: value` parts of a warning message.
pub open spec fn fields_text(row: SummaryRow, fs: Seq<String>) -> Seq<char>
    decreases fs.len(),
{
    if fs.len() == 0 {
        Seq::empty()
    } else {
        fields_text(row, fs.drop_last()) + (if fs.len() > 1 {
            ", "@
        } else {
            Seq::<char>::empty()
        }) + fs.last()@ + ": "@ + field_text(row, fs.last()@)
    }
}

/// The message of a warning: the rule's prefix (followed by one space)
/// and the rendered fields.
pub open spec fn warn_msg(msg: Option<String>, fs: Seq<String>, row: SummaryRow) -> Seq<char> {
    (match msg {
        Some(m) => m@ + " "@,
        None => Seq::<char>::empty(),
    }) + fields_text(row, fs)
}

/// The warning a rule raises for a matching row.
pub open spec fn warn_of(rule: DataQualityRule, row: SummaryRow) -> WarnV {
    WarnV { level: rule.level, field: row.name@, msg: warn_msg(rule.msg, rule.fields@, row) }
}

/// The rule's condition can be evaluated on every row of the table.
pub open spec fn rule_defined(rule: DataQualityRule, rows: Seq<SummaryRow>) -> bool {
    forall|j: int| 0 <= j < rows.len() ==> eval_pred(rule.condition, #[trigger] rows[j]) is Some
}

/// The warnings a rule raises, one per matching row, in table row order.
pub open spec fn rule_hits(rule: DataQualityRule, rows: Seq<SummaryRow>) -> Seq<WarnV>
    decreases rows.len(),
{
    if rows.len() == 0 {
        Seq::empty()
    } else {
        rule_hits(rule, rows.drop_last()) + (if eval_pred(rule.condition, rows.last()) == Some(
            Tri::True,
        ) {
            seq![warn_of(rule, rows.last())]
        } else {
            Seq::<WarnV>::empty()
        })
    }
}

/// What a rule contributes: its matches, or nothing at all when its
/// condition cannot be evaluated on this table (a recoverable failure of
/// that rule only).
pub open spec fn rule_warns(rule: DataQualityRule, rows: Seq<SummaryRow>) -> Seq<WarnV> {
    if rule_defined(rule, rows) {
        rule_hits(rule, rows)
    } else {
        Seq::empty()
    }
}

/// All warnings of the rules at or below the severity threshold, in rule
/// order, rows in table order within each rule.
pub open spec fn warns_spec(
    rules: Seq<DataQualityRule>,
    rows: Seq<SummaryRow>,
    lvl: u32,
) -> Seq<WarnV>
    decreases rules.len(),
{
    if rules.len() == 0 {
        Seq::empty()
    } else {
        warns_spec(rules.drop_last(), rows, lvl) + (if rules.last().level <= lvl {
            rule_warns(rules.last(), rows)
        } else {
            Seq::<WarnV>::empty()
        })
    }
}

/// Appends the rendering of one field of a row.
fn push_field_text(s: &mut String, row: &SummaryRow, name: &String)
    requires
        row.row_wf(),
    ensures
        final(s)@ == old(s)@ + field_text(*row, name@),
{
    match lookup_field(row, name) {
        FieldRead::Num(x) => {
            proof {
                crate::rules::lemma_lookup_num_wf(*row, name@, x);
            }
            push_rat(s, x);
        },
        FieldRead::Flag(b) => {
            if b {
                proof {
                    reveal_strlit("true");
                }
                s.append("true");
            } else {
                proof {
                    reveal_strlit("false");
                }
                s.append("false");
            }
        },
        FieldRead::Text(t) => {
            s.append(t.as_str());
        },
        _ => {
            proof {
                reveal_strlit("null");
            }
            s.append("null");
        },
    }
}

/// Renders the message of one warning.
fn render_msg(rule: &DataQualityRule, row: &SummaryRow) -> (m: String)
    requires
        row.row_wf(),
    ensures
        m@ == warn_msg(rule.msg, rule.fields@, *row),
{
    let mut s = String::new();
    match &rule.msg {
        Some(m) => {
            s.append(m.as_str());
            proof {
                reveal_strlit(" ");
            }
            s.append(" ");
        },
        None => {},
    }
    let ghost prefix = s@;
    let mut i: usize = 0;
    while i < rule.fields.len()
        invariant
            i <= rule.fields@.len(),
            row.row_wf(),
            s@ == prefix + fields_text(*row, rule.fields@.take(i as int)),
        decreases rule.fields@.len() - i,
    {
        proof {
            assert(rule.fields@.take(i + 1).drop_last() =~= rule.fields@.take(i as int));
        }
        if i > 0 {
            proof {
                reveal_strlit(", ");
            }
            s.append(", ");
        }
        s.append(rule.fields[i].as_str());
        proof {
            reveal_strlit(": ");
        }
        s.append(": ");
        push_field_text(&mut s, row, &rule.fields[i]);
        proof {
            assert(s@ =~= prefix + fields_text(*row, rule.fields@.take(i + 1)));
        }
        i = i + 1;
    }
    proof {
        assert(rule.fields@.take(rule.fields@.len() as int) =~= rule.fields@);
        assert(s@ =~= warn_msg(rule.msg, rule.fields@, *row));
    }
    s
}

/// Every row of the table satisfies its well-formedness bounds.
pub open spec fn rows_wf(rows: Seq<SummaryRow>) -> bool {
    forall|j: int| 0 <= j < rows.len() ==> (#[trigger] rows[j]).row_wf()
}

/// Evaluates one rule against one row: whether the condition could be
/// evaluated, and the warning when it matched.
fn rule_row_warn(rule: &DataQualityRule, row: &SummaryRow) -> (r: (
    bool,
    Option<DataQualityWarning>,
))
    requires
        rule.wf(),
        row.row_wf(),
    ensures
        r.0 == (eval_pred(rule.condition, *row) is Some),
        (r.1 is Some) == (eval_pred(rule.condition, *row) == Some(Tri::True)),
        r.1 matches Some(w) ==> w@ == warn_of(*rule, *row),
{
    match eval(&rule.condition, row) {
        None => (false, None),
        Some(t) => {
            if matches!(t, Tri::True) {
                let warn = DataQualityWarning {
                    level: rule.level,
                    field: row.name.clone(),
                    msg: render_msg(rule, row),
                };
                (true, Some(warn))
            } else {
                (true, None)
            }
        },
    }
}

/// The warnings one rule raises against a table: one per matching row, or
/// none when the rule's condition cannot be evaluated here.
fn warns_from_rule(rule: &DataQualityRule, rows: &Vec<SummaryRow>) -> (w: Vec<DataQualityWarning>)
    requires
        rule.wf(),
        rows_wf(rows@),
    ensures
        views_of(w@) == rule_warns(*rule, rows@),
{
    let mut acc: Vec<DataQualityWarning> = Vec::new();
    let mut i: usize = 0;
    while i < rows.len()
        invariant
            i <= rows@.len(),
            rule.wf(),
            rows_wf(rows@),
            views_of(acc@) =~= rule_hits(*rule, rows@.take(i as int)),
            forall|j: int| 0 <= j < i ==> eval_pred(rule.condition, #[trigger] rows@[j]) is Some,
        decreases rows@.len() - i,
    {
        proof {
            assert(rows@.take(i + 1).drop_last() =~= rows@.take(i as int));
        }
        let (defined, hit) = rule_row_warn(rule, &rows[i]);
        if !defined {
            proof {
                assert(!rule_defined(*rule, rows@));
            }
            return Vec::new();
        }
        match hit {
            Some(warn) => {
                acc.push(warn);
                proof {
                    assert(views_of(acc@) =~= rule_hits(*rule, rows@.take(i + 1)));
                }
            },
            None => {
                proof {
                    assert(views_of(acc@) =~= rule_hits(*rule, rows@.take(i + 1)));
                }
            },
        }
        i = i + 1;
    }
    proof {
        assert(rows@.take(rows@.len() as int) =~= rows@);
        assert(rule_defined(*rule, rows@));
    }
    acc
}

/// All rules' rational constants are well formed.
pub open spec fn rules_wf(rules: Seq<DataQualityRule>) -> bool {
    forall|j: int| 0 <= j < rules.len() ==> (#[trigger] rules[j]).wf()
}

/// All warnings of the rules at or below the threshold, against a table.
pub fn warnings_of(rules: &Vec<DataQualityRule>, rows: &Vec<SummaryRow>, min_level: u32) -> (w: Vec<
    DataQualityWarning,
>)
    requires
        rules_wf(rules@),
        rows_wf(rows@),
    ensures
        views_of(w@) == warns_spec(rules@, rows@, min_level),
{
    let mut acc: Vec<DataQualityWarning> = Vec::new();
    let mut i: usize = 0;
    while i < rules.len()
        invariant
            i <= rules@.len(),
            rules_wf(rules@),
            rows_wf(rows@),
            views_of(acc@) =~= warns_spec(rules@.take(i as int), rows@, min_level),
        decreases rules@.len() - i,
    {
        proof {
            assert(rules@.take(i + 1).drop_last() =~= rules@.take(i as int));
        }
        if rules[i].level <= min_level {
            let mut block = warns_from_rule(&rules[i], rows);
            proof {
                let ghost old_acc = acc@;
                let ghost b = block@;
                assert(views_of(old_acc + b) =~= views_of(old_acc) + views_of(b));
            }
            acc.append(&mut block);
        }
        proof {
            assert(views_of(acc@) =~= warns_spec(rules@.take(i + 1), rows@, min_level));
        }
        i = i + 1;
    }
    proof {
        assert(rules@.take(rules@.len() as int) =~= rules@);
    }
    acc
}

/// Number of warnings at exactly one level.
pub open spec fn count_level(ws: Seq<WarnV>, l: int) -> nat
    decreases ws.len(),
{
    if ws.len() == 0 {
        0
    } else {
        count_level(ws.drop_last(), l) + if ws.last().level == l {
            1nat
        } else {
            0nat
        }
    }
}

/// The greatest level among the warnings (zero when there are none).
pub open spec fn max_level(ws: Seq<WarnV>) -> int
    decreases ws.len(),
{
    if ws.len() == 0 {
        0
    } else {
        let m = max_level(ws.drop_last());
        if ws.last().level >= m {
            ws.last().level as int
        } else {
            m
        }
    }
}

/// The `S<level>:<count>` parts of the summary line for the levels from
/// `l` up to (excluding) `lmax`, comma-separated, skipping empty levels;
/// `first` says whether no part has been written yet.
pub open spec fn counts_text(ws: Seq<WarnV>, l: int, lmax: int, first: bool) -> Seq<char>
    decreases lmax - l,
{
    if l >= lmax {
        Seq::empty()
    } else {
        let c = count_level(ws, l);
        if c > 0 {
            (if first {
                Seq::<char>::empty()
            } else {
                ", "@
            }) + "S"@ + dec_digits(l as nat) + ":"@ + dec_digits(c) + counts_text(
                ws,
                l + 1,
                lmax,
                false,
            )
        } else {
            counts_text(ws, l + 1, lmax, first)
        }
    }
}

/// The summary line: warning counts by ascending level, or the sentinel
/// when there is no warning at all.
pub open spec fn summary_text(ws: Seq<WarnV>) -> Seq<char> {
    if ws.len() == 0 {
        "No Warnings"@
    } else {
        counts_text(ws, 0, max_level(ws) + 1, true)
    }
}

/// One line of the detail text: a structured rendering of level, field
/// and message, in that order.
pub open spec fn warn_line(w: WarnV) -> Seq<char> {
    "DataQualityWarning { level: "@ + dec_digits(w.level as nat) + ", field: \""@ + w.field
        + "\", msg: \""@ + w.msg + "\" }"@
}

/// The detail text: one line per warning, each preceded by a newline.
pub open spec fn detail_text(ws: Seq<WarnV>) -> Seq<char>
    decreases ws.len(),
{
    if ws.len() == 0 {
        Seq::empty()
    } else {
        detail_text(ws.drop_last()) + "\n"@ + warn_line(ws.last())
    }
}

/// The full report: the title line, the summary line, and the detail
/// lines.
pub open spec fn report_text(ws: Seq<WarnV>) -> Seq<char> {
    "Data Quality Report"@ + "\n"@ + summary_text(ws) + "\n"@ + detail_text(ws)
}

/// Counts the warnings at exactly one level.
fn count_level_of(warns: &Vec<DataQualityWarning>, l: u32) -> (c: usize)
    ensures
        c == count_level(views_of(warns@), l as int),
        c <= warns@.len(),
{
    let mut c: usize = 0;
    let mut i: usize = 0;
    while i < warns.len()
        invariant
            i <= warns@.len(),
            c == count_level(views_of(warns@.take(i as int)), l as int),
            c <= i,
        decreases warns@.len() - i,
    {
        proof {
            assert(views_of(warns@.take(i + 1)).drop_last() =~= views_of(warns@.take(i as int)));
            assert(views_of(warns@.take(i + 1)).last() == warns@[i as int]@);
        }
        if warns[i].level == l {
            c = c + 1;
        }
        i = i + 1;
    }
    proof {
        assert(warns@.take(warns@.len() as int) =~= warns@);
    }
    c
}

/// The greatest level among the warnings.
fn max_level_of(warns: &Vec<DataQualityWarning>) -> (m: u32)
    ensures
        m as int == max_level(views_of(warns@)),
{
    let mut m: u32 = 0;
    let mut i: usize = 0;
    while i < warns.len()
        invariant
            i <= warns@.len(),
            m as int == max_level(views_of(warns@.take(i as int))),
        decreases warns@.len() - i,
    {
        proof {
            assert(views_of(warns@.take(i + 1)).drop_last() =~= views_of(warns@.take(i as int)));
            assert(views_of(warns@.take(i + 1)).last() == warns@[i as int]@);
        }
        if warns[i].level > m {
            m = warns[i].level;
        }
        i = i + 1;
    }
    proof {
        assert(warns@.take(warns@.len() as int) =~= warns@);
    }
    m
}

/// Renders the summary line for a warning list.
fn summary_str_of(warns: &Vec<DataQualityWarning>) -> (s: String)
    ensures
        s@ == summary_text(views_of(warns@)),
{
    if warns.len() == 0 {
        proof {
            assert(views_of(warns@).len() == 0);
        }
        return String::from_str("No Warnings");
    }
    proof {
        assert(views_of(warns@).len() == warns@.len());
    }
    let maxl = max_level_of(warns);
    let ghost ws = views_of(warns@);
    let ghost lmax: int = max_level(ws) + 1;
    let mut s = String::new();
    let mut first: bool = true;
    let mut l: u64 = 0;
    while l <= maxl as u64
        invariant
            l <= maxl as u64 + 1,
            ws == views_of(warns@),
            lmax == max_level(ws) + 1,
            maxl as int == max_level(ws),
            warns@.len() > 0,
            counts_text(ws, 0, lmax, true) =~= s@ + counts_text(ws, l as int, lmax, first),
        decreases maxl as u64 + 1 - l,
    {
        let c = count_level_of(warns, l as u32);
        if c > 0 {
            if !first {
                proof {
                    reveal_strlit(", ");
                }
                s.append(", ");
            }
            proof {
                reveal_strlit("S");
                reveal_strlit(":");
            }
            s.append("S");
            let ls = u64_to_string(l);
            s.append(ls.as_str());
            s.append(":");
            let cs = u64_to_string(c as u64);
            s.append(cs.as_str());
            first = false;
        }
        l = l + 1;
    }
    proof {
        assert(counts_text(ws, lmax, lmax, first) =~= Seq::<char>::empty());
        assert(s@ =~= counts_text(ws, 0, lmax, true));
    }
    s
}

/// Renders the detail lines for a warning list.
fn detail_str_of(warns: &Vec<DataQualityWarning>) -> (s: String)
    ensures
        s@ == detail_text(views_of(warns@)),
{
    let mut s = String::new();
    let mut i: usize = 0;
    while i < warns.len()
        invariant
            i <= warns@.len(),
            s@ == detail_text(views_of(warns@.take(i as int))),
        decreases warns@.len() - i,
    {
        proof {
            assert(views_of(warns@.take(i + 1)).drop_last() =~= views_of(warns@.take(i as int)));
            assert(views_of(warns@.take(i + 1)).last() == warns@[i as int]@);
            reveal_strlit("\n");
            reveal_strlit("DataQualityWarning { level: ");
            reveal_strlit(", field: \"");
            reveal_strlit("\", msg: \"");
            reveal_strlit("\" }");
        }
        s.append("\n");
        s.append("DataQualityWarning { level: ");
        let ls = u64_to_string(warns[i].level as u64);
        s.append(ls.as_str());
        s.append(", field: \"");
        s.append(warns[i].field.as_str());
        s.append("\", msg: \"");
        s.append(warns[i].msg.as_str());
        s.append("\" }");
        proof {
            assert(s@ =~= detail_text(views_of(warns@.take(i + 1))));
        }
        i = i + 1;
    }
    proof {
        assert(warns@.take(warns@.len() as int) =~= warns@);
    }
    s
}

/// Why a report could not be built.
#[derive(Clone, Copy, Debug, PartialEq, Eq, Structural)]
pub enum DataQualityError {
    /// The dataset has no columns at all.
    EmptyDataset,
}

/// A data quality report: the summary table of one dataset snapshot and
/// the rule set applied to it.  The ghost fields name the snapshot the
/// table was computed from (the dataset after the optional row cap).
pub struct DataQualityReport {
    pub summary_table: SummaryTable,
    pub rules: Vec<DataQualityRule>,
    pub eff: Ghost<Dataset>,
    pub missing_key: Ghost<Seq<char>>,
}

impl DataQualityReport {
    /// The table matches the snapshot, and all rationals are well formed.
    pub open spec fn wf(self) -> bool {
        &&& self.eff@.wf()
        &&& table_matches(self.eff@, self.missing_key@, self.summary_table)
        &&& rules_wf(self.rules@)
    }

    /// The rows of a matching table satisfy their bounds.
    pub proof fn lemma_rows_wf(self)
        requires
            self.wf(),
        ensures
            rows_wf(self.summary_table.rows@),
    {
        assert forall|j: int| 0 <= j < self.summary_table.rows@.len() implies (
        #[trigger] self.summary_table.rows@[j]).row_wf() by {
            assert(row_matches(
                self.summary_table.rows@[j],
                self.eff@.cols@[j].name@,
                self.eff@.cols@[j].values@,
                self.eff@.cols@[j].dtype,
                spec_key_of(self.eff@, self.missing_key@),
            ));
        }
    }

    /// The warnings of the report's rules at or below the threshold, in
    /// rule order, rows in table order within each rule.  Raising the
    /// threshold only ever appends matches: see
    /// `crate::laws::lemma_severity_monotone` over this function's
    /// `warns_spec`.
    pub fn warnings(&self, min_dq_level: u32) -> (w: Vec<DataQualityWarning>)
        requires
            self.wf(),
        ensures
            views_of(w@) == warns_spec(self.rules@, self.summary_table.rows@, min_dq_level),
    {
        proof {
            self.lemma_rows_wf();
        }
        warnings_of(&self.rules, &self.summary_table.rows, min_dq_level)
    }

    /// The summary line: warning counts grouped by level, ascending, or
    /// exactly `No Warnings` when no rule matched.  The rendered counts
    /// sum to the warning count: see
    /// `crate::laws::lemma_count_consistency` over the `count_level`
    /// values this line renders.
    pub fn warnings_summary_str(&self, min_dq_level: u32) -> (s: String)
        requires
            self.wf(),
        ensures
            s@ == summary_text(warns_spec(self.rules@, self.summary_table.rows@, min_dq_level)),
            warns_spec(self.rules@, self.summary_table.rows@, min_dq_level).len() == 0 ==> s@
                == "No Warnings"@,
    {
        let warns = self.warnings(min_dq_level);
        summary_str_of(&warns)
    }

    /// The detail lines: one structured line per warning, each preceded
    /// by a newline.
    pub fn warnings_detail_str(&self, min_dq_level: u32) -> (s: String)
        requires
            self.wf(),
        ensures
            s@ == detail_text(warns_spec(self.rules@, self.summary_table.rows@, min_dq_level)),
    {
        let warns = self.warnings(min_dq_level);
        detail_str_of(&warns)
    }

    /// The full report: title, summary line, detail lines.
    pub fn warnings_report_str(&self, min_dq_level: u32) -> (s: String)
        requires
            self.wf(),
        ensures
            s@ == report_text(warns_spec(self.rules@, self.summary_table.rows@, min_dq_level)),
    {
        let mut s = String::new();
        proof {
            reveal_strlit("Data Quality Report");
            reveal_strlit("\n");
        }
        s.append("Data Quality Report");
        s.append("\n");
        let sum = self.warnings_summary_str(min_dq_level);
        s.append(sum.as_str());
        s.append("\n");
        let det = self.warnings_detail_str(min_dq_level);
        s.append(det.as_str());
        s
    }
}

/// The rows of `eff` were drawn without replacement from `src` at the
/// positions `picks`, column for column.
pub open spec fn sampled_with(src: Dataset, eff: Dataset, picks: Seq<int>) -> bool {
    &&& picks.len() == eff.spec_height()
    &&& forall|i: int| 0 <= i < picks.len() ==> 0 <= #[trigger] picks[i] < src.spec_height()
    &&& forall|i: int, j: int| 0 <= i < j < picks.len() ==> picks[i] != picks[j]
    &&& forall|c: int, i: int|
        0 <= c < src.cols@.len() && 0 <= i < picks.len() ==> cell_sim(
            src.cols@[c].values@[picks[i]],
            #[trigger] eff.cols@[c].values@[i],
        )
}

/// Step-by-step configuration of a report: the dataset, the missing-by
/// column name, the rule set (the feature-oriented canonical set unless
/// replaced) and an optional row cap.  Configuration has no side effect;
/// sampling and summarization happen in `build` alone.
pub struct DataQualityReportBuilder {
    pub ds: Dataset,
    pub missing_by_name: String,
    pub rules: Vec<DataQualityRule>,
    pub max_rows_cap: Option<usize>,
}

impl DataQualityReportBuilder {
    /// Starts a report over a dataset, with the feature-oriented rule set
    /// and missing-by column `active_date`.
    pub fn new(ds: Dataset) -> (b: DataQualityReportBuilder)
        ensures
            b.ds == ds,
            b.missing_by_name@ == "active_date"@,
            b.max_rows_cap is None,
            rules_wf(b.rules@),
            is_feature_rules(b.rules@),
    {
        DataQualityReportBuilder {
            ds,
            missing_by_name: String::from_str("active_date"),
            rules: feature_rules(),
            max_rows_cap: None,
        }
    }

    /// Replaces the missing-by column name.
    pub fn missing_by(self, name: String) -> (b: DataQualityReportBuilder)
        ensures
            b.ds == self.ds,
            b.missing_by_name == name,
            b.rules == self.rules,
            b.max_rows_cap == self.max_rows_cap,
    {
        DataQualityReportBuilder {
            ds: self.ds,
            missing_by_name: name,
            rules: self.rules,
            max_rows_cap: self.max_rows_cap,
        }
    }

    /// Replaces the rule set.
    pub fn rules(self, rules: Vec<DataQualityRule>) -> (b: DataQualityReportBuilder)
        ensures
            b.ds == self.ds,
            b.missing_by_name == self.missing_by_name,
            b.rules == rules,
            b.max_rows_cap == self.max_rows_cap,
    {
        DataQualityReportBuilder {
            ds: self.ds,
            missing_by_name: self.missing_by_name,
            rules,
            max_rows_cap: self.max_rows_cap,
        }
    }

    /// Caps the number of rows: a larger dataset is sampled down to
    /// `max_rows` rows in `build`.
    pub fn max_rows(self, max_rows: usize) -> (b: DataQualityReportBuilder)
        ensures
            b.ds == self.ds,
            b.missing_by_name == self.missing_by_name,
            b.rules == self.rules,
            b.max_rows_cap == Some(max_rows),
    {
        DataQualityReportBuilder {
            ds: self.ds,
            missing_by_name: self.missing_by_name,
            rules: self.rules,
            max_rows_cap: Some(max_rows),
        }
    }

    /// Builds the report: applies the row cap (a uniform random sample
    /// without replacement, never an error), summarizes the resulting
    /// snapshot, and pairs the summary table with the rule set.  Fails
    /// exactly when the dataset has no columns.
    pub fn build(self) -> (r: Result<DataQualityReport, DataQualityError>)
        requires
            self.ds.wf(),
            rules_wf(self.rules@),
        ensures
            r is Err <==> self.ds.cols@.len() == 0,
            r matches Ok(rep) ==> {
                &&& rep.wf()
                &&& rep.rules == self.rules
                &&& rep.missing_key@ == self.missing_by_name@
                &&& rep.eff@.cols@.len() == self.ds.cols@.len()
                &&& forall|c: int|
                    0 <= c < self.ds.cols@.len() ==> (#[trigger] rep.eff@.cols@[c]).name@
                        == self.ds.cols@[c].name@ && rep.eff@.cols@[c].dtype
                        == self.ds.cols@[c].dtype
                &&& rep.summary_table.rows@.len() == self.ds.cols@.len()
                &&& (match self.max_rows_cap {
                    Some(cap) => rep.eff@.spec_height() == vstd::math::min(
                        cap as int,
                        self.ds.spec_height() as int,
                    ) && (exists|picks: Seq<int>| sampled_with(self.ds, rep.eff@, picks)) && (
                    self.ds.spec_height() <= cap ==> rep.eff@ == self.ds),
                    None => rep.eff@ == self.ds,
                })
            },
    {
        if self.ds.cols.len() == 0 {
            return Err(DataQualityError::EmptyDataset);
        }
        let ghost src = self.ds;
        let eff: Dataset = match self.max_rows_cap {
            Some(cap) => {
                let (eff, picks) = sample_to_cap(self.ds, cap);
                proof {
                    assert(sampled_with(src, eff, picks@));
                }
                eff
            },
            None => self.ds,
        };
        let table = eff.summarize(self.missing_by_name.clone());
        let report = DataQualityReport {
            summary_table: table,
            rules: self.rules,
            eff: Ghost(eff),
            missing_key: Ghost(self.missing_by_name@),
        };
        Ok(report)
    }
}

/// The character sequences of a list of field names.
pub open spec fn strs_v(s: Seq<String>) -> Seq<Seq<char>> {
    s.map_values(|f: String| f@)
}

/// The character sequence of an optional message prefix.
pub open spec fn msg_v(m: Option<String>) -> Option<Seq<char>> {
    match m {
        Some(s) => Some(s@),
        None => None,
    }
}

/// The canonical target-oriented rule set, rule by rule: level, condition
/// shape, surfaced fields and message prefix of each of its ten rules.
pub open spec fn is_target_rules(rs: Seq<DataQualityRule>) -> bool {
    &&& rs.len() == 10
    &&& rs[0].level == 0 && is_gt(rs[0].condition, "perc_missing"@, Rat { num: 0, den: 1 })
        && strs_v(rs[0].fields@) == seq!["perc_missing"@] && msg_v(rs[0].msg) is None
    &&& rs[1].level == 0 && is_eq_text(rs[1].condition, "dtype"@, "object"@) && strs_v(
        rs[1].fields@,
    ) == seq!["dtype"@] && msg_v(rs[1].msg) is None
    &&& rs[2].level == 0 && is_eq_num(rs[2].condition, "n_unique"@, Rat { num: 0, den: 1 })
        && strs_v(rs[2].fields@) == seq!["n_unique"@, "mean"@] && msg_v(rs[2].msg) is None
    &&& rs[3].level == 0 && is_gt(
        rs[3].condition,
        "num_missing_partitions"@,
        Rat { num: 0, den: 1 },
    ) && strs_v(rs[3].fields@) == seq![
        "num_missing_partitions"@,
        "min_missing_partition"@,
        "max_missing_partition"@,
    ] && msg_v(rs[3].msg) is None
    &&& rs[4].level == 1 && (rs[4].condition matches Pred::And(a, b) && is_gt(
        *a,
        "perc_negative"@,
        Rat { num: 0, den: 1 },
    ) && is_lt(*b, "perc_negative"@, Rat { num: 1, den: 20 })) && strs_v(rs[4].fields@) == seq![
        "perc_negative"@,
        "num_negative"@,
        "min"@,
    ] && msg_v(rs[4].msg) is None
    &&& rs[5].level == 1 && (rs[5].condition matches Pred::And(a, b) && (
    *a matches Pred::Or(c, d) && is_gt(*c, "n_unique"@, Rat { num: 30, den: 1 }) && checks_flag(
        *d,
        "decimal_col"@,
    )) && is_gt(*b, "perc_most_freq"@, Rat { num: 2, den: 5 })) && strs_v(rs[5].fields@) == seq![
        "perc_most_freq"@,
        "val_most_freq"@,
    ] && msg_v(rs[5].msg) == Some("High percentage of a single value"@)
    &&& rs[6].level == 2 && is_gt(rs[6].condition, "perc_zeros"@, Rat { num: 1, den: 2 })
        && strs_v(rs[6].fields@) == seq!["perc_zeros"@] && msg_v(rs[6].msg) is None
    &&& rs[7].level == 2 && is_gt(
        rs[7].condition,
        "num_low_3x_IQR_outliers"@,
        Rat { num: 0, den: 1 },
    ) && strs_v(rs[7].fields@) == seq![
        "num_low_3x_IQR_outliers"@,
        "num_low_10x_IQR_outliers"@,
        "min"@,
        "p05"@,
        "p25"@,
    ] && msg_v(rs[7].msg) is None
    &&& rs[8].level == 2 && is_gt(
        rs[8].condition,
        "num_high_3x_IQR_outliers"@,
        Rat { num: 0, den: 1 },
    ) && strs_v(rs[8].fields@) == seq![
        "num_high_3x_IQR_outliers"@,
        "num_high_10x_IQR_outliers"@,
        "p75"@,
        "p95"@,
        "max"@,
    ] && msg_v(rs[8].msg) is None
    &&& rs[9].level == 2 && is_abs_gt(rs[9].condition, "skew"@, Rat { num: 1, den: 2 }) && strs_v(
        rs[9].fields@,
    ) == seq!["skew"@] && msg_v(rs[9].msg) == Some(
        "Data is skewed - maybe try a transformation (log?)"@,
    )
}

/// The canonical feature-oriented rule set, rule by rule: level, condition
/// shape, surfaced fields and message prefix of each of its eleven rules.
pub open spec fn is_feature_rules(rs: Seq<DataQualityRule>) -> bool {
    &&& rs.len() == 11
    &&& rs[0].level == 0 && is_gt(rs[0].condition, "perc_missing"@, Rat { num: 19, den: 20 })
        && strs_v(rs[0].fields@) == seq!["perc_missing"@] && msg_v(rs[0].msg) is None
    &&& rs[1].level == 0 && is_eq_num(rs[1].condition, "n_unique"@, Rat { num: 1, den: 1 })
        && strs_v(rs[1].fields@) == seq!["n_unique"@, "mean"@] && msg_v(rs[1].msg) is None
    &&& rs[2].level == 1 && (rs[2].condition matches Pred::And(a, b) && is_gt(
        *a,
        "perc_distinct"@,
        Rat { num: 99, den: 100 },
    ) && is_lt(*b, "perc_distinct"@, Rat { num: 1, den: 1 })) && strs_v(rs[2].fields@) == seq![
        "perc_distinct"@,
    ] && msg_v(rs[2].msg) is None
    &&& rs[3].level == 1 && (rs[3].condition matches Pred::And(a, b) && is_gt(
        *a,
        "perc_negative"@,
        Rat { num: 0, den: 1 },
    ) && is_lt(*b, "perc_negative"@, Rat { num: 1, den: 20 })) && strs_v(rs[3].fields@) == seq![
        "perc_negative"@,
        "num_negative"@,
        "min"@,
    ] && msg_v(rs[3].msg) is None
    &&& rs[4].level == 2 && is_gt(rs[4].condition, "perc_zeros"@, Rat { num: 1, den: 2 })
        && strs_v(rs[4].fields@) == seq!["perc_zeros"@] && msg_v(rs[4].msg) is None
    &&& rs[5].level == 2 && is_eq_text(rs[5].condition, "dtype"@, "object"@) && strs_v(
        rs[5].fields@,
    ) == seq!["dtype"@] && msg_v(rs[5].msg) is None
    &&& rs[6].level == 2 && (rs[6].condition matches Pred::And(a, b) && is_gt(
        *a,
        "perc_missing"@,
        Rat { num: 1, den: 2 },
    ) && is_le(*b, "perc_missing"@, Rat { num: 19, den: 20 })) && strs_v(rs[6].fields@) == seq![
        "perc_missing"@,
    ] && msg_v(rs[6].msg) is None
    &&& rs[7].level == 2 && (rs[7].condition matches Pred::And(a, b) && (
    *a matches Pred::Or(c, d) && is_gt(*c, "n_unique"@, Rat { num: 30, den: 1 }) && checks_flag(
        *d,
        "decimal_col"@,
    )) && is_gt(*b, "perc_most_freq"@, Rat { num: 2, den: 5 })) && strs_v(rs[7].fields@) == seq![
        "perc_most_freq"@,
        "val_most_freq"@,
    ] && msg_v(rs[7].msg) == Some("High percentage of a single value"@)
    &&& rs[8].level == 3 && is_gt(
        rs[8].condition,
        "num_low_10x_IQR_outliers"@,
        Rat { num: 0, den: 1 },
    ) && strs_v(rs[8].fields@) == seq![
        "min"@,
        "p05"@,
        "p25"@,
        "num_low_10x_IQR_outliers"@,
    ] && msg_v(rs[8].msg) is None
    &&& rs[9].level == 3 && is_gt(
        rs[9].condition,
        "num_high_10x_IQR_outliers"@,
        Rat { num: 0, den: 1 },
    ) && strs_v(rs[9].fields@) == seq![
        "num_high_10x_IQR_outliers"@,
        "p75"@,
        "p95"@,
        "max"@,
    ] && msg_v(rs[9].msg) is None
    &&& rs[10].level == 3 && (rs[10].condition matches Pred::And(a, b) && is_gt(
        *a,
        "perc_missing"@,
        Rat { num: 0, den: 1 },
    ) && is_le(*b, "perc_missing"@, Rat { num: 1, den: 2 })) && strs_v(rs[10].fields@) == seq![
        "perc_missing"@,
    ] && msg_v(rs[10].msg) is None
}

/// A rational constant for a rule threshold.
fn thr(num: i64, den: u64) -> (r: Rat)
    requires
        1 <= den <= 0x4000_0000_0000_0000u64,
        -0x4000_0000_0000_0000i64 <= num <= 0x4000_0000_0000_0000i64,
    ensures
        r == (Rat { num, den }),
        r.wf(),
{
    Rat { num, den }
}

/// The canonical rule set for label (target) columns: three severity
/// tiers over missingness, type, cardinality, missing partitions,
/// negatives, dominant values, zeros, outliers and skew.
#[verifier::rlimit(100)]
pub fn target_rules() -> (r: Vec<DataQualityRule>)
    ensures
        rules_wf(r@),
        is_target_rules(r@),
        r@.len() == 10,
        forall|j: int| 0 <= j < r@.len() ==> (#[trigger] r@[j]).level <= 2,
{
    let mut v: Vec<DataQualityRule> = Vec::new();
    v.push(DataQualityRule {
        level: 0,
        condition: Pred::Gt(String::from_str("perc_missing"), thr(0, 1)),
        fields: vec![String::from_str("perc_missing")],
        msg: None,
    });
    v.push(DataQualityRule {
        level: 0,
        condition: Pred::EqText(String::from_str("dtype"), String::from_str("object")),
        fields: vec![String::from_str("dtype")],
        msg: None,
    });
    v.push(DataQualityRule {
        level: 0,
        condition: Pred::EqNum(String::from_str("n_unique"), thr(0, 1)),
        fields: vec![String::from_str("n_unique"), String::from_str("mean")],
        msg: None,
    });
    v.push(DataQualityRule {
        level: 0,
        condition: Pred::Gt(String::from_str("num_missing_partitions"), thr(0, 1)),
        fields: vec![
            String::from_str("num_missing_partitions"),
            String::from_str("min_missing_partition"),
            String::from_str("max_missing_partition"),
        ],
        msg: None,
    });
    v.push(DataQualityRule {
        level: 1,
        condition: Pred::And(
            Box::new(Pred::Gt(String::from_str("perc_negative"), thr(0, 1))),
            Box::new(Pred::Lt(String::from_str("perc_negative"), thr(1, 20))),
        ),
        fields: vec![
            String::from_str("perc_negative"),
            String::from_str("num_negative"),
            String::from_str("min"),
        ],
        msg: None,
    });
    v.push(DataQualityRule {
        level: 1,
        condition: Pred::And(
            Box::new(Pred::Or(
                Box::new(Pred::Gt(String::from_str("n_unique"), thr(30, 1))),
                Box::new(Pred::IsTrue(String::from_str("decimal_col"))),
            )),
            Box::new(Pred::Gt(String::from_str("perc_most_freq"), thr(2, 5))),
        ),
        fields: vec![String::from_str("perc_most_freq"), String::from_str("val_most_freq")],
        msg: Some(String::from_str("High percentage of a single value")),
    });
    v.push(DataQualityRule {
        level: 2,
        condition: Pred::Gt(String::from_str("perc_zeros"), thr(1, 2)),
        fields: vec![String::from_str("perc_zeros")],
        msg: None,
    });
    v.push(DataQualityRule {
        level: 2,
        condition: Pred::Gt(String::from_str("num_low_3x_IQR_outliers"), thr(0, 1)),
        fields: vec![
            String::from_str("num_low_3x_IQR_outliers"),
            String::from_str("num_low_10x_IQR_outliers"),
            String::from_str("min"),
            String::from_str("p05"),
            String::from_str("p25"),
        ],
        msg: None,
    });
    v.push(DataQualityRule {
        level: 2,
        condition: Pred::Gt(String::from_str("num_high_3x_IQR_outliers"), thr(0, 1)),
        fields: vec![
            String::from_str("num_high_3x_IQR_outliers"),
            String::from_str("num_high_10x_IQR_outliers"),
            String::from_str("p75"),
            String::from_str("p95"),
            String::from_str("max"),
        ],
        msg: None,
    });
    v.push(DataQualityRule {
        level: 2,
        condition: Pred::AbsGt(String::from_str("skew"), thr(1, 2)),
        fields: vec![String::from_str("skew")],
        msg: Some(String::from_str("Data is skewed - maybe try a transformation (log?)")),
    });
    proof {
        reveal_with_fuel(crate::rules::pred_wf, 4);
        assert forall|j: int| 0 <= j < v@.len() implies (#[trigger] v@[j]).wf() && v@[j].level
            <= 3 by {
            if j == 0 {
                assert(v@[0].wf());
            } else if j == 1 {
                assert(v@[1].wf());
            } else if j == 2 {
                assert(v@[2].wf());
            } else if j == 3 {
                assert(v@[3].wf());
            } else if j == 4 {
                assert(v@[4].wf());
            } else if j == 5 {
                assert(v@[5].wf());
            } else if j == 6 {
                assert(v@[6].wf());
            } else if j == 7 {
                assert(v@[7].wf());
            } else if j == 8 {
                assert(v@[8].wf());
            } else if j == 9 {
                assert(v@[9].wf());
            } else {
            }
        }
        assert(strs_v(v@[0].fields@) =~= seq!["perc_missing"@]);
        assert(strs_v(v@[1].fields@) =~= seq!["dtype"@]);
        assert(strs_v(v@[2].fields@) =~= seq!["n_unique"@, "mean"@]);
        assert(strs_v(v@[3].fields@) =~= seq!["num_missing_partitions"@, "min_missing_partition"@, "max_missing_partition"@]);
        assert(strs_v(v@[4].fields@) =~= seq!["perc_negative"@, "num_negative"@, "min"@]);
        assert(strs_v(v@[5].fields@) =~= seq!["perc_most_freq"@, "val_most_freq"@]);
        assert(strs_v(v@[6].fields@) =~= seq!["perc_zeros"@]);
        assert(strs_v(v@[7].fields@) =~= seq!["num_low_3x_IQR_outliers"@, "num_low_10x_IQR_outliers"@, "min"@, "p05"@, "p25"@]);
        assert(strs_v(v@[8].fields@) =~= seq!["num_high_3x_IQR_outliers"@, "num_high_10x_IQR_outliers"@, "p75"@, "p95"@, "max"@]);
        assert(strs_v(v@[9].fields@) =~= seq!["skew"@]);
        assert(is_target_rules(v@));
    }
    v
}

/// The canonical rule set for feature tables: four severity tiers over
/// missingness, cardinality, distinctness, negatives, zeros, type,
/// dominant values and outliers.
#[verifier::rlimit(100)]
pub fn feature_rules() -> (r: Vec<DataQualityRule>)
    ensures
        rules_wf(r@),
        is_feature_rules(r@),
        r@.len() == 11,
        forall|j: int| 0 <= j < r@.len() ==> (#[trigger] r@[j]).level <= 3,
{
    let mut v: Vec<DataQualityRule> = Vec::new();
    v.push(DataQualityRule {
        level: 0,
        condition: Pred::Gt(String::from_str("perc_missing"), thr(19, 20)),
        fields: vec![String::from_str("perc_missing")],
        msg: None,
    });
    v.push(DataQualityRule {
        level: 0,
        condition: Pred::EqNum(String::from_str("n_unique"), thr(1, 1)),
        fields: vec![String::from_str("n_unique"), String::from_str("mean")],
        msg: None,
    });
    v.push(DataQualityRule {
        level: 1,
        condition: Pred::And(
            Box::new(Pred::Gt(String::from_str("perc_distinct"), thr(99, 100))),
            Box::new(Pred::Lt(String::from_str("perc_distinct"), thr(1, 1))),
        ),
        fields: vec![String::from_str("perc_distinct")],
        msg: None,
    });
    v.push(DataQualityRule {
        level: 1,
        condition: Pred::And(
            Box::new(Pred::Gt(String::from_str("perc_negative"), thr(0, 1))),
            Box::new(Pred::Lt(String::from_str("perc_negative"), thr(1, 20))),
        ),
        fields: vec![
            String::from_str("perc_negative"),
            String::from_str("num_negative"),
            String::from_str("min"),
        ],
        msg: None,
    });
    v.push(DataQualityRule {
        level: 2,
        condition: Pred::Gt(String::from_str("perc_zeros"), thr(1, 2)),
        fields: vec![String::from_str("perc_zeros")],
        msg: None,
    });
    v.push(DataQualityRule {
        level: 2,
        condition: Pred::EqText(String::from_str("dtype"), String::from_str("object")),
        fields: vec![String::from_str("dtype")],
        msg: None,
    });
    v.push(DataQualityRule {
        level: 2,
        condition: Pred::And(
            Box::new(Pred::Gt(String::from_str("perc_missing"), thr(1, 2))),
            Box::new(Pred::Le(String::from_str("perc_missing"), thr(19, 20))),
        ),
        fields: vec![String::from_str("perc_missing")],
        msg: None,
    });
    v.push(DataQualityRule {
        level: 2,
        condition: Pred::And(
            Box::new(Pred::Or(
                Box::new(Pred::Gt(String::from_str("n_unique"), thr(30, 1))),
                Box::new(Pred::IsTrue(String::from_str("decimal_col"))),
            )),
            Box::new(Pred::Gt(String::from_str("perc_most_freq"), thr(2, 5))),
        ),
        fields: vec![String::from_str("perc_most_freq"), String::from_str("val_most_freq")],
        msg: Some(String::from_str("High percentage of a single value")),
    });
    v.push(DataQualityRule {
        level: 3,
        condition: Pred::Gt(String::from_str("num_low_10x_IQR_outliers"), thr(0, 1)),
        fields: vec![
            String::from_str("min"),
            String::from_str("p05"),
            String::from_str("p25"),
            String::from_str("num_low_10x_IQR_outliers"),
        ],
        msg: None,
    });
    v.push(DataQualityRule {
        level: 3,
        condition: Pred::Gt(String::from_str("num_high_10x_IQR_outliers"), thr(0, 1)),
        fields: vec![
            String::from_str("num_high_10x_IQR_outliers"),
            String::from_str("p75"),
            String::from_str("p95"),
            String::from_str("max"),
        ],
        msg: None,
    });
    v.push(DataQualityRule {
        level: 3,
        condition: Pred::And(
            Box::new(Pred::Gt(String::from_str("perc_missing"), thr(0, 1))),
            Box::new(Pred::Le(String::from_str("perc_missing"), thr(1, 2))),
        ),
        fields: vec![String::from_str("perc_missing")],
        msg: None,
    });
    proof {
        reveal_with_fuel(crate::rules::pred_wf, 4);
        assert forall|j: int| 0 <= j < v@.len() implies (#[trigger] v@[j]).wf() && v@[j].level
            <= 3 by {
            if j == 0 {
                assert(v@[0].wf());
            } else if j == 1 {
                assert(v@[1].wf());
            } else if j == 2 {
                assert(v@[2].wf());
            } else if j == 3 {
                assert(v@[3].wf());
            } else if j == 4 {
                assert(v@[4].wf());
            } else if j == 5 {
                assert(v@[5].wf());
            } else if j == 6 {
                assert(v@[6].wf());
            } else if j == 7 {
                assert(v@[7].wf());
            } else if j == 8 {
                assert(v@[8].wf());
            } else if j == 9 {
                assert(v@[9].wf());
            } else if j == 10 {
                assert(v@[10].wf());
            } else {
            }
        }
        assert(strs_v(v@[0].fields@) =~= seq!["perc_missing"@]);
        assert(strs_v(v@[1].fields@) =~= seq!["n_unique"@, "mean"@]);
        assert(strs_v(v@[2].fields@) =~= seq!["perc_distinct"@]);
        assert(strs_v(v@[3].fields@) =~= seq!["perc_negative"@, "num_negative"@, "min"@]);
        assert(strs_v(v@[4].fields@) =~= seq!["perc_zeros"@]);
        assert(strs_v(v@[5].fields@) =~= seq!["dtype"@]);
        assert(strs_v(v@[6].fields@) =~= seq!["perc_missing"@]);
        assert(strs_v(v@[7].fields@) =~= seq!["perc_most_freq"@, "val_most_freq"@]);
        assert(strs_v(v@[8].fields@) =~= seq!["min"@, "p05"@, "p25"@, "num_low_10x_IQR_outliers"@]);
        assert(strs_v(v@[9].fields@) =~= seq!["num_high_10x_IQR_outliers"@, "p75"@, "p95"@, "max"@]);
        assert(strs_v(v@[10].fields@) =~= seq!["perc_missing"@]);
        assert(is_feature_rules(v@));
    }
    v
}

} // verus!


