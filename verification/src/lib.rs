//! Data quality reporting over tabular datasets.
//!
//! The library reduces a dataset (named columns of nullable scalar values)
//! to a summary table of per-column statistics, evaluates a declarative
//! rule set against that table, and renders the matches as graded warnings.
//! All numeric statistics are exact rational numbers, so every statistic,
//! every rule match and every rendered report is a proved function of the
//! input data.

pub mod dataset;
pub mod laws;
pub mod missing;
pub mod rat;
pub mod render;
pub mod report;
pub mod rules;
pub mod skew;
pub mod sortq;
pub mod stats;
pub mod summary;

pub use dataset::{Column, DType, Dataset, Value};
pub use rat::Rat;
pub use report::{
    DataQualityError, DataQualityReport, DataQualityReportBuilder, DataQualityRule,
    DataQualityWarning, feature_rules, target_rules,
};
pub use rules::Pred;
pub use summary::{Summary, SummaryRow, SummaryTable};
