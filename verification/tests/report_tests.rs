use data_quality_report::{
    Column, DType, DataQualityError, DataQualityReportBuilder, DataQualityRule, Dataset, Pred, Rat,
    Summary, feature_rules, target_rules,
};

fn rat(num: i64, den: u64) -> Rat {
    Rat::new(num, den).unwrap()
}

fn num_col(name: &str, vals: &[Option<i64>]) -> Column {
    let values = vals
        .iter()
        .map(|v| v.map(|n| data_quality_report::Value::Num(Rat::new(n, 1).unwrap())))
        .collect();
    Column {
        name: name.to_string(),
        dtype: DType::Numeric,
        values,
    }
}

fn text_col(name: &str, vals: &[Option<&str>]) -> Column {
    let values = vals
        .iter()
        .map(|v| v.map(|s| data_quality_report::Value::Text(s.to_string())))
        .collect();
    Column {
        name: name.to_string(),
        dtype: DType::Text,
        values,
    }
}

fn bool_col(name: &str, vals: &[Option<bool>]) -> Column {
    let values = vals
        .iter()
        .map(|v| v.map(data_quality_report::Value::Bool))
        .collect();
    Column {
        name: name.to_string(),
        dtype: DType::Boolean,
        values,
    }
}

fn one_rule(level: u32, condition: Pred, fields: &[&str]) -> DataQualityRule {
    DataQualityRule {
        level,
        condition,
        fields: fields.iter().map(|f| f.to_string()).collect(),
        msg: None,
    }
}

#[test]
fn rational_reduction_and_arithmetic() {
    let half = rat(2, 4);
    assert_eq!(half, Rat { num: 1, den: 2 });
    let third = rat(1, 3);
    let sum = half.checked_add(third).unwrap();
    assert_eq!(sum, Rat { num: 5, den: 6 });
    assert!(rat(2, 4).eq_val(rat(1, 2)));
    assert!(rat(1, 3).lt(rat(1, 2)));
    assert_eq!(Rat::new(1, 0), None);
    assert!(rat(-3, 6).is_neg());
    assert!(rat(4, 2).is_integral());
    assert!(!rat(1, 2).is_integral());
}

#[test]
fn scenario_one_column_with_nulls() {
    // x = [1, 1, 1, null, null]
    let ds = Dataset {
        cols: vec![num_col("x", &[Some(1), Some(1), Some(1), None, None])],
    };
    let table = ds.summarize("none".to_string());
    let row = &table.rows[0];
    assert_eq!(row.perc_missing, Some(Rat { num: 2, den: 5 }));
    assert_eq!(row.n_unique, Rat { num: 1, den: 1 });
    assert_eq!(row.count, Rat { num: 3, den: 1 });

    let rules = vec![one_rule(
        0,
        Pred::EqNum("n_unique".to_string(), rat(1, 1)),
        &["n_unique"],
    )];
    let report = DataQualityReportBuilder::new(ds).rules(rules).build().unwrap();
    let warns = report.warnings(0);
    assert_eq!(warns.len(), 1);
    assert_eq!(warns[0].field, "x");
    assert_eq!(warns[0].level, 0);
    assert_eq!(warns[0].msg, "n_unique: 1");
}

#[test]
fn scenario_negative_window_does_not_match() {
    // y = [-1, -1, 1, 1, 1]; perc_negative = 0.4 lies outside (0, 0.05)
    let ds = Dataset {
        cols: vec![num_col("y", &[Some(-1), Some(-1), Some(1), Some(1), Some(1)])],
    };
    let table = ds.summarize("none".to_string());
    assert_eq!(table.rows[0].perc_negative, Some(Rat { num: 2, den: 5 }));

    let rules = vec![one_rule(
        1,
        Pred::And(
            Box::new(Pred::Gt("perc_negative".to_string(), rat(0, 1))),
            Box::new(Pred::Lt("perc_negative".to_string(), rat(1, 20))),
        ),
        &["perc_negative"],
    )];
    let report = DataQualityReportBuilder::new(ds).rules(rules).build().unwrap();
    assert_eq!(report.warnings(3).len(), 0);
}

#[test]
fn scenario_empty_rule_set_gives_sentinel_report() {
    let ds = Dataset {
        cols: vec![num_col("x", &[Some(1), Some(2)])],
    };
    let report = DataQualityReportBuilder::new(ds).rules(vec![]).build().unwrap();
    assert_eq!(report.warnings(100).len(), 0);
    assert_eq!(report.warnings_summary_str(100), "No Warnings");
    assert_eq!(report.warnings_detail_str(100), "");
    assert_eq!(
        report.warnings_report_str(100),
        "Data Quality Report\nNo Warnings\n"
    );
}

#[test]
fn scenario_row_cap_reduces_effective_rows() {
    // Ten rows capped at three: every later statistic sees exactly three.
    let vals: Vec<Option<i64>> = (0..10).map(Some).collect();
    let ds = Dataset {
        cols: vec![num_col("x", &vals)],
    };
    let rules = vec![one_rule(
        0,
        Pred::EqNum("count".to_string(), rat(3, 1)),
        &["count"],
    )];
    let report = DataQualityReportBuilder::new(ds)
        .rules(rules)
        .max_rows(3)
        .build()
        .unwrap();
    let warns = report.warnings(0);
    assert_eq!(warns.len(), 1);
    assert_eq!(warns[0].msg, "count: 3");
}

#[test]
fn row_cap_leaves_small_dataset_unchanged() {
    let ds = Dataset {
        cols: vec![num_col("x", &[Some(1), Some(2)])],
    };
    let report = DataQualityReportBuilder::new(ds)
        .rules(vec![one_rule(
            0,
            Pred::EqNum("count".to_string(), rat(2, 1)),
            &["count"],
        )])
        .max_rows(100)
        .build()
        .unwrap();
    assert_eq!(report.warnings(0).len(), 1);
}

#[test]
fn empty_dataset_is_the_only_build_error() {
    let result = DataQualityReportBuilder::new(Dataset { cols: vec![] }).build();
    match result {
        Err(err) => assert_eq!(err, DataQualityError::EmptyDataset),
        Ok(_) => panic!("a dataset without columns must be rejected"),
    }
}

#[test]
fn summary_counts_by_level_ascending() {
    let ds = Dataset {
        cols: vec![
            num_col("a", &[Some(1), Some(1)]),
            num_col("b", &[Some(2), Some(2)]),
        ],
    };
    let rules = vec![
        one_rule(0, Pred::EqNum("n_unique".to_string(), rat(1, 1)), &["n_unique"]),
        one_rule(2, Pred::Gt("count".to_string(), rat(0, 1)), &["count"]),
    ];
    let report = DataQualityReportBuilder::new(ds).rules(rules).build().unwrap();
    // Level 0 fires on both columns, level 2 fires on both columns.
    assert_eq!(report.warnings_summary_str(2), "S0:2, S2:2");
    assert_eq!(report.warnings_summary_str(0), "S0:2");
}

#[test]
fn summary_counts_parse_back_to_warning_total() {
    let ds = Dataset {
        cols: vec![
            num_col("a", &[Some(1), Some(1)]),
            num_col("b", &[Some(2), Some(3)]),
        ],
    };
    let rules = vec![
        one_rule(0, Pred::EqNum("n_unique".to_string(), rat(1, 1)), &["n_unique"]),
        one_rule(1, Pred::Gt("count".to_string(), rat(0, 1)), &["count"]),
        one_rule(3, Pred::Gt("mean".to_string(), rat(0, 1)), &["mean"]),
    ];
    let report = DataQualityReportBuilder::new(ds).rules(rules).build().unwrap();
    for level in 0..5u32 {
        let warns = report.warnings(level);
        let text = report.warnings_summary_str(level);
        let total: usize = if text == "No Warnings" {
            0
        } else {
            text.split(", ")
                .map(|part| {
                    let (_, count) = part.split_once(':').unwrap();
                    count.parse::<usize>().unwrap()
                })
                .sum()
        };
        assert_eq!(total, warns.len());
    }
}

#[test]
fn severity_filter_is_monotone_on_canonical_rules() {
    let ds = Dataset {
        cols: vec![
            num_col("a", &[Some(1), Some(1), None, None, None]),
            num_col("b", &[Some(-1), Some(5), Some(0), Some(0), Some(0)]),
            text_col("c", &[Some("u"), Some("v"), Some("u"), None, Some("w")]),
        ],
    };
    let report = DataQualityReportBuilder::new(ds).build().unwrap();
    let mut previous: Vec<String> = vec![];
    for level in 0..4u32 {
        let current: Vec<String> = report
            .warnings(level)
            .iter()
            .map(|w| format!("{}|{}|{}", w.level, w.field, w.msg))
            .collect();
        // every earlier warning appears, in order, among the later ones
        let mut pos = 0;
        for item in &previous {
            let found = current[pos..].iter().position(|c| c == item);
            assert!(found.is_some(), "warning lost when raising the threshold");
            pos += found.unwrap() + 1;
        }
        previous = current;
    }
}

#[test]
fn detail_line_renders_level_field_and_message() {
    let ds = Dataset {
        cols: vec![num_col("x", &[Some(1), Some(1)])],
    };
    let rules = vec![one_rule(
        0,
        Pred::EqNum("n_unique".to_string(), rat(1, 1)),
        &["n_unique", "mean"],
    )];
    let report = DataQualityReportBuilder::new(ds).rules(rules).build().unwrap();
    assert_eq!(
        report.warnings_detail_str(0),
        "\nDataQualityWarning { level: 0, field: \"x\", msg: \"n_unique: 1, mean: 1\" }"
    );
}

#[test]
fn message_prefix_and_absent_placeholder() {
    let ds = Dataset {
        cols: vec![text_col("t", &[Some("a"), Some("b")])],
    };
    let rules = vec![DataQualityRule {
        level: 0,
        condition: Pred::EqText("dtype".to_string(), "object".to_string()),
        fields: vec!["dtype".to_string(), "mean".to_string()],
        msg: Some("Text column".to_string()),
    }];
    let report = DataQualityReportBuilder::new(ds).rules(rules).build().unwrap();
    let warns = report.warnings(0);
    assert_eq!(warns.len(), 1);
    // mean of a text column is absent and renders as the placeholder
    assert_eq!(warns[0].msg, "Text column dtype: object, mean: null");
}

#[test]
fn unknown_field_fails_only_that_rule() {
    let ds = Dataset {
        cols: vec![num_col("x", &[Some(1), Some(1)])],
    };
    let rules = vec![
        one_rule(0, Pred::Gt("num_low_3x_IQR_outliers".to_string(), rat(0, 1)), &["min"]),
        one_rule(0, Pred::EqNum("n_unique".to_string(), rat(1, 1)), &["n_unique"]),
    ];
    let report = DataQualityReportBuilder::new(ds).rules(rules).build().unwrap();
    let warns = report.warnings(0);
    assert_eq!(warns.len(), 1);
    assert_eq!(warns[0].msg, "n_unique: 1");
    // the report is still fully formed: title, summary, detail
    let text = report.warnings_report_str(0);
    assert!(text.starts_with("Data Quality Report\nS0:1\n"));
    assert!(text.contains("DataQualityWarning { level: 0, field: \"x\""));
}

#[test]
fn quantiles_interpolate_linearly() {
    let ds = Dataset {
        cols: vec![num_col("x", &[Some(1), Some(2), Some(3), Some(4), Some(5)])],
    };
    let table = ds.summarize("none".to_string());
    let row = &table.rows[0];
    assert_eq!(row.median, Some(Rat { num: 3, den: 1 }));
    assert_eq!(row.p25, Some(Rat { num: 2, den: 1 }));
    // p05: position 0.2 between 1 and 2 gives 1.2
    assert_eq!(row.p05, Some(Rat { num: 6, den: 5 }));
    assert_eq!(row.p95, Some(Rat { num: 24, den: 5 }));
    assert_eq!(row.min_val, Some(Rat { num: 1, den: 1 }));
    assert_eq!(row.max_val, Some(Rat { num: 5, den: 1 }));
    assert_eq!(row.mean, Some(Rat { num: 3, den: 1 }));
}

#[test]
fn skew_sign_follows_the_tail() {
    let sym = Dataset {
        cols: vec![num_col("s", &[Some(1), Some(2), Some(3)])],
    };
    let srow = &sym.summarize("none".to_string()).rows[0];
    assert_eq!(srow.skew.unwrap().num, 0);

    let right = Dataset {
        cols: vec![num_col("r", &[Some(0), Some(0), Some(0), Some(0), Some(100)])],
    };
    let rrow = &right.summarize("none".to_string()).rows[0];
    assert!(rrow.skew.unwrap().num > 0);

    let constant = Dataset {
        cols: vec![num_col("c", &[Some(7), Some(7)])],
    };
    let crow = &constant.summarize("none".to_string()).rows[0];
    assert_eq!(crow.skew, None);
}

#[test]
fn mode_breaks_ties_by_first_encountered() {
    let ds = Dataset {
        cols: vec![num_col("m", &[Some(2), Some(1), Some(1), Some(2)])],
    };
    let row = &ds.summarize("none".to_string()).rows[0];
    match row.val_most_freq.as_ref().unwrap() {
        data_quality_report::Value::Num(r) => assert_eq!(*r, Rat { num: 2, den: 1 }),
        other => panic!("unexpected modal value {:?}", other),
    }
    assert_eq!(row.perc_most_freq, Some(Rat { num: 1, den: 2 }));
}

#[test]
fn missing_partitions_count_and_range() {
    let ds = Dataset {
        cols: vec![
            num_col("date", &[Some(1), Some(1), Some(2), Some(2), Some(3)]),
            num_col("v", &[None, None, Some(3), None, None]),
        ],
    };
    let table = ds.summarize("date".to_string());
    let vrow = &table.rows[1];
    // partitions 1 and 3 are entirely null for v, partition 2 is not
    assert_eq!(vrow.num_missing_partitions, Some(Rat { num: 2, den: 1 }));
    assert_eq!(vrow.min_missing_partition, Some(Rat { num: 1, den: 1 }));
    assert_eq!(vrow.max_missing_partition, Some(Rat { num: 3, den: 1 }));
    // the key column itself has no missing partition
    let drow = &table.rows[0];
    assert_eq!(drow.num_missing_partitions, Some(Rat { num: 0, den: 1 }));

    // without a matching key column the fields are absent, not zero
    let no_key = Dataset {
        cols: vec![num_col("v", &[None, Some(1)])],
    };
    let row = &no_key.summarize("date".to_string()).rows[0];
    assert_eq!(row.num_missing_partitions, None);
    assert_eq!(row.min_missing_partition, None);
}

#[test]
fn text_columns_have_absent_numeric_statistics() {
    let ds = Dataset {
        cols: vec![text_col("t", &[Some("a"), Some("a"), None])],
    };
    let row = &ds.summarize("none".to_string()).rows[0];
    assert_eq!(row.dtype, "object");
    assert_eq!(row.num_zeros, None);
    assert_eq!(row.mean, None);
    assert_eq!(row.min_val, None);
    assert_eq!(row.decimal_col, None);
    assert_eq!(row.n_unique, Rat { num: 1, den: 1 });
    assert_eq!(row.count, Rat { num: 2, den: 1 });
}

#[test]
fn boolean_columns_read_as_zero_one() {
    let ds = Dataset {
        cols: vec![bool_col("b", &[Some(true), Some(false), Some(true)])],
    };
    let row = &ds.summarize("none".to_string()).rows[0];
    assert_eq!(row.num_zeros, Some(Rat { num: 1, den: 1 }));
    assert_eq!(row.mean, Some(Rat { num: 2, den: 3 }));
    assert_eq!(row.decimal_col, Some(false));
}

#[test]
fn decimal_flag_detects_nonintegral_values() {
    let ds = Dataset {
        cols: vec![Column {
            name: "d".to_string(),
            dtype: DType::Numeric,
            values: vec![
                Some(data_quality_report::Value::Num(rat(1, 2))),
                Some(data_quality_report::Value::Num(rat(3, 1))),
            ],
        }],
    };
    let row = &ds.summarize("none".to_string()).rows[0];
    assert_eq!(row.decimal_col, Some(true));
}

#[test]
fn target_rules_flag_skewed_column() {
    let ds = Dataset {
        cols: vec![num_col("s", &[Some(0), Some(0), Some(0), Some(0), Some(100)])],
    };
    let report = DataQualityReportBuilder::new(ds).rules(target_rules()).build().unwrap();
    let warns = report.warnings(2);
    let skew_warn = warns
        .iter()
        .find(|w| w.msg.starts_with("Data is skewed"))
        .expect("the skew rule must fire on a heavy right tail");
    assert_eq!(skew_warn.level, 2);
    assert_eq!(skew_warn.field, "s");
}

#[test]
fn canonical_rule_sets_have_expected_shape() {
    assert_eq!(feature_rules().len(), 11);
    assert_eq!(target_rules().len(), 10);
    assert!(feature_rules().iter().all(|r| r.level <= 3));
    assert!(target_rules().iter().all(|r| r.level <= 2));
}

#[test]
fn feature_rules_flag_fully_missing_column() {
    let ds = Dataset {
        cols: vec![num_col("gone", &[None, None, None])],
    };
    let report = DataQualityReportBuilder::new(ds).build().unwrap();
    // perc_missing = 1 > 0.95: the severity-0 missingness rule fires
    let warns = report.warnings(0);
    assert_eq!(warns.len(), 1);
    assert_eq!(warns[0].field, "gone");
    assert_eq!(warns[0].msg, "perc_missing: 1");
}
