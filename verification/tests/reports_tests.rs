use analytics::reports::{build_report_tables, truncate_referrer, ReportWindow, Table};

#[test]
fn report_window_to_sql() {
    assert_eq!(ReportWindow::Day.to_sql(), 1);
    assert_eq!(ReportWindow::Week.to_sql(), 7);
    assert_eq!(ReportWindow::Month.to_sql(), 30);
}

#[test]
fn report_window_from_str() {
    assert_eq!(ReportWindow::from_str("day"), Ok(ReportWindow::Day));
    assert_eq!(ReportWindow::from_str("month"), Ok(ReportWindow::Month));
    assert_eq!(ReportWindow::from_str("week"), Ok(ReportWindow::Week));
    assert_eq!(ReportWindow::from_str("anything else"), Ok(ReportWindow::Week));
    assert_eq!(ReportWindow::from_str(""), Ok(ReportWindow::Week));
}

#[test]
fn table_new_is_empty() {
    let table = Table::new(
        "TEST ONE".to_string(),
        vec!["one".to_string(), "two".to_string()],
    );
    assert_eq!(table.name, "TEST ONE");
    assert_eq!(table.headers, vec!["one".to_string(), "two".to_string()]);
    assert!(table.rows.is_empty());
}

#[test]
fn truncate_referrer_short_is_kept() {
    assert_eq!(truncate_referrer("http://reddit.com/r/rust"), "http://reddit.com/r/rust");
    let exactly_100 = "a".repeat(100);
    assert_eq!(truncate_referrer(&exactly_100), exactly_100);
}

#[test]
fn truncate_referrer_long_is_cut() {
    let long = "b".repeat(101);
    let cut = truncate_referrer(&long);
    let expected = format!("{}...", "b".repeat(97));
    assert_eq!(cut, expected);
    assert_eq!(cut.chars().count(), 100);
}

#[test]
fn report_tables_shape() {
    let referrers = vec![
        ("http://reddit.com/r/rust".to_string(), 12i64),
        ("http://example.com".to_string(), 3i64),
    ];
    let visits = vec![41i64];
    let views = vec![(7i64, "http://wiredforge.com/blog".to_string())];
    let tables = build_report_tables(&ReportWindow::Week, &referrers, &visits, &views);
    assert_eq!(tables.len(), 3);

    assert_eq!(tables[0].name, "7 Day Referer Counts");
    assert_eq!(tables[0].headers, vec!["Referer".to_string(), "Count".to_string()]);
    assert_eq!(
        tables[0].rows,
        vec![
            vec!["http://reddit.com/r/rust".to_string(), "12".to_string()],
            vec!["http://example.com".to_string(), "3".to_string()],
        ]
    );

    assert_eq!(tables[1].name, "7 Day Visits");
    assert_eq!(tables[1].headers, vec!["Visit Count".to_string()]);
    assert_eq!(tables[1].rows, vec![vec!["41".to_string()]]);

    assert_eq!(tables[2].name, "7  Day Page Counts");
    assert_eq!(tables[2].headers, vec!["Page".to_string(), "View Count".to_string()]);
    // the store's rows put the count first
    assert_eq!(
        tables[2].rows,
        vec![vec!["7".to_string(), "http://wiredforge.com/blog".to_string()]]
    );
}

#[test]
fn report_tables_truncate_and_sign() {
    let long = format!("http://{}", "c".repeat(120));
    let referrers = vec![(long.clone(), -2i64)];
    let visits: Vec<i64> = Vec::new();
    let views: Vec<(i64, String)> = Vec::new();
    let tables = build_report_tables(&ReportWindow::Month, &referrers, &visits, &views);
    assert_eq!(tables[0].name, "30 Day Referer Counts");
    let expected = format!("{}...", &long[0..97]);
    assert_eq!(tables[0].rows, vec![vec![expected, "-2".to_string()]]);
    assert!(tables[1].rows.is_empty());
    assert!(tables[2].rows.is_empty());
}
