use cmdstan::result_analyzer::{
    analyze_csv, check_float_text, parse_csv, AsResult, CmdStanError, FileError, ParamError,
    RawTable,
};

fn lines(v: &[&str]) -> Vec<String> {
    v.iter().map(|s| s.to_string()).collect()
}

fn ingested(v: &[&str]) -> RawTable {
    let mut t = RawTable::new();
    analyze_csv("out.csv", &lines(v), &mut t).unwrap();
    t
}

#[test]
fn raw_table_ingestion_yields_columns() {
    let t = ingested(&["a,b,c", "1,2,3", "4,5,6"]);
    assert_eq!(t.num_rows(), 2);
    let s = t.sample_summary();
    assert_eq!(s.rows, 2);
    assert_eq!(s.column("a").unwrap(), &vec!["1".to_string(), "4".to_string()]);
    assert_eq!(s.column("b").unwrap(), &vec!["2".to_string(), "5".to_string()]);
    assert_eq!(s.column("c").unwrap(), &vec!["3".to_string(), "6".to_string()]);
    assert!(s.column("d").is_none());
}

#[test]
fn column_count_mismatch_names_the_line() {
    let mut t = RawTable::new();
    let r = analyze_csv("out.csv", &lines(&["a,b,c", "1,2,3", "4,5"]), &mut t);
    match r {
        Err(CmdStanError::File(FileError::BadFileFormat(msg, path))) => {
            assert_eq!(
                msg,
                "Bad CSV Format: line 3 has more or less columns than header"
            );
            assert_eq!(path, "out.csv");
        },
        _ => panic!("expected a format failure"),
    }
    // the stream is cut at the offending line: the rows before it were
    // already delivered to the consumer
    assert_eq!(t.num_rows(), 1);
    let s = t.sample_summary();
    assert_eq!(s.column("a").unwrap(), &vec!["1".to_string()]);
    assert_eq!(s.column("c").unwrap(), &vec!["3".to_string()]);
    // comments and blank lines still count for the line number
    let mut t2 = RawTable::new();
    let r2 = analyze_csv(
        "out.csv",
        &lines(&["# comment", "", "a,b", "1,2", "3"]),
        &mut t2,
    );
    match r2 {
        Err(CmdStanError::File(FileError::BadFileFormat(msg, _))) => {
            assert_eq!(
                msg,
                "Bad CSV Format: line 5 has more or less columns than header"
            );
        },
        _ => panic!("expected a format failure"),
    }
}

#[test]
fn comments_and_blanks_are_skipped() {
    let t = ingested(&["# engine output", "", "  a , b ", "1,2", "# trailing", "3,4"]);
    let s = t.sample_summary();
    assert_eq!(s.rows, 2);
    // header cells are trimmed
    assert_eq!(s.column("a").unwrap(), &vec!["1".to_string(), "3".to_string()]);
    assert_eq!(s.column("b").unwrap(), &vec!["2".to_string(), "4".to_string()]);
}

#[test]
fn sample_summary_has_exactly_the_header_keys() {
    let t = ingested(&["lp__,theta", "1.0,0.3", "1.1,0.4"]);
    let s = t.sample_summary();
    assert_eq!(s.rows, 2);
    assert_eq!(
        s.column("lp__").unwrap(),
        &vec!["1.0".to_string(), "1.1".to_string()]
    );
    assert_eq!(
        s.column("theta").unwrap(),
        &vec!["0.3".to_string(), "0.4".to_string()]
    );
    assert!(s.column("alpha").is_none());
}

#[test]
fn optimize_summary_surfaces_last_log_likelihood() {
    let t = ingested(&["lp__", "1.0", "1.2", "1.5"]);
    let o = t.optimize_summary();
    assert_eq!(o.log_likelihood, Some("1.5".to_string()));
    assert_eq!(o.last_values, vec!["1.5".to_string()]);

    let t2 = ingested(&["theta", "0.5"]);
    let o2 = t2.optimize_summary();
    assert_eq!(o2.log_likelihood, None);
    assert_eq!(o2.last_values, vec!["0.5".to_string()]);
}

#[test]
fn bad_cell_is_a_parse_failure() {
    let mut t = RawTable::new();
    let r = analyze_csv("out.csv", &lines(&["a,b", "1,abc"]), &mut t);
    assert!(matches!(
        r,
        Err(CmdStanError::Param(ParamError::ParseError(_)))
    ));
    let mut t2 = RawTable::new();
    let r2 = analyze_csv("out.csv", &lines(&["a", "1.2.3"]), &mut t2);
    assert!(matches!(
        r2,
        Err(CmdStanError::Param(ParamError::ParseError(_)))
    ));
}

#[test]
fn numeric_token_grammar() {
    assert!(check_float_text("1"));
    assert!(check_float_text("-1.5"));
    assert!(check_float_text("+.5"));
    assert!(check_float_text("5."));
    assert!(check_float_text("1e5"));
    assert!(check_float_text("1.5E-3"));
    assert!(check_float_text("1.e5"));
    assert!(check_float_text("inf"));
    assert!(check_float_text("-Infinity"));
    assert!(check_float_text("NaN"));
    assert!(!check_float_text(""));
    assert!(!check_float_text("."));
    assert!(!check_float_text("+"));
    assert!(!check_float_text(".e5"));
    assert!(!check_float_text("1e"));
    assert!(!check_float_text("1e+"));
    assert!(!check_float_text("1e5x"));
    assert!(!check_float_text("1.2.3"));
    assert!(!check_float_text(" 1"));
    assert!(!check_float_text("in"));
}

#[test]
fn empty_input_is_an_empty_grid() {
    let g = parse_csv(&lines(&["# only comments", ""])).unwrap();
    assert_eq!(g.header.len(), 0);
    assert_eq!(g.rows.len(), 0);
    let mut t = RawTable::new();
    analyze_csv("out.csv", &lines(&[]), &mut t).unwrap();
    assert_eq!(t.num_rows(), 0);
}

#[test]
fn direct_consumer_calls_follow_the_policy() {
    // feeding cells by hand: registering a column backfills earlier
    // rows with the neutral value
    let mut t = RawTable::new();
    t.new_line();
    t.set_value("a", "1").unwrap();
    t.new_line();
    t.set_value("a", "2").unwrap();
    t.set_value("b", "9").unwrap();
    let s = t.sample_summary();
    assert_eq!(s.column("a").unwrap(), &vec!["1".to_string(), "2".to_string()]);
    assert_eq!(s.column("b").unwrap(), &vec!["0".to_string(), "9".to_string()]);
    // a bad cell is rejected before any column registration
    assert!(t.set_value("c", "not a number").is_err());
    let s2 = t.sample_summary();
    assert!(s2.column("c").is_none());
    assert_eq!(s2.rows, 2);
}
