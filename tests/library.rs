use rasuka::aggregate::count_categories;
use rasuka::column::find_column;
use rasuka::commands::{
    bar_counts, bar_input, describe_input, describe_texts, scatter_input, scatter_texts,
};
use rasuka::error::AnalysisError;
use rasuka::extract::{column_pairs, column_values, keep_parsed, keep_parsed_pairs};
use rasuka::stats::{median_positions, percentile_position};

fn strings(v: &[&str]) -> Vec<String> {
    v.iter().map(|s| s.to_string()).collect()
}

fn rows(v: &[&[&str]]) -> Vec<Option<Vec<String>>> {
    v.iter().map(|r| Some(strings(r))).collect()
}

fn parse_all(texts: &[String]) -> Vec<Option<f64>> {
    texts.iter().map(|t| t.parse::<f64>().ok()).collect()
}

#[test]
fn find_column_returns_first_exact_match() {
    let h = strings(&["id", "score", "score", "Name"]);
    assert_eq!(find_column(&h, "id").unwrap(), 0);
    assert_eq!(find_column(&h, "score").unwrap(), 1);
    assert_eq!(find_column(&h, "Name").unwrap(), 3);
}

#[test]
fn find_column_is_case_sensitive_and_exact() {
    let h = strings(&["id", "Name"]);
    match find_column(&h, "name") {
        Err(AnalysisError::ColumnNotFound(c)) => assert_eq!(c, "name"),
        other => panic!("unexpected {:?}", other),
    }
    assert!(matches!(find_column(&h, " id"), Err(AnalysisError::ColumnNotFound(_))));
    assert!(matches!(find_column(&Vec::new(), "id"), Err(AnalysisError::ColumnNotFound(_))));
}

#[test]
fn column_values_skip_short_and_unreadable_records() {
    let mut recs = rows(&[&["a", "1"], &["b"], &["c", "3"]]);
    recs.push(None);
    recs.push(Some(strings(&["d", "x"])));
    assert_eq!(column_values(&recs, 1), strings(&["1", "3", "x"]));
    assert_eq!(column_values(&recs, 0), strings(&["a", "b", "c", "d"]));
    assert!(column_values(&recs, 5).is_empty());
}

#[test]
fn numeric_extraction_keeps_parsed_values_in_order() {
    let recs = rows(&[&["3.5"], &["abc"], &[""], &["-2"], &["1e2"], &["4,0"]]);
    let texts = column_values(&recs, 0);
    let values = keep_parsed(&parse_all(&texts));
    assert_eq!(values, vec![3.5, -2.0, 100.0]);
}

#[test]
fn keep_parsed_of_nothing_parsed_is_empty() {
    let parsed: Vec<Option<f64>> = vec![None, None];
    assert!(keep_parsed(&parsed).is_empty());
}

#[test]
fn column_pairs_need_both_fields() {
    let mut recs = rows(&[&["1", "2", "3"], &["4"], &["5", "6"]]);
    recs.insert(1, None);
    let pairs = column_pairs(&recs, 0, 1);
    assert_eq!(
        pairs,
        vec![("1".to_string(), "2".to_string()), ("5".to_string(), "6".to_string())]
    );
    assert_eq!(column_pairs(&recs, 2, 0), vec![("3".to_string(), "1".to_string())]);
}

#[test]
fn keep_parsed_pairs_need_both_values() {
    let xs = vec![Some(1.0f32), None, Some(3.0), Some(4.0)];
    let ys = vec![Some(2.0f32), Some(5.0), None, Some(8.0)];
    assert_eq!(keep_parsed_pairs(&xs, &ys), vec![(1.0, 2.0), (4.0, 8.0)]);
}

#[test]
fn category_counts_of_four_rows() {
    let recs = rows(&[&["A", "x"], &["A", "x"], &["A", "y"], &["B", "x"]]);
    let c = count_categories(&recs, 0, 1);
    let pairs: Vec<(String, String, usize)> = c
        .pair_keys
        .iter()
        .zip(c.pair_counts.iter())
        .map(|((a, b), n)| (a.clone(), b.clone(), *n))
        .collect();
    assert_eq!(
        pairs,
        vec![
            ("A".to_string(), "x".to_string(), 2),
            ("A".to_string(), "y".to_string(), 1),
            ("B".to_string(), "x".to_string(), 1),
        ]
    );
    assert_eq!(c.categories, strings(&["A", "B"]));
    assert_eq!(c.category_counts, vec![3, 1]);
    assert_eq!(c.max_frequency(), 3);
}

#[test]
fn bar_rows_follow_pair_order() {
    let recs = rows(&[&["B", "y"], &["A", "x"], &["B", "y"]]);
    let c = count_categories(&recs, 0, 1);
    assert_eq!(
        c.bar_rows(),
        vec![
            ("B".to_string(), 2, "y".to_string()),
            ("A".to_string(), 1, "x".to_string()),
        ]
    );
    assert_eq!(c.max_frequency(), 2);
}

#[test]
fn max_frequency_counts_category_totals_not_pairs() {
    let recs = rows(&[&["A", "x"], &["A", "y"], &["A", "z"], &["B", "x"], &["B", "x"]]);
    let c = count_categories(&recs, 0, 1);
    assert_eq!(c.pair_counts, vec![1, 1, 1, 2]);
    assert_eq!(c.max_frequency(), 3);
}

#[test]
fn median_and_percentiles_of_four() {
    assert_eq!(median_positions(4), (1, 2));
    assert_eq!(percentile_position(4, 25), 0);
    assert_eq!(percentile_position(4, 75), 2);
    let sorted = [1.0f64, 2.0, 3.0, 4.0];
    let (a, b) = median_positions(sorted.len());
    assert_eq!((sorted[a] + sorted[b]) / 2.0, 2.5);
}

#[test]
fn single_sample_positions_do_not_underflow() {
    assert_eq!(median_positions(1), (0, 0));
    assert_eq!(percentile_position(1, 25), 0);
    assert_eq!(percentile_position(1, 75), 0);
}

#[test]
fn odd_count_median_is_middle() {
    assert_eq!(median_positions(5), (2, 2));
    assert_eq!(percentile_position(5, 25), 0);
    assert_eq!(percentile_position(5, 75), 2);
    assert_eq!(percentile_position(10, 25), 1);
    assert_eq!(percentile_position(10, 75), 6);
    assert_eq!(percentile_position(10, 100), 9);
}

#[test]
fn percentile_position_of_largest_count() {
    assert_eq!(percentile_position(usize::MAX, 100), usize::MAX - 1);
    assert!(percentile_position(usize::MAX, 75) < usize::MAX);
}

#[test]
fn describe_on_header_only_has_no_values() {
    let h = Some(strings(&["a", "b"]));
    assert!(describe_texts(&h, &Vec::new(), "a").unwrap().is_empty());
    let c = bar_counts(&h, &Vec::new(), "a", "b").unwrap();
    assert!(c.pair_keys.is_empty());
    assert_eq!(c.max_frequency(), 0);
    assert!(scatter_texts(&h, &Vec::new(), "a", "b").unwrap().is_empty());
}

#[test]
fn describe_errors_in_order() {
    let recs = rows(&[&["1"]]);
    assert!(matches!(describe_texts(&None, &recs, "a"), Err(AnalysisError::HeaderUnreadable)));
    let h = Some(strings(&["a"]));
    let mut bad = recs.clone();
    bad.push(None);
    match describe_texts(&h, &bad, "z") {
        Err(AnalysisError::ColumnNotFound(c)) => assert_eq!(c, "z"),
        other => panic!("unexpected {:?}", other),
    }
    assert!(matches!(describe_texts(&h, &bad, "a"), Err(AnalysisError::RecordUnreadable)));
    assert_eq!(describe_texts(&h, &recs, "a").unwrap(), strings(&["1"]));
}

#[test]
fn chart_column_errors_name_the_first_missing_column() {
    let h = Some(strings(&["a", "b"]));
    let recs = rows(&[&["1", "2"]]);
    match scatter_texts(&h, &recs, "q", "r") {
        Err(AnalysisError::ColumnNotFound(c)) => assert_eq!(c, "q"),
        other => panic!("unexpected {:?}", other),
    }
    match bar_counts(&h, &recs, "a", "r") {
        Err(AnalysisError::ColumnNotFound(c)) => assert_eq!(c, "r"),
        other => panic!("unexpected {:?}", other),
    }
    assert!(matches!(bar_counts(&None, &recs, "a", "b"), Err(AnalysisError::HeaderUnreadable)));
}

#[test]
fn charts_skip_unreadable_records() {
    let h = Some(strings(&["a", "b"]));
    let mut recs = rows(&[&["1", "2"]]);
    recs.push(None);
    recs.push(Some(strings(&["3", "4"])));
    assert_eq!(scatter_texts(&h, &recs, "b", "a").unwrap().len(), 2);
    assert_eq!(bar_counts(&h, &recs, "a", "b").unwrap().pair_keys.len(), 2);
}

#[test]
fn describe_input_reads_csv_bytes() {
    let data = b"name,val\na,1\nb,x\nc,3\n";
    let texts = describe_input(data, "val").unwrap();
    assert_eq!(texts, strings(&["1", "x", "3"]));
    assert_eq!(keep_parsed(&parse_all(&texts)), vec![1.0, 3.0]);
    assert!(matches!(describe_input(data, "Val"), Err(AnalysisError::ColumnNotFound(_))));
}

#[test]
fn describe_input_header_only() {
    assert!(describe_input(b"name,val\n", "val").unwrap().is_empty());
}

#[test]
fn describe_input_rejects_unreadable_header() {
    let data: &[u8] = b"\xff\xfe,val\n1,2\n";
    assert!(matches!(describe_input(data, "val"), Err(AnalysisError::HeaderUnreadable)));
}

#[test]
fn describe_input_rejects_unreadable_record() {
    let data = b"a,b\n1,2\n3\n";
    assert!(matches!(describe_input(data, "a"), Err(AnalysisError::RecordUnreadable)));
}

#[test]
fn scatter_input_reads_pairs() {
    let data = b"x,y\n1,2\n3,4\n";
    let pairs = scatter_input(data, "x", "y").unwrap();
    assert_eq!(
        pairs,
        vec![("1".to_string(), "2".to_string()), ("3".to_string(), "4".to_string())]
    );
}

#[test]
fn bar_input_counts_categories() {
    let data = b"cat,sub\nA,x\nA,x\nA,y\nB,x\n";
    let c = bar_input(data, "cat", "sub").unwrap();
    assert_eq!(c.categories, strings(&["A", "B"]));
    assert_eq!(c.category_counts, vec![3, 1]);
    assert_eq!(c.pair_counts, vec![2, 1, 1]);
    assert_eq!(c.max_frequency(), 3);
}

#[test]
fn repeated_runs_agree() {
    let data = b"cat,sub\nA,x\nB,y\nA,x\n";
    let a = bar_input(data, "cat", "sub").unwrap();
    let b = bar_input(data, "cat", "sub").unwrap();
    assert_eq!(a.pair_keys, b.pair_keys);
    assert_eq!(a.pair_counts, b.pair_counts);
    assert_eq!(describe_input(data, "cat").unwrap(), describe_input(data, "cat").unwrap());
}
