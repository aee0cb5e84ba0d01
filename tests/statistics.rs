use three_grams::specs::{Elapsed, ThreeGramInput, ThreeGramInsertResult};
use three_grams::stats::{
    add_insert_artifact, calculate_median, calculate_min_max, calculate_percentile,
    parse_time_from_line_insert, parse_time_from_line_select, summarize, total, Median, Ratio,
    SelectSamples,
};

fn lines(text: &str) -> Vec<String> {
    text.lines().map(|l| l.to_string()).collect()
}

#[test]
fn select_line_times_parse_to_millis() {
    assert_eq!(
        parse_time_from_line_select("Time taken to get the exact frequency: 0.010 seconds"),
        Some(10)
    );
    assert_eq!(parse_time_from_line_select("Time taken to get all values: 12.345 seconds"), Some(12345));
    assert_eq!(parse_time_from_line_select("Time taken to get all values: 0.01 seconds"), None);
    assert_eq!(parse_time_from_line_select("Time taken to get all values: x.010 seconds"), None);
    assert_eq!(parse_time_from_line_select("Time taken to get all values: 0.010"), None);
}

#[test]
fn insert_line_time_parses_to_millis() {
    assert_eq!(
        parse_time_from_line_insert("Inserted 3-gram: a b c = 4 in 0.030 seconds"),
        Some(30)
    );
    assert_eq!(parse_time_from_line_insert("0.030 seconds"), None);
}

#[test]
fn rendered_insert_artifact_reads_back() {
    let r = ThreeGramInsertResult::new(
        ThreeGramInput::new("a".to_string(), "b".to_string(), "c".to_string()),
        Elapsed::from_millis(2047),
        1,
    );
    let mut samples = Vec::new();
    add_insert_artifact(&mut samples, &lines(&r.render()));
    assert_eq!(samples, vec![2047]);
}

#[test]
fn insert_stats_of_two_artifacts() {
    let mut samples = Vec::new();
    add_insert_artifact(&mut samples, &lines("Inserted 3-gram: a b c = 1 in 0.010 seconds\n"));
    add_insert_artifact(&mut samples, &lines("Inserted 3-gram: a b d = 2 in 0.030 seconds\n"));
    assert_eq!(samples, vec![10, 30]);
    let s = summarize(samples).unwrap();
    assert_eq!(s.count, 2);
    assert_eq!(s.total_ms, 40);
    assert_eq!(s.mean_ms, Ratio { num: 40, den: 2 });
    assert_eq!(s.min_ms, 10);
    assert_eq!(s.max_ms, 30);
    let t = s.throughput.unwrap();
    assert_eq!(t.num / t.den, 50);
    assert_eq!(t.num % t.den, 0);
}

#[test]
fn select_artifact_without_all_values_line() {
    let mut samples = SelectSamples::new();
    samples.add_artifact(&lines(
        "Given 3-gram: a b c = 1\n\
         Time taken to get the exact frequency: 0.004 seconds\n",
    ));
    assert_eq!(samples.exact, vec![4]);
    assert!(samples.all.is_empty());
    samples.add_artifact(&lines(
        "Given 3-gram: a b d = 2\n\
         Time taken to get the exact frequency: 0.002 seconds\n\
         Time taken to get all values: 0.020 seconds\n\
         Time taken to get the exact frequency: 0.009 seconds\n",
    ));
    assert_eq!(samples.exact, vec![4, 2]);
    assert_eq!(samples.all, vec![20]);
}

#[test]
fn malformed_select_line_is_skipped() {
    let mut samples = SelectSamples::new();
    samples.add_artifact(&lines(
        "Time taken to get the exact frequency: soon seconds\n\
         Time taken to get all values: 0.020 seconds\n",
    ));
    assert!(samples.exact.is_empty());
    assert_eq!(samples.all, vec![20]);
}

#[test]
fn percentile_bounds() {
    let v: Vec<u64> = vec![3, 1, 5, 2, 4];
    assert_eq!(calculate_percentile(&v, 100), Some(5));
    assert_eq!(calculate_percentile(&v, 0), Some(1));
    assert_eq!(calculate_percentile(&v, 90), Some(5));
    assert_eq!(calculate_percentile(&v, 50), Some(3));
    assert_eq!(calculate_percentile(&Vec::new(), 90), None);
}

#[test]
fn median_even_and_odd() {
    let mut even: Vec<u64> = vec![4, 1, 3, 2];
    assert_eq!(calculate_median(&mut even), Some(Median { lower: 2, upper: 3 }));
    assert_eq!(even, vec![1, 2, 3, 4]);
    let mut odd: Vec<u64> = vec![3, 1, 2];
    assert_eq!(calculate_median(&mut odd), Some(Median { lower: 2, upper: 2 }));
    assert_eq!(calculate_median(&mut Vec::new()), None);
}

#[test]
fn min_max_and_total() {
    assert_eq!(calculate_min_max(&vec![7, 3, 9, 3]), Some((3, 9)));
    assert_eq!(calculate_min_max(&Vec::new()), None);
    assert_eq!(total(&vec![u64::MAX, u64::MAX]), 2 * (u64::MAX as u128));
}

#[test]
fn empty_samples_have_no_summary() {
    assert!(summarize(Vec::new()).is_none());
    let z = summarize(vec![0]).unwrap();
    assert_eq!(z.throughput, None);
}
