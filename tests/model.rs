use three_grams::query::{assemble_get_result, collect_rows};
use three_grams::reader::{process_line, read_lines};
use three_grams::specs::{
    Elapsed, Projection, QueryResult, ThreeGram, ThreeGramGetResult, ThreeGramInput,
    ThreeGramInsertResult, WordPair,
};
use three_grams::store::{exact_freq, plan_increment, WriteKind};
use three_grams::text::{is_whitespace, split_words};
use three_grams::writer::{insert_artifact_name, select_artifact_name, WriteOptions};

fn s(x: &str) -> String {
    x.to_string()
}

#[test]
fn parse_accepts_three_words() {
    let t = ThreeGramInput::from(s("the quick fox")).unwrap();
    assert_eq!(t.word_1, "the");
    assert_eq!(t.word_2, "quick");
    assert_eq!(t.word_3, "fox");
}

#[test]
fn parse_ignores_surrounding_and_repeated_whitespace() {
    let t = ThreeGramInput::from(s("  a\tbb   ccc \n")).unwrap();
    assert_eq!((t.word_1.as_str(), t.word_2.as_str(), t.word_3.as_str()), ("a", "bb", "ccc"));
}

#[test]
fn parse_round_trips_joined_words() {
    let words = ["alpha", "beta", "gamma"];
    let joined = words.join(" ");
    let t = ThreeGramInput::from(joined.clone()).unwrap();
    assert_eq!(t.render(), joined);
}

#[test]
fn parse_rejects_other_word_counts() {
    for bad in ["", "   ", "one", "one two", "one two three four"] {
        let e = ThreeGramInput::from(s(bad)).err().unwrap();
        assert_eq!(e, "Input must contain 3 words");
    }
}

#[test]
fn split_words_uses_unicode_whitespace() {
    let w = split_words("a\u{a0}b\u{3000}c");
    assert_eq!(w, vec![s("a"), s("b"), s("c")]);
    assert!(is_whitespace('\u{2028}'));
    assert!(!is_whitespace('x'));
}

#[test]
fn constructors_keep_fields() {
    let g = ThreeGram::new(s("a"), s("b"), s("c"), 7);
    assert_eq!((g.word_1.as_str(), g.word_2.as_str(), g.word_3.as_str(), g.freq), ("a", "b", "c", 7));
    let p = WordPair::new(s("x"), s("y"));
    let q = QueryResult::new(p, vec![(s("z"), 3)]);
    assert_eq!(q.word_pair.word_1, "x");
    assert_eq!(q.word_pair_map, vec![(s("z"), 3)]);
    let i = ThreeGramInsertResult::new(
        ThreeGramInput::new(s("a"), s("b"), s("c")),
        Elapsed::from_millis(1500),
        2,
    );
    assert_eq!(i.freq, 2);
    assert_eq!(i.time_taken.as_secs(), 1);
    assert_eq!(i.time_taken.subsec_millis(), 500);
}

#[test]
fn increment_of_new_key_inserts_one_everywhere() {
    let plan = plan_increment(None);
    assert_eq!(plan.freq, 1);
    assert_eq!(plan.writes.len(), 3);
    let order: Vec<Projection> = plan.writes.iter().map(|w| w.projection).collect();
    assert_eq!(
        order,
        vec![Projection::FirstSecond, Projection::FirstThird, Projection::SecondThird]
    );
    for w in &plan.writes {
        assert_eq!(w.kind, WriteKind::Insert);
        assert_eq!(w.freq, 1);
    }
}

#[test]
fn increment_of_stored_key_updates_everywhere() {
    let plan = plan_increment(Some(4));
    assert_eq!(plan.freq, 5);
    for w in &plan.writes {
        assert_eq!(w.kind, WriteKind::Update);
        assert_eq!(w.freq, 5);
    }
}

#[test]
fn repeated_increments_count_up() {
    let mut stored: Option<i32> = None;
    for _ in 0..5 {
        let plan = plan_increment(stored);
        assert!(plan.writes.iter().all(|w| w.freq == plan.freq));
        stored = Some(plan.freq);
    }
    assert_eq!(stored, Some(5));
}

#[test]
fn exact_lookup_of_missing_key_is_zero() {
    assert_eq!(exact_freq(None), 0);
    assert_eq!(exact_freq(Some(9)), 9);
}

#[test]
fn collect_rows_keeps_later_duplicate() {
    let r = collect_rows(vec![(s("a"), 1), (s("b"), 2), (s("a"), 5)]);
    assert_eq!(r, vec![(s("a"), 5), (s("b"), 2)]);
}

#[test]
fn assemble_get_result_pairs_words() {
    let input = ThreeGramInput::new(s("a"), s("b"), s("c"));
    let r: ThreeGramGetResult = assemble_get_result(
        &input,
        Elapsed::from_millis(30),
        Elapsed::from_millis(10),
        None,
        vec![(s("c"), 2)],
        vec![],
        vec![(s("a"), 1)],
    );
    assert_eq!(r.exact_freq, 0);
    let q13 = r.result_1_3_pk.as_ref().unwrap();
    assert_eq!((q13.word_pair.word_1.as_str(), q13.word_pair.word_2.as_str()), ("a", "c"));
    let q23 = r.result_2_3_pk.as_ref().unwrap();
    assert_eq!((q23.word_pair.word_1.as_str(), q23.word_pair.word_2.as_str()), ("b", "c"));
    assert_eq!(r.result_1_2_pk.as_ref().unwrap().word_pair_map, vec![(s("c"), 2)]);
}

#[test]
fn process_line_appends_or_fails() {
    let mut v = Vec::new();
    assert!(process_line(s("x y z"), &mut v).is_ok());
    assert_eq!(v.len(), 1);
    assert!(process_line(s("x y"), &mut v).is_err());
    assert_eq!(v.len(), 1);
}

#[test]
fn read_lines_fails_on_malformed_line() {
    let ok = read_lines(&vec![s("a b c"), s("d e f")]).unwrap();
    assert_eq!(ok.len(), 2);
    assert_eq!(ok[1].word_3, "f");
    assert!(read_lines(&vec![s("a b c"), s("d e")]).is_err());
}

#[test]
fn artifact_names() {
    let input = ThreeGramInput::new(s("a"), s("b"), s("c"));
    assert_eq!(select_artifact_name(&input), "a-b-c");
    let r = ThreeGramInsertResult::new(input, Elapsed::from_millis(5), 12);
    assert_eq!(insert_artifact_name(&r), "a-b-c-12");
    let WriteOptions::FILE(name) = WriteOptions::FILE(s("f"));
    assert_eq!(name, "f");
}
