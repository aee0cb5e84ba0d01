use three_grams::render::top_entries;
use three_grams::specs::{Elapsed, QueryResult, ThreeGramGetResult, ThreeGramInput, ThreeGramInsertResult, WordPair};

fn s(x: &str) -> String {
    x.to_string()
}

#[test]
fn insert_artifact_text() {
    let r = ThreeGramInsertResult::new(
        ThreeGramInput::new(s("a"), s("b"), s("c")),
        Elapsed::from_millis(1010),
        -3,
    );
    assert_eq!(r.render(), "Inserted 3-gram: a b c = -3 in 1.010 seconds\n");
}

#[test]
fn top_entries_orders_and_truncates() {
    let entries: Vec<(String, i32)> = (0..12).map(|i| (format!("w{}", i), i)).collect();
    let top = top_entries(&entries);
    assert_eq!(top.len(), 10);
    assert_eq!(top[0], (s("w11"), 11));
    assert_eq!(top[9], (s("w2"), 2));
    let few = top_entries(&vec![(s("a"), 1), (s("b"), 3)]);
    assert_eq!(few, vec![(s("b"), 3), (s("a"), 1)]);
}

#[test]
fn query_artifact_text() {
    let entries: Vec<(String, i32)> = (0..12).map(|i| (format!("w{}", i), 100 - i)).collect();
    let r = ThreeGramGetResult::new(
        ThreeGramInput::new(s("a"), s("b"), s("c")),
        Elapsed::from_millis(25),
        Elapsed::from_millis(3),
        7,
        Some(QueryResult::new(WordPair::new(s("a"), s("b")), entries)),
        Some(QueryResult::new(WordPair::new(s("a"), s("c")), vec![(s("b"), 7)])),
        None,
    );
    let text = r.render();
    let mut expected = String::from(
        "Given 3-gram: a b c = 7\n\
         Time taken to get the exact frequency: 0.003 seconds\n\
         Time taken to get all values: 0.025 seconds\n\
         --- query executed based on first and second word ---\n\
         words: a b _____\n",
    );
    for i in 0..10 {
        expected.push_str(&format!(" w{}: {}\n", i, 100 - i));
    }
    expected.push_str(" ... and 2 more\n");
    expected.push_str(
        "--- query executed based on first and third word ---\n\
         words: a _____ c\n b: 7\n",
    );
    assert_eq!(text, expected);
}

#[test]
fn section_without_truncation_has_no_trailer() {
    let r = ThreeGramGetResult::new(
        ThreeGramInput::new(s("a"), s("b"), s("c")),
        Elapsed::from_millis(0),
        Elapsed::from_millis(0),
        0,
        None,
        None,
        Some(QueryResult::new(WordPair::new(s("b"), s("c")), vec![(s("a"), 1)])),
    );
    let text = r.render();
    assert!(text.ends_with("--- query executed based on second and third word ---\nwords: _____ b c\n a: 1\n"));
    assert!(!text.contains("more"));
}
