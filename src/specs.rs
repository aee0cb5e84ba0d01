use vstd::prelude::*;
use vstd::string::StringExecFns;

use crate::text::{is_word, is_ws, split_words, views, words};

verus! {

/// A stored three-gram with its frequency.
pub struct ThreeGram {
    pub word_1: String,
    pub word_2: String,
    pub word_3: String,
    pub freq: i32,
}

/// The key of a three-gram: its three words in order.
pub struct ThreeGramInput {
    pub word_1: String,
    pub word_2: String,
    pub word_3: String,
}

/// A span of time, truncated to whole milliseconds.
#[derive(Clone, Copy, PartialEq, Eq, Structural, Debug)]
pub struct Elapsed {
    pub millis: u64,
}

/// The outcome of one increment-or-create.
pub struct ThreeGramInsertResult {
    pub three_gram_input: ThreeGramInput,
    pub time_taken: Elapsed,
    pub freq: i32,
}

/// Two words of a key that fix a partition of one projection.
pub struct WordPair {
    pub word_1: String,
    pub word_2: String,
}

/// The words that complete a word pair, each with its frequency.
pub struct QueryResult {
    pub word_pair: WordPair,
    pub word_pair_map: Vec<(String, i32)>,
}

/// The outcome of one query: the exact frequency and the three partition scans.
pub struct ThreeGramGetResult {
    pub three_gram_input: ThreeGramInput,
    pub time_taken_all: Elapsed,
    pub time_taken_one: Elapsed,
    pub exact_freq: i32,
    pub result_1_2_pk: Option<QueryResult>,
    pub result_1_3_pk: Option<QueryResult>,
    pub result_2_3_pk: Option<QueryResult>,
}

/// One of the three copies of the three-gram table, named by the two words
/// that key its partitions.
#[derive(Clone, Copy, PartialEq, Eq, Structural, Debug)]
pub enum Projection {
    FirstSecond,
    FirstThird,
    SecondThird,
}

/// The three words joined by single spaces.
pub open spec fn join3(w1: Seq<char>, w2: Seq<char>, w3: Seq<char>) -> Seq<char> {
    w1 + seq![' '] + w2 + seq![' '] + w3
}

pub open spec fn malformed_message() -> Seq<char> {
    "Input must contain 3 words"@
}

impl ThreeGramInput {
    pub open spec fn key(&self) -> (Seq<char>, Seq<char>, Seq<char>) {
        (self.word_1@, self.word_2@, self.word_3@)
    }
}

impl ThreeGram {
    pub fn new(word_1: String, word_2: String, word_3: String, freq: i32) -> (r: ThreeGram)
        ensures
            r.word_1 == word_1,
            r.word_2 == word_2,
            r.word_3 == word_3,
            r.freq == freq,
    {
        ThreeGram { word_1, word_2, word_3, freq }
    }
}

impl ThreeGramInput {
    pub fn new(word_1: String, word_2: String, word_3: String) -> (r: ThreeGramInput)
        ensures
            r.word_1 == word_1,
            r.word_2 == word_2,
            r.word_3 == word_3,
    {
        ThreeGramInput { word_1, word_2, word_3 }
    }

    /// Parses a key from text: it must hold exactly three whitespace-separated words.
    pub fn from(input: String) -> (r: Result<ThreeGramInput, String>)
        ensures
            match r {
                Ok(t) => {
                    &&& words(input@).len() == 3
                    &&& t.word_1@ == words(input@)[0]
                    &&& t.word_2@ == words(input@)[1]
                    &&& t.word_3@ == words(input@)[2]
                },
                Err(e) => words(input@).len() != 3 && e@ == malformed_message(),
            },
    {
        let mut parts = split_words(input.as_str());
        if parts.len() != 3 {
            return Err(String::from_str("Input must contain 3 words"));
        }
        proof {
            assert(views(parts@)[0] == parts@[0]@);
            assert(views(parts@)[1] == parts@[1]@);
            assert(views(parts@)[2] == parts@[2]@);
        }
        let word_3 = parts.pop().unwrap();
        let word_2 = parts.pop().unwrap();
        let word_1 = parts.pop().unwrap();
        Ok(ThreeGramInput::new(word_1, word_2, word_3))
    }
}

proof fn lemma_words_push_space(p: Seq<char>, c: char)
    requires
        is_ws(c),
    ensures
        words(p.push(c)) == words(p),
{
    assert(p.push(c).drop_last() =~= p);
}

proof fn lemma_words_push_word(p: Seq<char>, w: Seq<char>)
    requires
        is_word(w),
        p.len() == 0 || is_ws(p.last()),
    ensures
        words(p + w) == words(p).push(w),
    decreases w.len(),
{
    let pw = p + w;
    if w.len() == 1 {
        assert(pw.drop_last() =~= p);
        assert(w[0] == pw.last());
        assert(seq![pw.last()] =~= w);
    } else {
        let w0 = w.drop_last();
        assert(is_word(w0)) by {
            assert forall|i: int| 0 <= i < w0.len() implies !is_ws(#[trigger] w0[i]) by {
                assert(w0[i] == w[i]);
            }
        }
        lemma_words_push_word(p, w0);
        assert(pw.drop_last() =~= p + w0);
        assert(pw[pw.len() - 2] == w[w.len() - 2]);
        assert(pw.last() == w[w.len() - 1]);
        let prev = words(p).push(w0);
        assert(w0.push(pw.last()) =~= w);
        assert(prev.update(prev.len() - 1, prev.last().push(pw.last())) =~= words(p).push(w));
    }
}

/// Parsing undoes joining: three words joined by single spaces split back into
/// exactly those three words, so `ThreeGramInput::from` accepts the text and
/// returns them.
pub proof fn lemma_parse_inverts_join(w1: Seq<char>, w2: Seq<char>, w3: Seq<char>)
    requires
        is_word(w1),
        is_word(w2),
        is_word(w3),
    ensures
        words(join3(w1, w2, w3)) == seq![w1, w2, w3],
{
    let e = Seq::<char>::empty();
    assert(words(e) =~= seq![]);
    lemma_words_push_word(e, w1);
    assert(e + w1 =~= w1);
    let a = w1 + seq![' '];
    assert(a =~= w1.push(' '));
    lemma_words_push_space(w1, ' ');
    lemma_words_push_word(a, w2);
    let b = a + w2 + seq![' '];
    assert(b =~= (a + w2).push(' '));
    lemma_words_push_space(a + w2, ' ');
    lemma_words_push_word(b, w3);
    assert(join3(w1, w2, w3) =~= b + w3);
    assert(seq![w1].push(w2).push(w3) =~= seq![w1, w2, w3]);
}

impl ThreeGramInsertResult {
    pub fn new(three_gram_input: ThreeGramInput, time_taken: Elapsed, freq: i32) -> (r:
        ThreeGramInsertResult)
        ensures
            r.three_gram_input == three_gram_input,
            r.time_taken == time_taken,
            r.freq == freq,
    {
        ThreeGramInsertResult { three_gram_input, time_taken, freq }
    }
}

impl WordPair {
    pub fn new(word_1: String, word_2: String) -> (r: WordPair)
        ensures
            r.word_1 == word_1,
            r.word_2 == word_2,
    {
        WordPair { word_1, word_2 }
    }
}

impl QueryResult {
    pub fn new(word_pair: WordPair, word_pair_map: Vec<(String, i32)>) -> (r: QueryResult)
        ensures
            r.word_pair == word_pair,
            r.word_pair_map == word_pair_map,
    {
        QueryResult { word_pair, word_pair_map }
    }
}

impl ThreeGramGetResult {
    pub fn new(
        three_gram_input: ThreeGramInput,
        time_taken_all: Elapsed,
        time_taken_one: Elapsed,
        exact_freq: i32,
        result_1_2_pk: Option<QueryResult>,
        result_1_3_pk: Option<QueryResult>,
        result_2_3_pk: Option<QueryResult>,
    ) -> (r: ThreeGramGetResult)
        ensures
            r.three_gram_input == three_gram_input,
            r.time_taken_all == time_taken_all,
            r.time_taken_one == time_taken_one,
            r.exact_freq == exact_freq,
            r.result_1_2_pk == result_1_2_pk,
            r.result_1_3_pk == result_1_3_pk,
            r.result_2_3_pk == result_2_3_pk,
    {
        ThreeGramGetResult {
            three_gram_input,
            time_taken_all,
            time_taken_one,
            exact_freq,
            result_1_2_pk,
            result_1_3_pk,
            result_2_3_pk,
        }
    }
}

} // verus!
