use vstd::prelude::*;

use crate::render::{int_text, push_int, push_str};
use crate::specs::{ThreeGramInput, ThreeGramInsertResult};
use crate::text::push_char;

verus! {

/// Where an artifact is written.
pub enum WriteOptions {
    FILE(String),
}

pub open spec fn dashed_key(w1: Seq<char>, w2: Seq<char>, w3: Seq<char>) -> Seq<char> {
    w1 + seq!['-'] + w2 + seq!['-'] + w3
}

fn push_dashed_key(s: &mut String, k: &ThreeGramInput)
    ensures
        final(s)@ == old(s)@ + dashed_key(k.word_1@, k.word_2@, k.word_3@),
{
    let ghost start = s@;
    push_str(s, k.word_1.as_str());
    push_char(s, '-');
    push_str(s, k.word_2.as_str());
    push_char(s, '-');
    push_str(s, k.word_3.as_str());
    assert(s@ =~= start + dashed_key(k.word_1@, k.word_2@, k.word_3@));
}

/// The name of a query's artifact: its three words joined by dashes.
pub fn select_artifact_name(input: &ThreeGramInput) -> (r: String)
    ensures
        r@ == dashed_key(input.word_1@, input.word_2@, input.word_3@),
{
    let mut s = String::new();
    push_dashed_key(&mut s, input);
    assert(s@ =~= dashed_key(input.word_1@, input.word_2@, input.word_3@));
    s
}

/// The name of an insert's artifact: its three words and the new frequency,
/// joined by dashes.
pub fn insert_artifact_name(result: &ThreeGramInsertResult) -> (r: String)
    ensures
        r@ == dashed_key(
            result.three_gram_input.word_1@,
            result.three_gram_input.word_2@,
            result.three_gram_input.word_3@,
        ) + seq!['-'] + int_text(result.freq as int),
{
    let mut s = String::new();
    let ghost start = s@;
    push_dashed_key(&mut s, &result.three_gram_input);
    push_char(&mut s, '-');
    push_int(&mut s, result.freq);
    let k = &result.three_gram_input;
    assert(s@ =~= dashed_key(k.word_1@, k.word_2@, k.word_3@) + seq!['-'] + int_text(
        result.freq as int,
    ));
    s
}

} // verus!
