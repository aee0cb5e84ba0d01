use vstd::prelude::*;

use crate::specs::{Elapsed, QueryResult, ThreeGramGetResult, ThreeGramInput, WordPair};
use crate::store::{exact_freq, exact_freq_spec};

verus! {

/// What a partition scan says of each word: later rows replace earlier ones.
pub open spec fn rows_map(rows: Seq<(String, i32)>) -> Map<Seq<char>, i32>
    decreases rows.len(),
{
    if rows.len() == 0 {
        Map::empty()
    } else {
        rows_map(rows.drop_last()).insert(rows.last().0@, rows.last().1)
    }
}

/// No word stands twice.
pub open spec fn distinct_words(v: Seq<(String, i32)>) -> bool {
    forall|i: int, j: int| 0 <= i < j < v.len() ==> v[i].0@ != v[j].0@
}

proof fn lemma_rows_map_update(v: Seq<(String, i32)>, j: int, x: (String, i32))
    requires
        distinct_words(v),
        0 <= j < v.len(),
        v[j].0@ == x.0@,
    ensures
        rows_map(v.update(j, x)) == rows_map(v).insert(x.0@, x.1),
    decreases v.len(),
{
    let u = v.update(j, x);
    if j == v.len() - 1 {
        assert(u.drop_last() =~= v.drop_last());
        assert(rows_map(u) =~= rows_map(v).insert(x.0@, x.1));
    } else {
        assert(u.drop_last() =~= v.drop_last().update(j, x));
        lemma_rows_map_update(v.drop_last(), j, x);
        assert(v.last().0@ != x.0@);
        assert(rows_map(u) =~= rows_map(v).insert(x.0@, x.1));
    }
}

/// Gathers the rows of a partition scan into its words with their frequencies:
/// one entry per word, and a word read twice keeps the later frequency.
pub fn collect_rows(rows: Vec<(String, i32)>) -> (r: Vec<(String, i32)>)
    ensures
        distinct_words(r@),
        rows_map(r@) == rows_map(rows@),
{
    let mut out: Vec<(String, i32)> = Vec::new();
    let n = rows.len();
    for i in 0..n
        invariant
            n == rows@.len(),
            distinct_words(out@),
            rows_map(out@) == rows_map(rows@.take(i as int)),
    {
        let word = rows[i].0.clone();
        let freq = rows[i].1;
        assert(rows@.take(i + 1).drop_last() =~= rows@.take(i as int));
        let mut j: usize = 0;
        let mut found = false;
        while j < out.len() && !found
            invariant
                j <= out@.len(),
                !found ==> forall|k: int| 0 <= k < j ==> out@[k].0@ != word@,
                found ==> j < out@.len() && out@[j as int].0@ == word@,
            decreases out@.len() - j + if found {
                0int
            } else {
                1int
            },
        {
            if out[j].0 == word {
                found = true;
            } else {
                j = j + 1;
            }
        }
        if found {
            proof {
                lemma_rows_map_update(out@, j as int, (word, freq));
            }
            let ghost before = out@;
            out.set(j, (word, freq));
            assert forall|a: int, b: int| 0 <= a < b < out@.len() implies out@[a].0@
                != out@[b].0@ by {
                assert(out@[a].0@ == before[a].0@);
                assert(out@[b].0@ == before[b].0@);
            }
        } else {
            let ghost before = out@;
            out.push((word, freq));
            assert(out@.drop_last() =~= before);
            assert forall|a: int, b: int| 0 <= a < b < out@.len() implies out@[a].0@
                != out@[b].0@ by {
                if b < before.len() {
                    assert(out@[a] == before[a] && out@[b] == before[b]);
                } else {
                    assert(out@[a] == before[a]);
                }
            }
        }
    }
    assert(rows@.take(n as int) =~= rows@);
    out
}

/// Puts a query's outcome together from what the store returned: the row of the
/// point read, and the rows of the three partition scans of the key's word pairs.
pub fn assemble_get_result(
    input: &ThreeGramInput,
    time_taken_all: Elapsed,
    time_taken_one: Elapsed,
    exact_row: Option<i32>,
    rows_1_2: Vec<(String, i32)>,
    rows_1_3: Vec<(String, i32)>,
    rows_2_3: Vec<(String, i32)>,
) -> (r: ThreeGramGetResult)
    ensures
        r.three_gram_input.key() == input.key(),
        r.time_taken_all == time_taken_all,
        r.time_taken_one == time_taken_one,
        r.exact_freq == exact_freq_spec(exact_row),
        r.result_1_2_pk matches Some(q) && q.word_pair.word_1@ == input.word_1@
            && q.word_pair.word_2@ == input.word_2@ && distinct_words(q.word_pair_map@) && rows_map(
            q.word_pair_map@,
        ) == rows_map(rows_1_2@),
        r.result_1_3_pk matches Some(q) && q.word_pair.word_1@ == input.word_1@
            && q.word_pair.word_2@ == input.word_3@ && distinct_words(q.word_pair_map@) && rows_map(
            q.word_pair_map@,
        ) == rows_map(rows_1_3@),
        r.result_2_3_pk matches Some(q) && q.word_pair.word_1@ == input.word_2@
            && q.word_pair.word_2@ == input.word_3@ && distinct_words(q.word_pair_map@) && rows_map(
            q.word_pair_map@,
        ) == rows_map(rows_2_3@),
{
    let key = ThreeGramInput::new(input.word_1.clone(), input.word_2.clone(), input.word_3.clone());
    let q12 = QueryResult::new(
        WordPair::new(input.word_1.clone(), input.word_2.clone()),
        collect_rows(rows_1_2),
    );
    let q13 = QueryResult::new(
        WordPair::new(input.word_1.clone(), input.word_3.clone()),
        collect_rows(rows_1_3),
    );
    let q23 = QueryResult::new(
        WordPair::new(input.word_2.clone(), input.word_3.clone()),
        collect_rows(rows_2_3),
    );
    ThreeGramGetResult::new(
        key,
        time_taken_all,
        time_taken_one,
        exact_freq(exact_row),
        Some(q12),
        Some(q13),
        Some(q23),
    )
}

} // verus!
