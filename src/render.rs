use vstd::prelude::*;
use vstd::string::StringExecFns;

use itertools::Itertools;
use std::cmp::Ordering;

use crate::specs::{
    join3, Elapsed, Projection, QueryResult, ThreeGramGetResult, ThreeGramInput, ThreeGramInsertResult,
};
use crate::text::push_char;

verus! {

broadcast use vstd::seq_lib::group_to_multiset_ensures;

/// How many co-occurring words a section lists at most.
pub const TOP_ENTRIES: usize = 10;

pub open spec fn digit_char(d: nat) -> char {
    ((d + 48) as u8) as char
}

/// The decimal digits of `n`, without leading zeros.
pub open spec fn dec(n: nat) -> Seq<char>
    decreases n,
{
    if n < 10 {
        seq![digit_char(n)]
    } else {
        dec(n / 10).push(digit_char(n % 10))
    }
}

/// An integer in decimal, with a leading minus sign when negative.
pub open spec fn int_text(i: int) -> Seq<char> {
    if i < 0 {
        seq!['-'] + dec((-i) as nat)
    } else {
        dec(i as nat)
    }
}

/// Milliseconds as `seconds.mmm`.
pub open spec fn time_text(ms: nat) -> Seq<char> {
    let m = ms % 1000;
    dec(ms / 1000) + seq!['.', digit_char(m / 100), digit_char((m / 10) % 10), digit_char(m % 10)]
}

/// The single line of an insert artifact.
pub open spec fn insert_text(r: ThreeGramInsertResult) -> Seq<char> {
    let k = r.three_gram_input;
    "Inserted 3-gram: "@ + join3(k.word_1@, k.word_2@, k.word_3@) + " = "@ + int_text(
        r.freq as int,
    ) + " in "@ + time_text(r.time_taken.millis as nat) + " seconds\n"@
}

pub open spec fn entry_line(e: (String, i32)) -> Seq<char> {
    seq![' '] + e.0@ + ": "@ + int_text(e.1 as int) + seq!['\n']
}

pub open spec fn entries_text(s: Seq<(String, i32)>) -> Seq<char>
    decreases s.len(),
{
    if s.len() == 0 {
        seq![]
    } else {
        entries_text(s.drop_last()) + entry_line(s.last())
    }
}

pub open spec fn trailer_text(count: nat) -> Seq<char> {
    if count > TOP_ENTRIES {
        " ... and "@ + dec((count - TOP_ENTRIES) as nat) + " more\n"@
    } else {
        seq![]
    }
}

pub open spec fn header_text(p: Projection) -> Seq<char> {
    match p {
        Projection::FirstSecond => "--- query executed based on first and second word ---\n"@,
        Projection::FirstThird => "--- query executed based on first and third word ---\n"@,
        Projection::SecondThird => "--- query executed based on second and third word ---\n"@,
    }
}

pub open spec fn pair_text(p: Projection, a: Seq<char>, b: Seq<char>) -> Seq<char> {
    match p {
        Projection::FirstSecond => "words: "@ + a + seq![' '] + b + " _____\n"@,
        Projection::FirstThird => "words: "@ + a + " _____ "@ + b + seq!['\n'],
        Projection::SecondThird => "words: _____ "@ + a + seq![' '] + b + seq!['\n'],
    }
}

/// `top` holds the most frequent entries of `all`: as many as a section shows,
/// by descending frequency, and none left out is more frequent than the last shown.
pub open spec fn is_top(top: Seq<(String, i32)>, all: Seq<(String, i32)>) -> bool {
    &&& top.len() == if all.len() < TOP_ENTRIES {
        all.len()
    } else {
        TOP_ENTRIES as nat
    }
    &&& forall|i: int, j: int| 0 <= i < j < top.len() ==> top[i].1 >= top[j].1
    &&& top.to_multiset().subset_of(all.to_multiset())
    &&& forall|x: (String, i32)|
        all.to_multiset().count(x) > top.to_multiset().count(x) ==> top.len() > 0 && x.1
            <= top.last().1
}

pub open spec fn section_text(p: Projection, q: QueryResult, top: Seq<(String, i32)>) -> Seq<
    char,
> {
    header_text(p) + pair_text(p, q.word_pair.word_1@, q.word_pair.word_2@) + entries_text(top)
        + trailer_text(q.word_pair_map@.len())
}

pub open spec fn opt_section_text(
    p: Projection,
    q: Option<QueryResult>,
    top: Seq<(String, i32)>,
) -> Seq<char> {
    match q {
        Some(q) => section_text(p, q, top),
        None => seq![],
    }
}

pub open spec fn opt_is_top(q: Option<QueryResult>, top: Seq<(String, i32)>) -> bool {
    match q {
        Some(q) => is_top(top, q.word_pair_map@),
        None => true,
    }
}

/// The text of a query artifact, given the entries that each section shows.
pub open spec fn get_text(
    r: ThreeGramGetResult,
    t12: Seq<(String, i32)>,
    t13: Seq<(String, i32)>,
    t23: Seq<(String, i32)>,
) -> Seq<char> {
    let k = r.three_gram_input;
    "Given 3-gram: "@ + join3(k.word_1@, k.word_2@, k.word_3@) + " = "@ + int_text(
        r.exact_freq as int,
    ) + seq!['\n'] + "Time taken to get the exact frequency: "@ + time_text(
        r.time_taken_one.millis as nat,
    ) + " seconds\n"@ + "Time taken to get all values: "@ + time_text(
        r.time_taken_all.millis as nat,
    ) + " seconds\n"@ + opt_section_text(Projection::FirstSecond, r.result_1_2_pk, t12)
        + opt_section_text(Projection::FirstThird, r.result_1_3_pk, t13) + opt_section_text(
        Projection::SecondThird,
        r.result_2_3_pk,
        t23,
    )
}

fn digit(d: u64) -> (c: char)
    requires
        d < 10,
    ensures
        c == digit_char(d as nat),
{
    ((d as u8) + 48) as char
}

pub(crate) fn push_str(s: &mut String, t: &str)
    ensures
        final(s)@ == old(s)@ + t@,
{
    s.append(t);
}

fn push_dec(s: &mut String, n: u64)
    ensures
        final(s)@ == old(s)@ + dec(n as nat),
    decreases n,
{
    let ghost start = s@;
    if n >= 10 {
        push_dec(s, n / 10);
    }
    push_char(s, digit(n % 10));
    proof {
        if n >= 10 {
            assert((start + dec((n / 10) as nat)).push(digit_char((n % 10) as nat)) =~= start + dec(
                n as nat,
            ));
        } else {
            assert(start.push(digit_char(n as nat)) =~= start + dec(n as nat));
        }
    }
}

pub(crate) fn push_int(s: &mut String, i: i32)
    ensures
        final(s)@ == old(s)@ + int_text(i as int),
{
    let ghost start = s@;
    if i < 0 {
        push_char(s, '-');
        let m: i64 = -(i as i64);
        push_dec(s, m as u64);
        assert(start.push('-') + dec((-i) as nat) =~= start + int_text(i as int));
    } else {
        push_dec(s, i as u64);
    }
}

fn push_time(s: &mut String, t: Elapsed)
    ensures
        final(s)@ == old(s)@ + time_text(t.millis as nat),
{
    let ghost start = s@;
    let m = t.subsec_millis() as u64;
    push_dec(s, t.as_secs());
    push_char(s, '.');
    push_char(s, digit(m / 100));
    push_char(s, digit((m / 10) % 10));
    push_char(s, digit(m % 10));
    assert(s@ =~= start + time_text(t.millis as nat));
}

fn push_key(s: &mut String, k: &ThreeGramInput)
    ensures
        final(s)@ == old(s)@ + join3(k.word_1@, k.word_2@, k.word_3@),
{
    let ghost start = s@;
    push_str(s, k.word_1.as_str());
    push_char(s, ' ');
    push_str(s, k.word_2.as_str());
    push_char(s, ' ');
    push_str(s, k.word_3.as_str());
    assert(s@ =~= start + join3(k.word_1@, k.word_2@, k.word_3@));
}

impl Elapsed {
    pub fn from_millis(millis: u64) -> (r: Elapsed)
        ensures
            r.millis == millis,
    {
        Elapsed { millis }
    }

    /// Whole seconds.
    pub fn as_secs(&self) -> (r: u64)
        ensures
            r == self.millis / 1000,
    {
        self.millis / 1000
    }

    /// Milliseconds past the whole seconds.
    pub fn subsec_millis(&self) -> (r: u32)
        ensures
            r == self.millis % 1000,
    {
        (self.millis % 1000) as u32
    }
}

impl ThreeGramInput {
    /// The three words separated by single spaces.
    pub fn render(&self) -> (r: String)
        ensures
            r@ == join3(self.word_1@, self.word_2@, self.word_3@),
    {
        let mut s = String::new();
        push_key(&mut s, self);
        assert(s@ =~= join3(self.word_1@, self.word_2@, self.word_3@));
        s
    }
}

impl ThreeGramInsertResult {
    /// The insert artifact: one line with the key, the new frequency and the time taken.
    pub fn render(&self) -> (r: String)
        ensures
            r@ == insert_text(*self),
    {
        let mut s = String::new();
        let ghost start = s@;
        push_str(&mut s, "Inserted 3-gram: ");
        push_key(&mut s, &self.three_gram_input);
        push_str(&mut s, " = ");
        push_int(&mut s, self.freq);
        push_str(&mut s, " in ");
        push_time(&mut s, self.time_taken);
        push_str(&mut s, " seconds\n");
        assert(s@ =~= insert_text(*self));
        s
    }
}

/// Orders entries by descending frequency.
fn freq_desc(a: &(String, i32), b: &(String, i32)) -> (r: Ordering)
    ensures
        r == (if a.1 > b.1 {
            Ordering::Less
        } else if a.1 < b.1 {
            Ordering::Greater
        } else {
            Ordering::Equal
        }),
{
    if a.1 > b.1 {
        Ordering::Less
    } else if a.1 < b.1 {
        Ordering::Greater
    } else {
        Ordering::Equal
    }
}

/// Relies on `itertools::Itertools::sorted_by`: it collects the items into a `Vec`
/// and sorts them with `slice::sort_by`, so the result holds the same items, in
/// the order that the comparison gives (here: descending frequency).
#[verifier::external_body]
fn sort_by_freq_desc(entries: Vec<(String, i32)>) -> (r: Vec<(String, i32)>)
    ensures
        r@.to_multiset() == entries@.to_multiset(),
        forall|i: int, j: int| 0 <= i < j < r@.len() ==> r@[i].1 >= r@[j].1,
{
    entries.into_iter().sorted_by(|a, b| freq_desc(a, b)).collect()
}

fn copy_entries(v: &Vec<(String, i32)>) -> (r: Vec<(String, i32)>)
    ensures
        r@ == v@,
{
    let mut r: Vec<(String, i32)> = Vec::new();
    for i in 0..v.len()
        invariant
            r@ == v@.take(i as int),
    {
        let w = v[i].0.clone();
        r.push((w, v[i].1));
        assert(r@ =~= v@.take(i + 1));
    }
    assert(v@.take(v.len() as int) =~= v@);
    r
}

/// The entries that a section lists: the most frequent ones, at most `TOP_ENTRIES`.
pub fn top_entries(entries: &Vec<(String, i32)>) -> (r: Vec<(String, i32)>)
    ensures
        is_top(r@, entries@),
        r@.len() <= TOP_ENTRIES,
{
    let mut sorted = sort_by_freq_desc(copy_entries(entries));
    let ghost all = sorted@;
    let k: usize = if sorted.len() < TOP_ENTRIES {
        sorted.len()
    } else {
        TOP_ENTRIES
    };
    sorted.truncate(k);
    proof {
        let top = all.take(k as int);
        let rest = all.skip(k as int);
        assert(sorted@ =~= top);
        assert(all.len() == entries@.len()) by {
            assert(all.to_multiset().len() == entries@.to_multiset().len());
        }
        assert forall|i: int, j: int| 0 <= i < j < top.len() implies top[i].1 >= top[j].1 by {
            assert(top[i] == all[i] && top[j] == all[j]);
        }
        assert(all =~= top + rest);
        vstd::seq_lib::lemma_multiset_commutative(top, rest);
        assert(top.to_multiset().subset_of(entries@.to_multiset()));
        assert forall|x: (String, i32)|
            entries@.to_multiset().count(x) > top.to_multiset().count(x) implies top.len() > 0
                && x.1 <= top.last().1 by {
            assert(rest.to_multiset().count(x) > 0);
            assert(rest.contains(x));
            let j = choose|j: int| 0 <= j < rest.len() && rest[j] == x;
            assert(all[k + j] == x);
            assert(all[k - 1] == top.last());
        }
    }
    sorted
}

fn push_entries(s: &mut String, top: &Vec<(String, i32)>)
    ensures
        final(s)@ == old(s)@ + entries_text(top@),
{
    let ghost start = s@;
    for i in 0..top.len()
        invariant
            s@ == start + entries_text(top@.take(i as int)),
    {
        let ghost before = s@;
        push_char(s, ' ');
        push_str(s, top[i].0.as_str());
        push_str(s, ": ");
        push_int(s, top[i].1);
        push_char(s, '\n');
        assert(top@.take(i + 1).drop_last() =~= top@.take(i as int));
        assert(s@ =~= start + entries_text(top@.take(i + 1)));
    }
    assert(top@.take(top.len() as int) =~= top@);
}

fn push_section(s: &mut String, p: Projection, q: &QueryResult)
    ensures
        exists|top: Seq<(String, i32)>|
            is_top(top, q.word_pair_map@) && final(s)@ == old(s)@ + section_text(p, *q, top),
{
    let ghost start = s@;
    let a = q.word_pair.word_1.as_str();
    let b = q.word_pair.word_2.as_str();
    match p {
        Projection::FirstSecond => {
            push_str(s, "--- query executed based on first and second word ---\n");
            push_str(s, "words: ");
            push_str(s, a);
            push_char(s, ' ');
            push_str(s, b);
            push_str(s, " _____\n");
        },
        Projection::FirstThird => {
            push_str(s, "--- query executed based on first and third word ---\n");
            push_str(s, "words: ");
            push_str(s, a);
            push_str(s, " _____ ");
            push_str(s, b);
            push_char(s, '\n');
        },
        Projection::SecondThird => {
            push_str(s, "--- query executed based on second and third word ---\n");
            push_str(s, "words: _____ ");
            push_str(s, a);
            push_char(s, ' ');
            push_str(s, b);
            push_char(s, '\n');
        },
    }
    assert(s@ =~= start + header_text(p) + pair_text(p, a@, b@));
    let top = top_entries(&q.word_pair_map);
    push_entries(s, &top);
    let count = q.word_pair_map.len();
    if count > TOP_ENTRIES {
        push_str(s, " ... and ");
        push_dec(s, (count - TOP_ENTRIES) as u64);
        push_str(s, " more\n");
    }
    assert(s@ =~= start + section_text(p, *q, top@));
}

fn push_opt_section(s: &mut String, p: Projection, q: &Option<QueryResult>)
    ensures
        exists|top: Seq<(String, i32)>|
            opt_is_top(*q, top) && final(s)@ == old(s)@ + opt_section_text(p, *q, top),
{
    let ghost start = s@;
    if let Some(inner) = q {
        push_section(s, p, inner);
        proof {
            let top = choose|top: Seq<(String, i32)>|
                is_top(top, inner.word_pair_map@) && s@ == start + section_text(p, *inner, top);
            assert(opt_is_top(*q, top) && s@ == start + opt_section_text(p, *q, top));
        }
    } else {
        assert(opt_is_top(*q, seq![]) && s@ =~= start + opt_section_text(p, *q, seq![]));
    }
}

impl ThreeGramGetResult {
    /// The query artifact: the key with its exact frequency, the two timings,
    /// and a section per partition scan.
    pub fn render(&self) -> (r: String)
        ensures
            exists|t12: Seq<(String, i32)>, t13: Seq<(String, i32)>, t23: Seq<(String, i32)>|
                opt_is_top(self.result_1_2_pk, t12) && opt_is_top(self.result_1_3_pk, t13)
                    && opt_is_top(self.result_2_3_pk, t23) && r@ == get_text(*self, t12, t13, t23),
    {
        let mut s = String::new();
        let ghost start = s@;
        push_str(&mut s, "Given 3-gram: ");
        push_key(&mut s, &self.three_gram_input);
        push_str(&mut s, " = ");
        push_int(&mut s, self.exact_freq);
        push_char(&mut s, '\n');
        push_str(&mut s, "Time taken to get the exact frequency: ");
        push_time(&mut s, self.time_taken_one);
        push_str(&mut s, " seconds\n");
        push_str(&mut s, "Time taken to get all values: ");
        push_time(&mut s, self.time_taken_all);
        push_str(&mut s, " seconds\n");
        let ghost head = s@;
        push_opt_section(&mut s, Projection::FirstSecond, &self.result_1_2_pk);
        let ghost s12 = s@;
        push_opt_section(&mut s, Projection::FirstThird, &self.result_1_3_pk);
        let ghost s13 = s@;
        push_opt_section(&mut s, Projection::SecondThird, &self.result_2_3_pk);
        proof {
            let t12 = choose|t: Seq<(String, i32)>|
                opt_is_top(self.result_1_2_pk, t) && s12 == head + opt_section_text(
                    Projection::FirstSecond,
                    self.result_1_2_pk,
                    t,
                );
            let t13 = choose|t: Seq<(String, i32)>|
                opt_is_top(self.result_1_3_pk, t) && s13 == s12 + opt_section_text(
                    Projection::FirstThird,
                    self.result_1_3_pk,
                    t,
                );
            let t23 = choose|t: Seq<(String, i32)>|
                opt_is_top(self.result_2_3_pk, t) && s@ == s13 + opt_section_text(
                    Projection::SecondThird,
                    self.result_2_3_pk,
                    t,
                );
            assert(s@ =~= get_text(*self, t12, t13, t23));
        }
        s
    }
}

} // verus!
