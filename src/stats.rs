use vstd::prelude::*;
use vstd::relations::{sorted_by, total_ordering};

verus! {

broadcast use vstd::seq_lib::group_to_multiset_ensures;

pub open spec fn is_digit(c: char) -> bool {
    '0' <= c && c <= '9'
}

pub open spec fn digit_value(c: char) -> nat {
    (c as nat - '0' as nat) as nat
}

/// The number that a run of decimal digits denotes.
pub open spec fn digits_value(s: Seq<char>) -> nat
    decreases s.len(),
{
    if s.len() == 0 {
        0
    } else {
        digits_value(s.drop_last()) * 10 + digit_value(s.last())
    }
}

pub open spec fn all_digits(s: Seq<char>) -> bool {
    forall|i: int| 0 <= i < s.len() ==> is_digit(#[trigger] s[i])
}

/// Milliseconds denoted by a field `<seconds>.<three digits>`.
pub open spec fn timing_value(tok: Seq<char>) -> Option<nat> {
    let n = tok.len() as int;
    if n >= 5 && tok[n - 4] == '.' && all_digits(tok.take(n - 4)) && all_digits(
        tok.skip(n - 3),
    ) {
        Some(digits_value(tok.take(n - 4)) * 1000 + digits_value(tok.skip(n - 3)))
    } else {
        None
    }
}

pub open spec fn seconds_suffix() -> Seq<char> {
    seq![' ', 's', 'e', 'c', 'o', 'n', 'd', 's']
}

/// Where the run of non-space characters that ends at `e` begins.
pub open spec fn token_start(s: Seq<char>, e: int) -> int
    decreases e,
{
    if e <= 0 || s[e - 1] == ' ' {
        e
    } else {
        token_start(s, e - 1)
    }
}

/// The time on a timing line: the line ends in ` seconds`, and the space-separated
/// field before that reads `<seconds>.<three digits>`, in milliseconds that fit in a `u64`.
pub open spec fn seconds_field(line: Seq<char>) -> Option<u64> {
    let n = line.len() as int;
    if n >= 8 && line.skip(n - 8) == seconds_suffix() {
        let body = line.take(n - 8);
        let j = token_start(body, body.len() as int);
        if j > 0 {
            match timing_value(body.skip(j)) {
                Some(v) => if v <= u64::MAX {
                    Some(v as u64)
                } else {
                    None
                },
                None => None,
            }
        } else {
            None
        }
    } else {
        None
    }
}

pub open spec fn starts_with(line: Seq<char>, prefix: Seq<char>) -> bool {
    prefix.len() <= line.len() && line.take(prefix.len() as int) == prefix
}

pub open spec fn exact_prefix() -> Seq<char> {
    "Time taken to get the exact frequency:"@
}

pub open spec fn all_prefix() -> Seq<char> {
    "Time taken to get all values:"@
}

pub open spec fn insert_prefix() -> Seq<char> {
    "Inserted 3-gram:"@
}

pub open spec fn opt_seq(o: Option<u64>) -> Seq<u64> {
    match o {
        Some(v) => seq![v],
        None => seq![],
    }
}

/// The samples of a query artifact, read line by line up to the first all-values
/// line: every parsed exact-frequency time, then the all-values time if it parses.
pub open spec fn scan_select(lines: Seq<Seq<char>>) -> (Seq<u64>, Seq<u64>)
    decreases lines.len(),
{
    if lines.len() == 0 {
        (seq![], seq![])
    } else {
        let l = lines[0];
        if starts_with(l, exact_prefix()) {
            let rest = scan_select(lines.drop_first());
            (opt_seq(seconds_field(l)) + rest.0, rest.1)
        } else if starts_with(l, all_prefix()) {
            (seq![], opt_seq(seconds_field(l)))
        } else {
            scan_select(lines.drop_first())
        }
    }
}

/// The samples of an insert artifact: the parsed time of every insert line.
pub open spec fn scan_insert(lines: Seq<Seq<char>>) -> Seq<u64>
    decreases lines.len(),
{
    if lines.len() == 0 {
        seq![]
    } else {
        let l = lines.last();
        scan_insert(lines.drop_last()) + if starts_with(l, insert_prefix()) {
            opt_seq(seconds_field(l))
        } else {
            seq![]
        }
    }
}

pub open spec fn line_views(v: Seq<String>) -> Seq<Seq<char>> {
    v.map_values(|l: String| l@)
}

pub open spec fn sum(s: Seq<u64>) -> nat
    decreases s.len(),
{
    if s.len() == 0 {
        0
    } else {
        sum(s.drop_last()) + s.last() as nat
    }
}

pub open spec fn leq_u64() -> spec_fn(u64, u64) -> bool {
    |a: u64, b: u64| a <= b
}

/// The samples in ascending order.
pub open spec fn sorted_samples(s: Seq<u64>) -> Seq<u64> {
    s.sort_by(leq_u64())
}

/// The position that the `p`-th percentile takes among `n` sorted samples:
/// `p / 100 * (n - 1)`, rounded half up.
pub open spec fn percentile_index(p: nat, n: nat) -> nat {
    ((p * (n - 1) + 50) / 100) as nat
}

/// The middle of sorted samples: the middle one twice when their number is odd,
/// else the two middle ones.
pub open spec fn median_of(s: Seq<u64>) -> Median {
    let n = s.len() as int;
    if n % 2 == 1 {
        Median { lower: s[n / 2], upper: s[n / 2] }
    } else {
        Median { lower: s[n / 2 - 1], upper: s[n / 2] }
    }
}

/// The two middle samples once sorted; the median is their mean.
#[derive(Clone, Copy, PartialEq, Eq, Structural, Debug)]
pub struct Median {
    pub lower: u64,
    pub upper: u64,
}

/// An exact quotient `num / den`.
#[derive(Clone, Copy, PartialEq, Eq, Structural, Debug)]
pub struct Ratio {
    pub num: u128,
    pub den: u128,
}

/// The aggregates of one metric's samples, in milliseconds.
#[derive(Clone, Copy, PartialEq, Eq, Structural, Debug)]
pub struct Summary {
    pub count: u64,
    pub total_ms: u128,
    pub mean_ms: Ratio,
    pub median: Median,
    pub min_ms: u64,
    pub max_ms: u64,
    pub p90_ms: u64,
    /// Samples per second of summed time; `None` when the samples sum to zero.
    pub throughput: Option<Ratio>,
}

/// The samples of a query artifact, one list per metric.
pub struct SelectSamples {
    pub exact: Vec<u64>,
    pub all: Vec<u64>,
}

proof fn lemma_leq_total()
    ensures
        total_ordering(leq_u64()),
{
}

proof fn lemma_digits_prefix_le(s: Seq<char>, k: int)
    requires
        0 <= k <= s.len(),
    ensures
        digits_value(s.take(k)) <= digits_value(s),
    decreases s.len(),
{
    if k < s.len() {
        lemma_digits_prefix_le(s.drop_last(), k);
        assert(s.drop_last().take(k) =~= s.take(k));
    } else {
        assert(s.take(k) =~= s);
    }
}

pub fn chars_of(s: &str) -> (r: Vec<char>)
    ensures
        r@ == s@,
{
    let mut r: Vec<char> = Vec::new();
    for c in it: s.chars()
        invariant
            it.seq() == s@,
            0 <= it.index() <= s@.len(),
            r@ == s@.take(it.index() as int),
    {
        r.push(c);
        assert(r@ =~= s@.take(it.index() + 1));
    }
    assert(s@.take(s@.len() as int) =~= s@);
    r
}

/// Reads the decimal digits `v[from..to]`; `None` when one is no digit or the value
/// does not fit in a `u64`.
fn read_digits(v: &Vec<char>, from: usize, to: usize) -> (r: Option<u64>)
    requires
        from <= to <= v.len(),
    ensures
        match r {
            Some(x) => all_digits(v@.subrange(from as int, to as int)) && x == digits_value(
                v@.subrange(from as int, to as int),
            ),
            None => !all_digits(v@.subrange(from as int, to as int)) || digits_value(
                v@.subrange(from as int, to as int),
            ) > u64::MAX,
        },
{
    let ghost s = v@.subrange(from as int, to as int);
    let mut acc: u64 = 0;
    let mut i = from;
    while i < to
        invariant
            from <= i <= to <= v.len(),
            s == v@.subrange(from as int, to as int),
            all_digits(s.take(i - from)),
            acc == digits_value(s.take(i - from)),
        decreases to - i,
    {
        let ghost k = i - from;
        assert(s.take(k + 1).drop_last() =~= s.take(k));
        let c = v[i];
        if !('0' <= c && c <= '9') {
            assert(!is_digit(s[k]));
            return None;
        }
        let d = (c as u32 - '0' as u32) as u64;
        match acc.checked_mul(10) {
            Some(m) => match m.checked_add(d) {
                Some(x) => {
                    acc = x;
                },
                None => {
                    proof {
                        lemma_digits_prefix_le(s, k + 1);
                    }
                    return None;
                },
            },
            None => {
                proof {
                    lemma_digits_prefix_le(s, k + 1);
                }
                return None;
            },
        }
        i = i + 1;
        assert forall|j: int| 0 <= j < s.take(i - from).len() implies is_digit(
            #[trigger] s.take(i - from)[j],
        ) by {
            if j < k {
                assert(s.take(i - from)[j] == s.take(k)[j]);
            }
        }
    }
    assert(s.take(to - from) =~= s);
    Some(acc)
}

/// Reads the time on a timing line, in milliseconds (see `seconds_field`).
pub fn parse_seconds_field(line: &str) -> (r: Option<u64>)
    ensures
        r == seconds_field(line@),
{
    let v = chars_of(line);
    let n = v.len();
    if n < 8 {
        return None;
    }
    let ghost line_v = v@;
    if !(v[n - 8] == ' ' && v[n - 7] == 's' && v[n - 6] == 'e' && v[n - 5] == 'c' && v[n - 4]
        == 'o' && v[n - 3] == 'n' && v[n - 2] == 'd' && v[n - 1] == 's') {
        proof {
            if line_v.skip(n - 8) == seconds_suffix() {
                assert(line_v.skip(n - 8)[0] == line_v[n - 8]);
                assert(line_v.skip(n - 8)[1] == line_v[n - 7]);
                assert(line_v.skip(n - 8)[2] == line_v[n - 6]);
                assert(line_v.skip(n - 8)[3] == line_v[n - 5]);
                assert(line_v.skip(n - 8)[4] == line_v[n - 4]);
                assert(line_v.skip(n - 8)[5] == line_v[n - 3]);
                assert(line_v.skip(n - 8)[6] == line_v[n - 2]);
                assert(line_v.skip(n - 8)[7] == line_v[n - 1]);
            }
        }
        return None;
    }
    assert(line_v.skip(n - 8) =~= seconds_suffix());
    let e = n - 8;
    let ghost body = line_v.take(e as int);
    let mut j = e;
    while j > 0 && v[j - 1] != ' '
        invariant
            j <= e < v.len(),
            body == v@.take(e as int),
            token_start(body, e as int) == token_start(body, j as int),
        decreases j,
    {
        assert(body[j - 1] == v@[j - 1]);
        j = j - 1;
    }
    assert(j > 0 ==> body[j - 1] == ' ');
    assert(token_start(body, j as int) == j);
    if j == 0 {
        return None;
    }
    let ghost tok = body.skip(j as int);
    let len = e - j;
    if len < 5 || v[e - 4] != '.' {
        assert(len >= 5 ==> tok[len - 4] == v@[e - 4]);
        return None;
    }
    assert(tok[len - 4] == v@[e - 4]);
    assert(tok.take(len - 4) =~= v@.subrange(j as int, e - 4));
    assert(tok.skip(len - 3) =~= v@.subrange(e - 3, e as int));
    let secs = read_digits(&v, j, e - 4);
    let frac = read_digits(&v, e - 3, e);
    match (secs, frac) {
        (Some(s), Some(f)) => {
            assert(f < 1000) by {
                let fs = v@.subrange(e - 3, e as int);
                let a = fs.drop_last().drop_last();
                let b = fs.drop_last();
                assert(a.len() == 1);
                assert(a.drop_last() =~= Seq::<char>::empty());
                assert(digits_value(a.drop_last()) == 0);
                assert(is_digit(fs[0]) && is_digit(fs[1]) && is_digit(fs[2]));
                assert(a.last() == fs[0] && b.last() == fs[1] && fs.last() == fs[2]);
                assert(digits_value(a) == digit_value(fs[0]));
                assert(digits_value(b) == digits_value(a) * 10 + digit_value(fs[1]));
                assert(digits_value(fs) == digits_value(b) * 10 + digit_value(fs[2]));
            }
            match s.checked_mul(1000) {
                Some(m) => match m.checked_add(f) {
                    Some(x) => Some(x),
                    None => None,
                },
                None => None,
            }
        },
        _ => None,
    }
}

/// The time on a line of a query artifact, in milliseconds.
pub fn parse_time_from_line_select(line: &str) -> (r: Option<u64>)
    ensures
        r == seconds_field(line@),
{
    parse_seconds_field(line)
}

/// The time on the line of an insert artifact, in milliseconds.
pub fn parse_time_from_line_insert(line: &str) -> (r: Option<u64>)
    ensures
        r == seconds_field(line@),
{
    parse_seconds_field(line)
}


/// A query artifact without an all-values line adds no all-values sample, and
/// still adds the time of each of its exact-frequency lines that parses.
pub proof fn lemma_missing_all_values_line(lines: Seq<Seq<char>>)
    requires
        forall|i: int| 0 <= i < lines.len() ==> !starts_with(#[trigger] lines[i], all_prefix()),
    ensures
        scan_select(lines).1 == Seq::<u64>::empty(),
        forall|i: int|
            0 <= i < lines.len() && starts_with(#[trigger] lines[i], exact_prefix())
                && seconds_field(lines[i]) is Some ==> scan_select(lines).0.contains(
                seconds_field(lines[i])->0,
            ),
    decreases lines.len(),
{
    if lines.len() > 0 {
        let rest = lines.drop_first();
        assert forall|i: int| 0 <= i < rest.len() implies !starts_with(
            #[trigger] rest[i],
            all_prefix(),
        ) by {
            assert(rest[i] == lines[i + 1]);
        }
        lemma_missing_all_values_line(rest);
        let l = lines[0];
        assert forall|i: int|
            0 <= i < lines.len() && starts_with(#[trigger] lines[i], exact_prefix())
                && seconds_field(lines[i]) is Some implies scan_select(lines).0.contains(
            seconds_field(lines[i])->0,
        ) by {
            let v = seconds_field(lines[i])->0;
            if i == 0 {
                assert((opt_seq(seconds_field(l)) + scan_select(rest).0)[0] == v);
            } else {
                assert(lines[i] == rest[i - 1]);
                assert(scan_select(rest).0.contains(v));
                let k = choose|k: int| 0 <= k < scan_select(rest).0.len() && scan_select(rest).0[k] == v;
                if starts_with(l, exact_prefix()) {
                    let o = opt_seq(seconds_field(l));
                    assert((o + scan_select(rest).0)[o.len() + k] == v);
                }
            }
        }
    }
}

fn has_prefix(line: &Vec<char>, prefix: &Vec<char>) -> (r: bool)
    ensures
        r == starts_with(line@, prefix@),
{
    if prefix.len() > line.len() {
        return false;
    }
    let mut i: usize = 0;
    while i < prefix.len()
        invariant
            i <= prefix.len() <= line.len(),
            forall|k: int| 0 <= k < i ==> line@[k] == prefix@[k],
        decreases prefix.len() - i,
    {
        if line[i] != prefix[i] {
            assert(line@.take(prefix.len() as int)[i as int] == line@[i as int]);
            return false;
        }
        i = i + 1;
    }
    assert(line@.take(prefix.len() as int) =~= prefix@);
    true
}

impl SelectSamples {
    pub fn new() -> (r: SelectSamples)
        ensures
            r.exact@ == Seq::<u64>::empty(),
            r.all@ == Seq::<u64>::empty(),
    {
        SelectSamples { exact: Vec::new(), all: Vec::new() }
    }

    /// Adds the samples of one query artifact, given as its lines.
    pub fn add_artifact(&mut self, lines: &Vec<String>)
        ensures
            final(self).exact@ == old(self).exact@ + scan_select(line_views(lines@)).0,
            final(self).all@ == old(self).all@ + scan_select(line_views(lines@)).1,
    {
        let ghost lv = line_views(lines@);
        let ghost start_exact = self.exact@;
        let ghost start_all = self.all@;
        let exact_p = chars_of("Time taken to get the exact frequency:");
        let all_p = chars_of("Time taken to get all values:");
        let mut i: usize = 0;
        let mut stopped = false;
        let ghost mut pushed: Seq<u64> = seq![];
        assert(lv.skip(0) =~= lv);
        assert(pushed + scan_select(lv).0 =~= scan_select(lv).0);
        while i < lines.len()
            invariant
                i <= lines.len(),
                lv == line_views(lines@),
                lv.len() == lines.len(),
                exact_p@ == exact_prefix(),
                all_p@ == all_prefix(),
                self.exact@ == start_exact + pushed,
                !stopped ==> self.all@ == start_all,
                !stopped ==> scan_select(lv).0 == pushed + scan_select(lv.skip(i as int)).0,
                !stopped ==> scan_select(lv).1 == scan_select(lv.skip(i as int)).1,
                stopped ==> i == lines.len() && scan_select(lv).0 == pushed && self.all@
                    == start_all + scan_select(lv).1,
            decreases lines.len() - i,
        {
            let ghost rest = lv.skip(i as int);
            assert(rest[0] == lines@[i as int]@);
            assert(rest.drop_first() =~= lv.skip(i + 1));
            let line = chars_of(lines[i].as_str());
            let t = parse_seconds_field(lines[i].as_str());
            if has_prefix(&line, &exact_p) {
                if let Some(x) = t {
                    self.exact.push(x);
                }
                proof {
                    let o = opt_seq(seconds_field(rest[0]));
                    assert(scan_select(lv).0 =~= (pushed + o) + scan_select(lv.skip(i + 1)).0);
                    pushed = pushed + o;
                }
                i = i + 1;
            } else if has_prefix(&line, &all_p) {
                if let Some(x) = t {
                    self.all.push(x);
                }
                proof {
                    assert(pushed + seq![] =~= pushed);
                    assert(self.all@ =~= start_all + opt_seq(seconds_field(rest[0])));
                }
                stopped = true;
                i = lines.len();
            } else {
                i = i + 1;
            }
        }
        proof {
            if !stopped {
                assert(lv.skip(i as int) =~= Seq::<Seq<char>>::empty());
                assert(pushed + seq![] =~= pushed);
                assert(start_all + seq![] =~= start_all);
            }
        }
    }
}

/// Adds the samples of one insert artifact, given as its lines.
pub fn add_insert_artifact(samples: &mut Vec<u64>, lines: &Vec<String>)
    ensures
        final(samples)@ == old(samples)@ + scan_insert(line_views(lines@)),
{
    let ghost lv = line_views(lines@);
    let ghost start = samples@;
    let insert_p = chars_of("Inserted 3-gram:");
    for i in 0..lines.len()
        invariant
            lv == line_views(lines@),
            lv.len() == lines.len(),
            insert_p@ == insert_prefix(),
            samples@ == start + scan_insert(lv.take(i as int)),
    {
        assert(lv.take(i + 1).drop_last() =~= lv.take(i as int));
        assert(lv.take(i + 1).last() == lines@[i as int]@);
        let line = chars_of(lines[i].as_str());
        if has_prefix(&line, &insert_p) {
            if let Some(x) = parse_seconds_field(lines[i].as_str()) {
                samples.push(x);
            }
        }
        assert(samples@ =~= start + scan_insert(lv.take(i + 1)));
    }
    assert(lv.take(lines.len() as int) =~= lv);
}

/// Relies on `slice::sort_unstable`: the elements end in ascending order, each kept.
#[verifier::external_body]
fn sort_ascending(v: &mut Vec<u64>)
    ensures
        final(v)@.to_multiset() == old(v)@.to_multiset(),
        sorted_by(final(v)@, leq_u64()),
{
    v.sort_unstable()
}

proof fn lemma_sorted_is_sorted_samples(x: Seq<u64>, s: Seq<u64>)
    requires
        x.to_multiset() == s.to_multiset(),
        sorted_by(x, leq_u64()),
    ensures
        x == sorted_samples(s),
        x.len() == s.len(),
{
    lemma_leq_total();
    s.lemma_sort_by_ensures(leq_u64());
    vstd::seq_lib::lemma_sorted_unique(x, sorted_samples(s), leq_u64());
    assert(x.len() == x.to_multiset().len());
}

fn sorted_copy(times: &Vec<u64>) -> (r: Vec<u64>)
    ensures
        r@ == sorted_samples(times@),
        r@.len() == times@.len(),
{
    let mut r: Vec<u64> = Vec::new();
    for i in 0..times.len()
        invariant
            r@ == times@.take(i as int),
    {
        r.push(times[i]);
        assert(r@ =~= times@.take(i + 1));
    }
    assert(times@.take(times.len() as int) =~= times@);
    sort_ascending(&mut r);
    proof {
        lemma_sorted_is_sorted_samples(r@, times@);
    }
    r
}

/// The smallest and the largest sample; `None` when there is none.
pub fn calculate_min_max(times: &Vec<u64>) -> (r: Option<(u64, u64)>)
    ensures
        r is None <==> times@.len() == 0,
        r matches Some((lo, hi)) ==> {
            &&& times@.contains(lo)
            &&& times@.contains(hi)
            &&& forall|i: int| 0 <= i < times@.len() ==> lo <= #[trigger] times@[i] <= hi
        },
{
    if times.len() == 0 {
        return None;
    }
    let mut lo = times[0];
    let mut hi = times[0];
    for i in 1..times.len()
        invariant
            times@.len() > 0,
            times@.contains(lo),
            times@.contains(hi),
            forall|k: int| 0 <= k < i ==> lo <= #[trigger] times@[k] <= hi,
    {
        if times[i] < lo {
            lo = times[i];
        }
        if times[i] > hi {
            hi = times[i];
        }
    }
    Some((lo, hi))
}

/// Sorts the samples and returns the two middle ones (the same one when their
/// number is odd); `None` when there is none.
pub fn calculate_median(times: &mut Vec<u64>) -> (r: Option<Median>)
    ensures
        final(times)@ == sorted_samples(old(times)@),
        final(times)@.len() == old(times)@.len(),
        r is None <==> old(times)@.len() == 0,
        r matches Some(m) ==> m == median_of(sorted_samples(old(times)@)),
{
    let ghost orig = times@;
    sort_ascending(times);
    proof {
        lemma_sorted_is_sorted_samples(times@, orig);
    }
    let n = times.len();
    if n == 0 {
        return None;
    }
    let mid = n / 2;
    if n % 2 == 0 {
        Some(Median { lower: times[mid - 1], upper: times[mid] })
    } else {
        Some(Median { lower: times[mid], upper: times[mid] })
    }
}

/// The `percentile`-th percentile: the sorted sample at `percentile_index`, with
/// no interpolation; `None` when there is no sample.
pub fn calculate_percentile(times: &Vec<u64>, percentile: u32) -> (r: Option<u64>)
    requires
        percentile <= 100,
    ensures
        r is None <==> times@.len() == 0,
        r matches Some(x) ==> x == sorted_samples(times@)[percentile_index(
            percentile as nat,
            times@.len(),
        ) as int],
        r matches Some(x) ==> percentile_index(percentile as nat, times@.len()) < times@.len(),
{
    let sorted = sorted_copy(times);
    let n = sorted.len();
    if n == 0 {
        return None;
    }
    proof {
        let a = percentile as int;
        let b = (n - 1) as int;
        assert(a * b <= 100 * 0xffff_ffff_ffff_ffff) by (nonlinear_arith)
            requires
                0 <= a <= 100,
                0 <= b <= 0xffff_ffff_ffff_ffff,
        ;
    }
    let idx128: u128 = ((percentile as u128) * ((n - 1) as u128) + 50) / 100;
    assert(idx128 < n) by (nonlinear_arith)
        requires
            idx128 == (percentile * (n - 1) + 50) / 100,
            percentile <= 100,
            n >= 1,
    ;
    let idx = idx128 as usize;
    Some(sorted[idx])
}

/// The sum of the samples.
pub fn total(times: &Vec<u64>) -> (r: u128)
    ensures
        r == sum(times@),
{
    let mut acc: u128 = 0;
    for i in 0..times.len()
        invariant
            acc == sum(times@.take(i as int)),
            acc <= i * 0xffff_ffff_ffff_ffffu128,
            times.len() <= usize::MAX,
    {
        assert(times@.take(i + 1).drop_last() =~= times@.take(i as int));
        assert(acc + times[i as int] <= (i + 1) * 0xffff_ffff_ffff_ffffu128) by (nonlinear_arith)
            requires
                acc <= i * 0xffff_ffff_ffff_ffffu128,
                times[i as int] <= 0xffff_ffff_ffff_ffffu64,
        ;
        assert((i + 1) * 0xffff_ffff_ffff_ffffu128 <= 0xffff_ffff_ffff_ffff_ffff_ffff_ffff_ffffu128)
            by (nonlinear_arith)
            requires
                i < usize::MAX,
                usize::MAX <= 0xffff_ffff_ffff_ffffu64,
        ;
        acc = acc + times[i] as u128;
    }
    assert(times@.take(times.len() as int) =~= times@);
    acc
}

/// The aggregates of one metric; `None` when there is no sample.
pub fn summarize(times: Vec<u64>) -> (r: Option<Summary>)
    ensures
        r is None <==> times@.len() == 0,
        r matches Some(s) ==> {
            let sorted = sorted_samples(times@);
            let n = times@.len();
            &&& s.count == n
            &&& s.total_ms == sum(times@)
            &&& s.mean_ms == Ratio { num: sum(times@) as u128, den: n as u128 }
            &&& s.min_ms == sorted[0]
            &&& s.max_ms == sorted[n - 1]
            &&& s.p90_ms == sorted[percentile_index(90, n) as int]
            &&& s.median == median_of(sorted)
            &&& s.throughput == if sum(times@) == 0 {
                None
            } else {
                Some(Ratio { num: (n * 1000) as u128, den: sum(times@) as u128 })
            }
        },
{
    let mut times = times;
    let ghost orig = times@;
    let n = times.len();
    if n == 0 {
        return None;
    }
    let t = total(&times);
    let p90 = calculate_percentile(&times, 90).unwrap();
    let median = calculate_median(&mut times).unwrap();
    let count = n as u64;
    let throughput = if t == 0 {
        None
    } else {
        Some(Ratio { num: (count as u128) * 1000, den: t })
    };
    Some(
        Summary {
            count,
            total_ms: t,
            mean_ms: Ratio { num: t, den: count as u128 },
            median,
            min_ms: times[0],
            max_ms: times[n - 1],
            p90_ms: p90,
            throughput,
        },
    )
}

} // verus!
