use vstd::prelude::*;

use crate::specs::Projection;

verus! {

/// The key of a three-gram as plain text.
pub type Key = (Seq<char>, Seq<char>, Seq<char>);

/// The store's contents: for each projection, the frequency of each key it holds.
pub type Tables = (Map<Key, i32>, Map<Key, i32>, Map<Key, i32>);

/// How a write reaches a projection: a new row or a changed frequency.
#[derive(Clone, Copy, PartialEq, Eq, Structural, Debug)]
pub enum WriteKind {
    Insert,
    Update,
}

/// One point write of a frequency to one projection.
#[derive(Clone, Copy, PartialEq, Eq, Structural, Debug)]
pub struct ProjectionWrite {
    pub projection: Projection,
    pub kind: WriteKind,
    pub freq: i32,
}

/// What an increment-or-create does once the stored frequency has been read.
pub struct IncrementPlan {
    pub freq: i32,
    pub writes: Vec<ProjectionWrite>,
}

pub open spec fn table(t: Tables, p: Projection) -> Map<Key, i32> {
    match p {
        Projection::FirstSecond => t.0,
        Projection::FirstThird => t.1,
        Projection::SecondThird => t.2,
    }
}

/// What the point read of the full key on the first projection finds.
pub open spec fn stored_freq(t: Tables, key: Key) -> Option<i32> {
    if t.0.contains_key(key) {
        Some(t.0[key])
    } else {
        None
    }
}

/// The exact frequency of a key: what the point read finds, else zero.
pub open spec fn lookup_exact(t: Tables, key: Key) -> i32 {
    match stored_freq(t, key) {
        Some(f) => f,
        None => 0,
    }
}

pub open spec fn new_freq(stored: Option<i32>) -> int {
    match stored {
        Some(f) => f + 1,
        None => 1,
    }
}

pub open spec fn write_to(p: Projection, stored: Option<i32>) -> ProjectionWrite {
    ProjectionWrite {
        projection: p,
        kind: if stored is Some {
            WriteKind::Update
        } else {
            WriteKind::Insert
        },
        freq: new_freq(stored) as i32,
    }
}

/// The writes of an increment-or-create, in the order they must be issued.
pub open spec fn planned_writes(stored: Option<i32>) -> Seq<ProjectionWrite> {
    seq![
        write_to(Projection::FirstSecond, stored),
        write_to(Projection::FirstThird, stored),
        write_to(Projection::SecondThird, stored),
    ]
}

/// A point write sets the key's frequency in its projection, whether it inserts or updates.
pub open spec fn apply_write(t: Tables, key: Key, w: ProjectionWrite) -> Tables {
    match w.projection {
        Projection::FirstSecond => (t.0.insert(key, w.freq), t.1, t.2),
        Projection::FirstThird => (t.0, t.1.insert(key, w.freq), t.2),
        Projection::SecondThird => (t.0, t.1, t.2.insert(key, w.freq)),
    }
}

pub open spec fn apply_writes(t: Tables, key: Key, ws: Seq<ProjectionWrite>) -> Tables
    decreases ws.len(),
{
    if ws.len() == 0 {
        t
    } else {
        apply_write(apply_writes(t, key, ws.drop_last()), key, ws.last())
    }
}

/// The store after one increment-or-create of `key` that ran to completion.
pub open spec fn increment(t: Tables, key: Key) -> Tables {
    apply_writes(t, key, planned_writes(stored_freq(t, key)))
}

/// The store after `n` increments of `key`, one after another.
pub open spec fn increment_times(t: Tables, key: Key, n: nat) -> Tables
    decreases n,
{
    if n == 0 {
        t
    } else {
        increment(increment_times(t, key, (n - 1) as nat), key)
    }
}

/// The frequency that the exact lookup reports for the row its point read found.
pub fn exact_freq(row: Option<i32>) -> (r: i32)
    ensures
        r == exact_freq_spec(row),
{
    match row {
        Some(f) => f,
        None => 0,
    }
}

fn write_for(p: Projection, stored: Option<i32>, freq: i32) -> (r: ProjectionWrite)
    requires
        freq == new_freq(stored),
    ensures
        r == write_to(p, stored),
{
    let kind = match stored {
        Some(_) => WriteKind::Update,
        None => WriteKind::Insert,
    };
    ProjectionWrite { projection: p, kind, freq }
}

/// Decides an increment-or-create from the stored frequency of the key: the new
/// frequency (one more, or one for a new key), and the three point writes that
/// carry it to every projection, in order.
pub fn plan_increment(stored: Option<i32>) -> (r: IncrementPlan)
    requires
        stored matches Some(f) ==> f < i32::MAX,
    ensures
        r.freq == new_freq(stored),
        r.writes@ == planned_writes(stored),
{
    let freq = match stored {
        Some(f) => f + 1,
        None => 1,
    };
    let mut writes: Vec<ProjectionWrite> = Vec::new();
    writes.push(write_for(Projection::FirstSecond, stored, freq));
    writes.push(write_for(Projection::FirstThird, stored, freq));
    writes.push(write_for(Projection::SecondThird, stored, freq));
    assert(writes@ =~= planned_writes(stored));
    IncrementPlan { freq, writes }
}

proof fn lemma_increment_sets(t: Tables, key: Key)
    requires
        stored_freq(t, key) matches Some(f) ==> f < i32::MAX,
    ensures
        ({
            let u = increment(t, key);
            let f = new_freq(stored_freq(t, key)) as i32;
            &&& u.0.contains_key(key) && u.0[key] == f
            &&& u.1.contains_key(key) && u.1[key] == f
            &&& u.2.contains_key(key) && u.2[key] == f
        }),
{
    let ws = planned_writes(stored_freq(t, key));
    let w1 = ws.drop_last().drop_last();
    let w2 = ws.drop_last();
    assert(w1.drop_last() =~= Seq::<ProjectionWrite>::empty());
    assert(w1.last() == ws[0]);
    assert(w2.last() == ws[1]);
    let t1 = apply_write(t, key, ws[0]);
    assert(apply_writes(t, key, w1.drop_last()) == t);
    assert(apply_writes(t, key, w1) == t1);
    let t2 = apply_write(t1, key, ws[1]);
    assert(apply_writes(t, key, w2) == t2);
    assert(apply_writes(t, key, ws) == apply_write(t2, key, ws[2]));
}

/// An increment of a key that the store does not hold yet creates it with
/// frequency one in all three projections.
pub proof fn lemma_increment_creates(t: Tables, key: Key)
    requires
        !t.0.contains_key(key),
    ensures
        increment(t, key).0[key] == 1,
        increment(t, key).1[key] == 1,
        increment(t, key).2[key] == 1,
        increment(t, key).0.contains_key(key),
        increment(t, key).1.contains_key(key),
        increment(t, key).2.contains_key(key),
{
    lemma_increment_sets(t, key);
}

/// `n` increments, one after another, of a key that the store does not hold yet
/// leave it with frequency `n` in all three projections.
pub proof fn lemma_increment_counts(t: Tables, key: Key, n: nat)
    requires
        !t.0.contains_key(key),
        1 <= n <= i32::MAX,
    ensures
        increment_times(t, key, n).0.contains_key(key),
        increment_times(t, key, n).1.contains_key(key),
        increment_times(t, key, n).2.contains_key(key),
        increment_times(t, key, n).0[key] == n,
        increment_times(t, key, n).1[key] == n,
        increment_times(t, key, n).2[key] == n,
    decreases n,
{
    if n == 1 {
        assert(increment_times(t, key, 0) == t);
        lemma_increment_creates(t, key);
    } else {
        lemma_increment_counts(t, key, (n - 1) as nat);
        lemma_increment_sets(increment_times(t, key, (n - 1) as nat), key);
    }
}

/// The exact lookup of a key that the store does not hold reports zero.
pub proof fn lemma_lookup_absent_is_zero(t: Tables, key: Key)
    requires
        !t.0.contains_key(key),
    ensures
        lookup_exact(t, key) == 0,
        lookup_exact(t, key) == exact_freq_spec(stored_freq(t, key)),
{
}

pub open spec fn exact_freq_spec(row: Option<i32>) -> i32 {
    match row {
        Some(f) => f,
        None => 0,
    }
}

} // verus!
