use vstd::prelude::*;

verus! {

/// The characters that Unicode marks `White_Space`, the set that
/// `char::is_whitespace` and `str::split_whitespace` use.
pub open spec fn is_ws(c: char) -> bool {
    ('\u{9}' <= c && c <= '\u{d}') || c == ' ' || c == '\u{85}' || c == '\u{a0}' || c
        == '\u{1680}' || ('\u{2000}' <= c && c <= '\u{200a}') || c == '\u{2028}' || c
        == '\u{2029}' || c == '\u{202f}' || c == '\u{205f}' || c == '\u{3000}'
}

/// The maximal runs of non-whitespace characters of `s`, in order.
pub open spec fn words(s: Seq<char>) -> Seq<Seq<char>>
    decreases s.len(),
{
    if s.len() == 0 {
        seq![]
    } else {
        let prev = words(s.drop_last());
        let c = s.last();
        if is_ws(c) {
            prev
        } else if s.len() >= 2 && !is_ws(s[s.len() - 2]) {
            prev.update(prev.len() - 1, prev.last().push(c))
        } else {
            prev.push(seq![c])
        }
    }
}

/// A word as `words` yields it: not empty and free of whitespace.
pub open spec fn is_word(w: Seq<char>) -> bool {
    w.len() > 0 && forall|i: int| 0 <= i < w.len() ==> !is_ws(#[trigger] w[i])
}

pub open spec fn views(v: Seq<String>) -> Seq<Seq<char>> {
    v.map_values(|w: String| w@)
}

pub fn is_whitespace(c: char) -> (r: bool)
    ensures
        r == is_ws(c),
{
    ('\u{9}' <= c && c <= '\u{d}') || c == ' ' || c == '\u{85}' || c == '\u{a0}' || c
        == '\u{1680}' || ('\u{2000}' <= c && c <= '\u{200a}') || c == '\u{2028}' || c
        == '\u{2029}' || c == '\u{202f}' || c == '\u{205f}' || c == '\u{3000}'
}

/// Relies on `String::push`: appends one character.
#[verifier::external_body]
pub(crate) fn push_char(s: &mut String, c: char)
    ensures
        final(s)@ == old(s)@.push(c),
{
    s.push(c)
}

/// Splits `s` into its whitespace-separated words.
pub fn split_words(s: &str) -> (r: Vec<String>)
    ensures
        views(r@) == words(s@),
{
    let mut tokens: Vec<String> = Vec::new();
    let mut cur = String::new();
    let mut in_word = false;
    for c in it: s.chars()
        invariant
            it.seq() == s@,
            0 <= it.index() <= s@.len(),
            in_word ==> it.index() > 0 && !is_ws(s@[it.index() - 1]),
            !in_word ==> it.index() == 0 || is_ws(s@[it.index() - 1]),
            in_word ==> words(s@.take(it.index() as int)) == views(tokens@).push(cur@),
            !in_word ==> words(s@.take(it.index() as int)) == views(tokens@),
    {
        let ghost done = s@.take(it.index() as int);
        let ghost next = s@.take(it.index() + 1);
        assert(next.drop_last() =~= done);
        assert(next.last() == c);
        if is_whitespace(c) {
            if in_word {
                let ghost before = views(tokens@);
                tokens.push(cur);
                assert(views(tokens@) =~= before.push(cur@));
                cur = String::new();
                in_word = false;
            }
        } else if in_word {
            let ghost before = views(tokens@);
            let ghost prev = before.push(cur@);
            assert(next[next.len() - 2] == s@[it.index() - 1]);
            push_char(&mut cur, c);
            assert(prev.update(prev.len() - 1, prev.last().push(c)) =~= before.push(cur@));
        } else {
            cur = String::new();
            push_char(&mut cur, c);
            assert(cur@ =~= seq![c]);
            in_word = true;
        }
    }
    assert(s@.take(s@.len() as int) =~= s@);
    if in_word {
        let ghost before = views(tokens@);
        tokens.push(cur);
        assert(views(tokens@) =~= before.push(cur@));
    }
    tokens
}

} // verus!
