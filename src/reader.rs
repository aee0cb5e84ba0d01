use vstd::prelude::*;

use crate::specs::{malformed_message, ThreeGramInput};
use crate::store::Key;
use crate::text::words;

verus! {

/// The key that a line of three words denotes.
pub open spec fn key_of_line(line: Seq<char>) -> Key {
    (words(line)[0], words(line)[1], words(line)[2])
}

pub open spec fn is_key_line(line: Seq<char>) -> bool {
    words(line).len() == 3
}

/// Reads one line of bulk input into `vec`: the line must hold exactly three words.
pub fn process_line(line: String, vec: &mut Vec<ThreeGramInput>) -> (r: Result<(), String>)
    ensures
        r is Ok <==> is_key_line(line@),
        r is Ok ==> final(vec)@.len() == old(vec)@.len() + 1 && final(vec)@.take(
            old(vec)@.len() as int,
        ) == old(vec)@ && final(vec)@.last().key() == key_of_line(line@),
        r matches Err(e) ==> final(vec)@ == old(vec)@ && e@ == malformed_message(),
{
    match ThreeGramInput::from(line) {
        Ok(t) => {
            let ghost before = vec@;
            vec.push(t);
            assert(vec@.take(before.len() as int) =~= before);
            Ok(())
        },
        Err(e) => Err(e),
    }
}

/// Reads bulk input, one key per line; the first line that does not hold exactly
/// three words fails the whole input.
pub fn read_lines(lines: &Vec<String>) -> (r: Result<Vec<ThreeGramInput>, String>)
    ensures
        r is Ok <==> forall|i: int| 0 <= i < lines@.len() ==> is_key_line(#[trigger] lines@[i]@),
        r matches Ok(v) ==> v@.len() == lines@.len() && forall|i: int|
            0 <= i < lines@.len() ==> #[trigger] v@[i].key() == key_of_line(lines@[i]@),
        r matches Err(e) ==> e@ == malformed_message(),
{
    let mut out: Vec<ThreeGramInput> = Vec::new();
    for i in 0..lines.len()
        invariant
            out@.len() == i,
            forall|k: int| 0 <= k < i ==> is_key_line(#[trigger] lines@[k]@),
            forall|k: int| 0 <= k < i ==> #[trigger] out@[k].key() == key_of_line(lines@[k]@),
    {
        let line = lines[i].clone();
        let ghost before = out@;
        match process_line(line, &mut out) {
            Ok(()) => {
                assert forall|k: int| 0 <= k < i + 1 implies #[trigger] out@[k].key()
                    == key_of_line(lines@[k]@) by {
                    if k < i {
                        assert(out@[k] == out@.take(i as int)[k]);
                    }
                }
            },
            Err(e) => {
                return Err(e);
            },
        }
    }
    Ok(out)
}

} // verus!
