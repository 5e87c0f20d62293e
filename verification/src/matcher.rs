//! Matching candidates by plain containment.
//!
//! Ignores ASCII case, and goes by the bytes of the text: an ASCII pattern
//! cannot match inside a wider character.
use crate::completion::matcher::{after_last_slash, find_from, found_from, SLASH};
use crate::completion::order::{best_first, first_numbers, order, Key};
use crate::text::texts;
use vstd::prelude::*;
use vstd::string::*;
use vstd::utf8::encode_utf8;

verus! {

/// How well a candidate matches a pattern: first the kind of match (the whole
/// candidate, its beginning, the beginning of its last segment, anything else),
/// then where it matches, then its length.
pub open spec fn containment(pattern: Seq<u8>, candidate: Seq<u8>) -> Option<Key> {
    match found_from(pattern, candidate, 0) {
        None => None,
        Some(at) => {
            let kind: u8 = if candidate.len() == pattern.len() {
                0
            } else if at == 0 {
                1
            } else if at == after_last_slash(candidate) {
                2
            } else {
                3
            };
            Some((kind, at as usize, candidate.len() as usize))
        },
    }
}

/// Whether `out` names the candidates that hold the pattern, best first. An
/// empty pattern keeps every candidate at its place.
pub open spec fn matched(pattern: Seq<char>, candidates: Seq<Seq<char>>, out: Seq<usize>) -> bool {
    if pattern.len() == 0 {
        out.len() == candidates.len() && forall|i: int|
            0 <= i < out.len() ==> #[trigger] out[i] == i
    } else {
        best_first(
            candidates.map_values(
                |c: Seq<char>| containment(encode_utf8(pattern), encode_utf8(c)),
            ),
            out,
        )
    }
}

fn segment_start(candidate: &[u8]) -> (out: usize)
    ensures
        out == after_last_slash(candidate@),
{
    let mut at: usize = candidate.len();
    assert(candidate@.take(at as int) =~= candidate@);
    while at > 0 && candidate[at - 1] != SLASH
        invariant
            at <= candidate@.len(),
            after_last_slash(candidate@) == after_last_slash(candidate@.take(at as int)),
        decreases at,
    {
        assert(candidate@.take(at as int).drop_last() =~= candidate@.take(at - 1));
        at -= 1;
    }
    proof {
        if at > 0 {
            assert(candidate@.take(at as int).last() == candidate@[at - 1]);
        }
    }
    at
}

fn rank(pattern: &[u8], candidate: &[u8]) -> (out: Option<Key>)
    ensures
        out == containment(pattern@, candidate@),
{
    assert(pattern@.subrange(0, pattern@.len() as int) =~= pattern@);
    match find_from(pattern, 0, pattern.len(), candidate, 0) {
        None => None,
        Some(at) => {
            let kind: u8 = if candidate.len() == pattern.len() {
                0
            } else if at == 0 {
                1
            } else if at == segment_start(candidate) {
                2
            } else {
                3
            };
            Some((kind, at, candidate.len()))
        },
    }
}

/// The places of the candidates that hold `pattern`, best first.
pub fn match_all(pattern: &str, candidates: &[String]) -> (out: Vec<usize>)
    ensures
        matched(pattern@, texts(candidates@), out@),
{
    if pattern.is_empty() {
        return first_numbers(candidates.len());
    }
    let bytes = pattern.as_bytes();
    let mut keys: Vec<Option<Key>> = Vec::new();
    let mut i: usize = 0;
    while i < candidates.len()
        invariant
            i <= candidates@.len(),
            bytes@ == encode_utf8(pattern@),
            keys@.len() == i,
            forall|k: int|
                0 <= k < i ==> #[trigger] keys@[k] == containment(
                    encode_utf8(pattern@),
                    encode_utf8(candidates@[k]@),
                ),
        decreases candidates@.len() - i,
    {
        keys.push(rank(bytes, candidates[i].as_str().as_bytes()));
        i += 1;
    }
    assert(keys@ =~= texts(candidates@).map_values(
        |c: Seq<char>| containment(encode_utf8(pattern@), encode_utf8(c)),
    ));
    order(&keys)
}

} // verus!
