//! Ranking candidates against a typed pattern.
//!
//! A pattern is a path fragment. Its `/`-separated parts must appear in the
//! candidate in order, but may skip whole directories, so `crates/main.rs`
//! finds `crates/alan/src/main.rs`. Matching ignores ASCII case, and goes by
//! the bytes of the text.
use crate::completion::order::{best_first, first_numbers, order, Key};
use vstd::prelude::*;
use vstd::string::*;
use vstd::utf8::encode_utf8;

verus! {

/// The byte of the separator.
pub const SLASH: u8 = 47;

/// A byte with an ASCII capital as its small letter.
pub open spec fn folded(b: u8) -> u8 {
    if 65 <= b <= 90 {
        (b + 32) as u8
    } else {
        b
    }
}

/// Whether `part` stands in `text` at `at`, ignoring ASCII case.
pub open spec fn stands_at(part: Seq<u8>, text: Seq<u8>, at: int) -> bool {
    &&& 0 <= at
    &&& at + part.len() <= text.len()
    &&& forall|k: int| 0 <= k < part.len() ==> folded(#[trigger] part[k]) == folded(text[at + k])
}

/// Where `part` first stands in `text` at or after `from`.
pub open spec fn found_from(part: Seq<u8>, text: Seq<u8>, from: int) -> Option<int>
    decreases text.len() - from,
{
    if from < 0 || from + part.len() > text.len() {
        None
    } else if stands_at(part, text, from) {
        Some(from)
    } else {
        found_from(part, text, from + 1)
    }
}

/// Whether the parts stand in `text` one after the other, from `from` on, each
/// at the first place that is left.
pub open spec fn stand_in_order(parts: Seq<Seq<u8>>, text: Seq<u8>, from: int) -> bool
    decreases parts.len(),
{
    if parts.len() == 0 {
        true
    } else {
        match found_from(parts[0], text, from) {
            Some(at) => stand_in_order(parts.drop_first(), text, at + parts[0].len()),
            None => false,
        }
    }
}

/// How many bytes stand before the first separator.
pub open spec fn part_len(s: Seq<u8>) -> nat
    decreases s.len(),
{
    if s.len() == 0 || s[0] == SLASH {
        0
    } else {
        1 + part_len(s.drop_first())
    }
}

pub proof fn lemma_part_len(s: Seq<u8>)
    ensures
        part_len(s) <= s.len(),
        forall|i: int| 0 <= i < part_len(s) ==> #[trigger] s[i] != SLASH,
        part_len(s) < s.len() ==> s[part_len(s) as int] == SLASH,
    decreases s.len(),
{
    if s.len() > 0 && s[0] != SLASH {
        let t = s.drop_first();
        lemma_part_len(t);
        assert forall|i: int| 0 <= i < part_len(s) implies #[trigger] s[i] != SLASH by {
            if i > 0 {
                assert(t[i - 1] == s[i]);
            }
        }
    }
}

pub proof fn lemma_part_len_is(s: Seq<u8>, n: int)
    requires
        0 <= n <= s.len(),
        forall|i: int| 0 <= i < n ==> #[trigger] s[i] != SLASH,
        n < s.len() ==> s[n] == SLASH,
    ensures
        part_len(s) == n,
{
    lemma_part_len(s);
    let m = part_len(s) as int;
    if m < n {
        assert(s[m] != SLASH);
    } else if n < m {
        assert(s[n] != SLASH);
    }
}

/// The parts of a pattern: what stands between its separators, as far as that
/// is anything.
pub open spec fn parts_of(s: Seq<u8>) -> Seq<Seq<u8>>
    decreases s.len(),
    via parts_of_decreases
{
    if s.len() == 0 {
        Seq::empty()
    } else if s[0] == SLASH {
        parts_of(s.drop_first())
    } else {
        seq![s.take(part_len(s) as int)] + parts_of(s.skip(part_len(s) as int))
    }
}

#[via_fn]
proof fn parts_of_decreases(s: Seq<u8>) {
    if s.len() > 0 {
        lemma_part_len(s);
    }
}

/// Where the pattern's first part matches, once every part has been found in
/// order.
pub open spec fn match_at(pattern: Seq<u8>, candidate: Seq<u8>) -> Option<int> {
    let parts = parts_of(pattern);
    if parts.len() > 0 && stand_in_order(parts, candidate, 0) {
        found_from(parts[0], candidate, 0)
    } else {
        None
    }
}

/// The text without the separators at its end.
pub open spec fn without_slashes(s: Seq<u8>) -> Seq<u8>
    decreases s.len(),
{
    if s.len() > 0 && s.last() == SLASH {
        without_slashes(s.drop_last())
    } else {
        s
    }
}

/// Where the last part of `s` begins, right after its last separator.
pub open spec fn after_last_slash(s: Seq<u8>) -> nat
    decreases s.len(),
{
    if s.len() == 0 {
        0
    } else if s.last() == SLASH {
        s.len()
    } else {
        after_last_slash(s.drop_last())
    }
}

/// Where a candidate's own name begins, the separator at a directory's end
/// aside.
pub open spec fn name_at(candidate: Seq<u8>) -> nat {
    after_last_slash(without_slashes(candidate))
}

/// Whether two texts are the same, ignoring ASCII case.
pub open spec fn same_folded(a: Seq<u8>, b: Seq<u8>) -> bool {
    a.len() == b.len() && stands_at(a, b, 0)
}

/// How well a candidate matches a pattern: first the kind of match (the whole
/// candidate, its beginning, its own name, anything else), then its length,
/// then where it matches. The last part of the pattern is the name that is
/// being typed; the parts before it only say where to look.
pub open spec fn rank_of(pattern: Seq<u8>, candidate: Seq<u8>) -> Option<Key> {
    match match_at(pattern, candidate) {
        None => None,
        Some(at) => {
            let kind: u8 = if same_folded(candidate, pattern) {
                0
            } else if at == 0 {
                1
            } else if stands_at(
                parts_of(pattern).last(),
                candidate.skip(name_at(candidate) as int),
                0,
            ) {
                2
            } else {
                3
            };
            Some((kind, candidate.len() as usize, at as usize))
        },
    }
}

/// The ranks of a list of candidates.
pub open spec fn ranks_of(pattern: Seq<char>, candidates: Seq<Seq<char>>) -> Seq<Option<Key>> {
    candidates.map_values(|c: Seq<char>| rank_of(encode_utf8(pattern), encode_utf8(c)))
}

/// Whether `out` names what matches a pattern, best first. An empty pattern
/// keeps every candidate at its place.
pub open spec fn ranked(pattern: Seq<char>, candidates: Seq<Seq<char>>, out: Seq<usize>) -> bool {
    if pattern.len() == 0 {
        out.len() == candidates.len() && forall|i: int|
            0 <= i < out.len() ==> #[trigger] out[i] == i
    } else {
        best_first(ranks_of(pattern, candidates), out)
    }
}

/// A byte with an ASCII capital as its small letter.
pub fn fold(b: u8) -> (out: u8)
    ensures
        out == folded(b),
{
    if 65 <= b && b <= 90 {
        b + 32
    } else {
        b
    }
}

/// Whether `part[from..to]` stands in `text` at `at`, ignoring ASCII case.
pub fn range_stands_at(part: &[u8], from: usize, to: usize, text: &[u8], at: usize) -> (out: bool)
    requires
        from <= to <= part@.len(),
    ensures
        out == stands_at(part@.subrange(from as int, to as int), text@, at as int),
{
    let n: usize = to - from;
    let ghost piece = part@.subrange(from as int, to as int);
    let size = text.len();
    if at > size || size - at < n {
        return false;
    }
    let mut k: usize = 0;
    while k < n
        invariant
            k <= n,
            size == text@.len(),
            n == to - from,
            from <= to <= part@.len(),
            at + n <= text@.len(),
            piece == part@.subrange(from as int, to as int),
            forall|j: int| 0 <= j < k ==> folded(#[trigger] piece[j]) == folded(text@[at + j]),
        decreases n - k,
    {
        assert(piece[k as int] == part@[from + k]);
        if fold(part[from + k]) != fold(text[at + k]) {
            return false;
        }
        k += 1;
    }
    true
}

/// Where `part[start..end]` first stands in `text` at or after `from`.
pub fn find_from(part: &[u8], start: usize, end: usize, text: &[u8], from: usize) -> (out: Option<
    usize,
>)
    requires
        start <= end <= part@.len(),
    ensures
        match out {
            Some(at) => found_from(
                part@.subrange(start as int, end as int),
                text@,
                from as int,
            ) == Some(at as int) && from <= at && at + (end - start) <= text@.len(),
            None => found_from(
                part@.subrange(start as int, end as int),
                text@,
                from as int,
            ) is None,
        },
{
    let ghost piece = part@.subrange(start as int, end as int);
    let n: usize = end - start;
    let mut at: usize = from;
    while at <= text.len() && text.len() - at >= n
        invariant
            from <= at,
            start <= end <= part@.len(),
            n == end - start,
            piece == part@.subrange(start as int, end as int),
            found_from(piece, text@, from as int) == found_from(piece, text@, at as int),
        decreases text@.len() + 1 - at,
    {
        if range_stands_at(part, start, end, text, at) {
            return Some(at);
        }
        if at == text.len() {
            assert(found_from(piece, text@, at as int + 1) is None);
            return None;
        }
        at += 1;
    }
    None
}

pub proof fn lemma_found_bounds(part: Seq<u8>, text: Seq<u8>, from: int)
    requires
        found_from(part, text, from) is Some,
    ensures
        from <= found_from(part, text, from)->0,
        found_from(part, text, from)->0 + part.len() <= text.len(),
        stands_at(part, text, found_from(part, text, from)->0),
    decreases text.len() - from,
{
    if !stands_at(part, text, from) {
        lemma_found_bounds(part, text, from + 1);
    }
}

/// Where the pattern's first part matches, with the bounds of its last part.
fn match_start(pattern: &[u8], candidate: &[u8]) -> (out: Option<(usize, usize, usize)>)
    ensures
        match out {
            Some((at, start, end)) => {
                &&& match_at(pattern@, candidate@) == Some(at as int)
                &&& at <= candidate@.len()
                &&& start <= end <= pattern@.len()
                &&& parts_of(pattern@).last() == pattern@.subrange(start as int, end as int)
            },
            None => match_at(pattern@, candidate@) is None,
        },
{
    let ghost parts = parts_of(pattern@);
    let size = candidate.len();
    let mut start: Option<usize> = None;
    let mut last: (usize, usize) = (0, 0);
    let mut from: usize = 0;
    let mut i: usize = 0;
    let ghost mut done: int = 0;
    assert(pattern@.skip(0) =~= pattern@);
    assert(parts.skip(0) =~= parts);
    while i < pattern.len()
        invariant
            i <= pattern@.len(),
            from <= size == candidate@.len(),
            parts == parts_of(pattern@),
            0 <= done <= parts.len(),
            parts_of(pattern@.skip(i as int)) == parts.skip(done),
            stand_in_order(parts, candidate@, 0) == stand_in_order(
                parts.skip(done),
                candidate@,
                from as int,
            ),
            done == 0 ==> start is None && from == 0,
            done > 0 ==> {
                &&& start is Some
                &&& found_from(parts[0], candidate@, 0) == Some(start->0 as int)
                &&& start->0 <= candidate@.len()
                &&& last.0 <= last.1 <= pattern@.len()
                &&& parts[done - 1] == pattern@.subrange(last.0 as int, last.1 as int)
            },
        decreases pattern@.len() - i,
    {
        let ghost rest = pattern@.skip(i as int);
        if pattern[i] == SLASH {
            assert(rest.drop_first() =~= pattern@.skip(i as int + 1));
            i += 1;
        } else {
            let begin: usize = i;
            while i < pattern.len() && pattern[i] != SLASH
                invariant
                    begin <= i <= pattern@.len(),
                    begin < pattern@.len(),
                    pattern@[begin as int] != SLASH,
                    forall|k: int| begin <= k < i ==> #[trigger] pattern@[k] != SLASH,
                decreases pattern@.len() - i,
            {
                i += 1;
            }
            let ghost n = i - begin;
            proof {
                assert forall|k: int| 0 <= k < n implies #[trigger] rest[k] != SLASH by {
                    assert(rest[k] == pattern@[begin + k]);
                }
                lemma_part_len_is(rest, n);
                assert(rest.take(n) =~= pattern@.subrange(begin as int, i as int));
                assert(rest.skip(n) =~= pattern@.skip(i as int));
                assert(parts.skip(done)[0] == parts[done]);
                assert(parts.skip(done).drop_first() =~= parts.skip(done + 1));
                assert((seq![rest.take(n)] + parts_of(rest.skip(n))).drop_first()
                    =~= parts_of(rest.skip(n)));
            }
            match find_from(pattern, begin, i, candidate, from) {
                None => {
                    return None;
                },
                Some(at) => {
                    if start.is_none() {
                        start = Some(at);
                    }
                    from = at + (i - begin);
                    last = (begin, i);
                },
            }
            proof {
                done = done + 1;
            }
        }
    }
    proof {
        assert(pattern@.skip(i as int) =~= Seq::<u8>::empty());
        assert(parts.skip(done).len() == 0);
    }
    match start {
        None => None,
        Some(at) => Some((at, last.0, last.1)),
    }
}

/// Where a candidate's own name begins.
fn name_start(candidate: &[u8]) -> (out: usize)
    ensures
        out == name_at(candidate@),
        out <= candidate@.len(),
{
    let mut end: usize = candidate.len();
    assert(candidate@.take(end as int) =~= candidate@);
    while end > 0 && candidate[end - 1] == SLASH
        invariant
            end <= candidate@.len(),
            without_slashes(candidate@) == without_slashes(candidate@.take(end as int)),
        decreases end,
    {
        assert(candidate@.take(end as int).drop_last() =~= candidate@.take(end - 1));
        end -= 1;
    }
    let ghost trimmed = candidate@.take(end as int);
    proof {
        if end > 0 {
            assert(trimmed.last() == candidate@[end - 1]);
        }
        assert(without_slashes(candidate@) == trimmed);
    }
    let mut at: usize = end;
    assert(trimmed.take(at as int) =~= trimmed);
    while at > 0 && candidate[at - 1] != SLASH
        invariant
            at <= end <= candidate@.len(),
            trimmed == candidate@.take(end as int),
            after_last_slash(trimmed) == after_last_slash(trimmed.take(at as int)),
        decreases at,
    {
        assert(trimmed.take(at as int).drop_last() =~= trimmed.take(at - 1));
        at -= 1;
    }
    proof {
        if at > 0 {
            assert(trimmed.take(at as int).last() == candidate@[at - 1]);
        }
    }
    at
}

/// How well a candidate matches a pattern.
fn rank(pattern: &[u8], candidate: &[u8]) -> (out: Option<Key>)
    ensures
        out == rank_of(pattern@, candidate@),
{
    match match_start(pattern, candidate) {
        None => None,
        Some((at, start, end)) => {
            let name = name_start(candidate);
            let ghost own = candidate@.skip(name as int);
            let ghost typed = pattern@.subrange(start as int, end as int);
            proof {
                assert(candidate@.subrange(0, candidate@.len() as int) =~= candidate@);
                assert(stands_at(typed, own, 0) == stands_at(typed, candidate@, name as int)) by {
                    if stands_at(typed, own, 0) {
                        assert forall|k: int| 0 <= k < typed.len() implies folded(
                            #[trigger] typed[k],
                        ) == folded(candidate@[name + k]) by {
                            assert(own[0 + k] == candidate@[name + k]);
                        }
                    }
                    if stands_at(typed, candidate@, name as int) {
                        assert forall|k: int| 0 <= k < typed.len() implies folded(
                            #[trigger] typed[k],
                        ) == folded(own[0 + k]) by {
                            assert(own[0 + k] == candidate@[name + k]);
                        }
                    }
                }
            }
            let whole = candidate.len() == pattern.len() && range_stands_at(
                candidate,
                0,
                candidate.len(),
                pattern,
                0,
            );
            let kind: u8 = if whole {
                0
            } else if at == 0 {
                1
            } else if range_stands_at(pattern, start, end, candidate, name) {
                2
            } else {
                3
            };
            Some((kind, candidate.len(), at))
        },
    }
}

/// The places of the candidates that match `pattern`, best first.
pub fn rank_all(pattern: &str, candidates: &[String]) -> (out: Vec<usize>)
    ensures
        ranked(pattern@, crate::text::texts(candidates@), out@),
{
    if pattern.is_empty() {
        return first_numbers(candidates.len());
    }
    let bytes = pattern.as_bytes();
    let mut keys: Vec<Option<Key>> = Vec::new();
    let mut i: usize = 0;
    while i < candidates.len()
        invariant
            i <= candidates@.len(),
            bytes@ == encode_utf8(pattern@),
            keys@.len() == i,
            forall|k: int|
                0 <= k < i ==> #[trigger] keys@[k] == rank_of(
                    encode_utf8(pattern@),
                    encode_utf8(candidates@[k]@),
                ),
        decreases candidates@.len() - i,
    {
        keys.push(rank(bytes, candidates[i].as_str().as_bytes()));
        i += 1;
    }
    assert(keys@ =~= ranks_of(pattern@, crate::text::texts(candidates@)));
    order(&keys)
}

/// A pattern whose parts all stand in a candidate's text, one after the other,
/// matches it, wherever they stand.
pub proof fn parts_in_order_match(pattern: Seq<u8>, candidate: Seq<u8>, places: Seq<int>)
    requires
        parts_of(pattern).len() > 0,
        places.len() == parts_of(pattern).len(),
        forall|i: int|
            0 <= i < places.len() ==> stands_at(
                parts_of(pattern)[i],
                candidate,
                #[trigger] places[i],
            ),
        forall|i: int|
            0 < i < places.len() ==> places[i - 1] + parts_of(pattern)[i - 1].len() <= #[trigger] places[i],
    ensures
        rank_of(pattern, candidate) is Some,
{
    let parts = parts_of(pattern);
    assert(places[0] >= 0);
    lemma_greedy_finds(parts, candidate, places, 0);
    assert(stand_in_order(parts, candidate, 0));
}

pub proof fn lemma_found_is_first(part: Seq<u8>, text: Seq<u8>, from: int, place: int)
    requires
        0 <= from <= place,
        stands_at(part, text, place),
    ensures
        found_from(part, text, from) is Some,
        found_from(part, text, from)->0 <= place,
    decreases place - from,
{
    if !stands_at(part, text, from) {
        lemma_found_is_first(part, text, from + 1, place);
    }
}

proof fn lemma_greedy_finds(parts: Seq<Seq<u8>>, text: Seq<u8>, places: Seq<int>, from: int)
    requires
        parts.len() == places.len(),
        0 <= from,
        places.len() > 0 ==> from <= places[0],
        forall|i: int| 0 <= i < places.len() ==> stands_at(parts[i], text, #[trigger] places[i]),
        forall|i: int|
            0 < i < places.len() ==> places[i - 1] + parts[i - 1].len() <= #[trigger] places[i],
    ensures
        stand_in_order(parts, text, from),
    decreases parts.len(),
{
    if parts.len() > 0 {
        assert(stands_at(parts[0], text, places[0]));
        lemma_found_is_first(parts[0], text, from, places[0]);
        lemma_found_bounds(parts[0], text, from);
        let at = found_from(parts[0], text, from)->0;
        let rest = parts.drop_first();
        let later = places.drop_first();
        assert forall|i: int| 0 <= i < later.len() implies stands_at(
            rest[i],
            text,
            #[trigger] later[i],
        ) by {
            assert(stands_at(parts[i + 1], text, places[i + 1]));
        }
        assert forall|i: int| 0 < i < later.len() implies later[i - 1] + rest[i - 1].len()
            <= #[trigger] later[i] by {
            assert(places[i] + parts[i].len() <= places[i + 1]);
        }
        if later.len() > 0 {
            assert(places[0] + parts[0].len() <= places[1]);
        }
        lemma_greedy_finds(rest, text, later, at + parts[0].len());
    }
}

} // verus!
