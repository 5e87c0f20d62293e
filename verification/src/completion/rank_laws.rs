//! What ranking is for: what matches is found, and the better match comes first.
use crate::command::{
    a_typed_command_is_read_back, command_word, parsed_with_args, single_line, SlashCommand,
};
use crate::completion::command_backend::{command_item, offers_commands};
use crate::completion::matcher::{
    after_last_slash, found_from, folded, lemma_found_bounds, lemma_found_is_first, lemma_part_len,
    lemma_part_len_is, match_at, name_at, part_len, parts_of, rank_of, ranked, ranks_of,
    stand_in_order, stands_at, without_slashes, SLASH,
};
use crate::completion::order::{best_first, better, comes_before, Key};
use crate::completion::path_backend::{offers_paths, path_item};
use crate::completion::{
    first_items, item_views, Accept, CompletionRequest, CompletionResult, CompletionStatus,
};
use crate::matcher::{containment, matched};
use crate::text::trimmed;
use vstd::prelude::*;
use vstd::utf8::encode_utf8;

verus! {

/// Whether one candidate comes before another wherever both are named.
pub open spec fn comes_first(out: Seq<usize>, i: int, j: int) -> bool {
    forall|p: int, q: int|
        0 <= p < out.len() && 0 <= q < out.len() && #[trigger] out[p] == i && #[trigger] out[q] == j
            ==> p < q
}

proof fn lemma_better_comes_first(keys: Seq<Option<Key>>, out: Seq<usize>, i: int, j: int)
    requires
        best_first(keys, out),
        0 <= i < keys.len(),
        0 <= j < keys.len(),
        keys[i] is Some,
        keys[j] is Some,
        better(keys[i]->0, keys[j]->0),
    ensures
        comes_first(out, i, j),
{
    assert forall|p: int, q: int|
        0 <= p < out.len() && 0 <= q < out.len() && #[trigger] out[p] == i && #[trigger] out[q]
            == j implies p < q by {
        if q < p {
            assert(comes_before(keys, out[q] as int, out[p] as int));
        }
    }
}

/// The parts of a pattern and of another behind it, with a separator between them,
/// are the parts of both.
pub proof fn parts_of_both(a: Seq<u8>, b: Seq<u8>)
    ensures
        parts_of(a.push(SLASH) + b) == parts_of(a) + parts_of(b),
    decreases a.len(),
{
    let all = a.push(SLASH) + b;
    if a.len() == 0 {
        assert(all[0] == SLASH);
        assert(all.drop_first() =~= b);
        assert(parts_of(a) + parts_of(b) =~= parts_of(b));
    } else if a[0] == SLASH {
        assert(all[0] == a[0]);
        assert(all.drop_first() =~= a.drop_first().push(SLASH) + b);
        parts_of_both(a.drop_first(), b);
    } else {
        let n = part_len(a) as int;
        lemma_part_len(a);
        assert(all[0] == a[0]);
        assert forall|i: int| 0 <= i < n implies #[trigger] all[i] != SLASH by {
            assert(all[i] == a[i]);
        }
        if n < a.len() {
            assert(all[n] == a[n]);
        }
        lemma_part_len_is(all, n);
        assert(n > 0);
        assert(all.take(n) =~= a.take(n));
        assert(all.skip(n) =~= a.skip(n).push(SLASH) + b);
        parts_of_both(a.skip(n), b);
        assert(parts_of(all) =~= seq![a.take(n)] + (parts_of(a.skip(n)) + parts_of(b)));
        assert(parts_of(a) + parts_of(b) =~= seq![a.take(n)] + (parts_of(a.skip(n)) + parts_of(b)));
    }
}

/// Whether a text is one part: not empty, and without a separator.
pub open spec fn is_part(s: Seq<u8>) -> bool {
    s.len() > 0 && forall|i: int| 0 <= i < s.len() ==> #[trigger] s[i] != SLASH
}

/// A pattern without separators is its own only part.
pub proof fn a_part_is_its_own_part(s: Seq<u8>)
    requires
        is_part(s),
    ensures
        parts_of(s) == seq![s],
{
    lemma_part_len_is(s, s.len() as int);
    assert(s[0] != SLASH);
    assert(s.take(s.len() as int) =~= s);
    assert(s.skip(s.len() as int) =~= Seq::<u8>::empty());
    assert(parts_of(s.skip(s.len() as int)) =~= Seq::<Seq<u8>>::empty());
    assert(parts_of(s) =~= seq![s]);
}

/// Where a path's own name begins: behind its directory, be it the name of a
/// directory itself or not. A path without a directory is a name.
pub proof fn names_follow_their_directory(dir: Seq<u8>, name: Seq<u8>)
    requires
        is_part(name),
    ensures
        name_at(dir.push(SLASH) + name) == dir.len() + 1,
        name_at((dir.push(SLASH) + name).push(SLASH)) == dir.len() + 1,
        name_at(name) == 0,
        name_at(name.push(SLASH)) == 0,
{
    let whole = dir.push(SLASH) + name;
    assert(whole.last() == name[name.len() - 1]);
    assert(whole.push(SLASH).drop_last() =~= whole);
    assert(without_slashes(whole) == whole);
    lemma_last_part(dir.push(SLASH), name);
    assert(name.last() == name[name.len() - 1]);
    assert(name.push(SLASH).drop_last() =~= name);
    assert(without_slashes(name) == name);
    lemma_last_part(Seq::empty(), name);
    assert(Seq::<u8>::empty() + name =~= name);
}

proof fn lemma_last_part(before: Seq<u8>, name: Seq<u8>)
    requires
        before.len() == 0 || before.last() == SLASH,
        forall|i: int| 0 <= i < name.len() ==> #[trigger] name[i] != SLASH,
    ensures
        after_last_slash(before + name) == before.len(),
    decreases name.len(),
{
    let whole = before + name;
    if name.len() == 0 {
        assert(whole =~= before);
    } else {
        assert(whole.last() == name[name.len() - 1]);
        assert(whole.drop_last() =~= before + name.drop_last());
        assert forall|i: int| 0 <= i < name.drop_last().len() implies #[trigger] name.drop_last()[i]
            != SLASH by {
            assert(name[i] != SLASH);
        }
        lemma_last_part(before, name.drop_last());
    }
}

/// Letters that match differ at most in case, and nothing but letters does.
pub proof fn only_the_case_of_letters_is_ignored(a: u8, b: u8)
    ensures
        folded(a) == folded(b) <==> a == b || (65 <= a <= 90 && b == a + 32) || (65 <= b <= 90 && a
            == b + 32),
{
}

proof fn lemma_order_has_places(parts: Seq<Seq<u8>>, text: Seq<u8>, from: int) -> (places: Seq<int>)
    requires
        stand_in_order(parts, text, from),
    ensures
        places.len() == parts.len(),
        places.len() > 0 ==> from <= places[0],
        forall|i: int| 0 <= i < places.len() ==> stands_at(parts[i], text, #[trigger] places[i]),
        forall|i: int|
            0 < i < places.len() ==> places[i - 1] + parts[i - 1].len() <= #[trigger] places[i],
    decreases parts.len(),
{
    if parts.len() == 0 {
        Seq::empty()
    } else {
        lemma_found_bounds(parts[0], text, from);
        let at = found_from(parts[0], text, from)->0;
        let rest = parts.drop_first();
        let later = lemma_order_has_places(rest, text, at + parts[0].len());
        let places = seq![at] + later;
        assert forall|i: int| 0 <= i < places.len() implies stands_at(
            parts[i],
            text,
            #[trigger] places[i],
        ) by {
            if i > 0 {
                assert(places[i] == later[i - 1]);
                assert(parts[i] == rest[i - 1]);
                assert(stands_at(rest[i - 1], text, later[i - 1]));
            }
        }
        assert forall|i: int| 0 < i < places.len() implies places[i - 1] + parts[i - 1].len()
            <= #[trigger] places[i] by {
            assert(places[i] == later[i - 1]);
            if i > 1 {
                assert(places[i - 1] == later[i - 2]);
                assert(parts[i - 1] == rest[i - 2]);
                assert(later[i - 2] + rest[i - 2].len() <= later[i - 1]);
            }
        }
        places
    }
}

/// A candidate that matches a pattern has all the parts of the pattern in it, one
/// after the other.
pub proof fn matches_have_the_parts_in_order(pattern: Seq<u8>, candidate: Seq<u8>)
    requires
        rank_of(pattern, candidate) is Some,
    ensures
        parts_of(pattern).len() > 0,
        exists|places: Seq<int>| #[trigger] are_places(places, parts_of(pattern), candidate),
{
    let places = lemma_order_has_places(parts_of(pattern), candidate, 0);
    assert(are_places(places, parts_of(pattern), candidate));
}

/// Whether the parts stand in a text at these places, one after the other.
pub open spec fn are_places(places: Seq<int>, parts: Seq<Seq<u8>>, text: Seq<u8>) -> bool {
    &&& places.len() == parts.len()
    &&& forall|i: int| 0 <= i < places.len() ==> stands_at(parts[i], text, #[trigger] places[i])
    &&& forall|i: int|
        0 < i < places.len() ==> places[i - 1] + parts[i - 1].len() <= #[trigger] places[i]
}

/// Whether a text begins with another, ignoring ASCII case.
pub open spec fn begins_with(text: Seq<u8>, start: Seq<u8>) -> bool {
    stands_at(start, text, 0)
}

/// Whether two texts are the same, ignoring ASCII case.
pub open spec fn is_whole(candidate: Seq<u8>, pattern: Seq<u8>) -> bool {
    candidate.len() == pattern.len() && begins_with(candidate, pattern)
}

proof fn lemma_whole(candidate: Seq<u8>, pattern: Seq<u8>)
    requires
        candidate.len() == pattern.len(),
    ensures
        stands_at(candidate, pattern, 0) == stands_at(pattern, candidate, 0),
{
    if stands_at(candidate, pattern, 0) {
        assert forall|k: int| 0 <= k < pattern.len() implies folded(#[trigger] pattern[k])
            == folded(candidate[0 + k]) by {
            assert(folded(candidate[k]) == folded(pattern[0 + k]));
        }
    }
    if stands_at(pattern, candidate, 0) {
        assert forall|k: int| 0 <= k < candidate.len() implies folded(#[trigger] candidate[k])
            == folded(pattern[0 + k]) by {
            assert(folded(pattern[k]) == folded(candidate[0 + k]));
        }
    }
}

/// Where the first part of a pattern is first found in a candidate.
pub open spec fn is_first_place(pattern: Seq<u8>, candidate: Seq<u8>, at: int) -> bool {
    &&& stands_at(parts_of(pattern)[0], candidate, at)
    &&& forall|k: int|
        0 <= k < at ==> !stands_at(parts_of(pattern)[0], candidate, k)
}

proof fn lemma_match_at(pattern: Seq<u8>, candidate: Seq<u8>)
    requires
        rank_of(pattern, candidate) is Some,
    ensures
        match_at(pattern, candidate) is Some,
        is_first_place(pattern, candidate, match_at(pattern, candidate)->0),
        match_at(pattern, candidate)->0 <= candidate.len(),
        match_at(pattern, candidate)->0 == 0 <==> begins_with(candidate, parts_of(pattern)[0]),
{
    let part = parts_of(pattern)[0];
    lemma_found_bounds(part, candidate, 0);
    let at = found_from(part, candidate, 0)->0;
    assert forall|k: int| 0 <= k < at implies !stands_at(part, candidate, k) by {
        if stands_at(part, candidate, k) {
            lemma_found_is_first(part, candidate, 0, k);
        }
    }
}

/// Of two candidates that match, one that is the whole of what was typed comes
/// before any other; then one that begins with it; then one whose own name begins
/// with the last part of it; and length does not matter to that.
pub proof fn kinds_of_matches_come_in_order(pattern: Seq<u8>, a: Seq<u8>, b: Seq<u8>)
    requires
        rank_of(pattern, a) is Some,
        rank_of(pattern, b) is Some,
    ensures
        ({
            let first = parts_of(pattern)[0];
            let last = parts_of(pattern).last();
            let before = better(rank_of(pattern, a)->0, rank_of(pattern, b)->0);
            &&& is_whole(a, pattern) && !is_whole(b, pattern) ==> before
            &&& begins_with(a, first) && !begins_with(b, first) && !is_whole(b, pattern) ==> before
            &&& begins_with(a.skip(name_at(a) as int), last) && !begins_with(
                b.skip(name_at(b) as int),
                last,
            ) && !begins_with(b, first) && !is_whole(b, pattern) ==> before
        }),
{
    lemma_match_at(pattern, a);
    lemma_match_at(pattern, b);
    if a.len() == pattern.len() {
        lemma_whole(a, pattern);
    }
    if b.len() == pattern.len() {
        lemma_whole(b, pattern);
    }
}

/// Of two candidates that match in the same way the shorter one comes first, and of
/// two that are as long the one that matches earlier.
pub proof fn short_and_early_matches_come_first(
    pattern: Seq<u8>,
    a: Seq<u8>,
    b: Seq<u8>,
    at: int,
    later: int,
)
    requires
        rank_of(pattern, a) is Some,
        rank_of(pattern, b) is Some,
        a.len() <= usize::MAX,
        b.len() <= usize::MAX,
        is_whole(a, pattern) == is_whole(b, pattern),
        begins_with(a, parts_of(pattern)[0]) == begins_with(b, parts_of(pattern)[0]),
        begins_with(a.skip(name_at(a) as int), parts_of(pattern).last()) == begins_with(
            b.skip(name_at(b) as int),
            parts_of(pattern).last(),
        ),
        0 <= at,
        0 <= later,
        is_first_place(pattern, a, at),
        is_first_place(pattern, b, later),
    ensures
        a.len() < b.len() ==> better(rank_of(pattern, a)->0, rank_of(pattern, b)->0),
        a.len() == b.len() && at < later ==> better(
            rank_of(pattern, a)->0,
            rank_of(pattern, b)->0,
        ),
        a.len() == b.len() && at == later ==> rank_of(pattern, a) == rank_of(pattern, b),
{
    lemma_match_at(pattern, a);
    lemma_match_at(pattern, b);
    lemma_found_bounds(parts_of(pattern)[0], a, 0);
    lemma_found_bounds(parts_of(pattern)[0], b, 0);
    assert(match_at(pattern, a)->0 == at) by {
        let m = match_at(pattern, a)->0;
        if m < at {
            assert(!stands_at(parts_of(pattern)[0], a, m));
        } else if at < m {
            assert(!stands_at(parts_of(pattern)[0], a, at));
        }
    }
    assert(match_at(pattern, b)->0 == later) by {
        let m = match_at(pattern, b)->0;
        if m < later {
            assert(!stands_at(parts_of(pattern)[0], b, m));
        } else if later < m {
            assert(!stands_at(parts_of(pattern)[0], b, later));
        }
    }
    if a.len() == pattern.len() {
        lemma_whole(a, pattern);
    }
    if b.len() == pattern.len() {
        lemma_whole(b, pattern);
    }
}

/// A candidate is in the ranking exactly where it matches, and only once. One that
/// matches better than another stands before it, and of two that match as well the
/// one that was given first.
pub proof fn rankings_name_every_match_once(
    pattern: Seq<char>,
    candidates: Seq<Seq<char>>,
    out: Seq<usize>,
    i: int,
    j: int,
)
    requires
        pattern.len() > 0,
        ranked(pattern, candidates, out),
        0 <= i < candidates.len(),
        0 <= j < candidates.len(),
    ensures
        (exists|p: int| 0 <= p < out.len() && #[trigger] out[p] == i) <==> rank_of(
            encode_utf8(pattern),
            encode_utf8(candidates[i]),
        ) is Some,
        out.no_duplicates(),
        ({
            let a = rank_of(encode_utf8(pattern), encode_utf8(candidates[i]));
            let b = rank_of(encode_utf8(pattern), encode_utf8(candidates[j]));
            a is Some && b is Some && (better(a->0, b->0) || a == b && i < j) ==> comes_first(
                out,
                i,
                j,
            )
        }),
{
    let keys = ranks_of(pattern, candidates);
    assert(keys[i] == rank_of(encode_utf8(pattern), encode_utf8(candidates[i])));
    assert(keys[j] == rank_of(encode_utf8(pattern), encode_utf8(candidates[j])));
    assert forall|p: int, q: int| 0 <= p < out.len() && 0 <= q < out.len() && p != q implies out[p]
        != out[q] by {
        if p < q {
            assert(comes_before(keys, out[p] as int, out[q] as int));
        } else {
            assert(comes_before(keys, out[q] as int, out[p] as int));
        }
    }
    if keys[i] is Some && keys[j] is Some {
        if better(keys[i]->0, keys[j]->0) {
            lemma_better_comes_first(keys, out, i, j);
        } else if keys[i] == keys[j] && i < j {
            assert forall|p: int, q: int|
                0 <= p < out.len() && 0 <= q < out.len() && #[trigger] out[p] == i
                    && #[trigger] out[q] == j implies p < q by {
                if q < p {
                    assert(comes_before(keys, out[q] as int, out[p] as int));
                }
            }
        }
    }
    if exists|p: int| 0 <= p < out.len() && #[trigger] out[p] == i {
        let p = choose|p: int| 0 <= p < out.len() && #[trigger] out[p] == i;
        assert(keys[out[p] as int] is Some);
    }
}

/// What was typed without a separator ranks what begins with it before what does
/// not, whatever the lengths; and of the latter, what has a name that begins with it
/// before what only has it somewhere.
pub proof fn names_that_begin_with_it_come_first(
    pattern: Seq<char>,
    candidates: Seq<Seq<char>>,
    out: Seq<usize>,
    i: int,
    j: int,
)
    requires
        pattern.len() > 0,
        is_part(encode_utf8(pattern)),
        ranked(pattern, candidates, out),
        0 <= i < candidates.len(),
        0 <= j < candidates.len(),
        rank_of(encode_utf8(pattern), encode_utf8(candidates[i])) is Some,
        rank_of(encode_utf8(pattern), encode_utf8(candidates[j])) is Some,
    ensures
        ({
            let typed = encode_utf8(pattern);
            let a = encode_utf8(candidates[i]);
            let b = encode_utf8(candidates[j]);
            &&& begins_with(a, typed) && !begins_with(b, typed) ==> comes_first(out, i, j)
            &&& begins_with(a.skip(name_at(a) as int), typed) && !begins_with(
                b.skip(name_at(b) as int),
                typed,
            ) && !begins_with(b, typed) ==> comes_first(out, i, j)
            &&& is_whole(a, typed) && !is_whole(b, typed) ==> comes_first(out, i, j)
        }),
{
    let typed = encode_utf8(pattern);
    a_part_is_its_own_part(typed);
    kinds_of_matches_come_in_order(
        typed,
        encode_utf8(candidates[i]),
        encode_utf8(candidates[j]),
    );
    rankings_name_every_match_once(pattern, candidates, out, i, j);
}

/// What was typed without a separator matches exactly the candidates that hold it
/// somewhere, ignoring ASCII case.
pub proof fn a_part_matches_where_it_stands(pattern: Seq<u8>, candidate: Seq<u8>)
    requires
        is_part(pattern),
    ensures
        rank_of(pattern, candidate) is Some <==> exists|at: int| #[trigger]
            stands_at(pattern, candidate, at),
{
    a_part_is_its_own_part(pattern);
    let parts = parts_of(pattern);
    if rank_of(pattern, candidate) is Some {
        lemma_found_bounds(pattern, candidate, 0);
    }
    if exists|at: int| #[trigger] stands_at(pattern, candidate, at) {
        let at = choose|at: int| #[trigger] stands_at(pattern, candidate, at);
        lemma_found_is_first(pattern, candidate, 0, at);
        let found = found_from(pattern, candidate, 0)->0;
        assert(parts.drop_first().len() == 0);
        assert(stand_in_order(parts.drop_first(), candidate, found + pattern.len()));
        assert(stand_in_order(parts, candidate, 0));
    }
}

/// Plain containment finds exactly the candidates that hold the pattern somewhere.
/// The whole candidate comes first, then what begins with the pattern, then what has
/// it right after the last separator, then the rest; then the earlier match, and then
/// the shorter candidate.
pub proof fn containment_prefers_the_beginning(
    pattern: Seq<u8>,
    a: Seq<u8>,
    b: Seq<u8>,
    at: int,
    later: int,
)
    requires
        pattern.len() > 0,
        a.len() <= usize::MAX,
        b.len() <= usize::MAX,
        0 <= at,
        0 <= later,
        stands_at(pattern, a, at),
        forall|k: int| 0 <= k < at ==> !stands_at(pattern, a, k),
        stands_at(pattern, b, later),
        forall|k: int| 0 <= k < later ==> !stands_at(pattern, b, k),
    ensures
        containment(pattern, a) is Some,
        containment(pattern, b) is Some,
        ({
            let before = better(containment(pattern, a)->0, containment(pattern, b)->0);
            let a_whole = a.len() == pattern.len();
            let b_whole = b.len() == pattern.len();
            let a_last = at == after_last_slash(a);
            let b_last = later == after_last_slash(b);
            &&& a_whole && !b_whole ==> before
            &&& at == 0 && later > 0 ==> before
            &&& a_last && !b_last && later > 0 ==> before
            &&& 0 < at < later && a_last == b_last ==> before
            &&& at == later && a_last == b_last && a_whole == b_whole && a.len() < b.len()
                ==> before
        }),
{
    lemma_contained(pattern, a, at);
    lemma_contained(pattern, b, later);
}

proof fn lemma_contained(pattern: Seq<u8>, text: Seq<u8>, at: int)
    requires
        0 <= at,
        stands_at(pattern, text, at),
        forall|k: int| 0 <= k < at ==> !stands_at(pattern, text, k),
    ensures
        found_from(pattern, text, 0) == Some(at),
{
    lemma_found_is_first(pattern, text, 0, at);
    lemma_found_bounds(pattern, text, 0);
    let found = found_from(pattern, text, 0)->0;
    if found < at {
        assert(!stands_at(pattern, text, found));
    }
}

/// A candidate that does not hold the pattern is not found by containment.
pub proof fn containment_finds_nothing_else(pattern: Seq<u8>, candidate: Seq<u8>)
    requires
        forall|at: int| !#[trigger] stands_at(pattern, candidate, at),
    ensures
        containment(pattern, candidate) is None,
{
    if containment(pattern, candidate) is Some {
        lemma_found_bounds(pattern, candidate, 0);
    }
}

/// Containment names every candidate that it finds once, the better match first.
pub proof fn containment_names_every_match_once(
    pattern: Seq<char>,
    candidates: Seq<Seq<char>>,
    out: Seq<usize>,
    i: int,
    j: int,
)
    requires
        pattern.len() > 0,
        matched(pattern, candidates, out),
        0 <= i < candidates.len(),
        0 <= j < candidates.len(),
    ensures
        (exists|p: int| 0 <= p < out.len() && #[trigger] out[p] == i) <==> containment(
            encode_utf8(pattern),
            encode_utf8(candidates[i]),
        ) is Some,
        ({
            let a = containment(encode_utf8(pattern), encode_utf8(candidates[i]));
            let b = containment(encode_utf8(pattern), encode_utf8(candidates[j]));
            a is Some && b is Some && better(a->0, b->0) ==> comes_first(out, i, j)
        }),
{
    let keys = candidates.map_values(
        |c: Seq<char>| containment(encode_utf8(pattern), encode_utf8(c)),
    );
    assert(keys[i] == containment(encode_utf8(pattern), encode_utf8(candidates[i])));
    assert(keys[j] == containment(encode_utf8(pattern), encode_utf8(candidates[j])));
    if keys[i] is Some && keys[j] is Some && better(keys[i]->0, keys[j]->0) {
        lemma_better_comes_first(keys, out, i, j);
    }
    if exists|p: int| 0 <= p < out.len() && #[trigger] out[p] == i {
        let p = choose|p: int| 0 <= p < out.len() && #[trigger] out[p] == i;
        assert(keys[out[p] as int] is Some);
    }
}

/// What is offered of an index are paths of it, each to be put in as it is shown,
/// best first and no more than a hundred.
pub proof fn offered_paths_are_put_in_as_shown(
    paths: Seq<Seq<char>>,
    status: CompletionStatus<Seq<char>>,
    request: CompletionRequest,
    out: Option<CompletionResult>,
    k: int,
)
    requires
        offers_paths(paths, status, request, out),
        0 <= k < out->0.items@.len(),
    ensures
        out is Some,
        out->0.items@.len() <= 100,
        out->0.items@[k]@.display == out->0.items@[k]@.replacement,
        out->0.items@[k]@.accept == Accept::Insert,
        exists|places: Seq<usize>|
            #![trigger ranked(request.pattern@, paths, places)]
            ranked(request.pattern@, paths, places) && k < places.len() && out->0.items@.len()
                == if places.len() > 100 {
                100int
            } else {
                places.len() as int
            } && out->0.items@[k]@.replacement == paths[places[k] as int],
{
    let shown = paths.map_values(|p: Seq<char>| path_item(p));
    let items = out->0.items@;
    let places = choose|places: Seq<usize>| #[trigger]
        ranked(request.pattern@, paths, places) && item_views(items) == first_items(places, shown);
    assert(item_views(items).len() == items.len());
    assert(item_views(items)[k] == items[k]@);
    assert(places[k] < paths.len()) by {
        if request.pattern@.len() > 0 {
            assert(ranks_of(request.pattern@, paths).len() == paths.len());
        }
    }
    assert(shown[places[k] as int] == path_item(paths[places[k] as int]));
}

/// A command that is accepted is put in behind the slash that was typed, and what is
/// typed after it is read as its arguments.
pub proof fn accepted_commands_are_read(command: SlashCommand, args: Seq<char>)
    requires
        single_line(args),
    ensures
        parsed_with_args("/"@ + command_item(command).replacement + " "@ + args) == Some(
            (command, trimmed(args)),
        ),
        ("/"@ + command_word(command)).is_prefix_of(command_item(command).display),
        command_item(command).accept == Accept::Complete,
{
    a_typed_command_is_read_back(command, args);
    let shown = command_item(command).display;
    let name = "/"@ + command_word(command);
    assert(name =~= shown.take(name.len() as int));
}

/// Commands are offered only at the very beginning of the input, and there whatever
/// was typed.
pub proof fn commands_are_offered_at_the_beginning(
    commands: Seq<SlashCommand>,
    request: CompletionRequest,
    out: Option<CompletionResult>,
)
    requires
        offers_commands(commands, request, out),
    ensures
        out is Some <==> request.row == 0 && request.range.start == 1,
        out is Some ==> out->0.range == request.range,
{
}

} // verus!
