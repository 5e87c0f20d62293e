//! Ranking does not depend on ASCII case.
use crate::completion::matcher::{
    after_last_slash, folded, found_from, lemma_part_len, match_at, name_at, part_len, parts_of,
    rank_of, ranked, ranks_of, same_folded, stand_in_order, stands_at, without_slashes, SLASH,
};
use crate::completion::order::best_first_is_unique;
use crate::text::{ascii_lower, ascii_lowered};
use vstd::prelude::*;
use vstd::utf8::{encode_scalar, encode_utf8};

verus! {

/// Whether two texts differ at most in ASCII case.
spec fn alike(a: Seq<u8>, b: Seq<u8>) -> bool {
    a.len() == b.len() && forall|k: int|
        0 <= k < a.len() ==> folded(#[trigger] a[k]) == folded(b[k])
}

proof fn lemma_same_slashes(a: Seq<u8>, b: Seq<u8>, k: int)
    requires
        alike(a, b),
        0 <= k < a.len(),
    ensures
        a[k] == SLASH <==> b[k] == SLASH,
{
    assert(folded(a[k]) == folded(b[k]));
}

proof fn lemma_pieces_are_alike(a: Seq<u8>, b: Seq<u8>, from: int, to: int)
    requires
        alike(a, b),
        0 <= from <= to <= a.len(),
    ensures
        alike(a.subrange(from, to), b.subrange(from, to)),
{
    let x = a.subrange(from, to);
    let y = b.subrange(from, to);
    assert forall|k: int| 0 <= k < x.len() implies folded(#[trigger] x[k]) == folded(y[k]) by {
        assert(folded(a[from + k]) == folded(b[from + k]));
    }
}

proof fn lemma_stands_alike(p: Seq<u8>, q: Seq<u8>, c: Seq<u8>, d: Seq<u8>, at: int)
    requires
        alike(p, q),
        alike(c, d),
    ensures
        stands_at(p, c, at) == stands_at(q, d, at),
{
    if 0 <= at && at + p.len() <= c.len() {
        if stands_at(p, c, at) {
            assert forall|k: int| 0 <= k < q.len() implies folded(#[trigger] q[k]) == folded(
                d[at + k],
            ) by {
                assert(folded(p[k]) == folded(c[at + k]));
            }
        }
        if stands_at(q, d, at) {
            assert forall|k: int| 0 <= k < p.len() implies folded(#[trigger] p[k]) == folded(
                c[at + k],
            ) by {
                assert(folded(q[k]) == folded(d[at + k]));
                assert(folded(c[at + k]) == folded(d[at + k]));
            }
        }
    }
}

proof fn lemma_found_alike(p: Seq<u8>, q: Seq<u8>, c: Seq<u8>, d: Seq<u8>, from: int)
    requires
        alike(p, q),
        alike(c, d),
    ensures
        found_from(p, c, from) == found_from(q, d, from),
    decreases c.len() - from,
{
    if from >= 0 && from + p.len() <= c.len() {
        lemma_stands_alike(p, q, c, d, from);
        if !stands_at(p, c, from) {
            lemma_found_alike(p, q, c, d, from + 1);
        }
    }
}

/// Whether two lists of parts differ at most in ASCII case.
spec fn all_alike(a: Seq<Seq<u8>>, b: Seq<Seq<u8>>) -> bool {
    a.len() == b.len() && forall|i: int| 0 <= i < a.len() ==> alike(#[trigger] a[i], b[i])
}

proof fn lemma_in_order_alike(
    a: Seq<Seq<u8>>,
    b: Seq<Seq<u8>>,
    c: Seq<u8>,
    d: Seq<u8>,
    from: int,
)
    requires
        all_alike(a, b),
        alike(c, d),
    ensures
        stand_in_order(a, c, from) == stand_in_order(b, d, from),
    decreases a.len(),
{
    if a.len() > 0 {
        assert(alike(a[0], b[0]));
        lemma_found_alike(a[0], b[0], c, d, from);
        let (x, y) = (a.drop_first(), b.drop_first());
        assert forall|i: int| 0 <= i < x.len() implies alike(#[trigger] x[i], y[i]) by {
            assert(alike(a[i + 1], b[i + 1]));
        }
        if let Some(at) = found_from(a[0], c, from) {
            lemma_in_order_alike(x, y, c, d, at + a[0].len());
        }
    }
}

proof fn lemma_part_len_alike(a: Seq<u8>, b: Seq<u8>)
    requires
        alike(a, b),
    ensures
        part_len(a) == part_len(b),
    decreases a.len(),
{
    if a.len() > 0 {
        lemma_same_slashes(a, b, 0);
        lemma_pieces_are_alike(a, b, 1, a.len() as int);
        assert(a.subrange(1, a.len() as int) =~= a.drop_first());
        assert(b.subrange(1, a.len() as int) =~= b.drop_first());
        lemma_part_len_alike(a.drop_first(), b.drop_first());
    }
}

proof fn lemma_parts_alike(a: Seq<u8>, b: Seq<u8>)
    requires
        alike(a, b),
    ensures
        all_alike(parts_of(a), parts_of(b)),
    decreases a.len(),
{
    if a.len() > 0 {
        let len = a.len() as int;
        lemma_same_slashes(a, b, 0);
        if a[0] == SLASH {
            lemma_pieces_are_alike(a, b, 1, len);
            assert(a.subrange(1, len) =~= a.drop_first());
            assert(b.subrange(1, len) =~= b.drop_first());
            lemma_parts_alike(a.drop_first(), b.drop_first());
        } else {
            let n = part_len(a) as int;
            lemma_part_len(a);
            lemma_part_len_alike(a, b);
            lemma_pieces_are_alike(a, b, 0, n);
            lemma_pieces_are_alike(a, b, n, len);
            assert(a.subrange(0, n) =~= a.take(n));
            assert(b.subrange(0, n) =~= b.take(n));
            assert(a.subrange(n, len) =~= a.skip(n));
            assert(b.subrange(n, len) =~= b.skip(n));
            lemma_parts_alike(a.skip(n), b.skip(n));
            let (x, y) = (parts_of(a.skip(n)), parts_of(b.skip(n)));
            assert forall|i: int| 0 <= i < parts_of(a).len() implies alike(
                #[trigger] parts_of(a)[i],
                parts_of(b)[i],
            ) by {
                if i > 0 {
                    assert(alike(x[i - 1], y[i - 1]));
                }
            }
        }
    }
}

proof fn lemma_names_alike(c: Seq<u8>, d: Seq<u8>)
    requires
        alike(c, d),
    ensures
        name_at(c) == name_at(d),
        name_at(c) <= c.len(),
{
    lemma_ends_alike(c, d);
    lemma_last_slash_alike(without_slashes(c), without_slashes(d));
}

proof fn lemma_ends_alike(c: Seq<u8>, d: Seq<u8>)
    requires
        alike(c, d),
    ensures
        alike(without_slashes(c), without_slashes(d)),
        without_slashes(c).len() <= c.len(),
    decreases c.len(),
{
    if c.len() > 0 {
        lemma_same_slashes(c, d, c.len() - 1);
        lemma_pieces_are_alike(c, d, 0, c.len() - 1);
        assert(c.subrange(0, c.len() - 1) =~= c.drop_last());
        assert(d.subrange(0, c.len() - 1) =~= d.drop_last());
        lemma_ends_alike(c.drop_last(), d.drop_last());
    }
}

proof fn lemma_last_slash_alike(c: Seq<u8>, d: Seq<u8>)
    requires
        alike(c, d),
    ensures
        after_last_slash(c) == after_last_slash(d),
        after_last_slash(c) <= c.len(),
    decreases c.len(),
{
    if c.len() > 0 {
        lemma_same_slashes(c, d, c.len() - 1);
        lemma_pieces_are_alike(c, d, 0, c.len() - 1);
        assert(c.subrange(0, c.len() - 1) =~= c.drop_last());
        assert(d.subrange(0, c.len() - 1) =~= d.drop_last());
        lemma_last_slash_alike(c.drop_last(), d.drop_last());
    }
}

proof fn lemma_ranks_alike(p: Seq<u8>, q: Seq<u8>, c: Seq<u8>, d: Seq<u8>)
    requires
        alike(p, q),
        alike(c, d),
    ensures
        rank_of(p, c) == rank_of(q, d),
{
    lemma_parts_alike(p, q);
    let (a, b) = (parts_of(p), parts_of(q));
    lemma_in_order_alike(a, b, c, d, 0);
    if a.len() > 0 {
        assert(alike(a[0], b[0]));
        lemma_found_alike(a[0], b[0], c, d, 0);
        assert(match_at(p, c) == match_at(q, d));
        lemma_stands_alike(c, d, p, q, 0);
        assert(same_folded(c, p) == same_folded(d, q));
        lemma_names_alike(c, d);
        let n = name_at(c) as int;
        lemma_pieces_are_alike(c, d, n, c.len() as int);
        assert(c.subrange(n, c.len() as int) =~= c.skip(n));
        assert(d.subrange(n, c.len() as int) =~= d.skip(n));
        assert(alike(a[a.len() - 1], b[b.len() - 1]));
        lemma_stands_alike(a.last(), b.last(), c.skip(n), d.skip(n), 0);
    }
}

proof fn lemma_letters_alike(a: char, b: char)
    requires
        ascii_lower(a) == ascii_lower(b),
    ensures
        alike(encode_scalar(a as u32), encode_scalar(b as u32)),
{
    if a != b {
        let x = a as u32;
        let y = b as u32;
        assert(x < 128 && y < 128);
        assert((x & 0x7F) as u8 == x as u8) by (bit_vector)
            requires
                x < 128,
        ;
        assert((y & 0x7F) as u8 == y as u8) by (bit_vector)
            requires
                y < 128,
        ;
        assert(encode_scalar(x) =~= seq![x as u8]);
        assert(encode_scalar(y) =~= seq![y as u8]);
    }
}

proof fn lemma_encodings_alike(a: Seq<char>, b: Seq<char>)
    requires
        ascii_lowered(a) == ascii_lowered(b),
    ensures
        alike(encode_utf8(a), encode_utf8(b)),
    decreases a.len(),
{
    assert(a.len() == ascii_lowered(a).len());
    assert(b.len() == ascii_lowered(b).len());
    if a.len() > 0 {
        assert(ascii_lowered(a)[0] == ascii_lower(a[0]));
        assert(ascii_lowered(b)[0] == ascii_lower(b[0]));
        lemma_letters_alike(a[0], b[0]);
        let (s, t) = (a.drop_first(), b.drop_first());
        assert(ascii_lowered(s) =~= ascii_lowered(a).drop_first());
        assert(ascii_lowered(t) =~= ascii_lowered(b).drop_first());
        lemma_encodings_alike(s, t);
        let (x, y) = (encode_scalar(a[0] as u32), encode_scalar(b[0] as u32));
        let (u, v) = (encode_utf8(s), encode_utf8(t));
        assert forall|k: int| 0 <= k < (x + u).len() implies folded(#[trigger] (x + u)[k])
            == folded((y + v)[k]) by {
            if k < x.len() {
                assert(folded(x[k]) == folded(y[k]));
            } else {
                assert(folded(u[k - x.len()]) == folded(v[k - x.len()]));
            }
        }
    }
}

/// The ASCII case of a pattern and of the candidates makes no difference to the
/// ranking: texts that are the same in small letters are ranked the same.
pub proof fn case_does_not_change_the_ranking(
    pattern: Seq<char>,
    other_pattern: Seq<char>,
    candidates: Seq<Seq<char>>,
    other_candidates: Seq<Seq<char>>,
    out: Seq<usize>,
)
    requires
        ascii_lowered(pattern) == ascii_lowered(other_pattern),
        candidates.len() == other_candidates.len(),
        forall|i: int|
            0 <= i < candidates.len() ==> ascii_lowered(#[trigger] candidates[i]) == ascii_lowered(
                other_candidates[i],
            ),
    ensures
        ranked(pattern, candidates, out) == ranked(other_pattern, other_candidates, out),
{
    assert(pattern.len() == ascii_lowered(pattern).len());
    assert(other_pattern.len() == ascii_lowered(other_pattern).len());
    lemma_encodings_alike(pattern, other_pattern);
    let keys = ranks_of(pattern, candidates);
    let others = ranks_of(other_pattern, other_candidates);
    assert forall|i: int| 0 <= i < keys.len() implies keys[i] == others[i] by {
        assert(ascii_lowered(candidates[i]) == ascii_lowered(other_candidates[i]));
        lemma_encodings_alike(candidates[i], other_candidates[i]);
        lemma_ranks_alike(
            encode_utf8(pattern),
            encode_utf8(other_pattern),
            encode_utf8(candidates[i]),
            encode_utf8(other_candidates[i]),
        );
    }
    assert(keys =~= others);
}

/// There is only one ranking of the candidates for a pattern.
pub proof fn a_ranking_is_unique(
    pattern: Seq<char>,
    candidates: Seq<Seq<char>>,
    a: Seq<usize>,
    b: Seq<usize>,
)
    requires
        ranked(pattern, candidates, a),
        ranked(pattern, candidates, b),
    ensures
        a == b,
{
    if pattern.len() == 0 {
        assert(a =~= b);
    } else {
        best_first_is_unique(ranks_of(pattern, candidates), a, b);
    }
}

} // verus!
