//! Ordering candidates by how well they match.
use vstd::prelude::*;

verus! {

/// How good a match is. The parts are compared in order, and less is better.
pub type Key = (u8, usize, usize);

/// Whether `a` is a better match than `b`.
pub open spec fn better(a: Key, b: Key) -> bool {
    ||| a.0 < b.0
    ||| a.0 == b.0 && a.1 < b.1
    ||| a.0 == b.0 && a.1 == b.1 && a.2 < b.2
}

/// Whether candidate `i` comes before candidate `j`: it matches better, or as
/// well and was given first.
pub open spec fn comes_before(keys: Seq<Option<Key>>, i: int, j: int) -> bool {
    better(keys[i]->0, keys[j]->0) || keys[i] == keys[j] && i < j
}

/// Whether `out` names the candidates that match, each once, best first.
pub open spec fn best_first(keys: Seq<Option<Key>>, out: Seq<usize>) -> bool {
    &&& forall|p: int| 0 <= p < out.len() ==> #[trigger] out[p] < keys.len() && keys[out[p] as int] is Some
    &&& forall|i: int|
        0 <= i < keys.len() && (#[trigger] keys[i]) is Some ==> exists|p: int|
            0 <= p < out.len() && #[trigger] out[p] == i
    &&& forall|p: int, q: int|
        0 <= p < q < out.len() ==> comes_before(keys, #[trigger] out[p] as int, #[trigger] out[q] as int)
}

/// The order is total: of two candidates that match, one comes first.
pub proof fn order_is_total(keys: Seq<Option<Key>>, i: int, j: int)
    requires
        keys[i] is Some,
        keys[j] is Some,
        i != j,
    ensures
        comes_before(keys, i, j) || comes_before(keys, j, i),
        !(comes_before(keys, i, j) && comes_before(keys, j, i)),
{
}

/// There is only one way to name the matching candidates best first.
pub proof fn best_first_is_unique(keys: Seq<Option<Key>>, a: Seq<usize>, b: Seq<usize>)
    requires
        best_first(keys, a),
        best_first(keys, b),
    ensures
        a == b,
    decreases a.len(),
{
    lemma_prefixes_agree(keys, a, b, a.len() as int);
    lemma_prefixes_agree(keys, b, a, b.len() as int);
    assert(a =~= b);
}

proof fn lemma_prefixes_agree(keys: Seq<Option<Key>>, a: Seq<usize>, b: Seq<usize>, n: int)
    requires
        best_first(keys, a),
        best_first(keys, b),
        0 <= n <= a.len(),
    ensures
        n <= b.len(),
        forall|p: int| 0 <= p < n ==> a[p] == b[p],
    decreases n,
{
    if n > 0 {
        let m = n - 1;
        lemma_prefixes_agree(keys, a, b, m);
        let i = a[m] as int;
        assert(keys[i] is Some);
        let p = choose|p: int| 0 <= p < b.len() && #[trigger] b[p] == i;
        if p < m {
            assert(a[p] == b[p]);
            assert(comes_before(keys, a[p] as int, a[m] as int));
        } else if p > m {
            let j = b[m] as int;
            assert(keys[j] is Some);
            assert(comes_before(keys, b[m] as int, b[p] as int));
            let q = choose|q: int| 0 <= q < a.len() && #[trigger] a[q] == j;
            if q < m {
                assert(a[q] == b[q]);
                assert(comes_before(keys, b[q] as int, b[m] as int));
            } else if q > m {
                assert(comes_before(keys, a[m] as int, a[q] as int));
            }
        }
    }
}

fn is_better(a: Key, b: Key) -> (out: bool)
    ensures
        out == better(a, b),
{
    a.0 < b.0 || (a.0 == b.0 && (a.1 < b.1 || (a.1 == b.1 && a.2 < b.2)))
}

/// The candidates that match, best first. Those that match equally well keep
/// the order in which they were given.
pub fn order(keys: &Vec<Option<Key>>) -> (out: Vec<usize>)
    ensures
        best_first(keys@, out@),
{
    let mut out: Vec<usize> = Vec::new();
    let mut i: usize = 0;
    while i < keys.len()
        invariant
            i <= keys@.len(),
            best_first(keys@.take(i as int), out@),
        decreases keys@.len() - i,
    {
        let ghost seen = keys@.take(i as int);
        let ghost now = keys@.take(i as int + 1);
        let ghost before = out@;
        match keys[i] {
            None => {
                proof {
                    assert forall|p: int| 0 <= p < out@.len() implies #[trigger] out@[p] < now.len()
                        && now[out@[p] as int] is Some by {
                        assert(seen[out@[p] as int] == now[out@[p] as int]);
                    }
                    assert forall|k: int| 0 <= k < now.len() && (
                    #[trigger] now[k]) is Some implies exists|p: int|
                        0 <= p < out@.len() && #[trigger] out@[p] == k by {
                        assert(k < i);
                        assert(seen[k] is Some);
                    }
                    assert forall|p: int, q: int| 0 <= p < q < out@.len() implies comes_before(
                        now,
                        #[trigger] out@[p] as int,
                        #[trigger] out@[q] as int,
                    ) by {
                        assert(comes_before(seen, out@[p] as int, out@[q] as int));
                    }
                }
            },
            Some(key) => {
                let mut at: usize = out.len();
                while at > 0 && is_better(key, keys[out[at - 1]].unwrap())
                    invariant
                        at <= out@.len(),
                        out@ == before,
                        i < keys@.len(),
                        keys@[i as int] == Some(key),
                        seen == keys@.take(i as int),
                        best_first(seen, before),
                        forall|p: int|
                            0 <= p < out@.len() ==> #[trigger] out@[p] < i && keys@[out@[p] as int] is Some,
                        forall|p: int|
                            at <= p < out@.len() ==> better(
                                key,
                                keys@[#[trigger] out@[p] as int]->0,
                            ),
                    decreases at,
                {
                    at -= 1;
                }
                proof {
                    assert forall|p: int| 0 <= p < at implies !better(
                        key,
                        keys@[#[trigger] out@[p] as int]->0,
                    ) by {
                        if p < at - 1 {
                            assert(comes_before(seen, before[p] as int, before[at - 1] as int));
                            assert(seen[before[p] as int] == keys@[before[p] as int]);
                            assert(seen[before[at - 1] as int] == keys@[before[at - 1] as int]);
                        }
                    }
                }
                out.insert(at, i);
                proof {
                    lemma_insert_keeps_order(keys@, i as int, before, at as int, key);
                    assert(out@ =~= before.insert(at as int, i));
                }
            },
        }
        i += 1;
    }
    assert(keys@.take(i as int) =~= keys@);
    out
}

proof fn lemma_insert_keeps_order(
    keys: Seq<Option<Key>>,
    i: int,
    before: Seq<usize>,
    at: int,
    key: Key,
)
    requires
        0 <= i < keys.len() <= usize::MAX,
        0 <= at <= before.len(),
        keys[i] == Some(key),
        best_first(keys.take(i), before),
        forall|p: int| 0 <= p < at ==> !better(key, keys[#[trigger] before[p] as int]->0),
        forall|p: int| at <= p < before.len() ==> better(key, keys[#[trigger] before[p] as int]->0),
    ensures
        best_first(keys.take(i + 1), before.insert(at, i as usize)),
{
    let seen = keys.take(i);
    let now = keys.take(i + 1);
    let out = before.insert(at, i as usize);
    assert forall|p: int| 0 <= p < before.len() implies #[trigger] before[p] < i
        && keys[before[p] as int] is Some by {
        assert(seen[before[p] as int] == keys[before[p] as int]);
    }
    assert forall|p: int| 0 <= p < out.len() implies #[trigger] out[p] < now.len()
        && now[out[p] as int] is Some by {
        if p < at {
            assert(out[p] == before[p]);
        } else if p > at {
            assert(out[p] == before[p - 1]);
        }
    }
    assert forall|k: int| 0 <= k < now.len() && (#[trigger] now[k]) is Some implies exists|p: int|
        0 <= p < out.len() && #[trigger] out[p] == k by {
        if k < i {
            assert(seen[k] is Some);
            let p = choose|p: int| 0 <= p < before.len() && #[trigger] before[p] == k;
            if p < at {
                assert(out[p] == k);
            } else {
                assert(out[p + 1] == k);
            }
        } else {
            assert(out[at] == k);
        }
    }
    assert forall|p: int, q: int| 0 <= p < q < out.len() implies comes_before(
        now,
        #[trigger] out[p] as int,
        #[trigger] out[q] as int,
    ) by {
        if p == at {
            assert(out[q] == before[q - 1]);
            assert(better(key, keys[before[q - 1] as int]->0));
        } else if q == at {
            assert(out[p] == before[p]);
            assert(!better(key, keys[before[p] as int]->0));
            assert(before[p] < i);
        } else {
            let x = if p < at {
                p
            } else {
                p - 1
            };
            let y = if q < at {
                q
            } else {
                q - 1
            };
            assert(out[p] == before[x]);
            assert(out[q] == before[y]);
            assert(comes_before(seen, before[x] as int, before[y] as int));
        }
    }
}

/// The numbers below `n`, in order.
pub fn first_numbers(n: usize) -> (out: Vec<usize>)
    ensures
        out@.len() == n,
        forall|i: int| 0 <= i < n ==> #[trigger] out@[i] == i,
{
    let mut out: Vec<usize> = Vec::new();
    let mut i: usize = 0;
    while i < n
        invariant
            i <= n,
            out@.len() == i,
            forall|k: int| 0 <= k < i ==> #[trigger] out@[k] == k,
        decreases n - i,
    {
        out.push(i);
        i += 1;
    }
    out
}

} // verus!
