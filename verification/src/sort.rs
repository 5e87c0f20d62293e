//! Sorting by an order that is proved to be one.
use vstd::multiset::Multiset;
use vstd::prelude::*;
use vstd::seq_lib::to_multiset_build;

verus! {

/// Values with a total order.
pub trait Sortable: Sized {
    /// Whether `self` may stand before `other`.
    spec fn precedes(&self, other: &Self) -> bool;

    /// Whether `self` may stand before `other`.
    fn may_precede(&self, other: &Self) -> (out: bool)
        ensures
            out == self.precedes(other),
    ;

    /// Of two values one may stand before the other.
    proof fn order_is_total(a: &Self, b: &Self)
        ensures
            a.precedes(b) || b.precedes(a),
    ;

    /// What may stand before a value may stand before all that follow it.
    proof fn order_is_transitive(a: &Self, b: &Self, c: &Self)
        requires
            a.precedes(b),
            b.precedes(c),
        ensures
            a.precedes(c),
    ;
}

/// Whether each value may stand before all that follow it.
pub open spec fn sorted<T: Sortable>(s: Seq<T>) -> bool {
    forall|i: int, j: int| #![trigger s[i], s[j]] 0 <= i < j < s.len() ==> s[i].precedes(&s[j])
}

/// Whether every value of `a` may stand before every value of `b`.
spec fn all_precede<T: Sortable>(a: Seq<T>, b: Seq<T>) -> bool {
    forall|i: int, j: int| #![trigger a[i], b[j]]
        0 <= i < a.len() && 0 <= j < b.len() ==> a[i].precedes(&b[j])
}

/// Whether the values stand in descending order.
spec fn descending<T: Sortable>(s: Seq<T>) -> bool {
    forall|i: int, j: int| #![trigger s[j], s[i]] 0 <= i < j < s.len() ==> s[j].precedes(&s[i])
}

proof fn lemma_pop_multiset<T>(s: Seq<T>)
    requires
        s.len() > 0,
    ensures
        s.to_multiset() == s.drop_last().to_multiset().insert(s.last()),
{
    to_multiset_build(s.drop_last(), s.last());
    assert(s.drop_last().push(s.last()) =~= s);
}

proof fn lemma_last_is_greatest<T: Sortable>(s: Seq<T>, t: T)
    requires
        sorted(s),
        s.len() > 0,
        s.last().precedes(&t),
    ensures
        forall|i: int| 0 <= i < s.len() ==> (#[trigger] s[i]).precedes(&t),
{
    assert forall|i: int| 0 <= i < s.len() implies (#[trigger] s[i]).precedes(&t) by {
        if i < s.len() - 1 {
            assert(s[i].precedes(&s[s.len() - 1]));
            T::order_is_transitive(&s[i], &s[s.len() - 1], &t);
        }
    }
}

fn merge<T: Sortable>(a: Vec<T>, b: Vec<T>) -> (out: Vec<T>)
    requires
        sorted(a@),
        sorted(b@),
    ensures
        sorted(out@),
        out@.to_multiset() == a@.to_multiset().add(b@.to_multiset()),
{
    let mut a = a;
    let mut b = b;
    let ghost whole = a@.to_multiset().add(b@.to_multiset());
    let mut back: Vec<T> = Vec::new();
    proof {
        assert(Seq::<T>::empty().to_multiset() =~= Multiset::<T>::empty()) by {
            broadcast use vstd::seq_lib::group_to_multiset_ensures;
        }
        assert(back@ =~= Seq::<T>::empty());
        assert(a@.to_multiset().add(b@.to_multiset()).add(back@.to_multiset()) =~= whole);
    }
    while a.len() > 0 || b.len() > 0
        invariant
            sorted(a@),
            sorted(b@),
            descending(back@),
            all_precede(a@, back@),
            all_precede(b@, back@),
            a@.to_multiset().add(b@.to_multiset()).add(back@.to_multiset()) == whole,
        decreases a@.len() + b@.len(),
    {
        let ghost a0 = a@;
        let ghost b0 = b@;
        let ghost back0 = back@;
        let from_b = if a.len() == 0 {
            true
        } else if b.len() == 0 {
            false
        } else {
            a[a.len() - 1].may_precede(&b[b.len() - 1])
        };
        proof {
            if a0.len() > 0 && b0.len() > 0 {
                T::order_is_total(&a0.last(), &b0.last());
            }
        }
        if from_b {
            proof {
                lemma_pop_multiset(b0);
                assert(sorted(b0.drop_last()));
                if a0.len() > 0 {
                    lemma_last_is_greatest(a0, b0.last());
                }
            }
            if let Some(value) = b.pop() {
                back.push(value);
                proof {
                    to_multiset_build(back0, value);
                    assert(b@ =~= b0.drop_last());
                    assert(all_precede(b@, back@)) by {
                        assert forall|i: int, j: int| #![trigger b@[i], back@[j]]
                            0 <= i < b@.len() && 0 <= j < back@.len() implies b@[i].precedes(&back@[j]) by {
                            if j < back0.len() {
                                assert(b0[i].precedes(&back0[j]));
                            } else {
                                assert(b0[i].precedes(&b0[b0.len() - 1]));
                            }
                        }
                    }
                    assert(all_precede(a@, back@)) by {
                        assert forall|i: int, j: int| #![trigger a@[i], back@[j]]
                            0 <= i < a@.len() && 0 <= j < back@.len() implies a@[i].precedes(&back@[j]) by {
                            if j < back0.len() {
                                assert(a0[i].precedes(&back0[j]));
                            }
                        }
                    }
                    assert(descending(back@)) by {
                        assert forall|i: int, j: int| #![trigger back@[j], back@[i]] 0 <= i < j < back@.len() implies back@[j].precedes(&back@[i]) by {
                            if j < back0.len() {
                                assert(back0[j].precedes(&back0[i]));
                            } else {
                                assert(b0[b0.len() - 1].precedes(&back0[i]));
                            }
                        }
                    }
                    assert(a@.to_multiset().add(b@.to_multiset()).add(back@.to_multiset())
                        =~= whole);
                }
            }
        } else {
            proof {
                lemma_pop_multiset(a0);
                assert(sorted(a0.drop_last()));
                if b0.len() > 0 {
                    lemma_last_is_greatest(b0, a0.last());
                }
            }
            if let Some(value) = a.pop() {
                back.push(value);
                proof {
                    to_multiset_build(back0, value);
                    assert(a@ =~= a0.drop_last());
                    assert(all_precede(a@, back@)) by {
                        assert forall|i: int, j: int| #![trigger a@[i], back@[j]]
                            0 <= i < a@.len() && 0 <= j < back@.len() implies a@[i].precedes(&back@[j]) by {
                            if j < back0.len() {
                                assert(a0[i].precedes(&back0[j]));
                            } else {
                                assert(a0[i].precedes(&a0[a0.len() - 1]));
                            }
                        }
                    }
                    assert(all_precede(b@, back@)) by {
                        assert forall|i: int, j: int| #![trigger b@[i], back@[j]]
                            0 <= i < b@.len() && 0 <= j < back@.len() implies b@[i].precedes(&back@[j]) by {
                            if j < back0.len() {
                                assert(b0[i].precedes(&back0[j]));
                            }
                        }
                    }
                    assert(descending(back@)) by {
                        assert forall|i: int, j: int| #![trigger back@[j], back@[i]] 0 <= i < j < back@.len() implies back@[j].precedes(&back@[i]) by {
                            if j < back0.len() {
                                assert(back0[j].precedes(&back0[i]));
                            } else {
                                assert(a0[a0.len() - 1].precedes(&back0[i]));
                            }
                        }
                    }
                    assert(a@.to_multiset().add(b@.to_multiset()).add(back@.to_multiset())
                        =~= whole);
                }
            }
        }
    }
    proof {
        assert(a@ =~= Seq::<T>::empty());
        assert(b@ =~= Seq::<T>::empty());
        assert(Seq::<T>::empty().to_multiset() =~= Multiset::<T>::empty()) by {
            broadcast use vstd::seq_lib::group_to_multiset_ensures;
        }
        assert(back@.to_multiset() =~= whole);
    }
    let mut out: Vec<T> = Vec::new();
    let ghost all = back@;
    proof {
        assert(out@ =~= Seq::<T>::empty());
        assert(back@.to_multiset().add(out@.to_multiset()) =~= whole);
    }
    while back.len() > 0
        invariant
            back@.len() <= all.len(),
            descending(all),
            back@ == all.take(back@.len() as int),
            out@.len() == all.len() - back@.len(),
            forall|i: int| 0 <= i < out@.len() ==> #[trigger] out@[i] == all[all.len() - 1 - i],
            back@.to_multiset().add(out@.to_multiset()) == whole,
        decreases back@.len(),
    {
        let ghost back0 = back@;
        let ghost out0 = out@;
        proof {
            lemma_pop_multiset(back0);
        }
        if let Some(value) = back.pop() {
            out.push(value);
            proof {
                to_multiset_build(out0, value);
                assert(back@ =~= back0.drop_last());
                assert(back@ =~= all.take(back@.len() as int));
                assert(back@.to_multiset().add(out@.to_multiset()) =~= whole);
            }
        }
    }
    proof {
        assert(back@ =~= Seq::<T>::empty());
        assert(Seq::<T>::empty().to_multiset() =~= Multiset::<T>::empty()) by {
            broadcast use vstd::seq_lib::group_to_multiset_ensures;
        }
        assert(out@.to_multiset() =~= whole);
        assert forall|i: int, j: int| #![trigger out@[i], out@[j]] 0 <= i < j < out@.len() implies out@[i].precedes(&out@[j]) by {
            assert(all[all.len() - 1 - i].precedes(&all[all.len() - 1 - j]));
        }
    }
    out
}

/// The same values in order.
pub fn sort<T: Sortable>(values: Vec<T>) -> (out: Vec<T>)
    ensures
        sorted(out@),
        out@.to_multiset() == values@.to_multiset(),
    decreases values@.len(),
{
    let mut left = values;
    let n = left.len();
    if n < 2 {
        return left;
    }
    let ghost all = left@;
    let right = left.split_off(n / 2);
    proof {
        assert(all =~= left@ + right@);
        vstd::seq_lib::lemma_multiset_commutative(left@, right@);
    }
    let a = sort(left);
    let b = sort(right);
    merge(a, b)
}

/// Whether the bytes of `a` come before those of `b`, or are the same: at the
/// first place where they differ the smaller byte, or the end, comes first.
pub open spec fn bytes_le(a: Seq<u8>, b: Seq<u8>) -> bool
    decreases a.len(),
{
    if a.len() == 0 {
        true
    } else if b.len() == 0 {
        false
    } else if a[0] != b[0] {
        a[0] < b[0]
    } else {
        bytes_le(a.drop_first(), b.drop_first())
    }
}

pub proof fn lemma_bytes_le_total(a: Seq<u8>, b: Seq<u8>)
    ensures
        bytes_le(a, b) || bytes_le(b, a),
    decreases a.len(),
{
    if a.len() > 0 && b.len() > 0 && a[0] == b[0] {
        lemma_bytes_le_total(a.drop_first(), b.drop_first());
    }
}

pub proof fn lemma_bytes_le_transitive(a: Seq<u8>, b: Seq<u8>, c: Seq<u8>)
    requires
        bytes_le(a, b),
        bytes_le(b, c),
    ensures
        bytes_le(a, c),
    decreases a.len(),
{
    if a.len() > 0 && a[0] == b[0] && b[0] == c[0] {
        lemma_bytes_le_transitive(a.drop_first(), b.drop_first(), c.drop_first());
    }
}

/// Texts that may each stand before the other are the same.
pub proof fn lemma_bytes_le_antisymmetric(a: Seq<u8>, b: Seq<u8>)
    requires
        bytes_le(a, b),
        bytes_le(b, a),
    ensures
        a == b,
    decreases a.len(),
{
    if a.len() > 0 {
        lemma_bytes_le_antisymmetric(a.drop_first(), b.drop_first());
        assert(a =~= seq![a[0]] + a.drop_first());
        assert(b =~= seq![b[0]] + b.drop_first());
    } else {
        assert(a =~= b);
    }
}

/// Whether the bytes of `a` come before those of `b`, or are the same.
pub fn bytes_not_after(a: &[u8], b: &[u8]) -> (out: bool)
    ensures
        out == bytes_le(a@, b@),
{
    let mut i: usize = 0;
    assert(a@.skip(0) =~= a@);
    assert(b@.skip(0) =~= b@);
    while i < a.len() && i < b.len() && a[i] == b[i]
        invariant
            i <= a@.len(),
            i <= b@.len(),
            bytes_le(a@, b@) == bytes_le(a@.skip(i as int), b@.skip(i as int)),
        decreases a@.len() - i,
    {
        assert(a@.skip(i as int).drop_first() =~= a@.skip(i as int + 1));
        assert(b@.skip(i as int).drop_first() =~= b@.skip(i as int + 1));
        i += 1;
    }
    if i >= a.len() {
        true
    } else if i >= b.len() {
        false
    } else {
        a[i] < b[i]
    }
}

/// The bytes of two texts are compared from the front: where they first differ the
/// smaller byte comes first, and a text comes before what it begins.
pub proof fn bytes_are_compared_from_the_front(
    common: Seq<u8>,
    a: u8,
    more: Seq<u8>,
    b: u8,
    rest: Seq<u8>,
)
    requires
        a < b,
    ensures
        bytes_le(common.push(a) + more, common.push(b) + rest),
        !bytes_le(common.push(b) + rest, common.push(a) + more),
        bytes_le(common, common.push(a) + more),
        !bytes_le(common.push(a) + more, common),
    decreases common.len(),
{
    let x = common.push(a) + more;
    let y = common.push(b) + rest;
    if common.len() == 0 {
        assert(x[0] == a);
        assert(y[0] == b);
    } else {
        let left = common.drop_first();
        assert(x[0] == common[0]);
        assert(y[0] == common[0]);
        assert(x.drop_first() =~= left.push(a) + more);
        assert(y.drop_first() =~= left.push(b) + rest);
        bytes_are_compared_from_the_front(left, a, more, b, rest);
    }
}

} // verus!
