//! Moving a selection through a list.
use vstd::prelude::*;

verus! {

/// A place after a move, held within a list of `len` entries.
pub open spec fn clamped(selected: int, delta: int, len: int) -> int {
    let moved = selected + delta;
    if moved < 0 {
        0
    } else if moved > len - 1 {
        len - 1
    } else {
        moved
    }
}

/// Move a selection, but not past either end of the list.
pub fn move_within(selected: usize, delta: isize, len: usize) -> (out: usize)
    requires
        len > 0,
    ensures
        out == clamped(selected as int, delta as int, len as int),
        out < len,
{
    let last: usize = len - 1;
    let moved: usize = if delta < 0 {
        let back: usize = (-(delta + 1)) as usize + 1;
        if selected < back {
            0
        } else {
            selected - back
        }
    } else {
        selected.saturating_add(delta as usize)
    };
    if moved > last {
        last
    } else {
        moved
    }
}

/// A place after a move around a ring of `len` entries.
pub open spec fn wrapped(selected: int, delta: int, len: int) -> int {
    (selected + delta) % len
}

/// Move a selection one step forward around a ring.
pub fn step_forward(selected: usize, len: usize) -> (out: usize)
    requires
        selected < len,
    ensures
        out == wrapped(selected as int, 1, len as int),
        out < len,
{
    if selected + 1 == len {
        assert(len as int % len as int == 0) by (nonlinear_arith)
            requires
                len > 0,
        ;
        0
    } else {
        assert((selected as int + 1) % (len as int) == selected as int + 1) by (nonlinear_arith)
            requires
                0 <= selected as int + 1 < len as int,
        ;
        selected + 1
    }
}

/// Move a selection one step back around a ring.
pub fn step_back(selected: usize, len: usize) -> (out: usize)
    requires
        selected < len,
    ensures
        out == wrapped(selected as int, -1, len as int),
        out < len,
{
    if selected == 0 {
        assert((-1int) % (len as int) == len as int - 1) by (nonlinear_arith)
            requires
                len > 0,
        ;
        len - 1
    } else {
        assert((selected as int - 1) % (len as int) == selected as int - 1) by (nonlinear_arith)
            requires
                0 <= selected as int - 1 < len as int,
        ;
        selected - 1
    }
}

/// A step forward around a ring is undone by a step back, and the other way
/// round.
pub proof fn steps_undo_each_other(selected: int, len: int)
    requires
        0 <= selected < len,
    ensures
        wrapped(wrapped(selected, 1, len), -1, len) == selected,
        wrapped(wrapped(selected, -1, len), 1, len) == selected,
{
    lemma_ring(selected, len);
    if selected + 1 < len {
        lemma_ring(selected + 1, len);
    } else {
        lemma_ring(0, len);
    }
    if selected > 0 {
        lemma_ring(selected - 1, len);
    } else {
        lemma_ring(len - 1, len);
    }
}

proof fn lemma_ring(selected: int, len: int)
    requires
        0 <= selected < len,
    ensures
        wrapped(selected, 1, len) == if selected + 1 == len {
            0
        } else {
            selected + 1
        },
        wrapped(selected, -1, len) == if selected == 0 {
            len - 1
        } else {
            selected - 1
        },
{
    if selected + 1 == len {
        assert(len % len == 0) by (nonlinear_arith)
            requires
                len > 0,
        ;
    } else {
        assert((selected + 1) % len == selected + 1) by (nonlinear_arith)
            requires
                0 <= selected + 1 < len,
        ;
    }
    if selected == 0 {
        assert((-1int) % len == len - 1) by (nonlinear_arith)
            requires
                len > 0,
        ;
    } else {
        assert((selected - 1) % len == selected - 1) by (nonlinear_arith)
            requires
                0 <= selected - 1 < len,
        ;
    }
}

/// A selection moves by as many entries as were asked for, and stops at the ends.
pub proof fn selections_stop_at_the_ends(selected: int, delta: int, len: int)
    requires
        0 <= selected < len,
    ensures
        0 <= clamped(selected, delta, len) < len,
        0 <= selected + delta < len ==> clamped(selected, delta, len) == selected + delta,
        selected + delta < 0 ==> clamped(selected, delta, len) == 0,
        selected + delta >= len ==> clamped(selected, delta, len) == len - 1,
{
}

/// Around a ring each entry is followed by the next and the last by the first.
pub proof fn rings_close(selected: int, len: int)
    requires
        0 <= selected < len,
    ensures
        selected + 1 < len ==> wrapped(selected, 1, len) == selected + 1,
        wrapped(len - 1, 1, len) == 0,
        selected > 0 ==> wrapped(selected, -1, len) == selected - 1,
        wrapped(0, -1, len) == len - 1,
{
    lemma_ring(selected, len);
    lemma_ring(len - 1, len);
    lemma_ring(0, len);
}

} // verus!
