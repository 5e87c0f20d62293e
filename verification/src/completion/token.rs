//! The token under the cursor.
//!
//! A line is split here and nowhere else, so that a trigger character can
//! select a backend and no backend does offset arithmetic.
use crate::text::{chars_of, is_white_space, lemma_word_len, lemma_word_len_is, white_space, word_len};
use core::ops::Range;
use vstd::prelude::*;
use vstd::string::*;
use vstd::utf8::{encode_scalar, encode_utf8};

verus! {

/// A token delimited by white space, split at its first character.
#[derive(Debug)]
pub struct Token {
    /// The first character: what selects the backend.
    pub trigger: char,
    /// The bytes after the trigger. The trigger always survives a replacement.
    pub range: Range<usize>,
}

/// The length of a text in bytes.
pub open spec fn byte_len(s: Seq<char>) -> nat {
    encode_utf8(s).len()
}

/// The largest number of characters, up to `k`, that take no more than `cursor`
/// bytes.
pub open spec fn chars_within(line: Seq<char>, cursor: nat, k: nat) -> nat
    decreases k,
{
    if k == 0 || byte_len(line.take(k as int)) <= cursor {
        k
    } else {
        chars_within(line, cursor, (k - 1) as nat)
    }
}

/// How many characters stand after the last white space.
pub open spec fn tail_len(s: Seq<char>) -> nat
    decreases s.len(),
{
    if s.len() == 0 || white_space(s.last()) {
        0
    } else {
        1 + tail_len(s.drop_last())
    }
}

/// Where the token under the cursor begins and ends, in characters. A cursor
/// within a character counts as before it. A cursor directly before a token is
/// not in it.
pub open spec fn token_bounds(line: Seq<char>, cursor: nat) -> Option<(int, int)> {
    let k = chars_within(line, cursor, line.len()) as int;
    let n = tail_len(line.take(k)) as int;
    if n == 0 {
        None
    } else {
        Some((k - n, k + word_len(line.skip(k))))
    }
}

/// The token under the cursor: its first character, and the bytes after it.
pub open spec fn token_at(line: Seq<char>, cursor: nat) -> Option<(char, nat, nat)> {
    match token_bounds(line, cursor) {
        None => None,
        Some((start, end)) => Some(
            (line[start], byte_len(line.take(start + 1)), byte_len(line.take(end))),
        ),
    }
}

/// The width of a character in bytes.
pub open spec fn char_width(c: char) -> nat {
    if (c as u32) < 0x80 {
        1
    } else if (c as u32) < 0x800 {
        2
    } else if (c as u32) < 0x10000 {
        3
    } else {
        4
    }
}

pub proof fn lemma_encode_concat(a: Seq<char>, b: Seq<char>)
    ensures
        encode_utf8(a + b) == encode_utf8(a) + encode_utf8(b),
    decreases a.len(),
{
    if a.len() == 0 {
        assert(a + b =~= b);
        assert(encode_utf8(a) + encode_utf8(b) =~= encode_utf8(b));
    } else {
        assert((a + b).drop_first() =~= a.drop_first() + b);
        lemma_encode_concat(a.drop_first(), b);
        assert(encode_utf8(a + b) =~= encode_utf8(a) + encode_utf8(b));
    }
}

proof fn lemma_byte_len_push(s: Seq<char>, c: char)
    ensures
        byte_len(s.push(c)) == byte_len(s) + char_width(c),
{
    lemma_encode_concat(s, seq![c]);
    assert(s.push(c) =~= s + seq![c]);
    assert(seq![c].drop_first() =~= Seq::<char>::empty());
    assert(encode_utf8(Seq::<char>::empty()).len() == 0);
    assert(encode_utf8(seq![c]) =~= encode_scalar(c as u32));
}

proof fn lemma_byte_len_take(s: Seq<char>, i: int, j: int)
    requires
        0 <= i <= j <= s.len(),
    ensures
        byte_len(s.take(i)) <= byte_len(s.take(j)),
        i < j ==> byte_len(s.take(i)) < byte_len(s.take(j)),
    decreases j - i,
{
    if i < j {
        lemma_byte_len_take(s, i, j - 1);
        lemma_byte_len_push(s.take(j - 1), s[j - 1]);
        assert(s.take(j) =~= s.take(j - 1).push(s[j - 1]));
    }
}

fn width(c: char) -> (out: usize)
    ensures
        out == char_width(c),
{
    let u: u32 = c as u32;
    if u < 0x80 {
        1
    } else if u < 0x800 {
        2
    } else if u < 0x10000 {
        3
    } else {
        4
    }
}

/// Where each character of the line begins, in bytes, and the length after all.
fn offsets(line: &str, chars: &Vec<char>) -> (out: Vec<usize>)
    requires
        chars@ == line@,
    ensures
        out@.len() == line@.len() + 1,
        forall|i: int| 0 <= i <= line@.len() ==> #[trigger] out@[i] == byte_len(line@.take(i)),
{
    let size = line.as_bytes().len();
    let mut out: Vec<usize> = Vec::new();
    let mut at: usize = 0;
    out.push(0);
    let mut i: usize = 0;
    proof {
        assert(line@.take(0) =~= Seq::<char>::empty());
        assert(byte_len(line@.take(0)) == 0);
        assert(line@.take(line@.len() as int) =~= line@);
    }
    while i < chars.len()
        invariant
            i <= chars@.len(),
            chars@ == line@,
            size == byte_len(line@),
            line@.take(line@.len() as int) == line@,
            at == byte_len(line@.take(i as int)),
            out@.len() == i + 1,
            forall|k: int| 0 <= k <= i ==> #[trigger] out@[k] == byte_len(line@.take(k)),
        decreases chars@.len() - i,
    {
        proof {
            lemma_byte_len_push(line@.take(i as int), line@[i as int]);
            assert(line@.take(i as int + 1) =~= line@.take(i as int).push(line@[i as int]));
            lemma_byte_len_take(line@, i as int + 1, line@.len() as int);
        }
        at = at + width(chars[i]);
        out.push(at);
        i += 1;
    }
    out
}

/// The token under `cursor`, a byte offset, or `None` when the cursor is not
/// inside one.
pub fn at(line: &str, cursor: usize) -> (out: Option<Token>)
    ensures
        match out {
            Some(token) => token_at(line@, cursor as nat) == Some(
                (token.trigger, token.range.start as nat, token.range.end as nat),
            ),
            None => token_at(line@, cursor as nat) is None,
        },
{
    let chars = chars_of(line);
    let places = offsets(line, &chars);
    let mut k: usize = chars.len();
    while k > 0 && places[k] > cursor
        invariant
            k <= chars@.len(),
            chars@ == line@,
            places@.len() == line@.len() + 1,
            forall|i: int|
                0 <= i <= line@.len() ==> #[trigger] places@[i] == byte_len(line@.take(i)),
            chars_within(line@, cursor as nat, line@.len()) == chars_within(
                line@,
                cursor as nat,
                k as nat,
            ),
        decreases k,
    {
        k -= 1;
    }
    let ghost head = line@.take(k as int);
    let mut start: usize = k;
    assert(head.take(start as int) =~= head);
    while start > 0 && !is_white_space(chars[start - 1])
        invariant
            start <= k <= chars@.len(),
            chars@ == line@,
            head == line@.take(k as int),
            tail_len(head) == (k - start) + tail_len(head.take(start as int)),
        decreases start,
    {
        assert(head.take(start as int).last() == chars@[start - 1]);
        assert(head.take(start as int).drop_last() =~= head.take(start - 1));
        start -= 1;
    }
    proof {
        if start > 0 {
            assert(head.take(start as int).last() == chars@[start - 1]);
        }
        assert(tail_len(head) == k - start);
    }
    if start == k {
        return None;
    }
    let ghost rest = line@.skip(k as int);
    let mut end: usize = k;
    while end < chars.len() && !is_white_space(chars[end])
        invariant
            k <= end <= chars@.len(),
            chars@ == line@,
            rest == line@.skip(k as int),
            forall|i: int| 0 <= i < end - k ==> !white_space(#[trigger] rest[i]),
        decreases chars@.len() - end,
    {
        assert(rest[end - k] == chars@[end as int]);
        end += 1;
    }
    proof {
        if end < chars@.len() {
            assert(rest[end - k] == chars@[end as int]);
        }
        lemma_word_len_is(rest, end - k);
    }
    Some(Token { trigger: chars[start], range: places[start + 1]..places[end] })
}

proof fn lemma_tail_len(s: Seq<char>)
    ensures
        tail_len(s) <= s.len(),
        forall|i: int| s.len() - tail_len(s) <= i < s.len() ==> !white_space(#[trigger] s[i]),
        tail_len(s) < s.len() ==> white_space(s[s.len() - tail_len(s) - 1]),
    decreases s.len(),
{
    if s.len() > 0 && !white_space(s.last()) {
        let t = s.drop_last();
        lemma_tail_len(t);
        assert forall|i: int| s.len() - tail_len(s) <= i < s.len() implies !white_space(
            #[trigger] s[i],
        ) by {
            if i < t.len() {
                assert(t[i] == s[i]);
            }
        }
    }
}

/// A token is a longest run without white space, and the cursor lies in it,
/// after its first character.
pub proof fn a_token_is_a_whole_word(line: Seq<char>, cursor: nat)
    requires
        token_bounds(line, cursor) is Some,
    ensures
        ({
            let (start, end) = token_bounds(line, cursor)->0;
            let k = chars_within(line, cursor, line.len());
            &&& 0 <= start < k <= end <= line.len()
            &&& forall|i: int| start <= i < end ==> !white_space(#[trigger] line[i])
            &&& start > 0 ==> white_space(line[start - 1])
            &&& end < line.len() ==> white_space(line[end])
        }),
{
    let k = chars_within(line, cursor, line.len()) as int;
    lemma_chars_within(line, cursor, line.len());
    let head = line.take(k);
    let rest = line.skip(k);
    lemma_tail_len(head);
    lemma_word_len(rest);
    let (start, end) = token_bounds(line, cursor)->0;
    assert forall|i: int| start <= i < end implies !white_space(#[trigger] line[i]) by {
        if i < k {
            assert(head[i] == line[i]);
        } else {
            assert(rest[i - k] == line[i]);
        }
    }
    if start > 0 {
        assert(head[start - 1] == line[start - 1]);
    }
    if end < line.len() {
        assert(rest[end - k] == line[end]);
    }
}

proof fn lemma_chars_within(line: Seq<char>, cursor: nat, k: nat)
    requires
        k <= line.len(),
    ensures
        chars_within(line, cursor, k) <= k,
    decreases k,
{
    if k > 0 && byte_len(line.take(k as int)) > cursor {
        lemma_chars_within(line, cursor, (k - 1) as nat);
    }
}

/// The bytes of a token lie within the line and leave its first character out,
/// whatever that character's width is.
pub proof fn a_tokens_range_leaves_the_trigger_out(line: Seq<char>, cursor: nat)
    requires
        token_at(line, cursor) is Some,
    ensures
        ({
            let (trigger, from, to) = token_at(line, cursor)->0;
            let start = (token_bounds(line, cursor)->0).0;
            &&& from == byte_len(line.take(start)) + char_width(trigger)
            &&& from <= to <= byte_len(line)
        }),
{
    a_token_is_a_whole_word(line, cursor);
    let (start, end) = token_bounds(line, cursor)->0;
    lemma_byte_len_push(line.take(start), line[start]);
    assert(line.take(start + 1) =~= line.take(start).push(line[start]));
    lemma_byte_len_take(line, start + 1, end);
    lemma_byte_len_take(line, end, line.len() as int);
    assert(line.take(line.len() as int) =~= line);
}

proof fn lemma_chars_before(line: Seq<char>, k: int, n: int)
    requires
        0 <= k <= n <= line.len(),
    ensures
        chars_within(line, byte_len(line.take(k)), n as nat) == k,
    decreases n,
{
    if k < n {
        lemma_byte_len_take(line, k, n - 1);
        lemma_byte_len_push(line.take(n - 1), line[n - 1]);
        assert(line.take(n) =~= line.take(n - 1).push(line[n - 1]));
        lemma_chars_before(line, k, n - 1);
    }
}

/// The token under the cursor is the word around it, whatever stands before and after
/// that, and wherever in it the cursor is.
pub proof fn the_word_around_the_cursor_is_the_token(
    before: Seq<char>,
    trigger: char,
    typed: Seq<char>,
    rest: Seq<char>,
    after: Seq<char>,
)
    requires
        before.len() > 0 ==> white_space(before.last()),
        !white_space(trigger),
        forall|i: int| 0 <= i < typed.len() ==> !white_space(#[trigger] typed[i]),
        forall|i: int| 0 <= i < rest.len() ==> !white_space(#[trigger] rest[i]),
        after.len() > 0 ==> white_space(after[0]),
    ensures
        token_at(
            before.push(trigger) + typed + rest + after,
            byte_len(before.push(trigger) + typed),
        ) == Some(
            (
                trigger,
                byte_len(before.push(trigger)),
                byte_len(before.push(trigger) + typed + rest),
            ),
        ),
{
    let head = before.push(trigger) + typed;
    let line = head + rest + after;
    let k = head.len() as int;
    assert(line.take(k) =~= head);
    lemma_chars_before(line, k, line.len() as int);
    let n = tail_len(head) as int;
    lemma_tail_len(head);
    let start = before.len() as int;
    assert(head[start] == trigger);
    assert forall|i: int| start <= i < k implies !white_space(#[trigger] head[i]) by {
        if i > start {
            assert(head[i] == typed[i - start - 1]);
        }
    }
    if start > 0 {
        assert(head[start - 1] == before.last());
    }
    assert(k - n == start);
    let tail = line.skip(k);
    lemma_word_len(tail);
    let m = word_len(tail) as int;
    assert(tail =~= rest + after);
    assert forall|i: int| 0 <= i < rest.len() implies !white_space(#[trigger] tail[i]) by {
        assert(tail[i] == rest[i]);
    }
    if after.len() > 0 {
        assert(tail[rest.len() as int] == after[0]);
    }
    assert(m == rest.len());
    assert(line.take(start + 1) =~= before.push(trigger));
    assert(line.take(k + m) =~= head + rest);
    assert(line[start] == trigger);
}

/// There is no token where white space, or nothing, stands before the cursor.
pub proof fn there_is_no_token_after_white_space(before: Seq<char>, after: Seq<char>)
    requires
        before.len() > 0 ==> white_space(before.last()),
    ensures
        token_at(before + after, byte_len(before)) is None,
{
    let line = before + after;
    assert(line.take(before.len() as int) =~= before);
    lemma_chars_before(line, before.len() as int, line.len() as int);
}

} // verus!
