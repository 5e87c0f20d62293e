//! Text as sequences of characters.
//!
//! Contracts speak of a string by its view, a `Seq<char>`. The functions here
//! take strings apart and put them together with exactly stated results.
use vstd::prelude::*;
use vstd::string::*;
use vstd::utf8::*;

verus! {

/// `String::push` appends one character.
pub assume_specification[ String::push ](s: &mut String, c: char)
    ensures
        final(s)@ == old(s)@.push(c),
;

/// `String::push_str` appends the characters of another string.
pub assume_specification[ String::push_str ](s: &mut String, other: &str)
    ensures
        final(s)@ == old(s)@ + other@,
;

/// What `{:?}` makes of a string: the string in quotes, with what cannot be
/// shown in it escaped.
pub uninterp spec fn debug_text(s: Seq<char>) -> Seq<char>;

/// `format!` with `{:?}` for a `str`.
#[verifier::external_body]
pub(crate) fn quoted(s: &str) -> (out: String)
    ensures
        out@ == debug_text(s@),
{
    format!("{s:?}")
}

/// The views of a sequence of strings.
pub open spec fn texts(strings: Seq<String>) -> Seq<Seq<char>> {
    strings.map_values(|s: String| s@)
}

/// The view of an optional string.
pub open spec fn opt_text(s: Option<String>) -> Option<Seq<char>> {
    match s {
        Some(s) => Some(s@),
        None => None,
    }
}

/// The characters of `s`, one by one.
pub fn chars_of(s: &str) -> (out: Vec<char>)
    ensures
        out@ == s@,
{
    let mut out: Vec<char> = Vec::new();
    for c in it: s.chars()
        invariant
            out@ == it.seq().take(it.index() as int),
            it.seq() == s@,
    {
        out.push(c);
        assert(it.seq().take(it.index() as int + 1) =~= it.seq().take(it.index() as int).push(
            it.seq()[it.index() as int],
        ));
    }
    assert(s@.take(s@.len() as int) =~= s@);
    out
}

/// The string made of `chars[from..to]`.
pub fn string_of(chars: &Vec<char>, from: usize, to: usize) -> (out: String)
    requires
        from <= to <= chars@.len(),
    ensures
        out@ == chars@.subrange(from as int, to as int),
{
    let mut out = String::new();
    let mut i: usize = from;
    while i < to
        invariant
            from <= i <= to <= chars@.len(),
            out@ == chars@.subrange(from as int, i as int),
        decreases to - i,
    {
        out.push(chars[i]);
        assert(chars@.subrange(from as int, i as int + 1) =~= chars@.subrange(
            from as int,
            i as int,
        ).push(chars@[i as int]));
        i += 1;
    }
    out
}

/// A copy of `s` as an owned string.
pub fn owned(s: &str) -> (out: String)
    ensures
        out@ == s@,
{
    s.to_owned()
}

/// Whether two strings hold the same characters.
pub fn same(a: &str, b: &str) -> (out: bool)
    ensures
        out == (a@ == b@),
{
    let x = a.as_bytes();
    let y = b.as_bytes();
    proof {
        encode_utf8_decode_utf8(a@);
        encode_utf8_decode_utf8(b@);
    }
    if x.len() != y.len() {
        return false;
    }
    let mut i: usize = 0;
    while i < x.len()
        invariant
            i <= x@.len() == y@.len(),
            x@ == encode_utf8(a@),
            y@ == encode_utf8(b@),
            forall|j: int| 0 <= j < i ==> x@[j] == y@[j],
        decreases x@.len() - i,
    {
        if x[i] != y[i] {
            return false;
        }
        i += 1;
    }
    assert(x@ =~= y@);
    true
}

/// Two strings, one after the other.
pub fn joined(a: &str, b: &str) -> (out: String)
    ensures
        out@ == a@ + b@,
{
    let mut out = String::new();
    out.push_str(a);
    out.push_str(b);
    assert(Seq::<char>::empty() + a@ =~= a@);
    out
}

/// Three strings, one after the other.
pub fn joined3(a: &str, b: &str, c: &str) -> (out: String)
    ensures
        out@ == a@ + b@ + c@,
{
    let mut out = joined(a, b);
    out.push_str(c);
    out
}

// ---------------------------------------------------------------------------
// White space
// ---------------------------------------------------------------------------

/// The characters with the Unicode property `White_Space`.
pub open spec fn white_space(c: char) -> bool {
    ||| 0x09 <= c as u32 <= 0x0d
    ||| c as u32 == 0x20
    ||| c as u32 == 0x85
    ||| c as u32 == 0xa0
    ||| c as u32 == 0x1680
    ||| 0x2000 <= c as u32 <= 0x200a
    ||| c as u32 == 0x2028
    ||| c as u32 == 0x2029
    ||| c as u32 == 0x202f
    ||| c as u32 == 0x205f
    ||| c as u32 == 0x3000
}

/// Whether `c` has the Unicode property `White_Space`.
pub fn is_white_space(c: char) -> (out: bool)
    ensures
        out == white_space(c),
{
    let u: u32 = c as u32;
    (0x09 <= u && u <= 0x0d) || u == 0x20 || u == 0x85 || u == 0xa0 || u == 0x1680 || (0x2000 <= u
        && u <= 0x200a) || u == 0x2028 || u == 0x2029 || u == 0x202f || u == 0x205f || u == 0x3000
}

/// `s` without the white space that it begins with.
pub open spec fn trim_start(s: Seq<char>) -> Seq<char>
    decreases s.len(),
{
    if s.len() > 0 && white_space(s[0]) {
        trim_start(s.drop_first())
    } else {
        s
    }
}

/// `s` without the white space that it ends with.
pub open spec fn trim_end(s: Seq<char>) -> Seq<char>
    decreases s.len(),
{
    if s.len() > 0 && white_space(s.last()) {
        trim_end(s.drop_last())
    } else {
        s
    }
}

/// `s` without white space at either end.
pub open spec fn trimmed(s: Seq<char>) -> Seq<char> {
    trim_end(trim_start(s))
}

/// A string of nothing but white space.
pub open spec fn blank(s: Seq<char>) -> bool {
    forall|i: int| 0 <= i < s.len() ==> white_space(#[trigger] s[i])
}

pub proof fn lemma_trim_start_skips(s: Seq<char>, k: int)
    requires
        0 <= k <= s.len(),
        forall|i: int| 0 <= i < k ==> white_space(#[trigger] s[i]),
    ensures
        trim_start(s) == trim_start(s.skip(k)),
    decreases k,
{
    if k > 0 {
        assert(s.drop_first().skip(k - 1) =~= s.skip(k));
        lemma_trim_start_skips(s.drop_first(), k - 1);
    } else {
        assert(s.skip(0) =~= s);
    }
}

pub proof fn lemma_trim_end_drops(s: Seq<char>, k: int)
    requires
        0 <= k <= s.len(),
        forall|i: int| k <= i < s.len() ==> white_space(#[trigger] s[i]),
    ensures
        trim_end(s) == trim_end(s.take(k)),
    decreases s.len() - k,
{
    if k < s.len() {
        assert(s.drop_last().take(k) =~= s.take(k));
        lemma_trim_end_drops(s.drop_last(), k);
    } else {
        assert(s.take(k) =~= s);
    }
}

/// Trimming leaves nothing exactly where there was nothing but white space.
pub proof fn lemma_blank_trims_to_nothing(s: Seq<char>)
    ensures
        blank(s) <==> trimmed(s).len() == 0,
{
    let (i, j) = trim_bounds(s);
    lemma_trim_bounds(s);
    if blank(s) {
        lemma_trim_start_skips(s, s.len() as int);
        assert(s.skip(s.len() as int) =~= Seq::<char>::empty());
    } else {
        let k = choose|k: int| 0 <= k < s.len() && !white_space(#[trigger] s[k]);
        assert(i <= k);
        assert(k < j);
    }
}

/// It does not matter which end is trimmed first.
pub proof fn lemma_trims_commute(s: Seq<char>)
    ensures
        trim_start(trim_end(s)) == trimmed(s),
{
    let t = trim_start(s);
    let a = s.len() - t.len();
    lemma_trim_start_is_suffix(s);
    lemma_trim_end_is_prefix(t);
    let u = trim_end(t);
    let b = a + u.len();
    if u.len() > 0 {
        assert forall|i: int| b <= i < s.len() implies white_space(#[trigger] s[i]) by {
            assert(t[i - a] == s[i]);
        }
        lemma_trim_end_drops(s, b);
        let head = s.take(b);
        assert(head.last() == u.last());
        assert(trim_end(s) == head);
        assert forall|i: int| 0 <= i < a implies white_space(#[trigger] head[i]) by {
            assert(head[i] == s[i]);
        }
        lemma_trim_start_skips(head, a);
        assert(head.skip(a) =~= u);
        assert(u[0] == t[0]);
    } else {
        assert forall|i: int| 0 <= i < s.len() implies white_space(#[trigger] s[i]) by {
            if i >= a {
                assert(t[i - a] == s[i]);
            }
        }
        lemma_trim_end_drops(s, 0);
        assert(s.take(0) =~= Seq::<char>::empty());
        assert(trim_end(s) =~= Seq::<char>::empty());
        assert(u =~= Seq::<char>::empty());
    }
}

/// What is trimmed once stays as it is.
pub proof fn lemma_trim_twice(s: Seq<char>)
    ensures
        trimmed(trimmed(s)) == trimmed(s),
{
    let t = trim_start(s);
    lemma_trim_start_is_suffix(s);
    lemma_trim_end_is_prefix(t);
    let u = trim_end(t);
    if u.len() > 0 {
        assert(u[0] == t[0]);
    }
}

/// Where the trimmed part of `s` begins and ends.
spec fn trim_bounds(s: Seq<char>) -> (int, int) {
    let i = s.len() - trim_start(s).len();
    (i, i + trimmed(s).len())
}

pub proof fn lemma_trim_start_is_suffix(s: Seq<char>)
    ensures
        trim_start(s).len() <= s.len(),
        trim_start(s) == s.skip(s.len() - trim_start(s).len()),
        forall|i: int|
            0 <= i < s.len() - trim_start(s).len() ==> white_space(#[trigger] s[i]),
        trim_start(s).len() > 0 ==> !white_space(trim_start(s)[0]),
    decreases s.len(),
{
    if s.len() > 0 && white_space(s[0]) {
        let t = s.drop_first();
        lemma_trim_start_is_suffix(t);
        let k = t.len() - trim_start(t).len();
        assert(t.skip(k) =~= s.skip(k + 1));
        assert forall|i: int| 0 <= i < k + 1 implies white_space(#[trigger] s[i]) by {
            if i > 0 {
                assert(t[i - 1] == s[i]);
            }
        }
    } else {
        assert(s.skip(0) =~= s);
    }
}

pub proof fn lemma_trim_end_is_prefix(s: Seq<char>)
    ensures
        trim_end(s).len() <= s.len(),
        trim_end(s) == s.take(trim_end(s).len() as int),
        forall|i: int| trim_end(s).len() <= i < s.len() ==> white_space(#[trigger] s[i]),
        trim_end(s).len() > 0 ==> !white_space(trim_end(s).last()),
    decreases s.len(),
{
    if s.len() > 0 && white_space(s.last()) {
        let t = s.drop_last();
        lemma_trim_end_is_prefix(t);
        let k = trim_end(t).len() as int;
        assert(t.take(k) =~= s.take(k));
        assert forall|i: int| k <= i < s.len() implies white_space(#[trigger] s[i]) by {
            if i < t.len() {
                assert(t[i] == s[i]);
            }
        }
    } else {
        assert(s.take(s.len() as int) =~= s);
    }
}

proof fn lemma_trim_bounds(s: Seq<char>)
    ensures
        0 <= trim_bounds(s).0 <= trim_bounds(s).1 <= s.len(),
        trimmed(s) == s.subrange(trim_bounds(s).0, trim_bounds(s).1),
        forall|i: int| 0 <= i < trim_bounds(s).0 ==> white_space(#[trigger] s[i]),
        forall|i: int| trim_bounds(s).1 <= i < s.len() ==> white_space(#[trigger] s[i]),
{
    let (a, b) = trim_bounds(s);
    lemma_trim_start_is_suffix(s);
    let t = trim_start(s);
    lemma_trim_end_is_prefix(t);
    assert(trimmed(s) =~= s.subrange(a, b));
    assert forall|i: int| b <= i < s.len() implies white_space(#[trigger] s[i]) by {
        assert(t[i - a] == s[i]);
    }
}

/// `s` without white space at either end.
pub fn trim(s: &str) -> (out: String)
    ensures
        out@ == trimmed(s@),
{
    let chars = chars_of(s);
    let mut i: usize = 0;
    while i < chars.len() && is_white_space(chars[i])
        invariant
            i <= chars@.len(),
            forall|k: int| 0 <= k < i ==> white_space(#[trigger] chars@[k]),
        decreases chars@.len() - i,
    {
        i += 1;
    }
    proof {
        lemma_trim_start_skips(s@, i as int);
    }
    let ghost rest = s@.skip(i as int);
    let mut j: usize = chars.len();
    while j > i && is_white_space(chars[j - 1])
        invariant
            i <= j <= chars@.len(),
            forall|k: int| j <= k < chars@.len() ==> white_space(#[trigger] chars@[k]),
        decreases j,
    {
        j -= 1;
    }
    proof {
        lemma_trim_end_drops(rest, j - i);
        assert(rest.take(j - i) =~= s@.subrange(i as int, j as int));
    }
    string_of(&chars, i, j)
}

/// Whether `s` holds nothing but white space.
pub fn is_blank(s: &str) -> (out: bool)
    ensures
        out == blank(s@),
        out == (trimmed(s@).len() == 0),
{
    proof {
        lemma_blank_trims_to_nothing(s@);
    }
    let chars = chars_of(s);
    let mut i: usize = 0;
    while i < chars.len()
        invariant
            i <= chars@.len(),
            chars@ == s@,
            blank(s@) <==> trimmed(s@).len() == 0,
            forall|k: int| 0 <= k < i ==> white_space(#[trigger] chars@[k]),
        decreases chars@.len() - i,
    {
        if !is_white_space(chars[i]) {
            return false;
        }
        i += 1;
    }
    true
}

// ---------------------------------------------------------------------------
// Words
// ---------------------------------------------------------------------------

/// How many characters `s` holds before its first white space.
pub open spec fn word_len(s: Seq<char>) -> nat
    decreases s.len(),
{
    if s.len() == 0 || white_space(s[0]) {
        0
    } else {
        1 + word_len(s.drop_first())
    }
}

pub proof fn lemma_word_len(s: Seq<char>)
    ensures
        word_len(s) <= s.len(),
        forall|i: int| 0 <= i < word_len(s) ==> !white_space(#[trigger] s[i]),
        word_len(s) < s.len() ==> white_space(s[word_len(s) as int]),
    decreases s.len(),
{
    if s.len() > 0 && !white_space(s[0]) {
        let t = s.drop_first();
        lemma_word_len(t);
        assert forall|i: int| 0 <= i < word_len(s) implies !white_space(#[trigger] s[i]) by {
            if i > 0 {
                assert(t[i - 1] == s[i]);
            }
        }
    }
}

pub proof fn lemma_word_len_is(s: Seq<char>, n: int)
    requires
        0 <= n <= s.len(),
        forall|i: int| 0 <= i < n ==> !white_space(#[trigger] s[i]),
        n < s.len() ==> white_space(s[n]),
    ensures
        word_len(s) == n,
{
    lemma_word_len(s);
    let m = word_len(s) as int;
    if m < n {
        assert(!white_space(s[m]));
    }
}

/// The longest runs of `s` that hold no white space, in order.
pub open spec fn words(s: Seq<char>) -> Seq<Seq<char>>
    decreases s.len(),
    via words_decreases
{
    if s.len() == 0 {
        Seq::empty()
    } else if white_space(s[0]) {
        words(s.drop_first())
    } else {
        seq![s.take(word_len(s) as int)] + words(s.skip(word_len(s) as int))
    }
}

#[via_fn]
proof fn words_decreases(s: Seq<char>) {
    if s.len() > 0 {
        lemma_word_len(s);
    }
}

/// The words of `s`: what stands between its white space.
pub fn split_words(s: &str) -> (out: Vec<String>)
    ensures
        texts(out@) == words(s@),
{
    let chars = chars_of(s);
    let mut out: Vec<String> = Vec::new();
    let mut i: usize = 0;
    assert(s@.skip(0) =~= s@);
    assert(texts(out@) + words(s@) =~= words(s@));
    while i < chars.len()
        invariant
            i <= chars@.len(),
            chars@ == s@,
            texts(out@) + words(s@.skip(i as int)) == words(s@),
        decreases chars@.len() - i,
    {
        let ghost rest = s@.skip(i as int);
        if is_white_space(chars[i]) {
            assert(rest.drop_first() =~= s@.skip(i as int + 1));
            i += 1;
        } else {
            let start: usize = i;
            let ghost before = texts(out@);
            while i < chars.len() && !is_white_space(chars[i])
                invariant
                    start <= i <= chars@.len(),
                    chars@ == s@,
                    start < chars@.len(),
                    !white_space(chars@[start as int]),
                    forall|k: int| start <= k < i ==> !white_space(#[trigger] chars@[k]),
                decreases chars@.len() - i,
            {
                i += 1;
            }
            let ghost n = i - start;
            proof {
                assert forall|k: int| 0 <= k < n implies !white_space(#[trigger] rest[k]) by {
                    assert(rest[k] == chars@[start + k]);
                }
                lemma_word_len_is(rest, n);
                assert(rest.take(n) =~= s@.subrange(start as int, i as int));
                assert(rest.skip(n) =~= s@.skip(i as int));
            }
            out.push(string_of(&chars, start, i));
            proof {
                assert(texts(out@) =~= before.push(rest.take(n)));
                assert(before.push(rest.take(n)) + words(rest.skip(n)) =~= before + (seq![
                    rest.take(n),
                ] + words(rest.skip(n))));
            }
        }
    }
    assert(s@.skip(s@.len() as int) =~= Seq::<char>::empty());
    assert(texts(out@) + Seq::<Seq<char>>::empty() =~= texts(out@));
    out
}

// ---------------------------------------------------------------------------
// Lines
// ---------------------------------------------------------------------------

/// Where `c` first stands in `s`; the length of `s` where it does not.
pub open spec fn first_at(s: Seq<char>, c: char) -> nat
    decreases s.len(),
{
    if s.len() == 0 || s[0] == c {
        0
    } else {
        1 + first_at(s.drop_first(), c)
    }
}

pub proof fn lemma_first_at(s: Seq<char>, c: char)
    ensures
        first_at(s, c) <= s.len(),
        forall|i: int| 0 <= i < first_at(s, c) ==> #[trigger] s[i] != c,
        first_at(s, c) < s.len() ==> s[first_at(s, c) as int] == c,
    decreases s.len(),
{
    if s.len() > 0 && s[0] != c {
        let t = s.drop_first();
        lemma_first_at(t, c);
        assert forall|i: int| 0 <= i < first_at(s, c) implies #[trigger] s[i] != c by {
            if i > 0 {
                assert(t[i - 1] == s[i]);
            }
        }
    }
}

pub proof fn lemma_first_at_is(s: Seq<char>, c: char, n: int)
    requires
        0 <= n <= s.len(),
        forall|i: int| 0 <= i < n ==> #[trigger] s[i] != c,
        n < s.len() ==> s[n] == c,
    ensures
        first_at(s, c) == n,
{
    lemma_first_at(s, c);
    let m = first_at(s, c) as int;
    if m < n {
        assert(s[m] != c);
    } else if n < m {
        assert(s[n] != c);
    }
}

/// Where `c` first stands in `chars[from..]`; `chars.len()` where it does not.
pub fn find_char(chars: &Vec<char>, from: usize, c: char) -> (at: usize)
    requires
        from <= chars@.len(),
    ensures
        from <= at <= chars@.len(),
        at == from + first_at(chars@.skip(from as int), c),
        forall|k: int| from <= k < at ==> chars@[k] != c,
        at < chars@.len() ==> chars@[at as int] == c,
{
    let mut i: usize = from;
    while i < chars.len() && chars[i] != c
        invariant
            from <= i <= chars@.len(),
            forall|k: int| from <= k < i ==> chars@[k] != c,
        decreases chars@.len() - i,
    {
        i += 1;
    }
    proof {
        let rest = chars@.skip(from as int);
        assert forall|k: int| 0 <= k < i - from implies #[trigger] rest[k] != c by {
            assert(rest[k] == chars@[from + k]);
        }
        lemma_first_at_is(rest, c, i - from);
    }
    i
}

/// `s` without one carriage return at its end.
pub open spec fn without_cr(s: Seq<char>) -> Seq<char> {
    if s.len() > 0 && s.last() == '\r' {
        s.drop_last()
    } else {
        s
    }
}

/// The lines of `s`. A line ends at a line feed, together with a carriage
/// return right before it; the last line may lack its line feed.
pub open spec fn lines(s: Seq<char>) -> Seq<Seq<char>>
    decreases s.len(),
    via lines_decreases
{
    let n = first_at(s, '\n') as int;
    if s.len() == 0 {
        Seq::empty()
    } else if n < s.len() {
        seq![without_cr(s.take(n))] + lines(s.skip(n + 1))
    } else {
        seq![s]
    }
}

#[via_fn]
proof fn lines_decreases(s: Seq<char>) {
    lemma_first_at(s, '\n');
}

/// The lines of `s`, without their line ends.
pub fn split_lines(s: &str) -> (out: Vec<String>)
    ensures
        texts(out@) == lines(s@),
{
    let chars = chars_of(s);
    let mut out: Vec<String> = Vec::new();
    let mut i: usize = 0;
    assert(s@.skip(0) =~= s@);
    assert(texts(out@) + lines(s@) =~= lines(s@));
    while i < chars.len()
        invariant
            i <= chars@.len(),
            chars@ == s@,
            texts(out@) + lines(s@.skip(i as int)) == lines(s@),
        decreases chars@.len() - i,
    {
        let ghost rest = s@.skip(i as int);
        let ghost before = texts(out@);
        let at = find_char(&chars, i, '\n');
        if at < chars.len() {
            let end: usize = if at > i && chars[at - 1] == '\r' {
                at - 1
            } else {
                at
            };
            proof {
                let n = at - i;
                assert(rest.take(n) =~= s@.subrange(i as int, at as int));
                assert(without_cr(rest.take(n)) =~= s@.subrange(i as int, end as int));
                assert(rest.skip(n + 1) =~= s@.skip(at as int + 1));
            }
            out.push(string_of(&chars, i, end));
            proof {
                let line = s@.subrange(i as int, end as int);
                assert(texts(out@) =~= before.push(line));
                assert(before.push(line) + lines(s@.skip(at as int + 1)) =~= before + (seq![line]
                    + lines(s@.skip(at as int + 1))));
            }
            i = at + 1;
        } else {
            out.push(string_of(&chars, i, at));
            proof {
                assert(rest =~= s@.subrange(i as int, at as int));
                assert(texts(out@) =~= before.push(rest));
                assert(before.push(rest) =~= before + seq![rest]);
                assert(s@.skip(at as int) =~= Seq::<char>::empty());
                assert(texts(out@) + lines(s@.skip(at as int)) =~= texts(out@));
            }
            i = at;
        }
    }
    assert(s@.skip(s@.len() as int) =~= Seq::<char>::empty());
    assert(texts(out@) + Seq::<Seq<char>>::empty() =~= texts(out@));
    out
}

// ---------------------------------------------------------------------------
// Joining
// ---------------------------------------------------------------------------

/// `parts` in order, with `sep` between each two.
pub open spec fn join(parts: Seq<Seq<char>>, sep: Seq<char>) -> Seq<char>
    decreases parts.len(),
{
    if parts.len() == 0 {
        Seq::empty()
    } else if parts.len() == 1 {
        parts[0]
    } else {
        join(parts.drop_last(), sep) + sep + parts.last()
    }
}

/// `parts[from..]` in order, with `sep` between each two.
pub fn join_from(parts: &Vec<String>, from: usize, sep: &str) -> (out: String)
    requires
        from <= parts@.len(),
    ensures
        out@ == join(texts(parts@).skip(from as int), sep@),
{
    let mut out = String::new();
    let ghost all = texts(parts@).skip(from as int);
    let mut i: usize = from;
    while i < parts.len()
        invariant
            from <= i <= parts@.len(),
            all == texts(parts@).skip(from as int),
            out@ == join(all.take(i - from), sep@),
        decreases parts@.len() - i,
    {
        proof {
            let k = i - from;
            assert(all.take(k + 1).drop_last() =~= all.take(k));
            assert(all[k] == parts@[i as int]@);
            assert(Seq::<char>::empty() + parts@[i as int]@ =~= parts@[i as int]@);
        }
        if i > from {
            out.push_str(sep);
        }
        out.push_str(parts[i].as_str());
        i += 1;
    }
    assert(all.take(all.len() as int) =~= all);
    out
}

/// `parts` in order, with `sep` between each two.
pub fn join_all(parts: &Vec<String>, sep: &str) -> (out: String)
    ensures
        out@ == join(texts(parts@), sep@),
{
    assert(texts(parts@).skip(0) =~= texts(parts@));
    join_from(parts, 0, sep)
}

// ---------------------------------------------------------------------------
// Numbers
// ---------------------------------------------------------------------------

/// The decimal digit for `d`.
pub open spec fn digit(d: nat) -> char {
    ('0' as u32 + d as u32) as char
}

/// `n` in decimal digits, without leading zeros.
pub open spec fn decimal(n: nat) -> Seq<char>
    decreases n,
{
    if n < 10 {
        seq![digit(n)]
    } else {
        decimal(n / 10).push(digit(n % 10))
    }
}

fn digit_char(d: u64) -> (c: char)
    requires
        d < 10,
    ensures
        c == digit(d as nat),
{
    (48u8 + d as u8) as char
}

/// `n` in decimal digits.
pub fn decimal_of(n: u64) -> (out: String)
    ensures
        out@ == decimal(n as nat),
    decreases n,
{
    if n < 10 {
        let mut out = String::new();
        out.push(digit_char(n));
        assert(out@ =~= seq![digit(n as nat)]);
        out
    } else {
        let mut out = decimal_of(n / 10);
        out.push(digit_char(n % 10));
        out
    }
}

// ---------------------------------------------------------------------------
// ASCII case
// ---------------------------------------------------------------------------

/// An ASCII capital as its small letter; any other character as it is.
pub open spec fn ascii_lower(c: char) -> char {
    if 'A' <= c <= 'Z' {
        (c as u32 + 32) as char
    } else {
        c
    }
}

/// `s` with its ASCII capitals as small letters.
pub open spec fn ascii_lowered(s: Seq<char>) -> Seq<char> {
    s.map_values(|c: char| ascii_lower(c))
}

/// An ASCII capital as its small letter; any other character as it is.
pub fn to_ascii_lower(c: char) -> (out: char)
    ensures
        out == ascii_lower(c),
{
    if 'A' <= c && c <= 'Z' {
        (c as u8 + 32) as char
    } else {
        c
    }
}

/// `s` with its ASCII capitals as small letters.
pub fn ascii_lowercase(s: &str) -> (out: String)
    ensures
        out@ == ascii_lowered(s@),
{
    let chars = chars_of(s);
    let mut out = String::new();
    let mut i: usize = 0;
    while i < chars.len()
        invariant
            i <= chars@.len(),
            out@ == ascii_lowered(chars@.take(i as int)),
        decreases chars@.len() - i,
    {
        out.push(to_ascii_lower(chars[i]));
        assert(ascii_lowered(chars@.take(i as int + 1)) =~= ascii_lowered(
            chars@.take(i as int),
        ).push(ascii_lower(chars@[i as int])));
        i += 1;
    }
    assert(chars@.take(i as int) =~= chars@);
    out
}

/// The words of a text and of another behind it, with a blank between them, are
/// the words of both.
pub proof fn words_of_both(a: Seq<char>, b: Seq<char>)
    ensures
        words(a.push(' ') + b) == words(a) + words(b),
    decreases a.len(),
{
    let all = a.push(' ') + b;
    if a.len() == 0 {
        assert(all[0] == ' ');
        assert(all.drop_first() =~= b);
        assert(words(a) + words(b) =~= words(b));
    } else if white_space(a[0]) {
        assert(all[0] == a[0]);
        assert(all.drop_first() =~= a.drop_first().push(' ') + b);
        words_of_both(a.drop_first(), b);
    } else {
        let n = word_len(a) as int;
        lemma_word_len(a);
        assert(all[0] == a[0]);
        assert forall|i: int| 0 <= i < n implies !white_space(#[trigger] all[i]) by {
            assert(all[i] == a[i]);
        }
        if n < a.len() {
            assert(all[n] == a[n]);
        } else {
            assert(all[n] == ' ');
        }
        lemma_word_len_is(all, n);
        assert(n > 0);
        assert(all.take(n) =~= a.take(n));
        assert(all.skip(n) =~= a.skip(n).push(' ') + b);
        words_of_both(a.skip(n), b);
        assert(words(all) =~= seq![a.take(n)] + (words(a.skip(n)) + words(b)));
        assert(words(a) + words(b) =~= seq![a.take(n)] + (words(a.skip(n)) + words(b)));
    }
}

/// Whether a text is one word: not empty, and without white space.
pub open spec fn is_word(s: Seq<char>) -> bool {
    s.len() > 0 && forall|i: int| 0 <= i < s.len() ==> !white_space(#[trigger] s[i])
}

/// A word has itself for its only word.
pub proof fn a_word_is_its_own_word(s: Seq<char>)
    requires
        is_word(s),
    ensures
        words(s) == seq![s],
{
    lemma_word_len_is(s, s.len() as int);
    assert(!white_space(s[0]));
    assert(s.take(s.len() as int) =~= s);
    assert(s.skip(s.len() as int) =~= Seq::<char>::empty());
    assert(words(s.skip(s.len() as int)) =~= Seq::<Seq<char>>::empty());
    assert(words(s) =~= seq![s]);
}

/// What a text is split into are words.
pub proof fn words_are_words(s: Seq<char>)
    ensures
        forall|i: int| 0 <= i < words(s).len() ==> is_word(#[trigger] words(s)[i]),
    decreases s.len(),
{
    if s.len() == 0 {
        assert(words(s) =~= Seq::<Seq<char>>::empty());
    } else if white_space(s[0]) {
        words_are_words(s.drop_first());
        assert(words(s) == words(s.drop_first()));
    } else {
        let n = word_len(s) as int;
        lemma_word_len(s);
        assert(n > 0);
        words_are_words(s.skip(n));
        assert forall|i: int| 0 <= i < words(s).len() implies is_word(#[trigger] words(s)[i]) by {
            if i == 0 {
                let w = s.take(n);
                assert(words(s)[0] == w);
                assert forall|k: int| 0 <= k < w.len() implies !white_space(#[trigger] w[k]) by {
                    assert(w[k] == s[k]);
                }
            } else {
                assert(words(s)[i] == words(s.skip(n))[i - 1]);
            }
        }
    }
}

/// Words that are joined by blanks are read back, all of them and in order.
pub proof fn joined_words_are_read_back(all: Seq<Seq<char>>)
    requires
        forall|i: int| 0 <= i < all.len() ==> is_word(#[trigger] all[i]),
    ensures
        words(join(all, " "@)) == all,
    decreases all.len(),
{
    reveal_strlit(" ");
    if all.len() == 0 {
        assert(words(join(all, " "@)) =~= all);
    } else if all.len() == 1 {
        a_word_is_its_own_word(all[0]);
        assert(all =~= seq![all[0]]);
    } else {
        let init = all.drop_last();
        assert forall|i: int| 0 <= i < init.len() implies is_word(#[trigger] init[i]) by {
            assert(init[i] == all[i]);
        }
        joined_words_are_read_back(init);
        let last = all.last();
        assert(is_word(all[all.len() - 1]));
        a_word_is_its_own_word(last);
        assert(join(all, " "@) =~= join(init, " "@).push(' ') + last);
        words_of_both(join(init, " "@), last);
        assert(init + seq![last] =~= all);
    }
}

/// A text whose words are joined by blanks has the same words as before, so texts
/// that are joined to the same had the same words.
pub proof fn joining_keeps_the_words(s: Seq<char>)
    ensures
        words(join(words(s), " "@)) == words(s),
{
    words_are_words(s);
    joined_words_are_read_back(words(s));
}

/// The characters of a text that are not white space.
pub open spec fn solid(s: Seq<char>) -> Seq<char>
    decreases s.len(),
{
    if s.len() == 0 {
        s
    } else if white_space(s[0]) {
        solid(s.drop_first())
    } else {
        seq![s[0]] + solid(s.drop_first())
    }
}

proof fn lemma_solid_prefix(s: Seq<char>, n: int)
    requires
        0 <= n <= s.len(),
        forall|i: int| 0 <= i < n ==> !white_space(#[trigger] s[i]),
    ensures
        solid(s) == s.take(n) + solid(s.skip(n)),
    decreases n,
{
    if n == 0 {
        assert(s.skip(0) =~= s);
        assert(solid(s) =~= s.take(0) + solid(s.skip(0)));
    } else {
        let t = s.drop_first();
        assert forall|i: int| 0 <= i < n - 1 implies !white_space(#[trigger] t[i]) by {
            assert(t[i] == s[i + 1]);
        }
        lemma_solid_prefix(t, n - 1);
        assert(t.skip(n - 1) =~= s.skip(n));
        assert(solid(s) =~= s.take(n) + solid(s.skip(n)));
    }
}

pub proof fn lemma_join_front(first: Seq<char>, rest: Seq<Seq<char>>, sep: Seq<char>)
    ensures
        rest.len() == 0 ==> join(seq![first] + rest, sep) == first,
        rest.len() > 0 ==> join(seq![first] + rest, sep) == first + sep + join(rest, sep),
    decreases rest.len(),
{
    let all = seq![first] + rest;
    if rest.len() > 0 {
        assert(all.drop_last() =~= seq![first] + rest.drop_last());
        assert(all.last() == rest.last());
        lemma_join_front(first, rest.drop_last(), sep);
        if rest.len() == 1 {
            assert(join(all, sep) =~= first + sep + join(rest, sep));
        } else {
            assert(join(all, sep) =~= first + sep + join(rest, sep));
        }
    }
}

/// No character but white space is lost by splitting a text into words.
pub proof fn words_lose_only_white_space(s: Seq<char>)
    ensures
        join(words(s), Seq::empty()) == solid(s),
    decreases s.len(),
{
    if s.len() == 0 {
        assert(solid(s) =~= Seq::<char>::empty());
    } else if white_space(s[0]) {
        words_lose_only_white_space(s.drop_first());
    } else {
        let n = word_len(s) as int;
        lemma_word_len(s);
        assert(n > 0);
        lemma_solid_prefix(s, n);
        words_lose_only_white_space(s.skip(n));
        lemma_join_front(s.take(n), words(s.skip(n)), Seq::empty());
        assert(join(words(s), Seq::empty()) =~= s.take(n) + solid(s.skip(n)));
    }
}

/// The lines of a text and of another that begins on a new line are the lines of
/// both.
pub proof fn lines_of_both(a: Seq<char>, b: Seq<char>)
    ensures
        lines(a.push('\n') + b) == lines(a.push('\n')) + lines(b),
    decreases a.len(),
{
    let ended = a.push('\n');
    let all = ended + b;
    let n = first_at(a, '\n') as int;
    lemma_first_at(a, '\n');
    assert forall|i: int| 0 <= i < n implies #[trigger] all[i] != '\n' by {
        assert(all[i] == a[i]);
    }
    assert forall|i: int| 0 <= i < n implies #[trigger] ended[i] != '\n' by {
        assert(ended[i] == a[i]);
    }
    if n < a.len() {
        assert(all[n] == a[n] && ended[n] == a[n]);
    }
    lemma_first_at_is(all, '\n', n);
    lemma_first_at_is(ended, '\n', n);
    assert(all.take(n) =~= ended.take(n));
    let head = seq![without_cr(ended.take(n))];
    if n < a.len() {
        let rest = a.skip(n + 1);
        assert(all.skip(n + 1) =~= rest.push('\n') + b);
        assert(ended.skip(n + 1) =~= rest.push('\n'));
        lines_of_both(rest, b);
        assert(head + (lines(rest.push('\n')) + lines(b)) =~= (head + lines(rest.push('\n')))
            + lines(b));
    } else {
        assert(all.skip(n + 1) =~= b);
        assert(ended.skip(n + 1) =~= Seq::<char>::empty());
        assert(lines(ended.skip(n + 1)) =~= Seq::<Seq<char>>::empty());
        assert(lines(ended) =~= head);
    }
}

/// The lines of a text, joined by line feeds, are the text again, where it has no
/// carriage return and does not end in a line feed.
pub proof fn joined_lines_are_the_text(s: Seq<char>)
    requires
        forall|i: int| 0 <= i < s.len() ==> #[trigger] s[i] != '\r',
        s.len() > 0 ==> s.last() != '\n',
    ensures
        join(lines(s), "\n"@) == s,
    decreases s.len(),
{
    reveal_strlit("\n");
    lemma_first_at(s, '\n');
    let n = first_at(s, '\n') as int;
    if s.len() == 0 {
        assert(join(lines(s), "\n"@) =~= s);
    } else if n < s.len() {
        let rest = s.skip(n + 1);
        let first = s.take(n);
        assert(s[n] != s.last());
        assert(rest.len() > 0);
        assert(rest.last() == s.last());
        assert forall|i: int| 0 <= i < rest.len() implies #[trigger] rest[i] != '\r' by {
            assert(rest[i] == s[n + 1 + i]);
        }
        joined_lines_are_the_text(rest);
        if n > 0 {
            assert(first.last() == s[n - 1]);
        }
        assert(without_cr(first) == first);
        if lines(rest).len() == 0 {
            assert(join(lines(rest), "\n"@).len() == 0);
        }
        lemma_join_front(first, lines(rest), "\n"@);
        assert(first + "\n"@ + rest =~= s);
    }
}

/// The number that a sequence of decimal digits writes.
pub open spec fn number_of(digits: Seq<char>) -> int
    decreases digits.len(),
{
    if digits.len() == 0 {
        0
    } else {
        10 * number_of(digits.drop_last()) + (digits.last() as u32 - '0' as u32)
    }
}

/// A number is read back from its decimal digits.
pub proof fn decimals_are_read_back(n: nat)
    ensures
        number_of(decimal(n)) == n,
    decreases n,
{
    if n < 10 {
        assert(decimal(n).drop_last() =~= Seq::<char>::empty());
        assert(number_of(decimal(n).drop_last()) == 0);
        assert(digit(n) as u32 == 48 + n);
    } else {
        decimals_are_read_back(n / 10);
        assert(decimal(n).drop_last() =~= decimal(n / 10));
        assert(digit(n % 10) as u32 == 48 + n % 10);
    }
}

/// Trimming takes off the white space around a text, all of it and nothing else.
pub proof fn trimming_leaves_what_stands_between(before: Seq<char>, inner: Seq<char>, after: Seq<char>)
    requires
        blank(before),
        blank(after),
        inner.len() > 0,
        !white_space(inner[0]),
        !white_space(inner.last()),
    ensures
        trimmed(before + inner + after) == inner,
{
    let s = before + inner + after;
    lemma_trim_bounds(s);
    lemma_blank_trims_to_nothing(s);
    let (i, j) = trim_bounds(s);
    let a = before.len() as int;
    let b = a + inner.len();
    assert(s[a] == inner[0]);
    assert(s[b - 1] == inner.last());
    assert(i <= a);
    assert(b <= j);
    lemma_trim_start_is_suffix(s);
    lemma_trim_end_is_prefix(trim_start(s));
    if i < a {
        assert(s[i] == before[i]);
        assert(trim_start(s)[0] == s[i]);
    }
    if b < j {
        assert(s[j - 1] == after[j - 1 - b]);
        assert(trimmed(s).last() == s[j - 1]);
    }
    assert(s.subrange(a, b) =~= inner);
}

/// Only ASCII capitals are changed, each into its small letter.
pub proof fn only_capitals_are_lowered(s: Seq<char>, i: int)
    requires
        0 <= i < s.len(),
    ensures
        ascii_lowered(s).len() == s.len(),
        !('A' <= s[i] <= 'Z') ==> ascii_lowered(s)[i] == s[i],
        'A' <= s[i] <= 'Z' ==> ascii_lowered(s)[i] as u32 == s[i] as u32 + 32,
{
}

/// A list of texts is seen text by text.
pub proof fn texts_are_seen_whole(strings: Seq<String>, i: int)
    requires
        0 <= i < strings.len(),
    ensures
        texts(strings).len() == strings.len(),
        texts(strings)[i] == strings[i]@,
        opt_text(Some(strings[i])) == Some(strings[i]@),
        opt_text(None) is None,
{
}

} // verus!
