//! Files of lines: how records are laid out in a session file, and what the
//! failures of the file system mean for it.
use crate::error::StoreError;
use crate::text::{
    chars_of, first_at, lemma_first_at, lemma_first_at_is, lines, owned, split_lines, string_of,
    texts, without_cr,
};
use vstd::prelude::*;

verus! {

/// The extension of session files.
pub const JSONL_EXTENSION: &'static str = "jsonl";

/// A line with its line feed: `line` itself where it already has one.
pub open spec fn terminated(line: Seq<char>) -> Seq<char> {
    if line.len() > 0 && line.last() == '\n' {
        line
    } else {
        line.push('\n')
    }
}

/// A line with its line feed.
pub fn line_with_newline(line: &str) -> (out: String)
    ensures
        out@ == terminated(line@),
{
    let chars = chars_of(line);
    let mut out = owned(line);
    if !(chars.len() > 0 && chars[chars.len() - 1] == '\n') {
        out.push('\n');
    }
    out
}

/// Where `c` last stands in `s`; -1 where it does not.
pub open spec fn last_at(s: Seq<char>, c: char) -> int
    decreases s.len(),
{
    if s.len() == 0 {
        -1
    } else if s.last() == c {
        s.len() - 1
    } else {
        last_at(s.drop_last(), c)
    }
}

pub proof fn lemma_last_at(s: Seq<char>, c: char)
    ensures
        -1 <= last_at(s, c) < s.len(),
        last_at(s, c) >= 0 ==> s[last_at(s, c)] == c,
        forall|i: int| last_at(s, c) < i < s.len() ==> #[trigger] s[i] != c,
    decreases s.len(),
{
    if s.len() > 0 && s.last() != c {
        let t = s.drop_last();
        lemma_last_at(t, c);
        assert forall|i: int| last_at(s, c) < i < s.len() implies #[trigger] s[i] != c by {
            if i < t.len() {
                assert(t[i] == s[i]);
            }
        }
    }
}

/// Lines that all have the same mark.
pub open spec fn marked(all: Seq<Seq<char>>, complete: bool) -> Seq<(Seq<char>, bool)> {
    all.map_values(|line: Seq<char>| (line, complete))
}

/// The parts of a text that line feeds stand between, empty ones included. A
/// carriage return before a line feed belongs to it.
pub open spec fn parted(s: Seq<char>) -> Seq<Seq<char>>
    decreases s.len(),
{
    let n = first_at(s, '\n') as int;
    if n < s.len() {
        seq![without_cr(s.take(n))] + parted(s.skip(n + 1))
    } else {
        seq![s]
    }
}

/// The lines of a file, each with whether it is complete. Every line feed ends
/// one complete line. Only a line after the last line feed is not complete: its
/// writer was cut off.
pub open spec fn complete_lines(content: Seq<char>) -> Seq<(Seq<char>, bool)> {
    let n = last_at(content, '\n');
    let done = if n >= 0 {
        marked(parted(content.take(n)), true)
    } else {
        Seq::empty()
    };
    if n == content.len() - 1 {
        done
    } else {
        done.push((content.skip(n + 1), false))
    }
}

/// The parts of a text are its lines, and an empty one behind a line feed at its
/// end.
proof fn lemma_parts_are_lines(s: Seq<char>)
    ensures
        parted(s) == if s.len() == 0 || s.last() == '\n' {
            lines(s).push(Seq::empty())
        } else {
            lines(s)
        },
    decreases s.len(),
{
    lemma_first_at(s, '\n');
    let n = first_at(s, '\n') as int;
    if s.len() == 0 {
        assert(parted(s) =~= seq![s]);
        assert(s =~= Seq::<char>::empty());
        assert(lines(s).push(Seq::<char>::empty()) =~= seq![s]);
    } else if n < s.len() {
        let rest = s.skip(n + 1);
        lemma_parts_are_lines(rest);
        let head = seq![without_cr(s.take(n))];
        if rest.len() > 0 {
            assert(rest.last() == s.last());
        } else {
            assert(s.last() == s[n]);
        }
        if s.last() == '\n' {
            assert(head + lines(rest).push(Seq::<char>::empty()) =~= (head + lines(rest)).push(
                Seq::<char>::empty(),
            ));
        }
    } else {
        assert(s.last() != '\n');
    }
}

/// The views of marked lines.
pub open spec fn marked_views(all: Seq<(String, bool)>) -> Seq<(Seq<char>, bool)> {
    all.map_values(|line: (String, bool)| (line.0@, line.1))
}

/// The lines of a file, each with whether it is complete.
pub fn split_complete_lines(content: &str) -> (out: Vec<(String, bool)>)
    ensures
        marked_views(out@) == complete_lines(content@),
{
    let chars = chars_of(content);
    let mut out: Vec<(String, bool)> = Vec::new();
    let mut after: usize = chars.len();
    while after > 0 && chars[after - 1] != '\n'
        invariant
            after <= chars@.len(),
            forall|k: int| after <= k < chars@.len() ==> chars@[k] != '\n',
        decreases after,
    {
        after -= 1;
    }
    let ghost n = after - 1;
    proof {
        assert(chars@ == content@);
        lemma_last_at_is(content@, '\n', n);
    }
    if after > 0 {
        let body = string_of(&chars, 0, after - 1);
        assert(body@ =~= content@.take(n));
        let mut all = split_lines(body.as_str());
        let ghost before = texts(all@);
        if after == 1 || chars[after - 2] == '\n' {
            all.push(String::new());
            assert(texts(all@) =~= before.push(Seq::<char>::empty()));
        }
        proof {
            lemma_parts_are_lines(body@);
            if after > 1 {
                assert(body@.last() == chars@[after - 2]);
            }
            assert(texts(all@) == parted(content@.take(n)));
        }
        let mut i: usize = 0;
        while i < all.len()
            invariant
                i <= all@.len(),
                out@.len() == i,
                forall|k: int|
                    0 <= k < i ==> (#[trigger] out@[k]).0@ == all@[k]@ && out@[k].1,
            decreases all@.len() - i,
        {
            out.push((all[i].clone(), true));
            i += 1;
        }
        assert(marked_views(out@) =~= marked(texts(all@), true));
    } else {
        assert(marked_views(out@) =~= Seq::empty());
    }
    if after < chars.len() {
        let ghost before = marked_views(out@);
        let tail = string_of(&chars, after, chars.len());
        out.push((tail, false));
        proof {
            assert(tail@ =~= content@.skip(n + 1));
            assert(marked_views(out@) =~= before.push((tail@, false)));
        }
    }
    out
}

/// The content of a file with these lines.
pub open spec fn framed(all: Seq<Seq<char>>) -> Seq<char>
    decreases all.len(),
{
    if all.len() == 0 {
        Seq::empty()
    } else {
        all[0].push('\n') + framed(all.drop_first())
    }
}

/// Lines that a file gives back as they were written: none holds a line feed, and
/// none before another ends in a carriage return.
pub open spec fn restorable(all: Seq<Seq<char>>) -> bool {
    &&& forall|i: int, j: int|
        0 <= i < all.len() && 0 <= j < all[i].len() ==> #[trigger] all[i][j] != '\n'
    &&& forall|i: int|
        0 <= i < all.len() - 1 && all[i].len() > 0 ==> (#[trigger] all[i]).last() != '\r'
}

proof fn lemma_parts_of_framed(all: Seq<Seq<char>>)
    requires
        all.len() > 0,
        restorable(all),
    ensures
        framed(all).len() > 0,
        framed(all).last() == '\n',
        parted(framed(all).drop_last()) == all,
    decreases all.len(),
{
    let first = all[0];
    let rest = all.drop_first();
    if all.len() == 1 {
        assert(framed(rest) =~= Seq::empty());
        assert(framed(all) =~= first.push('\n'));
        assert(framed(all).drop_last() =~= first);
        assert forall|i: int| 0 <= i < first.len() implies #[trigger] first[i] != '\n' by {
            assert(all[0][i] != '\n');
        }
        lemma_first_at_is(first, '\n', first.len() as int);
        assert(parted(first) =~= all);
    } else {
        assert forall|i: int, j: int|
            0 <= i < rest.len() && 0 <= j < rest[i].len() implies #[trigger] rest[i][j] != '\n' by {
            assert(all[i + 1][j] != '\n');
        }
        assert forall|i: int| 0 <= i < rest.len() - 1 && rest[i].len() > 0 implies (
        #[trigger] rest[i]).last() != '\r' by {
            assert(all[i + 1].last() != '\r');
        }
        lemma_parts_of_framed(rest);
        let tail = framed(rest).drop_last();
        let body = framed(all).drop_last();
        assert(body =~= first.push('\n') + tail);
        assert forall|i: int| 0 <= i < first.len() implies #[trigger] body[i] != '\n' by {
            assert(all[0][i] != '\n');
        }
        lemma_first_at_is(body, '\n', first.len() as int);
        assert(body.take(first.len() as int) =~= first);
        assert(body.skip(first.len() as int + 1) =~= tail);
        assert(without_cr(first) == first);
        assert(parted(body) =~= seq![first] + rest);
        assert(seq![first] + rest =~= all);
    }
}

pub proof fn lemma_last_at_is(s: Seq<char>, c: char, n: int)
    requires
        -1 <= n < s.len(),
        n >= 0 ==> s[n] == c,
        forall|i: int| n < i < s.len() ==> #[trigger] s[i] != c,
    ensures
        last_at(s, c) == n,
{
    lemma_last_at(s, c);
    let m = last_at(s, c);
    if m < n {
        assert(s[n] != c);
    } else if n < m {
        assert(s[m] != c);
    }
}

/// A file gives back the lines that were written to it, all of them complete.
pub proof fn written_lines_are_read_back(all: Seq<Seq<char>>)
    requires
        restorable(all),
    ensures
        complete_lines(framed(all)) == marked(all, true),
{
    if all.len() > 0 {
        lemma_parts_of_framed(all);
        let content = framed(all);
        lemma_last_at_is(content, '\n', content.len() - 1);
        assert(content.take(content.len() - 1) =~= content.drop_last());
    } else {
        lemma_last_at_is(framed(all), '\n', -1);
        assert(marked(all, true) =~= Seq::empty());
    }
}

/// A line whose writer was cut off is marked so, and costs none of the lines
/// before it.
pub proof fn a_cut_off_line_spares_the_others(all: Seq<Seq<char>>, tail: Seq<char>)
    requires
        restorable(all),
        tail.len() > 0,
        forall|i: int| 0 <= i < tail.len() ==> #[trigger] tail[i] != '\n',
    ensures
        complete_lines(framed(all) + tail) == marked(all, true).push((tail, false)),
{
    let content = framed(all) + tail;
    let n = framed(all).len() - 1;
    if all.len() > 0 {
        lemma_parts_of_framed(all);
        assert forall|i: int| n < i < content.len() implies #[trigger] content[i] != '\n' by {
            assert(content[i] == tail[i - n - 1]);
        }
        lemma_last_at_is(content, '\n', n);
        assert(content.take(n) =~= framed(all).drop_last());
        assert(content.skip(n + 1) =~= tail);
    } else {
        assert(content =~= tail);
        lemma_last_at_is(content, '\n', -1);
        assert(content.skip(0) =~= tail);
        assert(marked(all, true) =~= Seq::empty());
    }
}

proof fn lemma_framed_push(all: Seq<Seq<char>>, line: Seq<char>)
    ensures
        framed(all.push(line)) == framed(all) + line.push('\n'),
    decreases all.len(),
{
    if all.len() == 0 {
        let rest = all.push(line).drop_first();
        assert(rest.len() == 0);
        assert(framed(rest) =~= Seq::<char>::empty());
        assert(framed(all) =~= Seq::<char>::empty());
        assert(framed(all.push(line)) =~= framed(all) + line.push('\n'));
    } else {
        lemma_framed_push(all.drop_first(), line);
        assert(all.push(line).drop_first() =~= all.drop_first().push(line));
        assert(framed(all.push(line)) =~= framed(all) + line.push('\n'));
    }
}

/// To append a line to a file is to add it to the lines of the file.
pub proof fn appending_adds_a_line(all: Seq<Seq<char>>, line: Seq<char>)
    requires
        line.len() > 0 ==> line.last() != '\n',
    ensures
        framed(all) + terminated(line) == framed(all.push(line)),
{
    lemma_framed_push(all, line);
}

/// What kind of failure the file system reports.
#[derive(Debug, Clone, Copy, PartialEq, Eq, Structural)]
pub enum Failure {
    NotFound,
    AlreadyExists,
    WouldBlock,
    Other,
}

/// The error for a file that could not be made.
pub fn create_error(kind: Failure, path: String, source: String) -> (out: StoreError)
    ensures
        out@ == if kind == Failure::AlreadyExists {
            StoreError::AlreadyExists(path@)
        } else {
            StoreError::CreateFile { path: path@, source: source@ }
        },
{
    if kind == Failure::AlreadyExists {
        StoreError::AlreadyExists(path)
    } else {
        StoreError::CreateFile { path, source }
    }
}

/// The error for a file that could not be opened for appending.
pub fn open_error(kind: Failure, path: String, source: String) -> (out: StoreError)
    ensures
        out@ == if kind == Failure::NotFound {
            StoreError::NotFound(path@)
        } else {
            StoreError::OpenFile { path: path@, source: source@ }
        },
{
    if kind == Failure::NotFound {
        StoreError::NotFound(path)
    } else {
        StoreError::OpenFile { path, source }
    }
}

/// The error for a file that could not be locked. Another writer may hold it:
/// the system then says that it would block, or reports its own code for that.
pub fn lock_error(
    kind: Failure,
    contended: bool,
    path: String,
    source: String,
) -> (out: StoreError)
    ensures
        out@ == if kind == Failure::WouldBlock || contended {
            StoreError::Locked(path@)
        } else {
            StoreError::OpenFile { path: path@, source: source@ }
        },
{
    if kind == Failure::WouldBlock || contended {
        StoreError::Locked(path)
    } else {
        StoreError::OpenFile { path, source }
    }
}

/// The error for a file that could not be read.
pub fn read_error(kind: Failure, path: String, source: String) -> (out: StoreError)
    ensures
        out@ == if kind == Failure::NotFound {
            StoreError::NotFound(path@)
        } else {
            StoreError::ReadFile { path: path@, source: source@ }
        },
{
    if kind == Failure::NotFound {
        StoreError::NotFound(path)
    } else {
        StoreError::ReadFile { path, source }
    }
}

/// The permissions of a session's directory or file: its owner's alone.
pub fn private_mode(is_dir: bool) -> (out: u32)
    ensures
        out == if is_dir {
            0o700u32
        } else {
            0o600u32
        },
{
    if is_dir {
        0o700
    } else {
        0o600
    }
}

} // verus!
