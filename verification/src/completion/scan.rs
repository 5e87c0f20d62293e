//! The index of a workspace's paths: what is left out of it, and its order.
use crate::path::{parts_on_either_side, split_at_each, split_chars};
use crate::sort::{
    bytes_le, bytes_not_after, lemma_bytes_le_total, lemma_bytes_le_transitive, sort, sorted,
    Sortable,
};
use crate::text::{
    chars_of, first_at, join, join_all, lemma_first_at, lemma_first_at_is, lemma_join_front, same,
    texts,
};
use vstd::prelude::*;
use vstd::string::*;
use vstd::utf8::encode_utf8;

verus! {

/// How many paths the index holds, and so how many are searchable at all.
pub const MAX_INDEXED_PATHS: usize = 10_000;

/// How deep the walk goes.
pub const MAX_PATH_DEPTH: usize = 10;

/// How many candidates of one scan are kept for filtering.
pub const CANDIDATE_LIMIT: usize = 5_000;

/// How many candidates are shown after filtering.
pub const SCAN_LIMIT: usize = 250;

/// How many entries one scan visits.
pub const VISIT_LIMIT: usize = 20_000;

/// How deep a scan of the whole workspace goes.
pub const MAX_SCAN_DEPTH: usize = 32;

/// A file or directory that a scan found.
#[derive(Debug, Clone, PartialEq, Eq)]
pub struct DirEntry {
    /// The path below the scanned directory, e.g. `crates/agent/src/lib.rs`.
    pub path: String,
    pub is_dir: bool,
}

/// The directories that no scan enters.
pub open spec fn skipped(name: Seq<char>) -> bool {
    name == ".git"@ || name == "target"@ || name == "node_modules"@
}

/// Whether a directory of that name is left out of every scan.
pub fn is_skipped_name(name: &str) -> (out: bool)
    ensures
        out == skipped(name@),
{
    same(name, ".git") || same(name, "target") || same(name, "node_modules")
}

/// A name in a path that is a file's or a directory's own.
pub open spec fn own_name(name: Seq<char>) -> bool {
    name.len() > 0 && name != "."@ && name != ".."@
}

/// A path by its own names alone.
pub open spec fn relative_text(path: Seq<char>) -> Seq<char> {
    join(split_at_each(path, '/').filter(|name: Seq<char>| own_name(name)), "/"@)
}

/// A path by its own names alone, with `/` between them.
pub fn relative_path(path: &str) -> (out: String)
    ensures
        out@ == relative_text(path@),
{
    let names = split_chars(path, '/');
    let ghost views = texts(names@);
    let ghost own = |name: Seq<char>| own_name(name);
    let mut kept: Vec<String> = Vec::new();
    let mut i: usize = 0;
    assert(views.take(0) =~= Seq::empty());
    assert(views.take(0).filter(own) =~= Seq::empty());
    assert(texts(kept@) =~= Seq::empty());
    while i < names.len()
        invariant
            i <= names@.len(),
            views == texts(names@),
            own == (|name: Seq<char>| own_name(name)),
            texts(kept@) == views.take(i as int).filter(own),
        decreases names@.len() - i,
    {
        let name = names[i].clone();
        let ghost before = texts(kept@);
        proof {
            assert(views.take(i as int + 1) =~= views.take(i as int).push(views[i as int]));
            views.take(i as int).lemma_filter_push(views[i as int], own);
        }
        if !name.as_str().is_empty() && !same(name.as_str(), ".") && !same(name.as_str(), "..") {
            kept.push(name);
            assert(texts(kept@) =~= before.push(name@));
        }
        i += 1;
    }
    assert(views.take(i as int) =~= views);
    join_all(&kept, "/")
}

/// How many separators a text holds.
pub open spec fn slashes(s: Seq<char>) -> nat
    decreases s.len(),
{
    if s.len() == 0 {
        0
    } else if s.last() == '/' {
        slashes(s.drop_last()) + 1
    } else {
        slashes(s.drop_last())
    }
}

/// A text without the separators at its end.
pub open spec fn without_end_slashes(s: Seq<char>) -> Seq<char>
    decreases s.len(),
{
    if s.len() > 0 && s.last() == '/' {
        without_end_slashes(s.drop_last())
    } else {
        s
    }
}

fn count_slashes(chars: &Vec<char>, end: usize) -> (out: usize)
    requires
        end <= chars@.len(),
    ensures
        out == slashes(chars@.take(end as int)),
{
    let mut n: usize = 0;
    let mut i: usize = 0;
    while i < end
        invariant
            i <= end <= chars@.len(),
            n <= i,
            n == slashes(chars@.take(i as int)),
        decreases end - i,
    {
        assert(chars@.take(i as int + 1).drop_last() =~= chars@.take(i as int));
        assert(chars@.take(i as int + 1).last() == chars@[i as int]);
        if chars[i] == '/' {
            n += 1;
        }
        i += 1;
    }
    n
}

/// The order of entries: those nearer to the scanned directory first, then
/// directories before files, then by the bytes of the path.
pub open spec fn entry_le(
    depth_a: nat,
    dir_a: bool,
    path_a: Seq<char>,
    depth_b: nat,
    dir_b: bool,
    path_b: Seq<char>,
) -> bool {
    ||| depth_a < depth_b
    ||| depth_a == depth_b && dir_a && !dir_b
    ||| depth_a == depth_b && dir_a == dir_b && bytes_le(encode_utf8(path_a), encode_utf8(path_b))
}

impl Sortable for DirEntry {
    open spec fn precedes(&self, other: &DirEntry) -> bool {
        entry_le(
            slashes(self.path@),
            self.is_dir,
            self.path@,
            slashes(other.path@),
            other.is_dir,
            other.path@,
        )
    }

    fn may_precede(&self, other: &DirEntry) -> (out: bool) {
        let a = chars_of(self.path.as_str());
        let b = chars_of(other.path.as_str());
        assert(a@.take(a@.len() as int) =~= a@);
        assert(b@.take(b@.len() as int) =~= b@);
        let x = count_slashes(&a, a.len());
        let y = count_slashes(&b, b.len());
        if x != y {
            x < y
        } else if self.is_dir != other.is_dir {
            self.is_dir
        } else {
            bytes_not_after(self.path.as_str().as_bytes(), other.path.as_str().as_bytes())
        }
    }

    proof fn order_is_total(a: &DirEntry, b: &DirEntry) {
        lemma_bytes_le_total(encode_utf8(a.path@), encode_utf8(b.path@));
    }

    proof fn order_is_transitive(a: &DirEntry, b: &DirEntry, c: &DirEntry) {
        if bytes_le(encode_utf8(a.path@), encode_utf8(b.path@)) && bytes_le(
            encode_utf8(b.path@),
            encode_utf8(c.path@),
        ) {
            lemma_bytes_le_transitive(
                encode_utf8(a.path@),
                encode_utf8(b.path@),
                encode_utf8(c.path@),
            );
        }
    }
}

/// A path of the index. A directory's ends in a separator.
#[derive(Debug, Clone, PartialEq, Eq)]
pub struct IndexedPath {
    pub path: String,
}

/// Whether a path of the index is a directory's.
pub open spec fn is_directory(path: Seq<char>) -> bool {
    path.len() > 0 && path.last() == '/'
}

impl Sortable for IndexedPath {
    open spec fn precedes(&self, other: &IndexedPath) -> bool {
        entry_le(
            slashes(without_end_slashes(self.path@)),
            is_directory(self.path@),
            self.path@,
            slashes(without_end_slashes(other.path@)),
            is_directory(other.path@),
            other.path@,
        )
    }

    fn may_precede(&self, other: &IndexedPath) -> (out: bool) {
        let a = chars_of(self.path.as_str());
        let b = chars_of(other.path.as_str());
        let x = count_slashes(&a, own_end(&a));
        let y = count_slashes(&b, own_end(&b));
        let dir_a = a.len() > 0 && a[a.len() - 1] == '/';
        let dir_b = b.len() > 0 && b[b.len() - 1] == '/';
        if x != y {
            x < y
        } else if dir_a != dir_b {
            dir_a
        } else {
            bytes_not_after(self.path.as_str().as_bytes(), other.path.as_str().as_bytes())
        }
    }

    proof fn order_is_total(a: &IndexedPath, b: &IndexedPath) {
        lemma_bytes_le_total(encode_utf8(a.path@), encode_utf8(b.path@));
    }

    proof fn order_is_transitive(a: &IndexedPath, b: &IndexedPath, c: &IndexedPath) {
        if bytes_le(encode_utf8(a.path@), encode_utf8(b.path@)) && bytes_le(
            encode_utf8(b.path@),
            encode_utf8(c.path@),
        ) {
            lemma_bytes_le_transitive(
                encode_utf8(a.path@),
                encode_utf8(b.path@),
                encode_utf8(c.path@),
            );
        }
    }
}

fn own_end(chars: &Vec<char>) -> (end: usize)
    ensures
        end <= chars@.len(),
        chars@.take(end as int) == without_end_slashes(chars@),
{
    let mut end: usize = chars.len();
    assert(chars@.take(end as int) =~= chars@);
    while end > 0 && chars[end - 1] == '/'
        invariant
            end <= chars@.len(),
            without_end_slashes(chars@) == without_end_slashes(chars@.take(end as int)),
        decreases end,
    {
        assert(chars@.take(end as int).drop_last() =~= chars@.take(end - 1));
        end -= 1;
    }
    proof {
        if end > 0 {
            assert(chars@.take(end as int).last() == chars@[end - 1]);
        }
    }
    end
}

/// The path of an entry in the index.
pub open spec fn indexed(entry: DirEntry) -> Seq<char> {
    if entry.is_dir {
        entry.path@.push('/')
    } else {
        entry.path@
    }
}

/// The index for what a walk found, in the order in which it was found: its
/// first entries, as many as the index holds, sorted.
pub fn scan_dir(found: Vec<DirEntry>) -> (out: Vec<IndexedPath>)
    ensures
        sorted(out@),
        out@.len() == if found@.len() > MAX_INDEXED_PATHS {
            MAX_INDEXED_PATHS as nat
        } else {
            found@.len()
        },
        exists|given: Seq<IndexedPath>| #![trigger given.to_multiset()]
            {
                &&& out@.to_multiset() == given.to_multiset()
                &&& given.len() == out@.len()
                &&& forall|i: int|
                    0 <= i < given.len() ==> (#[trigger] given[i]).path@ == indexed(found@[i])
            },
{
    let mut index: Vec<IndexedPath> = Vec::new();
    let mut i: usize = 0;
    while i < found.len() && index.len() < MAX_INDEXED_PATHS
        invariant
            i <= found@.len(),
            i <= MAX_INDEXED_PATHS,
            index@.len() == i,
            forall|k: int| 0 <= k < i ==> (#[trigger] index@[k]).path@ == indexed(found@[k]),
        decreases found@.len() - i,
    {
        let mut path = found[i].path.clone();
        if found[i].is_dir {
            path.push('/');
        }
        index.push(IndexedPath { path });
        i += 1;
    }
    let ghost given = index@;
    let out = sort(index);
    proof {
        vstd::seq_lib::to_multiset_len(given);
        vstd::seq_lib::to_multiset_len(out@);
        assert(out@.to_multiset() == given.to_multiset());
    }
    out
}

/// Whether a scan goes on: it was not superseded, and may visit more entries.
pub fn scan_continues(visited: usize, epoch: u64, own_epoch: u64) -> (out: bool)
    ensures
        out == (epoch == own_epoch && visited < VISIT_LIMIT),
{
    epoch == own_epoch && visited < VISIT_LIMIT
}

/// How deep a scan goes: the whole workspace deeply, one directory flat.
pub fn scan_depth(recursive: bool) -> (out: usize)
    ensures
        out == if recursive {
            MAX_SCAN_DEPTH
        } else {
            1
        },
{
    if recursive {
        MAX_SCAN_DEPTH
    } else {
        1
    }
}

/// The candidates for what a scan visited: sorted, and no more than are kept.
pub fn scan_dir_with(found: Vec<DirEntry>) -> (out: Vec<DirEntry>)
    ensures
        exists|all: Seq<DirEntry>| #![trigger sorted(all)]
            {
                &&& sorted(all)
                &&& all.to_multiset() == found@.to_multiset()
                &&& out@ == if all.len() > CANDIDATE_LIMIT {
                    all.take(CANDIDATE_LIMIT as int)
                } else {
                    all
                }
            },
{
    let mut out = sort(found);
    let ghost all = out@;
    out.truncate(CANDIDATE_LIMIT);
    proof {
        assert(sorted(all));
        if all.len() > CANDIDATE_LIMIT {
            assert(out@ =~= all.take(CANDIDATE_LIMIT as int));
        } else {
            assert(out@ =~= all);
        }
    }
    out
}

/// What the user is told of a scan that failed.
pub open spec fn scan_error(not_found: bool, message: Seq<char>) -> Seq<char> {
    if not_found {
        "directory not found"@
    } else {
        message
    }
}

/// What the user is told of a scan that failed.
pub fn completion_error(not_found: bool, message: String) -> (out: String)
    ensures
        out@ == scan_error(not_found, message@),
{
    if not_found {
        crate::text::owned("directory not found")
    } else {
        message
    }
}

/// The separators of a text are those of its parts.
pub proof fn slashes_add_up(a: Seq<char>, b: Seq<char>)
    ensures
        slashes(a + b) == slashes(a) + slashes(b),
        slashes(seq!['/']) == 1,
        (forall|i: int| 0 <= i < a.len() ==> #[trigger] a[i] != '/') ==> slashes(a) == 0,
    decreases a.len() + b.len(),
{
    reveal_with_fuel(slashes, 2);
    assert(seq!['/'].drop_last().len() == 0);
    if b.len() > 0 {
        slashes_add_up(a, b.drop_last());
        assert((a + b).drop_last() =~= a + b.drop_last());
        assert((a + b).last() == b.last());
    } else {
        assert(a + b =~= a);
        if a.len() > 0 {
            let init = a.drop_last();
            slashes_add_up(init, Seq::empty());
            if forall|i: int| 0 <= i < a.len() ==> #[trigger] a[i] != '/' {
                assert forall|i: int| 0 <= i < init.len() implies #[trigger] init[i] != '/' by {
                    assert(init[i] == a[i]);
                }
                assert(a[a.len() - 1] != '/');
            }
        }
    }
}

/// Entries nearer to the scanned directory come first, then directories before files,
/// and only then what they are called.
pub proof fn nearer_entries_come_first(a: DirEntry, b: DirEntry)
    ensures
        slashes(a.path@) < slashes(b.path@) ==> a.precedes(&b) && !b.precedes(&a),
        slashes(a.path@) == slashes(b.path@) && a.is_dir && !b.is_dir ==> a.precedes(&b)
            && !b.precedes(&a),
        slashes(a.path@) == slashes(b.path@) && a.is_dir == b.is_dir ==> (a.precedes(&b)
            <==> bytes_le(encode_utf8(a.path@), encode_utf8(b.path@))),
{
}

/// So do the paths of the index, in which a separator at the end of a directory's
/// path does not count as a step.
pub proof fn nearer_paths_come_first(a: IndexedPath, b: IndexedPath)
    ensures
        ({
            let x = slashes(without_end_slashes(a.path@));
            let y = slashes(without_end_slashes(b.path@));
            let dir_a = a.path@.len() > 0 && a.path@.last() == '/';
            let dir_b = b.path@.len() > 0 && b.path@.last() == '/';
            &&& x < y ==> a.precedes(&b) && !b.precedes(&a)
            &&& x == y && dir_a && !dir_b ==> a.precedes(&b) && !b.precedes(&a)
            &&& x == y && dir_a == dir_b ==> (a.precedes(&b) <==> bytes_le(
                encode_utf8(a.path@),
                encode_utf8(b.path@),
            ))
        }),
{
}

/// A directory is in the index under its path with one separator behind it, a file
/// under its path. So a separator at the end does not add to how deep a path lies.
pub proof fn directories_end_in_a_separator(entry: DirEntry)
    requires
        entry.path@.len() > 0,
        entry.path@.last() != '/',
    ensures
        is_directory(indexed(entry)) <==> entry.is_dir,
        without_end_slashes(indexed(entry)) == entry.path@,
{
    reveal_with_fuel(without_end_slashes, 2);
    let path = entry.path@;
    assert(path.push('/').drop_last() =~= path);
}

proof fn lemma_split_joined(names: Seq<Seq<char>>)
    requires
        names.len() > 0,
        forall|i: int, k: int|
            0 <= i < names.len() && 0 <= k < names[i].len() ==> #[trigger] names[i][k] != '/',
    ensures
        split_at_each(join(names, "/"@), '/') == names,
    decreases names.len(),
{
    reveal_strlit("/");
    let first = names[0];
    let rest = names.drop_first();
    assert(names =~= seq![first] + rest);
    lemma_join_front(first, rest, "/"@);
    let all = join(names, "/"@);
    assert forall|k: int| 0 <= k < first.len() implies #[trigger] all[k] != '/' by {
        assert(names[0][k] != '/');
        assert(all[k] == first[k]);
    }
    lemma_first_at_is(all, '/', first.len() as int);
    if rest.len() == 0 {
        assert(split_at_each(all, '/') =~= names);
    } else {
        assert forall|i: int, k: int|
            0 <= i < rest.len() && 0 <= k < rest[i].len() implies #[trigger] rest[i][k] != '/' by {
            assert(names[i + 1][k] != '/');
        }
        lemma_split_joined(rest);
        assert(all.take(first.len() as int) =~= first);
        assert(all.skip(first.len() as int + 1) =~= join(rest, "/"@));
        assert(split_at_each(all, '/') =~= names);
    }
}

proof fn lemma_filter_all(names: Seq<Seq<char>>)
    requires
        forall|i: int| 0 <= i < names.len() ==> own_name(#[trigger] names[i]),
    ensures
        names.filter(|name: Seq<char>| own_name(name)) == names,
    decreases names.len(),
{
    let own = |name: Seq<char>| own_name(name);
    if names.len() == 0 {
        reveal(Seq::filter);
        assert(names.filter(own) =~= names);
    } else {
        let init = names.drop_last();
        assert forall|i: int| 0 <= i < init.len() implies own_name(#[trigger] init[i]) by {
            assert(init[i] == names[i]);
        }
        lemma_filter_all(init);
        assert(own_name(names[names.len() - 1]));
        init.lemma_filter_push(names.last(), own);
        assert(init.push(names.last()) =~= names);
    }
}

/// A path that is made of plain names stays as it is.
pub proof fn plain_paths_stay(names: Seq<Seq<char>>)
    requires
        names.len() > 0,
        forall|i: int| 0 <= i < names.len() ==> own_name(#[trigger] names[i]),
        forall|i: int, k: int|
            0 <= i < names.len() && 0 <= k < names[i].len() ==> #[trigger] names[i][k] != '/',
    ensures
        relative_text(join(names, "/"@)) == join(names, "/"@),
{
    lemma_split_joined(names);
    lemma_filter_all(names);
}

proof fn lemma_own_names(a: Seq<char>, b: Seq<char>)
    ensures
        ({
            let own = |name: Seq<char>| own_name(name);
            split_at_each(a.push('/') + b, '/').filter(own) == split_at_each(a, '/').filter(own)
                + split_at_each(b, '/').filter(own)
        }),
{
    let own = |name: Seq<char>| own_name(name);
    parts_on_either_side(a, b, '/');
    Seq::filter_distributes_over_add(split_at_each(a, '/'), split_at_each(b, '/'), own);
}

/// A name that is no file's or directory's own, such as one that leads up, does not show
/// in a path, wherever it stands.
pub proof fn other_names_do_not_show(a: Seq<char>, name: Seq<char>, b: Seq<char>)
    requires
        name == ""@ || name == "."@ || name == ".."@,
    ensures
        relative_text((a.push('/') + name).push('/') + b) == relative_text(a.push('/') + b),
        relative_text(name.push('/') + b) == relative_text(b),
{
    let own = |name: Seq<char>| own_name(name);
    reveal_strlit("");
    reveal_strlit(".");
    reveal_strlit("..");
    lemma_own_names(a.push('/') + name, b);
    lemma_own_names(a, name);
    lemma_own_names(a, b);
    lemma_own_names(name, b);
    lemma_first_at(name, '/');
    let n = first_at(name, '/') as int;
    if n < name.len() {
        assert(name[n] == '/');
    }
    let none = Seq::<Seq<char>>::empty();
    assert(split_at_each(name, '/') =~= none.push(name));
    none.lemma_filter_push(name, own);
    reveal(Seq::filter);
    assert(none.filter(own) =~= none);
    assert(!own(name));
    let first = split_at_each(a, '/').filter(own);
    let last = split_at_each(b, '/').filter(own);
    assert(first + none + last =~= first + last);
    assert(none + last =~= last);
}

/// Of a scan that failed the user is told what went wrong, unless the directory just is
/// not there.
pub proof fn failed_scans_say_why(message: Seq<char>)
    ensures
        scan_error(false, message) == message,
        scan_error(true, message) == "directory not found"@,
{
}

/// Exactly what version control, builds and packages leave behind is skipped.
pub proof fn only_what_is_not_the_users_is_skipped(name: Seq<char>)
    ensures
        skipped(".git"@) && skipped("target"@) && skipped("node_modules"@),
        skipped(name) ==> name == ".git"@ || name == "target"@ || name == "node_modules"@,
{
}

} // verus!
