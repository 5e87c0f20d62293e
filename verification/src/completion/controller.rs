//! The popup that completes paths while they are typed.
//!
//! A bare token searches the whole workspace and matches anywhere in a path; a
//! token with a slash lists that directory. Scans run elsewhere: the controller
//! asks for one and takes in its result, unless a newer one was asked for
//! meanwhile.
use crate::completion::scan::{completion_error, scan_error, DirEntry, SCAN_LIMIT};
use crate::completion::CompletionStatus;
use crate::controller::Poll;
use crate::path::{
    is_rooted, join_path, parts_on_either_side, rooted, split_at_each, split_chars, under,
};
use crate::selection::{clamped, move_within};
use crate::text::{chars_of, join, join_all, opt_text, owned, same, string_of, texts};
use crate::session::store::{last_at, lemma_last_at_is};
use vstd::prelude::*;
use vstd::string::*;

verus! {

/// What `str::to_lowercase` makes of a string: each character as its small
/// letters, by the rules of Unicode.
pub uninterp spec fn lowercase(s: Seq<char>) -> Seq<char>;

/// `str::to_lowercase`.
#[verifier::external_body]
fn to_lowercase(s: &str) -> (out: String)
    ensures
        out@ == lowercase(s@),
{
    s.to_lowercase()
}

/// What is shown in the popup.
#[derive(Debug)]
pub struct CompletionState {
    pub items: Vec<DirEntry>,
    pub selected: usize,
    pub status: CompletionStatus,
}

impl Default for CompletionState {
    fn default() -> (out: CompletionState)
        ensures
            out.items@ == Seq::<DirEntry>::empty(),
            out.selected == 0,
            out.status@ == CompletionStatus::<Seq<char>>::Loading,
    {
        CompletionState { items: Vec::new(), selected: 0, status: CompletionStatus::Loading }
    }
}

/// What accepting an entry puts into the line.
#[derive(Debug, Clone, PartialEq, Eq)]
pub struct Accepted {
    /// The text for the token, with the directory as it was typed.
    pub replacement: String,
    /// A directory keeps the popup open, to be typed on.
    pub is_dir: bool,
}

/// A scan to be started.
#[derive(Debug, Clone, PartialEq, Eq)]
pub struct ScanRequest {
    /// The directory to scan.
    pub dir: String,
    /// What the result is to be told apart by.
    pub key: String,
    pub generation: u64,
    /// Whether to enter the directories below.
    pub recursive: bool,
    /// The scan is to stop once the controller's epoch is another.
    pub epoch: u64,
}

/// What a scan has found.
pub struct ScanReply {
    pub generation: u64,
    pub key: String,
    pub result: Result<Vec<DirEntry>, ScanFailure>,
}

/// Why a scan failed.
pub struct ScanFailure {
    pub not_found: bool,
    pub message: String,
}

/// The popup and the scan behind it.
pub struct CompletionController {
    pub state: CompletionState,
    pub open: bool,
    /// The workspace, in which typed directories are looked for.
    pub root: String,
    /// What the last scan found.
    pub entries: Vec<DirEntry>,
    /// The directory of the token as it was typed.
    pub dir_part: String,
    pub prefix: String,
    /// Changes with every scan that is asked for.
    pub generation: u64,
    /// What the last scan was asked for.
    pub last_scan_dir: Option<String>,
    /// Scans of another epoch are to stop.
    pub cancel_epoch: u64,
}

/// The directory of a token as it was typed: what stands before its last slash.
pub open spec fn dir_of(token: Seq<char>) -> Seq<char> {
    let n = last_at(token, '/');
    if n < 0 {
        Seq::empty()
    } else {
        token.take(n)
    }
}

/// What stands after the last slash of a text.
pub open spec fn name_of(text: Seq<char>) -> Seq<char> {
    text.skip(last_at(text, '/') + 1)
}

fn split_token(token: &str) -> (out: (String, String))
    ensures
        out.0@ == dir_of(token@),
        out.1@ == name_of(token@),
{
    let chars = chars_of(token);
    let mut after: usize = chars.len();
    assert(token@.take(after as int) =~= token@);
    while after > 0 && chars[after - 1] != '/'
        invariant
            after <= chars@.len(),
            chars@ == token@,
            last_at(token@, '/') == last_at(token@.take(after as int), '/'),
        decreases after,
    {
        assert(token@.take(after as int).drop_last() =~= token@.take(after - 1));
        after -= 1;
    }
    proof {
        if after > 0 {
            assert(token@.take(after as int).last() == chars@[after - 1]);
        }
        assert(last_at(token@, '/') == after - 1);
    }
    let name = string_of(&chars, after, chars.len());
    assert(name@ =~= name_of(token@));
    let dir = if after > 0 {
        string_of(&chars, 0, after - 1)
    } else {
        String::new()
    };
    assert(dir@ =~= dir_of(token@));
    (dir, name)
}

impl DirEntry {
    /// The last segment of the path.
    pub fn file_name(&self) -> (out: String)
        ensures
            out@ == name_of(self.path@),
    {
        split_token(self.path.as_str()).1
    }

    /// An equal entry.
    pub fn copy(&self) -> (out: DirEntry)
        ensures
            out == *self,
    {
        DirEntry { path: self.path.clone(), is_dir: self.is_dir }
    }
}

/// The names that lead from the workspace to a typed directory, with `.` and
/// `..` resolved; `None` where they lead out of it.
pub open spec fn names_within(names: Seq<Seq<char>>) -> Option<Seq<Seq<char>>>
    decreases names.len(),
{
    if names.len() == 0 {
        Some(Seq::empty())
    } else {
        match names_within(names.drop_last()) {
            None => None,
            Some(before) => {
                let name = names.last();
                if name.len() == 0 || name == "."@ {
                    Some(before)
                } else if name == ".."@ {
                    if before.len() == 0 {
                        None
                    } else {
                        Some(before.drop_last())
                    }
                } else {
                    Some(before.push(name))
                }
            },
        }
    }
}

/// A typed directory below the workspace, by its text alone; `None` where it
/// starts at the root or leads out of the workspace.
pub open spec fn relative_dir(dir_part: Seq<char>) -> Option<Seq<char>> {
    if rooted(dir_part) {
        None
    } else {
        match names_within(split_at_each(dir_part, '/')) {
            None => None,
            Some(names) => Some(join(names, "/"@)),
        }
    }
}

/// A typed directory below the workspace. What starts at the root or leads out
/// of the workspace is none.
pub fn resolve_relative_dir(dir_part: &str) -> (out: Option<String>)
    ensures
        opt_text(out) == relative_dir(dir_part@),
{
    if is_rooted(dir_part) {
        return None;
    }
    let names = split_chars(dir_part, '/');
    let ghost views = texts(names@);
    let mut kept: Vec<String> = Vec::new();
    let mut i: usize = 0;
    assert(texts(kept@) =~= Seq::empty());
    assert(views.take(0) =~= Seq::empty());
    while i < names.len()
        invariant
            i <= names@.len(),
            views == texts(names@),
            views == split_at_each(dir_part@, '/'),
            !rooted(dir_part@),
            names_within(views.take(i as int)) == Some(texts(kept@)),
        decreases names@.len() - i,
    {
        let ghost before = texts(kept@);
        let name = names[i].clone();
        assert(views.take(i as int + 1).drop_last() =~= views.take(i as int));
        assert(views.take(i as int + 1).last() == name@);
        if name.as_str().is_empty() || same(name.as_str(), ".") {
        } else if same(name.as_str(), "..") {
            if kept.len() == 0 {
                proof {
                    assert(before.len() == 0);
                    assert(names_within(views.take(i as int + 1)) is None);
                    lemma_leaving_is_final(views, i as int + 1);
                }
                return None;
            }
            let _ = kept.pop();
            assert(texts(kept@) =~= before.drop_last());
        } else {
            kept.push(name);
            assert(texts(kept@) =~= before.push(name@));
        }
        i += 1;
    }
    assert(views.take(i as int) =~= views);
    Some(join_all(&kept, "/"))
}

proof fn lemma_leaving_is_final(names: Seq<Seq<char>>, n: int)
    requires
        0 <= n <= names.len(),
        names_within(names.take(n)) is None,
    ensures
        names_within(names) is None,
    decreases names.len() - n,
{
    if n < names.len() {
        assert(names.take(n + 1).drop_last() =~= names.take(n));
        lemma_leaving_is_final(names, n + 1);
    } else {
        assert(names.take(n) =~= names);
    }
}

/// A typed directory that is found in the workspace never leads above it: its
/// names hold no `..`, and none is empty.
pub proof fn found_directories_stay_inside(dir_part: Seq<char>)
    requires
        relative_dir(dir_part) is Some,
    ensures
        ({
            let names = names_within(split_at_each(dir_part, '/'))->0;
            forall|i: int|
                0 <= i < names.len() ==> (#[trigger] names[i]) != ".."@ && names[i] != "."@
                    && names[i].len() > 0
        }),
{
    lemma_names_stay_inside(split_at_each(dir_part, '/'));
}

proof fn lemma_names_stay_inside(names: Seq<Seq<char>>)
    requires
        names_within(names) is Some,
    ensures
        forall|i: int|
            0 <= i < names_within(names)->0.len() ==> (#[trigger] names_within(names)->0[i]) != ".."@
                && names_within(names)->0[i] != "."@ && names_within(names)->0[i].len() > 0,
    decreases names.len(),
{
    if names.len() > 0 {
        lemma_names_stay_inside(names.drop_last());
    }
}

/// Whether a name counts when two typed directories are told apart: empty ones
/// do not, nor does `.`, but at the beginning.
pub open spec fn counts(names: Seq<Seq<char>>, i: int) -> bool {
    names[i].len() > 0 && (names[i] != "."@ || i == 0)
}

/// The first `n` names as far as they count.
pub open spec fn counted(names: Seq<Seq<char>>, n: nat) -> Seq<Seq<char>>
    decreases n,
{
    if n == 0 {
        Seq::empty()
    } else if counts(names, n - 1) {
        counted(names, (n - 1) as nat).push(names[n - 1])
    } else {
        counted(names, (n - 1) as nat)
    }
}

/// What a typed directory is told apart by. The workspace itself is `.`.
pub open spec fn key_of(dir_part: Seq<char>) -> Seq<char> {
    if dir_part.len() == 0 {
        "."@
    } else {
        let names = split_at_each(dir_part, '/');
        join(counted(names, names.len()), "/"@)
    }
}

fn scan_key(dir_part: &str) -> (out: String)
    ensures
        out@ == key_of(dir_part@),
{
    if dir_part.is_empty() {
        return owned(".");
    }
    let names = split_chars(dir_part, '/');
    let ghost views = texts(names@);
    let mut kept: Vec<String> = Vec::new();
    let mut i: usize = 0;
    assert(texts(kept@) =~= Seq::empty());
    while i < names.len()
        invariant
            i <= names@.len(),
            views == texts(names@),
            texts(kept@) == counted(views, i as nat),
        decreases names@.len() - i,
    {
        let ghost before = texts(kept@);
        let name = names[i].clone();
        assert(views[i as int] == name@);
        if !name.as_str().is_empty() && (i == 0 || !same(name.as_str(), ".")) {
            kept.push(name);
            assert(texts(kept@) =~= before.push(name@));
        }
        i += 1;
    }
    join_all(&kept, "/")
}

/// Whether `part` stands in `whole`.
pub open spec fn holds(whole: Seq<char>, part: Seq<char>) -> bool {
    exists|i: int| 0 <= i <= whole.len() - part.len() && #[trigger] stands(whole, part, i)
}

/// Whether `part` stands in `whole` at `i`.
pub open spec fn stands(whole: Seq<char>, part: Seq<char>, i: int) -> bool {
    whole.subrange(i, i + part.len()) == part
}

fn stands_here(whole: &Vec<char>, part: &Vec<char>, i: usize) -> (out: bool)
    requires
        i + part@.len() <= whole@.len(),
    ensures
        out == stands(whole@, part@, i as int),
{
    let size = whole.len();
    let mut k: usize = 0;
    while k < part.len()
        invariant
            k <= part@.len(),
            size == whole@.len(),
            i + part@.len() <= size,
            forall|j: int| 0 <= j < k ==> whole@[i + j] == #[trigger] part@[j],
        decreases part@.len() - k,
    {
        if whole[i + k] != part[k] {
            assert(whole@.subrange(i as int, i + part@.len())[k as int] == whole@[i + k]);
            return false;
        }
        k += 1;
    }
    assert(whole@.subrange(i as int, i + part@.len()) =~= part@);
    true
}

fn holds_text(whole: &str, part: &str) -> (out: bool)
    ensures
        out == holds(whole@, part@),
{
    let a = chars_of(whole);
    let b = chars_of(part);
    if b.len() > a.len() {
        return false;
    }
    let last: usize = a.len() - b.len();
    let mut i: usize = 0;
    while i <= last
        invariant
            i <= last + 1,
            last == a@.len() - b@.len(),
            last < usize::MAX || b@.len() == 0,
            a@ == whole@,
            b@ == part@,
            forall|k: int| 0 <= k < i ==> !#[trigger] stands(whole@, part@, k),
        decreases last + 1 - i,
    {
        if stands_here(&a, &b, i) {
            return true;
        }
        if i == last {
            return false;
        }
        i += 1;
    }
    false
}

fn starts_with_text(whole: &str, part: &str) -> (out: bool)
    ensures
        out == part@.is_prefix_of(whole@),
{
    let a = chars_of(whole);
    let b = chars_of(part);
    if b.len() > a.len() {
        return false;
    }
    assert(a@.subrange(0, b@.len() as int) =~= a@.take(b@.len() as int));
    stands_here(&a, &b, 0)
}

/// Whether an entry is shown for a prefix in small letters: there is none, or
/// its path holds the prefix, or its name starts with it, whatever the case of
/// their letters.
pub open spec fn matches(path: Seq<char>, name: Seq<char>, prefix: Seq<char>) -> bool {
    ||| prefix.len() == 0
    ||| holds(lowercase(path), prefix)
    ||| prefix.is_prefix_of(lowercase(name))
}

/// Whether an entry is shown for a prefix in small letters.
pub fn matches_prefix(path: &str, name: &str, prefix: &str) -> (out: bool)
    ensures
        out == matches(path@, name@, prefix@),
{
    prefix.is_empty() || holds_text(to_lowercase(path).as_str(), prefix) || starts_with_text(
        to_lowercase(name).as_str(),
        prefix,
    )
}

/// The entries that are shown for a typed prefix: the first that match, no more
/// than fit.
pub open spec fn shown_entries(entries: Seq<DirEntry>, prefix: Seq<char>) -> Seq<DirEntry> {
    let all = entries.filter(
        |e: DirEntry| matches(e.path@, name_of(e.path@), lowercase(prefix)),
    );
    if all.len() > SCAN_LIMIT {
        all.take(SCAN_LIMIT as int)
    } else {
        all
    }
}

/// A selection that is still among `len` entries.
pub open spec fn held(selected: usize, len: nat) -> usize {
    if selected < len {
        selected
    } else if len == 0 {
        0
    } else {
        (len - 1) as usize
    }
}

/// Whether a reply is to the last scan that was asked for.
pub open spec fn is_current(controller: CompletionController, reply: Option<ScanReply>) -> bool {
    &&& reply is Some
    &&& reply->0.generation == controller.generation
    &&& opt_text(controller.last_scan_dir) == Some(reply->0.key@)
}

/// Whether a reply is news.
pub open spec fn news_of(controller: CompletionController, reply: Option<ScanReply>) -> Poll {
    if is_current(controller, reply) {
        Poll::Changed
    } else {
        Poll::Idle
    }
}

/// Whether `after` is `before` with a reply taken in: what was found is shown as
/// far as it goes with what was typed, or the failure is.
pub open spec fn polled(
    before: CompletionController,
    reply: Option<ScanReply>,
    after: CompletionController,
) -> bool {
    if !is_current(before, reply) {
        after == before
    } else {
        &&& after == (CompletionController {
            state: after.state,
            entries: after.entries,
            ..before
        })
        &&& match reply->0.result {
            Ok(entries) => {
                &&& after.entries == entries
                &&& after.state.items@ == shown_entries(entries@, before.prefix@)
                &&& after.state.selected == held(before.state.selected, after.state.items@.len())
                &&& after.state.status@ == CompletionStatus::<Seq<char>>::Ready
            },
            Err(failure) => {
                &&& after.entries@.len() == 0
                &&& after.state.items@.len() == 0
                &&& after.state.selected == before.state.selected
                &&& after.state.status@ == CompletionStatus::Error(
                    scan_error(failure.not_found, failure.message@),
                )
            },
        }
    }
}

impl CompletionController {
    /// A popup that is closed, over the workspace `root`.
    pub fn with_root(root: String) -> (out: CompletionController)
        ensures
            !out.open,
            out.root == root,
            out.entries@.len() == 0,
            out.state.items@.len() == 0,
            out.state.selected == 0,
            out.state.status@ == CompletionStatus::<Seq<char>>::Loading,
            out.dir_part@.len() == 0,
            out.prefix@.len() == 0,
            out.generation == 0,
            out.last_scan_dir is None,
            out.cancel_epoch == 1,
    {
        CompletionController {
            state: CompletionState::default(),
            open: false,
            root,
            entries: Vec::new(),
            dir_part: String::new(),
            prefix: String::new(),
            generation: 0,
            last_scan_dir: None,
            cancel_epoch: 1,
        }
    }

    fn cancel_scan(&mut self)
        ensures
            *final(self) == (CompletionController {
                cancel_epoch: vstd::wrapping::u64_specs::wrapping_add(old(self).cancel_epoch, 1),
                ..*old(self)
            }),
    {
        self.cancel_epoch = self.cancel_epoch.wrapping_add(1);
    }

    /// Show the entries that match the prefix.
    pub fn refilter(&mut self)
        ensures
            final(self).state.items@ == shown_entries(old(self).entries@, old(self).prefix@),
            final(self).state.selected == held(
                old(self).state.selected,
                final(self).state.items@.len(),
            ),
            final(self).state.status == old(self).state.status,
            *final(self) == (CompletionController { state: final(self).state, ..*old(self) }),
    {
        let prefix = to_lowercase(self.prefix.as_str());
        let ghost fits = |e: DirEntry|
            matches(e.path@, name_of(e.path@), lowercase(self.prefix@));
        let mut items: Vec<DirEntry> = Vec::new();
        let mut i: usize = 0;
        assert(self.entries@.take(0).filter(fits) =~= Seq::empty());
        while i < self.entries.len() && items.len() < SCAN_LIMIT
            invariant
                i <= self.entries@.len(),
                prefix@ == lowercase(self.prefix@),
                fits == (|e: DirEntry|
                    matches(e.path@, name_of(e.path@), lowercase(self.prefix@))),
                items@ == self.entries@.take(i as int).filter(fits),
                items@.len() <= SCAN_LIMIT,
            decreases self.entries@.len() - i,
        {
            let entry = &self.entries[i];
            proof {
                let seen = self.entries@.take(i as int);
                assert(self.entries@.take(i as int + 1) =~= seen.push(self.entries@[i as int]));
                seen.lemma_filter_push(self.entries@[i as int], fits);
            }
            if matches_prefix(entry.path.as_str(), entry.file_name().as_str(), prefix.as_str()) {
                items.push(entry.copy());
            }
            i += 1;
        }
        proof {
            let all = self.entries@.filter(fits);
            if i < self.entries@.len() {
                let seen = self.entries@.take(i as int);
                let rest = self.entries@.skip(i as int);
                assert(self.entries@ =~= seen + rest);
                Seq::filter_distributes_over_add(seen, rest, fits);
                assert(all =~= items@ + rest.filter(fits));
                assert(all.take(SCAN_LIMIT as int) =~= items@);
                if all.len() <= SCAN_LIMIT {
                    assert(all =~= items@);
                }
            } else {
                assert(self.entries@.take(i as int) =~= self.entries@);
            }
            assert(items@ == shown_entries(self.entries@, self.prefix@));
        }
        self.state.items = items;
        if self.state.selected >= self.state.items.len() {
            self.state.selected = if self.state.items.len() == 0 {
                0
            } else {
                self.state.items.len() - 1
            };
        }
    }

    /// Take in the token as it now stands after `@`. `inside` is whether the
    /// directory that it names, as far as it exists, lies in the workspace.
    /// Only another directory asks for a scan; a longer prefix shows less of
    /// what was found.
    pub fn update(&mut self, token: &str, inside: bool) -> (out: Option<ScanRequest>)
        requires
            old(self).generation < u64::MAX,
        ensures
            final(self).root == old(self).root,
            final(self).open,
            final(self).dir_part@ == dir_of(token@),
            final(self).prefix@ == name_of(token@),
            ({
                let outside = relative_dir(dir_of(token@)) is None || !inside;
                let key = key_of(dir_of(token@));
                let known = opt_text(old(self).last_scan_dir) == Some(key);
                let epoch = vstd::wrapping::u64_specs::wrapping_add(old(self).cancel_epoch, 1);
                if outside {
                    &&& out is None
                    &&& final(self).entries@.len() == 0
                    &&& final(self).state.items@.len() == 0
                    &&& final(self).state.selected == 0
                    &&& final(self).state.status@ == CompletionStatus::Error(
                        "path is outside the workspace"@,
                    )
                    &&& final(self).last_scan_dir is None
                    &&& final(self).generation == old(self).generation
                    &&& final(self).cancel_epoch == epoch
                } else if known {
                    &&& out is None
                    &&& final(self).entries == old(self).entries
                    &&& final(self).state.items@ == shown_entries(
                        old(self).entries@,
                        name_of(token@),
                    )
                    &&& final(self).state.selected == held(
                        old(self).state.selected,
                        final(self).state.items@.len(),
                    )
                    &&& final(self).state.status == old(self).state.status
                    &&& opt_text(final(self).last_scan_dir) == Some(key)
                    &&& final(self).generation == old(self).generation
                    &&& final(self).cancel_epoch == old(self).cancel_epoch
                } else {
                    &&& out is Some
                    &&& out->0.dir@ == under(old(self).root@, relative_dir(dir_of(token@))->0)
                    &&& out->0.key@ == key
                    &&& out->0.generation == old(self).generation + 1
                    &&& out->0.recursive == (dir_of(token@).len() == 0)
                    &&& out->0.epoch == epoch
                    &&& final(self).entries@.len() == 0
                    &&& final(self).state.items@.len() == 0
                    &&& final(self).state.selected == 0
                    &&& final(self).state.status@ == CompletionStatus::<Seq<char>>::Loading
                    &&& opt_text(final(self).last_scan_dir) == Some(key)
                    &&& final(self).generation == old(self).generation + 1
                    &&& final(self).cancel_epoch == epoch
                }
            }),
    {
        let (dir_part, prefix) = split_token(token);
        let key = scan_key(dir_part.as_str());
        let found = if inside {
            resolve_relative_dir(dir_part.as_str())
        } else {
            None
        };
        self.prefix = prefix;
        self.open = true;
        let relative = match found {
            Some(relative) => relative,
            None => {
                self.cancel_scan();
                self.entries = Vec::new();
                self.state =
                CompletionState {
                    items: Vec::new(),
                    selected: 0,
                    status: CompletionStatus::Error(owned("path is outside the workspace")),
                };
                self.dir_part = dir_part;
                self.last_scan_dir = None;
                return None;
            },
        };
        let known = match &self.last_scan_dir {
            Some(last) => same(last.as_str(), key.as_str()),
            None => false,
        };
        let recursive = dir_part.as_str().is_empty();
        self.dir_part = dir_part;
        if known {
            self.refilter();
            None
        } else {
            self.generation = self.generation + 1;
            self.last_scan_dir = Some(key.clone());
            self.entries = Vec::new();
            self.state = CompletionState::default();
            self.cancel_scan();
            let request = ScanRequest {
                dir: join_path(self.root.as_str(), relative.as_str()),
                key,
                generation: self.generation,
                recursive,
                epoch: self.cancel_epoch,
            };
            self.refilter();
            Some(request)
        }
    }

    /// Take in what a scan has found. The result of an earlier scan, or of
    /// another directory, is dropped.
    pub fn poll(&mut self, reply: Option<ScanReply>) -> (out: Poll)
        ensures
            out == news_of(*old(self), reply),
            polled(*old(self), reply, *final(self)),
    {
        let reply = match reply {
            Some(reply) => reply,
            None => {
                return Poll::Idle;
            },
        };
        let wanted = match &self.last_scan_dir {
            Some(last) => same(last.as_str(), reply.key.as_str()),
            None => false,
        };
        if reply.generation != self.generation || !wanted {
            return Poll::Idle;
        }
        match reply.result {
            Ok(entries) => {
                self.entries = entries;
                self.refilter();
                self.state.status = CompletionStatus::Ready;
            },
            Err(failure) => {
                self.entries = Vec::new();
                self.state.items = Vec::new();
                self.state.status =
                CompletionStatus::Error(completion_error(failure.not_found, failure.message));
            },
        }
        Poll::Changed
    }

    /// Move the selection, but not past either end.
    pub fn move_selection(&mut self, delta: isize)
        ensures
            *final(self) == (CompletionController {
                state: CompletionState {
                    selected: final(self).state.selected,
                    ..old(self).state
                },
                ..*old(self)
            }),
            final(self).state.selected as int == if old(self).state.items@.len() == 0 {
                old(self).state.selected as int
            } else {
                clamped(
                    old(self).state.selected as int,
                    delta as int,
                    old(self).state.items@.len() as int,
                )
            },
    {
        let len = self.state.items.len();
        if len == 0 {
            return;
        }
        self.state.selected = move_within(self.state.selected, delta, len);
    }

    /// Accept the selected entry, where the candidates are known. A file closes
    /// the popup; a directory keeps it open.
    pub fn accept(&mut self) -> (out: Option<Accepted>)
        ensures
            ({
                let selected = old(self).state.selected as int;
                let ready = old(self).state.status@ == CompletionStatus::<Seq<char>>::Ready
                    && selected < old(self).state.items@.len();
                &&& out is Some <==> ready
                &&& !ready ==> *final(self) == *old(self)
                &&& ready ==> {
                    let entry = old(self).state.items@[selected];
                    let dir = old(self).dir_part@;
                    let head = if dir.len() == 0 {
                        Seq::empty()
                    } else {
                        dir.push('/')
                    };
                    &&& out->0.is_dir == entry.is_dir
                    &&& out->0.replacement@ == head + entry.path@ + if entry.is_dir {
                        seq!['/']
                    } else {
                        Seq::empty()
                    }
                    &&& entry.is_dir ==> *final(self) == *old(self)
                    &&& !entry.is_dir ==> final(self).dismissed_from(*old(self))
                }
            }),
    {
        match &self.state.status {
            CompletionStatus::Ready => {},
            _ => {
                return None;
            },
        }
        if self.state.selected >= self.state.items.len() {
            return None;
        }
        let entry = self.state.items[self.state.selected].copy();
        let mut replacement = String::new();
        if !self.dir_part.as_str().is_empty() {
            replacement.push_str(self.dir_part.as_str());
            replacement.push('/');
            assert(replacement@ =~= self.dir_part@.push('/'));
        }
        replacement.push_str(entry.path.as_str());
        if entry.is_dir {
            replacement.push('/');
        } else {
            self.dismiss();
        }
        assert(replacement@ =~= (if old(self).dir_part@.len() == 0 {
            Seq::empty()
        } else {
            old(self).dir_part@.push('/')
        }) + entry.path@ + if entry.is_dir {
            seq!['/']
        } else {
            Seq::empty()
        });
        Some(Accepted { replacement, is_dir: entry.is_dir })
    }

    /// Whether this is `before` with its popup closed and its scan called off.
    pub open spec fn dismissed_from(&self, before: CompletionController) -> bool {
        &&& !self.open
        &&& self.entries@.len() == 0
        &&& self.state.items@.len() == 0
        &&& self.state.selected == 0
        &&& self.state.status@ == CompletionStatus::<Seq<char>>::Loading
        &&& self.dir_part@.len() == 0
        &&& self.prefix@.len() == 0
        &&& self.last_scan_dir is None
        &&& self.root == before.root
        &&& self.generation == before.generation
        &&& self.cancel_epoch == vstd::wrapping::u64_specs::wrapping_add(before.cancel_epoch, 1)
    }

    /// Close the popup and call off its scan.
    pub fn dismiss(&mut self)
        ensures
            final(self).dismissed_from(*old(self)),
    {
        self.open = false;
        self.entries = Vec::new();
        self.state = CompletionState::default();
        self.dir_part = String::new();
        self.prefix = String::new();
        self.last_scan_dir = None;
        self.cancel_scan();
    }

    /// Whether the popup is open.
    pub fn is_open(&self) -> (out: bool)
        ensures
            out == self.open,
    {
        self.open
    }

    /// Whether anything is shown.
    pub fn has_items(&self) -> (out: bool)
        ensures
            out == (self.state.items@.len() > 0),
    {
        self.state.items.len() > 0
    }

    /// What is shown while the popup is open.
    pub fn state(&self) -> (out: Option<&CompletionState>)
        ensures
            self.open ==> out == Some(&self.state),
            !self.open ==> out is None,
    {
        if self.open {
            Some(&self.state)
        } else {
            None
        }
    }
}

/// A token is its directory, a separator and the name that is being typed; without a
/// separator it is all name.
pub proof fn tokens_are_split_at_their_last_slash(dir: Seq<char>, name: Seq<char>)
    requires
        forall|i: int| 0 <= i < name.len() ==> #[trigger] name[i] != '/',
    ensures
        dir_of(dir.push('/') + name) == dir,
        name_of(dir.push('/') + name) == name,
        dir_of(name).len() == 0,
        name_of(name) == name,
{
    let token = dir.push('/') + name;
    assert forall|i: int| dir.len() < i < token.len() implies #[trigger] token[i] != '/' by {
        assert(token[i] == name[i - dir.len() - 1]);
    }
    lemma_last_at_is(token, '/', dir.len() as int);
    lemma_last_at_is(name, '/', -1);
    assert(token.take(dir.len() as int) =~= dir);
    assert(token.skip(dir.len() as int + 1) =~= name);
    assert(name.skip(0) =~= name);
}

/// What is shown of the entries that were found are entries that go with what was
/// typed, no more than fit. All that go with it are shown where they fit; and without
/// anything typed all go with it.
pub proof fn entries_that_match_are_shown(entries: Seq<DirEntry>, prefix: Seq<char>)
    ensures
        shown_entries(entries, prefix).len() <= 250,
        forall|e: DirEntry| #[trigger]
            shown_entries(entries, prefix).contains(e) ==> entries.contains(e) && matches(
                e.path@,
                name_of(e.path@),
                lowercase(prefix),
            ),
        forall|e: DirEntry|
            shown_entries(entries, prefix).len() < 250 && #[trigger] entries.contains(e) && matches(
                e.path@,
                name_of(e.path@),
                lowercase(prefix),
            ) ==> shown_entries(entries, prefix).contains(e),
{
    let goes = |e: DirEntry| matches(e.path@, name_of(e.path@), lowercase(prefix));
    let all = entries.filter(goes);
    let shown = shown_entries(entries, prefix);
    assert forall|e: DirEntry| #[trigger] shown.contains(e) implies entries.contains(e) && matches(
        e.path@,
        name_of(e.path@),
        lowercase(prefix),
    ) by {
        let i = choose|i: int| 0 <= i < shown.len() && shown[i] == e;
        assert(all[i] == e);
        assert(all.contains(e));
        entries.lemma_filter_pred(goes, i);
        assert(goes(all[i]));
        lemma_filtered_is_within(entries, goes, e);
    }
    assert forall|e: DirEntry|
        shown.len() < 250 && #[trigger] entries.contains(e) && matches(
            e.path@,
            name_of(e.path@),
            lowercase(prefix),
        ) implies shown.contains(e) by {
        let i = choose|i: int| 0 <= i < entries.len() && entries[i] == e;
        assert(goes(entries[i]));
        entries.lemma_filter_contains(goes, i);
        assert(all.contains(entries[i]));
        assert(shown == all);
    }
}

proof fn lemma_filtered_is_within(
    entries: Seq<DirEntry>,
    goes: spec_fn(DirEntry) -> bool,
    e: DirEntry,
)
    requires
        entries.filter(goes).contains(e),
    ensures
        entries.contains(e),
    decreases entries.len(),
{
    reveal(Seq::filter);
    if entries.len() > 0 {
        let init = entries.drop_last();
        let i = choose|i: int| 0 <= i < entries.filter(goes).len() && entries.filter(goes)[i] == e;
        if i < init.filter(goes).len() {
            assert(init.filter(goes)[i] == e);
            assert(init.filter(goes).contains(e));
            lemma_filtered_is_within(init, goes, e);
            let k = choose|k: int| 0 <= k < init.len() && init[k] == e;
            assert(entries[k] == e);
        } else {
            assert(entries[entries.len() - 1] == e);
        }
    }
}

/// An entry goes with what was typed where its path holds it, or its name begins with
/// it, in small letters; without anything typed every entry does.
pub proof fn entries_go_with_what_they_hold(
    before: Seq<char>,
    prefix: Seq<char>,
    after: Seq<char>,
    path: Seq<char>,
    name: Seq<char>,
)
    ensures
        lowercase(path) == before + prefix + after ==> matches(path, name, prefix),
        lowercase(name) == prefix + after ==> matches(path, name, prefix),
        matches(path, name, Seq::empty()),
        matches(path, name, prefix) && prefix.len() > lowercase(path).len() && prefix.len()
            > lowercase(name).len() ==> prefix.len() == 0,
{
    if lowercase(path) == before + prefix + after {
        let i = before.len() as int;
        assert((before + prefix + after).subrange(i, i + prefix.len()) =~= prefix);
        assert(stands(lowercase(path), prefix, i));
    }
    if lowercase(name) == prefix + after {
        assert(prefix =~= (prefix + after).take(prefix.len() as int));
    }
}

/// A typed directory is found by its names, one by one: a plain name leads into it,
/// `..` back out of it, and out of the workspace nothing is found.
pub proof fn directories_are_found_name_by_name(names: Seq<Seq<char>>, name: Seq<char>)
    requires
        name.len() > 0,
        name != "."@,
        name != ".."@,
    ensures
        names_within(names) is Some ==> names_within(names.push(name)) == Some(
            names_within(names)->0.push(name),
        ),
        names_within(names) is Some ==> names_within(names.push(name).push(".."@)) == names_within(
            names,
        ),
        names_within(names.push("."@)) == names_within(names),
        names_within(seq![".."@]) is None,
        names_within(names) is None ==> names_within(names.push(name)) is None,
{
    reveal_strlit(".");
    reveal_strlit("..");
    reveal_with_fuel(names_within, 3);
    assert(names.push(name).drop_last() =~= names);
    assert(names.push(name).push(".."@).drop_last() =~= names.push(name));
    assert(names.push("."@).drop_last() =~= names);
    assert(seq![".."@].drop_last().len() == 0);
    assert(".."@.len() != "."@.len());
    if names_within(names) is Some {
        assert(names_within(names)->0.push(name).drop_last() =~= names_within(names)->0);
    }
}

/// A selection stays where it is as long as there is an entry for it, and else moves
/// to the last one.
pub proof fn selections_are_held(selected: usize, len: nat)
    requires
        0 < len <= usize::MAX,
    ensures
        held(selected, len) < len,
        selected < len ==> held(selected, len) == selected,
        selected >= len ==> held(selected, len) == len - 1,
{
}

proof fn lemma_counted(first: Seq<Seq<char>>, more: Seq<Seq<char>>, n: nat)
    requires
        first.len() > 0,
        n <= more.len(),
    ensures
        counted(first + more, first.len() + n) == counted(first, first.len()) + more.take(
            n as int,
        ).filter(|name: Seq<char>| name.len() > 0 && name != "."@),
    decreases n,
{
    let plain = |name: Seq<char>| name.len() > 0 && name != "."@;
    let all = first + more;
    if n == 0 {
        lemma_counted_first(first, more, first.len());
        reveal(Seq::filter);
        assert(more.take(0) =~= Seq::empty());
        assert(more.take(0).filter(plain) =~= Seq::empty());
    } else {
        let m = (n - 1) as nat;
        lemma_counted(first, more, m);
        assert(all[(first.len() + m) as int] == more[m as int]);
        assert(more.take(n as int) =~= more.take(m as int).push(more[m as int]));
        more.take(m as int).lemma_filter_push(more[m as int], plain);
        assert(counts(all, (first.len() + m) as int) == plain(more[m as int]));
    }
}

proof fn lemma_counted_first(first: Seq<Seq<char>>, more: Seq<Seq<char>>, n: nat)
    requires
        n <= first.len(),
    ensures
        counted(first + more, n) == counted(first, n),
    decreases n,
{
    if n > 0 {
        lemma_counted_first(first, more, (n - 1) as nat);
        assert((first + more)[n - 1] == first[n - 1]);
    }
}

/// An empty name or a dot within a typed directory does not make it another one.
pub proof fn dots_within_do_not_tell_apart(a: Seq<char>, name: Seq<char>, b: Seq<char>)
    requires
        name == ""@ || name == "."@,
    ensures
        key_of((a.push('/') + name).push('/') + b) == key_of(a.push('/') + b),
{
    reveal_strlit("");
    reveal_strlit(".");
    let plain = |name: Seq<char>| name.len() > 0 && name != "."@;
    parts_on_either_side(a.push('/') + name, b, '/');
    parts_on_either_side(a, name, '/');
    parts_on_either_side(a, b, '/');
    let first = split_at_each(a, '/');
    let last = split_at_each(b, '/');
    crate::path::parts_are_joined_again(a, '/');
    crate::text::lemma_first_at(name, '/');
    let none = Seq::<Seq<char>>::empty();
    assert(split_at_each(name, '/') =~= none.push(name));
    let between = none.push(name) + last;
    assert(first + none.push(name) + last =~= first + between);
    lemma_counted(first, between, between.len());
    lemma_counted(first, last, last.len());
    assert(between.take(between.len() as int) =~= between);
    assert(last.take(last.len() as int) =~= last);
    Seq::filter_distributes_over_add(none.push(name), last, plain);
    none.lemma_filter_push(name, plain);
    reveal(Seq::filter);
    assert(none.filter(plain) =~= none);
    assert(!plain(name));
    assert(none + last.filter(plain) =~= last.filter(plain));
}

/// A reply to another scan than the last one, by its number or by its directory, changes
/// nothing and is no news; one to the last scan is taken in.
pub proof fn stale_replies_change_nothing(
    before: CompletionController,
    reply: ScanReply,
    after: CompletionController,
)
    requires
        polled(before, Some(reply), after),
    ensures
        reply.generation != before.generation ==> after == before && news_of(before, Some(reply))
            == Poll::Idle,
        opt_text(before.last_scan_dir) != Some(reply.key@) ==> after == before && news_of(
            before,
            Some(reply),
        ) == Poll::Idle,
        reply.generation == before.generation && opt_text(before.last_scan_dir) == Some(reply.key@)
            ==> {
            &&& news_of(before, Some(reply)) == Poll::Changed
            &&& reply.result is Ok ==> after.entries == reply.result->Ok_0
            &&& reply.result is Err ==> after.entries@.len() == 0
            &&& after.prefix == before.prefix
        },
{
}

} // verus!
