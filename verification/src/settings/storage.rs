//! Where the settings files live, and how one gets written.
use crate::json::{
    as_object, empty_group, get_member, into_object, json_of, members, new_object, no_members,
    object_in, object_value, parse_json, pretty, pretty_json, remove_member, retain_groups,
    lemma_places_are_the_same, same_json, same_place, set_member, value_at,
};
use crate::path::{join_path, split_at_each, split_chars, under};
use crate::text::{join, join_all, joined, joined3, opt_text, texts};
use vstd::prelude::*;

verus! {

/// The name of a settings file.
pub const SETTINGS_FILE: &'static str = "settings.json";

/// The name of a project's settings directory.
pub const SETTINGS_DIR: &'static str = ".alan";

/// The settings file of a project directory.
pub open spec fn project_file(dir: Seq<char>) -> Seq<char> {
    under(under(dir, SETTINGS_DIR@), SETTINGS_FILE@)
}

/// The global settings file in a directory.
pub fn global_path(dir: &str) -> (out: String)
    ensures
        out@ == under(dir@, SETTINGS_FILE@),
{
    join_path(dir, SETTINGS_FILE)
}

/// A directory on the way from the current one to the root, with what was found
/// there.
pub struct Ancestor {
    pub path: String,
    /// Whether it has a settings file that is not the global one.
    pub has_settings: bool,
    /// Whether it is a repository.
    pub is_repository: bool,
}

/// Whether the settings file of the `i`-th directory is the nearest: no nearer
/// directory has one, and none is a repository of its own.
pub open spec fn nearest(walk: Seq<Ancestor>, i: int) -> bool {
    &&& 0 <= i < walk.len()
    &&& walk[i].has_settings
    &&& forall|k: int|
        0 <= k < i ==> !(#[trigger] walk[k]).has_settings && !walk[k].is_repository
}

/// The nearest project settings file, if any. The walk goes from the current
/// directory up, and stops at a repository: settings above it are not for it.
pub fn project_settings(walk: &Vec<Ancestor>) -> (out: Option<String>)
    ensures
        match out {
            Some(path) => exists|i: int| #[trigger]
                nearest(walk@, i) && path@ == project_file(walk@[i].path@),
            None => forall|i: int| !#[trigger] nearest(walk@, i),
        },
{
    let mut i: usize = 0;
    while i < walk.len()
        invariant
            i <= walk@.len(),
            forall|k: int|
                0 <= k < i ==> !(#[trigger] walk@[k]).has_settings && !walk@[k].is_repository,
        decreases walk@.len() - i,
    {
        if walk[i].has_settings {
            assert(nearest(walk@, i as int));
            return Some(target_in(walk[i].path.as_str()));
        }
        if walk[i].is_repository {
            assert forall|k: int| !#[trigger] nearest(walk@, k) by {
                if nearest(walk@, k) && k > i {
                    assert(!walk@[i as int].is_repository);
                }
            }
            return None;
        }
        i += 1;
    }
    assert forall|k: int| !#[trigger] nearest(walk@, k) by {
        if nearest(walk@, k) {
            assert(walk@[k].has_settings);
        }
    }
    None
}

fn target_in(dir: &str) -> (out: String)
    ensures
        out@ == project_file(dir@),
{
    join_path(join_path(dir, SETTINGS_DIR).as_str(), SETTINGS_FILE)
}

/// Where the nearest repository stands in the walk.
pub fn repo_root(walk: &Vec<Ancestor>) -> (out: Option<usize>)
    ensures
        match out {
            Some(i) => {
                &&& i < walk@.len()
                &&& walk@[i as int].is_repository
                &&& forall|k: int| 0 <= k < i ==> !(#[trigger] walk@[k]).is_repository
            },
            None => forall|k: int| 0 <= k < walk@.len() ==> !(#[trigger] walk@[k]).is_repository,
        },
{
    let mut i: usize = 0;
    while i < walk.len()
        invariant
            i <= walk@.len(),
            forall|k: int| 0 <= k < i ==> !(#[trigger] walk@[k]).is_repository,
        decreases walk@.len() - i,
    {
        if walk[i].is_repository {
            return Some(i);
        }
        i += 1;
    }
    None
}

/// Where a project's first settings go: to the root of its repository, and
/// without one to the current directory.
pub fn project_target(current_dir: &str, walk: &Vec<Ancestor>) -> (out: String)
    ensures
        (forall|k: int| 0 <= k < walk@.len() ==> !(#[trigger] walk@[k]).is_repository) ==> out@
            == project_file(current_dir@),
        forall|i: int|
            0 <= i < walk@.len() && (#[trigger] walk@[i]).is_repository && (forall|k: int|
                0 <= k < i ==> !(#[trigger] walk@[k]).is_repository) ==> out@ == project_file(
                walk@[i].path@,
            ),
{
    match repo_root(walk) {
        Some(i) => target_in(walk[i].path.as_str()),
        None => target_in(current_dir),
    }
}

/// Where a path of member names is blocked: after how many names stands a value
/// that is no object, so that no member can be set in it.
pub open spec fn blocked_at(value: serde_json::Value, path: Seq<Seq<char>>) -> Option<nat>
    decreases path.len(),
{
    if path.len() == 0 {
        None
    } else {
        match object_in(value) {
            None => Some(0),
            Some(object) => if path.len() > 1 && members(object).contains_key(path[0]) {
                match blocked_at(members(object)[path[0]], path.drop_first()) {
                    Some(n) => Some(n + 1),
                    None => None,
                }
            } else {
                None
            },
        }
    }
}

/// Whether one path leads to or through the end of the other.
pub open spec fn on_one_way(a: Seq<Seq<char>>, b: Seq<Seq<char>>) -> bool {
    a.is_prefix_of(b) || b.is_prefix_of(a)
}

/// Whether `after` is `before` with a value set at a path, or cleared there:
/// the value stands at the path, every name before it leads to an object, and
/// what is not on the way is as it was.
pub open spec fn set_at(
    before: serde_json::Value,
    after: serde_json::Value,
    path: Seq<Seq<char>>,
    value: Option<serde_json::Value>,
) -> bool {
    &&& value_at(after, path) == value
    &&& forall|q: Seq<Seq<char>>|
        q.len() < path.len() && q.is_prefix_of(path) ==> {
            &&& (#[trigger] value_at(after, q)) is Some
            &&& object_in(value_at(after, q)->0) is Some
        }
    &&& forall|q: Seq<Seq<char>>|
        !on_one_way(q, path) ==> #[trigger] value_at(after, q) == value_at(before, q)
}

proof fn lemma_set_one(
    before: serde_json::Value,
    after: serde_json::Value,
    path: Seq<Seq<char>>,
    value: Option<serde_json::Value>,
)
    requires
        path.len() == 1,
        object_in(before) is Some,
        object_in(after) is Some,
        match value {
            Some(v) => members(object_in(after)->0) == members(object_in(before)->0).insert(
                path[0],
                v,
            ),
            None => members(object_in(after)->0) == members(object_in(before)->0).remove(path[0]),
        },
    ensures
        set_at(before, after, path, value),
{
    reveal_with_fuel(value_at, 2);
    assert(path.drop_first().len() == 0);
    assert forall|q: Seq<Seq<char>>| q.len() < path.len() && q.is_prefix_of(path) implies {
        &&& (#[trigger] value_at(after, q)) is Some
        &&& object_in(value_at(after, q)->0) is Some
    } by {
        assert(q.len() == 0);
    }
    assert forall|q: Seq<Seq<char>>| !on_one_way(q, path) implies #[trigger] value_at(after, q)
        == value_at(before, q) by {
        if q.len() == 0 {
            assert(q.is_prefix_of(path));
        } else if q[0] == path[0] {
            assert(path =~= q.take(1));
            assert(path.is_prefix_of(q));
        }
    }
}

proof fn lemma_set_below(
    before: serde_json::Value,
    after: serde_json::Value,
    child: serde_json::Value,
    grown: serde_json::Value,
    path: Seq<Seq<char>>,
    value: Option<serde_json::Value>,
)
    requires
        path.len() > 1,
        object_in(before) is Some,
        object_in(after) is Some,
        members(object_in(after)->0) == members(object_in(before)->0).insert(path[0], grown),
        if members(object_in(before)->0).contains_key(path[0]) {
            child == members(object_in(before)->0)[path[0]]
        } else {
            empty_group(child)
        },
        set_at(child, grown, path.drop_first(), value),
    ensures
        set_at(before, after, path, value),
{
    let rest = path.drop_first();
    let old_members = members(object_in(before)->0);
    assert(value_at(after, path) == value_at(grown, rest));
    assert forall|q: Seq<Seq<char>>| q.len() < path.len() && q.is_prefix_of(path) implies {
        &&& (#[trigger] value_at(after, q)) is Some
        &&& object_in(value_at(after, q)->0) is Some
    } by {
        if q.len() > 0 {
            let tail = q.drop_first();
            assert(q[0] == path[0]);
            assert(tail =~= rest.take(tail.len() as int));
            assert(tail.is_prefix_of(rest));
            assert(value_at(after, q) == value_at(grown, tail));
        }
    }
    assert forall|q: Seq<Seq<char>>| !on_one_way(q, path) implies #[trigger] value_at(after, q)
        == value_at(before, q) by {
        if q.len() == 0 {
            assert(q.is_prefix_of(path));
        } else if q[0] == path[0] {
            let tail = q.drop_first();
            assert(value_at(after, q) == value_at(grown, tail));
            assert(!on_one_way(tail, rest)) by {
                if tail.is_prefix_of(rest) {
                    assert(q =~= path.take(q.len() as int)) by {
                        assert forall|i: int| 0 <= i < q.len() implies q[i] == path[i] by {
                            if i > 0 {
                                assert(tail[i - 1] == rest[i - 1]);
                            }
                        }
                    }
                    assert(q.is_prefix_of(path));
                }
                if rest.is_prefix_of(tail) {
                    assert(path =~= q.take(path.len() as int)) by {
                        assert forall|i: int| 0 <= i < path.len() implies path[i] == q[i] by {
                            if i > 0 {
                                assert(rest[i - 1] == tail[i - 1]);
                            }
                        }
                    }
                    assert(path.is_prefix_of(q));
                }
            }
            assert(value_at(grown, tail) == value_at(child, tail));
            if !old_members.contains_key(path[0]) {
                assert(tail.len() > 0) by {
                    if tail.len() == 0 {
                        assert(tail.is_prefix_of(rest));
                    }
                }
                assert(value_at(child, tail) is None);
                assert(value_at(before, q) is None);
            }
        }
    }
}

/// How far a path can be walked before a value blocks it, from its `from`-th
/// name on.
fn find_block(value: &serde_json::Value, parts: &Vec<String>, from: usize) -> (out: Option<usize>)
    requires
        from <= parts@.len(),
    ensures
        match out {
            Some(n) => from <= n < parts@.len() && blocked_at(
                *value,
                texts(parts@).skip(from as int),
            ) == Some((n - from) as nat),
            None => blocked_at(*value, texts(parts@).skip(from as int)) is None,
        },
    decreases parts@.len() - from,
{
    let ghost path = texts(parts@).skip(from as int);
    if from >= parts.len() {
        return None;
    }
    assert(path[0] == parts@[from as int]@);
    assert(path.drop_first() =~= texts(parts@).skip(from as int + 1));
    match as_object(value) {
        None => Some(from),
        Some(object) => {
            if from + 1 == parts.len() {
                return None;
            }
            match get_member(&object, parts[from].as_str()) {
                None => None,
                Some(child) => find_block(&child, parts, from + 1),
            }
        },
    }
}

fn set_parts(
    value: serde_json::Value,
    parts: &Vec<String>,
    from: usize,
    new: Option<serde_json::Value>,
) -> (out: serde_json::Value)
    requires
        from < parts@.len(),
        blocked_at(value, texts(parts@).skip(from as int)) is None,
    ensures
        set_at(value, out, texts(parts@).skip(from as int), new),
        object_in(out) is Some,
    decreases parts@.len() - from,
{
    let ghost path = texts(parts@).skip(from as int);
    let count = parts.len();
    assert(path[0] == parts@[from as int]@);
    assert(path.drop_first() =~= texts(parts@).skip(from as int + 1));
    let mut object = match into_object(value) {
        Ok(object) => object,
        Err(_) => new_object(),
    };
    let ghost before = members(object);
    if from + 1 == count {
        match new {
            Some(new_value) => set_member(&mut object, parts[from].clone(), new_value),
            None => {
                let _ = remove_member(&mut object, parts[from].as_str());
            },
        }
        let out = object_value(object);
        proof {
            lemma_set_one(value, out, path, new);
        }
        return out;
    }
    let child = match remove_member(&mut object, parts[from].as_str()) {
        Some(child) => child,
        None => object_value(new_object()),
    };
    proof {
        if !before.contains_key(path[0]) {
            lemma_fresh_groups_are_free(child, path.drop_first());
        }
    }
    let grown = set_parts(child, parts, from + 1, new);
    set_member(&mut object, parts[from].clone(), grown);
    let out = object_value(object);
    proof {
        assert(before.remove(path[0]).insert(path[0], grown) =~= before.insert(path[0], grown));
        lemma_set_below(value, out, child, grown, path, new);
    }
    out
}

proof fn lemma_fresh_groups_are_free(group: serde_json::Value, path: Seq<Seq<char>>)
    requires
        empty_group(group),
    ensures
        blocked_at(group, path) is None,
{
}

/// The names of a key.
pub open spec fn names_of(key: Seq<char>) -> Seq<Seq<char>> {
    split_at_each(key, '.')
}

proof fn lemma_names_are_some(key: Seq<char>)
    ensures
        names_of(key).len() > 0,
{
    crate::text::lemma_first_at(key, '.');
}

proof fn lemma_block_is_within(value: serde_json::Value, path: Seq<Seq<char>>)
    requires
        blocked_at(value, path) is Some,
    ensures
        blocked_at(value, path)->0 < path.len(),
    decreases path.len(),
{
    if object_in(value) is Some {
        let object = object_in(value)->0;
        lemma_block_is_within(members(object)[path[0]], path.drop_first());
    }
}

/// Set or clear the value of a key. Groups on the way are made where they are
/// missing. A value that stands where a group belongs is not overwritten: the
/// key up to it is the error, and nothing changes.
pub fn set_path(
    root: &mut serde_json::Value,
    key: &str,
    value: Option<serde_json::Value>,
) -> (out: Result<(), String>)
    ensures
        match out {
            Ok(_) => {
                &&& blocked_at(*old(root), names_of(key@)) is None
                &&& set_at(*old(root), *final(root), names_of(key@), value)
            },
            Err(walked) => {
                &&& blocked_at(*old(root), names_of(key@)) is Some
                &&& walked@ == join(
                    names_of(key@).take(blocked_at(*old(root), names_of(key@))->0 as int),
                    "."@,
                )
                &&& *final(root) == *old(root)
            },
        },
{
    let parts = split_chars(key, '.');
    proof {
        lemma_names_are_some(key@);
        assert(texts(parts@).skip(0) =~= names_of(key@));
        assert(texts(parts@).len() == parts@.len());
    }
    match find_block(root, &parts, 0) {
        Some(n) => {
            let mut walked: Vec<String> = Vec::new();
            let mut i: usize = 0;
            while i < n
                invariant
                    i <= n < parts@.len(),
                    walked@.len() == i,
                    forall|k: int| 0 <= k < i ==> (#[trigger] walked@[k])@ == parts@[k]@,
                decreases n - i,
            {
                walked.push(parts[i].clone());
                i += 1;
            }
            assert(texts(walked@) =~= names_of(key@).take(n as int));
            Err(join_all(&walked, "."))
        },
        None => {
            let mut taken = object_value(new_object());
            core::mem::swap(&mut taken, root);
            let changed = set_parts(taken, &parts, 0, value);
            *root = changed;
            Ok(())
        },
    }
}

/// Whether `after` is `before` without the groups at its top that have no
/// members.
pub open spec fn pruned(before: serde_json::Value, after: serde_json::Value) -> bool {
    match (object_in(before), object_in(after)) {
        (Some(x), Some(y)) => {
            &&& forall|name: Seq<char>| #[trigger]
                members(y).contains_key(name) <==> members(x).contains_key(name) && !empty_group(
                    members(x)[name],
                )
            &&& forall|name: Seq<char>| #[trigger]
                members(y).contains_key(name) ==> members(y)[name] == members(x)[name]
        },
        (None, None) => after == before,
        _ => false,
    }
}

/// Drop the groups at the top that have no members.
pub fn prune_empty_groups(root: serde_json::Value) -> (out: serde_json::Value)
    ensures
        pruned(root, out),
{
    match into_object(root) {
        Ok(object) => {
            let mut object = object;
            retain_groups(&mut object);
            object_value(object)
        },
        Err(other) => other,
    }
}

/// Whether `root` is what a file holds: its JSON, or an empty object where the
/// file does not exist.
pub open spec fn holds(existing: Option<Seq<char>>, root: serde_json::Value) -> bool {
    match existing {
        Some(text) => json_of(text) == Ok::<serde_json::Value, Seq<char>>(root),
        None => empty_group(root),
    }
}

/// Whether `text` is the new content of a file that held `root`, with a value
/// set at a path and empty groups dropped.
pub open spec fn rewritten(
    root: serde_json::Value,
    path: Seq<Seq<char>>,
    value: Option<serde_json::Value>,
    after: serde_json::Value,
    text: Seq<char>,
) -> bool {
    &&& exists|set: serde_json::Value| #[trigger]
        set_at(root, set, path, value) && pruned(set, after)
    &&& text == pretty(after).push('\n')
    &&& json_of(text) is Ok ==> same_json(json_of(text)->Ok_0, after)
}

/// Why a file is not written to: it is no JSON, or no object, or a value stands
/// where a group of the key belongs.
pub open spec fn refusal(path: Seq<char>, existing: Option<Seq<char>>, key: Seq<char>) -> Option<
    Seq<char>,
> {
    match existing {
        None => None,
        Some(text) => match json_of(text) {
            Err(error) => Some(error),
            Ok(root) => if object_in(root) is None {
                Some(path + ": settings must be a JSON object"@)
            } else {
                match blocked_at(root, names_of(key)) {
                    Some(n) => Some(
                        path + ": `"@ + join(names_of(key).take(n as int), "."@)
                            + "` is not an object, so `"@ + key
                            + "` cannot be set — fix the file first"@,
                    ),
                    None => None,
                }
            },
        },
    }
}

/// Whether `text` is the new content for what a file holds.
pub open spec fn is_rewrite(
    existing: Option<Seq<char>>,
    path: Seq<Seq<char>>,
    value: Option<serde_json::Value>,
    text: Seq<char>,
) -> bool {
    exists|root: serde_json::Value, after: serde_json::Value| #[trigger]
        holds(existing, root) && #[trigger] rewritten(root, path, value, after, text)
}

/// The new content of a settings file with a value set at a key, or cleared.
/// The JSON itself is changed, so keys that are not known here survive. A file
/// that cannot be read as a JSON object is not overwritten, nor is a value that
/// stands where a group belongs.
pub fn write_key(
    path: &str,
    existing: &Option<String>,
    key: &str,
    value: Option<serde_json::Value>,
) -> (out: Result<String, String>)
    ensures
        match refusal(path@, opt_text(*existing), key@) {
            Some(error) => out is Err && out->Err_0@ == error,
            None => out is Ok && is_rewrite(
                opt_text(*existing),
                names_of(key@),
                value,
                out->Ok_0@,
            ),
        },
{
    let root = match existing {
        Some(text) => match parse_json(text.as_str()) {
            Ok(root) => root,
            Err(error) => {
                return Err(error);
            },
        },
        None => object_value(new_object()),
    };
    assert(holds(opt_text(*existing), root));
    if as_object(&root).is_none() {
        return Err(joined(path, ": settings must be a JSON object"));
    }
    let ghost held = root;
    let mut root = root;
    match set_path(&mut root, key, value) {
        Ok(_) => {},
        Err(walked) => {
            proof {
                if existing is None {
                    lemma_fresh_groups_are_free(held, names_of(key@));
                }
            }
            let mut error = joined3(path, ": `", walked.as_str());
            error.push_str("` is not an object, so `");
            error.push_str(key);
            error.push_str("` cannot be set — fix the file first");
            return Err(error);
        },
    }
    let ghost set = root;
    let after = prune_empty_groups(root);
    match pretty_json(&after) {
        Ok(text) => {
            let mut text: String = text;
            text.push('\n');
            proof {
                assert(set_at(held, set, names_of(key@), value) && pruned(set, after));
                assert(rewritten(held, names_of(key@), value, after, text@));
                assert(holds(opt_text(*existing), held));
            }
            Ok(text)
        },
        Err(error) => Err(error),
    }
}

proof fn lemma_pruning_keeps_leaves(
    before: serde_json::Value,
    after: serde_json::Value,
    path: Seq<Seq<char>>,
)
    requires
        pruned(before, after),
        path.len() > 0,
        value_at(before, path) is Some,
        !(path.len() == 1 && empty_group(value_at(before, path)->0)),
    ensures
        value_at(after, path) == value_at(before, path),
{
    let x = object_in(before)->0;
    let child = members(x)[path[0]];
    assert(members(x).contains_key(path[0]));
    if path.len() > 1 {
        let rest = path.drop_first();
        assert(value_at(child, rest) is Some);
        assert(rest.len() > 0);
        if empty_group(child) {
            assert(value_at(child, rest) is None);
        }
    } else {
        assert(path.drop_first().len() == 0);
        assert(value_at(child, path.drop_first()) == Some(child));
    }
    assert(members(object_in(after)->0).contains_key(path[0]));
}

/// What was set in a file is read from it: a value that was written at a key
/// stands there in the new content, as far as that is read as JSON. An empty group
/// is none, and is left out where it would stand at the top.
pub proof fn a_written_value_is_read_back(
    root: serde_json::Value,
    path: Seq<Seq<char>>,
    value: serde_json::Value,
    after: serde_json::Value,
    text: Seq<char>,
)
    requires
        path.len() > 0,
        !(path.len() == 1 && empty_group(value)),
        rewritten(root, path, Some(value), after, text),
        json_of(text) is Ok,
    ensures
        value_at(json_of(text)->Ok_0, path) is Some,
        same_json(value_at(json_of(text)->Ok_0, path)->0, value),
{
    let set = choose|set: serde_json::Value| #[trigger]
        set_at(root, set, path, Some(value)) && pruned(set, after);
    lemma_pruning_keeps_leaves(set, after, path);
    let read = json_of(text)->Ok_0;
    lemma_places_are_the_same(read, after, path);
}

/// What a write is not about survives it: a value at another key stands in the new
/// content as it did in the old one, but for an empty group at the top.
pub proof fn other_keys_survive_a_write(
    root: serde_json::Value,
    path: Seq<Seq<char>>,
    value: Option<serde_json::Value>,
    after: serde_json::Value,
    text: Seq<char>,
    other: Seq<Seq<char>>,
)
    requires
        rewritten(root, path, value, after, text),
        json_of(text) is Ok,
        !on_one_way(other, path),
        value_at(root, other) is Some,
        !(other.len() == 1 && empty_group(value_at(root, other)->0)),
    ensures
        same_place(value_at(json_of(text)->Ok_0, other), value_at(root, other)),
{
    let set = choose|set: serde_json::Value| #[trigger]
        set_at(root, set, path, value) && pruned(set, after);
    assert(value_at(set, other) == value_at(root, other));
    assert(other.len() > 0) by {
        if other.len() == 0 {
            assert(other.is_prefix_of(path));
        }
    }
    lemma_pruning_keeps_leaves(set, after, other);
    let read = json_of(text)->Ok_0;
    lemma_places_are_the_same(read, after, other);
}

/// The path to a member of a group.
pub open spec fn in_group(group: Seq<char>, name: Seq<char>) -> Seq<Seq<char>> {
    seq![group, name]
}

/// Clearing the only key of a group takes the group out of the file.
pub proof fn clearing_prunes_an_empty_group(
    root: serde_json::Value,
    set: serde_json::Value,
    after: serde_json::Value,
    group: Seq<char>,
    name: Seq<char>,
)
    requires
        set_at(root, set, in_group(group, name), None),
        pruned(set, after),
        forall|other: Seq<char>|
            other != name ==> (#[trigger] value_at(root, in_group(group, other))) is None,
    ensures
        value_at(after, seq![group]) is None,
{
    reveal_with_fuel(value_at, 3);
    let path = in_group(group, name);
    assert(seq![group].is_prefix_of(path));
    assert(value_at(set, seq![group]) is Some);
    let held = value_at(set, seq![group])->0;
    assert(seq![group].drop_first() =~= Seq::empty());
    assert(path.drop_first() =~= seq![name]);
    let inner = members(object_in(held)->0);
    assert forall|other: Seq<char>| !inner.contains_key(other) by {
        let q = in_group(group, other);
        assert(q.drop_first() =~= seq![other]);
        assert(seq![other].drop_first() =~= Seq::empty());
        if other == name {
            assert(value_at(set, path) is None);
        } else {
            assert(!on_one_way(q, path)) by {
                assert(q[1] != path[1]);
            }
            assert(value_at(set, q) == value_at(root, q));
        }
        assert(value_at(set, q) is None);
    }
    assert(inner =~= no_members());
    assert(empty_group(held));
}

/// A key is blocked where a value that is no group stands where a group of it
/// belongs, and nowhere else.
pub proof fn values_block_the_keys_below_them(value: serde_json::Value, path: Seq<Seq<char>>)
    ensures
        match blocked_at(value, path) {
            Some(n) => {
                &&& n < path.len()
                &&& value_at(value, path.take(n as int)) is Some
                &&& object_in(value_at(value, path.take(n as int))->0) is None
            },
            None => forall|n: int|
                0 <= n < path.len() && (#[trigger] value_at(value, path.take(n))) is Some
                    ==> object_in(value_at(value, path.take(n))->0) is Some,
        },
    decreases path.len(),
{
    if path.len() > 0 {
        assert(path.take(0) =~= Seq::empty());
        if let Some(object) = object_in(value) {
            let rest = path.drop_first();
            if members(object).contains_key(path[0]) {
                values_block_the_keys_below_them(members(object)[path[0]], rest);
            }
            assert forall|n: int| 0 < n < path.len() implies #[trigger] value_at(value, path.take(n))
                == if members(object).contains_key(path[0]) {
                value_at(members(object)[path[0]], rest.take(n - 1))
            } else {
                None
            } by {
                assert(path.take(n).drop_first() =~= rest.take(n - 1));
            }
            if path.len() > 1 && members(object).contains_key(path[0]) {
                if let Some(n) = blocked_at(members(object)[path[0]], rest) {
                    assert(path.take(n as int + 1).drop_first() =~= rest.take(n as int));
                } else {
                    assert forall|n: int|
                        0 <= n < path.len() && (#[trigger] value_at(value, path.take(n))) is Some implies object_in(
                        value_at(value, path.take(n))->0,
                    ) is Some by {
                        if n > 0 {
                            assert(value_at(members(object)[path[0]], rest.take(n - 1)) is Some);
                        }
                    }
                }
            }
        }
    }
}

/// The settings of a project are those of the nearest directory that has any, and
/// never those of a directory above its repository.
pub proof fn the_nearest_settings_are_used(walk: Seq<Ancestor>, i: int, j: int)
    requires
        nearest(walk, i),
    ensures
        walk[i].has_settings,
        nearest(walk, j) ==> i == j,
        0 <= j < walk.len() && walk[j].has_settings ==> i <= j,
        0 <= j < walk.len() && walk[j].is_repository ==> i <= j,
{
    if nearest(walk, j) {
        if i < j {
            assert(!walk[i].has_settings);
        } else if j < i {
            assert(!walk[j].has_settings);
        }
    }
    if 0 <= j < i {
        assert(!walk[j].has_settings);
    }
}

/// The settings file of a project stands in a directory of its own below it.
pub proof fn project_files_have_their_place(dir: Seq<char>)
    ensures
        project_file(dir) == under(under(dir, ".alan"@), "settings.json"@),
{
}

/// A key is the path of its names between the dots.
pub proof fn keys_are_paths(key: Seq<char>)
    ensures
        join(names_of(key), seq!['.']) == key,
        names_of(key).len() > 0,
{
    crate::path::parts_are_joined_again(key, '.');
}

/// A file that is written ends in a line break.
pub proof fn written_files_end_in_a_line_break(
    existing: Option<Seq<char>>,
    path: Seq<Seq<char>>,
    value: Option<serde_json::Value>,
    text: Seq<char>,
)
    requires
        is_rewrite(existing, path, value, text),
    ensures
        text.len() > 0,
        text.last() == '\n',
{
    let (root, after) = choose|root: serde_json::Value, after: serde_json::Value| #[trigger]
        holds(existing, root) && #[trigger] rewritten(root, path, value, after, text);
    assert(text == pretty(after).push('\n'));
}

/// A file is refused exactly where it is no JSON, is no object, or has a value where a
/// group of the key belongs; one that is not there is never refused.
pub proof fn only_files_that_cannot_take_the_key_are_refused(
    path: Seq<char>,
    text: Seq<char>,
    key: Seq<char>,
)
    ensures
        refusal(path, None, key) is None,
        refusal(path, Some(text), key) is None <==> {
            &&& json_of(text) is Ok
            &&& object_in(json_of(text)->Ok_0) is Some
            &&& forall|n: int|
                0 <= n < names_of(key).len() && (#[trigger] value_at(
                    json_of(text)->Ok_0,
                    names_of(key).take(n),
                )) is Some ==> object_in(
                    value_at(json_of(text)->Ok_0, names_of(key).take(n))->0,
                ) is Some
        },
        json_of(text) is Ok && refusal(path, Some(text), key) is Some ==> path.is_prefix_of(
            refusal(path, Some(text), key)->0,
        ),
{
    if json_of(text) is Ok {
        let root = json_of(text)->Ok_0;
        values_block_the_keys_below_them(root, names_of(key));
        if let Some(n) = blocked_at(root, names_of(key)) {
            assert(value_at(root, names_of(key).take(n as int)) is Some);
        }
        if let Some(told) = refusal(path, Some(text), key) {
            assert(path =~= told.take(path.len() as int));
        }
    }
}

} // verus!
