//! Paths as text, with `/` between their names.
use crate::text::{
    chars_of, find_char, first_at, join, join_all, joined, joined3, lemma_first_at,
    lemma_join_front, owned, string_of, texts,
};
use vstd::prelude::*;

verus! {

/// What `{:?}` makes of a path as it is displayed: the path in quotes, with what
/// cannot be shown in it escaped. The escapes are not all those of a string.
pub uninterp spec fn path_debug_text(path: Seq<char>) -> Seq<char>;

/// `format!` with `{:?}` for what `std::path::Path::display` gives of a path.
#[verifier::external_body]
pub(crate) fn quoted_path(path: &str) -> (out: String)
    ensures
        out@ == path_debug_text(path@),
{
    format!("{:?}", std::path::Path::new(path).display())
}

/// The parts of `s` between the `c`s, empty ones too. There is always one more
/// than there are `c`s.
pub open spec fn split_at_each(s: Seq<char>, c: char) -> Seq<Seq<char>>
    decreases s.len(),
    via split_at_each_decreases
{
    let n = first_at(s, c) as int;
    if n < s.len() {
        seq![s.take(n)] + split_at_each(s.skip(n + 1), c)
    } else {
        seq![s]
    }
}

#[via_fn]
proof fn split_at_each_decreases(s: Seq<char>, c: char) {
    lemma_first_at(s, c);
}

/// The parts of `s` between the `c`s.
pub fn split_chars(s: &str, c: char) -> (out: Vec<String>)
    ensures
        texts(out@) == split_at_each(s@, c),
{
    let chars = chars_of(s);
    let mut out: Vec<String> = Vec::new();
    let mut i: usize = 0;
    let mut done: bool = false;
    proof {
        assert(s@.skip(0) =~= s@);
        assert(texts(out@) + split_at_each(s@, c) =~= split_at_each(s@, c));
    }
    while !done
        invariant
            i <= chars@.len(),
            chars@ == s@,
            !done ==> texts(out@) + split_at_each(s@.skip(i as int), c) == split_at_each(s@, c),
            done ==> texts(out@) == split_at_each(s@, c),
        decreases (if done { 0int } else { 1 + chars@.len() - i }),
    {
        let ghost rest = s@.skip(i as int);
        let ghost before = texts(out@);
        let at = find_char(&chars, i, c);
        let part = string_of(&chars, i, at);
        out.push(part);
        proof {
            let n = at - i;
            assert(texts(out@) =~= before.push(part@));
            if at < chars@.len() {
                assert(rest.take(n) =~= part@);
                assert(rest.skip(n + 1) =~= s@.skip(at as int + 1));
                assert(before.push(part@) + split_at_each(s@.skip(at as int + 1), c) =~= before + (
                seq![part@] + split_at_each(s@.skip(at as int + 1), c)));
            } else {
                assert(rest =~= part@);
                assert(before.push(part@) =~= before + seq![part@]);
            }
        }
        if at < chars.len() {
            i = at + 1;
        } else {
            done = true;
        }
    }
    out
}

/// Whether a path starts at the root.
pub open spec fn rooted(path: Seq<char>) -> bool {
    path.len() > 0 && path[0] == '/'
}

/// `base` followed by `name`: the name alone where it starts at the root or the
/// base is empty.
pub open spec fn under(base: Seq<char>, name: Seq<char>) -> Seq<char> {
    if rooted(name) || base.len() == 0 {
        name
    } else if base.last() == '/' {
        base + name
    } else {
        base + "/"@ + name
    }
}

/// Whether a path starts at the root.
pub fn is_rooted(path: &str) -> (out: bool)
    ensures
        out == rooted(path@),
{
    let chars = chars_of(path);
    chars.len() > 0 && chars[0] == '/'
}

/// `base` followed by `name`.
pub fn join_path(base: &str, name: &str) -> (out: String)
    ensures
        out@ == under(base@, name@),
{
    let chars = chars_of(base);
    if is_rooted(name) || chars.len() == 0 {
        owned(name)
    } else if chars[chars.len() - 1] == '/' {
        joined(base, name)
    } else {
        joined3(base, "/", name)
    }
}

/// The names of a path after `.` and `..` are resolved against the names
/// before them. What leads above the first name stays there.
pub open spec fn resolved(names: Seq<Seq<char>>) -> Seq<Seq<char>>
    decreases names.len(),
{
    if names.len() == 0 {
        Seq::empty()
    } else {
        let before = resolved(names.drop_last());
        let name = names.last();
        if name.len() == 0 || name == "."@ {
            before
        } else if name == ".."@ {
            if before.len() == 0 {
                before
            } else {
                before.drop_last()
            }
        } else {
            before.push(name)
        }
    }
}

/// A path without `.`, `..` and doubled separators, found from its text alone.
pub open spec fn lexical(path: Seq<char>) -> Seq<char> {
    let names = join(resolved(split_at_each(path, '/')), "/"@);
    if rooted(path) {
        "/"@ + names
    } else {
        names
    }
}

/// Resolve `.` and `..` without looking at any file.
pub fn normalize_components(path: &str) -> (out: String)
    ensures
        out@ == lexical(path@),
{
    let names = split_chars(path, '/');
    let ghost views = texts(names@);
    let mut kept: Vec<String> = Vec::new();
    let mut i: usize = 0;
    assert(texts(kept@) =~= Seq::empty());
    while i < names.len()
        invariant
            i <= names@.len(),
            views == texts(names@),
            texts(kept@) == resolved(views.take(i as int)),
        decreases names@.len() - i,
    {
        let ghost before = texts(kept@);
        let name = names[i].clone();
        assert(views.take(i as int + 1).drop_last() =~= views.take(i as int));
        assert(views.take(i as int + 1).last() == name@);
        if name.as_str().is_empty() || crate::text::same(name.as_str(), ".") {
        } else if crate::text::same(name.as_str(), "..") {
            let removed = kept.pop();
            assert(before.len() > 0 ==> texts(kept@) =~= before.drop_last());
            assert(before.len() == 0 ==> texts(kept@) =~= before);
        } else {
            kept.push(name);
            assert(texts(kept@) =~= before.push(name@));
        }
        i += 1;
    }
    assert(views.take(i as int) =~= views);
    let rest = join_all(&kept, "/");
    if is_rooted(path) {
        joined("/", rest.as_str())
    } else {
        rest
    }
}

/// The parts of a text, joined by what they were split at, are the text again, and
/// none of them holds it.
pub proof fn parts_are_joined_again(s: Seq<char>, c: char)
    ensures
        join(split_at_each(s, c), seq![c]) == s,
        split_at_each(s, c).len() > 0,
        forall|i: int, k: int|
            0 <= i < split_at_each(s, c).len() && 0 <= k < split_at_each(s, c)[i].len()
                ==> #[trigger] split_at_each(s, c)[i][k] != c,
    decreases s.len(),
{
    lemma_first_at(s, c);
    let n = first_at(s, c) as int;
    let all = split_at_each(s, c);
    if n < s.len() {
        let rest = s.skip(n + 1);
        parts_are_joined_again(rest, c);
        lemma_join_front(s.take(n), split_at_each(rest, c), seq![c]);
        assert(s.take(n) + seq![c] + rest =~= s);
        assert forall|i: int, k: int|
            0 <= i < all.len() && 0 <= k < all[i].len() implies #[trigger] all[i][k] != c by {
            if i == 0 {
                assert(all[0][k] == s[k]);
            } else {
                assert(all[i] == split_at_each(rest, c)[i - 1]);
            }
        }
    } else {
        assert forall|i: int, k: int|
            0 <= i < all.len() && 0 <= k < all[i].len() implies #[trigger] all[i][k] != c by {
            assert(all[i][k] == s[k]);
        }
    }
}

/// A path in another directory begins with the directory and ends with the name; a
/// name that starts at the root stands for itself.
pub proof fn names_stand_under_their_base(base: Seq<char>, name: Seq<char>)
    ensures
        rooted(name) ==> under(base, name) == name,
        !rooted(name) ==> base.is_prefix_of(under(base, name)),
        name.len() <= under(base, name).len(),
        under(base, name).skip(under(base, name).len() - name.len()) == name,
        !rooted(name) && base.len() > 0 ==> under(base, name)[under(base, name).len() - name.len()
            - 1] == '/',
        forall|other: Seq<char>|
            !rooted(name) && !rooted(other) && under(base, name) == #[trigger] under(base, other)
                ==> name == other,
{
    reveal_strlit("/");
    let whole = under(base, name);
    assert(whole.skip(whole.len() - name.len()) =~= name);
    if !rooted(name) {
        assert(base =~= whole.take(base.len() as int));
    }
    assert forall|other: Seq<char>|
        !rooted(name) && !rooted(other) && under(base, name) == #[trigger] under(
            base,
            other,
        ) implies name == other by {
        let n = under(base, name).len() - name.len();
        assert(under(base, name).skip(n) =~= name);
        assert(under(base, other).skip(n) =~= other);
    }
}

/// Resolving keeps a plain name, drops an empty one and a `.`, and lets `..` take
/// back the name before it.
pub proof fn names_are_resolved_one_by_one(names: Seq<Seq<char>>, name: Seq<char>)
    ensures
        name.len() > 0 && name != "."@ && name != ".."@ ==> resolved(names.push(name)) == resolved(
            names,
        ).push(name),
        name.len() > 0 && name != "."@ && name != ".."@ ==> resolved(names.push(name).push(".."@))
            == resolved(names),
        resolved(names.push("."@)) == resolved(names),
        resolved(names.push(Seq::empty())) == resolved(names),
        resolved(seq![".."@]).len() == 0,
{
    reveal_strlit(".");
    reveal_strlit("..");
    reveal_with_fuel(resolved, 2);
    assert(names.push(name).drop_last() =~= names);
    assert(names.push(name).push(".."@).drop_last() =~= names.push(name));
    assert(names.push("."@).drop_last() =~= names);
    assert(names.push(Seq::empty()).drop_last() =~= names);
    assert(seq![".."@].drop_last().len() == 0);
    assert(".."@ != "."@) by {
        assert(".."@.len() != "."@.len());
    }
    if name.len() > 0 && name != "."@ && name != ".."@ {
        assert(resolved(names).push(name).drop_last() =~= resolved(names));
    }
}

/// No name that is left after resolving is empty, `.` or `..`.
pub proof fn resolved_names_are_plain(names: Seq<Seq<char>>)
    ensures
        forall|i: int|
            0 <= i < resolved(names).len() ==> (#[trigger] resolved(names)[i]).len() > 0
                && resolved(names)[i] != "."@ && resolved(names)[i] != ".."@,
    decreases names.len(),
{
    if names.len() > 0 {
        let before = resolved(names.drop_last());
        resolved_names_are_plain(names.drop_last());
        assert forall|i: int| 0 <= i < resolved(names).len() implies (
        #[trigger] resolved(names)[i]).len() > 0 && resolved(names)[i] != "."@ && resolved(names)[i]
            != ".."@ by {
            if i < before.len() {
                assert(resolved(names)[i] == before[i]);
            }
        }
    }
}

/// A path stays rooted, or not, when it is resolved.
pub proof fn resolving_keeps_the_root(path: Seq<char>)
    ensures
        rooted(path) ==> rooted(lexical(path)),
        lexical(path) == if rooted(path) {
            "/"@ + join(resolved(split_at_each(path, '/')), "/"@)
        } else {
            join(resolved(split_at_each(path, '/')), "/"@)
        },
{
    reveal_strlit("/");
}

/// Texts on either side of a separator are parted each on its own.
pub proof fn parts_on_either_side(a: Seq<char>, b: Seq<char>, c: char)
    ensures
        split_at_each(a.push(c) + b, c) == split_at_each(a, c) + split_at_each(b, c),
    decreases a.len(),
{
    let all = a.push(c) + b;
    let n = first_at(a, c) as int;
    lemma_first_at(a, c);
    lemma_first_at(all, c);
    let m = first_at(all, c) as int;
    assert(all[n] == c);
    assert forall|i: int| 0 <= i < n implies #[trigger] all[i] != c by {
        assert(all[i] == a[i]);
    }
    assert(m == n);
    assert(all.take(n) =~= a.take(n));
    if n < a.len() {
        parts_on_either_side(a.skip(n + 1), b, c);
        assert(all.skip(n + 1) =~= a.skip(n + 1).push(c) + b);
        assert(split_at_each(all, c) =~= split_at_each(a, c) + split_at_each(b, c));
    } else {
        assert(a.take(n) =~= a);
        assert(all.skip(n + 1) =~= b);
    }
}

} // verus!
