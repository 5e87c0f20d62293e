//! The grants that are kept for later sessions, one list for each project.
use crate::path::{join_path, names_stand_under_their_base, under};
use crate::permissions::{grant_views, Grant, GrantSet};
use crate::session::dir::{is_hex_digit, key_of, keys_are_sixteen_hex_digits, pwd_key};
use crate::sort::{
    bytes_le, bytes_not_after, lemma_bytes_le_total, lemma_bytes_le_transitive, sort, sorted,
    Sortable,
};
use crate::store::JsonStore;
use crate::text::{opt_text, owned, same};
use vstd::prelude::*;
use vstd::string::*;
use vstd::utf8::encode_utf8;

verus! {

/// The key that the list is kept under.
pub const ALLOW_KEY: &'static str = "allow";

/// The grants of one project.
pub struct PermissionStore {
    pub store: JsonStore,
}

/// Whether the arguments of a grant may stand before those of another: none
/// before any, and else by their bytes.
pub open spec fn args_le(a: Option<Seq<char>>, b: Option<Seq<char>>) -> bool {
    match (a, b) {
        (None, _) => true,
        (Some(_), None) => false,
        (Some(x), Some(y)) => bytes_le(encode_utf8(x), encode_utf8(y)),
    }
}

impl Sortable for Grant {
    open spec fn precedes(&self, other: &Grant) -> bool {
        if self.command@ == other.command@ {
            args_le(opt_text(self.args), opt_text(other.args))
        } else {
            bytes_le(encode_utf8(self.command@), encode_utf8(other.command@))
        }
    }

    fn may_precede(&self, other: &Grant) -> (out: bool) {
        if same(self.command.as_str(), other.command.as_str()) {
            match (&self.args, &other.args) {
                (None, _) => true,
                (Some(_), None) => false,
                (Some(x), Some(y)) => bytes_not_after(x.as_str().as_bytes(), y.as_str().as_bytes()),
            }
        } else {
            bytes_not_after(
                self.command.as_str().as_bytes(),
                other.command.as_str().as_bytes(),
            )
        }
    }

    proof fn order_is_total(a: &Grant, b: &Grant) {
        lemma_bytes_le_total(encode_utf8(a.command@), encode_utf8(b.command@));
        if a.args is Some && b.args is Some {
            lemma_bytes_le_total(encode_utf8(a.args->0@), encode_utf8(b.args->0@));
        }
    }

    proof fn order_is_transitive(a: &Grant, b: &Grant, c: &Grant) {
        let x = encode_utf8(a.command@);
        let y = encode_utf8(b.command@);
        let z = encode_utf8(c.command@);
        if a.command@ == b.command@ && b.command@ == c.command@ {
            if a.args is Some && b.args is Some && c.args is Some {
                lemma_bytes_le_transitive(
                    encode_utf8(a.args->0@),
                    encode_utf8(b.args->0@),
                    encode_utf8(c.args->0@),
                );
            }
        } else if a.command@ != b.command@ && b.command@ != c.command@ {
            lemma_bytes_le_transitive(x, y, z);
            if a.command@ == c.command@ {
                crate::sort::lemma_bytes_le_antisymmetric(x, y);
                vstd::utf8::encode_utf8_decode_utf8(a.command@);
                vstd::utf8::encode_utf8_decode_utf8(b.command@);
            }
        }
    }
}

/// Whether `out` is the list that is kept for a set of grants: each of them
/// once, in order.
pub open spec fn kept_list(out: Seq<Grant>, grants: Set<Grant<Seq<char>>>) -> bool {
    &&& sorted(out)
    &&& grant_views(out).no_duplicates()
    &&& grant_views(out).to_set() == grants
}

fn to_list(grants: GrantSet) -> (out: Vec<Grant>)
    requires
        grants.well_formed(),
    ensures
        kept_list(out@, grants@),
{
    let out = sort(grants.items);
    proof {
        lemma_same_multiset(grants.items@, out@);
    }
    out
}

proof fn lemma_same_multiset(a: Seq<Grant>, b: Seq<Grant>)
    requires
        a.to_multiset() == b.to_multiset(),
        grant_views(a).no_duplicates(),
    ensures
        grant_views(b).no_duplicates(),
        grant_views(b).to_set() == grant_views(a).to_set(),
{
    broadcast use vstd::seq_lib::group_to_multiset_ensures;

    let x = grant_views(a);
    let y = grant_views(b);
    assert forall|g: Grant<Seq<char>>| x.to_set().contains(g) == #[trigger] y.to_set().contains(
        g,
    ) by {
        if x.contains(g) {
            let i = choose|i: int| 0 <= i < x.len() && x[i] == g;
            assert(a.contains(a[i]));
            assert(b.to_multiset().count(a[i]) > 0);
            assert(b.contains(a[i]));
            let j = choose|j: int| 0 <= j < b.len() && b[j] == a[i];
            assert(y[j] == g);
        }
        if y.contains(g) {
            let j = choose|j: int| 0 <= j < y.len() && y[j] == g;
            assert(b.contains(b[j]));
            assert(a.to_multiset().count(b[j]) > 0);
            assert(a.contains(b[j]));
            let i = choose|i: int| 0 <= i < a.len() && a[i] == b[j];
            assert(x[i] == g);
        }
    }
    assert(x.to_set() =~= y.to_set());
    x.unique_seq_to_set();
    assert(x.len() == y.len()) by {
        assert(a.len() == a.to_multiset().len());
        assert(b.len() == b.to_multiset().len());
    }
    lemma_full_set_means_no_duplicates(y);
}

proof fn lemma_full_set_means_no_duplicates<A>(s: Seq<A>)
    requires
        s.to_set().len() == s.len(),
    ensures
        s.no_duplicates(),
{
    s.lemma_no_dup_set_cardinality();
}

impl PermissionStore {
    /// The grants in a file. Nothing is read or made yet.
    pub fn new(path: String) -> (out: PermissionStore)
        ensures
            out.store.path == path,
    {
        PermissionStore { store: JsonStore::new(path) }
    }

    /// The set of a list that was read.
    pub fn load_all(grants: Vec<Grant>) -> (out: GrantSet)
        ensures
            out.well_formed(),
            out@ == grant_views(grants@).to_set(),
    {
        let mut out = GrantSet::new();
        out.extend(grants);
        assert(Set::<Grant<Seq<char>>>::empty().union(grant_views(grants@).to_set())
            =~= grant_views(grants@).to_set());
        out
    }

    /// The list to be written when a grant is added; `None` where it is there
    /// already, so that nothing is to be written.
    pub fn insert(grants: Vec<Grant>, grant: &Grant) -> (out: Option<Vec<Grant>>)
        ensures
            out is None <==> grant_views(grants@).to_set().contains(grant@),
            out is Some ==> kept_list(
                out->0@,
                grant_views(grants@).to_set().insert(grant@),
            ),
    {
        let mut set = PermissionStore::load_all(grants);
        if set.insert(grant.copy()) {
            Some(to_list(set))
        } else {
            None
        }
    }

    /// The list to be written when a grant is taken out; `None` where it is not
    /// there, so that nothing is to be written.
    pub fn remove(grants: Vec<Grant>, grant: &Grant) -> (out: Option<Vec<Grant>>)
        ensures
            out is Some <==> grant_views(grants@).to_set().contains(grant@),
            out is Some ==> kept_list(
                out->0@,
                grant_views(grants@).to_set().remove(grant@),
            ),
    {
        let mut set = PermissionStore::load_all(grants);
        if set.remove(grant) {
            Some(to_list(set))
        } else {
            None
        }
    }
}

/// The file for the grants of a project.
pub open spec fn permissions_file(home: Seq<char>, cwd: Seq<char>) -> Seq<char> {
    under(under(under(home, "projects"@), key_of(cwd)), "permissions.json"@)
}

/// The file for the grants of the project in `cwd`: below the program's own home,
/// or else below the user's.
pub fn default_permissions_path(
    alan_home: &Option<String>,
    home: &Option<String>,
    cwd: &str,
) -> (out: Result<String, String>)
    ensures
        match (*alan_home, *home) {
            (Some(dir), _) => out is Ok && out->Ok_0@ == permissions_file(dir@, cwd@),
            (None, Some(dir)) => out is Ok && out->Ok_0@ == permissions_file(dir@, cwd@),
            (None, None) => out is Err && out->Err_0@ == "cannot determine Alan home directory"@,
        },
{
    let dir = match alan_home {
        Some(dir) => dir,
        None => match home {
            Some(dir) => dir,
            None => {
                return Err(owned("cannot determine Alan home directory"));
            },
        },
    };
    let projects = join_path(dir.as_str(), "projects");
    let project = join_path(projects.as_str(), pwd_key(cwd).as_str());
    Ok(join_path(project.as_str(), "permissions.json"))
}

/// A grant is kept after another of the same tool only where its arguments come later by
/// their bytes; one without arguments comes first.
pub proof fn arguments_are_kept_in_order(x: Seq<char>, y: Seq<char>)
    ensures
        args_le(None, Some(x)),
        !args_le(Some(x), None),
        args_le(Some(x), Some(y)) || args_le(Some(y), Some(x)),
        args_le(Some(x), Some(y)) && args_le(Some(y), Some(x)) ==> x == y,
{
    lemma_bytes_le_total(encode_utf8(x), encode_utf8(y));
    if args_le(Some(x), Some(y)) && args_le(Some(y), Some(x)) {
        crate::sort::lemma_bytes_le_antisymmetric(encode_utf8(x), encode_utf8(y));
        vstd::utf8::encode_utf8_decode_utf8(x);
        vstd::utf8::encode_utf8_decode_utf8(y);
    }
}

/// A list that is kept holds a grant exactly where it was given, and only once.
pub proof fn kept_lists_hold_each_grant_once(
    out: Seq<Grant>,
    grants: Set<Grant<Seq<char>>>,
    grant: Grant<Seq<char>>,
    i: int,
    j: int,
)
    requires
        kept_list(out, grants),
    ensures
        grants.contains(grant) <==> exists|k: int| 0 <= k < out.len() && (#[trigger] out[k])@ == grant,
        0 <= i < j < out.len() ==> out[i]@ != out[j]@ && out[i].precedes(&out[j]),
{
    let views = grant_views(out);
    if grants.contains(grant) {
        assert(views.to_set().contains(grant));
        let k = choose|k: int| 0 <= k < views.len() && views[k] == grant;
        assert(out[k]@ == grant);
    }
    assert forall|k: int| 0 <= k < out.len() && (#[trigger] out[k])@ == grant implies grants.contains(
        grant,
    ) by {
        assert(views[k] == grant);
        assert(views.to_set().contains(grant));
    }
    if 0 <= i < j < out.len() {
        assert(views[i] == out[i]@);
        assert(views[j] == out[j]@);
    }
}

/// The grants of projects that are told apart are kept in different files.
pub proof fn projects_have_their_own_grants(home: Seq<char>, a: Seq<char>, b: Seq<char>)
    ensures
        permissions_file(home, a) == permissions_file(home, b) ==> key_of(a) == key_of(b),
{
    reveal_strlit("permissions.json");
    keys_are_sixteen_hex_digits(a);
    keys_are_sixteen_hex_digits(b);
    let projects = under(home, "projects"@);
    let of_a = under(projects, key_of(a));
    let of_b = under(projects, key_of(b));
    assert(is_hex_digit(key_of(a)[0]));
    assert(is_hex_digit(key_of(b)[0]));
    assert("permissions.json"@[0] == 'p');
    names_stand_under_their_base(projects, key_of(a));
    names_stand_under_their_base(projects, key_of(b));
    names_stand_under_their_base(of_a, "permissions.json"@);
    names_stand_under_their_base(of_b, "permissions.json"@);
    if permissions_file(home, a) == permissions_file(home, b) {
        let whole = permissions_file(home, a);
        assert(of_a.len() == of_b.len());
        assert(of_a =~= whole.take(of_a.len() as int));
        assert(of_b =~= whole.take(of_b.len() as int));
        assert(key_of(a) =~= of_a.skip(of_a.len() - 16));
        assert(key_of(b) =~= of_b.skip(of_b.len() - 16));
    }
}

} // verus!
