//! JSON values and objects, held as the `serde_json` crate has them.
use vstd::prelude::*;

verus! {

/// A JSON value of the `serde_json` crate.
#[verifier::external_type_specification]
#[verifier::external_body]
pub struct ExValue(serde_json::Value);

/// A JSON object of the `serde_json` crate.
#[verifier::external_type_specification]
#[verifier::external_body]
#[verifier::reject_recursive_types(K)]
#[verifier::reject_recursive_types(V)]
pub struct ExMap<K, V>(serde_json::Map<K, V>);

/// `serde_json::Value::clone` gives an equal value.
pub assume_specification[ <serde_json::Value as Clone>::clone ](v: &serde_json::Value) -> (out:
    serde_json::Value)
    ensures
        out == *v,
;

/// The members of a JSON object, by their names.
pub uninterp spec fn members(object: serde_json::Map<String, serde_json::Value>) -> Map<
    Seq<char>,
    serde_json::Value,
>;

/// The object that a JSON value is, where it is one.
pub uninterp spec fn object_in(value: serde_json::Value) -> Option<
    serde_json::Map<String, serde_json::Value>,
>;

/// The text that a JSON value is, where it is one.
pub uninterp spec fn text_in(value: serde_json::Value) -> Option<Seq<char>>;

/// The boolean that a JSON value is, where it is one.
pub uninterp spec fn bool_in(value: serde_json::Value) -> Option<bool>;

/// The whole number that a JSON value is, where it is one.
pub uninterp spec fn whole_in(value: serde_json::Value) -> Option<int>;

/// Whether a JSON value is null.
pub uninterp spec fn is_null(value: serde_json::Value) -> bool;

/// The items of the array that a JSON value is, where it is one.
pub uninterp spec fn items_in(value: serde_json::Value) -> Option<Seq<serde_json::Value>>;

/// What a text is as JSON: the value, or what is wrong with it.
pub uninterp spec fn json_of(text: Seq<char>) -> Result<serde_json::Value, Seq<char>>;

/// A JSON value as text, laid out over lines.
pub uninterp spec fn pretty(value: serde_json::Value) -> Seq<char>;

/// The members of an object that has none.
pub open spec fn no_members() -> Map<Seq<char>, serde_json::Value> {
    Map::empty()
}

/// What stands in a value at the end of a path of member names.
pub open spec fn value_at(value: serde_json::Value, path: Seq<Seq<char>>) -> Option<
    serde_json::Value,
>
    decreases path.len(),
{
    if path.len() == 0 {
        Some(value)
    } else {
        match object_in(value) {
            Some(object) => if members(object).contains_key(path[0]) {
                value_at(members(object)[path[0]], path.drop_first())
            } else {
                None
            },
            None => None,
        }
    }
}

/// Whether two values are the same down to `depth` steps into their items and
/// members, numbers with a fraction aside.
pub open spec fn same_within(a: serde_json::Value, b: serde_json::Value, depth: nat) -> bool
    decreases depth,
{
    &&& text_in(a) == text_in(b)
    &&& bool_in(a) == bool_in(b)
    &&& whole_in(a) == whole_in(b)
    &&& is_null(a) == is_null(b)
    &&& match (items_in(a), items_in(b)) {
        (Some(x), Some(y)) => {
            &&& x.len() == y.len()
            &&& depth > 0 ==> forall|i: int|
                0 <= i < x.len() ==> same_within(#[trigger] x[i], y[i], (depth - 1) as nat)
        },
        (None, None) => true,
        _ => false,
    }
    &&& match (object_in(a), object_in(b)) {
        (Some(x), Some(y)) => {
            &&& members(x).dom() == members(y).dom()
            &&& depth > 0 ==> forall|name: Seq<char>| #[trigger]
                members(x).contains_key(name) ==> same_within(
                    members(x)[name],
                    members(y)[name],
                    (depth - 1) as nat,
                )
        },
        (None, None) => true,
        _ => false,
    }
}

/// Whether two values are the same, numbers with a fraction aside.
pub open spec fn same_json(a: serde_json::Value, b: serde_json::Value) -> bool {
    forall|depth: nat| #[trigger] same_within(a, b, depth)
}

/// Whether two places both hold nothing, or the same.
pub open spec fn same_place(a: Option<serde_json::Value>, b: Option<serde_json::Value>) -> bool {
    match (a, b) {
        (Some(x), Some(y)) => same_json(x, y),
        (None, None) => true,
        _ => false,
    }
}

/// Objects that are the same have the same members.
pub proof fn lemma_members_are_the_same(a: serde_json::Value, b: serde_json::Value)
    requires
        same_json(a, b),
    ensures
        object_in(a) is Some <==> object_in(b) is Some,
        object_in(a) is Some ==> members(object_in(a)->0).dom() == members(object_in(b)->0).dom(),
        object_in(a) is Some ==> forall|name: Seq<char>| #[trigger]
            members(object_in(a)->0).contains_key(name) ==> same_json(
                members(object_in(a)->0)[name],
                members(object_in(b)->0)[name],
            ),
{
    assert(same_within(a, b, 0));
    if let (Some(x), Some(y)) = (object_in(a), object_in(b)) {
        assert forall|name: Seq<char>| #[trigger]
            members(x).contains_key(name) implies same_json(members(x)[name], members(y)[name]) by {
            assert forall|depth: nat| #[trigger]
                same_within(members(x)[name], members(y)[name], depth) by {
                assert(same_within(a, b, depth + 1));
            }
        }
    }
}

/// Arrays that are the same have as many items, and the same one at each place.
pub proof fn items_are_the_same(a: serde_json::Value, b: serde_json::Value)
    requires
        same_json(a, b),
    ensures
        items_in(a) is Some <==> items_in(b) is Some,
        items_in(a) is Some ==> items_in(a)->0.len() == items_in(b)->0.len(),
        items_in(a) is Some ==> forall|i: int|
            0 <= i < items_in(a)->0.len() ==> same_json(
                #[trigger] items_in(a)->0[i],
                items_in(b)->0[i],
            ),
{
    assert(same_within(a, b, 0));
    if let (Some(x), Some(y)) = (items_in(a), items_in(b)) {
        assert forall|i: int| 0 <= i < x.len() implies same_json(#[trigger] x[i], y[i]) by {
            assert forall|depth: nat| #[trigger] same_within(x[i], y[i], depth) by {
                assert(same_within(a, b, depth + 1));
            }
        }
    }
}

/// What is the same holds the same at every place.
pub proof fn lemma_places_are_the_same(
    a: serde_json::Value,
    b: serde_json::Value,
    path: Seq<Seq<char>>,
)
    requires
        same_json(a, b),
    ensures
        same_place(value_at(a, path), value_at(b, path)),
    decreases path.len(),
{
    if path.len() > 0 {
        lemma_members_are_the_same(a, b);
        if let (Some(x), Some(y)) = (object_in(a), object_in(b)) {
            assert(members(x).dom().contains(path[0]) == members(y).dom().contains(path[0]));
            if members(x).contains_key(path[0]) {
                lemma_places_are_the_same(
                    members(x)[path[0]],
                    members(y)[path[0]],
                    path.drop_first(),
                );
            }
        }
    }
}

/// `serde_json::from_str` for a `Value`, with its error as text. What came of it
/// depends on the text alone.
#[verifier::external_body]
pub(crate) fn parse_json(text: &str) -> (out: Result<serde_json::Value, String>)
    ensures
        match out {
            Ok(value) => json_of(text@) == Ok::<serde_json::Value, Seq<char>>(value),
            Err(error) => json_of(text@) == Err::<serde_json::Value, Seq<char>>(error@),
        },
{
    serde_json::from_str(text).map_err(|error| error.to_string())
}

/// `serde_json::to_string_pretty` for a `Value`. It does not fail: the names of
/// the members are texts, and the text is put into memory. What it writes
/// depends on the value alone. As far as that can be read again (values that are nested too
/// deeply are not), it is the same value again: the same members, items, texts,
/// booleans, whole numbers and nulls. A number with a fraction may come back as one
/// next to it. A line feed after it makes no difference to the reader.
#[verifier::external_body]
pub(crate) fn pretty_json(value: &serde_json::Value) -> (out: Result<String, String>)
    ensures
        out is Ok,
        out->Ok_0@ == pretty(*value),
        json_of(out->Ok_0@) is Ok ==> same_json(json_of(out->Ok_0@)->Ok_0, *value),
        json_of(out->Ok_0@.push('\n')) is Ok ==> same_json(
            json_of(out->Ok_0@.push('\n'))->Ok_0,
            *value,
        ),
{
    serde_json::to_string_pretty(value).map_err(|error| error.to_string())
}

/// `serde_json::Map::new`: an object without members.
#[verifier::external_body]
pub(crate) fn new_object() -> (out: serde_json::Map<String, serde_json::Value>)
    ensures
        members(out) == no_members(),
{
    serde_json::Map::new()
}

/// `serde_json::Map::get`: a copy of the member of that name.
#[verifier::external_body]
pub(crate) fn get_member(
    object: &serde_json::Map<String, serde_json::Value>,
    name: &str,
) -> (out: Option<serde_json::Value>)
    ensures
        match out {
            Some(value) => members(*object).contains_key(name@) && members(*object)[name@] == value,
            None => !members(*object).contains_key(name@),
        },
{
    object.get(name).cloned()
}

/// `serde_json::Map::insert`: the member of that name is now this value.
#[verifier::external_body]
pub(crate) fn set_member(
    object: &mut serde_json::Map<String, serde_json::Value>,
    name: String,
    value: serde_json::Value,
)
    ensures
        members(*final(object)) == members(*old(object)).insert(name@, value),
{
    object.insert(name, value);
}

/// `serde_json::Map::remove`: there is no member of that name any more.
#[verifier::external_body]
pub(crate) fn remove_member(
    object: &mut serde_json::Map<String, serde_json::Value>,
    name: &str,
) -> (out: Option<serde_json::Value>)
    ensures
        members(*final(object)) == members(*old(object)).remove(name@),
        match out {
            Some(value) => members(*old(object)).contains_key(name@) && members(
                *old(object),
            )[name@] == value,
            None => !members(*old(object)).contains_key(name@),
        },
{
    object.remove(name)
}

/// `serde_json::Map::is_empty`: the object has no member.
#[verifier::external_body]
pub(crate) fn is_empty_object(object: &serde_json::Map<String, serde_json::Value>) -> (out: bool)
    ensures
        out == (members(*object) == no_members()),
{
    object.is_empty()
}

/// The variant `serde_json::Value::Object`, taken apart: the object that a value
/// is, or the value itself where it is none.
#[verifier::external_body]
pub(crate) fn into_object(value: serde_json::Value) -> (out: Result<
    serde_json::Map<String, serde_json::Value>,
    serde_json::Value,
>)
    ensures
        match out {
            Ok(object) => object_in(value) == Some(object),
            Err(other) => object_in(value) is None && other == value,
        },
{
    match value {
        serde_json::Value::Object(object) => Ok(object),
        other => Err(other),
    }
}

/// `serde_json::Value::as_object`, with a copy of the object.
#[verifier::external_body]
pub(crate) fn as_object(value: &serde_json::Value) -> (out: Option<
    serde_json::Map<String, serde_json::Value>,
>)
    ensures
        out == object_in(*value),
{
    value.as_object().cloned()
}

/// `serde_json::Value::is_array`: whether the value has items.
#[verifier::external_body]
pub(crate) fn holds_array(value: &serde_json::Value) -> (out: bool)
    ensures
        out == (items_in(*value) is Some),
{
    value.is_array()
}

/// The variant `serde_json::Value::Object`, put together.
#[verifier::external_body]
pub(crate) fn object_value(object: serde_json::Map<String, serde_json::Value>) -> (out:
    serde_json::Value)
    ensures
        object_in(out) == Some(object),
        text_in(out) is None,
        bool_in(out) is None,
        whole_in(out) is None,
        items_in(out) is None,
        !is_null(out),
{
    serde_json::Value::Object(object)
}

/// The variant `serde_json::Value::String`, put together.
#[verifier::external_body]
pub(crate) fn text_value(text: String) -> (out: serde_json::Value)
    ensures
        text_in(out) == Some(text@),
        bool_in(out) is None,
        object_in(out) is None,
        whole_in(out) is None,
        items_in(out) is None,
        !is_null(out),
{
    serde_json::Value::String(text)
}

/// The variant `serde_json::Value::Bool`, put together.
#[verifier::external_body]
pub(crate) fn bool_value(value: bool) -> (out: serde_json::Value)
    ensures
        bool_in(out) == Some(value),
        text_in(out) is None,
        object_in(out) is None,
        whole_in(out) is None,
        items_in(out) is None,
        !is_null(out),
{
    serde_json::Value::Bool(value)
}

/// Whether a value is an object without members.
pub open spec fn empty_group(value: serde_json::Value) -> bool {
    object_in(value) is Some && members(object_in(value)->0) == no_members()
}

/// Whether a value is an object without members.
pub fn is_empty_group(value: &serde_json::Value) -> (out: bool)
    ensures
        out == empty_group(*value),
{
    match as_object(value) {
        Some(object) => is_empty_object(&object),
        None => false,
    }
}

/// Whether a member is worth keeping: it is no object without members.
fn is_worth_keeping(value: &serde_json::Value) -> (out: bool)
    ensures
        out == !empty_group(*value),
{
    !is_empty_group(value)
}

/// `serde_json::Map::retain`: only the members that are not empty objects stay.
#[verifier::external_body]
pub(crate) fn retain_groups(object: &mut serde_json::Map<String, serde_json::Value>)
    ensures
        forall|name: Seq<char>| #[trigger]
            members(*final(object)).contains_key(name) <==> members(*old(object)).contains_key(name)
                && !empty_group(members(*old(object))[name]),
        forall|name: Seq<char>| #[trigger]
            members(*final(object)).contains_key(name) ==> members(*final(object))[name] == members(
                *old(object),
            )[name],
{
    object.retain(|_, child| is_worth_keeping(child))
}

/// A copy of a list of JSON values.
pub fn copy_values(values: &Vec<serde_json::Value>) -> (out: Vec<serde_json::Value>)
    ensures
        out@ == values@,
{
    let mut out: Vec<serde_json::Value> = Vec::new();
    let mut i: usize = 0;
    while i < values.len()
        invariant
            i <= values@.len(),
            out@ == values@.take(i as int),
        decreases values@.len() - i,
    {
        out.push(values[i].clone());
        assert(values@.take(i as int + 1) =~= values@.take(i as int).push(values@[i as int]));
        i += 1;
    }
    assert(values@.take(i as int) =~= values@);
    out
}

/// A path is followed step by step: what stands at the end of it stands at the end of
/// its second part within what stands at the end of the first.
pub proof fn paths_are_followed_step_by_step(
    value: serde_json::Value,
    first: Seq<Seq<char>>,
    more: Seq<Seq<char>>,
)
    ensures
        value_at(value, first + more) == match value_at(value, first) {
            Some(inner) => value_at(inner, more),
            None => None,
        },
    decreases first.len(),
{
    if first.len() == 0 {
        assert(first + more =~= more);
    } else {
        assert((first + more).drop_first() =~= first.drop_first() + more);
        if let Some(object) = object_in(value) {
            if members(object).contains_key(first[0]) {
                paths_are_followed_step_by_step(
                    members(object)[first[0]],
                    first.drop_first(),
                    more,
                );
            }
        }
    }
}

/// At the end of a single step stands the member of that name.
pub proof fn a_step_leads_to_the_member(value: serde_json::Value, name: Seq<char>)
    ensures
        object_in(value) is None ==> value_at(value, seq![name]) is None,
        object_in(value) is Some && !members(object_in(value)->0).contains_key(name) ==> value_at(
            value,
            seq![name],
        ) is None,
        object_in(value) is Some && members(object_in(value)->0).contains_key(name) ==> value_at(
            value,
            seq![name],
        ) == Some(members(object_in(value)->0)[name]),
{
    reveal_with_fuel(value_at, 2);
    assert(seq![name].drop_first() =~= Seq::empty());
}

} // verus!
