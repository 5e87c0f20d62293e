//! A store of JSON values by key, kept in one file as one object.
use crate::json::{
    get_member, into_object, json_of, lemma_members_are_the_same, members, new_object, no_members,
    object_in, object_value, parse_json, pretty, pretty_json, remove_member, same_json, set_member,
};
use crate::text::{joined, joined3, opt_text, owned};
use vstd::prelude::*;

verus! {

/// A store in the file at `path`.
#[derive(Debug)]
pub struct JsonStore {
    pub path: String,
}

/// What the store's file holds, by key. A file that does not exist holds
/// nothing; one that is no JSON object cannot be read.
pub open spec fn stored(contents: Option<Seq<char>>) -> Option<
    Map<Seq<char>, serde_json::Value>,
> {
    match contents {
        None => Some(no_members()),
        Some(text) => match json_of(text) {
            Err(_) => None,
            Ok(value) => match object_in(value) {
                Some(object) => Some(members(object)),
                None => None,
            },
        },
    }
}

/// Whether `text` is a file that holds these members, as JSON laid out over
/// lines. As far as it is read again, the same is in it.
pub open spec fn file_of(values: Map<Seq<char>, serde_json::Value>, text: Seq<char>) -> bool {
    exists|value: serde_json::Value|
        {
            &&& #[trigger] object_in(value) is Some
            &&& members(object_in(value)->0) == values
            &&& text == pretty(value)
            &&& json_of(text) is Ok ==> same_json(json_of(text)->Ok_0, value)
        }
}

/// The error for a file that cannot be read.
pub open spec fn unreadable(path: Seq<char>) -> Seq<char> {
    "failed to parse json store "@ + path
}

impl JsonStore {
    /// A store in a file. Nothing is read or made yet.
    pub fn new(path: String) -> (out: JsonStore)
        ensures
            out.path == path,
    {
        JsonStore { path }
    }

    /// The file of the store.
    pub fn path(&self) -> (out: &str)
        ensures
            out@ == self.path@,
    {
        self.path.as_str()
    }

    /// The file that is locked while the store is read or written.
    pub fn lock_path(&self) -> (out: String)
        ensures
            out@ == self.path@ + ".lock"@,
    {
        joined(self.path.as_str(), ".lock")
    }

    /// The error for a store that could not be locked.
    pub fn lock_error(&self, contended: bool, source: &str) -> (out: String)
        ensures
            out@ == if contended {
                "json store "@ + self.path@ + " is locked by another process"@
            } else {
                "failed to lock json store "@ + self.path@ + ": "@ + source@
            },
    {
        if contended {
            joined3("json store ", self.path.as_str(), " is locked by another process")
        } else {
            let mut out = joined3("failed to lock json store ", self.path.as_str(), ": ");
            out.push_str(source);
            out
        }
    }

    fn read(&self, contents: &Option<String>) -> (out: Result<
        serde_json::Map<String, serde_json::Value>,
        String,
    >)
        ensures
            match out {
                Ok(object) => stored(opt_text(*contents)) == Some(members(object)),
                Err(error) => stored(opt_text(*contents)) is None && error@ == unreadable(
                    self.path@,
                ),
            },
    {
        match contents {
            None => Ok(new_object()),
            Some(text) => match parse_json(text.as_str()) {
                Ok(value) => match into_object(value) {
                    Ok(object) => Ok(object),
                    Err(_) => Err(joined("failed to parse json store ", self.path.as_str())),
                },
                Err(_) => Err(joined("failed to parse json store ", self.path.as_str())),
            },
        }
    }

    fn write(&self, object: serde_json::Map<String, serde_json::Value>) -> (out: Result<
        String,
        String,
    >)
        ensures
            out is Ok,
            file_of(members(object), out->Ok_0@),
    {
        let value = object_value(object);
        match pretty_json(&value) {
            Ok(text) => {
                assert(object_in(value) is Some);
                Ok(text)
            },
            Err(_) => Err(owned("failed to serialize json store")),
        }
    }

    /// The value at a key, from the contents of the file; `None` is a file that
    /// does not exist.
    pub fn get(&self, contents: &Option<String>, key: &str) -> (out: Result<
        Option<serde_json::Value>,
        String,
    >)
        ensures
            match stored(opt_text(*contents)) {
                None => out is Err && out->Err_0@ == unreadable(self.path@),
                Some(values) => out is Ok && out->Ok_0 == if values.contains_key(key@) {
                    Some(values[key@])
                } else {
                    None
                },
            },
    {
        match self.read(contents) {
            Ok(object) => Ok(get_member(&object, key)),
            Err(error) => Err(error),
        }
    }

    /// The new contents of the file with a value at a key. All other keys stay.
    pub fn set(&self, contents: &Option<String>, key: String, value: serde_json::Value) -> (out:
        Result<String, String>)
        ensures
            match stored(opt_text(*contents)) {
                None => out is Err && out->Err_0@ == unreadable(self.path@),
                Some(values) => out is Ok && file_of(values.insert(key@, value), out->Ok_0@),
            },
    {
        match self.read(contents) {
            Ok(object) => {
                let mut object = object;
                set_member(&mut object, key, value);
                self.write(object)
            },
            Err(error) => Err(error),
        }
    }

    /// The new contents of the file without a key; `None` where the key is not
    /// there, so that nothing is to be written.
    pub fn remove(&self, contents: &Option<String>, key: &str) -> (out: Result<
        Option<String>,
        String,
    >)
        ensures
            match stored(opt_text(*contents)) {
                None => out is Err && out->Err_0@ == unreadable(self.path@),
                Some(values) => if values.contains_key(key@) {
                    &&& out is Ok
                    &&& out->Ok_0 is Some
                    &&& file_of(values.remove(key@), (out->Ok_0)->0@)
                } else {
                    out == Ok::<Option<String>, String>(None)
                },
            },
    {
        match self.read(contents) {
            Ok(object) => {
                let mut object = object;
                match remove_member(&mut object, key) {
                    None => Ok(None),
                    Some(_) => match self.write(object) {
                        Ok(text) => Ok(Some(text)),
                        Err(error) => Err(error),
                    },
                }
            },
            Err(error) => Err(error),
        }
    }

    /// Whether a key is there.
    pub fn contains(&self, contents: &Option<String>, key: &str) -> (out: Result<bool, String>)
        ensures
            match stored(opt_text(*contents)) {
                None => out is Err && out->Err_0@ == unreadable(self.path@),
                Some(values) => out == Ok::<bool, String>(values.contains_key(key@)),
            },
    {
        match self.read(contents) {
            Ok(object) => Ok(get_member(&object, key).is_some()),
            Err(error) => Err(error),
        }
    }
}

/// What is read from a file that was just written: the same keys, and at each
/// key the same value, as far as the file is read as JSON.
pub proof fn what_is_set_is_read_back(
    values: Map<Seq<char>, serde_json::Value>,
    text: Seq<char>,
    key: Seq<char>,
)
    requires
        file_of(values, text),
        json_of(text) is Ok,
    ensures
        stored(Some(text)) is Some,
        stored(Some(text))->0.contains_key(key) == values.contains_key(key),
        values.contains_key(key) ==> same_json(stored(Some(text))->0[key], values[key]),
{
    let value = choose|value: serde_json::Value|
        {
            &&& #[trigger] object_in(value) is Some
            &&& members(object_in(value)->0) == values
            &&& text == pretty(value)
            &&& json_of(text) is Ok ==> same_json(json_of(text)->Ok_0, value)
        };
    let read = json_of(text)->Ok_0;
    lemma_members_are_the_same(read, value);
    let found = members(object_in(read)->0);
    assert(found.dom().contains(key) == values.dom().contains(key));
}

/// Of a file that cannot be read the user is told which it is.
pub proof fn unreadable_files_are_named(path: Seq<char>)
    ensures
        path.is_suffix_of(unreadable(path)),
{
    assert(unreadable(path).skip(unreadable(path).len() - path.len()) =~= path);
}

} // verus!
