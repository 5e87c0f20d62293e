//! The local models that are known, kept in a file of their own.
use crate::json::{holds_array, items_are_the_same, items_in, json_of, same_json};
use crate::store::{file_of, stored, unreadable, what_is_set_is_read_back, JsonStore};
use crate::text::{opt_text, owned};
use vstd::prelude::*;

verus! {

/// The key that the models are kept under.
pub const MODELS_KEY: &'static str = "local_models";

/// The local models in a file.
pub struct JsonLocalModelStore {
    pub store: JsonStore,
}

impl JsonLocalModelStore {
    /// The local models in a file. Nothing is read or made yet.
    pub fn new(path: String) -> (out: JsonLocalModelStore)
        ensures
            out.store.path == path,
    {
        JsonLocalModelStore { store: JsonStore::new(path) }
    }

    /// The list of models in the contents of the file; `None` where there is
    /// none, which is no error.
    pub fn load(&self, contents: &Option<String>) -> (out: Result<
        Option<serde_json::Value>,
        String,
    >)
        ensures
            match stored(opt_text(*contents)) {
                None => out is Err && out->Err_0@ == unreadable(self.store.path@),
                Some(values) => out is Ok && out->Ok_0 == if values.contains_key(MODELS_KEY@)
                    && items_in(values[MODELS_KEY@]) is Some {
                    Some(values[MODELS_KEY@])
                } else {
                    None
                },
            },
    {
        match self.store.get(contents, MODELS_KEY) {
            Ok(Some(value)) => {
                if holds_array(&value) {
                    Ok(Some(value))
                } else {
                    Ok(None)
                }
            },
            Ok(None) => Ok(None),
            Err(error) => Err(error),
        }
    }

    /// The new contents of the file with another list of models.
    pub fn save(&self, contents: &Option<String>, entries: serde_json::Value) -> (out: Result<
        String,
        String,
    >)
        ensures
            match stored(opt_text(*contents)) {
                None => out is Err && out->Err_0@ == unreadable(self.store.path@),
                Some(values) => out is Ok && file_of(
                    values.insert(MODELS_KEY@, entries),
                    out->Ok_0@,
                ),
            },
    {
        self.store.set(contents, owned(MODELS_KEY), entries)
    }
}

/// The models that were saved are the ones that are loaded: as many, in the same
/// order, as far as the file is read as JSON.
pub proof fn saved_models_are_loaded(
    values: Map<Seq<char>, serde_json::Value>,
    entries: serde_json::Value,
    text: Seq<char>,
)
    requires
        items_in(entries) is Some,
        file_of(values.insert(MODELS_KEY@, entries), text),
        json_of(text) is Ok,
    ensures
        stored(Some(text)) is Some,
        stored(Some(text))->0.contains_key(MODELS_KEY@),
        items_in(stored(Some(text))->0[MODELS_KEY@]) is Some,
        items_in(stored(Some(text))->0[MODELS_KEY@])->0.len() == items_in(entries)->0.len(),
        forall|i: int|
            0 <= i < items_in(entries)->0.len() ==> same_json(
                #[trigger] items_in(stored(Some(text))->0[MODELS_KEY@])->0[i],
                items_in(entries)->0[i],
            ),
{
    what_is_set_is_read_back(values.insert(MODELS_KEY@, entries), text, MODELS_KEY@);
    items_are_the_same(stored(Some(text))->0[MODELS_KEY@], entries);
}

} // verus!
