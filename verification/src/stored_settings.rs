//! Settings as they are kept in one file, with a patch from the environment.
use crate::llm::ReasoningEffort;
use crate::path::under;
use crate::permissions::Policy;
use crate::startup::{alan_data_dir, settings_path};
use crate::store::{file_of, stored, unreadable, JsonStore};
use crate::text::{opt_text, owned, same, texts};
use vstd::prelude::*;

verus! {

/// The model that is used where none is stored or given.
pub const DEFAULT_MODEL: &'static str = "openai/gpt-4o-mini";

/// The provider that is used where none is stored or given.
pub const DEFAULT_PROVIDER: &'static str = "openrouter";

/// Who is to serve a model, in order of preference.
#[derive(Debug)]
pub struct ProviderOrder {
    pub model: String,
    pub order: Vec<String>,
}

/// What is stored. `None` is what was never chosen.
#[derive(Debug)]
pub struct Settings {
    pub model: Option<String>,
    pub web_fetch: Option<bool>,
    pub web_search: Option<bool>,
    pub reasoning: Option<ReasoningEffort>,
    /// Who is to serve the models that have no order of their own.
    pub openrouter_provider_order: Vec<String>,
    pub provider_orders: Vec<ProviderOrder>,
    pub provider: Option<String>,
    pub tool_policy: Option<Policy>,
}

/// A change of some settings. `None` leaves a setting as it is.
#[derive(Debug)]
pub struct PatchSettings {
    pub model: Option<String>,
    pub web_fetch: Option<bool>,
    pub web_search: Option<bool>,
    pub reasoning: Option<ReasoningEffort>,
    pub openrouter_provider_order: Option<Vec<String>>,
    pub provider_orders: Option<Vec<ProviderOrder>>,
    pub provider: Option<String>,
}

/// A value from a patch, or the one before where the patch has none.
pub open spec fn patched<A>(before: Option<A>, patch: Option<A>) -> Option<A> {
    match patch {
        Some(value) => Some(value),
        None => before,
    }
}

impl Default for Settings {
    fn default() -> (out: Settings)
        ensures
            out.model is None,
            out.web_fetch is None,
            out.web_search is None,
            out.reasoning is None,
            out.openrouter_provider_order@.len() == 0,
            out.provider_orders@.len() == 0,
            out.provider is None,
            out.tool_policy is None,
    {
        Settings {
            model: None,
            web_fetch: None,
            web_search: None,
            reasoning: None,
            openrouter_provider_order: Vec::new(),
            provider_orders: Vec::new(),
            provider: None,
            tool_policy: None,
        }
    }
}

impl Default for PatchSettings {
    fn default() -> (out: PatchSettings)
        ensures
            out.model is None,
            out.web_fetch is None,
            out.web_search is None,
            out.reasoning is None,
            out.openrouter_provider_order is None,
            out.provider_orders is None,
            out.provider is None,
    {
        PatchSettings {
            model: None,
            web_fetch: None,
            web_search: None,
            reasoning: None,
            openrouter_provider_order: None,
            provider_orders: None,
            provider: None,
        }
    }
}

/// Who is to serve a model: the first order for it, and the one for all others
/// where there is none.
pub open spec fn order_for(
    orders: Seq<ProviderOrder>,
    others: Seq<String>,
    model: Seq<char>,
) -> Seq<Seq<char>>
    decreases orders.len(),
{
    if orders.len() == 0 {
        texts(others)
    } else if orders[0].model@ == model {
        texts(orders[0].order@)
    } else {
        order_for(orders.drop_first(), others, model)
    }
}

/// Whether these are the settings of a first run: the default model of the
/// default provider, with little effort.
pub open spec fn is_default(settings: Settings) -> bool {
    &&& opt_text(settings.model) == Some(DEFAULT_MODEL@)
    &&& settings.web_fetch is None
    &&& settings.web_search is None
    &&& settings.reasoning == Some(ReasoningEffort::Low)
    &&& settings.openrouter_provider_order@.len() == 0
    &&& settings.provider_orders@.len() == 0
    &&& opt_text(settings.provider) == Some(DEFAULT_PROVIDER@)
    &&& settings.tool_policy is None
}

/// The file of the settings: below the program's own home, or else below the
/// user's.
pub fn default_settings_path(alan_home: &Option<String>, home: &Option<String>) -> (out: Result<
    String,
    String,
>)
    ensures
        match (*alan_home, *home) {
            (Some(dir), _) => out is Ok && out->Ok_0@ == under(
                under(dir@, ".alan"@),
                "settings.json"@,
            ),
            (None, Some(dir)) => out is Ok && out->Ok_0@ == under(
                under(dir@, ".alan"@),
                "settings.json"@,
            ),
            (None, None) => out is Err && out->Err_0@ == "cannot determine Alan home directory"@,
        },
{
    match alan_data_dir(alan_home, home) {
        Ok(dir) => Ok(settings_path(dir.as_str())),
        Err(error) => Err(error),
    }
}

impl Settings {
    /// The settings of a first run.
    pub fn with_defaults() -> (out: Settings)
        ensures
            is_default(out),
    {
        let mut out = Settings::default();
        out.model = Some(owned(DEFAULT_MODEL));
        out.reasoning = Some(ReasoningEffort::Low);
        out.provider = Some(owned(DEFAULT_PROVIDER));
        out
    }

    /// Change the settings that a patch has values for.
    pub fn apply_patch(&mut self, patch: PatchSettings)
        ensures
            final(self).model == patched(old(self).model, patch.model),
            final(self).web_fetch == patched(old(self).web_fetch, patch.web_fetch),
            final(self).web_search == patched(old(self).web_search, patch.web_search),
            final(self).reasoning == patched(old(self).reasoning, patch.reasoning),
            final(self).openrouter_provider_order == match patch.openrouter_provider_order {
                Some(order) => order,
                None => old(self).openrouter_provider_order,
            },
            final(self).provider_orders == match patch.provider_orders {
                Some(orders) => orders,
                None => old(self).provider_orders,
            },
            final(self).provider == patched(old(self).provider, patch.provider),
            final(self).tool_policy == old(self).tool_policy,
    {
        if let Some(v) = patch.model {
            self.model = Some(v);
        }
        if let Some(v) = patch.web_fetch {
            self.web_fetch = Some(v);
        }
        if let Some(v) = patch.web_search {
            self.web_search = Some(v);
        }
        if let Some(v) = patch.reasoning {
            self.reasoning = Some(v);
        }
        if let Some(v) = patch.openrouter_provider_order {
            self.openrouter_provider_order = v;
        }
        if let Some(v) = patch.provider_orders {
            self.provider_orders = v;
        }
        if let Some(v) = patch.provider {
            self.provider = Some(v);
        }
    }

    /// Who is to serve a model.
    pub fn provider_order(&self, model: &str) -> (out: Vec<String>)
        ensures
            texts(out@) == order_for(
                self.provider_orders@,
                self.openrouter_provider_order@,
                model@,
            ),
    {
        let mut i: usize = 0;
        assert(self.provider_orders@.skip(0) =~= self.provider_orders@);
        while i < self.provider_orders.len()
            invariant
                i <= self.provider_orders@.len(),
                order_for(self.provider_orders@, self.openrouter_provider_order@, model@)
                    == order_for(
                    self.provider_orders@.skip(i as int),
                    self.openrouter_provider_order@,
                    model@,
                ),
            decreases self.provider_orders@.len() - i,
        {
            let entry = &self.provider_orders[i];
            if same(entry.model.as_str(), model) {
                return copy_strings(&entry.order);
            }
            assert(self.provider_orders@.skip(i as int).drop_first() =~= self.provider_orders@.skip(
                i as int + 1,
            ));
            i += 1;
        }
        copy_strings(&self.openrouter_provider_order)
    }
}

/// A copy of a list of strings.
pub fn copy_strings(strings: &Vec<String>) -> (out: Vec<String>)
    ensures
        texts(out@) == texts(strings@),
{
    let mut out: Vec<String> = Vec::new();
    let mut i: usize = 0;
    while i < strings.len()
        invariant
            i <= strings@.len(),
            out@.len() == i,
            forall|k: int| 0 <= k < i ==> (#[trigger] out@[k])@ == strings@[k]@,
        decreases strings@.len() - i,
    {
        out.push(strings[i].clone());
        i += 1;
    }
    assert(texts(out@) =~= texts(strings@));
    out
}

/// Settings kept in a store, under one key.
pub struct SettingsStore {
    pub store: JsonStore,
    pub key: String,
}

impl SettingsStore {
    /// Settings in a file.
    pub fn new(path: String) -> (out: SettingsStore)
        ensures
            out.store.path == path,
            out.key@ == "settings"@,
    {
        SettingsStore { store: JsonStore::new(path), key: owned("settings") }
    }

    /// The settings in the contents of the file, as JSON; `None` where there are
    /// none yet.
    pub fn load(&self, contents: &Option<String>) -> (out: Result<
        Option<serde_json::Value>,
        String,
    >)
        ensures
            match stored(opt_text(*contents)) {
                None => out is Err && out->Err_0@ == unreadable(self.store.path@),
                Some(values) => out is Ok && out->Ok_0 == if values.contains_key(self.key@) {
                    Some(values[self.key@])
                } else {
                    None
                },
            },
    {
        self.store.get(contents, self.key.as_str())
    }

    /// The new contents of the file with other settings. All else in it stays.
    pub fn save(&self, contents: &Option<String>, settings: serde_json::Value) -> (out: Result<
        String,
        String,
    >)
        ensures
            match stored(opt_text(*contents)) {
                None => out is Err && out->Err_0@ == unreadable(self.store.path@),
                Some(values) => out is Ok && file_of(
                    values.insert(self.key@, settings),
                    out->Ok_0@,
                ),
            },
    {
        self.store.set(contents, self.key.clone(), settings)
    }
}

/// The order for a model is the first one that is kept for it, and the one for all
/// others where none is.
pub proof fn orders_go_by_their_model(
    orders: Seq<ProviderOrder>,
    others: Seq<String>,
    model: Seq<char>,
    i: int,
)
    requires
        0 <= i <= orders.len(),
        forall|k: int| 0 <= k < i ==> (#[trigger] orders[k]).model@ != model,
    ensures
        i < orders.len() && orders[i].model@ == model ==> order_for(orders, others, model) == texts(
            orders[i].order@,
        ),
        i == orders.len() ==> order_for(orders, others, model) == texts(others),
    decreases i,
{
    if i > 0 {
        let rest = orders.drop_first();
        assert forall|k: int| 0 <= k < i - 1 implies (#[trigger] rest[k]).model@ != model by {
            assert(rest[k] == orders[k + 1]);
        }
        assert(orders[0].model@ != model);
        orders_go_by_their_model(rest, others, model, i - 1);
    }
}

/// A patch sets what it names and leaves the rest.
pub proof fn patches_set_what_they_name<A>(before: Option<A>, value: A)
    ensures
        patched(before, Some(value)) == Some(value),
        patched(before, None) == before,
{
}

} // verus!
