//! Layered settings: defaults, global file, project file, environment, and the
//! highest wins.
//!
//! Every field of a layer is optional, where `None` means that the source has
//! no opinion rather than that it chose the default. [`Settings`] is the result
//! and has no optionals.
pub mod controller;
pub mod env;
pub mod layers;
pub mod overlay;
pub mod schema;
pub mod storage;

use crate::llm::ReasoningEffort;
use crate::settings::layers::{SettingsLayer, LayerView};
use crate::startup::ProviderEntry;
use crate::text::{owned, same, texts};
use vstd::prelude::*;

verus! {

/// The model that is used where none is chosen.
pub const DEFAULT_MODEL: &'static str = "openai/gpt-4o-mini";

/// Which of the provider's tools are offered.
#[derive(Debug, Clone, Copy, PartialEq, Eq, Structural)]
pub struct Tools {
    pub web_search: bool,
    pub web_fetch: bool,
}

impl Default for Tools {
    fn default() -> (out: Tools)
        ensures
            out == (Tools { web_search: false, web_fetch: false }),
    {
        Tools { web_search: false, web_fetch: false }
    }
}

/// The values in force, with every source taken in.
#[derive(Debug, Clone, PartialEq)]
pub struct Settings<S = String> {
    pub tools: Tools,
    pub model: S,
    pub reasoning_effort: ReasoningEffort,
}

impl View for Settings {
    type V = Settings<Seq<char>>;

    open spec fn view(&self) -> Settings<Seq<char>> {
        Settings {
            tools: self.tools,
            model: self.model@,
            reasoning_effort: self.reasoning_effort,
        }
    }
}

/// What a provider is asked for: a model, the tools to offer, and the effort.
#[derive(Debug)]
pub struct Binding {
    pub provider: String,
    pub model: String,
    pub server_tools: Vec<String>,
    pub reasoning_effort: ReasoningEffort,
}

/// The values where no source has an opinion.
pub open spec fn default_settings() -> Settings<Seq<char>> {
    Settings {
        tools: Tools { web_search: false, web_fetch: false },
        model: DEFAULT_MODEL@,
        reasoning_effort: ReasoningEffort::Auto,
    }
}

/// The values with a higher layer on top. The layer wins field by field.
pub open spec fn overlaid(lower: Settings<Seq<char>>, higher: LayerView) -> Settings<Seq<char>> {
    Settings {
        tools: Tools {
            web_search: higher.web_search.unwrap_or(lower.tools.web_search),
            web_fetch: higher.web_fetch.unwrap_or(lower.tools.web_fetch),
        },
        model: higher.model.unwrap_or(lower.model),
        reasoning_effort: higher.reasoning_effort.unwrap_or(lower.reasoning_effort),
    }
}

impl Default for Settings {
    fn default() -> (out: Settings)
        ensures
            out@ == default_settings(),
    {
        Settings {
            tools: Tools::default(),
            model: owned(DEFAULT_MODEL),
            reasoning_effort: ReasoningEffort::default(),
        }
    }
}

/// The identifiers of the provider's tools that are offered.
pub open spec fn server_tool_on(settings: Settings<Seq<char>>, id: Seq<char>) -> bool {
    if id == "openrouter:web_fetch"@ {
        settings.tools.web_fetch
    } else if id == "openrouter:web_search"@ {
        settings.tools.web_search
    } else {
        false
    }
}

impl Settings {
    /// The values with a higher layer on top.
    pub fn layer(self, higher: &SettingsLayer) -> (out: Settings)
        ensures
            out@ == overlaid(self@, higher@),
    {
        let mut out = self;
        if let Some(model) = &higher.model {
            out.model = model.clone();
        }
        if let Some(effort) = higher.reasoning_effort {
            out.reasoning_effort = effort;
        }
        if let Some(tools) = higher.tools {
            if let Some(on) = tools.web_search {
                out.tools.web_search = on;
            }
            if let Some(on) = tools.web_fetch {
                out.tools.web_fetch = on;
            }
        }
        out
    }

    /// The tools among those that a provider has which are to be offered, in
    /// order.
    pub fn server_tools(&self, available: &Vec<String>) -> (out: Vec<String>)
        ensures
            texts(out@) == texts(available@).filter(
                |id: Seq<char>| server_tool_on(self@, id),
            ),
    {
        let ghost on = |id: Seq<char>| server_tool_on(self@, id);
        let ghost views = texts(available@);
        let mut out: Vec<String> = Vec::new();
        let mut i: usize = 0;
        assert(views.take(0).filter(on) =~= Seq::empty());
        assert(texts(out@) =~= Seq::empty());
        while i < available.len()
            invariant
                i <= available@.len(),
                views == texts(available@),
                on == (|id: Seq<char>| server_tool_on(self@, id)),
                texts(out@) == views.take(i as int).filter(on),
            decreases available@.len() - i,
        {
            let id = available[i].clone();
            let ghost before = texts(out@);
            proof {
                assert(views.take(i as int + 1) =~= views.take(i as int).push(views[i as int]));
                views.take(i as int).lemma_filter_push(views[i as int], on);
            }
            let wanted = if same(id.as_str(), "openrouter:web_fetch") {
                self.tools.web_fetch
            } else if same(id.as_str(), "openrouter:web_search") {
                self.tools.web_search
            } else {
                false
            };
            if wanted {
                out.push(id);
                assert(texts(out@) =~= before.push(id@));
            }
            i += 1;
        }
        assert(views.take(i as int) =~= views);
        out
    }

    /// What the first provider is to be asked for, so that the values are served:
    /// used at the start and on every change, so that the two cannot disagree.
    pub fn bind(&self, providers: &Vec<ProviderEntry>) -> (out: Result<Binding, String>)
        ensures
            match out {
                Ok(binding) => {
                    &&& providers@.len() > 0
                    &&& binding.provider == providers@[0].id
                    &&& binding.model@ == self@.model
                    &&& binding.reasoning_effort == self@.reasoning_effort
                    &&& texts(binding.server_tools@) == texts(providers@[0].server_tools@).filter(
                        |id: Seq<char>| server_tool_on(self@, id),
                    )
                },
                Err(error) => providers@.len() == 0 && error@ == "no provider configured"@,
            },
    {
        if providers.len() == 0 {
            return Err(owned("no provider configured"));
        }
        Ok(
            Binding {
                provider: providers[0].id.clone(),
                model: self.model.clone(),
                server_tools: self.server_tools(&providers[0].server_tools),
                reasoning_effort: self.reasoning_effort,
            },
        )
    }

    /// Whether the values are the same.
    pub fn same_as(&self, other: &Settings) -> (out: bool)
        ensures
            out == (self@ == other@),
    {
        self.tools == other.tools && same(self.model.as_str(), other.model.as_str())
            && self.reasoning_effort == other.reasoning_effort
    }

    /// An equal copy.
    pub fn copy(&self) -> (out: Settings)
        ensures
            out == *self,
    {
        Settings {
            tools: self.tools,
            model: self.model.clone(),
            reasoning_effort: self.reasoning_effort,
        }
    }
}

/// A layer without opinions changes nothing.
pub proof fn silence_changes_nothing(lower: Settings<Seq<char>>, higher: LayerView)
    requires
        higher.model is None,
        higher.reasoning_effort is None,
        higher.web_search is None,
        higher.web_fetch is None,
    ensures
        overlaid(lower, higher) == lower,
{
}

/// A tool of the provider is offered exactly where its own setting is on; tools that
/// have no setting are not.
pub proof fn tools_are_offered_where_they_are_on(settings: Settings<Seq<char>>, id: Seq<char>)
    ensures
        server_tool_on(settings, "openrouter:web_fetch"@) == settings.tools.web_fetch,
        server_tool_on(settings, "openrouter:web_search"@) == settings.tools.web_search,
        id != "openrouter:web_fetch"@ && id != "openrouter:web_search"@ ==> !server_tool_on(
            settings,
            id,
        ),
{
    reveal_strlit("openrouter:web_fetch");
    reveal_strlit("openrouter:web_search");
    assert("openrouter:web_fetch"@.len() == 20);
    assert("openrouter:web_search"@.len() == 21);
}

/// A higher layer sets the fields that it has opinions on, and leaves the others.
pub proof fn layers_set_their_fields(lower: Settings<Seq<char>>, higher: LayerView)
    ensures
        higher.model is Some ==> overlaid(lower, higher).model == higher.model->0,
        higher.model is None ==> overlaid(lower, higher).model == lower.model,
        higher.reasoning_effort is Some ==> overlaid(lower, higher).reasoning_effort
            == higher.reasoning_effort->0,
        higher.reasoning_effort is None ==> overlaid(lower, higher).reasoning_effort
            == lower.reasoning_effort,
        higher.web_search is Some ==> overlaid(lower, higher).tools.web_search
            == higher.web_search->0,
        higher.web_search is None ==> overlaid(lower, higher).tools.web_search
            == lower.tools.web_search,
        higher.web_fetch is Some ==> overlaid(lower, higher).tools.web_fetch == higher.web_fetch->0,
        higher.web_fetch is None ==> overlaid(lower, higher).tools.web_fetch
            == lower.tools.web_fetch,
{
}

} // verus!
