//! What the program finds out before it starts: its directories, its settings
//! and its model.
use crate::command::SlashCommand;
use crate::llm::{effort_word, names_no_effort, ReasoningEffort};
use crate::path::{join_path, parts_on_either_side, split_at_each, split_chars, under};
use crate::session::record::Session;
use crate::settings::layers::bool_word;
use crate::permissions::{Grant, Policy, ToolPolicy};
use crate::stored_settings::{
    is_default, order_for, PatchSettings, ProviderOrder, Settings, DEFAULT_MODEL, DEFAULT_PROVIDER,
};
use crate::text::{
    ascii_lowercase, ascii_lowered, blank, debug_text, joined, joined3,
    lemma_blank_trims_to_nothing, lemma_first_at, opt_text, owned, quoted, same, texts, trim,
    trimmed,
};
use vstd::prelude::*;

verus! {

/// The environment, as far as settings are concerned.
pub struct Environment {
    pub model: Option<String>,
    pub web_fetch: Option<String>,
    pub web_search: Option<String>,
    pub reasoning_effort: Option<String>,
    pub provider_order: Option<String>,
    pub provider: Option<String>,
}

/// The boolean that a variable says, or the error where it says anything else.
pub open spec fn bool_env(name: Seq<char>, value: Seq<char>) -> Result<bool, Seq<char>> {
    let word = ascii_lowered(trimmed(value));
    match bool_word(word) {
        Some(on) => Ok(on),
        None => Err(name + " must be a boolean (true/false), got "@ + debug_text(word)),
    }
}

/// The view of a result with an error as text.
pub open spec fn result_view<A>(result: Result<A, String>) -> Result<A, Seq<char>> {
    match result {
        Ok(value) => Ok(value),
        Err(error) => Err(error@),
    }
}

/// The boolean that a variable says.
pub fn parse_bool_env(name: &str, value: &str) -> (out: Result<bool, String>)
    ensures
        result_view(out) == bool_env(name@, value@),
{
    let word = ascii_lowercase(trim(value).as_str());
    match crate::settings::layers::parse_bool(word.as_str()) {
        Some(on) => Ok(on),
        None => Err(
            joined3(
                name,
                " must be a boolean (true/false), got ",
                quoted(word.as_str()).as_str(),
            ),
        ),
    }
}

/// The error for a variable that names no effort.
pub open spec fn no_such_effort(value: Seq<char>) -> Seq<char> {
    "ALAN_REASONING_EFFORT must be one of none, minimal, low, medium, high, xhigh, max; got "@
        + debug_text(value)
}

/// The effort that a variable names.
pub fn parse_reasoning_effort(value: &str) -> (out: Result<ReasoningEffort, String>)
    ensures
        match out {
            Ok(effort) => effort_word(effort) == ascii_lowered(trimmed(value@)),
            Err(error) => {
                &&& names_no_effort(ascii_lowered(trimmed(value@)))
                &&& error@ == no_such_effort(value@)
            },
        },
{
    match SlashCommand::parse_effort(value) {
        Some(effort) => Ok(effort),
        None => Err(
            joined(
                "ALAN_REASONING_EFFORT must be one of none, minimal, low, medium, high, xhigh, max; got ",
                quoted(value).as_str(),
            ),
        ),
    }
}

/// The entries of a list with commas, without white space around them, as far
/// as they are not blank.
pub open spec fn listed(value: Seq<char>) -> Seq<Seq<char>> {
    split_at_each(value, ',').map_values(|entry: Seq<char>| trimmed(entry)).filter(
        |entry: Seq<char>| entry.len() > 0,
    )
}

/// The providers that a variable lists, in order. It has to list one.
pub fn parse_provider_order(value: &str) -> (out: Result<Vec<String>, String>)
    ensures
        match out {
            Ok(order) => texts(order@) == listed(value@) && listed(value@).len() > 0,
            Err(error) => listed(value@).len() == 0 && error@
                == "ALAN_OR_MODEL_PROVIDER must not be empty"@,
        },
{
    let entries = split_chars(value, ',');
    let ghost views = texts(entries@).map_values(|entry: Seq<char>| trimmed(entry));
    let ghost full = |entry: Seq<char>| entry.len() > 0;
    let mut order: Vec<String> = Vec::new();
    let mut i: usize = 0;
    assert(views.take(0).filter(full) =~= Seq::empty());
    assert(texts(order@) =~= Seq::empty());
    while i < entries.len()
        invariant
            i <= entries@.len(),
            views == texts(entries@).map_values(|entry: Seq<char>| trimmed(entry)),
            full == (|entry: Seq<char>| entry.len() > 0),
            texts(order@) == views.take(i as int).filter(full),
        decreases entries@.len() - i,
    {
        let entry = trim(entries[i].as_str());
        let ghost before = texts(order@);
        proof {
            assert(views.take(i as int + 1) =~= views.take(i as int).push(views[i as int]));
            views.take(i as int).lemma_filter_push(views[i as int], full);
            assert(views[i as int] == entry@);
        }
        if !entry.as_str().is_empty() {
            order.push(entry);
            assert(texts(order@) =~= before.push(entry@));
        }
        i += 1;
    }
    assert(views.take(i as int) =~= views);
    assert(texts(order@).len() == order@.len());
    if order.len() == 0 {
        Err(owned("ALAN_OR_MODEL_PROVIDER must not be empty"))
    } else {
        Ok(order)
    }
}

/// Whether a patch says what the environment says. The order of providers is
/// for the model that the environment chooses, or the stored one, or the
/// default one; the order for all other models stays as it is stored.
pub open spec fn says(
    patch: PatchSettings,
    env: Environment,
    persisted_model: Option<Seq<char>>,
) -> bool {
    &&& patch.model == env.model
    &&& patch.provider == env.provider
    &&& patch.openrouter_provider_order is None
    &&& match env.web_fetch {
        Some(value) => patch.web_fetch is Some && bool_env(
            "ALAN_OPENROUTER_WEB_FETCH"@,
            value@,
        ) == Ok::<bool, Seq<char>>(patch.web_fetch->0),
        None => patch.web_fetch is None,
    }
    &&& match env.web_search {
        Some(value) => patch.web_search is Some && bool_env(
            "ALAN_OPENROUTER_WEB_SEARCH"@,
            value@,
        ) == Ok::<bool, Seq<char>>(patch.web_search->0),
        None => patch.web_search is None,
    }
    &&& match env.reasoning_effort {
        Some(value) => patch.reasoning is Some && effort_word(patch.reasoning->0)
            == ascii_lowered(trimmed(value@)),
        None => patch.reasoning is None,
    }
    &&& match env.provider_order {
        Some(value) => {
            &&& patch.provider_orders is Some
            &&& patch.provider_orders->0@.len() == 1
            &&& patch.provider_orders->0@[0].model@ == match env.model {
                Some(model) => model@,
                None => match persisted_model {
                    Some(model) => model,
                    None => DEFAULT_MODEL@,
                },
            }
            &&& texts(patch.provider_orders->0@[0].order@) == listed(value@)
            &&& listed(value@).len() > 0
        },
        None => patch.provider_orders is None,
    }
}

/// The error of the first variable that cannot be read, if there is one.
pub open spec fn env_error(env: Environment) -> Option<Seq<char>> {
    if env.web_fetch is Some && bool_env(
        "ALAN_OPENROUTER_WEB_FETCH"@,
        env.web_fetch->0@,
    ) is Err {
        Some(bool_env("ALAN_OPENROUTER_WEB_FETCH"@, env.web_fetch->0@)->Err_0)
    } else if env.web_search is Some && bool_env(
        "ALAN_OPENROUTER_WEB_SEARCH"@,
        env.web_search->0@,
    ) is Err {
        Some(bool_env("ALAN_OPENROUTER_WEB_SEARCH"@, env.web_search->0@)->Err_0)
    } else if env.reasoning_effort is Some && names_no_effort(
        ascii_lowered(trimmed(env.reasoning_effort->0@)),
    ) {
        Some(no_such_effort(env.reasoning_effort->0@))
    } else if env.provider_order is Some && listed(env.provider_order->0@).len() == 0 {
        Some("ALAN_OR_MODEL_PROVIDER must not be empty"@)
    } else {
        None
    }
}

/// The patch that the environment is for the stored settings.
pub fn build_env_patch_settings(env: &Environment, persisted_model: &Option<String>) -> (out: Result<
    PatchSettings,
    String,
>)
    ensures
        match env_error(*env) {
            Some(error) => out is Err && out->Err_0@ == error,
            None => out is Ok && says(out->Ok_0, *env, opt_text(*persisted_model)),
        },
{
    let mut patch = PatchSettings::default();
    if let Some(model) = &env.model {
        patch.model = Some(model.clone());
    }
    if let Some(value) = &env.web_fetch {
        match parse_bool_env("ALAN_OPENROUTER_WEB_FETCH", value.as_str()) {
            Ok(on) => {
                patch.web_fetch = Some(on);
            },
            Err(error) => {
                return Err(error);
            },
        }
    }
    if let Some(value) = &env.web_search {
        match parse_bool_env("ALAN_OPENROUTER_WEB_SEARCH", value.as_str()) {
            Ok(on) => {
                patch.web_search = Some(on);
            },
            Err(error) => {
                return Err(error);
            },
        }
    }
    if let Some(value) = &env.reasoning_effort {
        match parse_reasoning_effort(value.as_str()) {
            Ok(effort) => {
                patch.reasoning = Some(effort);
            },
            Err(error) => {
                return Err(error);
            },
        }
    }
    if let Some(value) = &env.provider_order {
        let model = match &patch.model {
            Some(model) => model.clone(),
            None => match persisted_model {
                Some(model) => model.clone(),
                None => owned(DEFAULT_MODEL),
            },
        };
        match parse_provider_order(value.as_str()) {
            Ok(order) => {
                let mut orders: Vec<ProviderOrder> = Vec::new();
                orders.push(ProviderOrder { model, order });
                patch.provider_orders = Some(orders);
            },
            Err(error) => {
                return Err(error);
            },
        }
    }
    if let Some(provider) = &env.provider {
        patch.provider = Some(provider.clone());
    }
    Ok(patch)
}

/// A provider with the tools that it runs itself.
pub struct ProviderEntry {
    pub id: String,
    pub server_tools: Vec<String>,
}

/// Whether a tool of the provider is switched on. Tools that are not known here
/// stay off.
pub open spec fn tool_on(settings: Settings, id: Seq<char>) -> bool {
    if id == "openrouter:web_fetch"@ {
        settings.web_fetch == Some(true)
    } else if id == "openrouter:web_search"@ {
        settings.web_search == Some(true)
    } else {
        false
    }
}

fn is_on(choice: Option<bool>) -> (out: bool)
    ensures
        out == (choice == Some(true)),
{
    match choice {
        Some(on) => on,
        None => false,
    }
}

/// The tools of a provider that are switched on, in order.
pub fn enabled_server_tools(tools: &Vec<String>, settings: &Settings) -> (out: Vec<String>)
    ensures
        texts(out@) == texts(tools@).filter(|id: Seq<char>| tool_on(*settings, id)),
{
    let ghost on = |id: Seq<char>| tool_on(*settings, id);
    let ghost views = texts(tools@);
    let mut out: Vec<String> = Vec::new();
    let mut i: usize = 0;
    assert(views.take(0).filter(on) =~= Seq::empty());
    assert(texts(out@) =~= Seq::empty());
    while i < tools.len()
        invariant
            i <= tools@.len(),
            views == texts(tools@),
            on == (|id: Seq<char>| tool_on(*settings, id)),
            texts(out@) == views.take(i as int).filter(on),
        decreases tools@.len() - i,
    {
        let id = tools[i].clone();
        let ghost before = texts(out@);
        proof {
            assert(views.take(i as int + 1) =~= views.take(i as int).push(views[i as int]));
            views.take(i as int).lemma_filter_push(views[i as int], on);
        }
        let wanted = if same(id.as_str(), "openrouter:web_fetch") {
            is_on(settings.web_fetch)
        } else if same(id.as_str(), "openrouter:web_search") {
            is_on(settings.web_search)
        } else {
            false
        };
        if wanted {
            out.push(id);
            assert(texts(out@) =~= before.push(id@));
        }
        i += 1;
    }
    assert(views.take(i as int) =~= views);
    out
}

/// The model to start with.
pub struct Selection {
    /// Where its provider stands.
    pub provider: usize,
    pub model_id: String,
    pub server_tools: Vec<String>,
    pub reasoning_effort: ReasoningEffort,
    pub provider_order: Vec<String>,
}

/// The provider to start with: the resumed session's, or the stored one, or the
/// default one.
pub open spec fn wanted_provider(settings: Settings, resumed: Option<Session>) -> Seq<char> {
    match resumed {
        Some(session) => session.provider@,
        None => match settings.provider {
            Some(provider) => provider@,
            None => DEFAULT_PROVIDER@,
        },
    }
}

/// The model to start with: the resumed session's, or the stored one, or the
/// default one.
pub open spec fn wanted_model(settings: Settings, resumed: Option<Session>) -> Seq<char> {
    match resumed {
        Some(session) => session.model@,
        None => match settings.model {
            Some(model) => model@,
            None => DEFAULT_MODEL@,
        },
    }
}

/// Whether the `i`-th provider is the first of that identifier.
pub open spec fn is_provider(providers: Seq<ProviderEntry>, id: Seq<char>, i: int) -> bool {
    &&& 0 <= i < providers.len()
    &&& providers[i].id@ == id
    &&& forall|k: int| 0 <= k < i ==> (#[trigger] providers[k]).id@ != id
}

/// Choose the model to start with.
pub fn select_model(
    providers: &Vec<ProviderEntry>,
    settings: &Settings,
    resumed: &Option<Session>,
) -> (out: Result<Selection, String>)
    ensures
        match out {
            Ok(selection) => {
                &&& is_provider(
                    providers@,
                    wanted_provider(*settings, *resumed),
                    selection.provider as int,
                )
                &&& selection.model_id@ == wanted_model(*settings, *resumed)
                &&& texts(selection.server_tools@) == texts(
                    providers@[selection.provider as int].server_tools@,
                ).filter(|id: Seq<char>| tool_on(*settings, id))
                &&& selection.reasoning_effort == settings.reasoning.unwrap_or(
                    ReasoningEffort::Auto,
                )
                &&& texts(selection.provider_order@) == order_for(
                    settings.provider_orders@,
                    settings.openrouter_provider_order@,
                    wanted_model(*settings, *resumed),
                )
            },
            Err(error) => {
                &&& forall|i: int|
                    0 <= i < providers@.len() ==> (#[trigger] providers@[i]).id@
                        != wanted_provider(*settings, *resumed)
                &&& error@ == "Provider not found: "@ + wanted_provider(*settings, *resumed)
            },
        },
{
    let (provider_id, model_id) = match resumed {
        Some(session) => (session.provider.clone(), session.model.clone()),
        None => (
            match &settings.provider {
                Some(provider) => provider.clone(),
                None => owned(DEFAULT_PROVIDER),
            },
            match &settings.model {
                Some(model) => model.clone(),
                None => owned(DEFAULT_MODEL),
            },
        ),
    };
    let mut i: usize = 0;
    while i < providers.len()
        invariant
            i <= providers@.len(),
            forall|k: int| 0 <= k < i ==> (#[trigger] providers@[k]).id@ != provider_id@,
            provider_id@ == wanted_provider(*settings, *resumed),
            model_id@ == wanted_model(*settings, *resumed),
        decreases providers@.len() - i,
    {
        if same(providers[i].id.as_str(), provider_id.as_str()) {
            return Ok(
                Selection {
                    provider: i,
                    server_tools: enabled_server_tools(&providers[i].server_tools, settings),
                    reasoning_effort: match settings.reasoning {
                        Some(effort) => effort,
                        None => ReasoningEffort::Auto,
                    },
                    provider_order: settings.provider_order(model_id.as_str()),
                    model_id,
                },
            );
        }
        i += 1;
    }
    Err(joined("Provider not found: ", provider_id.as_str()))
}

/// The session to go on with, from a variable. It must not be blank.
pub fn configured_session_id(value: &Option<String>) -> (out: Result<Option<String>, String>)
    ensures
        match value {
            None => out == Ok::<Option<String>, String>(None),
            Some(text) => if trimmed(text@).len() == 0 {
                out is Err && out->Err_0@ == "ALAN_SESSION must not be empty"@
            } else {
                out is Ok && opt_text(out->Ok_0) == Some(trimmed(text@))
            },
        },
{
    match value {
        None => Ok(None),
        Some(text) => {
            let id = trim(text.as_str());
            if id.as_str().is_empty() {
                Err(owned("ALAN_SESSION must not be empty"))
            } else {
                Ok(Some(id))
            }
        },
    }
}

/// The directory that the program keeps its files in: below its own home, or
/// else below the user's.
pub fn alan_data_dir(alan_home: &Option<String>, home: &Option<String>) -> (out: Result<
    String,
    String,
>)
    ensures
        match (*alan_home, *home) {
            (Some(dir), _) => out is Ok && out->Ok_0@ == under(dir@, ".alan"@),
            (None, Some(dir)) => out is Ok && out->Ok_0@ == under(dir@, ".alan"@),
            (None, None) => out is Err && out->Err_0@ == "cannot determine Alan home directory"@,
        },
{
    match alan_home {
        Some(dir) => Ok(join_path(dir.as_str(), ".alan")),
        None => match home {
            Some(dir) => Ok(join_path(dir.as_str(), ".alan")),
            None => Err(owned("cannot determine Alan home directory")),
        },
    }
}

/// The file of the settings.
pub fn settings_path(data_dir: &str) -> (out: String)
    ensures
        out@ == under(data_dir@, "settings.json"@),
{
    join_path(data_dir, "settings.json")
}

/// The file of the credentials.
pub fn auth_path(data_dir: &str) -> (out: String)
    ensures
        out@ == under(data_dir@, "auth.json"@),
{
    join_path(data_dir, "auth.json")
}

/// The directory of the sessions.
pub fn sessions_path(data_dir: &str) -> (out: String)
    ensures
        out@ == under(data_dir@, "sessions"@),
{
    join_path(data_dir, "sessions")
}

/// Whether the program was called with a flag.
pub fn has_flag(args: &Vec<String>, flag: &str) -> (out: bool)
    ensures
        out == texts(args@).contains(flag@),
{
    let mut i: usize = 0;
    while i < args.len()
        invariant
            i <= args@.len(),
            forall|k: int| 0 <= k < i ==> (#[trigger] args@[k])@ != flag@,
        decreases args@.len() - i,
    {
        if same(args[i].as_str(), flag) {
            assert(texts(args@)[i as int] == flag@);
            return true;
        }
        i += 1;
    }
    assert forall|k: int| 0 <= k < texts(args@).len() implies texts(args@)[k] != flag@ by {
        assert(texts(args@)[k] == args@[k]@);
    }
    false
}

/// The settings to start from, and whether they are to be written down: those
/// of a first run are, where none were stored.
pub fn load_or_create_settings(stored: Option<Settings>) -> (out: (Settings, bool))
    ensures
        match stored {
            Some(settings) => out == (settings, false),
            None => out.1 && is_default(out.0),
        },
{
    match stored {
        Some(settings) => (settings, false),
        None => (Settings::with_defaults(), true),
    }
}

/// The policy for tools to start with: the stored one, or the strict one, with
/// no grants yet.
pub fn build_tool_policy(settings: &Settings) -> (out: ToolPolicy)
    ensures
        out.well_formed(),
        out.state.policy == settings.tool_policy.unwrap_or(Policy::Strict),
        out.state.grants@ == Set::<Grant<Seq<char>>>::empty(),
{
    let mut policy = ToolPolicy::new();
    if let Some(saved) = settings.tool_policy {
        policy.set_policy(saved);
    }
    policy
}

/// The directory that the logs go to: the one that is given, or one below the
/// program's own.
pub fn log_directory(
    log_dir: &Option<String>,
    alan_home: &Option<String>,
    home: &Option<String>,
) -> (out: Result<String, String>)
    ensures
        match (*log_dir, *alan_home, *home) {
            (Some(dir), _, _) => out is Ok && out->Ok_0@ == dir@,
            (None, Some(dir), _) => out is Ok && out->Ok_0@ == under(
                under(dir@, ".alan"@),
                "logs"@,
            ),
            (None, None, Some(dir)) => out is Ok && out->Ok_0@ == under(
                under(dir@, ".alan"@),
                "logs"@,
            ),
            (None, None, None) => out is Err && out->Err_0@
                == "cannot determine Alan home directory for logs"@,
        },
{
    if let Some(dir) = log_dir {
        return Ok(dir.clone());
    }
    match alan_data_dir(alan_home, home) {
        Ok(dir) => Ok(join_path(dir.as_str(), "logs")),
        Err(_) => Err(owned("cannot determine Alan home directory for logs")),
    }
}

/// A list is read entry by entry: commas part the entries, white space around one does
/// not matter, and blank ones are passed over.
pub proof fn lists_are_read_entry_by_entry(a: Seq<char>, b: Seq<char>)
    ensures
        listed(a.push(',') + b) == listed(a) + listed(b),
        !a.contains(',') && blank(a) ==> listed(a) == Seq::<Seq<char>>::empty(),
        !a.contains(',') && !blank(a) ==> listed(a) == seq![trimmed(a)],
{
    let trim_each = |entry: Seq<char>| trimmed(entry);
    let full = |entry: Seq<char>| entry.len() > 0;
    parts_on_either_side(a, b, ',');
    let x = split_at_each(a, ',').map_values(trim_each);
    let y = split_at_each(b, ',').map_values(trim_each);
    assert((split_at_each(a, ',') + split_at_each(b, ',')).map_values(trim_each) =~= x + y);
    Seq::filter_distributes_over_add(x, y, full);
    if !a.contains(',') {
        lemma_first_at(a, ',');
        assert(split_at_each(a, ',') =~= seq![a]);
        lemma_blank_trims_to_nothing(a);
        let none = Seq::<Seq<char>>::empty();
        assert(x =~= none.push(trimmed(a)));
        none.lemma_filter_push(trimmed(a), full);
        reveal(Seq::filter);
        assert(none.filter(full) =~= none);
        assert(none.push(trimmed(a)) =~= seq![trimmed(a)]);
    }
}

/// A switch is read whatever the white space around it and the case of its letters; what
/// is no word for on or off is an error that names the variable.
pub proof fn switches_are_words(name: Seq<char>, value: Seq<char>)
    ensures
        ({
            let word = ascii_lowered(trimmed(value));
            let on = word == "1"@ || word == "true"@ || word == "yes"@ || word == "on"@;
            let off = word == "0"@ || word == "false"@ || word == "no"@ || word == "off"@;
            &&& bool_env(name, value) == Ok::<bool, Seq<char>>(true) <==> on
            &&& bool_env(name, value) == Ok::<bool, Seq<char>>(false) <==> off
            &&& bool_env(name, value) is Err <==> !on && !off
            &&& bool_env(name, value) is Err ==> name.is_prefix_of(bool_env(name, value)->Err_0)
        }),
{
    let word = ascii_lowered(trimmed(value));
    crate::settings::layers::words_for_on_and_off(word);
    if bool_env(name, value) is Err {
        let error = bool_env(name, value)->Err_0;
        assert(name =~= error.take(name.len() as int));
    }
}

/// An environment is refused exactly where one of its variables cannot be read.
pub proof fn only_broken_environments_are_refused(env: Environment)
    ensures
        env_error(env) is Some <==> {
            ||| env.web_fetch is Some && bool_word(ascii_lowered(trimmed(env.web_fetch->0@))) is None
            ||| env.web_search is Some && bool_word(
                ascii_lowered(trimmed(env.web_search->0@)),
            ) is None
            ||| env.reasoning_effort is Some && names_no_effort(
                ascii_lowered(trimmed(env.reasoning_effort->0@)),
            )
            ||| env.provider_order is Some && listed(env.provider_order->0@).len() == 0
        },
{
}

/// Each variable sets its own setting, and only that.
pub proof fn variables_set_their_own_settings(
    patch: PatchSettings,
    env: Environment,
    persisted_model: Option<Seq<char>>,
)
    requires
        says(patch, env, persisted_model),
    ensures
        opt_text(patch.model) == opt_text(env.model),
        opt_text(patch.provider) == opt_text(env.provider),
        patch.web_fetch is Some <==> env.web_fetch is Some,
        env.web_fetch is Some ==> bool_word(ascii_lowered(trimmed(env.web_fetch->0@)))
            == patch.web_fetch,
        patch.web_search is Some <==> env.web_search is Some,
        env.web_search is Some ==> bool_word(ascii_lowered(trimmed(env.web_search->0@)))
            == patch.web_search,
        patch.reasoning is Some <==> env.reasoning_effort is Some,
        env.reasoning_effort is Some ==> effort_word(patch.reasoning->0) == ascii_lowered(
            trimmed(env.reasoning_effort->0@),
        ),
        patch.provider_orders is Some <==> env.provider_order is Some,
        env.provider_order is Some && env.model is Some ==> order_for(
            patch.provider_orders->0@,
            Seq::empty(),
            env.model->0@,
        ) == listed(env.provider_order->0@),
        env.provider_order is Some && env.model is None && persisted_model is Some ==> order_for(
            patch.provider_orders->0@,
            Seq::empty(),
            persisted_model->0,
        ) == listed(env.provider_order->0@),
{
    if env.provider_order is Some {
        let orders = patch.provider_orders->0@;
        crate::stored_settings::orders_go_by_their_model(
            orders,
            Seq::empty(),
            orders[0].model@,
            0,
        );
    }
}

/// A session that is resumed keeps its provider and its model, whatever is set; a new
/// one has those that are set.
pub proof fn resumed_sessions_keep_their_model(settings: Settings, session: Session)
    ensures
        wanted_provider(settings, Some(session)) == session.provider@,
        wanted_model(settings, Some(session)) == session.model@,
        settings.provider is Some ==> wanted_provider(settings, None) == settings.provider->0@,
        settings.model is Some ==> wanted_model(settings, None) == settings.model->0@,
        settings.provider is None ==> wanted_provider(settings, None) == "openrouter"@,
        settings.model is None ==> wanted_model(settings, None) == "openai/gpt-4o-mini"@,
{
}

/// A tool of the provider is on exactly where its own setting says so.
pub proof fn tools_are_on_where_they_are_set(settings: Settings, id: Seq<char>)
    ensures
        tool_on(settings, "openrouter:web_fetch"@) <==> settings.web_fetch == Some(true),
        tool_on(settings, "openrouter:web_search"@) <==> settings.web_search == Some(true),
        tool_on(settings, id) ==> id == "openrouter:web_fetch"@ || id == "openrouter:web_search"@,
{
    reveal_strlit("openrouter:web_fetch");
    reveal_strlit("openrouter:web_search");
    assert("openrouter:web_fetch"@.len() == 20);
    assert("openrouter:web_search"@.len() == 21);
}

/// There is no more than one provider of an identifier that counts, the first of them.
pub proof fn the_first_provider_counts(
    providers: Seq<ProviderEntry>,
    id: Seq<char>,
    i: int,
    j: int,
)
    requires
        is_provider(providers, id, i),
    ensures
        providers[i].id@ == id,
        is_provider(providers, id, j) ==> i == j,
        0 <= j < providers.len() && providers[j].id@ == id ==> i <= j,
{
    if is_provider(providers, id, j) {
        if i < j {
            assert(providers[i].id@ != id);
        } else if j < i {
            assert(providers[j].id@ != id);
        }
    }
    if 0 <= j < i {
        assert(providers[j].id@ != id);
    }
}

} // verus!
