//! What each source said, and the order they apply in.
use crate::llm::{effort_word, names_no_effort, ReasoningEffort};
use crate::settings::{default_settings, overlaid, Settings};
use crate::text::{
    ascii_lowercase, ascii_lowered, blank, debug_text, joined3, lemma_blank_trims_to_nothing,
    opt_text, quoted, same, trim, trimmed,
};
use vstd::prelude::*;

verus! {

/// What one source says of the provider's tools.
#[derive(Debug, Clone, Copy, PartialEq, Eq)]
pub struct ToolsLayer {
    pub web_search: Option<bool>,
    pub web_fetch: Option<bool>,
}

/// What one source says.
#[derive(Debug, Clone, PartialEq)]
pub struct SettingsLayer {
    pub model: Option<String>,
    pub reasoning_effort: Option<ReasoningEffort>,
    pub tools: Option<ToolsLayer>,
}

/// The opinions of a [`SettingsLayer`].
pub struct LayerView {
    pub model: Option<Seq<char>>,
    pub reasoning_effort: Option<ReasoningEffort>,
    pub web_search: Option<bool>,
    pub web_fetch: Option<bool>,
}

impl View for SettingsLayer {
    type V = LayerView;

    open spec fn view(&self) -> LayerView {
        LayerView {
            model: opt_text(self.model),
            reasoning_effort: self.reasoning_effort,
            web_search: match self.tools {
                Some(tools) => tools.web_search,
                None => None,
            },
            web_fetch: match self.tools {
                Some(tools) => tools.web_fetch,
                None => None,
            },
        }
    }
}

/// A source without opinions.
pub open spec fn silent() -> LayerView {
    LayerView { model: None, reasoning_effort: None, web_search: None, web_fetch: None }
}

impl Default for SettingsLayer {
    fn default() -> (out: SettingsLayer)
        ensures
            out@ == silent(),
    {
        SettingsLayer { model: None, reasoning_effort: None, tools: None }
    }
}

/// Whether a source has an opinion about a key.
pub open spec fn has_opinion(layer: LayerView, key: Seq<char>) -> bool {
    if key == "model"@ {
        layer.model is Some
    } else if key == "reasoning_effort"@ {
        layer.reasoning_effort is Some
    } else if key == "tools.web_search"@ {
        layer.web_search is Some
    } else if key == "tools.web_fetch"@ {
        layer.web_fetch is Some
    } else {
        false
    }
}

impl SettingsLayer {
    /// Whether the source has an opinion about a key.
    pub fn has(&self, key: &str) -> (out: bool)
        ensures
            out == has_opinion(self@, key@),
    {
        if same(key, "model") {
            self.model.is_some()
        } else if same(key, "reasoning_effort") {
            self.reasoning_effort.is_some()
        } else if same(key, "tools.web_search") {
            match self.tools {
                Some(tools) => tools.web_search.is_some(),
                None => false,
            }
        } else if same(key, "tools.web_fetch") {
            match self.tools {
                Some(tools) => tools.web_fetch.is_some(),
                None => false,
            }
        } else {
            false
        }
    }
}

/// Which source supplied a value, lowest first.
#[derive(Debug, Clone, Copy, PartialEq, Eq, Structural)]
pub enum Layer {
    Default,
    Global,
    Project,
    Env,
}

/// How high a source ranks.
pub open spec fn rank_of(layer: Layer) -> nat {
    match layer {
        Layer::Default => 0,
        Layer::Global => 1,
        Layer::Project => 2,
        Layer::Env => 3,
    }
}

impl Layer {
    /// The name of the source.
    pub fn label(self) -> (out: &'static str)
        ensures
            out@ == match self {
                Layer::Default => "default"@,
                Layer::Global => "global"@,
                Layer::Project => "project"@,
                Layer::Env => "env"@,
            },
    {
        match self {
            Layer::Default => "default",
            Layer::Global => "global",
            Layer::Project => "project",
            Layer::Env => "env",
        }
    }

    /// How high the source ranks.
    pub fn rank(self) -> (out: u8)
        ensures
            out == rank_of(self),
    {
        match self {
            Layer::Default => 0,
            Layer::Global => 1,
            Layer::Project => 2,
            Layer::Env => 3,
        }
    }
}

/// What all sources say, each kept apart, so that one scope can be read back
/// and the origin of a value be found.
#[derive(Debug)]
pub struct Layers {
    pub global: SettingsLayer,
    pub project: SettingsLayer,
    pub env: SettingsLayer,
}

/// The view of [`Layers`].
pub struct LayersView {
    pub global: LayerView,
    pub project: LayerView,
    pub env: LayerView,
}

impl View for Layers {
    type V = LayersView;

    open spec fn view(&self) -> LayersView {
        LayersView { global: self.global@, project: self.project@, env: self.env@ }
    }
}

/// The values that would apply in a scope if nothing above it interfered.
pub open spec fn resolved_as_of(layers: LayersView, scope: Layer) -> Settings<Seq<char>> {
    let base = default_settings();
    let global = if rank_of(scope) >= 1 {
        overlaid(base, layers.global)
    } else {
        base
    };
    let project = if rank_of(scope) >= 2 {
        overlaid(global, layers.project)
    } else {
        global
    };
    if rank_of(scope) >= 3 {
        overlaid(project, layers.env)
    } else {
        project
    }
}

/// The values in force.
pub open spec fn resolved(layers: LayersView) -> Settings<Seq<char>> {
    resolved_as_of(layers, Layer::Env)
}

/// Which source supplies a key's value: the highest one with an opinion.
pub open spec fn origin_of(layers: LayersView, key: Seq<char>) -> Layer {
    if has_opinion(layers.env, key) {
        Layer::Env
    } else if has_opinion(layers.project, key) {
        Layer::Project
    } else if has_opinion(layers.global, key) {
        Layer::Global
    } else {
        Layer::Default
    }
}

impl Layers {
    /// The values in force: every source applied over the defaults.
    pub fn resolve(&self) -> (out: Settings)
        ensures
            out@ == resolved(self@),
    {
        self.resolve_as_of(Layer::Env)
    }

    /// What would apply in `scope` if nothing above it interfered.
    pub fn resolve_as_of(&self, scope: Layer) -> (out: Settings)
        ensures
            out@ == resolved_as_of(self@, scope),
    {
        let mut settings = Settings::default();
        if scope.rank() >= 1 {
            settings = settings.layer(&self.global);
        }
        if scope.rank() >= 2 {
            settings = settings.layer(&self.project);
        }
        if scope.rank() >= 3 {
            settings = settings.layer(&self.env);
        }
        settings
    }

    /// Which source supplies a key's value.
    pub fn origin_layer(&self, key: &str) -> (out: Layer)
        ensures
            out == origin_of(self@, key@),
    {
        if self.env.has(key) {
            Layer::Env
        } else if self.project.has(key) {
            Layer::Project
        } else if self.global.has(key) {
            Layer::Global
        } else {
            Layer::Default
        }
    }
}

/// What a variable says: its value without white space around it, and nothing
/// where it is unset or blank.
pub open spec fn variable_text(value: Option<Seq<char>>) -> Option<Seq<char>> {
    match value {
        Some(text) => if trimmed(text).len() > 0 {
            Some(trimmed(text))
        } else {
            None
        },
        None => None,
    }
}

/// What a variable says.
pub fn read_var(value: &Option<String>) -> (out: Option<String>)
    ensures
        opt_text(out) == variable_text(opt_text(*value)),
{
    match value {
        None => None,
        Some(text) => {
            let text = trim(text.as_str());
            if text.as_str().is_empty() {
                None
            } else {
                Some(text)
            }
        },
    }
}

/// The error for a variable that says something else than is expected.
pub open spec fn unexpected(name: Seq<char>, expected: Seq<char>, raw: Seq<char>) -> Seq<char> {
    name + ": expected "@ + expected + ", got "@ + debug_text(raw)
}

/// The error for a variable that says something else than is expected.
pub fn unexpected_value(name: &str, expected: &str, raw: &str) -> (out: String)
    ensures
        out@ == unexpected(name@, expected@, raw@),
{
    let mut out = joined3(name, ": expected ", expected);
    out.push_str(", got ");
    out.push_str(quoted(raw).as_str());
    out
}

/// Read a variable with a parser, which is given the value in small letters. A
/// variable that is unset or blank is no opinion; one that does not parse is an
/// error.
pub fn parse_var<T, F: Fn(&str) -> Option<T>>(
    name: &str,
    value: &Option<String>,
    parser: F,
    expected: &str,
) -> (out: Result<Option<T>, String>)
    requires
        forall|s: &str| #[trigger] parser.requires((s,)),
    ensures
        match variable_text(opt_text(*value)) {
            None => out == Ok::<Option<T>, String>(None),
            Some(raw) => exists|s: &str, parsed: Option<T>|
                {
                    &&& #[trigger] parser.ensures((s,), parsed)
                    &&& s@ == ascii_lowered(raw)
                    &&& match parsed {
                        Some(v) => out == Ok::<Option<T>, String>(Some(v)),
                        None => out is Err && out->Err_0@ == unexpected(name@, expected@, raw),
                    }
                },
        },
{
    let raw = match read_var(value) {
        None => {
            return Ok(None);
        },
        Some(raw) => raw,
    };
    let lowered = ascii_lowercase(raw.as_str());
    let text = lowered.as_str();
    let parsed = parser(text);
    match parsed {
        Some(v) => Ok(Some(v)),
        None => Err(unexpected_value(name, expected, raw.as_str())),
    }
}

/// The boolean that a word stands for.
pub open spec fn bool_word(raw: Seq<char>) -> Option<bool> {
    if raw == "1"@ || raw == "true"@ || raw == "yes"@ || raw == "on"@ {
        Some(true)
    } else if raw == "0"@ || raw == "false"@ || raw == "no"@ || raw == "off"@ {
        Some(false)
    } else {
        None
    }
}

/// The boolean that a word stands for.
pub fn parse_bool(raw: &str) -> (out: Option<bool>)
    ensures
        out == bool_word(raw@),
{
    if same(raw, "1") || same(raw, "true") || same(raw, "yes") || same(raw, "on") {
        Some(true)
    } else if same(raw, "0") || same(raw, "false") || same(raw, "no") || same(raw, "off") {
        Some(false)
    } else {
        None
    }
}

/// What a boolean variable says, or the error where it says anything else.
pub open spec fn bool_variable(name: Seq<char>, value: Option<Seq<char>>) -> Result<
    Option<bool>,
    Seq<char>,
> {
    match variable_text(value) {
        None => Ok(None),
        Some(raw) => match bool_word(ascii_lowered(raw)) {
            Some(on) => Ok(Some(on)),
            None => Err(unexpected(name, "a boolean"@, raw)),
        },
    }
}

fn bool_var(name: &str, value: &Option<String>) -> (out: Result<Option<bool>, String>)
    ensures
        match out {
            Ok(on) => bool_variable(name@, opt_text(*value)) == Ok::<Option<bool>, Seq<char>>(on),
            Err(error) => bool_variable(name@, opt_text(*value)) == Err::<Option<bool>, Seq<char>>(
                error@,
            ),
        },
{
    parse_var(
        name,
        value,
        parse_bool,
        "a boolean",
    )
}

/// The variables that say something about settings.
pub struct Variables {
    pub model: Option<String>,
    pub reasoning_effort: Option<String>,
    pub web_search: Option<String>,
    pub web_fetch: Option<String>,
}

/// The efforts, as an error names them.
pub const EFFORT_WORDS: &'static str = "one of auto, none, minimal, low, medium, high, xhigh, max";

fn effort_var(value: &Option<String>) -> (out: Result<Option<ReasoningEffort>, String>)
    ensures
        match variable_text(opt_text(*value)) {
            None => out == Ok::<Option<ReasoningEffort>, String>(None),
            Some(raw) => match out {
                Ok(Some(effort)) => effort_word(effort) == ascii_lowered(raw),
                Ok(None) => false,
                Err(error) => {
                    &&& names_no_effort(ascii_lowered(raw))
                    &&& error@ == unexpected("ALAN_REASONING_EFFORT"@, EFFORT_WORDS@, raw)
                },
            },
        },
{
    parse_var(
        "ALAN_REASONING_EFFORT",
        value,
        ReasoningEffort::from_word,
        EFFORT_WORDS,
    )
}

/// The layer of the environment. The first variable that cannot be read is the
/// error.
pub fn env_layer(vars: &Variables) -> (out: Result<SettingsLayer, String>)
    ensures
        ({
            let effort = variable_text(opt_text(vars.reasoning_effort));
            let effort_ok = effort is Some ==> exists|e: ReasoningEffort| #[trigger]
                effort_word(e) == ascii_lowered(effort->0);
            let search = bool_variable(
                "ALAN_OPENROUTER_WEB_SEARCH"@,
                opt_text(vars.web_search),
            );
            let fetch = bool_variable("ALAN_OPENROUTER_WEB_FETCH"@, opt_text(vars.web_fetch));
            match out {
                Ok(layer) => {
                    &&& layer@.model == variable_text(opt_text(vars.model))
                    &&& layer@.reasoning_effort is Some == effort is Some
                    &&& effort is Some ==> effort_word(layer@.reasoning_effort->0)
                        == ascii_lowered(effort->0)
                    &&& search == Ok::<Option<bool>, Seq<char>>(layer@.web_search)
                    &&& fetch == Ok::<Option<bool>, Seq<char>>(layer@.web_fetch)
                },
                Err(error) => if !effort_ok {
                    error@ == unexpected("ALAN_REASONING_EFFORT"@, EFFORT_WORDS@, effort->0)
                } else if search is Err {
                    error@ == search->Err_0
                } else {
                    fetch is Err && error@ == fetch->Err_0
                },
            }
        }),
{
    let model = read_var(&vars.model);
    let reasoning_effort = match effort_var(&vars.reasoning_effort) {
        Ok(effort) => effort,
        Err(error) => {
            return Err(error);
        },
    };
    let web_search = match bool_var("ALAN_OPENROUTER_WEB_SEARCH", &vars.web_search) {
        Ok(on) => on,
        Err(error) => {
            return Err(error);
        },
    };
    let web_fetch = match bool_var("ALAN_OPENROUTER_WEB_FETCH", &vars.web_fetch) {
        Ok(on) => on,
        Err(error) => {
            return Err(error);
        },
    };
    Ok(SettingsLayer { model, reasoning_effort, tools: Some(ToolsLayer { web_search, web_fetch }) })
}

/// A key's value in force is the one that its origin would give alone, whatever
/// the sources above and below say.
pub proof fn the_origin_supplies_the_value(layers: LayersView)
    ensures
        resolved(layers).model == resolved_as_of(layers, origin_of(layers, "model"@)).model,
        resolved(layers).reasoning_effort == resolved_as_of(
            layers,
            origin_of(layers, "reasoning_effort"@),
        ).reasoning_effort,
        resolved(layers).tools.web_search == resolved_as_of(
            layers,
            origin_of(layers, "tools.web_search"@),
        ).tools.web_search,
        resolved(layers).tools.web_fetch == resolved_as_of(
            layers,
            origin_of(layers, "tools.web_fetch"@),
        ).tools.web_fetch,
{
    lemma_keys_differ();
}

proof fn lemma_keys_differ()
    ensures
        "model"@ != "reasoning_effort"@,
        "model"@ != "tools.web_search"@,
        "model"@ != "tools.web_fetch"@,
        "reasoning_effort"@ != "tools.web_search"@,
        "reasoning_effort"@ != "tools.web_fetch"@,
        "tools.web_search"@ != "tools.web_fetch"@,
{
    reveal_strlit("model");
    reveal_strlit("reasoning_effort");
    reveal_strlit("tools.web_search");
    reveal_strlit("tools.web_fetch");
    assert("model"@.len() == 5);
    assert("reasoning_effort"@.len() == 16);
    assert("reasoning_effort"@[0] == 'r');
    assert("tools.web_search"@.len() == 16);
    assert("tools.web_search"@[0] == 't');
    assert("tools.web_fetch"@.len() == 15);
}

/// A source that has an opinion outranks every lower one, field by field: what
/// the lower ones say of that field does not matter.
pub proof fn a_higher_layer_wins_per_field(layers: LayersView, other: LayersView)
    requires
        layers.env == other.env,
    ensures
        layers.env.model is Some ==> resolved(layers).model == resolved(other).model,
        layers.env.reasoning_effort is Some ==> resolved(layers).reasoning_effort == resolved(
            other,
        ).reasoning_effort,
        layers.env.web_search is Some ==> resolved(layers).tools.web_search == resolved(
            other,
        ).tools.web_search,
        layers.env.web_fetch is Some ==> resolved(layers).tools.web_fetch == resolved(
            other,
        ).tools.web_fetch,
{
}

/// Where every source is silent the defaults apply.
pub proof fn defaults_apply_to_silence()
    ensures
        resolved(LayersView { global: silent(), project: silent(), env: silent() })
            == default_settings(),
{
}

/// The value of the highest source that has one: the environment, then the project's
/// file, then the global one, then the default.
pub open spec fn highest<A>(env: Option<A>, project: Option<A>, global: Option<A>, default: A) -> A {
    if env is Some {
        env->0
    } else if project is Some {
        project->0
    } else if global is Some {
        global->0
    } else {
        default
    }
}

/// Each value in force is that of the highest source that has an opinion on it: the
/// environment before the project's file before the global file before the default.
pub proof fn the_highest_source_wins(layers: LayersView)
    ensures
        resolved(layers).model == highest(
            layers.env.model,
            layers.project.model,
            layers.global.model,
            "openai/gpt-4o-mini"@,
        ),
        resolved(layers).reasoning_effort == highest(
            layers.env.reasoning_effort,
            layers.project.reasoning_effort,
            layers.global.reasoning_effort,
            ReasoningEffort::Auto,
        ),
        resolved(layers).tools.web_search == highest(
            layers.env.web_search,
            layers.project.web_search,
            layers.global.web_search,
            false,
        ),
        resolved(layers).tools.web_fetch == highest(
            layers.env.web_fetch,
            layers.project.web_fetch,
            layers.global.web_fetch,
            false,
        ),
{
}

/// What applies in a scope does not depend on what stands above it.
pub proof fn scopes_do_not_look_up(layers: LayersView, other: LayersView)
    requires
        layers.global == other.global,
    ensures
        resolved_as_of(layers, Layer::Global) == resolved_as_of(other, Layer::Global),
        layers.project == other.project ==> resolved_as_of(layers, Layer::Project)
            == resolved_as_of(other, Layer::Project),
        resolved_as_of(layers, Layer::Global).model == layers.global.model.unwrap_or(
            "openai/gpt-4o-mini"@,
        ),
        resolved_as_of(layers, Layer::Project).model == highest(
            None,
            layers.project.model,
            layers.global.model,
            "openai/gpt-4o-mini"@,
        ),
        resolved_as_of(layers, Layer::Project).reasoning_effort == highest(
            None,
            layers.project.reasoning_effort,
            layers.global.reasoning_effort,
            ReasoningEffort::Auto,
        ),
{
}

/// A source has an opinion about a key exactly where it gives the key's value; about
/// any other key no source has one.
pub proof fn opinions_are_about_their_keys(layer: LayerView, key: Seq<char>)
    ensures
        has_opinion(layer, "model"@) <==> layer.model is Some,
        has_opinion(layer, "reasoning_effort"@) <==> layer.reasoning_effort is Some,
        has_opinion(layer, "tools.web_search"@) <==> layer.web_search is Some,
        has_opinion(layer, "tools.web_fetch"@) <==> layer.web_fetch is Some,
        key != "model"@ && key != "reasoning_effort"@ && key != "tools.web_search"@ && key
            != "tools.web_fetch"@ ==> !has_opinion(layer, key),
{
    lemma_keys_differ();
}

/// A variable that is unset, empty or blank says nothing; white space around what it
/// says does not matter.
pub proof fn blank_variables_say_nothing(text: Seq<char>)
    ensures
        variable_text(None) is None,
        blank(text) ==> variable_text(Some(text)) is None,
        !blank(text) ==> variable_text(Some(text)) == Some(trimmed(text)),
{
    lemma_blank_trims_to_nothing(text);
}

/// The words for on are not those for off.
pub proof fn words_for_on_and_off(word: Seq<char>)
    ensures
        bool_word(word) == Some(true) <==> word == "1"@ || word == "true"@ || word == "yes"@ || word
            == "on"@,
        bool_word(word) == Some(false) <==> word == "0"@ || word == "false"@ || word == "no"@
            || word == "off"@,
{
    reveal_strlit("1");
    reveal_strlit("true");
    reveal_strlit("yes");
    reveal_strlit("on");
    reveal_strlit("0");
    reveal_strlit("false");
    reveal_strlit("no");
    reveal_strlit("off");
    assert("1"@[0] == '1');
    assert("0"@[0] == '0');
    assert("on"@[1] == 'n');
    assert("no"@[1] == 'o');
    assert("yes"@[0] == 'y');
    assert("off"@[0] == 'o');
    assert("true"@.len() == 4);
    assert("false"@.len() == 5);
}

/// A variable for a switch that says nothing leaves it, one that says on or off sets
/// it, whatever the case of the letters, and one that says anything else is an error
/// that names the variable.
pub proof fn switches_are_read(name: Seq<char>, text: Seq<char>)
    ensures
        bool_variable(name, None) == Ok::<Option<bool>, Seq<char>>(None),
        blank(text) ==> bool_variable(name, Some(text)) == Ok::<Option<bool>, Seq<char>>(None),
        !blank(text) ==> match bool_word(ascii_lowered(trimmed(text))) {
            Some(on) => bool_variable(name, Some(text)) == Ok::<Option<bool>, Seq<char>>(Some(on)),
            None => bool_variable(name, Some(text)) is Err && name.is_prefix_of(
                bool_variable(name, Some(text))->Err_0,
            ),
        },
{
    blank_variables_say_nothing(text);
    if bool_variable(name, Some(text)) is Err {
        let error = bool_variable(name, Some(text))->Err_0;
        assert(name =~= error.take(name.len() as int));
    }
}

} // verus!
