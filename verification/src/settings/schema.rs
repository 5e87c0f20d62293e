//! One declaration per setting, read by the `/settings` list.
use crate::llm::{effort_word, effort_words_are_distinct, ReasoningEffort};
use crate::settings::layers::{has_opinion, opinions_are_about_their_keys, silent, LayerView};
use crate::settings::{overlaid, Settings};
use crate::text::owned;
use vstd::prelude::*;

verus! {

/// How a setting is changed. `Bool` and `Enum` cycle on a key; `Text` opens a
/// prompt.
#[derive(Debug, Clone, Copy, PartialEq, Eq, Structural)]
pub enum Kind {
    Bool,
    Enum,
    Text,
}

/// The value of a setting.
#[derive(Debug, Clone, PartialEq, Eq)]
pub enum SettingValue<S = String> {
    Bool(bool),
    Text(S),
    Enum(ReasoningEffort),
}

impl View for SettingValue {
    type V = SettingValue<Seq<char>>;

    open spec fn view(&self) -> SettingValue<Seq<char>> {
        match self {
            SettingValue::Bool(on) => SettingValue::Bool(*on),
            SettingValue::Text(text) => SettingValue::Text(text@),
            SettingValue::Enum(effort) => SettingValue::Enum(*effort),
        }
    }
}

/// A setting.
#[derive(Debug, Clone, Copy, PartialEq, Eq, Structural)]
pub enum SettingDef {
    Model,
    ReasoningEffort,
    WebSearch,
    WebFetch,
}

/// How many settings there are.
pub const SETTING_COUNT: usize = 4;

/// The settings, in the order in which they are listed.
pub open spec fn all_settings() -> Seq<SettingDef> {
    seq![
        SettingDef::Model,
        SettingDef::ReasoningEffort,
        SettingDef::WebSearch,
        SettingDef::WebFetch,
    ]
}

/// The place of a setting in the settings object, its names joined by dots.
pub open spec fn key_of(def: SettingDef) -> Seq<char> {
    match def {
        SettingDef::Model => "model"@,
        SettingDef::ReasoningEffort => "reasoning_effort"@,
        SettingDef::WebSearch => "tools.web_search"@,
        SettingDef::WebFetch => "tools.web_fetch"@,
    }
}

/// The name of a setting.
pub open spec fn label_of(def: SettingDef) -> Seq<char> {
    match def {
        SettingDef::Model => "model"@,
        SettingDef::ReasoningEffort => "reasoning effort"@,
        SettingDef::WebSearch => "web search"@,
        SettingDef::WebFetch => "web fetch"@,
    }
}

/// What a setting does.
pub open spec fn help_of(def: SettingDef) -> Seq<char> {
    match def {
        SettingDef::Model => "Provider model id used for new sessions."@,
        SettingDef::ReasoningEffort =>
            "Hidden thinking spent before answering. `auto` defers to the model; `none` disables it."@,
        SettingDef::WebSearch => "Offer the provider's web search tool."@,
        SettingDef::WebFetch => "Offer the provider's web fetch tool."@,
    }
}

/// How a setting is changed.
pub open spec fn kind_of(def: SettingDef) -> Kind {
    match def {
        SettingDef::Model => Kind::Text,
        SettingDef::ReasoningEffort => Kind::Enum,
        SettingDef::WebSearch => Kind::Bool,
        SettingDef::WebFetch => Kind::Bool,
    }
}

/// The value of a setting.
pub open spec fn read_of(def: SettingDef, settings: Settings<Seq<char>>) -> SettingValue<Seq<char>> {
    match def {
        SettingDef::Model => SettingValue::Text(settings.model),
        SettingDef::ReasoningEffort => SettingValue::Enum(settings.reasoning_effort),
        SettingDef::WebSearch => SettingValue::Bool(settings.tools.web_search),
        SettingDef::WebFetch => SettingValue::Bool(settings.tools.web_fetch),
    }
}

/// The effort that follows another when efforts are stepped through.
pub open spec fn effort_after(effort: ReasoningEffort) -> ReasoningEffort {
    match effort {
        ReasoningEffort::Auto => ReasoningEffort::Off,
        ReasoningEffort::Off => ReasoningEffort::Minimal,
        ReasoningEffort::Minimal => ReasoningEffort::Low,
        ReasoningEffort::Low => ReasoningEffort::Medium,
        ReasoningEffort::Medium => ReasoningEffort::High,
        ReasoningEffort::High => ReasoningEffort::XHigh,
        ReasoningEffort::XHigh => ReasoningEffort::Max,
        ReasoningEffort::Max => ReasoningEffort::Auto,
    }
}

/// The effort that follows another when efforts are stepped through.
pub fn next_effort(effort: ReasoningEffort) -> (out: ReasoningEffort)
    ensures
        out == effort_after(effort),
{
    match effort {
        ReasoningEffort::Auto => ReasoningEffort::Off,
        ReasoningEffort::Off => ReasoningEffort::Minimal,
        ReasoningEffort::Minimal => ReasoningEffort::Low,
        ReasoningEffort::Low => ReasoningEffort::Medium,
        ReasoningEffort::Medium => ReasoningEffort::High,
        ReasoningEffort::High => ReasoningEffort::XHigh,
        ReasoningEffort::XHigh => ReasoningEffort::Max,
        ReasoningEffort::Max => ReasoningEffort::Auto,
    }
}

impl SettingDef {
    /// The setting at a place of the list.
    pub fn nth(index: usize) -> (out: SettingDef)
        requires
            index < SETTING_COUNT,
        ensures
            out == all_settings()[index as int],
    {
        match index {
            0 => SettingDef::Model,
            1 => SettingDef::ReasoningEffort,
            2 => SettingDef::WebSearch,
            _ => SettingDef::WebFetch,
        }
    }

    /// The place of the setting in the settings object.
    pub fn key(self) -> (out: &'static str)
        ensures
            out@ == key_of(self),
    {
        match self {
            SettingDef::Model => "model",
            SettingDef::ReasoningEffort => "reasoning_effort",
            SettingDef::WebSearch => "tools.web_search",
            SettingDef::WebFetch => "tools.web_fetch",
        }
    }

    /// The name of the setting.
    pub fn label(self) -> (out: &'static str)
        ensures
            out@ == label_of(self),
    {
        match self {
            SettingDef::Model => "model",
            SettingDef::ReasoningEffort => "reasoning effort",
            SettingDef::WebSearch => "web search",
            SettingDef::WebFetch => "web fetch",
        }
    }

    /// What the setting does.
    pub fn help(self) -> (out: &'static str)
        ensures
            out@ == help_of(self),
    {
        match self {
            SettingDef::Model => "Provider model id used for new sessions.",
            SettingDef::ReasoningEffort =>
                "Hidden thinking spent before answering. `auto` defers to the model; `none` disables it.",
            SettingDef::WebSearch => "Offer the provider's web search tool.",
            SettingDef::WebFetch => "Offer the provider's web fetch tool.",
        }
    }

    /// How the setting is changed.
    pub fn kind(self) -> (out: Kind)
        ensures
            out == kind_of(self),
    {
        match self {
            SettingDef::Model => Kind::Text,
            SettingDef::ReasoningEffort => Kind::Enum,
            SettingDef::WebSearch => Kind::Bool,
            SettingDef::WebFetch => Kind::Bool,
        }
    }

    /// Whether a project's file may change the setting. None of these runs
    /// code, changes an endpoint or touches credentials.
    pub fn project_safe(self) -> (out: bool)
        ensures
            out,
    {
        true
    }

    /// The value of the setting.
    pub fn read(self, settings: &Settings) -> (out: SettingValue)
        ensures
            out@ == read_of(self, settings@),
    {
        match self {
            SettingDef::Model => SettingValue::Text(settings.model.clone()),
            SettingDef::ReasoningEffort => SettingValue::Enum(settings.reasoning_effort),
            SettingDef::WebSearch => SettingValue::Bool(settings.tools.web_search),
            SettingDef::WebFetch => SettingValue::Bool(settings.tools.web_fetch),
        }
    }
}

/// A value as it is shown.
pub open spec fn shown(value: SettingValue<Seq<char>>) -> Seq<char> {
    match value {
        SettingValue::Bool(true) => "on"@,
        SettingValue::Bool(false) => "off"@,
        SettingValue::Text(text) => text,
        SettingValue::Enum(effort) => effort_word(effort),
    }
}

/// A value as it is shown.
pub fn show(value: SettingValue) -> (out: String)
    ensures
        out@ == shown(value@),
{
    match value {
        SettingValue::Bool(true) => owned("on"),
        SettingValue::Bool(false) => owned("off"),
        SettingValue::Text(text) => text,
        SettingValue::Enum(effort) => owned(effort.as_str()),
    }
}

/// No two settings share a key.
pub proof fn keys_are_unique(a: SettingDef, b: SettingDef)
    ensures
        key_of(a) == key_of(b) ==> a == b,
{
    reveal_strlit("model");
    reveal_strlit("reasoning_effort");
    reveal_strlit("tools.web_search");
    reveal_strlit("tools.web_fetch");
    assert("model"@.len() == 5);
    assert("reasoning_effort"@.len() == 16);
    assert("reasoning_effort"@[0] == 'r');
    assert("tools.web_search"@.len() == 16);
    assert("tools.web_search"@[0] == 't');
    assert("tools.web_fetch"@.len() == 15);
}

/// Stepping through the efforts reaches each of them, and leads back after
/// eight steps.
pub proof fn efforts_cycle(effort: ReasoningEffort)
    ensures
        effort_after(
            effort_after(
                effort_after(
                    effort_after(
                        effort_after(effort_after(effort_after(effort_after(effort)))),
                    ),
                ),
            ),
        ) == effort,
        exists|before: ReasoningEffort| #[trigger] effort_after(before) == effort,
{
    let before = match effort {
        ReasoningEffort::Auto => ReasoningEffort::Max,
        ReasoningEffort::Off => ReasoningEffort::Auto,
        ReasoningEffort::Minimal => ReasoningEffort::Off,
        ReasoningEffort::Low => ReasoningEffort::Minimal,
        ReasoningEffort::Medium => ReasoningEffort::Low,
        ReasoningEffort::High => ReasoningEffort::Medium,
        ReasoningEffort::XHigh => ReasoningEffort::High,
        ReasoningEffort::Max => ReasoningEffort::XHigh,
    };
    assert(effort_after(before) == effort);
}

/// The layer that says only this of a setting, where it can be said of it.
pub open spec fn saying(def: SettingDef, value: SettingValue<Seq<char>>) -> LayerView {
    match (def, value) {
        (SettingDef::Model, SettingValue::Text(text)) => LayerView {
            model: Some(text),
            ..silent()
        },
        (SettingDef::ReasoningEffort, SettingValue::Enum(effort)) => LayerView {
            reasoning_effort: Some(effort),
            ..silent()
        },
        (SettingDef::WebSearch, SettingValue::Bool(on)) => LayerView {
            web_search: Some(on),
            ..silent()
        },
        (SettingDef::WebFetch, SettingValue::Bool(on)) => LayerView {
            web_fetch: Some(on),
            ..silent()
        },
        _ => silent(),
    }
}

/// Whether a value is of the kind of a setting.
pub open spec fn fits(def: SettingDef, value: SettingValue<Seq<char>>) -> bool {
    match kind_of(def) {
        Kind::Bool => value is Bool,
        Kind::Enum => value is Enum,
        Kind::Text => value is Text,
    }
}

/// What is said of a setting under its key is what is read of it, and no other
/// setting is touched. Each setting is read as the kind that it is.
pub proof fn settings_are_read_where_they_are_said(
    lower: Settings<Seq<char>>,
    def: SettingDef,
    value: SettingValue<Seq<char>>,
    other: SettingDef,
)
    requires
        fits(def, value),
    ensures
        read_of(def, overlaid(lower, saying(def, value))) == value,
        other != def ==> read_of(other, overlaid(lower, saying(def, value))) == read_of(
            other,
            lower,
        ),
        has_opinion(saying(def, value), key_of(def)),
        other != def ==> !has_opinion(saying(def, value), key_of(other)),
        fits(def, read_of(def, lower)),
{
    keys_are_unique(def, other);
    opinions_are_about_their_keys(saying(def, value), key_of(def));
    opinions_are_about_their_keys(saying(def, value), key_of(other));
}

/// Values of a setting that differ are shown differently.
pub proof fn values_are_shown_apart(
    def: SettingDef,
    a: SettingValue<Seq<char>>,
    b: SettingValue<Seq<char>>,
)
    requires
        fits(def, a),
        fits(def, b),
        shown(a) == shown(b),
    ensures
        a == b,
{
    reveal_strlit("on");
    reveal_strlit("off");
    assert("on"@.len() == 2);
    assert("off"@.len() == 3);
    if let (SettingValue::Enum(x), SettingValue::Enum(y)) = (a, b) {
        effort_words_are_distinct(x, y);
    }
}

/// A switch is shown as on or off, a text as itself, an effort by its word.
pub proof fn values_are_shown_as_they_are(text: Seq<char>, effort: ReasoningEffort)
    ensures
        shown(SettingValue::Bool(true)) == "on"@,
        shown(SettingValue::Bool(false)) == "off"@,
        shown(SettingValue::Text(text)) == text,
        shown(SettingValue::Enum(effort)) == effort_word(effort),
{
}

/// No two settings have the same name, nor is the same told of them.
pub proof fn names_tell_settings_apart(a: SettingDef, b: SettingDef)
    requires
        a != b,
    ensures
        label_of(a) != label_of(b),
        help_of(a) != help_of(b),
{
    reveal_strlit("model");
    reveal_strlit("reasoning effort");
    reveal_strlit("web search");
    reveal_strlit("web fetch");
    reveal_strlit("Provider model id used for new sessions.");
    reveal_strlit(
        "Hidden thinking spent before answering. `auto` defers to the model; `none` disables it.",
    );
    reveal_strlit("Offer the provider's web search tool.");
    reveal_strlit("Offer the provider's web fetch tool.");
    assert(label_of(a).len() != label_of(b).len());
    assert(help_of(a).len() != help_of(b).len());
}

} // verus!
