//! The `/settings` list.
use crate::json::{bool_in, bool_value, text_in, text_value};
use crate::llm::effort_word;
use crate::selection::wrapped;
use crate::settings::layers::{
    has_opinion, origin_of, rank_of, resolved_as_of, scopes_do_not_look_up, Layer, Layers,
    LayersView,
};
use crate::settings::schema::{
    all_settings, effort_after, help_of, key_of, kind_of, label_of, next_effort, read_of, show,
    shown, Kind, SettingDef, SettingValue, SETTING_COUNT,
};
use crate::settings::Settings;
use crate::text::{owned, trim, trimmed};
use vstd::prelude::*;

verus! {

/// Whether editing a row does anything.
#[derive(Debug, Clone, Copy, PartialEq, Eq, Structural)]
pub enum Marker {
    SetHere,
    /// From a lower layer; editing here takes over.
    Inherited(Layer),
    /// From a higher layer; editing here is stored but has no effect.
    Overridden(Layer),
}

/// One row of the list.
pub struct Row {
    pub label: &'static str,
    pub help: &'static str,
    /// This scope's value, or the one it would inherit.
    pub value: String,
    pub marker: Marker,
    /// Whether the row cycles on a key rather than opening a prompt.
    pub cycles: bool,
}

/// What the list shows.
pub struct SettingsState {
    pub scope: Layer,
    /// Where a write in this scope lands.
    pub path: String,
    /// Whether that file exists.
    pub file_exists: bool,
    pub rows: Vec<Row>,
    pub selected: usize,
    /// Whether a prompt is open for the selected row.
    pub editing: bool,
}

/// The list as it is moved through.
pub struct SettingsOverlay {
    pub scope: Layer,
    pub selected: usize,
    /// Whether a prompt is open for the selected row.
    pub editing: bool,
    /// What a prompt that was just opened starts from.
    pub seed: Option<String>,
}

/// What a row's marker says: whether the value's origin is this scope, a lower
/// one or a higher one.
pub open spec fn marker_of(origin: Layer, scope: Layer) -> Marker {
    if rank_of(origin) == rank_of(scope) {
        Marker::SetHere
    } else if rank_of(origin) < rank_of(scope) {
        Marker::Inherited(origin)
    } else {
        Marker::Overridden(origin)
    }
}

/// Whether a row shows a setting in a scope.
pub open spec fn shows(row: Row, def: SettingDef, layers: LayersView, scope: Layer) -> bool {
    &&& row.label@ == label_of(def)
    &&& row.help@ == help_of(def)
    &&& row.value@ == shown(read_of(def, resolved_as_of(layers, scope)))
    &&& row.marker == marker_of(origin_of(layers, key_of(def)), scope)
    &&& row.cycles == (kind_of(def) != Kind::Text)
}

/// The value that follows in a row that cycles.
pub open spec fn follows(
    def: SettingDef,
    current: Settings<Seq<char>>,
    out: Option<serde_json::Value>,
) -> bool {
    match read_of(def, current) {
        SettingValue::Bool(on) => out is Some && bool_in(out->0) == Some(!on),
        SettingValue::Enum(effort) => out is Some && text_in(out->0) == Some(
            effort_word(effort_after(effort)),
        ),
        SettingValue::Text(_) => out is None,
    }
}

/// The setting at a place of the list, or the last one where the place is past
/// it.
pub open spec fn chosen(selected: usize) -> SettingDef {
    if selected < SETTING_COUNT {
        all_settings()[selected as int]
    } else {
        all_settings().last()
    }
}

impl SettingsOverlay {
    /// A row is always selected.
    pub open spec fn well_formed(&self) -> bool {
        self.selected < SETTING_COUNT
    }

    /// The list, in the project's scope where there is a project.
    pub fn new(has_project_scope: bool) -> (out: SettingsOverlay)
        ensures
            out.well_formed(),
            out.scope == if has_project_scope {
                Layer::Project
            } else {
                Layer::Global
            },
            out.selected == 0,
            !out.editing,
            out.seed is None,
    {
        SettingsOverlay {
            scope: if has_project_scope {
                Layer::Project
            } else {
                Layer::Global
            },
            selected: 0,
            editing: false,
            seed: None,
        }
    }

    /// The selected setting, or the last one where the selection is past it.
    pub fn def(&self) -> (out: SettingDef)
        ensures
            out == chosen(self.selected),
    {
        if self.selected < SETTING_COUNT {
            SettingDef::nth(self.selected)
        } else {
            SettingDef::nth(SETTING_COUNT - 1)
        }
    }

    /// Move the selection around the list.
    pub fn move_by(&mut self, delta: isize)
        ensures
            final(self).well_formed(),
            final(self).selected as int == wrapped(
                old(self).selected as int,
                delta as int,
                SETTING_COUNT as int,
            ),
            final(self).scope == old(self).scope,
            final(self).editing == old(self).editing,
            final(self).seed == old(self).seed,
    {
        let count: i128 = SETTING_COUNT as i128;
        let sum: i128 = self.selected as i128 + delta as i128;
        let rest: i128 = if sum >= 0 {
            sum % count
        } else {
            let back: i128 = (-sum) % count;
            if back == 0 {
                0
            } else {
                count - back
            }
        };
        proof {
            if sum < 0 {
                let n = -sum as int;
                assert(sum as int % 4 == if n % 4 == 0 {
                    0int
                } else {
                    4 - n % 4
                }) by (nonlinear_arith)
                    requires
                        n == -sum as int,
                        n > 0,
                ;
            }
        }
        self.selected = rest as usize;
    }

    /// Change between the project's scope and the global one.
    pub fn toggle_scope(&mut self)
        ensures
            final(self).scope == if old(self).scope == Layer::Project {
                Layer::Global
            } else {
                Layer::Project
            },
            !final(self).editing,
            final(self).selected == old(self).selected,
            final(self).seed == old(self).seed,
    {
        self.scope =
        match self.scope {
            Layer::Project => Layer::Global,
            _ => Layer::Project,
        };
        self.editing = false;
    }

    /// The rows of the list in its scope.
    pub fn rows(&self, layers: &Layers) -> (out: Vec<Row>)
        ensures
            out@.len() == SETTING_COUNT,
            forall|i: int|
                0 <= i < SETTING_COUNT ==> shows(
                    #[trigger] out@[i],
                    all_settings()[i],
                    layers@,
                    self.scope,
                ),
    {
        let in_scope = layers.resolve_as_of(self.scope);
        let mut out: Vec<Row> = Vec::new();
        let mut i: usize = 0;
        while i < SETTING_COUNT
            invariant
                i <= SETTING_COUNT,
                in_scope@ == resolved_as_of(layers@, self.scope),
                out@.len() == i,
                forall|k: int|
                    0 <= k < i ==> shows(
                        #[trigger] out@[k],
                        all_settings()[k],
                        layers@,
                        self.scope,
                    ),
            decreases SETTING_COUNT - i,
        {
            let def = SettingDef::nth(i);
            let origin = layers.origin_layer(def.key());
            let marker = if origin.rank() == self.scope.rank() {
                Marker::SetHere
            } else if origin.rank() < self.scope.rank() {
                Marker::Inherited(origin)
            } else {
                Marker::Overridden(origin)
            };
            let row = Row {
                label: def.label(),
                help: def.help(),
                value: show(def.read(&in_scope)),
                marker,
                cycles: def.kind() != Kind::Text,
            };
            out.push(row);
            i += 1;
        }
        out
    }

    /// The selected setting's value in a scope, as it is shown.
    pub fn shown_value(&self, in_scope: &Settings) -> (out: String)
        ensures
            out@ == shown(read_of(chosen(self.selected), in_scope@)),
    {
        show(self.def().read(in_scope))
    }

    /// The value that follows the current one, where the selected row cycles.
    pub fn next_value(&self, current: &Settings) -> (out: Option<serde_json::Value>)
        ensures
            follows(chosen(self.selected), current@, out),
    {
        match self.def().read(current) {
            SettingValue::Bool(on) => Some(bool_value(!on)),
            SettingValue::Enum(effort) => Some(text_value(owned(next_effort(effort).as_str()))),
            SettingValue::Text(_) => None,
        }
    }

    /// The value of an edit: what was typed, without white space around it. An
    /// empty edit is none, and clears the key.
    pub fn parse_edit(text: &str) -> (out: Option<serde_json::Value>)
        ensures
            out is None <==> trimmed(text@).len() == 0,
            out is Some ==> text_in(out->0) == Some(trimmed(text@)),
    {
        let text = trim(text);
        if text.as_str().is_empty() {
            None
        } else {
            Some(text_value(text))
        }
    }
}

/// Whether an edit of a row takes effect is what its marker says: a value that
/// is written in this scope is the one in force, unless a higher source has an
/// opinion.
pub proof fn markers_tell_what_an_edit_does(
    layers: LayersView,
    scope: Layer,
    model: Seq<char>,
)
    requires
        scope == Layer::Global || scope == Layer::Project,
    ensures
        ({
            let edited = if scope == Layer::Global {
                LayersView {
                    global: crate::settings::layers::LayerView {
                        model: Some(model),
                        ..layers.global
                    },
                    ..layers
                }
            } else {
                LayersView {
                    project: crate::settings::layers::LayerView {
                        model: Some(model),
                        ..layers.project
                    },
                    ..layers
                }
            };
            let marker = marker_of(origin_of(layers, "model"@), scope);
            if marker is Overridden {
                crate::settings::layers::resolved(edited).model
                    == crate::settings::layers::resolved(layers).model
            } else {
                crate::settings::layers::resolved(edited).model == model
            }
        }),
{
}

/// The marker of a row tells where its value comes from: this scope where it has an
/// opinion and no higher source has, a lower one or the default where neither has, and
/// a higher one wherever that has an opinion.
pub proof fn markers_tell_where_a_value_comes_from(layers: LayersView, def: SettingDef)
    ensures
        ({
            let key = key_of(def);
            let global = marker_of(origin_of(layers, key), Layer::Global);
            let project = marker_of(origin_of(layers, key), Layer::Project);
            let env_says = has_opinion(layers.env, key);
            let project_says = has_opinion(layers.project, key);
            let global_says = has_opinion(layers.global, key);
            &&& project is Overridden <==> env_says
            &&& project is SetHere <==> project_says && !env_says
            &&& project == Marker::Inherited(Layer::Global) <==> global_says && !project_says
                && !env_says
            &&& project == Marker::Inherited(Layer::Default) <==> !global_says && !project_says
                && !env_says
            &&& global is Overridden <==> env_says || project_says
            &&& global is SetHere <==> global_says && !project_says && !env_says
            &&& global == Marker::Inherited(Layer::Default) <==> !global_says && !project_says
                && !env_says
        }),
{
}

/// A row shows what applies in its scope, not what is in force.
pub proof fn rows_show_their_scope(
    row: Row,
    def: SettingDef,
    layers: LayersView,
    other: LayersView,
)
    requires
        shows(row, def, layers, Layer::Global),
        layers.global == other.global,
    ensures
        row.value@ == shown(read_of(def, resolved_as_of(other, Layer::Global))),
        row.cycles <==> def != SettingDef::Model,
{
    scopes_do_not_look_up(layers, other);
}

/// A row that cycles steps a switch to the other state and an effort to the next, and
/// a row of text does not cycle.
pub proof fn rows_step_to_the_next_value(
    def: SettingDef,
    current: Settings<Seq<char>>,
    out: Option<serde_json::Value>,
)
    requires
        follows(def, current, out),
    ensures
        out is Some <==> def != SettingDef::Model,
        def == SettingDef::WebSearch ==> bool_in(out->0) == Some(!current.tools.web_search),
        def == SettingDef::WebFetch ==> bool_in(out->0) == Some(!current.tools.web_fetch),
        def == SettingDef::ReasoningEffort ==> text_in(out->0) == Some(
            effort_word(effort_after(current.reasoning_effort)),
        ),
{
}

} // verus!
