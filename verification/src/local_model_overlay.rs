//! The form for a local model.
use crate::keys::{types, ActionStatus, InputEvent, KeyCode, KeyEvent, KeyKind};
use crate::layout::{on_screen, Area};
use crate::root::AlanAction;
use crate::selection::{step_back, step_forward, wrapped};
use crate::text::{blank, chars_of, joined, lemma_blank_trims_to_nothing, owned, trim, trimmed};
use vstd::prelude::*;

verus! {

/// How many fields the form has.
pub const FIELD_COUNT: usize = 4;

/// How wide the column for the labels is: as wide as the longest.
pub const LABEL_WIDTH: usize = 8;

/// How a local model is talked to.
#[derive(Debug, Clone, Copy, PartialEq, Eq, Structural)]
pub enum LocalApi {
    ChatCompletions,
}

/// A model that runs locally.
#[derive(Debug, Clone, PartialEq, Eq)]
pub struct LocalModelEntry {
    pub model_id: String,
    pub url: String,
    pub api: LocalApi,
    pub api_key: Option<String>,
}

/// The view of a [`LocalModelEntry`].
pub struct EntryView {
    pub model_id: Seq<char>,
    pub url: Seq<char>,
    pub api: LocalApi,
    pub api_key: Option<Seq<char>>,
}

impl View for LocalModelEntry {
    type V = EntryView;

    open spec fn view(&self) -> EntryView {
        EntryView {
            model_id: self.model_id@,
            url: self.url@,
            api: self.api,
            api_key: crate::text::opt_text(self.api_key),
        }
    }
}

/// What is typed into the form. The third field is fixed.
#[derive(Debug, Clone)]
pub struct FormFields<S = String> {
    pub model_id: S,
    pub url: S,
    pub api_key: S,
}

impl View for FormFields {
    type V = FormFields<Seq<char>>;

    open spec fn view(&self) -> FormFields<Seq<char>> {
        FormFields { model_id: self.model_id@, url: self.url@, api_key: self.api_key@ }
    }
}

/// The text of a field; nothing for the one that is fixed.
pub open spec fn field_text(fields: FormFields<Seq<char>>, index: int) -> Seq<char> {
    if index == 0 {
        fields.model_id
    } else if index == 1 {
        fields.url
    } else if index == 3 {
        fields.api_key
    } else {
        Seq::empty()
    }
}

/// The form with another text in a field. The fixed field stays.
pub open spec fn with_field(
    fields: FormFields<Seq<char>>,
    index: int,
    text: Seq<char>,
) -> FormFields<Seq<char>> {
    if index == 0 {
        FormFields { model_id: text, ..fields }
    } else if index == 1 {
        FormFields { url: text, ..fields }
    } else if index == 3 {
        FormFields { api_key: text, ..fields }
    } else {
        fields
    }
}

/// Whether a field can be typed into.
pub open spec fn is_text_field(index: int) -> bool {
    index == 0 || index == 1 || index == 3
}

/// The model that a form describes. It needs an identifier and an address.
pub open spec fn entry_of(fields: FormFields<Seq<char>>) -> Option<EntryView> {
    let key = trimmed(fields.api_key);
    if trimmed(fields.model_id).len() == 0 || trimmed(fields.url).len() == 0 {
        None
    } else {
        Some(
            EntryView {
                model_id: trimmed(fields.model_id),
                url: trimmed(fields.url),
                api: LocalApi::ChatCompletions,
                api_key: if key.len() == 0 {
                    None
                } else {
                    Some(key)
                },
            },
        )
    }
}

/// A text without its last character.
pub open spec fn popped(text: Seq<char>) -> Seq<char> {
    if text.len() == 0 {
        text
    } else {
        text.drop_last()
    }
}

/// `text` without its last character.
pub fn without_last(text: &str) -> (out: String)
    ensures
        out@ == popped(text@),
{
    let chars = crate::text::chars_of(text);
    if chars.len() == 0 {
        return String::new();
    }
    let out = crate::text::string_of(&chars, 0, chars.len() - 1);
    assert(out@ =~= text@.drop_last());
    out
}

impl FormFields {
    /// The text of a field.
    pub fn field(&self, index: usize) -> (out: &str)
        ensures
            out@ == field_text(self@, index as int),
    {
        match index {
            0 => self.model_id.as_str(),
            1 => self.url.as_str(),
            3 => self.api_key.as_str(),
            _ => {
                proof {
                    reveal_strlit("");
                    assert(""@ =~= Seq::<char>::empty());
                }
                ""
            },
        }
    }

    fn set_field(&mut self, index: usize, text: String)
        ensures
            final(self)@ == with_field(old(self)@, index as int, text@),
    {
        match index {
            0 => {
                self.model_id = text;
            },
            1 => {
                self.url = text;
            },
            3 => {
                self.api_key = text;
            },
            _ => {},
        }
    }

    /// The label of a field.
    pub fn label(index: usize) -> (out: &'static str)
        requires
            index < FIELD_COUNT,
        ensures
            out@ == label_of(index as int),
    {
        match index {
            0 => "Model ID",
            1 => "URL",
            2 => "API",
            _ => "API Key",
        }
    }

    /// The model that the form describes.
    pub fn to_entry(&self) -> (out: Option<LocalModelEntry>)
        ensures
            match out {
                Some(entry) => entry_of(self@) == Some(entry@),
                None => entry_of(self@) is None,
            },
    {
        let model_id = trim(self.model_id.as_str());
        let url = trim(self.url.as_str());
        if model_id.as_str().is_empty() || url.as_str().is_empty() {
            return None;
        }
        let key = trim(self.api_key.as_str());
        let api_key = if key.as_str().is_empty() {
            None
        } else {
            Some(key)
        };
        Some(LocalModelEntry { model_id, url, api: LocalApi::ChatCompletions, api_key })
    }
}

/// The label of a field.
pub open spec fn label_of(index: int) -> Seq<char> {
    if index == 0 {
        "Model ID"@
    } else if index == 1 {
        "URL"@
    } else if index == 2 {
        "API"@
    } else {
        "API Key"@
    }
}

/// How far the form has come.
#[derive(Debug, Clone, PartialEq, Eq)]
pub enum OverlayState<S = String> {
    Editing,
    Saving,
    Success,
    Error(S),
}

impl View for OverlayState {
    type V = OverlayState<Seq<char>>;

    open spec fn view(&self) -> OverlayState<Seq<char>> {
        match self {
            OverlayState::Editing => OverlayState::Editing,
            OverlayState::Saving => OverlayState::Saving,
            OverlayState::Success => OverlayState::Success,
            OverlayState::Error(message) => OverlayState::Error(message@),
        }
    }
}

/// The form.
pub struct LocalModelOverlay {
    pub fields: FormFields,
    /// The field that is typed into.
    pub focused: usize,
    pub state: OverlayState,
    /// Whether a known model is changed, rather than a new one added.
    pub edit_mode: bool,
}

/// The view of a [`LocalModelOverlay`].
pub struct OverlayView {
    pub fields: FormFields<Seq<char>>,
    pub focused: int,
    pub state: OverlayState<Seq<char>>,
    pub edit_mode: bool,
}

impl View for LocalModelOverlay {
    type V = OverlayView;

    open spec fn view(&self) -> OverlayView {
        OverlayView {
            fields: self.fields@,
            focused: self.focused as int,
            state: self.state@,
            edit_mode: self.edit_mode,
        }
    }
}

/// What the program is to do after an input.
pub enum Effect<E = LocalModelEntry> {
    Nothing,
    /// Draw anew.
    Redraw,
    /// Close the form.
    Close,
    /// Save the model, as a change of a known one or as a new one.
    Save { entry: E, edit: bool },
}

impl View for Effect {
    type V = Effect<EntryView>;

    open spec fn view(&self) -> Effect<EntryView> {
        match self {
            Effect::Nothing => Effect::Nothing,
            Effect::Redraw => Effect::Redraw,
            Effect::Close => Effect::Close,
            Effect::Save { entry, edit } => Effect::Save { entry: entry@, edit: *edit },
        }
    }
}

/// The form after Enter: an incomplete one is an error, a complete one is saved.
pub open spec fn submitted(form: OverlayView) -> (OverlayView, Effect<EntryView>) {
    match entry_of(form.fields) {
        None => (
            OverlayView {
                state: OverlayState::Error("Model ID and URL are required"@),
                ..form
            },
            Effect::Redraw,
        ),
        Some(entry) => (
            OverlayView { state: OverlayState::Saving, ..form },
            Effect::Save { entry, edit: form.edit_mode },
        ),
    }
}

/// The form with another text in the focused field, where it can be typed into.
pub open spec fn retyped(form: OverlayView, text: Seq<char>) -> (OverlayView, Effect<EntryView>) {
    if is_text_field(form.focused) {
        (
            OverlayView { fields: with_field(form.fields, form.focused, text), ..form },
            Effect::Redraw,
        )
    } else {
        (form, Effect::Nothing)
    }
}

/// The form after a key was pressed.
pub open spec fn pressed(form: OverlayView, key: KeyEvent) -> (OverlayView, Effect<EntryView>) {
    match form.state {
        OverlayState::Editing => match key.code {
            KeyCode::Esc => (form, Effect::Close),
            KeyCode::Tab | KeyCode::Down => (
                OverlayView {
                    focused: wrapped(form.focused, 1, FIELD_COUNT as int),
                    ..form
                },
                Effect::Redraw,
            ),
            KeyCode::BackTab | KeyCode::Up => (
                OverlayView {
                    focused: wrapped(form.focused, -1, FIELD_COUNT as int),
                    ..form
                },
                Effect::Redraw,
            ),
            KeyCode::Enter => submitted(form),
            KeyCode::Backspace => retyped(
                form,
                popped(field_text(form.fields, form.focused)),
            ),
            KeyCode::Char(c) => if types(key.modifiers) {
                retyped(form, field_text(form.fields, form.focused).push(c))
            } else if c == 'c' && key.modifiers.control {
                (form, Effect::Close)
            } else {
                (form, Effect::Nothing)
            },
            _ => (form, Effect::Nothing),
        },
        OverlayState::Saving => (form, Effect::Nothing),
        OverlayState::Success | OverlayState::Error(_) => if key.code == KeyCode::Enter
            || key.code == KeyCode::Esc {
            (form, Effect::Close)
        } else {
            (form, Effect::Nothing)
        },
    }
}

/// The form after an input. What is pasted goes into the focused field while
/// the form is edited; keys other than pressed ones are ignored.
pub open spec fn handled(form: OverlayView, action: AlanAction) -> (
    OverlayView,
    Effect<EntryView>,
    ActionStatus,
) {
    match action {
        AlanAction::Paste(text) => {
            let (next, effect) = if form.state is Editing {
                retyped(form, field_text(form.fields, form.focused) + text@)
            } else {
                (form, Effect::Nothing)
            };
            (next, effect, ActionStatus::Handled)
        },
        AlanAction::Raw(InputEvent::Key(key)) => {
            let (next, effect) = if key.kind == KeyKind::Press {
                pressed(form, key)
            } else {
                (form, Effect::Nothing)
            };
            (next, effect, ActionStatus::Handled)
        },
        AlanAction::Raw(_) => (form, Effect::Nothing, ActionStatus::Handled),
        _ => (form, Effect::Nothing, ActionStatus::Continue),
    }
}

impl LocalModelOverlay {
    /// A field is always in focus.
    pub open spec fn well_formed(&self) -> bool {
        self.focused < FIELD_COUNT
    }

    /// A form for a known model, or an empty one for a new model.
    pub fn new(edit_entry: Option<LocalModelEntry>) -> (out: LocalModelOverlay)
        ensures
            out.well_formed(),
            out@ == (OverlayView {
                fields: match edit_entry {
                    Some(entry) => FormFields {
                        model_id: entry.model_id@,
                        url: entry.url@,
                        api_key: match entry.api_key {
                            Some(key) => key@,
                            None => Seq::empty(),
                        },
                    },
                    None => FormFields {
                        model_id: Seq::empty(),
                        url: Seq::empty(),
                        api_key: Seq::empty(),
                    },
                },
                focused: 0,
                state: OverlayState::Editing,
                edit_mode: edit_entry is Some,
            }),
    {
        let edit_mode = edit_entry.is_some();
        let fields = match edit_entry {
            Some(entry) => {
                let api_key = match entry.api_key {
                    Some(key) => key,
                    None => String::new(),
                };
                FormFields { model_id: entry.model_id, url: entry.url, api_key }
            },
            None => FormFields {
                model_id: String::new(),
                url: String::new(),
                api_key: String::new(),
            },
        };
        LocalModelOverlay { fields, focused: 0, state: OverlayState::Editing, edit_mode }
    }

    fn submit(&mut self) -> (out: Effect)
        requires
            old(self).well_formed(),
        ensures
            final(self).well_formed(),
            (final(self)@, out@) == submitted(old(self)@),
    {
        match self.fields.to_entry() {
            None => {
                self.state = OverlayState::Error(owned("Model ID and URL are required"));
                Effect::Redraw
            },
            Some(entry) => {
                self.state = OverlayState::Saving;
                Effect::Save { entry, edit: self.edit_mode }
            },
        }
    }

    fn retype(&mut self, text: String) -> (out: Effect)
        requires
            old(self).well_formed(),
        ensures
            final(self).well_formed(),
            (final(self)@, out@) == retyped(old(self)@, text@),
    {
        if self.focused == 0 || self.focused == 1 || self.focused == 3 {
            let focused = self.focused;
            self.fields.set_field(focused, text);
            Effect::Redraw
        } else {
            Effect::Nothing
        }
    }

    fn press(&mut self, key: &KeyEvent) -> (out: Effect)
        requires
            old(self).well_formed(),
        ensures
            final(self).well_formed(),
            (final(self)@, out@) == pressed(old(self)@, *key),
    {
        match &self.state {
            OverlayState::Editing => match key.code {
                KeyCode::Esc => Effect::Close,
                KeyCode::Tab | KeyCode::Down => {
                    self.focused = step_forward(self.focused, FIELD_COUNT);
                    Effect::Redraw
                },
                KeyCode::BackTab | KeyCode::Up => {
                    self.focused = step_back(self.focused, FIELD_COUNT);
                    Effect::Redraw
                },
                KeyCode::Enter => self.submit(),
                KeyCode::Backspace => {
                    let text = without_last(self.fields.field(self.focused));
                    self.retype(text)
                },
                KeyCode::Char(c) => {
                    if key.modifiers.is_empty() || key.modifiers.is_shift() {
                        let mut text = owned(self.fields.field(self.focused));
                        text.push(c);
                        self.retype(text)
                    } else if c == 'c' && key.modifiers.control {
                        Effect::Close
                    } else {
                        Effect::Nothing
                    }
                },
                _ => Effect::Nothing,
            },
            OverlayState::Saving => Effect::Nothing,
            OverlayState::Success | OverlayState::Error(_) => {
                if key.code == KeyCode::Enter || key.code == KeyCode::Esc {
                    Effect::Close
                } else {
                    Effect::Nothing
                }
            },
        }
    }

    /// Take in an input.
    pub fn handle_action(&mut self, action: &AlanAction) -> (out: (Effect, ActionStatus))
        requires
            old(self).well_formed(),
        ensures
            final(self).well_formed(),
            (final(self)@, out.0@, out.1) == handled(old(self)@, *action),
    {
        match action {
            AlanAction::Paste(text) => {
                let editing = match &self.state {
                    OverlayState::Editing => true,
                    _ => false,
                };
                let effect = if editing {
                    let typed = joined(self.fields.field(self.focused), text.as_str());
                    self.retype(typed)
                } else {
                    Effect::Nothing
                };
                (effect, ActionStatus::Handled)
            },
            AlanAction::Raw(event) => match event {
                InputEvent::Key(key) => {
                    let effect = if key.kind == KeyKind::Press {
                        self.press(key)
                    } else {
                        Effect::Nothing
                    };
                    (effect, ActionStatus::Handled)
                },
                _ => (Effect::Nothing, ActionStatus::Handled),
            },
            _ => (Effect::Nothing, ActionStatus::Continue),
        }
    }

    /// Take in what came of saving.
    pub fn saved(&mut self, result: Result<(), String>)
        requires
            old(self).well_formed(),
        ensures
            final(self).well_formed(),
            final(self)@ == (OverlayView {
                state: match result {
                    Ok(_) => OverlayState::Success,
                    Err(message) => OverlayState::Error(message@),
                },
                ..old(self)@
            }),
    {
        self.state =
        match result {
            Ok(_) => OverlayState::Success,
            Err(message) => OverlayState::Error(message),
        };
    }
}

/// What stands above and below the form.
pub struct Frame {
    pub heading: String,
    pub footer: &'static str,
}

/// What stands above the form.
pub open spec fn heading_of(state: OverlayState<Seq<char>>, edit_mode: bool) -> Seq<char> {
    match state {
        OverlayState::Editing => (if edit_mode {
            "Edit"@
        } else {
            "Add"@
        }) + " Local Model"@,
        OverlayState::Saving => "Saving…"@,
        OverlayState::Success => "Saved"@,
        OverlayState::Error(_) => "Error"@,
    }
}

/// What stands below the form.
pub open spec fn footer_of(state: OverlayState<Seq<char>>, width: u16) -> Seq<char> {
    match state {
        OverlayState::Editing => if width >= 60 {
            " Tab move   Enter save   Esc cancel "@
        } else {
            " Tab · Enter · Esc "@
        },
        OverlayState::Saving => ""@,
        _ => " Enter / Esc close "@,
    }
}

/// One row of the form.
pub struct FieldRow {
    /// Where the row is drawn.
    pub y: u16,
    pub label: &'static str,
    /// What stands before the value: a mark on the focused row, the label, and
    /// a colon.
    pub lead: String,
    pub value: String,
    pub focused: bool,
    /// Whether the value only says that something is to be typed.
    pub placeholder: bool,
}

/// A number of blanks.
pub open spec fn blanks(n: int) -> Seq<char> {
    Seq::new(n as nat, |i: int| ' ')
}

/// What stands before the value of a field. The labels end in one column.
pub open spec fn lead_of(index: int, focused: bool) -> Seq<char> {
    (if focused {
        " › "@
    } else {
        "   "@
    }) + blanks(LABEL_WIDTH - label_of(index).len()) + label_of(index) + "  : "@
}

/// No label is longer than the column for the labels.
proof fn lemma_labels_fit(index: int)
    ensures
        label_of(index).len() <= LABEL_WIDTH,
{
    reveal_strlit("Model ID");
    reveal_strlit("URL");
    reveal_strlit("API");
    reveal_strlit("API Key");
}

/// What stands before the value of a field.
fn lead(index: usize, focused: bool) -> (out: String)
    requires
        index < FIELD_COUNT,
    ensures
        out@ == lead_of(index as int, focused),
{
    let label = FormFields::label(index);
    let mut out = owned(
        if focused {
            " › "
        } else {
            "   "
        },
    );
    let ghost mark = out@;
    let used = chars_of(label).len();
    proof {
        lemma_labels_fit(index as int);
        assert(mark + blanks(0) =~= mark);
    }
    let mut i: usize = 0;
    while i < LABEL_WIDTH - used
        invariant
            used <= LABEL_WIDTH,
            i <= LABEL_WIDTH - used,
            out@ == mark + blanks(i as int),
        decreases LABEL_WIDTH - used - i,
    {
        out.push(' ');
        i += 1;
        assert(out@ =~= mark + blanks(i as int));
    }
    out.push_str(label);
    out.push_str("  : ");
    out
}

/// What is shown for a field: the fixed one by its fixed value, an empty one by
/// a hint.
pub open spec fn value_of(fields: FormFields<Seq<char>>, index: int) -> Seq<char> {
    if index == 2 {
        "Chat Completions"@
    } else if field_text(fields, index).len() == 0 {
        "required"@
    } else {
        field_text(fields, index)
    }
}

/// How many rows of the form fit into `height` rows, two for each field.
pub open spec fn rows_shown(height: int) -> int {
    if height / 2 < FIELD_COUNT {
        height / 2
    } else {
        FIELD_COUNT as int
    }
}

/// Whether a row shows a field.
pub open spec fn shows(row: FieldRow, form: OverlayView, index: int, top: int) -> bool {
    &&& row.y == top + 2 * index
    &&& row.label@ == label_of(index)
    &&& row.lead@ == lead_of(index, index == form.focused)
    &&& row.value@ == value_of(form.fields, index)
    &&& row.focused == (index == form.focused)
    &&& row.placeholder == (index != 2 && field_text(form.fields, index).len() == 0)
}

impl LocalModelOverlay {
    /// What stands above and below the form.
    pub fn frame(&self, width: u16) -> (out: Frame)
        ensures
            out.heading@ == heading_of(self@.state, self.edit_mode),
            out.footer@ == footer_of(self@.state, width),
    {
        match &self.state {
            OverlayState::Editing => Frame {
                heading: joined(
                    if self.edit_mode {
                        "Edit"
                    } else {
                        "Add"
                    },
                    " Local Model",
                ),
                footer: if width >= 60 {
                    " Tab move   Enter save   Esc cancel "
                } else {
                    " Tab · Enter · Esc "
                },
            },
            OverlayState::Saving => Frame { heading: owned("Saving…"), footer: "" },
            OverlayState::Success => Frame {
                heading: owned("Saved"),
                footer: " Enter / Esc close ",
            },
            OverlayState::Error(_) => Frame {
                heading: owned("Error"),
                footer: " Enter / Esc close ",
            },
        }
    }

    /// What is said of a form that is not being edited.
    pub fn message(&self) -> (out: String)
        ensures
            out@ == match self@.state {
                OverlayState::Editing => ""@,
                OverlayState::Saving => "Saving…"@,
                OverlayState::Success => if self.edit_mode {
                    "Model updated."@
                } else {
                    "Model added."@
                },
                OverlayState::Error(message) => message,
            },
    {
        match &self.state {
            OverlayState::Editing => owned(""),
            OverlayState::Saving => owned("Saving…"),
            OverlayState::Success => owned(
                if self.edit_mode {
                    "Model updated."
                } else {
                    "Model added."
                },
            ),
            OverlayState::Error(message) => message.clone(),
        }
    }

    /// The rows of the form in an area, as many as fit.
    pub fn rows(&self, area: Area) -> (out: Vec<FieldRow>)
        requires
            on_screen(area),
        ensures
            out@.len() == rows_shown(area.height as int),
            forall|i: int|
                0 <= i < out@.len() ==> shows(#[trigger] out@[i], self@, i, area.y as int),
    {
        let mut out: Vec<FieldRow> = Vec::new();
        let mut i: usize = 0;
        while i < FIELD_COUNT && (i as u16) * 2 + 2 <= area.height
            invariant
                i <= FIELD_COUNT,
                2 * i <= area.height,
                on_screen(area),
                out@.len() == i,
                forall|k: int|
                    0 <= k < i ==> shows(#[trigger] out@[k], self@, k, area.y as int),
            decreases FIELD_COUNT - i,
        {
            let text = self.fields.field(i);
            let placeholder = i != 2 && text.is_empty();
            let value = if i == 2 {
                owned("Chat Completions")
            } else if text.is_empty() {
                owned("required")
            } else {
                owned(text)
            };
            let row = FieldRow {
                y: area.y + (i as u16) * 2,
                label: FormFields::label(i),
                lead: lead(i, i == self.focused),
                value,
                focused: i == self.focused,
                placeholder,
            };
            out.push(row);
            i += 1;
        }
        out
    }
}

/// The labels are lined up: the colon behind each is in the same column, and no
/// earlier one is there.
pub proof fn labels_end_in_one_column(row: FieldRow, form: OverlayView, index: int, top: int)
    requires
        shows(row, form, index, top),
    ensures
        row.lead@.len() == LABEL_WIDTH + 7,
        row.lead@[LABEL_WIDTH + 5] == ':',
        forall|i: int| 0 <= i < LABEL_WIDTH + 5 ==> #[trigger] row.lead@[i] != ':',
{
    reveal_strlit(" › ");
    reveal_strlit("   ");
    reveal_strlit("  : ");
    reveal_strlit("Model ID");
    reveal_strlit("URL");
    reveal_strlit("API");
    reveal_strlit("API Key");
    let label = label_of(index);
    let before = 3 + LABEL_WIDTH - label.len();
    assert forall|i: int| 0 <= i < LABEL_WIDTH + 5 implies #[trigger] row.lead@[i] != ':' by {
        if before <= i < before + label.len() {
            assert(row.lead@[i] == label[i - before]);
        }
    }
}

/// A form that is being saved takes no input, so that nothing is saved twice.
pub proof fn a_form_is_saved_once(form: OverlayView, action: AlanAction)
    requires
        form.state is Saving,
    ensures
        handled(form, action).0 == form,
        !(handled(form, action).1 is Save),
{
}

/// What is saved has an identifier and an address, without white space around
/// them.
pub proof fn saved_models_are_complete(form: OverlayView, action: AlanAction)
    ensures
        match handled(form, action).1 {
            Effect::Save { entry, edit } => {
                &&& entry.model_id.len() > 0
                &&& entry.url.len() > 0
                &&& trimmed(entry.model_id) == entry.model_id
                &&& trimmed(entry.url) == entry.url
                &&& edit == form.edit_mode
            },
            _ => true,
        },
{
    crate::text::lemma_trim_twice(form.fields.model_id);
    crate::text::lemma_trim_twice(form.fields.url);
}

/// A text that is put into a field stands there, and the other fields stay.
pub proof fn fields_hold_what_is_put_in(
    fields: FormFields<Seq<char>>,
    index: int,
    text: Seq<char>,
    other: int,
)
    requires
        index == 0 || index == 1 || index == 3,
        other != index,
    ensures
        field_text(with_field(fields, index, text), index) == text,
        field_text(with_field(fields, index, text), other) == field_text(fields, other),
        with_field(fields, index, field_text(fields, index)) == fields,
{
}

/// What is pasted or typed goes behind the text of the focused field, whole, and into no
/// other field; what was typed last is taken back by Backspace.
pub proof fn fields_are_typed_into(form: OverlayView, text: String, key: KeyEvent, back: KeyEvent)
    requires
        form.state is Editing,
        form.focused == 0 || form.focused == 1 || form.focused == 3,
        key.kind == KeyKind::Press,
        key.code is Char,
        types(key.modifiers),
        back.kind == KeyKind::Press,
        back.code == KeyCode::Backspace,
    ensures
        ({
            let before = field_text(form.fields, form.focused);
            let pasted = handled(form, AlanAction::Paste(text)).0;
            let typed = handled(form, AlanAction::Raw(InputEvent::Key(key))).0;
            let undone = handled(typed, AlanAction::Raw(InputEvent::Key(back))).0;
            &&& field_text(pasted.fields, form.focused) == before + text@
            &&& field_text(typed.fields, form.focused) == before.push(key.code->Char_0)
            &&& undone == form
            &&& forall|other: int|
                #![trigger field_text(form.fields, other)]
                other != form.focused ==> field_text(pasted.fields, other) == field_text(
                    form.fields,
                    other,
                ) && field_text(typed.fields, other) == field_text(form.fields, other)
        }),
{
    let c = key.code->Char_0;
    let before = field_text(form.fields, form.focused);
    assert(before.push(c).drop_last() =~= before);
}

/// What is saved is what stands in the fields, without the white space around it. A
/// blank key is none.
pub proof fn saved_models_are_what_was_typed(form: OverlayView, key: KeyEvent)
    requires
        form.state is Editing,
        key.kind == KeyKind::Press,
        key.code == KeyCode::Enter,
    ensures
        ({
            let (next, effect, _) = handled(form, AlanAction::Raw(InputEvent::Key(key)));
            let incomplete = blank(form.fields.model_id) || blank(form.fields.url);
            &&& next.fields == form.fields
            &&& incomplete ==> next.state is Error && effect is Redraw
            &&& !incomplete ==> {
                &&& next.state is Saving
                &&& effect is Save
                &&& effect->entry.model_id == trimmed(form.fields.model_id)
                &&& effect->entry.url == trimmed(form.fields.url)
                &&& effect->entry.api_key is None <==> blank(form.fields.api_key)
                &&& effect->entry.api_key is Some ==> effect->entry.api_key->0 == trimmed(
                    form.fields.api_key,
                )
                &&& effect->edit == form.edit_mode
            }
        }),
{
    lemma_blank_trims_to_nothing(form.fields.model_id);
    lemma_blank_trims_to_nothing(form.fields.url);
    lemma_blank_trims_to_nothing(form.fields.api_key);
}

/// Each row shows the text of its own field, whole, and says so where something is to be
/// typed; no two rows share a line or a label.
pub proof fn rows_show_their_fields(
    row: FieldRow,
    form: OverlayView,
    index: int,
    other_row: FieldRow,
    other: int,
    top: int,
)
    requires
        0 <= index < 4,
        0 <= other < 4,
        index != other,
        shows(row, form, index, top),
        shows(other_row, form, other, top),
    ensures
        index == 0 && form.fields.model_id.len() > 0 ==> row.value@ == form.fields.model_id,
        index == 1 && form.fields.url.len() > 0 ==> row.value@ == form.fields.url,
        index == 3 && form.fields.api_key.len() > 0 ==> row.value@ == form.fields.api_key,
        row.placeholder <==> index != 2 && field_text(form.fields, index).len() == 0,
        row.y != other_row.y,
        row.label@ != other_row.label@,
        !(row.focused && other_row.focused),
{
    reveal_strlit("Model ID");
    reveal_strlit("URL");
    reveal_strlit("API");
    reveal_strlit("API Key");
    assert("Model ID"@.len() == 8);
    assert("URL"@[0] == 'U');
    assert("API"@[0] == 'A');
    assert("API Key"@.len() == 7);
}

/// Every row that is shown has room, and all are shown where there is room.
pub proof fn rows_have_room(height: int, index: int)
    requires
        height >= 0,
        0 <= index < 4,
    ensures
        index < rows_shown(height) ==> 2 * index + 2 <= height,
        2 * index + 2 <= height ==> index < rows_shown(height),
        rows_shown(height) <= 4,
{
}

} // verus!
