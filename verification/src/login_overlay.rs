//! The dialogue for signing in to a provider.
use crate::keys::{only_control, types, ActionStatus, InputEvent, KeyCode, KeyEvent, KeyKind};
use crate::layout::{
    first_shown, inner_area, less, lesser, lies_in, on_screen, popup_area, popup_in, scroll_start,
    within_border, Area,
};
use crate::local_model_overlay::{popped, without_last};
use crate::root::AlanAction;
use crate::selection::{clamped, move_within};
use crate::text::{chars_of, joined, owned, same};
use vstd::prelude::*;
use vstd::string::*;

verus! {

/// How a provider is signed in to.
#[derive(Debug, Clone, Copy, PartialEq, Eq, Structural)]
pub enum AuthMethod {
    ApiKey,
}

/// A provider that is known, with the ways to sign in to it.
#[derive(Debug, Clone)]
pub struct ProviderInfo {
    pub id: String,
    pub auth_methods: Vec<AuthMethod>,
}

/// A provider that can be chosen.
#[derive(Debug, Clone, PartialEq, Eq)]
pub struct LoginProvider {
    pub id: String,
    pub name: String,
}

/// How far the dialogue has come.
#[derive(Debug, Clone, PartialEq, Eq)]
pub enum LoginState<S = String, L = Vec<LoginProvider>> {
    Selecting { providers: L, selected: usize },
    Prompting { provider_id: S, auth_method: AuthMethod, input: S },
    Validating { message: S },
    Success,
    Error(S),
}

/// The view of the dialogue's state.
pub type LoginStateView = LoginState<Seq<char>, Seq<LoginProvider>>;

impl View for LoginState {
    type V = LoginState<Seq<char>, Seq<LoginProvider>>;

    open spec fn view(&self) -> LoginState<Seq<char>, Seq<LoginProvider>> {
        match self {
            LoginState::Selecting { providers, selected } => LoginState::Selecting {
                providers: providers@,
                selected: *selected,
            },
            LoginState::Prompting { provider_id, auth_method, input } => LoginState::Prompting {
                provider_id: provider_id@,
                auth_method: *auth_method,
                input: input@,
            },
            LoginState::Validating { message } => LoginState::Validating { message: message@ },
            LoginState::Success => LoginState::Success,
            LoginState::Error(message) => LoginState::Error(message@),
        }
    }
}

/// The dialogue.
pub struct LoginOverlay {
    pub registry: Vec<ProviderInfo>,
    pub state: LoginState,
}

/// What the program is to do after an input.
pub enum Effect<S = String> {
    Nothing,
    /// Draw anew.
    Redraw,
    /// Close the dialogue.
    Close,
    /// Try the key with the provider, and store it if it is good.
    Validate { provider_id: S, key: S },
}

impl View for Effect {
    type V = Effect<Seq<char>>;

    open spec fn view(&self) -> Effect<Seq<char>> {
        match self {
            Effect::Nothing => Effect::Nothing,
            Effect::Redraw => Effect::Redraw,
            Effect::Close => Effect::Close,
            Effect::Validate { provider_id, key } => Effect::Validate {
                provider_id: provider_id@,
                key: key@,
            },
        }
    }
}

/// Where the first provider of that identifier stands; the number of providers
/// where there is none.
pub open spec fn provider_at(registry: Seq<ProviderInfo>, id: Seq<char>) -> nat
    decreases registry.len(),
{
    if registry.len() == 0 || registry[0].id@ == id {
        0
    } else {
        1 + provider_at(registry.drop_first(), id)
    }
}

/// Whether a provider is known.
pub open spec fn knows(registry: Seq<ProviderInfo>, id: Seq<char>) -> bool {
    provider_at(registry, id) < registry.len()
}

/// The ways to sign in to a known provider.
pub open spec fn methods_of(registry: Seq<ProviderInfo>, id: Seq<char>) -> Seq<AuthMethod> {
    registry[provider_at(registry, id) as int].auth_methods@
}

/// The state after the selection moved.
pub open spec fn reselected(state: LoginStateView, delta: int) -> LoginStateView {
    match state {
        LoginState::Selecting { providers, selected } => if providers.len() == 0 {
            state
        } else {
            LoginState::Selecting {
                providers,
                selected: clamped(selected as int, delta, providers.len() as int) as usize,
            }
        },
        _ => state,
    }
}

/// The state and what is to be done after Enter.
pub open spec fn entered(state: LoginStateView, registry: Seq<ProviderInfo>) -> (
    LoginStateView,
    Effect<Seq<char>>,
) {
    match state {
        LoginState::Selecting { providers, selected } => {
            let id = providers[selected as int].id@;
            let next = if selected >= providers.len() {
                LoginState::Error("No providers available"@)
            } else if !knows(registry, id) {
                LoginState::Error("Provider not found"@)
            } else if methods_of(registry, id).len() == 0 {
                LoginState::Error("No authentication methods available"@)
            } else {
                LoginState::Prompting {
                    provider_id: id,
                    auth_method: methods_of(registry, id)[0],
                    input: Seq::empty(),
                }
            };
            (next, Effect::Redraw)
        },
        LoginState::Prompting { provider_id, auth_method, input } => if knows(
            registry,
            provider_id,
        ) {
            (
                LoginState::Validating { message: "Validating API key"@ },
                Effect::Validate { provider_id, key: input },
            )
        } else {
            (LoginState::Error("Provider not found"@), Effect::Redraw)
        },
        LoginState::Validating { .. } => (state, Effect::Nothing),
        LoginState::Success | LoginState::Error(_) => (state, Effect::Close),
    }
}

/// The state with another input, where one is asked for.
pub open spec fn retyped(
    state: LoginStateView,
    change: spec_fn(Seq<char>) -> Seq<char>,
) -> (LoginStateView, Effect<Seq<char>>) {
    match state {
        LoginState::Prompting { provider_id, auth_method, input } => (
            LoginState::Prompting { provider_id, auth_method, input: change(input) },
            Effect::Redraw,
        ),
        _ => (state, Effect::Nothing),
    }
}

/// The state and what is to be done after a key was pressed.
pub open spec fn pressed(state: LoginStateView, registry: Seq<ProviderInfo>, key: KeyEvent) -> (
    LoginStateView,
    Effect<Seq<char>>,
) {
    match key.code {
        KeyCode::Up | KeyCode::PageUp => (reselected(state, -1), Effect::Redraw),
        KeyCode::Down | KeyCode::PageDown => (reselected(state, 1), Effect::Redraw),
        KeyCode::Enter => entered(state, registry),
        KeyCode::Esc => (state, Effect::Close),
        KeyCode::Backspace => retyped(state, |input: Seq<char>| popped(input)),
        KeyCode::Char(c) => if c == 'p' && only_control(key.modifiers) {
            (reselected(state, -1), Effect::Redraw)
        } else if c == 'n' && only_control(key.modifiers) {
            (reselected(state, 1), Effect::Redraw)
        } else if types(key.modifiers) {
            retyped(state, |input: Seq<char>| input.push(c))
        } else if c == 'c' && key.modifiers.control {
            (state, Effect::Close)
        } else {
            (state, Effect::Nothing)
        },
        _ => (state, Effect::Nothing),
    }
}

/// The state and what is to be done after an input.
pub open spec fn handled(
    state: LoginStateView,
    registry: Seq<ProviderInfo>,
    action: AlanAction,
) -> (LoginStateView, Effect<Seq<char>>, ActionStatus) {
    match action {
        AlanAction::Paste(text) => {
            let (next, effect) = retyped(state, |input: Seq<char>| input + text@);
            (next, effect, ActionStatus::Handled)
        },
        AlanAction::Raw(InputEvent::Key(key)) => {
            let (next, effect) = if key.kind == KeyKind::Press {
                pressed(state, registry, key)
            } else {
                (state, Effect::Nothing)
            };
            (next, effect, ActionStatus::Handled)
        },
        AlanAction::Raw(_) => (state, Effect::Nothing, ActionStatus::Handled),
        _ => (state, Effect::Nothing, ActionStatus::Continue),
    }
}

/// The providers that can be chosen: all that are known, by their identifiers.
pub open spec fn lists_all(providers: Seq<LoginProvider>, registry: Seq<ProviderInfo>) -> bool {
    providers.len() == registry.len() && forall|i: int|
        0 <= i < providers.len() ==> (#[trigger] providers[i]).id@ == registry[i].id@
            && providers[i].name@ == registry[i].id@
}

fn list_providers(registry: &Vec<ProviderInfo>) -> (out: Vec<LoginProvider>)
    ensures
        lists_all(out@, registry@),
{
    let mut out: Vec<LoginProvider> = Vec::new();
    let mut i: usize = 0;
    while i < registry.len()
        invariant
            i <= registry@.len(),
            out@.len() == i,
            forall|k: int|
                0 <= k < i ==> (#[trigger] out@[k]).id@ == registry@[k].id@ && out@[k].name@
                    == registry@[k].id@,
        decreases registry@.len() - i,
    {
        out.push(LoginProvider { id: registry[i].id.clone(), name: registry[i].id.clone() });
        i += 1;
    }
    out
}

impl LoginOverlay {
    /// A dialogue that offers all known providers.
    pub fn new(registry: Vec<ProviderInfo>) -> (out: LoginOverlay)
        ensures
            out.registry == registry,
            out.state is Selecting,
            out.state->Selecting_selected == 0,
            lists_all(out.state->Selecting_providers@, registry@),
    {
        let providers = list_providers(&registry);
        LoginOverlay { registry, state: LoginState::Selecting { providers, selected: 0 } }
    }

    fn find(&self, id: &str) -> (out: Option<usize>)
        ensures
            match out {
                Some(at) => knows(self.registry@, id@) && at == provider_at(self.registry@, id@)
                    && at < self.registry@.len(),
                None => !knows(self.registry@, id@),
            },
    {
        let mut i: usize = 0;
        assert(self.registry@.skip(0) =~= self.registry@);
        while i < self.registry.len()
            invariant
                i <= self.registry@.len(),
                provider_at(self.registry@, id@) == i + provider_at(
                    self.registry@.skip(i as int),
                    id@,
                ),
            decreases self.registry@.len() - i,
        {
            if same(self.registry[i].id.as_str(), id) {
                return Some(i);
            }
            assert(self.registry@.skip(i as int).drop_first() =~= self.registry@.skip(
                i as int + 1,
            ));
            i += 1;
        }
        None
    }

    fn move_selection(&mut self, delta: isize)
        ensures
            final(self).registry == old(self).registry,
            final(self).state@ == reselected(old(self).state@, delta as int),
    {
        if let LoginState::Selecting { providers, selected } = &mut self.state {
            if providers.len() > 0 {
                *selected = move_within(*selected, delta, providers.len());
            }
        }
    }

    fn submit_input(&mut self) -> (out: Effect)
        requires
            old(self).state is Prompting,
        ensures
            final(self).registry == old(self).registry,
            (final(self).state@, out@) == entered(old(self).state@, old(self).registry@),
    {
        let (id, key) = match &self.state {
            LoginState::Prompting { provider_id, input, .. } => (
                provider_id.clone(),
                input.clone(),
            ),
            _ => (String::new(), String::new()),
        };
        match self.find(id.as_str()) {
            None => {
                self.state = LoginState::Error(owned("Provider not found"));
                Effect::Redraw
            },
            Some(_) => {
                self.state = LoginState::Validating { message: owned("Validating API key") };
                Effect::Validate { provider_id: id, key }
            },
        }
    }

    fn on_enter(&mut self) -> (out: Effect)
        ensures
            final(self).registry == old(self).registry,
            (final(self).state@, out@) == entered(old(self).state@, old(self).registry@),
    {
        let chosen = match &self.state {
            LoginState::Selecting { providers, selected } => {
                if *selected < providers.len() {
                    Some(providers[*selected].id.clone())
                } else {
                    None
                }
            },
            LoginState::Prompting { .. } => {
                return self.submit_input();
            },
            LoginState::Validating { .. } => {
                return Effect::Nothing;
            },
            LoginState::Success | LoginState::Error(_) => {
                return Effect::Close;
            },
        };
        let next = match chosen {
            None => LoginState::Error(owned("No providers available")),
            Some(id) => match self.find(id.as_str()) {
                None => LoginState::Error(owned("Provider not found")),
                Some(at) => {
                    if self.registry[at].auth_methods.len() == 0 {
                        LoginState::Error(owned("No authentication methods available"))
                    } else {
                        LoginState::Prompting {
                            provider_id: id,
                            auth_method: self.registry[at].auth_methods[0],
                            input: String::new(),
                        }
                    }
                },
            },
        };
        self.state = next;
        Effect::Redraw
    }

    fn push_char(&mut self, c: char) -> (out: Effect)
        ensures
            final(self).registry == old(self).registry,
            (final(self).state@, out@) == retyped(
                old(self).state@,
                |input: Seq<char>| input.push(c),
            ),
    {
        if let LoginState::Prompting { input, .. } = &mut self.state {
            input.push(c);
            Effect::Redraw
        } else {
            Effect::Nothing
        }
    }

    fn pop_char(&mut self) -> (out: Effect)
        ensures
            final(self).registry == old(self).registry,
            (final(self).state@, out@) == retyped(
                old(self).state@,
                |input: Seq<char>| popped(input),
            ),
    {
        if let LoginState::Prompting { input, .. } = &mut self.state {
            *input = without_last(input.as_str());
            Effect::Redraw
        } else {
            Effect::Nothing
        }
    }

    fn paste(&mut self, text: &str) -> (out: Effect)
        ensures
            final(self).registry == old(self).registry,
            (final(self).state@, out@) == retyped(
                old(self).state@,
                |input: Seq<char>| input + text@,
            ),
    {
        if let LoginState::Prompting { input, .. } = &mut self.state {
            input.push_str(text);
            Effect::Redraw
        } else {
            Effect::Nothing
        }
    }

    fn press(&mut self, key: &KeyEvent) -> (out: Effect)
        ensures
            final(self).registry == old(self).registry,
            (final(self).state@, out@) == pressed(old(self).state@, old(self).registry@, *key),
    {
        match key.code {
            KeyCode::Up | KeyCode::PageUp => {
                self.move_selection(-1);
                Effect::Redraw
            },
            KeyCode::Down | KeyCode::PageDown => {
                self.move_selection(1);
                Effect::Redraw
            },
            KeyCode::Enter => self.on_enter(),
            KeyCode::Esc => Effect::Close,
            KeyCode::Backspace => self.pop_char(),
            KeyCode::Char(c) => {
                if c == 'p' && key.modifiers.is_control() {
                    self.move_selection(-1);
                    Effect::Redraw
                } else if c == 'n' && key.modifiers.is_control() {
                    self.move_selection(1);
                    Effect::Redraw
                } else if key.modifiers.is_empty() || key.modifiers.is_shift() {
                    self.push_char(c)
                } else if c == 'c' && key.modifiers.control {
                    Effect::Close
                } else {
                    Effect::Nothing
                }
            },
            _ => Effect::Nothing,
        }
    }

    /// Take in an input.
    pub fn handle_action(&mut self, action: &AlanAction) -> (out: (Effect, ActionStatus))
        ensures
            final(self).registry == old(self).registry,
            (final(self).state@, out.0@, out.1) == handled(
                old(self).state@,
                old(self).registry@,
                *action,
            ),
    {
        match action {
            AlanAction::Paste(text) => {
                let effect = self.paste(text.as_str());
                (effect, ActionStatus::Handled)
            },
            AlanAction::Raw(event) => match event {
                InputEvent::Key(key) => {
                    let effect = if key.kind == KeyKind::Press {
                        self.press(key)
                    } else {
                        Effect::Nothing
                    };
                    (effect, ActionStatus::Handled)
                },
                _ => (Effect::Nothing, ActionStatus::Handled),
            },
            _ => (Effect::Nothing, ActionStatus::Continue),
        }
    }

    /// Take in what came of trying the key.
    pub fn validated(&mut self, result: Result<(), String>)
        ensures
            final(self).registry == old(self).registry,
            final(self).state@ == match result {
                Ok(_) => LoginState::<Seq<char>, Seq<LoginProvider>>::Success,
                Err(message) => LoginState::Error(message@),
            },
    {
        self.state =
        match result {
            Ok(_) => LoginState::Success,
            Err(message) => LoginState::Error(message),
        };
    }
}

/// What stands at the top of the dialogue.
pub open spec fn heading_of(state: LoginStateView) -> Seq<char> {
    match state {
        LoginState::Selecting { .. } => "Choose a provider"@,
        LoginState::Prompting { provider_id, .. } => provider_id + " / API key"@,
        LoginState::Validating { .. } => "Signing in…"@,
        LoginState::Success => "Signed in"@,
        LoginState::Error(_) => "Sign-in failed"@,
    }
}

/// What stands at the bottom of the dialogue.
pub open spec fn footer_of(state: LoginStateView, width: u16) -> Seq<char> {
    match state {
        LoginState::Selecting { .. } => if width >= 60 {
            " ↑↓ / C-n C-p move   Enter select   Esc close "@
        } else if width >= 38 {
            " ↑↓ move · Enter select · Esc close "@
        } else {
            " Enter / Esc "@
        },
        LoginState::Prompting { .. } => if width >= 38 {
            " Enter sign in · Esc cancel "@
        } else {
            " Enter / Esc "@
        },
        LoginState::Validating { .. } => " Esc close "@,
        LoginState::Success | LoginState::Error(_) => " Enter / Esc close "@,
    }
}

/// One row of the list of providers.
pub struct ListRow {
    pub name: String,
    /// How many blanks follow the name.
    pub padding: u16,
    /// Whether it is the selected one.
    pub active: bool,
}

/// How a message is shown.
#[derive(Debug, Clone, Copy, PartialEq, Eq, Structural)]
pub enum Tone {
    Muted,
    Done,
    Failed,
}

/// What the dialogue shows below its heading.
pub enum Body {
    /// The providers that are in view.
    List(Vec<ListRow>),
    /// There is nothing to choose from.
    Empty,
    /// The key that is being typed, by as many dots as are in view, and the
    /// column of the cursor. Without a key there is a hint.
    Input { dots: u16, hint: bool, cursor: u16 },
    Message { text: String, tone: Tone },
}

/// The dialogue as it is drawn.
pub struct LoginScreen {
    pub popup: Area,
    pub inner: Area,
    pub content: Area,
    pub heading: String,
    pub footer: &'static str,
    pub body: Body,
}

/// The part of the dialogue below its heading and the line under it.
pub open spec fn content_of(inner: Area) -> Area {
    Area { y: (inner.y + 2) as u16, height: less(inner.height as int, 2) as u16, ..inner }
}

/// How many blanks follow a name in a row of `width` columns, of which three
/// stand before it.
pub open spec fn padding_of(width: u16, name: nat) -> int {
    less(width as int, (3 + name) as int % 65536)
}

/// How many dots stand for a key, with two columns of room on either side.
pub open spec fn dots_of(input: nat, width: u16) -> int {
    lesser(input as int, less(width as int, 4))
}

/// Whether a body shows a state.
pub open spec fn shows(body: Body, state: LoginStateView, content: Area, width: u16) -> bool {
    match state {
        LoginState::Selecting { providers, selected } => {
            let rows = content.height as int;
            let start = first_shown(selected as int, providers.len() as int, rows);
            if providers.len() == 0 {
                body is Empty
            } else {
                &&& body is List
                &&& body->List_0@.len() == lesser(rows, less(providers.len() as int, start))
                &&& forall|i: int|
                    0 <= i < body->List_0@.len() ==> {
                        let row = #[trigger] body->List_0@[i];
                        &&& row.name@ == providers[start + i].name@
                        &&& row.active == (start + i == selected)
                        &&& row.padding == padding_of(width, row.name@.len())
                    }
            }
        },
        LoginState::Prompting { input, .. } => {
            &&& body is Input
            &&& body->dots == dots_of(input.len(), content.width)
            &&& body->hint == (input.len() == 0)
            &&& body->cursor == content.x + 3 + dots_of(input.len(), content.width)
        },
        LoginState::Validating { message } => body is Message && body->text@ == message
            && body->tone == Tone::Muted,
        LoginState::Success => body is Message && body->text@ == "Logged in successfully"@
            && body->tone == Tone::Done,
        LoginState::Error(message) => body is Message && body->text@ == message && body->tone
            == Tone::Failed,
    }
}

impl LoginOverlay {
    fn heading(&self) -> (out: String)
        ensures
            out@ == heading_of(self.state@),
    {
        match &self.state {
            LoginState::Selecting { .. } => owned("Choose a provider"),
            LoginState::Prompting { provider_id, .. } => joined(
                provider_id.as_str(),
                " / API key",
            ),
            LoginState::Validating { .. } => owned("Signing in…"),
            LoginState::Success => owned("Signed in"),
            LoginState::Error(_) => owned("Sign-in failed"),
        }
    }

    fn footer(&self, width: u16) -> (out: &'static str)
        ensures
            out@ == footer_of(self.state@, width),
    {
        match &self.state {
            LoginState::Selecting { .. } => {
                if width >= 60 {
                    " ↑↓ / C-n C-p move   Enter select   Esc close "
                } else if width >= 38 {
                    " ↑↓ move · Enter select · Esc close "
                } else {
                    " Enter / Esc "
                }
            },
            LoginState::Prompting { .. } => {
                if width >= 38 {
                    " Enter sign in · Esc cancel "
                } else {
                    " Enter / Esc "
                }
            },
            LoginState::Validating { .. } => " Esc close ",
            LoginState::Success | LoginState::Error(_) => " Enter / Esc close ",
        }
    }

    fn body(&self, content: Area, width: u16) -> (out: Body)
        requires
            on_screen(content),
            content.width >= 4,
        ensures
            shows(out, self.state@, content, width),
    {
        match &self.state {
            LoginState::Selecting { providers, selected } => {
                if providers.len() == 0 {
                    return Body::Empty;
                }
                let rows = content.height as usize;
                let total = providers.len();
                let start = scroll_start(*selected, total, rows);
                let mut list: Vec<ListRow> = Vec::new();
                while list.len() < rows && list.len() < total - start
                    invariant
                        start <= total,
                        total == providers@.len(),
                        list@.len() <= rows,
                        start + list@.len() <= providers@.len(),
                        forall|i: int|
                            0 <= i < list@.len() ==> {
                                let row = #[trigger] list@[i];
                                &&& row.name@ == providers@[start + i].name@
                                &&& row.active == (start + i == *selected)
                                &&& row.padding == padding_of(width, row.name@.len())
                            },
                    decreases rows - list@.len(),
                {
                    let at: usize = start + list.len();
                    let name = providers[at].name.clone();
                    let count = chars_of(name.as_str()).len();
                    let used: u16 = ((count % 65536 + 3) % 65536) as u16;
                    assert((count % 65536 + 3) % 65536 == (3 + count as int) % 65536)
                        by (nonlinear_arith);
                    let row = ListRow {
                        name,
                        padding: width.saturating_sub(used),
                        active: at == *selected,
                    };
                    list.push(row);
                }
                Body::List(list)
            },
            LoginState::Prompting { input, .. } => {
                let count = chars_of(input.as_str()).len();
                let room: u16 = content.width.saturating_sub(4);
                let dots: u16 = if count < room as usize {
                    count as u16
                } else {
                    room
                };
                Body::Input { dots, hint: count == 0, cursor: content.x + 3 + dots }
            },
            LoginState::Validating { message } => Body::Message {
                text: message.clone(),
                tone: Tone::Muted,
            },
            LoginState::Success => Body::Message {
                text: owned("Logged in successfully"),
                tone: Tone::Done,
            },
            LoginState::Error(message) => Body::Message {
                text: message.clone(),
                tone: Tone::Failed,
            },
        }
    }

    /// The dialogue as it is drawn in an area. An area that is too small shows
    /// nothing.
    pub fn screen(&self, area: Area) -> (out: Option<LoginScreen>)
        requires
            on_screen(area),
        ensures
            match out {
                None => popup_in(area) is None,
                Some(screen) => {
                    &&& popup_in(area) == Some(screen.popup)
                    &&& screen.inner == within_border(screen.popup)
                    &&& screen.content == content_of(screen.inner)
                    &&& lies_in(screen.content, screen.popup)
                    &&& lies_in(screen.popup, area)
                    &&& screen.content.height > 0
                    &&& screen.heading@ == heading_of(self.state@)
                    &&& screen.footer@ == footer_of(self.state@, screen.popup.width)
                    &&& shows(screen.body, self.state@, screen.content, screen.popup.width)
                },
            },
    {
        match popup_area(area) {
            None => None,
            Some(popup) => {
                let inner = inner_area(popup);
                let content = Area {
                    x: inner.x,
                    y: inner.y + 2,
                    width: inner.width,
                    height: inner.height - 2,
                };
                Some(
                    LoginScreen {
                        popup,
                        inner,
                        content,
                        heading: self.heading(),
                        footer: self.footer(popup.width),
                        body: self.body(content, popup.width),
                    },
                )
            },
        }
    }
}

/// The selected provider is in view wherever the dialogue is drawn at all.
pub proof fn the_selected_provider_is_shown(
    providers: Seq<LoginProvider>,
    selected: usize,
    body: Body,
    content: Area,
    width: u16,
)
    requires
        selected < providers.len(),
        content.height > 0,
        shows(body, LoginState::Selecting { providers, selected }, content, width),
    ensures
        exists|i: int|
            0 <= i < body->List_0@.len() && (#[trigger] body->List_0@[i]).active
                && body->List_0@[i].name@ == providers[selected as int].name@,
{
    let rows = content.height as int;
    let start = first_shown(selected as int, providers.len() as int, rows);
    crate::layout::the_selected_entry_is_in_view(selected as int, providers.len() as int, rows);
    let i = selected - start;
    assert(0 <= i < body->List_0@.len());
    assert(body->List_0@[i].active);
}

/// What is drawn of a key depends on its length alone, so no part of the key is
/// shown.
pub proof fn a_key_is_never_shown(
    provider_id: Seq<char>,
    auth_method: AuthMethod,
    one: Seq<char>,
    other: Seq<char>,
    body: Body,
    content: Area,
    width: u16,
)
    requires
        one.len() == other.len(),
        shows(
            body,
            LoginState::Prompting { provider_id, auth_method, input: one },
            content,
            width,
        ),
    ensures
        shows(
            body,
            LoginState::Prompting { provider_id, auth_method, input: other },
            content,
            width,
        ),
{
}

/// A key goes to the provider that was chosen, as it was typed, and to no other.
pub proof fn a_key_goes_to_its_provider(
    state: LoginStateView,
    registry: Seq<ProviderInfo>,
    action: AlanAction,
)
    ensures
        match handled(state, registry, action).1 {
            Effect::Validate { provider_id, key } => {
                &&& state is Prompting
                &&& state->provider_id == provider_id
                &&& state->input == key
                &&& knows(registry, provider_id)
            },
            _ => true,
        },
{
}

/// A provider is known exactly where one has that identifier, and the first such is the
/// one that counts.
pub proof fn providers_go_by_their_identifier(registry: Seq<ProviderInfo>, id: Seq<char>, i: int)
    requires
        0 <= i < registry.len(),
    ensures
        knows(registry, id) ==> registry[provider_at(registry, id) as int].id@ == id,
        registry[i].id@ == id ==> knows(registry, id) && provider_at(registry, id) <= i,
        !knows(registry, id) ==> registry[i].id@ != id,
    decreases registry.len(),
{
    if registry[0].id@ != id {
        let rest = registry.drop_first();
        if i > 0 {
            assert(rest[i - 1] == registry[i]);
            providers_go_by_their_identifier(rest, id, i - 1);
        } else if rest.len() > 0 {
            providers_go_by_their_identifier(rest, id, 0);
        }
    }
}

/// What is pasted or typed goes behind what was typed before, whole; what was typed last
/// is taken back by Backspace.
pub proof fn keys_are_typed_whole(
    provider_id: Seq<char>,
    auth_method: AuthMethod,
    input: Seq<char>,
    registry: Seq<ProviderInfo>,
    text: String,
    key: KeyEvent,
    back: KeyEvent,
)
    requires
        key.kind == KeyKind::Press,
        key.code is Char,
        types(key.modifiers),
        back.kind == KeyKind::Press,
        back.code == KeyCode::Backspace,
    ensures
        ({
            let state: LoginStateView = LoginState::Prompting { provider_id, auth_method, input };
            let pasted = handled(state, registry, AlanAction::Paste(text)).0;
            let typed = handled(state, registry, AlanAction::Raw(InputEvent::Key(key))).0;
            let undone = handled(typed, registry, AlanAction::Raw(InputEvent::Key(back))).0;
            &&& pasted == LoginState::<Seq<char>, Seq<LoginProvider>>::Prompting {
                provider_id,
                auth_method,
                input: input + text@,
            }
            &&& typed == LoginState::<Seq<char>, Seq<LoginProvider>>::Prompting {
                provider_id,
                auth_method,
                input: input.push(key.code->Char_0),
            }
            &&& undone == state
        }),
{
    let c = key.code->Char_0;
    assert(input.push(c).drop_last() =~= input);
}

/// Enter hands a key to the provider that it was typed for, and the answer is waited
/// for.
pub proof fn typed_keys_are_tried(
    provider_id: Seq<char>,
    auth_method: AuthMethod,
    input: Seq<char>,
    registry: Seq<ProviderInfo>,
    key: KeyEvent,
    i: int,
)
    requires
        key.kind == KeyKind::Press,
        key.code == KeyCode::Enter,
        0 <= i < registry.len(),
        registry[i].id@ == provider_id,
    ensures
        ({
            let state: LoginStateView = LoginState::Prompting { provider_id, auth_method, input };
            let (next, effect, _) = handled(
                state,
                registry,
                AlanAction::Raw(InputEvent::Key(key)),
            );
            next is Validating && effect == Effect::Validate { provider_id, key: input }
        }),
{
    providers_go_by_their_identifier(registry, provider_id, i);
}

/// Enter asks for a key for the provider that is selected, with nothing typed yet.
pub proof fn the_selected_provider_is_asked_about(
    providers: Seq<LoginProvider>,
    selected: usize,
    registry: Seq<ProviderInfo>,
    key: KeyEvent,
)
    requires
        key.kind == KeyKind::Press,
        key.code == KeyCode::Enter,
        selected < providers.len(),
        lists_all(providers, registry),
    ensures
        ({
            let state: LoginStateView = LoginState::Selecting { providers, selected };
            let (next, effect, _) = handled(
                state,
                registry,
                AlanAction::Raw(InputEvent::Key(key)),
            );
            let chosen = providers[selected as int].id@;
            &&& effect is Redraw
            &&& if methods_of(registry, chosen).len() == 0 {
                next is Error
            } else {
                &&& next is Prompting
                &&& next->provider_id == chosen
                &&& next->input.len() == 0
            }
        }),
{
    let chosen = providers[selected as int].id@;
    assert(registry[selected as int].id@ == chosen);
    providers_go_by_their_identifier(registry, chosen, selected as int);
}

/// The arrows move the selection by one, and not past either end.
pub proof fn arrows_move_the_selection(
    providers: Seq<LoginProvider>,
    selected: usize,
    registry: Seq<ProviderInfo>,
    up: KeyEvent,
    down: KeyEvent,
)
    requires
        up.kind == KeyKind::Press,
        up.code == KeyCode::Up,
        down.kind == KeyKind::Press,
        down.code == KeyCode::Down,
        selected < providers.len() <= usize::MAX,
    ensures
        ({
            let state: LoginStateView = LoginState::Selecting { providers, selected };
            let above = handled(state, registry, AlanAction::Raw(InputEvent::Key(up))).0;
            let below = handled(state, registry, AlanAction::Raw(InputEvent::Key(down))).0;
            &&& above is Selecting && above->providers == providers
            &&& below is Selecting && below->providers == providers
            &&& above->selected == if selected == 0 {
                0
            } else {
                selected - 1
            }
            &&& below->selected == if selected + 1 == providers.len() {
                selected as int
            } else {
                selected + 1
            }
        }),
{
}

/// The rows of the list fill the dialogue, and a key is shown by one dot for each
/// character as far as there is room.
pub proof fn rows_fill_the_dialogue(width: u16, name: nat, input: nat)
    ensures
        3 + name <= width ==> 3 + name + padding_of(width, name) == width,
        input + 4 <= width ==> dots_of(input, width) == input,
        width >= 4 ==> dots_of(input, width) + 4 <= width,
        0 <= dots_of(input, width) <= input,
{
}

/// What stands at the bottom fits into the dialogue, unless that is very narrow.
pub proof fn footers_fit(state: LoginStateView, width: u16)
    requires
        width >= 20,
    ensures
        footer_of(state, width).len() <= width,
{
    reveal_strlit(" ↑↓ / C-n C-p move   Enter select   Esc close ");
    reveal_strlit(" ↑↓ move · Enter select · Esc close ");
    reveal_strlit(" Enter / Esc ");
    reveal_strlit(" Enter sign in · Esc cancel ");
    reveal_strlit(" Esc close ");
    reveal_strlit(" Enter / Esc close ");
}

/// The heading names the provider that a key is asked for.
pub proof fn headings_name_the_provider(
    provider_id: Seq<char>,
    auth_method: AuthMethod,
    input: Seq<char>,
)
    ensures
        provider_id.is_prefix_of(
            heading_of(LoginState::Prompting { provider_id, auth_method, input }),
        ),
{
    let heading = heading_of(LoginState::Prompting { provider_id, auth_method, input });
    assert(provider_id =~= heading.take(provider_id.len() as int));
}

/// The content takes all of the dialogue but the two rows of the heading.
pub proof fn content_stands_below_the_heading(inner: Area)
    requires
        on_screen(inner),
        inner.height >= 2,
    ensures
        ({
            let content = content_of(inner);
            &&& lies_in(content, inner)
            &&& content.x == inner.x && content.width == inner.width
            &&& content.y == inner.y + 2
            &&& content.y + content.height == inner.y + inner.height
        }),
{
}

} // verus!
