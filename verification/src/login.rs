//! Signing in as a conversation with the provider: it asks, tells and ends.
use crate::controller::Poll;
use crate::login_overlay::LoginProvider;
use crate::selection::{clamped, move_within};
use crate::text::{joined, joined3, owned, same, texts};
use vstd::prelude::*;

verus! {

/// How far signing in has come.
#[derive(Debug, Clone, PartialEq, Eq)]
pub enum LoginState<S = String, L = Vec<LoginProvider>> {
    Closed,
    Selecting { providers: L, selected: usize },
    /// The provider asks for something.
    Prompting { provider: S, prompt: S },
    /// The provider is at work.
    Validating { provider: S, message: S },
    Success { provider: S },
    Error(S),
}

/// The view of the state.
pub type LoginStateView = LoginState<Seq<char>, Seq<LoginProvider>>;

impl View for LoginState {
    type V = LoginState<Seq<char>, Seq<LoginProvider>>;

    open spec fn view(&self) -> LoginState<Seq<char>, Seq<LoginProvider>> {
        match self {
            LoginState::Closed => LoginState::Closed,
            LoginState::Selecting { providers, selected } => LoginState::Selecting {
                providers: providers@,
                selected: *selected,
            },
            LoginState::Prompting { provider, prompt } => LoginState::Prompting {
                provider: provider@,
                prompt: prompt@,
            },
            LoginState::Validating { provider, message } => LoginState::Validating {
                provider: provider@,
                message: message@,
            },
            LoginState::Success { provider } => LoginState::Success { provider: provider@ },
            LoginState::Error(message) => LoginState::Error(message@),
        }
    }
}

impl LoginState {
    /// Whether anything is shown.
    pub fn is_open(&self) -> (out: bool)
        ensures
            out == !(self@ is Closed),
    {
        match self {
            LoginState::Closed => false,
            _ => true,
        }
    }
}

/// What a provider tells while it signs the user in.
#[derive(Debug, Clone, PartialEq, Eq)]
pub enum AuthEvent<S = String> {
    Info(S),
    Progress(S),
    AuthUrl { url: S, instructions: Option<S> },
}

impl View for AuthEvent {
    type V = AuthEvent<Seq<char>>;

    open spec fn view(&self) -> AuthEvent<Seq<char>> {
        match self {
            AuthEvent::Info(text) => AuthEvent::Info(text@),
            AuthEvent::Progress(text) => AuthEvent::Progress(text@),
            AuthEvent::AuthUrl { url, instructions } => AuthEvent::AuthUrl {
                url: url@,
                instructions: crate::text::opt_text(*instructions),
            },
        }
    }
}

/// What the user is told of an event.
pub open spec fn event_text(event: AuthEvent<Seq<char>>) -> Seq<char> {
    match event {
        AuthEvent::Info(text) => text,
        AuthEvent::Progress(text) => text,
        AuthEvent::AuthUrl { url, instructions } => match instructions {
            Some(text) => text + ": "@ + url,
            None => url,
        },
    }
}

/// A message from the task that signs in.
pub enum LoginMessage<S = String> {
    Prompt { provider: S, prompt: S },
    Event { provider: S, event: AuthEvent<S> },
    /// The end: the credential is stored, or why it is not.
    Finished { provider: S, result: Result<(), S> },
}

impl View for LoginMessage {
    type V = LoginMessage<Seq<char>>;

    open spec fn view(&self) -> LoginMessage<Seq<char>> {
        match self {
            LoginMessage::Prompt { provider, prompt } => LoginMessage::Prompt {
                provider: provider@,
                prompt: prompt@,
            },
            LoginMessage::Event { provider, event } => LoginMessage::Event {
                provider: provider@,
                event: event@,
            },
            LoginMessage::Finished { provider, result: Ok(_) } => LoginMessage::Finished {
                provider: provider@,
                result: Ok(()),
            },
            LoginMessage::Finished { provider, result: Err(error) } => LoginMessage::Finished {
                provider: provider@,
                result: Err(error@),
            },
        }
    }
}

/// Signing in.
pub struct LoginController {
    /// The identifiers of the known providers.
    pub registry: Vec<String>,
    pub state: LoginState,
    /// Whether messages are still expected.
    pub listening: bool,
    /// Whether the task that signs in runs.
    pub running: bool,
    /// Whether the task waits for an answer.
    pub awaiting: bool,
}

/// The view of a [`LoginController`].
pub struct LoginView {
    pub registry: Seq<Seq<char>>,
    pub state: LoginStateView,
    pub listening: bool,
    pub running: bool,
    pub awaiting: bool,
}

impl View for LoginController {
    type V = LoginView;

    open spec fn view(&self) -> LoginView {
        LoginView {
            registry: texts(self.registry@),
            state: self.state@,
            listening: self.listening,
            running: self.running,
            awaiting: self.awaiting,
        }
    }
}

/// What the program is to do.
pub enum LoginEffect<S = String> {
    Nothing,
    /// Start the task that signs in to the provider.
    Start(S),
    /// Hand the task the answer that it waits for.
    Reply(S),
}

impl View for LoginEffect {
    type V = LoginEffect<Seq<char>>;

    open spec fn view(&self) -> LoginEffect<Seq<char>> {
        match self {
            LoginEffect::Nothing => LoginEffect::Nothing,
            LoginEffect::Start(provider) => LoginEffect::Start(provider@),
            LoginEffect::Reply(text) => LoginEffect::Reply(text@),
        }
    }
}

/// What is to be called off.
#[derive(Debug, Clone, Copy, PartialEq, Eq, Structural)]
pub struct Cancelled {
    /// The task waits for an answer and is to be told that there is none.
    pub prompt: bool,
    /// The task runs and is to be stopped.
    pub task: bool,
}

/// Signing in after a message.
pub open spec fn after_message(login: LoginView, message: LoginMessage<Seq<char>>) -> LoginView {
    match message {
        LoginMessage::Prompt { provider, prompt } => LoginView {
            state: LoginState::Prompting { provider, prompt },
            awaiting: true,
            ..login
        },
        LoginMessage::Event { provider, event } => LoginView {
            state: LoginState::Validating { provider, message: event_text(event) },
            ..login
        },
        LoginMessage::Finished { provider, result } => LoginView {
            state: match result {
                Ok(_) => LoginState::Success { provider },
                Err(error) => LoginState::Error(error),
            },
            listening: false,
            running: false,
            awaiting: false,
            ..login
        },
    }
}

/// The views of a list of messages.
pub open spec fn login_messages(messages: Seq<LoginMessage>) -> Seq<LoginMessage<Seq<char>>> {
    messages.map_values(|m: LoginMessage| m@)
}

/// Signing in after messages, in order.
pub open spec fn after_messages(
    login: LoginView,
    messages: Seq<LoginMessage<Seq<char>>>,
) -> LoginView
    decreases messages.len(),
{
    if messages.len() == 0 {
        login
    } else {
        after_message(after_messages(login, messages.drop_last()), messages.last())
    }
}

/// Signing in started for a provider, where it is known.
pub open spec fn started(login: LoginView, provider: Seq<char>) -> (
    LoginView,
    LoginEffect<Seq<char>>,
) {
    if login.registry.contains(provider) {
        (
            LoginView {
                state: LoginState::Validating { provider, message: "Starting login"@ },
                listening: true,
                running: true,
                ..login
            },
            LoginEffect::Start(provider),
        )
    } else {
        (
            LoginView {
                state: LoginState::Error("Unknown provider: "@ + provider),
                ..login
            },
            LoginEffect::Nothing,
        )
    }
}

/// Signing in after the user has submitted a text.
pub open spec fn submitted(login: LoginView, text: Seq<char>) -> (
    LoginView,
    LoginEffect<Seq<char>>,
) {
    match login.state {
        LoginState::Selecting { providers, selected } => if selected < providers.len() {
            started(login, providers[selected as int].id@)
        } else {
            (
                LoginView { state: LoginState::Error("No providers available"@), ..login },
                LoginEffect::Nothing,
            )
        },
        LoginState::Prompting { .. } => if login.awaiting {
            (LoginView { awaiting: false, ..login }, LoginEffect::Reply(text))
        } else {
            (login, LoginEffect::Nothing)
        },
        _ => (login, LoginEffect::Nothing),
    }
}

impl LoginController {
    /// Nothing is shown yet.
    pub fn new(registry: Vec<String>) -> (out: LoginController)
        ensures
            out@ == (LoginView {
                registry: texts(registry@),
                state: LoginState::Closed,
                listening: false,
                running: false,
                awaiting: false,
            }),
    {
        LoginController {
            registry,
            state: LoginState::Closed,
            listening: false,
            running: false,
            awaiting: false,
        }
    }

    /// How far signing in has come.
    pub fn state(&self) -> (out: &LoginState)
        ensures
            *out == self.state,
    {
        &self.state
    }

    /// Offer all known providers.
    pub fn open(&mut self)
        ensures
            final(self).registry == old(self).registry,
            final(self).listening == old(self).listening,
            final(self).running == old(self).running,
            final(self).awaiting == old(self).awaiting,
            final(self).state is Selecting,
            final(self).state->Selecting_selected == 0,
            final(self).state->Selecting_providers@.len() == old(self).registry@.len(),
            forall|i: int|
                0 <= i < old(self).registry@.len() ==> (
                #[trigger] final(self).state->Selecting_providers@[i]).id@ == old(
                    self).registry@[i]@ && final(self).state->Selecting_providers@[i].name@ == old(
                    self).registry@[i]@,
    {
        let mut providers: Vec<LoginProvider> = Vec::new();
        let mut i: usize = 0;
        while i < self.registry.len()
            invariant
                i <= self.registry@.len(),
                providers@.len() == i,
                forall|k: int|
                    0 <= k < i ==> (#[trigger] providers@[k]).id@ == self.registry@[k]@
                        && providers@[k].name@ == self.registry@[k]@,
            decreases self.registry@.len() - i,
        {
            providers.push(
                LoginProvider { id: self.registry[i].clone(), name: self.registry[i].clone() },
            );
            i += 1;
        }
        self.state = LoginState::Selecting { providers, selected: 0 };
    }

    /// Take in what the user has submitted.
    pub fn submit(&mut self, text: String) -> (out: LoginEffect)
        ensures
            (final(self)@, out@) == submitted(old(self)@, text@),
    {
        let chosen = match &self.state {
            LoginState::Selecting { providers, selected } => {
                if *selected < providers.len() {
                    Some(providers[*selected].id.clone())
                } else {
                    None
                }
            },
            LoginState::Prompting { .. } => {
                if self.awaiting {
                    self.awaiting = false;
                    return LoginEffect::Reply(text);
                }
                return LoginEffect::Nothing;
            },
            _ => {
                return LoginEffect::Nothing;
            },
        };
        match chosen {
            Some(provider) => self.start(provider),
            None => {
                self.state = LoginState::Error(owned("No providers available"));
                LoginEffect::Nothing
            },
        }
    }

    fn start(&mut self, provider: String) -> (out: LoginEffect)
        ensures
            (final(self)@, out@) == started(old(self)@, provider@),
    {
        let ghost views = texts(self.registry@);
        let mut known: bool = false;
        let mut i: usize = 0;
        while i < self.registry.len()
            invariant
                i <= self.registry@.len(),
                views == texts(self.registry@),
                *self == *old(self),
                known ==> views.contains(provider@),
                !known ==> forall|k: int| 0 <= k < i ==> #[trigger] views[k] != provider@,
            decreases self.registry@.len() - i,
        {
            if same(self.registry[i].as_str(), provider.as_str()) {
                assert(views[i as int] == provider@);
                known = true;
            }
            i += 1;
        }
        if known {
            self.state =
            LoginState::Validating {
                provider: provider.clone(),
                message: owned("Starting login"),
            };
            self.listening = true;
            self.running = true;
            LoginEffect::Start(provider)
        } else {
            self.state = LoginState::Error(joined("Unknown provider: ", provider.as_str()));
            LoginEffect::Nothing
        }
    }

    /// Move the selection, but not past either end.
    pub fn move_selection(&mut self, delta: isize)
        ensures
            final(self)@ == (LoginView {
                state: match old(self)@.state {
                    LoginState::Selecting { providers, selected } => if providers.len() == 0 {
                        old(self)@.state
                    } else {
                        LoginState::Selecting {
                            providers,
                            selected: clamped(
                                selected as int,
                                delta as int,
                                providers.len() as int,
                            ) as usize,
                        }
                    },
                    _ => old(self)@.state,
                },
                ..old(self)@
            }),
    {
        if let LoginState::Selecting { providers, selected } = &mut self.state {
            if providers.len() > 0 {
                *selected = move_within(*selected, delta, providers.len());
            }
        }
    }

    /// Stop signing in. What is to be called off is the result.
    pub fn cancel(&mut self) -> (out: Cancelled)
        ensures
            out == (Cancelled { prompt: old(self).awaiting, task: old(self).running }),
            final(self)@ == (LoginView {
                state: LoginState::Closed,
                listening: false,
                running: false,
                awaiting: false,
                ..old(self)@
            }),
            at_rest(final(self)@),
    {
        let out = Cancelled { prompt: self.awaiting, task: self.running };
        self.awaiting = false;
        self.running = false;
        self.listening = false;
        self.state = LoginState::Closed;
        out
    }

    /// Take in the messages that have come in, in order.
    pub fn poll(&mut self, messages: Vec<LoginMessage>) -> (out: Poll)
        ensures
            out == if old(self).listening && messages@.len() > 0 {
                Poll::Changed
            } else {
                Poll::Idle
            },
            final(self)@ == if old(self).listening {
                after_messages(old(self)@, login_messages(messages@))
            } else {
                old(self)@
            },
    {
        if !self.listening {
            return Poll::Idle;
        }
        let ghost before = self@;
        let ghost views = login_messages(messages@);
        let mut i: usize = 0;
        assert(views.take(0) =~= Seq::empty());
        while i < messages.len()
            invariant
                i <= messages@.len(),
                views == login_messages(messages@),
                self@ == after_messages(before, views.take(i as int)),
            decreases messages@.len() - i,
        {
            assert(views.take(i as int + 1).drop_last() =~= views.take(i as int));
            self.take_message(&messages[i]);
            i += 1;
        }
        assert(views.take(i as int) =~= views);
        if messages.len() > 0 {
            Poll::Changed
        } else {
            Poll::Idle
        }
    }

    fn take_message(&mut self, message: &LoginMessage)
        ensures
            final(self)@ == after_message(old(self)@, message@),
    {
        match message {
            LoginMessage::Prompt { provider, prompt } => {
                self.awaiting = true;
                self.state =
                LoginState::Prompting { provider: provider.clone(), prompt: prompt.clone() };
            },
            LoginMessage::Event { provider, event } => {
                let text = match event {
                    AuthEvent::Info(text) => text.clone(),
                    AuthEvent::Progress(text) => text.clone(),
                    AuthEvent::AuthUrl { url, instructions } => match instructions {
                        Some(text) => joined3(text.as_str(), ": ", url.as_str()),
                        None => url.clone(),
                    },
                };
                self.state = LoginState::Validating { provider: provider.clone(), message: text };
            },
            LoginMessage::Finished { provider, result } => {
                self.listening = false;
                self.running = false;
                self.awaiting = false;
                self.state =
                match result {
                    Ok(_) => LoginState::Success { provider: provider.clone() },
                    Err(error) => LoginState::Error(error.clone()),
                };
            },
        }
    }
}

/// Nothing is left of signing in: no task, no question, no messages expected.
pub open spec fn at_rest(login: LoginView) -> bool {
    login.state is Closed && !login.listening && !login.running && !login.awaiting
}

/// An answer is handed on at most once for each question.
pub proof fn a_question_is_answered_once(login: LoginView, first: Seq<char>, second: Seq<char>)
    ensures
        submitted(login, first).1 is Reply ==> !(submitted(
            submitted(login, first).0,
            second,
        ).1 is Reply),
{
}

/// The user is told an address whole, after the instructions where there are some, and
/// any other text as it is.
pub proof fn events_are_told_whole(url: Seq<char>, text: Seq<char>)
    ensures
        event_text(AuthEvent::Info(text)) == text,
        event_text(AuthEvent::Progress(text)) == text,
        event_text(AuthEvent::AuthUrl { url, instructions: None }) == url,
        ({
            let told = event_text(AuthEvent::AuthUrl { url, instructions: Some(text) });
            &&& text.is_prefix_of(told)
            &&& url.is_suffix_of(told)
            &&& told.len() == text.len() + url.len() + 2
        }),
{
    reveal_strlit(": ");
    let told = event_text(AuthEvent::AuthUrl { url, instructions: Some(text) });
    assert(text =~= told.take(text.len() as int));
    assert(url =~= told.skip(told.len() - url.len()));
}

/// Messages are taken one after the other, in the order they came.
pub proof fn messages_are_taken_in_order(
    login: LoginView,
    first: Seq<LoginMessage<Seq<char>>>,
    more: Seq<LoginMessage<Seq<char>>>,
)
    ensures
        after_messages(login, first + more) == after_messages(after_messages(login, first), more),
    decreases more.len(),
{
    if more.len() == 0 {
        assert(first + more =~= first);
    } else {
        assert((first + more).drop_last() =~= first + more.drop_last());
        messages_are_taken_in_order(login, first, more.drop_last());
    }
}

/// What came last is what is shown: a question with its text, an event with what is
/// told of it, and the end as a success or with its error, after which nothing is
/// waited for.
pub proof fn the_last_message_is_shown(
    login: LoginView,
    before: Seq<LoginMessage<Seq<char>>>,
    provider: Seq<char>,
    text: Seq<char>,
)
    ensures
        ({
            let asked = after_messages(
                login,
                before.push(LoginMessage::Prompt { provider, prompt: text }),
            );
            &&& asked.state is Prompting
            &&& asked.state->prompt == text
            &&& asked.awaiting
        }),
        ({
            let told = after_messages(
                login,
                before.push(LoginMessage::Event { provider, event: AuthEvent::Info(text) }),
            );
            &&& told.state is Validating
            &&& told.state->message == text
        }),
        ({
            let failed = after_messages(
                login,
                before.push(LoginMessage::Finished { provider, result: Err(text) }),
            );
            &&& failed.state is Error
            &&& failed.state->Error_0 == text
            &&& !failed.listening && !failed.running && !failed.awaiting
        }),
        ({
            let done = after_messages(
                login,
                before.push(LoginMessage::Finished { provider, result: Ok(()) }),
            );
            &&& done.state is Success
            &&& !done.listening && !done.running && !done.awaiting
        }),
{
    assert forall|message: LoginMessage<Seq<char>>| #[trigger]
        after_messages(login, before.push(message)) == after_message(
            after_messages(login, before),
            message,
        ) by {
        assert(before.push(message).drop_last() =~= before);
    }
}

/// The answer to a question is handed on as it was typed.
pub proof fn answers_are_handed_on_as_typed(
    login: LoginView,
    provider: Seq<char>,
    prompt: Seq<char>,
    text: Seq<char>,
)
    ensures
        submitted(after_message(login, LoginMessage::Prompt { provider, prompt }), text).1
            == LoginEffect::Reply(text),
{
}

/// Signing in starts for the provider that was chosen, where it is known; of an unknown
/// one the user is told.
pub proof fn chosen_providers_are_signed_in_to(login: LoginView, text: Seq<char>)
    requires
        login.state is Selecting,
        login.state->selected < login.state->providers.len(),
    ensures
        ({
            let chosen = login.state->providers[login.state->selected as int].id@;
            let (after, effect) = submitted(login, text);
            if login.registry.contains(chosen) {
                effect == LoginEffect::Start(chosen) && after.running && after.listening
            } else {
                &&& effect == LoginEffect::<Seq<char>>::Nothing
                &&& after.state is Error
                &&& chosen.is_suffix_of(after.state->Error_0)
                &&& after.running == login.running
            }
        }),
{
    let chosen = login.state->providers[login.state->selected as int].id@;
    let told = "Unknown provider: "@ + chosen;
    assert(chosen =~= told.skip(told.len() - chosen.len()));
}

} // verus!
