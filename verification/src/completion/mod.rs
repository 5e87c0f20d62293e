//! Completion for the prompt editor.
//!
//! The character a token starts with picks the backend, so no backend parses
//! the line itself. Ranking is not their concern either: [`matcher`] orders
//! every backend the same way.
pub mod case;
pub mod command_backend;
pub mod commands;
pub mod controller;
pub mod matcher;
pub mod order;
pub mod path_backend;
pub mod paths;
pub mod rank_laws;
pub mod scan;
pub mod token;

use crate::command::SlashCommand;
use crate::completion::command_backend::CommandCompleterBackend;
use crate::completion::matcher::{rank_all, ranked};
use crate::completion::path_backend::PathCompleterBackend;
use crate::text::texts;
use core::ops::Range;
use vstd::prelude::*;

verus! {

/// How many matches one keystroke turns into items.
pub const MAX_SUGGESTIONS: usize = 100;

/// A request for completion.
#[derive(Debug)]
pub struct CompletionRequest {
    /// The first character of the token: what selects the backend.
    pub trigger: char,
    /// What was typed after the trigger.
    pub pattern: String,
    /// The bytes of the line that the pattern takes up, which accepting
    /// overwrites.
    pub range: Range<usize>,
    /// The line of the buffer that the token stands on.
    pub row: usize,
}

/// What accepting an item leaves the input in.
#[derive(Debug, Clone, Copy, PartialEq, Eq, Structural)]
pub enum Accept {
    Insert,
    Complete,
}

/// One completion that is offered.
#[derive(Debug, Clone, PartialEq, Eq)]
pub struct CompletionItem<S = String> {
    pub display: S,
    pub replacement: S,
    pub accept: Accept,
}

impl View for CompletionItem {
    type V = CompletionItem<Seq<char>>;

    open spec fn view(&self) -> CompletionItem<Seq<char>> {
        CompletionItem {
            display: self.display@,
            replacement: self.replacement@,
            accept: self.accept,
        }
    }
}

/// The views of a list of items.
pub open spec fn item_views(items: Seq<CompletionItem>) -> Seq<CompletionItem<Seq<char>>> {
    items.map_values(|i: CompletionItem| i@)
}

/// How far the candidates are known.
#[derive(Debug, Clone, PartialEq, Eq)]
pub enum CompletionStatus<S = String> {
    Loading,
    Ready,
    Error(S),
}

impl View for CompletionStatus {
    type V = CompletionStatus<Seq<char>>;

    open spec fn view(&self) -> CompletionStatus<Seq<char>> {
        match self {
            CompletionStatus::Loading => CompletionStatus::Loading,
            CompletionStatus::Ready => CompletionStatus::Ready,
            CompletionStatus::Error(message) => CompletionStatus::Error(message@),
        }
    }
}

impl CompletionStatus {
    /// An equal status.
    pub fn copy(&self) -> (out: CompletionStatus)
        ensures
            out == *self,
    {
        match self {
            CompletionStatus::Loading => CompletionStatus::Loading,
            CompletionStatus::Ready => CompletionStatus::Ready,
            CompletionStatus::Error(message) => CompletionStatus::Error(message.clone()),
        }
    }
}

/// What a backend offers.
#[derive(Debug)]
pub struct CompletionResult {
    /// The bytes of the line that accepting overwrites.
    pub range: Range<usize>,
    pub status: CompletionStatus,
    /// Best first.
    pub items: Vec<CompletionItem>,
}

/// What the path backend completes from.
#[derive(Debug, Clone, PartialEq, Eq)]
pub struct PathsContext {
    pub paths: Vec<String>,
    pub status: CompletionStatus,
}

/// What the command backend completes from.
#[derive(Debug, Clone, PartialEq, Eq)]
pub struct CommandsContext {
    pub commands: Vec<SlashCommand>,
}

impl Default for CommandsContext {
    fn default() -> (out: CommandsContext)
        ensures
            out.commands@ == Seq::<SlashCommand>::empty(),
    {
        CommandsContext { commands: Vec::new() }
    }
}

/// What a backend completes from. Each backend knows its own kind and offers
/// nothing from another.
#[derive(Debug, Clone, PartialEq, Eq)]
pub enum CompletionContext {
    Paths(PathsContext),
    Commands(CommandsContext),
}

/// A source of completions for tokens that start with one character.
pub trait CompletionBackendV2 {
    /// The character that a token must start with.
    spec fn trigger_char(&self) -> char;

    /// Whether `out` is what the backend offers on a request.
    spec fn offers(
        &self,
        request: CompletionRequest,
        context: CompletionContext,
        out: Option<CompletionResult>,
    ) -> bool;

    /// The character that a token must start with.
    fn trigger(&self) -> (out: char)
        ensures
            out == self.trigger_char(),
    ;

    /// The completion offered at the cursor. `None` when the backend does not
    /// apply, which closes the popup rather than showing an empty one.
    fn complete(&self, request: &CompletionRequest, context: &CompletionContext) -> (out: Option<
        CompletionResult,
    >)
        ensures
            self.offers(*request, *context, out),
    ;
}

/// Whether `items` are what is offered for a pattern: the best matches, no more
/// than are shown, each as the item `shown` at its place.
pub open spec fn best_items(
    items: Seq<CompletionItem>,
    pattern: Seq<char>,
    candidates: Seq<Seq<char>>,
    shown: Seq<CompletionItem<Seq<char>>>,
) -> bool {
    exists|places: Seq<usize>| #[trigger]
        ranked(pattern, candidates, places) && item_views(items) == first_items(places, shown)
}

/// The items at the first places, no more than are shown.
pub open spec fn first_items(
    places: Seq<usize>,
    shown: Seq<CompletionItem<Seq<char>>>,
) -> Seq<CompletionItem<Seq<char>>> {
    let kept = if places.len() > MAX_SUGGESTIONS {
        places.take(MAX_SUGGESTIONS as int)
    } else {
        places
    };
    kept.map_values(|place: usize| shown[place as int])
}

/// The places of the best matches, no more than are shown.
pub fn best_places(pattern: &str, candidates: &Vec<String>) -> (out: Vec<usize>)
    ensures
        exists|places: Seq<usize>| #[trigger]
            ranked(pattern@, texts(candidates@), places) && out@ == if places.len()
                > MAX_SUGGESTIONS {
                places.take(MAX_SUGGESTIONS as int)
            } else {
                places
            },
        forall|i: int| 0 <= i < out@.len() ==> #[trigger] out@[i] < candidates@.len(),
{
    let mut out = rank_all(pattern, candidates.as_slice());
    let ghost places = out@;
    proof {
        assert(ranked(pattern@, texts(candidates@), places));
        assert forall|i: int| 0 <= i < places.len() implies #[trigger] places[i]
            < candidates@.len() by {
            assert(crate::completion::matcher::ranks_of(pattern@, texts(candidates@)).len()
                == candidates@.len());
        }
    }
    out.truncate(MAX_SUGGESTIONS);
    proof {
        if places.len() > MAX_SUGGESTIONS {
            assert(out@ =~= places.take(MAX_SUGGESTIONS as int));
        } else {
            assert(out@ =~= places);
        }
    }
    out
}

/// One of the backends.
pub enum Backend {
    Commands(CommandCompleterBackend),
    Paths(PathCompleterBackend),
}

impl CompletionBackendV2 for Backend {
    open spec fn trigger_char(&self) -> char {
        match self {
            Backend::Commands(backend) => backend.trigger_char(),
            Backend::Paths(backend) => backend.trigger_char(),
        }
    }

    open spec fn offers(
        &self,
        request: CompletionRequest,
        context: CompletionContext,
        out: Option<CompletionResult>,
    ) -> bool {
        match self {
            Backend::Commands(backend) => backend.offers(request, context, out),
            Backend::Paths(backend) => backend.offers(request, context, out),
        }
    }

    fn trigger(&self) -> (out: char) {
        match self {
            Backend::Commands(backend) => backend.trigger(),
            Backend::Paths(backend) => backend.trigger(),
        }
    }

    fn complete(&self, request: &CompletionRequest, context: &CompletionContext) -> (out: Option<
        CompletionResult,
    >) {
        match self {
            Backend::Commands(backend) => backend.complete(request, context),
            Backend::Paths(backend) => backend.complete(request, context),
        }
    }
}

/// A backend with what it completes from.
pub struct BackendEntry {
    pub backend: Backend,
    pub context: CompletionContext,
}

/// Hands each request to the backend for its trigger. It never scans and owns
/// no selection.
pub struct Completer {
    pub backends: Vec<BackendEntry>,
}

/// Whether a backend answers to that character.
pub open spec fn answers(backends: Seq<BackendEntry>, trigger: char) -> bool {
    exists|i: int|
        0 <= i < backends.len() && (#[trigger] backends[i]).backend.trigger_char() == trigger
}

impl Completer {
    /// No two backends answer to the same character.
    pub open spec fn well_formed(&self) -> bool {
        forall|i: int, j: int|
            0 <= i < j < self.backends@.len() ==> (
            #[trigger] self.backends@[i]).backend.trigger_char() != (
            #[trigger] self.backends@[j]).backend.trigger_char()
    }

    /// A completer without backends.
    pub fn new() -> (out: Completer)
        ensures
            out.well_formed(),
            out.backends@.len() == 0,
    {
        Completer { backends: Vec::new() }
    }

    /// Add a backend with what it completes from. It must not answer to the
    /// character of another.
    pub fn with_backend(self, backend: Backend, context: CompletionContext) -> (out: Completer)
        requires
            self.well_formed(),
            !answers(self.backends@, backend.trigger_char()),
        ensures
            out.well_formed(),
            out.backends@ == self.backends@.push(BackendEntry { backend, context }),
    {
        let mut backends = self.backends;
        backends.push(BackendEntry { backend, context });
        Completer { backends }
    }

    fn entry_for(&self, trigger: char) -> (out: Option<usize>)
        requires
            self.well_formed(),
        ensures
            match out {
                Some(i) => i < self.backends@.len()
                    && self.backends@[i as int].backend.trigger_char() == trigger,
                None => !answers(self.backends@, trigger),
            },
    {
        let mut i: usize = 0;
        while i < self.backends.len()
            invariant
                i <= self.backends@.len(),
                forall|k: int|
                    0 <= k < i ==> (#[trigger] self.backends@[k]).backend.trigger_char()
                        != trigger,
            decreases self.backends@.len() - i,
        {
            if self.backends[i].backend.trigger() == trigger {
                return Some(i);
            }
            i += 1;
        }
        None
    }

    /// What the backend for the request's trigger offers. Nothing is offered
    /// where no backend answers to it.
    pub fn complete(&self, request: CompletionRequest) -> (out: Option<CompletionResult>)
        requires
            self.well_formed(),
        ensures
            !answers(self.backends@, request.trigger) ==> out is None,
            forall|i: int|
                0 <= i < self.backends@.len() && (
                #[trigger] self.backends@[i]).backend.trigger_char() == request.trigger
                    ==> self.backends@[i].backend.offers(
                    request,
                    self.backends@[i].context,
                    out,
                ),
    {
        match self.entry_for(request.trigger) {
            None => None,
            Some(i) => {
                let entry = &self.backends[i];
                entry.backend.complete(&request, &entry.context)
            },
        }
    }

    /// Replace what the backend for that trigger completes from.
    pub fn set_context(&mut self, trigger: char, context: CompletionContext)
        requires
            old(self).well_formed(),
        ensures
            final(self).well_formed(),
            final(self).backends@.len() == old(self).backends@.len(),
            forall|i: int|
                0 <= i < old(self).backends@.len() ==> (#[trigger] final(self).backends@[i]) == (
                BackendEntry {
                    backend: old(self).backends@[i].backend,
                    context: if old(self).backends@[i].backend.trigger_char() == trigger {
                        context
                    } else {
                        old(self).backends@[i].context
                    },
                }),
    {
        match self.entry_for(trigger) {
            None => {},
            Some(i) => {
                let ghost before = self.backends@;
                self.backends[i].context = context;
                assert(self.backends@ =~= before.update(
                    i as int,
                    BackendEntry { backend: before[i as int].backend, context },
                ));
            },
        }
    }
}

impl Default for Completer {
    fn default() -> (out: Completer)
        ensures
            out.well_formed(),
            out.backends@.len() == 0,
    {
        Completer::new()
    }
}

/// What is offered are the first of a ranking, each shown as its own item: all of them
/// where no more than a hundred match, and else the first hundred.
pub proof fn the_best_are_offered_first(
    places: Seq<usize>,
    shown: Seq<CompletionItem<Seq<char>>>,
    i: int,
)
    requires
        0 <= i < first_items(places, shown).len(),
    ensures
        first_items(places, shown)[i] == shown[places[i] as int],
        places.len() <= 100 ==> first_items(places, shown).len() == places.len(),
        places.len() > 100 ==> first_items(places, shown).len() == 100,
{
}

} // verus!
