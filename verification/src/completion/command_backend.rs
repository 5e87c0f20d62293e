//! Slash-command completion.
//!
//! Candidates come from [`SlashCommand`] itself, so the popup cannot offer a
//! command that does not exist.
use crate::command::{command_word, description_of, SlashCommand};
use crate::completion::{
    best_items, best_places, first_items, item_views, Accept, CompletionBackendV2,
    CompletionContext, CompletionItem, CompletionRequest, CompletionResult, CompletionStatus,
};
use crate::completion::matcher::ranked;
use crate::text::{joined3, owned, texts};
use vstd::prelude::*;

verus! {

/// Completes slash commands.
pub struct CommandCompleterBackend;

/// The item for a command. Its replacement is the bare word: the slash stays
/// where it was typed.
pub open spec fn command_item(command: SlashCommand) -> CompletionItem<Seq<char>> {
    CompletionItem {
        display: "/"@ + command_word(command) + " — "@ + description_of(command),
        replacement: command_word(command),
        accept: Accept::Complete,
    }
}

/// The words of a list of commands.
pub open spec fn command_words(commands: Seq<SlashCommand>) -> Seq<Seq<char>> {
    commands.map_values(|c: SlashCommand| command_word(c))
}

/// The items of a list of commands.
pub open spec fn command_items(commands: Seq<SlashCommand>) -> Seq<CompletionItem<Seq<char>>> {
    commands.map_values(|c: SlashCommand| command_item(c))
}

/// Whether `out` is what is offered of a list of commands. A command is the
/// whole input, so a slash only opens one in the first column of the first
/// line: there the range after the slash starts at one.
pub open spec fn offers_commands(
    commands: Seq<SlashCommand>,
    request: CompletionRequest,
    out: Option<CompletionResult>,
) -> bool {
    if request.row != 0 || request.range.start != 1 {
        out is None
    } else {
        match out {
            None => false,
            Some(result) => {
                &&& result.range.start == request.range.start
                &&& result.range.end == request.range.end
                &&& result.status@ == CompletionStatus::<Seq<char>>::Ready
                &&& best_items(
                    result.items@,
                    request.pattern@,
                    command_words(commands),
                    command_items(commands),
                )
            },
        }
    }
}

/// What is offered of a list of commands.
pub fn complete_command(
    commands: &Vec<SlashCommand>,
    request: &CompletionRequest,
) -> (out: Option<CompletionResult>)
    ensures
        offers_commands(commands@, *request, out),
{
    if request.row != 0 || request.range.start != 1 {
        return None;
    }
    let mut words: Vec<String> = Vec::new();
    let mut i: usize = 0;
    while i < commands.len()
        invariant
            i <= commands@.len(),
            words@.len() == i,
            forall|k: int| 0 <= k < i ==> (#[trigger] words@[k])@ == command_word(commands@[k]),
        decreases commands@.len() - i,
    {
        words.push(owned(commands[i].as_ref()));
        i += 1;
    }
    assert(texts(words@) =~= command_words(commands@));
    let places = best_places(request.pattern.as_str(), &words);
    let ghost chosen = choose|chosen: Seq<usize>| #[trigger]
        ranked(request.pattern@, command_words(commands@), chosen) && places@ == if chosen.len()
            > crate::completion::MAX_SUGGESTIONS {
            chosen.take(crate::completion::MAX_SUGGESTIONS as int)
        } else {
            chosen
        };
    let mut items: Vec<CompletionItem> = Vec::new();
    let mut k: usize = 0;
    while k < places.len()
        invariant
            k <= places@.len(),
            items@.len() == k,
            forall|i: int| 0 <= i < places@.len() ==> #[trigger] places@[i] < commands@.len(),
            forall|i: int|
                0 <= i < k ==> (#[trigger] items@[i])@ == command_item(
                    commands@[places@[i] as int],
                ),
        decreases places@.len() - k,
    {
        let command = commands[places[k]];
        let item = CompletionItem {
            display: joined3(command.name().as_str(), " — ", command.description()),
            replacement: owned(command.as_ref()),
            accept: Accept::Complete,
        };
        items.push(item);
        k += 1;
    }
    proof {
        let shown = command_items(commands@);
        assert(ranked(request.pattern@, command_words(commands@), chosen));
        assert(item_views(items@) =~= first_items(chosen, shown));
    }
    Some(
        CompletionResult {
            range: request.range.start..request.range.end,
            status: CompletionStatus::Ready,
            items,
        },
    )
}

impl CompletionBackendV2 for CommandCompleterBackend {
    open spec fn trigger_char(&self) -> char {
        '/'
    }

    open spec fn offers(
        &self,
        request: CompletionRequest,
        context: CompletionContext,
        out: Option<CompletionResult>,
    ) -> bool {
        match context {
            CompletionContext::Commands(context) => offers_commands(
                context.commands@,
                request,
                out,
            ),
            _ => out is None,
        }
    }

    fn trigger(&self) -> (out: char) {
        '/'
    }

    fn complete(&self, request: &CompletionRequest, context: &CompletionContext) -> (out: Option<
        CompletionResult,
    >) {
        match context {
            CompletionContext::Commands(context) => complete_command(&context.commands, request),
            _ => None,
        }
    }
}

} // verus!
