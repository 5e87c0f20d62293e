//! Completion of all slash commands.
use crate::command::{all_commands, SlashCommand};
use crate::completion::command_backend::{complete_command, offers_commands};
use crate::completion::{CompletionRequest, CompletionResult};
use vstd::prelude::*;

verus! {

/// The commands that are offered.
pub struct Commands {
    pub commands: Vec<SlashCommand>,
}

impl Default for Commands {
    fn default() -> (out: Commands)
        ensures
            out.commands@ == all_commands(),
    {
        Commands { commands: SlashCommand::all() }
    }
}

impl Commands {
    /// The character that a command starts with.
    pub fn trigger(&self) -> (out: char)
        ensures
            out == '/',
    {
        '/'
    }

    /// The completion offered at the cursor.
    pub fn complete(&self, request: &CompletionRequest) -> (out: Option<CompletionResult>)
        ensures
            offers_commands(self.commands@, *request, out),
    {
        complete_command(&self.commands, request)
    }
}

} // verus!
