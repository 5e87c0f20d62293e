//! The chat, its commands and its completions together.
use crate::agent::Agent;
use crate::chat::{
    entry_views, may_submit, showing, submitted, ChatController, Entry, ImageAttachment,
};
use crate::command::{all_commands, help_lines, parsed, SlashCommand};
use crate::completion::controller::{news_of, polled, CompletionController, ScanReply};
use crate::llm::Usage;
use crate::mode::{mode_after, Mode};
use crate::run::{Action, Run};
use crate::text::joined;
use vstd::prelude::*;

verus! {

/// What came of looking for news.
#[derive(Debug, Clone, Copy, PartialEq, Eq, Structural)]
pub enum Poll {
    Idle,
    Changed,
    Finished,
    Error,
    Aborted,
}

/// How much a piece of news weighs.
pub open spec fn weight(poll: Poll) -> nat {
    match poll {
        Poll::Idle => 0,
        Poll::Changed => 1,
        Poll::Finished => 2,
        Poll::Aborted => 3,
        Poll::Error => 4,
    }
}

/// The weightier of two pieces of news.
pub open spec fn weightier(a: Poll, b: Poll) -> Poll {
    if weight(a) < weight(b) {
        b
    } else {
        a
    }
}

impl Poll {
    /// The weightier of two pieces of news.
    pub fn combine(self, other: Poll) -> (out: Poll)
        ensures
            out == weightier(self, other),
    {
        match (self, other) {
            (Poll::Error, _) | (_, Poll::Error) => Poll::Error,
            (Poll::Aborted, _) | (_, Poll::Aborted) => Poll::Aborted,
            (Poll::Finished, _) | (_, Poll::Finished) => Poll::Finished,
            (Poll::Changed, _) | (_, Poll::Changed) => Poll::Changed,
            _ => Poll::Idle,
        }
    }
}

/// It does not matter in which order news is combined, nor how often.
pub proof fn news_combines_in_any_order(a: Poll, b: Poll, c: Poll)
    ensures
        weightier(a, b) == weightier(b, a),
        weightier(weightier(a, b), c) == weightier(a, weightier(b, c)),
        weightier(a, a) == a,
        weightier(a, Poll::Idle) == a,
{
}

/// What the prompt is doing, and so what Enter does to it.
#[derive(Debug, Clone, Copy, PartialEq, Eq, Structural)]
pub enum Activity {
    /// Streaming a response.
    Thinking,
    /// Offering completions, which take Enter before the editor sees it.
    Suggesting,
    /// Waiting on a prompt.
    Idle,
}

/// What a command asks of the root of the screen.
#[derive(Debug, Clone, Copy, PartialEq, Eq, Structural)]
pub struct CommandOutcome {
    pub quit: bool,
    pub open_login: bool,
}

/// What the editor hands on.
pub enum Command {
    Interrupt,
    Cancel,
    Submit { text: String, images: Vec<ImageAttachment> },
    TogglePlanMode,
    OpenLogin,
}

/// What came of submitting an input.
pub enum Submission {
    /// Nothing is to be done.
    Nothing,
    /// The login dialogue is to be opened.
    OpenLogin,
    /// A command that is carried out elsewhere.
    Command(SlashCommand),
    /// A run has started.
    Started(Run, Action),
}

/// What came of a command.
pub struct Handled {
    pub outcome: CommandOutcome,
    /// The run in flight is to be called off.
    pub abort: bool,
    pub submission: Submission,
}

/// The chat and the completions.
pub struct Controller {
    pub chat: ChatController,
    pub completion: CompletionController,
}

/// The mode that a command turns on.
pub open spec fn mode_of(command: SlashCommand) -> Option<Mode> {
    match command {
        SlashCommand::Plan => Some(Mode::Plan),
        SlashCommand::Review => Some(Mode::Review),
        SlashCommand::Normal => Some(Mode::Normal),
        _ => None,
    }
}

/// Whether this is what came of submitting an input. A command never starts a
/// run; an input that is no command is a prompt.
pub open spec fn submits(
    before: ChatController,
    text: Seq<char>,
    images: Seq<ImageAttachment>,
    after: ChatController,
    out: Submission,
) -> bool {
    match parsed(text) {
        Some(command) => match mode_of(command) {
            Some(mode) => {
                &&& out is Nothing
                &&& after@ == before@
                &&& after.agent == (Agent {
                    mode,
                    review_intro_pending: mode == Mode::Review,
                    ..before.agent
                })
            },
            None => if command == SlashCommand::Login {
                out is OpenLogin && after == before
            } else if command == SlashCommand::Help {
                &&& out is Nothing
                &&& after.agent == before.agent
                &&& after@ == showing(
                    before@,
                    before@.entries.push(
                        Entry::Info("**Commands**\n"@ + help_lines(all_commands().len())),
                    ),
                )
            } else {
                out == Submission::Command(command) && after == before
            },
        },
        None => match out {
            Submission::Started(run, action) => {
                &&& may_submit(before@, text, images.len())
                &&& submitted(before, text, images, after, run, action)
            },
            _ => out is Nothing && !may_submit(before@, text, images.len()) && after == before,
        },
    }
}

impl Controller {
    /// A chat with an agent, over the workspace `root`.
    pub fn new(agent: Agent, name: String, root: String) -> (out: Controller)
        ensures
            out.chat.agent == agent,
            out.chat@.entries == Seq::<Entry<Seq<char>>>::empty(),
            !out.chat@.busy,
            out.chat@.model_name == name@,
            !out.completion.open,
            out.completion.root == root,
            out.completion.state.items@.len() == 0,
    {
        Controller {
            chat: ChatController::new(agent, name),
            completion: CompletionController::with_root(root),
        }
    }

    /// What the prompt is doing. A streaming response outranks an open popup.
    pub fn activity(&self) -> (out: Activity)
        ensures
            out == if self.chat@.busy {
                Activity::Thinking
            } else if self.completion.state.items@.len() > 0 {
                Activity::Suggesting
            } else {
                Activity::Idle
            },
    {
        if self.chat.is_busy() {
            Activity::Thinking
        } else if self.completion.has_items() {
            Activity::Suggesting
        } else {
            Activity::Idle
        }
    }

    /// Submit an input: carry out a command, or put a prompt to the agent.
    pub fn submit(&mut self, text: String, images: Vec<ImageAttachment>) -> (out: Submission)
        ensures
            submits(old(self).chat, text@, images@, final(self).chat, out),
            final(self).completion == old(self).completion,
    {
        match SlashCommand::parse(text.as_str()) {
            Some(command) => match command {
                SlashCommand::Login => Submission::OpenLogin,
                SlashCommand::Plan => {
                    self.chat.set_mode(Mode::Plan);
                    Submission::Nothing
                },
                SlashCommand::Review => {
                    self.chat.set_mode(Mode::Review);
                    Submission::Nothing
                },
                SlashCommand::Normal => {
                    self.chat.set_mode(Mode::Normal);
                    Submission::Nothing
                },
                SlashCommand::Help => {
                    self.chat.push_info(SlashCommand::help());
                    Submission::Nothing
                },
                other => Submission::Command(other),
            },
            None => match self.chat.submit(text, images) {
                Some((run, action)) => Submission::Started(run, action),
                None => Submission::Nothing,
            },
        }
    }

    /// Carry out what the editor hands on. An interrupt calls off the run in
    /// flight, and quits where there is none.
    pub fn handle(&mut self, command: Command) -> (out: Handled)
        ensures
            final(self).completion == old(self).completion,
            match command {
                Command::Interrupt => {
                    &&& out.outcome == (CommandOutcome {
                        quit: !old(self).chat@.busy,
                        open_login: false,
                    })
                    &&& out.abort == old(self).chat@.busy
                    &&& out.submission is Nothing
                    &&& final(self).chat == old(self).chat
                },
                Command::Cancel | Command::OpenLogin => {
                    &&& out.outcome == (CommandOutcome { quit: false, open_login: false })
                    &&& !out.abort
                    &&& out.submission is Nothing
                    &&& final(self).chat == old(self).chat
                },
                Command::Submit { text, images } => {
                    &&& out.outcome == (CommandOutcome {
                        quit: false,
                        open_login: parsed(text@) == Some(SlashCommand::Login),
                    })
                    &&& !out.abort
                    &&& submits(
                        old(self).chat,
                        text@,
                        images@,
                        final(self).chat,
                        out.submission,
                    )
                },
                Command::TogglePlanMode => {
                    &&& out.outcome == (CommandOutcome { quit: false, open_login: false })
                    &&& !out.abort
                    &&& out.submission is Nothing
                    &&& final(self).chat@ == old(self).chat@
                    &&& final(self).chat.agent == (Agent {
                        mode: mode_after(old(self).chat.agent.mode),
                        review_intro_pending: mode_after(old(self).chat.agent.mode)
                            == Mode::Review,
                        ..old(self).chat.agent
                    })
                },
            },
    {
        let none = CommandOutcome { quit: false, open_login: false };
        match command {
            Command::Interrupt => {
                let busy = self.chat.is_busy();
                Handled {
                    outcome: CommandOutcome { quit: !busy, open_login: false },
                    abort: busy,
                    submission: Submission::Nothing,
                }
            },
            Command::Cancel | Command::OpenLogin => Handled {
                outcome: none,
                abort: false,
                submission: Submission::Nothing,
            },
            Command::Submit { text, images } => {
                let submission = self.submit(text, images);
                let open_login = match &submission {
                    Submission::OpenLogin => true,
                    _ => false,
                };
                Handled {
                    outcome: CommandOutcome { quit: false, open_login },
                    abort: false,
                    submission,
                }
            },
            Command::TogglePlanMode => {
                self.chat.toggle_mode();
                Handled { outcome: none, abort: false, submission: Submission::Nothing }
            },
        }
    }
}

impl Controller {
    /// The transcript.
    pub fn chat(&self) -> (out: &[Entry])
        ensures
            entry_views(out@) == self.chat@.entries,
    {
        self.chat.entries()
    }

    /// Changes with the transcript.
    pub fn chat_revision(&self) -> (out: u64)
        ensures
            out == self.chat@.revision,
    {
        self.chat.revision()
    }

    /// The mode of the agent.
    pub fn mode(&self) -> (out: Mode)
        ensures
            out == self.chat.agent.mode,
    {
        self.chat.mode()
    }

    /// The usage that is shown.
    pub fn usage(&self) -> (out: Usage)
        ensures
            out == self.chat@.usage,
    {
        self.chat.usage()
    }

    /// The agent.
    pub fn agent(&self) -> (out: &Agent)
        ensures
            *out == self.chat.agent,
    {
        &self.chat.agent
    }

    /// The completions.
    pub fn completion(&self) -> (out: &CompletionController)
        ensures
            *out == self.completion,
    {
        &self.completion
    }

    /// Take in what the chat has seen and what a scan has found.
    pub fn poll(&mut self, chat: Poll, reply: Option<ScanReply>) -> (out: Poll)
        ensures
            final(self).chat == old(self).chat,
            polled(old(self).completion, reply, final(self).completion),
            out == weightier(chat, news_of(old(self).completion, reply)),
    {
        chat.combine(self.completion.poll(reply))
    }

    /// Show a note.
    pub fn push_info(&mut self, text: String)
        ensures
            final(self).completion == old(self).completion,
            final(self).chat.agent == old(self).chat.agent,
            final(self).chat@ == showing(
                old(self).chat@,
                old(self).chat@.entries.push(Entry::Info(text@)),
            ),
    {
        self.chat.push_info(text)
    }

    /// Note that the user has signed in to a provider.
    pub fn login_done(&mut self, provider: &str)
        ensures
            final(self).completion == old(self).completion,
            final(self).chat.agent == old(self).chat.agent,
            final(self).chat@ == showing(
                old(self).chat@,
                old(self).chat@.entries.push(Entry::Info("Logged in to "@ + provider@)),
            ),
    {
        self.push_info(joined("Logged in to ", provider))
    }
}

/// A command never starts a run.
pub proof fn commands_start_no_run(
    before: ChatController,
    text: Seq<char>,
    images: Seq<ImageAttachment>,
    after: ChatController,
    out: Submission,
)
    requires
        submits(before, text, images, after, out),
        parsed(text) is Some,
    ensures
        !(out is Started),
        after@.busy == before@.busy,
{
}

/// Worse news hides better news, and any news hides none.
pub proof fn worse_news_comes_first(a: Poll, b: Poll)
    ensures
        a == Poll::Error || b == Poll::Error ==> weightier(a, b) == Poll::Error,
        weightier(Poll::Aborted, b) == if b == Poll::Error {
            b
        } else {
            Poll::Aborted
        },
        weightier(Poll::Finished, Poll::Changed) == Poll::Finished,
        weightier(a, b) == Poll::Idle <==> a == Poll::Idle && b == Poll::Idle,
        weightier(a, b) == a || weightier(a, b) == b,
{
}

/// Submitting a command for a mode turns that mode on and changes nothing else of the
/// conversation.
pub proof fn modes_are_turned_on(
    before: ChatController,
    text: Seq<char>,
    images: Seq<ImageAttachment>,
    after: ChatController,
    out: Submission,
)
    requires
        submits(before, text, images, after, out),
    ensures
        parsed(text) == Some(SlashCommand::Plan) ==> after.agent.mode == Mode::Plan,
        parsed(text) == Some(SlashCommand::Review) ==> after.agent.mode == Mode::Review
            && after.agent.review_intro_pending,
        parsed(text) == Some(SlashCommand::Normal) ==> after.agent.mode == Mode::Normal,
        parsed(text) is Some ==> after.agent.context == before.agent.context,
        parsed(text) is Some && parsed(text) != Some(SlashCommand::Plan) && parsed(text) != Some(
            SlashCommand::Review,
        ) && parsed(text) != Some(SlashCommand::Normal) ==> after.agent == before.agent,
{
}

/// What is no command starts a run wherever it may be submitted, and does nothing
/// elsewhere; a command that is carried out elsewhere is handed on.
pub proof fn inputs_are_prompts_or_commands(
    before: ChatController,
    text: Seq<char>,
    images: Seq<ImageAttachment>,
    after: ChatController,
    out: Submission,
)
    requires
        submits(before, text, images, after, out),
    ensures
        parsed(text) is None ==> (out is Started <==> may_submit(before@, text, images.len())),
        parsed(text) is None && !(out is Started) ==> after == before,
        parsed(text) == Some(SlashCommand::Login) <==> out is OpenLogin,
        out is Command ==> parsed(text) == Some(out->Command_0),
        parsed(text) == Some(SlashCommand::Quit) ==> out == Submission::Command(
            SlashCommand::Quit,
        ),
        parsed(text) == Some(SlashCommand::Help) ==> after@.entries.len() == before@.entries.len()
            + 1 && before@.entries.is_prefix_of(after@.entries),
{
    if parsed(text) == Some(SlashCommand::Help) {
        assert(before@.entries =~= after@.entries.take(before@.entries.len() as int));
    }
}

} // verus!
