//! One prompt's run: rounds of asking the model and running the tools it asks
//! for, until it gives a final answer.
//!
//! A [`Run`] decides; the program around it acts. Each [`Action`] names one
//! thing to do: save a message, open a stream, run a tool, report an event.
//! What came of it goes back in as an [`Outcome`], and the run says what is
//! next.
use crate::context::{
    has_tool, is_tool_index, llm_views, message_views, request_messages, AgentContext,
    AgentMessage, AgentMessageView, AgentTool,
};
use crate::error::AgentError;
use crate::llm::{
    call_views, part_views, session_options, usage_sum, ContentPart, ImageUrl, LlmResponse,
    Message, MessageView, RequestOptions, ResponseView, ToolCall, Usage,
};
use crate::mode::Mode;
use crate::prompt::{
    attach_working_directory, data_url, empty_prompt, image_data_url, image_description,
    image_note, message_has_content, partial_response, partial_view, placed_message, tail_lines,
    tail_text, validate_prompt_message,
};
use crate::skill::{skill_views, Skill};
use crate::text::{opt_text, same};
use vstd::prelude::*;

verus! {

/// What a run reports while it goes on.
#[derive(Debug, Clone, PartialEq)]
pub enum AgentEvent<S = String, R = Box<LlmResponse>> {
    TextDelta(S),
    ReasoningDelta(S),
    /// A message that was queued during the run has joined the conversation.
    SteerConsumed { text: S },
    ToolCallStarted { id: S, name: S, arguments: S },
    ToolCallFinished { id: S, output: S },
    ToolCallFailed { id: S, error: S },
    Usage { usage: Usage },
    Finished { usage: Usage, response: R },
}

/// The view of an event.
pub type EventView = AgentEvent<Seq<char>, ResponseView>;

impl View for AgentEvent {
    type V = AgentEvent<Seq<char>, ResponseView>;

    open spec fn view(&self) -> AgentEvent<Seq<char>, ResponseView> {
        match self {
            AgentEvent::TextDelta(text) => AgentEvent::TextDelta(text@),
            AgentEvent::ReasoningDelta(text) => AgentEvent::ReasoningDelta(text@),
            AgentEvent::SteerConsumed { text } => AgentEvent::SteerConsumed { text: text@ },
            AgentEvent::ToolCallStarted { id, name, arguments } => AgentEvent::ToolCallStarted {
                id: id@,
                name: name@,
                arguments: arguments@,
            },
            AgentEvent::ToolCallFinished { id, output } => AgentEvent::ToolCallFinished {
                id: id@,
                output: output@,
            },
            AgentEvent::ToolCallFailed { id, error } => AgentEvent::ToolCallFailed {
                id: id@,
                error: error@,
            },
            AgentEvent::Usage { usage } => AgentEvent::Usage { usage: *usage },
            AgentEvent::Finished { usage, response } => AgentEvent::Finished {
                usage: *usage,
                response: response@,
            },
        }
    }
}

/// What a model sends while it answers, as far as a run looks at it.
#[derive(Debug, Clone, PartialEq, Eq)]
pub enum LlmEvent<S = String> {
    TextDelta { text: S },
    ReasoningDelta { reasoning: S },
    Usage { usage: Usage },
    Other,
}

impl View for LlmEvent {
    type V = LlmEvent<Seq<char>>;

    open spec fn view(&self) -> LlmEvent<Seq<char>> {
        match self {
            LlmEvent::TextDelta { text } => LlmEvent::TextDelta { text: text@ },
            LlmEvent::ReasoningDelta { reasoning } => LlmEvent::ReasoningDelta {
                reasoning: reasoning@,
            },
            LlmEvent::Usage { usage } => LlmEvent::Usage { usage: *usage },
            LlmEvent::Other => LlmEvent::Other,
        }
    }
}

/// What a tool puts out.
#[derive(Debug, Clone, PartialEq, Eq)]
pub enum ToolOutput<S = String> {
    Text(S),
    Image { mime_type: S, data: S },
}

impl View for ToolOutput {
    type V = ToolOutput<Seq<char>>;

    open spec fn view(&self) -> ToolOutput<Seq<char>> {
        match self {
            ToolOutput::Text(text) => ToolOutput::Text(text@),
            ToolOutput::Image { mime_type, data } => ToolOutput::Image {
                mime_type: mime_type@,
                data: data@,
            },
        }
    }
}

/// Where a run stands: what it waits for.
#[derive(Debug, Clone, PartialEq)]
pub enum Stage<R = LlmResponse, V = AgentEvent, E = AgentError> {
    /// The session file.
    Session,
    /// The user's message to be saved.
    User,
    /// The model's stream to open.
    Opening,
    /// The next event of the stream, or its end.
    Streaming,
    /// The usage of a complete answer to be saved.
    Settling(R),
    /// The final answer to be saved.
    Concluding(R),
    /// The final answer to be reported.
    Finishing(R),
    /// An answer that asks for tools to be saved.
    Declaring,
    /// The start of a tool, at that place, to be reported.
    Starting(usize),
    /// The tool's output.
    Running,
    /// The tool's result to be saved; the event comes next.
    Recording(V),
    /// The tool's result to be reported.
    Reporting,
    /// The usage of a round that failed to be saved.
    SavingUsage(E),
    /// What came of an answer that broke off to be saved.
    SavingPartial(E),
    /// Nothing: the run is over.
    Over,
}

/// The view of a stage.
pub type StageView = Stage<
    ResponseView,
    AgentEvent<Seq<char>, ResponseView>,
    AgentError<Seq<char>>,
>;

impl View for Stage {
    type V = Stage<ResponseView, AgentEvent<Seq<char>, ResponseView>, AgentError<Seq<char>>>;

    open spec fn view(&self) -> Stage<
        ResponseView,
        AgentEvent<Seq<char>, ResponseView>,
        AgentError<Seq<char>>,
    > {
        match self {
            Stage::Session => Stage::Session,
            Stage::User => Stage::User,
            Stage::Opening => Stage::Opening,
            Stage::Streaming => Stage::Streaming,
            Stage::Settling(response) => Stage::Settling(response@),
            Stage::Concluding(response) => Stage::Concluding(response@),
            Stage::Finishing(response) => Stage::Finishing(response@),
            Stage::Declaring => Stage::Declaring,
            Stage::Starting(index) => Stage::Starting(*index),
            Stage::Running => Stage::Running,
            Stage::Recording(event) => Stage::Recording(event@),
            Stage::Reporting => Stage::Reporting,
            Stage::SavingUsage(error) => Stage::SavingUsage(error@),
            Stage::SavingPartial(error) => Stage::SavingPartial(error@),
            Stage::Over => Stage::Over,
        }
    }
}

/// One prompt on its way.
pub struct Run {
    pub stage: Stage,
    /// How many more times the model may be asked.
    pub rounds_left: usize,
    /// Whether the answer is reported as it comes in.
    pub stream: bool,
    /// The mode that the run was started in.
    pub mode: Mode,
    /// Identifies the conversation. Once there is a session it is the session's
    /// identifier.
    pub session_id: String,
    /// The text of the current answer so far.
    pub partial: String,
    /// The latest usage that the current round reported.
    pub round_usage: Option<Usage>,
    /// Whether the usage of the current round is already counted.
    pub round_usage_applied: bool,
    /// The message that joins the conversation once it is saved.
    pub pending: Option<AgentMessage>,
    /// The tools that the last answer asks for.
    pub calls: Vec<ToolCall>,
    /// How many of them have been run.
    pub at: usize,
}

/// The view of a [`Run`].
pub struct RunView {
    pub stage: StageView,
    pub rounds_left: nat,
    pub stream: bool,
    pub mode: Mode,
    pub session_id: Seq<char>,
    pub partial: Seq<char>,
    pub round_usage: Option<Usage>,
    pub round_usage_applied: bool,
    pub pending: Option<AgentMessageView>,
    pub calls: Seq<ToolCall<Seq<char>>>,
    pub at: nat,
}

impl View for Run {
    type V = RunView;

    open spec fn view(&self) -> RunView {
        RunView {
            stage: self.stage@,
            rounds_left: self.rounds_left as nat,
            stream: self.stream,
            mode: self.mode,
            session_id: self.session_id@,
            partial: self.partial@,
            round_usage: self.round_usage,
            round_usage_applied: self.round_usage_applied,
            pending: match self.pending {
                Some(message) => Some(message@),
                None => None,
            },
            calls: call_views(self.calls@),
            at: self.at as nat,
        }
    }
}

/// What the program is to do.
pub enum Action {
    /// Make sure that there is a session file to write to.
    OpenSession,
    /// Append a message to the session file.
    SaveMessage(AgentMessage),
    /// Append the conversation's usage to the session file.
    SaveUsage(Usage),
    /// Ask the model, offering the tools at these places.
    Request { messages: Vec<Message>, tools: Vec<usize>, options: RequestOptions },
    /// Wait for the stream.
    Await,
    /// Report an event.
    Emit(AgentEvent),
    /// Run the tool at this place.
    RunTool { index: usize, call: ToolCall },
    /// The run is over.
    Finish(Result<LlmResponse, AgentError>),
}

/// The view of an [`Action`].
pub enum ActionView {
    OpenSession,
    SaveMessage(AgentMessageView),
    SaveUsage(Usage),
    Request { messages: Seq<MessageView>, tools: Seq<usize>, options: RequestOptions<Seq<char>> },
    Await,
    Emit(EventView),
    RunTool { index: usize, call: ToolCall<Seq<char>> },
    Finish(Result<ResponseView, AgentError<Seq<char>>>),
}

impl View for Action {
    type V = ActionView;

    open spec fn view(&self) -> ActionView {
        match self {
            Action::OpenSession => ActionView::OpenSession,
            Action::SaveMessage(message) => ActionView::SaveMessage(message@),
            Action::SaveUsage(usage) => ActionView::SaveUsage(*usage),
            Action::Request { messages, tools, options } => ActionView::Request {
                messages: llm_views(messages@),
                tools: tools@,
                options: options@,
            },
            Action::Await => ActionView::Await,
            Action::Emit(event) => ActionView::Emit(event@),
            Action::RunTool { index, call } => ActionView::RunTool { index: *index, call: call@ },
            Action::Finish(Ok(response)) => ActionView::Finish(Ok(response@)),
            Action::Finish(Err(error)) => ActionView::Finish(Err(error@)),
        }
    }
}

/// What came of an action.
pub enum Outcome {
    /// It was done.
    Done,
    /// A session was made, and this is its identifier.
    Opened(String),
    /// It failed, or the run was called off meanwhile.
    Failed(AgentError),
    /// The stream sent an event.
    Event(LlmEvent),
    /// The stream ended, and this is the whole answer.
    Answer(LlmResponse),
    /// The tool put this out.
    Output(ToolOutput),
    /// The tool failed, and this is what it says.
    ToolError(String),
}

/// The view of an [`Outcome`].
pub enum OutcomeView {
    Done,
    Opened(Seq<char>),
    Failed(AgentError<Seq<char>>),
    Event(LlmEvent<Seq<char>>),
    Answer(ResponseView),
    Output(ToolOutput<Seq<char>>),
    ToolError(Seq<char>),
}

impl View for Outcome {
    type V = OutcomeView;

    open spec fn view(&self) -> OutcomeView {
        match self {
            Outcome::Done => OutcomeView::Done,
            Outcome::Opened(session_id) => OutcomeView::Opened(session_id@),
            Outcome::Failed(error) => OutcomeView::Failed(error@),
            Outcome::Event(event) => OutcomeView::Event(event@),
            Outcome::Answer(response) => OutcomeView::Answer(response@),
            Outcome::Output(output) => OutcomeView::Output(output@),
            Outcome::ToolError(text) => OutcomeView::ToolError(text@),
        }
    }
}

/// What can come of the action that a stage waits for.
pub open spec fn fits(stage: StageView, outcome: OutcomeView) -> bool {
    match outcome {
        OutcomeView::Failed(_) => !(stage is Over),
        OutcomeView::Done => !(stage is Running) && !(stage is Over),
        OutcomeView::Opened(_) => stage is Session,
        OutcomeView::Event(_) => stage is Streaming,
        OutcomeView::Answer(_) => stage is Streaming,
        OutcomeView::Output(_) => stage is Running,
        OutcomeView::ToolError(_) => stage is Running,
    }
}

/// The part of a context that a run reads and never changes.
pub struct SetupView {
    pub system_prompt: Option<Seq<char>>,
    pub skills: Seq<Skill<Seq<char>>>,
    pub tools: Seq<AgentTool>,
}

/// The part of a context that a run changes.
pub struct TalkView {
    pub messages: Seq<AgentMessageView>,
    pub usage: Usage,
}

/// What a run reads of a context.
pub open spec fn setup_of(context: AgentContext) -> SetupView {
    SetupView {
        system_prompt: opt_text(context.system_prompt),
        skills: skill_views(context.skills@),
        tools: context.tools@,
    }
}

/// What a run changes in a context.
pub open spec fn talk_of(context: AgentContext) -> TalkView {
    TalkView { messages: message_views(context.messages@), usage: context.usage }
}

/// Whether a tool may be used in a mode. Outside normal mode only tools that
/// change nothing may, and the shell.
pub open spec fn permitted(tool: AgentTool, mode: Mode) -> bool {
    mode == Mode::Normal || tool.read_only || tool.definition.name@ == "bash"@
}

/// The places of the tools among the first `n` that may be used.
pub open spec fn offered(tools: Seq<AgentTool>, mode: Mode, n: nat) -> Seq<usize>
    decreases n,
{
    if n == 0 {
        Seq::empty()
    } else if permitted(tools[n - 1], mode) {
        offered(tools, mode, (n - 1) as nat).push((n - 1) as usize)
    } else {
        offered(tools, mode, (n - 1) as nat)
    }
}

/// A run with what it decided, and the conversation after it.
pub struct Decision {
    pub run: RunView,
    pub talk: TalkView,
    pub action: ActionView,
}

/// End the run with an error, keeping the text of an answer that broke off.
pub open spec fn keep_partial(
    run: RunView,
    talk: TalkView,
    error: AgentError<Seq<char>>,
) -> Decision {
    if run.partial.len() > 0 {
        let message = AgentMessageView::Assistant(partial_view(run.partial));
        Decision {
            run: RunView {
                stage: Stage::SavingPartial(error),
                pending: Some(message),
                ..run
            },
            talk,
            action: ActionView::SaveMessage(message),
        }
    } else {
        over(run, talk, Err(error))
    }
}

/// The run is over.
pub open spec fn over(
    run: RunView,
    talk: TalkView,
    result: Result<ResponseView, AgentError<Seq<char>>>,
) -> Decision {
    Decision {
        run: RunView { stage: Stage::Over, pending: None, ..run },
        talk,
        action: ActionView::Finish(result),
    }
}

/// End the run with an error: first the usage of the broken round is counted,
/// then its text is kept.
pub open spec fn fail(
    run: RunView,
    talk: TalkView,
    error: AgentError<Seq<char>>,
) -> Decision {
    match run.round_usage {
        Some(usage) => if !run.round_usage_applied {
            let total = usage_sum(talk.usage, usage);
            Decision {
                run: RunView { stage: Stage::SavingUsage(error), pending: None, ..run },
                talk: TalkView { usage: total, ..talk },
                action: ActionView::SaveUsage(total),
            }
        } else {
            keep_partial(run, talk, error)
        },
        None => keep_partial(run, talk, error),
    }
}

/// Ask the model once more, where rounds are left and the run goes on.
pub open spec fn begin_round(
    run: RunView,
    talk: TalkView,
    setup: SetupView,
    cancelled: bool,
) -> Decision {
    if run.rounds_left == 0 {
        fail(run, talk, AgentError::MaxToolRounds)
    } else if cancelled {
        fail(run, talk, AgentError::Aborted)
    } else {
        Decision {
            run: RunView {
                stage: Stage::Opening,
                rounds_left: (run.rounds_left - 1) as nat,
                pending: None,
                ..run
            },
            talk,
            action: ActionView::Request {
                messages: request_messages(setup.system_prompt, setup.skills, talk.messages),
                tools: offered(setup.tools, run.mode, setup.tools.len()),
                options: session_options(run.session_id),
            },
        }
    }
}

/// The place of the first tool of that name.
pub open spec fn tool_place(tools: Seq<AgentTool>, name: Seq<char>) -> int {
    choose|index: int| is_tool_index(tools, name, index)
}

/// Start the next tool that the answer asks for, or the next round where there
/// is none. A run that was called off goes no further, and a tool that is
/// unknown or not permitted ends the run.
pub open spec fn next_call(
    run: RunView,
    talk: TalkView,
    setup: SetupView,
    cancelled: bool,
) -> Decision {
    if cancelled {
        fail(run, talk, AgentError::Aborted)
    } else if run.at >= run.calls.len() {
        begin_round(run, talk, setup, cancelled)
    } else {
        let call = run.calls[run.at as int];
        let index = tool_place(setup.tools, call.name);
        if has_tool(setup.tools, call.name) && permitted(setup.tools[index], run.mode) {
            Decision {
                run: RunView { stage: Stage::Starting(index as usize), pending: None, ..run },
                talk,
                action: ActionView::Emit(
                    AgentEvent::ToolCallStarted {
                        id: call.id,
                        name: call.name,
                        arguments: call.arguments,
                    },
                ),
            }
        } else {
            fail(run, talk, AgentError::ToolNotFound(call.name))
        }
    }
}

/// Save a whole answer: the last one, or one that asks for tools.
pub open spec fn settle(run: RunView, talk: TalkView, response: ResponseView) -> Decision {
    let calls = response.tool_calls();
    let message = AgentMessageView::Assistant(response);
    Decision {
        run: RunView {
            stage: if calls.len() == 0 {
                Stage::Concluding(response)
            } else {
                Stage::Declaring
            },
            pending: Some(message),
            calls,
            at: 0,
            ..run
        },
        talk,
        action: ActionView::SaveMessage(message),
    }
}

/// What a tool's output adds to the conversation.
pub open spec fn output_message(
    id: Seq<char>,
    output: ToolOutput<Seq<char>>,
) -> AgentMessageView {
    match output {
        ToolOutput::Text(text) => AgentMessageView::ToolResult {
            tool_call_id: id,
            content: text,
            content_parts: Seq::empty(),
        },
        ToolOutput::Image { mime_type, data } => AgentMessageView::ToolResult {
            tool_call_id: id,
            content: image_note(mime_type, data),
            content_parts: seq![
                ContentPart::Image { image_url: ImageUrl { url: data_url(mime_type, data) } },
            ],
        },
    }
}

/// The text of a tool's output.
pub open spec fn output_text(output: ToolOutput<Seq<char>>) -> Seq<char> {
    match output {
        ToolOutput::Text(text) => text,
        ToolOutput::Image { mime_type, data } => image_note(mime_type, data),
    }
}

/// Save a tool's result; the event is reported after it.
pub open spec fn record_result(
    run: RunView,
    talk: TalkView,
    message: AgentMessageView,
    event: EventView,
) -> Decision {
    Decision {
        run: RunView { stage: Stage::Recording(event), pending: Some(message), ..run },
        talk,
        action: ActionView::SaveMessage(message),
    }
}

/// The conversation with the pending message at its end.
pub open spec fn joined_by_pending(run: RunView, talk: TalkView) -> TalkView {
    match run.pending {
        Some(message) => TalkView { messages: talk.messages.push(message), ..talk },
        None => talk,
    }
}

/// Report an event of the stream where the run is streamed, else wait on.
pub open spec fn report(run: RunView, talk: TalkView, event: EventView) -> Decision {
    Decision {
        run,
        talk,
        action: if run.stream {
            ActionView::Emit(event)
        } else {
            ActionView::Await
        },
    }
}

/// Take in one event of the stream.
pub open spec fn take_event(run: RunView, talk: TalkView, event: LlmEvent<Seq<char>>) -> Decision {
    match event {
        LlmEvent::TextDelta { text } => report(
            RunView { partial: run.partial + text, ..run },
            talk,
            AgentEvent::TextDelta(text),
        ),
        LlmEvent::ReasoningDelta { reasoning } => report(
            run,
            talk,
            AgentEvent::ReasoningDelta(reasoning),
        ),
        LlmEvent::Usage { usage } => report(
            RunView { round_usage: Some(usage), ..run },
            talk,
            AgentEvent::Usage { usage: usage_sum(talk.usage, usage) },
        ),
        LlmEvent::Other => Decision { run, talk, action: ActionView::Await },
    }
}

/// Take in a whole answer: count its usage first, where it reports any.
pub open spec fn take_answer(run: RunView, talk: TalkView, response: ResponseView) -> Decision {
    match response.usage {
        Some(usage) => {
            let total = usage_sum(talk.usage, usage);
            Decision {
                run: RunView {
                    stage: Stage::Settling(response),
                    round_usage_applied: true,
                    ..run
                },
                talk: TalkView { usage: total, ..talk },
                action: ActionView::SaveUsage(total),
            }
        },
        None => settle(run, talk, response),
    }
}

/// What follows when the awaited action was done.
pub open spec fn after_done(
    run: RunView,
    talk: TalkView,
    setup: SetupView,
    cancelled: bool,
) -> Decision {
    let grown = joined_by_pending(run, talk);
    match run.stage {
        Stage::Session => Decision {
            run: RunView { stage: Stage::User, ..run },
            talk,
            action: match run.pending {
                Some(message) => ActionView::SaveMessage(message),
                None => ActionView::Await,
            },
        },
        Stage::User => begin_round(run, grown, setup, cancelled),
        Stage::Opening => Decision {
            run: RunView {
                stage: Stage::Streaming,
                partial: Seq::empty(),
                round_usage: None,
                round_usage_applied: false,
                ..run
            },
            talk,
            action: ActionView::Await,
        },
        Stage::Streaming => Decision { run, talk, action: ActionView::Await },
        Stage::Settling(response) => settle(run, talk, response),
        Stage::Concluding(response) => Decision {
            run: RunView { stage: Stage::Finishing(response), pending: None, ..run },
            talk: grown,
            action: ActionView::Emit(AgentEvent::Finished { usage: talk.usage, response }),
        },
        Stage::Finishing(response) => over(run, talk, Ok(response)),
        Stage::Declaring => next_call(run, grown, setup, cancelled),
        Stage::Starting(index) => Decision {
            run: RunView { stage: Stage::Running, ..run },
            talk,
            action: ActionView::RunTool { index, call: run.calls[run.at as int] },
        },
        Stage::Recording(event) => Decision {
            run: RunView { stage: Stage::Reporting, pending: None, ..run },
            talk: grown,
            action: ActionView::Emit(event),
        },
        Stage::Reporting => next_call(
            RunView { at: run.at + 1, ..run },
            talk,
            setup,
            cancelled,
        ),
        Stage::SavingUsage(error) => keep_partial(run, talk, error),
        Stage::SavingPartial(error) => over(run, grown, Err(error)),
        Stage::Running | Stage::Over => Decision { run, talk, action: ActionView::Await },
    }
}

/// What follows when the awaited action failed. Before the first round, and
/// while a failed run is being wound up, the run just ends.
pub open spec fn after_failure(
    run: RunView,
    talk: TalkView,
    error: AgentError<Seq<char>>,
) -> Decision {
    match run.stage {
        Stage::Session | Stage::User | Stage::SavingUsage(_) | Stage::SavingPartial(_) => over(
            run,
            talk,
            Err(error),
        ),
        _ => fail(run, talk, error),
    }
}

/// What a run decides on an outcome.
pub open spec fn decide(
    run: RunView,
    talk: TalkView,
    setup: SetupView,
    outcome: OutcomeView,
    cancelled: bool,
) -> Decision {
    match outcome {
        OutcomeView::Done => after_done(run, talk, setup, cancelled),
        OutcomeView::Opened(session_id) => after_done(
            RunView { session_id, ..run },
            talk,
            setup,
            cancelled,
        ),
        OutcomeView::Failed(error) => after_failure(run, talk, error),
        OutcomeView::Event(event) => take_event(run, talk, event),
        OutcomeView::Answer(response) => take_answer(run, talk, response),
        OutcomeView::Output(output) => {
            let id = run.calls[run.at as int].id;
            record_result(
                run,
                talk,
                output_message(id, output),
                AgentEvent::ToolCallFinished { id, output: tail_text(output_text(output), 5) },
            )
        },
        OutcomeView::ToolError(error) => {
            let id = run.calls[run.at as int].id;
            record_result(
                run,
                talk,
                AgentMessageView::ToolResult {
                    tool_call_id: id,
                    content: error,
                    content_parts: Seq::empty(),
                },
                AgentEvent::ToolCallFailed { id, error },
            )
        },
    }
}

/// Whether the end of the conversation is an answer that asks for `calls` and
/// the results of the first `done` of them, in order.
pub open spec fn answered(
    messages: Seq<AgentMessageView>,
    calls: Seq<ToolCall<Seq<char>>>,
    done: nat,
) -> bool {
    let head = messages.len() - done - 1;
    &&& head >= 0
    &&& done <= calls.len()
    &&& messages[head] is Assistant
    &&& messages[head]->Assistant_0.tool_calls() == calls
    &&& forall|k: int|
        0 <= k < done ==> {
            &&& (#[trigger] messages[head + 1 + k]) is ToolResult
            &&& messages[head + 1 + k]->ToolResult_tool_call_id == calls[k].id
        }
}

/// What holds of a run between any two steps.
pub open spec fn coherent(run: RunView, talk: TalkView, setup: SetupView) -> bool {
    match run.stage {
        Stage::Session | Stage::User => run.pending is Some,
        Stage::Opening | Stage::Streaming | Stage::Settling(_) | Stage::Over => true,
        Stage::Concluding(response) => {
            &&& response.tool_calls().len() == 0
            &&& run.pending == Some(AgentMessageView::Assistant(response))
        },
        Stage::Finishing(response) => {
            &&& response.tool_calls().len() == 0
            &&& talk.messages.len() > 0
            &&& talk.messages.last() == AgentMessageView::Assistant(response)
        },
        Stage::Declaring => {
            &&& run.pending is Some
            &&& run.pending->0 is Assistant
            &&& run.pending->0->Assistant_0.tool_calls() == run.calls
            &&& run.calls.len() > 0
            &&& run.at == 0
        },
        Stage::Starting(index) => {
            &&& run.at < run.calls.len()
            &&& answered(talk.messages, run.calls, run.at)
            &&& is_tool_index(setup.tools, run.calls[run.at as int].name, index as int)
            &&& permitted(setup.tools[index as int], run.mode)
        },
        Stage::Running => {
            &&& run.at < run.calls.len()
            &&& answered(talk.messages, run.calls, run.at)
        },
        Stage::Recording(_) => {
            &&& run.at < run.calls.len()
            &&& answered(talk.messages, run.calls, run.at)
            &&& run.pending is Some
            &&& run.pending->0 is ToolResult
            &&& run.pending->0->ToolResult_tool_call_id == run.calls[run.at as int].id
        },
        Stage::Reporting => {
            &&& run.at < run.calls.len()
            &&& answered(talk.messages, run.calls, run.at + 1)
        },
        Stage::SavingUsage(_) => true,
        Stage::SavingPartial(_) => run.pending == Some(
            AgentMessageView::Assistant(partial_view(run.partial)),
        ),
    }
}

/// What a step has made.
pub open spec fn made(out: (Run, Action), context: AgentContext) -> Decision {
    Decision { run: out.0@, talk: talk_of(context), action: out.1@ }
}

fn push_message(context: &mut AgentContext, message: AgentMessage)
    ensures
        talk_of(*final(context)) == (TalkView {
            messages: talk_of(*old(context)).messages.push(message@),
            ..talk_of(*old(context))
        }),
        setup_of(*final(context)) == setup_of(*old(context)),
{
    let ghost before = message_views(context.messages@);
    context.messages.push(message);
    assert(message_views(context.messages@) =~= before.push(message@));
}

impl Run {
    fn end(self, result: Result<LlmResponse, AgentError>) -> (out: (Run, Action))
        ensures
            out.0@ == (RunView { stage: Stage::Over, pending: None, ..self@ }),
            out.1@ == ActionView::Finish(
                match result {
                    Ok(response) => Ok(response@),
                    Err(error) => Err(error@),
                },
            ),
    {
        (Run { stage: Stage::Over, pending: None, ..self }, Action::Finish(result))
    }

    fn keep_partial(self, error: AgentError) -> (out: (Run, Action))
        ensures
            forall|talk: TalkView| #![trigger keep_partial(self@, talk, error@)]
                (Decision { run: out.0@, talk, action: out.1@ }) == keep_partial(
                    self@,
                    talk,
                    error@,
                ),
    {
        if !self.partial.as_str().is_empty() {
            let message = AgentMessage::Assistant(partial_response(self.partial.as_str()));
            let action = Action::SaveMessage(message.copy());
            (
                Run { stage: Stage::SavingPartial(error), pending: Some(message), ..self },
                action,
            )
        } else {
            self.end(Err(error))
        }
    }

    fn fail(self, context: &mut AgentContext, error: AgentError) -> (out: (Run, Action))
        ensures
            made(out, *final(context)) == fail(self@, talk_of(*old(context)), error@),
            setup_of(*final(context)) == setup_of(*old(context)),
    {
        match self.round_usage {
            Some(usage) => {
                if !self.round_usage_applied {
                    context.usage.accumulate(&usage);
                    let total = context.usage;
                    (
                        Run { stage: Stage::SavingUsage(error), pending: None, ..self },
                        Action::SaveUsage(total),
                    )
                } else {
                    self.keep_partial(error)
                }
            },
            None => self.keep_partial(error),
        }
    }

    fn offered_tools(&self, context: &AgentContext) -> (out: Vec<usize>)
        ensures
            out@ == offered(context.tools@, self.mode, context.tools@.len()),
    {
        let mut out: Vec<usize> = Vec::new();
        let mut i: usize = 0;
        while i < context.tools.len()
            invariant
                i <= context.tools@.len(),
                out@ == offered(context.tools@, self.mode, i as nat),
            decreases context.tools@.len() - i,
        {
            if self.permits(&context.tools[i]) {
                out.push(i);
            }
            i += 1;
        }
        out
    }

    fn permits(&self, tool: &AgentTool) -> (out: bool)
        ensures
            out == permitted(*tool, self.mode),
    {
        self.mode == Mode::Normal || tool.read_only || same(tool.definition.name.as_str(), "bash")
    }

    fn begin_round(self, context: &mut AgentContext, cancelled: bool) -> (out: (Run, Action))
        ensures
            made(out, *final(context)) == begin_round(
                self@,
                talk_of(*old(context)),
                setup_of(*old(context)),
                cancelled,
            ),
            setup_of(*final(context)) == setup_of(*old(context)),
    {
        if self.rounds_left == 0 {
            self.fail(context, AgentError::MaxToolRounds)
        } else if cancelled {
            self.fail(context, AgentError::Aborted)
        } else {
            let messages = context.build_messages();
            let tools = self.offered_tools(context);
            let options = RequestOptions::for_session(self.session_id.as_str());
            let rounds_left: usize = self.rounds_left - 1;
            (
                Run { stage: Stage::Opening, rounds_left, pending: None, ..self },
                Action::Request { messages, tools, options },
            )
        }
    }

    fn next_call(self, context: &mut AgentContext, cancelled: bool) -> (out: (Run, Action))
        ensures
            made(out, *final(context)) == next_call(
                self@,
                talk_of(*old(context)),
                setup_of(*old(context)),
                cancelled,
            ),
            setup_of(*final(context)) == setup_of(*old(context)),
    {
        if cancelled {
            self.fail(context, AgentError::Aborted)
        } else if self.at >= self.calls.len() {
            self.begin_round(context, cancelled)
        } else {
            let call = self.calls[self.at].copy();
            match context.tool_index(call.name.as_str()) {
                Some(index) => {
                    proof {
                        lemma_tool_place(context.tools@, call.name@, index as int);
                    }
                    if self.permits(&context.tools[index]) {
                        let event = AgentEvent::ToolCallStarted {
                            id: call.id,
                            name: call.name,
                            arguments: call.arguments,
                        };
                        (
                            Run { stage: Stage::Starting(index), pending: None, ..self },
                            Action::Emit(event),
                        )
                    } else {
                        self.fail(context, AgentError::ToolNotFound(call.name))
                    }
                },
                None => self.fail(context, AgentError::ToolNotFound(call.name)),
            }
        }
    }

    fn settle(self, response: LlmResponse) -> (out: (Run, Action))
        ensures
            forall|talk: TalkView| #![trigger settle(self@, talk, response@)]
                (Decision { run: out.0@, talk, action: out.1@ }) == settle(
                    self@,
                    talk,
                    response@,
                ),
    {
        let calls = response.tool_calls();
        let message = AgentMessage::Assistant(response.copy());
        let action = Action::SaveMessage(message.copy());
        let stage = if calls.len() == 0 {
            Stage::Concluding(response)
        } else {
            Stage::Declaring
        };
        (Run { stage, pending: Some(message), calls, at: 0, ..self }, action)
    }

    fn record_result(self, message: AgentMessage, event: AgentEvent) -> (out: (Run, Action))
        ensures
            forall|talk: TalkView| #![trigger record_result(self@, talk, message@, event@)]
                (Decision { run: out.0@, talk, action: out.1@ }) == record_result(
                    self@,
                    talk,
                    message@,
                    event@,
                ),
    {
        let action = Action::SaveMessage(message.copy());
        (Run { stage: Stage::Recording(event), pending: Some(message), ..self }, action)
    }

    fn report(self, event: AgentEvent) -> (out: (Run, Action))
        ensures
            forall|talk: TalkView| #![trigger report(self@, talk, event@)]
                (Decision { run: out.0@, talk, action: out.1@ }) == report(self@, talk, event@),
    {
        let action = if self.stream {
            Action::Emit(event)
        } else {
            Action::Await
        };
        (self, action)
    }

    fn take_event(self, context: &AgentContext, event: LlmEvent) -> (out: (Run, Action))
        ensures
            made(out, *context) == take_event(self@, talk_of(*context), event@),
    {
        match event {
            LlmEvent::TextDelta { text } => {
                let mut partial = self.partial;
                partial.push_str(text.as_str());
                Run { partial, ..self }.report(AgentEvent::TextDelta(text))
            },
            LlmEvent::ReasoningDelta { reasoning } => self.report(
                AgentEvent::ReasoningDelta(reasoning),
            ),
            LlmEvent::Usage { usage } => {
                let mut total = context.usage;
                total.accumulate(&usage);
                Run { round_usage: Some(usage), ..self }.report(AgentEvent::Usage { usage: total })
            },
            LlmEvent::Other => (self, Action::Await),
        }
    }

    fn take_answer(self, context: &mut AgentContext, response: LlmResponse) -> (out: (Run, Action))
        ensures
            made(out, *final(context)) == take_answer(self@, talk_of(*old(context)), response@),
            setup_of(*final(context)) == setup_of(*old(context)),
    {
        match response.usage {
            Some(usage) => {
                context.usage.accumulate(&usage);
                let total = context.usage;
                (
                    Run { stage: Stage::Settling(response), round_usage_applied: true, ..self },
                    Action::SaveUsage(total),
                )
            },
            None => self.settle(response),
        }
    }

    fn after_output(self, output: ToolOutput) -> (out: (Run, Action))
        requires
            self.at < self.calls@.len(),
        ensures
            forall|talk: TalkView, setup: SetupView, cancelled: bool|
                #![trigger decide(self@, talk, setup, OutcomeView::Output(output@), cancelled)]
                (Decision { run: out.0@, talk, action: out.1@ }) == decide(
                    self@,
                    talk,
                    setup,
                    OutcomeView::Output(output@),
                    cancelled,
                ),
    {
        let id = self.calls[self.at].id.clone();
        let mut content_parts: Vec<ContentPart> = Vec::new();
        assert(part_views(content_parts@) =~= Seq::empty());
        let content = match &output {
            ToolOutput::Text(text) => text.clone(),
            ToolOutput::Image { mime_type, data } => {
                let url = image_data_url(mime_type.as_str(), data.as_str());
                content_parts.push(ContentPart::Image { image_url: ImageUrl { url } });
                assert(part_views(content_parts@) =~= seq![
                    ContentPart::Image {
                        image_url: ImageUrl { url: data_url(mime_type@, data@) },
                    },
                ]);
                image_description(mime_type.as_str(), data.as_str())
            },
        };
        let tail = tail_lines(content.as_str(), 5);
        let event = AgentEvent::ToolCallFinished { id: id.clone(), output: tail };
        let message = AgentMessage::ToolResult { tool_call_id: id, content, content_parts };
        assert(message@ == output_message(id@, output@));
        self.record_result(message, event)
    }

    fn after_tool_error(self, error: String) -> (out: (Run, Action))
        requires
            self.at < self.calls@.len(),
        ensures
            forall|talk: TalkView, setup: SetupView, cancelled: bool|
                #![trigger decide(self@, talk, setup, OutcomeView::ToolError(error@), cancelled)]
                (Decision { run: out.0@, talk, action: out.1@ }) == decide(
                    self@,
                    talk,
                    setup,
                    OutcomeView::ToolError(error@),
                    cancelled,
                ),
    {
        let id = self.calls[self.at].id.clone();
        let content_parts: Vec<ContentPart> = Vec::new();
        assert(part_views(content_parts@) =~= Seq::empty());
        let event = AgentEvent::ToolCallFailed { id: id.clone(), error: error.clone() };
        let message = AgentMessage::ToolResult { tool_call_id: id, content: error, content_parts };
        self.record_result(message, event)
    }
}

pub proof fn lemma_tool_place(tools: Seq<AgentTool>, name: Seq<char>, index: int)
    requires
        is_tool_index(tools, name, index),
    ensures
        tool_place(tools, name) == index,
        has_tool(tools, name),
{
    let chosen = tool_place(tools, name);
    assert(is_tool_index(tools, name, chosen));
    assert(tools[index].definition.name@ == name);
    if chosen < index {
        assert(tools[chosen].definition.name@ != name);
    } else if index < chosen {
        assert(tools[index].definition.name@ != name);
    }
}

impl Run {
    /// Start a run for a user's message. It is refused where it carries
    /// nothing; the first message of a conversation tells where the project is.
    pub fn start(
        context: &AgentContext,
        message: AgentMessage,
        directory: &Option<String>,
        mode: Mode,
        stream: bool,
        max_tool_rounds: usize,
        session_id: String,
    ) -> (out: Result<(Run, Action), AgentError>)
        ensures
            match out {
                Ok((run, action)) => {
                    &&& message_has_content(message@)
                    &&& run@ == started(
                        placed_message(
                            message@,
                            context.messages@.len() == 0,
                            opt_text(*directory),
                        ),
                        mode,
                        stream,
                        max_tool_rounds as nat,
                        session_id@,
                    )
                    &&& action@ == ActionView::OpenSession
                },
                Err(error) => !message_has_content(message@) && error@ == empty_prompt(),
            },
    {
        match validate_prompt_message(&message) {
            Ok(_) => {},
            Err(error) => {
                return Err(error);
            },
        }
        let message = attach_working_directory(directory, &context.messages, message);
        let calls: Vec<ToolCall> = Vec::new();
        assert(call_views(calls@) =~= Seq::empty());
        let run = Run {
            stage: Stage::Session,
            rounds_left: max_tool_rounds,
            stream,
            mode,
            session_id,
            partial: String::new(),
            round_usage: None,
            round_usage_applied: false,
            pending: Some(message),
            calls,
            at: 0,
        };
        Ok((run, Action::OpenSession))
    }

    /// Take in what came of the last action, and decide what is next.
    pub fn advance(
        self,
        context: &mut AgentContext,
        outcome: Outcome,
        cancelled: bool,
    ) -> (out: (Run, Action))
        requires
            fits(self@.stage, outcome@),
            coherent(self@, talk_of(*old(context)), setup_of(*old(context))),
        ensures
            made(out, *final(context)) == decide(
                self@,
                talk_of(*old(context)),
                setup_of(*old(context)),
                outcome@,
                cancelled,
            ),
            setup_of(*final(context)) == setup_of(*old(context)),
            coherent(out.0@, talk_of(*final(context)), setup_of(*final(context))),
    {
        let tools = context.tools.len();
        assert(context.tools@.len() == tools);
        proof {
            steps_keep_runs_coherent(
                self@,
                talk_of(*context),
                setup_of(*context),
                outcome@,
                cancelled,
            );
        }
        match outcome {
            Outcome::Done => self.after_done(context, cancelled),
            Outcome::Opened(session_id) => Run { session_id, ..self }.after_done(
                context,
                cancelled,
            ),
            Outcome::Failed(error) => self.after_failure(context, error),
            Outcome::Event(event) => self.take_event(context, event),
            Outcome::Answer(response) => self.take_answer(context, response),
            Outcome::Output(output) => self.after_output(output),
            Outcome::ToolError(error) => self.after_tool_error(error),
        }
    }

    fn after_failure(self, context: &mut AgentContext, error: AgentError) -> (out: (Run, Action))
        ensures
            made(out, *final(context)) == after_failure(self@, talk_of(*old(context)), error@),
            setup_of(*final(context)) == setup_of(*old(context)),
    {
        match self.stage {
            Stage::Session | Stage::User | Stage::SavingUsage(_) | Stage::SavingPartial(_) => (
                Run { stage: Stage::Over, pending: None, ..self },
                Action::Finish(Err(error)),
            ),
            _ => self.fail(context, error),
        }
    }

    fn after_done(self, context: &mut AgentContext, cancelled: bool) -> (out: (Run, Action))
        requires
            fits(self@.stage, OutcomeView::Done),
            coherent(self@, talk_of(*old(context)), setup_of(*old(context))),
        ensures
            made(out, *final(context)) == after_done(
                self@,
                talk_of(*old(context)),
                setup_of(*old(context)),
                cancelled,
            ),
            setup_of(*final(context)) == setup_of(*old(context)),
    {
        let count = self.calls.len();
        assert(call_views(self.calls@).len() == count);
        match self.stage {
            Stage::Session => {
                let action = match &self.pending {
                    Some(message) => Action::SaveMessage(message.copy()),
                    None => Action::Await,
                };
                (Run { stage: Stage::User, ..self }, action)
            },
            Stage::User => {
                if let Some(message) = self.pending {
                    push_message(context, message);
                }
                Run { stage: Stage::User, pending: None, ..self }.begin_round(context, cancelled)
            },
            Stage::Opening => {
                let run = Run {
                    stage: Stage::Streaming,
                    partial: String::new(),
                    round_usage: None,
                    round_usage_applied: false,
                    ..self
                };
                (run, Action::Await)
            },
            Stage::Settling(response) => {
                let run = Run { stage: Stage::Streaming, ..self };
                assert(settle(run@, talk_of(*context), response@) == settle(
                    self@,
                    talk_of(*context),
                    response@,
                ));
                run.settle(response)
            },
            Stage::Concluding(response) => {
                if let Some(message) = self.pending {
                    push_message(context, message);
                }
                let event = AgentEvent::Finished {
                    usage: context.usage,
                    response: Box::new(response.copy()),
                };
                (
                    Run { stage: Stage::Finishing(response), pending: None, ..self },
                    Action::Emit(event),
                )
            },
            Stage::Finishing(response) => (
                Run { stage: Stage::Over, pending: None, ..self },
                Action::Finish(Ok(response)),
            ),
            Stage::Declaring => {
                if let Some(message) = self.pending {
                    push_message(context, message);
                }
                Run { stage: Stage::Declaring, pending: None, ..self }.next_call(
                    context,
                    cancelled,
                )
            },
            Stage::Starting(index) => {
                let call = self.calls[self.at].copy();
                (Run { stage: Stage::Running, ..self }, Action::RunTool { index, call })
            },
            Stage::Recording(event) => {
                if let Some(message) = self.pending {
                    push_message(context, message);
                }
                (Run { stage: Stage::Reporting, pending: None, ..self }, Action::Emit(event))
            },
            Stage::Reporting => {
                let at: usize = self.at + 1;
                Run { stage: Stage::Reporting, at, ..self }.next_call(context, cancelled)
            },
            Stage::SavingUsage(error) => {
                let run = Run { stage: Stage::Streaming, ..self };
                assert(keep_partial(run@, talk_of(*context), error@) == keep_partial(
                    self@,
                    talk_of(*context),
                    error@,
                ));
                run.keep_partial(error)
            },
            Stage::SavingPartial(error) => {
                if let Some(message) = self.pending {
                    push_message(context, message);
                }
                (Run { stage: Stage::Over, pending: None, ..self }, Action::Finish(Err(error)))
            },
            stage => (Run { stage, ..self }, Action::Await),
        }
    }
}

/// A run that has just been started for a message.
pub open spec fn started(
    message: AgentMessageView,
    mode: Mode,
    stream: bool,
    rounds: nat,
    session_id: Seq<char>,
) -> RunView {
    RunView {
        stage: Stage::Session,
        rounds_left: rounds,
        stream,
        mode,
        session_id,
        partial: Seq::empty(),
        round_usage: None,
        round_usage_applied: false,
        pending: Some(message),
        calls: Seq::empty(),
        at: 0,
    }
}

proof fn lemma_next_call_coherent(
    run: RunView,
    talk: TalkView,
    setup: SetupView,
    cancelled: bool,
)
    requires
        setup.tools.len() <= usize::MAX,
        answered(talk.messages, run.calls, run.at),
    ensures
        ({
            let next = next_call(run, talk, setup, cancelled);
            coherent(next.run, next.talk, setup)
        }),
{
    if run.at < run.calls.len() && !cancelled {
        let call = run.calls[run.at as int];
        if has_tool(setup.tools, call.name) {
            lemma_first_tool_exists(setup.tools, call.name);
        }
    }
}

pub proof fn lemma_first_tool_exists(tools: Seq<AgentTool>, name: Seq<char>)
    requires
        has_tool(tools, name),
    ensures
        is_tool_index(tools, name, tool_place(tools, name)),
    decreases tools.len(),
{
    let k = choose|k: int| 0 <= k < tools.len() && (#[trigger] tools[k]).definition.name@ == name;
    let shorter = tools.take(k);
    if has_tool(shorter, name) {
        lemma_first_tool_exists(shorter, name);
        let index = tool_place(shorter, name);
        assert forall|j: int| 0 <= j < index implies (#[trigger] tools[j]).definition.name@
            != name by {
            assert(shorter[j] == tools[j]);
        }
        assert(is_tool_index(tools, name, index));
    } else {
        assert forall|j: int| 0 <= j < k implies (#[trigger] tools[j]).definition.name@ != name by {
            assert(shorter[j] == tools[j]);
        }
        assert(is_tool_index(tools, name, k));
    }
}

/// Whatever comes of an action, a coherent run stays coherent. In particular
/// the results of an answer's tools join the conversation right after the
/// answer, one for each call, in the order of the calls.
pub proof fn steps_keep_runs_coherent(
    run: RunView,
    talk: TalkView,
    setup: SetupView,
    outcome: OutcomeView,
    cancelled: bool,
)
    requires
        setup.tools.len() <= usize::MAX,
        coherent(run, talk, setup),
        fits(run.stage, outcome),
    ensures
        ({
            let next = decide(run, talk, setup, outcome, cancelled);
            coherent(next.run, next.talk, setup)
        }),
{
    let grown = joined_by_pending(run, talk);
    match outcome {
        OutcomeView::Done => match run.stage {
            Stage::Declaring => {
                assert(grown.messages.last() == run.pending->0);
                assert(answered(grown.messages, run.calls, 0));
                lemma_next_call_coherent(run, grown, setup, cancelled);
            },
            Stage::Recording(_) => {
                let head = talk.messages.len() - run.at - 1;
                assert(grown.messages[head] == talk.messages[head]);
                assert forall|k: int| 0 <= k < run.at + 1 implies {
                    &&& (#[trigger] grown.messages[head + 1 + k]) is ToolResult
                    &&& grown.messages[head + 1 + k]->ToolResult_tool_call_id == run.calls[k].id
                } by {
                    if k < run.at {
                        assert(grown.messages[head + 1 + k] == talk.messages[head + 1 + k]);
                    }
                }
                assert(answered(grown.messages, run.calls, run.at + 1));
            },
            Stage::Reporting => {
                lemma_next_call_coherent(
                    RunView { at: run.at + 1, ..run },
                    talk,
                    setup,
                    cancelled,
                );
            },
            _ => {},
        },
        _ => {},
    }
}

/// A run that was just started is coherent.
pub proof fn started_runs_are_coherent(
    message: AgentMessageView,
    mode: Mode,
    stream: bool,
    rounds: nat,
    session_id: Seq<char>,
    talk: TalkView,
    setup: SetupView,
)
    ensures
        coherent(started(message, mode, stream, rounds, session_id), talk, setup),
{
}

/// Outside normal mode no tool is run that may change things, but for the
/// shell.
pub proof fn restricted_modes_run_only_permitted_tools(
    run: RunView,
    talk: TalkView,
    setup: SetupView,
    outcome: OutcomeView,
    cancelled: bool,
)
    requires
        coherent(run, talk, setup),
        fits(run.stage, outcome),
    ensures
        ({
            let action = decide(run, talk, setup, outcome, cancelled).action;
            action is RunTool ==> permitted(setup.tools[action->RunTool_index as int], run.mode)
        }),
{
}

/// The tools that are offered to the model are those that the mode permits,
/// each once, in order.
pub proof fn offered_tools_are_the_permitted_ones(tools: Seq<AgentTool>, mode: Mode, n: nat)
    requires
        n <= tools.len() <= usize::MAX,
    ensures
        forall|k: int| #![trigger tools[k]]
            0 <= k < n ==> (permitted(tools[k], mode) <==> offered(tools, mode, n).contains(
                k as usize,
            )),
        forall|i: int| 0 <= i < offered(tools, mode, n).len() ==> #[trigger] offered(
            tools,
            mode,
            n,
        )[i] < n,
        forall|i: int, j: int|
            0 <= i < j < offered(tools, mode, n).len() ==> offered(tools, mode, n)[i] < offered(
                tools,
                mode,
                n,
            )[j],
    decreases n,
{
    if n > 0 {
        let m = (n - 1) as nat;
        offered_tools_are_the_permitted_ones(tools, mode, m);
        let before = offered(tools, mode, m);
        let after = offered(tools, mode, n);
        assert forall|k: int| #![trigger tools[k]] 0 <= k < n implies (permitted(tools[k], mode)
            <==> after.contains(k as usize)) by {
            if k < m {
                if before.contains(k as usize) {
                    let i = choose|i: int| 0 <= i < before.len() && before[i] == k as usize;
                    assert(after[i] == k as usize);
                }
                if after.contains(k as usize) {
                    let i = choose|i: int| 0 <= i < after.len() && after[i] == k as usize;
                    assert(before[i] == k as usize);
                }
            } else if permitted(tools[k], mode) {
                assert(after[after.len() - 1] == k as usize);
            } else if after.contains(k as usize) {
                let i = choose|i: int| 0 <= i < after.len() && after[i] == k as usize;
                assert(before[i] < m);
            }
        }
    }
}

/// Each request to the model uses up one round and nothing else does, so a run
/// makes no more requests than it has rounds.
pub proof fn every_request_uses_up_a_round(
    run: RunView,
    talk: TalkView,
    setup: SetupView,
    outcome: OutcomeView,
    cancelled: bool,
)
    ensures
        ({
            let next = decide(run, talk, setup, outcome, cancelled);
            if next.action is Request {
                next.run.rounds_left + 1 == run.rounds_left
            } else {
                next.run.rounds_left == run.rounds_left
            }
        }),
{
}

/// Every request names the conversation that it belongs to, as its session and
/// as the key to what the provider keeps of it. A session that is made for the run
/// gives the conversation its identifier, and nothing else changes it.
pub proof fn every_request_names_the_conversation(
    run: RunView,
    talk: TalkView,
    setup: SetupView,
    outcome: OutcomeView,
    cancelled: bool,
)
    ensures
        ({
            let next = decide(run, talk, setup, outcome, cancelled);
            &&& next.action is Request ==> next.action->options == session_options(
                next.run.session_id,
            )
            &&& next.run.session_id == match outcome {
                OutcomeView::Opened(session_id) => session_id,
                _ => run.session_id,
            }
        }),
{
}

/// A step changes the conversation by at most one message at its end, and only
/// by the one that was handed out to be saved and has been.
pub proof fn conversations_only_grow_by_saved_messages(
    run: RunView,
    talk: TalkView,
    setup: SetupView,
    outcome: OutcomeView,
    cancelled: bool,
)
    ensures
        ({
            let next = decide(run, talk, setup, outcome, cancelled);
            ||| next.talk.messages == talk.messages
            ||| (outcome is Done || outcome is Opened) && run.pending is Some && next.talk.messages
                == talk.messages.push(run.pending->0)
        }),
        ({
            let next = decide(run, talk, setup, outcome, cancelled);
            next.action is SaveMessage ==> next.run.pending == Some(next.action->SaveMessage_0)
        }),
{
}

/// The usage that is saved is the usage of the conversation.
pub proof fn saved_usage_is_the_conversations(
    run: RunView,
    talk: TalkView,
    setup: SetupView,
    outcome: OutcomeView,
    cancelled: bool,
)
    ensures
        ({
            let next = decide(run, talk, setup, outcome, cancelled);
            &&& next.action is SaveUsage ==> next.action->SaveUsage_0 == next.talk.usage
            &&& !(next.action is SaveUsage) ==> next.talk.usage == talk.usage
        }),
{
}

/// A run that succeeds gives the answer that ends the conversation, and that
/// answer asks for no tool.
pub proof fn success_is_the_last_answer(
    run: RunView,
    talk: TalkView,
    setup: SetupView,
    outcome: OutcomeView,
    cancelled: bool,
)
    requires
        coherent(run, talk, setup),
        fits(run.stage, outcome),
    ensures
        ({
            let next = decide(run, talk, setup, outcome, cancelled);
            match next.action {
                ActionView::Finish(Ok(response)) => {
                    &&& response.tool_calls().len() == 0
                    &&& next.talk.messages.len() > 0
                    &&& next.talk.messages.last() == AgentMessageView::Assistant(response)
                },
                _ => true,
            }
        }),
{
}

/// When a run fails in the middle of an answer, the text that had come in is
/// saved before the run ends, and then ends the conversation.
pub proof fn failed_runs_keep_partial_answers(
    run: RunView,
    talk: TalkView,
    setup: SetupView,
    error: AgentError<Seq<char>>,
    cancelled: bool,
)
    requires
        run.stage is Streaming,
        run.partial.len() > 0,
    ensures
        ({
            let failed = decide(run, talk, setup, OutcomeView::Failed(error), cancelled);
            let kept = if failed.action is SaveUsage {
                decide(failed.run, failed.talk, setup, OutcomeView::Done, cancelled)
            } else {
                failed
            };
            let ended = decide(kept.run, kept.talk, setup, OutcomeView::Done, cancelled);
            &&& ended.talk.messages == talk.messages.push(
                AgentMessageView::Assistant(partial_view(run.partial)),
            )
            &&& ended.action == ActionView::Finish(Err(error))
        }),
{
}

} // verus!
