//! The chat: the transcript that the user sees, and what the prompt is doing.
use crate::agent::{intro_due, Agent, Model};
use crate::context::{message_views, AgentMessage, AgentMessageView};
use crate::error::{agent_message, AgentError, ModelError};
use crate::llm::{
    call_views, image_views, no_usage, ImageUrl, ReasoningEffort, ResponseView, ToolCall, Usage,
};
use crate::mode::{mode_after, Mode};
use crate::prompt::{data_url, has_content, image_data_url, placed_message, prompt_text};
use crate::run::{started, Action, ActionView, AgentEvent, Run};
use crate::text::{is_blank, joined, opt_text, owned, same, trim, trimmed};
use vstd::prelude::*;

verus! {

/// An image attached to the next prompt.
#[derive(Debug, Clone, PartialEq, Eq)]
pub struct ImageAttachment {
    pub name: String,
    pub mime_type: String,
    /// The image in base64, without an address around it.
    pub base64_data: String,
}

/// What the prompt is doing, and so what Enter does to it.
#[derive(Debug, Clone, PartialEq, Eq)]
pub enum Activity<S = String> {
    /// Streaming a response.
    Thinking,
    /// An operation without the agent is in flight; this is its label.
    Loading(S),
    /// Waiting on a prompt.
    Idle,
}

impl View for Activity {
    type V = Activity<Seq<char>>;

    open spec fn view(&self) -> Activity<Seq<char>> {
        match self {
            Activity::Thinking => Activity::Thinking,
            Activity::Loading(label) => Activity::Loading(label@),
            Activity::Idle => Activity::Idle,
        }
    }
}

/// How far a tool has come.
#[derive(Debug, Clone, PartialEq, Eq)]
pub enum ToolStatus<S = String> {
    Running,
    Completed,
    Failed(S),
}

impl View for ToolStatus {
    type V = ToolStatus<Seq<char>>;

    open spec fn view(&self) -> ToolStatus<Seq<char>> {
        match self {
            ToolStatus::Running => ToolStatus::Running,
            ToolStatus::Completed => ToolStatus::Completed,
            ToolStatus::Failed(error) => ToolStatus::Failed(error@),
        }
    }
}

/// One entry of the transcript.
#[derive(Debug, Clone, PartialEq, Eq)]
pub enum Entry<S = String> {
    Prompt(S),
    Response(S),
    Reasoning(S),
    Info(S),
    ToolCall { id: S, name: S, arguments: S, output: S, status: ToolStatus<S> },
    Error(S),
}

impl View for Entry {
    type V = Entry<Seq<char>>;

    open spec fn view(&self) -> Entry<Seq<char>> {
        match self {
            Entry::Prompt(text) => Entry::Prompt(text@),
            Entry::Response(text) => Entry::Response(text@),
            Entry::Reasoning(text) => Entry::Reasoning(text@),
            Entry::Info(text) => Entry::Info(text@),
            Entry::ToolCall { id, name, arguments, output, status } => Entry::ToolCall {
                id: id@,
                name: name@,
                arguments: arguments@,
                output: output@,
                status: status@,
            },
            Entry::Error(text) => Entry::Error(text@),
        }
    }
}

/// A transcript.
pub type Transcript = Seq<Entry<Seq<char>>>;

/// The view of a transcript.
pub open spec fn entry_views(entries: Seq<Entry>) -> Seq<Entry<Seq<char>>> {
    entries.map_values(|e: Entry| e@)
}

/// A transcript with `delta` added to the response at its end, or as a new
/// response where there is none.
pub open spec fn with_delta(entries: Transcript, delta: Seq<char>) -> Transcript {
    if delta.len() == 0 {
        entries
    } else if entries.len() > 0 && entries.last() is Response {
        entries.update(
            entries.len() - 1,
            Entry::Response(entries.last()->Response_0 + delta),
        )
    } else {
        entries.push(Entry::Response(delta))
    }
}

/// A transcript with `delta` added to the reasoning at its end, or as a new
/// reasoning where there is none.
pub open spec fn with_reasoning(entries: Transcript, delta: Seq<char>) -> Transcript {
    if delta.len() == 0 {
        entries
    } else if entries.len() > 0 && entries.last() is Reasoning {
        entries.update(
            entries.len() - 1,
            Entry::Reasoning(entries.last()->Reasoning_0 + delta),
        )
    } else {
        entries.push(Entry::Reasoning(delta))
    }
}

/// A transcript that ends in a response, be it an empty one.
pub open spec fn with_response(entries: Transcript) -> Transcript {
    if entries.len() > 0 && entries.last() is Response {
        entries
    } else {
        entries.push(Entry::Response(Seq::empty()))
    }
}

/// Whether an entry is the tool call of that identifier.
pub open spec fn is_call(entry: Entry<Seq<char>>, id: Seq<char>) -> bool {
    entry is ToolCall && entry->ToolCall_id == id
}

/// Where the first call of that identifier stands; the length of the transcript
/// where there is none.
pub open spec fn first_call(entries: Transcript, id: Seq<char>) -> nat
    decreases entries.len(),
{
    if entries.len() == 0 || is_call(entries[0], id) {
        0
    } else {
        1 + first_call(entries.drop_first(), id)
    }
}

/// Where the last call of that identifier stands; -1 where there is none.
pub open spec fn last_call(entries: Transcript, id: Seq<char>) -> int
    decreases entries.len(),
{
    if entries.len() == 0 {
        -1
    } else if is_call(entries.last(), id) {
        entries.len() - 1
    } else {
        last_call(entries.drop_last(), id)
    }
}

/// A transcript with the first call of that identifier brought up to date.
pub open spec fn with_outcome(
    entries: Transcript,
    id: Seq<char>,
    output: Seq<char>,
    status: ToolStatus<Seq<char>>,
) -> Transcript {
    let at = first_call(entries, id) as int;
    if at < entries.len() {
        entries.update(
            at,
            Entry::ToolCall {
                id,
                name: entries[at]->ToolCall_name,
                arguments: entries[at]->ToolCall_arguments,
                output,
                status,
            },
        )
    } else {
        entries
    }
}

/// A transcript with the output of the last call of that identifier.
pub open spec fn with_output(
    entries: Transcript,
    id: Seq<char>,
    output: Seq<char>,
) -> Transcript {
    let at = last_call(entries, id);
    if at >= 0 {
        entries.update(
            at,
            Entry::ToolCall {
                id,
                name: entries[at]->ToolCall_name,
                arguments: entries[at]->ToolCall_arguments,
                output,
                status: entries[at]->ToolCall_status,
            },
        )
    } else {
        entries
    }
}

proof fn lemma_first_call(entries: Transcript, id: Seq<char>)
    ensures
        first_call(entries, id) <= entries.len(),
        forall|i: int| 0 <= i < first_call(entries, id) ==> !is_call(#[trigger] entries[i], id),
        first_call(entries, id) < entries.len() ==> is_call(
            entries[first_call(entries, id) as int],
            id,
        ),
    decreases entries.len(),
{
    if entries.len() > 0 && !is_call(entries[0], id) {
        let rest = entries.drop_first();
        lemma_first_call(rest, id);
        assert forall|i: int| 0 <= i < first_call(entries, id) implies !is_call(
            #[trigger] entries[i],
            id,
        ) by {
            if i > 0 {
                assert(rest[i - 1] == entries[i]);
            }
        }
    }
}

pub proof fn lemma_first_call_is(entries: Transcript, id: Seq<char>, n: int)
    requires
        0 <= n <= entries.len(),
        forall|i: int| 0 <= i < n ==> !is_call(#[trigger] entries[i], id),
        n < entries.len() ==> is_call(entries[n], id),
    ensures
        first_call(entries, id) == n,
{
    lemma_first_call(entries, id);
    let m = first_call(entries, id) as int;
    if m < n {
        assert(!is_call(entries[m], id));
    } else if n < m {
        assert(!is_call(entries[n], id));
    }
}

pub proof fn lemma_last_call(entries: Transcript, id: Seq<char>)
    ensures
        -1 <= last_call(entries, id) < entries.len(),
        last_call(entries, id) >= 0 ==> is_call(entries[last_call(entries, id)], id),
        forall|i: int|
            last_call(entries, id) < i < entries.len() ==> !is_call(#[trigger] entries[i], id),
    decreases entries.len(),
{
    if entries.len() > 0 && !is_call(entries.last(), id) {
        let rest = entries.drop_last();
        lemma_last_call(rest, id);
        assert forall|i: int| last_call(entries, id) < i < entries.len() implies !is_call(
            #[trigger] entries[i],
            id,
        ) by {
            if i < rest.len() {
                assert(rest[i] == entries[i]);
            }
        }
    }
}

proof fn lemma_last_call_is(entries: Transcript, id: Seq<char>, n: int)
    requires
        -1 <= n < entries.len(),
        forall|i: int| n < i < entries.len() ==> !is_call(#[trigger] entries[i], id),
        n >= 0 ==> is_call(entries[n], id),
    ensures
        last_call(entries, id) == n,
    decreases entries.len(),
{
    if entries.len() > 0 && n < entries.len() - 1 {
        let rest = entries.drop_last();
        assert(!is_call(entries[entries.len() - 1], id));
        assert forall|i: int| n < i < rest.len() implies !is_call(#[trigger] rest[i], id) by {
            assert(entries[i] == rest[i]);
        }
        lemma_last_call_is(rest, id, n);
    }
}

/// The entries for the tools that an answer asks for.
pub open spec fn call_entries(calls: Seq<ToolCall<Seq<char>>>) -> Transcript {
    calls.map_values(
        |call: ToolCall<Seq<char>>|
            Entry::ToolCall {
                id: call.id,
                name: call.name,
                arguments: call.arguments,
                output: Seq::empty(),
                status: ToolStatus::Completed,
            },
    )
}

/// The entries for an answer: its reasoning, its tools and its text, as far as
/// each is there.
pub open spec fn answer_entries(response: ResponseView) -> Transcript {
    let thought: Transcript = match response.reasoning {
        Some(text) => if text.len() > 0 {
            seq![Entry::Reasoning(text)]
        } else {
            Seq::empty()
        },
        None => Seq::empty(),
    };
    let said: Transcript = if response.text().len() > 0 {
        seq![Entry::Response(response.text())]
    } else {
        Seq::empty()
    };
    thought + call_entries(response.tool_calls()) + said
}

/// A transcript after one message of a restored conversation.
pub open spec fn with_message(entries: Transcript, message: AgentMessageView) -> Transcript {
    match message {
        AgentMessageView::User { text, .. } => entries.push(Entry::Prompt(text)),
        AgentMessageView::Assistant(response) => entries + answer_entries(response),
        AgentMessageView::ToolResult { tool_call_id, content, .. } => with_output(
            entries,
            tool_call_id,
            content,
        ),
    }
}

/// The transcript of a conversation.
pub open spec fn transcript_of(messages: Seq<AgentMessageView>) -> Transcript
    decreases messages.len(),
{
    if messages.len() == 0 {
        Seq::empty()
    } else {
        with_message(transcript_of(messages.drop_last()), messages.last())
    }
}

/// The chat and the agent behind it.
pub struct ChatController {
    pub agent: Agent,
    pub entries: Vec<Entry>,
    /// Whether a run is in flight.
    pub busy: bool,
    /// The label of an operation that blocks input, while one is in flight.
    pub loading: Option<String>,
    /// Changes with whatever is shown, so that a reader knows when to look.
    pub revision: u64,
    pub usage: Usage,
    pub model_name: String,
    /// The message that is queued for the run in flight, as it is shown.
    pub steering: Option<String>,
    /// The size of the model's context; `None` where it is not known.
    pub max_context: Option<u64>,
    pub reasoning_effort: ReasoningEffort,
}

/// What is shown of a [`ChatController`].
pub struct ChatView {
    pub entries: Transcript,
    pub busy: bool,
    pub loading: Option<Seq<char>>,
    pub revision: u64,
    pub usage: Usage,
    pub model_name: Seq<char>,
    pub steering: Option<Seq<char>>,
    pub max_context: Option<u64>,
    pub reasoning_effort: ReasoningEffort,
}

impl View for ChatController {
    type V = ChatView;

    open spec fn view(&self) -> ChatView {
        ChatView {
            entries: entry_views(self.entries@),
            busy: self.busy,
            loading: opt_text(self.loading),
            revision: self.revision,
            usage: self.usage,
            model_name: self.model_name@,
            steering: opt_text(self.steering),
            max_context: self.max_context,
            reasoning_effort: self.reasoning_effort,
        }
    }
}

/// The next revision.
pub open spec fn revised(revision: u64) -> u64 {
    vstd::wrapping::u64_specs::wrapping_add(revision, 1)
}

/// The chat with another transcript, and with the next revision.
pub open spec fn showing(chat: ChatView, entries: Transcript) -> ChatView {
    ChatView { entries, revision: revised(chat.revision), ..chat }
}

/// The chat with another transcript, and with the next revision where that
/// changed something.
pub open spec fn shown_if(chat: ChatView, changed: bool, entries: Transcript) -> ChatView {
    if changed {
        showing(chat, entries)
    } else {
        chat
    }
}

/// What the user is told of an error.
pub open spec fn shown_error(error: AgentError<Seq<char>>) -> Seq<char> {
    match error {
        AgentError::Model(ModelError::MissingAuth) => "Please login to use the model"@,
        _ => agent_message(error),
    }
}

/// The chat after an event of the run, or after its error. A run that was
/// called off says nothing.
pub open spec fn after_event(
    chat: ChatView,
    result: Result<AgentEvent<Seq<char>, ResponseView>, AgentError<Seq<char>>>,
) -> ChatView {
    match result {
        Ok(AgentEvent::TextDelta(text)) => shown_if(
            chat,
            text.len() > 0,
            with_delta(chat.entries, text),
        ),
        Ok(AgentEvent::ReasoningDelta(text)) => shown_if(
            chat,
            text.len() > 0,
            with_reasoning(chat.entries, text),
        ),
        Ok(AgentEvent::SteerConsumed { text }) => ChatView {
            steering: None,
            ..showing(chat, chat.entries.push(Entry::Prompt(text)))
        },
        Ok(AgentEvent::ToolCallStarted { id, name, arguments }) => showing(
            chat,
            chat.entries.push(
                Entry::ToolCall {
                    id,
                    name,
                    arguments,
                    output: Seq::empty(),
                    status: ToolStatus::Running,
                },
            ),
        ),
        Ok(AgentEvent::ToolCallFinished { id, output }) => shown_if(
            chat,
            first_call(chat.entries, id) < chat.entries.len(),
            with_outcome(chat.entries, id, output, ToolStatus::Completed),
        ),
        Ok(AgentEvent::ToolCallFailed { id, error }) => shown_if(
            chat,
            first_call(chat.entries, id) < chat.entries.len(),
            with_outcome(chat.entries, id, Seq::empty(), ToolStatus::Failed(error)),
        ),
        Ok(AgentEvent::Usage { usage }) => ChatView { usage, ..showing(chat, chat.entries) },
        Ok(AgentEvent::Finished { usage, .. }) => ChatView {
            usage,
            busy: false,
            ..showing(chat, with_response(chat.entries))
        },
        Err(AgentError::Aborted) => ChatView { busy: false, ..chat },
        Err(error) => ChatView {
            busy: false,
            ..showing(chat, chat.entries.push(Entry::Error(shown_error(error))))
        },
    }
}

/// The view of an event of a run, or of its error.
pub open spec fn event_result(result: Result<AgentEvent, AgentError>) -> Result<
    AgentEvent<Seq<char>, ResponseView>,
    AgentError<Seq<char>>,
> {
    match result {
        Ok(event) => Ok(event@),
        Err(error) => Err(error@),
    }
}

/// Whether a prompt may be submitted now.
pub open spec fn may_submit(chat: ChatView, text: Seq<char>, images: nat) -> bool {
    has_content(text, images) && !chat.busy && chat.loading is None
}

/// The addresses of attached images.
pub open spec fn attachment_urls(images: Seq<ImageAttachment>) -> Seq<ImageUrl<Seq<char>>> {
    images.map_values(
        |i: ImageAttachment| ImageUrl { url: data_url(i.mime_type@, i.base64_data@) },
    )
}

fn push_entry(entries: &mut Vec<Entry>, entry: Entry)
    ensures
        entry_views(final(entries)@) == entry_views(old(entries)@).push(entry@),
{
    let ghost before = entry_views(entries@);
    entries.push(entry);
    assert(entry_views(entries@) =~= before.push(entry@));
}

fn append_delta(entries: &mut Vec<Entry>, delta: &str) -> (changed: bool)
    ensures
        changed == (delta@.len() > 0),
        entry_views(final(entries)@) == with_delta(entry_views(old(entries)@), delta@),
{
    if delta.is_empty() {
        return false;
    }
    let ghost before = entry_views(entries@);
    let n = entries.len();
    if n > 0 {
        if let Entry::Response(text) = &mut entries[n - 1] {
            text.push_str(delta);
            assert(entry_views(entries@) =~= with_delta(before, delta@));
            return true;
        }
    }
    push_entry(entries, Entry::Response(owned(delta)));
    true
}

fn append_reasoning(entries: &mut Vec<Entry>, delta: &str) -> (changed: bool)
    ensures
        changed == (delta@.len() > 0),
        entry_views(final(entries)@) == with_reasoning(entry_views(old(entries)@), delta@),
{
    if delta.is_empty() {
        return false;
    }
    let ghost before = entry_views(entries@);
    let n = entries.len();
    if n > 0 {
        if let Entry::Reasoning(text) = &mut entries[n - 1] {
            text.push_str(delta);
            assert(entry_views(entries@) =~= with_reasoning(before, delta@));
            return true;
        }
    }
    push_entry(entries, Entry::Reasoning(owned(delta)));
    true
}

fn ensure_response_entry(entries: &mut Vec<Entry>)
    ensures
        entry_views(final(entries)@) == with_response(entry_views(old(entries)@)),
{
    let n = entries.len();
    if n > 0 {
        if let Entry::Response(_) = &entries[n - 1] {
            return;
        }
    }
    let text = String::new();
    assert(text@ =~= Seq::empty());
    push_entry(entries, Entry::Response(text));
}

fn names_call(entry: &Entry, id: &str) -> (out: bool)
    ensures
        out == is_call(entry@, id@),
{
    match entry {
        Entry::ToolCall { id: own, .. } => same(own.as_str(), id),
        _ => false,
    }
}

fn update_tool_call(
    entries: &mut Vec<Entry>,
    id: &str,
    output: String,
    status: ToolStatus,
) -> (changed: bool)
    ensures
        changed == (first_call(entry_views(old(entries)@), id@) < old(entries)@.len()),
        entry_views(final(entries)@) == with_outcome(
            entry_views(old(entries)@),
            id@,
            output@,
            status@,
        ),
{
    let ghost before = entry_views(entries@);
    let mut i: usize = 0;
    while i < entries.len() && !names_call(&entries[i], id)
        invariant
            i <= entries@.len(),
            before == entry_views(entries@),
            entries@ == old(entries)@,
            forall|k: int| 0 <= k < i ==> !is_call(#[trigger] before[k], id@),
        decreases entries@.len() - i,
    {
        i += 1;
    }
    proof {
        lemma_first_call_is(before, id@, i as int);
    }
    if i >= entries.len() {
        return false;
    }
    if let Entry::ToolCall { output: entry_output, status: entry_status, .. } = &mut entries[i] {
        *entry_output = output;
        *entry_status = status;
    }
    assert(entry_views(entries@) =~= with_outcome(before, id@, output@, status@));
    true
}

fn set_output(entries: &mut Vec<Entry>, id: &str, output: String)
    ensures
        entry_views(final(entries)@) == with_output(entry_views(old(entries)@), id@, output@),
{
    let ghost before = entry_views(entries@);
    let mut after: usize = entries.len();
    while after > 0 && !names_call(&entries[after - 1], id)
        invariant
            after <= entries@.len(),
            before == entry_views(entries@),
            entries@ == old(entries)@,
            forall|k: int| after <= k < entries@.len() ==> !is_call(#[trigger] before[k], id@),
        decreases after,
    {
        after -= 1;
    }
    proof {
        lemma_last_call_is(before, id@, after - 1);
    }
    if after == 0 {
        return;
    }
    if let Entry::ToolCall { output: entry_output, .. } = &mut entries[after - 1] {
        *entry_output = output;
    }
    assert(entry_views(entries@) =~= with_output(before, id@, output@));
}

fn push_message_entries(entries: &mut Vec<Entry>, message: &AgentMessage)
    ensures
        entry_views(final(entries)@) == with_message(entry_views(old(entries)@), message@),
{
    match message {
        AgentMessage::User { text, .. } => push_entry(entries, Entry::Prompt(text.clone())),
        AgentMessage::Assistant(response) => {
            let ghost start = entry_views(entries@);
            if let Some(reasoning) = &response.reasoning {
                if !reasoning.as_str().is_empty() {
                    push_entry(entries, Entry::Reasoning(reasoning.clone()));
                }
            }
            let ghost thought = entry_views(entries@);
            let calls = response.tool_calls();
            let ghost views = call_views(calls@);
            let mut i: usize = 0;
            assert(thought + call_entries(views.take(0)) =~= thought);
            while i < calls.len()
                invariant
                    i <= calls@.len(),
                    views == call_views(calls@),
                    entry_views(entries@) == thought + call_entries(views.take(i as int)),
                decreases calls@.len() - i,
            {
                let call = &calls[i];
                let output = String::new();
                assert(output@ =~= Seq::empty());
                let entry = Entry::ToolCall {
                    id: call.id.clone(),
                    name: call.name.clone(),
                    arguments: call.arguments.clone(),
                    output,
                    status: ToolStatus::Completed,
                };
                push_entry(entries, entry);
                assert(thought + call_entries(views.take(i as int + 1)) =~= (thought + call_entries(
                    views.take(i as int),
                )).push(entry@));
                i += 1;
            }
            assert(views.take(i as int) =~= views);
            let text = response.text();
            if !text.as_str().is_empty() {
                push_entry(entries, Entry::Response(text));
            }
            assert(entry_views(entries@) =~= start + answer_entries(response@));
        },
        AgentMessage::ToolResult { tool_call_id, content, .. } => set_output(
            entries,
            tool_call_id.as_str(),
            content.clone(),
        ),
    }
}

/// Whether this is a chat after a prompt was submitted: the prompt is shown, no
/// message is queued, and a run has started that puts the prompt to the agent.
pub open spec fn submitted(
    before: ChatController,
    text: Seq<char>,
    images: Seq<ImageAttachment>,
    after: ChatController,
    run: Run,
    action: Action,
) -> bool {
    &&& after@ == (ChatView {
        busy: true,
        steering: None,
        ..showing(before@, before@.entries.push(Entry::Prompt(trimmed(text))))
    })
    &&& after.agent == (Agent {
        pending_steer: None,
        review_intro_pending: before.agent.review_intro_pending && before.agent.mode
            != Mode::Review,
        ..before.agent
    })
    &&& run@ == started(
        placed_message(
            AgentMessageView::User {
                text: prompt_text(trimmed(text), before.agent.mode, intro_due(before.agent)),
                images: attachment_urls(images),
            },
            before.agent.context.messages@.len() == 0,
            opt_text(before.agent.working_directory),
        ),
        before.agent.mode,
        true,
        before.agent.max_tool_rounds as nat,
        before.agent.session_id@,
    )
    &&& action@ == ActionView::OpenSession
}

impl ChatController {
    /// A chat with an empty transcript.
    pub fn new(agent: Agent, name: String) -> (out: ChatController)
        ensures
            out.agent == agent,
            out@ == (ChatView {
                entries: Seq::empty(),
                busy: false,
                loading: None,
                revision: 0,
                usage: no_usage(),
                model_name: name@,
                steering: None,
                max_context: Some(0),
                reasoning_effort: agent.model.reasoning_effort,
            }),
    {
        let entries: Vec<Entry> = Vec::new();
        assert(entry_views(entries@) =~= Seq::empty());
        let reasoning_effort = agent.reasoning_effort();
        ChatController {
            agent,
            entries,
            busy: false,
            loading: None,
            revision: 0,
            usage: Usage::default(),
            model_name: name,
            steering: None,
            max_context: Some(0),
            reasoning_effort,
        }
    }

    fn bump(&mut self)
        ensures
            final(self)@ == (ChatView { revision: revised(old(self)@.revision), ..old(self)@ }),
            final(self).agent == old(self).agent,
    {
        self.revision = self.revision.wrapping_add(1);
    }

    /// Show a restored conversation in place of what was shown.
    pub fn apply_restored(
        &mut self,
        messages: Vec<AgentMessage>,
        usage: Usage,
        model_name: String,
        max_context: Option<u64>,
    )
        ensures
            final(self).agent == old(self).agent,
            final(self)@ == (ChatView {
                entries: transcript_of(message_views(messages@)),
                revision: revised(old(self)@.revision),
                usage,
                model_name: model_name@,
                max_context,
                reasoning_effort: old(self).agent.model.reasoning_effort,
                ..old(self)@
            }),
    {
        self.model_name = model_name;
        self.usage = usage;
        self.max_context = max_context;
        self.reasoning_effort = self.agent.reasoning_effort();
        let ghost views = message_views(messages@);
        let mut entries: Vec<Entry> = Vec::new();
        let mut i: usize = 0;
        assert(entry_views(entries@) =~= Seq::empty());
        while i < messages.len()
            invariant
                i <= messages@.len(),
                views == message_views(messages@),
                entry_views(entries@) == transcript_of(views.take(i as int)),
            decreases messages@.len() - i,
        {
            assert(views.take(i as int + 1).drop_last() =~= views.take(i as int));
            push_message_entries(&mut entries, &messages[i]);
            i += 1;
        }
        assert(views.take(i as int) =~= views);
        self.entries = entries;
        self.bump();
    }

    /// Apply one event of the run, or its error.
    pub fn apply_event(&mut self, result: Result<AgentEvent, AgentError>)
        ensures
            final(self)@ == after_event(old(self)@, event_result(result)),
            final(self).agent == old(self).agent,
    {
        let changed: bool;
        match result {
            Ok(event) => match event {
                AgentEvent::TextDelta(text) => {
                    changed = append_delta(&mut self.entries, text.as_str());
                },
                AgentEvent::ReasoningDelta(text) => {
                    changed = append_reasoning(&mut self.entries, text.as_str());
                },
                AgentEvent::SteerConsumed { text } => {
                    push_entry(&mut self.entries, Entry::Prompt(text));
                    self.steering = None;
                    changed = true;
                },
                AgentEvent::ToolCallStarted { id, name, arguments } => {
                    let output = String::new();
                    assert(output@ =~= Seq::empty());
                    let entry = Entry::ToolCall {
                        id,
                        name,
                        arguments,
                        output,
                        status: ToolStatus::Running,
                    };
                    push_entry(&mut self.entries, entry);
                    changed = true;
                },
                AgentEvent::ToolCallFinished { id, output } => {
                    changed =
                    update_tool_call(
                        &mut self.entries,
                        id.as_str(),
                        output,
                        ToolStatus::Completed,
                    );
                },
                AgentEvent::ToolCallFailed { id, error } => {
                    let output = String::new();
                    assert(output@ =~= Seq::empty());
                    changed =
                    update_tool_call(
                        &mut self.entries,
                        id.as_str(),
                        output,
                        ToolStatus::Failed(error),
                    );
                },
                AgentEvent::Usage { usage } => {
                    self.usage = usage;
                    changed = true;
                },
                AgentEvent::Finished { usage, .. } => {
                    ensure_response_entry(&mut self.entries);
                    self.usage = usage;
                    self.busy = false;
                    changed = true;
                },
            },
            Err(error) => {
                self.busy = false;
                match &error {
                    AgentError::Aborted => {
                        changed = false;
                    },
                    AgentError::Model(ModelError::MissingAuth) => {
                        push_entry(
                            &mut self.entries,
                            Entry::Error(owned("Please login to use the model")),
                        );
                        changed = true;
                    },
                    other => {
                        push_entry(&mut self.entries, Entry::Error(other.message()));
                        changed = true;
                    },
                }
            },
        }
        if changed {
            self.bump();
        }
    }

    /// Submit a prompt: show it and start a run. Nothing happens where the
    /// prompt carries nothing, or while a run or another operation is in
    /// flight. A message that was queued for an earlier run is dropped.
    pub fn submit(&mut self, text: String, images: Vec<ImageAttachment>) -> (out: Option<
        (Run, Action),
    >)
        ensures
            match out {
                Some((run, action)) => {
                    &&& may_submit(old(self)@, text@, images@.len())
                    &&& submitted(*old(self), text@, images@, *final(self), run, action)
                },
                None => {
                    &&& !may_submit(old(self)@, text@, images@.len())
                    &&& *final(self) == *old(self)
                },
            },
    {
        let trimmed_text = trim(text.as_str());
        if (trimmed_text.as_str().is_empty() && images.len() == 0) || self.busy
            || self.loading.is_some() {
            return None;
        }
        self.steering = None;
        let _ = self.agent.take_pending_steer();
        push_entry(&mut self.entries, Entry::Prompt(trimmed_text.clone()));
        self.bump();
        let urls = image_urls(&images);
        let builder = self.agent.prompt().content(trimmed_text).images(urls).stream(true);
        proof {
            crate::text::lemma_trim_twice(text@);
            assert(Seq::<ImageUrl>::empty() + urls@ =~= urls@);
            assert(builder.images@ =~= urls@);
            assert(image_views(urls@).len() == urls@.len());
        }
        match self.agent.ask(builder) {
            Ok(started) => {
                self.busy = true;
                Some(started)
            },
            // What the agent refuses was already refused above.
            Err(_) => None,
        }
    }
}

fn image_urls(images: &Vec<ImageAttachment>) -> (out: Vec<ImageUrl>)
    ensures
        image_views(out@) == attachment_urls(images@),
{
    let mut out: Vec<ImageUrl> = Vec::new();
    let mut i: usize = 0;
    while i < images.len()
        invariant
            i <= images@.len(),
            out@.len() == i,
            forall|k: int|
                0 <= k < i ==> (#[trigger] out@[k])@.url == data_url(
                    images@[k].mime_type@,
                    images@[k].base64_data@,
                ),
        decreases images@.len() - i,
    {
        let url = image_data_url(images[i].mime_type.as_str(), images[i].base64_data.as_str());
        out.push(ImageUrl { url });
        i += 1;
    }
    assert(image_views(out@) =~= attachment_urls(images@));
    out
}

fn same_label(a: &Option<String>, b: &Option<String>) -> (out: bool)
    ensures
        out == (opt_text(*a) == opt_text(*b)),
{
    match (a, b) {
        (Some(x), Some(y)) => same(x.as_str(), y.as_str()),
        (None, None) => true,
        _ => false,
    }
}

impl ChatController {
    /// Show the agent's own conversation in place of what was shown.
    pub fn restore_session_history(&mut self)
        ensures
            final(self).agent == old(self).agent,
            final(self)@ == (ChatView {
                entries: transcript_of(message_views(old(self).agent.context.messages@)),
                revision: revised(old(self)@.revision),
                usage: old(self).agent.context.usage,
                model_name: old(self).agent.model.info.name@,
                max_context: old(self).agent.model.info.context_length,
                reasoning_effort: old(self).agent.model.reasoning_effort,
                ..old(self)@
            }),
    {
        let messages = self.agent.messages();
        let usage = self.agent.usage();
        let name = self.agent.model.info.name.clone();
        let length = self.agent.model.info.context_length;
        self.apply_restored(messages, usage, name, length);
    }

    /// The transcript.
    pub fn entries(&self) -> (out: &[Entry])
        ensures
            out@ == self.entries@,
    {
        self.entries.as_slice()
    }

    /// The revision of what is shown.
    pub fn revision(&self) -> (out: u64)
        ensures
            out == self.revision,
    {
        self.revision
    }

    /// Whether a run is in flight.
    pub fn is_busy(&self) -> (out: bool)
        ensures
            out == self.busy,
    {
        self.busy
    }

    /// The label of the operation that blocks input, if one is in flight.
    pub fn loading(&self) -> (out: Option<&str>)
        ensures
            match out {
                Some(label) => self@.loading == Some(label@),
                None => self@.loading is None,
            },
    {
        match &self.loading {
            Some(label) => Some(label.as_str()),
            None => None,
        }
    }

    /// What the prompt is doing.
    pub fn activity(&self) -> (out: Activity)
        ensures
            out@ == if self@.busy {
                Activity::Thinking
            } else {
                match self@.loading {
                    Some(label) => Activity::Loading(label),
                    None => Activity::Idle,
                }
            },
    {
        if self.busy {
            Activity::Thinking
        } else {
            match &self.loading {
                Some(label) => Activity::Loading(label.clone()),
                None => Activity::Idle,
            }
        }
    }

    /// Set or clear the label of an operation that blocks input. Only a change
    /// is a new revision.
    pub fn set_loading(&mut self, loading: Option<String>)
        ensures
            final(self).agent == old(self).agent,
            final(self)@ == if old(self)@.loading == opt_text(loading) {
                old(self)@
            } else {
                ChatView {
                    loading: opt_text(loading),
                    revision: revised(old(self)@.revision),
                    ..old(self)@
                }
            },
    {
        if same_label(&self.loading, &loading) {
            return;
        }
        self.loading = loading;
        self.bump();
    }

    /// The agent's mode.
    pub fn mode(&self) -> (out: Mode)
        ensures
            out == self.agent.mode,
    {
        self.agent.mode()
    }

    /// The usage that is shown.
    pub fn usage(&self) -> (out: Usage)
        ensures
            out == self.usage,
    {
        self.usage
    }

    /// The name of the model that is shown.
    pub fn model_name(&self) -> (out: String)
        ensures
            out == self.model_name,
    {
        self.model_name.clone()
    }

    /// The size of the model's context.
    pub fn max_context(&self) -> (out: Option<u64>)
        ensures
            out == self.max_context,
    {
        self.max_context
    }

    /// Set the size of the model's context. Only a change is a new revision.
    pub fn set_max_context(&mut self, max_context: Option<u64>)
        ensures
            final(self).agent == old(self).agent,
            final(self)@ == if old(self)@.max_context == max_context {
                old(self)@
            } else {
                ChatView { max_context, revision: revised(old(self)@.revision), ..old(self)@ }
            },
    {
        let unchanged = match (self.max_context, max_context) {
            (Some(x), Some(y)) => x == y,
            (None, None) => true,
            _ => false,
        };
        if unchanged {
            return;
        }
        self.max_context = max_context;
        self.bump();
    }

    /// The effort that is shown.
    pub fn reasoning_effort(&self) -> (out: ReasoningEffort)
        ensures
            out == self.reasoning_effort,
    {
        self.reasoning_effort
    }

    /// Set the effort that is shown. Only a change is a new revision.
    pub fn set_reasoning_effort(&mut self, reasoning_effort: ReasoningEffort)
        ensures
            final(self).agent == old(self).agent,
            final(self)@ == if old(self)@.reasoning_effort == reasoning_effort {
                old(self)@
            } else {
                ChatView { reasoning_effort, revision: revised(old(self)@.revision), ..old(self)@ }
            },
    {
        if self.reasoning_effort == reasoning_effort {
            return;
        }
        self.reasoning_effort = reasoning_effort;
        self.bump();
    }

    /// Step to the next mode.
    pub fn toggle_mode(&mut self)
        ensures
            final(self)@ == old(self)@,
            final(self).agent == (Agent {
                mode: mode_after(old(self).agent.mode),
                review_intro_pending: mode_after(old(self).agent.mode) == Mode::Review,
                ..old(self).agent
            }),
    {
        let next = self.agent.mode().next();
        self.agent.set_mode(next);
    }

    /// Change the mode.
    pub fn set_mode(&mut self, mode: Mode)
        ensures
            final(self)@ == old(self)@,
            final(self).agent == (Agent {
                mode,
                review_intro_pending: mode == Mode::Review,
                ..old(self).agent
            }),
    {
        self.agent.set_mode(mode);
    }

    /// Show a note.
    pub fn push_info(&mut self, text: String)
        ensures
            final(self).agent == old(self).agent,
            final(self)@ == showing(old(self)@, old(self)@.entries.push(Entry::Info(text@))),
    {
        push_entry(&mut self.entries, Entry::Info(text));
        self.bump();
    }

    /// Show an empty transcript and no usage.
    pub fn clear_transcript(&mut self)
        ensures
            final(self).agent == old(self).agent,
            final(self)@ == (ChatView { usage: no_usage(), ..showing(old(self)@, Seq::empty()) }),
    {
        self.entries.clear();
        assert(entry_views(self.entries@) =~= Seq::empty());
        self.usage = Usage::default();
        self.bump();
    }

    /// The message that is queued for the run in flight.
    pub fn steering(&self) -> (out: Option<&str>)
        ensures
            match out {
                Some(text) => self@.steering == Some(text@),
                None => self@.steering is None,
            },
    {
        match &self.steering {
            Some(text) => Some(text.as_str()),
            None => None,
        }
    }

    /// Queue a message for the run in flight. A blank one is ignored. It is
    /// shown as queued, and enters the transcript only once the run takes it.
    pub fn steer(&mut self, text: String)
        ensures
            trimmed(text@).len() == 0 ==> *final(self) == *old(self),
            trimmed(text@).len() > 0 ==> {
                &&& final(self)@ == (ChatView { steering: Some(text@), ..old(self)@ })
                &&& final(self).agent == (Agent { pending_steer: Some(text), ..old(self).agent })
            },
    {
        if is_blank(text.as_str()) {
            return;
        }
        self.steering = Some(text.clone());
        self.agent.steer(text);
    }

    /// Take the queued message back.
    pub fn take_steering(&mut self) -> (out: Option<String>)
        ensures
            out == old(self).agent.pending_steer,
            final(self)@ == (ChatView { steering: None, ..old(self)@ }),
            final(self).agent == (Agent { pending_steer: None, ..old(self).agent }),
    {
        self.steering = None;
        self.agent.take_pending_steer()
    }

    /// The run was called off: no longer busy, and nothing is said of it.
    pub fn finish_stream(&mut self)
        ensures
            final(self).agent == old(self).agent,
            final(self)@ == if old(self)@.busy {
                ChatView { busy: false, revision: revised(old(self)@.revision), ..old(self)@ }
            } else {
                old(self)@
            },
    {
        if self.busy {
            self.busy = false;
            self.bump();
        }
    }

    /// The run's events ended. If nothing had told the end of the run, that is
    /// an error.
    pub fn disconnect_stream(&mut self)
        ensures
            final(self).agent == old(self).agent,
            final(self)@ == if old(self)@.busy {
                ChatView {
                    busy: false,
                    ..showing(
                        old(self)@,
                        old(self)@.entries.push(Entry::Error("agent stream disconnected"@)),
                    )
                }
            } else {
                old(self)@
            },
    {
        if self.busy {
            self.busy = false;
            push_entry(&mut self.entries, Entry::Error(owned("agent stream disconnected")));
            self.bump();
        }
    }

    /// The model was switched.
    pub fn apply_model_switch(&mut self, model_name: String)
        ensures
            final(self).agent == old(self).agent,
            final(self)@ == (ChatView {
                model_name: model_name@,
                ..showing(
                    old(self)@,
                    old(self)@.entries.push(Entry::Info("Switched to "@ + model_name@)),
                )
            }),
    {
        push_entry(&mut self.entries, Entry::Info(joined("Switched to ", model_name.as_str())));
        self.model_name = model_name;
        self.bump();
    }

    /// The model could not be switched.
    pub fn apply_model_switch_failed(&mut self, error: String)
        ensures
            final(self).agent == old(self).agent,
            final(self)@ == showing(
                old(self)@,
                old(self)@.entries.push(Entry::Error("Model switch failed: "@ + error@)),
            ),
    {
        push_entry(
            &mut self.entries,
            Entry::Error(joined("Model switch failed: ", error.as_str())),
        );
        self.bump();
    }
}

/// Text that comes in pieces is shown as if it had come at once.
pub proof fn deltas_add_up(entries: Transcript, first: Seq<char>, second: Seq<char>)
    ensures
        with_delta(with_delta(entries, first), second) == with_delta(entries, first + second),
        with_reasoning(with_reasoning(entries, first), second) == with_reasoning(
            entries,
            first + second,
        ),
{
    if first.len() == 0 {
        assert(first + second =~= second);
    } else if second.len() == 0 {
        assert(first + second =~= first);
    } else {
        assert(with_delta(with_delta(entries, first), second) =~= with_delta(
            entries,
            first + second,
        )) by {
            if entries.len() > 0 && entries.last() is Response {
                assert((entries.last()->Response_0 + first) + second
                    =~= entries.last()->Response_0 + (first + second));
            }
        }
        assert(with_reasoning(with_reasoning(entries, first), second) =~= with_reasoning(
            entries,
            first + second,
        )) by {
            if entries.len() > 0 && entries.last() is Reasoning {
                assert((entries.last()->Reasoning_0 + first) + second
                    =~= entries.last()->Reasoning_0 + (first + second));
            }
        }
    }
}

/// An event that ends a run, and every error, leaves the chat free for the next
/// prompt; no other event does.
pub proof fn a_run_ends_with_finish_or_error(
    chat: ChatView,
    result: Result<AgentEvent<Seq<char>, ResponseView>, AgentError<Seq<char>>>,
)
    ensures
        result is Err || result->Ok_0 is Finished ==> !after_event(chat, result).busy,
        result is Ok && !(result->Ok_0 is Finished) ==> after_event(chat, result).busy
            == chat.busy,
{
}

/// No event takes an entry out of the transcript: what stands in it stays at
/// its place, and is at most brought up to date as the same kind of entry.
pub proof fn events_keep_the_transcript(
    chat: ChatView,
    result: Result<AgentEvent<Seq<char>, ResponseView>, AgentError<Seq<char>>>,
    i: int,
)
    requires
        0 <= i < chat.entries.len(),
    ensures
        ({
            let after = after_event(chat, result).entries;
            &&& chat.entries.len() <= after.len() <= chat.entries.len() + 1
            &&& chat.entries[i] is Prompt ==> after[i] == chat.entries[i]
            &&& chat.entries[i] is Info ==> after[i] == chat.entries[i]
            &&& chat.entries[i] is Error ==> after[i] == chat.entries[i]
            &&& chat.entries[i] is Response ==> after[i] is Response
                && chat.entries[i]->Response_0.is_prefix_of(after[i]->Response_0)
            &&& chat.entries[i] is Reasoning ==> after[i] is Reasoning
                && chat.entries[i]->Reasoning_0.is_prefix_of(after[i]->Reasoning_0)
            &&& chat.entries[i] is ToolCall ==> after[i] is ToolCall
                && after[i]->ToolCall_id == chat.entries[i]->ToolCall_id
                && after[i]->ToolCall_name == chat.entries[i]->ToolCall_name
                && after[i]->ToolCall_arguments == chat.entries[i]->ToolCall_arguments
        }),
{
    match result {
        Ok(AgentEvent::ToolCallFinished { id, .. }) => lemma_first_call(chat.entries, id),
        Ok(AgentEvent::ToolCallFailed { id, .. }) => lemma_first_call(chat.entries, id),
        _ => {},
    }
}

/// A tool that was started and then finished is shown with its output, as long
/// as no earlier call has the same identifier.
pub proof fn a_finished_tool_shows_its_output(
    chat: ChatView,
    id: Seq<char>,
    name: Seq<char>,
    arguments: Seq<char>,
    output: Seq<char>,
)
    requires
        forall|i: int| 0 <= i < chat.entries.len() ==> !is_call(#[trigger] chat.entries[i], id),
    ensures
        ({
            let started = after_event(
                chat,
                Ok(AgentEvent::ToolCallStarted { id, name, arguments }),
            );
            let finished = after_event(started, Ok(AgentEvent::ToolCallFinished { id, output }));
            finished.entries == chat.entries.push(
                Entry::ToolCall { id, name, arguments, output, status: ToolStatus::Completed },
            )
        }),
{
    let started = after_event(chat, Ok(AgentEvent::ToolCallStarted { id, name, arguments }));
    assert forall|i: int| 0 <= i < chat.entries.len() implies !is_call(
        #[trigger] started.entries[i],
        id,
    ) by {
        assert(started.entries[i] == chat.entries[i]);
    }
    lemma_first_call_is(started.entries, id, chat.entries.len() as int);
    let finished = after_event(started, Ok(AgentEvent::ToolCallFinished { id, output }));
    assert(finished.entries =~= chat.entries.push(
        Entry::ToolCall { id, name, arguments, output, status: ToolStatus::Completed },
    ));
}

} // verus!
