//! What the transcript is for: it shows all that was said, in order, live as well
//! as after a session is restored.
use crate::chat::{
    after_event, answer_entries, attachment_urls, call_entries, is_call, last_call,
    lemma_first_call_is, lemma_last_call, may_submit, submitted, transcript_of, with_delta,
    with_message, with_outcome, with_reasoning, ChatController, ChatView, Entry, ImageAttachment,
    ToolStatus, Transcript,
};
use crate::context::AgentMessageView;
use crate::error::{agent_message, AgentError, ModelError};
use crate::llm::{ResponseView, ToolCall, Usage};
use crate::mode::Mode;
use crate::prompt::{
    prompt_text, prompts_begin_with_what_was_typed, the_directory_is_told_once, REVIEW_GUIDELINES,
};
use crate::run::{Action, AgentEvent, Run};
use crate::text::{blank, lemma_blank_trims_to_nothing, opt_text, trimmed};
use vstd::prelude::*;

verus! {

/// What is found in the items of a list, in order, where anything is.
pub open spec fn picked<A, T>(items: Seq<A>, pick: spec_fn(A) -> Option<T>) -> Seq<T>
    decreases items.len(),
{
    if items.len() == 0 {
        Seq::empty()
    } else {
        match pick(items.last()) {
            Some(found) => picked(items.drop_last(), pick).push(found),
            None => picked(items.drop_last(), pick),
        }
    }
}

proof fn lemma_picked_of_both<A, T>(a: Seq<A>, b: Seq<A>, pick: spec_fn(A) -> Option<T>)
    ensures
        picked(a + b, pick) == picked(a, pick) + picked(b, pick),
    decreases b.len(),
{
    if b.len() == 0 {
        assert(a + b =~= a);
        assert(picked(a, pick) + picked(b, pick) =~= picked(a, pick));
    } else {
        lemma_picked_of_both(a, b.drop_last(), pick);
        assert((a + b).drop_last() =~= a + b.drop_last());
        assert((a + b).last() == b.last());
        match pick(b.last()) {
            Some(found) => {
                assert((picked(a, pick) + picked(b.drop_last(), pick)).push(found) =~= picked(
                    a,
                    pick,
                ) + picked(b.drop_last(), pick).push(found));
            },
            None => {},
        }
    }
}

proof fn lemma_picked_update<A, T>(a: Seq<A>, i: int, e: A, pick: spec_fn(A) -> Option<T>)
    requires
        0 <= i < a.len(),
        pick(a[i]) == pick(e),
    ensures
        picked(a.update(i, e), pick) == picked(a, pick),
    decreases a.len(),
{
    let b = a.update(i, e);
    if i == a.len() - 1 {
        assert(b.drop_last() =~= a.drop_last());
    } else {
        assert(b.drop_last() =~= a.drop_last().update(i, e));
        assert(b.last() == a.last());
        lemma_picked_update(a.drop_last(), i, e, pick);
    }
}

proof fn lemma_picked_nothing<A, T>(a: Seq<A>, pick: spec_fn(A) -> Option<T>)
    requires
        forall|i: int| 0 <= i < a.len() ==> pick(#[trigger] a[i]) is None,
    ensures
        picked(a, pick).len() == 0,
    decreases a.len(),
{
    if a.len() > 0 {
        let init = a.drop_last();
        assert(pick(a[a.len() - 1]) is None);
        assert forall|i: int| 0 <= i < init.len() implies pick(#[trigger] init[i]) is None by {
            assert(init[i] == a[i]);
        }
        lemma_picked_nothing(init, pick);
    }
}

/// The prompt that an entry shows.
pub open spec fn prompt_shown() -> spec_fn(Entry<Seq<char>>) -> Option<Seq<char>> {
    |entry: Entry<Seq<char>>|
        match entry {
            Entry::Prompt(text) => Some(text),
            _ => None,
        }
}

/// The response that an entry shows.
pub open spec fn response_shown() -> spec_fn(Entry<Seq<char>>) -> Option<Seq<char>> {
    |entry: Entry<Seq<char>>|
        match entry {
            Entry::Response(text) => Some(text),
            _ => None,
        }
}

/// The reasoning that an entry shows.
pub open spec fn reasoning_shown() -> spec_fn(Entry<Seq<char>>) -> Option<Seq<char>> {
    |entry: Entry<Seq<char>>|
        match entry {
            Entry::Reasoning(text) => Some(text),
            _ => None,
        }
}

/// The tool, by the identifier, the name and the arguments of its call, that an
/// entry shows.
pub open spec fn call_shown() -> spec_fn(Entry<Seq<char>>) -> Option<
    (Seq<char>, Seq<char>, Seq<char>),
> {
    |entry: Entry<Seq<char>>|
        match entry {
            Entry::ToolCall { id, name, arguments, .. } => Some((id, name, arguments)),
            _ => None,
        }
}

/// What the user says in a message.
pub open spec fn said_by_user() -> spec_fn(AgentMessageView) -> Option<Seq<char>> {
    |message: AgentMessageView|
        match message {
            AgentMessageView::User { text, .. } => Some(text),
            _ => None,
        }
}

/// What the model says in a message, if it says anything.
pub open spec fn said_by_model() -> spec_fn(AgentMessageView) -> Option<Seq<char>> {
    |message: AgentMessageView|
        match message {
            AgentMessageView::Assistant(response) => if response.text().len() > 0 {
                Some(response.text())
            } else {
                None
            },
            _ => None,
        }
}

/// What the model thinks in a message, if it thinks anything.
pub open spec fn thought_by_model() -> spec_fn(AgentMessageView) -> Option<Seq<char>> {
    |message: AgentMessageView|
        match message {
            AgentMessageView::Assistant(response) => match response.reasoning {
                Some(text) => if text.len() > 0 {
                    Some(text)
                } else {
                    None
                },
                None => None,
            },
            _ => None,
        }
}

/// The tools that the model asks for in a conversation, in order.
pub open spec fn asked_by_model(messages: Seq<AgentMessageView>) -> Seq<
    (Seq<char>, Seq<char>, Seq<char>),
>
    decreases messages.len(),
{
    if messages.len() == 0 {
        Seq::empty()
    } else {
        let before = asked_by_model(messages.drop_last());
        match messages.last() {
            AgentMessageView::Assistant(response) => before + response.tool_calls().map_values(
                |call: ToolCall<Seq<char>>| (call.id, call.name, call.arguments),
            ),
            _ => before,
        }
    }
}

proof fn lemma_calls_shown(calls: Seq<ToolCall<Seq<char>>>)
    ensures
        picked(call_entries(calls), call_shown()) == calls.map_values(
            |call: ToolCall<Seq<char>>| (call.id, call.name, call.arguments),
        ),
        picked(call_entries(calls), prompt_shown()).len() == 0,
        picked(call_entries(calls), response_shown()).len() == 0,
        picked(call_entries(calls), reasoning_shown()).len() == 0,
    decreases calls.len(),
{
    let all = call_entries(calls);
    lemma_picked_nothing(all, prompt_shown());
    lemma_picked_nothing(all, response_shown());
    lemma_picked_nothing(all, reasoning_shown());
    let f = |call: ToolCall<Seq<char>>| (call.id, call.name, call.arguments);
    if calls.len() == 0 {
        assert(calls.map_values(f) =~= picked(all, call_shown()));
    } else {
        lemma_calls_shown(calls.drop_last());
        assert(all.drop_last() =~= call_entries(calls.drop_last()));
        assert(calls.map_values(f) =~= calls.drop_last().map_values(f).push(f(calls.last())));
    }
}

proof fn lemma_one_picked<T>(
    entry: Entry<Seq<char>>,
    pick: spec_fn(Entry<Seq<char>>) -> Option<T>,
)
    ensures
        picked(seq![entry], pick) == match pick(entry) {
            Some(found) => seq![found],
            None => Seq::empty(),
        },
{
    reveal_with_fuel(picked, 2);
    let one = seq![entry];
    assert(one.drop_last().len() == 0);
    assert(picked(one, pick) =~= match pick(entry) {
        Some(found) => seq![found],
        None => Seq::empty(),
    });
}

/// The parts of what is shown of an answer.
spec fn thought_of(response: ResponseView) -> Transcript {
    match response.reasoning {
        Some(text) => if text.len() > 0 {
            seq![Entry::Reasoning(text)]
        } else {
            Seq::empty()
        },
        None => Seq::empty(),
    }
}

spec fn said_of(response: ResponseView) -> Transcript {
    if response.text().len() > 0 {
        seq![Entry::Response(response.text())]
    } else {
        Seq::empty()
    }
}

proof fn lemma_answer_picked<T>(
    response: ResponseView,
    pick: spec_fn(Entry<Seq<char>>) -> Option<T>,
)
    ensures
        picked(answer_entries(response), pick) == picked(thought_of(response), pick) + picked(
            call_entries(response.tool_calls()),
            pick,
        ) + picked(said_of(response), pick),
{
    let thought = thought_of(response);
    let calls = call_entries(response.tool_calls());
    let said = said_of(response);
    assert(answer_entries(response) =~= thought + calls + said);
    lemma_picked_of_both(thought, calls, pick);
    lemma_picked_of_both(thought + calls, said, pick);
}

proof fn lemma_answer_shown(response: ResponseView)
    ensures
        ({
            let entries = answer_entries(response);
            &&& picked(entries, prompt_shown()).len() == 0
            &&& picked(entries, call_shown()) == response.tool_calls().map_values(
                |call: ToolCall<Seq<char>>| (call.id, call.name, call.arguments),
            )
            &&& picked(entries, response_shown()) == if response.text().len() > 0 {
                seq![response.text()]
            } else {
                Seq::empty()
            }
            &&& picked(entries, reasoning_shown()) == match thought_by_model()(
                AgentMessageView::Assistant(response),
            ) {
                Some(text) => seq![text],
                None => Seq::empty(),
            }
        }),
{
    let entries = answer_entries(response);
    lemma_calls_shown(response.tool_calls());
    lemma_answer_picked(response, prompt_shown());
    lemma_answer_picked(response, call_shown());
    lemma_answer_picked(response, response_shown());
    lemma_answer_picked(response, reasoning_shown());
    let thinks = Entry::Reasoning(response.reasoning->0);
    let says = Entry::Response(response.text());
    lemma_one_picked(thinks, prompt_shown());
    lemma_one_picked(thinks, call_shown());
    lemma_one_picked(thinks, response_shown());
    lemma_one_picked(thinks, reasoning_shown());
    lemma_one_picked(says, prompt_shown());
    lemma_one_picked(says, call_shown());
    lemma_one_picked(says, response_shown());
    lemma_one_picked(says, reasoning_shown());
    assert(picked(entries, call_shown()) =~= response.tool_calls().map_values(
        |call: ToolCall<Seq<char>>| (call.id, call.name, call.arguments),
    ));
    assert(picked(entries, response_shown()) =~= if response.text().len() > 0 {
        seq![response.text()]
    } else {
        Seq::empty()
    });
    assert(picked(entries, reasoning_shown()) =~= match thought_by_model()(
        AgentMessageView::Assistant(response),
    ) {
        Some(text) => seq![text],
        None => Seq::empty(),
    });
}

proof fn lemma_output_picked<T>(
    entries: Transcript,
    id: Seq<char>,
    output: Seq<char>,
    pick: spec_fn(Entry<Seq<char>>) -> Option<T>,
)
    requires
        forall|e: Entry<Seq<char>>, f: Entry<Seq<char>>|
            e is ToolCall && f is ToolCall && e->ToolCall_id == f->ToolCall_id && e->ToolCall_name
                == f->ToolCall_name && e->ToolCall_arguments == f->ToolCall_arguments
                ==> #[trigger] pick(e) == #[trigger] pick(f),
    ensures
        picked(crate::chat::with_output(entries, id, output), pick) == picked(entries, pick),
{
    lemma_last_call(entries, id);
    let at = last_call(entries, id);
    if at >= 0 {
        let after = crate::chat::with_output(entries, id, output);
        lemma_picked_update(entries, at, after[at], pick);
    }
}

proof fn lemma_pushed_picked<T>(
    entries: Transcript,
    entry: Entry<Seq<char>>,
    pick: spec_fn(Entry<Seq<char>>) -> Option<T>,
)
    ensures
        picked(entries.push(entry), pick) == match pick(entry) {
            Some(found) => picked(entries, pick).push(found),
            None => picked(entries, pick),
        },
{
    assert(entries.push(entry).drop_last() =~= entries);
}

/// A restored transcript shows every prompt of the user, every text of the model
/// and every thought of it, as far as it has any, each kind complete and in order.
pub proof fn restored_transcripts_are_complete(messages: Seq<AgentMessageView>)
    ensures
        picked(transcript_of(messages), prompt_shown()) == picked(messages, said_by_user()),
        picked(transcript_of(messages), response_shown()) == picked(messages, said_by_model()),
        picked(transcript_of(messages), reasoning_shown()) == picked(messages, thought_by_model()),
    decreases messages.len(),
{
    if messages.len() > 0 {
        let init = messages.drop_last();
        let before = transcript_of(init);
        restored_transcripts_are_complete(init);
        match messages.last() {
            AgentMessageView::User { text, .. } => {
                lemma_pushed_picked(before, Entry::Prompt(text), prompt_shown());
                lemma_pushed_picked(before, Entry::Prompt(text), response_shown());
                lemma_pushed_picked(before, Entry::Prompt(text), reasoning_shown());
            },
            AgentMessageView::Assistant(response) => {
                let more = answer_entries(response);
                lemma_answer_shown(response);
                lemma_picked_of_both(before, more, prompt_shown());
                lemma_picked_of_both(before, more, response_shown());
                lemma_picked_of_both(before, more, reasoning_shown());
                assert(picked(before, prompt_shown()) + picked(more, prompt_shown()) =~= picked(
                    messages,
                    said_by_user(),
                ));
                assert(picked(before, response_shown()) + picked(more, response_shown())
                    =~= picked(messages, said_by_model()));
                assert(picked(before, reasoning_shown()) + picked(more, reasoning_shown())
                    =~= picked(messages, thought_by_model()));
            },
            AgentMessageView::ToolResult { tool_call_id, content, .. } => {
                lemma_output_picked(before, tool_call_id, content, prompt_shown());
                lemma_output_picked(before, tool_call_id, content, response_shown());
                lemma_output_picked(before, tool_call_id, content, reasoning_shown());
            },
        }
    }
}

/// A restored transcript shows every tool that the model asked for, by the call
/// itself and in order.
pub proof fn restored_transcripts_show_every_tool(messages: Seq<AgentMessageView>)
    ensures
        picked(transcript_of(messages), call_shown()) == asked_by_model(messages),
    decreases messages.len(),
{
    if messages.len() > 0 {
        let init = messages.drop_last();
        let before = transcript_of(init);
        restored_transcripts_show_every_tool(init);
        match messages.last() {
            AgentMessageView::User { text, .. } => {
                lemma_pushed_picked(before, Entry::Prompt(text), call_shown());
            },
            AgentMessageView::Assistant(response) => {
                lemma_answer_shown(response);
                lemma_picked_of_both(before, answer_entries(response), call_shown());
            },
            AgentMessageView::ToolResult { tool_call_id, content, .. } => {
                lemma_output_picked(before, tool_call_id, content, call_shown());
            },
        }
    }
}

/// One more message leaves what was shown where it was, but for the output of a
/// tool, and shows what is new below it: a prompt as it is; of an answer first the
/// reasoning, then the tools, and the text last.
pub proof fn messages_are_shown_below_each_other(
    messages: Seq<AgentMessageView>,
    text: Seq<char>,
    response: ResponseView,
)
    ensures
        ({
            let before = transcript_of(messages);
            let asked = transcript_of(
                messages.push(AgentMessageView::User { text, images: Seq::empty() }),
            );
            let answered = transcript_of(messages.push(AgentMessageView::Assistant(response)));
            let thinks = response.reasoning is Some && response.reasoning->0.len() > 0;
            &&& asked == before.push(Entry::Prompt(text))
            &&& before.is_prefix_of(answered)
            &&& response.text().len() > 0 ==> answered.last() == Entry::Response(response.text())
            &&& thinks ==> answered[before.len() as int] == Entry::Reasoning(
                response.reasoning->0,
            )
            &&& answered.len() == before.len() + response.tool_calls().len() + (if thinks {
                1int
            } else {
                0
            }) + (if response.text().len() > 0 {
                1int
            } else {
                0
            })
        }),
{
    let before = transcript_of(messages);
    let user = AgentMessageView::User { text, images: Seq::empty() };
    let assistant = AgentMessageView::Assistant(response);
    assert(messages.push(user).drop_last() =~= messages);
    assert(messages.push(assistant).drop_last() =~= messages);
    assert(transcript_of(messages.push(user)) == with_message(before, user));
    assert(transcript_of(messages.push(assistant)) == with_message(before, assistant));
    let answered = transcript_of(messages.push(assistant));
    assert(before =~= answered.take(before.len() as int));
    assert(answer_entries(response) =~= thought_of(response) + call_entries(response.tool_calls())
        + said_of(response));
}

/// What a tool put out is shown with the last call that it answers, and nothing else
/// changes. An output that answers no call changes nothing.
pub proof fn restored_tools_show_their_output(
    messages: Seq<AgentMessageView>,
    id: Seq<char>,
    content: Seq<char>,
    i: int,
)
    requires
        0 <= i < transcript_of(messages).len(),
    ensures
        ({
            let before = transcript_of(messages);
            let after = transcript_of(
                messages.push(
                    AgentMessageView::ToolResult {
                        tool_call_id: id,
                        content,
                        content_parts: Seq::empty(),
                    },
                ),
            );
            let last = is_call(before[i], id) && forall|k: int|
                i < k < before.len() ==> !is_call(#[trigger] before[k], id);
            &&& after.len() == before.len()
            &&& !last ==> after[i] == before[i]
            &&& last ==> after[i] == (Entry::ToolCall {
                id,
                name: before[i]->ToolCall_name,
                arguments: before[i]->ToolCall_arguments,
                output: content,
                status: before[i]->ToolCall_status,
            })
        }),
{
    let before = transcript_of(messages);
    let result = AgentMessageView::ToolResult {
        tool_call_id: id,
        content,
        content_parts: Seq::empty(),
    };
    assert(messages.push(result).drop_last() =~= messages);
    assert(transcript_of(messages.push(result)) == with_message(before, result));
    lemma_last_call(before, id);
    let at = last_call(before, id);
    if i > at {
        assert(!is_call(before[i], id));
    } else if i < at {
        assert(is_call(before[at], id));
    }
}

/// A tool of a restored transcript has run.
pub proof fn restored_tools_have_run(messages: Seq<AgentMessageView>)
    ensures
        forall|i: int|
            0 <= i < transcript_of(messages).len() && (
            #[trigger] transcript_of(messages)[i]) is ToolCall ==> transcript_of(
                messages,
            )[i]->ToolCall_status == ToolStatus::<Seq<char>>::Completed,
    decreases messages.len(),
{
    if messages.len() > 0 {
        let init = messages.drop_last();
        let before = transcript_of(init);
        let after = transcript_of(messages);
        restored_tools_have_run(init);
        match messages.last() {
            AgentMessageView::ToolResult { tool_call_id, .. } => lemma_last_call(
                before,
                tool_call_id,
            ),
            _ => {},
        }
        assert forall|i: int|
            0 <= i < after.len() && (#[trigger] after[i]) is ToolCall implies after[i]->ToolCall_status
            == ToolStatus::<Seq<char>>::Completed by {
            if i < before.len() {
                assert(before[i] is ToolCall ==> before[i]->ToolCall_status == ToolStatus::<
                    Seq<char>,
                >::Completed);
            }
        }
    }
}

/// A text that comes in begins a response of its own, unless one is already coming
/// in; an empty one shows nothing. So it is with reasoning.
pub proof fn what_comes_in_is_shown(entries: Transcript, text: Seq<char>)
    requires
        text.len() > 0,
    ensures
        entries.len() == 0 || !(entries.last() is Response) ==> with_delta(entries, text)
            == entries.push(Entry::Response(text)),
        entries.len() == 0 || !(entries.last() is Reasoning) ==> with_reasoning(entries, text)
            == entries.push(Entry::Reasoning(text)),
        with_delta(entries, Seq::empty()) == entries,
        with_reasoning(entries, Seq::empty()) == entries,
{
}

/// A prompt and its answer are shown the same while they come in as they are once
/// the conversation is restored.
pub proof fn live_and_restored_transcripts_agree(
    chat: ChatView,
    messages: Seq<AgentMessageView>,
    prompt: Seq<char>,
    response: ResponseView,
    usage: Usage,
)
    requires
        chat.entries == transcript_of(messages).push(Entry::Prompt(prompt)),
        response.reasoning is None,
        response.tool_calls().len() == 0,
        response.text().len() > 0,
    ensures
        ({
            let said = after_event(chat, Ok(AgentEvent::TextDelta(response.text())));
            let done = after_event(said, Ok(AgentEvent::Finished { usage, response }));
            &&& done.entries == transcript_of(
                messages.push(
                    AgentMessageView::User { text: prompt, images: Seq::empty() },
                ).push(AgentMessageView::Assistant(response)),
            )
            &&& done.usage == usage
            &&& !done.busy
        }),
{
    let user = AgentMessageView::User { text: prompt, images: Seq::empty() };
    let answer = AgentMessageView::Assistant(response);
    assert(messages.push(user).drop_last() =~= messages);
    assert(messages.push(user).push(answer).drop_last() =~= messages.push(user));
    assert(call_entries(response.tool_calls()) =~= Seq::empty());
    assert(answer_entries(response) =~= seq![Entry::Response(response.text())]);
    assert(transcript_of(messages.push(user)) == chat.entries);
    assert(transcript_of(messages.push(user).push(answer)) =~= chat.entries.push(
        Entry::Response(response.text()),
    ));
}

/// A tool that fails is shown with the reason and without an output, and a tool that
/// starts is shown as running. A queued message is shown as a prompt once the run has
/// taken it in.
pub proof fn events_are_shown(
    chat: ChatView,
    id: Seq<char>,
    name: Seq<char>,
    arguments: Seq<char>,
    error: Seq<char>,
)
    requires
        forall|i: int| 0 <= i < chat.entries.len() ==> !is_call(#[trigger] chat.entries[i], id),
    ensures
        ({
            let started = after_event(
                chat,
                Ok(AgentEvent::ToolCallStarted { id, name, arguments }),
            );
            let failed = after_event(started, Ok(AgentEvent::ToolCallFailed { id, error }));
            let steered = after_event(chat, Ok(AgentEvent::SteerConsumed { text: error }));
            &&& started.entries == chat.entries.push(
                Entry::ToolCall {
                    id,
                    name,
                    arguments,
                    output: Seq::empty(),
                    status: ToolStatus::Running,
                },
            )
            &&& failed.entries == chat.entries.push(
                Entry::ToolCall {
                    id,
                    name,
                    arguments,
                    output: Seq::empty(),
                    status: ToolStatus::Failed(error),
                },
            )
            &&& steered.entries == chat.entries.push(Entry::Prompt(error))
            &&& steered.steering is None
        }),
{
    let started = after_event(chat, Ok(AgentEvent::ToolCallStarted { id, name, arguments }));
    assert forall|i: int| 0 <= i < chat.entries.len() implies !is_call(
        #[trigger] started.entries[i],
        id,
    ) by {
        assert(started.entries[i] == chat.entries[i]);
    }
    crate::chat::lemma_first_call_is(started.entries, id, chat.entries.len() as int);
    let failed = after_event(started, Ok(AgentEvent::ToolCallFailed { id, error }));
    assert(failed.entries =~= chat.entries.push(
        Entry::ToolCall {
            id,
            name,
            arguments,
            output: Seq::empty(),
            status: ToolStatus::Failed(error),
        },
    ));
}

/// An error is shown at the end of the transcript, in words; a run that was called
/// off shows nothing. A missing login is told as such.
pub proof fn errors_are_shown(chat: ChatView, error: AgentError<Seq<char>>)
    ensures
        ({
            let after = after_event(chat, Err(error));
            &&& !after.busy
            &&& error is Aborted ==> after.entries == chat.entries && after.revision
                == chat.revision
            &&& !(error is Aborted) ==> {
                &&& after.entries.len() == chat.entries.len() + 1
                &&& chat.entries.is_prefix_of(after.entries)
                &&& after.entries.last() is Error
                &&& after.revision != chat.revision
            }
            &&& error == AgentError::<Seq<char>>::Model(ModelError::MissingAuth)
                ==> after.entries.last() == Entry::Error("Please login to use the model"@)
            &&& !(error is Aborted) && error != AgentError::<Seq<char>>::Model(
                ModelError::MissingAuth,
            ) ==> after.entries.last() == Entry::Error(agent_message(error))
        }),
{
    let after = after_event(chat, Err(error));
    assert(chat.entries =~= after.entries.take(chat.entries.len() as int));
}

/// Whenever an event changes what is shown, it changes the revision.
pub proof fn changes_are_new_revisions(
    chat: ChatView,
    result: Result<AgentEvent<Seq<char>, ResponseView>, AgentError<Seq<char>>>,
)
    ensures
        ({
            let after = after_event(chat, result);
            &&& after.entries != chat.entries || after.usage != chat.usage || after.steering
                != chat.steering ==> after.revision != chat.revision
            &&& after.model_name == chat.model_name
            &&& after.loading == chat.loading
            &&& after.max_context == chat.max_context
            &&& after.reasoning_effort == chat.reasoning_effort
        }),
{
}

/// A prompt that is submitted is shown at the end of the transcript as it was typed,
/// without white space around it, and is put to the agent in a streamed run: its text
/// begins the message, and its images are all in it, in order.
pub proof fn submitted_prompts_are_shown_and_asked(
    before: ChatController,
    text: Seq<char>,
    images: Seq<ImageAttachment>,
    after: ChatController,
    run: Run,
    action: Action,
)
    requires
        submitted(before, text, images, after, run, action),
    ensures
        after@.entries == before@.entries.push(Entry::Prompt(trimmed(text))),
        after@.busy,
        run@.stream,
        run@.mode == before.agent.mode,
        run@.rounds_left == before.agent.max_tool_rounds,
        run@.session_id == before.agent.session_id@,
        run@.pending is Some,
        run@.pending->0 is User,
        trimmed(text).is_prefix_of(run@.pending->0->User_text),
        run@.pending->0->User_images.len() == images.len(),
        forall|i: int|
            0 <= i < images.len() ==> (#[trigger] run@.pending->0->User_images[i]).url == "data:"@
                + images[i].mime_type@ + ";base64,"@ + images[i].base64_data@,
{
    let typed = trimmed(text);
    let mode = before.agent.mode;
    let intro = crate::agent::intro_due(before.agent);
    prompts_begin_with_what_was_typed(typed, mode, intro);
    the_directory_is_told_once(
        prompt_text(typed, mode, intro),
        attachment_urls(images),
        before.agent.context.messages@.len() == 0,
        opt_text(before.agent.working_directory),
    );
    let asked = run@.pending->0->User_text;
    assert(typed =~= prompt_text(typed, mode, intro).take(typed.len() as int));
    assert(typed =~= asked.take(typed.len() as int));
}

/// A prompt that is submitted is put to the agent with nothing added in normal mode
/// after the first message; the first review prompt carries the guidelines, one in plan
/// mode its sentence, and the first message of a conversation tells the directory.
/// Nothing stays queued.
pub proof fn submitted_prompts_say_what_is_due(
    before: ChatController,
    text: Seq<char>,
    images: Seq<ImageAttachment>,
    after: ChatController,
    run: Run,
    action: Action,
)
    requires
        submitted(before, text, images, after, run, action),
    ensures
        ({
            let asked = run@.pending->0->User_text;
            let agent = before.agent;
            let later = agent.context.messages@.len() > 0 || agent.working_directory is None;
            let due = agent.mode == Mode::Review && agent.review_intro_pending;
            let said = if agent.mode == Mode::Plan {
                trimmed(text) + "\n\nPlan mode is on, do not edit any files."@
            } else if due {
                trimmed(text) + "\n\n"@ + REVIEW_GUIDELINES@
            } else {
                trimmed(text)
            };
            &&& later ==> asked == said
            &&& !later ==> asked == said + "\nCurrent project dir which you are in : "@
                + agent.working_directory->0@
            &&& due ==> !after.agent.review_intro_pending
            &&& after.agent.mode == agent.mode
            &&& after.agent.context == agent.context
            &&& after.agent.pending_steer is None
            &&& after@.steering is None
        }),
{
    let typed = trimmed(text);
    let agent = before.agent;
    reveal_strlit("\n\n");
    reveal_strlit("Plan mode is on, do not edit any files.");
    reveal_strlit("\n\nPlan mode is on, do not edit any files.");
    assert(typed + "\n\n"@ + "Plan mode is on, do not edit any files."@ =~= typed
        + "\n\nPlan mode is on, do not edit any files."@) by {
        assert("\n\n"@ + "Plan mode is on, do not edit any files."@
            =~= "\n\nPlan mode is on, do not edit any files."@);
    }
    let due = crate::agent::intro_due(agent);
    let content = prompt_text(typed, agent.mode, due);
    prompts_begin_with_what_was_typed(typed, agent.mode, due);
    the_directory_is_told_once(
        content,
        attachment_urls(images),
        agent.context.messages@.len() == 0,
        opt_text(agent.working_directory),
    );
    let asked = run@.pending->0->User_text;
    assert(asked =~= content + asked.skip(content.len() as int)) by {
        assert(content =~= asked.take(content.len() as int));
    }
    if agent.context.messages@.len() == 0 && agent.working_directory is Some {
        assert(content + ("\nCurrent project dir which you are in : "@
            + agent.working_directory->0@) =~= content
            + "\nCurrent project dir which you are in : "@ + agent.working_directory->0@);
    }
}

/// Nothing is submitted while a run is in flight or something is loading, nor a prompt
/// that says nothing; any other prompt may be.
pub proof fn prompts_wait_for_their_turn(chat: ChatView, text: Seq<char>, images: nat)
    ensures
        may_submit(chat, text, images) <==> !chat.busy && chat.loading is None && (images > 0
            || !blank(text)),
{
    lemma_blank_trims_to_nothing(text);
}

/// The usage that is reported is the one that is shown, and a run that has finished
/// leaves a response at the end, below all that was shown before.
pub proof fn finished_runs_leave_a_response(chat: ChatView, usage: Usage, response: ResponseView)
    ensures
        ({
            let told = after_event(chat, Ok(AgentEvent::Usage { usage }));
            let done = after_event(chat, Ok(AgentEvent::Finished { usage, response }));
            &&& told.usage == usage
            &&& told.busy == chat.busy
            &&& told.entries == chat.entries
            &&& done.usage == usage
            &&& !done.busy
            &&& done.entries.len() > 0
            &&& done.entries.last() is Response
            &&& chat.entries.is_prefix_of(done.entries)
            &&& done.entries.len() <= chat.entries.len() + 1
        }),
{
    let done = after_event(chat, Ok(AgentEvent::Finished { usage, response }));
    assert(chat.entries =~= done.entries.take(chat.entries.len() as int));
}

/// What a tool put out last is what is shown of it, whatever was shown before, and how
/// it was called stays.
pub proof fn tools_show_their_last_output(
    entries: Transcript,
    at: int,
    output: Seq<char>,
    status: ToolStatus<Seq<char>>,
)
    requires
        0 <= at < entries.len(),
        entries[at] is ToolCall,
        forall|i: int|
            0 <= i < at ==> !is_call(#[trigger] entries[i], entries[at]->ToolCall_id),
    ensures
        with_outcome(entries, entries[at]->ToolCall_id, output, status) == entries.update(
            at,
            Entry::ToolCall {
                id: entries[at]->ToolCall_id,
                name: entries[at]->ToolCall_name,
                arguments: entries[at]->ToolCall_arguments,
                output,
                status,
            },
        ),
{
    lemma_first_call_is(entries, entries[at]->ToolCall_id, at);
}

/// Nothing of an entry is lost to its view.
pub proof fn entries_are_seen_whole(
    text: String,
    id: String,
    name: String,
    arguments: String,
    status: ToolStatus,
)
    ensures
        Entry::Prompt(text)@ == Entry::<Seq<char>>::Prompt(text@),
        Entry::Response(text)@ == Entry::<Seq<char>>::Response(text@),
        Entry::Reasoning(text)@ == Entry::<Seq<char>>::Reasoning(text@),
        Entry::Info(text)@ == Entry::<Seq<char>>::Info(text@),
        Entry::Error(text)@ == Entry::<Seq<char>>::Error(text@),
        ({
            let seen = Entry::ToolCall { id, name, arguments, output: text, status }@;
            &&& seen is ToolCall
            &&& seen->ToolCall_id == id@
            &&& seen->ToolCall_name == name@
            &&& seen->ToolCall_arguments == arguments@
            &&& seen->ToolCall_output == text@
            &&& seen->ToolCall_status is Failed <==> status is Failed
        }),
{
}

} // verus!
