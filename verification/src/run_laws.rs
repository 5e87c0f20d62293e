//! What runs are for: that prompts and what tools put out reach the model, that
//! tools are run as they were asked for, and that answers are handed out.
use crate::context::{
    as_llm, has_tool, is_tool_index, request_messages, requests_hold_the_conversation,
    tools_are_quoted, AgentMessage, AgentMessageView,
};
use crate::error::AgentError;
use crate::llm::{
    session_options, usage_sum, ContentPart, ImageUrl, LlmResponse, PromptCacheControl,
    ResponseView, Role, ToolCall, Usage,
};
use crate::mode::Mode;
use crate::prompt::{
    image_note, partial_view, short_outputs_are_their_own_tail, tail_text,
    tails_are_what_comes_last,
};
use crate::run::{
    coherent, decide, fits, lemma_first_tool_exists, lemma_tool_place, offered,
    offered_tools_are_the_permitted_ones, permitted, started, tool_place, Action, ActionView,
    AgentEvent, Decision, LlmEvent, Outcome, OutcomeView, RunView, SetupView, Stage, StageView,
    TalkView, ToolOutput,
};
use crate::text::lines;
use vstd::prelude::*;

verus! {

/// What a run decides next, when this came of what it decided last.
#[verifier::opaque]
pub open spec fn step(
    last: Decision,
    setup: SetupView,
    outcome: OutcomeView,
    cancelled: bool,
) -> Decision {
    decide(last.run, last.talk, setup, outcome, cancelled)
}

/// The conversation with one more message.
pub open spec fn with_one_more(talk: TalkView, message: AgentMessageView) -> TalkView {
    TalkView { messages: talk.messages.push(message), ..talk }
}

/// The answer to a call, with nothing but a text.
pub open spec fn text_result(id: Seq<char>, text: Seq<char>) -> AgentMessageView {
    AgentMessageView::ToolResult { tool_call_id: id, content: text, content_parts: Seq::empty() }
}

proof fn lemma_output(last: Decision, setup: SetupView, text: Seq<char>, cancelled: bool)
    requires
        last.run.stage is Running,
    ensures
        ({
            let id = last.run.calls[last.run.at as int].id;
            let kept = text_result(id, text);
            step(last, setup, OutcomeView::Output(ToolOutput::Text(text)), cancelled) == (Decision {
                run: RunView {
                    stage: Stage::Recording(
                        AgentEvent::ToolCallFinished { id, output: tail_text(text, 5) },
                    ),
                    pending: Some(kept),
                    ..last.run
                },
                talk: last.talk,
                action: ActionView::SaveMessage(kept),
            })
        }),
{
    reveal(step);
}

proof fn lemma_image(
    last: Decision,
    setup: SetupView,
    mime_type: Seq<char>,
    data: Seq<char>,
    cancelled: bool,
)
    requires
        last.run.stage is Running,
    ensures
        ({
            let next = step(
                last,
                setup,
                OutcomeView::Output(ToolOutput::Image { mime_type, data }),
                cancelled,
            );
            &&& next.run.stage is Recording
            &&& next.action is SaveMessage
            &&& next.run.pending == Some(next.action->SaveMessage_0)
            &&& next.talk == last.talk
            &&& next.action->SaveMessage_0 == (AgentMessageView::ToolResult {
                tool_call_id: last.run.calls[last.run.at as int].id,
                content: image_note(mime_type, data),
                content_parts: seq![
                    ContentPart::Image {
                        image_url: ImageUrl { url: "data:"@ + mime_type + ";base64,"@ + data },
                    },
                ],
            })
        }),
{
    reveal(step);
}

proof fn lemma_tool_error(last: Decision, setup: SetupView, error: Seq<char>, cancelled: bool)
    requires
        last.run.stage is Running,
    ensures
        ({
            let id = last.run.calls[last.run.at as int].id;
            let kept = text_result(id, error);
            step(last, setup, OutcomeView::ToolError(error), cancelled) == (Decision {
                run: RunView {
                    stage: Stage::Recording(AgentEvent::ToolCallFailed { id, error }),
                    pending: Some(kept),
                    ..last.run
                },
                talk: last.talk,
                action: ActionView::SaveMessage(kept),
            })
        }),
{
    reveal(step);
}

proof fn lemma_recorded(last: Decision, setup: SetupView, cancelled: bool)
    requires
        last.run.stage is Recording,
        last.run.pending is Some,
    ensures
        step(last, setup, OutcomeView::Done, cancelled) == (Decision {
            run: RunView { stage: Stage::Reporting, pending: None, ..last.run },
            talk: with_one_more(last.talk, last.run.pending->0),
            action: ActionView::Emit(last.run.stage->Recording_0),
        }),
{
    reveal(step);
}

proof fn lemma_asked_again(last: Decision, setup: SetupView)
    requires
        last.run.stage is Reporting,
        last.run.at + 1 >= last.run.calls.len(),
        last.run.rounds_left > 0,
    ensures
        step(last, setup, OutcomeView::Done, false).talk == last.talk,
        step(last, setup, OutcomeView::Done, false).action == (ActionView::Request {
            messages: request_messages(setup.system_prompt, setup.skills, last.talk.messages),
            tools: offered(setup.tools, last.run.mode, setup.tools.len()),
            options: session_options(last.run.session_id),
        }),
{
    reveal(step);
}

proof fn lemma_opened(last: Decision, setup: SetupView, cancelled: bool)
    requires
        last.run.stage is Session,
        last.run.pending is Some,
    ensures
        step(last, setup, OutcomeView::Done, cancelled) == (Decision {
            run: RunView { stage: Stage::User, ..last.run },
            talk: last.talk,
            action: ActionView::SaveMessage(last.run.pending->0),
        }),
{
    reveal(step);
}

proof fn lemma_user_saved(last: Decision, setup: SetupView)
    requires
        last.run.stage is User,
        last.run.pending is Some,
        last.run.rounds_left > 0,
    ensures
        ({
            let talk = with_one_more(last.talk, last.run.pending->0);
            step(last, setup, OutcomeView::Done, false) == (Decision {
                run: RunView {
                    stage: Stage::Opening,
                    rounds_left: (last.run.rounds_left - 1) as nat,
                    pending: None,
                    ..last.run
                },
                talk,
                action: ActionView::Request {
                    messages: request_messages(setup.system_prompt, setup.skills, talk.messages),
                    tools: offered(setup.tools, last.run.mode, setup.tools.len()),
                    options: session_options(last.run.session_id),
                },
            })
        }),
{
    reveal(step);
}

proof fn lemma_answer(
    last: Decision,
    setup: SetupView,
    response: ResponseView,
    cancelled: bool,
)
    requires
        last.run.stage is Streaming,
    ensures
        ({
            let next = step(last, setup, OutcomeView::Answer(response), cancelled);
            match response.usage {
                Some(usage) => {
                    let total = usage_sum(last.talk.usage, usage);
                    next == (Decision {
                        run: RunView {
                            stage: Stage::Settling(response),
                            round_usage_applied: true,
                            ..last.run
                        },
                        talk: TalkView { usage: total, ..last.talk },
                        action: ActionView::SaveUsage(total),
                    })
                },
                None => next == settled_with(last, response),
            }
        }),
{
    reveal(step);
}

/// What follows once an answer and its usage are taken in: the answer is saved.
spec fn settled_with(last: Decision, response: ResponseView) -> Decision {
    Decision {
        run: RunView {
            stage: if response.tool_calls().len() == 0 {
                Stage::Concluding(response)
            } else {
                Stage::Declaring
            },
            pending: Some(AgentMessageView::Assistant(response)),
            calls: response.tool_calls(),
            at: 0,
            ..last.run
        },
        talk: last.talk,
        action: ActionView::SaveMessage(AgentMessageView::Assistant(response)),
    }
}

proof fn lemma_settled(last: Decision, setup: SetupView, cancelled: bool)
    requires
        last.run.stage is Settling,
    ensures
        step(last, setup, OutcomeView::Done, cancelled) == settled_with(
            last,
            last.run.stage->Settling_0,
        ),
{
    reveal(step);
}

proof fn lemma_concluded(last: Decision, setup: SetupView, cancelled: bool)
    requires
        last.run.stage is Concluding,
        last.run.pending is Some,
    ensures
        step(last, setup, OutcomeView::Done, cancelled) == (Decision {
            run: RunView {
                stage: Stage::Finishing(last.run.stage->Concluding_0),
                pending: None,
                ..last.run
            },
            talk: with_one_more(last.talk, last.run.pending->0),
            action: ActionView::Emit(
                AgentEvent::Finished {
                    usage: last.talk.usage,
                    response: last.run.stage->Concluding_0,
                },
            ),
        }),
{
    reveal(step);
}

proof fn lemma_finished(last: Decision, setup: SetupView, cancelled: bool)
    requires
        last.run.stage is Finishing,
    ensures
        step(last, setup, OutcomeView::Done, cancelled).talk == last.talk,
        step(last, setup, OutcomeView::Done, cancelled).action == ActionView::Finish(
            Ok(last.run.stage->Finishing_0),
        ),
{
    reveal(step);
}

/// Whether a run has failed with an error and is being wound up, or is over.
spec fn failing(now: Decision, error: AgentError<Seq<char>>) -> bool {
    match now.run.stage {
        Stage::SavingUsage(e) => {
            &&& e == error
            &&& now.action is SaveUsage
            &&& now.action->SaveUsage_0 == now.talk.usage
        },
        Stage::SavingPartial(e) => {
            &&& e == error
            &&& now.run.partial.len() > 0
            &&& now.run.pending == Some(AgentMessageView::Assistant(partial_view(now.run.partial)))
            &&& now.action == ActionView::SaveMessage(now.run.pending->0)
        },
        Stage::Over => now.action == ActionView::Finish(Err(error)),
        _ => false,
    }
}

proof fn lemma_failed(
    last: Decision,
    setup: SetupView,
    error: AgentError<Seq<char>>,
    cancelled: bool,
)
    requires
        !(last.run.stage is Over),
    ensures
        ({
            let next = step(last, setup, OutcomeView::Failed(error), cancelled);
            let winding = last.run.stage is Session || last.run.stage is User
                || last.run.stage is SavingUsage || last.run.stage is SavingPartial;
            &&& failing(next, error)
            &&& next.talk.messages == last.talk.messages
            &&& next.run.partial == last.run.partial
            &&& winding ==> next.run.stage is Over && next.talk == last.talk
            &&& !winding ==> {
                let counts = last.run.round_usage is Some && !last.run.round_usage_applied;
                &&& next.run.stage is SavingUsage <==> counts
                &&& next.talk.usage == if counts {
                    usage_sum(last.talk.usage, last.run.round_usage->0)
                } else {
                    last.talk.usage
                }
                &&& !counts ==> (next.run.stage is SavingPartial <==> last.run.partial.len() > 0)
            }
        }),
{
    reveal(step);
}

proof fn lemma_wound_up(
    last: Decision,
    setup: SetupView,
    error: AgentError<Seq<char>>,
    cancelled: bool,
)
    requires
        failing(last, error),
        !(last.run.stage is Over),
    ensures
        ({
            let next = step(last, setup, OutcomeView::Done, cancelled);
            &&& failing(next, error)
            &&& next.talk.usage == last.talk.usage
            &&& last.run.stage is SavingUsage ==> {
                &&& next.talk == last.talk
                &&& next.run.partial == last.run.partial
                &&& if last.run.partial.len() > 0 {
                    next.run.stage is SavingPartial
                } else {
                    next.run.stage is Over
                }
            }
            &&& last.run.stage is SavingPartial ==> {
                &&& next.run.stage is Over
                &&& next.talk.messages == last.talk.messages.push(
                    AgentMessageView::Assistant(partial_view(last.run.partial)),
                )
            }
        }),
{
    reveal(step);
}

/// What a tool puts out is saved whole, as the answer to its call, and then joins
/// the conversation; only what the user is shown of it is cut.
pub proof fn tool_outputs_are_kept_whole(
    last: Decision,
    setup: SetupView,
    text: Seq<char>,
    cancelled: bool,
)
    requires
        last.run.stage is Running,
        coherent(last.run, last.talk, setup),
    ensures
        ({
            let id = last.run.calls[last.run.at as int].id;
            let put_out = step(
                last,
                setup,
                OutcomeView::Output(ToolOutput::Text(text)),
                cancelled,
            );
            let saved = step(put_out, setup, OutcomeView::Done, cancelled);
            let kept = AgentMessageView::ToolResult {
                tool_call_id: id,
                content: text,
                content_parts: Seq::empty(),
            };
            &&& put_out.action == ActionView::SaveMessage(kept)
            &&& put_out.talk == last.talk
            &&& saved.talk.messages == last.talk.messages.push(kept)
            &&& saved.talk.usage == last.talk.usage
            &&& saved.action is Emit
            &&& saved.action->Emit_0 is ToolCallFinished
            &&& saved.action->Emit_0->ToolCallFinished_id == id
        }),
{
    lemma_output(last, setup, text, cancelled);
    lemma_recorded(
        step(last, setup, OutcomeView::Output(ToolOutput::Text(text)), cancelled),
        setup,
        cancelled,
    );
}

/// An image that a tool puts out is saved as a part of the answer to its call, with
/// a note in place of a text.
pub proof fn tool_images_are_kept_whole(
    last: Decision,
    setup: SetupView,
    mime_type: Seq<char>,
    data: Seq<char>,
    cancelled: bool,
)
    requires
        last.run.stage is Running,
        coherent(last.run, last.talk, setup),
    ensures
        ({
            let put_out = step(
                last,
                setup,
                OutcomeView::Output(ToolOutput::Image { mime_type, data }),
                cancelled,
            );
            let saved = step(put_out, setup, OutcomeView::Done, cancelled);
            let kept = AgentMessageView::ToolResult {
                tool_call_id: last.run.calls[last.run.at as int].id,
                content: image_note(mime_type, data),
                content_parts: seq![
                    ContentPart::Image {
                        image_url: ImageUrl { url: "data:"@ + mime_type + ";base64,"@ + data },
                    },
                ],
            };
            &&& put_out.action == ActionView::SaveMessage(kept)
            &&& saved.talk.messages == last.talk.messages.push(kept)
        }),
{
    lemma_image(last, setup, mime_type, data, cancelled);
    lemma_recorded(
        step(last, setup, OutcomeView::Output(ToolOutput::Image { mime_type, data }), cancelled),
        setup,
        cancelled,
    );
}

/// Why a tool failed is saved whole, as the answer to its call, and told to the
/// user as it is.
pub proof fn tool_errors_are_kept_whole(
    last: Decision,
    setup: SetupView,
    error: Seq<char>,
    cancelled: bool,
)
    requires
        last.run.stage is Running,
        coherent(last.run, last.talk, setup),
    ensures
        ({
            let id = last.run.calls[last.run.at as int].id;
            let failed = step(last, setup, OutcomeView::ToolError(error), cancelled);
            let saved = step(failed, setup, OutcomeView::Done, cancelled);
            let kept = AgentMessageView::ToolResult {
                tool_call_id: id,
                content: error,
                content_parts: Seq::empty(),
            };
            &&& failed.action == ActionView::SaveMessage(kept)
            &&& saved.talk.messages == last.talk.messages.push(kept)
            &&& saved.action == ActionView::Emit(AgentEvent::ToolCallFailed { id, error })
        }),
{
    lemma_tool_error(last, setup, error, cancelled);
    lemma_recorded(
        step(last, setup, OutcomeView::ToolError(error), cancelled),
        setup,
        cancelled,
    );
}

/// The user is shown the last five lines of what a tool puts out, and all of it
/// where it has no more.
pub proof fn the_end_of_a_tool_output_is_shown(
    last: Decision,
    setup: SetupView,
    earlier: Seq<char>,
    end: Seq<char>,
    cancelled: bool,
)
    requires
        last.run.stage is Running,
        coherent(last.run, last.talk, setup),
        forall|i: int| 0 <= i < end.len() ==> #[trigger] end[i] != '\r',
        end.len() > 0 ==> end.last() != '\n',
    ensures
        ({
            let id = last.run.calls[last.run.at as int].id;
            let shown = ActionView::Emit(AgentEvent::ToolCallFinished { id, output: end });
            let long = step(
                last,
                setup,
                OutcomeView::Output(ToolOutput::Text(earlier.push('\n') + end)),
                cancelled,
            );
            let short = step(
                last,
                setup,
                OutcomeView::Output(ToolOutput::Text(end)),
                cancelled,
            );
            &&& lines(end).len() == 5 ==> step(
                long,
                setup,
                OutcomeView::Done,
                cancelled,
            ).action == shown
            &&& lines(end).len() <= 5 ==> step(
                short,
                setup,
                OutcomeView::Done,
                cancelled,
            ).action == shown
        }),
{
    let long = earlier.push('\n') + end;
    lemma_output(last, setup, end, cancelled);
    lemma_output(last, setup, long, cancelled);
    lemma_recorded(
        step(last, setup, OutcomeView::Output(ToolOutput::Text(end)), cancelled),
        setup,
        cancelled,
    );
    lemma_recorded(
        step(last, setup, OutcomeView::Output(ToolOutput::Text(long)), cancelled),
        setup,
        cancelled,
    );
    if lines(end).len() <= 5 {
        short_outputs_are_their_own_tail(end, 5);
    }
    if lines(end).len() == 5 {
        tails_are_what_comes_last(earlier, end);
    }
}

/// Once the last tool of an answer has put out its text, and the run goes on, the
/// model is asked again, and the request ends with that text as the answer to the
/// call.
pub proof fn tool_outputs_reach_the_model(last: Decision, setup: SetupView, text: Seq<char>)
    requires
        last.run.stage is Running,
        coherent(last.run, last.talk, setup),
        last.run.at + 1 == last.run.calls.len(),
        last.run.rounds_left > 0,
    ensures
        ({
            let put_out = step(last, setup, OutcomeView::Output(ToolOutput::Text(text)), false);
            let saved = step(put_out, setup, OutcomeView::Done, false);
            let shown = step(saved, setup, OutcomeView::Done, false);
            &&& shown.action is Request
            &&& shown.action->messages.len() > 0
            &&& shown.action->messages.last().role == Role::Tool
            &&& shown.action->messages.last().tool_call_id == Some(
                last.run.calls[last.run.at as int].id,
            )
            &&& shown.action->messages.last().content == Some(text)
        }),
{
    let id = last.run.calls[last.run.at as int].id;
    let put_out = step(last, setup, OutcomeView::Output(ToolOutput::Text(text)), false);
    lemma_output(last, setup, text, false);
    lemma_recorded(put_out, setup, false);
    lemma_asked_again(step(put_out, setup, OutcomeView::Done, false), setup);
    let all = last.talk.messages.push(text_result(id, text));
    requests_hold_the_conversation(setup.system_prompt, setup.skills, all);
    tools_are_quoted(id, text, Seq::empty());
    assert(all[all.len() - 1] == text_result(id, text));
}

/// A run that starts saves the user's message first, and then puts it to the model
/// at the end of the conversation, where a round is left and the run goes on.
pub proof fn prompts_reach_the_model(
    message: AgentMessageView,
    mode: Mode,
    stream: bool,
    rounds: nat,
    session_id: Seq<char>,
    talk: TalkView,
    setup: SetupView,
)
    requires
        rounds > 0,
    ensures
        ({
            let begun = Decision {
                run: started(message, mode, stream, rounds, session_id),
                talk,
                action: ActionView::OpenSession,
            };
            let opened = step(begun, setup, OutcomeView::Done, false);
            let saved = step(opened, setup, OutcomeView::Done, false);
            &&& opened.action == ActionView::SaveMessage(message)
            &&& opened.talk == talk
            &&& saved.talk.messages == talk.messages.push(message)
            &&& saved.talk.usage == talk.usage
            &&& saved.run.mode == mode
            &&& saved.run.stream == stream
            &&& saved.action is Request
            &&& saved.action->messages.len() > 0
            &&& saved.action->messages.last() == as_llm(message)
        }),
{
    let begun = Decision {
        run: started(message, mode, stream, rounds, session_id),
        talk,
        action: ActionView::OpenSession,
    };
    lemma_opened(begun, setup, false);
    lemma_user_saved(step(begun, setup, OutcomeView::Done, false), setup);
    let all = talk.messages.push(message);
    requests_hold_the_conversation(setup.system_prompt, setup.skills, all);
    assert(all[all.len() - 1] == message);
}

proof fn lemma_requests(
    run: RunView,
    talk: TalkView,
    setup: SetupView,
    outcome: OutcomeView,
    cancelled: bool,
)
    ensures
        ({
            let next = decide(run, talk, setup, outcome, cancelled);
            next.action is Request ==> {
                &&& next.action->messages == request_messages(
                    setup.system_prompt,
                    setup.skills,
                    next.talk.messages,
                )
                &&& next.action->tools == offered(setup.tools, run.mode, setup.tools.len())
                &&& !cancelled
            }
        }),
{
}

/// Every request holds the whole conversation as it then is, in order, behind the
/// system prompt; and a run that was called off makes none.
pub proof fn requests_are_complete(
    run: RunView,
    talk: TalkView,
    setup: SetupView,
    outcome: OutcomeView,
    cancelled: bool,
    i: int,
)
    requires
        decide(run, talk, setup, outcome, cancelled).action is Request,
        0 <= i < decide(run, talk, setup, outcome, cancelled).talk.messages.len(),
    ensures
        ({
            let next = decide(run, talk, setup, outcome, cancelled);
            let first = next.action->messages.len() - next.talk.messages.len();
            &&& !cancelled
            &&& 0 <= first <= 1
            &&& next.action->messages[first + i] == as_llm(next.talk.messages[i])
        }),
{
    let next = decide(run, talk, setup, outcome, cancelled);
    lemma_requests(run, talk, setup, outcome, cancelled);
    requests_hold_the_conversation(setup.system_prompt, setup.skills, next.talk.messages);
    assert(next.talk.messages[i] == next.talk.messages[i]);
}

/// Every request offers exactly the tools that the mode permits: all of them in
/// normal mode, and else those that only read and the shell.
pub proof fn requests_offer_the_permitted_tools(
    run: RunView,
    talk: TalkView,
    setup: SetupView,
    outcome: OutcomeView,
    cancelled: bool,
    k: int,
)
    requires
        setup.tools.len() <= usize::MAX,
        decide(run, talk, setup, outcome, cancelled).action is Request,
        0 <= k < setup.tools.len(),
    ensures
        decide(run, talk, setup, outcome, cancelled).action->tools.contains(k as usize) <==> (
        run.mode == Mode::Normal || setup.tools[k].read_only || setup.tools[k].definition.name@
            == "bash"@),
{
    lemma_requests(run, talk, setup, outcome, cancelled);
    offered_tools_are_the_permitted_ones(setup.tools, run.mode, setup.tools.len());
    assert(permitted(setup.tools[k], run.mode) <==> offered(
        setup.tools,
        run.mode,
        setup.tools.len(),
    ).contains(k as usize));
}

/// A tool is run as the model asked for it: with the call that is next in the answer
/// that ends the conversation, results aside, and it is the first tool of the name
/// that the call gives. Outside normal mode it is one that only reads, or the shell.
pub proof fn tools_are_run_as_asked(
    run: RunView,
    talk: TalkView,
    setup: SetupView,
    outcome: OutcomeView,
    cancelled: bool,
)
    requires
        coherent(run, talk, setup),
        fits(run.stage, outcome),
        decide(run, talk, setup, outcome, cancelled).action is RunTool,
    ensures
        ({
            let action = decide(run, talk, setup, outcome, cancelled).action;
            let tool = setup.tools[action->RunTool_index as int];
            let answer = talk.messages[talk.messages.len() - run.at - 1];
            &&& action->RunTool_index < setup.tools.len()
            &&& tool.definition.name@ == action->RunTool_call.name
            &&& forall|k: int|
                0 <= k < action->RunTool_index ==> (#[trigger] setup.tools[k]).definition.name@
                    != action->RunTool_call.name
            &&& answer is Assistant
            &&& run.at < answer->Assistant_0.tool_calls().len()
            &&& action->RunTool_call == answer->Assistant_0.tool_calls()[run.at as int]
            &&& run.mode == Mode::Normal || tool.read_only || tool.definition.name@ == "bash"@
        }),
{
}

/// Which call of the answer is next.
pub open spec fn next_at(run: RunView) -> int {
    if run.stage is Reporting {
        run.at as int + 1
    } else {
        run.at as int
    }
}

/// The next tool that an answer asks for is started, where it is known and the mode
/// permits it: the user is told of it by the call itself, and then it is run.
pub proof fn known_tools_are_run(last: Decision, setup: SetupView, place: int)
    requires
        last.run.stage is Reporting || last.run.stage is Declaring,
        setup.tools.len() <= usize::MAX,
        coherent(last.run, last.talk, setup),
        next_at(last.run) < last.run.calls.len(),
        is_tool_index(setup.tools, last.run.calls[next_at(last.run)].name, place),
        last.run.mode == Mode::Normal || setup.tools[place].read_only
            || setup.tools[place].definition.name@ == "bash"@,
    ensures
        ({
            let call = last.run.calls[next_at(last.run)];
            let told = step(last, setup, OutcomeView::Done, false);
            let begun = step(told, setup, OutcomeView::Done, false);
            &&& told.action == ActionView::Emit(
                AgentEvent::ToolCallStarted {
                    id: call.id,
                    name: call.name,
                    arguments: call.arguments,
                },
            )
            &&& begun.action == (ActionView::RunTool { index: place as usize, call })
            &&& begun.talk == told.talk
        }),
{
    lemma_told(last, setup, place);
    lemma_begun(step(last, setup, OutcomeView::Done, false), setup);
}

proof fn lemma_told(last: Decision, setup: SetupView, place: int)
    requires
        last.run.stage is Reporting || last.run.stage is Declaring,
        setup.tools.len() <= usize::MAX,
        coherent(last.run, last.talk, setup),
        next_at(last.run) < last.run.calls.len(),
        is_tool_index(setup.tools, last.run.calls[next_at(last.run)].name, place),
        last.run.mode == Mode::Normal || setup.tools[place].read_only
            || setup.tools[place].definition.name@ == "bash"@,
    ensures
        ({
            let call = last.run.calls[next_at(last.run)];
            let told = step(last, setup, OutcomeView::Done, false);
            &&& told.action == ActionView::Emit(
                AgentEvent::ToolCallStarted {
                    id: call.id,
                    name: call.name,
                    arguments: call.arguments,
                },
            )
            &&& told.run.stage == StageView::Starting(place as usize)
            &&& told.run.calls == last.run.calls
            &&& told.run.at == next_at(last.run)
        }),
{
    reveal(step);
    lemma_tool_place(setup.tools, last.run.calls[next_at(last.run)].name, place);
}

proof fn lemma_begun(last: Decision, setup: SetupView)
    requires
        last.run.stage is Starting,
    ensures
        step(last, setup, OutcomeView::Done, false).talk == last.talk,
        step(last, setup, OutcomeView::Done, false).action == (ActionView::RunTool {
            index: last.run.stage->Starting_0,
            call: last.run.calls[last.run.at as int],
        }),
{
    reveal(step);
}

/// What is left to do when a run fails: its decisions while it is wound up, with
/// everything that is to be saved saved.
pub open spec fn wound_up(failed: Decision, setup: SetupView, cancelled: bool) -> Decision {
    let once = if failed.action is Finish {
        failed
    } else {
        step(failed, setup, OutcomeView::Done, cancelled)
    };
    if once.action is Finish {
        once
    } else {
        step(once, setup, OutcomeView::Done, cancelled)
    }
}

proof fn lemma_wind_up(
    failed: Decision,
    setup: SetupView,
    error: AgentError<Seq<char>>,
    cancelled: bool,
)
    requires
        failing(failed, error),
    ensures
        ({
            let ended = wound_up(failed, setup, cancelled);
            &&& ended.action == ActionView::Finish(Err(error))
            &&& ended.run.stage is Over
            &&& ended.talk.usage == failed.talk.usage
            &&& ended.talk.messages == if !(failed.run.stage is Over) && failed.run.partial.len()
                > 0 {
                failed.talk.messages.push(
                    AgentMessageView::Assistant(partial_view(failed.run.partial)),
                )
            } else {
                failed.talk.messages
            }
        }),
{
    if !(failed.run.stage is Over) {
        lemma_wound_up(failed, setup, error, cancelled);
        let once = step(failed, setup, OutcomeView::Done, cancelled);
        if !(once.run.stage is Over) {
            lemma_wound_up(once, setup, error, cancelled);
        }
    }
}

/// A run whose action fails ends with that error, whatever it was doing. Before the
/// first answer nothing more is kept. After that the text of the answer that broke
/// off is kept, and its usage is counted, unless it was counted already.
pub proof fn failures_end_the_run(
    last: Decision,
    setup: SetupView,
    error: AgentError<Seq<char>>,
    cancelled: bool,
)
    requires
        !(last.run.stage is Over),
    ensures
        ({
            let failed = step(last, setup, OutcomeView::Failed(error), cancelled);
            let ended = wound_up(failed, setup, cancelled);
            let winding = last.run.stage is Session || last.run.stage is User
                || last.run.stage is SavingUsage || last.run.stage is SavingPartial;
            &&& ended.action == ActionView::Finish(Err(error))
            &&& ended.run.stage is Over
            &&& winding ==> ended.talk == last.talk
            &&& !winding ==> ended.talk.messages == if last.run.partial.len() > 0 {
                last.talk.messages.push(
                    AgentMessageView::Assistant(partial_view(last.run.partial)),
                )
            } else {
                last.talk.messages
            }
            &&& !winding ==> ended.talk.usage == match last.run.round_usage {
                Some(usage) => if last.run.round_usage_applied {
                    last.talk.usage
                } else {
                    usage_sum(last.talk.usage, usage)
                },
                None => last.talk.usage,
            }
        }),
{
    lemma_failed(last, setup, error, cancelled);
    let failed = step(last, setup, OutcomeView::Failed(error), cancelled);
    lemma_wind_up(failed, setup, error, cancelled);
}

proof fn lemma_stops(last: Decision, setup: SetupView, cancelled: bool)
    requires
        coherent(last.run, last.talk, setup),
        last.run.stage is User || last.run.stage is Reporting || last.run.stage is Declaring,
        last.run.stage is Declaring ==> cancelled,
        cancelled || last.run.rounds_left == 0,
        last.run.stage is Reporting && !cancelled ==> last.run.at + 1 == last.run.calls.len(),
    ensures
        failing(
            step(last, setup, OutcomeView::Done, cancelled),
            if cancelled && !(last.run.stage is User && last.run.rounds_left == 0) {
                AgentError::Aborted
            } else {
                AgentError::MaxToolRounds
            },
        ),
{
    reveal(step);
}

/// A run that has no round left, or was called off, asks the model no more and runs
/// no other tool; it ends with the error that says so.
pub proof fn runs_stop_when_they_have_to(last: Decision, setup: SetupView, cancelled: bool)
    requires
        coherent(last.run, last.talk, setup),
        last.run.stage is User || last.run.stage is Reporting || last.run.stage is Declaring,
        last.run.stage is Declaring ==> cancelled,
        cancelled || last.run.rounds_left == 0,
        last.run.stage is Reporting && !cancelled ==> last.run.at + 1 == last.run.calls.len(),
    ensures
        ({
            let next = step(last, setup, OutcomeView::Done, cancelled);
            &&& !(next.action is Request)
            &&& !(next.action is Emit)
            &&& wound_up(next, setup, cancelled).action == ActionView::Finish(
                Err(
                    if cancelled && !(last.run.stage is User && last.run.rounds_left == 0) {
                        AgentError::Aborted
                    } else {
                        AgentError::MaxToolRounds
                    },
                ),
            )
        }),
{
    let error: AgentError<Seq<char>> = if cancelled && !(last.run.stage is User
        && last.run.rounds_left == 0) {
        AgentError::Aborted
    } else {
        AgentError::MaxToolRounds
    };
    lemma_stops(last, setup, cancelled);
    lemma_wind_up(step(last, setup, OutcomeView::Done, cancelled), setup, error, cancelled);
}

proof fn lemma_refused(last: Decision, setup: SetupView)
    requires
        last.run.stage is Reporting || last.run.stage is Declaring,
        setup.tools.len() <= usize::MAX,
        coherent(last.run, last.talk, setup),
        next_at(last.run) < last.run.calls.len(),
        forall|k: int|
            is_tool_index(setup.tools, last.run.calls[next_at(last.run)].name, k) ==> last.run.mode
                != Mode::Normal && !(#[trigger] setup.tools[k]).read_only
                && setup.tools[k].definition.name@ != "bash"@,
    ensures
        failing(
            step(last, setup, OutcomeView::Done, false),
            AgentError::ToolNotFound(last.run.calls[next_at(last.run)].name),
        ),
{
    reveal(step);
    let name = last.run.calls[next_at(last.run)].name;
    if has_tool(setup.tools, name) {
        lemma_first_tool_exists(setup.tools, name);
        assert(!setup.tools[tool_place(setup.tools, name)].read_only);
    }
}

/// A tool that is not known, or that the mode does not permit, ends the run with an
/// error that names it; it is not run.
pub proof fn other_tools_end_the_run(last: Decision, setup: SetupView)
    requires
        last.run.stage is Reporting || last.run.stage is Declaring,
        setup.tools.len() <= usize::MAX,
        coherent(last.run, last.talk, setup),
        next_at(last.run) < last.run.calls.len(),
        forall|k: int|
            is_tool_index(setup.tools, last.run.calls[next_at(last.run)].name, k) ==> last.run.mode
                != Mode::Normal && !(#[trigger] setup.tools[k]).read_only
                && setup.tools[k].definition.name@ != "bash"@,
    ensures
        ({
            let next = step(last, setup, OutcomeView::Done, false);
            &&& !(next.action is Emit)
            &&& wound_up(next, setup, false).action == ActionView::Finish(
                Err(AgentError::ToolNotFound(last.run.calls[next_at(last.run)].name)),
            )
        }),
{
    lemma_refused(last, setup);
    lemma_wind_up(
        step(last, setup, OutcomeView::Done, false),
        setup,
        AgentError::ToolNotFound(last.run.calls[next_at(last.run)].name),
        false,
    );
}

/// An answer that asks for no tool is the result of the run: it is saved, reported
/// with the usage of the conversation, and handed out, all as it came.
pub proof fn final_answers_are_handed_out(
    last: Decision,
    setup: SetupView,
    response: ResponseView,
    cancelled: bool,
)
    requires
        last.run.stage is Streaming,
        response.tool_calls().len() == 0,
    ensures
        ({
            let came = step(last, setup, OutcomeView::Answer(response), cancelled);
            let settled = if response.usage is Some {
                step(came, setup, OutcomeView::Done, cancelled)
            } else {
                came
            };
            let saved = step(settled, setup, OutcomeView::Done, cancelled);
            let told = step(saved, setup, OutcomeView::Done, cancelled);
            let total = match response.usage {
                Some(usage) => usage_sum(last.talk.usage, usage),
                None => last.talk.usage,
            };
            &&& response.usage is Some ==> came.action == ActionView::SaveUsage(total)
            &&& settled.action == ActionView::SaveMessage(AgentMessageView::Assistant(response))
            &&& saved.talk.messages == last.talk.messages.push(
                AgentMessageView::Assistant(response),
            )
            &&& saved.talk.usage == total
            &&& saved.action == ActionView::Emit(AgentEvent::Finished { usage: total, response })
            &&& told.action == ActionView::Finish(Ok(response))
            &&& told.talk == saved.talk
        }),
{
    let came = step(last, setup, OutcomeView::Answer(response), cancelled);
    lemma_answer(last, setup, response, cancelled);
    if response.usage is Some {
        lemma_settled(came, setup, cancelled);
    }
    let settled = if response.usage is Some {
        step(came, setup, OutcomeView::Done, cancelled)
    } else {
        came
    };
    lemma_concluded(settled, setup, cancelled);
    lemma_finished(step(settled, setup, OutcomeView::Done, cancelled), setup, cancelled);
}

/// An answer that asks for tools is saved as it came, before any of them is run,
/// and its usage is counted once. The tools that come next are all those that it
/// asks for.
pub proof fn answers_with_calls_are_saved(
    last: Decision,
    setup: SetupView,
    response: ResponseView,
    cancelled: bool,
)
    requires
        last.run.stage is Streaming,
        response.tool_calls().len() > 0,
    ensures
        ({
            let came = step(last, setup, OutcomeView::Answer(response), cancelled);
            let settled = if response.usage is Some {
                step(came, setup, OutcomeView::Done, cancelled)
            } else {
                came
            };
            &&& came.action is SaveUsage <==> response.usage is Some
            &&& settled.action == ActionView::SaveMessage(AgentMessageView::Assistant(response))
            &&& settled.run.calls == response.tool_calls()
            &&& settled.run.at == 0
            &&& settled.run.stage is Declaring
            &&& settled.talk.messages == last.talk.messages
            &&& settled.talk.usage == match response.usage {
                Some(usage) => usage_sum(last.talk.usage, usage),
                None => last.talk.usage,
            }
        }),
{
    lemma_answer(last, setup, response, cancelled);
    if response.usage is Some {
        lemma_settled(
            step(last, setup, OutcomeView::Answer(response), cancelled),
            setup,
            cancelled,
        );
    }
}

/// What comes in of an answer is reported as it comes, where the run is streamed,
/// and its text adds up; otherwise nothing is reported of it.
pub proof fn streams_are_reported(
    run: RunView,
    talk: TalkView,
    setup: SetupView,
    text: Seq<char>,
    cancelled: bool,
)
    requires
        run.stage is Streaming,
    ensures
        ({
            let said = decide(
                run,
                talk,
                setup,
                OutcomeView::Event(LlmEvent::TextDelta { text }),
                cancelled,
            );
            let thought = decide(
                run,
                talk,
                setup,
                OutcomeView::Event(LlmEvent::ReasoningDelta { reasoning: text }),
                cancelled,
            );
            &&& said.run == (RunView { partial: run.partial + text, ..run })
            &&& thought.run == run
            &&& said.talk == talk && thought.talk == talk
            &&& run.stream ==> {
                &&& said.action == ActionView::Emit(AgentEvent::TextDelta(text))
                &&& thought.action == ActionView::Emit(AgentEvent::ReasoningDelta(text))
            }
            &&& !run.stream ==> said.action is Await && thought.action is Await
        }),
{
}

/// A report of usage tells the conversation's together with the round's, and is
/// kept in case the round breaks off.
pub proof fn usage_is_reported(
    run: RunView,
    talk: TalkView,
    setup: SetupView,
    usage: Usage,
    cancelled: bool,
)
    requires
        run.stage is Streaming,
    ensures
        ({
            let used = decide(
                run,
                talk,
                setup,
                OutcomeView::Event(LlmEvent::Usage { usage }),
                cancelled,
            );
            &&& used.run == (RunView { round_usage: Some(usage), ..run })
            &&& used.talk == talk
            &&& run.stream ==> used.action == ActionView::Emit(
                AgentEvent::Usage { usage: usage_sum(talk.usage, usage) },
            )
            &&& !run.stream ==> used.action is Await
        }),
{
}

/// A new stream begins with nothing: no text, and no usage of the round before.
pub proof fn streams_begin_with_nothing(
    run: RunView,
    talk: TalkView,
    setup: SetupView,
    cancelled: bool,
)
    requires
        run.stage is Opening,
    ensures
        ({
            let next = decide(run, talk, setup, OutcomeView::Done, cancelled);
            &&& next.run.stage is Streaming
            &&& next.run.partial.len() == 0
            &&& next.run.round_usage is None
            &&& !next.run.round_usage_applied
            &&& next.action is Await
            &&& next.talk == talk
        }),
{
}

/// Every request says which session it belongs to, and the provider is to keep what it
/// has of it under that name for an hour.
pub proof fn requests_name_their_session(
    run: RunView,
    talk: TalkView,
    setup: SetupView,
    outcome: OutcomeView,
    cancelled: bool,
)
    requires
        decide(run, talk, setup, outcome, cancelled).action is Request,
    ensures
        ({
            let next = decide(run, talk, setup, outcome, cancelled);
            &&& next.action->options.session_id == Some(next.run.session_id)
            &&& next.action->options.prompt_cache_key == Some(next.run.session_id)
            &&& next.action->options.cache_control == Some(PromptCacheControl::OneHour)
        }),
{
}

/// Nothing that a tool put out, or that is to be saved, run or told, is lost to its view.
pub proof fn outcomes_and_actions_are_seen_whole(
    text: String,
    message: AgentMessage,
    call: ToolCall,
    index: usize,
    response: LlmResponse,
)
    ensures
        Outcome::Output(ToolOutput::Text(text))@ == OutcomeView::Output(ToolOutput::Text(text@)),
        Outcome::ToolError(text)@ == OutcomeView::ToolError(text@),
        Outcome::Opened(text)@ == OutcomeView::Opened(text@),
        Action::SaveMessage(message)@ == ActionView::SaveMessage(message@),
        Action::Finish(Ok(response))@ == ActionView::Finish(Ok(response@)),
        ({
            let seen = (Action::RunTool { index, call })@;
            &&& seen is RunTool
            &&& seen->RunTool_index == index
            &&& seen->RunTool_call.id == call.id@
            &&& seen->RunTool_call.name == call.name@
            &&& seen->RunTool_call.arguments == call.arguments@
        }),
{
}

} // verus!
