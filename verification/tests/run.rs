//! Runs driven by a scripted model and scripted tools.
use alan::agent::{into_response, Agent, Model, ModelInfo};
use alan::context::{AgentMessage, AgentTool, ToolDefinition};
use alan::error::{AgentError, ModelError, SessionError, StoreError};
use alan::llm::{
    ContentBlock, ImageUrl, LlmResponse, Message, PromptCacheControl, ReasoningEffort,
    RequestOptions, StopReason, ToolCall, Usage,
};
use alan::mode::Mode;
use alan::prompt::PromptBuilder;
use alan::run::{Action, AgentEvent, LlmEvent, Outcome, Run, ToolOutput};
use alan::session::manager::SessionManager;
use alan::session::record::Session;

fn model() -> Model {
    Model {
        info: ModelInfo {
            provider: "openrouter".into(),
            id: "test".into(),
            name: "Test".into(),
            context_length: None,
        },
        reasoning_effort: ReasoningEffort::Auto,
    }
}

fn agent() -> Agent {
    match Agent::builder(model()).build() {
        Ok(agent) => agent,
        Err(error) => panic!("{}", error.message()),
    }
}

fn tool(name: &str) -> AgentTool {
    AgentTool::new(ToolDefinition {
        name: name.into(),
        description: String::new(),
        parameters: serde_json::Value::Null,
    })
}

fn usage(input: u64, output: u64) -> Usage {
    Usage {
        input_tokens: input,
        output_tokens: output,
    }
}

fn text_answer(text: &str, usage: Option<Usage>) -> LlmResponse {
    LlmResponse {
        content: vec![ContentBlock::Text(text.into())],
        stop_reason: StopReason::Stop,
        usage,
        model: Some("test".into()),
        reasoning: None,
        reasoning_details: Vec::new(),
    }
}

fn call(id: &str, name: &str) -> ToolCall {
    ToolCall {
        id: id.into(),
        name: name.into(),
        arguments: "{\"command\":\"echo hi\"}".into(),
        signature: None,
    }
}

fn tool_answer(calls: Vec<ToolCall>, usage: Option<Usage>) -> LlmResponse {
    LlmResponse {
        content: calls.into_iter().map(ContentBlock::ToolCall).collect(),
        stop_reason: StopReason::ToolUse,
        ..text_answer("", usage)
    }
}

/// What a scripted round sends: events, and then an answer or an error.
struct Round {
    events: Vec<LlmEvent>,
    end: Result<LlmResponse, AgentError>,
}

fn says(text: &str) -> Round {
    Round {
        events: vec![LlmEvent::TextDelta { text: text.into() }],
        end: Ok(text_answer(text, None)),
    }
}

/// What came of a run.
struct Played {
    events: Vec<AgentEvent>,
    requests: Vec<(Vec<Message>, Vec<usize>)>,
    options: Vec<RequestOptions>,
    saved: Vec<AgentMessage>,
    saved_usage: Vec<Usage>,
    ran: Vec<(usize, String)>,
    result: Result<LlmResponse, AgentError>,
}

/// Carry out a run with scripted rounds and tools.
fn play(
    agent: &mut Agent,
    started: (Run, Action),
    rounds: Vec<Round>,
    tools: fn(&ToolCall) -> Outcome,
    cancel_after: Option<usize>,
) -> Played {
    let (mut run, mut action) = started;
    let mut rounds = rounds.into_iter();
    let mut current: Option<(std::vec::IntoIter<LlmEvent>, Option<Result<LlmResponse, AgentError>>)> =
        None;
    let mut played = Played {
        events: Vec::new(),
        requests: Vec::new(),
        options: Vec::new(),
        saved: Vec::new(),
        saved_usage: Vec::new(),
        ran: Vec::new(),
        result: Err(AgentError::EventStreamClosed),
    };
    for step in 0..10_000 {
        let outcome = match action {
            Action::OpenSession if agent.needs_session() => {
                let session =
                    Session::new("/p".into(), "openrouter".into(), "test".into(), None, 1);
                agent.adopt_session(session)
            }
            Action::OpenSession => Outcome::Done,
            Action::SaveMessage(message) => {
                played.saved.push(message);
                Outcome::Done
            }
            Action::SaveUsage(usage) => {
                played.saved_usage.push(usage);
                Outcome::Done
            }
            Action::Request {
                messages,
                tools,
                options,
            } => {
                played.requests.push((messages, tools));
                played.options.push(options);
                let round = rounds.next().expect("a round");
                current = Some((round.events.into_iter(), Some(round.end)));
                Outcome::Done
            }
            Action::Await => {
                let (events, end) = current.as_mut().expect("a stream");
                match events.next() {
                    Some(event) => Outcome::Event(event),
                    None => match end.take().expect("one end") {
                        Ok(response) => Outcome::Answer(response),
                        Err(error) => Outcome::Failed(error),
                    },
                }
            }
            Action::Emit(event) => {
                played.events.push(event);
                Outcome::Done
            }
            Action::RunTool { index, call } => {
                played.ran.push((index, call.name.clone()));
                tools(&call)
            }
            Action::Finish(result) => {
                played.result = result;
                return played;
            }
        };
        let cancelled = cancel_after.map_or(false, |after| step >= after);
        let next = run.advance(&mut agent.context, outcome, cancelled);
        run = next.0;
        action = next.1;
    }
    panic!("the run never ended");
}

fn echo(_call: &ToolCall) -> Outcome {
    Outcome::Output(ToolOutput::Text("hi".into()))
}

fn ask(agent: &mut Agent, text: &str, stream: bool) -> (Run, Action) {
    let prompt = agent.prompt().content(text.into()).stream(stream);
    match agent.ask(prompt) {
        Ok(started) => started,
        Err(error) => panic!("{}", error.message()),
    }
}

fn text_of(message: &AgentMessage) -> String {
    match message {
        AgentMessage::User { text, .. } => format!("user: {text}"),
        AgentMessage::Assistant(response) => format!("assistant: {}", response.text()),
        AgentMessage::ToolResult {
            tool_call_id,
            content,
            ..
        } => format!("{tool_call_id}: {content}"),
    }
}

fn history(agent: &Agent) -> Vec<String> {
    agent.messages().iter().map(text_of).collect()
}

#[test]
fn tests_prompt_owns_history_and_system_prompt() {
    let mut agent = agent();
    agent.context.system_prompt = Some("Be helpful".into());
    let started = ask(&mut agent, "hello", false);
    let played = play(&mut agent, started, vec![says("echo: hello")], echo, None);
    assert_eq!(played.result.unwrap().text(), "echo: hello");
    assert_eq!(agent.messages().len(), 2);
    assert_eq!(
        played.requests[0].0[0],
        Message::system("Be helpful".into())
    );
    assert_eq!(played.saved, agent.messages());
}

#[test]
fn stream_false_suppresses_text_deltas() {
    let mut agent = agent();
    let started = ask(&mut agent, "hello", false);
    let played = play(&mut agent, started, vec![says("echo: hello")], echo, None);

    // Only Finished should arrive.
    assert_eq!(played.events.len(), 1);
    assert!(matches!(&played.events[0], AgentEvent::Finished { .. }));
    assert_eq!(agent.messages().len(), 2);
}

#[test]
fn stream_true_emits_text_deltas_and_finished() {
    let mut agent = agent();
    let started = ask(&mut agent, "hello", true);
    let played = play(&mut agent, started, vec![says("echo: hello")], echo, None);

    assert!(matches!(
        &played.events[0],
        AgentEvent::TextDelta(text) if text == "echo: hello"
    ));
    assert!(matches!(
        played.events.last(),
        Some(AgentEvent::Finished { .. })
    ));
    assert_eq!(agent.messages().len(), 2);
}

#[test]
fn stream_true_emits_reasoning_and_text_deltas() {
    let mut agent = agent();
    let started = ask(&mut agent, "hello", true);
    let round = Round {
        events: vec![
            LlmEvent::ReasoningDelta {
                reasoning: "thinking...".into(),
            },
            LlmEvent::TextDelta {
                text: "done thinking".into(),
            },
            LlmEvent::Other,
        ],
        end: Ok(LlmResponse {
            reasoning: Some("thinking...".into()),
            ..text_answer("done thinking", None)
        }),
    };
    let played = play(&mut agent, started, vec![round], echo, None);
    assert_eq!(
        played.events[0],
        AgentEvent::ReasoningDelta("thinking...".into())
    );
    assert_eq!(
        played.events[1],
        AgentEvent::TextDelta("done thinking".into())
    );
    assert!(matches!(
        played.events.last(),
        Some(AgentEvent::Finished { .. })
    ));
    let messages = agent.messages();
    assert_eq!(messages.len(), 2);
    if let AgentMessage::Assistant(resp) = &messages[1] {
        assert_eq!(resp.reasoning.as_deref(), Some("thinking..."));
        assert_eq!(resp.text(), "done thinking");
    } else {
        panic!("expected assistant message");
    }
}

#[test]
fn empty_prompt_content_returns_error() {
    let mut agent = agent();
    let result = agent.ask(PromptBuilder::new().content("   ".into()));
    match result {
        Err(error) => assert_eq!(
            error,
            AgentError::Model(ModelError::Configuration("empty prompt".into()))
        ),
        Ok(_) => panic!("must reject blank prompt"),
    }
}

#[test]
fn missing_content_returns_error() {
    let mut agent = agent();
    assert!(
        agent.ask(PromptBuilder::new()).is_err(),
        "must reject builder with no content"
    );
}

#[test]
fn images_are_passed_through_builder() {
    let mut agent = agent();
    let images = vec![ImageUrl {
        url: "data:image/png;base64,abc123".into(),
    }];
    let prompt = agent
        .prompt()
        .content("describe this".into())
        .images(images);
    let started = match agent.ask(prompt) {
        Ok(started) => started,
        Err(error) => panic!("{}", error.message()),
    };
    let played = play(&mut agent, started, vec![says("ok")], echo, None);
    let parts = played.requests[0].0[0].content_parts.as_ref().unwrap();
    assert_eq!(parts.len(), 2);
    assert!(agent
        .ask(PromptBuilder::new().content("".into()).images(vec![ImageUrl {
            url: "x".into()
        }]))
        .is_ok());
}

#[test]
fn tests_streaming_error_preserves_previous_history() {
    let mut agent = agent();
    let started = ask(&mut agent, "first", false);
    play(&mut agent, started, vec![says("first response")], echo, None);

    let started = ask(&mut agent, "second", true);
    let broken = Round {
        events: vec![LlmEvent::TextDelta {
            text: "partial response".into(),
        }],
        end: Err(AgentError::Model(ModelError::Failed(
            "invalid response: stream ended without [DONE]".into(),
        ))),
    };
    let played = play(&mut agent, started, vec![broken], echo, None);
    assert_eq!(
        played.result.unwrap_err().message(),
        "invalid response: stream ended without [DONE]"
    );
    assert_eq!(
        history(&agent),
        [
            "user: first",
            "assistant: first response",
            "user: second",
            "assistant: partial response"
        ]
    );
    match &agent.messages()[3] {
        AgentMessage::Assistant(response) => {
            assert_eq!(response.stop_reason, StopReason::Aborted)
        }
        _ => panic!("expected the partial answer"),
    }
}

#[test]
fn tests_abort_preserves_partial_assistant_output() {
    let mut agent = agent();
    let started = ask(&mut agent, "second", true);
    let aborted = Round {
        events: vec![
            LlmEvent::Usage { usage: usage(7, 2) },
            LlmEvent::TextDelta {
                text: "partial response".into(),
            },
        ],
        end: Err(AgentError::Aborted),
    };
    let played = play(&mut agent, started, vec![aborted], echo, None);
    assert_eq!(played.result, Err(AgentError::Aborted));
    assert_eq!(
        history(&agent),
        ["user: second", "assistant: partial response"]
    );
    // The usage of the broken round is counted once.
    assert_eq!(played.saved_usage, vec![usage(7, 2)]);
    assert_eq!(agent.usage(), usage(7, 2));
    assert_eq!(
        played.events[0],
        AgentEvent::Usage { usage: usage(7, 2) }
    );
}

#[test]
fn tests_tool_call_responses_and_results_are_persisted_in_order() {
    let mut agent = agent();
    agent.context.tools = vec![tool("bash")];
    let started = ask(&mut agent, "run echo hi", false);
    let rounds = vec![
        Round {
            events: vec![],
            end: Ok(tool_answer(
                vec![call("call-1", "bash"), call("call-2", "bash")],
                Some(usage(10, 5)),
            )),
        },
        Round {
            events: vec![],
            end: Ok(text_answer("done", Some(usage(20, 3)))),
        },
    ];
    let played = play(&mut agent, started, rounds, echo, None);
    assert_eq!(played.result.unwrap().text(), "done");
    assert_eq!(
        history(&agent),
        [
            "user: run echo hi",
            "assistant: ",
            "call-1: hi",
            "call-2: hi",
            "assistant: done"
        ]
    );
    assert_eq!(played.saved, agent.messages());
    assert_eq!(played.ran, vec![(0, "bash".into()), (0, "bash".into())]);
    assert_eq!(
        played.events[1],
        AgentEvent::ToolCallFinished {
            id: "call-1".into(),
            output: "hi".into()
        }
    );
    assert_eq!(played.requests.len(), 2);
}

#[test]
fn tests_aggregate_usage_from_multiple_rounds_is_persisted() {
    let mut agent = agent();
    agent.context.tools = vec![tool("bash")];
    let started = ask(&mut agent, "run echo hi", false);
    let rounds = vec![
        Round {
            events: vec![],
            end: Ok(tool_answer(vec![call("call-1", "bash")], Some(usage(10, 5)))),
        },
        Round {
            events: vec![],
            end: Ok(text_answer("done", Some(usage(20, 3)))),
        },
    ];
    let played = play(&mut agent, started, rounds, echo, None);
    // First round: 10 input + 5 output. Second round: 20 input + 3 output.
    assert_eq!(played.saved_usage, vec![usage(10, 5), usage(30, 8)]);
    assert_eq!(agent.context_tokens(), 38);
    match played.events.last() {
        Some(AgentEvent::Finished { usage: total, .. }) => assert_eq!(*total, usage(30, 8)),
        _ => panic!("expected the end"),
    }
}

#[test]
fn a_failed_tool_is_reported_and_the_run_goes_on() {
    let mut agent = agent();
    agent.context.tools = vec![tool("edit")];
    let started = ask(&mut agent, "go", false);
    let rounds = vec![
        Round {
            events: vec![],
            end: Ok(tool_answer(vec![call("c", "edit")], None)),
        },
        says("sorry"),
    ];
    let played = play(
        &mut agent,
        started,
        rounds,
        |_| Outcome::ToolError("no such file".into()),
        None,
    );
    assert!(played.result.is_ok());
    assert_eq!(
        played.events[1],
        AgentEvent::ToolCallFailed {
            id: "c".into(),
            error: "no such file".into()
        }
    );
    assert_eq!(history(&agent)[2], "c: no such file");
}

#[test]
fn an_image_from_a_tool_is_described_and_attached() {
    let mut agent = agent();
    agent.context.tools = vec![tool("read")];
    let started = ask(&mut agent, "look", false);
    let rounds = vec![
        Round {
            events: vec![],
            end: Ok(tool_answer(vec![call("c", "read")], None)),
        },
        says("seen"),
    ];
    play(
        &mut agent,
        started,
        rounds,
        |_| {
            Outcome::Output(ToolOutput::Image {
                mime_type: "image/png".into(),
                data: "iVBOR".into(),
            })
        },
        None,
    );
    match &agent.messages()[2] {
        AgentMessage::ToolResult {
            content,
            content_parts,
            ..
        } => {
            assert_eq!(content, "[image/png image, 5 bytes base64]");
            assert_eq!(content_parts.len(), 1);
        }
        _ => panic!("expected the tool's result"),
    }
}

#[test]
fn outside_normal_mode_only_reading_tools_and_the_shell_run() {
    for mode in [Mode::Plan, Mode::Review] {
        let mut agent = agent();
        agent.context.tools = vec![tool("read").read_only(), tool("edit"), tool("bash")];
        agent.set_mode(mode);
        let started = ask(&mut agent, "go", false);
        let rounds = vec![Round {
            events: vec![],
            end: Ok(tool_answer(
                vec![call("a", "read"), call("b", "bash"), call("c", "edit")],
                None,
            )),
        }];
        let played = play(&mut agent, started, rounds, echo, None);
        assert_eq!(played.requests[0].1, vec![0, 2]);
        assert_eq!(played.ran, vec![(0, "read".into()), (2, "bash".into())]);
        assert_eq!(
            played.result,
            Err(AgentError::ToolNotFound("edit".into()))
        );
    }
}

#[test]
fn an_unknown_tool_ends_the_run() {
    let mut agent = agent();
    let started = ask(&mut agent, "go", false);
    let rounds = vec![Round {
        events: vec![],
        end: Ok(tool_answer(vec![call("a", "fly")], None)),
    }];
    let played = play(&mut agent, started, rounds, echo, None);
    assert_eq!(
        played.result.unwrap_err().message(),
        "tool not found: fly"
    );
}

#[test]
fn rounds_are_limited() {
    let mut agent = agent();
    agent.context.tools = vec![tool("bash")];
    agent.max_tool_rounds = 3;
    let started = ask(&mut agent, "go", false);
    let rounds = (0..3)
        .map(|_| Round {
            events: vec![],
            end: Ok(tool_answer(vec![call("a", "bash")], None)),
        })
        .collect();
    let played = play(&mut agent, started, rounds, echo, None);
    assert_eq!(played.requests.len(), 3);
    assert_eq!(
        played.result.unwrap_err().message(),
        "maximum tool rounds exceeded"
    );
}

#[test]
fn a_cancelled_run_stops_before_the_next_round() {
    let mut agent = agent();
    let started = ask(&mut agent, "go", false);
    let played = play(&mut agent, started, vec![says("never")], echo, Some(0));
    assert_eq!(played.requests.len(), 0);
    assert_eq!(played.result.unwrap_err().message(), "agent request aborted");
}

#[test]
fn tests_request_uses_persisted_session_id_and_cache_key() {
    let mut agent = agent();
    agent.session_manager = Some(SessionManager::new("/s".into()));
    let before = agent.session_id.clone();
    let started = ask(&mut agent, "check session id", false);
    let first = play(&mut agent, started, vec![says("one")], echo, None);
    let started = ask(&mut agent, "second", false);
    let second = play(&mut agent, started, vec![says("two")], echo, None);
    let session_id = agent.active_session.as_ref().unwrap().id.clone();
    assert_ne!(before, session_id);
    for played in [first, second] {
        assert_eq!(
            played.options,
            vec![RequestOptions {
                prompt_cache_key: Some(session_id.clone()),
                session_id: Some(session_id.clone()),
                cache_control: Some(PromptCacheControl::OneHour),
            }]
        );
    }
}

#[test]
fn calling_off_a_run_outranks_its_last_round() {
    let started = |agent: &mut Agent| {
        agent.context.tools.push(tool("bash"));
        agent.max_tool_rounds = 1;
        ask(agent, "go", true)
    };
    let round = || Round {
        events: Vec::new(),
        end: Ok(tool_answer(vec![call("c", "bash")], None)),
    };
    let mut one = agent();
    let run = started(&mut one);
    let played = play(&mut one, run, vec![round()], echo, None);
    assert_eq!(played.result, Err(AgentError::MaxToolRounds));
    // Called off once the tool has started: its result is still kept.
    let mut other = agent();
    let run = started(&mut other);
    let played = play(&mut other, run, vec![round()], echo, Some(6));
    assert_eq!(played.result, Err(AgentError::Aborted));
    assert_eq!(history(&other).last().unwrap(), "c: hi");
}

#[test]
fn tests_provider_is_not_called_if_session_creation_fails() {
    let mut agent = agent();
    let (run, action) = ask(&mut agent, "hello", false);
    assert!(matches!(action, Action::OpenSession));
    let error = AgentError::Session(SessionError::Store(StoreError::CreateDir {
        dir: "/proc".into(),
        source: "denied".into(),
    }));
    let (_, action) = run.advance(&mut agent.context, Outcome::Failed(error.clone()), false);
    match action {
        Action::Finish(result) => assert_eq!(result, Err(error)),
        _ => panic!("must fail when session creation fails"),
    }
    assert!(agent.messages().is_empty());
}

#[test]
fn review_guidelines_go_along_once() {
    let mut agent = agent();
    agent.set_mode(Mode::Review);
    let started = ask(&mut agent, "one", false);
    play(&mut agent, started, vec![says("ok")], echo, None);
    let started = ask(&mut agent, "two", false);
    play(&mut agent, started, vec![says("ok")], echo, None);
    assert!(history(&agent)[0].contains("Review mode is on"));
    assert_eq!(history(&agent)[2], "user: two");
    assert!(!agent.take_review_intro());
}

#[test]
fn tests_resumed_agent_includes_restored_messages_in_first_request() {
    let mut session = Session::new("/p".into(), "openrouter".into(), "test".into(), None, 1);
    session.messages.push(AgentMessage::user("restored message"));
    let id = session.id.clone();
    let built = Agent::builder(model())
        .session_manager(SessionManager::new("/root".into()))
        .resume_session(session)
        .with_directory("/p".into())
        .build();
    let mut agent = match built {
        Ok(agent) => agent,
        Err(error) => panic!("{}", error.message()),
    };
    assert_eq!(agent.session_id(), Some(id.clone()));
    assert_eq!(agent.session_id, id);
    assert!(!agent.needs_session());
    let started = ask(&mut agent, "new message", false);
    let played = play(&mut agent, started, vec![says("echo")], echo, None);
    assert_eq!(played.requests[0].0.len(), 2);
    assert_eq!(
        played.requests[0].0[0],
        Message::user("restored message")
    );
    assert_eq!(history(&agent)[1], "user: new message");
}

#[test]
fn a_session_of_another_model_is_not_resumed() {
    let session = Session::new("/p".into(), "zai".into(), "glm".into(), None, 1);
    let id = session.id.clone();
    match Agent::builder(model()).resume_session(session).build() {
        Ok(_) => panic!("must be refused"),
        Err(error) => assert_eq!(
            error,
            AgentError::Session(SessionError::InvalidHeader {
                path: id,
                reason: "cannot resume session for model glm (provider zai) with bound model test (provider openrouter)".into()
            })
        ),
    }
}

#[test]
fn clearing_and_switching_the_model() {
    let mut agent = agent();
    agent.session_manager = Some(SessionManager::new("/root".into()));
    assert!(agent.needs_session());
    let session = Session::new("/p".into(), "openrouter".into(), "test".into(), None, 1);
    agent.adopt_session(session);
    assert_eq!(agent.session_id(), Some(agent.session_id.clone()));
    let mut other = model();
    other.info.id = "other".into();
    other.reasoning_effort = ReasoningEffort::Max;
    assert!(agent.set_model(other.clone(), true).is_err());
    assert_eq!(agent.model_id(), "test");
    assert_eq!(agent.set_model(other, false), Ok(true));
    assert_eq!(agent.info().id, "other");
    assert_eq!(agent.model_id(), "test");
    assert_eq!(agent.reasoning_effort(), ReasoningEffort::Max);
    assert_eq!(agent.active_session.as_ref().unwrap().model, "other");
    let before = agent.session_id.clone();
    agent.context.messages.push(AgentMessage::user("x"));
    agent.clear_conversation();
    assert_ne!(agent.session_id, before);
    assert_eq!(agent.session_id(), None);
    assert!(agent.messages().is_empty());
}

#[test]
fn into_response_extracts_final_response() {
    assert!(into_response(Some(Ok(AgentEvent::TextDelta("x".into())))).is_none());
    let done = AgentEvent::Finished {
        usage: Usage::default(),
        response: Box::new(text_answer("echo: hello", None)),
    };
    assert_eq!(
        into_response(Some(Ok(done))).unwrap().unwrap().text(),
        "echo: hello"
    );
    assert_eq!(
        into_response(None).unwrap().unwrap_err().message(),
        "agent event stream closed"
    );
    assert_eq!(
        into_response(Some(Err(AgentError::Aborted))),
        Some(Err(AgentError::Aborted))
    );
}

#[test]
fn a_builder_collects_what_it_is_given() {
    let builder = Agent::builder(model())
        .with_default_system_prompt()
        .tool(tool("a"))
        .with_tools(vec![tool("b")])
        .max_tool_rounds(7);
    assert!(builder
        .system_prompt
        .as_deref()
        .unwrap()
        .starts_with("You are Alan, a reliable, pragmatic coding agent"));
    let agent = match builder.system_prompt("Be".into()).build() {
        Ok(agent) => agent,
        Err(error) => panic!("{}", error.message()),
    };
    assert_eq!(agent.context.system_prompt.as_deref(), Some("Be"));
    assert_eq!(agent.context.tools.len(), 2);
    assert_eq!(agent.max_tool_rounds, 7);
    assert_eq!(Agent::builder(model()).max_tool_rounds, 100);
}
