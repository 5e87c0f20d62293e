//! The chat and the controller around it.
use alan::agent::{Agent, Model, ModelInfo};
use alan::chat::{Activity, ChatController, Entry, ImageAttachment, ToolStatus};
use alan::command::SlashCommand;
use alan::completion::controller::ScanReply;
use alan::completion::scan::DirEntry;
use alan::completion::CompletionStatus;
use alan::context::AgentMessage;
use alan::controller::{self, Command, CommandOutcome, Controller, Poll, Submission};
use alan::error::{AgentError, ModelError};
use alan::llm::{ContentBlock, LlmResponse, ReasoningEffort, StopReason, ToolCall, Usage};
use alan::mode::Mode;
use alan::run::{Action, AgentEvent};
use alan::session::manager::SessionManager;
use alan::session::record::SessionRecord;

fn agent() -> Agent {
    let model = Model {
        info: ModelInfo {
            provider: "openrouter".into(),
            id: "test".into(),
            name: "Test".into(),
            context_length: Some(8000),
        },
        reasoning_effort: ReasoningEffort::Low,
    };
    match Agent::builder(model).build() {
        Ok(agent) => agent,
        Err(error) => panic!("{}", error.message()),
    }
}

fn make_controller(name: &str) -> ChatController {
    ChatController::new(agent(), name.to_string())
}

fn answer(text: &str) -> LlmResponse {
    LlmResponse {
        content: vec![ContentBlock::Text(text.into())],
        stop_reason: StopReason::Stop,
        usage: None,
        model: None,
        reasoning: None,
        reasoning_details: Vec::new(),
    }
}

fn finished(input: u64) -> AgentEvent {
    AgentEvent::Finished {
        usage: Usage {
            input_tokens: input,
            output_tokens: 0,
        },
        response: Box::new(answer("")),
    }
}

#[test]
fn apply_model_switch_updates_name_and_logs() {
    let mut controller = make_controller("old-model");
    controller.entries.push(Entry::Prompt("test".to_string()));
    controller.apply_model_switch("new-model".to_string());
    assert_eq!(controller.model_name(), "new-model");
    assert_eq!(
        controller.entries().last(),
        Some(&Entry::Info("Switched to new-model".to_string()))
    );
    // revision incremented by the prompt entry
    assert_eq!(controller.revision(), 1);
    controller.apply_model_switch_failed("no".into());
    assert_eq!(
        controller.entries().last(),
        Some(&Entry::Error("Model switch failed: no".to_string()))
    );
}

#[test]
fn steer_queues_without_entry() {
    let mut controller = make_controller("m");
    controller.busy = true;
    let len_before = controller.entries().len();
    controller.steer("go faster".into());

    assert_eq!(controller.steering(), Some("go faster"));
    assert_eq!(controller.entries().len(), len_before);
    assert_eq!(
        controller.agent.take_pending_steer(),
        Some("go faster".into())
    );
    controller.steer("  ".into());
    assert_eq!(controller.agent.take_pending_steer(), None);
}

#[test]
fn steer_consumed_emits_entry_and_clears_mirror() {
    let mut controller = make_controller("m");
    controller.busy = true;
    controller.steer("go faster".into());
    assert!(controller.entries().is_empty());
    assert_eq!(controller.steering(), Some("go faster"));

    controller.apply_event(Ok(AgentEvent::SteerConsumed {
        text: "go faster".into(),
    }));
    assert_eq!(
        controller.entries().last(),
        Some(&Entry::Prompt("go faster".to_string()))
    );
    assert_eq!(controller.steering(), None);
}

#[test]
fn take_steering_drains_mirror_and_slot() {
    let mut controller = make_controller("m");
    controller.busy = true;
    controller.steer("pending".into());
    assert_eq!(controller.steering(), Some("pending"));

    let taken = controller.take_steering();
    assert_eq!(taken.as_deref(), Some("pending"));
    assert_eq!(controller.steering(), None);
    assert_eq!(controller.agent.take_pending_steer(), None);

    // Nothing pending: no revision bump, no agent slot churn.
    let revision = controller.revision();
    assert_eq!(controller.take_steering(), None);
    assert_eq!(controller.revision(), revision);
}

#[test]
fn steering_autosubmits_when_unconsumed_and_is_discarded_otherwise() {
    // Unconsumed at run end: it is taken for the next submission.
    let mut controller = make_controller("m");
    assert!(controller.submit("initial".into(), Vec::new()).is_some());
    assert!(controller.is_busy());
    controller.steer("steer text".into());
    controller.apply_event(Ok(finished(0)));
    let text = controller.take_steering();
    assert_eq!(text.as_deref(), Some("steer text"));
    assert!(controller.submit(text.unwrap(), Vec::new()).is_some());
    assert!(controller.is_busy());

    // Consumed by the run: dropped at its end.
    let mut controller = make_controller("m");
    assert!(controller.submit("initial".into(), Vec::new()).is_some());
    controller.steer("steer text".into());
    let _ = controller.agent.take_pending_steer();
    controller.apply_event(Ok(AgentEvent::SteerConsumed {
        text: "steer text".into(),
    }));
    controller.apply_event(Ok(finished(0)));
    assert_eq!(controller.take_steering(), None);

    // Submitting while a stale message is queued discards it.
    let mut controller = make_controller("m");
    controller.busy = true;
    controller.steer("stale".into());
    controller.busy = false;
    assert!(controller.submit("fresh".into(), Vec::new()).is_some());
    assert_eq!(controller.agent.take_pending_steer(), None);
}

#[test]
fn a_prompt_is_trimmed_and_shown() {
    let mut chat = make_controller("m");
    let (run, action) = chat
        .submit(
            "  look \n".into(),
            vec![ImageAttachment {
                name: "shot".into(),
                mime_type: "image/png".into(),
                base64_data: "abc".into(),
            }],
        )
        .expect("a run");
    assert!(matches!(action, Action::OpenSession));
    assert!(run.stream);
    match run.pending {
        Some(AgentMessage::User { text, images }) => {
            assert_eq!(text, "look");
            assert_eq!(images[0].url, "data:image/png;base64,abc");
        }
        _ => panic!("expected the prompt"),
    }
    assert_eq!(chat.entries(), [Entry::Prompt("look".into())]);
    assert_eq!(chat.revision(), 1);
    assert_eq!(chat.activity(), Activity::Thinking);
    assert!(chat.submit("more".into(), Vec::new()).is_none());
    chat.finish_stream();
    assert_eq!(chat.revision(), 2);
    chat.set_loading(Some("summarizing".into()));
    assert_eq!(chat.activity(), Activity::Loading("summarizing".into()));
    assert_eq!(chat.loading(), Some("summarizing"));
    assert!(chat.submit("more".into(), Vec::new()).is_none());
    chat.set_loading(Some("summarizing".into()));
    assert_eq!(chat.revision(), 3);
    chat.set_loading(None);
    assert_eq!(chat.activity(), Activity::Idle);
}

#[test]
fn events_build_the_transcript() {
    let mut chat = make_controller("m");
    chat.busy = true;
    chat.apply_event(Ok(AgentEvent::ReasoningDelta("hm".into())));
    chat.apply_event(Ok(AgentEvent::ReasoningDelta("m".into())));
    chat.apply_event(Ok(AgentEvent::TextDelta("hel".into())));
    chat.apply_event(Ok(AgentEvent::TextDelta("lo".into())));
    let revision = chat.revision();
    chat.apply_event(Ok(AgentEvent::TextDelta("".into())));
    assert_eq!(chat.revision(), revision);
    chat.apply_event(Ok(AgentEvent::ToolCallStarted {
        id: "c".into(),
        name: "bash".into(),
        arguments: "{}".into(),
    }));
    chat.apply_event(Ok(AgentEvent::ToolCallFinished {
        id: "c".into(),
        output: "out".into(),
    }));
    chat.apply_event(Ok(AgentEvent::ToolCallFailed {
        id: "unknown".into(),
        error: "e".into(),
    }));
    chat.apply_event(Ok(AgentEvent::Usage {
        usage: Usage {
            input_tokens: 3,
            output_tokens: 1,
        },
    }));
    assert_eq!(chat.usage().input_tokens, 3);
    chat.apply_event(Ok(finished(9)));
    assert_eq!(
        chat.entries(),
        [
            Entry::Reasoning("hmm".into()),
            Entry::Response("hello".into()),
            Entry::ToolCall {
                id: "c".into(),
                name: "bash".into(),
                arguments: "{}".into(),
                output: "out".into(),
                status: ToolStatus::Completed
            },
            Entry::Response("".into()),
        ]
    );
    assert!(!chat.is_busy());
    assert_eq!(chat.usage().input_tokens, 9);
}

#[test]
fn a_tool_that_fails_shows_why() {
    let mut chat = make_controller("m");
    chat.apply_event(Ok(AgentEvent::ToolCallStarted {
        id: "c".into(),
        name: "edit".into(),
        arguments: "{}".into(),
    }));
    chat.apply_event(Ok(AgentEvent::ToolCallFailed {
        id: "c".into(),
        error: "denied".into(),
    }));
    assert!(matches!(
        chat.entries().last(),
        Some(Entry::ToolCall { status: ToolStatus::Failed(error), output, .. })
            if error == "denied" && output.is_empty()
    ));
}

#[test]
fn errors_end_the_run() {
    let mut chat = make_controller("m");
    chat.busy = true;
    chat.apply_event(Err(AgentError::Aborted));
    assert!(!chat.is_busy());
    assert!(chat.entries().is_empty());
    assert_eq!(chat.revision(), 0);
    chat.busy = true;
    chat.apply_event(Err(AgentError::Model(ModelError::MissingAuth)));
    assert_eq!(
        chat.entries().last(),
        Some(&Entry::Error("Please login to use the model".into()))
    );
    chat.apply_event(Err(AgentError::MaxToolRounds));
    assert_eq!(
        chat.entries().last(),
        Some(&Entry::Error("maximum tool rounds exceeded".into()))
    );
    chat.busy = true;
    chat.disconnect_stream();
    assert_eq!(
        chat.entries().last(),
        Some(&Entry::Error("agent stream disconnected".into()))
    );
    let revision = chat.revision();
    chat.disconnect_stream();
    chat.finish_stream();
    assert_eq!(chat.revision(), revision);
}

#[test]
fn a_restored_conversation_is_shown() {
    let mut chat = make_controller("m");
    chat.push_info("old".into());
    let mut response = answer("done");
    response.reasoning = Some("why".into());
    response.content.insert(
        0,
        ContentBlock::ToolCall(ToolCall {
            id: "c".into(),
            name: "bash".into(),
            arguments: "{}".into(),
            signature: None,
        }),
    );
    chat.agent.context.messages = vec![
        AgentMessage::user("hi"),
        AgentMessage::Assistant(response),
        AgentMessage::ToolResult {
            tool_call_id: "c".into(),
            content: "out".into(),
            content_parts: Vec::new(),
        },
        AgentMessage::ToolResult {
            tool_call_id: "lost".into(),
            content: "x".into(),
            content_parts: Vec::new(),
        },
    ];
    chat.restore_session_history();
    assert_eq!(
        chat.entries(),
        [
            Entry::Prompt("hi".into()),
            Entry::Reasoning("why".into()),
            Entry::ToolCall {
                id: "c".into(),
                name: "bash".into(),
                arguments: "{}".into(),
                output: "out".into(),
                status: ToolStatus::Completed
            },
            Entry::Response("done".into()),
        ]
    );
    assert_eq!(chat.model_name(), "Test");
    assert_eq!(chat.max_context(), Some(8000));
    assert_eq!(chat.reasoning_effort(), ReasoningEffort::Low);
    assert_eq!(chat.revision(), 2);
    chat.clear_transcript();
    assert!(chat.entries().is_empty());
}

#[test]
fn only_changes_are_new_revisions() {
    let mut chat = make_controller("m");
    assert_eq!(chat.max_context(), Some(0));
    chat.set_max_context(Some(0));
    chat.set_reasoning_effort(ReasoningEffort::Low);
    assert_eq!(chat.revision(), 0);
    chat.set_max_context(None);
    chat.set_reasoning_effort(ReasoningEffort::High);
    assert_eq!(chat.revision(), 2);
    chat.revision = u64::MAX;
    chat.push_info("x".into());
    assert_eq!(chat.revision(), 0);
}

fn app() -> Controller {
    Controller::new(agent(), "m".into(), "/work".into())
}

#[test]
fn submit_ignores_empty_and_busy() {
    let mut controller = app();
    controller.submit("   ".into(), vec![]);
    assert!(controller.chat.entries().is_empty());
    assert_eq!(controller.activity(), controller::Activity::Idle);
}

#[test]
fn help_writes_to_the_transcript_without_reaching_the_agent() {
    let mut controller = app();
    controller.submit("/help".into(), vec![]);

    assert_eq!(controller.chat.entries().len(), 1);
    assert!(matches!(
        &controller.chat.entries()[0],
        Entry::Info(text) if text.contains("/help")
    ));
    // A command must never start an agent turn.
    assert_eq!(controller.activity(), controller::Activity::Idle);
}

#[test]
fn plan_command_toggles_the_same_state_as_the_shortcut() {
    let mut controller = app();
    assert_eq!(controller.chat.mode(), Mode::Normal);

    controller.submit("/plan".into(), vec![]);
    assert_eq!(controller.chat.mode(), Mode::Plan);

    controller.submit("/normal".into(), vec![]);
    assert_eq!(controller.chat.mode(), Mode::Normal);
}

#[test]
fn review_command_turns_on_review_mode_and_rearms_on_reentry() {
    let mut controller = app();
    controller.submit("/review".into(), vec![]);
    assert_eq!(controller.chat.mode(), Mode::Review);

    controller.submit("/normal".into(), vec![]);
    assert_eq!(controller.chat.mode(), Mode::Normal);

    controller.submit("/review".into(), vec![]);
    assert_eq!(controller.chat.mode(), Mode::Review);
    assert!(controller.chat.agent.review_intro_pending);
}

#[test]
fn shift_tab_cycles_normal_plan_review_normal() {
    let mut controller = app();
    assert_eq!(controller.chat.mode(), Mode::Normal);

    controller.handle(Command::TogglePlanMode);
    assert_eq!(controller.chat.mode(), Mode::Plan);

    controller.handle(Command::TogglePlanMode);
    assert_eq!(controller.chat.mode(), Mode::Review);

    controller.handle(Command::TogglePlanMode);
    assert_eq!(controller.chat.mode(), Mode::Normal);
    for code in 0..=255u8 {
        let mode = Mode::from_u8(code);
        if code < 3 {
            assert_eq!(mode.as_u8(), code);
        } else {
            assert_eq!(mode, Mode::Normal);
        }
    }
}

#[test]
fn unknown_slash_text_is_sent_as_a_prompt() {
    let mut controller = app();
    let out = controller.submit("/logn".into(), vec![]);
    assert!(matches!(out, Submission::Started(_, _)));
    assert!(
        matches!(&controller.chat.entries()[0], Entry::Prompt(text) if text == "/logn")
    );
    assert_eq!(controller.activity(), controller::Activity::Thinking);
}

#[test]
fn info_is_not_absorbed_by_a_streaming_response() {
    let mut controller = app();
    controller.submit("hi".into(), vec![]);
    controller.submit("/help".into(), vec![]);
    controller
        .chat
        .apply_event(Ok(AgentEvent::TextDelta("hel".into())));
    controller
        .chat
        .apply_event(Ok(AgentEvent::TextDelta("lo".into())));

    assert_eq!(controller.chat.entries().len(), 3);
    assert!(matches!(&controller.chat.entries()[0], Entry::Prompt(text) if text == "hi"));
    assert!(
        matches!(&controller.chat.entries()[1], Entry::Info(text) if text.contains("/help"))
    );
    assert!(
        matches!(&controller.chat.entries()[2], Entry::Response(text) if text == "hello")
    );
}

#[test]
fn commands_ask_the_root_for_what_they_need() {
    let mut controller = app();
    let handled = controller.handle(Command::Submit {
        text: "/login".into(),
        images: vec![],
    });
    assert_eq!(
        handled.outcome,
        CommandOutcome {
            quit: false,
            open_login: true
        }
    );
    let handled = controller.handle(Command::Interrupt);
    assert!(handled.outcome.quit && !handled.abort);
    controller.chat.busy = true;
    let handled = controller.handle(Command::Interrupt);
    assert!(!handled.outcome.quit && handled.abort);
    let handled = controller.handle(Command::Cancel);
    assert!(!handled.outcome.quit && !handled.outcome.open_login);
    assert!(matches!(
        controller.submit("/new".into(), vec![]),
        Submission::Command(SlashCommand::New)
    ));
}

#[test]
fn an_open_popup_is_outranked_by_a_run() {
    let mut controller = app();
    controller.completion.entries = vec![DirEntry {
        path: "a".into(),
        is_dir: false,
    }];
    controller.completion.state.status = CompletionStatus::Ready;
    controller.completion.refilter();
    assert_eq!(controller.activity(), controller::Activity::Suggesting);
    controller.chat.busy = true;
    assert_eq!(controller.activity(), controller::Activity::Thinking);
}

#[test]
fn only_an_agent_with_a_session_writes_it_down() {
    let mut agent = agent();
    let message = AgentMessage::user("hi");
    assert!(agent.persist_message(&message, 1).is_none());
    assert!(agent.persist_usage(&agent.usage(), 1).is_none());
    assert!(agent
        .persist_model("p".into(), "m".into(), ReasoningEffort::Max, 1)
        .is_none());
    agent.session_manager = Some(SessionManager::new("/s".into()));
    assert!(agent.persist_message(&message, 1).is_none());
    assert!(agent.needs_session());
    let (session, _, file) = SessionManager::new("/s".into()).create(
        "/w".into(),
        "openrouter".into(),
        "test".into(),
        None,
        0,
    );
    agent.adopt_session(session);
    match agent.persist_message(&message, 1) {
        Some(Ok((path, _))) => assert_eq!(path, file),
        _ => panic!("expected a record"),
    }
    assert!(matches!(
        agent.persist_usage(&agent.usage(), 1),
        Some(Ok((path, SessionRecord::Usage { .. }))) if path == file
    ));
    assert!(matches!(
        agent.persist_model("p".into(), "m".into(), ReasoningEffort::Max, 1),
        Some(Ok((path, SessionRecord::Model { .. }))) if path == file
    ));
}

#[test]
fn an_agent_begins_anew() {
    let mut agent = agent();
    agent.session_manager = Some(SessionManager::new("/s".into()));
    agent.context.usage.input_tokens = 5;
    let first = agent.session_id.clone();
    assert!(agent
        .append_context_message(AgentMessage::user("kept"), Ok(()))
        .is_ok());
    assert!(agent
        .append_context_message(AgentMessage::user("lost"), Err(AgentError::Aborted))
        .is_err());
    assert_eq!(agent.messages().len(), 1);
    let (parent, open) = agent.reset_session_with();
    assert_eq!(parent, first);
    assert!(open);
    assert_ne!(agent.session_id, first);
    assert!(agent.messages().is_empty());
    assert_eq!(agent.usage().input_tokens, 0);
    let seed = || vec![AgentMessage::user("summary"), AgentMessage::user("next")];
    assert_eq!(agent.seed_conversation(seed(), vec![Ok(()), Ok(())]), Ok(()));
    assert_eq!(agent.messages(), seed());
    agent.reset_session_with();
    assert_eq!(
        agent.seed_conversation(seed(), vec![Ok(()), Err(AgentError::Aborted)]),
        Err(AgentError::Aborted)
    );
    assert_eq!(agent.messages(), seed()[..1]);
    agent.session_manager = None;
    assert!(!agent.reset_session());
    agent.set_plan_mode(true);
    assert!(agent.plan_mode());
    agent.set_plan_mode(false);
    assert_eq!(agent.mode(), Mode::Normal);
    assert_eq!(agent.info().name, "Test");
    assert_eq!(agent.model_id(), "test");
}

#[test]
fn the_controller_passes_things_on() {
    let mut controller = app();
    controller.login_done("zai");
    assert_eq!(controller.chat(), [Entry::Info("Logged in to zai".into())]);
    controller.push_info("x".into());
    assert_eq!(controller.chat_revision(), 2);
    assert_eq!(controller.mode(), Mode::Normal);
    assert_eq!(controller.usage().input_tokens, 0);
    assert_eq!(controller.agent().model_id(), "test");
    let request = controller.completion.update("a", true).expect("a scan");
    assert_eq!(controller.poll(Poll::Finished, None), Poll::Finished);
    let reply = ScanReply {
        generation: request.generation,
        key: request.key,
        result: Ok(vec![DirEntry {
            path: "a".into(),
            is_dir: false,
        }]),
    };
    assert_eq!(controller.poll(Poll::Idle, Some(reply)), Poll::Changed);
    assert!(controller.completion().has_items());
}

#[test]
fn news_is_combined_by_its_weight() {
    let all = [
        Poll::Idle,
        Poll::Changed,
        Poll::Finished,
        Poll::Aborted,
        Poll::Error,
    ];
    for (i, a) in all.iter().enumerate() {
        for (j, b) in all.iter().enumerate() {
            assert_eq!(a.combine(*b), all[i.max(j)]);
        }
    }
}
