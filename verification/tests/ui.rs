//! Keys, dialogues and forms.
use alan::completion::{Accept, CompletionItem, CompletionResult, CompletionStatus};
use alan::controller::{CommandOutcome, Poll};
use alan::keys::{
    ActionStatus, InputEvent, KeyCode, KeyEvent, KeyKind, Modifiers, MouseEvent, MouseKind,
};
use alan::layout::{popup_area, scroll_start, Area};
use alan::local_model_overlay::{
    Effect as FormEffect, FormFields, LocalApi, LocalModelEntry, LocalModelOverlay, OverlayState,
    FIELD_COUNT, LABEL_WIDTH,
};
use alan::login::{self, AuthEvent, LoginController, LoginEffect, LoginMessage};
use alan::login_overlay::{
    AuthMethod, Body, Effect, LoginOverlay, LoginProvider, LoginState, ProviderInfo, Tone,
};
use alan::root::{self, AlanAction};
use alan::selection::{move_within, step_back, step_forward};
use alan::tui_root::{
    self, follow_up, handle_action, popup_snapshot, status_area, Route,
};

const NONE: Modifiers = Modifiers {
    shift: false,
    control: false,
    other: false,
};
const CONTROL: Modifiers = Modifiers {
    shift: false,
    control: true,
    other: false,
};
const SHIFT: Modifiers = Modifiers {
    shift: true,
    control: false,
    other: false,
};

fn key(code: KeyCode, modifiers: Modifiers) -> InputEvent {
    InputEvent::Key(KeyEvent {
        code,
        modifiers,
        kind: KeyKind::Press,
    })
}

fn mouse(kind: MouseKind) -> InputEvent {
    InputEvent::Mouse(MouseEvent {
        kind,
        column: 0,
        row: 0,
    })
}

#[test]
fn mapper_passes_other_events_through_unchanged() {
    let mapper = tui_root::AlanKeyMapper;
    let event = key(KeyCode::Up, NONE);
    let mapped = mapper.map(&event);
    assert!(matches!(mapped, Some(tui_root::AlanAction::Raw(actual)) if actual == event));
    let mapped = root::AlanKeyMapper.map(&event);
    assert!(matches!(mapped, Some(AlanAction::Raw(actual)) if actual == event));
}

#[test]
fn mapper_maps_resize_regardless_of_context() {
    let mapper = tui_root::AlanKeyMapper;
    assert!(matches!(
        mapper.map(&InputEvent::Resize(120, 40)),
        Some(tui_root::AlanAction::Resize)
    ));
    assert!(matches!(
        root::AlanKeyMapper.map(&InputEvent::Resize(120, 40)),
        Some(AlanAction::Resize)
    ));
}

#[test]
fn mapper_maps_mouse_wheel_regardless_of_context() {
    let mapper = tui_root::AlanKeyMapper;
    assert!(matches!(
        mapper.map(&mouse(MouseKind::ScrollUp)),
        Some(tui_root::AlanAction::MouseScrollUp)
    ));
    assert!(matches!(
        mapper.map(&mouse(MouseKind::ScrollDown)),
        Some(tui_root::AlanAction::MouseScrollDown)
    ));
    // Clicks still need chat-area geometry, so they stay raw.
    assert!(matches!(
        mapper.map(&mouse(MouseKind::Other)),
        Some(tui_root::AlanAction::Raw(_))
    ));
}

#[test]
fn mapper_maps_paste_regardless_of_context() {
    let event = InputEvent::Paste("hello\nworld".into());
    assert!(matches!(
        tui_root::AlanKeyMapper.map(&event),
        Some(tui_root::AlanAction::Paste(actual)) if actual == "hello\nworld"
    ));
    assert!(matches!(
        root::AlanKeyMapper.map(&event),
        Some(AlanAction::Paste(actual)) if actual == "hello\nworld"
    ));
}

#[test]
fn shortcuts_are_mapped_before_the_editor_sees_them() {
    let mapper = root::AlanKeyMapper;
    for event in [key(KeyCode::BackTab, SHIFT), key(KeyCode::Tab, SHIFT)] {
        assert!(matches!(mapper.map(&event), Some(AlanAction::ToggleMode)));
    }
    assert!(matches!(
        mapper.map(&key(KeyCode::Tab, NONE)),
        Some(AlanAction::Raw(_))
    ));
    assert!(matches!(
        mapper.map(&key(KeyCode::Char('c'), CONTROL)),
        Some(AlanAction::Quit)
    ));
    assert!(matches!(
        mapper.map(&key(KeyCode::Char('q'), NONE)),
        Some(AlanAction::Raw(_))
    ));
}

#[test]
fn input_is_routed_to_its_part_of_the_screen() {
    let mapped = |event: InputEvent| tui_root::AlanKeyMapper.map(&event).unwrap();
    let to = |event: InputEvent, selection| handle_action(&mapped(event), selection);
    assert_eq!(to(InputEvent::Resize(1, 1), false), Route::Measure);
    assert_eq!(to(mouse(MouseKind::ScrollUp), false), Route::Transcript);
    assert_eq!(to(mouse(MouseKind::Other), false), Route::Transcript);
    assert_eq!(to(key(KeyCode::PageUp, NONE), false), Route::Transcript);
    assert_eq!(to(key(KeyCode::Esc, NONE), true), Route::DropSelection);
    let edit = Route::Editor { stop_wheel: true };
    assert_eq!(to(key(KeyCode::Esc, NONE), false), edit);
    assert_eq!(to(key(KeyCode::Up, NONE), true), edit);
    assert_eq!(
        to(InputEvent::Paste("x".into()), true),
        Route::Editor { stop_wheel: false }
    );
    let after = follow_up(
        &mapped(key(KeyCode::Enter, NONE)),
        true,
        Some(CommandOutcome {
            quit: true,
            open_login: false,
        }),
    );
    assert!(after.follow && after.quit && !after.open_login);
    assert!(!follow_up(&mapped(InputEvent::Paste("x".into())), true, None).follow);
}

#[test]
fn the_popup_shows_what_is_offered() {
    let offered = CompletionResult {
        range: 1..2,
        status: CompletionStatus::Error("no".into()),
        items: vec![CompletionItem {
            display: "shown".into(),
            replacement: "put in".into(),
            accept: Accept::Insert,
        }],
    };
    let popup = popup_snapshot(true, &offered, 0);
    assert!(popup.open);
    assert_eq!(popup.status, CompletionStatus::Error("no".into()));
    assert_eq!(popup.items, ["shown"]);
    assert_eq!(popup.selected, 0);
    let footer = Area {
        x: 0,
        y: 20,
        width: 80,
        height: 6,
    };
    assert_eq!(
        status_area(footer, 2),
        Area {
            y: 23,
            height: 1,
            ..footer
        }
    );
}

#[test]
fn selections_clamp_or_wrap() {
    assert_eq!(move_within(1, 5, 3), 2);
    assert_eq!(move_within(1, -5, 3), 0);
    assert_eq!(move_within(1, isize::MIN, 3), 0);
    assert_eq!(move_within(9, 0, 3), 2);
    assert_eq!(step_forward(3, 4), 0);
    assert_eq!(step_back(0, 4), 3);
    assert_eq!(step_back(step_forward(2, 4), 4), 2);
}

fn area(width: u16, height: u16) -> Area {
    Area {
        x: 0,
        y: 0,
        width,
        height,
    }
}

#[test]
fn popups_stand_in_the_middle() {
    assert_eq!(
        popup_area(area(100, 30)),
        Some(Area {
            x: 6,
            y: 6,
            width: 88,
            height: 18
        })
    );
    assert_eq!(popup_area(area(15, 8)), None);
    assert_eq!(popup_area(area(16, 8)).unwrap().width, 12);
    assert_eq!(scroll_start(29, 30, 5), 25);
    assert_eq!(scroll_start(2, 30, 5), 0);
    assert_eq!(scroll_start(10, 30, 5), 8);
}

fn providers(count: usize) -> Vec<LoginProvider> {
    (0..count)
        .map(|i| LoginProvider {
            id: format!("provider-{i:02}"),
            name: format!("provider-{i:02}"),
        })
        .collect()
}

fn showing(state: LoginState) -> LoginOverlay {
    LoginOverlay {
        registry: Vec::new(),
        state,
    }
}

#[test]
fn provider_selection_scrolls_into_view() {
    let overlay = showing(LoginState::Selecting {
        providers: providers(30),
        selected: 29,
    });
    for (width, height) in [(100, 30), (45, 12), (20, 8), (8, 3)] {
        match overlay.screen(area(width, height)) {
            None => assert!(width < 20),
            Some(screen) => match screen.body {
                Body::List(rows) => {
                    assert!(rows
                        .iter()
                        .any(|row| row.name == "provider-29" && row.active));
                    assert_eq!(rows.iter().filter(|row| row.active).count(), 1);
                    assert_eq!(rows.len(), screen.content.height as usize);
                }
                _ => panic!("expected a list"),
            },
        }
    }
}

#[test]
fn login_states_are_drawn_without_the_key() {
    let prompting = showing(LoginState::Prompting {
        provider_id: "example".into(),
        auth_method: AuthMethod::ApiKey,
        input: "secret-key".repeat(80),
    });
    let screen = prompting.screen(area(45, 12)).unwrap();
    assert_eq!(screen.heading, "example / API key");
    match screen.body {
        Body::Input { dots, hint, cursor } => {
            assert_eq!(dots, screen.content.width - 4);
            assert!(!hint);
            assert_eq!(cursor, screen.content.x + 3 + dots);
        }
        _ => panic!("expected the input"),
    }
    let cases = [
        (
            LoginState::Validating {
                message: "Validating credentials…".into(),
            },
            "Signing in…",
            " Esc close ",
            Tone::Muted,
            "Validating credentials…",
        ),
        (
            LoginState::Success,
            "Signed in",
            " Enter / Esc close ",
            Tone::Done,
            "Logged in successfully",
        ),
        (
            LoginState::Error("Could not authenticate. Check your API key.".into()),
            "Sign-in failed",
            " Enter / Esc close ",
            Tone::Failed,
            "Could not authenticate. Check your API key.",
        ),
    ];
    for (state, heading, footer, tone, text) in cases {
        let screen = showing(state).screen(area(45, 12)).unwrap();
        assert_eq!(screen.heading, heading);
        assert_eq!(screen.footer, footer);
        match screen.body {
            Body::Message { text: said, tone: how } => {
                assert_eq!(said, text);
                assert_eq!(how, tone);
            }
            _ => panic!("expected a message"),
        }
    }
    let empty = showing(LoginState::Selecting {
        providers: Vec::new(),
        selected: 0,
    });
    assert!(matches!(
        empty.screen(area(45, 12)).unwrap().body,
        Body::Empty
    ));
    assert_eq!(
        empty.screen(area(100, 30)).unwrap().footer,
        " ↑↓ / C-n C-p move   Enter select   Esc close "
    );
}

fn raw(event: InputEvent) -> AlanAction {
    AlanAction::Raw(event)
}

fn overlay() -> LoginOverlay {
    LoginOverlay::new(vec![
        ProviderInfo {
            id: "zai".into(),
            auth_methods: vec![AuthMethod::ApiKey],
        },
        ProviderInfo {
            id: "local".into(),
            auth_methods: vec![],
        },
    ])
}

#[test]
fn a_key_is_typed_and_tried() {
    let mut login = overlay();
    let (effect, status) = login.handle_action(&raw(key(KeyCode::Enter, NONE)));
    assert!(matches!(effect, Effect::Redraw));
    assert_eq!(status, ActionStatus::Handled);
    login.handle_action(&AlanAction::Paste("ab".into()));
    login.handle_action(&raw(key(KeyCode::Char('C'), SHIFT)));
    login.handle_action(&raw(key(KeyCode::Char('x'), NONE)));
    login.handle_action(&raw(key(KeyCode::Backspace, NONE)));
    match login.handle_action(&raw(key(KeyCode::Enter, NONE))).0 {
        Effect::Validate { provider_id, key } => {
            assert_eq!((provider_id.as_str(), key.as_str()), ("zai", "abC"))
        }
        _ => panic!("expected the key to be tried"),
    }
    assert_eq!(
        login.state,
        LoginState::Validating {
            message: "Validating API key".into()
        }
    );
    login.validated(Err("bad key".into()));
    assert_eq!(login.state, LoginState::Error("bad key".into()));
    assert!(matches!(
        login.handle_action(&raw(key(KeyCode::Enter, NONE))).0,
        Effect::Close
    ));
    login.validated(Ok(()));
    assert_eq!(login.state, LoginState::Success);
}

#[test]
fn providers_are_chosen_with_the_keys() {
    let mut login = overlay();
    login.handle_action(&raw(key(KeyCode::Char('n'), CONTROL)));
    login.handle_action(&raw(key(KeyCode::Down, NONE)));
    login.handle_action(&raw(key(KeyCode::Enter, NONE)));
    assert_eq!(
        login.state,
        LoginState::Error("No authentication methods available".into())
    );
    let mut login = overlay();
    login.registry.clear();
    login.handle_action(&raw(key(KeyCode::Enter, NONE)));
    assert_eq!(login.state, LoginState::Error("Provider not found".into()));
    let mut login = LoginOverlay::new(Vec::new());
    login.handle_action(&raw(key(KeyCode::Up, NONE)));
    login.handle_action(&raw(key(KeyCode::Enter, NONE)));
    assert_eq!(
        login.state,
        LoginState::Error("No providers available".into())
    );
    let mut login = overlay();
    assert!(matches!(
        login.handle_action(&raw(key(KeyCode::Esc, NONE))).0,
        Effect::Close
    ));
    assert!(matches!(
        login.handle_action(&raw(key(KeyCode::Char('c'), CONTROL))).0,
        Effect::Close
    ));
    assert_eq!(
        login.handle_action(&AlanAction::Quit).1,
        ActionStatus::Continue
    );
}

#[test]
fn signing_in_is_a_conversation() {
    let mut login = LoginController::new(vec!["zai".into(), "google".into()]);
    assert!(!login.state().is_open());
    login.open();
    login.move_selection(9);
    match login.submit(String::new()) {
        LoginEffect::Start(provider) => assert_eq!(provider, "google"),
        _ => panic!("expected a start"),
    }
    assert_eq!(
        login.poll(vec![
            LoginMessage::Event {
                provider: "google".into(),
                event: AuthEvent::AuthUrl {
                    url: "http://x".into(),
                    instructions: Some("Open".into())
                }
            },
        ]),
        Poll::Changed
    );
    assert_eq!(
        *login.state(),
        login::LoginState::Validating {
            provider: "google".into(),
            message: "Open: http://x".into()
        }
    );
    login.poll(vec![LoginMessage::Prompt {
        provider: "google".into(),
        prompt: "key?".into(),
    }]);
    match login.submit("k".into()) {
        LoginEffect::Reply(text) => assert_eq!(text, "k"),
        _ => panic!("expected a reply"),
    }
    assert!(matches!(login.submit("k".into()), LoginEffect::Nothing));
    login.poll(vec![LoginMessage::Finished {
        provider: "google".into(),
        result: Ok(()),
    }]);
    assert_eq!(
        *login.state(),
        login::LoginState::Success {
            provider: "google".into()
        }
    );
    assert_eq!(login.poll(vec![]), Poll::Idle);
    let cancelled = login.cancel();
    assert!(!cancelled.prompt && !cancelled.task);
    assert!(!login.state().is_open());
}

#[test]
fn signing_in_can_fail_or_be_stopped() {
    let mut login = LoginController::new(Vec::new());
    login.open();
    assert!(matches!(login.submit("".into()), LoginEffect::Nothing));
    assert_eq!(
        *login.state(),
        login::LoginState::Error("No providers available".into())
    );
    let mut login = LoginController::new(vec!["zai".into()]);
    login.open();
    login.submit("".into());
    login.poll(vec![
        LoginMessage::Prompt {
            provider: "zai".into(),
            prompt: "?".into(),
        },
    ]);
    let cancelled = login.cancel();
    assert!(cancelled.prompt && cancelled.task);
    login.open();
    login.submit("".into());
    login.poll(vec![LoginMessage::Finished {
        provider: "zai".into(),
        result: Err("denied".into()),
    }]);
    assert_eq!(
        *login.state(),
        login::LoginState::Error("denied".into())
    );
    login.open();
    login.registry.clear();
    login.submit("".into());
    assert_eq!(
        *login.state(),
        login::LoginState::Error("Unknown provider: zai".into())
    );
}

#[test]
fn form_field_labels_align_to_a_fixed_column() {
    let overlay = LocalModelOverlay {
        fields: FormFields {
            model_id: "gpt-4o-mini".to_owned(),
            url: "http://localhost:11434".to_owned(),
            api_key: "sk-abc".to_owned(),
        },
        focused: 0,
        state: OverlayState::Editing,
        edit_mode: false,
    };
    let rows = overlay.rows(area(80, 18));
    assert_eq!(rows.len(), FIELD_COUNT);
    let mut colon_cols = Vec::new();
    for row in &rows {
        if let Some(col) = row.lead.chars().position(|character| character == ':') {
            colon_cols.push(col);
        }
    }
    assert_eq!(
        colon_cols.len(),
        FIELD_COUNT,
        "expected one colon per field, got {colon_cols:?}"
    );
    let first = colon_cols[0];
    assert!(
        colon_cols.iter().all(|&c| c == first),
        "label colon columns are not aligned: {colon_cols:?}"
    );
    assert_eq!(rows[0].lead, " › Model ID  : ");
    assert_eq!(rows[1].lead, "        URL  : ");
    let widest = rows.iter().map(|row| row.label.len()).max().unwrap();
    assert_eq!(widest, LABEL_WIDTH);
    let ys: Vec<_> = rows.iter().map(|row| row.y).collect();
    assert_eq!(ys, [0, 2, 4, 6]);
    let labels: Vec<_> = rows.iter().map(|row| row.label).collect();
    assert_eq!(labels, ["Model ID", "URL", "API", "API Key"]);
    let values: Vec<_> = rows.iter().map(|row| row.value.as_str()).collect();
    assert_eq!(
        values,
        [
            "gpt-4o-mini",
            "http://localhost:11434",
            "Chat Completions",
            "sk-abc"
        ]
    );
    assert!(rows[0].focused && !rows[1].focused);
    assert_eq!(overlay.rows(area(80, 5)).len(), 2);
}

#[test]
fn a_local_model_is_typed_and_saved() {
    let mut form = LocalModelOverlay::new(None);
    assert_eq!(form.frame(60).heading, "Add Local Model");
    assert_eq!(form.frame(59).footer, " Tab · Enter · Esc ");
    form.handle_action(&raw(key(KeyCode::Enter, NONE)));
    assert_eq!(
        form.state,
        OverlayState::Error("Model ID and URL are required".into())
    );
    assert!(matches!(
        form.handle_action(&raw(key(KeyCode::Esc, NONE))).0,
        FormEffect::Close
    ));
    let mut form = LocalModelOverlay::new(None);
    form.handle_action(&AlanAction::Paste(" llama3 ".into()));
    form.handle_action(&raw(key(KeyCode::Tab, NONE)));
    form.handle_action(&raw(key(KeyCode::Char('h'), NONE)));
    form.handle_action(&raw(key(KeyCode::Char('x'), NONE)));
    form.handle_action(&raw(key(KeyCode::Backspace, NONE)));
    form.handle_action(&raw(key(KeyCode::Down, NONE)));
    // The fixed field takes no input.
    assert!(matches!(
        form.handle_action(&raw(key(KeyCode::Char('z'), NONE))).0,
        FormEffect::Nothing
    ));
    match form.handle_action(&raw(key(KeyCode::Enter, NONE))).0 {
        FormEffect::Save { entry, edit } => {
            assert!(!edit);
            assert_eq!(
                entry,
                LocalModelEntry {
                    model_id: "llama3".into(),
                    url: "h".into(),
                    api: LocalApi::ChatCompletions,
                    api_key: None
                }
            );
        }
        _ => panic!("expected the model to be saved"),
    }
    assert!(matches!(
        form.handle_action(&raw(key(KeyCode::Enter, NONE))).0,
        FormEffect::Nothing
    ));
    assert_eq!(form.message(), "Saving…");
    form.saved(Ok(()));
    assert_eq!(form.message(), "Model added.");
    form.saved(Err("disk full".into()));
    assert_eq!(form.message(), "disk full");
}

#[test]
fn a_known_model_is_edited() {
    let mut form = LocalModelOverlay::new(Some(LocalModelEntry {
        model_id: "a".into(),
        url: "u".into(),
        api: LocalApi::ChatCompletions,
        api_key: Some("k".into()),
    }));
    assert_eq!(form.frame(60).heading, "Edit Local Model");
    form.handle_action(&raw(key(KeyCode::BackTab, NONE)));
    assert_eq!(form.focused, 3);
    form.handle_action(&raw(key(KeyCode::Char('2'), NONE)));
    match form.handle_action(&raw(key(KeyCode::Enter, NONE))).0 {
        FormEffect::Save { entry, edit } => {
            assert!(edit);
            assert_eq!(entry.api_key.as_deref(), Some("k2"));
        }
        _ => panic!("expected the model to be saved"),
    }
    form.saved(Ok(()));
    assert_eq!(form.message(), "Model updated.");
}
