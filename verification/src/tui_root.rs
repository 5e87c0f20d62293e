//! Which part of the screen an input goes to.
use crate::completion::{CompletionItem, CompletionResult, CompletionStatus};
use crate::controller::CommandOutcome;
use crate::keys::{InputEvent, KeyCode, KeyKind, MouseKind};
use crate::layout::Area;
use vstd::prelude::*;

verus! {

/// Input by its meaning, as the root of the screen takes it.
#[derive(Debug, Clone)]
pub enum AlanAction {
    Resize,
    MouseScrollUp,
    MouseScrollDown,
    Paste(String),
    Raw(InputEvent),
}

/// Gives input its meaning, where it has one everywhere.
#[derive(Debug, Clone, Copy)]
pub struct AlanKeyMapper;

/// What an input means. Clicks need to know what is drawn where, so they have
/// no meaning here.
pub open spec fn meaning(event: InputEvent) -> AlanAction {
    match event {
        InputEvent::Resize(_, _) => AlanAction::Resize,
        InputEvent::Mouse(mouse) => match mouse.kind {
            MouseKind::ScrollUp => AlanAction::MouseScrollUp,
            MouseKind::ScrollDown => AlanAction::MouseScrollDown,
            _ => AlanAction::Raw(event),
        },
        InputEvent::Paste(text) => AlanAction::Paste(text),
        _ => AlanAction::Raw(event),
    }
}

impl AlanKeyMapper {
    /// What an input means.
    pub fn map(&self, event: &InputEvent) -> (out: Option<AlanAction>)
        ensures
            out == Some(meaning(*event)),
    {
        match event {
            InputEvent::Resize(_, _) => Some(AlanAction::Resize),
            InputEvent::Mouse(mouse) => match mouse.kind {
                MouseKind::ScrollUp => Some(AlanAction::MouseScrollUp),
                MouseKind::ScrollDown => Some(AlanAction::MouseScrollDown),
                _ => Some(AlanAction::Raw(event.copy())),
            },
            InputEvent::Paste(text) => Some(AlanAction::Paste(text.clone())),
            _ => Some(AlanAction::Raw(event.copy())),
        }
    }
}

/// Where an input goes.
#[derive(Debug, Clone, Copy, PartialEq, Eq, Structural)]
pub enum Route {
    /// Everything is measured anew.
    Measure,
    /// To the transcript, which knows whether it was hit.
    Transcript,
    /// The selection in the transcript is dropped.
    DropSelection,
    /// To the editor; a wheel that still turns is stopped first.
    Editor { stop_wheel: bool },
}

/// Where an input goes: the mouse and the page keys to the transcript, Escape
/// to a selection if there is one, and all else to the editor.
pub open spec fn route_of(action: AlanAction, selection: bool) -> Route {
    match action {
        AlanAction::Resize => Route::Measure,
        AlanAction::MouseScrollUp | AlanAction::MouseScrollDown => Route::Transcript,
        AlanAction::Paste(_) => Route::Editor { stop_wheel: false },
        AlanAction::Raw(InputEvent::Mouse(_)) => Route::Transcript,
        AlanAction::Raw(InputEvent::Key(key)) => if key.kind == KeyKind::Press && (key.code
            == KeyCode::PageUp || key.code == KeyCode::PageDown) {
            Route::Transcript
        } else if key.kind == KeyKind::Press && key.code == KeyCode::Esc && selection {
            Route::DropSelection
        } else {
            Route::Editor { stop_wheel: true }
        },
        AlanAction::Raw(_) => Route::Editor { stop_wheel: true },
    }
}

/// Where an input goes.
pub fn handle_action(action: &AlanAction, selection: bool) -> (out: Route)
    ensures
        out == route_of(*action, selection),
{
    match action {
        AlanAction::Resize => Route::Measure,
        AlanAction::MouseScrollUp | AlanAction::MouseScrollDown => Route::Transcript,
        AlanAction::Paste(_) => Route::Editor { stop_wheel: false },
        AlanAction::Raw(event) => match event {
            InputEvent::Mouse(_) => Route::Transcript,
            InputEvent::Key(key) => {
                if key.kind == KeyKind::Press && (key.code == KeyCode::PageUp || key.code
                    == KeyCode::PageDown) {
                    Route::Transcript
                } else if key.kind == KeyKind::Press && key.code == KeyCode::Esc && selection {
                    Route::DropSelection
                } else {
                    Route::Editor { stop_wheel: true }
                }
            },
            _ => Route::Editor { stop_wheel: true },
        },
    }
}

/// What follows once the editor has dealt with an input.
#[derive(Debug, Clone, Copy, PartialEq, Eq, Structural)]
pub struct FollowUp {
    /// The transcript follows its end again.
    pub follow: bool,
    pub quit: bool,
    pub open_login: bool,
}

/// What follows once the editor has dealt with an input. A prompt that was
/// submitted by a key makes the transcript follow its end.
pub fn follow_up(
    action: &AlanAction,
    submitted: bool,
    outcome: Option<CommandOutcome>,
) -> (out: FollowUp)
    ensures
        out.follow == (submitted && *action is Raw),
        out.quit == (outcome is Some && outcome->0.quit),
        out.open_login == (outcome is Some && outcome->0.open_login),
{
    let raw = match action {
        AlanAction::Raw(_) => true,
        _ => false,
    };
    match outcome {
        Some(outcome) => FollowUp {
            follow: submitted && raw,
            quit: outcome.quit,
            open_login: outcome.open_login,
        },
        None => FollowUp { follow: submitted && raw, quit: false, open_login: false },
    }
}

/// What the popup shows of the completions.
#[derive(Debug)]
pub struct PopupSnapshot {
    pub open: bool,
    pub status: CompletionStatus,
    pub items: Vec<String>,
    pub selected: usize,
}

/// What the popup shows of the completions: how each item is displayed, in order.
pub fn popup_snapshot(open: bool, offered: &CompletionResult, selected: usize) -> (out:
    PopupSnapshot)
    ensures
        out.open == open,
        out.status == offered.status,
        out.items@ == offered.items@.map_values(|item: CompletionItem| item.display),
        out.selected == selected,
{
    let mut items: Vec<String> = Vec::new();
    let mut i: usize = 0;
    while i < offered.items.len()
        invariant
            i <= offered.items@.len(),
            items@.len() == i,
            forall|k: int| 0 <= k < i ==> #[trigger] items@[k] == offered.items@[k].display,
        decreases offered.items@.len() - i,
    {
        items.push(offered.items[i].display.clone());
        i += 1;
    }
    assert(items@ =~= offered.items@.map_values(|item: CompletionItem| item.display));
    PopupSnapshot { open, status: offered.status.copy(), items, selected }
}

/// The row of the status line: one below the attachments at the top of the
/// footer.
pub fn status_area(footer: Area, attachment_height: u16) -> (out: Area)
    requires
        footer.y + attachment_height + 1 <= u16::MAX,
    ensures
        out == (Area {
            y: (footer.y + attachment_height + 1) as u16,
            height: 1,
            ..footer
        }),
{
    Area { y: footer.y + attachment_height + 1, height: 1, ..footer }
}

/// No input reaches the editor that belongs to the transcript: neither the
/// mouse, nor a page key, nor Escape while there is a selection.
pub proof fn the_transcript_keeps_its_input(event: InputEvent, selection: bool)
    requires
        route_of(meaning(event), selection) is Editor,
    ensures
        !(event is Mouse),
        event is Key && event->Key_0.kind == KeyKind::Press ==> event->Key_0.code
            != KeyCode::PageUp && event->Key_0.code != KeyCode::PageDown,
        event is Key && event->Key_0.kind == KeyKind::Press && selection ==> event->Key_0.code
            != KeyCode::Esc,
{
}

/// What is pasted and what is typed goes to the editor; what is pasted goes there whole.
pub proof fn the_editor_gets_its_input(event: InputEvent, text: String, selection: bool)
    ensures
        meaning(InputEvent::Paste(text)) == AlanAction::Paste(text),
        route_of(meaning(InputEvent::Paste(text)), selection) is Editor,
        meaning(event) is Raw ==> meaning(event)->Raw_0 == event,
        event is Key && (event->Key_0.code is Char || event->Key_0.code == KeyCode::Enter
            || event->Key_0.code == KeyCode::Backspace) ==> route_of(
            meaning(event),
            selection,
        ) is Editor,
        event is Mouse ==> route_of(meaning(event), selection) == Route::Transcript,
        event is Resize ==> route_of(meaning(event), selection) == Route::Measure,
        event is Key && event->Key_0.code == KeyCode::Esc && !selection ==> route_of(
            meaning(event),
            selection,
        ) is Editor,
{
}

} // verus!
