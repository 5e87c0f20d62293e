//! What the keys mean before any part of the screen sees them.
use crate::chat::ImageAttachment;
use crate::keys::{InputEvent, KeyCode};
use crate::permissions::Answer;
use vstd::prelude::*;

verus! {

/// A prompt to be put to the agent.
#[derive(Debug, Clone)]
pub struct PromptSubmission {
    pub images: Vec<ImageAttachment>,
    pub text: String,
}

/// Input by its meaning.
#[derive(Debug, Clone)]
pub enum AlanAction {
    ToggleMode,
    Paste(String),
    Submit(PromptSubmission),
    Quit,
    /// The terminal has another size; everything is measured anew.
    Resize,
    SetLoadingDots(bool),
    SetSteering(Option<String>),
    CancelSteer,
    /// A pending request for permission was answered.
    PermissionAnswered(Answer),
    /// Input that has no meaning yet.
    Raw(InputEvent),
}

/// Gives input its meaning, where it has one everywhere.
#[derive(Debug, Clone, Copy)]
pub struct AlanKeyMapper;

/// What an input means: Shift and Tab change the mode, Control and C quit, and
/// what is neither a paste nor a change of size is for the parts of the screen.
pub open spec fn meaning(event: InputEvent) -> AlanAction {
    match event {
        InputEvent::Resize(_, _) => AlanAction::Resize,
        InputEvent::Paste(text) => AlanAction::Paste(text),
        InputEvent::Key(key) => if key.code == KeyCode::BackTab || (key.code == KeyCode::Tab
            && key.modifiers.shift) {
            AlanAction::ToggleMode
        } else if key.code == KeyCode::Char('c') && key.modifiers.control {
            AlanAction::Quit
        } else {
            AlanAction::Raw(event)
        },
        _ => AlanAction::Raw(event),
    }
}

impl AlanKeyMapper {
    /// What an input means.
    pub fn map(&self, event: &InputEvent) -> (out: Option<AlanAction>)
        ensures
            out == Some(meaning(*event)),
    {
        match event {
            InputEvent::Resize(_, _) => Some(AlanAction::Resize),
            InputEvent::Paste(text) => Some(AlanAction::Paste(text.clone())),
            InputEvent::Key(key) => {
                if key.code == KeyCode::BackTab || (key.code == KeyCode::Tab
                    && key.modifiers.shift) {
                    Some(AlanAction::ToggleMode)
                } else if key.code == KeyCode::Char('c') && key.modifiers.control {
                    Some(AlanAction::Quit)
                } else {
                    Some(AlanAction::Raw(event.copy()))
                }
            },
            _ => Some(AlanAction::Raw(event.copy())),
        }
    }
}

/// What is pasted is handed on whole, and an input without a meaning of its own as it
/// came.
pub proof fn inputs_are_handed_on(event: InputEvent, text: String)
    ensures
        meaning(InputEvent::Paste(text)) == AlanAction::Paste(text),
        meaning(event) is Raw ==> meaning(event)->Raw_0 == event,
        event is Resize <==> meaning(event) is Resize,
        meaning(event) is Quit ==> event is Key && event->Key_0.code == KeyCode::Char('c')
            && event->Key_0.modifiers.control,
        meaning(event) is ToggleMode ==> event is Key && (event->Key_0.code == KeyCode::BackTab
            || event->Key_0.code == KeyCode::Tab),
        event is Mouse || event is Other ==> meaning(event) is Raw,
        event is Key && !event->Key_0.modifiers.control && !event->Key_0.modifiers.shift
            && event->Key_0.code != KeyCode::BackTab ==> meaning(event) is Raw,
{
}

} // verus!
