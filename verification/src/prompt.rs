//! Prompts: how what the user typed becomes a message of the conversation.
use crate::context::{AgentMessage, AgentMessageView};
use crate::error::{AgentError, ModelError};
use crate::llm::{
    block_views, image_views, parts_of_an_answer, ContentBlock, ImageUrl, LlmResponse,
    ResponseView, StopReason,
};
use crate::mode::Mode;
use crate::text::{
    decimal, decimal_of, is_blank, join, join_from, joined3, joined_lines_are_the_text,
    lemma_blank_trims_to_nothing, lines, lines_of_both, opt_text, owned, split_lines, texts,
    trimmed, white_space,
};
use vstd::prelude::*;
use vstd::string::*;
use vstd::utf8::encode_utf8;

verus! {

/// The guidelines that the first message in review mode carries.
pub const REVIEW_GUIDELINES: &'static str = "Review mode is on, do not edit any files.

Review the code in this project against:
1. Performance
2. SOLID, DRY, KISS
3. Language best practices
4. Edge cases
5. Security: input validation, secrets handling, injection, unsafe deserialization
6. Correctness: error handling, resource cleanup, concurrency and race conditions
7. Tests: coverage of the change, and do they fail when the code breaks
8. Readability: naming, function size, comments explain why not what
9. If something can be done in a better way, describe the best approach in two or three lines
10. Future scoping";

/// The text of a message for what the user typed: in plan mode with the plan
/// suffix, and with the review guidelines where they are due.
pub open spec fn prompt_text(content: Seq<char>, mode: Mode, review_intro: bool) -> Seq<char> {
    let planned = if mode == Mode::Plan {
        content + "\n\n"@ + "Plan mode is on, do not edit any files."@
    } else {
        content
    };
    if review_intro {
        planned + "\n\n"@ + REVIEW_GUIDELINES@
    } else {
        planned
    }
}

/// The text of a message for what the user typed.
pub fn prompt_content(content: &str, mode: Mode, review_intro: bool) -> (out: String)
    ensures
        out@ == prompt_text(content@, mode, review_intro),
{
    let mut text = match mode {
        Mode::Plan => joined3(content, "\n\n", "Plan mode is on, do not edit any files."),
        _ => owned(content),
    };
    if review_intro {
        text.push_str("\n\n");
        text.push_str(REVIEW_GUIDELINES);
    }
    text
}

/// The message for what the user typed and attached.
pub fn build_user_message(
    content: &str,
    images: Vec<ImageUrl>,
    mode: Mode,
    review_intro: bool,
) -> (out: AgentMessage)
    ensures
        out@ == (AgentMessageView::User {
            text: prompt_text(content@, mode, review_intro),
            images: image_views(images@),
        }),
{
    let text = prompt_content(content, mode, review_intro);
    AgentMessage::User { text, images }
}

/// Whether a prompt carries anything: text that is not blank, or an image.
pub open spec fn has_content(text: Seq<char>, images: nat) -> bool {
    trimmed(text).len() > 0 || images > 0
}

/// The error for a prompt that carries nothing.
pub open spec fn empty_prompt() -> AgentError<Seq<char>> {
    AgentError::Model(ModelError::Configuration("empty prompt"@))
}

/// The view of a result that carries nothing on success.
pub open spec fn check_view(result: Result<(), AgentError>) -> Result<(), AgentError<Seq<char>>> {
    match result {
        Ok(_) => Ok(()),
        Err(error) => Err(error@),
    }
}

/// Refuse a prompt that carries nothing.
pub fn validate_prompt(text: &str, images: &Vec<ImageUrl>) -> (out: Result<(), AgentError>)
    ensures
        check_view(out) == if has_content(text@, images@.len()) {
            Ok::<(), AgentError<Seq<char>>>(())
        } else {
            Err(empty_prompt())
        },
{
    if is_blank(text) && images.len() == 0 {
        Err(AgentError::Model(ModelError::Configuration(owned("empty prompt"))))
    } else {
        Ok(())
    }
}

/// Whether a message may be put to a model.
pub open spec fn message_has_content(message: AgentMessageView) -> bool {
    match message {
        AgentMessageView::User { text, images } => has_content(text, images.len()),
        _ => true,
    }
}

/// Refuse a user's message that carries nothing.
pub fn validate_prompt_message(message: &AgentMessage) -> (out: Result<(), AgentError>)
    ensures
        check_view(out) == if message_has_content(message@) {
            Ok::<(), AgentError<Seq<char>>>(())
        } else {
            Err(empty_prompt())
        },
{
    match message {
        AgentMessage::User { text, images } => validate_prompt(text.as_str(), images),
        _ => Ok(()),
    }
}

/// A message with the project directory at its end, where it is the first of
/// the conversation, comes from the user and the directory is known.
pub open spec fn placed_message(
    message: AgentMessageView,
    first: bool,
    directory: Option<Seq<char>>,
) -> AgentMessageView {
    match (message, directory) {
        (AgentMessageView::User { text, images }, Some(dir)) => if first {
            AgentMessageView::User {
                text: text + "\nCurrent project dir which you are in : "@ + dir,
                images,
            }
        } else {
            message
        },
        _ => message,
    }
}

/// Append the project directory to the first user message of a conversation,
/// so that the model knows where it works.
pub fn attach_working_directory(
    directory: &Option<String>,
    conversation: &Vec<AgentMessage>,
    message: AgentMessage,
) -> (out: AgentMessage)
    ensures
        out@ == placed_message(message@, conversation@.len() == 0, opt_text(*directory)),
{
    match directory {
        None => message,
        Some(dir) => {
            if conversation.len() > 0 {
                return message;
            }
            match message {
                AgentMessage::User { text, images } => {
                    let mut text: String = text;
                    text.push_str("\nCurrent project dir which you are in : ");
                    text.push_str(dir.as_str());
                    AgentMessage::User { text, images }
                },
                other => other,
            }
        },
    }
}

/// What is kept of an answer that broke off after `text`.
pub open spec fn partial_view(text: Seq<char>) -> ResponseView {
    ResponseView {
        content: seq![ContentBlock::Text(text)],
        stop_reason: StopReason::Aborted,
        usage: None,
        model: None,
        reasoning: None,
        reasoning_details: Seq::empty(),
    }
}

/// What is kept of an answer that broke off after `text`.
pub fn partial_response(text: &str) -> (out: LlmResponse)
    ensures
        out@ == partial_view(text@),
{
    let mut content: Vec<ContentBlock> = Vec::new();
    content.push(ContentBlock::Text(owned(text)));
    assert(block_views(content@) =~= seq![ContentBlock::Text(text@)]);
    let reasoning_details: Vec<serde_json::Value> = Vec::new();
    assert(reasoning_details@ =~= Seq::empty());
    LlmResponse {
        content,
        stop_reason: StopReason::Aborted,
        usage: None,
        model: None,
        reasoning: None,
        reasoning_details,
    }
}

/// The last `count` lines of `output`.
pub open spec fn tail_text(output: Seq<char>, count: nat) -> Seq<char> {
    let all = lines(output);
    let from = if all.len() > count {
        all.len() - count
    } else {
        0
    };
    join(all.skip(from), "\n"@)
}

/// The last `count` lines of `output`.
pub fn tail_lines(output: &str, count: usize) -> (out: String)
    ensures
        out@ == tail_text(output@, count as nat),
{
    let all = split_lines(output);
    assert(texts(all@).len() == all@.len());
    let from: usize = if all.len() > count {
        all.len() - count
    } else {
        0
    };
    join_from(&all, from, "\n")
}

/// The address of an image that is given inline.
pub open spec fn data_url(mime_type: Seq<char>, data: Seq<char>) -> Seq<char> {
    "data:"@ + mime_type + ";base64,"@ + data
}

/// The address of an image that is given inline.
pub fn image_data_url(mime_type: &str, data: &str) -> (out: String)
    ensures
        out@ == data_url(mime_type@, data@),
{
    let mut out = joined3("data:", mime_type, ";base64,");
    out.push_str(data);
    out
}

/// The text that stands for an image in a conversation.
pub open spec fn image_note(mime_type: Seq<char>, data: Seq<char>) -> Seq<char> {
    "["@ + mime_type + " image, "@ + decimal(encode_utf8(data).len()) + " bytes base64]"@
}

/// The text that stands for an image in a conversation.
pub fn image_description(mime_type: &str, data: &str) -> (out: String)
    ensures
        out@ == image_note(mime_type@, data@),
{
    let bytes = data.as_bytes();
    let mut out = joined3("[", mime_type, " image, ");
    out.push_str(decimal_of(bytes.len() as u64).as_str());
    out.push_str(" bytes base64]");
    out
}

/// A prompt that is being put together.
pub struct PromptBuilder {
    pub content: Option<String>,
    pub images: Vec<ImageUrl>,
    pub stream: bool,
}

impl PromptBuilder {
    /// A prompt with nothing in it, not streamed.
    pub fn new() -> (out: PromptBuilder)
        ensures
            out.content is None,
            out.images@ == Seq::<ImageUrl>::empty(),
            !out.stream,
    {
        PromptBuilder { content: None, images: Vec::new(), stream: false }
    }

    /// Set the text of the prompt.
    pub fn content(self, text: String) -> (out: PromptBuilder)
        ensures
            out.content == Some(text),
            out.images == self.images,
            out.stream == self.stream,
    {
        PromptBuilder { content: Some(text), images: self.images, stream: self.stream }
    }

    /// Add images to the prompt.
    pub fn images(self, images: Vec<ImageUrl>) -> (out: PromptBuilder)
        ensures
            out.content == self.content,
            out.images@ == self.images@ + images@,
            out.stream == self.stream,
    {
        let mut all = self.images;
        let mut more = images;
        all.append(&mut more);
        PromptBuilder { content: self.content, images: all, stream: self.stream }
    }

    /// Set whether the answer is streamed.
    pub fn stream(self, stream: bool) -> (out: PromptBuilder)
        ensures
            out.content == self.content,
            out.images == self.images,
            out.stream == stream,
    {
        PromptBuilder { content: self.content, images: self.images, stream }
    }
}

/// Whether a prompt may be put to the agent.
pub open spec fn may_ask(content: Option<Seq<char>>, images: nat) -> bool {
    match content {
        Some(text) => has_content(text, images),
        None => false,
    }
}

impl PromptBuilder {
    /// Refuse a prompt without text, or with neither text nor images.
    pub fn validate(&self) -> (out: Result<(), AgentError>)
        ensures
            check_view(out) == if may_ask(opt_text(self.content), self.images@.len()) {
                Ok::<(), AgentError<Seq<char>>>(())
            } else {
                Err(empty_prompt())
            },
    {
        match &self.content {
            None => Err(AgentError::Model(ModelError::Configuration(owned("empty prompt")))),
            Some(text) => validate_prompt(text.as_str(), &self.images),
        }
    }
}

/// What the user typed stands at the beginning of the message, whatever the mode.
/// In normal mode it is the whole message; plan mode adds a sentence, and the first
/// message in review mode the guidelines.
pub proof fn prompts_begin_with_what_was_typed(
    content: Seq<char>,
    mode: Mode,
    review_intro: bool,
)
    ensures
        content.is_prefix_of(prompt_text(content, mode, review_intro)),
        mode != Mode::Plan && !review_intro ==> prompt_text(content, mode, review_intro) == content,
        mode == Mode::Plan && !review_intro ==> prompt_text(content, mode, review_intro).skip(
            content.len() as int,
        ) == "\n\n"@ + "Plan mode is on, do not edit any files."@,
        mode != Mode::Plan && review_intro ==> prompt_text(content, mode, review_intro).skip(
            content.len() as int,
        ) == "\n\n"@ + REVIEW_GUIDELINES@,
        mode == Mode::Plan && review_intro ==> prompt_text(content, mode, review_intro).skip(
            content.len() as int,
        ) == "\n\n"@ + "Plan mode is on, do not edit any files."@ + "\n\n"@ + REVIEW_GUIDELINES@,
{
    let text = prompt_text(content, mode, review_intro);
    assert(content =~= text.take(content.len() as int));
    let tail = text.skip(content.len() as int);
    if mode == Mode::Plan && review_intro {
        assert(tail =~= "\n\n"@ + "Plan mode is on, do not edit any files."@ + "\n\n"@
            + REVIEW_GUIDELINES@);
    } else if mode == Mode::Plan {
        assert(tail =~= "\n\n"@ + "Plan mode is on, do not edit any files."@);
    } else if review_intro {
        assert(tail =~= "\n\n"@ + REVIEW_GUIDELINES@);
    }
}

/// The project directory is told once: at the end of the first message, and the
/// message is otherwise as it was. Any later message, and any message where the
/// directory is not known, stays as it is.
pub proof fn the_directory_is_told_once(
    text: Seq<char>,
    images: Seq<ImageUrl<Seq<char>>>,
    first: bool,
    directory: Option<Seq<char>>,
)
    ensures
        ({
            let message = AgentMessageView::User { text, images };
            let placed = placed_message(message, first, directory);
            &&& placed is User
            &&& placed->User_images == images
            &&& text.is_prefix_of(placed->User_text)
            &&& first && directory is Some ==> placed->User_text.skip(text.len() as int)
                == "\nCurrent project dir which you are in : "@ + directory->0
            &&& !first || directory is None ==> placed == message
        }),
{
    let placed = placed_message(AgentMessageView::User { text, images }, first, directory);
    assert(text =~= placed->User_text.take(text.len() as int));
    if first && directory is Some {
        assert(placed->User_text.skip(text.len() as int)
            =~= "\nCurrent project dir which you are in : "@ + directory->0);
    }
}

/// A prompt is refused exactly where it has no image and no character that is not
/// white space; one without any text at all is always refused.
pub proof fn only_empty_prompts_are_refused(text: Seq<char>, images: nat)
    ensures
        may_ask(Some(text), images) <==> images > 0 || exists|i: int|
            0 <= i < text.len() && !white_space(#[trigger] text[i]),
        !may_ask(None, images),
{
    lemma_blank_trims_to_nothing(text);
}

/// What is kept of an answer that broke off says what had come in, asks for no
/// tool and is marked as broken off.
pub proof fn broken_answers_say_what_came(text: Seq<char>)
    ensures
        partial_view(text).text() == text,
        partial_view(text).tool_calls().len() == 0,
        partial_view(text).stop_reason == StopReason::Aborted,
        partial_view(text).usage is None,
        partial_view(text).reasoning is None,
{
    parts_of_an_answer(text, arbitrary());
}

/// An output of no more lines than are asked for is its own tail.
pub proof fn short_outputs_are_their_own_tail(output: Seq<char>, count: nat)
    requires
        lines(output).len() <= count,
        forall|i: int| 0 <= i < output.len() ==> #[trigger] output[i] != '\r',
        output.len() > 0 ==> output.last() != '\n',
    ensures
        tail_text(output, count) == output,
{
    joined_lines_are_the_text(output);
    assert(lines(output).skip(0) =~= lines(output));
}

/// What stands before the last lines of an output does not show in its tail.
pub proof fn tails_are_what_comes_last(earlier: Seq<char>, last: Seq<char>)
    ensures
        tail_text(earlier.push('\n') + last, lines(last).len()) == tail_text(
            last,
            lines(last).len(),
        ),
{
    lines_of_both(earlier, last);
    let head = lines(earlier.push('\n'));
    let all = lines(earlier.push('\n') + last);
    assert(all.skip(all.len() - lines(last).len()) =~= lines(last));
    assert(lines(last).skip(0) =~= lines(last));
    assert(head + lines(last) =~= all);
}

/// The address of an image holds its kind and its data, and two images have the
/// same address only where they are written the same.
pub proof fn addresses_hold_the_image(mime_type: Seq<char>, data: Seq<char>)
    ensures
        data_url(mime_type, data) == "data:"@ + mime_type + ";base64,"@ + data,
        image_note(mime_type, data) == "["@ + mime_type + " image, "@ + decimal(
            encode_utf8(data).len(),
        ) + " bytes base64]"@,
        forall|other: Seq<char>|
            data_url(mime_type, data) == #[trigger] data_url(mime_type, other) ==> data == other,
{
    reveal_strlit("[");
    assert forall|other: Seq<char>|
        data_url(mime_type, data) == #[trigger] data_url(mime_type, other) implies data == other by {
        let n = ("data:"@ + mime_type + ";base64,"@).len() as int;
        assert(data_url(mime_type, data).skip(n) =~= data);
        assert(data_url(mime_type, other).skip(n) =~= other);
    }
}

/// Of all messages only a user's that has no image and says nothing is refused.
pub proof fn only_empty_messages_are_refused(message: AgentMessageView)
    ensures
        message_has_content(message) <==> !(message is User && message->User_images.len() == 0 && (
        forall|i: int|
            0 <= i < message->User_text.len() ==> white_space(#[trigger] message->User_text[i]))),
{
    if message is User {
        lemma_blank_trims_to_nothing(message->User_text);
    }
}

} // verus!
