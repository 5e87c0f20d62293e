//! The conversation that an agent keeps, and how it is put to a model.
use crate::json::copy_values;
use crate::llm::{
    copy_text, image_views, part_views, plain_message, unless_empty, ContentPart, ImageUrl,
    LlmResponse, Message, MessageView, ResponseView, Role, Usage, no_usage,
};
use crate::skill::{build_system_prompt, skill_views, system_text, Skill};
use crate::text::{opt_text, owned, same};
use vstd::prelude::*;

verus! {

/// One message of a conversation.
#[derive(Debug, Clone, PartialEq)]
pub enum AgentMessage {
    User { text: String, images: Vec<ImageUrl> },
    Assistant(LlmResponse),
    ToolResult { tool_call_id: String, content: String, content_parts: Vec<ContentPart> },
}

/// The view of an [`AgentMessage`].
pub enum AgentMessageView {
    User { text: Seq<char>, images: Seq<ImageUrl<Seq<char>>> },
    Assistant(ResponseView),
    ToolResult {
        tool_call_id: Seq<char>,
        content: Seq<char>,
        content_parts: Seq<ContentPart<Seq<char>>>,
    },
}

impl View for AgentMessage {
    type V = AgentMessageView;

    open spec fn view(&self) -> AgentMessageView {
        match self {
            AgentMessage::User { text, images } => AgentMessageView::User {
                text: text@,
                images: image_views(images@),
            },
            AgentMessage::Assistant(response) => AgentMessageView::Assistant(response@),
            AgentMessage::ToolResult { tool_call_id, content, content_parts } =>
                AgentMessageView::ToolResult {
                tool_call_id: tool_call_id@,
                content: content@,
                content_parts: part_views(content_parts@),
            },
        }
    }
}

/// The views of a conversation.
pub open spec fn message_views(messages: Seq<AgentMessage>) -> Seq<AgentMessageView> {
    messages.map_values(|m: AgentMessage| m@)
}

/// A text followed by images, as parts of one message.
pub open spec fn shown_parts(
    text: Seq<char>,
    images: Seq<ImageUrl<Seq<char>>>,
) -> Seq<ContentPart<Seq<char>>> {
    seq![ContentPart::Text { text }] + images.map_values(
        |i: ImageUrl<Seq<char>>| ContentPart::Image { image_url: i },
    )
}

/// How a message of the conversation is put to a model.
pub open spec fn as_llm(message: AgentMessageView) -> MessageView {
    match message {
        AgentMessageView::User { text, images } => if images.len() == 0 {
            plain_message(Role::User, Some(text))
        } else {
            MessageView {
                content_parts: Some(shown_parts(text, images)),
                ..plain_message(Role::User, None)
            }
        },
        AgentMessageView::Assistant(response) => MessageView {
            tool_calls: unless_empty(response.tool_calls()),
            reasoning: response.reasoning,
            reasoning_details: unless_empty(response.reasoning_details),
            ..plain_message(Role::Assistant, unless_empty(response.text()))
        },
        AgentMessageView::ToolResult { tool_call_id, content, content_parts } => if content_parts.len()
            == 0 {
            MessageView {
                tool_call_id: Some(tool_call_id),
                ..plain_message(Role::Tool, Some(content))
            }
        } else {
            MessageView {
                content_parts: Some(content_parts),
                tool_call_id: Some(tool_call_id),
                ..plain_message(Role::Tool, None)
            }
        },
    }
}

fn copy_parts(parts: &Vec<ContentPart>) -> (out: Vec<ContentPart>)
    ensures
        out@ == parts@,
{
    let mut out: Vec<ContentPart> = Vec::new();
    let mut i: usize = 0;
    while i < parts.len()
        invariant
            i <= parts@.len(),
            out@ == parts@.take(i as int),
        decreases parts@.len() - i,
    {
        out.push(parts[i].copy());
        assert(parts@.take(i as int + 1) =~= parts@.take(i as int).push(parts@[i as int]));
        i += 1;
    }
    assert(parts@.take(i as int) =~= parts@);
    out
}

fn copy_images(images: &Vec<ImageUrl>) -> (out: Vec<ImageUrl>)
    ensures
        out@ == images@,
{
    let mut out: Vec<ImageUrl> = Vec::new();
    let mut i: usize = 0;
    while i < images.len()
        invariant
            i <= images@.len(),
            out@ == images@.take(i as int),
        decreases images@.len() - i,
    {
        out.push(images[i].copy());
        assert(images@.take(i as int + 1) =~= images@.take(i as int).push(images@[i as int]));
        i += 1;
    }
    assert(images@.take(i as int) =~= images@);
    out
}

fn parts_of(text: &str, images: &Vec<ImageUrl>) -> (out: Vec<ContentPart>)
    ensures
        part_views(out@) == shown_parts(text@, image_views(images@)),
{
    let mut out: Vec<ContentPart> = Vec::new();
    out.push(ContentPart::Text { text: owned(text) });
    let mut i: usize = 0;
    while i < images.len()
        invariant
            i <= images@.len(),
            out@.len() == i + 1,
            out@[0]@ == (ContentPart::<Seq<char>>::Text { text: text@ }),
            forall|k: int|
                0 <= k < i ==> (#[trigger] out@[k + 1])@ == (ContentPart::<Seq<char>>::Image {
                    image_url: images@[k]@,
                }),
        decreases images@.len() - i,
    {
        out.push(ContentPart::Image { image_url: images[i].copy() });
        i += 1;
    }
    proof {
        let want = shown_parts(text@, image_views(images@));
        assert forall|k: int| 0 <= k < want.len() implies #[trigger] part_views(out@)[k]
            == want[k] by {
            if k > 0 {
                assert(out@[(k - 1) + 1]@ == (ContentPart::<Seq<char>>::Image {
                    image_url: images@[k - 1]@,
                }));
            }
        }
        assert(part_views(out@) =~= want);
    }
    out
}

impl AgentMessage {
    /// A user's message without images.
    pub fn user(content: &str) -> (out: AgentMessage)
        ensures
            out@ == (AgentMessageView::User { text: content@, images: Seq::empty() }),
    {
        let images: Vec<ImageUrl> = Vec::new();
        assert(image_views(images@) =~= Seq::empty());
        AgentMessage::User { text: owned(content), images }
    }

    /// A user's message with images.
    pub fn user_with_images(content: &str, images: Vec<ImageUrl>) -> (out: AgentMessage)
        ensures
            out@ == (AgentMessageView::User { text: content@, images: image_views(images@) }),
    {
        AgentMessage::User { text: owned(content), images }
    }

    /// A tool's output, with parts besides its text.
    pub fn tool_result_with_parts(
        tool_call_id: &str,
        content: &str,
        content_parts: Vec<ContentPart>,
    ) -> (out: AgentMessage)
        ensures
            out@ == (AgentMessageView::ToolResult {
                tool_call_id: tool_call_id@,
                content: content@,
                content_parts: part_views(content_parts@),
            }),
    {
        AgentMessage::ToolResult {
            tool_call_id: owned(tool_call_id),
            content: owned(content),
            content_parts,
        }
    }

    /// How the message is put to a model.
    pub fn to_llm(&self) -> (out: Message)
        ensures
            out@ == as_llm(self@),
    {
        match self {
            AgentMessage::User { text, images } => {
                if images.len() == 0 {
                    Message::user(text.as_str())
                } else {
                    Message::user_with_parts(parts_of(text.as_str(), images))
                }
            },
            AgentMessage::Assistant(response) => {
                let text = response.text();
                let content = if text.as_str().is_empty() {
                    None
                } else {
                    Some(text)
                };
                let calls = response.tool_calls();
                let reasoning = copy_text(&response.reasoning);
                let details = copy_values(&response.reasoning_details);
                if calls.len() == 0 {
                    Message::assistant_with_reasoning(content, reasoning, details)
                } else {
                    Message::assistant_with_tool_calls_and_reasoning(
                        content,
                        calls,
                        reasoning,
                        details,
                    )
                }
            },
            AgentMessage::ToolResult { tool_call_id, content, content_parts } => {
                if content_parts.len() == 0 {
                    Message::tool_result(content.as_str(), tool_call_id.as_str())
                } else {
                    Message::tool_result_with_parts(
                        copy_parts(content_parts),
                        tool_call_id.as_str(),
                    )
                }
            },
        }
    }

    /// A copy of the message.
    pub fn copy(&self) -> (out: AgentMessage)
        ensures
            out@ == self@,
    {
        match self {
            AgentMessage::User { text, images } => AgentMessage::User {
                text: text.clone(),
                images: copy_images(images),
            },
            AgentMessage::Assistant(response) => AgentMessage::Assistant(response.copy()),
            AgentMessage::ToolResult { tool_call_id, content, content_parts } =>
                AgentMessage::ToolResult {
                tool_call_id: tool_call_id.clone(),
                content: content.clone(),
                content_parts: copy_parts(content_parts),
            },
        }
    }
}

/// A copy of a conversation.
pub fn copy_messages(messages: &Vec<AgentMessage>) -> (out: Vec<AgentMessage>)
    ensures
        message_views(out@) == message_views(messages@),
{
    let mut out: Vec<AgentMessage> = Vec::new();
    let mut i: usize = 0;
    while i < messages.len()
        invariant
            i <= messages@.len(),
            out@.len() == i,
            forall|k: int| 0 <= k < i ==> (#[trigger] out@[k])@ == messages@[k]@,
        decreases messages@.len() - i,
    {
        out.push(messages[i].copy());
        i += 1;
    }
    assert(message_views(out@) =~= message_views(messages@));
    out
}

/// What a model is told of a tool. The parameters are a JSON schema.
#[derive(Debug, Clone, PartialEq)]
pub struct ToolDefinition {
    pub name: String,
    pub description: String,
    pub parameters: serde_json::Value,
}

/// A tool that an agent may run. What runs it is kept by the program, at the
/// same place in a list of its own.
#[derive(Debug, Clone, PartialEq)]
pub struct AgentTool {
    pub definition: ToolDefinition,
    pub read_only: bool,
}

impl AgentTool {
    /// A tool that may change things.
    pub fn new(definition: ToolDefinition) -> (out: AgentTool)
        ensures
            out.definition == definition,
            !out.read_only,
    {
        AgentTool { definition, read_only: false }
    }

    /// The same tool, as one that changes nothing.
    pub fn read_only(self) -> (out: AgentTool)
        ensures
            out.definition == self.definition,
            out.read_only,
    {
        AgentTool { definition: self.definition, read_only: true }
    }
}

/// What an agent works from.
pub struct AgentContext {
    pub system_prompt: Option<String>,
    pub skills: Vec<Skill>,
    pub messages: Vec<AgentMessage>,
    pub usage: Usage,
    pub tools: Vec<AgentTool>,
}

/// Whether `index` is where `name` is first found among `tools`.
pub open spec fn is_tool_index(tools: Seq<AgentTool>, name: Seq<char>, index: int) -> bool {
    &&& 0 <= index < tools.len()
    &&& tools[index].definition.name@ == name
    &&& forall|k: int| 0 <= k < index ==> (#[trigger] tools[k]).definition.name@ != name
}

/// Whether a tool of that name is among `tools`.
pub open spec fn has_tool(tools: Seq<AgentTool>, name: Seq<char>) -> bool {
    exists|k: int| 0 <= k < tools.len() && (#[trigger] tools[k]).definition.name@ == name
}

/// The messages of a request: the system prompt where there is one, then the
/// conversation.
pub open spec fn request_messages(
    system_prompt: Option<Seq<char>>,
    skills: Seq<Skill<Seq<char>>>,
    messages: Seq<AgentMessageView>,
) -> Seq<MessageView> {
    let conversation = messages.map_values(|m: AgentMessageView| as_llm(m));
    match system_text(system_prompt, skills) {
        Some(text) => seq![plain_message(Role::System, Some(text))] + conversation,
        None => conversation,
    }
}

/// The views of a list of request messages.
pub open spec fn llm_views(messages: Seq<Message>) -> Seq<MessageView> {
    messages.map_values(|m: Message| m@)
}

impl AgentContext {
    /// A context with an empty conversation.
    pub fn new(
        system_prompt: Option<String>,
        skills: Vec<Skill>,
        tools: Vec<AgentTool>,
    ) -> (out: AgentContext)
        ensures
            out.system_prompt == system_prompt,
            out.skills == skills,
            out.tools == tools,
            out.messages@ == Seq::<AgentMessage>::empty(),
            out.usage == no_usage(),
    {
        AgentContext { system_prompt, skills, messages: Vec::new(), usage: Usage::default(), tools }
    }

    /// Take over the conversation and the usage of a session; nothing else
    /// changes.
    pub fn hydrate(&mut self, messages: Vec<AgentMessage>, usage: Usage)
        ensures
            final(self).messages == messages,
            final(self).usage == usage,
            final(self).system_prompt == old(self).system_prompt,
            final(self).skills == old(self).skills,
            final(self).tools == old(self).tools,
    {
        self.messages = messages;
        self.usage = usage;
    }

    /// Where the first tool of that name stands.
    pub fn tool_index(&self, name: &str) -> (out: Option<usize>)
        ensures
            match out {
                Some(index) => is_tool_index(self.tools@, name@, index as int),
                None => !has_tool(self.tools@, name@),
            },
    {
        let mut i: usize = 0;
        while i < self.tools.len()
            invariant
                i <= self.tools@.len(),
                forall|k: int|
                    0 <= k < i ==> (#[trigger] self.tools@[k]).definition.name@ != name@,
            decreases self.tools@.len() - i,
        {
            if same(self.tools[i].definition.name.as_str(), name) {
                return Some(i);
            }
            i += 1;
        }
        None
    }

    /// The messages of a request.
    pub fn build_messages(&self) -> (out: Vec<Message>)
        ensures
            llm_views(out@) == request_messages(
                opt_text(self.system_prompt),
                skill_views(self.skills@),
                message_views(self.messages@),
            ),
    {
        let system = match &self.system_prompt {
            Some(text) => build_system_prompt(Some(text.as_str()), self.skills.as_slice()),
            None => build_system_prompt(None, self.skills.as_slice()),
        };
        let ghost head: Seq<MessageView> = match system_text(
            opt_text(self.system_prompt),
            skill_views(self.skills@),
        ) {
            Some(text) => seq![plain_message(Role::System, Some(text))],
            None => Seq::empty(),
        };
        let ghost views = message_views(self.messages@);
        let mut out: Vec<Message> = Vec::new();
        if let Some(text) = system {
            out.push(Message::system(text));
        }
        assert(llm_views(out@) =~= head);
        let mut i: usize = 0;
        assert(views.take(0).map_values(|m: AgentMessageView| as_llm(m)) =~= Seq::empty());
        assert(head + Seq::<MessageView>::empty() =~= head);
        while i < self.messages.len()
            invariant
                i <= self.messages@.len(),
                views == message_views(self.messages@),
                llm_views(out@) == head + views.take(i as int).map_values(
                    |m: AgentMessageView| as_llm(m),
                ),
            decreases self.messages@.len() - i,
        {
            let ghost before = llm_views(out@);
            out.push(self.messages[i].to_llm());
            proof {
                let f = |m: AgentMessageView| as_llm(m);
                assert(llm_views(out@) =~= before.push(as_llm(views[i as int])));
                assert(views.take(i as int + 1).map_values(f) =~= views.take(i as int).map_values(
                    f,
                ).push(as_llm(views[i as int])));
                assert(before.push(as_llm(views[i as int])) =~= head + views.take(
                    i as int,
                ).map_values(f).push(as_llm(views[i as int])));
            }
            i += 1;
        }
        assert(views.take(i as int) =~= views);
        assert(Seq::<MessageView>::empty() + views.map_values(|m: AgentMessageView| as_llm(m))
            =~= views.map_values(|m: AgentMessageView| as_llm(m)));
        out
    }
}

/// Nothing of an answer is lost when it is put to a model again: what it said is
/// the content, whether or not it asks for tools, and its calls, its reasoning and
/// the details of it go along.
pub proof fn answers_are_put_to_the_model_whole(response: ResponseView)
    ensures
        ({
            let message = as_llm(AgentMessageView::Assistant(response));
            &&& message.role == Role::Assistant
            &&& response.text().len() > 0 ==> message.content == Some(response.text())
            &&& response.text().len() == 0 ==> message.content is None
            &&& response.tool_calls().len() > 0 ==> message.tool_calls == Some(
                response.tool_calls(),
            )
            &&& response.tool_calls().len() == 0 ==> message.tool_calls is None
            &&& message.reasoning == response.reasoning
            &&& response.reasoning_details.len() > 0 ==> message.reasoning_details == Some(
                response.reasoning_details,
            )
            &&& response.reasoning_details.len() == 0 ==> message.reasoning_details is None
            &&& message.content_parts is None
            &&& message.tool_call_id is None
        }),
{
}

/// Two answers that are put to a model in the same way said the same, asked for the
/// same tools and thought the same.
pub proof fn answers_can_be_told_apart(a: ResponseView, b: ResponseView)
    requires
        as_llm(AgentMessageView::Assistant(a)) == as_llm(AgentMessageView::Assistant(b)),
    ensures
        a.text() == b.text(),
        a.tool_calls() == b.tool_calls(),
        a.reasoning == b.reasoning,
        a.reasoning_details == b.reasoning_details,
{
    answers_are_put_to_the_model_whole(a);
    answers_are_put_to_the_model_whole(b);
    if a.text().len() == 0 {
        assert(a.text() =~= b.text());
    }
    if a.tool_calls().len() == 0 {
        assert(a.tool_calls() =~= b.tool_calls());
    }
    if a.reasoning_details.len() == 0 {
        assert(a.reasoning_details =~= b.reasoning_details);
    }
}

/// What the user wrote is put to a model as it was written, by the user; images
/// follow the text, all of them and in order.
pub proof fn users_are_quoted(text: Seq<char>, images: Seq<ImageUrl<Seq<char>>>)
    ensures
        ({
            let message = as_llm(AgentMessageView::User { text, images });
            &&& message.role == Role::User
            &&& message.tool_calls is None
            &&& message.tool_call_id is None
            &&& images.len() == 0 ==> message.content == Some(text) && message.content_parts is None
            &&& images.len() > 0 ==> {
                &&& message.content is None
                &&& message.content_parts is Some
                &&& message.content_parts->0.len() == images.len() + 1
                &&& message.content_parts->0[0] == (ContentPart::<Seq<char>>::Text { text })
                &&& forall|i: int|
                    0 <= i < images.len() ==> message.content_parts->0[i + 1] == (ContentPart::<
                        Seq<char>,
                    >::Image { image_url: #[trigger] images[i] })
            }
        }),
{
}

/// What a tool put out is put to a model as the answer to its call: the text as it
/// is where there is nothing else, and else all the parts in order.
pub proof fn tools_are_quoted(
    tool_call_id: Seq<char>,
    content: Seq<char>,
    content_parts: Seq<ContentPart<Seq<char>>>,
)
    ensures
        ({
            let message = as_llm(
                AgentMessageView::ToolResult { tool_call_id, content, content_parts },
            );
            &&& message.role == Role::Tool
            &&& message.tool_call_id == Some(tool_call_id)
            &&& message.tool_calls is None
            &&& content_parts.len() == 0 ==> message.content == Some(content)
                && message.content_parts is None
            &&& content_parts.len() > 0 ==> message.content is None && message.content_parts
                == Some(content_parts)
        }),
{
}

/// A request holds every message of the conversation, in order, behind the system
/// prompt. There is a system prompt exactly where a text was given for it or a
/// skill may be seen.
pub proof fn requests_hold_the_conversation(
    system_prompt: Option<Seq<char>>,
    skills: Seq<Skill<Seq<char>>>,
    messages: Seq<AgentMessageView>,
)
    ensures
        ({
            let request = request_messages(system_prompt, skills, messages);
            let first = request.len() - messages.len();
            &&& first == if system_text(system_prompt, skills) is Some {
                1int
            } else {
                0
            }
            &&& first == 1 ==> {
                &&& request[0].role == Role::System
                &&& request[0].content == system_text(system_prompt, skills)
                &&& request[0].content_parts is None
                &&& request[0].tool_calls is None
            }
            &&& forall|i: int|
                0 <= i < messages.len() ==> request[first + i] == as_llm(#[trigger] messages[i])
        }),
{
}

/// Nothing of a message is lost to its view: a user's text and images, and what a tool
/// answered to which call.
pub proof fn messages_are_seen_whole(
    text: String,
    images: Vec<ImageUrl>,
    tool_call_id: String,
    content_parts: Vec<ContentPart>,
    response: LlmResponse,
    i: int,
)
    ensures
        ({
            let user = AgentMessage::User { text, images }@;
            &&& user is User
            &&& user->User_text == text@
            &&& user->User_images.len() == images@.len()
            &&& 0 <= i < images@.len() ==> user->User_images[i].url == images@[i].url@
        }),
        ({
            let answer = AgentMessage::Assistant(response)@;
            answer is Assistant && answer->Assistant_0 == response@
        }),
        ({
            let result = AgentMessage::ToolResult { tool_call_id, content: text, content_parts }@;
            &&& result is ToolResult
            &&& result->ToolResult_tool_call_id == tool_call_id@
            &&& result->ToolResult_content == text@
            &&& result->ToolResult_content_parts.len() == content_parts@.len()
            &&& 0 <= i < content_parts@.len() ==> result->ToolResult_content_parts[i]
                == content_parts@[i]@
        }),
{
}

} // verus!
