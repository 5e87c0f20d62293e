//! What is said to a language model and what it answers.
//!
//! A type with a text parameter `S` is used in two ways: with `String`, which
//! is the default, it is the value itself; with `Seq<char>` it is its view.
use crate::json::copy_values;
use crate::text::{opt_text, owned, same};
use vstd::prelude::*;

verus! {

/// Tokens that a conversation has used.
#[derive(Debug, Clone, Copy, PartialEq, Eq, Structural)]
pub struct Usage {
    pub input_tokens: u64,
    pub output_tokens: u64,
}

/// The sum of two token counts, held at the largest count there is.
pub open spec fn count_sum(a: u64, b: u64) -> u64 {
    if a + b > u64::MAX {
        u64::MAX
    } else {
        (a + b) as u64
    }
}

/// The usage of two rounds together.
pub open spec fn usage_sum(a: Usage, b: Usage) -> Usage {
    Usage {
        input_tokens: count_sum(a.input_tokens, b.input_tokens),
        output_tokens: count_sum(a.output_tokens, b.output_tokens),
    }
}

/// No tokens used.
pub open spec fn no_usage() -> Usage {
    Usage { input_tokens: 0, output_tokens: 0 }
}

impl Default for Usage {
    fn default() -> (out: Self)
        ensures
            out == no_usage(),
    {
        Usage { input_tokens: 0, output_tokens: 0 }
    }
}

impl Usage {
    /// Add the usage of a round.
    pub fn accumulate(&mut self, round: &Usage)
        ensures
            *final(self) == usage_sum(*old(self), *round),
    {
        self.input_tokens = self.input_tokens.saturating_add(round.input_tokens);
        self.output_tokens = self.output_tokens.saturating_add(round.output_tokens);
    }
}

/// How hard a model thinks before it answers.
#[derive(Debug, Clone, Copy, PartialEq, Eq, Structural)]
pub enum ReasoningEffort {
    Auto,
    Off,
    Minimal,
    Low,
    Medium,
    High,
    XHigh,
    Max,
}

impl Default for ReasoningEffort {
    fn default() -> (out: Self)
        ensures
            out == ReasoningEffort::Auto,
    {
        ReasoningEffort::Auto
    }
}

/// The word for an effort.
pub open spec fn effort_word(effort: ReasoningEffort) -> Seq<char> {
    match effort {
        ReasoningEffort::Auto => "auto"@,
        ReasoningEffort::Off => "none"@,
        ReasoningEffort::Minimal => "minimal"@,
        ReasoningEffort::Low => "low"@,
        ReasoningEffort::Medium => "medium"@,
        ReasoningEffort::High => "high"@,
        ReasoningEffort::XHigh => "xhigh"@,
        ReasoningEffort::Max => "max"@,
    }
}

/// Whether a word stands for no effort.
pub open spec fn names_no_effort(word: Seq<char>) -> bool {
    forall|effort: ReasoningEffort| #[trigger] effort_word(effort) != word
}

impl ReasoningEffort {
    /// The word for this effort.
    pub fn as_str(self) -> (out: &'static str)
        ensures
            out@ == effort_word(self),
    {
        match self {
            ReasoningEffort::Auto => "auto",
            ReasoningEffort::Off => "none",
            ReasoningEffort::Minimal => "minimal",
            ReasoningEffort::Low => "low",
            ReasoningEffort::Medium => "medium",
            ReasoningEffort::High => "high",
            ReasoningEffort::XHigh => "xhigh",
            ReasoningEffort::Max => "max",
        }
    }

    /// The effort that a word names.
    pub fn from_word(word: &str) -> (out: Option<ReasoningEffort>)
        ensures
            match out {
                Some(effort) => effort_word(effort) == word@,
                None => names_no_effort(word@),
            },
    {
        if same(word, "auto") {
            Some(ReasoningEffort::Auto)
        } else if same(word, "none") {
            Some(ReasoningEffort::Off)
        } else if same(word, "minimal") {
            Some(ReasoningEffort::Minimal)
        } else if same(word, "low") {
            Some(ReasoningEffort::Low)
        } else if same(word, "medium") {
            Some(ReasoningEffort::Medium)
        } else if same(word, "high") {
            Some(ReasoningEffort::High)
        } else if same(word, "xhigh") {
            Some(ReasoningEffort::XHigh)
        } else if same(word, "max") {
            Some(ReasoningEffort::Max)
        } else {
            None
        }
    }
}

/// No two efforts share a word.
pub proof fn effort_words_are_distinct(a: ReasoningEffort, b: ReasoningEffort)
    ensures
        effort_word(a) == effort_word(b) ==> a == b,
{
    reveal_strlit("auto");
    reveal_strlit("none");
    reveal_strlit("minimal");
    reveal_strlit("low");
    reveal_strlit("medium");
    reveal_strlit("high");
    reveal_strlit("xhigh");
    reveal_strlit("max");
    let x = effort_word(a);
    let y = effort_word(b);
    if x == y {
        assert(x.len() == y.len());
        assert(x[0] == y[0]);
        assert(x[1] == y[1]);
        assert(x[2] == y[2]);
    }
}

/// How long a provider is to keep what it has read of a conversation.
#[derive(Debug, Clone, Copy, PartialEq, Eq, Structural)]
pub enum PromptCacheControl {
    OneHour,
}

/// What goes along with a request besides its messages and tools.
#[derive(Debug, Clone, PartialEq, Eq)]
pub struct RequestOptions<S = String> {
    /// What the provider finds the kept part of the conversation by.
    pub prompt_cache_key: Option<S>,
    pub session_id: Option<S>,
    pub cache_control: Option<PromptCacheControl>,
}

impl View for RequestOptions {
    type V = RequestOptions<Seq<char>>;

    open spec fn view(&self) -> RequestOptions<Seq<char>> {
        RequestOptions {
            prompt_cache_key: opt_text(self.prompt_cache_key),
            session_id: opt_text(self.session_id),
            cache_control: self.cache_control,
        }
    }
}

/// The options of a request in the conversation of that identifier: it is both
/// the session and the key to what is kept of it, for an hour.
pub open spec fn session_options(session_id: Seq<char>) -> RequestOptions<Seq<char>> {
    RequestOptions {
        prompt_cache_key: Some(session_id),
        session_id: Some(session_id),
        cache_control: Some(PromptCacheControl::OneHour),
    }
}

impl RequestOptions {
    /// The options of a request in the conversation of that identifier.
    pub fn for_session(session_id: &str) -> (out: RequestOptions)
        ensures
            out@ == session_options(session_id@),
    {
        RequestOptions {
            prompt_cache_key: Some(owned(session_id)),
            session_id: Some(owned(session_id)),
            cache_control: Some(PromptCacheControl::OneHour),
        }
    }
}

/// Why a model stopped.
#[derive(Debug, Clone, Copy, PartialEq, Eq, Structural)]
pub enum StopReason {
    Stop,
    ToolUse,
    Length,
    Aborted,
}

/// A model's request to run a tool. The arguments are JSON text.
#[derive(Debug, Clone, PartialEq, Eq)]
pub struct ToolCall<S = String> {
    pub id: S,
    pub name: S,
    pub arguments: S,
    /// What the provider signed the call with, to be handed back with it.
    pub signature: Option<S>,
}

impl View for ToolCall {
    type V = ToolCall<Seq<char>>;

    open spec fn view(&self) -> ToolCall<Seq<char>> {
        ToolCall {
            id: self.id@,
            name: self.name@,
            arguments: self.arguments@,
            signature: opt_text(self.signature),
        }
    }
}

impl ToolCall {
    /// An equal call.
    pub fn copy(&self) -> (out: ToolCall)
        ensures
            out == *self,
    {
        ToolCall {
            id: self.id.clone(),
            name: self.name.clone(),
            arguments: self.arguments.clone(),
            signature: copy_text(&self.signature),
        }
    }
}

/// The views of a list of calls.
pub open spec fn call_views(calls: Seq<ToolCall>) -> Seq<ToolCall<Seq<char>>> {
    calls.map_values(|c: ToolCall| c@)
}

/// One part of a model's answer.
#[derive(Debug, Clone, PartialEq, Eq)]
pub enum ContentBlock<S = String> {
    Text(S),
    ToolCall(ToolCall<S>),
}

impl View for ContentBlock {
    type V = ContentBlock<Seq<char>>;

    open spec fn view(&self) -> ContentBlock<Seq<char>> {
        match self {
            ContentBlock::Text(text) => ContentBlock::Text(text@),
            ContentBlock::ToolCall(call) => ContentBlock::ToolCall(call@),
        }
    }
}

impl ContentBlock {
    /// An equal block.
    pub fn copy(&self) -> (out: ContentBlock)
        ensures
            out == *self,
    {
        match self {
            ContentBlock::Text(text) => ContentBlock::Text(text.clone()),
            ContentBlock::ToolCall(call) => ContentBlock::ToolCall(call.copy()),
        }
    }
}

/// The texts of an answer, one after the other.
pub open spec fn block_text(blocks: Seq<ContentBlock<Seq<char>>>) -> Seq<char>
    decreases blocks.len(),
{
    if blocks.len() == 0 {
        Seq::empty()
    } else {
        match blocks.last() {
            ContentBlock::Text(text) => block_text(blocks.drop_last()) + text,
            ContentBlock::ToolCall(_) => block_text(blocks.drop_last()),
        }
    }
}

/// The tool calls of an answer, in order.
pub open spec fn block_calls(blocks: Seq<ContentBlock<Seq<char>>>) -> Seq<ToolCall<Seq<char>>>
    decreases blocks.len(),
{
    if blocks.len() == 0 {
        Seq::empty()
    } else {
        match blocks.last() {
            ContentBlock::Text(_) => block_calls(blocks.drop_last()),
            ContentBlock::ToolCall(call) => block_calls(blocks.drop_last()).push(call),
        }
    }
}

/// The views of a list of blocks.
pub open spec fn block_views(blocks: Seq<ContentBlock>) -> Seq<ContentBlock<Seq<char>>> {
    blocks.map_values(|b: ContentBlock| b@)
}

/// A model's whole answer to one request.
#[derive(Debug, Clone, PartialEq)]
pub struct LlmResponse {
    pub content: Vec<ContentBlock>,
    pub stop_reason: StopReason,
    pub usage: Option<Usage>,
    pub model: Option<String>,
    pub reasoning: Option<String>,
    pub reasoning_details: Vec<serde_json::Value>,
}

/// The view of an [`LlmResponse`].
pub struct ResponseView {
    pub content: Seq<ContentBlock<Seq<char>>>,
    pub stop_reason: StopReason,
    pub usage: Option<Usage>,
    pub model: Option<Seq<char>>,
    pub reasoning: Option<Seq<char>>,
    pub reasoning_details: Seq<serde_json::Value>,
}

impl ResponseView {
    /// All the text of the answer.
    pub open spec fn text(self) -> Seq<char> {
        block_text(self.content)
    }

    /// The tools that the answer asks for.
    pub open spec fn tool_calls(self) -> Seq<ToolCall<Seq<char>>> {
        block_calls(self.content)
    }
}

impl View for LlmResponse {
    type V = ResponseView;

    open spec fn view(&self) -> ResponseView {
        ResponseView {
            content: block_views(self.content@),
            stop_reason: self.stop_reason,
            usage: self.usage,
            model: opt_text(self.model),
            reasoning: opt_text(self.reasoning),
            reasoning_details: self.reasoning_details@,
        }
    }
}

/// An equal optional text.
pub fn copy_text(text: &Option<String>) -> (out: Option<String>)
    ensures
        out == *text,
{
    match text {
        Some(text) => Some(text.clone()),
        None => None,
    }
}

impl LlmResponse {
    /// All the text of the answer.
    pub fn text(&self) -> (out: String)
        ensures
            out@ == self@.text(),
    {
        let ghost views = block_views(self.content@);
        let mut out = String::new();
        let mut i: usize = 0;
        while i < self.content.len()
            invariant
                i <= self.content@.len(),
                views == block_views(self.content@),
                out@ == block_text(views.take(i as int)),
            decreases self.content@.len() - i,
        {
            assert(views.take(i as int + 1).drop_last() =~= views.take(i as int));
            if let ContentBlock::Text(text) = &self.content[i] {
                out.push_str(text.as_str());
            }
            i += 1;
        }
        assert(views.take(i as int) =~= views);
        out
    }

    /// The tools that the answer asks for.
    pub fn tool_calls(&self) -> (out: Vec<ToolCall>)
        ensures
            call_views(out@) == self@.tool_calls(),
    {
        let ghost views = block_views(self.content@);
        let mut out: Vec<ToolCall> = Vec::new();
        assert(call_views(out@) =~= Seq::empty());
        let mut i: usize = 0;
        while i < self.content.len()
            invariant
                i <= self.content@.len(),
                views == block_views(self.content@),
                call_views(out@) == block_calls(views.take(i as int)),
            decreases self.content@.len() - i,
        {
            assert(views.take(i as int + 1).drop_last() =~= views.take(i as int));
            let ghost before = call_views(out@);
            if let ContentBlock::ToolCall(call) = &self.content[i] {
                out.push(call.copy());
                assert(call_views(out@) =~= before.push(call@));
            }
            i += 1;
        }
        assert(views.take(i as int) =~= views);
        out
    }

    /// A copy of the answer.
    pub fn copy(&self) -> (out: LlmResponse)
        ensures
            out@ == self@,
    {
        let mut content: Vec<ContentBlock> = Vec::new();
        let mut i: usize = 0;
        while i < self.content.len()
            invariant
                i <= self.content@.len(),
                content@ == self.content@.take(i as int),
            decreases self.content@.len() - i,
        {
            content.push(self.content[i].copy());
            assert(self.content@.take(i as int + 1) =~= self.content@.take(i as int).push(
                self.content@[i as int],
            ));
            i += 1;
        }
        assert(self.content@.take(i as int) =~= self.content@);
        LlmResponse {
            content,
            stop_reason: self.stop_reason,
            usage: self.usage,
            model: copy_text(&self.model),
            reasoning: copy_text(&self.reasoning),
            reasoning_details: copy_values(&self.reasoning_details),
        }
    }
}

/// Where an image is found: a plain address or a `data:` address.
#[derive(Debug, Clone, PartialEq, Eq)]
pub struct ImageUrl<S = String> {
    pub url: S,
}

impl View for ImageUrl {
    type V = ImageUrl<Seq<char>>;

    open spec fn view(&self) -> ImageUrl<Seq<char>> {
        ImageUrl { url: self.url@ }
    }
}

impl ImageUrl {
    /// An equal address.
    pub fn copy(&self) -> (out: ImageUrl)
        ensures
            out == *self,
    {
        ImageUrl { url: self.url.clone() }
    }
}

/// One part of a message that holds more than text.
#[derive(Debug, Clone, PartialEq, Eq)]
pub enum ContentPart<S = String> {
    Text { text: S },
    Image { image_url: ImageUrl<S> },
}

impl View for ContentPart {
    type V = ContentPart<Seq<char>>;

    open spec fn view(&self) -> ContentPart<Seq<char>> {
        match self {
            ContentPart::Text { text } => ContentPart::Text { text: text@ },
            ContentPart::Image { image_url } => ContentPart::Image { image_url: image_url@ },
        }
    }
}

impl ContentPart {
    /// An equal part.
    pub fn copy(&self) -> (out: ContentPart)
        ensures
            out == *self,
    {
        match self {
            ContentPart::Text { text } => ContentPart::Text { text: text.clone() },
            ContentPart::Image { image_url } => ContentPart::Image { image_url: image_url.copy() },
        }
    }
}

/// The views of a list of images.
pub open spec fn image_views(images: Seq<ImageUrl>) -> Seq<ImageUrl<Seq<char>>> {
    images.map_values(|i: ImageUrl| i@)
}

/// The views of a list of parts.
pub open spec fn part_views(parts: Seq<ContentPart>) -> Seq<ContentPart<Seq<char>>> {
    parts.map_values(|p: ContentPart| p@)
}

/// Who speaks in a message.
#[derive(Debug, Clone, Copy, PartialEq, Eq, Structural)]
pub enum Role {
    System,
    User,
    Assistant,
    Tool,
}

/// One message of a request.
#[derive(Debug, Clone, PartialEq)]
pub struct Message {
    pub role: Role,
    pub content: Option<String>,
    pub content_parts: Option<Vec<ContentPart>>,
    pub tool_calls: Option<Vec<ToolCall>>,
    pub tool_call_id: Option<String>,
    pub reasoning: Option<String>,
    pub reasoning_details: Option<Vec<serde_json::Value>>,
}

/// The view of a [`Message`].
pub struct MessageView {
    pub role: Role,
    pub content: Option<Seq<char>>,
    pub content_parts: Option<Seq<ContentPart<Seq<char>>>>,
    pub tool_calls: Option<Seq<ToolCall<Seq<char>>>>,
    pub tool_call_id: Option<Seq<char>>,
    pub reasoning: Option<Seq<char>>,
    pub reasoning_details: Option<Seq<serde_json::Value>>,
}

impl View for Message {
    type V = MessageView;

    open spec fn view(&self) -> MessageView {
        MessageView {
            role: self.role,
            content: opt_text(self.content),
            content_parts: match self.content_parts {
                Some(parts) => Some(part_views(parts@)),
                None => None,
            },
            tool_calls: match self.tool_calls {
                Some(calls) => Some(call_views(calls@)),
                None => None,
            },
            tool_call_id: opt_text(self.tool_call_id),
            reasoning: opt_text(self.reasoning),
            reasoning_details: match self.reasoning_details {
                Some(details) => Some(details@),
                None => None,
            },
        }
    }
}

/// A message with nothing but a speaker and a text.
pub open spec fn plain_message(role: Role, content: Option<Seq<char>>) -> MessageView {
    MessageView {
        role,
        content,
        content_parts: None,
        tool_calls: None,
        tool_call_id: None,
        reasoning: None,
        reasoning_details: None,
    }
}

/// `None` for an empty list, the list otherwise.
pub open spec fn unless_empty<A>(list: Seq<A>) -> Option<Seq<A>> {
    if list.len() == 0 {
        None
    } else {
        Some(list)
    }
}

impl Message {
    fn plain(role: Role, content: Option<String>) -> (out: Message)
        ensures
            out@ == plain_message(role, opt_text(content)),
    {
        Message {
            role,
            content,
            content_parts: None,
            tool_calls: None,
            tool_call_id: None,
            reasoning: None,
            reasoning_details: None,
        }
    }

    /// Instructions that stand before the conversation.
    pub fn system(content: String) -> (out: Message)
        ensures
            out@ == plain_message(Role::System, Some(content@)),
    {
        Message::plain(Role::System, Some(content))
    }

    /// What the user says.
    pub fn user(content: &str) -> (out: Message)
        ensures
            out@ == plain_message(Role::User, Some(content@)),
    {
        Message::plain(Role::User, Some(owned(content)))
    }

    /// What the user says and shows.
    pub fn user_with_parts(parts: Vec<ContentPart>) -> (out: Message)
        ensures
            out@ == (MessageView {
                content_parts: Some(part_views(parts@)),
                ..plain_message(Role::User, None)
            }),
    {
        let mut out = Message::plain(Role::User, None);
        out.content_parts = Some(parts);
        out
    }

    /// An answer without tool calls.
    pub fn assistant_with_reasoning(
        content: Option<String>,
        reasoning: Option<String>,
        details: Vec<serde_json::Value>,
    ) -> (out: Message)
        ensures
            out@ == (MessageView {
                reasoning: opt_text(reasoning),
                reasoning_details: unless_empty(details@),
                ..plain_message(Role::Assistant, opt_text(content))
            }),
    {
        let mut out = Message::plain(Role::Assistant, content);
        out.reasoning = reasoning;
        if details.len() > 0 {
            out.reasoning_details = Some(details);
        }
        out
    }

    /// An answer that asks for tools.
    pub fn assistant_with_tool_calls_and_reasoning(
        content: Option<String>,
        calls: Vec<ToolCall>,
        reasoning: Option<String>,
        details: Vec<serde_json::Value>,
    ) -> (out: Message)
        ensures
            out@ == (MessageView {
                tool_calls: Some(call_views(calls@)),
                reasoning: opt_text(reasoning),
                reasoning_details: unless_empty(details@),
                ..plain_message(Role::Assistant, opt_text(content))
            }),
    {
        let mut out = Message::assistant_with_reasoning(content, reasoning, details);
        out.tool_calls = Some(calls);
        out
    }

    /// What a tool put out.
    pub fn tool_result(content: &str, tool_call_id: &str) -> (out: Message)
        ensures
            out@ == (MessageView {
                tool_call_id: Some(tool_call_id@),
                ..plain_message(Role::Tool, Some(content@))
            }),
    {
        let mut out = Message::plain(Role::Tool, Some(owned(content)));
        out.tool_call_id = Some(owned(tool_call_id));
        out
    }

    /// What a tool put out, in parts.
    pub fn tool_result_with_parts(parts: Vec<ContentPart>, tool_call_id: &str) -> (out: Message)
        ensures
            out@ == (MessageView {
                content_parts: Some(part_views(parts@)),
                tool_call_id: Some(tool_call_id@),
                ..plain_message(Role::Tool, None)
            }),
    {
        let mut out = Message::plain(Role::Tool, None);
        out.content_parts = Some(parts);
        out.tool_call_id = Some(owned(tool_call_id));
        out
    }
}

/// The text and the tool calls of an answer are those of its parts, in order.
pub proof fn answers_are_read_part_by_part(
    blocks: Seq<ContentBlock<Seq<char>>>,
    more: Seq<ContentBlock<Seq<char>>>,
)
    ensures
        block_text(blocks + more) == block_text(blocks) + block_text(more),
        block_calls(blocks + more) == block_calls(blocks) + block_calls(more),
    decreases more.len(),
{
    if more.len() == 0 {
        assert(blocks + more =~= blocks);
        assert(block_text(blocks) + block_text(more) =~= block_text(blocks));
        assert(block_calls(blocks) + block_calls(more) =~= block_calls(blocks));
    } else {
        let init = more.drop_last();
        answers_are_read_part_by_part(blocks, init);
        assert((blocks + more).drop_last() =~= blocks + init);
        assert((blocks + more).last() == more.last());
        match more.last() {
            ContentBlock::Text(text) => {
                assert(block_text(blocks) + block_text(init) + text =~= block_text(blocks) + (
                block_text(init) + text));
            },
            ContentBlock::ToolCall(call) => {
                assert((block_calls(blocks) + block_calls(init)).push(call) =~= block_calls(blocks)
                    + block_calls(init).push(call));
            },
        }
    }
}

/// A text adds itself to an answer and no call; a call adds itself and no text.
pub proof fn parts_of_an_answer(text: Seq<char>, call: ToolCall<Seq<char>>)
    ensures
        block_text(seq![ContentBlock::Text(text)]) == text,
        block_calls(seq![ContentBlock::Text(text)]).len() == 0,
        block_text(seq![ContentBlock::ToolCall(call)]).len() == 0,
        block_calls(seq![ContentBlock::ToolCall(call)]) == seq![call],
{
    reveal_with_fuel(block_text, 2);
    reveal_with_fuel(block_calls, 2);
    let said: Seq<ContentBlock<Seq<char>>> = seq![ContentBlock::Text(text)];
    let asked: Seq<ContentBlock<Seq<char>>> = seq![ContentBlock::ToolCall(call)];
    assert(said.drop_last().len() == 0);
    assert(asked.drop_last().len() == 0);
    assert(block_text(said) =~= text);
    assert(block_calls(asked) =~= seq![call]);
}

/// Usages add up count by count, as far as a count can tell. The order does not
/// matter, and no usage adds nothing.
pub proof fn usages_add_up(a: Usage, b: Usage)
    ensures
        a.input_tokens + b.input_tokens <= u64::MAX ==> usage_sum(a, b).input_tokens
            == a.input_tokens + b.input_tokens,
        a.output_tokens + b.output_tokens <= u64::MAX ==> usage_sum(a, b).output_tokens
            == a.output_tokens + b.output_tokens,
        a.input_tokens + b.input_tokens > u64::MAX ==> usage_sum(a, b).input_tokens == u64::MAX,
        a.output_tokens + b.output_tokens > u64::MAX ==> usage_sum(a, b).output_tokens == u64::MAX,
        usage_sum(a, b) == usage_sum(b, a),
        usage_sum(a, no_usage()) == a,
{
}

/// Nothing of an answer is lost to its view: its parts in order, each with its text or
/// its call, and what else came with it.
pub proof fn answers_are_seen_whole(response: LlmResponse, i: int)
    requires
        0 <= i < response.content@.len(),
    ensures
        response@.content.len() == response.content@.len(),
        response.content@[i] is Text ==> response@.content[i] is Text
            && response@.content[i]->Text_0 == response.content@[i]->Text_0@,
        response.content@[i] is ToolCall ==> {
            let call = response.content@[i]->ToolCall_0;
            let seen = response@.content[i];
            &&& seen is ToolCall
            &&& seen->ToolCall_0.id == call.id@
            &&& seen->ToolCall_0.name == call.name@
            &&& seen->ToolCall_0.arguments == call.arguments@
        },
        response@.usage == response.usage,
        response@.stop_reason == response.stop_reason,
        response.reasoning is Some ==> response@.reasoning == Some(response.reasoning->0@),
        response.reasoning is None ==> response@.reasoning is None,
        response@.reasoning_details == response.reasoning_details@,
{
}

} // verus!
