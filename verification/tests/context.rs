//! Messages as they are put to a model.
use alan::context::{AgentContext, AgentMessage, AgentTool, ToolDefinition};
use alan::llm::{
    ContentBlock, ContentPart, ImageUrl, LlmResponse, Message, Role, StopReason, ToolCall, Usage,
};

fn image(url: &str) -> ImageUrl {
    ImageUrl { url: url.into() }
}

#[test]
fn to_llm_user_with_no_images_is_plain_user_message() {
    let msg = AgentMessage::user("hello");
    let llm_msg = msg.to_llm();
    assert_eq!(llm_msg.role, Role::User);
    assert_eq!(llm_msg.content.as_deref(), Some("hello"));
    assert!(llm_msg.content_parts.is_none());
}

#[test]
fn to_llm_user_with_images_uses_content_parts() {
    let msg =
        AgentMessage::user_with_images("describe", vec![image("https://example.com/img.png")]);
    let llm_msg = msg.to_llm();
    assert_eq!(llm_msg.role, Role::User);
    assert!(llm_msg.content.is_none());
    let parts = llm_msg.content_parts.unwrap();
    assert_eq!(parts.len(), 2);
    assert!(matches!(&parts[0], ContentPart::Text { text } if text == "describe"));
    assert!(
        matches!(&parts[1], ContentPart::Image { image_url } if image_url.url == "https://example.com/img.png")
    );
}

#[test]
fn user_constructor_has_empty_images() {
    let msg = AgentMessage::user("text");
    match msg {
        AgentMessage::User { text, images } => {
            assert_eq!(text, "text");
            assert!(images.is_empty());
        }
        _ => panic!("expected User"),
    }
}

#[test]
fn to_llm_tool_result_with_parts_uses_content_parts() {
    let msg = AgentMessage::tool_result_with_parts(
        "call-1",
        "[image/png image, 100 bytes base64]",
        vec![ContentPart::Image {
            image_url: image("data:image/png;base64,iVBOR"),
        }],
    );
    let llm_msg = msg.to_llm();
    assert_eq!(llm_msg.role, Role::Tool);
    assert_eq!(llm_msg.tool_call_id.as_deref(), Some("call-1"));
    assert!(llm_msg.content.is_none());
    let parts = llm_msg.content_parts.unwrap();
    assert_eq!(parts.len(), 1);
    assert!(
        matches!(&parts[0], ContentPart::Image { image_url } if image_url.url == "data:image/png;base64,iVBOR")
    );
}

#[test]
fn to_llm_tool_result_without_parts_uses_plain_content() {
    let msg = AgentMessage::ToolResult {
        tool_call_id: "call-2".into(),
        content: "all good".into(),
        content_parts: vec![],
    };
    let llm_msg = msg.to_llm();
    assert_eq!(llm_msg.role, Role::Tool);
    assert_eq!(llm_msg.tool_call_id.as_deref(), Some("call-2"));
    assert_eq!(llm_msg.content.as_deref(), Some("all good"));
    assert!(llm_msg.content_parts.is_none());
}

fn answer(reasoning: Option<&str>, details: Vec<serde_json::Value>) -> LlmResponse {
    LlmResponse {
        content: vec![ContentBlock::Text("hello".into())],
        stop_reason: StopReason::Stop,
        usage: None,
        model: None,
        reasoning: reasoning.map(|text| text.into()),
        reasoning_details: details,
    }
}

#[test]
fn plain_assistant_message_omits_empty_tool_calls() {
    let message = AgentMessage::Assistant(answer(None, Vec::new())).to_llm();

    assert_eq!(
        message,
        Message::assistant_with_reasoning(Some("hello".into()), None, Vec::new())
    );
    assert!(message.tool_calls.is_none());
}

#[test]
fn plain_assistant_message_preserves_reasoning() {
    let detail: serde_json::Value =
        serde_json::from_str(r#"{"type": "reasoning.text", "text": "thought process"}"#).unwrap();
    let message =
        AgentMessage::Assistant(answer(Some("thought process"), vec![detail.clone()])).to_llm();

    assert_eq!(message.reasoning.as_deref(), Some("thought process"));
    assert_eq!(message.reasoning_details.as_ref().map(|v| v.len()), Some(1));
    assert_eq!(message.reasoning_details.unwrap()[0], detail);
    assert!(message.tool_calls.is_none());
}

#[test]
fn an_answer_that_asks_for_tools_keeps_them() {
    let call = ToolCall {
        id: "call-1".into(),
        name: "bash".into(),
        arguments: "{}".into(),
        signature: Some("signed".into()),
    };
    let response = LlmResponse {
        content: vec![
            ContentBlock::ToolCall(call.clone()),
            ContentBlock::Text(String::new()),
        ],
        ..answer(None, Vec::new())
    };
    let message = AgentMessage::Assistant(response).to_llm();
    assert_eq!(message.role, Role::Assistant);
    assert_eq!(message.content, None);
    assert_eq!(message.tool_calls, Some(vec![call]));
}

fn tool(name: &str) -> AgentTool {
    AgentTool::new(ToolDefinition {
        name: name.into(),
        description: String::new(),
        parameters: serde_json::Value::Null,
    })
}

#[test]
fn the_first_tool_of_a_name_is_found() {
    let context = AgentContext::new(
        None,
        Vec::new(),
        vec![tool("read").read_only(), tool("bash"), tool("read")],
    );
    assert_eq!(context.tool_index("read"), Some(0));
    assert_eq!(context.tool_index("bash"), Some(1));
    assert_eq!(context.tool_index("write"), None);
    assert!(context.tools[0].read_only);
}

#[test]
fn a_request_starts_with_the_system_prompt() {
    let mut context = AgentContext::new(Some("Be".into()), Vec::new(), Vec::new());
    context.hydrate(
        vec![AgentMessage::user("hi")],
        Usage {
            input_tokens: 1,
            output_tokens: 2,
        },
    );
    let messages = context.build_messages();
    assert_eq!(messages.len(), 2);
    assert_eq!(messages[0], Message::system("Be".into()));
    assert_eq!(messages[1], Message::user("hi"));
    context.system_prompt = None;
    assert_eq!(context.build_messages().len(), 1);
}

#[test]
fn usage_adds_up_and_stops_at_the_largest_count() {
    let mut usage = Usage::default();
    usage.accumulate(&Usage {
        input_tokens: 10,
        output_tokens: 5,
    });
    usage.accumulate(&Usage {
        input_tokens: 20,
        output_tokens: 3,
    });
    assert_eq!((usage.input_tokens, usage.output_tokens), (30, 8));
    usage.accumulate(&Usage {
        input_tokens: u64::MAX,
        output_tokens: 0,
    });
    assert_eq!(usage.input_tokens, u64::MAX);
}
