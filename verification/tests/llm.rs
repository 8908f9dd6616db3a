use host_plugins::anthropic_types::{ContentBlockDeltaEvent, ContentBlockStopEvent, MessageDeltaEvent, MessageStartEvent, MessageStopEvent, ResponsesContentBlock, ResponsesError, ResponsesMessage, ResponsesRequest, ResponsesResponse, TextDelta};
use host_plugins::http_handler::{anthropic_stop_reason, build_chat_options_from_completions, build_chat_options_from_responses, build_genai_messages_from_completions, build_genai_messages_from_responses, completions_response, completions_stream, error_response, extract_text_from_content, format_sse_event, format_sse_event_with_type, handle_completions, handle_completions_streaming, handle_completions_sync, handle_http_request, handle_responses, handle_responses_streaming, handle_responses_sync, responses_stream, usage_in_range, HandlerStep, HttpResponse, ProviderAnswer, Route};
use host_plugins::json::read_value;
use host_plugins::llm_gateway_provider::{bind_config, build_chat_options, chat_response, classify_error, client_error, count_tokens, extract_config, next, parse_provider, parse_system_prompts, to_genai_content_part, to_genai_messages, to_genai_role, to_llm_error, to_wit_content_part, ChatMessage, ChatRole, ChatStreamEvent, ChatStreamHandle, ClientChoice, ContentPart, LlmConfig, LlmError, LlmGateway, LlmGatewayConfig, MessageContent, PresetPrompt, ProviderPart, ProviderRole, ProviderUsage, StopReason, StreamEnd, StreamItem, ToolCall, WitChatOptions, DEFAULT_SYSTEM_PROMPT_CONTENT, DEFAULT_SYSTEM_PROMPT_ROLE};
use host_plugins::openai_types::{CompletionsChunk, CompletionsChunkChoice, CompletionsChunkDelta, CompletionsError, CompletionsMessage, CompletionsRequest, CompletionsResponse};
use host_plugins::world::{one, WitInterface};

fn test_config() -> LlmGatewayConfig<f64> {
    LlmGatewayConfig {
        provider: "openai".to_string(),
        base_url: None,
        model_name: "gpt-4o-mini".to_string(),
        api_key: "test-key".to_string(),
        temperature: Some(0.7),
        top_p: None,
        max_tokens: Some(4096),
        system_prompts: vec![PresetPrompt {
            role: "system".to_string(),
            content: "You are helpful".to_string(),
        }],
    }
}

fn options_config() -> LlmGatewayConfig<f64> {
    LlmGatewayConfig {
        provider: "openai".to_string(),
        base_url: None,
        model_name: "gpt-4o-mini".to_string(),
        api_key: "test".to_string(),
        temperature: Some(0.5),
        top_p: Some(0.9),
        max_tokens: Some(2048),
        system_prompts: vec![],
    }
}

fn interface(config: Vec<(&str, &str)>) -> WitInterface {
    let mut i = WitInterface::of("custom", "llm-gateway", Vec::new(), "");
    for (k, v) in config {
        i.config.insert(k.to_string(), v.to_string());
    }
    i
}

fn no_usage() -> ProviderUsage {
    ProviderUsage { prompt_tokens: None, completion_tokens: None, total_tokens: None }
}

// ---- HTTP ----

#[test]
fn test_http_response_json() {
    let resp = HttpResponse::json(200, "{\"status\":\"ok\"}".to_string());
    assert_eq!(resp.status, 200);
    assert_eq!(resp.content_type, "application/json");
    assert!(!resp.is_sse);
    assert!(resp.body.contains("ok"));
}

#[test]
fn test_http_response_sse() {
    let resp = HttpResponse::sse("data: hello\n\n".to_string());
    assert_eq!(resp.status, 200);
    assert_eq!(resp.content_type, "text/event-stream");
    assert!(resp.is_sse);
}

#[test]
fn test_error_response() {
    let resp = error_response(400, "bad_request", "invalid input");
    assert_eq!(resp.status, 400);
    assert!(resp.body.contains("bad_request"));
    assert!(resp.body.contains("invalid input"));
    assert_eq!(
        resp.body,
        "{\"error\":{\"code\":\"bad_request\",\"message\":\"invalid input\",\"type\":\"invalid_request_error\"}}"
    );
}

#[test]
fn test_build_genai_messages_from_completions() {
    let config = test_config();
    let req = CompletionsRequest {
        model: "gpt-4o-mini".to_string(),
        messages: vec![
            CompletionsMessage { role: "user".to_string(), content: Some("Hello".to_string()) },
            CompletionsMessage { role: "assistant".to_string(), content: Some("Hi there".to_string()) },
        ],
        stream: None,
        temperature: None,
        top_p: None,
        max_tokens: None,
    };
    let messages = build_genai_messages_from_completions(&req, &config);
    assert_eq!(messages.len(), 3);
    assert_eq!(messages[0].role, ProviderRole::System);
    assert_eq!(messages[1].role, ProviderRole::User);
    assert_eq!(messages[2].role, ProviderRole::Assistant);
    assert!(matches!(&messages[2].parts[0], ProviderPart::Text(t) if t == "Hi there"));
}

#[test]
fn test_build_genai_messages_from_responses_with_system() {
    let config = test_config();
    let req = ResponsesRequest {
        model: "opus-4-5".to_string(),
        messages: vec![ResponsesMessage { role: "user".to_string(), content: "\"Hello\"".to_string() }],
        max_tokens: 1024,
        system: Some("\"Be concise\"".to_string()),
        temperature: None,
        top_p: None,
        stream: None,
    };
    let (system_prompt, messages) = build_genai_messages_from_responses(&req, &config);
    assert_eq!(system_prompt.as_deref(), Some("Be concise"));
    assert_eq!(messages.len(), 2);
    assert!(matches!(&messages[1].parts[0], ProviderPart::Text(t) if t == "Hello"));
}

#[test]
fn test_build_genai_messages_from_responses_array_system() {
    let config = test_config();
    let req = ResponsesRequest {
        model: "opus-4-5".to_string(),
        messages: vec![ResponsesMessage { role: "user".to_string(), content: "\"Hello\"".to_string() }],
        max_tokens: 512,
        system: Some(
            r#"[{"type": "text", "text": "Rule 1"}, {"type": "text", "text": "Rule 2"}]"#.to_string(),
        ),
        temperature: None,
        top_p: None,
        stream: None,
    };
    let (system_prompt, messages) = build_genai_messages_from_responses(&req, &config);
    assert_eq!(system_prompt.as_deref(), Some("Rule 1\nRule 2"));
    assert_eq!(messages.len(), 2);
}

#[test]
fn test_extract_text_from_content_string() {
    let val = read_value("\"Hello world\"");
    assert_eq!(extract_text_from_content(&val), "Hello world");
}

#[test]
fn test_extract_text_from_content_array() {
    let val = read_value(r#"[{"type": "text", "text": "Hello "}, {"type": "text", "text": "world"}]"#);
    assert_eq!(extract_text_from_content(&val), "Hello world");
}

#[test]
fn test_extract_text_from_content_empty() {
    let val = read_value("null");
    assert_eq!(extract_text_from_content(&val), "");
}

#[test]
fn test_build_chat_options_from_completions() {
    let config = test_config();
    let req = CompletionsRequest {
        model: "gpt-4o-mini".to_string(),
        messages: vec![],
        stream: None,
        temperature: Some(0.5),
        top_p: Some(0.9),
        max_tokens: Some(2048),
    };
    let opts = build_chat_options_from_completions(&config, &req);
    assert_eq!(opts.temperature, Some(0.5));
    assert_eq!(opts.top_p, Some(0.9));
    assert_eq!(opts.max_tokens, Some(2048));
}

#[test]
fn test_build_chat_options_from_responses() {
    let config = test_config();
    let req = ResponsesRequest {
        model: "opus-4-5".to_string(),
        messages: vec![],
        max_tokens: 512,
        system: None,
        temperature: Some(0.3),
        top_p: None,
        stream: None,
    };
    let opts = build_chat_options_from_responses(&config, &req);
    assert_eq!(opts.temperature, Some(0.3));
    assert_eq!(opts.max_tokens, Some(512));
}

#[test]
fn test_format_sse_event() {
    let output = format_sse_event("{\"key\":\"value\"}");
    assert!(output.starts_with("data: "));
    assert!(output.ends_with("\n\n"));
    assert!(output.contains("\"key\":\"value\""));
}

#[test]
fn test_format_sse_event_with_type() {
    let output = format_sse_event_with_type("message_start", "{\"type\":\"test\"}");
    assert!(output.starts_with("event: message_start\n"));
    assert!(output.contains("data: "));
    assert!(output.ends_with("\n\n"));
}

#[test]
fn test_anthropic_stop_reason() {
    assert_eq!(anthropic_stop_reason(&StopReason::Completed("stop".to_string())), "end_turn");
    assert_eq!(anthropic_stop_reason(&StopReason::MaxTokens("length".to_string())), "max_tokens");
    assert_eq!(anthropic_stop_reason(&StopReason::ToolCall("tool_calls".to_string())), "tool_use");
    assert_eq!(
        anthropic_stop_reason(&StopReason::StopSequence("stop_sequence".to_string())),
        "stop_sequence"
    );
    assert_eq!(anthropic_stop_reason(&StopReason::Other("cancelled".to_string())), "cancelled");
    assert_eq!(anthropic_stop_reason(&StopReason::ContentFilter("SAFETY".to_string())), "end_turn");
}

#[test]
fn requests_are_routed_by_method_and_path() {
    assert!(matches!(handle_http_request("/v1/chat/completions", "POST"), Route::Completions));
    assert!(matches!(handle_http_request("/v1/messages", "POST"), Route::Messages));
    match handle_http_request("/v1/messages", "GET") {
        Route::Refused(r) => {
            assert_eq!(r.status, 405);
            assert!(r.body.contains("method_not_allowed"));
        }
        _ => panic!("expected a refusal"),
    }
    match handle_http_request("/v2", "POST") {
        Route::Refused(r) => {
            assert_eq!(r.status, 404);
            assert!(r.body.contains("unknown endpoint"));
        }
        _ => panic!("expected a refusal"),
    }
}

#[test]
fn unreadable_and_empty_requests_are_refused() {
    let config = test_config();
    match handle_completions(Err("eof".to_string()), &config) {
        HandlerStep::Respond(r) => {
            assert_eq!(r.status, 400);
            assert!(r.body.contains("failed to parse request: eof"));
        }
        _ => panic!("expected a response"),
    }
    let empty = ResponsesRequest {
        model: "m".to_string(),
        messages: vec![],
        max_tokens: 1,
        system: None,
        temperature: None,
        top_p: None,
        stream: None,
    };
    match handle_responses(Ok(empty), &config) {
        HandlerStep::Respond(r) => {
            assert_eq!(r.status, 400);
            assert_eq!(
                r.body,
                "{\"error\":{\"type\":\"invalid_request_error\",\"message\":\"messages must not be empty\"}}"
            );
        }
        _ => panic!("expected a response"),
    }
}

#[test]
fn streaming_requests_capture_usage_and_content() {
    let config = test_config();
    let req = CompletionsRequest {
        model: "gpt-4o".to_string(),
        messages: vec![CompletionsMessage { role: "tool".to_string(), content: None }],
        stream: Some(true),
        temperature: None,
        top_p: None,
        max_tokens: Some(0x1_0000_0007),
    };
    match handle_completions(Ok(req), &config) {
        HandlerStep::Ask(p) => {
            assert!(p.stream && p.options.capture_usage && p.options.capture_content);
            assert_eq!(p.options.temperature, Some(0.7));
            assert_eq!(p.options.max_tokens, Some(7));
            assert_eq!(p.messages[1].role, ProviderRole::User);
            assert!(p.system.is_none());
        }
        _ => panic!("expected a request"),
    }
}

#[test]
fn answers_become_responses() {
    let a = ProviderAnswer {
        text: Some("Hi".to_string()),
        model: "gpt-4o".to_string(),
        stop_reason: Some(StopReason::MaxTokens("length".to_string())),
        usage: ProviderUsage { prompt_tokens: Some(10), completion_tokens: Some(5), total_tokens: None },
    };
    assert!(usage_in_range(&a.usage));
    let text = completions_response("chatcmpl-1".to_string(), &a);
    assert_eq!(
        text,
        "{\"id\":\"chatcmpl-1\",\"object\":\"chat.completion\",\"model\":\"gpt-4o\",\"choices\":[{\"index\":0,\"message\":{\"role\":\"assistant\",\"content\":\"Hi\"},\"finish_reason\":\"length\"}],\"usage\":{\"prompt_tokens\":10,\"completion_tokens\":5,\"total_tokens\":15}}"
    );
    let r = handle_completions_sync(Ok(a));
    assert_eq!(r.status, 200);
    let back = CompletionsResponse::from_json(&r.body).unwrap();
    assert!(back.id.starts_with("chatcmpl-"));
    assert_eq!(back.id.len(), "chatcmpl-".len() + 36);
    let id = back.id["chatcmpl-".len()..].as_bytes();
    assert!(id[8] == b'-' && id[14] == b'4' && id[23] == b'-');
    assert_eq!(back.usage.total_tokens, 15);
    let e = handle_completions_sync(Err("boom".to_string()));
    assert_eq!(e.status, 502);
    assert!(e.body.contains("LLM provider error: boom"));
}

#[test]
fn anthropic_answers_become_messages() {
    let a = ProviderAnswer { text: None, model: "opus".to_string(), stop_reason: None, usage: no_usage() };
    let r = handle_responses_sync(Ok(a));
    let back = ResponsesResponse::from_json(&r.body).unwrap();
    assert!(back.id.starts_with("msg_"));
    assert_eq!(back.stop_reason, "end_turn");
    assert_eq!(back.content[0].text.as_deref(), Some(""));
    assert_eq!(back.usage.output_tokens, 0);
    let e = handle_responses_sync(Err("boom".to_string()));
    assert_eq!(e.status, 502);
    assert!(ResponsesError::from_json(&e.body).unwrap().error.error_type == "provider_error");
}

#[test]
fn openai_streams_are_framed() {
    let items = vec![
        StreamItem::Start,
        StreamItem::Chunk("Hel".to_string()),
        StreamItem::Other,
        StreamItem::Chunk("lo".to_string()),
        StreamItem::End(StreamEnd { stop_reason: None, usage: None }),
        StreamItem::Failed("late".to_string()),
        StreamItem::Chunk("never".to_string()),
    ];
    let text = completions_stream("chatcmpl-1", "m", &items);
    let events: Vec<&str> = text.split("\n\n").collect();
    assert_eq!(events.len(), 6);
    assert_eq!(
        events[0],
        "data: {\"id\":\"chatcmpl-1\",\"object\":\"chat.completion.chunk\",\"model\":\"m\",\"choices\":[{\"index\":0,\"delta\":{\"role\":\"assistant\"}}]}"
    );
    assert!(events[1].contains("\"delta\":{\"content\":\"Hel\"}"));
    assert!(events[3].contains("\"delta\":{},\"finish_reason\":\"stop\""));
    assert_eq!(events[4], "data: [DONE]");
    assert!(!text.contains("never"));
    let r = handle_completions_streaming(Ok("m".to_string()), &items);
    assert!(r.is_sse && r.body.ends_with("data: [DONE]\n\n"));
    assert_eq!(handle_completions_streaming(Err("x".to_string()), &items).status, 502);
}

#[test]
fn anthropic_streams_are_framed() {
    let items = vec![
        StreamItem::Chunk("Hi".to_string()),
        StreamItem::End(StreamEnd {
            stop_reason: Some(StopReason::Completed("stop".to_string())),
            usage: Some(ProviderUsage { prompt_tokens: Some(3), completion_tokens: Some(4), total_tokens: None }),
        }),
        StreamItem::Closed,
    ];
    let text = responses_stream("msg_1", "opus", &items);
    let kinds: Vec<&str> = text
        .lines()
        .filter(|l| l.starts_with("event: "))
        .map(|l| &l["event: ".len()..])
        .collect();
    assert_eq!(
        kinds,
        vec![
            "message_start",
            "content_block_start",
            "content_block_delta",
            "content_block_stop",
            "message_delta",
            "message_stop"
        ]
    );
    assert!(text.contains("data: {\"type\":\"content_block_delta\",\"index\":0,\"delta\":{\"type\":\"text_delta\",\"text\":\"Hi\"}}\n\n"));
    assert!(text.contains("\"usage\":{\"input_tokens\":3,\"output_tokens\":4}"));
    assert_eq!(handle_responses_streaming(Err("x".to_string()), &items).status, 502);
    assert!(handle_responses_streaming(Ok("opus".to_string()), &items).body.starts_with("event: message_start\n"));
}

// ---- OpenAI types ----

#[test]
fn openai_types_test_request_serialization() {
    let req = CompletionsRequest {
        model: "gpt-4o-mini".to_string(),
        messages: vec![CompletionsMessage { role: "user".to_string(), content: Some("Hello".to_string()) }],
        stream: None,
        temperature: Some("0.7".to_string()),
        top_p: None,
        max_tokens: Some(1024),
    };
    let json = req.to_json();
    assert!(json.contains("\"model\":\"gpt-4o-mini\""));
    assert!(json.contains("\"temperature\":0.7"));
    assert!(!json.contains("\"stream\""));
    assert!(!json.contains("\"top_p\""));
}

#[test]
fn openai_types_test_response_deserialization() {
    let json = r#"{
        "id": "chatcmpl-abc123",
        "object": "chat.completion",
        "model": "gpt-4o-mini",
        "choices": [{
            "index": 0,
            "message": {"role": "assistant", "content": "Hi there!"},
            "finish_reason": "stop"
        }],
        "usage": {"prompt_tokens": 10, "completion_tokens": 5, "total_tokens": 15}
    }"#;
    let resp = CompletionsResponse::from_json(json).unwrap();
    assert_eq!(resp.id, "chatcmpl-abc123");
    assert_eq!(resp.object, "chat.completion");
    assert_eq!(resp.choices.len(), 1);
    assert_eq!(resp.choices[0].message.role, "assistant");
    assert_eq!(resp.usage.total_tokens, 15);
}

#[test]
fn test_chunk_serialization() {
    let chunk = CompletionsChunk {
        id: "chatcmpl-xyz".to_string(),
        object: "chat.completion.chunk".to_string(),
        model: "gpt-4o-mini".to_string(),
        choices: vec![CompletionsChunkChoice {
            index: 0,
            delta: CompletionsChunkDelta { role: None, content: Some("Hello".to_string()) },
            finish_reason: None,
        }],
    };
    let json = chunk.to_json();
    assert!(json.contains("\"object\":\"chat.completion.chunk\""));
    assert!(!json.contains("\"finish_reason\""));
    assert!(!json.contains("\"role\""));
    let back = CompletionsChunk::from_json(&json).unwrap();
    assert_eq!(back.choices[0].delta.content.as_deref(), Some("Hello"));
}

#[test]
fn openai_types_test_error_deserialization() {
    let json = r#"{
        "error": {
            "code": "invalid_api_key",
            "message": "Incorrect API key provided",
            "param": null,
            "type": "invalid_request_error"
        }
    }"#;
    let err = CompletionsError::from_json(json).unwrap();
    assert_eq!(err.error.code.as_deref(), Some("invalid_api_key"));
    assert!(err.error.param.is_none());
    assert_eq!(err.error.error_type.as_deref(), Some("invalid_request_error"));
}

#[test]
fn test_request_with_stream() {
    let req: CompletionsRequest<String> = CompletionsRequest {
        model: "gpt-4o".to_string(),
        messages: vec![],
        stream: Some(true),
        temperature: None,
        top_p: None,
        max_tokens: None,
    };
    assert!(req.to_json().contains("\"stream\":true"));
}

#[test]
fn incomplete_objects_are_not_read() {
    assert!(CompletionsResponse::from_json("{\"id\":\"x\"}").is_none());
    assert!(CompletionsError::from_json("{\"error\":{\"code\":5}}").is_none());
    assert!(TextDelta::from_json("[]").is_none());
    assert!(ContentBlockStopEvent::from_json("{\"type\":\"content_block_stop\",\"index\":4294967296}").is_none());
}

// ---- Anthropic types ----

#[test]
fn anthropic_types_test_request_serialization() {
    let req = ResponsesRequest {
        model: "opus-4-5".to_string(),
        messages: vec![ResponsesMessage { role: "user".to_string(), content: "\"Hello\"".to_string() }],
        max_tokens: 1024,
        system: Some("\"You are a helpful assistant.\"".to_string()),
        temperature: Some("0.7".to_string()),
        top_p: None,
        stream: None,
    };
    let json = req.to_json();
    assert!(json.contains("\"model\":\"opus-4-5\""));
    assert!(json.contains("\"max_tokens\":1024"));
    assert!(json.contains("\"system\""));
    assert!(json.contains("\"temperature\":0.7"));
    assert!(!json.contains("\"top_p\""));
    assert!(!json.contains("\"stream\""));
}

#[test]
fn anthropic_types_test_response_deserialization() {
    let json = r#"{
        "id": "msg_abc123",
        "type": "message",
        "role": "assistant",
        "model": "opus-4-5",
        "content": [{"type": "text", "text": "Hello there!"}],
        "stop_reason": "end_turn",
        "usage": {"input_tokens": 10, "output_tokens": 5}
    }"#;
    let resp = ResponsesResponse::from_json(json).unwrap();
    assert_eq!(resp.id, "msg_abc123");
    assert_eq!(resp.response_type, "message");
    assert_eq!(resp.role, "assistant");
    assert_eq!(resp.content.len(), 1);
    assert_eq!(resp.content[0].block_type, "text");
    assert_eq!(resp.content[0].text.as_deref(), Some("Hello there!"));
    assert_eq!(resp.stop_reason, "end_turn");
    assert_eq!(resp.usage.input_tokens, 10);
    assert_eq!(resp.usage.output_tokens, 5);
}

#[test]
fn test_content_block_tool_use() {
    let json = r#"{
        "type": "tool_use",
        "id": "toolu_abc",
        "name": "get_weather",
        "input": {"city": "Beijing"}
    }"#;
    let block = ResponsesContentBlock::from_json(json).unwrap();
    assert_eq!(block.block_type, "tool_use");
    assert_eq!(block.id.as_deref(), Some("toolu_abc"));
    assert_eq!(block.name.as_deref(), Some("get_weather"));
    assert_eq!(block.text, None);
    assert_eq!(block.input.as_deref(), Some("{\"city\":\"Beijing\"}"));
}

#[test]
fn test_message_start_event() {
    let json = r#"{
        "type": "message_start",
        "message": {
            "id": "msg_start",
            "type": "message",
            "role": "assistant",
            "model": "opus-4-5",
            "content": [],
            "stop_reason": "",
            "usage": {"input_tokens": 10, "output_tokens": 0}
        }
    }"#;
    let event = MessageStartEvent::from_json(json).unwrap();
    assert_eq!(event.event_type, "message_start");
    assert_eq!(event.message.id, "msg_start");
}

#[test]
fn test_content_block_delta_event() {
    let json = r#"{
        "type": "content_block_delta",
        "index": 0,
        "delta": {"type": "text_delta", "text": "Hello"}
    }"#;
    let event = ContentBlockDeltaEvent::from_json(json).unwrap();
    assert_eq!(event.event_type, "content_block_delta");
    assert_eq!(event.index, 0);
    assert_eq!(event.delta.delta_type, "text_delta");
    assert_eq!(event.delta.text, "Hello");
}

#[test]
fn test_message_delta_event() {
    let json = r#"{
        "type": "message_delta",
        "delta": {"stop_reason": "end_turn"},
        "usage": {"input_tokens": 10, "output_tokens": 42}
    }"#;
    let event = MessageDeltaEvent::from_json(json).unwrap();
    assert_eq!(event.event_type, "message_delta");
    assert_eq!(event.delta.stop_reason, "end_turn");
    assert_eq!(event.usage.output_tokens, 42);
}

#[test]
fn test_message_stop_event() {
    let event = MessageStopEvent::from_json(r#"{"type": "message_stop"}"#).unwrap();
    assert_eq!(event.event_type, "message_stop");
}

#[test]
fn test_content_block_stop_event() {
    let event = ContentBlockStopEvent::from_json(r#"{"type": "content_block_stop", "index": 0}"#).unwrap();
    assert_eq!(event.event_type, "content_block_stop");
    assert_eq!(event.index, 0);
}

#[test]
fn anthropic_types_test_error_deserialization() {
    let json = r#"{
        "error": {
            "type": "authentication_error",
            "message": "invalid x-api-key"
        }
    }"#;
    let err = ResponsesError::from_json(json).unwrap();
    assert_eq!(err.error.error_type, "authentication_error");
    assert_eq!(err.error.message.as_deref(), Some("invalid x-api-key"));
}

#[test]
fn test_text_delta() {
    let delta = TextDelta::from_json(r#"{"type": "text_delta", "text": " world"}"#).unwrap();
    assert_eq!(delta.delta_type, "text_delta");
    assert_eq!(delta.text, " world");
    assert_eq!(delta.to_json(), "{\"type\":\"text_delta\",\"text\":\" world\"}");
}

// ---- Provider ----

#[test]
fn test_to_genai_role() {
    assert!(matches!(to_genai_role(ChatRole::System), ProviderRole::System));
    assert!(matches!(to_genai_role(ChatRole::Assistant), ProviderRole::Assistant));
    assert!(matches!(to_genai_role(ChatRole::User), ProviderRole::User));
    assert!(matches!(to_genai_role(ChatRole::Tool), ProviderRole::Tool));
}

fn text(role: ChatRole, t: &str) -> ChatMessage {
    ChatMessage { role, content: MessageContent { parts: vec![ContentPart::Text(t.to_string())] } }
}

#[test]
fn test_to_genai_messages() {
    let messages = vec![
        text(ChatRole::System, "You are helpful"),
        text(ChatRole::User, "Hello"),
        text(ChatRole::Assistant, "Hi there"),
    ];
    let genai_msgs = to_genai_messages(messages);
    assert_eq!(genai_msgs.len(), 3);
    assert!(matches!(&genai_msgs[1].parts[0], ProviderPart::Text(t) if t == "Hello"));
}

#[test]
fn test_parse_provider() {
    assert_eq!(parse_provider("openai").unwrap(), "openai");
    assert_eq!(parse_provider("anthropic").unwrap(), "anthropic");
    assert_eq!(parse_provider("gemini").unwrap(), "gemini");
    assert_eq!(parse_provider("deepseek").unwrap(), "deepseek");
    assert_eq!(parse_provider("ollama").unwrap(), "ollama");
    assert_eq!(parse_provider("groq").unwrap(), "groq");
    assert_eq!(parse_provider("openai-compat").unwrap(), "openai");
    assert!(parse_provider("unknown").is_err());
    assert_eq!(parse_provider("OpenAI-Compat").unwrap(), "openai");
    assert!(parse_provider("NoSuch").unwrap_err().starts_with("Unknown provider 'nosuch'. Supported: openai"));
}

#[test]
fn test_parse_system_prompts_default() {
    let prompts = parse_system_prompts("");
    assert_eq!(prompts.len(), 1);
    assert_eq!(prompts[0].role, DEFAULT_SYSTEM_PROMPT_ROLE);
    assert_eq!(prompts[0].content, DEFAULT_SYSTEM_PROMPT_CONTENT);
}

#[test]
fn test_parse_system_prompts_json() {
    let json = r#"[{"role":"system","content":"You are a coding assistant"},{"role":"user","content":"Be concise"}]"#;
    let prompts = parse_system_prompts(json);
    assert_eq!(prompts.len(), 2);
    assert_eq!(prompts[0].role, "system");
    assert_eq!(prompts[0].content, "You are a coding assistant");
    assert_eq!(prompts[1].role, "user");
    assert_eq!(prompts[1].content, "Be concise");
}

#[test]
fn test_parse_system_prompts_invalid_json() {
    let prompts = parse_system_prompts("not json");
    assert_eq!(prompts.len(), 1);
    assert_eq!(prompts[0].role, DEFAULT_SYSTEM_PROMPT_ROLE);
    assert_eq!(parse_system_prompts("[]").len(), 1);
    assert_eq!(parse_system_prompts(r#"[{"role":"user","content":"a"},{"role":1}]"#)[0].role, "system");
}

#[test]
fn test_build_chat_options_defaults() {
    let config = options_config();
    let opts = build_chat_options(&config, None);
    assert_eq!(opts.temperature, Some(0.5));
    assert_eq!(opts.top_p, Some(0.9));
    assert_eq!(opts.max_tokens, Some(2048));
}

#[test]
fn test_build_chat_options_override() {
    let config = options_config();
    let req_opts = WitChatOptions { temperature: Some(1.0), max_tokens: Some(100), top_p: Some(0.5) };
    let opts = build_chat_options(&config, Some(req_opts));
    assert_eq!(opts.temperature, Some(1.0));
    assert_eq!(opts.top_p, Some(0.5));
    assert_eq!(opts.max_tokens, Some(100));
}

#[test]
fn test_extract_config_missing_required() {
    let result = extract_config(&interface(vec![]), "test-workload");
    assert!(result.is_err());
    assert!(result.err().unwrap().contains("provider"));
    let no_model = extract_config(&interface(vec![("provider", "openai")]), "w");
    assert!(no_model.err().unwrap().contains("model_name"));
    let no_key = extract_config(&interface(vec![("provider", "openai"), ("model_name", "m")]), "w");
    assert!(no_key.err().unwrap().contains("api_key"));
    let no_url = extract_config(
        &interface(vec![("provider", "OPENAI-compat"), ("model_name", "m"), ("api_key", "k")]),
        "w",
    );
    assert!(no_url.err().unwrap().contains("base_url"));
}

#[test]
fn test_extract_config_with_all_options() {
    let i = interface(vec![
        ("provider", "openai-compat"),
        ("model_name", "my-model"),
        ("api_key", "sk-test"),
        ("base_url", "https://my-llm.example.com/v1"),
        ("temperature", "0.3"),
        ("top_p", "0.8"),
        ("max_tokens", "8192"),
        ("system_prompts", r#"[{"role":"system","content":"You are a math tutor"}]"#),
    ]);
    let raw = extract_config(&i, "test-workload").ok().unwrap();
    let temperature: Option<f64> = raw.temperature.as_ref().and_then(|t| t.parse().ok());
    let top_p: Option<f64> = raw.top_p.as_ref().and_then(|t| t.parse().ok());
    let cfg = raw.with_sampling(temperature, top_p);
    assert_eq!(cfg.provider, "openai");
    assert_eq!(cfg.base_url.unwrap(), "https://my-llm.example.com/v1");
    assert_eq!(cfg.temperature, Some(0.3));
    assert_eq!(cfg.top_p.unwrap(), 0.8);
    assert_eq!(cfg.max_tokens, Some(8192));
    assert_eq!(cfg.system_prompts.len(), 1);
    assert_eq!(cfg.system_prompts[0].content, "You are a math tutor");
}

#[test]
fn test_extract_config_success() {
    let i = interface(vec![("provider", "openai"), ("model_name", "gpt-4o-mini"), ("api_key", "sk-test")]);
    let cfg = extract_config(&i, "test-workload").ok().unwrap();
    assert_eq!(cfg.provider, "openai");
    assert_eq!(cfg.model_name, "gpt-4o-mini");
    assert_eq!(cfg.api_key, "sk-test");
    assert_eq!(cfg.temperature, None);
    assert_eq!(cfg.max_tokens, None);
    assert_eq!(cfg.system_prompts.len(), 1);
    assert_eq!(cfg.system_prompts[0].role, DEFAULT_SYSTEM_PROMPT_ROLE);
}

#[test]
fn chats_are_planned_for_a_component() {
    let mut g: LlmGateway<f64> = LlmGateway::new();
    let hello = || vec![text(ChatRole::User, "Hello")];
    match g.chat("c", String::new(), Vec::new(), None, None) {
        Err(LlmError::InvalidRequest(m)) => assert_eq!(m, "Messages list cannot be empty"),
        _ => panic!("expected an invalid request"),
    }
    match g.chat("c", String::new(), hello(), None, None) {
        Err(LlmError::Unexpected(m)) => assert_eq!(m, "No LLM Gateway config found for component 'c'"),
        _ => panic!("expected a missing configuration"),
    }
    g.on_workload_item_bind("c", "w", test_config());
    let plan = g.chat("c", String::new(), hello(), None, None).ok().unwrap();
    assert_eq!(plan.model, "gpt-4o-mini");
    assert_eq!(plan.messages.len(), 2);
    assert!(matches!(plan.client, ClientChoice::MakeAndKeep { api_key, .. } if api_key == "test-key"));
    g.client_kept("c");
    let again = g.chat("c", "other".to_string(), hello(), None, None).ok().unwrap();
    assert_eq!(again.model, "other");
    assert!(matches!(again.client, ClientChoice::Kept));
    let own = LlmConfig { api_key: "own".to_string(), base_url: Some("https://x".to_string()) };
    let once = g.chat("c", String::new(), hello(), None, Some(own)).ok().unwrap();
    assert!(matches!(once.client, ClientChoice::MakeOnce { api_key, base_url: Some(u), .. } if api_key == "own" && u == "https://x"));
    g.on_workload_unbind("w");
    assert!(g.chat("c", String::new(), hello(), None, None).is_err());
}

#[test]
fn provider_messages_are_classified() {
    assert!(matches!(to_llm_error("Unauthorized".to_string()), LlmError::AuthenticationError(_)));
    assert!(matches!(to_llm_error("bad API KEY".to_string()), LlmError::AuthenticationError(_)));
    assert!(matches!(to_llm_error("Rate Limit hit".to_string()), LlmError::RateLimitError(_)));
    assert!(matches!(to_llm_error("model does not exist".to_string()), LlmError::ModelNotFound(_)));
    assert!(matches!(to_llm_error("boom".to_string()), LlmError::ProviderError(m) if m == "boom"));
    assert!(matches!(classify_error("X".to_string(), "too many requests"), LlmError::RateLimitError(_)));
}

#[test]
fn streams_end_once() {
    let mut h = ChatStreamHandle { model: Some("m".to_string()), ended: false };
    let (events, done) = next(&mut h, vec![StreamItem::Start, StreamItem::Chunk("a".to_string())]);
    assert_eq!(events.len(), 1);
    assert!(!done && !h.ended);
    let (none, done) = next(&mut h, vec![StreamItem::Closed, StreamItem::Chunk("x".to_string())]);
    assert!(none.is_empty() && !done);
    let end = StreamEnd {
        stop_reason: None,
        usage: Some(ProviderUsage { prompt_tokens: Some(1), completion_tokens: None, total_tokens: Some(-1) }),
    };
    let (events, done) = next(&mut h, vec![StreamItem::End(end), StreamItem::Chunk("x".to_string())]);
    assert!(done && h.ended);
    match &events[0] {
        ChatStreamEvent::End(e) => {
            assert_eq!(e.model, "m");
            let u = e.usage.unwrap();
            assert_eq!((u.prompt_tokens, u.completion_tokens, u.total_tokens), (1, 0, u64::MAX));
        }
        _ => panic!("expected the end"),
    }
    let (events, done) = next(&mut h, vec![StreamItem::Chunk("x".to_string())]);
    assert!(events.is_empty() && done);
    let mut f = ChatStreamHandle { model: None, ended: false };
    let (events, done) = next(&mut f, vec![StreamItem::Failed("boom".to_string())]);
    assert!(done && matches!(&events[0], ChatStreamEvent::Error(e) if e == "boom"));
}

#[test]
fn parts_are_converted_both_ways() {
    let call = ToolCall { call_id: "1".to_string(), fn_name: "f".to_string(), fn_arguments: "{bad".to_string() };
    match to_genai_content_part(ContentPart::ToolCall(call)) {
        ProviderPart::ToolCall(t) => assert_eq!(t.fn_arguments, "null"),
        _ => panic!("expected a tool call"),
    }
    assert!(matches!(to_wit_content_part(ProviderPart::Internal), ContentPart::Text(t) if t.is_empty()));
    let r = chat_response(vec![ProviderPart::Text("x".to_string())], "m".to_string(), None, no_usage());
    assert_eq!(r.content.parts.len(), 1);
    assert_eq!(r.usage.unwrap().total_tokens, 0);
    assert_eq!(count_tokens(Some(-2)), (-2i32) as u64);
}

#[test]
fn only_well_configured_components_are_bound() {
    let mut i = WitInterface::of("custom", "llm-gateway", one("chat"), "0.1.0");
    assert!(bind_config(true, &vec![]).is_none());
    for (k, v) in [("provider", "openai"), ("model_name", "m"), ("api_key", "k"), ("max_tokens", "x")] {
        i.config.insert(k.to_string(), v.to_string());
    }
    let interfaces = vec![i];
    let c = bind_config(true, &interfaces).unwrap();
    assert_eq!((c.provider.as_str(), c.model_name.as_str(), c.max_tokens), ("openai", "m", None));
    assert!(bind_config(false, &interfaces).is_none());
    let bare = vec![WitInterface::of("custom", "llm-gateway", one("chat"), "0.1.0")];
    assert!(bind_config(true, &bare).is_none());
    assert!(matches!(client_error("e"), LlmError::Unexpected(m) if m == "Failed to create LLM client: e"));
}

#[test]
fn what_was_written_is_read_back() {
    let chunk = CompletionsChunk {
        id: "c\"1".to_string(),
        object: "chat.completion.chunk".to_string(),
        model: "m".to_string(),
        choices: vec![CompletionsChunkChoice {
            index: 7,
            delta: CompletionsChunkDelta { role: None, content: Some("Hi\n".to_string()) },
            finish_reason: Some("stop".to_string()),
        }],
    };
    let back = CompletionsChunk::from_json(&chunk.to_json()).unwrap();
    assert_eq!(back.id, chunk.id);
    assert_eq!(back.choices.len(), 1);
    assert_eq!(back.choices[0].index, 7);
    assert_eq!(back.choices[0].delta.content.as_deref(), Some("Hi\n"));
    assert!(back.choices[0].delta.role.is_none());
    let block = ResponsesContentBlock {
        block_type: "tool_use".to_string(),
        text: None,
        id: Some("t".to_string()),
        name: Some("f".to_string()),
        input: Some("{\"b\":[1,{\"a\":null}],\"a\":\"x\"}".to_string()),
    };
    let back = ResponsesContentBlock::from_json(&block.to_json()).unwrap();
    assert_eq!(back.input, block.input);
    assert_eq!((back.text, back.id, back.name), (None, block.id, block.name));
}

#[test]
fn records_may_be_arrays_of_their_members() {
    let p = parse_system_prompts(r#"[["system","x"], {"role":"user","content":"y","z":1}]"#);
    assert_eq!((p[0].role.as_str(), p[0].content.as_str()), ("system", "x"));
    assert_eq!((p[1].role.as_str(), p[1].content.as_str()), ("user", "y"));
    assert_eq!(parse_system_prompts(r#"[["system"]]"#)[0].content, DEFAULT_SYSTEM_PROMPT_CONTENT);
    let m = CompletionsMessage::from_json(r#"["user", null]"#).unwrap();
    assert_eq!((m.role.as_str(), m.content), ("user", None));
    assert!(CompletionsMessage::from_json(r#"["user"]"#).is_none());
    let d = CompletionsChunkDelta::from_json("{}").unwrap();
    assert!(d.role.is_none() && d.content.is_none());
    for other in ["5", "null", "[]", "\"x\""] {
        assert!(CompletionsChunkDelta::from_json(other).is_none());
    }
    let r = CompletionsResponse::from_json(r#"["i","o","m",[[0,["assistant","hi"],"stop"]],[1,2,3]]"#).unwrap();
    assert_eq!(r.choices[0].message.content.as_deref(), Some("hi"));
    assert_eq!(r.usage.total_tokens, 3);
}

#[test]
fn known_members_come_once() {
    let twice = r#"[{"role":"user","content":"x","role":"system"}]"#;
    assert_eq!(parse_system_prompts(twice)[0].content, DEFAULT_SYSTEM_PROMPT_CONTENT);
    let escaped = r#"[{"role":"user","content":"x","\u0072ole":"system"}]"#;
    assert_eq!(parse_system_prompts(escaped)[0].content, DEFAULT_SYSTEM_PROMPT_CONTENT);
    let unknown = parse_system_prompts(" [ { \"role\" : \"user\" , \"z\":1, \"content\":\"x\", \"z\":[2, {}] } ] ");
    assert_eq!((unknown[0].role.as_str(), unknown[0].content.as_str()), ("user", "x"));
    assert!(CompletionsMessage::from_json(r#"{"role":"user","content":null,"content":"x"}"#).is_none());
    assert!(CompletionsMessage::from_json(r#"{"role":"user","content":"x"} y"#).is_none());
    assert!(CompletionsMessage::from_json(r#"{"role":"user","content":"x",}"#).is_none());
    assert!(CompletionsMessage::from_json(r#"{"role":"user""content":"x"}"#).is_none());
    let nested = r#"["i","o","m",[[0,{"role":"a","role":"b","content":"hi"},"stop"]],[1,2,3]]"#;
    assert!(CompletionsResponse::from_json(nested).is_none());
    assert!(ResponsesMessage::from_json(r#"{"role":"user","content":1,"content":1}"#).is_none());
}

#[test]
fn values_are_held_as_they_are_written() {
    let m = ResponsesMessage::from_json(r#"{"role":"user","content": [ {"a": 1, "b": 2, "a": "A"} ] }"#).unwrap();
    assert_eq!(m.content, r#"[{"a":"A","b":2}]"#);
    let b = ResponsesContentBlock::from_json(r#"{"type":"tool_use","input": { } }"#).unwrap();
    assert_eq!(b.input.as_deref(), Some("{}"));
    let none = ResponsesContentBlock::from_json(r#"{"type":"text","input": null }"#).unwrap();
    assert!(none.input.is_none());
    assert!(ResponsesContentBlock::from_json(r#"{"type":"text","input":"\ud800"}"#).is_none());
    assert!(ResponsesContentBlock::from_json(r#"{"type":"text","other":"\ud800"}"#).is_some());
}
