//! The HTTP endpoints of the LLM gateway: `/v1/chat/completions` in the OpenAI format and
//! `/v1/messages` in the Anthropic format.
use vstd::prelude::*;
use crate::anthropic_types::{ContentBlockDeltaEvent, ContentBlockStartEvent, ContentBlockStopEvent, MessageDelta, MessageDeltaEvent, MessageStartEvent, MessageStopEvent, ResponsesContentBlock, ResponsesError, ResponsesErrorDetail, ResponsesRequest, ResponsesResponse, ResponsesUsage, TextDelta};
use crate::json::{array_text, get_text, no_members, object_text, opt_member, opt_quoted, quoted, read_value, says_text, strings_are_found_by_their_key, text_member, value_of, Json, JsonView};
use crate::llm_gateway_provider::{count_tokens, either, first_given, is_text_message, preset_messages, role_named, text_message, text_role, token_count, ChatOptions, LlmGatewayConfig, PresetPrompt, ProviderMessage, ProviderUsage, StopReason, StreamEnd, StreamItem};
use crate::number::{decimal, wrap_u32};
use crate::openai_types::{CompletionsChoice, CompletionsChunk, CompletionsChunkChoice, CompletionsChunkDelta, CompletionsError, CompletionsErrorDetail, CompletionsRequest, CompletionsResponse, CompletionsResponseMessage, CompletionsUsage};
use crate::text::{cat2, cat3, cat5, join, joined, opt_view, or_empty, same, text_or_empty, views};

verus! {

/// A response to an HTTP request.
pub struct HttpResponse {
    pub status: u16,
    pub body: String,
    pub content_type: &'static str,
    /// Whether the body is a stream of server-sent events.
    pub is_sse: bool,
}

impl HttpResponse {
    /// A response whose body is JSON text.
    pub fn json(status: u16, body: String) -> (r: HttpResponse)
        ensures
            r.status == status,
            r.body == body,
            r.content_type@ == "application/json"@,
            !r.is_sse,
    {
        HttpResponse { status, body, content_type: "application/json", is_sse: false }
    }

    /// A stream of server-sent events.
    pub fn sse(body: String) -> (r: HttpResponse)
        ensures
            r.status == 200,
            r.body == body,
            r.content_type@ == "text/event-stream"@,
            r.is_sse,
    {
        HttpResponse { status: 200, body, content_type: "text/event-stream", is_sse: true }
    }

    pub open spec fn is_json(&self, status: u16, body: Seq<char>) -> bool {
        &&& self.status == status
        &&& self.body@ == body
        &&& self.content_type@ == "application/json"@
        &&& !self.is_sse
    }

    pub open spec fn is_stream(&self, body: Seq<char>) -> bool {
        &&& self.status == 200
        &&& self.body@ == body
        &&& self.content_type@ == "text/event-stream"@
        &&& self.is_sse
    }
}

/// An error in the OpenAI format.
pub open spec fn openai_error(code: Seq<char>, message: Seq<char>) -> Seq<char> {
    object_text(
        no_members().push(
            (
                "error"@,
                object_text(
                    no_members() + opt_member("code"@, Some(quoted(code))) + opt_member(
                        "message"@,
                        Some(quoted(message)),
                    ) + opt_member("param"@, None) + opt_member(
                        "type"@,
                        Some(quoted("invalid_request_error"@)),
                    ),
                ),
            ),
        ),
    )
}

/// An error in the Anthropic format.
pub open spec fn anthropic_error(error_type: Seq<char>, message: Seq<char>) -> Seq<char> {
    object_text(
        no_members().push(
            (
                "error"@,
                object_text(
                    no_members().push(("type"@, quoted(error_type))) + opt_member(
                        "message"@,
                        Some(quoted(message)),
                    ),
                ),
            ),
        ),
    )
}

/// A JSON error response in the OpenAI format.
pub fn error_response(status: u16, code: &str, message: &str) -> (r: HttpResponse)
    ensures
        r.is_json(status, openai_error(code@, message@)),
{
    let e = CompletionsError {
        error: CompletionsErrorDetail {
            code: Some(code.to_owned()),
            message: Some(message.to_owned()),
            param: None,
            error_type: Some("invalid_request_error".to_owned()),
        },
    };
    HttpResponse::json(status, e.to_json())
}

/// A JSON error response in the Anthropic format.
pub fn responses_error(status: u16, error_type: &str, message: &str) -> (r: HttpResponse)
    ensures
        r.is_json(status, anthropic_error(error_type@, message@)),
{
    let e = ResponsesError {
        error: ResponsesErrorDetail {
            error_type: error_type.to_owned(),
            message: Some(message.to_owned()),
        },
    };
    HttpResponse::json(status, e.to_json())
}

// ---- Routing ----

/// Where a request goes.
pub enum Route {
    Completions,
    Messages,
    Refused(HttpResponse),
}

/// Routes a request by its method and path.
pub fn handle_http_request(path: &str, method: &str) -> (r: Route)
    ensures
        if method@ != "POST"@ {
            r is Refused && r->Refused_0.is_json(
                405,
                openai_error("method_not_allowed"@, "only POST is supported"@),
            )
        } else if path@ == "/v1/chat/completions"@ {
            r is Completions
        } else if path@ == "/v1/messages"@ {
            r is Messages
        } else {
            r is Refused && r->Refused_0.is_json(404, openai_error("not_found"@, "unknown endpoint"@))
        },
{
    if !same(method, "POST") {
        return Route::Refused(
            error_response(405, "method_not_allowed", "only POST is supported"),
        );
    }
    if same(path, "/v1/chat/completions") {
        Route::Completions
    } else if same(path, "/v1/messages") {
        Route::Messages
    } else {
        Route::Refused(error_response(404, "not_found", "unknown endpoint"))
    }
}

// ---- Messages ----

/// The texts of the content blocks that have one.
pub open spec fn block_texts(items: Seq<Seq<char>>) -> Seq<Seq<char>>
    decreases items.len(),
{
    if items.len() == 0 {
        items
    } else {
        match text_member(value_of(items.last()), "text"@) {
            Some(t) => block_texts(items.drop_last()).push(t),
            None => block_texts(items.drop_last()),
        }
    }
}

/// The text of a content: a string, or the texts of its blocks one after the other.
pub open spec fn content_text(content: JsonView) -> Seq<char> {
    match content {
        JsonView::Text(s) => s,
        JsonView::Array(items) => joined(block_texts(items), ""@),
        _ => Seq::<char>::empty(),
    }
}

/// The system prompt of a request: a string, or the texts of blocks on lines of their own.
pub open spec fn system_text(system: JsonView) -> Option<Seq<char>> {
    match system {
        JsonView::Text(s) => Some(s),
        JsonView::Array(items) => if block_texts(items).len() == 0 {
            None
        } else {
            Some(joined(block_texts(items), "\n"@))
        },
        _ => None,
    }
}

fn read_block_texts(items: &Vec<String>) -> (r: Vec<String>)
    ensures
        views(r@) == block_texts(views(items@)),
{
    let ghost iv = views(items@);
    let mut out: Vec<String> = Vec::new();
    let mut i: usize = 0;
    assert(views(out@) =~= block_texts(iv.take(0)));
    while i < items.len()
        invariant
            i <= items@.len(),
            iv == views(items@),
            views(out@) == block_texts(iv.take(i as int)),
        decreases items@.len() - i,
    {
        assert(iv.take(i + 1).drop_last() == iv.take(i as int));
        assert(iv[i as int] == items@[i as int]@);
        let block = read_value(&items[i]);
        if let Some(t) = get_text(&block, "text") {
            let ghost before = out@;
            out.push(t);
            assert(views(out@) =~= views(before).push(t@));
        }
        i = i + 1;
    }
    assert(iv.take(iv.len() as int) == iv);
    out
}

/// The text of an Anthropic content.
pub fn extract_text_from_content(content: &Json) -> (r: String)
    ensures
        r@ == content_text(content@),
{
    match content {
        Json::Text(s) => s.clone(),
        Json::Array(items) => {
            let texts = read_block_texts(items);
            join(&texts, "")
        },
        _ => {
            let r = String::new();
            r
        },
    }
}

/// The system prompt that a value describes.
pub fn extract_system_prompt(system: &Json) -> (r: Option<String>)
    ensures
        opt_view(r) == system_text(system@),
{
    match system {
        Json::Text(s) => Some(s.clone()),
        Json::Array(items) => {
            let texts = read_block_texts(items);
            assert(texts@.len() == views(texts@).len());
            if texts.len() == 0 {
                None
            } else {
                Some(join(&texts, "\n"))
            }
        },
        _ => None,
    }
}

/// The preset prompts stand first.
pub open spec fn presets_first(r: Seq<ProviderMessage>, prompts: Seq<PresetPrompt>) -> bool {
    &&& prompts.len() <= r.len()
    &&& forall|i: int|
        0 <= i < prompts.len() ==> is_text_message(
            #[trigger] r[i],
            text_role(role_named(prompts[i].role@)),
            prompts[i].content@,
        )
}

/// The messages of an OpenAI request, behind the preset prompts.
pub fn build_genai_messages_from_completions<F>(
    req: &CompletionsRequest<F>,
    config: &LlmGatewayConfig<F>,
) -> (r: Vec<ProviderMessage>)
    ensures
        r@.len() == config.system_prompts@.len() + req.messages@.len(),
        presets_first(r@, config.system_prompts@),
        forall|i: int|
            config.system_prompts@.len() <= i < r@.len() ==> is_text_message(
                #[trigger] r@[i],
                text_role(role_named(req.messages@[i - config.system_prompts@.len()].role@)),
                or_empty(req.messages@[i - config.system_prompts@.len()].content),
            ),
{
    let mut out = preset_messages(&config.system_prompts);
    let n: usize = config.system_prompts.len();
    let mut i: usize = 0;
    while i < req.messages.len()
        invariant
            i <= req.messages@.len(),
            n == config.system_prompts@.len(),
            out@.len() == n + i,
            presets_first(out@, config.system_prompts@),
            forall|k: int|
                n <= k < out@.len() ==> is_text_message(
                    #[trigger] out@[k],
                    text_role(role_named(req.messages@[k - n].role@)),
                    or_empty(req.messages@[k - n].content),
                ),
        decreases req.messages@.len() - i,
    {
        let content = text_or_empty(&req.messages[i].content);
        out.push(text_message(&req.messages[i].role, &content));
        i = i + 1;
    }
    out
}

/// The system prompt and the messages of an Anthropic request, behind the preset prompts.
pub fn build_genai_messages_from_responses<F>(
    req: &ResponsesRequest<F>,
    config: &LlmGatewayConfig<F>,
) -> (r: (Option<String>, Vec<ProviderMessage>))
    ensures
        opt_view(r.0) == match req.system {
            Some(s) => system_text(value_of(s@)),
            None => None,
        },
        r.1@.len() == config.system_prompts@.len() + req.messages@.len(),
        presets_first(r.1@, config.system_prompts@),
        forall|i: int|
            config.system_prompts@.len() <= i < r.1@.len() ==> is_text_message(
                #[trigger] r.1@[i],
                text_role(role_named(req.messages@[i - config.system_prompts@.len()].role@)),
                content_text(
                    value_of(req.messages@[i - config.system_prompts@.len()].content@),
                ),
            ),
{
    let system = match &req.system {
        Some(s) => {
            let j = read_value(s);
            extract_system_prompt(&j)
        },
        None => None,
    };
    let mut out = preset_messages(&config.system_prompts);
    let n: usize = config.system_prompts.len();
    let mut i: usize = 0;
    while i < req.messages.len()
        invariant
            i <= req.messages@.len(),
            n == config.system_prompts@.len(),
            out@.len() == n + i,
            presets_first(out@, config.system_prompts@),
            forall|k: int|
                n <= k < out@.len() ==> is_text_message(
                    #[trigger] out@[k],
                    text_role(role_named(req.messages@[k - n].role@)),
                    content_text(value_of(req.messages@[k - n].content@)),
                ),
        decreases req.messages@.len() - i,
    {
        let j = read_value(&req.messages[i].content);
        let content = extract_text_from_content(&j);
        out.push(text_message(&req.messages[i].role, &content));
        i = i + 1;
    }
    (system, out)
}

// ---- Options ----

pub open spec fn low_bits(n: u64) -> u32 {
    (n % 0x1_0000_0000) as u32
}

pub open spec fn completions_options<F>(
    c: LlmGatewayConfig<F>,
    q: CompletionsRequest<F>,
    capture: bool,
) -> ChatOptions<F> {
    ChatOptions {
        temperature: either(q.temperature, c.temperature),
        max_tokens: match q.max_tokens {
            Some(n) => Some(low_bits(n)),
            None => c.max_tokens,
        },
        top_p: either(q.top_p, c.top_p),
        capture_usage: capture,
        capture_content: capture,
    }
}

pub open spec fn responses_options<F>(
    c: LlmGatewayConfig<F>,
    q: ResponsesRequest<F>,
    capture: bool,
) -> ChatOptions<F> {
    ChatOptions {
        temperature: either(q.temperature, c.temperature),
        max_tokens: Some(low_bits(q.max_tokens)),
        top_p: either(q.top_p, c.top_p),
        capture_usage: capture,
        capture_content: capture,
    }
}

/// The options of an OpenAI request: what it asks for goes before what is configured.
pub fn build_chat_options_from_completions<F: Copy>(
    config: &LlmGatewayConfig<F>,
    req: &CompletionsRequest<F>,
) -> (r: ChatOptions<F>)
    ensures
        r == completions_options(*config, *req, false),
{
    ChatOptions {
        temperature: first_given(req.temperature, config.temperature),
        max_tokens: match req.max_tokens {
            Some(n) => Some(wrap_u32(n)),
            None => config.max_tokens,
        },
        top_p: first_given(req.top_p, config.top_p),
        capture_usage: false,
        capture_content: false,
    }
}

/// The options of an Anthropic request, which always says how many tokens it wants.
pub fn build_chat_options_from_responses<F: Copy>(
    config: &LlmGatewayConfig<F>,
    req: &ResponsesRequest<F>,
) -> (r: ChatOptions<F>)
    ensures
        r == responses_options(*config, *req, false),
{
    ChatOptions {
        temperature: first_given(req.temperature, config.temperature),
        max_tokens: Some(wrap_u32(req.max_tokens)),
        top_p: first_given(req.top_p, config.top_p),
        capture_usage: false,
        capture_content: false,
    }
}

// ---- Requests ----

/// What to ask a provider.
pub struct ProviderRequest<F> {
    pub model: String,
    pub system: Option<String>,
    pub messages: Vec<ProviderMessage>,
    pub options: ChatOptions<F>,
    /// Whether the answer is wanted as a stream.
    pub stream: bool,
}

/// What to do with a request.
pub enum HandlerStep<F> {
    Respond(HttpResponse),
    Ask(ProviderRequest<F>),
}

pub open spec fn wants_stream(stream: Option<bool>) -> bool {
    stream == Some(true)
}

/// Handles an OpenAI request, given what its body was read as.
pub fn handle_completions<F: Copy>(
    parsed: Result<CompletionsRequest<F>, String>,
    config: &LlmGatewayConfig<F>,
) -> (r: HandlerStep<F>)
    ensures
        match parsed {
            Err(e) => r is Respond && r->Respond_0.is_json(
                400,
                openai_error("invalid_request"@, "failed to parse request: "@ + e@),
            ),
            Ok(q) => if q.messages@.len() == 0 {
                r is Respond && r->Respond_0.is_json(
                    400,
                    openai_error("invalid_request"@, "messages must not be empty"@),
                )
            } else {
                match r {
                    HandlerStep::Respond(_) => false,
                    HandlerStep::Ask(p) => {
                        &&& p.model@ == q.model@
                        &&& p.system is None
                        &&& p.stream == wants_stream(q.stream)
                        &&& p.options == completions_options(*config, q, wants_stream(q.stream))
                        &&& p.messages@.len() == config.system_prompts@.len() + q.messages@.len()
                        &&& presets_first(p.messages@, config.system_prompts@)
                        &&& forall|i: int|
                            config.system_prompts@.len() <= i < p.messages@.len()
                                ==> is_text_message(
                                #[trigger] p.messages@[i],
                                text_role(
                                    role_named(
                                        q.messages@[i - config.system_prompts@.len()].role@,
                                    ),
                                ),
                                or_empty(q.messages@[i - config.system_prompts@.len()].content),
                            )
                    },
                }
            },
        },
{
    match parsed {
        Err(e) => {
            let message = cat2("failed to parse request: ", &e);
            HandlerStep::Respond(error_response(400, "invalid_request", &message))
        },
        Ok(req) => {
            if req.messages.len() == 0 {
                return HandlerStep::Respond(
                    error_response(400, "invalid_request", "messages must not be empty"),
                );
            }
            let stream = match req.stream {
                Some(b) => b,
                None => false,
            };
            let messages = build_genai_messages_from_completions(&req, config);
            let mut options = build_chat_options_from_completions(config, &req);
            if stream {
                options.capture_usage = true;
                options.capture_content = true;
            }
            HandlerStep::Ask(
                ProviderRequest { model: req.model, system: None, messages, options, stream },
            )
        },
    }
}

/// Handles an Anthropic request, given what its body was read as.
pub fn handle_responses<F: Copy>(
    parsed: Result<ResponsesRequest<F>, String>,
    config: &LlmGatewayConfig<F>,
) -> (r: HandlerStep<F>)
    ensures
        match parsed {
            Err(e) => r is Respond && r->Respond_0.is_json(
                400,
                anthropic_error("invalid_request_error"@, "failed to parse request: "@ + e@),
            ),
            Ok(q) => if q.messages@.len() == 0 {
                r is Respond && r->Respond_0.is_json(
                    400,
                    anthropic_error("invalid_request_error"@, "messages must not be empty"@),
                )
            } else {
                match r {
                    HandlerStep::Respond(_) => false,
                    HandlerStep::Ask(p) => {
                        &&& p.model@ == q.model@
                        &&& opt_view(p.system) == match q.system {
                            Some(s) => system_text(value_of(s@)),
                            None => None,
                        }
                        &&& p.stream == wants_stream(q.stream)
                        &&& p.options == responses_options(*config, q, wants_stream(q.stream))
                        &&& p.messages@.len() == config.system_prompts@.len() + q.messages@.len()
                        &&& presets_first(p.messages@, config.system_prompts@)
                        &&& forall|i: int|
                            config.system_prompts@.len() <= i < p.messages@.len()
                                ==> is_text_message(
                                #[trigger] p.messages@[i],
                                text_role(
                                    role_named(
                                        q.messages@[i - config.system_prompts@.len()].role@,
                                    ),
                                ),
                                content_text(
                                    value_of(
                                        q.messages@[i - config.system_prompts@.len()].content@,
                                    ),
                                ),
                            )
                    },
                }
            },
        },
{
    match parsed {
        Err(e) => {
            let message = cat2("failed to parse request: ", &e);
            HandlerStep::Respond(responses_error(400, "invalid_request_error", &message))
        },
        Ok(req) => {
            if req.messages.len() == 0 {
                return HandlerStep::Respond(
                    responses_error(400, "invalid_request_error", "messages must not be empty"),
                );
            }
            let stream = match req.stream {
                Some(b) => b,
                None => false,
            };
            let (system, messages) = build_genai_messages_from_responses(&req, config);
            let mut options = build_chat_options_from_responses(config, &req);
            if stream {
                options.capture_usage = true;
                options.capture_content = true;
            }
            HandlerStep::Ask(
                ProviderRequest { model: req.model, system, messages, options, stream },
            )
        },
    }
}

// ---- Answers ----

/// The answer of a provider.
pub struct ProviderAnswer {
    /// The first text of the answer.
    pub text: Option<String>,
    pub model: String,
    pub stop_reason: Option<StopReason>,
    pub usage: ProviderUsage,
}

/// The word that the provider itself used for a reason.
pub open spec fn raw_reason(r: StopReason) -> Seq<char> {
    match r {
        StopReason::Completed(s) => s@,
        StopReason::MaxTokens(s) => s@,
        StopReason::ToolCall(s) => s@,
        StopReason::ContentFilter(s) => s@,
        StopReason::StopSequence(s) => s@,
        StopReason::Other(s) => s@,
    }
}

pub fn raw_stop_reason(r: &StopReason) -> (t: String)
    ensures
        t@ == raw_reason(*r),
{
    match r {
        StopReason::Completed(s) => s.clone(),
        StopReason::MaxTokens(s) => s.clone(),
        StopReason::ToolCall(s) => s.clone(),
        StopReason::ContentFilter(s) => s.clone(),
        StopReason::StopSequence(s) => s.clone(),
        StopReason::Other(s) => s.clone(),
    }
}

/// The reason in the words of the Anthropic format.
pub open spec fn anthropic_reason(r: StopReason) -> Seq<char> {
    match r {
        StopReason::Completed(_) => "end_turn"@,
        StopReason::MaxTokens(_) => "max_tokens"@,
        StopReason::ToolCall(_) => "tool_use"@,
        StopReason::StopSequence(_) => "stop_sequence"@,
        StopReason::ContentFilter(_) => "end_turn"@,
        StopReason::Other(s) => s@,
    }
}

pub fn anthropic_stop_reason(reason: &StopReason) -> (t: String)
    ensures
        t@ == anthropic_reason(*reason),
{
    match reason {
        StopReason::Completed(_) => "end_turn".to_owned(),
        StopReason::MaxTokens(_) => "max_tokens".to_owned(),
        StopReason::ToolCall(_) => "tool_use".to_owned(),
        StopReason::StopSequence(_) => "stop_sequence".to_owned(),
        StopReason::ContentFilter(_) => "end_turn".to_owned(),
        StopReason::Other(s) => s.clone(),
    }
}

pub open spec fn finish_reason_of(r: Option<StopReason>) -> Seq<char> {
    match r {
        Some(s) => raw_reason(s),
        None => "stop"@,
    }
}

pub open spec fn stop_reason_of(r: Option<StopReason>) -> Seq<char> {
    match r {
        Some(s) => anthropic_reason(s),
        None => "end_turn"@,
    }
}

fn finish_reason(r: &Option<StopReason>) -> (t: String)
    ensures
        t@ == finish_reason_of(*r),
{
    match r {
        Some(s) => raw_stop_reason(s),
        None => "stop".to_owned(),
    }
}

fn stop_reason(r: &Option<StopReason>) -> (t: String)
    ensures
        t@ == stop_reason_of(*r),
{
    match r {
        Some(s) => anthropic_stop_reason(s),
        None => "end_turn".to_owned(),
    }
}

pub open spec fn usage_json(prompt: int, completion: int) -> Seq<char> {
    object_text(
        no_members().push(("prompt_tokens"@, decimal(prompt as nat))).push(
            ("completion_tokens"@, decimal(completion as nat)),
        ).push(("total_tokens"@, decimal((prompt + completion) as nat))),
    )
}

/// A complete OpenAI response.
pub open spec fn completions_json(id: Seq<char>, a: ProviderAnswer) -> Seq<char> {
    object_text(
        no_members().push(("id"@, quoted(id))).push(
            ("object"@, quoted("chat.completion"@)),
        ).push(("model"@, quoted(a.model@))).push(
            (
                "choices"@,
                array_text(
                    seq![
                        object_text(
                            no_members().push(("index"@, decimal(0))).push(
                                (
                                    "message"@,
                                    object_text(
                                        no_members().push(("role"@, quoted("assistant"@)))
                                            + opt_member("content"@, Some(quoted(or_empty(a.text)))),
                                    ),
                                ),
                            ).push(("finish_reason"@, quoted(finish_reason_of(a.stop_reason)))),
                        ),
                    ],
                ),
            ),
        ).push(
            (
                "usage"@,
                usage_json(
                    token_count(a.usage.prompt_tokens),
                    token_count(a.usage.completion_tokens),
                ),
            ),
        ),
    )
}

/// The two counts of tokens have a sum of 64 bits.
pub open spec fn tokens_fit(u: ProviderUsage) -> bool {
    token_count(u.prompt_tokens) + token_count(u.completion_tokens) <= u64::MAX
}

/// Whether the two counts of tokens have a sum of 64 bits, as all counts do that are not negative.
pub fn usage_in_range(u: &ProviderUsage) -> (r: bool)
    ensures
        r == tokens_fit(*u),
{
    count_tokens(u.completion_tokens) <= u64::MAX - count_tokens(u.prompt_tokens)
}

/// The OpenAI response that holds an answer: one choice, a message of the assistant with the text of
/// the answer.
pub open spec fn gives_completion(x: CompletionsResponse, id: Seq<char>, a: ProviderAnswer) -> bool {
    &&& x.id@ == id
    &&& x.object@ == "chat.completion"@
    &&& x.model@ == a.model@
    &&& x.choices@.len() == 1
    &&& x.choices@[0].index == 0
    &&& x.choices@[0].message.role@ == "assistant"@
    &&& opt_view(x.choices@[0].message.content) == Some(or_empty(a.text))
    &&& x.choices@[0].finish_reason@ == finish_reason_of(a.stop_reason)
    &&& x.usage.prompt_tokens == token_count(a.usage.prompt_tokens)
    &&& x.usage.completion_tokens == token_count(a.usage.completion_tokens)
    &&& x.usage.total_tokens == x.usage.prompt_tokens + x.usage.completion_tokens
}

/// The OpenAI response for an answer.
pub fn completions_response(id: String, a: &ProviderAnswer) -> (r: String)
    requires
        tokens_fit(a.usage),
    ensures
        r@ == completions_json(id@, *a),
        exists|x: CompletionsResponse| r@ == #[trigger] x.json() && gives_completion(x, id@, *a),
{
    let ghost id_view = id@;
    let prompt_tokens: u64 = count_tokens(a.usage.prompt_tokens);
    let completion_tokens: u64 = count_tokens(a.usage.completion_tokens);
    let mut choices: Vec<CompletionsChoice> = Vec::new();
    choices.push(
        CompletionsChoice {
            index: 0,
            message: CompletionsResponseMessage {
                role: "assistant".to_owned(),
                content: Some(text_or_empty(&a.text)),
            },
            finish_reason: finish_reason(&a.stop_reason),
        },
    );
    assert(CompletionsChoice::all_json(choices@) =~= seq![choices@[0].json()]);
    let response = CompletionsResponse {
        id,
        object: "chat.completion".to_owned(),
        model: a.model.clone(),
        choices,
        usage: CompletionsUsage {
            prompt_tokens,
            completion_tokens,
            total_tokens: prompt_tokens + completion_tokens,
        },
    };
    assert(gives_completion(response, id_view, *a));
    response.to_json()
}

/// A text in the form of a random identifier: 36 characters, four of them hyphens, the others
/// lowercase hexadecimal digits, with the digit of the version.
pub open spec fn uuid_text(s: Seq<char>) -> bool {
    &&& s.len() == 36
    &&& s[14] == '4'
    &&& forall|i: int|
        0 <= i < 36 ==> if i == 8 || i == 13 || i == 18 || i == 23 {
            #[trigger] s[i] == '-'
        } else {
            '0' <= s[i] <= '9' || 'a' <= s[i] <= 'f'
        }
}

/// A random identifier, `uuid::Uuid::new_v4` in its hyphenated form.
#[verifier::external_body]
fn new_uuid() -> (r: String)
    ensures
        uuid_text(r@),
{
    uuid::Uuid::new_v4().to_string()
}

pub open spec fn provider_failure(message: Seq<char>) -> Seq<char> {
    "LLM provider error: "@ + message
}

/// Answers an OpenAI request that is no stream, under a fresh identifier.
pub fn handle_completions_sync(answer: Result<ProviderAnswer, String>) -> (r: HttpResponse)
    requires
        answer is Ok ==> tokens_fit(answer->Ok_0.usage),
    ensures
        match answer {
            Err(e) => r.is_json(502, openai_error("provider_error"@, provider_failure(e@))),
            Ok(a) => exists|u: Seq<char>|
                uuid_text(u) && r.is_json(200, #[trigger] completions_json("chatcmpl-"@ + u, a)),
        },
{
    match answer {
        Err(e) => {
            let message = cat2("LLM provider error: ", &e);
            error_response(502, "provider_error", &message)
        },
        Ok(a) => {
            let u = new_uuid();
            let id = cat2("chatcmpl-", &u);
            let body = completions_response(id, &a);
            assert(body@ == completions_json("chatcmpl-"@ + u@, a));
            HttpResponse::json(200, body)
        },
    }
}

/// An Anthropic message.
pub open spec fn message_json(
    id: Seq<char>,
    model: Seq<char>,
    blocks: Seq<Seq<char>>,
    reason: Seq<char>,
    input: int,
    output: int,
) -> Seq<char> {
    object_text(
        no_members().push(("id"@, quoted(id))).push(("type"@, quoted("message"@))).push(
            ("role"@, quoted("assistant"@)),
        ).push(("model"@, quoted(model))).push(("content"@, array_text(blocks))).push(
            ("stop_reason"@, quoted(reason)),
        ).push(("usage"@, responses_usage_json(input, output))),
    )
}

pub open spec fn responses_usage_json(input: int, output: int) -> Seq<char> {
    object_text(
        no_members().push(("input_tokens"@, decimal(input as nat))).push(
            ("output_tokens"@, decimal(output as nat)),
        ),
    )
}

/// A content block of text.
pub open spec fn text_block_json(text: Seq<char>) -> Seq<char> {
    object_text(
        no_members().push(("type"@, quoted("text"@))) + opt_member("text"@, Some(quoted(text)))
            + opt_member("id"@, None) + opt_member("name"@, None) + opt_member("input"@, None),
    )
}

fn text_block(text: String) -> (r: ResponsesContentBlock)
    ensures
        r.json() == text_block_json(text@),
        is_text_block(r, text@),
{
    ResponsesContentBlock {
        block_type: "text".to_owned(),
        text: Some(text),
        id: None,
        name: None,
        input: None,
    }
}

/// The Anthropic response for an answer.
pub open spec fn responses_json(id: Seq<char>, a: ProviderAnswer) -> Seq<char> {
    message_json(
        id,
        a.model@,
        seq![text_block_json(or_empty(a.text))],
        stop_reason_of(a.stop_reason),
        token_count(a.usage.prompt_tokens),
        token_count(a.usage.completion_tokens),
    )
}

/// The Anthropic response that holds an answer: one block of text, the text of the answer.
pub open spec fn gives_message(x: ResponsesResponse, id: Seq<char>, a: ProviderAnswer) -> bool {
    &&& x.id@ == id
    &&& x.response_type@ == "message"@
    &&& x.role@ == "assistant"@
    &&& x.model@ == a.model@
    &&& x.content@.len() == 1
    &&& is_text_block(x.content@[0], or_empty(a.text))
    &&& x.stop_reason@ == stop_reason_of(a.stop_reason)
    &&& x.usage.input_tokens == token_count(a.usage.prompt_tokens)
    &&& x.usage.output_tokens == token_count(a.usage.completion_tokens)
}

/// A block that holds a text and nothing else.
pub open spec fn is_text_block(b: ResponsesContentBlock, text: Seq<char>) -> bool {
    &&& b.block_type@ == "text"@
    &&& opt_view(b.text) == Some(text)
    &&& b.id is None
    &&& b.name is None
    &&& b.input is None
}

/// The Anthropic response for an answer.
pub fn responses_response(id: String, a: &ProviderAnswer) -> (r: String)
    ensures
        r@ == responses_json(id@, *a),
        exists|x: ResponsesResponse| r@ == #[trigger] x.json() && gives_message(x, id@, *a),
{
    let ghost id_view = id@;
    let mut content: Vec<ResponsesContentBlock> = Vec::new();
    content.push(text_block(text_or_empty(&a.text)));
    assert(ResponsesContentBlock::all_json(content@) =~= seq![content@[0].json()]);
    let response = ResponsesResponse {
        id,
        response_type: "message".to_owned(),
        role: "assistant".to_owned(),
        model: a.model.clone(),
        content,
        stop_reason: stop_reason(&a.stop_reason),
        usage: ResponsesUsage {
            input_tokens: count_tokens(a.usage.prompt_tokens),
            output_tokens: count_tokens(a.usage.completion_tokens),
        },
    };
    assert(gives_message(response, id_view, *a));
    response.to_json()
}

/// Answers an Anthropic request that is no stream, under a fresh identifier.
pub fn handle_responses_sync(answer: Result<ProviderAnswer, String>) -> (r: HttpResponse)
    ensures
        match answer {
            Err(e) => r.is_json(502, anthropic_error("provider_error"@, provider_failure(e@))),
            Ok(a) => exists|u: Seq<char>|
                uuid_text(u) && r.is_json(200, #[trigger] responses_json("msg_"@ + u, a)),
        },
{
    match answer {
        Err(e) => {
            let message = cat2("LLM provider error: ", &e);
            responses_error(502, "provider_error", &message)
        },
        Ok(a) => {
            let u = new_uuid();
            let id = cat2("msg_", &u);
            let body = responses_response(id, &a);
            assert(body@ == responses_json("msg_"@ + u@, a));
            HttpResponse::json(200, body)
        },
    }
}

// ---- Streams ----

/// A server-sent event without a type.
pub open spec fn sse_event(data: Seq<char>) -> Seq<char> {
    "data: "@ + data + "\n\n"@
}

/// A server-sent event of a type.
pub open spec fn sse_typed(event_type: Seq<char>, data: Seq<char>) -> Seq<char> {
    "event: "@ + event_type + "\ndata: "@ + data + "\n\n"@
}

/// Formats JSON text as a server-sent event.
pub fn format_sse_event(data: &str) -> (r: String)
    ensures
        r@ == sse_event(data@),
{
    cat3("data: ", data, "\n\n")
}

/// Formats JSON text as a server-sent event of a type.
pub fn format_sse_event_with_type(event_type: &str, data: &str) -> (r: String)
    ensures
        r@ == sse_typed(event_type@, data@),
{
    cat5("event: ", event_type, "\ndata: ", data, "\n\n")
}

/// The items before the stream fails or closes.
pub open spec fn live_items(items: Seq<StreamItem>) -> Seq<StreamItem>
    decreases items.len(),
{
    if items.len() == 0 {
        items
    } else if items[0] is Failed || items[0] is Closed {
        Seq::<StreamItem>::empty()
    } else {
        seq![items[0]] + live_items(items.drop_first())
    }
}

proof fn lemma_live_prefix(items: Seq<StreamItem>, i: int)
    requires
        0 <= i <= items.len(),
        forall|k: int| 0 <= k < i ==> !(#[trigger] items[k] is Failed || items[k] is Closed),
    ensures
        live_items(items) == items.take(i) + live_items(items.skip(i)),
    decreases i,
{
    if i == 0 {
        assert(items.skip(0) == items);
        assert(items.take(0) + live_items(items) =~= live_items(items));
    } else {
        lemma_live_prefix(items.drop_first(), i - 1);
        assert(items.drop_first().skip(i - 1) == items.skip(i));
        assert(seq![items[0]] + items.drop_first().take(i - 1) =~= items.take(i));
        assert(live_items(items) =~= items.take(i) + live_items(items.skip(i)));
    }
}

/// A chunk of an OpenAI stream.
pub open spec fn chunk_json(
    id: Seq<char>,
    model: Seq<char>,
    role: Option<Seq<char>>,
    content: Option<Seq<char>>,
    finish: Option<Seq<char>>,
) -> Seq<char> {
    object_text(
        no_members().push(("id"@, quoted(id))).push(
            ("object"@, quoted("chat.completion.chunk"@)),
        ).push(("model"@, quoted(model))).push(
            (
                "choices"@,
                array_text(
                    seq![
                        object_text(
                            no_members().push(("index"@, decimal(0))).push(
                                (
                                    "delta"@,
                                    object_text(
                                        no_members() + opt_member("role"@, opt_quoted(role))
                                            + opt_member("content"@, opt_quoted(content)),
                                    ),
                                ),
                            ) + opt_member("finish_reason"@, opt_quoted(finish)),
                        ),
                    ],
                ),
            ),
        ),
    )
}

fn chunk_text(
    id: &str,
    model: &str,
    role: Option<String>,
    content: Option<String>,
    finish_reason: Option<String>,
) -> (r: String)
    ensures
        r@ == sse_event(
            chunk_json(id@, model@, opt_view(role), opt_view(content), opt_view(finish_reason)),
        ),
{
    let mut choices: Vec<CompletionsChunkChoice> = Vec::new();
    choices.push(
        CompletionsChunkChoice {
            index: 0,
            delta: CompletionsChunkDelta { role, content },
            finish_reason,
        },
    );
    assert(CompletionsChunkChoice::all_json(choices@) =~= seq![choices@[0].json()]);
    let chunk = CompletionsChunk {
        id: id.to_owned(),
        object: "chat.completion.chunk".to_owned(),
        model: model.to_owned(),
        choices,
    };
    let data = chunk.to_json();
    format_sse_event(&data)
}

/// What an item adds to an OpenAI stream.
pub open spec fn completions_item(id: Seq<char>, model: Seq<char>, item: StreamItem) -> Seq<char> {
    match item {
        StreamItem::Chunk(t) => sse_event(chunk_json(id, model, None, Some(t@), None)),
        StreamItem::End(e) => sse_event(
            chunk_json(id, model, None, None, Some(finish_reason_of(e.stop_reason))),
        ),
        _ => Seq::<char>::empty(),
    }
}

/// The chunks of an OpenAI stream behind the first one.
pub open spec fn completions_items(id: Seq<char>, model: Seq<char>, items: Seq<StreamItem>) -> Seq<
    char,
>
    decreases items.len(),
{
    if items.len() == 0 {
        Seq::<char>::empty()
    } else {
        completions_items(id, model, items.drop_last()) + completions_item(id, model, items.last())
    }
}

/// An OpenAI stream: a chunk with the role, the chunks of the items before the stream fails or
/// closes, and the end mark.
pub open spec fn completions_stream_text(
    id: Seq<char>,
    model: Seq<char>,
    items: Seq<StreamItem>,
) -> Seq<char> {
    sse_event(chunk_json(id, model, Some("assistant"@), None, None)) + completions_items(
        id,
        model,
        live_items(items),
    ) + "data: [DONE]\n\n"@
}

/// Writes an OpenAI stream.
pub fn completions_stream(id: &str, model: &str, items: &Vec<StreamItem>) -> (r: String)
    ensures
        r@ == completions_stream_text(id@, model@, items@),
{
    let first = chunk_text(id, model, Some("assistant".to_owned()), None, None);
    let ghost head = first@;
    let mut out = first;
    let mut i: usize = 0;
    assert(items@.take(0) =~= Seq::<StreamItem>::empty());
    assert(out@ =~= head + completions_items(id@, model@, items@.take(0)));
    let mut stopped: bool = false;
    while i < items.len() && !stopped
        invariant
            i <= items@.len(),
            forall|k: int| 0 <= k < i ==> !(#[trigger] items@[k] is Failed || items@[k] is Closed),
            out@ == head + completions_items(id@, model@, items@.take(i as int)),
            stopped ==> i < items@.len() && (items@[i as int] is Failed || items@[i as int]
                is Closed),
        decreases items@.len() - i, if stopped { 0int } else { 1int },
    {
        assert(items@.take(i + 1).drop_last() == items@.take(i as int));
        assert(items@.take(i + 1).last() == items@[i as int]);
        let ghost before = completions_items(id@, model@, items@.take(i as int));
        match &items[i] {
            StreamItem::Chunk(t) => {
                let event = chunk_text(id, model, None, Some(t.clone()), None);
                out.append(&event);
                assert(out@ =~= head + (before + event@));
                i = i + 1;
            },
            StreamItem::End(e) => {
                let reason = finish_reason(&e.stop_reason);
                let event = chunk_text(id, model, None, None, Some(reason));
                out.append(&event);
                assert(out@ =~= head + (before + event@));
                i = i + 1;
            },
            StreamItem::Failed(_) => {
                stopped = true;
            },
            StreamItem::Closed => {
                stopped = true;
            },
            _ => {
                assert(before + Seq::<char>::empty() =~= before);
                i = i + 1;
            },
        }
    }
    proof {
        lemma_live_prefix(items@, i as int);
        assert(live_items(items@.skip(i as int)) =~= Seq::<StreamItem>::empty());
        assert(live_items(items@) =~= items@.take(i as int));
    }
    out.append("data: [DONE]\n\n");
    out
}

/// Answers an OpenAI request as a stream, under a fresh identifier; `started` is the model that
/// answers, or why none does.
pub fn handle_completions_streaming(started: Result<String, String>, items: &Vec<StreamItem>) -> (r:
    HttpResponse)
    ensures
        match started {
            Err(e) => r.is_json(502, openai_error("provider_error"@, provider_failure(e@))),
            Ok(model) => exists|u: Seq<char>|
                uuid_text(u) && r.is_stream(
                    #[trigger] completions_stream_text("chatcmpl-"@ + u, model@, items@),
                ),
        },
{
    match started {
        Err(e) => {
            let message = cat2("LLM provider error: ", &e);
            error_response(502, "provider_error", &message)
        },
        Ok(model) => {
            let u = new_uuid();
            let id = cat2("chatcmpl-", &u);
            let body = completions_stream(&id, &model, items);
            assert(body@ == completions_stream_text("chatcmpl-"@ + u@, model@, items@));
            HttpResponse::sse(body)
        },
    }
}

pub open spec fn message_start_event(id: Seq<char>, model: Seq<char>) -> Seq<char> {
    sse_typed(
        "message_start"@,
        object_text(
            no_members().push(("type"@, quoted("message_start"@))).push(
                (
                    "message"@,
                    message_json(id, model, Seq::<Seq<char>>::empty(), Seq::<char>::empty(), 0, 0),
                ),
            ),
        ),
    )
}

pub open spec fn block_start_event() -> Seq<char> {
    sse_typed(
        "content_block_start"@,
        object_text(
            no_members().push(("type"@, quoted("content_block_start"@))).push(
                ("index"@, decimal(0)),
            ).push(("content_block"@, text_block_json(Seq::<char>::empty()))),
        ),
    )
}

pub open spec fn block_delta_event(text: Seq<char>) -> Seq<char> {
    sse_typed(
        "content_block_delta"@,
        object_text(
            no_members().push(("type"@, quoted("content_block_delta"@))).push(
                ("index"@, decimal(0)),
            ).push(
                (
                    "delta"@,
                    object_text(
                        no_members().push(("type"@, quoted("text_delta"@))).push(
                            ("text"@, quoted(text)),
                        ),
                    ),
                ),
            ),
        ),
    )
}

pub open spec fn block_stop_event() -> Seq<char> {
    sse_typed(
        "content_block_stop"@,
        object_text(
            no_members().push(("type"@, quoted("content_block_stop"@))).push(
                ("index"@, decimal(0)),
            ),
        ),
    )
}

pub open spec fn message_delta_event(reason: Seq<char>, input: int, output: int) -> Seq<char> {
    sse_typed(
        "message_delta"@,
        object_text(
            no_members().push(("type"@, quoted("message_delta"@))).push(
                ("delta"@, object_text(no_members().push(("stop_reason"@, quoted(reason))))),
            ).push(("usage"@, responses_usage_json(input, output))),
        ),
    )
}

pub open spec fn message_stop_event() -> Seq<char> {
    sse_typed(
        "message_stop"@,
        object_text(no_members().push(("type"@, quoted("message_stop"@)))),
    )
}

pub open spec fn end_input(e: StreamEnd) -> int {
    match e.usage {
        Some(u) => token_count(u.prompt_tokens),
        None => 0,
    }
}

pub open spec fn end_output(e: StreamEnd) -> int {
    match e.usage {
        Some(u) => token_count(u.completion_tokens),
        None => 0,
    }
}

/// What an item adds to an Anthropic stream.
pub open spec fn responses_item(item: StreamItem) -> Seq<char> {
    match item {
        StreamItem::Chunk(t) => block_delta_event(t@),
        StreamItem::End(e) => block_stop_event() + message_delta_event(
            stop_reason_of(e.stop_reason),
            end_input(e),
            end_output(e),
        ) + message_stop_event(),
        _ => Seq::<char>::empty(),
    }
}

pub open spec fn responses_items(items: Seq<StreamItem>) -> Seq<char>
    decreases items.len(),
{
    if items.len() == 0 {
        Seq::<char>::empty()
    } else {
        responses_items(items.drop_last()) + responses_item(items.last())
    }
}

/// An Anthropic stream: the beginning of the message and of its block, and the events of the items
/// before the stream fails or closes.
pub open spec fn responses_stream_text(
    id: Seq<char>,
    model: Seq<char>,
    items: Seq<StreamItem>,
) -> Seq<char> {
    message_start_event(id, model) + block_start_event() + responses_items(live_items(items))
}

fn start_events(id: &str, model: &str) -> (r: String)
    ensures
        r@ == message_start_event(id@, model@) + block_start_event(),
{
    let content: Vec<ResponsesContentBlock> = Vec::new();
    assert(ResponsesContentBlock::all_json(content@) =~= Seq::<Seq<char>>::empty());
    let start = MessageStartEvent {
        event_type: "message_start".to_owned(),
        message: ResponsesResponse {
            id: id.to_owned(),
            response_type: "message".to_owned(),
            role: "assistant".to_owned(),
            model: model.to_owned(),
            content,
            stop_reason: String::new(),
            usage: ResponsesUsage { input_tokens: 0, output_tokens: 0 },
        },
    };
    let start_json = start.to_json();
    let mut out = format_sse_event_with_type("message_start", &start_json);
    let block = ContentBlockStartEvent {
        event_type: "content_block_start".to_owned(),
        index: 0,
        content_block: text_block(String::new()),
    };
    let block_json = block.to_json();
    let block_event = format_sse_event_with_type("content_block_start", &block_json);
    out.append(&block_event);
    out
}

fn delta_event(text: String) -> (r: String)
    ensures
        r@ == block_delta_event(text@),
{
    let event = ContentBlockDeltaEvent {
        event_type: "content_block_delta".to_owned(),
        index: 0,
        delta: TextDelta { delta_type: "text_delta".to_owned(), text },
    };
    let json = event.to_json();
    format_sse_event_with_type("content_block_delta", &json)
}

fn end_events(e: &StreamEnd) -> (r: String)
    ensures
        r@ == responses_item(StreamItem::End(*e)),
{
    let (input_tokens, output_tokens) = match &e.usage {
        Some(u) => (count_tokens(u.prompt_tokens), count_tokens(u.completion_tokens)),
        None => (0u64, 0u64),
    };
    let stop = ContentBlockStopEvent { event_type: "content_block_stop".to_owned(), index: 0 };
    let stop_json = stop.to_json();
    let mut out = format_sse_event_with_type("content_block_stop", &stop_json);
    let delta = MessageDeltaEvent {
        event_type: "message_delta".to_owned(),
        delta: MessageDelta { stop_reason: stop_reason(&e.stop_reason) },
        usage: ResponsesUsage { input_tokens, output_tokens },
    };
    let delta_json = delta.to_json();
    let delta_text = format_sse_event_with_type("message_delta", &delta_json);
    out.append(&delta_text);
    let end = MessageStopEvent { event_type: "message_stop".to_owned() };
    let end_json = end.to_json();
    let end_text = format_sse_event_with_type("message_stop", &end_json);
    out.append(&end_text);
    out
}

/// Writes an Anthropic stream.
pub fn responses_stream(id: &str, model: &str, items: &Vec<StreamItem>) -> (r: String)
    ensures
        r@ == responses_stream_text(id@, model@, items@),
{
    let mut out = start_events(id, model);
    let ghost head = out@;
    let mut i: usize = 0;
    assert(items@.take(0) =~= Seq::<StreamItem>::empty());
    assert(out@ =~= head + responses_items(items@.take(0)));
    let mut stopped: bool = false;
    while i < items.len() && !stopped
        invariant
            i <= items@.len(),
            forall|k: int| 0 <= k < i ==> !(#[trigger] items@[k] is Failed || items@[k] is Closed),
            out@ == head + responses_items(items@.take(i as int)),
            stopped ==> i < items@.len() && (items@[i as int] is Failed || items@[i as int]
                is Closed),
        decreases items@.len() - i, if stopped { 0int } else { 1int },
    {
        assert(items@.take(i + 1).drop_last() == items@.take(i as int));
        assert(items@.take(i + 1).last() == items@[i as int]);
        let ghost before = responses_items(items@.take(i as int));
        match &items[i] {
            StreamItem::Chunk(t) => {
                let event = delta_event(t.clone());
                out.append(&event);
                assert(out@ =~= head + (before + event@));
                i = i + 1;
            },
            StreamItem::End(e) => {
                let events = end_events(e);
                out.append(&events);
                assert(out@ =~= head + (before + events@));
                i = i + 1;
            },
            StreamItem::Failed(_) => {
                stopped = true;
            },
            StreamItem::Closed => {
                stopped = true;
            },
            _ => {
                assert(before + Seq::<char>::empty() =~= before);
                i = i + 1;
            },
        }
    }
    proof {
        lemma_live_prefix(items@, i as int);
        assert(live_items(items@.skip(i as int)) =~= Seq::<StreamItem>::empty());
        assert(live_items(items@) =~= items@.take(i as int));
    }
    out
}

/// Answers an Anthropic request as a stream, under a fresh identifier; `started` is the model that
/// answers, or why none does.
pub fn handle_responses_streaming(started: Result<String, String>, items: &Vec<StreamItem>) -> (r:
    HttpResponse)
    ensures
        match started {
            Err(e) => r.is_json(502, anthropic_error("provider_error"@, provider_failure(e@))),
            Ok(model) => exists|u: Seq<char>|
                uuid_text(u) && r.is_stream(
                    #[trigger] responses_stream_text("msg_"@ + u, model@, items@),
                ),
        },
{
    match started {
        Err(e) => {
            let message = cat2("LLM provider error: ", &e);
            responses_error(502, "provider_error", &message)
        },
        Ok(model) => {
            let u = new_uuid();
            let id = cat2("msg_", &u);
            let body = responses_stream(&id, &model, items);
            assert(body@ == responses_stream_text("msg_"@ + u@, model@, items@));
            HttpResponse::sse(body)
        },
    }
}

// ---- Laws ----

/// Every OpenAI stream begins with the chunk that names the role and ends with the end mark,
/// however the provider's stream went.
pub proof fn completions_stream_is_framed(id: Seq<char>, model: Seq<char>, items: Seq<StreamItem>)
    ensures
        sse_event(chunk_json(id, model, Some("assistant"@), None, None)).is_prefix_of(
            completions_stream_text(id, model, items),
        ),
        "data: [DONE]\n\n"@.is_suffix_of(completions_stream_text(id, model, items)),
{
    let first = sse_event(chunk_json(id, model, Some("assistant"@), None, None));
    let all = completions_stream_text(id, model, items);
    assert(all.subrange(0, first.len() as int) =~= first);
    assert(all.subrange(all.len() - "data: [DONE]\n\n"@.len(), all.len() as int)
        =~= "data: [DONE]\n\n"@);
}

/// Every Anthropic stream begins with the message and its block.
pub proof fn responses_stream_is_framed(id: Seq<char>, model: Seq<char>, items: Seq<StreamItem>)
    ensures
        (message_start_event(id, model) + block_start_event()).is_prefix_of(
            responses_stream_text(id, model, items),
        ),
{
    let first = message_start_event(id, model) + block_start_event();
    let all = responses_stream_text(id, model, items);
    assert(all.subrange(0, first.len() as int) =~= first);
}

proof fn lemma_live_stops(items: Seq<StreamItem>, more: Seq<StreamItem>, stop: StreamItem)
    requires
        stop is Failed || stop is Closed,
    ensures
        live_items(items + seq![stop] + more) == live_items(items),
    decreases items.len(),
{
    let all = items + seq![stop] + more;
    if items.len() == 0 {
        assert(all[0] == stop);
    } else {
        assert(all[0] == items[0]);
        if !(items[0] is Failed || items[0] is Closed) {
            lemma_live_stops(items.drop_first(), more, stop);
            assert(all.drop_first() =~= items.drop_first() + seq![stop] + more);
        }
    }
}

/// Nothing that comes behind a failure reaches the stream.
pub proof fn nothing_follows_a_failure(
    id: Seq<char>,
    model: Seq<char>,
    items: Seq<StreamItem>,
    message: String,
    more: Seq<StreamItem>,
)
    ensures
        completions_stream_text(id, model, items + seq![StreamItem::Failed(message)] + more)
            == completions_stream_text(id, model, items),
        responses_stream_text(id, model, items + seq![StreamItem::Failed(message)] + more)
            == responses_stream_text(id, model, items),
{
    lemma_live_stops(items, more, StreamItem::Failed(message));
}

/// What a request asks for goes before what is configured; the number of tokens of an Anthropic
/// request always does.
pub proof fn request_overrides_configuration<F>(
    c: LlmGatewayConfig<F>,
    q: CompletionsRequest<F>,
    p: ResponsesRequest<F>,
    capture: bool,
)
    ensures
        q.temperature is Some ==> completions_options(c, q, capture).temperature == q.temperature,
        q.top_p is Some ==> completions_options(c, q, capture).top_p == q.top_p,
        q.max_tokens is None ==> completions_options(c, q, capture).max_tokens == c.max_tokens,
        responses_options(c, p, capture).max_tokens == Some(low_bits(p.max_tokens)),
{
}

/// The number of tokens that a provider gave; none counts as nought.
pub open spec fn tokens_given(n: Option<i32>, count: u64) -> bool {
    match n {
        None => count == 0,
        Some(n) => n >= 0 ==> count == n,
    }
}

/// An Anthropic answer, read back: one block, of type text, with the text that the provider gave and
/// an empty one only where it gave none; the counts are the provider's. `x` is the response that
/// holds these, and `read` what `ResponsesResponse::from_json` makes of the body.
pub proof fn messages_read_back(
    id: Seq<char>,
    a: ProviderAnswer,
    x: ResponsesResponse,
    read: Option<ResponsesResponse>,
)
    requires
        x.id@ == id,
        x.response_type@ == "message"@,
        x.role@ == "assistant"@,
        x.model@ == a.model@,
        x.content@.len() == 1,
        x.content@[0].block_type@ == "text"@,
        x.content@[0].text is Some,
        x.content@[0].text->0@ == match a.text {
            Some(t) => t@,
            None => Seq::<char>::empty(),
        },
        x.content@[0].id is None && x.content@[0].name is None && x.content@[0].input is None,
        x.stop_reason@ == stop_reason_of(a.stop_reason),
        x.usage.input_tokens == token_count(a.usage.prompt_tokens),
        x.usage.output_tokens == token_count(a.usage.completion_tokens),
        forall|y: ResponsesResponse|
            y.canonical() && responses_json(id, a) == #[trigger] y.json() ==> read is Some
                && read->0.same(y),
    ensures
        responses_json(id, a) == x.json(),
        read is Some,
        read->0.id@ == id,
        read->0.role@ == "assistant"@,
        read->0.model@ == a.model@,
        read->0.content@.len() == 1,
        read->0.content@[0].block_type@ == "text"@,
        read->0.content@[0].text is Some,
        a.text is Some ==> read->0.content@[0].text->0@ == a.text->0@,
        a.text is None ==> read->0.content@[0].text->0@.len() == 0,
        tokens_given(a.usage.prompt_tokens, read->0.usage.input_tokens),
        tokens_given(a.usage.completion_tokens, read->0.usage.output_tokens),
{
    assert(ResponsesContentBlock::all_json(x.content@) =~= seq![x.content@[0].json()]);
    assert(x.canonical());
    assert(responses_json(id, a) == x.json());
    assert(read->0.content@[0].same(x.content@[0]));
}

/// Whatever response is written as the body of an answer, it holds the text, the model and the
/// counts that the provider gave.
pub proof fn messages_hold_the_answer(x: ResponsesResponse, id: Seq<char>, a: ProviderAnswer)
    requires
        gives_message(x, id, a),
    ensures
        x.id@ == id,
        x.response_type@ == "message"@ && x.role@ == "assistant"@,
        x.model@ == a.model@,
        x.content@.len() == 1,
        x.content@[0].block_type@ == "text"@,
        x.content@[0].text is Some,
        a.text is Some ==> x.content@[0].text->0@ == a.text->0@,
        a.text is None ==> x.content@[0].text->0@.len() == 0,
        tokens_given(a.usage.prompt_tokens, x.usage.input_tokens),
        tokens_given(a.usage.completion_tokens, x.usage.output_tokens),
        a.stop_reason is None ==> x.stop_reason@ == "end_turn"@,
        a.stop_reason is Some ==> x.stop_reason@ == anthropic_reason(a.stop_reason->0),
{
}

/// An OpenAI answer, read back: one choice, a message of the assistant with the text that the
/// provider gave; the counts are the provider's, and the total is their sum.
pub proof fn completions_read_back(
    id: Seq<char>,
    a: ProviderAnswer,
    x: CompletionsResponse,
    read: Option<CompletionsResponse>,
)
    requires
        x.id@ == id,
        x.object@ == "chat.completion"@,
        x.model@ == a.model@,
        x.choices@.len() == 1,
        x.choices@[0].index == 0,
        x.choices@[0].message.role@ == "assistant"@,
        x.choices@[0].message.content is Some,
        x.choices@[0].message.content->0@ == match a.text {
            Some(t) => t@,
            None => Seq::<char>::empty(),
        },
        x.choices@[0].finish_reason@ == finish_reason_of(a.stop_reason),
        x.usage.prompt_tokens == token_count(a.usage.prompt_tokens),
        x.usage.completion_tokens == token_count(a.usage.completion_tokens),
        x.usage.total_tokens == x.usage.prompt_tokens + x.usage.completion_tokens,
        forall|y: CompletionsResponse|
            y.canonical() && completions_json(id, a) == #[trigger] y.json() ==> read is Some
                && read->0.same(y),
    ensures
        completions_json(id, a) == x.json(),
        read is Some,
        read->0.id@ == id,
        read->0.model@ == a.model@,
        read->0.choices@.len() == 1,
        read->0.choices@[0].message.role@ == "assistant"@,
        read->0.choices@[0].message.content is Some,
        a.text is Some ==> read->0.choices@[0].message.content->0@ == a.text->0@,
        a.text is None ==> read->0.choices@[0].message.content->0@.len() == 0,
        tokens_given(a.usage.prompt_tokens, read->0.usage.prompt_tokens),
        tokens_given(a.usage.completion_tokens, read->0.usage.completion_tokens),
        read->0.usage.total_tokens == read->0.usage.prompt_tokens
            + read->0.usage.completion_tokens,
{
    assert(CompletionsChoice::all_json(x.choices@) =~= seq![x.choices@[0].json()]);
    assert(x.canonical());
    assert(completions_json(id, a) == x.json());
    assert(read->0.choices@[0].same(x.choices@[0]));
}

/// Whatever response is written as the body of an answer, it holds the text, the model and the
/// counts that the provider gave.
pub proof fn completions_hold_the_answer(x: CompletionsResponse, id: Seq<char>, a: ProviderAnswer)
    requires
        gives_completion(x, id, a),
    ensures
        x.id@ == id,
        x.object@ == "chat.completion"@,
        x.model@ == a.model@,
        x.choices@.len() == 1 && x.choices@[0].index == 0,
        x.choices@[0].message.role@ == "assistant"@,
        x.choices@[0].message.content is Some,
        a.text is Some ==> x.choices@[0].message.content->0@ == a.text->0@,
        a.text is None ==> x.choices@[0].message.content->0@.len() == 0,
        tokens_given(a.usage.prompt_tokens, x.usage.prompt_tokens),
        tokens_given(a.usage.completion_tokens, x.usage.completion_tokens),
        x.usage.total_tokens == x.usage.prompt_tokens + x.usage.completion_tokens,
        a.stop_reason is None ==> x.choices@[0].finish_reason@ == "stop"@,
        a.stop_reason is Some ==> x.choices@[0].finish_reason@ == raw_reason(a.stop_reason->0),
{
}

/// Why an answer ended, in the words of each format: OpenAI clients get the provider's own word,
/// Anthropic clients the word of their format, and an answer without a reason has ended by itself.
pub proof fn reasons_in_their_format(r: StopReason)
    ensures
        match r {
            StopReason::Completed(s) => raw_reason(r) == s@ && anthropic_reason(r) == "end_turn"@,
            StopReason::MaxTokens(s) => raw_reason(r) == s@ && anthropic_reason(r) == "max_tokens"@,
            StopReason::ToolCall(s) => raw_reason(r) == s@ && anthropic_reason(r) == "tool_use"@,
            StopReason::ContentFilter(s) => raw_reason(r) == s@ && anthropic_reason(r) == "end_turn"@,
            StopReason::StopSequence(s) => raw_reason(r) == s@ && anthropic_reason(r)
                == "stop_sequence"@,
            StopReason::Other(s) => raw_reason(r) == s@ && anthropic_reason(r) == s@,
        },
        finish_reason_of(Some(r)) == raw_reason(r) && finish_reason_of(None) == "stop"@,
        stop_reason_of(Some(r)) == anthropic_reason(r) && stop_reason_of(None) == "end_turn"@,
{
}

/// The texts of a content are the strings under `text` in its blocks, in order; blocks without one
/// are passed over.
pub proof fn blocks_give_their_texts(items: Seq<Seq<char>>, more: Seq<char>, s: Seq<char>)
    ensures
        says_text(value_of(more), "text"@, s) ==> block_texts(items.push(more)) == block_texts(
            items,
        ).push(s),
        (forall|t: Seq<char>| !#[trigger] says_text(value_of(more), "text"@, t)) ==> block_texts(
            items.push(more),
        ) == block_texts(items),
        block_texts(Seq::<Seq<char>>::empty()).len() == 0,
{
    assert(items.push(more).drop_last() =~= items);
    strings_are_found_by_their_key(value_of(more), "text"@);
    if text_member(value_of(more), "text"@) is Some {
        assert(says_text(value_of(more), "text"@, text_member(value_of(more), "text"@)->0));
    }
}

/// The text of a message is the string it is, or the texts of its blocks with nothing between them;
/// the system prompt has a line end between them, and is none where there is no text.
pub proof fn contents_are_their_texts(s: Seq<char>, items: Seq<Seq<char>>, c: JsonView)
    ensures
        content_text(JsonView::Text(s)) == s,
        content_text(JsonView::Array(items)) == joined(block_texts(items), ""@),
        !(c is Text) && !(c is Array) ==> content_text(c).len() == 0,
        system_text(JsonView::Text(s)) == Some(s),
        block_texts(items).len() > 0 ==> system_text(JsonView::Array(items)) == Some(
            joined(block_texts(items), "\n"@),
        ),
        block_texts(items).len() == 0 ==> system_text(JsonView::Array(items)) is None,
        !(c is Text) && !(c is Array) ==> system_text(c) is None,
{
}

/// What a request leaves out is as configured; a streaming request also captures what it used and
/// said, another does not.
pub proof fn configuration_fills_requests<F>(
    c: LlmGatewayConfig<F>,
    q: CompletionsRequest<F>,
    p: ResponsesRequest<F>,
    capture: bool,
)
    ensures
        q.temperature is None ==> completions_options(c, q, capture).temperature == c.temperature,
        q.top_p is None ==> completions_options(c, q, capture).top_p == c.top_p,
        q.max_tokens is Some && q.max_tokens->0 <= 0xffff_ffff ==> completions_options(
            c,
            q,
            capture,
        ).max_tokens is Some && completions_options(c, q, capture).max_tokens->0 == q.max_tokens->0,
        completions_options(c, q, capture).capture_usage == capture,
        completions_options(c, q, capture).capture_content == capture,
        p.temperature is Some ==> responses_options(c, p, capture).temperature == p.temperature,
        p.temperature is None ==> responses_options(c, p, capture).temperature == c.temperature,
        p.top_p is Some ==> responses_options(c, p, capture).top_p == p.top_p,
        p.top_p is None ==> responses_options(c, p, capture).top_p == c.top_p,
        responses_options(c, p, capture).max_tokens is Some,
        p.max_tokens <= 0xffff_ffff ==> responses_options(c, p, capture).max_tokens->0 == p.max_tokens,
        responses_options(c, p, capture).capture_usage == capture,
        responses_options(c, p, capture).capture_content == capture,
        wants_stream(q.stream) <==> q.stream is Some && q.stream->0,
{
}

/// The preset prompts come first, in order, each under its own role.
pub proof fn presets_keep_their_place(r: Seq<ProviderMessage>, prompts: Seq<PresetPrompt>, i: int)
    requires
        presets_first(r, prompts),
        0 <= i < prompts.len(),
    ensures
        r.len() >= prompts.len(),
        r[i].parts@.len() == 1,
        match r[i].parts@[0] {
            crate::llm_gateway_provider::ProviderPart::Text(t) => t@ == prompts[i].content@,
            _ => false,
        },
        prompts[i].role@ == "system"@ ==> r[i].role
            == crate::llm_gateway_provider::ProviderRole::System,
        prompts[i].role@ == "assistant"@ ==> r[i].role
            == crate::llm_gateway_provider::ProviderRole::Assistant,
        prompts[i].role@ != "system"@ && prompts[i].role@ != "assistant"@ ==> r[i].role
            == crate::llm_gateway_provider::ProviderRole::User,
{
    assert(is_text_message(r[i], text_role(role_named(prompts[i].role@)), prompts[i].content@));
    reveal_strlit("system");
    reveal_strlit("assistant");
    assert("system"@.len() != "assistant"@.len());
}

/// An error in the OpenAI format is that of its code and message, as an invalid request.
pub proof fn openai_errors_say_why(x: CompletionsError, code: Seq<char>, message: Seq<char>)
    requires
        opt_view(x.error.code) == Some(code),
        opt_view(x.error.message) == Some(message),
        x.error.param is None,
        opt_view(x.error.error_type) == Some("invalid_request_error"@),
    ensures
        openai_error(code, message) == x.json(),
{
}

/// An error in the Anthropic format is that of its type and message.
pub proof fn anthropic_errors_say_why(x: ResponsesError, error_type: Seq<char>, message: Seq<char>)
    requires
        x.error.error_type@ == error_type,
        opt_view(x.error.message) == Some(message),
    ensures
        anthropic_error(error_type, message) == x.json(),
{
}

/// What a provider failed with is told in its own words.
pub proof fn provider_failures_are_quoted(message: Seq<char>)
    ensures
        provider_failure(message) == "LLM provider error: "@ + message,
{
}

/// A server-sent event: its type on a line, where it has one, its data on a line, and an empty line.
pub proof fn events_are_framed(event_type: Seq<char>, data: Seq<char>)
    ensures
        sse_event(data) == "data: "@ + data + "\n\n"@,
        sse_typed(event_type, data) == "event: "@ + event_type + "\n"@ + sse_event(data),
{
    reveal_strlit("\ndata: ");
    reveal_strlit("data: ");
    reveal_strlit("\n");
    assert("\ndata: "@ =~= "\n"@ + "data: "@);
    assert(sse_typed(event_type, data) =~= "event: "@ + event_type + "\n"@ + sse_event(data));
}

/// What reaches a stream is what came before the first failure or the end of the provider's stream.
pub proof fn live_items_come_before_the_end(items: Seq<StreamItem>) -> (n: int)
    ensures
        0 <= n <= items.len(),
        live_items(items) == items.take(n),
        forall|i: int| 0 <= i < n ==> !(#[trigger] items[i] is Failed) && !(items[i] is Closed),
        n < items.len() ==> items[n] is Failed || items[n] is Closed,
    decreases items.len(),
{
    if items.len() == 0 {
        assert(items.take(0) =~= items);
        0
    } else if items[0] is Failed || items[0] is Closed {
        assert(items.take(0) =~= Seq::<StreamItem>::empty());
        0
    } else {
        let d = items.drop_first();
        let n = live_items_come_before_the_end(d);
        assert(items.take(n + 1) =~= seq![items[0]] + d.take(n));
        assert forall|i: int| 0 <= i < n + 1 implies !(#[trigger] items[i] is Failed) && !(items[i]
            is Closed) by {
            if i > 0 {
                assert(d[i - 1] == items[i]);
            }
        }
        if n < d.len() {
            assert(d[n] == items[n + 1]);
        }
        n + 1
    }
}

/// A chunk of an OpenAI stream is the JSON of a chunk with one choice and these parts.
pub proof fn chunks_hold_their_parts(x: CompletionsChunk, finish: Option<Seq<char>>)
    requires
        x.object@ == "chat.completion.chunk"@,
        x.choices@.len() == 1,
        x.choices@[0].index == 0,
        opt_view(x.choices@[0].finish_reason) == finish,
    ensures
        x.json() == chunk_json(
            x.id@,
            x.model@,
            opt_view(x.choices@[0].delta.role),
            opt_view(x.choices@[0].delta.content),
            finish,
        ),
{
    assert(CompletionsChunkChoice::all_json(x.choices@) =~= seq![x.choices@[0].json()]);
}

/// Each text of the provider is passed on to OpenAI clients as one chunk with that text, in order,
/// and its end as one with the reason; nothing else is.
pub proof fn completions_streams_pass_on_texts(
    id: Seq<char>,
    model: Seq<char>,
    items: Seq<StreamItem>,
    t: String,
    e: StreamEnd,
)
    ensures
        completions_items(id, model, items.push(StreamItem::Chunk(t))) == completions_items(
            id,
            model,
            items,
        ) + "data: "@ + chunk_json(id, model, None, Some(t@), None) + "\n\n"@,
        completions_items(id, model, items.push(StreamItem::End(e))) == completions_items(
            id,
            model,
            items,
        ) + "data: "@ + chunk_json(
            id,
            model,
            None,
            None,
            Some(
                match e.stop_reason {
                    Some(r) => raw_reason(r),
                    None => "stop"@,
                },
            ),
        ) + "\n\n"@,
        completions_items(id, model, items.push(StreamItem::Start)) == completions_items(
            id,
            model,
            items,
        ),
        completions_items(id, model, items.push(StreamItem::Other)) == completions_items(
            id,
            model,
            items,
        ),
        completions_items(id, model, Seq::<StreamItem>::empty()).len() == 0,
{
    let before = completions_items(id, model, items);
    assert(items.push(StreamItem::Chunk(t)).drop_last() =~= items);
    assert(items.push(StreamItem::End(e)).drop_last() =~= items);
    assert(items.push(StreamItem::Start).drop_last() =~= items);
    assert(items.push(StreamItem::Other).drop_last() =~= items);
    let c = chunk_json(id, model, None, Some(t@), None);
    assert(before + sse_event(c) =~= before + "data: "@ + c + "\n\n"@);
    let d = chunk_json(id, model, None, None, Some(finish_reason_of(e.stop_reason)));
    assert(before + sse_event(d) =~= before + "data: "@ + d + "\n\n"@);
    assert(before + Seq::<char>::empty() =~= before);
}

/// Each text of the provider is passed on to Anthropic clients as one delta with that text, in
/// order, and its end as the end of the block, of the message and of the stream; nothing else is.
pub proof fn responses_streams_pass_on_texts(items: Seq<StreamItem>, t: String, e: StreamEnd)
    ensures
        responses_items(items.push(StreamItem::Chunk(t))) == responses_items(items)
            + block_delta_event(t@),
        responses_items(items.push(StreamItem::End(e))) == responses_items(items)
            + block_stop_event() + message_delta_event(
            match e.stop_reason {
                Some(r) => anthropic_reason(r),
                None => "end_turn"@,
            },
            match e.usage {
                Some(u) => token_count(u.prompt_tokens),
                None => 0,
            },
            match e.usage {
                Some(u) => token_count(u.completion_tokens),
                None => 0,
            },
        ) + message_stop_event(),
        responses_items(items.push(StreamItem::Start)) == responses_items(items),
        responses_items(items.push(StreamItem::Other)) == responses_items(items),
        responses_items(Seq::<StreamItem>::empty()).len() == 0,
{
    let before = responses_items(items);
    assert(items.push(StreamItem::Chunk(t)).drop_last() =~= items);
    assert(items.push(StreamItem::End(e)).drop_last() =~= items);
    assert(items.push(StreamItem::Start).drop_last() =~= items);
    assert(items.push(StreamItem::Other).drop_last() =~= items);
    let stop = message_delta_event(stop_reason_of(e.stop_reason), end_input(e), end_output(e));
    assert(before + (block_stop_event() + stop + message_stop_event()) =~= before
        + block_stop_event() + stop + message_stop_event());
    assert(before + Seq::<char>::empty() =~= before);
}

/// A text delta is the JSON of an event that adds that text to the first block.
pub proof fn deltas_hold_their_text(x: ContentBlockDeltaEvent, text: Seq<char>)
    requires
        x.event_type@ == "content_block_delta"@,
        x.index == 0,
        x.delta.delta_type@ == "text_delta"@,
        x.delta.text@ == text,
    ensures
        block_delta_event(text) == "event: content_block_delta\ndata: "@ + x.json() + "\n\n"@,
{
    reveal_strlit("event: content_block_delta\ndata: ");
    reveal_strlit("event: ");
    reveal_strlit("content_block_delta");
    reveal_strlit("\ndata: ");
    assert("event: content_block_delta\ndata: "@ =~= "event: "@ + "content_block_delta"@
        + "\ndata: "@);
}

/// The start of a message is the JSON of an event with an empty message of the assistant, without
/// blocks and without use.
pub proof fn messages_start_empty(x: MessageStartEvent)
    requires
        x.event_type@ == "message_start"@,
        x.message.response_type@ == "message"@,
        x.message.role@ == "assistant"@,
        x.message.content@.len() == 0,
        x.message.stop_reason@.len() == 0,
        x.message.usage.input_tokens == 0 && x.message.usage.output_tokens == 0,
    ensures
        message_start_event(x.message.id@, x.message.model@) == "event: message_start\ndata: "@
            + x.json() + "\n\n"@,
{
    assert(ResponsesContentBlock::all_json(x.message.content@) =~= Seq::<Seq<char>>::empty());
    assert(x.message.stop_reason@ =~= Seq::<char>::empty());
    reveal_strlit("event: message_start\ndata: ");
    reveal_strlit("event: ");
    reveal_strlit("message_start");
    reveal_strlit("\ndata: ");
    assert("event: message_start\ndata: "@ =~= "event: "@ + "message_start"@ + "\ndata: "@);
}

/// The start of a block is the JSON of an event with an empty text as the first block.
pub proof fn blocks_start_empty(x: ContentBlockStartEvent)
    requires
        x.event_type@ == "content_block_start"@,
        x.index == 0,
        x.content_block.block_type@ == "text"@,
        x.content_block.text is Some && x.content_block.text->0@.len() == 0,
        x.content_block.id is None && x.content_block.name is None && x.content_block.input is None,
    ensures
        block_start_event() == "event: content_block_start\ndata: "@ + x.json() + "\n\n"@,
{
    assert(x.content_block.text->0@ =~= Seq::<char>::empty());
    reveal_strlit("event: content_block_start\ndata: ");
    reveal_strlit("event: ");
    reveal_strlit("content_block_start");
    reveal_strlit("\ndata: ");
    assert("event: content_block_start\ndata: "@ =~= "event: "@ + "content_block_start"@
        + "\ndata: "@);
}

/// The end of a stream is told by the end of the block, then why the message ended and what it
/// used, then the end of the message.
pub proof fn ends_hold_their_reason(
    stop: ContentBlockStopEvent,
    delta: MessageDeltaEvent,
    last: MessageStopEvent,
)
    requires
        stop.event_type@ == "content_block_stop"@ && stop.index == 0,
        delta.event_type@ == "message_delta"@,
        last.event_type@ == "message_stop"@,
    ensures
        block_stop_event() == "event: content_block_stop\ndata: "@ + stop.json() + "\n\n"@,
        message_delta_event(
            delta.delta.stop_reason@,
            delta.usage.input_tokens as int,
            delta.usage.output_tokens as int,
        ) == "event: message_delta\ndata: "@ + delta.json() + "\n\n"@,
        message_stop_event() == "event: message_stop\ndata: "@ + last.json() + "\n\n"@,
{
    reveal_strlit("event: content_block_stop\ndata: ");
    reveal_strlit("event: message_delta\ndata: ");
    reveal_strlit("event: message_stop\ndata: ");
    reveal_strlit("event: ");
    reveal_strlit("content_block_stop");
    reveal_strlit("message_delta");
    reveal_strlit("message_stop");
    reveal_strlit("\ndata: ");
    assert("event: content_block_stop\ndata: "@ =~= "event: "@ + "content_block_stop"@
        + "\ndata: "@);
    assert("event: message_delta\ndata: "@ =~= "event: "@ + "message_delta"@ + "\ndata: "@);
    assert("event: message_stop\ndata: "@ =~= "event: "@ + "message_stop"@ + "\ndata: "@);
}

/// A whole stream: its start, what the provider gave before it failed or ended, and, for OpenAI
/// clients, the end mark.
pub proof fn streams_are_start_middle_and_end(id: Seq<char>, model: Seq<char>, items: Seq<StreamItem>)
    ensures
        completions_stream_text(id, model, items) == "data: "@ + chunk_json(
            id,
            model,
            Some("assistant"@),
            None,
            None,
        ) + "\n\n"@ + completions_items(id, model, live_items(items)) + "data: [DONE]\n\n"@,
        responses_stream_text(id, model, items) == message_start_event(id, model)
            + block_start_event() + responses_items(live_items(items)),
{
}

/// An identifier is 36 characters in five groups, of the version for random ones.
pub proof fn identifiers_have_five_groups(s: Seq<char>)
    requires
        uuid_text(s),
    ensures
        s.len() == 36,
        s[8] == '-' && s[13] == '-' && s[18] == '-' && s[23] == '-',
        s[14] == '4',
        forall|i: int|
            0 <= i < 36 && i != 8 && i != 13 && i != 18 && i != 23 ==> ('0' <= #[trigger] s[i] <= '9'
                || 'a' <= s[i] <= 'f'),
{
}

/// Only POST is answered, and only at the two addresses, each in its own format; anything else is
/// refused by its status.
pub proof fn requests_are_routed(path: &str, method: &str, r: Route)
    requires
        call_ensures(handle_http_request, (path, method), r),
    ensures
        r is Completions <==> method@ == "POST"@ && path@ == "/v1/chat/completions"@,
        r is Messages <==> method@ == "POST"@ && path@ == "/v1/messages"@,
        match r {
            Route::Refused(p) => {
                &&& !p.is_sse && p.content_type@ == "application/json"@
                &&& method@ != "POST"@ ==> p.status == 405
                &&& method@ == "POST"@ ==> p.status == 404
            },
            _ => true,
        },
{
    reveal_strlit("/v1/chat/completions");
    reveal_strlit("/v1/messages");
    assert("/v1/chat/completions"@.len() != "/v1/messages"@.len());
}

/// A response is what it was made of, as JSON or as a stream of events.
pub proof fn responses_are_what_they_are_made_of(
    status: u16,
    body: String,
    a: HttpResponse,
    b: HttpResponse,
    text: Seq<char>,
)
    requires
        call_ensures(HttpResponse::json, (status, body), a),
        call_ensures(HttpResponse::sse, (body,), b),
    ensures
        a.status == status && a.body@ == body@ && a.content_type@ == "application/json"@ && !a.is_sse,
        b.status == 200 && b.body@ == body@ && b.content_type@ == "text/event-stream"@ && b.is_sse,
        a.is_json(status, text) <==> text == body@,
        b.is_stream(text) <==> text == body@,
{
}

/// An error has its status and the body of its format.
pub proof fn errors_have_their_status(
    status: u16,
    code: &str,
    message: &str,
    a: HttpResponse,
    b: HttpResponse,
)
    requires
        call_ensures(error_response, (status, code, message), a),
        call_ensures(responses_error, (status, code, message), b),
    ensures
        a.status == status && b.status == status,
        a.body@ == openai_error(code@, message@),
        b.body@ == anthropic_error(code@, message@),
        !a.is_sse && !b.is_sse,
{
}

/// A chat request that can be read and has messages goes to the provider with its own model and all
/// its messages, behind the preset ones; any other is refused as a bad request.
pub proof fn chat_requests_go_to_the_provider<F: Copy>(
    parsed: Result<CompletionsRequest<F>, String>,
    config: &LlmGatewayConfig<F>,
    r: HandlerStep<F>,
    i: int,
)
    requires
        call_ensures(handle_completions::<F>, (parsed, config), r),
    ensures
        match r {
            HandlerStep::Respond(p) => p.status == 400 && (parsed is Err
                || parsed->Ok_0.messages@.len() == 0),
            HandlerStep::Ask(p) => {
                let n = config.system_prompts@.len();
                &&& parsed is Ok && parsed->Ok_0.messages@.len() > 0
                &&& p.model@ == parsed->Ok_0.model@
                &&& p.system is None
                &&& p.stream <==> parsed->Ok_0.stream == Some(true)
                &&& p.messages@.len() == n + parsed->Ok_0.messages@.len()
                &&& 0 <= i < parsed->Ok_0.messages@.len() ==> {
                    let m = p.messages@[n + i];
                    &&& m.parts@.len() == 1 && m.parts@[0] is Text
                    &&& parsed->Ok_0.messages@[i].content is Some ==> m.parts@[0]->Text_0@
                        == parsed->Ok_0.messages@[i].content->0@
                    &&& parsed->Ok_0.messages@[i].content is None ==> m.parts@[0]->Text_0@.len() == 0
                    &&& m.role == text_role(role_named(parsed->Ok_0.messages@[i].role@))
                }
                &&& p.options.temperature == either(parsed->Ok_0.temperature, config.temperature)
                &&& p.options.top_p == either(parsed->Ok_0.top_p, config.top_p)
                &&& p.options.capture_usage == p.stream && p.options.capture_content == p.stream
            },
        },
{
    match r {
        HandlerStep::Ask(p) => {
            let n = config.system_prompts@.len();
            if 0 <= i < parsed->Ok_0.messages@.len() {
                assert(is_text_message(
                    p.messages@[n + i],
                    text_role(role_named(parsed->Ok_0.messages@[n + i - n].role@)),
                    or_empty(parsed->Ok_0.messages@[n + i - n].content),
                ));
            }
        },
        _ => {},
    }
}

/// A messages request that can be read and has messages goes to the provider with its own model, its
/// system prompt and all its messages, behind the preset ones; any other is refused as a bad request.
pub proof fn message_requests_go_to_the_provider<F: Copy>(
    parsed: Result<ResponsesRequest<F>, String>,
    config: &LlmGatewayConfig<F>,
    r: HandlerStep<F>,
    i: int,
)
    requires
        call_ensures(handle_responses::<F>, (parsed, config), r),
    ensures
        match r {
            HandlerStep::Respond(p) => p.status == 400 && (parsed is Err
                || parsed->Ok_0.messages@.len() == 0),
            HandlerStep::Ask(p) => {
                let n = config.system_prompts@.len();
                &&& parsed is Ok && parsed->Ok_0.messages@.len() > 0
                &&& p.model@ == parsed->Ok_0.model@
                &&& parsed->Ok_0.system is None ==> p.system is None
                &&& parsed->Ok_0.system is Some ==> opt_view(p.system) == system_text(
                    value_of(parsed->Ok_0.system->0@),
                )
                &&& p.stream <==> parsed->Ok_0.stream == Some(true)
                &&& p.messages@.len() == n + parsed->Ok_0.messages@.len()
                &&& 0 <= i < parsed->Ok_0.messages@.len() ==> {
                    let m = p.messages@[n + i];
                    &&& m.parts@.len() == 1 && m.parts@[0] is Text
                    &&& m.parts@[0]->Text_0@ == content_text(
                        value_of(parsed->Ok_0.messages@[i].content@),
                    )
                    &&& m.role == text_role(role_named(parsed->Ok_0.messages@[i].role@))
                }
                &&& p.options.temperature == either(parsed->Ok_0.temperature, config.temperature)
                &&& p.options.top_p == either(parsed->Ok_0.top_p, config.top_p)
                &&& p.options.capture_usage == p.stream && p.options.capture_content == p.stream
            },
        },
{
    match r {
        HandlerStep::Ask(p) => {
            let n = config.system_prompts@.len();
            if 0 <= i < parsed->Ok_0.messages@.len() {
                assert(is_text_message(
                    p.messages@[n + i],
                    text_role(role_named(parsed->Ok_0.messages@[n + i - n].role@)),
                    content_text(value_of(parsed->Ok_0.messages@[n + i - n].content@)),
                ));
            }
        },
        _ => {},
    }
}

/// A provider that fails is a bad gateway, in the words of the provider; one that answers is answered
/// with.
pub proof fn answers_go_back(
    answer: Result<ProviderAnswer, String>,
    a: HttpResponse,
    b: HttpResponse,
)
    requires
        call_ensures(handle_completions_sync, (answer,), a),
        call_ensures(handle_responses_sync, (answer,), b),
    ensures
        answer is Err ==> a.status == 502 && b.status == 502 && a.body@ == openai_error(
            "provider_error"@,
            "LLM provider error: "@ + answer->Err_0@,
        ) && b.body@ == anthropic_error(
            "provider_error"@,
            "LLM provider error: "@ + answer->Err_0@,
        ),
        answer is Ok ==> a.status == 200 && b.status == 200 && (exists|id: Seq<char>| #[trigger]
            completions_json(id, answer->Ok_0) == a.body@) && (exists|id: Seq<char>| #[trigger]
            responses_json(id, answer->Ok_0) == b.body@),
{
}

/// A stream that cannot start is a bad gateway; one that does is a stream of events.
pub proof fn streams_go_back(
    started: Result<String, String>,
    items: &Vec<StreamItem>,
    a: HttpResponse,
    b: HttpResponse,
)
    requires
        call_ensures(handle_completions_streaming, (started, items), a),
        call_ensures(handle_responses_streaming, (started, items), b),
    ensures
        started is Err ==> a.status == 502 && b.status == 502 && !a.is_sse && !b.is_sse,
        started is Ok ==> a.status == 200 && b.status == 200 && a.is_sse && b.is_sse && a.content_type@
            == "text/event-stream"@ && b.content_type@ == "text/event-stream"@,
        started is Ok ==> (exists|id: Seq<char>| #[trigger]
            completions_stream_text(id, started->Ok_0@, items@) == a.body@) && (exists|id: Seq<char>|
            #[trigger] responses_stream_text(id, started->Ok_0@, items@) == b.body@),
{
}

/// An answer can be counted where its two counts together fit in 64 bits, up to the greatest number.
pub proof fn counts_fit_in_their_sum(u: ProviderUsage)
    ensures
        tokens_fit(u) <==> token_count(u.prompt_tokens) + token_count(u.completion_tokens)
            < 0x1_0000_0000_0000_0000,
        (u.prompt_tokens is None || u.prompt_tokens->0 >= 0) && (u.completion_tokens is None
            || u.completion_tokens->0 >= 0) ==> tokens_fit(u),
{
}

} // verus!
