//! The LLM gateway: configuration, the requests that go to a provider, and what the guest is told.
//!
//! `F` stands for the numbers of the sampling settings, which the library only passes on.
use vstd::prelude::*;
use crate::json::{as_record, get_text, json_of, key_views, parse_json, record, says_text, strings_are_found_by_their_key, text_member, Json, JsonView};
use crate::record::{read_shape, shape_of};
use crate::number::{parse_u32, parsed_unsigned};
use crate::table::{config_get, lemma_put, lookup, outside_workload, put_at, setting, Config, Owned, Table, Tracker};
use crate::text::{cat2, cat3, contains, copy_opt, holds_text, lowercase, opt_view, same, to_lowercase, trim, trimmed, views};
use crate::world::{bound_config, first_of_package, two, WitInterface, WitWorld};

verus! {

pub const PLUGIN_ID: &'static str = "llm-gateway-provider";

pub const DEFAULT_SYSTEM_PROMPT_ROLE: &'static str = "system";

pub const DEFAULT_SYSTEM_PROMPT_CONTENT: &'static str = "你是一个生活小助手，帮助解答用户遇到的各种问题";

/// A preset prompt with its role.
#[derive(Debug)]
pub struct PresetPrompt {
    pub role: String,
    pub content: String,
}

pub struct PromptView {
    pub role: Seq<char>,
    pub content: Seq<char>,
}

impl PresetPrompt {
    pub open spec fn view(&self) -> PromptView {
        PromptView { role: self.role@, content: self.content@ }
    }
}

pub open spec fn prompt_views(v: Seq<PresetPrompt>) -> Seq<PromptView> {
    v.map_values(|p: PresetPrompt| p@)
}

/// The configuration of a workload.
pub struct LlmGatewayConfig<F> {
    /// The name of the provider's adapter.
    pub provider: String,
    pub base_url: Option<String>,
    pub model_name: String,
    pub api_key: String,
    pub temperature: Option<F>,
    pub top_p: Option<F>,
    pub max_tokens: Option<u32>,
    pub system_prompts: Vec<PresetPrompt>,
}

impl<F> LlmGatewayConfig<F> {
    /// The same configuration with other sampling settings.
    pub fn with_sampling<G>(self, temperature: Option<G>, top_p: Option<G>) -> (r: LlmGatewayConfig<G>)
        ensures
            r.provider == self.provider,
            r.base_url == self.base_url,
            r.model_name == self.model_name,
            r.api_key == self.api_key,
            r.temperature == temperature,
            r.top_p == top_p,
            r.max_tokens == self.max_tokens,
            r.system_prompts == self.system_prompts,
    {
        LlmGatewayConfig {
            provider: self.provider,
            base_url: self.base_url,
            model_name: self.model_name,
            api_key: self.api_key,
            temperature,
            top_p,
            max_tokens: self.max_tokens,
            system_prompts: self.system_prompts,
        }
    }
}

#[derive(Clone, Copy, Debug, PartialEq, Eq, Structural)]
pub enum ChatRole {
    System,
    User,
    Assistant,
    Tool,
}

/// The roles that providers know.
#[derive(Clone, Copy, Debug, PartialEq, Eq, Structural)]
pub enum ProviderRole {
    System,
    User,
    Assistant,
    Tool,
}

pub enum BinarySource {
    Url(String),
    Base64(String),
}

pub struct BinaryPart {
    pub content_type: String,
    pub source: BinarySource,
    pub name: Option<String>,
}

pub struct ToolCall {
    pub call_id: String,
    pub fn_name: String,
    pub fn_arguments: String,
}

pub struct ToolResponse {
    pub call_id: String,
    pub content: String,
}

/// A part of a message, as the guest sees it.
pub enum ContentPart {
    Text(String),
    Binary(BinaryPart),
    ToolCall(ToolCall),
    ToolResponse(ToolResponse),
}

/// A part of a message, as providers see it; the arguments of a tool call are JSON text.
pub enum ProviderPart {
    Text(String),
    Binary(BinaryPart),
    ToolCall(ToolCall),
    ToolResponse(ToolResponse),
    /// What only concerns the provider itself.
    Internal,
}

pub struct MessageContent {
    pub parts: Vec<ContentPart>,
}

pub struct ChatMessage {
    pub role: ChatRole,
    pub content: MessageContent,
}

pub struct ProviderMessage {
    pub role: ProviderRole,
    pub parts: Vec<ProviderPart>,
}

pub struct WitChatOptions<F> {
    pub temperature: Option<F>,
    pub max_tokens: Option<u32>,
    pub top_p: Option<F>,
}

/// The options of a request to a provider.
pub struct ChatOptions<F> {
    pub temperature: Option<F>,
    pub max_tokens: Option<u32>,
    pub top_p: Option<F>,
    pub capture_usage: bool,
    pub capture_content: bool,
}

#[derive(Debug)]
pub enum StopReason {
    Completed(String),
    MaxTokens(String),
    ToolCall(String),
    ContentFilter(String),
    StopSequence(String),
    Other(String),
}

#[derive(Clone, Copy, Debug, PartialEq, Eq, Structural)]
pub struct TokenUsage {
    pub prompt_tokens: u64,
    pub completion_tokens: u64,
    pub total_tokens: u64,
}

/// Token counts as a provider reports them.
#[derive(Clone, Copy, Debug)]
pub struct ProviderUsage {
    pub prompt_tokens: Option<i32>,
    pub completion_tokens: Option<i32>,
    pub total_tokens: Option<i32>,
}

pub struct ChatResponse {
    pub content: MessageContent,
    pub model: String,
    pub stop_reason: Option<StopReason>,
    pub usage: Option<TokenUsage>,
}

#[derive(Debug)]
pub enum LlmError {
    Unexpected(String),
    InvalidRequest(String),
    AuthenticationError(String),
    RateLimitError(String),
    ModelNotFound(String),
    ProviderError(String),
}

pub enum LlmErrorView {
    Unexpected(Seq<char>),
    InvalidRequest(Seq<char>),
    AuthenticationError(Seq<char>),
    RateLimitError(Seq<char>),
    ModelNotFound(Seq<char>),
    ProviderError(Seq<char>),
}

impl LlmError {
    pub open spec fn view(&self) -> LlmErrorView {
        match self {
            LlmError::Unexpected(m) => LlmErrorView::Unexpected(m@),
            LlmError::InvalidRequest(m) => LlmErrorView::InvalidRequest(m@),
            LlmError::AuthenticationError(m) => LlmErrorView::AuthenticationError(m@),
            LlmError::RateLimitError(m) => LlmErrorView::RateLimitError(m@),
            LlmError::ModelNotFound(m) => LlmErrorView::ModelNotFound(m@),
            LlmError::ProviderError(m) => LlmErrorView::ProviderError(m@),
        }
    }
}

/// Settings that the guest passes with a request.
pub struct LlmConfig {
    pub api_key: String,
    pub base_url: Option<String>,
}

// ---- Configuration ----

/// Whether `genai` has an adapter of this name.
pub uninterp spec fn known_adapter(name: Seq<char>) -> bool;

/// `genai::adapter::AdapterKind::from_lower_str`, reduced to whether there is such an adapter.
#[verifier::external_body]
fn is_adapter(name: &str) -> (r: bool)
    ensures
        r == known_adapter(name@),
{
    genai::adapter::AdapterKind::from_lower_str(name).is_some()
}

pub open spec fn unknown_provider(lower: Seq<char>) -> Seq<char> {
    "Unknown provider '"@ + lower
        + "'. Supported: openai, anthropic, gemini, deepseek, ollama, groq, openai-compat"@
}

/// The adapter for a provider's name in lower case, given whether there is one of that name.
pub open spec fn provider_of(lower: Seq<char>, known: bool) -> Result<Seq<char>, Seq<char>> {
    if lower == "openai-compat"@ {
        Ok("openai"@)
    } else if known {
        Ok(lower)
    } else {
        Err(unknown_provider(lower))
    }
}

pub open spec fn text_result(r: Result<String, String>) -> Result<Seq<char>, Seq<char>> {
    match r {
        Ok(s) => Ok(s@),
        Err(e) => Err(e@),
    }
}

/// The adapter for a provider's name in lower case, given whether there is one of that name.
pub fn choose_provider(lower: String, known: bool) -> (r: Result<String, String>)
    ensures
        text_result(r) == provider_of(lower@, known),
{
    if same(&lower, "openai-compat") {
        Ok("openai".to_owned())
    } else if known {
        Ok(lower)
    } else {
        Err(
            cat3(
                "Unknown provider '",
                &lower,
                "'. Supported: openai, anthropic, gemini, deepseek, ollama, groq, openai-compat",
            ),
        )
    }
}

/// The name of the adapter for a provider; `openai-compat` stands for the OpenAI adapter.
pub fn parse_provider(provider: &str) -> (r: Result<String, String>)
    ensures
        text_result(r) == provider_of(lowercase(provider@), known_adapter(lowercase(provider@))),
{
    let lower = to_lowercase(provider);
    let known = is_adapter(&lower);
    choose_provider(lower, known)
}

pub open spec fn default_prompt() -> PromptView {
    PromptView { role: "system"@, content: "你是一个生活小助手，帮助解答用户遇到的各种问题"@ }
}

/// The keys of a prompt, in order.
pub open spec fn prompt_keys() -> Seq<Seq<char>> {
    seq!["role"@, "content"@]
}

/// The prompt that a JSON value describes: an object in which neither comes twice, or an array of
/// its role and its content.
pub open spec fn prompt_in(j: JsonView) -> Option<PromptView> {
    match record(j, prompt_keys()) {
        None => None,
        Some(o) => match (text_member(o, "role"@), text_member(o, "content"@)) {
            (Some(role), Some(content)) => Some(PromptView { role, content }),
            _ => None,
        },
    }
}

/// The prompts of a list of JSON texts; none where one of them is no prompt.
pub open spec fn prompts_in(items: Seq<Seq<char>>) -> Option<Seq<PromptView>>
    decreases items.len(),
{
    if items.len() == 0 {
        Some(Seq::<PromptView>::empty())
    } else {
        match (prompts_in(items.drop_last()), prompt_in(shape_of(items.last()))) {
            (Some(l), Some(p)) => Some(l.push(p)),
            _ => None,
        }
    }
}

/// The preset prompts of a JSON value: a list of prompts that is not empty, or the default one.
pub open spec fn presets_in(j: JsonView) -> Seq<PromptView> {
    match j {
        JsonView::Array(items) => match prompts_in(items) {
            Some(l) => if l.len() > 0 {
                l
            } else {
                seq![default_prompt()]
            },
            None => seq![default_prompt()],
        },
        _ => seq![default_prompt()],
    }
}

/// The preset prompts of a setting.
pub open spec fn presets_of(text: Seq<char>) -> Seq<PromptView> {
    if trimmed(text).len() == 0 {
        seq![default_prompt()]
    } else {
        presets_in(shape_of(text))
    }
}

fn default_prompts() -> (r: Vec<PresetPrompt>)
    ensures
        prompt_views(r@) == seq![default_prompt()],
{
    let mut v: Vec<PresetPrompt> = Vec::new();
    v.push(
        PresetPrompt {
            role: DEFAULT_SYSTEM_PROMPT_ROLE.to_owned(),
            content: DEFAULT_SYSTEM_PROMPT_CONTENT.to_owned(),
        },
    );
    assert(prompt_views(v@) =~= seq![default_prompt()]);
    v
}

fn read_prompt(j: &Json) -> (r: Option<PresetPrompt>)
    ensures
        match r {
            Some(p) => prompt_in(j@) == Some(p@),
            None => prompt_in(j@) is None,
        },
{
    let mut keys: Vec<&'static str> = Vec::new();
    keys.push("role");
    keys.push("content");
    assert(key_views(keys@) =~= prompt_keys());
    let o = match as_record(j, &keys) {
        Some(o) => o,
        None => {
            return None;
        },
    };
    match (get_text(&o, "role"), get_text(&o, "content")) {
        (Some(role), Some(content)) => Some(PresetPrompt { role, content }),
        _ => None,
    }
}

proof fn lemma_prompts_fail(items: Seq<Seq<char>>, i: int)
    requires
        0 <= i <= items.len(),
        prompts_in(items.take(i)) is None,
    ensures
        prompts_in(items) is None,
    decreases items.len() - i,
{
    if i == items.len() {
        assert(items.take(i) == items);
    } else {
        assert(items.take(i + 1).drop_last() == items.take(i));
        lemma_prompts_fail(items, i + 1);
    }
}

/// The preset prompts of a JSON value.
pub fn read_presets(j: &Json) -> (r: Vec<PresetPrompt>)
    ensures
        prompt_views(r@) == presets_in(j@),
{
    match j {
        Json::Array(items) => {
            let ghost iv = views(items@);
            let mut out: Vec<PresetPrompt> = Vec::new();
            let mut i: usize = 0;
            assert(prompt_views(out@) =~= Seq::<PromptView>::empty());
            assert(iv.take(0) =~= Seq::<Seq<char>>::empty());
            while i < items.len()
                invariant
                    i <= items@.len(),
                    iv == views(items@),
                    j@ == JsonView::Array(iv),
                    prompts_in(iv.take(i as int)) == Some(prompt_views(out@)),
                    out@.len() == i,
                decreases items@.len() - i,
            {
                assert(iv.take(i + 1).drop_last() == iv.take(i as int));
                assert(iv[i as int] == items@[i as int]@);
                let item = read_shape(&items[i]);
                match read_prompt(&item) {
                    Some(p) => {
                        let ghost before = out@;
                        out.push(p);
                        assert(prompt_views(out@) =~= prompt_views(before).push(p@));
                    },
                    None => {
                        proof {
                            lemma_prompts_fail(iv, i + 1);
                        }
                        return default_prompts();
                    },
                }
                i = i + 1;
            }
            assert(iv.take(iv.len() as int) == iv);
            if out.len() > 0 {
                out
            } else {
                default_prompts()
            }
        },
        _ => default_prompts(),
    }
}

/// Reads preset prompts; the default prompt stands where the text is blank, no list of prompts, or
/// an empty list.
pub fn parse_system_prompts(json: &str) -> (r: Vec<PresetPrompt>)
    ensures
        prompt_views(r@) == presets_of(json@),
{
    if trim(json).as_str().is_empty() {
        return default_prompts();
    }
    let j = read_shape(json);
    read_presets(&j)
}

pub open spec fn blank(o: Option<Seq<char>>) -> bool {
    match o {
        Some(t) => t.len() == 0,
        None => true,
    }
}

/// What is wrong with a configuration, given its provider's name in lower case and whether there is
/// an adapter of that name; the first problem decides.
pub open spec fn config_error(m: Map<Seq<char>, String>, lower: Seq<char>, known: bool) -> Option<
    Seq<char>,
> {
    if blank(setting(m, "provider"@)) {
        Some("Missing required config: 'provider'"@)
    } else if provider_of(lower, known) is Err {
        Some(unknown_provider(lower))
    } else if blank(setting(m, "model_name"@)) {
        Some("Missing required config: 'model_name'"@)
    } else if blank(setting(m, "api_key"@)) {
        Some("Missing required config: 'api_key'"@)
    } else if provider_of(lower, known) == Ok::<Seq<char>, Seq<char>>("openai"@) && setting(
        m,
        "base_url"@,
    ) is None && holds_text(lower, "compat"@) {
        Some("Missing required config: 'base_url' is required when provider is 'openai-compat'"@)
    } else {
        None
    }
}

/// `c` holds the settings of a configuration; the sampling settings are left as text.
pub open spec fn config_of(
    c: LlmGatewayConfig<String>,
    m: Map<Seq<char>, String>,
    lower: Seq<char>,
    known: bool,
) -> bool {
    &&& provider_of(lower, known) == Ok::<Seq<char>, Seq<char>>(c.provider@)
    &&& opt_view(c.base_url) == setting(m, "base_url"@)
    &&& setting(m, "model_name"@) == Some(c.model_name@)
    &&& setting(m, "api_key"@) == Some(c.api_key@)
    &&& opt_view(c.temperature) == setting(m, "temperature"@)
    &&& opt_view(c.top_p) == setting(m, "top_p"@)
    &&& opt_nat(c.max_tokens) == match setting(m, "max_tokens"@) {
        Some(t) => parsed_unsigned(t, u32::MAX as nat),
        None => None,
    }
    &&& prompt_views(c.system_prompts@) == presets_of(
        match setting(m, "system_prompts"@) {
            Some(t) => t,
            None => Seq::<char>::empty(),
        },
    )
}

pub open spec fn opt_nat(o: Option<u32>) -> Option<nat> {
    match o {
        Some(n) => Some(n as nat),
        None => None,
    }
}

/// The name of the configured provider in lower case.
pub open spec fn lower_provider(m: Map<Seq<char>, String>) -> Seq<char> {
    lowercase(
        match setting(m, "provider"@) {
            Some(p) => p,
            None => Seq::<char>::empty(),
        },
    )
}

fn setting_or_empty(config: &Config, key: &str) -> (r: String)
    ensures
        r@ == match setting(config@, key@) {
            Some(t) => t,
            None => Seq::<char>::empty(),
        },
{
    match config_get(config, key) {
        Some(t) => t,
        None => String::new(),
    }
}

/// Checks a configuration, given its provider's name in lower case and whether there is an adapter
/// of that name.
pub fn check_config(config: &Config, lower: String, known: bool) -> (r: Result<
    LlmGatewayConfig<String>,
    String,
>)
    ensures
        match r {
            Ok(c) => config_error(config@, lower@, known) is None && config_of(
                c,
                config@,
                lower@,
                known,
            ),
            Err(e) => config_error(config@, lower@, known) == Some(e@),
        },
{
    let provider_str = setting_or_empty(config, "provider");
    if provider_str.as_str().is_empty() {
        return Err("Missing required config: 'provider'".to_owned());
    }
    let compat = contains(&lower, "compat");
    let provider = match choose_provider(lower, known) {
        Ok(p) => p,
        Err(e) => {
            return Err(e);
        },
    };
    let model_name = setting_or_empty(config, "model_name");
    if model_name.as_str().is_empty() {
        return Err("Missing required config: 'model_name'".to_owned());
    }
    let api_key = setting_or_empty(config, "api_key");
    if api_key.as_str().is_empty() {
        return Err("Missing required config: 'api_key'".to_owned());
    }
    let base_url = config_get(config, "base_url");
    if same(&provider, "openai") && base_url.is_none() && compat {
        return Err(
            "Missing required config: 'base_url' is required when provider is 'openai-compat'".to_owned(),
        );
    }
    let max_tokens = match config_get(config, "max_tokens") {
        Some(t) => parse_u32(&t),
        None => None,
    };
    let prompts = setting_or_empty(config, "system_prompts");
    Ok(
        LlmGatewayConfig {
            provider,
            base_url,
            model_name,
            api_key,
            temperature: config_get(config, "temperature"),
            top_p: config_get(config, "top_p"),
            max_tokens,
            system_prompts: parse_system_prompts(&prompts),
        },
    )
}

/// Reads and checks the configuration of an interface.
pub fn extract_config(interface: &WitInterface, _workload_id: &str) -> (r: Result<
    LlmGatewayConfig<String>,
    String,
>)
    ensures
        ({
            let m = interface.config@;
            let lower = lower_provider(m);
            match r {
                Ok(c) => config_error(m, lower, known_adapter(lower)) is None && config_of(
                    c,
                    m,
                    lower,
                    known_adapter(lower),
                ),
                Err(e) => config_error(m, lower, known_adapter(lower)) == Some(e@),
            }
        }),
{
    let provider_str = setting_or_empty(&interface.config, "provider");
    let lower = to_lowercase(&provider_str);
    let known = is_adapter(&lower);
    check_config(&interface.config, lower, known)
}

/// The configuration that is kept of a workload item: none where it is no component, brings no
/// interface of the gateway, or configures it wrongly.
pub fn bind_config(is_component: bool, interfaces: &Vec<WitInterface>) -> (r: Option<
    LlmGatewayConfig<String>,
>)
    ensures
        match first_of_package(interfaces@, "custom"@, "llm-gateway"@) {
            Some(i) if is_component => {
                let m = i.config@;
                let lower = lower_provider(m);
                match r {
                    Some(c) => config_error(m, lower, known_adapter(lower)) is None && config_of(
                        c,
                        m,
                        lower,
                        known_adapter(lower),
                    ),
                    None => config_error(m, lower, known_adapter(lower)) is Some,
                }
            },
            _ => r is None,
        },
{
    let config = match bound_config(interfaces, "custom", "llm-gateway") {
        None => {
            return None;
        },
        Some(c) => c,
    };
    if !is_component {
        return None;
    }
    let provider_str = setting_or_empty(&config, "provider");
    let lower = to_lowercase(&provider_str);
    let known = is_adapter(&lower);
    match check_config(&config, lower, known) {
        Ok(c) => Some(c),
        Err(_) => None,
    }
}

// ---- Requests ----

/// The role by the same name.
pub open spec fn provider_role(role: ChatRole) -> ProviderRole {
    match role {
        ChatRole::System => ProviderRole::System,
        ChatRole::User => ProviderRole::User,
        ChatRole::Assistant => ProviderRole::Assistant,
        ChatRole::Tool => ProviderRole::Tool,
    }
}

pub fn to_genai_role(role: ChatRole) -> (r: ProviderRole)
    ensures
        r == provider_role(role),
{
    match role {
        ChatRole::System => ProviderRole::System,
        ChatRole::User => ProviderRole::User,
        ChatRole::Assistant => ProviderRole::Assistant,
        ChatRole::Tool => ProviderRole::Tool,
    }
}

/// The role that a text names; any other text stands for the user.
pub open spec fn role_named(role: Seq<char>) -> ProviderRole {
    if role == "system"@ {
        ProviderRole::System
    } else if role == "assistant"@ {
        ProviderRole::Assistant
    } else if role == "tool"@ {
        ProviderRole::Tool
    } else {
        ProviderRole::User
    }
}

pub fn to_genai_role_from_str(role: &str) -> (r: ProviderRole)
    ensures
        r == role_named(role@),
{
    if same(role, "system") {
        ProviderRole::System
    } else if same(role, "assistant") {
        ProviderRole::Assistant
    } else if same(role, "tool") {
        ProviderRole::Tool
    } else {
        ProviderRole::User
    }
}

/// The role in which a text message is sent: system and assistant stay, all else is the user's.
pub open spec fn text_role(role: ProviderRole) -> ProviderRole {
    match role {
        ProviderRole::System => ProviderRole::System,
        ProviderRole::Assistant => ProviderRole::Assistant,
        _ => ProviderRole::User,
    }
}

/// `m` is a message of one text.
pub open spec fn is_text_message(m: ProviderMessage, role: ProviderRole, text: Seq<char>) -> bool {
    &&& m.role == role
    &&& m.parts@.len() == 1
    &&& m.parts@[0] is Text
    &&& m.parts@[0]->Text_0@ == text
}

/// A message of one text, in the role that a text names.
pub fn text_message(role: &str, text: &str) -> (r: ProviderMessage)
    ensures
        is_text_message(r, text_role(role_named(role@)), text@),
{
    let role = match to_genai_role_from_str(role) {
        ProviderRole::System => ProviderRole::System,
        ProviderRole::Assistant => ProviderRole::Assistant,
        _ => ProviderRole::User,
    };
    let mut parts: Vec<ProviderPart> = Vec::new();
    parts.push(ProviderPart::Text(text.to_owned()));
    ProviderMessage { role, parts }
}

/// `r` is how providers see the part `p`: arguments that are no JSON become `null`.
pub open spec fn provider_part(p: ContentPart, r: ProviderPart) -> bool {
    match p {
        ContentPart::Text(s) => r == ProviderPart::Text(s),
        ContentPart::Binary(b) => r == ProviderPart::Binary(b),
        ContentPart::ToolCall(t) => match r {
            ProviderPart::ToolCall(u) => u.call_id == t.call_id && u.fn_name == t.fn_name
                && u.fn_arguments@ == if json_of(t.fn_arguments@) is Ok {
                t.fn_arguments@
            } else {
                "null"@
            },
            _ => false,
        },
        ContentPart::ToolResponse(t) => r == ProviderPart::ToolResponse(t),
    }
}

pub fn to_genai_content_part(part: ContentPart) -> (r: ProviderPart)
    ensures
        provider_part(part, r),
{
    match part {
        ContentPart::Text(s) => ProviderPart::Text(s),
        ContentPart::Binary(b) => ProviderPart::Binary(b),
        ContentPart::ToolCall(t) => {
            let ok = parse_json(&t.fn_arguments).is_ok();
            ProviderPart::ToolCall(
                ToolCall {
                    call_id: t.call_id,
                    fn_name: t.fn_name,
                    fn_arguments: if ok {
                        t.fn_arguments
                    } else {
                        "null".to_owned()
                    },
                },
            )
        },
        ContentPart::ToolResponse(t) => ProviderPart::ToolResponse(t),
    }
}

/// `r` is how providers see the message `m`.
pub open spec fn provider_message(m: ChatMessage, r: ProviderMessage) -> bool {
    &&& r.role == provider_role(m.role)
    &&& r.parts@.len() == m.content.parts@.len()
    &&& forall|i: int|
        0 <= i < r.parts@.len() ==> provider_part(m.content.parts@[i], #[trigger] r.parts@[i])
}

fn to_genai_message(m: ChatMessage) -> (r: ProviderMessage)
    ensures
        provider_message(m, r),
{
    let role = to_genai_role(m.role);
    let ghost all = m.content.parts@;
    let mut rest = m.content.parts;
    let n: usize = rest.len();
    let mut parts: Vec<ProviderPart> = Vec::new();
    let mut i: usize = 0;
    assert(all.skip(0) == all);
    while i < n
        invariant
            i <= n,
            n == all.len(),
            rest@ == all.skip(i as int),
            parts@.len() == i,
            forall|k: int| 0 <= k < i ==> provider_part(all[k], #[trigger] parts@[k]),
        decreases n - i,
    {
        let p = rest.remove(0);
        assert(p == all[i as int]);
        assert(rest@ =~= all.skip(i + 1));
        parts.push(to_genai_content_part(p));
        i = i + 1;
    }
    ProviderMessage { role, parts }
}

/// The messages as providers see them, in order.
pub fn to_genai_messages(messages: Vec<ChatMessage>) -> (r: Vec<ProviderMessage>)
    ensures
        r@.len() == messages@.len(),
        forall|i: int| 0 <= i < r@.len() ==> provider_message(messages@[i], #[trigger] r@[i]),
{
    let ghost all = messages@;
    let mut rest = messages;
    let n: usize = rest.len();
    let mut out: Vec<ProviderMessage> = Vec::new();
    let mut i: usize = 0;
    assert(all.skip(0) == all);
    while i < n
        invariant
            i <= n,
            n == all.len(),
            rest@ == all.skip(i as int),
            out@.len() == i,
            forall|k: int| 0 <= k < i ==> provider_message(all[k], #[trigger] out@[k]),
        decreases n - i,
    {
        let m = rest.remove(0);
        assert(m == all[i as int]);
        assert(rest@ =~= all.skip(i + 1));
        out.push(to_genai_message(m));
        i = i + 1;
    }
    out
}

/// The messages of the preset prompts.
pub fn preset_messages(prompts: &Vec<PresetPrompt>) -> (r: Vec<ProviderMessage>)
    ensures
        r@.len() == prompts@.len(),
        forall|i: int|
            0 <= i < r@.len() ==> is_text_message(
                #[trigger] r@[i],
                text_role(role_named(prompts@[i].role@)),
                prompts@[i].content@,
            ),
{
    let mut out: Vec<ProviderMessage> = Vec::new();
    let mut i: usize = 0;
    while i < prompts.len()
        invariant
            i <= prompts@.len(),
            out@.len() == i,
            forall|k: int|
                0 <= k < i ==> is_text_message(
                    #[trigger] out@[k],
                    text_role(role_named(prompts@[k].role@)),
                    prompts@[k].content@,
                ),
        decreases prompts@.len() - i,
    {
        out.push(text_message(&prompts[i].role, &prompts[i].content));
        i = i + 1;
    }
    out
}

/// The preset prompts, and then the messages of the guest.
pub open spec fn request_messages(
    r: Seq<ProviderMessage>,
    prompts: Seq<PresetPrompt>,
    messages: Seq<ChatMessage>,
) -> bool {
    &&& r.len() == prompts.len() + messages.len()
    &&& forall|i: int|
        0 <= i < prompts.len() ==> is_text_message(
            #[trigger] r[i],
            text_role(role_named(prompts[i].role@)),
            prompts[i].content@,
        )
    &&& forall|i: int|
        prompts.len() <= i < r.len() ==> provider_message(
            messages[i - prompts.len()],
            #[trigger] r[i],
        )
}

fn all_messages(prompts: &Vec<PresetPrompt>, messages: Vec<ChatMessage>) -> (r: Vec<ProviderMessage>)
    ensures
        request_messages(r@, prompts@, messages@),
{
    let mut out = preset_messages(prompts);
    let mut more = to_genai_messages(messages);
    out.append(&mut more);
    out
}

/// What the request asks for, else what is configured.
pub open spec fn either<T>(first: Option<T>, second: Option<T>) -> Option<T> {
    match first {
        Some(x) => Some(x),
        None => second,
    }
}

/// What the request asks for, else what is configured.
pub fn first_given<T: Copy>(first: Option<T>, second: Option<T>) -> (r: Option<T>)
    ensures
        r == either(first, second),
{
    match first {
        Some(x) => Some(x),
        None => second,
    }
}

pub open spec fn merged_options<F>(c: LlmGatewayConfig<F>, q: Option<WitChatOptions<F>>) -> ChatOptions<F> {
    ChatOptions {
        temperature: match q {
            Some(o) => either(o.temperature, c.temperature),
            None => c.temperature,
        },
        max_tokens: match q {
            Some(o) => either(o.max_tokens, c.max_tokens),
            None => c.max_tokens,
        },
        top_p: match q {
            Some(o) => either(o.top_p, c.top_p),
            None => c.top_p,
        },
        capture_usage: false,
        capture_content: false,
    }
}

/// The options of a request: each one that the guest passes goes before the configured one.
pub fn build_chat_options<F: Copy>(
    config: &LlmGatewayConfig<F>,
    request_options: Option<WitChatOptions<F>>,
) -> (r: ChatOptions<F>)
    ensures
        r == merged_options(*config, request_options),
{
    let mut r = ChatOptions {
        temperature: config.temperature,
        max_tokens: config.max_tokens,
        top_p: config.top_p,
        capture_usage: false,
        capture_content: false,
    };
    if let Some(q) = request_options {
        r.temperature = first_given(q.temperature, config.temperature);
        r.max_tokens = first_given(q.max_tokens, config.max_tokens);
        r.top_p = first_given(q.top_p, config.top_p);
    }
    r
}

// ---- Answers ----

pub fn to_wit_stop_reason(reason: StopReason) -> (r: StopReason)
    ensures
        r == reason,
{
    match reason {
        StopReason::Completed(s) => StopReason::Completed(s),
        StopReason::MaxTokens(s) => StopReason::MaxTokens(s),
        StopReason::ToolCall(s) => StopReason::ToolCall(s),
        StopReason::ContentFilter(s) => StopReason::ContentFilter(s),
        StopReason::StopSequence(s) => StopReason::StopSequence(s),
        StopReason::Other(s) => StopReason::Other(s),
    }
}

/// `r` is how the guest sees the part `p`: what only concerns the provider is an empty text.
pub open spec fn guest_part(p: ProviderPart, r: ContentPart) -> bool {
    match p {
        ProviderPart::Text(s) => r == ContentPart::Text(s),
        ProviderPart::Binary(b) => r == ContentPart::Binary(b),
        ProviderPart::ToolCall(t) => r == ContentPart::ToolCall(t),
        ProviderPart::ToolResponse(t) => r == ContentPart::ToolResponse(t),
        ProviderPart::Internal => r is Text && r->Text_0@ == Seq::<char>::empty(),
    }
}

pub fn to_wit_content_part(part: ProviderPart) -> (r: ContentPart)
    ensures
        guest_part(part, r),
{
    match part {
        ProviderPart::Text(s) => ContentPart::Text(s),
        ProviderPart::Binary(b) => ContentPart::Binary(b),
        ProviderPart::ToolCall(t) => ContentPart::ToolCall(t),
        ProviderPart::ToolResponse(t) => ContentPart::ToolResponse(t),
        ProviderPart::Internal => ContentPart::Text(String::new()),
    }
}

/// The content of an answer as the guest sees it, part by part.
pub fn to_wit_message_content(parts: Vec<ProviderPart>) -> (r: MessageContent)
    ensures
        r.parts@.len() == parts@.len(),
        forall|i: int| 0 <= i < parts@.len() ==> guest_part(parts@[i], #[trigger] r.parts@[i]),
{
    let ghost all = parts@;
    let mut rest = parts;
    let n: usize = rest.len();
    let mut out: Vec<ContentPart> = Vec::new();
    let mut i: usize = 0;
    assert(all.skip(0) == all);
    while i < n
        invariant
            i <= n,
            n == all.len(),
            rest@ == all.skip(i as int),
            out@.len() == i,
            forall|k: int| 0 <= k < i ==> guest_part(all[k], #[trigger] out@[k]),
        decreases n - i,
    {
        let p = rest.remove(0);
        assert(p == all[i as int]);
        assert(rest@ =~= all.skip(i + 1));
        out.push(to_wit_content_part(p));
        i = i + 1;
    }
    MessageContent { parts: out }
}

/// A token count as a 64-bit number: zero where there is none, a negative one by its bits.
pub open spec fn token_count(n: Option<i32>) -> int {
    match n {
        None => 0,
        Some(n) => if n < 0 {
            n + 0x1_0000_0000_0000_0000
        } else {
            n as int
        },
    }
}

pub fn count_tokens(n: Option<i32>) -> (r: u64)
    ensures
        r == token_count(n),
{
    match n {
        None => 0,
        Some(n) => if n < 0 {
            u64::MAX - ((-(n as i64 + 1)) as u64)
        } else {
            n as u64
        },
    }
}

pub open spec fn usage_for(u: ProviderUsage, r: TokenUsage) -> bool {
    &&& r.prompt_tokens == token_count(u.prompt_tokens)
    &&& r.completion_tokens == token_count(u.completion_tokens)
    &&& r.total_tokens == token_count(u.total_tokens)
}

fn token_usage(u: ProviderUsage) -> (r: TokenUsage)
    ensures
        usage_for(u, r),
{
    TokenUsage {
        prompt_tokens: count_tokens(u.prompt_tokens),
        completion_tokens: count_tokens(u.completion_tokens),
        total_tokens: count_tokens(u.total_tokens),
    }
}

/// The answer that the guest gets.
pub fn chat_response(
    parts: Vec<ProviderPart>,
    model: String,
    stop_reason: Option<StopReason>,
    usage: ProviderUsage,
) -> (r: ChatResponse)
    ensures
        r.content.parts@.len() == parts@.len(),
        forall|i: int|
            0 <= i < parts@.len() ==> guest_part(parts@[i], #[trigger] r.content.parts@[i]),
        r.model == model,
        r.stop_reason == stop_reason,
        r.usage is Some && usage_for(usage, r.usage->0),
{
    let stop_reason = match stop_reason {
        Some(s) => Some(to_wit_stop_reason(s)),
        None => None,
    };
    ChatResponse {
        content: to_wit_message_content(parts),
        model,
        stop_reason,
        usage: Some(token_usage(usage)),
    }
}

/// The error for a provider's message, by the words that its lower case form holds.
pub open spec fn llm_error_of(message: Seq<char>, lower: Seq<char>) -> LlmErrorView {
    if holds_text(lower, "auth"@) || holds_text(lower, "api key"@) || holds_text(
        lower,
        "unauthorized"@,
    ) {
        LlmErrorView::AuthenticationError(message)
    } else if holds_text(lower, "rate limit"@) || holds_text(lower, "too many requests"@) {
        LlmErrorView::RateLimitError(message)
    } else if holds_text(lower, "not found"@) || holds_text(lower, "does not exist"@) {
        LlmErrorView::ModelNotFound(message)
    } else {
        LlmErrorView::ProviderError(message)
    }
}

/// The error for a provider's message, given the message in lower case.
pub fn classify_error(message: String, lower: &str) -> (r: LlmError)
    ensures
        r@ == llm_error_of(message@, lower@),
{
    if contains(lower, "auth") || contains(lower, "api key") || contains(lower, "unauthorized") {
        LlmError::AuthenticationError(message)
    } else if contains(lower, "rate limit") || contains(lower, "too many requests") {
        LlmError::RateLimitError(message)
    } else if contains(lower, "not found") || contains(lower, "does not exist") {
        LlmError::ModelNotFound(message)
    } else {
        LlmError::ProviderError(message)
    }
}

/// The error that the guest is told for a provider's message.
pub fn to_llm_error(message: String) -> (r: LlmError)
    ensures
        r@ == llm_error_of(message@, lowercase(message@)),
{
    let lower = to_lowercase(&message);
    classify_error(message, &lower)
}

// ---- Streams ----

/// How a stream of a provider ended.
pub struct StreamEnd {
    pub stop_reason: Option<StopReason>,
    pub usage: Option<ProviderUsage>,
}

/// What a stream of a provider gave.
pub enum StreamItem {
    Start,
    Chunk(String),
    End(StreamEnd),
    /// Reasoning and tool calls, which are not passed on.
    Other,
    Failed(String),
    /// The stream is closed.
    Closed,
}

pub struct GuestStreamEnd {
    pub model: String,
    pub usage: Option<TokenUsage>,
    pub stop_reason: Option<StopReason>,
}

/// An event as the guest sees it.
pub enum ChatStreamEvent {
    Chunk(String),
    End(GuestStreamEnd),
    Error(String),
}

/// Host-side state of a stream.
pub struct ChatStreamHandle {
    pub model: Option<String>,
    pub ended: bool,
}

/// The first item at which polling stops, or the number of items.
pub open spec fn stream_stop(items: Seq<StreamItem>) -> int
    decreases items.len(),
{
    if items.len() == 0 {
        0
    } else if items[0] is End || items[0] is Failed || items[0] is Closed {
        0
    } else {
        1 + stream_stop(items.drop_first())
    }
}

/// The items up to the one at which polling stops, that one included.
pub open spec fn stream_taken(items: Seq<StreamItem>) -> Seq<StreamItem> {
    if stream_stop(items) < items.len() {
        items.take(stream_stop(items) + 1)
    } else {
        items
    }
}

/// The items that the guest is told of.
pub open spec fn told(items: Seq<StreamItem>) -> Seq<StreamItem>
    decreases items.len(),
{
    if items.len() == 0 {
        items
    } else if items.last() is Chunk || items.last() is End || items.last() is Failed {
        told(items.drop_last()).push(items.last())
    } else {
        told(items.drop_last())
    }
}

/// `e` is how the guest sees the item `i` of a stream of a model.
pub open spec fn stream_event(i: StreamItem, model: Option<String>, e: ChatStreamEvent) -> bool {
    match i {
        StreamItem::Chunk(t) => e == ChatStreamEvent::Chunk(t),
        StreamItem::Failed(m) => e == ChatStreamEvent::Error(m),
        StreamItem::End(end) => match e {
            ChatStreamEvent::End(g) => g.model@ == crate::text::or_empty(model) && g.stop_reason
                == end.stop_reason && match end.usage {
                Some(u) => g.usage is Some && usage_for(u, g.usage->0),
                None => g.usage is None,
            },
            _ => false,
        },
        _ => false,
    }
}

/// Whether the stream ends with these items.
pub open spec fn stream_ends(items: Seq<StreamItem>) -> bool {
    stream_stop(items) < items.len() && !(items[stream_stop(items)] is Closed)
}

proof fn lemma_stop_bound(items: Seq<StreamItem>)
    ensures
        0 <= stream_stop(items) <= items.len(),
    decreases items.len(),
{
    if items.len() > 0 {
        lemma_stop_bound(items.drop_first());
    }
}

proof fn lemma_stop_from(items: Seq<StreamItem>, i: int)
    requires
        0 <= i <= items.len(),
        forall|k: int|
            0 <= k < i ==> !(#[trigger] items[k] is End || items[k] is Failed || items[k] is Closed),
    ensures
        stream_stop(items) == i + stream_stop(items.skip(i)),
    decreases i,
{
    if i == 0 {
        assert(items.skip(0) == items);
    } else {
        lemma_stop_from(items.drop_first(), i - 1);
        assert(items.drop_first().skip(i - 1) == items.skip(i));
    }
}

/// Hands the items that a stream gave to the guest, up to the first that ends it. A stream that has
/// ended gives nothing more; one that is merely closed has not ended.
pub fn next(handle: &mut ChatStreamHandle, items: Vec<StreamItem>) -> (r: (
    Vec<ChatStreamEvent>,
    bool,
))
    ensures
        final(handle).model == old(handle).model,
        if old(handle).ended {
            r.0@.len() == 0 && r.1 && final(handle).ended
        } else {
            &&& r.1 == stream_ends(items@)
            &&& final(handle).ended == stream_ends(items@)
            &&& r.0@.len() == told(stream_taken(items@)).len()
            &&& forall|i: int|
                0 <= i < r.0@.len() ==> stream_event(
                    told(stream_taken(items@))[i],
                    old(handle).model,
                    #[trigger] r.0@[i],
                )
        },
{
    if handle.ended {
        return (Vec::new(), true);
    }
    let ghost all = items@;
    let ghost model = handle.model;
    let mut rest = items;
    let n: usize = rest.len();
    let mut events: Vec<ChatStreamEvent> = Vec::new();
    let mut i: usize = 0;
    assert(all.skip(0) == all);
    assert(all.take(0) =~= Seq::<StreamItem>::empty());
    while i < n
        invariant
            i <= n,
            n == all.len(),
            all == items@,
            rest@ == all.skip(i as int),
            !handle.ended,
            handle.model == model,
            model == old(handle).model,
            !old(handle).ended,
            forall|k: int|
                0 <= k < i ==> !(#[trigger] all[k] is End || all[k] is Failed || all[k] is Closed),
            events@.len() == told(all.take(i as int)).len(),
            forall|k: int|
                0 <= k < events@.len() ==> stream_event(
                    told(all.take(i as int))[k],
                    model,
                    #[trigger] events@[k],
                ),
        decreases n - i,
    {
        let item = rest.remove(0);
        assert(item == all[i as int]);
        assert(rest@ =~= all.skip(i + 1));
        assert(all.take(i + 1).drop_last() == all.take(i as int));
        assert(all.take(i + 1).last() == item);
        proof {
            lemma_stop_from(all, i as int);
        }
        match item {
            StreamItem::Chunk(t) => {
                events.push(ChatStreamEvent::Chunk(t));
            },
            StreamItem::End(end) => {
                let usage = match end.usage {
                    Some(u) => Some(token_usage(u)),
                    None => None,
                };
                let stop_reason = match end.stop_reason {
                    Some(s) => Some(to_wit_stop_reason(s)),
                    None => None,
                };
                events.push(
                    ChatStreamEvent::End(
                        GuestStreamEnd {
                            model: crate::text::text_or_empty(&handle.model),
                            usage,
                            stop_reason,
                        },
                    ),
                );
                handle.ended = true;
                return (events, true);
            },
            StreamItem::Failed(m) => {
                events.push(ChatStreamEvent::Error(m));
                handle.ended = true;
                return (events, true);
            },
            StreamItem::Closed => {
                return (events, false);
            },
            _ => {},
        }
        i = i + 1;
    }
    proof {
        lemma_stop_from(all, n as int);
        assert(all.take(n as int) == all);
        assert(all.skip(n as int).len() == 0);
    }
    (events, false)
}

// ---- Plugin ----

pub struct ComponentData<F> {
    pub config: Option<LlmGatewayConfig<F>>,
    /// Whether a client for the configuration is kept.
    pub has_client: bool,
}

pub struct LlmGateway<F> {
    pub tracker: Tracker<ComponentData<F>>,
}

/// The client that a request goes to.
pub enum ClientChoice {
    /// The one kept for the component.
    Kept,
    /// One made for these settings and kept.
    MakeAndKeep { provider: String, api_key: String, base_url: Option<String> },
    /// One made for this request only.
    MakeOnce { provider: String, api_key: String, base_url: Option<String> },
}

/// A request to a provider.
pub struct ChatPlan<F> {
    pub model: String,
    pub client: ClientChoice,
    pub messages: Vec<ProviderMessage>,
    pub options: ChatOptions<F>,
}

pub open spec fn no_config(component_id: Seq<char>) -> Seq<char> {
    "No LLM Gateway config found for component '"@ + component_id + "'"@
}

pub open spec fn config_unset(component_id: Seq<char>) -> Seq<char> {
    "LLM Gateway config not set for component '"@ + component_id + "'"@
}

/// Why a request is refused before it goes anywhere.
pub open spec fn refusal<F>(
    o: Option<Owned<ComponentData<F>>>,
    component_id: Seq<char>,
    messages: Seq<ChatMessage>,
) -> Option<LlmErrorView> {
    if messages.len() == 0 {
        Some(LlmErrorView::InvalidRequest("Messages list cannot be empty"@))
    } else {
        match o {
            None => Some(LlmErrorView::Unexpected(no_config(component_id))),
            Some(c) => if c.data.config is None {
                Some(LlmErrorView::Unexpected(config_unset(component_id)))
            } else {
                None
            },
        }
    }
}

/// `c` is the client for a request: one of its own where the guest passes settings, which go before
/// the configured ones; else the one kept for the component, made where there is none yet.
pub open spec fn client_for<F>(
    c: ClientChoice,
    data: ComponentData<F>,
    config: Option<LlmConfig>,
) -> bool {
    let configured = data.config->0;
    match config {
        Some(q) => match c {
            ClientChoice::MakeOnce { provider, api_key, base_url } => provider@
                == configured.provider@ && api_key@ == q.api_key@ && opt_view(base_url) == match q.base_url {
                Some(u) => Some(u@),
                None => opt_view(configured.base_url),
            },
            _ => false,
        },
        None => if data.has_client {
            c is Kept
        } else {
            match c {
                ClientChoice::MakeAndKeep { provider, api_key, base_url } => provider@
                    == configured.provider@ && api_key@ == configured.api_key@ && opt_view(base_url)
                    == opt_view(configured.base_url),
                _ => false,
            }
        },
    }
}

impl<F> LlmGateway<F> {
    pub fn new() -> (r: LlmGateway<F>)
        ensures
            r.tracker@ == Map::<Seq<char>, Owned<ComponentData<F>>>::empty(),
    {
        LlmGateway { tracker: Table::new() }
    }

    pub fn id(&self) -> (r: &'static str)
        ensures
            r@ == "llm-gateway-provider"@,
    {
        PLUGIN_ID
    }

    pub fn world(&self) -> (r: WitWorld)
        ensures
            r.imports@.len() == 0,
            r.exports@.len() == 1,
            r.exports@[0].names(
                "custom"@,
                "llm-gateway"@,
                seq!["chat"@, "chat-streaming"@],
                "0.1.0"@,
            ),
    {
        let mut exports: Vec<WitInterface> = Vec::new();
        exports.push(
            WitInterface::of("custom", "llm-gateway", two("chat", "chat-streaming"), "0.1.0"),
        );
        WitWorld { imports: Vec::new(), exports }
    }

    /// Begins to track a component with its checked configuration.
    pub fn on_workload_item_bind(
        &mut self,
        component_id: &str,
        workload_id: &str,
        config: LlmGatewayConfig<F>,
    )
        ensures
            put_at(old(self).tracker@, final(self).tracker@, component_id@),
            final(self).tracker@[component_id@].workload_id@ == workload_id@,
            final(self).tracker@[component_id@].data.config == Some(config),
            !final(self).tracker@[component_id@].data.has_client,
    {
        let owned = Owned {
            workload_id: workload_id.to_owned(),
            data: ComponentData { config: Some(config), has_client: false },
        };
        proof {
            lemma_put(self.tracker@, component_id@, owned);
        }
        self.tracker.insert(component_id.to_owned(), owned);
    }

    /// Forgets the components of a workload.
    pub fn on_workload_unbind(&mut self, workload_id: &str)
        ensures
            final(self).tracker@ == outside_workload(old(self).tracker@, workload_id@),
    {
        let _ = self.tracker.remove_workload(workload_id);
    }

    /// Notes that a client for a component's configuration is kept.
    pub fn client_kept(&mut self, component_id: &str)
        ensures
            match lookup(old(self).tracker@, component_id@) {
                None => final(self).tracker@ == old(self).tracker@,
                Some(o) => put_at(old(self).tracker@, final(self).tracker@, component_id@) && ({
                    let n = final(self).tracker@[component_id@];
                    &&& n.workload_id == o.workload_id
                    &&& n.data.config == o.data.config
                    &&& n.data.has_client
                }),
            },
    {
        let ghost before = self.tracker@;
        match self.tracker.remove(component_id) {
            None => {
                assert(before.remove(component_id@) =~= before);
            },
            Some(o) => {
                let owned = Owned {
                    workload_id: o.workload_id,
                    data: ComponentData { config: o.data.config, has_client: true },
                };
                proof {
                    lemma_put(before, component_id@, owned);
                }
                self.tracker.insert(component_id.to_owned(), owned);
            },
        }
    }
}

impl<F> Default for LlmGateway<F> {
    fn default() -> (r: LlmGateway<F>)
        ensures
            r.tracker@ == Map::<Seq<char>, Owned<ComponentData<F>>>::empty(),
    {
        LlmGateway::new()
    }
}

impl<F: Copy> LlmGateway<F> {
    /// The request to a provider that a chat, at once or as a stream, asks for.
    pub fn chat(
        &self,
        component_id: &str,
        model: String,
        messages: Vec<ChatMessage>,
        options: Option<WitChatOptions<F>>,
        config: Option<LlmConfig>,
    ) -> (r: Result<ChatPlan<F>, LlmError>)
        ensures
            match r {
                Err(e) => refusal(lookup(self.tracker@, component_id@), component_id@, messages@)
                    == Some(e@),
                Ok(p) => {
                    let data = self.tracker@[component_id@].data;
                    &&& refusal(lookup(self.tracker@, component_id@), component_id@, messages@)
                        is None
                    &&& p.model@ == if model@.len() == 0 {
                        data.config->0.model_name@
                    } else {
                        model@
                    }
                    &&& client_for(p.client, data, config)
                    &&& request_messages(
                        p.messages@,
                        data.config->0.system_prompts@,
                        messages@,
                    )
                    &&& p.options == merged_options(data.config->0, options)
                },
            },
    {
        if messages.len() == 0 {
            return Err(LlmError::InvalidRequest("Messages list cannot be empty".to_owned()));
        }
        let data = match self.tracker.get(component_id) {
            None => {
                return Err(
                    LlmError::Unexpected(
                        cat3("No LLM Gateway config found for component '", component_id, "'"),
                    ),
                );
            },
            Some(o) => &o.data,
        };
        let configured = match &data.config {
            None => {
                return Err(
                    LlmError::Unexpected(
                        cat3("LLM Gateway config not set for component '", component_id, "'"),
                    ),
                );
            },
            Some(c) => c,
        };
        let model = if model.as_str().is_empty() {
            configured.model_name.clone()
        } else {
            model
        };
        let client = match config {
            Some(q) => ClientChoice::MakeOnce {
                provider: configured.provider.clone(),
                api_key: q.api_key,
                base_url: match q.base_url {
                    Some(u) => Some(u),
                    None => copy_opt(&configured.base_url),
                },
            },
            None => if data.has_client {
                ClientChoice::Kept
            } else {
                ClientChoice::MakeAndKeep {
                    provider: configured.provider.clone(),
                    api_key: configured.api_key.clone(),
                    base_url: copy_opt(&configured.base_url),
                }
            },
        };
        Ok(
            ChatPlan {
                model,
                client,
                messages: all_messages(&configured.system_prompts, messages),
                options: build_chat_options(configured, options),
            },
        )
    }
}

/// The error that the guest is told where no client could be made.
pub fn client_error(message: &str) -> (r: LlmError)
    ensures
        r@ == LlmErrorView::Unexpected("Failed to create LLM client: "@ + message@),
{
    LlmError::Unexpected(cat2("Failed to create LLM client: ", message))
}

// ---- Laws ----

/// What a request asks for goes before what is configured, and the rest stays as configured.
pub proof fn request_options_take_precedence<F>(c: LlmGatewayConfig<F>, q: WitChatOptions<F>)
    ensures
        q.temperature is Some ==> merged_options(c, Some(q)).temperature == q.temperature,
        q.max_tokens is Some ==> merged_options(c, Some(q)).max_tokens == q.max_tokens,
        q.top_p is Some ==> merged_options(c, Some(q)).top_p == q.top_p,
        q.temperature is None ==> merged_options(c, Some(q)).temperature == c.temperature,
        q.max_tokens is None ==> merged_options(c, Some(q)).max_tokens == c.max_tokens,
        q.top_p is None ==> merged_options(c, Some(q)).top_p == c.top_p,
{
}

proof fn lemma_prompts_not_empty(items: Seq<Seq<char>>)
    ensures
        match prompts_in(items) {
            Some(l) => l.len() == items.len(),
            None => true,
        },
    decreases items.len(),
{
    if items.len() > 0 {
        lemma_prompts_not_empty(items.drop_last());
    }
}

/// Whatever the setting holds, there is at least one preset prompt.
pub proof fn presets_are_never_empty(text: Seq<char>)
    ensures
        presets_of(text).len() >= 1,
{
    match shape_of(text) {
        JsonView::Array(items) => {
            lemma_prompts_not_empty(items);
        },
        _ => {},
    }
}

/// What providers are handed of a text comes back to the guest unchanged.
pub proof fn text_parts_survive(s: String, p: ProviderPart, back: ContentPart)
    requires
        provider_part(ContentPart::Text(s), p),
        guest_part(p, back),
    ensures
        back == ContentPart::Text(s),
{
}

/// A provider is known by its name in small letters; the name for compatible servers stands for the
/// provider that they are compatible with, and an unknown name is refused.
pub proof fn providers_go_by_their_name(lower: Seq<char>, known: bool)
    ensures
        lower == "openai-compat"@ ==> provider_of(lower, known) == Ok::<Seq<char>, Seq<char>>(
            "openai"@,
        ),
        lower != "openai-compat"@ && known ==> provider_of(lower, known) == Ok::<
            Seq<char>,
            Seq<char>,
        >(lower),
        lower != "openai-compat"@ && !known ==> provider_of(lower, known) == Err::<
            Seq<char>,
            Seq<char>,
        >(
            "Unknown provider '"@ + lower
                + "'. Supported: openai, anthropic, gemini, deepseek, ollama, groq, openai-compat"@,
        ),
{
}

/// A preset prompt has a role and a content, both strings under those names; it is none where one
/// is missing.
pub proof fn prompts_have_a_role_and_a_content(j: JsonView)
    requires
        j is Object,
        record(j, prompt_keys()) is Some,
    ensures
        match prompt_in(j) {
            Some(p) => says_text(j, "role"@, p.role) && says_text(j, "content"@, p.content),
            None => (forall|s: Seq<char>| !#[trigger] says_text(j, "role"@, s)) || (forall|s: Seq<
                char,
            >|
                !#[trigger] says_text(j, "content"@, s)),
        },
        prompt_keys() == seq!["role"@, "content"@],
{
    strings_are_found_by_their_key(j, "role"@);
    strings_are_found_by_their_key(j, "content"@);
}

/// The prompts of a list come in order, and a list with one that is none has none at all.
pub proof fn prompts_keep_their_order(items: Seq<Seq<char>>, more: Seq<char>)
    ensures
        match prompts_in(items.push(more)) {
            Some(l) => prompts_in(items) is Some && prompt_in(shape_of(more)) is Some && l
                == prompts_in(items)->0.push(prompt_in(shape_of(more))->0),
            None => prompts_in(items) is None || prompt_in(shape_of(more)) is None,
        },
        prompts_in(Seq::<Seq<char>>::empty()) is Some,
        prompts_in(Seq::<Seq<char>>::empty())->0.len() == 0,
{
    assert(items.push(more).drop_last() =~= items);
}

/// A setting that is blank, no list, an empty list or a list that cannot be read stands for the
/// default prompt; any other for the prompts it lists.
pub proof fn presets_default_where_there_are_none(text: Seq<char>, j: JsonView)
    ensures
        trimmed(text).len() == 0 ==> presets_of(text) == seq![default_prompt()],
        trimmed(text).len() > 0 ==> presets_of(text) == presets_in(shape_of(text)),
        match j {
            JsonView::Array(items) => if prompts_in(items) is Some && prompts_in(items)->0.len() > 0 {
                presets_in(j) == prompts_in(items)->0
            } else {
                presets_in(j) == seq![default_prompt()]
            },
            _ => presets_in(j) == seq![default_prompt()],
        },
        default_prompt().role == "system"@,
        default_prompt().content == "你是一个生活小助手，帮助解答用户遇到的各种问题"@,
{
}

/// The provider, the model and the key are needed, in that order, and an address for a compatible
/// server; the first that is missing is named.
pub proof fn missing_settings_are_named(m: Map<Seq<char>, String>, lower: Seq<char>, known: bool)
    ensures
        (!m.contains_key("provider"@) || m["provider"@]@.len() == 0) ==> config_error(m, lower, known)
            == Some("Missing required config: 'provider'"@),
        config_error(m, lower, known) is None ==> {
            &&& m.contains_key("provider"@) && m["provider"@]@.len() > 0
            &&& m.contains_key("model_name"@) && m["model_name"@]@.len() > 0
            &&& m.contains_key("api_key"@) && m["api_key"@]@.len() > 0
            &&& lower == "openai-compat"@ || known
            &&& lower == "openai-compat"@ ==> m.contains_key("base_url"@)
        },
        m.contains_key("provider"@) && m["provider"@]@.len() > 0 && (lower == "openai-compat"@ || known)
            ==> {
            &&& (!m.contains_key("model_name"@) || m["model_name"@]@.len() == 0) ==> config_error(
                m,
                lower,
                known,
            ) == Some("Missing required config: 'model_name'"@)
            &&& m.contains_key("model_name"@) && m["model_name"@]@.len() > 0 && (!m.contains_key(
                "api_key"@,
            ) || m["api_key"@]@.len() == 0) ==> config_error(m, lower, known) == Some(
                "Missing required config: 'api_key'"@,
            )
        },
        m.contains_key("provider"@) && m["provider"@]@.len() > 0 && m.contains_key("model_name"@)
            && m["model_name"@]@.len() > 0 && m.contains_key("api_key"@) && m["api_key"@]@.len() > 0 ==> {
            &&& lower == "openai-compat"@ && !m.contains_key("base_url"@) ==> config_error(
                m,
                lower,
                known,
            ) == Some(
                "Missing required config: 'base_url' is required when provider is 'openai-compat'"@,
            )
            &&& lower != "openai-compat"@ && lower != "openai"@ && known ==> config_error(
                m,
                lower,
                known,
            ) is None
            &&& lower == "openai"@ && known ==> config_error(m, lower, known) is None
            &&& (lower == "openai-compat"@ || known) && m.contains_key("base_url"@) ==> config_error(
                m,
                lower,
                known,
            ) is None
        },
{
    reveal_strlit("openai");
    reveal_strlit("openai-compat");
    reveal_strlit("compat");
    assert("openai-compat"@.subrange(7, (7 + "compat"@.len()) as int) =~= "compat"@);
    assert(holds_text("openai-compat"@, "compat"@));
    assert(!holds_text("openai"@, "compat"@)) by {
        if holds_text("openai"@, "compat"@) {
            let i = choose|i: int|
                0 <= i <= "openai"@.len() - "compat"@.len() && #[trigger] "openai"@.subrange(
                    i,
                    i + "compat"@.len(),
                ) == "compat"@;
            assert("openai"@.subrange(i, i + "compat"@.len())[0] == 'o');
        }
    }
}

/// Settings are taken under their own names; a number of tokens that is none is left out.
pub proof fn settings_are_taken_by_name(
    c: LlmGatewayConfig<String>,
    m: Map<Seq<char>, String>,
    lower: Seq<char>,
    known: bool,
)
    requires
        config_of(c, m, lower, known),
    ensures
        lower != "openai-compat"@ ==> c.provider@ == lower,
        lower == "openai-compat"@ ==> c.provider@ == "openai"@,
        m.contains_key("model_name"@) && c.model_name@ == m["model_name"@]@,
        m.contains_key("api_key"@) && c.api_key@ == m["api_key"@]@,
        c.base_url is Some <==> m.contains_key("base_url"@),
        c.base_url is Some ==> c.base_url->0@ == m["base_url"@]@,
        c.temperature is Some <==> m.contains_key("temperature"@),
        c.temperature is Some ==> c.temperature->0@ == m["temperature"@]@,
        c.top_p is Some <==> m.contains_key("top_p"@),
        c.top_p is Some ==> c.top_p->0@ == m["top_p"@]@,
        !m.contains_key("max_tokens"@) ==> c.max_tokens is None,
        m.contains_key("max_tokens"@) ==> match parsed_unsigned(m["max_tokens"@]@, 0xffff_ffff) {
            Some(n) => c.max_tokens is Some && c.max_tokens->0 == n,
            None => c.max_tokens is None,
        },
        m.contains_key("system_prompts"@) ==> prompt_views(c.system_prompts@) == presets_of(
            m["system_prompts"@]@,
        ),
        !m.contains_key("system_prompts"@) ==> prompt_views(c.system_prompts@) == seq![
            default_prompt(),
        ],
{
    assert(trimmed(Seq::<char>::empty()).len() == 0);
}

/// The provider's name does not depend on its letters being small.
pub proof fn providers_are_named_in_small_letters(m: Map<Seq<char>, String>)
    ensures
        m.contains_key("provider"@) ==> lower_provider(m) == lowercase(m["provider"@]@),
{
}

/// Roles keep their names on the way to a provider. A role by name is one of the four, and the
/// user's where it is none; text speaks for the system, the assistant or the user.
pub proof fn roles_keep_their_names(role: ChatRole, name: Seq<char>, p: ProviderRole)
    ensures
        provider_role(role) is System <==> role is System,
        provider_role(role) is User <==> role is User,
        provider_role(role) is Assistant <==> role is Assistant,
        provider_role(role) is Tool <==> role is Tool,
        role_named(name) is System <==> name == "system"@,
        role_named(name) is Assistant <==> name == "assistant"@,
        role_named(name) is Tool <==> name == "tool"@,
        text_role(p) is System <==> p is System,
        text_role(p) is Assistant <==> p is Assistant,
        text_role(p) is User <==> p is User || p is Tool,
{
    reveal_strlit("system");
    reveal_strlit("assistant");
    reveal_strlit("tool");
    assert("system"@.len() != "assistant"@.len());
    assert("system"@.len() != "tool"@.len());
    assert("assistant"@.len() != "tool"@.len());
}

/// What the guest says in a part reaches the provider as it is; arguments that are no JSON are null.
pub proof fn parts_reach_the_provider(p: ContentPart, r: ProviderPart)
    requires
        provider_part(p, r),
    ensures
        match p {
            ContentPart::Text(s) => r is Text && r->Text_0@ == s@,
            ContentPart::Binary(b) => r is Binary && r->Binary_0 == b,
            ContentPart::ToolCall(t) => match r {
                ProviderPart::ToolCall(u) => u.call_id@ == t.call_id@ && u.fn_name@ == t.fn_name@ && (
                json_of(t.fn_arguments@) is Ok ==> u.fn_arguments@ == t.fn_arguments@) && (json_of(
                    t.fn_arguments@,
                ) is Err ==> u.fn_arguments@ == "null"@),
                _ => false,
            },
            ContentPart::ToolResponse(t) => r is ToolResponse && r->ToolResponse_0 == t,
        },
{
}

/// What a provider says reaches the guest as it is, but for what only concerns the provider, which
/// is an empty text.
pub proof fn parts_reach_the_guest(p: ProviderPart, r: ContentPart)
    requires
        guest_part(p, r),
    ensures
        match p {
            ProviderPart::Text(s) => r is Text && r->Text_0@ == s@,
            ProviderPart::Binary(b) => r is Binary && r->Binary_0 == b,
            ProviderPart::ToolCall(t) => r is ToolCall && r->ToolCall_0 == t,
            ProviderPart::ToolResponse(t) => r is ToolResponse && r->ToolResponse_0 == t,
            ProviderPart::Internal => r is Text && r->Text_0@.len() == 0,
        },
{
}

/// What is not an internal matter of the provider comes back from it as the guest sent it.
pub proof fn parts_survive(p: ContentPart, r: ProviderPart, back: ContentPart)
    requires
        provider_part(p, r),
        guest_part(r, back),
    ensures
        p is Text || p is Binary || p is ToolResponse ==> back == p,
        match p {
            ContentPart::ToolCall(t) => back is ToolCall && (json_of(t.fn_arguments@) is Ok
                ==> back->ToolCall_0.fn_arguments@ == t.fn_arguments@) && back->ToolCall_0.call_id
                == t.call_id && back->ToolCall_0.fn_name == t.fn_name,
            _ => true,
        },
{
}

/// A message has its own role and all its parts, in order.
pub proof fn messages_keep_their_parts(m: ChatMessage, r: ProviderMessage, i: int)
    requires
        provider_message(m, r),
        0 <= i < m.content.parts@.len(),
    ensures
        r.parts@.len() == m.content.parts@.len(),
        r.role == provider_role(m.role),
        provider_part(m.content.parts@[i], r.parts@[i]),
{
}

/// A request holds the preset prompts and then the guest's messages, all of them and in order.
pub proof fn presets_come_before_messages(
    r: Seq<ProviderMessage>,
    prompts: Seq<PresetPrompt>,
    messages: Seq<ChatMessage>,
    i: int,
)
    requires
        request_messages(r, prompts, messages),
    ensures
        r.len() == prompts.len() + messages.len(),
        0 <= i < prompts.len() ==> r[i].parts@.len() == 1 && r[i].parts@[0] is Text
            && r[i].parts@[0]->Text_0@ == prompts[i].content@ && (prompts[i].role@ == "system"@
            ==> r[i].role is System),
        0 <= i < messages.len() ==> provider_message(messages[i], r[prompts.len() + i]),
{
    if 0 <= i < prompts.len() {
        assert(is_text_message(r[i], text_role(role_named(prompts[i].role@)), prompts[i].content@));
    }
}

/// A message of text has its role and that text alone.
pub proof fn text_messages_hold_their_text(m: ProviderMessage, role: ProviderRole, text: Seq<char>)
    requires
        is_text_message(m, role, text),
    ensures
        m.role == role,
        m.parts@.len() == 1,
        match m.parts@[0] {
            ProviderPart::Text(t) => t@ == text,
            _ => false,
        },
{
}

/// Without options of the guest's own, a request goes by the configuration, and captures nothing.
pub proof fn requests_go_by_the_configuration<F>(c: LlmGatewayConfig<F>, q: Option<WitChatOptions<F>>)
    ensures
        merged_options(c, None).temperature == c.temperature,
        merged_options(c, None).max_tokens == c.max_tokens,
        merged_options(c, None).top_p == c.top_p,
        !merged_options(c, q).capture_usage,
        !merged_options(c, q).capture_content,
{
}

/// What is given first counts; what comes second counts only where there is no first.
pub proof fn the_first_given_counts<T>(first: Option<T>, second: Option<T>)
    ensures
        first is Some ==> either(first, second) == first,
        first is None ==> either(first, second) == second,
{
}

/// Counts of tokens are the provider's own, each under its own name; a missing one is nought, and a
/// negative one is taken as 64 bits are.
pub proof fn counts_are_the_providers(u: ProviderUsage, r: TokenUsage)
    requires
        usage_for(u, r),
    ensures
        u.prompt_tokens is None ==> r.prompt_tokens == 0,
        u.completion_tokens is None ==> r.completion_tokens == 0,
        u.total_tokens is None ==> r.total_tokens == 0,
        u.prompt_tokens is Some && u.prompt_tokens->0 >= 0 ==> r.prompt_tokens == u.prompt_tokens->0,
        u.completion_tokens is Some && u.completion_tokens->0 >= 0 ==> r.completion_tokens
            == u.completion_tokens->0,
        u.total_tokens is Some && u.total_tokens->0 >= 0 ==> r.total_tokens == u.total_tokens->0,
        u.prompt_tokens is Some && u.prompt_tokens->0 < 0 ==> r.prompt_tokens
            == 0x1_0000_0000_0000_0000 + u.prompt_tokens->0,
{
}

/// An error is told by what its message holds, and always with the message: authentication goes
/// before the rate of requests, and that before a missing model.
pub proof fn errors_are_told_by_their_message(message: Seq<char>, lower: Seq<char>)
    ensures
        ({
            let auth = holds_text(lower, "auth"@) || holds_text(lower, "api key"@) || holds_text(
                lower,
                "unauthorized"@,
            );
            let rate = holds_text(lower, "rate limit"@) || holds_text(lower, "too many requests"@);
            let missing = holds_text(lower, "not found"@) || holds_text(lower, "does not exist"@);
            match llm_error_of(message, lower) {
                LlmErrorView::AuthenticationError(m) => auth && m == message,
                LlmErrorView::RateLimitError(m) => rate && !auth && m == message,
                LlmErrorView::ModelNotFound(m) => missing && !rate && !auth && m == message,
                LlmErrorView::ProviderError(m) => !missing && !rate && !auth && m == message,
                _ => false,
            }
        }),
{
}

/// A stream stops at the first item that ends it, fails it or closes it, and goes on where there is
/// none; what was closed can be asked again.
pub proof fn streams_stop_at_the_end(items: Seq<StreamItem>)
    ensures
        0 <= stream_stop(items) <= items.len(),
        forall|i: int|
            0 <= i < stream_stop(items) ==> !(#[trigger] items[i] is End) && !(items[i] is Failed) && !(
            items[i] is Closed),
        stream_stop(items) < items.len() ==> items[stream_stop(items)] is End
            || items[stream_stop(items)] is Failed || items[stream_stop(items)] is Closed,
        stream_ends(items) <==> exists|i: int|
            0 <= i < items.len() && (#[trigger] items[i] is End || items[i] is Failed) && forall|k: int|
                0 <= k < i ==> !(#[trigger] items[k] is End) && !(items[k] is Failed) && !(items[k]
                    is Closed),
        stream_taken(items) == items.take(
            if stream_stop(items) < items.len() {
                stream_stop(items) + 1
            } else {
                items.len() as int
            },
        ),
    decreases items.len(),
{
    lemma_stops(items);
    assert(items.take(items.len() as int) =~= items);
    let n = stream_stop(items);
    if stream_ends(items) {
        assert(items[n] is End || items[n] is Failed);
    }
    if exists|i: int|
        0 <= i < items.len() && (#[trigger] items[i] is End || items[i] is Failed) && forall|k: int|
            0 <= k < i ==> !(#[trigger] items[k] is End) && !(items[k] is Failed) && !(items[k]
                is Closed) {
        let i = choose|i: int|
            0 <= i < items.len() && (#[trigger] items[i] is End || items[i] is Failed) && forall|k: int|
                0 <= k < i ==> !(#[trigger] items[k] is End) && !(items[k] is Failed) && !(items[k]
                    is Closed);
        if n < i {
            assert(!(items[n] is End));
        }
        if i < n {
            assert(!(items[i] is End));
        }
        assert(n == i);
    }
}

proof fn lemma_stops(items: Seq<StreamItem>)
    ensures
        0 <= stream_stop(items) <= items.len(),
        forall|i: int|
            0 <= i < stream_stop(items) ==> !(#[trigger] items[i] is End) && !(items[i] is Failed) && !(
            items[i] is Closed),
        stream_stop(items) < items.len() ==> items[stream_stop(items)] is End
            || items[stream_stop(items)] is Failed || items[stream_stop(items)] is Closed,
    decreases items.len(),
{
    if items.len() > 0 && !(items[0] is End || items[0] is Failed || items[0] is Closed) {
        let d = items.drop_first();
        lemma_stops(d);
        assert forall|i: int| 0 <= i < stream_stop(items) implies !(#[trigger] items[i] is End) && !(
        items[i] is Failed) && !(items[i] is Closed) by {
            if i > 0 {
                assert(d[i - 1] == items[i]);
            }
        }
        if stream_stop(d) < d.len() {
            assert(d[stream_stop(d)] == items[stream_stop(d) + 1]);
        }
    }
}

/// The guest is told of texts, of the end and of failures, in order, and of nothing else.
pub proof fn guests_are_told_in_order(items: Seq<StreamItem>, more: StreamItem)
    ensures
        more is Chunk || more is End || more is Failed ==> told(items.push(more)) == told(items).push(
            more,
        ),
        more is Start || more is Other || more is Closed ==> told(items.push(more)) == told(items),
        told(Seq::<StreamItem>::empty()).len() == 0,
{
    assert(items.push(more).drop_last() =~= items);
}

/// A text is told as that text, a failure as its message, and the end with the model of the stream,
/// its reason and its counts.
pub proof fn guests_are_told_what_came(i: StreamItem, model: Option<String>, e: ChatStreamEvent)
    requires
        stream_event(i, model, e),
    ensures
        match i {
            StreamItem::Chunk(t) => e is Chunk && e->Chunk_0@ == t@,
            StreamItem::Failed(m) => e is Error && e->Error_0@ == m@,
            StreamItem::End(end) => match e {
                ChatStreamEvent::End(g) => {
                    &&& model is Some ==> g.model@ == model->0@
                    &&& model is None ==> g.model@.len() == 0
                    &&& g.stop_reason == end.stop_reason
                    &&& g.usage is Some <==> end.usage is Some
                    &&& end.usage is Some ==> g.usage->0.prompt_tokens == token_count(
                        end.usage->0.prompt_tokens,
                    ) && g.usage->0.completion_tokens == token_count(
                        end.usage->0.completion_tokens,
                    ) && g.usage->0.total_tokens == token_count(end.usage->0.total_tokens)
                },
                _ => false,
            },
            _ => false,
        },
{
}

/// A request without messages, of a component that is not bound, or of one without a configuration
/// is refused, in that order, and the answer says which.
pub proof fn refusals_say_why<F>(
    o: Option<Owned<ComponentData<F>>>,
    id: Seq<char>,
    messages: Seq<ChatMessage>,
)
    ensures
        match refusal(o, id, messages) {
            None => messages.len() > 0 && o is Some && o->0.data.config is Some,
            Some(LlmErrorView::InvalidRequest(m)) => messages.len() == 0 && m
                == "Messages list cannot be empty"@,
            Some(LlmErrorView::Unexpected(m)) => messages.len() > 0 && match o {
                None => m == "No LLM Gateway config found for component '"@ + id + "'"@,
                Some(c) => c.data.config is None && m
                    == "LLM Gateway config not set for component '"@ + id + "'"@,
            },
            Some(_) => false,
        },
{
}

/// A key that the guest passes makes a client for this request alone, for the configured provider,
/// at the guest's address or else the configured one. Otherwise the configured client is used,
/// which is made once.
pub proof fn clients_are_for_their_key<F>(
    c: ClientChoice,
    data: ComponentData<F>,
    config: Option<LlmConfig>,
)
    requires
        data.config is Some,
        client_for(c, data, config),
    ensures
        config is Some ==> match c {
            ClientChoice::MakeOnce { provider, api_key, base_url } => {
                &&& provider@ == data.config->0.provider@
                &&& api_key@ == config->0.api_key@
                &&& config->0.base_url is Some ==> opt_view(base_url) == opt_view(
                    config->0.base_url,
                )
                &&& config->0.base_url is None ==> opt_view(base_url) == opt_view(
                    data.config->0.base_url,
                )
            },
            _ => false,
        },
        config is None && data.has_client ==> c is Kept,
        config is None && !data.has_client ==> match c {
            ClientChoice::MakeAndKeep { provider, api_key, base_url } => {
                &&& provider@ == data.config->0.provider@
                &&& api_key@ == data.config->0.api_key@
                &&& opt_view(base_url) == opt_view(data.config->0.base_url)
            },
            _ => false,
        },
{
}

/// The plugin goes by its own name, and takes and gives the interfaces of its own package.
pub proof fn the_plugin_and_its_world<F>(p: LlmGateway<F>, id: &'static str, w: WitWorld)
    requires
        call_ensures(LlmGateway::<F>::id, (&p,), id),
        call_ensures(LlmGateway::<F>::world, (&p,), w),
    ensures
        id@ == "llm-gateway-provider"@,
        w.imports@.len() == 0,
        w.exports@.len() == 1,
        w.exports@[0].names(
            "custom"@,
            "llm-gateway"@,
            seq!["chat"@, "chat-streaming"@],
            "0.1.0"@,
        ),
{
}

/// What a provider answers is told to the guest: all parts in order, its model, its reason and its
/// counts.
pub proof fn answers_reach_the_guest(
    parts: Vec<ProviderPart>,
    model: String,
    reason: Option<StopReason>,
    usage: ProviderUsage,
    r: ChatResponse,
    i: int,
)
    requires
        call_ensures(chat_response, (parts, model, reason, usage), r),
    ensures
        r.content.parts@.len() == parts@.len(),
        0 <= i < parts@.len() ==> guest_part(parts@[i], r.content.parts@[i]),
        r.model@ == model@,
        r.stop_reason == reason,
        r.usage is Some,
        r.usage->0.prompt_tokens == token_count(usage.prompt_tokens),
        r.usage->0.completion_tokens == token_count(usage.completion_tokens),
        r.usage->0.total_tokens == token_count(usage.total_tokens),
{
}

/// The reason why an answer ended is the provider's.
pub proof fn reasons_are_the_providers(reason: StopReason, r: StopReason)
    requires
        call_ensures(to_wit_stop_reason, (reason,), r),
    ensures
        match reason {
            StopReason::Completed(s) => r is Completed && r->Completed_0 == s,
            StopReason::MaxTokens(s) => r is MaxTokens && r->MaxTokens_0 == s,
            StopReason::ToolCall(s) => r is ToolCall && r->ToolCall_0 == s,
            StopReason::ContentFilter(s) => r is ContentFilter && r->ContentFilter_0 == s,
            StopReason::StopSequence(s) => r is StopSequence && r->StopSequence_0 == s,
            StopReason::Other(s) => r is Other && r->Other_0 == s,
        },
{
}

/// A request names its model, or has the configured one where it names none; it holds the preset
/// prompts and the guest's messages.
pub proof fn requests_name_their_model<F: Copy>(
    g: LlmGateway<F>,
    id: &str,
    model: String,
    messages: Vec<ChatMessage>,
    options: Option<WitChatOptions<F>>,
    config: Option<LlmConfig>,
    r: Result<ChatPlan<F>, LlmError>,
)
    requires
        call_ensures(LlmGateway::<F>::chat, (&g, id, model, messages, options, config), r),
    ensures
        r is Ok <==> messages@.len() > 0 && g.tracker@.contains_key(id@)
            && g.tracker@[id@].data.config is Some,
        r is Ok ==> {
            let c = g.tracker@[id@].data.config->0;
            &&& model@.len() > 0 ==> r->Ok_0.model@ == model@
            &&& model@.len() == 0 ==> r->Ok_0.model@ == c.model_name@
            &&& r->Ok_0.messages@.len() == c.system_prompts@.len() + messages@.len()
            &&& options is None ==> r->Ok_0.options.temperature == c.temperature
                && r->Ok_0.options.max_tokens == c.max_tokens && r->Ok_0.options.top_p == c.top_p
            &&& options is Some && options->0.max_tokens is Some ==> r->Ok_0.options.max_tokens
                == options->0.max_tokens
            &&& config is None && g.tracker@[id@].data.has_client ==> r->Ok_0.client is Kept
            &&& config is Some ==> r->Ok_0.client is MakeOnce
        },
        r is Err && messages@.len() == 0 ==> r->Err_0@ == LlmErrorView::InvalidRequest(
            "Messages list cannot be empty"@,
        ),
{
}

/// A message of text by its role: for the system, the assistant, or else the user.
pub proof fn text_messages_by_role(role: &str, text: &str, r: ProviderMessage)
    requires
        call_ensures(text_message, (role, text), r),
    ensures
        role@ == "system"@ ==> r.role is System,
        role@ == "assistant"@ ==> r.role is Assistant,
        role@ != "system"@ && role@ != "assistant"@ ==> r.role is User,
        r.parts@.len() == 1 && r.parts@[0] is Text && r.parts@[0]->Text_0@ == text@,
{
    roles_keep_their_names(ChatRole::User, role@, role_named(role@));
}

/// Other sampling settings leave the rest of a configuration as it is.
pub proof fn sampling_leaves_the_rest<F, G>(
    c: LlmGatewayConfig<F>,
    temperature: Option<G>,
    top_p: Option<G>,
    r: LlmGatewayConfig<G>,
)
    requires
        call_ensures(LlmGatewayConfig::<F>::with_sampling::<G>, (c, temperature, top_p), r),
    ensures
        r.temperature == temperature && r.top_p == top_p,
        r.provider@ == c.provider@ && r.model_name@ == c.model_name@ && r.api_key@ == c.api_key@,
        opt_view(r.base_url) == opt_view(c.base_url),
        r.max_tokens == c.max_tokens && r.system_prompts@ == c.system_prompts@,
{
}

/// A provider is refused by its name, and accepted in any letters.
pub proof fn providers_are_accepted_by_name(provider: &str, r: Result<String, String>)
    requires
        call_ensures(parse_provider, (provider,), r),
    ensures
        ({
            let lower = lowercase(provider@);
            match r {
                Ok(p) => if lower == "openai-compat"@ {
                    p@ == "openai"@
                } else {
                    known_adapter(lower) && p@ == lower
                },
                Err(e) => lower != "openai-compat"@ && !known_adapter(lower) && e@
                    == "Unknown provider '"@ + lower
                    + "'. Supported: openai, anthropic, gemini, deepseek, ollama, groq, openai-compat"@,
            }
        }),
{
}

/// A read of a stream tells what came up to its end, in order, and whether it has ended; a stream
/// that has ended tells nothing more.
pub proof fn reads_tell_what_came(
    h: &mut ChatStreamHandle,
    items: Vec<StreamItem>,
    r: (Vec<ChatStreamEvent>, bool),
)
    requires
        call_ensures(next, (h, items), r),
    ensures
        old(h).ended ==> r.0@.len() == 0 && r.1 && final(h).ended,
        !old(h).ended ==> {
            &&& r.1 <==> exists|i: int|
                0 <= i < items@.len() && (#[trigger] items@[i] is End || items@[i] is Failed)
                    && forall|k: int|
                    0 <= k < i ==> !(#[trigger] items@[k] is End) && !(items@[k] is Failed) && !(
                    items@[k] is Closed)
            &&& final(h).ended == r.1
            &&& r.0@.len() == told(stream_taken(items@)).len()
            &&& forall|i: int|
                0 <= i < r.0@.len() ==> stream_event(
                    told(stream_taken(items@))[i],
                    old(h).model,
                    #[trigger] r.0@[i],
                )
        },
        final(h).model == old(h).model,
{
    streams_stop_at_the_end(items@);
}

/// A bound component has its configuration and no client yet.
pub proof fn components_are_bound_for_their_workload<F>(
    g: &mut LlmGateway<F>,
    id: &str,
    workload: &str,
    config: LlmGatewayConfig<F>,
)
    requires
        call_ensures(LlmGateway::<F>::on_workload_item_bind, (g, id, workload, config), ()),
    ensures
        final(g).tracker@.contains_key(id@),
        final(g).tracker@[id@].workload_id@ == workload@,
        final(g).tracker@[id@].data.config == Some(config),
        !final(g).tracker@[id@].data.has_client,
{
}

} // verus!
