//! Codex sessions: which process a prompt goes to, what its stream hands to the guest, and the
//! approval of commands.
use vstd::prelude::*;
use crate::codex_process::{usage_fits, usage_plus, CodexJsonlEvent, CodexSpawnConfig, CodexUsage, EventView, TokenUsageAccum, UsageView};
use crate::json::{as_text, get_text, member, member_text, members_are_found_by_their_key, read_value, says_text, stands_under, strings_are_found_by_their_key, text_member, text_value, value_of, Json, JsonView};
use crate::number::{all_digits, decimal, decimal_is_injective, u128_text};
use crate::table::{config_get, data_of, lemma_map_of_keys, lemma_put, lookup, outside_workload, put_at, resolve_field, resolved, setting, Config, Owned, Table, Tracker};
use crate::text::{cat2, cat3, copy_opt, opt_view, same};
use crate::world::{bound_config, first_of_package, two, WitInterface, WitWorld};

verus! {

pub const PLUGIN_ID: &'static str = "codex";

/// Host-side state of a stream of events.
pub struct ExecStreamHandle {
    pub session_key: String,
    pub ended: bool,
}

/// What is known of a session for listing it.
pub struct SessionMetadata {
    pub session_id: String,
    pub thread_id: String,
    pub context_key: String,
    pub created_at: String,
}

/// The state of one run of Codex.
pub struct CodexSessionState {
    pub pending_events: Vec<CodexJsonlEvent>,
    pub ended: bool,
    pub usage: TokenUsageAccum,
    pub session_id: Option<String>,
    /// Whether the input of the process can be written to.
    pub has_stdin: bool,
    pub auto_approve: bool,
    pub pending_approval_item_id: Option<String>,
}

pub struct SessionView {
    pub pending: Seq<CodexJsonlEvent>,
    pub ended: bool,
    pub usage: UsageView,
    pub session_id: Option<Seq<char>>,
    pub has_stdin: bool,
    pub auto_approve: bool,
    pub approval: Option<Seq<char>>,
}

impl CodexSessionState {
    pub open spec fn view(&self) -> SessionView {
        SessionView {
            pending: self.pending_events@,
            ended: self.ended,
            usage: self.usage@,
            session_id: opt_view(self.session_id),
            has_stdin: self.has_stdin,
            auto_approve: self.auto_approve,
            approval: opt_view(self.pending_approval_item_id),
        }
    }
}

/// What the plugin keeps for a component.
pub struct ComponentData {
    /// Cancels all that runs for the component.
    pub cancel_token: u64,
    pub interface_config: Config,
    /// Sessions by their internal key.
    pub sessions: Table<CodexSessionState>,
    /// Internal keys by session id.
    pub session_id_map: Table<String>,
    /// The internal key of the current session of each context.
    pub current_sessions: Table<String>,
    pub session_metadata: Table<SessionMetadata>,
}

pub struct Codex {
    pub tracker: Tracker<ComponentData>,
}

pub enum CodexError {
    ConfigError(String),
    ProcessError(String),
    NotFound(String),
    Internal(String),
}

pub enum CodexErrorView {
    ConfigError(Seq<char>),
    ProcessError(Seq<char>),
    NotFound(Seq<char>),
    Internal(Seq<char>),
}

impl CodexError {
    pub open spec fn view(&self) -> CodexErrorView {
        match self {
            CodexError::ConfigError(m) => CodexErrorView::ConfigError(m@),
            CodexError::ProcessError(m) => CodexErrorView::ProcessError(m@),
            CodexError::NotFound(m) => CodexErrorView::NotFound(m@),
            CodexError::Internal(m) => CodexErrorView::Internal(m@),
        }
    }
}

#[derive(Clone, Copy, Debug)]
pub struct TokenUsage {
    pub input_tokens: u64,
    pub cached_input_tokens: u64,
    pub output_tokens: u64,
}

pub struct SessionInfo {
    pub session_id: String,
    pub thread_id: String,
    pub created_at: String,
    pub token_usage: Option<TokenUsage>,
}

pub struct CodexEvent {
    pub event_type: String,
    pub item_id: Option<String>,
    pub item_type: Option<String>,
    pub text_content: Option<String>,
    pub command: Option<String>,
    pub status: Option<String>,
    pub raw_json: String,
}

pub struct ApprovalRequest {
    pub item_id: String,
    pub command: String,
}

/// An event as the guest sees it.
pub enum ExecStreamEvent {
    Event(CodexEvent),
    Usage(TokenUsage),
    Error(String),
    ApprovalNeeded(ApprovalRequest),
    Done(String),
}

/// What the guest gets from a stream, and whether the pending command is to be approved.
pub struct NextBatch {
    pub events: Vec<ExecStreamEvent>,
    pub done: bool,
    /// Write this to the process, where there is something to write.
    pub write: Option<&'static str>,
}

/// Settings that the guest passes.
pub struct WitCodexConfig {
    pub api_token: String,
    pub model: String,
    pub base_url: Option<String>,
    pub codex_binary_path: Option<String>,
    pub project_dir: Option<String>,
}

/// The settings of a run.
pub struct CodexConfig {
    pub binary_path: String,
    pub model: String,
    pub api_token: String,
    pub base_url: Option<String>,
    pub project_dir: String,
}

/// Where a prompt goes.
pub enum ExecutePlan {
    /// Resume the session with this id.
    Resume(String),
    Create,
}

// ---- Settings ----

/// `c` holds the settings of a configuration, with the given paths where it names none.
pub open spec fn settings_of(
    c: CodexConfig,
    m: Map<Seq<char>, String>,
    default_binary: Seq<char>,
    default_dir: Seq<char>,
) -> bool {
    &&& setting(m, "api_token"@) == Some(c.api_token@)
    &&& setting(m, "model"@) == Some(c.model@)
    &&& opt_view(c.base_url) == setting(m, "base_url"@)
    &&& c.binary_path@ == match setting(m, "codex_binary_path"@) {
        Some(p) => p,
        None => default_binary,
    }
    &&& c.project_dir@ == match setting(m, "project_dir"@) {
        Some(p) => p,
        None => default_dir,
    }
}

pub open spec fn blank(o: Option<Seq<char>>) -> bool {
    match o {
        Some(t) => t.len() == 0,
        None => true,
    }
}

/// Checks the static configuration: a token and a model are asked for.
pub fn extract_config(config: &Config, default_binary: &str, default_dir: &str) -> (r: Result<
    CodexConfig,
    String,
>)
    ensures
        match r {
            Ok(c) => !blank(setting(config@, "api_token"@)) && !blank(setting(config@, "model"@))
                && settings_of(c, config@, default_binary@, default_dir@),
            Err(e) => if blank(setting(config@, "api_token"@)) {
                e@ == "missing required config: 'api_token'"@
            } else {
                blank(setting(config@, "model"@)) && e@ == "missing required config: 'model'"@
            },
        },
{
    let api_token = match config_get(config, "api_token") {
        Some(t) => t,
        None => String::new(),
    };
    if api_token.as_str().is_empty() {
        return Err("missing required config: 'api_token'".to_owned());
    }
    let model = match config_get(config, "model") {
        Some(t) => t,
        None => String::new(),
    };
    if model.as_str().is_empty() {
        return Err("missing required config: 'model'".to_owned());
    }
    Ok(
        CodexConfig {
            binary_path: match config_get(config, "codex_binary_path") {
                Some(p) => p,
                None => default_binary.to_owned(),
            },
            model,
            api_token,
            base_url: config_get(config, "base_url"),
            project_dir: match config_get(config, "project_dir") {
                Some(p) => p,
                None => default_dir.to_owned(),
            },
        },
    )
}

/// The token and the model of a run: what the guest passes goes before the configuration.
pub open spec fn run_token(d: Option<WitCodexConfig>, m: Map<Seq<char>, String>) -> Option<Seq<char>> {
    resolved(
        match d {
            Some(c) => Some(c.api_token@),
            None => None,
        },
        m,
        "api_token"@,
    )
}

pub open spec fn run_model(d: Option<WitCodexConfig>, m: Map<Seq<char>, String>) -> Option<Seq<char>> {
    resolved(
        match d {
            Some(c) => Some(c.model@),
            None => None,
        },
        m,
        "model"@,
    )
}

/// `c` holds the settings of a run: each one that the guest passes, else that of the configuration,
/// else the given path.
pub open spec fn run_settings(
    c: CodexConfig,
    d: Option<WitCodexConfig>,
    m: Map<Seq<char>, String>,
    default_binary: Seq<char>,
    default_dir: Seq<char>,
) -> bool {
    let base_url = match d {
        Some(c) => opt_view(c.base_url),
        None => None,
    };
    let binary = match d {
        Some(c) => opt_view(c.codex_binary_path),
        None => None,
    };
    let dir = match d {
        Some(c) => opt_view(c.project_dir),
        None => None,
    };
    &&& run_token(d, m) == Some(c.api_token@)
    &&& run_model(d, m) == Some(c.model@)
    &&& opt_view(c.base_url) == resolved(base_url, m, "base_url"@)
    &&& c.binary_path@ == match resolved(binary, m, "codex_binary_path"@) {
        Some(p) => p,
        None => default_binary,
    }
    &&& c.project_dir@ == match resolved(dir, m, "project_dir"@) {
        Some(p) => p,
        None => default_dir,
    }
}

/// The settings of a run for which a default is needed.
pub struct Defaults {
    pub binary: bool,
    pub project_dir: bool,
}

/// Which settings of a run are neither passed nor configured and have a default.
pub fn needed_defaults(dynamic_config: &Option<WitCodexConfig>, interface_config: &Config) -> (r: Defaults)
    ensures
        r.binary == (resolved(
            match *dynamic_config {
                Some(c) => opt_view(c.codex_binary_path),
                None => None,
            },
            interface_config@,
            "codex_binary_path"@,
        ) is None),
        r.project_dir == (resolved(
            match *dynamic_config {
                Some(c) => opt_view(c.project_dir),
                None => None,
            },
            interface_config@,
            "project_dir"@,
        ) is None),
{
    let (binary, dir) = match dynamic_config {
        Some(c) => (copy_opt(&c.codex_binary_path), copy_opt(&c.project_dir)),
        None => (None, None),
    };
    Defaults {
        binary: resolve_field(binary, interface_config, "codex_binary_path").is_none(),
        project_dir: resolve_field(dir, interface_config, "project_dir").is_none(),
    }
}

/// The settings of a run, or the name of the setting that is missing or empty. A setting that is
/// neither passed nor configured is reported like an empty one.
pub fn resolve_codex_config(
    dynamic_config: Option<WitCodexConfig>,
    interface_config: &Config,
    default_binary: &str,
    default_dir: &str,
) -> (r: Result<CodexConfig, String>)
    ensures
        match r {
            Ok(c) => !blank(run_token(dynamic_config, interface_config@)) && !blank(
                run_model(dynamic_config, interface_config@),
            ) && run_settings(
                c,
                dynamic_config,
                interface_config@,
                default_binary@,
                default_dir@,
            ),
            Err(e) => if blank(run_token(dynamic_config, interface_config@)) {
                e@ == "missing required config: 'api_token'"@
            } else {
                blank(run_model(dynamic_config, interface_config@)) && e@
                    == "missing required config: 'model'"@
            },
        },
{
    let (token, model, base_url, binary, dir) = match dynamic_config {
        Some(c) => (
            Some(c.api_token),
            Some(c.model),
            c.base_url,
            c.codex_binary_path,
            c.project_dir,
        ),
        None => (None, None, None, None, None),
    };
    let api_token = match resolve_field(token, interface_config, "api_token") {
        Some(t) => t,
        None => String::new(),
    };
    if api_token.as_str().is_empty() {
        return Err("missing required config: 'api_token'".to_owned());
    }
    let model = match resolve_field(model, interface_config, "model") {
        Some(t) => t,
        None => String::new(),
    };
    if model.as_str().is_empty() {
        return Err("missing required config: 'model'".to_owned());
    }
    Ok(
        CodexConfig {
            binary_path: match resolve_field(binary, interface_config, "codex_binary_path") {
                Some(p) => p,
                None => default_binary.to_owned(),
            },
            model,
            api_token,
            base_url: resolve_field(base_url, interface_config, "base_url"),
            project_dir: match resolve_field(dir, interface_config, "project_dir") {
                Some(p) => p,
                None => default_dir.to_owned(),
            },
        },
    )
}

impl CodexConfig {
    /// What starts the process.
    pub fn spawn_config(self) -> (r: CodexSpawnConfig)
        ensures
            r.binary_path == self.binary_path,
            r.model == self.model,
            r.api_token == self.api_token,
            r.base_url == self.base_url,
            r.project_dir == self.project_dir,
    {
        CodexSpawnConfig {
            binary_path: self.binary_path,
            model: self.model,
            api_token: self.api_token,
            base_url: self.base_url,
            project_dir: self.project_dir,
        }
    }
}

/// The step of starting a process that failed.
pub enum StartStep {
    EnsureBinary,
    Spawn,
    SpawnResume,
    TakeOutput,
}

/// The error that the guest is told for a failed step.
pub fn start_error(step: StartStep, message: &str) -> (r: CodexError)
    ensures
        r@ == CodexErrorView::ProcessError(
            match step {
                StartStep::EnsureBinary => "codex binary not available: "@ + message@,
                StartStep::Spawn => "failed to spawn codex: "@ + message@,
                StartStep::SpawnResume => "failed to spawn codex resume: "@ + message@,
                StartStep::TakeOutput => "codex process has no stdout"@,
            },
        ),
{
    CodexError::ProcessError(
        match step {
            StartStep::EnsureBinary => cat2("codex binary not available: ", message),
            StartStep::Spawn => cat2("failed to spawn codex: ", message),
            StartStep::SpawnResume => cat2("failed to spawn codex resume: ", message),
            StartStep::TakeOutput => "codex process has no stdout".to_owned(),
        },
    )
}

// ---- Keys ----

/// The time now in nanoseconds since the Unix epoch, by `SystemTime::now` of std; zero where the
/// clock stands before the epoch. A span of std holds its seconds in 64 bits; nothing else is known
/// of it.
#[verifier::external_body]
fn nanos_now() -> (r: u128)
    ensures
        r < 18_446_744_073_709_551_616_000_000_000,
{
    std::time::SystemTime::now().duration_since(std::time::UNIX_EPOCH).unwrap_or_default().as_nanos()
}

/// Makes the keys of sessions.
pub struct SessionKeys {
    /// The keys made so far stand for numbers below this one.
    pub next: u128,
}

/// `key` is the key that is made at a time given in nanoseconds: the time as decimal digits, or the
/// next number where a key was made for that time or a later one.
pub open spec fn makes_key(before: SessionKeys, after: SessionKeys, nanos: u128, key: Seq<char>) -> bool {
    let number = if nanos < before.next {
        before.next
    } else {
        nanos
    };
    &&& key == decimal(number as nat)
    &&& after.next == number + 1
}

/// A key that was made already.
pub open spec fn made(keys: SessionKeys, key: Seq<char>) -> bool {
    exists|number: u128| number < keys.next && key == #[trigger] decimal(number as nat)
}

impl SessionKeys {
    pub fn new() -> (r: SessionKeys)
        ensures
            r.next == 0,
    {
        SessionKeys { next: 0 }
    }

    /// The key of a session that starts at a time given in nanoseconds.
    pub fn session_key_at(&mut self, nanos: u128) -> (r: String)
        requires
            old(self).next < u128::MAX,
            nanos < u128::MAX,
        ensures
            makes_key(*old(self), *final(self), nanos, r@),
    {
        let number: u128 = if nanos < self.next {
            self.next
        } else {
            nanos
        };
        self.next = number + 1;
        u128_text(number)
    }

    /// A key for a session that starts now: decimal digits, and no key that was made before.
    pub fn new_session_key(&mut self) -> (r: String)
        requires
            old(self).next < u128::MAX,
        ensures
            exists|nanos: u128|
                nanos < 18_446_744_073_709_551_616_000_000_000 && #[trigger] makes_key(
                    *old(self),
                    *final(self),
                    nanos,
                    r@,
                ),
            final(self).next <= 18_446_744_073_709_551_616_000_000_000 || final(self).next == old(
                self,
            ).next + 1,
            r@.len() >= 1,
            all_digits(r@),
            !made(*old(self), r@),
            made(*final(self), r@),
            forall|key: Seq<char>| made(*old(self), key) ==> #[trigger] made(*final(self), key),
    {
        let nanos = nanos_now();
        let ghost before = *self;
        let key = self.session_key_at(nanos);
        proof {
            new_keys_were_not_made(before, *self, nanos, key@);
        }
        key
    }
}

impl Default for SessionKeys {
    fn default() -> (r: SessionKeys)
        ensures
            r.next == 0,
    {
        SessionKeys::new()
    }
}

/// A new key was not made before, whatever the clock says; what was made stays made.
pub proof fn new_keys_were_not_made(before: SessionKeys, after: SessionKeys, nanos: u128, key: Seq<char>)
    requires
        makes_key(before, after, nanos, key),
    ensures
        !made(before, key),
        made(after, key),
        forall|k: Seq<char>| made(before, k) ==> #[trigger] made(after, k),
        key.len() >= 1,
        all_digits(key),
{
    let number = if nanos < before.next {
        before.next
    } else {
        nanos
    };
    crate::number::lemma_decimal_digits(number as nat);
    if made(before, key) {
        let n = choose|n: u128| n < before.next && key == #[trigger] decimal(n as nat);
        crate::number::decimal_is_injective(n as nat, number as nat);
    }
    assert(number < after.next && key == decimal(number as nat));
    assert forall|k: Seq<char>| made(before, k) implies #[trigger] made(after, k) by {
        let n = choose|n: u128| n < before.next && k == #[trigger] decimal(n as nat);
        assert(n < after.next && k == decimal(n as nat));
    }
}

/// Any two of the keys that are made one after the other differ, whatever the clock says.
pub proof fn session_keys_are_unique(
    states: Seq<SessionKeys>,
    times: Seq<u128>,
    keys: Seq<Seq<char>>,
    i: int,
    k: int,
)
    requires
        states.len() == keys.len() + 1,
        times.len() == keys.len(),
        forall|n: int|
            0 <= n < keys.len() ==> makes_key(states[n], states[n + 1], times[n], #[trigger] keys[n]),
        0 <= i < k < keys.len(),
    ensures
        keys[i] != keys[k],
{
    assert(makes_key(states[i], states[i + 1], times[i], keys[i]));
    new_keys_were_not_made(states[i], states[i + 1], times[i], keys[i]);
    lemma_stays_made(states, times, keys, keys[i], i + 1, k);
    assert(makes_key(states[k], states[k + 1], times[k], keys[k]));
    new_keys_were_not_made(states[k], states[k + 1], times[k], keys[k]);
}

proof fn lemma_stays_made(
    states: Seq<SessionKeys>,
    times: Seq<u128>,
    keys: Seq<Seq<char>>,
    key: Seq<char>,
    i: int,
    k: int,
)
    requires
        states.len() == keys.len() + 1,
        times.len() == keys.len(),
        forall|n: int|
            0 <= n < keys.len() ==> makes_key(states[n], states[n + 1], times[n], #[trigger] keys[n]),
        0 <= i <= k <= keys.len(),
        made(states[i], key),
    ensures
        made(states[k], key),
    decreases k - i,
{
    if i < k {
        assert(makes_key(states[i], states[i + 1], times[i], keys[i]));
        new_keys_were_not_made(states[i], states[i + 1], times[i], keys[i]);
        lemma_stays_made(states, times, keys, key, i + 1, k);
    }
}

/// Where the sessions of a component have keys that were made, a new key takes the place of none of
/// them, and the keys of the sessions with the new one were made again.
pub proof fn new_keys_replace_no_session(
    data: ComponentData,
    before: SessionKeys,
    after: SessionKeys,
    nanos: u128,
    key: Seq<char>,
)
    requires
        makes_key(before, after, nanos, key),
        forall|k: Seq<char>| #[trigger] data.sessions@.contains_key(k) ==> made(before, k),
    ensures
        !data.sessions@.contains_key(key),
        made(after, key),
        forall|k: Seq<char>| #[trigger] data.sessions@.contains_key(k) ==> made(after, k),
{
    new_keys_were_not_made(before, after, nanos, key);
}

// ---- Events ----

pub struct ItemFields {
    pub item_id: Option<String>,
    pub item_type: Option<String>,
    pub text_content: Option<String>,
    pub command: Option<String>,
    pub status: Option<String>,
}

/// The fields of an item that are strings.
pub fn extract_item_fields(item: &Json) -> (r: ItemFields)
    ensures
        opt_view(r.item_id) == text_member(item@, "id"@),
        opt_view(r.item_type) == text_member(item@, "type"@),
        opt_view(r.text_content) == text_member(item@, "text"@),
        opt_view(r.command) == text_member(item@, "command"@),
        opt_view(r.status) == text_member(item@, "status"@),
{
    ItemFields {
        item_id: get_text(item, "id"),
        item_type: get_text(item, "type"),
        text_content: get_text(item, "text"),
        command: get_text(item, "command"),
        status: get_text(item, "status"),
    }
}

/// The id by which a request for approval is answered: `call_id`, or `id` where there is none.
pub open spec fn approval_id(item: JsonView) -> Seq<char> {
    let raw = match member(item, "call_id"@) {
        Some(t) => Some(t),
        None => member(item, "id"@),
    };
    match raw {
        Some(t) => match text_value(t) {
            Some(s) => s,
            None => "unknown"@,
        },
        None => "unknown"@,
    }
}

/// The command that a request for approval is about: a string, or the JSON text of what else stands
/// there.
pub open spec fn approval_command(item: JsonView) -> Seq<char> {
    match member(item, "command"@) {
        Some(t) => match text_value(t) {
            Some(s) => s,
            None => t,
        },
        None => Seq::<char>::empty(),
    }
}

/// The id by which a request for approval is answered.
pub fn approval_item_id(item: &Json) -> (r: String)
    ensures
        r@ == approval_id(item@),
{
    let raw = match member_text(item, "call_id") {
        Some(t) => Some(t),
        None => member_text(item, "id"),
    };
    match raw {
        Some(t) => match as_text(&t) {
            Some(s) => s,
            None => "unknown".to_owned(),
        },
        None => "unknown".to_owned(),
    }
}

/// The request for approval that the guest sees.
pub fn approval_request(item: &Json) -> (r: ApprovalRequest)
    ensures
        r.item_id@ == approval_id(item@),
        r.command@ == approval_command(item@),
{
    let command = match member_text(item, "command") {
        Some(t) => match as_text(&t) {
            Some(s) => s,
            None => t,
        },
        None => String::new(),
    };
    ApprovalRequest { item_id: approval_item_id(item), command }
}

/// `e` tells of an item: its type, its string fields and the item itself.
pub open spec fn item_event(e: CodexEvent, event_type: Seq<char>, item: Seq<char>) -> bool {
    let j = value_of(item);
    &&& e.event_type@ == event_type
    &&& opt_view(e.item_id) == text_member(j, "id"@)
    &&& opt_view(e.item_type) == text_member(j, "type"@)
    &&& opt_view(e.text_content) == text_member(j, "text"@)
    &&& opt_view(e.command) == text_member(j, "command"@)
    &&& opt_view(e.status) == text_member(j, "status"@)
    &&& e.raw_json@ == item
}

/// The message of a failed turn.
pub open spec fn failure_message(error: JsonView) -> Seq<char> {
    match text_member(error, "message"@) {
        Some(m) => m,
        None => "unknown error"@,
    }
}

/// `r` is how the guest sees the event `e`.
pub open spec fn converted(e: EventView, r: ExecStreamEvent) -> bool {
    match e {
        EventView::ThreadStarted(id) => r is Done && r->Done_0@ == id,
        EventView::TurnStarted => match r {
            ExecStreamEvent::Event(c) => c.event_type@ == "turn.started"@ && c.item_id is None
                && c.item_type is None && c.text_content is None && c.command is None && c.status
                is None && c.raw_json@ == "{}"@,
            _ => false,
        },
        EventView::ItemStarted(item) => r is Event && item_event(
            r->Event_0,
            "item.started"@,
            item,
        ),
        EventView::ItemCompleted(item) => r is Event && item_event(
            r->Event_0,
            "item.completed"@,
            item,
        ),
        EventView::TurnCompleted(u) => match r {
            ExecStreamEvent::Usage(t) => t.input_tokens == u.input_tokens && t.cached_input_tokens
                == u.cached_input_tokens && t.output_tokens == u.output_tokens,
            _ => false,
        },
        EventView::TurnFailed(error) => r is Error && r->Error_0@ == failure_message(
            value_of(error),
        ),
        EventView::Error(m) => r is Error && r->Error_0@ == m,
        EventView::ExecApprovalRequest(item) => match r {
            ExecStreamEvent::ApprovalNeeded(a) => a.item_id@ == approval_id(value_of(item))
                && a.command@ == approval_command(value_of(item)),
            _ => false,
        },
    }
}

fn item_stream_event(event_type: &str, item: String) -> (r: ExecStreamEvent)
    ensures
        r is Event,
        item_event(r->Event_0, event_type@, item@),
{
    let j = read_value(&item);
    let f = extract_item_fields(&j);
    ExecStreamEvent::Event(
        CodexEvent {
            event_type: event_type.to_owned(),
            item_id: f.item_id,
            item_type: f.item_type,
            text_content: f.text_content,
            command: f.command,
            status: f.status,
            raw_json: item,
        },
    )
}

/// How the guest sees an event.
pub fn convert_event(event: CodexJsonlEvent) -> (r: ExecStreamEvent)
    ensures
        converted(event@, r),
{
    match event {
        CodexJsonlEvent::ThreadStarted { thread_id } => ExecStreamEvent::Done(thread_id),
        CodexJsonlEvent::TurnStarted => ExecStreamEvent::Event(
            CodexEvent {
                event_type: "turn.started".to_owned(),
                item_id: None,
                item_type: None,
                text_content: None,
                command: None,
                status: None,
                raw_json: "{}".to_owned(),
            },
        ),
        CodexJsonlEvent::ItemStarted { item } => item_stream_event("item.started", item),
        CodexJsonlEvent::ItemCompleted { item } => item_stream_event("item.completed", item),
        CodexJsonlEvent::TurnCompleted { usage } => ExecStreamEvent::Usage(
            TokenUsage {
                input_tokens: usage.input_tokens,
                cached_input_tokens: usage.cached_input_tokens,
                output_tokens: usage.output_tokens,
            },
        ),
        CodexJsonlEvent::TurnFailed { error } => {
            let j = read_value(&error);
            let message = match get_text(&j, "message") {
                Some(m) => m,
                None => "unknown error".to_owned(),
            };
            ExecStreamEvent::Error(message)
        },
        CodexJsonlEvent::Error { message } => ExecStreamEvent::Error(message),
        CodexJsonlEvent::ExecApprovalRequest { item } => {
            let j = read_value(&item);
            ExecStreamEvent::ApprovalNeeded(approval_request(&j))
        },
    }
}

// ---- Sessions ----

/// The session after an event of its process.
pub open spec fn absorb(s: SessionView, e: CodexJsonlEvent) -> SessionView {
    SessionView {
        pending: s.pending.push(e),
        ended: s.ended || e is TurnCompleted || e is TurnFailed || e is Error,
        usage: match e@ {
            EventView::TurnCompleted(u) => usage_plus(s.usage, u),
            _ => s.usage,
        },
        session_id: match e@ {
            EventView::ThreadStarted(id) => Some(id),
            _ => s.session_id,
        },
        has_stdin: s.has_stdin,
        auto_approve: s.auto_approve,
        approval: match e@ {
            EventView::ExecApprovalRequest(item) => Some(approval_id(value_of(item))),
            _ => s.approval,
        },
    }
}

/// The session after a sequence of events.
pub open spec fn absorb_all(s: SessionView, events: Seq<CodexJsonlEvent>) -> SessionView
    decreases events.len(),
{
    if events.len() == 0 {
        s
    } else {
        absorb(absorb_all(s, events.drop_last()), events.last())
    }
}

/// The usage after each of the events fits 64 bits.
pub open spec fn usage_stays_in_range(u: UsageView, events: Seq<CodexJsonlEvent>) -> bool {
    usage_fits(usage_after(u, events))
}

/// The usage after a sequence of events.
pub open spec fn usage_after(u: UsageView, events: Seq<CodexJsonlEvent>) -> UsageView
    decreases events.len(),
{
    if events.len() == 0 {
        u
    } else {
        match events.last()@ {
            EventView::TurnCompleted(more) => usage_plus(usage_after(u, events.drop_last()), more),
            _ => usage_after(u, events.drop_last()),
        }
    }
}

proof fn lemma_usage_grows(u: UsageView, events: Seq<CodexJsonlEvent>, i: int)
    requires
        0 <= i <= events.len(),
    ensures
        usage_after(u, events.take(i)).input <= usage_after(u, events).input,
        usage_after(u, events.take(i)).cached <= usage_after(u, events).cached,
        usage_after(u, events.take(i)).output <= usage_after(u, events).output,
    decreases events.len() - i,
{
    if i == events.len() {
        assert(events.take(i) == events);
    } else {
        lemma_usage_grows(u, events, i + 1);
        assert(events.take(i + 1).drop_last() == events.take(i));
    }
}

/// Whether the usage of a session still fits 64 bits after some events.
pub fn usage_in_range(session: &CodexSessionState, events: &Vec<CodexJsonlEvent>) -> (r: bool)
    ensures
        r == usage_stays_in_range(session.usage@, events@),
{
    let mut u = session.usage;
    let mut i: usize = 0;
    while i < events.len()
        invariant
            i <= events@.len(),
            u@ == usage_after(session.usage@, events@.take(i as int)),
        decreases events@.len() - i,
    {
        assert(events@.take(i + 1).drop_last() == events@.take(i as int));
        assert(events@.take(i + 1).last() == events@[i as int]);
        proof {
            lemma_usage_grows(session.usage@, events@, i + 1);
        }
        if let CodexJsonlEvent::TurnCompleted { usage } = &events[i] {
            if usage.input_tokens > u64::MAX - u.input_tokens || usage.cached_input_tokens
                > u64::MAX - u.cached_input_tokens || usage.output_tokens > u64::MAX
                - u.output_tokens {
                return false;
            }
            u.add(usage);
        }
        i = i + 1;
    }
    assert(events@.take(events@.len() as int) == events@);
    true
}

proof fn lemma_absorb_usage(s: SessionView, events: Seq<CodexJsonlEvent>)
    ensures
        absorb_all(s, events).usage == usage_after(s.usage, events),
    decreases events.len(),
{
    if events.len() > 0 {
        lemma_absorb_usage(s, events.drop_last());
    }
}

/// Takes the events that came from the process into the session.
pub fn drain_channel(session: &mut CodexSessionState, events: Vec<CodexJsonlEvent>)
    requires
        usage_stays_in_range(old(session).usage@, events@),
    ensures
        final(session)@ == absorb_all(old(session)@, events@),
{
    let ghost all = events@;
    let ghost s0 = session@;
    let mut rest = events;
    let n: usize = rest.len();
    let mut i: usize = 0;
    assert(all.skip(0) == all);
    while i < n
        invariant
            i <= n,
            n == all.len(),
            rest@ == all.skip(i as int),
            usage_stays_in_range(s0.usage, all),
            session@ == absorb_all(s0, all.take(i as int)),
        decreases n - i,
    {
        let event = rest.remove(0);
        assert(event == all[i as int]);
        assert(rest@ =~= all.skip(i + 1));
        assert(all.take(i + 1).drop_last() == all.take(i as int));
        assert(all.take(i + 1).last() == event);
        proof {
            lemma_absorb_usage(s0, all.take(i as int));
            lemma_absorb_usage(s0, all.take(i + 1));
            lemma_usage_grows(s0.usage, all, i + 1);
        }
        match &event {
            CodexJsonlEvent::ThreadStarted { thread_id } => {
                session.session_id = Some(thread_id.clone());
            },
            CodexJsonlEvent::TurnCompleted { usage } => {
                session.usage.add(usage);
                session.ended = true;
            },
            CodexJsonlEvent::TurnFailed { error: _ } => {
                session.ended = true;
            },
            CodexJsonlEvent::Error { message: _ } => {
                session.ended = true;
            },
            CodexJsonlEvent::ExecApprovalRequest { item } => {
                let j = read_value(item);
                session.pending_approval_item_id = Some(approval_item_id(&j));
            },
            _ => {},
        }
        session.pending_events.push(event);
        assert(session@ == absorb(absorb_all(s0, all.take(i as int)), event));
        i = i + 1;
    }
    assert(all.take(n as int) == all);
}

/// A session as it starts.
pub open spec fn fresh_session(session_id: Option<Seq<char>>) -> SessionView {
    SessionView {
        pending: Seq::<CodexJsonlEvent>::empty(),
        ended: false,
        usage: UsageView { input: 0, cached: 0, output: 0 },
        session_id,
        has_stdin: true,
        auto_approve: true,
        approval: None,
    }
}

fn new_state(session_id: Option<String>) -> (r: CodexSessionState)
    ensures
        r@ == fresh_session(opt_view(session_id)),
{
    let pending_events: Vec<CodexJsonlEvent> = Vec::new();
    let r = CodexSessionState {
        pending_events,
        ended: false,
        usage: TokenUsageAccum { input_tokens: 0, cached_input_tokens: 0, output_tokens: 0 },
        session_id,
        has_stdin: true,
        auto_approve: true,
        pending_approval_item_id: None,
    };
    assert(r@.pending =~= Seq::<CodexJsonlEvent>::empty());
    r
}

pub open spec fn not_found(session_id: Seq<char>) -> CodexErrorView {
    CodexErrorView::NotFound("session '"@ + session_id + "' not found"@)
}

fn not_found_error(session_id: &str) -> (r: CodexError)
    ensures
        r@ == not_found(session_id@),
{
    CodexError::NotFound(cat3("session '", session_id, "' not found"))
}

pub open spec fn ok_or_error(r: Result<(), CodexError>) -> Result<(), CodexErrorView> {
    match r {
        Ok(_) => Ok(()),
        Err(e) => Err(e@),
    }
}

/// What the approval of a session asks to write: none where the process has no input any more.
pub open spec fn approval_answer(
    s: Option<CodexSessionState>,
    session_id: Seq<char>,
    item_id: Seq<char>,
) -> Result<bool, CodexErrorView> {
    match s {
        None => Err(not_found(session_id)),
        Some(s) => match s@.approval {
            None => Err(CodexErrorView::Internal("no pending approval request"@)),
            Some(p) => if p == item_id {
                Ok(s.has_stdin)
            } else {
                Err(
                    CodexErrorView::Internal(
                        "item '"@ + item_id + "' does not match pending approval"@,
                    ),
                )
            },
        },
    }
}

impl ComponentData {
    /// Every current session exists, and so does every listed one.
    pub open spec fn wf(&self) -> bool {
        &&& forall|c: Seq<char>| #[trigger]
            self.current_sessions@.contains_key(c) ==> self.sessions@.contains_key(
                self.current_sessions@[c]@,
            )
        &&& forall|k: Seq<char>| #[trigger]
            self.session_metadata@.contains_key(k) ==> self.sessions@.contains_key(k)
    }

    /// The internal key of a session.
    pub open spec fn key_of(&self, session_id: Seq<char>) -> Option<Seq<char>> {
        setting(self.session_id_map@, session_id)
    }

    /// The session with an id.
    pub open spec fn session_of(&self, session_id: Seq<char>) -> Option<CodexSessionState> {
        match self.key_of(session_id) {
            Some(k) => lookup(self.sessions@, k),
            None => None,
        }
    }

    /// Nothing but the named tables may differ.
    pub open spec fn same_but_sessions(&self, before: ComponentData) -> bool {
        &&& self.cancel_token == before.cancel_token
        &&& self.interface_config == before.interface_config
        &&& self.session_id_map == before.session_id_map
        &&& self.current_sessions == before.current_sessions
        &&& self.session_metadata == before.session_metadata
    }

    /// A component that has just been bound.
    pub fn bound(cancel_token: u64, interface_config: Config) -> (r: ComponentData)
        ensures
            r.cancel_token == cancel_token,
            r.interface_config == interface_config,
            r.sessions@ == Map::<Seq<char>, CodexSessionState>::empty(),
            r.session_id_map@ == Map::<Seq<char>, String>::empty(),
            r.current_sessions@ == Map::<Seq<char>, String>::empty(),
            r.session_metadata@ == Map::<Seq<char>, SessionMetadata>::empty(),
            r.wf(),
    {
        ComponentData {
            cancel_token,
            interface_config,
            sessions: Table::new(),
            session_id_map: Table::new(),
            current_sessions: Table::new(),
            session_metadata: Table::new(),
        }
    }

    /// Where a prompt in a context goes: to the current session once that has an id.
    pub fn execute_plan(&self, context_key: &str) -> (r: ExecutePlan)
        ensures
            ({
                let current = setting(self.current_sessions@, context_key@);
                let id = match current {
                    Some(k) => match lookup(self.sessions@, k) {
                        Some(s) => s@.session_id,
                        None => None,
                    },
                    None => None,
                };
                match r {
                    ExecutePlan::Resume(sid) => id == Some(sid@),
                    ExecutePlan::Create => id is None,
                }
            }),
    {
        match config_get(&self.current_sessions, context_key) {
            None => ExecutePlan::Create,
            Some(key) => match self.sessions.get(&key) {
                None => ExecutePlan::Create,
                Some(s) => match &s.session_id {
                    Some(sid) => ExecutePlan::Resume(sid.clone()),
                    None => ExecutePlan::Create,
                },
            },
        }
    }

    /// Takes in a session that was started for a context.
    pub fn session_created(&mut self, session_key: &str, context_key: &str, created_at: &str)
        ensures
            final(self).cancel_token == old(self).cancel_token,
            final(self).interface_config == old(self).interface_config,
            final(self).session_id_map == old(self).session_id_map,
            final(self).current_sessions == old(self).current_sessions,
            put_at(old(self).sessions@, final(self).sessions@, session_key@),
            final(self).sessions@[session_key@]@ == fresh_session(None),
            put_at(old(self).session_metadata@, final(self).session_metadata@, session_key@),
            ({
                let m = final(self).session_metadata@[session_key@];
                &&& m.session_id@ == Seq::<char>::empty()
                &&& m.thread_id@ == Seq::<char>::empty()
                &&& m.context_key@ == context_key@
                &&& m.created_at@ == created_at@
            }),
            old(self).wf() ==> final(self).wf(),
    {
        let state = new_state(None);
        let meta = SessionMetadata {
            session_id: String::new(),
            thread_id: String::new(),
            context_key: context_key.to_owned(),
            created_at: created_at.to_owned(),
        };
        proof {
            lemma_put(self.sessions@, session_key@, state);
            lemma_put(self.session_metadata@, session_key@, meta);
        }
        self.sessions.insert(session_key.to_owned(), state);
        self.session_metadata.insert(session_key.to_owned(), meta);
    }

    /// Makes a session the current one of a context.
    pub fn set_current(&mut self, context_key: &str, session_key: &str)
        ensures
            final(self).cancel_token == old(self).cancel_token,
            final(self).interface_config == old(self).interface_config,
            final(self).sessions == old(self).sessions,
            final(self).session_id_map == old(self).session_id_map,
            final(self).session_metadata == old(self).session_metadata,
            put_at(old(self).current_sessions@, final(self).current_sessions@, context_key@),
            final(self).current_sessions@[context_key@]@ == session_key@,
            old(self).wf() && old(self).sessions@.contains_key(session_key@) ==> final(self).wf(),
    {
        let key = session_key.to_owned();
        proof {
            lemma_put(self.current_sessions@, context_key@, key);
        }
        self.current_sessions.insert(context_key.to_owned(), key);
    }

    /// Takes in a run that resumes a session: from now on the id stands for the new run.
    pub fn session_resumed(&mut self, session_id: &str, session_key: &str)
        ensures
            final(self).cancel_token == old(self).cancel_token,
            final(self).interface_config == old(self).interface_config,
            final(self).current_sessions == old(self).current_sessions,
            final(self).session_metadata == old(self).session_metadata,
            put_at(old(self).sessions@, final(self).sessions@, session_key@),
            final(self).sessions@[session_key@]@ == fresh_session(Some(session_id@)),
            put_at(old(self).session_id_map@, final(self).session_id_map@, session_id@),
            final(self).session_id_map@[session_id@]@ == session_key@,
            old(self).wf() ==> final(self).wf(),
    {
        let state = new_state(Some(session_id.to_owned()));
        let key = session_key.to_owned();
        proof {
            lemma_put(self.sessions@, session_key@, state);
            lemma_put(self.session_id_map@, session_id@, key);
        }
        self.sessions.insert(session_key.to_owned(), state);
        self.session_id_map.insert(session_id.to_owned(), key);
    }

    /// The usage of a session.
    pub fn get_usage(&self, session_id: &str) -> (r: Result<TokenUsage, CodexError>)
        ensures
            match self.session_of(session_id@) {
                Some(s) => r is Ok && r->Ok_0.input_tokens == s.usage.input_tokens
                    && r->Ok_0.cached_input_tokens == s.usage.cached_input_tokens
                    && r->Ok_0.output_tokens == s.usage.output_tokens,
                None => r is Err && r->Err_0@ == not_found(session_id@),
            },
    {
        match config_get(&self.session_id_map, session_id) {
            None => Err(not_found_error(session_id)),
            Some(key) => match self.sessions.get(&key) {
                None => Err(not_found_error(session_id)),
                Some(s) => Ok(
                    TokenUsage {
                        input_tokens: s.usage.input_tokens,
                        cached_input_tokens: s.usage.cached_input_tokens,
                        output_tokens: s.usage.output_tokens,
                    },
                ),
            },
        }
    }

    /// Makes the session with an id the current one of a context.
    pub fn change_session(&mut self, context_key: &str, session_id: &str) -> (r: Result<
        (),
        CodexError,
    >)
        ensures
            match old(self).session_of(session_id@) {
                None => *final(self) == *old(self) && ok_or_error(r) == Err::<(), CodexErrorView>(
                    not_found(session_id@),
                ),
                Some(_) => r is Ok && final(self).cancel_token == old(self).cancel_token
                    && final(self).interface_config == old(self).interface_config
                    && final(self).sessions == old(self).sessions && final(self).session_id_map
                    == old(self).session_id_map && final(self).session_metadata == old(
                    self,
                ).session_metadata && put_at(
                    old(self).current_sessions@,
                    final(self).current_sessions@,
                    context_key@,
                ) && Some(final(self).current_sessions@[context_key@]@) == old(self).key_of(
                    session_id@,
                ),
            },
            old(self).wf() ==> final(self).wf(),
    {
        match config_get(&self.session_id_map, session_id) {
            None => Err(not_found_error(session_id)),
            Some(key) => {
                if !self.sessions.contains(&key) {
                    return Err(not_found_error(session_id));
                }
                self.set_current(context_key, &key);
                Ok(())
            },
        }
    }

    /// Forgets the session with an id, and that it is current anywhere.
    pub fn delete_session(&mut self, session_id: &str) -> (r: Result<(), CodexError>)
        ensures
            match old(self).key_of(session_id@) {
                None => *final(self) == *old(self) && ok_or_error(r) == Err::<(), CodexErrorView>(
                    not_found(session_id@),
                ),
                Some(k) => r is Ok && final(self).cancel_token == old(self).cancel_token
                    && final(self).interface_config == old(self).interface_config
                    && final(self).sessions@ == old(self).sessions@.remove(k)
                    && final(self).session_id_map@ == old(self).session_id_map@.remove(session_id@)
                    && final(self).session_metadata@ == old(self).session_metadata@.remove(k)
                    && final(self).current_sessions@ == without_value(
                    old(self).current_sessions@,
                    k,
                ),
            },
            old(self).wf() ==> final(self).wf(),
    {
        match config_get(&self.session_id_map, session_id) {
            None => Err(not_found_error(session_id)),
            Some(key) => {
                let _ = self.sessions.remove(&key);
                let _ = self.session_id_map.remove(session_id);
                let _ = self.session_metadata.remove(&key);
                remove_values(&mut self.current_sessions, &key);
                Ok(())
            },
        }
    }

    /// The sessions that were started, in the order in which they came.
    pub fn list_sessions(&self) -> (r: Vec<SessionInfo>)
        ensures
            r@.len() == self.session_metadata.pairs().len(),
            forall|i: int|
                0 <= i < r@.len() ==> listed(
                    #[trigger] r@[i],
                    self.session_metadata.pairs()[i].1,
                    lookup(self.sessions@, self.session_metadata.pairs()[i].0),
                ),
    {
        let mut out: Vec<SessionInfo> = Vec::new();
        let mut i: usize = 0;
        while i < self.session_metadata.len()
            invariant
                i <= self.session_metadata.pairs().len(),
                out@.len() == i,
                forall|k: int|
                    0 <= k < i ==> listed(
                        #[trigger] out@[k],
                        self.session_metadata.pairs()[k].1,
                        lookup(self.sessions@, self.session_metadata.pairs()[k].0),
                    ),
            decreases self.session_metadata.pairs().len() - i,
        {
            let (key, meta) = self.session_metadata.at(i);
            let token_usage = match self.sessions.get(key) {
                Some(s) => Some(
                    TokenUsage {
                        input_tokens: s.usage.input_tokens,
                        cached_input_tokens: s.usage.cached_input_tokens,
                        output_tokens: s.usage.output_tokens,
                    },
                ),
                None => None,
            };
            out.push(
                SessionInfo {
                    session_id: meta.session_id.clone(),
                    thread_id: meta.thread_id.clone(),
                    created_at: meta.created_at.clone(),
                    token_usage,
                },
            );
            i = i + 1;
        }
        out
    }

    /// Says whether the commands of a session are approved by themselves.
    pub fn set_auto_approve(&mut self, session_id: &str, auto_approve: bool) -> (r: Result<
        (),
        CodexError,
    >)
        ensures
            match old(self).session_of(session_id@) {
                None => *final(self) == *old(self) && ok_or_error(r) == Err::<(), CodexErrorView>(
                    not_found(session_id@),
                ),
                Some(s) => r is Ok && final(self).same_but_sessions(*old(self)) && put_at(
                    old(self).sessions@,
                    final(self).sessions@,
                    old(self).key_of(session_id@)->0,
                ) && final(self).session_of(session_id@) is Some && final(self).session_of(
                    session_id@,
                )->0@ == (SessionView { auto_approve, ..s@ }),
            },
            old(self).wf() ==> final(self).wf(),
    {
        match config_get(&self.session_id_map, session_id) {
            None => Err(not_found_error(session_id)),
            Some(key) => {
                let ghost before = self.sessions@;
                if !self.sessions.contains(&key) {
                    return Err(not_found_error(session_id));
                }
                match self.sessions.remove(&key) {
                    None => Err(not_found_error(session_id)),
                    Some(mut s) => {
                        let ghost s0 = s@;
                        s.auto_approve = auto_approve;
                        assert(s@ == (SessionView { auto_approve, ..s0 }));
                        proof {
                            lemma_put(before, key@, s);
                        }
                        self.sessions.insert(key, s);
                        Ok(())
                    },
                }
            },
        }
    }

    /// What to write to a process to answer its request for approval: the answer has to name the
    /// pending request. None where the process takes no input.
    pub fn approve(&self, session_id: &str, item_id: &str, approved: bool) -> (r: Result<
        Option<&'static str>,
        CodexError,
    >)
        ensures
            match r {
                Ok(w) => approval_answer(self.session_of(session_id@), session_id@, item_id@)
                    == Ok::<bool, CodexErrorView>(w is Some) && match w {
                    Some(t) => t@ == if approved {
                        "y\n"@
                    } else {
                        "n\n"@
                    },
                    None => true,
                },
                Err(e) => approval_answer(self.session_of(session_id@), session_id@, item_id@)
                    == Err::<bool, CodexErrorView>(e@),
            },
    {
        let key = match config_get(&self.session_id_map, session_id) {
            None => {
                return Err(not_found_error(session_id));
            },
            Some(k) => k,
        };
        match self.sessions.get(&key) {
            None => Err(not_found_error(session_id)),
            Some(s) => match &s.pending_approval_item_id {
                None => Err(CodexError::Internal("no pending approval request".to_owned())),
                Some(p) => {
                    if !same(p, item_id) {
                        return Err(
                            CodexError::Internal(
                                cat3("item '", item_id, "' does not match pending approval"),
                            ),
                        );
                    }
                    if !s.has_stdin {
                        Ok(None)
                    } else if approved {
                        Ok(Some("y\n"))
                    } else {
                        Ok(Some("n\n"))
                    }
                },
            },
        }
    }

    /// Takes in how the writing of an approval went: the request is answered once it was written.
    pub fn approval_written(&mut self, session_id: &str, written: Result<(), String>) -> (r: Result<
        (),
        CodexError,
    >)
        ensures
            match written {
                Err(e) => *final(self) == *old(self) && ok_or_error(r) == Err::<(), CodexErrorView>(
                    CodexErrorView::ProcessError("failed to write approval to stdin: "@ + e@),
                ),
                Ok(_) => match old(self).session_of(session_id@) {
                    None => *final(self) == *old(self) && ok_or_error(r) == Err::<
                        (),
                        CodexErrorView,
                    >(not_found(session_id@)),
                    Some(s) => r is Ok && final(self).same_but_sessions(*old(self)) && put_at(
                        old(self).sessions@,
                        final(self).sessions@,
                        old(self).key_of(session_id@)->0,
                    ) && final(self).session_of(session_id@) is Some && final(self).session_of(
                        session_id@,
                    )->0@ == (SessionView { approval: None, ..s@ }),
                },
            },
            old(self).wf() ==> final(self).wf(),
    {
        if let Err(e) = written {
            return Err(
                CodexError::ProcessError(cat2("failed to write approval to stdin: ", &e)),
            );
        }
        match config_get(&self.session_id_map, session_id) {
            None => Err(not_found_error(session_id)),
            Some(key) => {
                let ghost before = self.sessions@;
                if !self.sessions.contains(&key) {
                    return Err(not_found_error(session_id));
                }
                match self.sessions.remove(&key) {
                    None => Err(not_found_error(session_id)),
                    Some(mut s) => {
                        let ghost s0 = s@;
                        s.pending_approval_item_id = None;
                        assert(s@ == (SessionView { approval: None, ..s0 }));
                        proof {
                            lemma_put(before, key@, s);
                        }
                        self.sessions.insert(key, s);
                        Ok(())
                    },
                }
            },
        }
    }

    /// Whether the usage of a session still fits 64 bits after some events.
    pub fn stream_in_range(&self, session_key: &str, events: &Vec<CodexJsonlEvent>) -> (r: bool)
        ensures
            r == match lookup(self.sessions@, session_key@) {
                Some(s) => usage_stays_in_range(s.usage@, events@),
                None => true,
            },
    {
        match self.sessions.get(session_key) {
            Some(s) => usage_in_range(s, events),
            None => true,
        }
    }

    /// Hands the events of a stream to the guest: those that came from the process since the last
    /// time, after those still pending. A pending request for approval is answered where the session
    /// approves by itself. A stream that has ended gives nothing more.
    pub fn next(&mut self, handle: &mut ExecStreamHandle, events: Vec<CodexJsonlEvent>) -> (r: Result<
        NextBatch,
        CodexError,
    >)
        requires
            match lookup(old(self).sessions@, old(handle).session_key@) {
                Some(s) => usage_stays_in_range(s.usage@, events@),
                None => true,
            },
        ensures
            final(handle).session_key == old(handle).session_key,
            if old(handle).ended {
                &&& *final(self) == *old(self)
                &&& final(handle).ended
                &&& r is Ok
                &&& r->Ok_0.events@.len() == 0
                &&& r->Ok_0.done
                &&& r->Ok_0.write is None
            } else {
                match lookup(old(self).sessions@, old(handle).session_key@) {
                    None => {
                        &&& *final(self) == *old(self)
                        &&& !final(handle).ended
                        &&& r is Err
                        &&& r->Err_0@ == CodexErrorView::NotFound("session not found"@)
                    },
                    Some(s) => {
                        let key = old(handle).session_key@;
                        let got = absorb_all(s@, events@);
                        &&& r is Ok
                        &&& batch_of(r->Ok_0, got)
                        &&& final(handle).ended == got.ended
                        &&& final(self).cancel_token == old(self).cancel_token
                        &&& final(self).interface_config == old(self).interface_config
                        &&& final(self).current_sessions == old(self).current_sessions
                        &&& put_at(old(self).sessions@, final(self).sessions@, key)
                        &&& final(self).sessions@[key]@ == delivered(got)
                        &&& texts(final(self).session_id_map@) == match got.session_id {
                            Some(sid) => if old(self).session_id_map@.contains_key(sid) {
                                texts(old(self).session_id_map@)
                            } else {
                                texts(old(self).session_id_map@).insert(sid, key)
                            },
                            None => texts(old(self).session_id_map@),
                        }
                        &&& metadata_after(
                            old(self).session_metadata@,
                            final(self).session_metadata@,
                            key,
                            got.session_id,
                        )
                    },
                }
            },
            old(self).wf() ==> final(self).wf(),
    {
        if handle.ended {
            return Ok(NextBatch { events: Vec::new(), done: true, write: None });
        }
        if !self.sessions.contains(&handle.session_key) {
            return Err(CodexError::NotFound("session not found".to_owned()));
        }
        let ghost before = self.sessions@;
        let ghost meta_before = self.session_metadata@;
        let ghost ids_before = self.session_id_map@;
        let mut session = match self.sessions.remove(&handle.session_key) {
            None => {
                return Err(CodexError::NotFound("session not found".to_owned()));
            },
            Some(s) => s,
        };
        let ghost got = absorb_all(session@, events@);
        drain_channel(&mut session, events);
        let mut write: Option<&'static str> = None;
        if session.auto_approve && session.pending_approval_item_id.is_some() {
            if session.has_stdin {
                write = Some("y\n");
            }
            session.pending_approval_item_id = None;
        }
        let mut pending: Vec<CodexJsonlEvent> = Vec::new();
        std::mem::swap(&mut pending, &mut session.pending_events);
        let out = convert_all(pending);
        let done = session.ended;
        assert(session@ == delivered(got)) by {
            assert(session@.pending =~= Seq::<CodexJsonlEvent>::empty());
        }
        let sid = copy_opt(&session.session_id);
        proof {
            lemma_put(before, handle.session_key@, session);
        }
        self.sessions.insert(handle.session_key.clone(), session);
        handle.ended = done;
        if let Some(sid) = sid {
            if !self.session_id_map.contains(&sid) {
                self.session_id_map.insert(sid.clone(), handle.session_key.clone());
                assert(texts(self.session_id_map@) =~= texts(ids_before).insert(
                    sid@,
                    handle.session_key@,
                ));
            }
            if self.session_metadata.contains(&handle.session_key) {
                if let Some(mut meta) = self.session_metadata.remove(&handle.session_key) {
                    if meta.session_id.as_str().is_empty() {
                        meta.session_id = sid.clone();
                        meta.thread_id = sid;
                    }
                    proof {
                        lemma_put(meta_before, handle.session_key@, meta);
                    }
                    self.session_metadata.insert(handle.session_key.clone(), meta);
                }
            }
        }
        assert(old(self).wf() ==> self.wf()) by {
            if old(self).wf() {
                assert forall|c: Seq<char>| #[trigger]
                    self.current_sessions@.contains_key(c) implies self.sessions@.contains_key(
                    self.current_sessions@[c]@,
                ) by {
                    assert(old(self).current_sessions@.contains_key(c));
                }
                assert forall|k: Seq<char>| #[trigger]
                    self.session_metadata@.contains_key(k) implies self.sessions@.contains_key(
                    k,
                ) by {
                    if k != handle.session_key@ {
                        assert(old(self).session_metadata@.contains_key(k));
                    }
                }
            }
        }
        Ok(NextBatch { events: out, done, write })
    }
}

/// What `SessionInfo` says of a session.
pub open spec fn listed(i: SessionInfo, m: SessionMetadata, s: Option<CodexSessionState>) -> bool {
    &&& i.session_id == m.session_id
    &&& i.thread_id == m.thread_id
    &&& i.created_at == m.created_at
    &&& match s {
        Some(s) => i.token_usage is Some && i.token_usage->0.input_tokens == s.usage.input_tokens
            && i.token_usage->0.cached_input_tokens == s.usage.cached_input_tokens
            && i.token_usage->0.output_tokens == s.usage.output_tokens,
        None => i.token_usage is None,
    }
}

/// The texts of a table.
pub open spec fn texts(m: Map<Seq<char>, String>) -> Map<Seq<char>, Seq<char>> {
    m.map_values(|s: String| s@)
}

/// The entries of a table that do not hold a given text.
pub open spec fn without_value(m: Map<Seq<char>, String>, v: Seq<char>) -> Map<Seq<char>, String> {
    m.remove_keys(m.dom().filter(|k: Seq<char>| m[k]@ == v))
}

/// The session after its events were handed out.
pub open spec fn delivered(s: SessionView) -> SessionView {
    SessionView {
        pending: Seq::<CodexJsonlEvent>::empty(),
        approval: if s.auto_approve {
            None
        } else {
            s.approval
        },
        ..s
    }
}

/// `b` holds the events of `s` as the guest sees them.
pub open spec fn batch_of(b: NextBatch, s: SessionView) -> bool {
    &&& b.done == s.ended
    &&& b.events@.len() == s.pending.len()
    &&& forall|i: int| 0 <= i < b.events@.len() ==> converted(s.pending[i]@, #[trigger] b.events@[i])
    &&& match b.write {
        Some(t) => t@ == "y\n"@ && s.auto_approve && s.approval is Some && s.has_stdin,
        None => !(s.auto_approve && s.approval is Some && s.has_stdin),
    }
}

/// How the metadata of a session changes once its id is known: only where it was not known yet.
pub open spec fn metadata_after(
    before: Map<Seq<char>, SessionMetadata>,
    after: Map<Seq<char>, SessionMetadata>,
    key: Seq<char>,
    session_id: Option<Seq<char>>,
) -> bool {
    match (lookup(before, key), session_id) {
        (Some(m), Some(sid)) => {
            &&& put_at(before, after, key)
            &&& after[key].context_key == m.context_key
            &&& after[key].created_at == m.created_at
            &&& if m.session_id@.len() == 0 {
                after[key].session_id@ == sid && after[key].thread_id@ == sid
            } else {
                after[key].session_id == m.session_id && after[key].thread_id == m.thread_id
            }
        },
        _ => after == before,
    }
}

fn convert_all(pending: Vec<CodexJsonlEvent>) -> (r: Vec<ExecStreamEvent>)
    ensures
        r@.len() == pending@.len(),
        forall|i: int| 0 <= i < r@.len() ==> converted(pending@[i]@, #[trigger] r@[i]),
{
    let ghost all = pending@;
    let mut rest = pending;
    let n: usize = rest.len();
    let mut out: Vec<ExecStreamEvent> = Vec::new();
    let mut i: usize = 0;
    assert(all.skip(0) == all);
    while i < n
        invariant
            i <= n,
            n == all.len(),
            rest@ == all.skip(i as int),
            out@.len() == i,
            forall|k: int| 0 <= k < i ==> converted(all[k]@, #[trigger] out@[k]),
        decreases n - i,
    {
        let e = rest.remove(0);
        assert(e == all[i as int]);
        assert(rest@ =~= all.skip(i + 1));
        out.push(convert_event(e));
        i = i + 1;
    }
    out
}

/// Takes out of a table what holds a given text.
fn remove_values(t: &mut Table<String>, v: &str)
    ensures
        final(t)@ == without_value(old(t)@, v@),
{
    let ghost before = t@;
    let ghost pairs = t.pairs();
    let mut keys: Vec<String> = Vec::new();
    let mut i: usize = 0;
    let n: usize = t.len();
    while i < n
        invariant
            i <= n,
            n == t.pairs().len(),
            pairs == t.pairs(),
            forall|k: int|
                0 <= k < keys@.len() ==> exists|j: int|
                    0 <= j < i && pairs[j].0 == (#[trigger] keys@[k])@ && pairs[j].1@ == v@,
            forall|j: int|
                0 <= j < i && (#[trigger] pairs[j]).1@ == v@ ==> exists|k: int|
                    0 <= k < keys@.len() && (#[trigger] keys@[k])@ == pairs[j].0,
        decreases n - i,
    {
        let (key, value) = t.at(i);
        if same(value, v) {
            let ghost keys_before = keys@;
            keys.push(key.clone());
            assert forall|j: int| 0 <= j < i + 1 && (#[trigger] pairs[j]).1@ == v@ implies exists|
                k: int,
            |
                0 <= k < keys@.len() && (#[trigger] keys@[k])@ == pairs[j].0 by {
                if j < i {
                    let k = choose|k: int|
                        0 <= k < keys_before.len() && (#[trigger] keys_before[k])@ == pairs[j].0;
                    assert(keys@[k]@ == pairs[j].0);
                } else {
                    assert(keys@[keys@.len() - 1]@ == pairs[j].0);
                }
            }
            assert forall|k: int| 0 <= k < keys@.len() implies exists|j: int|
                0 <= j < i + 1 && pairs[j].0 == (#[trigger] keys@[k])@ && pairs[j].1@ == v@ by {
                if k < keys_before.len() {
                    assert(keys_before[k] == keys@[k]);
                    let j = choose|j: int|
                        0 <= j < i && pairs[j].0 == keys_before[k]@ && pairs[j].1@ == v@;
                    assert(pairs[j].0 == keys@[k]@);
                } else {
                    assert(pairs[i as int].0 == keys@[k]@);
                }
            }
        }
        i = i + 1;
    }
    let ghost gone = before.dom().filter(|k: Seq<char>| before[k]@ == v@);
    proof {
        lemma_map_of_keys(pairs);
    }
    let mut k: usize = 0;
    assert(before.remove_keys(Set::empty()) =~= before);
    let ghost mut done: Set<Seq<char>> = Set::empty();
    while k < keys.len()
        invariant
            k <= keys@.len(),
            t@ == before.remove_keys(done),
            forall|x: Seq<char>| #[trigger]
                done.contains(x) <==> exists|j: int| 0 <= j < k && (#[trigger] keys@[j])@ == x,
        decreases keys@.len() - k,
    {
        let _ = t.remove(&keys[k]);
        proof {
            let now = done.insert(keys@[k as int]@);
            assert(before.remove_keys(done).remove(keys@[k as int]@) =~= before.remove_keys(now));
            assert forall|x: Seq<char>| #[trigger] now.contains(x) <==> exists|j: int|
                0 <= j < k + 1 && (#[trigger] keys@[j])@ == x by {
                if now.contains(x) {
                    if x == keys@[k as int]@ {
                        assert(keys@[k as int]@ == x);
                    } else {
                        assert(done.contains(x));
                    }
                }
            }
            done = now;
        }
        k = k + 1;
    }
    assert(t@ =~= without_value(before, v@)) by {
        assert forall|x: Seq<char>| before.contains_key(x) implies (done.contains(x)
            <==> gone.contains(x)) by {
            let j = choose|j: int| 0 <= j < pairs.len() && (#[trigger] pairs[j]).0 == x;
            assert(before[pairs[j].0] == pairs[j].1);
            if gone.contains(x) {
                assert(pairs[j].1@ == v@);
                let kk = choose|kk: int|
                    0 <= kk < keys@.len() && (#[trigger] keys@[kk])@ == pairs[j].0;
                assert(keys@[kk]@ == x);
            }
            if done.contains(x) {
                let kk = choose|kk: int| 0 <= kk < keys@.len() && (#[trigger] keys@[kk])@ == x;
                let jj = choose|jj: int|
                    0 <= jj < n && pairs[jj].0 == keys@[kk]@ && pairs[jj].1@ == v@;
                assert(before[pairs[jj].0] == pairs[jj].1);
            }
        }
    }
}

// ---- Plugin ----

/// The tokens that cancel what runs for components.
pub open spec fn cancel_tokens(d: Seq<ComponentData>) -> Seq<u64> {
    d.map_values(|c: ComponentData| c.cancel_token)
}

impl Codex {
    pub fn new() -> (r: Codex)
        ensures
            r.tracker@ == Map::<Seq<char>, Owned<ComponentData>>::empty(),
    {
        Codex { tracker: Table::new() }
    }

    pub fn id(&self) -> (r: &'static str)
        ensures
            r@ == "codex"@,
    {
        PLUGIN_ID
    }

    pub fn world(&self) -> (r: WitWorld)
        ensures
            r.imports@.len() == 0,
            r.exports@.len() == 1,
            r.exports@[0].names("custom"@, "codex"@, seq!["executor"@, "session"@], "0.1.0"@),
    {
        let mut exports: Vec<WitInterface> = Vec::new();
        exports.push(WitInterface::of("custom", "codex", two("executor", "session"), "0.1.0"));
        WitWorld { imports: Vec::new(), exports }
    }

    /// Begins to track a component that brings a `custom:codex` interface with a token and a model.
    pub fn on_workload_item_bind(
        &mut self,
        component_id: &str,
        workload_id: &str,
        is_component: bool,
        interfaces: &Vec<WitInterface>,
        cancel_token: u64,
    ) -> (bound: bool)
        ensures
            bound == (is_component && match first_of_package(interfaces@, "custom"@, "codex"@) {
                Some(i) => !blank(setting(i.config@, "api_token"@)) && !blank(
                    setting(i.config@, "model"@),
                ),
                None => false,
            }),
            !bound ==> final(self).tracker@ == old(self).tracker@,
            bound ==> put_at(old(self).tracker@, final(self).tracker@, component_id@) && ({
                let o = final(self).tracker@[component_id@];
                &&& o.workload_id@ == workload_id@
                &&& o.data.cancel_token == cancel_token
                &&& o.data.interface_config@ == first_of_package(
                    interfaces@,
                    "custom"@,
                    "codex"@,
                )->0.config@
                &&& o.data.sessions@ == Map::<Seq<char>, CodexSessionState>::empty()
                &&& o.data.wf()
            }),
    {
        if let Some(config) = bound_config(interfaces, "custom", "codex") {
            if extract_config(&config, "", "").is_ok() && is_component {
                let owned = Owned {
                    workload_id: workload_id.to_owned(),
                    data: ComponentData::bound(cancel_token, config),
                };
                proof {
                    lemma_put(self.tracker@, component_id@, owned);
                }
                self.tracker.insert(component_id.to_owned(), owned);
                return true;
            }
        }
        false
    }

    /// Forgets the components of a workload; returns the tokens that cancel what runs for them.
    pub fn on_workload_unbind(&mut self, workload_id: &str) -> (r: Vec<u64>)
        ensures
            final(self).tracker@ == outside_workload(old(self).tracker@, workload_id@),
            r@ == cancel_tokens(data_of(old(self).tracker.pairs(), workload_id@)),
    {
        let gone = self.tracker.remove_workload(workload_id);
        let mut tokens: Vec<u64> = Vec::new();
        let mut i: usize = 0;
        while i < gone.len()
            invariant
                i <= gone@.len(),
                tokens@ == cancel_tokens(gone@.take(i as int)),
            decreases gone@.len() - i,
        {
            tokens.push(gone[i].cancel_token);
            assert(cancel_tokens(gone@.take(i + 1)) =~= cancel_tokens(gone@.take(i as int)).push(
                gone@[i as int].cancel_token,
            ));
            i = i + 1;
        }
        assert(gone@.take(gone@.len() as int) == gone@);
        tokens
    }

    /// Takes a component out to work on it; `creating` says whether a session is to be started.
    pub fn check_out(&mut self, component_id: &str, creating: bool) -> (r: Result<
        Owned<ComponentData>,
        CodexError,
    >)
        ensures
            final(self).tracker@ == old(self).tracker@.remove(component_id@),
            match lookup(old(self).tracker@, component_id@) {
                Some(o) => r == Ok::<Owned<ComponentData>, CodexError>(o),
                None => r is Err && r->Err_0@ == if creating {
                    CodexErrorView::Internal("component not tracked"@)
                } else {
                    CodexErrorView::NotFound("component not tracked"@)
                },
            },
    {
        match self.tracker.remove(component_id) {
            Some(o) => Ok(o),
            None => if creating {
                Err(CodexError::Internal("component not tracked".to_owned()))
            } else {
                Err(CodexError::NotFound("component not tracked".to_owned()))
            },
        }
    }

    /// Puts a component back.
    pub fn check_in(&mut self, component_id: &str, component: Owned<ComponentData>)
        ensures
            final(self).tracker@ == old(self).tracker@.insert(component_id@, component),
    {
        self.tracker.insert(component_id.to_owned(), component);
    }
}

impl Default for Codex {
    fn default() -> (r: Codex)
        ensures
            r.tracker@ == Map::<Seq<char>, Owned<ComponentData>>::empty(),
    {
        Codex::new()
    }
}

// ---- Laws ----

/// Every event of the process is handed to the guest once, in order, behind those still pending.
pub proof fn events_arrive_in_order(s: SessionView, events: Seq<CodexJsonlEvent>)
    ensures
        absorb_all(s, events).pending == s.pending + events,
    decreases events.len(),
{
    if events.len() > 0 {
        events_arrive_in_order(s, events.drop_last());
        assert(absorb_all(s, events).pending =~= s.pending + events);
    } else {
        assert(s.pending + events =~= s.pending);
    }
}

/// The usage of a session does not depend on how its events are split into batches.
pub proof fn usage_adds_up(s: SessionView, a: Seq<CodexJsonlEvent>, b: Seq<CodexJsonlEvent>)
    ensures
        absorb_all(delivered(absorb_all(s, a)), b).usage == usage_after(s.usage, a + b),
    decreases b.len(),
{
    lemma_absorb_usage(s, a);
    lemma_absorb_usage(delivered(absorb_all(s, a)), b);
    if b.len() == 0 {
        assert(a + b == a);
    } else {
        usage_adds_up(s, a, b.drop_last());
        lemma_absorb_usage(delivered(absorb_all(s, a)), b.drop_last());
        assert((a + b).drop_last() == a + b.drop_last());
        assert((a + b).last() == b.last());
    }
}

/// A session that has ended stays ended.
pub proof fn ended_session_stays_ended(s: SessionView, events: Seq<CodexJsonlEvent>)
    requires
        s.ended,
    ensures
        delivered(absorb_all(s, events)).ended,
    decreases events.len(),
{
    if events.len() > 0 {
        ended_session_stays_ended(s, events.drop_last());
    }
}

/// A session that approves by itself leaves no request for approval behind.
pub proof fn auto_approval_leaves_nothing_pending(s: SessionView)
    requires
        s.auto_approve,
    ensures
        delivered(s).approval is None,
{
}

/// A deleted session is found no more, and is current in no context.
pub proof fn deleted_session_is_gone(before: ComponentData, after: ComponentData, id: Seq<char>)
    requires
        before.key_of(id) is Some,
        after.session_id_map@ == before.session_id_map@.remove(id),
        after.sessions@ == before.sessions@.remove(before.key_of(id)->0),
        after.current_sessions@ == without_value(before.current_sessions@, before.key_of(id)->0),
    ensures
        after.session_of(id) is None,
        !after.sessions@.contains_key(before.key_of(id)->0),
        forall|c: Seq<char>| #[trigger]
            after.current_sessions@.contains_key(c) ==> after.current_sessions@[c]@
                != before.key_of(id)->0,
{
}

/// What the guest passes decides, whatever the static configuration holds.
pub proof fn passed_config_has_priority(
    c: CodexConfig,
    d: WitCodexConfig,
    m: Map<Seq<char>, String>,
    binary: Seq<char>,
    dir: Seq<char>,
)
    requires
        run_settings(c, Some(d), m, binary, dir),
    ensures
        c.api_token@ == d.api_token@,
        c.model@ == d.model@,
        d.base_url is Some ==> opt_view(c.base_url) == opt_view(d.base_url),
        d.codex_binary_path is Some ==> c.binary_path@ == d.codex_binary_path->0@,
        d.project_dir is Some ==> c.project_dir@ == d.project_dir->0@,
{
}

/// The event for the start or the end of an item says what the item says: its id, its type, its
/// text, its command and its status are the strings under those keys, and none where the item has
/// no such string. The item itself goes along as it came.
pub proof fn items_are_told_as_they_are(item: Seq<char>, ended: bool, r: ExecStreamEvent)
    requires
        converted(
            if ended {
                EventView::ItemCompleted(item)
            } else {
                EventView::ItemStarted(item)
            },
            r,
        ),
    ensures
        match r {
            ExecStreamEvent::Event(e) => {
                let j = value_of(item);
                &&& ended ==> e.event_type@ == "item.completed"@
                &&& !ended ==> e.event_type@ == "item.started"@
                &&& e.raw_json@ == item
                &&& forall|s: Seq<char>| #[trigger]
                    says_text(j, "id"@, s) <==> opt_view(e.item_id) == Some(s)
                &&& forall|s: Seq<char>| #[trigger]
                    says_text(j, "type"@, s) <==> opt_view(e.item_type) == Some(s)
                &&& forall|s: Seq<char>| #[trigger]
                    says_text(j, "text"@, s) <==> opt_view(e.text_content) == Some(s)
                &&& forall|s: Seq<char>| #[trigger]
                    says_text(j, "command"@, s) <==> opt_view(e.command) == Some(s)
                &&& forall|s: Seq<char>| #[trigger]
                    says_text(j, "status"@, s) <==> opt_view(e.status) == Some(s)
            },
            _ => false,
        },
{
    let j = value_of(item);
    strings_are_found_by_their_key(j, "id"@);
    strings_are_found_by_their_key(j, "type"@);
    strings_are_found_by_their_key(j, "text"@);
    strings_are_found_by_their_key(j, "command"@);
    strings_are_found_by_their_key(j, "status"@);
}

/// A thread is told by its id, the start of a turn as an empty event, and a turn that ends by what
/// it used.
pub proof fn turns_are_told(id: Seq<char>, u: CodexUsage, a: ExecStreamEvent, b: ExecStreamEvent, c: ExecStreamEvent)
    requires
        converted(EventView::ThreadStarted(id), a),
        converted(EventView::TurnStarted, b),
        converted(EventView::TurnCompleted(u), c),
    ensures
        a is Done && a->Done_0@ == id,
        match b {
            ExecStreamEvent::Event(e) => {
                &&& e.event_type@ == "turn.started"@
                &&& e.raw_json@ == "{}"@
                &&& e.item_id is None && e.item_type is None && e.text_content is None
                &&& e.command is None && e.status is None
            },
            _ => false,
        },
        match c {
            ExecStreamEvent::Usage(t) => t.input_tokens == u.input_tokens && t.cached_input_tokens
                == u.cached_input_tokens && t.output_tokens == u.output_tokens,
            _ => false,
        },
{
}

/// A failure is told by its message: for a turn that failed the string under `message` in what the
/// process reported, and `unknown error` where there is no such string.
pub proof fn failures_are_told(error: Seq<char>, m: Seq<char>, a: ExecStreamEvent, b: ExecStreamEvent)
    requires
        converted(EventView::TurnFailed(error), a),
        converted(EventView::Error(m), b),
    ensures
        a is Error && b is Error,
        b->Error_0@ == m,
        forall|s: Seq<char>| #[trigger]
            says_text(value_of(error), "message"@, s) ==> a->Error_0@ == s,
        (forall|s: Seq<char>| !#[trigger] says_text(value_of(error), "message"@, s))
            ==> a->Error_0@ == "unknown error"@,
{
    strings_are_found_by_their_key(value_of(error), "message"@);
    if text_member(value_of(error), "message"@) is Some {
        assert(says_text(
            value_of(error),
            "message"@,
            text_member(value_of(error), "message"@)->0,
        ));
    }
}

/// A request for approval names its call, or its item where there is no call, and is `unknown`
/// where neither is a string; its command is the string under `command`, else what stands there.
pub proof fn approvals_are_told(item: Seq<char>, r: ExecStreamEvent)
    requires
        converted(EventView::ExecApprovalRequest(item), r),
    ensures
        match r {
            ExecStreamEvent::ApprovalNeeded(a) => {
                let j = value_of(item);
                &&& forall|s: Seq<char>| #[trigger] says_text(j, "call_id"@, s) ==> a.item_id@ == s
                &&& forall|s: Seq<char>| #[trigger]
                    says_text(j, "id"@, s) && member(j, "call_id"@) is None ==> a.item_id@ == s
                &&& (forall|s: Seq<char>| !#[trigger] says_text(j, "call_id"@, s)) && (member(
                    j,
                    "call_id"@,
                ) is Some || forall|s: Seq<char>| !#[trigger] says_text(j, "id"@, s)) ==> a.item_id@
                    == "unknown"@
                &&& forall|s: Seq<char>| #[trigger] says_text(j, "command"@, s) ==> a.command@ == s
                &&& forall|t: Seq<char>| #[trigger]
                    stands_under(j, "command"@, t) && (forall|s: Seq<char>|
                        !#[trigger] says_text(j, "command"@, s)) ==> a.command@ == t
                &&& member(j, "command"@) is None ==> a.command@.len() == 0
            },
            _ => false,
        },
{
    let j = value_of(item);
    strings_are_found_by_their_key(j, "call_id"@);
    strings_are_found_by_their_key(j, "id"@);
    strings_are_found_by_their_key(j, "command"@);
    members_are_found_by_their_key(j, "command"@);
    if text_member(j, "call_id"@) is Some {
        assert(says_text(j, "call_id"@, text_member(j, "call_id"@)->0));
    }
    if text_member(j, "id"@) is Some {
        assert(says_text(j, "id"@, text_member(j, "id"@)->0));
    }
    if text_member(j, "command"@) is Some {
        assert(says_text(j, "command"@, text_member(j, "command"@)->0));
    }
}

/// A session ends with the first event that completes or fails a turn or reports an error, and with
/// no other; what the guest decided of it stays.
pub proof fn sessions_end_with_a_turn(s: SessionView, events: Seq<CodexJsonlEvent>)
    ensures
        absorb_all(s, events).ended <==> s.ended || exists|i: int|
            0 <= i < events.len() && (#[trigger] events[i] is TurnCompleted || events[i] is TurnFailed
                || events[i] is Error),
        absorb_all(s, events).has_stdin == s.has_stdin,
        absorb_all(s, events).auto_approve == s.auto_approve,
    decreases events.len(),
{
    if events.len() > 0 {
        let d = events.drop_last();
        sessions_end_with_a_turn(s, d);
        assert forall|i: int| 0 <= i < d.len() implies d[i] == #[trigger] events[i] by {}
        assert(events.last() == events[events.len() - 1]);
        if exists|i: int|
            0 <= i < d.len() && (#[trigger] d[i] is TurnCompleted || d[i] is TurnFailed || d[i] is Error) {
            let i = choose|i: int|
                0 <= i < d.len() && (#[trigger] d[i] is TurnCompleted || d[i] is TurnFailed
                    || d[i] is Error);
            assert(events[i] == d[i]);
        }
    }
}

/// A session goes by the id of the thread that started last, and by the one it had where none did.
pub proof fn sessions_go_by_their_last_thread(
    s: SessionView,
    before: Seq<CodexJsonlEvent>,
    e: CodexJsonlEvent,
    after: Seq<CodexJsonlEvent>,
)
    requires
        forall|i: int| 0 <= i < after.len() ==> !(#[trigger] after[i] is ThreadStarted),
    ensures
        match e {
            CodexJsonlEvent::ThreadStarted { thread_id } => absorb_all(
                s,
                before.push(e) + after,
            ).session_id == Some(thread_id@),
            _ => true,
        },
        absorb_all(s, after).session_id == s.session_id,
    decreases after.len(),
{
    if after.len() == 0 {
        assert(before.push(e) + after =~= before.push(e));
        assert(before.push(e).drop_last() =~= before);
    } else {
        sessions_go_by_their_last_thread(s, before, e, after.drop_last());
        assert((before.push(e) + after).drop_last() =~= before.push(e) + after.drop_last());
        assert((before.push(e) + after).last() == after.last());
        assert(after.last() == after[after.len() - 1]);
    }
}

/// The request that waits for approval is the last one that came, and the one that waited before
/// where none came.
pub proof fn the_last_request_waits(
    s: SessionView,
    before: Seq<CodexJsonlEvent>,
    e: CodexJsonlEvent,
    after: Seq<CodexJsonlEvent>,
    told: ExecStreamEvent,
)
    requires
        converted(e@, told),
        forall|i: int| 0 <= i < after.len() ==> !(#[trigger] after[i] is ExecApprovalRequest),
    ensures
        match told {
            ExecStreamEvent::ApprovalNeeded(a) => absorb_all(s, before.push(e) + after).approval
                == Some(a.item_id@),
            _ => true,
        },
        absorb_all(s, after).approval == s.approval,
    decreases after.len(),
{
    if after.len() == 0 {
        assert(before.push(e) + after =~= before.push(e));
        assert(before.push(e).drop_last() =~= before);
    } else {
        the_last_request_waits(s, before, e, after.drop_last(), told);
        assert((before.push(e) + after).drop_last() =~= before.push(e) + after.drop_last());
        assert((before.push(e) + after).last() == after.last());
        assert(after.last() == after[after.len() - 1]);
    }
}

/// A turn adds what it used, count by count; other events add nothing.
pub proof fn turns_add_their_usage(u: UsageView, events: Seq<CodexJsonlEvent>, e: CodexJsonlEvent)
    ensures
        match e {
            CodexJsonlEvent::TurnCompleted { usage } => {
                let a = usage_after(u, events);
                let b = usage_after(u, events.push(e));
                &&& b.input - a.input == usage.input_tokens
                &&& b.cached - a.cached == usage.cached_input_tokens
                &&& b.output - a.output == usage.output_tokens
            },
            _ => usage_after(u, events.push(e)) == usage_after(u, events),
        },
        usage_after(u, Seq::<CodexJsonlEvent>::empty()) == u,
{
    assert(events.push(e).drop_last() =~= events);
}

/// What was handed over is no longer pending, and nothing else of the session changes but a request
/// that the session approves by itself.
pub proof fn delivery_empties_the_queue(s: SessionView)
    ensures
        delivered(s).pending.len() == 0,
        delivered(s).ended == s.ended,
        delivered(s).usage == s.usage,
        delivered(s).session_id == s.session_id,
        delivered(s).has_stdin == s.has_stdin,
        delivered(s).auto_approve == s.auto_approve,
        !s.auto_approve ==> delivered(s).approval == s.approval,
        s.auto_approve ==> delivered(s).approval is None,
{
}

/// A batch holds one event for each pending one, in order; `y` is written exactly where a request
/// waits that the session approves by itself and can answer.
pub proof fn batches_hold_what_is_pending(b: NextBatch, s: SessionView)
    requires
        batch_of(b, s),
    ensures
        b.events@.len() == s.pending.len(),
        b.done <==> s.ended,
        forall|i: int|
            0 <= i < s.pending.len() ==> converted(s.pending[i]@, #[trigger] b.events@[i]),
        b.write is Some <==> s.auto_approve && s.has_stdin && s.approval is Some,
        b.write is Some ==> b.write->0@ == "y\n"@,
{
}

/// A new session has no events and no usage, can be written to and approves by itself.
pub proof fn new_sessions_are_blank(id: Option<Seq<char>>)
    ensures
        ({
            let s = fresh_session(id);
            &&& s.pending.len() == 0
            &&& !s.ended
            &&& s.usage.input == 0 && s.usage.cached == 0 && s.usage.output == 0
            &&& s.session_id == id
            &&& s.has_stdin
            &&& s.auto_approve
            &&& s.approval is None
        }),
{
}

/// An approval is passed on only for the request that waits; for a session that is not there, where
/// nothing waits, and for another request the answer is an error that says so.
pub proof fn approvals_match_the_request(
    s: Option<CodexSessionState>,
    session_id: Seq<char>,
    item_id: Seq<char>,
)
    ensures
        match approval_answer(s, session_id, item_id) {
            Ok(write) => s is Some && s->0.pending_approval_item_id is Some
                && s->0.pending_approval_item_id->0@ == item_id && write == s->0.has_stdin,
            Err(e) => match s {
                None => e == CodexErrorView::NotFound("session '"@ + session_id + "' not found"@),
                Some(s) => match s.pending_approval_item_id {
                    None => e == CodexErrorView::Internal("no pending approval request"@),
                    Some(p) => p@ != item_id && e == CodexErrorView::Internal(
                        "item '"@ + item_id + "' does not match pending approval"@,
                    ),
                },
            },
        },
{
}

/// The first thread of a run names its session, for good; nothing else that is known of a session
/// changes, nor what is known of others.
pub proof fn sessions_are_named_once(
    before: Map<Seq<char>, SessionMetadata>,
    after: Map<Seq<char>, SessionMetadata>,
    key: Seq<char>,
    session_id: Option<Seq<char>>,
)
    requires
        metadata_after(before, after, key, session_id),
    ensures
        after.dom() == before.dom(),
        forall|k: Seq<char>| k != key && before.contains_key(k) ==> #[trigger] after[k] == before[k],
        session_id is None ==> after == before,
        before.contains_key(key) ==> {
            &&& after[key].context_key@ == before[key].context_key@
            &&& after[key].created_at@ == before[key].created_at@
            &&& before[key].session_id@.len() > 0 ==> after[key].session_id@
                == before[key].session_id@ && after[key].thread_id@ == before[key].thread_id@
            &&& before[key].session_id@.len() == 0 && session_id is Some ==> after[key].session_id@
                == session_id->0 && after[key].thread_id@ == session_id->0
        },
{
    if before.contains_key(key) && session_id is Some {
        assert forall|k: Seq<char>| #[trigger] after.contains_key(k) == before.contains_key(k) by {
            assert(after.remove(key).contains_key(k) == before.remove(key).contains_key(k));
        }
        assert(after.dom() =~= before.dom());
        assert forall|k: Seq<char>| k != key && before.contains_key(k) implies #[trigger] after[k]
            == before[k] by {
            assert(after.remove(key)[k] == before.remove(key)[k]);
        }
    }
}

/// Contexts that pointed to the deleted session point to none; the others keep theirs.
pub proof fn other_contexts_keep_their_session(m: Map<Seq<char>, String>, v: Seq<char>)
    ensures
        forall|c: Seq<char>| #[trigger]
            without_value(m, v).contains_key(c) <==> m.contains_key(c) && m[c]@ != v,
        forall|c: Seq<char>|
            m.contains_key(c) && m[c]@ != v ==> #[trigger] without_value(m, v)[c] == m[c],
{
}

/// A listed session shows its own ids and counts, and no counts where it does not run.
pub proof fn listings_show_the_session(i: SessionInfo, m: SessionMetadata, s: Option<CodexSessionState>)
    requires
        listed(i, m, s),
    ensures
        i.session_id@ == m.session_id@,
        i.thread_id@ == m.thread_id@,
        i.created_at@ == m.created_at@,
        i.token_usage is Some <==> s is Some,
        s is Some ==> i.token_usage->0.input_tokens == s->0.usage.input_tokens
            && i.token_usage->0.cached_input_tokens == s->0.usage.cached_input_tokens
            && i.token_usage->0.output_tokens == s->0.usage.output_tokens,
{
}

/// What the guest does not pass comes from the static configuration, under the name of the setting;
/// the program and the directory have a default, the address has none.
pub proof fn static_config_fills_the_gaps(
    c: CodexConfig,
    m: Map<Seq<char>, String>,
    binary: Seq<char>,
    dir: Seq<char>,
    by_run: bool,
)
    requires
        if by_run {
            run_settings(c, None, m, binary, dir)
        } else {
            settings_of(c, m, binary, dir)
        },
    ensures
        m.contains_key("api_token"@) && c.api_token@ == m["api_token"@]@,
        m.contains_key("model"@) && c.model@ == m["model"@]@,
        c.base_url is Some <==> m.contains_key("base_url"@),
        c.base_url is Some ==> c.base_url->0@ == m["base_url"@]@,
        m.contains_key("codex_binary_path"@) ==> c.binary_path@ == m["codex_binary_path"@]@,
        !m.contains_key("codex_binary_path"@) ==> c.binary_path@ == binary,
        m.contains_key("project_dir"@) ==> c.project_dir@ == m["project_dir"@]@,
        !m.contains_key("project_dir"@) ==> c.project_dir@ == dir,
{
}

/// A part that the guest leaves out of its own settings comes from the static configuration.
pub proof fn omitted_settings_are_static(
    c: CodexConfig,
    d: WitCodexConfig,
    m: Map<Seq<char>, String>,
    binary: Seq<char>,
    dir: Seq<char>,
)
    requires
        run_settings(c, Some(d), m, binary, dir),
    ensures
        d.base_url is None && m.contains_key("base_url"@) ==> c.base_url is Some && c.base_url->0@
            == m["base_url"@]@,
        d.base_url is None && !m.contains_key("base_url"@) ==> c.base_url is None,
        d.codex_binary_path is None ==> c.binary_path@ == if m.contains_key("codex_binary_path"@) {
            m["codex_binary_path"@]@
        } else {
            binary
        },
        d.project_dir is None ==> c.project_dir@ == if m.contains_key("project_dir"@) {
            m["project_dir"@]@
        } else {
            dir
        },
{
}

/// A run needs a token and a model that are not empty, whoever gives them.
pub proof fn runs_need_a_token_and_a_model(d: Option<WitCodexConfig>, m: Map<Seq<char>, String>)
    ensures
        d is Some ==> (blank(run_token(d, m)) <==> d->0.api_token@.len() == 0),
        d is Some ==> (blank(run_model(d, m)) <==> d->0.model@.len() == 0),
        d is None ==> (blank(run_token(d, m)) <==> !m.contains_key("api_token"@)
            || m["api_token"@]@.len() == 0),
        d is None ==> (blank(run_model(d, m)) <==> !m.contains_key("model"@)
            || m["model"@]@.len() == 0),
{
}

/// Keys grow with time: a later key stands for a greater number than every key before it, and the
/// number is the time itself where no key stood for that time or a later one.
pub proof fn session_keys_grow(
    a: SessionKeys,
    b: SessionKeys,
    c: SessionKeys,
    first: u128,
    second: u128,
    x: Seq<char>,
    y: Seq<char>,
)
    requires
        makes_key(a, b, first, x),
        makes_key(b, c, second, y),
    ensures
        x != y,
        a.next <= first ==> x == decimal(first as nat),
        first < a.next ==> x == decimal(a.next as nat),
        b.next > a.next && c.next > b.next,
        made(b, x) && made(c, x) && made(c, y) && !made(a, x),
{
    let n: u128 = if first < a.next {
        a.next
    } else {
        first
    };
    let k: u128 = if second < b.next {
        b.next
    } else {
        second
    };
    if decimal(n as nat) == decimal(k as nat) {
        decimal_is_injective(n as nat, k as nat);
    }
    assert(n < b.next && x == decimal(n as nat));
    assert(n < c.next && k < c.next && y == decimal(k as nat));
    assert forall|number: u128| number < a.next implies x != #[trigger] decimal(number as nat) by {
        if decimal(n as nat) == decimal(number as nat) {
            decimal_is_injective(n as nat, number as nat);
        }
    }
}

/// The plugin goes by its own name, and takes and gives the interfaces of its own package.
pub proof fn the_plugin_and_its_world(p: Codex, id: &'static str, w: WitWorld)
    requires
        call_ensures(Codex::id, (&p,), id),
        call_ensures(Codex::world, (&p,), w),
    ensures
        id@ == "codex"@,
        w.imports@.len() == 0,
        w.exports@.len() == 1,
        w.exports@[0].names("custom"@, "codex"@, seq!["executor"@, "session"@], "0.1.0"@),
{
}

/// The fields of an item are the strings under their names, and none where there is no such string.
pub proof fn fields_are_read_by_name(item: &Json, f: ItemFields, s: Seq<char>)
    requires
        call_ensures(extract_item_fields, (item,), f),
    ensures
        says_text(item@, "id"@, s) <==> opt_view(f.item_id) == Some(s),
        says_text(item@, "type"@, s) <==> opt_view(f.item_type) == Some(s),
        says_text(item@, "text"@, s) <==> opt_view(f.text_content) == Some(s),
        says_text(item@, "command"@, s) <==> opt_view(f.command) == Some(s),
        says_text(item@, "status"@, s) <==> opt_view(f.status) == Some(s),
{
    strings_are_found_by_their_key(item@, "id"@);
    strings_are_found_by_their_key(item@, "type"@);
    strings_are_found_by_their_key(item@, "text"@);
    strings_are_found_by_their_key(item@, "command"@);
    strings_are_found_by_their_key(item@, "status"@);
}

/// What the guest is told of an item is what is read out of the item itself.
pub proof fn guests_are_told_the_fields(
    item: &Json,
    text: String,
    a: ExecStreamEvent,
    b: ExecStreamEvent,
    f: ItemFields,
)
    requires
        item@ == value_of(text@),
        call_ensures(convert_event, (CodexJsonlEvent::ItemStarted { item: text },), a),
        call_ensures(convert_event, (CodexJsonlEvent::ItemCompleted { item: text },), b),
        call_ensures(extract_item_fields, (item,), f),
    ensures
        match (a, b) {
            (ExecStreamEvent::Event(x), ExecStreamEvent::Event(y)) => {
                &&& x.event_type@ == "item.started"@ && y.event_type@ == "item.completed"@
                &&& opt_view(x.item_id) == opt_view(f.item_id) && opt_view(y.item_id) == opt_view(f.item_id)
                &&& opt_view(x.item_type) == opt_view(f.item_type) && opt_view(y.item_type) == opt_view(f.item_type)
                &&& opt_view(x.text_content) == opt_view(f.text_content) && opt_view(y.text_content) == opt_view(f.text_content)
                &&& opt_view(x.command) == opt_view(f.command) && opt_view(y.command) == opt_view(f.command)
                &&& opt_view(x.status) == opt_view(f.status) && opt_view(y.status) == opt_view(f.status)
                &&& x.raw_json@ == text@ && y.raw_json@ == text@
            },
            _ => false,
        },
{
}

/// The answer to a request is `y` where the guest approves and `n` where it does not.
pub proof fn answers_are_yes_or_no(
    d: ComponentData,
    session_id: &str,
    item_id: &str,
    approved: bool,
    r: Result<Option<&'static str>, CodexError>,
)
    requires
        call_ensures(ComponentData::approve, (&d, session_id, item_id, approved), r),
    ensures
        match r {
            Ok(Some(t)) => t@ == if approved {
                "y\n"@
            } else {
                "n\n"@
            } && d.session_of(session_id@) is Some && d.session_of(session_id@)->0.has_stdin,
            Ok(None) => d.session_of(session_id@) is Some && !d.session_of(session_id@)->0.has_stdin,
            Err(e) => d.session_of(session_id@) is None ==> e@ == CodexErrorView::NotFound(
                "session '"@ + session_id@ + "' not found"@,
            ),
        },
        r is Ok ==> d.session_of(session_id@)->0.pending_approval_item_id is Some
            && d.session_of(session_id@)->0.pending_approval_item_id->0@ == item_id@,
{
}

/// A prompt goes on with the session that is current in its context, once that has an id; else a
/// session is made.
pub proof fn prompts_go_on_with_the_current_session(d: ComponentData, context: &str, r: ExecutePlan)
    requires
        call_ensures(ComponentData::execute_plan, (&d, context), r),
    ensures
        match r {
            ExecutePlan::Resume(id) => d.current_sessions@.contains_key(context@)
                && d.sessions@.contains_key(d.current_sessions@[context@]@)
                && d.sessions@[d.current_sessions@[context@]@].session_id is Some
                && d.sessions@[d.current_sessions@[context@]@].session_id->0@ == id@,
            ExecutePlan::Create => !d.current_sessions@.contains_key(context@)
                || !d.sessions@.contains_key(d.current_sessions@[context@]@)
                || d.sessions@[d.current_sessions@[context@]@].session_id is None,
        },
{
}

/// A start that failed is told by its step, as a fault of the process.
pub proof fn failed_starts_are_told(m: &str, a: CodexError, b: CodexError, c: CodexError, d: CodexError)
    requires
        call_ensures(start_error, (StartStep::EnsureBinary, m), a),
        call_ensures(start_error, (StartStep::Spawn, m), b),
        call_ensures(start_error, (StartStep::SpawnResume, m), c),
        call_ensures(start_error, (StartStep::TakeOutput, m), d),
    ensures
        a@ == CodexErrorView::ProcessError("codex binary not available: "@ + m@),
        b@ == CodexErrorView::ProcessError("failed to spawn codex: "@ + m@),
        c@ == CodexErrorView::ProcessError("failed to spawn codex resume: "@ + m@),
        d@ == CodexErrorView::ProcessError("codex process has no stdout"@),
{
}

/// A process is started with the settings of its run.
pub proof fn processes_take_the_settings(c: CodexConfig, r: CodexSpawnConfig)
    requires
        call_ensures(CodexConfig::spawn_config, (c,), r),
    ensures
        r.binary_path@ == c.binary_path@,
        r.model@ == c.model@,
        r.api_token@ == c.api_token@,
        r.project_dir@ == c.project_dir@,
        opt_view(r.base_url) == opt_view(c.base_url),
{
}

/// A run is refused for a missing token before a missing model, and for nothing else.
pub proof fn missing_settings_are_named(
    d: Option<WitCodexConfig>,
    config: &Config,
    binary: &str,
    dir: &str,
    r: Result<CodexConfig, String>,
    s: Result<CodexConfig, String>,
)
    requires
        call_ensures(resolve_codex_config, (d, config, binary, dir), r),
        call_ensures(extract_config, (config, binary, dir), s),
    ensures
        match r {
            Ok(c) => c.api_token@.len() > 0 && c.model@.len() > 0,
            Err(e) => if blank(run_token(d, config@)) {
                e@ == "missing required config: 'api_token'"@
            } else {
                blank(run_model(d, config@)) && e@ == "missing required config: 'model'"@
            },
        },
        match s {
            Ok(c) => c.api_token@.len() > 0 && c.model@.len() > 0,
            Err(e) => if !config@.contains_key("api_token"@) || config@["api_token"@]@.len() == 0 {
                e@ == "missing required config: 'api_token'"@
            } else {
                (!config@.contains_key("model"@) || config@["model"@]@.len() == 0) && e@
                    == "missing required config: 'model'"@
            },
        },
{
}

/// The usage of a session is its own, and a session that is not there is told so.
pub proof fn usage_is_that_of_the_session(
    d: ComponentData,
    id: &str,
    r: Result<TokenUsage, CodexError>,
)
    requires
        call_ensures(ComponentData::get_usage, (&d, id), r),
    ensures
        d.session_of(id@) is Some <==> r is Ok,
        r is Ok ==> r->Ok_0.input_tokens == d.session_of(id@)->0.usage.input_tokens
            && r->Ok_0.cached_input_tokens == d.session_of(id@)->0.usage.cached_input_tokens
            && r->Ok_0.output_tokens == d.session_of(id@)->0.usage.output_tokens,
        r is Err ==> r->Err_0@ == CodexErrorView::NotFound("session '"@ + id@ + "' not found"@),
{
}

/// What a process reports is kept: all events in order behind those that wait, and what they say of
/// the session.
pub proof fn reports_are_kept(session: &mut CodexSessionState, events: Vec<CodexJsonlEvent>)
    requires
        usage_stays_in_range(old(session).usage@, events@),
        call_ensures(drain_channel, (session, events), ()),
    ensures
        final(session).pending_events@ == old(session).pending_events@ + events@,
        final(session).usage@ == usage_after(old(session).usage@, events@),
        final(session).ended <==> old(session).ended || exists|i: int|
            0 <= i < events@.len() && (#[trigger] events@[i] is TurnCompleted || events@[i] is TurnFailed
                || events@[i] is Error),
        final(session).auto_approve == old(session).auto_approve,
        final(session).has_stdin == old(session).has_stdin,
{
    events_arrive_in_order(old(session)@, events@);
    sessions_end_with_a_turn(old(session)@, events@);
    lemma_absorb_usage(old(session)@, events@);
}

/// A session that is made is current nowhere yet, has no id, and is known by its context and time.
pub proof fn made_sessions_wait_for_their_id(
    d: &mut ComponentData,
    key: &str,
    context: &str,
    created: &str,
)
    requires
        call_ensures(ComponentData::session_created, (d, key, context, created), ()),
    ensures
        final(d).sessions@.contains_key(key@),
        final(d).sessions@[key@].session_id is None,
        final(d).sessions@[key@].auto_approve && !final(d).sessions@[key@].ended,
        final(d).session_metadata@[key@].context_key@ == context@,
        final(d).session_metadata@[key@].created_at@ == created@,
        final(d).session_metadata@[key@].session_id@.len() == 0,
        final(d).current_sessions == old(d).current_sessions,
{
}

/// A session that is resumed is found by its id again.
pub proof fn resumed_sessions_are_found(d: &mut ComponentData, id: &str, key: &str)
    requires
        call_ensures(ComponentData::session_resumed, (d, id, key), ()),
    ensures
        final(d).key_of(id@) == Some(key@),
        final(d).session_of(id@) is Some,
        opt_view(final(d).session_of(id@)->0.session_id) == Some(id@),
        final(d).session_of(id@)->0.auto_approve,
        final(d).session_metadata == old(d).session_metadata,
{
}

/// Changing the session of a context makes that one current, if it is there.
pub proof fn changed_contexts_have_the_session(
    d: &mut ComponentData,
    context: &str,
    id: &str,
    r: Result<(), CodexError>,
)
    requires
        call_ensures(ComponentData::change_session, (d, context, id), r),
    ensures
        r is Ok <==> old(d).session_of(id@) is Some,
        r is Ok ==> setting(final(d).current_sessions@, context@) == old(d).key_of(id@)
            && final(d).sessions == old(d).sessions,
        r is Err ==> *final(d) == *old(d) && r->Err_0@ == CodexErrorView::NotFound(
            "session '"@ + id@ + "' not found"@,
        ),
{
}

/// Whether a session approves by itself is what was set last; nothing else of it changes.
pub proof fn approval_is_what_was_set(
    d: &mut ComponentData,
    id: &str,
    auto: bool,
    r: Result<(), CodexError>,
)
    requires
        call_ensures(ComponentData::set_auto_approve, (d, id, auto), r),
    ensures
        r is Ok <==> old(d).session_of(id@) is Some,
        r is Ok ==> {
            let before = old(d).session_of(id@)->0;
            let after = final(d).session_of(id@)->0;
            &&& final(d).session_of(id@) is Some
            &&& after.auto_approve == auto
            &&& after@.pending == before@.pending && after@.usage == before@.usage && after@.approval
                == before@.approval && after.ended == before.ended
        },
        r is Err ==> *final(d) == *old(d),
{
}

/// An answer that reached the process settles the request; one that did not leaves it.
pub proof fn written_answers_settle_the_request(
    d: &mut ComponentData,
    id: &str,
    written: Result<(), String>,
    r: Result<(), CodexError>,
)
    requires
        call_ensures(ComponentData::approval_written, (d, id, written), r),
    ensures
        written is Err ==> *final(d) == *old(d) && r is Err && r->Err_0@
            == CodexErrorView::ProcessError(
            "failed to write approval to stdin: "@ + written->Err_0@,
        ),
        written is Ok && old(d).session_of(id@) is Some ==> r is Ok && final(d).session_of(id@)
            is Some && final(d).session_of(id@)->0.pending_approval_item_id is None
            && final(d).session_of(id@)->0@.pending == old(d).session_of(id@)->0@.pending,
{
}

/// A deleted session is found no more.
pub proof fn deleted_sessions_are_not_found(d: &mut ComponentData, id: &str, r: Result<(), CodexError>)
    requires
        call_ensures(ComponentData::delete_session, (d, id), r),
    ensures
        r is Ok <==> old(d).key_of(id@) is Some,
        r is Ok ==> final(d).session_of(id@) is None && final(d).key_of(id@) is None,
        r is Ok ==> !final(d).sessions@.contains_key(old(d).key_of(id@)->0)
            && !final(d).session_metadata@.contains_key(old(d).key_of(id@)->0),
        r is Err ==> *final(d) == *old(d),
{
}

/// A component that has an interface of the package is tracked for its workload, as one that has just
/// been bound; any other is not, and nothing else changes.
pub proof fn components_are_bound_for_their_workload(
    p: &mut Codex,
    id: &str,
    workload: &str,
    is_component: bool,
    interfaces: &Vec<WitInterface>,
    token: u64,
    bound: bool,
    other: Seq<char>,
)
    requires
        call_ensures(
            Codex::on_workload_item_bind,
            (p, id, workload, is_component, interfaces, token),
            bound,
        ),
        other != id@,
    ensures
        bound <==> is_component && first_of_package(interfaces@, "custom"@, "codex"@) is Some && ({
            let m = first_of_package(interfaces@, "custom"@, "codex"@)->0.config@;
            &&& m.contains_key("api_token"@) && m["api_token"@]@.len() > 0
            &&& m.contains_key("model"@) && m["model"@]@.len() > 0
        }),
        !bound ==> final(p).tracker@ == old(p).tracker@,
        lookup(final(p).tracker@, other) == lookup(old(p).tracker@, other),
        bound ==> {
            let o = final(p).tracker@[id@];
            &&& final(p).tracker@.contains_key(id@)
            &&& o.workload_id@ == workload@
            &&& o.data.interface_config@ == first_of_package(interfaces@, "custom"@, "codex"@)->0.config@
            &&& o.data.cancel_token == token
            &&& o.data.sessions@.dom().is_empty()
        },
{
    if bound {
        crate::table::putting_leaves_the_others(old(p).tracker@, final(p).tracker@, id@, other);
    }
}

/// A read of a stream hands over what waits and what came, in order, and says whether the session has
/// ended; a stream that has ended stays so and hands over nothing.
pub proof fn reads_hand_over_what_came(
    d: &mut ComponentData,
    h: &mut ExecStreamHandle,
    events: Vec<CodexJsonlEvent>,
    r: Result<NextBatch, CodexError>,
)
    requires
        match lookup(old(d).sessions@, old(h).session_key@) {
            Some(s) => usage_stays_in_range(s.usage@, events@),
            None => true,
        },
        call_ensures(ComponentData::next, (d, h, events), r),
    ensures
        old(h).ended ==> r is Ok && r->Ok_0.events@.len() == 0 && r->Ok_0.done && final(h).ended
            && *final(d) == *old(d),
        !old(h).ended && !old(d).sessions@.contains_key(old(h).session_key@) ==> r is Err,
        !old(h).ended && old(d).sessions@.contains_key(old(h).session_key@) ==> {
            let before = old(d).sessions@[old(h).session_key@];
            let after = final(d).sessions@[old(h).session_key@];
            &&& r is Ok
            &&& r->Ok_0.events@.len() == before.pending_events@.len() + events@.len()
            &&& forall|i: int|
                0 <= i < r->Ok_0.events@.len() ==> converted(
                    (before.pending_events@ + events@)[i]@,
                    #[trigger] r->Ok_0.events@[i],
                )
            &&& after.pending_events@.len() == 0
            &&& after.usage@ == usage_after(before.usage@, events@)
            &&& r->Ok_0.done == after.ended && final(h).ended == after.ended
            &&& before.ended ==> r->Ok_0.done
        },
{
    if !old(h).ended && old(d).sessions@.contains_key(old(h).session_key@) {
        let s = old(d).sessions@[old(h).session_key@]@;
        events_arrive_in_order(s, events@);
        sessions_end_with_a_turn(s, events@);
        lemma_absorb_usage(s, events@);
    }
}

} // verus!
